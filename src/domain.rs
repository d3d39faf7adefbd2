//! Bounding domains: the extent of a set of data points per dimension.
use vstd::prelude::*;

verus! {

/// A dimension of the data
#[derive(Clone, Copy, Debug, PartialEq, Eq, Structural)]
pub enum Dim {
    X,
    Y,
}

/// Why a domain could not be made
#[derive(Clone, Copy, Debug, PartialEq, Eq, Structural)]
pub enum DomainError {
    /// There were no points to bound
    EmptyDomain,
    /// The lower bound is above the upper bound
    InvalidDomain,
}

/// Closed interval `[min, max]` of data values along one dimension.
#[derive(Clone, Copy, Debug, PartialEq, Eq, Structural)]
pub struct Extent {
    pub min: i32,
    pub max: i32,
}

/// Bounding box of data points: one extent per dimension.
#[derive(Clone, Copy, Debug, PartialEq, Eq, Structural)]
pub struct BoundingDomain {
    pub x: Extent,
    pub y: Extent,
}

pub open spec fn coord(p: (i32, i32), dim: Dim) -> int {
    match dim {
        Dim::X => p.0 as int,
        Dim::Y => p.1 as int,
    }
}

impl Extent {
    pub open spec fn wf(self) -> bool {
        self.min <= self.max
    }

    /// Width of the interval
    pub fn span(&self) -> (r: u32)
        requires
            self.wf(),
        ensures
            r == self.max - self.min,
    {
        (self.max as i64 - self.min as i64) as u32
    }
}

impl BoundingDomain {
    pub open spec fn wf(self) -> bool {
        self.x.wf() && self.y.wf()
    }

    pub open spec fn extent_spec(self, dim: Dim) -> Extent {
        match dim {
            Dim::X => self.x,
            Dim::Y => self.y,
        }
    }

    /// The two corners `(min, min)` and `(max, max)`
    pub open spec fn corners(self) -> Seq<(i32, i32)> {
        seq![(self.x.min, self.y.min), (self.x.max, self.y.max)]
    }

    /// The extent along one dimension
    pub fn extent(&self, dim: Dim) -> (r: Extent)
        ensures
            r == self.extent_spec(dim),
    {
        match dim {
            Dim::X => self.x,
            Dim::Y => self.y,
        }
    }
}

/// `e` is the smallest interval holding every point of `pts` along `dim`:
/// it holds them all, and both of its ends are attained.
pub open spec fn is_extent_of(e: Extent, pts: Seq<(i32, i32)>, dim: Dim) -> bool {
    &&& forall|p: (i32, i32)| #[trigger]
        pts.contains(p) ==> e.min <= coord(p, dim) <= e.max
    &&& exists|p: (i32, i32)| #[trigger] pts.contains(p) && coord(p, dim) == e.min
    &&& exists|p: (i32, i32)| #[trigger] pts.contains(p) && coord(p, dim) == e.max
}

/// `d` is the smallest box holding every point of `pts`.
pub open spec fn is_bounding(d: BoundingDomain, pts: Seq<(i32, i32)>) -> bool {
    is_extent_of(d.x, pts, Dim::X) && is_extent_of(d.y, pts, Dim::Y)
}

pub open spec fn union_extent(a: Extent, b: Extent) -> Extent {
    Extent {
        min: if a.min <= b.min { a.min } else { b.min },
        max: if a.max >= b.max { a.max } else { b.max },
    }
}

pub open spec fn union_spec(a: BoundingDomain, b: BoundingDomain) -> BoundingDomain {
    BoundingDomain { x: union_extent(a.x, b.x), y: union_extent(a.y, b.y) }
}


/// Widen an interval to hold `v`.
fn widen(e: Extent, v: i32) -> (r: Extent)
    ensures
        r.min == if v < e.min { v } else { e.min },
        r.max == if v > e.max { v } else { e.max },
{
    Extent { min: if v < e.min { v } else { e.min }, max: if v > e.max { v } else { e.max } }
}

/// Two sequences holding the same points have the same bounding box,
/// whatever their order or repetitions.
pub proof fn lemma_bounding_same_points(d: BoundingDomain, a: Seq<(i32, i32)>, b: Seq<(i32, i32)>)
    requires
        forall|p: (i32, i32)| a.contains(p) <==> b.contains(p),
    ensures
        is_bounding(d, a) <==> is_bounding(d, b),
{
}

/// A sequence of points has at most one bounding box.
pub proof fn lemma_bounding_unique(d1: BoundingDomain, d2: BoundingDomain, pts: Seq<(i32, i32)>)
    requires
        is_bounding(d1, pts),
        is_bounding(d2, pts),
    ensures
        d1 == d2,
{
}

impl BoundingDomain {
    /// Smallest box around `points`; fails with `EmptyDomain` when there
    /// are none.
    pub fn from_points(points: &Vec<(i32, i32)>) -> (r: Result<BoundingDomain, DomainError>)
        ensures
            points@.len() == 0 <==> r == Err::<BoundingDomain, DomainError>(DomainError::EmptyDomain),
            points@.len() > 0 ==> r is Ok,
            r matches Ok(d) ==> d.wf() && is_bounding(d, points@),
    {
        if points.len() == 0 {
            return Err(DomainError::EmptyDomain);
        }
        let p = points[0];
        let mut d = BoundingDomain { x: Extent { min: p.0, max: p.0 }, y: Extent { min: p.1, max: p.1 } };
        let ghost start = d;
        d.extend(points);
        proof {
            assert forall|q: (i32, i32)| (start.corners() + points@).contains(q) <==> points@.contains(q) by {
                let s = start.corners() + points@;
                if s.contains(q) {
                    let k = choose|k: int| 0 <= k < s.len() && s[k] == q;
                    if k < 2 {
                        assert(points@[0] == q);
                    } else {
                        assert(points@[k - 2] == q);
                    }
                }
                if points@.contains(q) {
                    let k = choose|k: int| 0 <= k < points@.len() && points@[k] == q;
                    assert(s[k + 2] == q);
                }
            }
            lemma_bounding_same_points(d, start.corners() + points@, points@);
        }
        Ok(d)
    }

    /// Grow the box to hold `points` as well.
    ///
    /// The result is the smallest box around the old box and the points.
    pub fn extend(&mut self, points: &Vec<(i32, i32)>)
        requires
            old(self).wf(),
        ensures
            final(self).wf(),
            is_bounding(*final(self), old(self).corners() + points@),
    {
        let ghost d0 = *self;
        let mut i: usize = 0;
        while i < points.len()
            invariant
                d0.wf(),
                i <= points.len(),
                self.wf(),
                self.x.min <= d0.x.min && d0.x.max <= self.x.max,
                self.y.min <= d0.y.min && d0.y.max <= self.y.max,
                forall|j: int|
                    0 <= j < i ==> self.x.min <= #[trigger] points@[j].0 <= self.x.max
                        && self.y.min <= points@[j].1 <= self.y.max,
                self.x.min == d0.x.min || exists|j: int| 0 <= j < i && #[trigger] points@[j].0 == self.x.min,
                self.x.max == d0.x.max || exists|j: int| 0 <= j < i && #[trigger] points@[j].0 == self.x.max,
                self.y.min == d0.y.min || exists|j: int| 0 <= j < i && #[trigger] points@[j].1 == self.y.min,
                self.y.max == d0.y.max || exists|j: int| 0 <= j < i && #[trigger] points@[j].1 == self.y.max,
            decreases points.len() - i,
        {
            let p = points[i];
            self.x = widen(self.x, p.0);
            self.y = widen(self.y, p.1);
            i = i + 1;
        }
        proof {
            let s = d0.corners() + points@;
            assert(s[0] == (d0.x.min, d0.y.min));
            assert(s[1] == (d0.x.max, d0.y.max));
            assert forall|q: (i32, i32)| s.contains(q) implies
                self.x.min <= q.0 <= self.x.max && self.y.min <= q.1 <= self.y.max by {
                let k = choose|k: int| 0 <= k < s.len() && s[k] == q;
                if k >= 2 {
                    assert(points@[k - 2] == q);
                }
            }
            if self.x.min == d0.x.min {
                assert(s.contains(s[0]));
            } else {
                let j = choose|j: int| 0 <= j < i && #[trigger] points@[j].0 == self.x.min;
                assert(s[j + 2] == points@[j]);
                assert(s.contains(s[j + 2]));
            }
            if self.x.max == d0.x.max {
                assert(s.contains(s[1]));
            } else {
                let j = choose|j: int| 0 <= j < i && #[trigger] points@[j].0 == self.x.max;
                assert(s[j + 2] == points@[j]);
                assert(s.contains(s[j + 2]));
            }
            if self.y.min == d0.y.min {
                assert(s.contains(s[0]));
            } else {
                let j = choose|j: int| 0 <= j < i && #[trigger] points@[j].1 == self.y.min;
                assert(s[j + 2] == points@[j]);
                assert(s.contains(s[j + 2]));
            }
            if self.y.max == d0.y.max {
                assert(s.contains(s[1]));
            } else {
                let j = choose|j: int| 0 <= j < i && #[trigger] points@[j].1 == self.y.max;
                assert(s[j + 2] == points@[j]);
                assert(s.contains(s[j + 2]));
            }
        }
    }

    /// Smallest box holding both boxes
    pub fn union(&self, other: &BoundingDomain) -> (r: BoundingDomain)
        requires
            self.wf(),
            other.wf(),
        ensures
            r == union_spec(*self, *other),
            r.wf(),
    {
        BoundingDomain {
            x: Extent {
                min: if self.x.min <= other.x.min { self.x.min } else { other.x.min },
                max: if self.x.max >= other.x.max { self.x.max } else { other.x.max },
            },
            y: Extent {
                min: if self.y.min <= other.y.min { self.y.min } else { other.y.min },
                max: if self.y.max >= other.y.max { self.y.max } else { other.y.max },
            },
        }
    }
}

/// The union of two boxes holds both entirely, and its bounds are exactly
/// the outer bounds of the two: the minimum of the minima and the maximum of
/// the maxima, in each dimension.
pub proof fn lemma_union_bounds(a: BoundingDomain, b: BoundingDomain)
    requires
        a.wf(),
        b.wf(),
    ensures
        ({
            let u = union_spec(a, b);
            &&& u.x.min == if a.x.min <= b.x.min { a.x.min } else { b.x.min }
            &&& u.x.max == if a.x.max >= b.x.max { a.x.max } else { b.x.max }
            &&& u.y.min == if a.y.min <= b.y.min { a.y.min } else { b.y.min }
            &&& u.y.max == if a.y.max >= b.y.max { a.y.max } else { b.y.max }
            &&& u.x.min <= a.x.min && a.x.max <= u.x.max && u.y.min <= a.y.min && a.y.max <= u.y.max
            &&& u.x.min <= b.x.min && b.x.max <= u.x.max && u.y.min <= b.y.min && b.y.max <= u.y.max
            &&& is_bounding(u, a.corners() + b.corners())
        }),
{
    let u = union_spec(a, b);
    let s = a.corners() + b.corners();
    assert(s[0] == (a.x.min, a.y.min));
    assert(s[1] == (a.x.max, a.y.max));
    assert(s[2] == (b.x.min, b.y.min));
    assert(s[3] == (b.x.max, b.y.max));
    assert(s.contains(s[0]) && s.contains(s[1]) && s.contains(s[2]) && s.contains(s[3]));
}

/// Union is commutative and associative, so a domain built by a fold of
/// unions does not depend on the order of the parts.
pub proof fn lemma_union_order_free(a: BoundingDomain, b: BoundingDomain, c: BoundingDomain)
    ensures
        union_spec(a, b) == union_spec(b, a),
        union_spec(union_spec(a, b), c) == union_spec(a, union_spec(b, c)),
{
}

} // verus!
