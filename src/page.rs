//! Page geometry: rectangles, edges, and carving space off a rectangle.
use vstd::prelude::*;

verus! {

/// Page aspect ratio
#[derive(Clone, Copy, Debug, PartialEq, Eq, Structural)]
pub enum AspectRatio {
    /// Wide rectangular aspect
    Landscape,
    /// Square aspect
    Square,
    /// Tall rectangular aspect
    Portrait,
}

/// Edge of a rendered item
#[derive(Clone, Copy, Debug, PartialEq, Eq, Structural)]
pub enum Edge {
    Top,
    Left,
    Bottom,
    Right,
}

/// Axis-aligned rectangle in pixel coordinates.
///
/// The origin `(x, y)` is the top-left corner; `y` grows downward.
#[derive(Clone, Copy, Debug, PartialEq, Eq, Structural)]
pub struct Rect {
    pub x: i32,
    pub y: i32,
    pub width: u32,
    pub height: u32,
}

impl Rect {
    /// The right and bottom sides are representable as `i32`.
    pub open spec fn wf(self) -> bool {
        self.x + self.width <= i32::MAX && self.y + self.height <= i32::MAX
    }

    pub open spec fn area(self) -> int {
        self.width * self.height
    }

    /// Whether the pixel `(px, py)` lies inside (half-open on the far sides).
    pub open spec fn contains(self, px: int, py: int) -> bool {
        self.x <= px < self.x + self.width && self.y <= py < self.y + self.height
    }

    /// Rightmost x coordinate
    pub fn x_max(&self) -> (r: i32)
        requires
            self.wf(),
        ensures
            r == self.x + self.width,
    {
        (self.x as i64 + self.width as i64) as i32
    }

    /// Bottom y coordinate
    pub fn y_max(&self) -> (r: i32)
        requires
            self.wf(),
        ensures
            r == self.y + self.height,
    {
        (self.y as i64 + self.height as i64) as i32
    }
}

/// The span along which an edge carves: height for top and bottom, width
/// for left and right.
pub open spec fn edge_span(edge: Edge, r: Rect) -> int {
    match edge {
        Edge::Top | Edge::Bottom => r.height as int,
        Edge::Left | Edge::Right => r.width as int,
    }
}

pub open spec fn clamp_thickness(edge: Edge, r: Rect, t: int) -> int {
    if t <= edge_span(edge, r) {
        t
    } else {
        edge_span(edge, r)
    }
}

/// The carved rectangle and the remainder of splitting `r` on `edge` with
/// thickness `t`, clamped to the available span.
pub open spec fn split_spec(edge: Edge, r: Rect, t: int) -> (Rect, Rect) {
    let c = clamp_thickness(edge, r, t);
    match edge {
        Edge::Top => (
            Rect { height: c as u32, ..r },
            Rect { y: (r.y + c) as i32, height: (r.height - c) as u32, ..r },
        ),
        Edge::Bottom => (
            Rect { y: (r.y + r.height - c) as i32, height: c as u32, ..r },
            Rect { height: (r.height - c) as u32, ..r },
        ),
        Edge::Left => (
            Rect { width: c as u32, ..r },
            Rect { x: (r.x + c) as i32, width: (r.width - c) as u32, ..r },
        ),
        Edge::Right => (
            Rect { x: (r.x + r.width - c) as i32, width: c as u32, ..r },
            Rect { width: (r.width - c) as u32, ..r },
        ),
    }
}

impl Edge {
    /// Carve a rectangle of thickness `value` off this edge of `rect`.
    ///
    /// The thickness is clamped to the available span, so neither result
    /// can have a negative size. `rect` becomes the remainder.
    pub fn split(self, rect: &mut Rect, value: u32) -> (carved: Rect)
        requires
            old(rect).wf(),
        ensures
            (carved, *final(rect)) == split_spec(self, *old(rect), value as int),
            carved.wf(),
            final(rect).wf(),
    {
        let (carved, rest) = rect.split_off(self, value);
        *rect = rest;
        carved
    }
}

impl Rect {
    /// Split into the part carved off `edge` with thickness `value`, and the
    /// remainder; the thickness is clamped to the available span.
    pub fn split_off(self, edge: Edge, value: u32) -> (r: (Rect, Rect))
        requires
            self.wf(),
        ensures
            r == split_spec(edge, self, value as int),
            r.0.wf(),
            r.1.wf(),
    {
        match edge {
            Edge::Top => {
                let c = if value <= self.height { value } else { self.height };
                (
                    Rect { height: c, ..self },
                    Rect { y: (self.y as i64 + c as i64) as i32, height: self.height - c, ..self },
                )
            },
            Edge::Bottom => {
                let c = if value <= self.height { value } else { self.height };
                let rest = self.height - c;
                (
                    Rect { y: (self.y as i64 + rest as i64) as i32, height: c, ..self },
                    Rect { height: rest, ..self },
                )
            },
            Edge::Left => {
                let c = if value <= self.width { value } else { self.width };
                (
                    Rect { width: c, ..self },
                    Rect { x: (self.x as i64 + c as i64) as i32, width: self.width - c, ..self },
                )
            },
            Edge::Right => {
                let c = if value <= self.width { value } else { self.width };
                let rest = self.width - c;
                (
                    Rect { x: (self.x as i64 + rest as i64) as i32, width: c, ..self },
                    Rect { width: rest, ..self },
                )
            },
        }
    }
}


/// Splitting partitions a rectangle: every pixel of `r` lies in exactly one
/// of the carved part and the remainder, neither holds a pixel outside `r`,
/// and their areas add up to the area of `r`.
pub proof fn lemma_split_partitions(edge: Edge, r: Rect, t: int)
    requires
        r.wf(),
        0 <= t,
    ensures
        ({
            let (carved, rest) = split_spec(edge, r, t);
            &&& carved.area() + rest.area() == r.area()
            &&& forall|px: int, py: int|
                r.contains(px, py) <==> (carved.contains(px, py) || rest.contains(px, py))
            &&& forall|px: int, py: int| !(carved.contains(px, py) && rest.contains(px, py))
        }),
{
    let (carved, rest) = split_spec(edge, r, t);
    let c = clamp_thickness(edge, r, t);
    match edge {
        Edge::Top | Edge::Bottom => {
            assert(carved.area() + rest.area() == r.area()) by (nonlinear_arith)
                requires
                    carved.width == r.width,
                    rest.width == r.width,
                    carved.height + rest.height == r.height,
            ;
        },
        Edge::Left | Edge::Right => {
            assert(carved.area() + rest.area() == r.area()) by (nonlinear_arith)
                requires
                    carved.height == r.height,
                    rest.height == r.height,
                    carved.width + rest.width == r.width,
            ;
        },
    }
}

/// Asking for more than the available span carves the whole span and
/// leaves a remainder of zero size along it; no size is ever negative.
pub proof fn lemma_split_saturates(edge: Edge, r: Rect, t: int)
    requires
        r.wf(),
        t > edge_span(edge, r),
    ensures
        ({
            let (carved, rest) = split_spec(edge, r, t);
            &&& edge_span(edge, rest) == 0
            &&& edge_span(edge, carved) == edge_span(edge, r)
            &&& carved.width >= 0 && carved.height >= 0
            &&& rest.width >= 0 && rest.height >= 0
        }),
{
}

impl AspectRatio {
    /// The page rectangle for this aspect ratio
    pub fn rect(self) -> (r: Rect)
        ensures
            r.wf(),
            r.x == 0 && r.y == 0,
            r.width == match self {
                AspectRatio::Portrait => 1500u32,
                _ => 2000u32,
            },
            r.height == match self {
                AspectRatio::Landscape => 1500u32,
                _ => 2000u32,
            },
    {
        match self {
            AspectRatio::Landscape => Rect { x: 0, y: 0, width: 2000, height: 1500 },
            AspectRatio::Square => Rect { x: 0, y: 0, width: 2000, height: 2000 },
            AspectRatio::Portrait => Rect { x: 0, y: 0, width: 1500, height: 2000 },
        }
    }
}

/// Shrink a span `(start, len)` by `v` on both sides; a span shorter than
/// `2 * v` collapses to zero length at its middle.
pub open spec fn inset_span(start: int, len: int, v: int) -> (int, int) {
    if 2 * v <= len {
        (start + v, len - 2 * v)
    } else {
        (start + len / 2, 0)
    }
}

/// `r` shrunk by `v` on every side
pub open spec fn inset_spec(r: Rect, v: int) -> Rect {
    let (x, w) = inset_span(r.x as int, r.width as int, v);
    let (y, h) = inset_span(r.y as int, r.height as int, v);
    Rect { x: x as i32, y: y as i32, width: w as u32, height: h as u32 }
}

/// Shrink a rectangle by `value` on every side.
pub fn inset(rect: Rect, value: u16) -> (r: Rect)
    requires
        rect.wf(),
    ensures
        r.wf(),
        r == inset_spec(rect, value as int),
        (r.x as int, r.width as int) == inset_span(rect.x as int, rect.width as int, value as int),
        (r.y as int, r.height as int) == inset_span(rect.y as int, rect.height as int, value as int),
{
    let v = value as u32;
    let (x, width) = if 2 * v <= rect.width {
        ((rect.x as i64 + v as i64) as i32, rect.width - 2 * v)
    } else {
        ((rect.x as i64 + (rect.width / 2) as i64) as i32, 0)
    };
    let (y, height) = if 2 * v <= rect.height {
        ((rect.y as i64 + v as i64) as i32, rect.height - 2 * v)
    } else {
        ((rect.y as i64 + (rect.height / 2) as i64) as i32, 0)
    };
    Rect { x, y, width, height }
}


/// What is left of `r` after carving, in order, each `(edge, thickness)`
/// of `reqs`
pub open spec fn remainder_after(r: Rect, reqs: Seq<(Edge, u32)>) -> Rect
    decreases reqs.len(),
{
    if reqs.len() == 0 {
        r
    } else {
        let prev = remainder_after(r, reqs.drop_last());
        split_spec(reqs.last().0, prev, reqs.last().1 as int).1
    }
}

/// The rectangle carved for the `i`-th request: taken from what the
/// requests before it left
pub open spec fn carved_at(r: Rect, reqs: Seq<(Edge, u32)>, i: int) -> Rect {
    split_spec(reqs[i].0, remainder_after(r, reqs.take(i)), reqs[i].1 as int).0
}

/// Carve each `(edge, thickness)` of `reqs` off `rect` in order; returns
/// the carved rectangles and what is left.
pub fn allocate(rect: Rect, reqs: &Vec<(Edge, u32)>) -> (r: (Vec<Rect>, Rect))
    requires
        rect.wf(),
    ensures
        r.0@.len() == reqs@.len(),
        forall|i: int| 0 <= i < reqs@.len() ==> #[trigger] r.0@[i] == carved_at(rect, reqs@, i),
        r.1 == remainder_after(rect, reqs@),
        r.1.wf(),
{
    let mut carved: Vec<Rect> = Vec::new();
    let mut cur = rect;
    let mut i: usize = 0;
    while i < reqs.len()
        invariant
            i <= reqs@.len(),
            cur.wf(),
            cur == remainder_after(rect, reqs@.take(i as int)),
            carved@.len() == i,
            forall|k: int| 0 <= k < i ==> #[trigger] carved@[k] == carved_at(rect, reqs@, k),
        decreases reqs@.len() - i,
    {
        let (edge, t) = reqs[i];
        let (c, rest) = cur.split_off(edge, t);
        proof {
            let next = reqs@.take(i + 1);
            assert(next.drop_last() =~= reqs@.take(i as int));
            assert(next.last() == reqs@[i as int]);
        }
        carved.push(c);
        cur = rest;
        i = i + 1;
    }
    assert(reqs@.take(reqs@.len() as int) =~= reqs@);
    (carved, cur)
}

/// Both parts of a split of a well-formed rectangle are well formed.
proof fn lemma_split_wf(edge: Edge, r: Rect, t: int)
    requires
        r.wf(),
        0 <= t,
    ensures
        split_spec(edge, r, t).0.wf(),
        split_spec(edge, r, t).1.wf(),
{
}

proof fn lemma_remainder_wf(r: Rect, reqs: Seq<(Edge, u32)>)
    requires
        r.wf(),
    ensures
        remainder_after(r, reqs).wf(),
    decreases reqs.len(),
{
    if reqs.len() > 0 {
        lemma_remainder_wf(r, reqs.drop_last());
        lemma_split_wf(reqs.last().0, remainder_after(r, reqs.drop_last()), reqs.last().1 as int);
    }
}

/// Carving a sequence of requests off a rectangle partitions it: every
/// pixel of `r` lies in exactly one of the carved rectangles and the
/// remainder, and none of them holds a pixel outside `r`.
pub proof fn lemma_allocation_partitions(r: Rect, reqs: Seq<(Edge, u32)>)
    requires
        r.wf(),
    ensures
        forall|px: int, py: int|
            r.contains(px, py) <==> (remainder_after(r, reqs).contains(px, py) || exists|i: int|
                0 <= i < reqs.len() && #[trigger] carved_at(r, reqs, i).contains(px, py)),
        forall|px: int, py: int, i: int|
            0 <= i < reqs.len() && #[trigger] carved_at(r, reqs, i).contains(px, py) ==> !remainder_after(
                r,
                reqs,
            ).contains(px, py),
        forall|px: int, py: int, i: int, j: int|
            0 <= i < j < reqs.len() && #[trigger] carved_at(r, reqs, i).contains(px, py)
                ==> !#[trigger] carved_at(r, reqs, j).contains(px, py),
    decreases reqs.len(),
{
    if reqs.len() > 0 {
        let n = reqs.len() - 1;
        let prev = reqs.drop_last();
        lemma_allocation_partitions(r, prev);
        let rest = remainder_after(r, prev);
        lemma_remainder_wf(r, prev);
        let (c, rest2) = split_spec(reqs.last().0, rest, reqs.last().1 as int);
        lemma_split_partitions(reqs.last().0, rest, reqs.last().1 as int);
        assert(reqs.take(n) =~= prev);
        assert(carved_at(r, reqs, n) == c);
        assert(remainder_after(r, reqs) == rest2);
        assert forall|i: int| 0 <= i < n implies carved_at(r, reqs, i) == carved_at(r, prev, i) by {
            assert(reqs.take(i) =~= prev.take(i));
        }
        assert forall|px: int, py: int| r.contains(px, py) <==> (remainder_after(r, reqs).contains(px, py)
            || exists|i: int| 0 <= i < reqs.len() && #[trigger] carved_at(r, reqs, i).contains(px, py)) by {
            if r.contains(px, py) && !rest.contains(px, py) {
                let i = choose|i: int| 0 <= i < prev.len() && #[trigger] carved_at(r, prev, i).contains(px, py);
                assert(carved_at(r, reqs, i).contains(px, py));
            }
            if rest.contains(px, py) && !rest2.contains(px, py) {
                assert(carved_at(r, reqs, n).contains(px, py));
            }
            if exists|i: int| 0 <= i < reqs.len() && #[trigger] carved_at(r, reqs, i).contains(px, py) {
                let i = choose|i: int| 0 <= i < reqs.len() && #[trigger] carved_at(r, reqs, i).contains(px, py);
                if i < n {
                    assert(carved_at(r, prev, i).contains(px, py));
                }
            }
        }
        assert forall|px: int, py: int, i: int|
            0 <= i < reqs.len() && #[trigger] carved_at(r, reqs, i).contains(px, py) implies !remainder_after(
                r,
                reqs,
            ).contains(px, py) by {
            if i < n {
                assert(carved_at(r, prev, i).contains(px, py));
            }
        }
        assert forall|px: int, py: int, i: int, j: int|
            0 <= i < j < reqs.len() && #[trigger] carved_at(r, reqs, i).contains(px, py) implies !#[trigger] carved_at(
                r,
                reqs,
                j,
            ).contains(px, py) by {
            assert(carved_at(r, prev, i).contains(px, py));
            if j < n {
                assert(carved_at(r, reqs, j) == carved_at(r, prev, j));
            }
        }
    }
}

} // verus!
