//! Plots, and the mapping of data values to pixel coordinates.
use vstd::prelude::*;
use crate::domain::{BoundingDomain, Dim};
use crate::page::Rect;
use crate::scale::{NumericScale, Ratio};

verus! {

/// `n / d` rounded to the nearest integer, halves away from zero
pub open spec fn round_div(n: int, d: int) -> int {
    if n >= 0 {
        (2 * n + d) / (2 * d)
    } else {
        -((2 * (-n) + d) / (2 * d))
    }
}

/// `v` saturated to the range of `i32`
pub open spec fn clamp_i32(v: int) -> int {
    if v < i32::MIN {
        i32::MIN as int
    } else if v > i32::MAX {
        i32::MAX as int
    } else {
        v
    }
}

/// The pixel `origin + len * num / den`: at fraction `num / den` of the way
/// along a span of `len` pixels from `origin`, rounded with halves away from
/// zero, saturated to `i32`
pub open spec fn place_spec(num: int, den: int, origin: int, len: int) -> int {
    clamp_i32(round_div(origin * den + len * num, den))
}

/// Saturate to `i32`
pub(crate) fn saturate(v: i128) -> (r: i32)
    ensures
        r == clamp_i32(v as int),
{
    if v < i32::MIN as i128 {
        i32::MIN
    } else if v > i32::MAX as i128 {
        i32::MAX
    } else {
        v as i32
    }
}

/// The pixel at fraction `frac` of the way along `len` pixels from
/// `origin`; halves round away from zero.
pub fn place(frac: Ratio, origin: i32, len: u32) -> (r: i32)
    requires
        frac.den > 0,
    ensures
        r == place_spec(frac.num as int, frac.den as int, origin as int, len as int),
{
    proof {
        assert(-0x8000_0000_0000_0000_0000_0000 <= origin * frac.den <= 0x8000_0000_0000_0000_0000_0000)
            by (nonlinear_arith)
            requires
                i32::MIN <= origin <= i32::MAX,
                0 < frac.den <= i64::MAX,
        ;
        assert(-0x1_0000_0000_0000_0000_0000_0000 <= len * frac.num <= 0x1_0000_0000_0000_0000_0000_0000)
            by (nonlinear_arith)
            requires
                0 <= len <= 0xffff_ffff,
                i64::MIN <= frac.num <= i64::MAX,
        ;
    }
    let n = origin as i128 * frac.den as i128 + len as i128 * frac.num as i128;
    let d = frac.den as i128;
    proof {
        let m: int = if n >= 0 { n as int } else { -n };
        assert(0 <= (2 * m + d) / (2 * d) <= 2 * m + d) by (nonlinear_arith)
            requires
                m >= 0,
                d >= 1,
        ;
    }
    let q: i128 = if n >= 0 {
        ((2 * n + d) as u128 / (2 * d) as u128) as i128
    } else {
        -(((2 * (-n) + d) as u128 / (2 * d) as u128) as i128)
    };
    saturate(q)
}

/// Map a data value to a pixel coordinate along one dimension of `rect`:
/// its origin plus its size times the scale's normalized position of
/// `value`, that whole sum rounded with halves away from zero.
pub fn map(value: i32, scale: &NumericScale, rect: &Rect, dim: Dim) -> (r: i32)
    requires
        scale.wf(),
    ensures
        ({
            let (num, den) = scale.normalize_spec(value as int);
            r == match dim {
                Dim::X => place_spec(num, den, rect.x as int, rect.width as int),
                Dim::Y => place_spec(num, den, rect.y as int, rect.height as int),
            }
        }),
{
    let frac = scale.normalize(value);
    match dim {
        Dim::X => place(frac, rect.x, rect.width),
        Dim::Y => place(frac, rect.y, rect.height),
    }
}


/// Kind of plot
#[derive(Copy, Clone, Debug, PartialEq, Eq, Structural)]
pub enum PlotKind {
    Area,
    Line,
    Scatter,
}

/// Pixel x of a data x value: the domain's x extent spread over the
/// rectangle's width, left to right
pub open spec fn x_map_spec(domain: BoundingDomain, x: int, rect: Rect) -> int {
    let s = NumericScale { lo: domain.x.min, hi: domain.x.max, target: 1, inverted: false };
    place_spec(s.normalize_spec(x).0, s.normalize_spec(x).1, rect.x as int, rect.width as int)
}

/// Pixel y of a data y value: the domain's y extent spread over the
/// rectangle's height, bottom to top
pub open spec fn y_map_spec(domain: BoundingDomain, y: int, rect: Rect) -> int {
    let s = NumericScale { lo: domain.y.min, hi: domain.y.max, target: 1, inverted: true };
    place_spec(s.normalize_spec(y).0, s.normalize_spec(y).1, rect.y as int, rect.height as int)
}

/// Map an `X` value to a rectangle
pub fn x_map(domain: &BoundingDomain, x: i32, rect: &Rect) -> (r: i32)
    requires
        domain.wf(),
    ensures
        r == x_map_spec(*domain, x as int, *rect),
{
    let scale = NumericScale::from_data(domain, Dim::X, 1);
    map(x, &scale, rect, Dim::X)
}

/// Map a `Y` value to a rectangle; larger values are higher up
pub fn y_map(domain: &BoundingDomain, y: i32, rect: &Rect) -> (r: i32)
    requires
        domain.wf(),
    ensures
        r == y_map_spec(*domain, y as int, *rect),
{
    let scale = NumericScale::from_data(domain, Dim::Y, 1).inverted();
    map(y, &scale, rect, Dim::Y)
}

/// A named series of data points over a domain
#[derive(Clone, Debug)]
pub struct Plot {
    pub name: String,
    pub domain: BoundingDomain,
    pub data: Vec<(i32, i32)>,
}

impl Plot {
    pub fn new(name: &str, domain: &BoundingDomain, data: Vec<(i32, i32)>) -> (r: Plot)
        ensures
            r.name@ == name@,
            r.domain == *domain,
            r.data@ == data@,
    {
        Plot { name: name.to_owned(), domain: *domain, data }
    }

    pub fn name(&self) -> (r: &str)
        ensures
            r@ == self.name@,
    {
        self.name.as_str()
    }

    /// Pixel position of each data point within `rect`, in order
    pub fn points(&self, rect: &Rect) -> (r: Vec<(i32, i32)>)
        requires
            self.domain.wf(),
        ensures
            r@.len() == self.data@.len(),
            forall|i: int| 0 <= i < r@.len() ==> #[trigger] r@[i] == (
                x_map_spec(self.domain, self.data@[i].0 as int, *rect) as i32,
                y_map_spec(self.domain, self.data@[i].1 as int, *rect) as i32,
            ),
    {
        let mut v: Vec<(i32, i32)> = Vec::new();
        let mut i: usize = 0;
        while i < self.data.len()
            invariant
                self.domain.wf(),
                i <= self.data@.len(),
                v@.len() == i,
                forall|k: int| 0 <= k < i ==> #[trigger] v@[k] == (
                    x_map_spec(self.domain, self.data@[k].0 as int, *rect) as i32,
                    y_map_spec(self.domain, self.data@[k].1 as int, *rect) as i32,
                ),
            decreases self.data@.len() - i,
        {
            let p = self.data[i];
            let x = x_map(&self.domain, p.0, rect);
            let y = y_map(&self.domain, p.1, rect);
            v.push((x, y));
            i = i + 1;
        }
        v
    }

    /// Outline of an area plot: the baseline (data `y` of 0) under the
    /// first point, every point, then the baseline under the last point.
    /// Empty when there is no data.
    pub fn area_points(&self, rect: &Rect) -> (r: Vec<(i32, i32)>)
        requires
            self.domain.wf(),
        ensures
            self.data@.len() == 0 ==> r@.len() == 0,
            self.data@.len() > 0 ==> {
                let n = self.data@.len() as int;
                let base = y_map_spec(self.domain, 0, *rect) as i32;
                &&& r@.len() == n + 2
                &&& r@[0] == (x_map_spec(self.domain, self.data@[0].0 as int, *rect) as i32, base)
                &&& r@[n + 1] == (x_map_spec(self.domain, self.data@[n - 1].0 as int, *rect) as i32, base)
                &&& forall|i: int| 0 <= i < n ==> #[trigger] r@[i + 1] == (
                    x_map_spec(self.domain, self.data@[i].0 as int, *rect) as i32,
                    y_map_spec(self.domain, self.data@[i].1 as int, *rect) as i32,
                )
            },
    {
        let pts = self.points(rect);
        let mut v: Vec<(i32, i32)> = Vec::new();
        if pts.len() == 0 {
            return v;
        }
        let n = pts.len();
        let base = y_map(&self.domain, 0, rect);
        v.push((pts[0].0, base));
        let mut i: usize = 0;
        while i < n
            invariant
                n == pts@.len(),
                i <= n,
                v@.len() == i + 1,
                v@[0] == (pts@[0].0, base),
                forall|k: int| 0 <= k < i ==> #[trigger] v@[k + 1] == pts@[k],
            decreases n - i,
        {
            v.push(pts[i]);
            i = i + 1;
        }
        let ghost before = v@;
        v.push((pts[n - 1].0, base));
        assert forall|i: int| 0 <= i < n implies #[trigger] v@[i + 1] == pts@[i] by {
            assert(v@[i + 1] == before[i + 1]);
        }
        v
    }
}

} // verus!
