//! Axes for charts: tick sets, the space an axis takes, and where its parts
//! go.
use vstd::prelude::*;
use crate::domain::{BoundingDomain, Dim};
use crate::page::{split_spec, Edge, Rect};
use crate::scale::NumericScale;
use crate::plot::{clamp_i32, place, place_spec, saturate};
use crate::text::{Anchor, Label, Tick};

verus! {

/// Number of ticks that an axis aims for
pub const AXIS_TICKS: u16 = 10;

/// Space taken by an axis with a name
pub const NAMED_SPACE: u32 = 160;

/// Space taken by an axis without a name
pub const PLAIN_SPACE: u32 = 80;

/// The ticks of `scale`, exactly as `NumericScale::ticks` makes them
pub open spec fn ticks_of(ticks: Seq<Tick>, scale: NumericScale) -> bool {
    &&& ticks.len() == scale.tick_count()
    &&& forall|i: int| 0 <= i < ticks.len() ==> scale.is_tick(#[trigger] ticks[i], i)
}

/// Line segment from `(x0, y0)` to `(x1, y1)`
#[derive(Clone, Copy, Debug, PartialEq, Eq, Structural)]
pub struct Segment {
    pub x0: i32,
    pub y0: i32,
    pub x1: i32,
    pub y1: i32,
}

/// Horizontal `X` axis
#[derive(Clone, Debug, PartialEq, Eq)]
pub struct Horizontal {
    pub edge: Edge,
    pub ticks: Vec<Tick>,
    pub name: Option<String>,
    pub label: Label,
}

/// Vertical `Y` axis
#[derive(Clone, Debug, PartialEq, Eq)]
pub struct Vertical {
    pub edge: Edge,
    pub ticks: Vec<Tick>,
    pub name: Option<String>,
    pub label: Label,
}

/// Axis of a chart: one of the two orientations
#[derive(Clone, Debug, PartialEq, Eq)]
pub enum Axis {
    Horizontal(Horizontal),
    Vertical(Vertical),
}

impl Horizontal {
    /// The scale of a horizontal axis over `domain`
    pub open spec fn scale_spec(domain: BoundingDomain) -> NumericScale {
        NumericScale { lo: domain.x.min, hi: domain.x.max, target: AXIS_TICKS, inverted: false }
    }

    /// Create a new horizontal axis, at the bottom, over the x extent of
    /// `domain`
    pub fn new(domain: &BoundingDomain) -> (r: Self)
        requires
            domain.wf(),
        ensures
            r.edge == Edge::Bottom,
            r.name is None,
            r.label == Label::default_spec(),
            ticks_of(r.ticks@, Horizontal::scale_spec(*domain)),
            Axis::Horizontal(r).wf(),
    {
        let x_scale = NumericScale::from_data(domain, Dim::X, AXIS_TICKS);
        Horizontal { edge: Edge::Bottom, ticks: x_scale.ticks(), name: None, label: Label::new() }
    }

    /// Set the name of the axis
    pub fn with_name(self, name: &str) -> (r: Self)
        ensures
            r.name matches Some(n) && n@ == name@,
            r.edge == self.edge,
            r.ticks@ == self.ticks@,
            r.label == self.label,
    {
        Horizontal { name: Some(name.to_owned()), ..self }
    }

    /// Attach to the top of a `Chart`
    ///
    /// By default, a `Horizontal` axis is attached to the bottom of a `Chart`.
    pub fn on_top(self) -> (r: Self)
        ensures
            r.edge == Edge::Top,
            r.name == self.name,
            r.ticks@ == self.ticks@,
            r.label == self.label,
    {
        Horizontal { edge: Edge::Top, ..self }
    }
}

impl Vertical {
    /// The scale of a vertical axis over `domain`: inverted, since pixel
    /// rows grow downward
    pub open spec fn scale_spec(domain: BoundingDomain) -> NumericScale {
        NumericScale { lo: domain.y.min, hi: domain.y.max, target: AXIS_TICKS, inverted: true }
    }

    /// Create a new vertical axis, on the left, over the y extent of
    /// `domain`
    pub fn new(domain: &BoundingDomain) -> (r: Self)
        requires
            domain.wf(),
        ensures
            r.edge == Edge::Left,
            r.name is None,
            r.label == Label::default_spec(),
            ticks_of(r.ticks@, Vertical::scale_spec(*domain)),
            Axis::Vertical(r).wf(),
    {
        let y_scale = NumericScale::from_data(domain, Dim::Y, AXIS_TICKS);
        Vertical { edge: Edge::Left, ticks: y_scale.inverted().ticks(), name: None, label: Label::new() }
    }

    /// Set the name of the axis
    pub fn with_name(self, name: &str) -> (r: Self)
        ensures
            r.name matches Some(n) && n@ == name@,
            r.edge == self.edge,
            r.ticks@ == self.ticks@,
            r.label == self.label,
    {
        Vertical { name: Some(name.to_owned()), ..self }
    }

    /// Attach to the right side of a `Chart`
    ///
    /// By default, a `Vertical` axis is attached to the left side of a `Chart`.
    pub fn on_right(self) -> (r: Self)
        ensures
            r.edge == Edge::Right,
            r.name == self.name,
            r.ticks@ == self.ticks@,
            r.label == self.label,
    {
        Vertical { edge: Edge::Right, ..self }
    }
}

/// Overlap of the spans `[a, a + alen)` and `[b, b + blen)`, as start and
/// length; an empty overlap has length zero and starts at the later start.
pub open spec fn overlap(a: int, alen: int, b: int, blen: int) -> (int, int) {
    let start = if a >= b { a } else { b };
    let end = if a + alen <= b + blen { a + alen } else { b + blen };
    (start, if end >= start { end - start } else { 0 })
}

fn overlap_exec(a: i32, alen: u32, b: i32, blen: u32) -> (r: (i32, u32))
    requires
        a + alen <= i32::MAX,
        b + blen <= i32::MAX,
    ensures
        (r.0 as int, r.1 as int) == overlap(a as int, alen as int, b as int, blen as int),
        r.0 + r.1 <= i32::MAX,
{
    let start = if a >= b { a } else { b };
    let ea = a as i64 + alen as i64;
    let eb = b as i64 + blen as i64;
    let end = if ea <= eb { ea } else { eb };
    (start, if end >= start as i64 { (end - start as i64) as u32 } else { 0 })
}

impl Axis {
    pub open spec fn edge_spec(&self) -> Edge {
        match self {
            Axis::Horizontal(h) => h.edge,
            Axis::Vertical(v) => v.edge,
        }
    }

    pub open spec fn space_spec(&self) -> u32 {
        let named = match self {
            Axis::Horizontal(h) => h.name is Some,
            Axis::Vertical(v) => v.name is Some,
        };
        if named {
            NAMED_SPACE
        } else {
            PLAIN_SPACE
        }
    }

    pub open spec fn ticks_spec(&self) -> Seq<Tick> {
        match self {
            Axis::Horizontal(h) => h.ticks@,
            Axis::Vertical(v) => v.ticks@,
        }
    }

    /// Every tick has a positive denominator in its position.
    pub open spec fn wf(&self) -> bool {
        forall|i: int| 0 <= i < self.ticks_spec().len() ==> #[trigger] self.ticks_spec()[i].position.den > 0
    }

    /// Pixel coordinate along the axis of the `i`-th tick within `rect`
    pub open spec fn tick_pixel(&self, i: int, rect: Rect) -> int {
        let p = self.ticks_spec()[i].position;
        match self {
            Axis::Horizontal(_) => place_spec(p.num as int, p.den as int, rect.x as int, rect.width as int),
            Axis::Vertical(_) => place_spec(p.num as int, p.den as int, rect.y as int, rect.height as int),
        }
    }

    /// Each tick's pixel coordinate along the axis within `rect`, with its
    /// label. Within the plot area these are where the grid lines go.
    pub fn tick_positions(&self, rect: &Rect) -> (r: Vec<(i32, String)>)
        requires
            self.wf(),
        ensures
            r@.len() == self.ticks_spec().len(),
            forall|i: int| 0 <= i < r@.len() ==> #[trigger] r@[i].0 == self.tick_pixel(i, *rect)
                && r@[i].1@ == self.ticks_spec()[i].text@,
    {
        let ticks = self.ticks();
        let mut v: Vec<(i32, String)> = Vec::new();
        let mut i: usize = 0;
        while i < ticks.len()
            invariant
                self.wf(),
                ticks@ == self.ticks_spec(),
                i <= ticks@.len(),
                v@.len() == i,
                forall|k: int| 0 <= k < i ==> #[trigger] v@[k].0 == self.tick_pixel(k, *rect)
                    && v@[k].1@ == self.ticks_spec()[k].text@,
            decreases ticks@.len() - i,
        {
            let t = &ticks[i];
            let px = match self {
                Axis::Horizontal(_) => place(t.position, rect.x, rect.width),
                Axis::Vertical(_) => place(t.position, rect.y, rect.height),
            };
            v.push((px, t.text.clone()));
            i = i + 1;
        }
        v
    }

    /// Anchor of the tick labels: a vertical axis on the left ends its
    /// labels at the tick, one on the right starts them there, and any other
    /// axis centers them
    pub fn tick_anchor(&self) -> (r: Anchor)
        ensures
            r == match self.edge_spec() {
                Edge::Left => Anchor::End,
                Edge::Right => Anchor::Start,
                _ => Anchor::Middle,
            },
    {
        match self.edge() {
            Edge::Left => Anchor::End,
            Edge::Right => Anchor::Start,
            _ => Anchor::Middle,
        }
    }

    /// The edge the axis is attached to
    pub fn edge(&self) -> (r: Edge)
        ensures
            r == self.edge_spec(),
    {
        match self {
            Axis::Horizontal(h) => h.edge,
            Axis::Vertical(v) => v.edge,
        }
    }

    /// The name of the axis, if any
    pub fn name(&self) -> (r: Option<&str>)
        ensures
            r matches Some(s) ==> match self {
                Axis::Horizontal(h) => h.name matches Some(n) && n@ == s@,
                Axis::Vertical(v) => v.name matches Some(n) && n@ == s@,
            },
            r is None <==> match self {
                Axis::Horizontal(h) => h.name is None,
                Axis::Vertical(v) => v.name is None,
            },
    {
        let name = match self {
            Axis::Horizontal(h) => &h.name,
            Axis::Vertical(v) => &v.name,
        };
        match name {
            Some(n) => Some(n.as_str()),
            None => None,
        }
    }

    /// The tick marks of the axis
    pub fn ticks(&self) -> (r: &Vec<Tick>)
        ensures
            r@ == self.ticks_spec(),
    {
        match self {
            Axis::Horizontal(h) => &h.ticks,
            Axis::Vertical(v) => &v.ticks,
        }
    }

    /// Thickness the axis needs: more when it has a name
    pub fn space(&self) -> (r: u32)
        ensures
            r == self.space_spec(),
    {
        let named = match self {
            Axis::Horizontal(h) => h.name.is_some(),
            Axis::Vertical(v) => v.name.is_some(),
        };
        if named {
            NAMED_SPACE
        } else {
            PLAIN_SPACE
        }
    }

    /// Carve the axis's space off its edge of `area`
    pub fn split(&self, area: &mut Rect) -> (r: Rect)
        requires
            old(area).wf(),
        ensures
            (r, *final(area)) == split_spec(self.edge_spec(), *old(area), self.space_spec() as int),
            r.wf(),
            final(area).wf(),
    {
        self.edge().split(area, self.space())
    }

    /// Where the parts of the axis go: `rect`, the space the axis was given,
    /// is first cut to the plot `area` along the axis; a named axis then
    /// gives half its space on its outer side to the name. Returns the
    /// name's rectangle, if any, and the rectangle for the tick marks and
    /// labels.
    pub fn label_rects(&self, rect: Rect, area: Rect) -> (r: (Option<Rect>, Rect))
        requires
            rect.wf(),
            area.wf(),
        ensures
            ({
                let clipped = match self {
                    Axis::Horizontal(_) => {
                        let (x, w) = overlap(rect.x as int, rect.width as int, area.x as int, area.width as int);
                        Rect { x: x as i32, width: w as u32, ..rect }
                    },
                    Axis::Vertical(_) => {
                        let (y, h) = overlap(rect.y as int, rect.height as int, area.y as int, area.height as int);
                        Rect { y: y as i32, height: h as u32, ..rect }
                    },
                };
                let named = self.space_spec() == NAMED_SPACE;
                &&& named ==> r == (Some(split_spec(self.edge_spec(), clipped, (NAMED_SPACE / 2) as int).0),
                    split_spec(self.edge_spec(), clipped, (NAMED_SPACE / 2) as int).1)
                &&& !named ==> r == (None::<Rect>, clipped)
            }),
            r.1.wf(),
    {
        let mut clipped = match self {
            Axis::Horizontal(_) => {
                let (x, w) = overlap_exec(rect.x, rect.width, area.x, area.width);
                Rect { x, width: w, ..rect }
            },
            Axis::Vertical(_) => {
                let (y, h) = overlap_exec(rect.y, rect.height, area.y, area.height);
                Rect { y, height: h, ..rect }
            },
        };
        if self.space() == NAMED_SPACE {
            let name_rect = self.edge().split(&mut clipped, NAMED_SPACE / 2);
            (Some(name_rect), clipped)
        } else {
            (None, clipped)
        }
    }
}

impl Axis {
    /// Span across the axis covered by a tick mark within `rect`: a tick
    /// length on the side facing the plot body
    pub open spec fn mark_span(&self, rect: Rect) -> (int, int) {
        let len = Tick::LEN as int;
        match self {
            Axis::Horizontal(_) => if self.edge_spec() == Edge::Top {
                (clamp_i32(rect.y + rect.height - len), rect.y + rect.height)
            } else {
                (rect.y as int, clamp_i32(rect.y + len))
            },
            Axis::Vertical(_) => if self.edge_spec() == Edge::Left {
                (clamp_i32(rect.x + rect.width - len), rect.x + rect.width)
            } else {
                (rect.x as int, clamp_i32(rect.x + len))
            },
        }
    }

    /// The segment for the `i`-th tick mark within `rect`
    pub open spec fn mark_spec(&self, i: int, rect: Rect) -> Segment {
        let p = self.tick_pixel(i, rect) as i32;
        let (lo, hi) = self.mark_span(rect);
        match self {
            Axis::Horizontal(_) => Segment { x0: p, y0: lo as i32, x1: p, y1: hi as i32 },
            Axis::Vertical(_) => Segment { x0: lo as i32, y0: p, x1: hi as i32, y1: p },
        }
    }

    /// The grid line of the `i`-th tick across `area`
    pub open spec fn grid_spec(&self, i: int, area: Rect) -> Segment {
        let p = self.tick_pixel(i, area) as i32;
        match self {
            Axis::Horizontal(_) => Segment { x0: p, y0: area.y, x1: p, y1: (area.y + area.height) as i32 },
            Axis::Vertical(_) => Segment { x0: area.x, y0: p, x1: (area.x + area.width) as i32, y1: p },
        }
    }

    /// The axis line: the side of `rect` facing the plot body
    pub fn axis_line(&self, rect: &Rect) -> (r: Segment)
        requires
            rect.wf(),
        ensures
            r == match self.edge_spec() {
                Edge::Top => Segment {
                    x0: rect.x,
                    y0: (rect.y + rect.height) as i32,
                    x1: (rect.x + rect.width) as i32,
                    y1: (rect.y + rect.height) as i32,
                },
                Edge::Bottom => Segment { x0: rect.x, y0: rect.y, x1: (rect.x + rect.width) as i32, y1: rect.y },
                Edge::Left => Segment {
                    x0: (rect.x + rect.width) as i32,
                    y0: rect.y,
                    x1: (rect.x + rect.width) as i32,
                    y1: (rect.y + rect.height) as i32,
                },
                Edge::Right => Segment { x0: rect.x, y0: rect.y, x1: rect.x, y1: (rect.y + rect.height) as i32 },
            },
    {
        match self.edge() {
            Edge::Top => Segment { x0: rect.x, y0: rect.y_max(), x1: rect.x_max(), y1: rect.y_max() },
            Edge::Bottom => Segment { x0: rect.x, y0: rect.y, x1: rect.x_max(), y1: rect.y },
            Edge::Left => Segment { x0: rect.x_max(), y0: rect.y, x1: rect.x_max(), y1: rect.y_max() },
            Edge::Right => Segment { x0: rect.x, y0: rect.y, x1: rect.x, y1: rect.y_max() },
        }
    }

    /// One tick mark per tick within `rect`: at the tick's position along
    /// the axis, a tick length long, on the side facing the plot body
    pub fn tick_marks(&self, rect: &Rect) -> (r: Vec<Segment>)
        requires
            self.wf(),
            rect.wf(),
        ensures
            r@.len() == self.ticks_spec().len(),
            forall|i: int| 0 <= i < r@.len() ==> #[trigger] r@[i] == self.mark_spec(i, *rect),
    {
        let ticks = self.ticks();
        let (lo, hi) = match self {
            Axis::Horizontal(_) => if self.edge() == Edge::Top {
                (saturate(rect.y_max() as i128 - Tick::LEN as i128), rect.y_max())
            } else {
                (rect.y, saturate(rect.y as i128 + Tick::LEN as i128))
            },
            Axis::Vertical(_) => if self.edge() == Edge::Left {
                (saturate(rect.x_max() as i128 - Tick::LEN as i128), rect.x_max())
            } else {
                (rect.x, saturate(rect.x as i128 + Tick::LEN as i128))
            },
        };
        let mut v: Vec<Segment> = Vec::new();
        let mut i: usize = 0;
        while i < ticks.len()
            invariant
                self.wf(),
                ticks@ == self.ticks_spec(),
                (lo as int, hi as int) == self.mark_span(*rect),
                i <= ticks@.len(),
                v@.len() == i,
                forall|k: int| 0 <= k < i ==> #[trigger] v@[k] == self.mark_spec(k, *rect),
            decreases ticks@.len() - i,
        {
            let t = &ticks[i];
            let seg = match self {
                Axis::Horizontal(_) => {
                    let p = place(t.position, rect.x, rect.width);
                    Segment { x0: p, y0: lo, x1: p, y1: hi }
                },
                Axis::Vertical(_) => {
                    let p = place(t.position, rect.y, rect.height);
                    Segment { x0: lo, y0: p, x1: hi, y1: p }
                },
            };
            v.push(seg);
            i = i + 1;
        }
        v
    }

    /// One grid line per tick, across the whole plot `area`
    pub fn grid_lines(&self, area: &Rect) -> (r: Vec<Segment>)
        requires
            self.wf(),
            area.wf(),
        ensures
            r@.len() == self.ticks_spec().len(),
            forall|i: int| 0 <= i < r@.len() ==> #[trigger] r@[i] == self.grid_spec(i, *area),
    {
        let ticks = self.ticks();
        let mut v: Vec<Segment> = Vec::new();
        let mut i: usize = 0;
        while i < ticks.len()
            invariant
                self.wf(),
                area.wf(),
                ticks@ == self.ticks_spec(),
                i <= ticks@.len(),
                v@.len() == i,
                forall|k: int| 0 <= k < i ==> #[trigger] v@[k] == self.grid_spec(k, *area),
            decreases ticks@.len() - i,
        {
            let t = &ticks[i];
            let seg = match self {
                Axis::Horizontal(_) => {
                    let p = place(t.position, area.x, area.width);
                    Segment { x0: p, y0: area.y, x1: p, y1: area.y_max() }
                },
                Axis::Vertical(_) => {
                    let p = place(t.position, area.y, area.height);
                    Segment { x0: area.x, y0: p, x1: area.x_max(), y1: p }
                },
            };
            v.push(seg);
            i = i + 1;
        }
        v
    }
}

} // verus!
