//! Charts: titles, axes and plots, and the layout of a page among them.
use vstd::prelude::*;
use crate::axis::Axis;
use crate::page::{allocate, carved_at, inset, inset_spec, remainder_after, AspectRatio, Edge, Rect};
use crate::plot::{Plot, PlotKind};
use crate::text::Anchor;

verus! {

/// Space taken by a title
pub const TITLE_SPACE: u32 = 100;

/// Margin around the page
pub const PAGE_MARGIN: u16 = 40;

/// Chart title
#[derive(Clone, Debug, PartialEq, Eq)]
pub struct Title {
    pub text: String,
    pub anchor: Anchor,
    pub edge: Edge,
}

impl Title {
    /// Create a new title, centered on the top of the chart
    pub fn new(text: &str) -> (r: Self)
        ensures
            r.text@ == text@,
            r.anchor == Anchor::Middle,
            r.edge == Edge::Top,
    {
        Title { text: text.to_owned(), anchor: Anchor::Middle, edge: Edge::Top }
    }

    /// Anchor title text at start
    pub fn at_start(self) -> (r: Self)
        ensures
            r.text@ == self.text@,
            r.anchor == Anchor::Start,
            r.edge == self.edge,
    {
        Title { anchor: Anchor::Start, ..self }
    }

    /// Anchor title text at end
    pub fn at_end(self) -> (r: Self)
        ensures
            r.text@ == self.text@,
            r.anchor == Anchor::End,
            r.edge == self.edge,
    {
        Title { anchor: Anchor::End, ..self }
    }

    /// Put title on bottom of chart
    pub fn on_bottom(self) -> (r: Self)
        ensures
            r.text@ == self.text@,
            r.anchor == self.anchor,
            r.edge == Edge::Bottom,
    {
        Title { edge: Edge::Bottom, ..self }
    }

    /// Put title on left side of chart
    pub fn on_left(self) -> (r: Self)
        ensures
            r.text@ == self.text@,
            r.anchor == self.anchor,
            r.edge == Edge::Left,
    {
        Title { edge: Edge::Left, ..self }
    }

    /// Put title on right side of chart
    pub fn on_right(self) -> (r: Self)
        ensures
            r.text@ == self.text@,
            r.anchor == self.anchor,
            r.edge == Edge::Right,
    {
        Title { edge: Edge::Right, ..self }
    }
}

/// Chart for plotting data
///
/// Multiple `Plot`s can be rendered in a single Chart, even with unrelated
/// domains and axes.
#[derive(Clone, Debug)]
pub struct Chart {
    pub aspect_ratio: AspectRatio,
    pub titles: Vec<Title>,
    pub axes: Vec<Axis>,
    pub plots: Vec<(PlotKind, Plot)>,
}

/// Where each part of a chart goes
#[derive(Clone, Debug, PartialEq, Eq)]
pub struct ChartLayout {
    /// One rectangle per title, in order
    pub titles: Vec<Rect>,
    /// One rectangle per axis, in order
    pub axes: Vec<Rect>,
    /// What is left: the plot body
    pub area: Rect,
}

impl Default for Chart {
    fn default() -> (r: Self)
        ensures
            r.aspect_ratio == AspectRatio::Landscape,
            r.titles@.len() == 0,
            r.axes@.len() == 0,
            r.plots@.len() == 0,
    {
        Chart { aspect_ratio: AspectRatio::Landscape, titles: Vec::new(), axes: Vec::new(), plots: Vec::new() }
    }
}

impl Chart {
    /// The page inside its margin
    pub open spec fn page_spec(self) -> Rect {
        let page = match self.aspect_ratio {
            AspectRatio::Landscape => Rect { x: 0, y: 0, width: 2000, height: 1500 },
            AspectRatio::Square => Rect { x: 0, y: 0, width: 2000, height: 2000 },
            AspectRatio::Portrait => Rect { x: 0, y: 0, width: 1500, height: 2000 },
        };
        inset_spec(page, PAGE_MARGIN as int)
    }

    /// Space requests in the order they are served: titles first, then
    /// axes, each in the order it was added
    pub open spec fn requests(self) -> Seq<(Edge, u32)> {
        self.titles@.map_values(|t: Title| (t.edge, TITLE_SPACE)) + self.axes@.map_values(
            |a: Axis| (a.edge_spec(), a.space_spec()),
        )
    }

    /// Adjust the aspect ratio
    pub fn with_aspect_ratio(self, aspect: AspectRatio) -> (r: Self)
        ensures
            r.aspect_ratio == aspect,
            r.titles@ == self.titles@,
            r.axes@ == self.axes@,
            r.plots@ == self.plots@,
    {
        Chart { aspect_ratio: aspect, ..self }
    }

    /// Add a chart title
    pub fn with_title(self, title: Title) -> (r: Self)
        ensures
            r.aspect_ratio == self.aspect_ratio,
            r.titles@ == self.titles@.push(title),
            r.axes@ == self.axes@,
            r.plots@ == self.plots@,
    {
        let mut c = self;
        c.titles.push(title);
        c
    }

    /// Add an `Axis`
    pub fn with_axis(self, axis: Axis) -> (r: Self)
        ensures
            r.aspect_ratio == self.aspect_ratio,
            r.titles@ == self.titles@,
            r.axes@ == self.axes@.push(axis),
            r.plots@ == self.plots@,
    {
        let mut c = self;
        c.axes.push(axis);
        c
    }

    /// Add an area `Plot`
    pub fn with_area_plot(self, plot: Plot) -> (r: Self)
        ensures
            r.aspect_ratio == self.aspect_ratio,
            r.titles@ == self.titles@,
            r.axes@ == self.axes@,
            r.plots@ == self.plots@.push((PlotKind::Area, plot)),
    {
        let mut c = self;
        c.plots.push((PlotKind::Area, plot));
        c
    }

    /// Add a line `Plot`
    pub fn with_line_plot(self, plot: Plot) -> (r: Self)
        ensures
            r.aspect_ratio == self.aspect_ratio,
            r.titles@ == self.titles@,
            r.axes@ == self.axes@,
            r.plots@ == self.plots@.push((PlotKind::Line, plot)),
    {
        let mut c = self;
        c.plots.push((PlotKind::Line, plot));
        c
    }

    /// Add a scatter `Plot`
    pub fn with_scatter_plot(self, plot: Plot) -> (r: Self)
        ensures
            r.aspect_ratio == self.aspect_ratio,
            r.titles@ == self.titles@,
            r.axes@ == self.axes@,
            r.plots@ == self.plots@.push((PlotKind::Scatter, plot)),
    {
        let mut c = self;
        c.plots.push((PlotKind::Scatter, plot));
        c
    }

    /// Lay out the page: inside its margin, each title and then each axis
    /// carves its space off its edge, in the order they were added; what is
    /// left is the plot body.
    pub fn layout(&self) -> (r: ChartLayout)
        ensures
            r.titles@.len() == self.titles@.len(),
            r.axes@.len() == self.axes@.len(),
            forall|i: int| 0 <= i < r.titles@.len() ==>
                #[trigger] r.titles@[i] == carved_at(self.page_spec(), self.requests(), i),
            forall|i: int| 0 <= i < r.axes@.len() ==>
                #[trigger] r.axes@[i] == carved_at(self.page_spec(), self.requests(), self.titles@.len() + i),
            r.area == remainder_after(self.page_spec(), self.requests()),
            r.area.wf(),
    {
        let page = inset(self.aspect_ratio.rect(), PAGE_MARGIN);
        let mut reqs: Vec<(Edge, u32)> = Vec::new();
        let mut i: usize = 0;
        while i < self.titles.len()
            invariant
                i <= self.titles@.len(),
                reqs@ =~= self.titles@.take(i as int).map_values(|t: Title| (t.edge, TITLE_SPACE)),
            decreases self.titles@.len() - i,
        {
            reqs.push((self.titles[i].edge, TITLE_SPACE));
            i = i + 1;
            assert(reqs@ =~= self.titles@.take(i as int).map_values(|t: Title| (t.edge, TITLE_SPACE)));
        }
        let ghost tr = reqs@;
        let mut j: usize = 0;
        while j < self.axes.len()
            invariant
                j <= self.axes@.len(),
                tr == self.titles@.map_values(|t: Title| (t.edge, TITLE_SPACE)),
                reqs@ =~= tr + self.axes@.take(j as int).map_values(|a: Axis| (a.edge_spec(), a.space_spec())),
            decreases self.axes@.len() - j,
        {
            reqs.push((self.axes[j].edge(), self.axes[j].space()));
            j = j + 1;
            assert(reqs@ =~= tr + self.axes@.take(j as int).map_values(|a: Axis| (a.edge_spec(), a.space_spec())));
        }
        proof {
            assert(self.titles@.take(self.titles@.len() as int) =~= self.titles@);
            assert(self.axes@.take(self.axes@.len() as int) =~= self.axes@);
            assert(reqs@ =~= self.requests());
        }
        let (rects, area) = allocate(page, &reqs);
        let nt = self.titles.len();
        let mut titles: Vec<Rect> = Vec::new();
        let mut axes: Vec<Rect> = Vec::new();
        let mut k: usize = 0;
        while k < rects.len()
            invariant
                rects@.len() == reqs@.len(),
                reqs@ == self.requests(),
                nt == self.titles@.len(),
                reqs@.len() == self.titles@.len() + self.axes@.len(),
                forall|i: int| 0 <= i < reqs@.len() ==> #[trigger] rects@[i] == carved_at(page, reqs@, i),
                page == self.page_spec(),
                k <= rects@.len(),
                k <= nt ==> titles@.len() == k && axes@.len() == 0,
                k > nt ==> titles@.len() == nt && axes@.len() == k - nt,
                forall|i: int| 0 <= i < titles@.len() ==> #[trigger] titles@[i] == rects@[i],
                forall|i: int| 0 <= i < axes@.len() ==> #[trigger] axes@[i] == rects@[nt + i],
            decreases rects@.len() - k,
        {
            if k < nt {
                titles.push(rects[k]);
            } else {
                axes.push(rects[k]);
            }
            k = k + 1;
        }
        ChartLayout { titles, axes, area }
    }

    /// The plot body: what the titles and axes leave of the page
    pub fn area(&self) -> (r: Rect)
        ensures
            r == remainder_after(self.page_spec(), self.requests()),
            r.wf(),
    {
        self.layout().area
    }
}

} // verus!
