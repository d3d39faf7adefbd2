use splotch::axis::{Axis, Horizontal, Segment, Vertical, AXIS_TICKS};
use splotch::page::{allocate, inset};
use splotch::plot::{x_map, y_map};
use splotch::text::{anchor_point, decimal_string, rotation};
use splotch::{
    Anchor, AspectRatio, BoundingDomain, Chart, Decimal, Dim, Edge, Extent, Label, LabelPoint, NumericScale, Plot,
    PlotKind, Ratio, Rect, Tick, Title, VerticalOffset,
};

fn rect(x: i32, y: i32, width: u32, height: u32) -> Rect {
    Rect { x, y, width, height }
}

fn area(r: &Rect) -> u64 {
    r.width as u64 * r.height as u64
}

#[test]
fn split_top_carves_title_band() {
    let r = rect(0, 0, 1000, 500);
    let (carved, rest) = r.split_off(Edge::Top, 100);
    assert_eq!(carved, rect(0, 0, 1000, 100));
    assert_eq!(rest, rect(0, 100, 1000, 400));
    let mut m = r;
    assert_eq!(Edge::Top.split(&mut m, 100), rect(0, 0, 1000, 100));
    assert_eq!(m, rect(0, 100, 1000, 400));
}

#[test]
fn split_each_edge_partitions() {
    let r = rect(10, 20, 300, 200);
    let cases = [
        (Edge::Top, rect(10, 20, 300, 50), rect(10, 70, 300, 150)),
        (Edge::Bottom, rect(10, 170, 300, 50), rect(10, 20, 300, 150)),
        (Edge::Left, rect(10, 20, 50, 200), rect(60, 20, 250, 200)),
        (Edge::Right, rect(260, 20, 50, 200), rect(10, 20, 250, 200)),
    ];
    for (edge, c, rest) in cases {
        let got = r.split_off(edge, 50);
        assert_eq!(got, (c, rest));
        assert_eq!(area(&got.0) + area(&got.1), area(&r));
    }
}

#[test]
fn split_clamps_oversized_thickness() {
    let r = rect(0, 0, 1000, 500);
    let (c, rest) = r.split_off(Edge::Bottom, 800);
    assert_eq!(c, rect(0, 0, 1000, 500));
    assert_eq!(rest, rect(0, 0, 1000, 0));
    let (c, rest) = r.split_off(Edge::Right, 5000);
    assert_eq!(c, rect(0, 0, 1000, 500));
    assert_eq!(rest, rect(0, 0, 0, 500));
    let (c, rest) = rest.split_off(Edge::Left, 10);
    assert_eq!(c, rect(0, 0, 0, 500));
    assert_eq!(rest, rect(0, 0, 0, 500));
}

#[test]
fn allocate_in_order() {
    let reqs = vec![(Edge::Top, 100), (Edge::Left, 80), (Edge::Top, 50)];
    let (rects, rest) = allocate(rect(0, 0, 1000, 500), &reqs);
    assert_eq!(rects, vec![rect(0, 0, 1000, 100), rect(0, 100, 80, 400), rect(80, 100, 920, 50)]);
    assert_eq!(rest, rect(80, 150, 920, 350));
}

#[test]
fn inset_and_page_sizes() {
    assert_eq!(AspectRatio::Landscape.rect(), rect(0, 0, 2000, 1500));
    assert_eq!(AspectRatio::Square.rect(), rect(0, 0, 2000, 2000));
    assert_eq!(AspectRatio::Portrait.rect(), rect(0, 0, 1500, 2000));
    assert_eq!(inset(rect(0, 0, 2000, 1500), 40), rect(40, 40, 1920, 1420));
    assert_eq!(inset(rect(0, 0, 50, 100), 40), rect(25, 40, 0, 20));
}

#[test]
fn map_rounds_half_away_from_zero() {
    let s = NumericScale::from_domain(Extent { min: 0, max: 100 }, 5).unwrap();
    assert_eq!(splotch::plot::map(50, &s, &rect(10, 0, 200, 0), Dim::X), 110);
    let q = NumericScale::from_domain(Extent { min: 0, max: 4 }, 5).unwrap();
    assert_eq!(splotch::plot::map(1, &q, &rect(0, 0, 2, 2), Dim::X), 1);
    assert_eq!(splotch::plot::map(-1, &q, &rect(0, 0, 2, 2), Dim::Y), -1);
    let t = NumericScale::from_domain(Extent { min: 0, max: 3 }, 5).unwrap();
    assert_eq!(splotch::plot::map(1, &t, &rect(0, 5, 1, 1), Dim::Y), 5);
    assert_eq!(splotch::plot::map(2, &t, &rect(0, 5, 1, 1), Dim::Y), 6);
}

#[test]
fn map_saturates() {
    let s = NumericScale::from_domain(Extent { min: 0, max: 1 }, 5).unwrap();
    assert_eq!(splotch::plot::map(i32::MAX, &s, &rect(0, 0, u32::MAX >> 1, 0), Dim::X), i32::MAX);
    assert_eq!(splotch::plot::map(i32::MIN, &s, &rect(0, 0, u32::MAX >> 1, 0), Dim::X), i32::MIN);
}

#[test]
fn x_and_y_map() {
    let d = BoundingDomain { x: Extent { min: 13, max: 190 }, y: Extent { min: 37, max: 74 } };
    let r = rect(100, 50, 177, 370);
    assert_eq!(x_map(&d, 13, &r), 100);
    assert_eq!(x_map(&d, 190, &r), 277);
    assert_eq!(y_map(&d, 74, &r), 50);
    assert_eq!(y_map(&d, 37, &r), 420);
    assert_eq!(y_map(&d, 0, &r), 790);
}

#[test]
fn plot_points_and_area_outline() {
    let d = BoundingDomain { x: Extent { min: 0, max: 10 }, y: Extent { min: 0, max: 10 } };
    let p = Plot::new("S", &d, vec![(0, 5), (10, 10)]);
    assert_eq!(p.name(), "S");
    let r = rect(0, 0, 100, 100);
    assert_eq!(p.points(&r), vec![(0, 50), (100, 0)]);
    assert_eq!(p.area_points(&r), vec![(0, 100), (0, 50), (100, 0), (100, 100)]);
    let e = Plot::new("E", &d, vec![]);
    assert!(e.area_points(&r).is_empty());
}

#[test]
fn axes_space_and_ticks() {
    let d = BoundingDomain { x: Extent { min: 0, max: 100 }, y: Extent { min: 0, max: 50 } };
    let h = Horizontal::new(&d);
    assert_eq!(h.edge, Edge::Bottom);
    let xs: Vec<&str> = h.ticks.iter().map(|t| t.text()).collect();
    assert_eq!(xs, vec!["0", "10", "20", "30", "40", "50", "60", "70", "80", "90", "100"]);
    let v = Vertical::new(&d).on_right().with_name("Y");
    assert_eq!(v.edge, Edge::Right);
    assert_eq!(v.ticks[0].position, Ratio { num: 50, den: 50 });
    let ax = Axis::Horizontal(h.clone().with_name("X").on_top());
    assert_eq!(ax.edge(), Edge::Top);
    assert_eq!(ax.name(), Some("X"));
    assert_eq!(ax.space(), 160);
    assert_eq!(Axis::Horizontal(h).space(), 80);
    let av = Axis::Vertical(v);
    let mut a = rect(0, 0, 1000, 500);
    assert_eq!(av.split(&mut a), rect(840, 0, 160, 500));
    assert_eq!(a, rect(0, 0, 840, 500));
    let pos = av.tick_positions(&rect(0, 0, 10, 500));
    assert_eq!(pos[0], (500, "0".to_string()));
    assert_eq!(pos[5], (250, "25".to_string()));
    assert_eq!(AXIS_TICKS, 10);
}

#[test]
fn axis_label_rects() {
    let d = BoundingDomain { x: Extent { min: 0, max: 100 }, y: Extent { min: 0, max: 50 } };
    let ax = Axis::Horizontal(Horizontal::new(&d).with_name("X"));
    let (name, ticks) = ax.label_rects(rect(0, 400, 1000, 160), rect(100, 0, 800, 400));
    assert_eq!(name, Some(rect(100, 480, 800, 80)));
    assert_eq!(ticks, rect(100, 400, 800, 80));
    let av = Axis::Vertical(Vertical::new(&d));
    let (name, ticks) = av.label_rects(rect(0, 0, 80, 500), rect(80, 20, 900, 400));
    assert_eq!(name, None);
    assert_eq!(ticks, rect(0, 20, 80, 400));
}

#[test]
fn chart_layout_titles_then_axes() {
    let d = BoundingDomain { x: Extent { min: 0, max: 100 }, y: Extent { min: 0, max: 50 } };
    let chart = Chart::default()
        .with_title(Title::new("T"))
        .with_axis(Axis::Horizontal(Horizontal::new(&d).with_name("X")))
        .with_axis(Axis::Vertical(Vertical::new(&d)))
        .with_line_plot(Plot::new("A", &d, vec![(1, 2)]));
    let l = chart.layout();
    assert_eq!(l.titles, vec![rect(40, 40, 1920, 100)]);
    assert_eq!(l.axes, vec![rect(40, 1300, 1920, 160), rect(40, 140, 80, 1160)]);
    assert_eq!(l.area, rect(120, 140, 1840, 1160));
    assert_eq!(chart.area(), l.area);
    assert_eq!(chart.plots[0].0, PlotKind::Line);
    let sq = Chart::default().with_aspect_ratio(AspectRatio::Square);
    assert_eq!(sq.area(), rect(40, 40, 1920, 1920));
}

#[test]
fn chart_builders_append() {
    let d = BoundingDomain { x: Extent { min: 0, max: 1 }, y: Extent { min: 0, max: 1 } };
    let c = Chart::default()
        .with_area_plot(Plot::new("a", &d, vec![]))
        .with_scatter_plot(Plot::new("b", &d, vec![]))
        .with_title(Title::new("t").on_left().at_end());
    let kinds: Vec<PlotKind> = c.plots.iter().map(|p| p.0).collect();
    assert_eq!(kinds, vec![PlotKind::Area, PlotKind::Scatter]);
    assert_eq!(c.titles[0].edge, Edge::Left);
    assert_eq!(c.titles[0].anchor, Anchor::End);
    assert_eq!(c.area(), rect(140, 40, 1820, 1420));
}

#[test]
fn title_builders() {
    let t = Title::new("Hello");
    assert_eq!(t.text, "Hello");
    assert_eq!((t.anchor, t.edge), (Anchor::Middle, Edge::Top));
    let t = t.at_start().on_bottom();
    assert_eq!((t.anchor, t.edge), (Anchor::Start, Edge::Bottom));
    let t = t.on_right();
    assert_eq!(t.edge, Edge::Right);
}

#[test]
fn label_builders() {
    let l = Label::new();
    assert_eq!(l, Label::default());
    assert_eq!(l.label_point(), LabelPoint::Center);
    assert_eq!(l.vertical_offset(), 0);
    assert_eq!(l.clone().minimum().label_point(), LabelPoint::Minimum);
    assert_eq!(l.clone().maximum().label_point(), LabelPoint::Maximum);
    assert_eq!(l.clone().above().vertical_offset(), -1);
    assert_eq!(l.clone().below().offset, VerticalOffset::Below);
    assert_eq!(l.clone().start().anchor, Anchor::Start);
    assert_eq!(l.end().anchor, Anchor::End);
}

#[test]
fn tick_coordinates() {
    let t = Tick::new(Decimal { units: 25, decimals: 0 }, Ratio { num: 1, den: 4 }, "25".to_string());
    let r = rect(100, 200, 400, 80);
    assert_eq!(t.text(), "25");
    assert_eq!(t.x(Edge::Bottom, &r, Tick::HLEN), 200);
    assert_eq!(t.y(Edge::Bottom, &r, Tick::VLEN), 240);
    assert_eq!(t.y(Edge::Top, &r, Tick::LEN), 260);
    assert_eq!(t.x(Edge::Left, &r, Tick::HLEN), 472);
    assert_eq!(t.x(Edge::Right, &r, Tick::HLEN), 128);
    assert_eq!(t.y(Edge::Left, &r, 0), 220);
}

#[test]
fn text_anchor_points() {
    let r = rect(0, 0, 100, 50);
    assert_eq!(anchor_point(Edge::Top, Anchor::Middle, &r), (50, 25));
    assert_eq!(anchor_point(Edge::Bottom, Anchor::Start, &r), (0, 25));
    assert_eq!(anchor_point(Edge::Top, Anchor::End, &r), (100, 25));
    assert_eq!(anchor_point(Edge::Left, Anchor::End, &r), (50, 0));
    assert_eq!(anchor_point(Edge::Right, Anchor::End, &r), (50, 50));
    assert_eq!((rotation(Edge::Left), rotation(Edge::Right), rotation(Edge::Top)), (-90, 90, 0));
}

#[test]
fn decimal_rendering() {
    assert_eq!(decimal_string(Decimal { units: 0, decimals: 0 }), "0");
    assert_eq!(decimal_string(Decimal { units: -1205, decimals: 2 }), "-12.05");
    assert_eq!(decimal_string(Decimal { units: 7, decimals: 3 }), "0.007");
    assert_eq!(decimal_string(Decimal { units: i64::MIN, decimals: 0 }), "-9223372036854775808");
    assert_eq!(decimal_string(Decimal { units: 1000, decimals: 0 }), "1000");
}

#[test]
fn axis_lines_marks_and_grid() {
    let d = BoundingDomain { x: Extent { min: 0, max: 100 }, y: Extent { min: 0, max: 50 } };
    let h = Axis::Horizontal(Horizontal::new(&d));
    let r = rect(100, 400, 200, 80);
    assert_eq!(h.axis_line(&r), Segment { x0: 100, y0: 400, x1: 300, y1: 400 });
    let marks = h.tick_marks(&r);
    assert_eq!(marks.len(), 11);
    assert_eq!(marks[1], Segment { x0: 120, y0: 400, x1: 120, y1: 420 });
    let grid = h.grid_lines(&rect(100, 0, 200, 400));
    assert_eq!(grid[10], Segment { x0: 300, y0: 0, x1: 300, y1: 400 });
    let top = Axis::Horizontal(Horizontal::new(&d).on_top());
    assert_eq!(top.axis_line(&r), Segment { x0: 100, y0: 480, x1: 300, y1: 480 });
    assert_eq!(top.tick_marks(&r)[0], Segment { x0: 100, y0: 460, x1: 100, y1: 480 });
    let v = Axis::Vertical(Vertical::new(&d));
    let vr = rect(0, 0, 80, 500);
    assert_eq!(v.axis_line(&vr), Segment { x0: 80, y0: 0, x1: 80, y1: 500 });
    assert_eq!(v.tick_marks(&vr)[0], Segment { x0: 60, y0: 500, x1: 80, y1: 500 });
    let vg = v.grid_lines(&rect(80, 0, 900, 500));
    assert_eq!(vg[5], Segment { x0: 80, y0: 250, x1: 980, y1: 250 });
    let right = Axis::Vertical(Vertical::new(&d).on_right());
    assert_eq!(right.axis_line(&vr), Segment { x0: 0, y0: 0, x1: 0, y1: 500 });
    assert_eq!(right.tick_marks(&vr)[5], Segment { x0: 0, y0: 250, x1: 20, y1: 250 });
}

#[test]
fn pixel_rounds_whole_sum_half_away_from_zero() {
    let d = BoundingDomain { x: Extent { min: 0, max: 4 }, y: Extent { min: 0, max: 4 } };
    assert_eq!(x_map(&d, -1, &rect(10, 0, 10, 0)), 8);
    assert_eq!(x_map(&d, 1, &rect(-10, 0, 10, 0)), -8);
    let s = NumericScale::from_domain(Extent { min: 0, max: 4 }, 5).unwrap();
    assert_eq!(splotch::plot::map(-1, &s, &rect(0, 10, 0, 10), Dim::Y), 8);
    assert_eq!(splotch::plot::map(5, &s, &rect(-20, 0, 10, 0), Dim::X), -8);
}

#[test]
fn tick_label_anchor_by_edge() {
    let d = BoundingDomain { x: Extent { min: 0, max: 1 }, y: Extent { min: 0, max: 1 } };
    assert_eq!(Axis::Vertical(Vertical::new(&d)).tick_anchor(), Anchor::End);
    assert_eq!(Axis::Vertical(Vertical::new(&d).on_right()).tick_anchor(), Anchor::Start);
    assert_eq!(Axis::Horizontal(Horizontal::new(&d)).tick_anchor(), Anchor::Middle);
    assert_eq!(Axis::Horizontal(Horizontal::new(&d).on_top()).tick_anchor(), Anchor::Middle);
}
