//! Chart layout: numeric scales with readable ticks, the mapping of data
//! to pixels, and the splitting of a page among titles, axes and the plot
//! body.
pub mod axis;
pub mod chart;
pub mod domain;
pub mod page;
pub mod plot;
pub mod scale;
pub mod text;

pub use chart::{Chart, ChartLayout, Title};
pub use domain::{BoundingDomain, Dim, DomainError, Extent};
pub use page::{AspectRatio, Edge, Rect};
pub use plot::{Plot, PlotKind};
pub use scale::{Decimal, NumericScale, Ratio, Step};
pub use text::{Anchor, Label, LabelPoint, Tick, VerticalOffset};
