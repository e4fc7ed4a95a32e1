//! The data model: normalized views, DOM and Figma snapshots, metric results.

pub mod dom;
pub mod figma;
pub mod metric_results;
pub mod view;

pub use crate::geometry::BoundingBox;
pub use crate::geometry::Viewport;
pub use dom::Attribute;
pub use dom::ComputedStyle;
pub use dom::DomNode;
pub use dom::DomSnapshot;
pub use figma::FigmaNode;
pub use figma::FigmaPaint;
pub use figma::FigmaPaintKind;
pub use figma::FigmaSnapshot;
pub use figma::TypographyStyle;
pub use metric_results::ColorDiff;
pub use metric_results::ColorDiffKind;
pub use metric_results::ColorIssue;
pub use metric_results::ColorMetric;
pub use metric_results::ContentIssue;
pub use metric_results::ContentMetric;
pub use metric_results::DiffSeverity;
pub use metric_results::HierarchyIssue;
pub use metric_results::HierarchyMetric;
pub use metric_results::LayoutDiffKind;
pub use metric_results::LayoutDiffRegion;
pub use metric_results::LayoutIssue;
pub use metric_results::LayoutMetric;
pub use metric_results::MetricResult;
pub use metric_results::MetricScores;
pub use metric_results::PixelDiffReason;
pub use metric_results::PixelDiffRegion;
pub use metric_results::PixelMetric;
pub use metric_results::TypographyDiff;
pub use metric_results::TypographyIssue;
pub use metric_results::TypographyMetric;
pub use view::NormalizedView;
pub use view::OcrBlock;
pub use view::ResourceKind;
