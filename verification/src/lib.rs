//! Core of a design-parity checker.
//!
//! A reference (a design) and an implementation (a build of it) are each
//! reduced to a normalized view: a raster, plus the structure of a page or of
//! a Figma frame where there is one. Metrics compare the two views, a
//! weighted mean combines their scores, and a summary tells the outcome. A
//! single view can also be scored for the quality of its design.
//!
//! Numbers
//! -------
//! No quantity is held in floating point. Scores, weights, thresholds and
//! fractions of a raster are whole numbers of millionths: `1_000_000` is one
//! whole. Coordinates are millionths of a pixel or of the raster, whichever
//! the rectangle is given in. Every formula is computed exactly on whole
//! numbers and rounded once, at the end, as its contract says.
//!
//! Boundaries
//! ----------
//! Nothing here reads a file, the environment or the network. Images come in
//! as rasters, the environment as a snapshot, and the outcome of a render or
//! of text recognition as a value. Resampling and compositing of rasters are
//! done by the `image` crate, behind two functions whose contracts state what
//! is taken on trust.

pub mod commands;
pub mod decimal;
pub mod error;
pub mod formatting;
pub mod geometry;
pub mod heatmap;
pub mod image_loader;
pub mod masking;
pub mod metrics;
pub mod output;
pub mod pipeline;
pub mod quality;
pub mod raster;
pub mod selectors;
pub mod seqs;
pub mod settings;
pub mod sorting;
pub mod summary;
pub mod text;
pub mod types;

pub use error::DpcError;
pub use error::ErrorCategory;
pub use error::ErrorPayload;
pub use geometry::Viewport;
pub use image_loader::ImageLoadOptions;
pub use metrics::calculate_combined_score;
pub use metrics::MetricKind;
pub use metrics::ScoreWeights;
pub use output::CompareArtifacts;
pub use output::CompareOutput;
pub use output::DpcOutput;
pub use output::ErrorOutput;
pub use output::FindingSeverity;
pub use output::GenerateCodeOutput;
pub use output::QualityFinding;
pub use output::QualityFindingType;
pub use output::QualityOutput;
pub use output::ResourceDescriptor;
pub use output::Summary;
pub use pipeline::FigmaInfo;
pub use pipeline::ParsedResource;
pub use types::ColorMetric;
pub use types::ContentMetric;
pub use types::LayoutMetric;
pub use types::MetricScores;
pub use types::NormalizedView;
pub use types::PixelMetric;
pub use types::ResourceKind;
pub use types::TypographyMetric;
