//! Results of the comparison metrics.
//!
//! A score is a whole number of millionths: `SCORE_ONE` stands for a perfect
//! match, `0` for none. Positions and sizes of regions are fractions of the
//! raster, in millionths as well.

use crate::geometry::BoundingBox;
use vstd::prelude::*;

verus! {

/// The score of a perfect match.
pub const SCORE_ONE: u32 = 1_000_000;

/// `score` lies between no match and a perfect match.
pub open spec fn is_score(score: u32) -> bool {
    score <= SCORE_ONE
}

/// How much a region differs.
#[derive(Clone, Copy, Debug, PartialEq, Eq, Structural)]
pub enum DiffSeverity {
    Minor,
    Moderate,
    Major,
}

/// Why a pixel region was flagged.
#[derive(Clone, Copy, Debug, PartialEq, Eq, Structural)]
pub enum PixelDiffReason {
    PixelChange,
    AntiAliasing,
    RenderingNoise,
}

/// A region of differing pixels.
#[derive(Clone, Copy, Debug, PartialEq, Eq, Structural)]
pub struct PixelDiffRegion {
    pub x: i64,
    pub y: i64,
    pub width: i64,
    pub height: i64,
    pub severity: DiffSeverity,
    pub reason: PixelDiffReason,
}

/// Result of the pixel metric.
#[derive(Clone, Debug)]
pub struct PixelMetric {
    pub score: u32,
    pub diff_regions: Vec<PixelDiffRegion>,
}

/// What happened to an element between reference and implementation.
#[derive(Clone, Copy, Debug, PartialEq, Eq, Structural)]
pub enum LayoutDiffKind {
    MissingElement,
    ExtraElement,
    PositionShift,
    SizeChange,
}

/// A region in which the layout differs.
#[derive(Clone, Debug)]
pub struct LayoutDiffRegion {
    pub x: i64,
    pub y: i64,
    pub width: i64,
    pub height: i64,
    pub kind: LayoutDiffKind,
    pub element_type: Option<String>,
    pub label: Option<String>,
}

/// What a `LayoutDiffRegion` holds, as plain values.
pub struct LayoutDiffRegionModel {
    pub x: i64,
    pub y: i64,
    pub width: i64,
    pub height: i64,
    pub kind: LayoutDiffKind,
    pub element_type: Option<Seq<char>>,
    pub label: Option<Seq<char>>,
}

impl DeepView for LayoutDiffRegion {
    type V = LayoutDiffRegionModel;

    open spec fn deep_view(&self) -> LayoutDiffRegionModel {
        LayoutDiffRegionModel {
            x: self.x,
            y: self.y,
            width: self.width,
            height: self.height,
            kind: self.kind,
            element_type: self.element_type.deep_view(),
            label: self.label.deep_view(),
        }
    }
}

/// Result of the layout metric.
#[derive(Clone, Debug)]
pub struct LayoutMetric {
    pub score: u32,
    pub diff_regions: Vec<LayoutDiffRegion>,
}

/// A layout difference together with the rectangles it was found on.
#[derive(Clone, Debug)]
pub enum LayoutIssue {
    MissingElement { element_type: Option<String>, bounding_box: BoundingBox },
    ExtraElement { element_type: Option<String>, bounding_box: BoundingBox },
    PositionShift { element_type: Option<String>, ref_box: BoundingBox, impl_box: BoundingBox },
    SizeChange { element_type: Option<String>, ref_box: BoundingBox, impl_box: BoundingBox },
}

/// A typographic property that differs.
#[derive(Clone, Copy, Debug, PartialEq, Eq, Structural)]
pub enum TypographyIssue {
    FontFamilyMismatch,
    FontSizeDiff,
    FontWeightDiff,
    LineHeightDiff,
}

/// The typographic differences of one matched pair of elements. `details`
/// holds free-form JSON text.
#[derive(Clone, Debug)]
pub struct TypographyDiff {
    pub element_id_ref: Option<String>,
    pub element_id_impl: Option<String>,
    pub issues: Vec<TypographyIssue>,
    pub details: Option<String>,
}

/// What a `TypographyDiff` holds, as plain values.
pub struct TypographyDiffModel {
    pub element_id_ref: Option<Seq<char>>,
    pub element_id_impl: Option<Seq<char>>,
    pub issues: Seq<TypographyIssue>,
    pub details: Option<Seq<char>>,
}

impl DeepView for TypographyDiff {
    type V = TypographyDiffModel;

    open spec fn deep_view(&self) -> TypographyDiffModel {
        TypographyDiffModel {
            element_id_ref: self.element_id_ref.deep_view(),
            element_id_impl: self.element_id_impl.deep_view(),
            issues: self.issues@,
            details: self.details.deep_view(),
        }
    }
}

/// Result of the typography metric.
#[derive(Clone, Debug)]
pub struct TypographyMetric {
    pub score: u32,
    pub diffs: Vec<TypographyDiff>,
}

/// Which part of the palette moved.
#[derive(Clone, Copy, Debug, PartialEq, Eq, Structural)]
pub enum ColorDiffKind {
    PrimaryColorShift,
    AccentColorShift,
    BackgroundColorShift,
}

/// A palette entry that moved. `delta_e` is in millionths.
#[derive(Clone, Debug)]
pub struct ColorDiff {
    pub kind: ColorDiffKind,
    pub ref_color: String,
    pub impl_color: String,
    pub delta_e: Option<i64>,
}

/// What a `ColorDiff` holds, as plain values.
pub struct ColorDiffModel {
    pub kind: ColorDiffKind,
    pub ref_color: Seq<char>,
    pub impl_color: Seq<char>,
    pub delta_e: Option<i64>,
}

impl DeepView for ColorDiff {
    type V = ColorDiffModel;

    open spec fn deep_view(&self) -> ColorDiffModel {
        ColorDiffModel {
            kind: self.kind,
            ref_color: self.ref_color@,
            impl_color: self.impl_color@,
            delta_e: self.delta_e,
        }
    }
}

/// Result of the color metric.
#[derive(Clone, Debug)]
pub struct ColorMetric {
    pub score: u32,
    pub diffs: Vec<ColorDiff>,
}

/// A palette difference in which the implementation's color may be absent.
#[derive(Clone, Debug)]
pub enum ColorIssue {
    PrimaryColorShift { ref_color: String, impl_color: Option<String>, delta_e: Option<i64> },
    AccentColorShift { ref_color: String, impl_color: Option<String>, delta_e: Option<i64> },
    BackgroundColorShift { ref_color: String, impl_color: Option<String>, delta_e: Option<i64> },
    PaletteCountMismatch { ref_count: usize, impl_count: usize },
}

/// Result of the content metric.
#[derive(Clone, Debug)]
pub struct ContentMetric {
    pub score: u32,
    pub missing_text: Vec<String>,
    pub extra_text: Vec<String>,
}

/// On which side a text is absent.
#[derive(Clone, Copy, Debug, PartialEq, Eq, Structural)]
pub enum ContentIssue {
    MissingText,
    ExtraText,
}

/// A finding on the tiers of font sizes. The size is in millionths of a pixel.
#[derive(Clone, Debug)]
pub enum HierarchyIssue {
    TooManyTiers(usize),
    TooFewTiers(usize),
    UnusualFontSize { font_size: i64, element_text: Option<String>, bounding_box: BoundingBox },
}

/// Result of the hierarchy metric. Tiers are font sizes in millionths of a
/// pixel.
#[derive(Clone, Debug)]
pub struct HierarchyMetric {
    pub score: u32,
    pub issues: Vec<HierarchyIssue>,
    pub distinct_tiers: Vec<i64>,
    pub tier_count: usize,
}

/// One slot per metric. An empty slot means that the metric did not run.
#[derive(Clone, Debug)]
pub struct MetricScores {
    pub pixel: Option<PixelMetric>,
    pub layout: Option<LayoutMetric>,
    pub typography: Option<TypographyMetric>,
    pub color: Option<ColorMetric>,
    pub content: Option<ContentMetric>,
}

impl MetricScores {
    /// Every score that is present lies between no match and a perfect match.
    pub open spec fn well_formed(&self) -> bool {
        &&& self.pixel is Some ==> is_score(self.pixel->0.score)
        &&& self.layout is Some ==> is_score(self.layout->0.score)
        &&& self.typography is Some ==> is_score(self.typography->0.score)
        &&& self.color is Some ==> is_score(self.color->0.score)
        &&& self.content is Some ==> is_score(self.content->0.score)
    }

    /// No metric has run.
    pub fn empty() -> (r: MetricScores)
        ensures
            r.pixel is None,
            r.layout is None,
            r.typography is None,
            r.color is None,
            r.content is None,
    {
        MetricScores { pixel: None, layout: None, typography: None, color: None, content: None }
    }
}

/// The result of any one metric.
#[derive(Clone, Debug)]
pub enum MetricResult {
    Pixel(PixelMetric),
    Layout(LayoutMetric),
    Typography(TypographyMetric),
    Color(ColorMetric),
    Content(ContentMetric),
    Hierarchy(HierarchyMetric),
}

} // verus!
