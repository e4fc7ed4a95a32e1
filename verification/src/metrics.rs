//! The metrics, which of them run, and how their scores combine.
//!
//! Layout, typography and content read the structure of the views. The pixel
//! metric reads the rasters. The color metric reads the rasters too, and is
//! handed the perceptual distances between the colors that it compares.

pub mod color;
pub mod content;
pub mod layout;
pub mod matching;
pub mod pixel;
pub mod scoring;
pub mod typography;

pub use color::compare_palettes;
pub use color::extract_palette;
pub use content::content_metric;
pub use layout::layout_metric;
pub use pixel::pixel_metric;
pub use scoring::calculate_combined_score;
pub use scoring::ScoreWeights;
pub use typography::typography_metric;

use crate::error::DpcError;
use crate::metrics::content::content_of;
use crate::metrics::content::view_texts;
use crate::metrics::layout::layout_of;
use crate::metrics::matching::view_elements;
use crate::metrics::typography::typography_of;
use crate::text::eq_ignore_case;
use crate::types::metric_results::ColorMetric;
use crate::types::metric_results::MetricScores;
use crate::types::metric_results::PixelMetric;
use crate::text::str_eq_ignore_case;
use crate::types::view::NormalizedView;
use vstd::prelude::*;
use vstd::string::StringExecFns;

verus! {

/// The metrics that a comparison can run.
#[derive(Clone, Copy, Debug, PartialEq, Eq, Structural)]
pub enum MetricKind {
    Pixel,
    Layout,
    Typography,
    Color,
    Content,
}

impl MetricKind {
    /// The name of the metric.
    pub open spec fn name(self) -> Seq<char> {
        match self {
            MetricKind::Pixel => "pixel"@,
            MetricKind::Layout => "layout"@,
            MetricKind::Typography => "typography"@,
            MetricKind::Color => "color"@,
            MetricKind::Content => "content"@,
        }
    }

    /// The metric that `text` names, up to ASCII case: the first of the five
    /// whose name it is.
    pub open spec fn named(text: Seq<char>) -> Option<MetricKind> {
        if eq_ignore_case(text, MetricKind::Pixel.name()) {
            Some(MetricKind::Pixel)
        } else if eq_ignore_case(text, MetricKind::Layout.name()) {
            Some(MetricKind::Layout)
        } else if eq_ignore_case(text, MetricKind::Typography.name()) {
            Some(MetricKind::Typography)
        } else if eq_ignore_case(text, MetricKind::Color.name()) {
            Some(MetricKind::Color)
        } else if eq_ignore_case(text, MetricKind::Content.name()) {
            Some(MetricKind::Content)
        } else {
            None
        }
    }

    /// The metric that `text` names, if it names one.
    pub fn parse(text: &str) -> (r: Option<MetricKind>)
        ensures
            r == MetricKind::named(text@),
    {
        if str_eq_ignore_case(text, "pixel") {
            Some(MetricKind::Pixel)
        } else if str_eq_ignore_case(text, "layout") {
            Some(MetricKind::Layout)
        } else if str_eq_ignore_case(text, "typography") {
            Some(MetricKind::Typography)
        } else if str_eq_ignore_case(text, "color") {
            Some(MetricKind::Color)
        } else if str_eq_ignore_case(text, "content") {
            Some(MetricKind::Content)
        } else {
            None
        }
    }
}

/// The index of the first item that names no metric, or the number of items
/// where each names one.
pub open spec fn first_unknown(items: Seq<Seq<char>>) -> int
    decreases items.len(),
{
    if items.len() == 0 || MetricKind::named(items[0]) is None {
        0
    } else {
        1 + first_unknown(items.drop_first())
    }
}

/// What is said of an item that names no metric.
pub open spec fn unknown_metric_message(item: Seq<char>) -> Seq<char> {
    "invalid metric kind '"@ + item
        + "': expected one of pixel, layout, typography, color, content"@
}

/// Reads a selection of metrics. No selection is an empty one. The first item
/// that names no metric fails the whole selection.
pub fn parse_metric_kinds(kinds: Option<&Vec<String>>) -> (r: Result<Vec<MetricKind>, DpcError>)
    ensures
        match kinds {
            None => r matches Ok(parsed) && parsed@.len() == 0,
            Some(items) => {
                let names = items.deep_view();
                let stop = first_unknown(names);
                if stop == names.len() {
                    r matches Ok(parsed) && parsed@.len() == names.len() && forall|i: int|
                        0 <= i < names.len() ==> MetricKind::named(names[i]) == Some(
                            #[trigger] parsed@[i],
                        )
                } else {
                    r matches Err(DpcError::Config(m)) && m@ == unknown_metric_message(names[stop])
                }
            },
        },
{
    let mut parsed: Vec<MetricKind> = Vec::new();
    let items = match kinds {
        Some(items) => items,
        None => {
            return Ok(parsed);
        },
    };
    let ghost names = items.deep_view();
    let mut i: usize = 0;
    assert(names.subrange(0, names.len() as int) =~= names);
    while i < items.len()
        invariant
            i <= items.len(),
            kinds == Some(items),
            names == items.deep_view(),
            parsed@.len() == i,
            forall|k: int| 0 <= k < i ==> MetricKind::named(names[k]) == Some(#[trigger] parsed@[k]),
            first_unknown(names) == i + first_unknown(names.subrange(i as int, names.len() as int)),
        decreases items.len() - i,
    {
        let ghost rest = names.subrange(i as int, names.len() as int);
        assert(rest[0] == items@[i as int]@);
        match MetricKind::parse(items[i].as_str()) {
            Some(kind) => {
                parsed.push(kind);
                assert(first_unknown(rest) == 1 + first_unknown(rest.drop_first()));
            },
            None => {
                let mut message = String::from_str("invalid metric kind '");
                message.append(items[i].as_str());
                message.append("': expected one of pixel, layout, typography, color, content");
                assert(message@ =~= unknown_metric_message(names[i as int]));
                assert(first_unknown(rest) == 0);
                return Err(DpcError::Config(message));
            },
        }
        assert(rest.drop_first() =~= names.subrange(i + 1, names.len() as int));
        i = i + 1;
    }
    Ok(parsed)
}

/// The metrics that run: pixel and color where nothing was selected and
/// neither view carries a DOM, the selection as it is otherwise.
pub open spec fn effective_selection(
    selected: Seq<MetricKind>,
    ref_has_dom: bool,
    impl_has_dom: bool,
) -> Seq<MetricKind> {
    if selected.len() == 0 && !ref_has_dom && !impl_has_dom {
        seq![MetricKind::Pixel, MetricKind::Color]
    } else {
        selected
    }
}

/// The metrics that run for a selection.
pub fn effective_metrics(selected: Vec<MetricKind>, ref_has_dom: bool, impl_has_dom: bool) -> (r:
    Vec<MetricKind>)
    ensures
        r@ == effective_selection(selected@, ref_has_dom, impl_has_dom),
{
    if selected.len() == 0 && !ref_has_dom && !impl_has_dom {
        let mut r: Vec<MetricKind> = Vec::new();
        r.push(MetricKind::Pixel);
        r.push(MetricKind::Color);
        assert(r@ =~= seq![MetricKind::Pixel, MetricKind::Color]);
        r
    } else {
        selected
    }
}

fn is_selected(selected: &Vec<MetricKind>, kind: MetricKind) -> (r: bool)
    ensures
        r == selected@.contains(kind),
{
    let mut i: usize = 0;
    while i < selected.len()
        invariant
            i <= selected.len(),
            forall|k: int| 0 <= k < i ==> selected@[k] != kind,
        decreases selected.len() - i,
    {
        if selected[i] == kind {
            return true;
        }
        i = i + 1;
    }
    false
}

/// Runs those of the selected metrics that read the structure of the views:
/// layout, typography and content. Each fills its slot where it was selected
/// and the views give it what it needs, and leaves it empty otherwise. The
/// slots of the metrics that read the rasters stay empty.
pub fn run_structural_metrics(
    selected: &Vec<MetricKind>,
    reference: &NormalizedView,
    implementation: &NormalizedView,
) -> (scores: MetricScores)
    requires
        reference.coordinates_in_range(),
        implementation.coordinates_in_range(),
    ensures
        scores.pixel is None,
        scores.color is None,
        scores.well_formed(),
        match layout_of(*reference, *implementation) {
            Some((score, regions)) if selected@.contains(MetricKind::Layout) => {
                &&& scores.layout is Some
                &&& scores.layout->0.score == score
                &&& scores.layout->0.diff_regions.deep_view() == regions
            },
            _ => scores.layout is None,
        },
        match (view_elements(*reference), view_elements(*implementation)) {
            (Some(refs), Some(others)) if selected@.contains(MetricKind::Typography) => match typography_of(
                refs,
                others,
            ) {
                Some((score, diffs)) => {
                    &&& scores.typography is Some
                    &&& scores.typography->0.score == score
                    &&& scores.typography->0.diffs.deep_view() == diffs
                },
                None => scores.typography is None,
            },
            _ => scores.typography is None,
        },
        match (view_texts(*reference), view_texts(*implementation)) {
            (Some(a), Some(b)) if selected@.contains(MetricKind::Content) => {
                &&& scores.content is Some
                &&& scores.content->0.score == content_of(a, b).0
                &&& scores.content->0.missing_text.deep_view() == content_of(a, b).1
                &&& scores.content->0.extra_text.deep_view() == content_of(a, b).2
            },
            _ => scores.content is None,
        },
{
    let layout = if is_selected(selected, MetricKind::Layout) {
        layout::layout_metric(reference, implementation)
    } else {
        None
    };
    let typography = if is_selected(selected, MetricKind::Typography) {
        typography::typography_metric(reference, implementation)
    } else {
        None
    };
    let content = if is_selected(selected, MetricKind::Content) {
        content::content_metric(reference, implementation)
    } else {
        None
    };
    MetricScores { pixel: None, layout, typography, color: None, content }
}

/// Whether the selection holds a metric that reads the rasters: the pixel
/// metric or the color metric.
pub fn needs_rasters(selected: &Vec<MetricKind>) -> (r: bool)
    ensures
        r == (selected@.contains(MetricKind::Pixel) || selected@.contains(MetricKind::Color)),
{
    is_selected(selected, MetricKind::Pixel) || is_selected(selected, MetricKind::Color)
}

/// Puts the results of the metrics that read the rasters into their slots:
/// each of the two fills its slot where its kind is selected and leaves it
/// empty otherwise. The other three slots stay as they are.
pub fn with_raster_metrics(
    scores: MetricScores,
    selected: &Vec<MetricKind>,
    pixel: PixelMetric,
    color: ColorMetric,
) -> (r: MetricScores)
    ensures
        r.pixel == (if selected@.contains(MetricKind::Pixel) {
            Some(pixel)
        } else {
            None
        }),
        r.color == (if selected@.contains(MetricKind::Color) {
            Some(color)
        } else {
            None
        }),
        r.layout == scores.layout,
        r.typography == scores.typography,
        r.content == scores.content,
        scores.well_formed() && pixel.score <= 1_000_000 && color.score <= 1_000_000
            ==> r.well_formed(),
{
    MetricScores {
        pixel: if is_selected(selected, MetricKind::Pixel) {
            Some(pixel)
        } else {
            None
        },
        layout: scores.layout,
        typography: scores.typography,
        color: if is_selected(selected, MetricKind::Color) {
            Some(color)
        } else {
            None
        },
        content: scores.content,
    }
}

} // verus!
