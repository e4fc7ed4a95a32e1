//! What the commands decide once their inputs are at hand.

use crate::formatting::exit_code_for_compare;
use crate::geometry::Viewport;
use crate::metrics::scoring::calculate_combined_score;
use crate::metrics::scoring::combined_score;
use crate::metrics::scoring::ScoreWeights;
use crate::output::CompareArtifacts;
use crate::output::CompareOutput;
use crate::output::GenerateCodeOutput;
use crate::output::Summary;
use crate::output::QualityOutput;
use crate::output::ResourceDescriptor;
use crate::output::DPC_OUTPUT_VERSION;
use crate::quality::quality_findings;
use crate::quality::quality_score;
use crate::quality::score_quality;
use crate::summary::generate_summary;
use crate::summary::summary_lines;
use crate::types::metric_results::MetricScores;
use crate::types::metric_results::SCORE_ONE;
use crate::types::view::NormalizedView;
use vstd::prelude::*;
use vstd::string::StringExecFns;

verus! {

/// Whether a similarity reaches the threshold.
pub open spec fn passes(similarity: u32, threshold: u32) -> bool {
    similarity >= threshold
}

/// Whether the files of a run stay: where the caller asked for it, or named
/// the directory.
pub fn should_keep_artifacts(keep_artifacts: bool, directory_from_caller: bool) -> (r: bool)
    ensures
        r == (keep_artifacts || directory_from_caller),
{
    keep_artifacts || directory_from_caller
}

/// The viewport of a run: the caller's where the caller gave one, the
/// configured one otherwise.
pub fn choose_viewport(given: bool, from_caller: Viewport, configured: Viewport) -> (r: Viewport)
    ensures
        r == if given {
            from_caller
        } else {
            configured
        },
{
    if given {
        from_caller
    } else {
        configured
    }
}

/// Draws up the report of a comparison from the results of the metrics: the
/// similarity is their weighted combination, the comparison passes where the
/// similarity reaches the threshold, and the summary tells both.
pub fn compare_report(
    ref_resource: ResourceDescriptor,
    impl_resource: ResourceDescriptor,
    viewport: Viewport,
    threshold: u32,
    weights: &ScoreWeights,
    metrics: MetricScores,
    artifacts: Option<CompareArtifacts>,
) -> (out: CompareOutput)
    ensures
        out.version@ == DPC_OUTPUT_VERSION@,
        out.ref_resource == ref_resource,
        out.impl_resource == impl_resource,
        out.viewport == viewport,
        out.threshold == threshold,
        out.similarity == combined_score(metrics, *weights),
        metrics.well_formed() ==> out.similarity <= SCORE_ONE,
        out.passed == passes(out.similarity, threshold),
        out.metrics == metrics,
        out.summary is Some,
        out.summary->0.top_issues.deep_view() == summary_lines(metrics, out.similarity, threshold),
        out.artifacts == artifacts,
{
    let similarity = calculate_combined_score(&metrics, weights);
    let passed = similarity >= threshold;
    let summary = generate_summary(&metrics, similarity, threshold);
    CompareOutput {
        version: String::from_str(DPC_OUTPUT_VERSION),
        ref_resource,
        impl_resource,
        viewport,
        similarity,
        threshold,
        passed,
        metrics,
        summary: Some(summary),
        artifacts,
    }
}

/// The exit code that goes with the report of a comparison.
pub fn compare_exit_code(out: &CompareOutput) -> (code: u8)
    ensures
        code == if out.passed {
            0u8
        } else {
            1u8
        },
{
    exit_code_for_compare(out.passed)
}

/// Draws up the report of a quality check of `view`.
pub fn quality_report(input: ResourceDescriptor, viewport: Viewport, view: &NormalizedView) -> (out:
    QualityOutput)
    requires
        view.coordinates_in_range(),
    ensures
        out.version@ == DPC_OUTPUT_VERSION@,
        out.input == input,
        out.viewport == viewport,
        out.score == quality_score(*view, viewport),
        out.score <= SCORE_ONE,
        out.findings.deep_view() == quality_findings(*view, viewport),
{
    let (score, findings) = score_quality(view, &viewport);
    QualityOutput { version: String::from_str(DPC_OUTPUT_VERSION), input, viewport, score, findings }
}

/// The first note of a code-generation report.
pub const NOT_IMPLEMENTED_NOTE: &'static str = "Not implemented: generate-code will return code later; for now, use an external screenshot-to-code service and run `dpc compare` for parity checks.";

/// The second note of a code-generation report.
pub const NEXT_STEPS_NOTE: &'static str = "Next steps: keep artifacts with --keep-artifacts/--artifacts-dir for handoff to codegen tools.";

/// Draws up the report of a request for code: no code is generated, and two
/// notes tell what to do in its place.
pub fn generate_code_report(
    input: ResourceDescriptor,
    viewport: Viewport,
    stack: String,
    output_path: Option<String>,
) -> (out: GenerateCodeOutput)
    ensures
        out.version@ == DPC_OUTPUT_VERSION@,
        out.input == input,
        out.viewport == Some(viewport),
        out.stack == Some(stack),
        out.output_path == output_path,
        out.code is None,
        out.summary is Some,
        out.summary->0.top_issues.deep_view() == seq![NOT_IMPLEMENTED_NOTE@, NEXT_STEPS_NOTE@],
{
    let mut notes: Vec<String> = Vec::new();
    notes.push(String::from_str(NOT_IMPLEMENTED_NOTE));
    notes.push(String::from_str(NEXT_STEPS_NOTE));
    assert(notes.deep_view() =~= seq![NOT_IMPLEMENTED_NOTE@, NEXT_STEPS_NOTE@]);
    GenerateCodeOutput {
        version: String::from_str(DPC_OUTPUT_VERSION),
        input,
        viewport: Some(viewport),
        stack: Some(stack),
        output_path,
        code: None,
        summary: Some(Summary { top_issues: notes }),
    }
}

} // verus!
