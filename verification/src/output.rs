//! What a run reports: the verdict of a comparison, the findings of a quality
//! check, or an error.

use crate::error::ErrorPayload;
use crate::geometry::Viewport;
use crate::types::metric_results::MetricScores;
use crate::types::view::ResourceKind;
use vstd::prelude::*;

verus! {

/// Version of the report format.
pub const DPC_OUTPUT_VERSION: &'static str = "0.2.0";

/// Human-readable issues, the overall verdict first.
#[derive(Clone, Debug)]
pub struct Summary {
    pub top_issues: Vec<String>,
}

/// How serious a quality finding is.
#[derive(Clone, Copy, Debug, PartialEq, Eq, Structural)]
pub enum FindingSeverity {
    Info,
    Warning,
}

/// What a quality finding is about.
#[derive(Clone, Copy, Debug, PartialEq, Eq, Structural)]
pub enum QualityFindingType {
    AlignmentInconsistent,
    SpacingInconsistent,
    LowContrast,
    MissingHierarchy,
}

/// One observation of the quality check.
#[derive(Clone, Debug)]
pub struct QualityFinding {
    pub severity: FindingSeverity,
    pub finding_type: QualityFindingType,
    pub message: String,
}

/// What a `QualityFinding` holds, as plain values.
pub struct QualityFindingModel {
    pub severity: FindingSeverity,
    pub finding_type: QualityFindingType,
    pub message: Seq<char>,
}

impl DeepView for QualityFinding {
    type V = QualityFindingModel;

    open spec fn deep_view(&self) -> QualityFindingModel {
        QualityFindingModel {
            severity: self.severity,
            finding_type: self.finding_type,
            message: self.message@,
        }
    }
}

/// An input as the user named it.
#[derive(Clone, Debug)]
pub struct ResourceDescriptor {
    pub kind: ResourceKind,
    pub value: String,
}

/// Where the files of a comparison were written.
#[derive(Clone, Debug)]
pub struct CompareArtifacts {
    pub directory: String,
    pub kept: bool,
    pub ref_screenshot: Option<String>,
    pub impl_screenshot: Option<String>,
    pub diff_image: Option<String>,
    pub ref_dom_snapshot: Option<String>,
    pub impl_dom_snapshot: Option<String>,
    pub ref_figma_snapshot: Option<String>,
    pub impl_figma_snapshot: Option<String>,
}

/// Report of a comparison. Similarity and threshold are in millionths.
#[derive(Clone, Debug)]
pub struct CompareOutput {
    pub version: String,
    pub ref_resource: ResourceDescriptor,
    pub impl_resource: ResourceDescriptor,
    pub viewport: Viewport,
    pub similarity: u32,
    pub threshold: u32,
    pub passed: bool,
    pub metrics: MetricScores,
    pub summary: Option<Summary>,
    pub artifacts: Option<CompareArtifacts>,
}

/// Report of a code-generation request.
#[derive(Clone, Debug)]
pub struct GenerateCodeOutput {
    pub version: String,
    pub input: ResourceDescriptor,
    pub viewport: Option<Viewport>,
    pub stack: Option<String>,
    pub output_path: Option<String>,
    pub code: Option<String>,
    pub summary: Option<Summary>,
}

/// Report of a quality check. The score is in millionths.
#[derive(Clone, Debug)]
pub struct QualityOutput {
    pub version: String,
    pub input: ResourceDescriptor,
    pub viewport: Viewport,
    pub score: u32,
    pub findings: Vec<QualityFinding>,
}

/// Report of a failure.
#[derive(Clone, Debug)]
pub struct ErrorOutput {
    pub version: String,
    pub message: Option<String>,
    pub error: ErrorPayload,
}

/// Any report.
#[derive(Clone, Debug)]
pub enum DpcOutput {
    Compare(CompareOutput),
    GenerateCode(GenerateCodeOutput),
    Quality(QualityOutput),
    Error(ErrorOutput),
}

} // verus!
