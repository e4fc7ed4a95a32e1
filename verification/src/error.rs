//! Errors, and the payload that reports one to the user.
//!
//! Every error maps to a category, a message and a remediation hint. The
//! hints are part of the interface: their wording is fixed here.

use crate::decimal::decimal;
use crate::decimal::push_decimal;
use vstd::prelude::*;
use vstd::string::StringExecFns;

verus! {

/// The broad kind of a failure.
#[derive(Clone, Copy, Debug, PartialEq, Eq, Structural)]
pub enum ErrorCategory {
    Config,
    Network,
    Figma,
    Image,
    Metric,
    Unknown,
}

/// What is shown to the user for an error.
#[derive(Clone, Debug)]
pub struct ErrorPayload {
    pub category: ErrorCategory,
    pub message: String,
    pub remediation: Option<String>,
}

impl ErrorPayload {
    /// A payload with a hint.
    pub fn new(category: ErrorCategory, message: String, remediation: &str) -> (r: Self)
        ensures
            r.category == category,
            r.message == message,
            r.remediation is Some,
            r.remediation->0@ == remediation@,
    {
        Self { category, message, remediation: Some(String::from_str(remediation)) }
    }
}

/// A failure while loading, saving or reading an image. Each variant carries
/// the text of its cause.
#[derive(Clone, Debug)]
pub enum ImageLoadError {
    Load(String),
    NotFound(String),
    Save(String),
    Ocr(String),
}

/// A failure of a run. Variants that stem from another component carry
/// the text of its error; `FigmaApi` carries the HTTP status, if there was one.
#[derive(Clone, Debug)]
pub enum DpcError {
    Io(String),
    Network(String),
    InvalidUrl(String),
    FigmaApi { status: Option<u16>, message: String },
    Image(String),
    Serialization(String),
    Metric(String),
    Config(String),
    Unknown(String),
}

impl ImageLoadError {
    /// The failure in words.
    pub open spec fn display_text(&self) -> Seq<char> {
        match self {
            ImageLoadError::Load(e) => "Failed to load image: "@ + e@,
            ImageLoadError::NotFound(path) => "File not found: "@ + path@,
            ImageLoadError::Save(msg) => "Failed to save normalized image: "@ + msg@,
            ImageLoadError::Ocr(msg) => "OCR extraction failed: "@ + msg@,
        }
    }

    /// The failure in words.
    pub fn to_string(&self) -> (text: String)
        ensures
            text@ == self.display_text(),
    {
        match self {
            ImageLoadError::Load(e) => String::from_str("Failed to load image: ").concat(
                e.as_str(),
            ),
            ImageLoadError::NotFound(path) => String::from_str("File not found: ").concat(
                path.as_str(),
            ),
            ImageLoadError::Save(msg) => String::from_str(
                "Failed to save normalized image: ",
            ).concat(msg.as_str()),
            ImageLoadError::Ocr(msg) => String::from_str("OCR extraction failed: ").concat(
                msg.as_str(),
            ),
        }
    }
}

/// How an optional HTTP status is printed.
pub open spec fn status_text(status: Option<u16>) -> Seq<char> {
    match status {
        Some(code) => "Some("@ + decimal(code as nat) + ")"@,
        None => "None"@,
    }
}

fn push_status(text: &mut String, status: Option<u16>)
    ensures
        final(text)@ == old(text)@ + status_text(status),
{
    match status {
        Some(code) => {
            text.append("Some(");
            push_decimal(text, code as u128);
            text.append(")");
            assert(final(text)@ =~= old(text)@ + status_text(status));
        },
        None => {
            text.append("None");
        },
    }
}

impl DpcError {
    /// A failure of the Figma API, with the HTTP status if there was one.
    pub fn figma_api(status: Option<u16>, message: &str) -> (r: Self)
        ensures
            r matches DpcError::FigmaApi { status: s, message: m } && s == status && m@
                == message@,
    {
        DpcError::FigmaApi { status, message: String::from_str(message) }
    }

    /// A failure inside a metric.
    pub fn metric(message: &str) -> (r: Self)
        ensures
            r matches DpcError::Metric(m) && m@ == message@,
    {
        DpcError::Metric(String::from_str(message))
    }

    /// The failure in words: its kind, then its cause.
    pub open spec fn display_text(&self) -> Seq<char> {
        match self {
            DpcError::Io(m) => "IO error: "@ + m@,
            DpcError::Network(m) => "Network error: "@ + m@,
            DpcError::InvalidUrl(m) => "Invalid URL: "@ + m@,
            DpcError::FigmaApi { status, message } => "Figma API error (status: "@ + status_text(
                *status,
            ) + "): "@ + message@,
            DpcError::Image(m) => "Image processing error: "@ + m@,
            DpcError::Serialization(m) => "Serialization error: "@ + m@,
            DpcError::Metric(m) => "Metric computation error: "@ + m@,
            DpcError::Config(m) => "Configuration error: "@ + m@,
            DpcError::Unknown(m) => "Unexpected error: "@ + m@,
        }
    }

    /// The failure in words.
    pub fn to_string(&self) -> (text: String)
        ensures
            text@ == self.display_text(),
    {
        match self {
            DpcError::Io(m) => String::from_str("IO error: ").concat(m.as_str()),
            DpcError::Network(m) => String::from_str("Network error: ").concat(m.as_str()),
            DpcError::InvalidUrl(m) => String::from_str("Invalid URL: ").concat(m.as_str()),
            DpcError::FigmaApi { status, message } => {
                let mut text = String::from_str("Figma API error (status: ");
                push_status(&mut text, *status);
                text.append("): ");
                text.append(message.as_str());
                assert(text@ =~= self.display_text());
                text
            },
            DpcError::Image(m) => String::from_str("Image processing error: ").concat(m.as_str()),
            DpcError::Serialization(m) => String::from_str("Serialization error: ").concat(
                m.as_str(),
            ),
            DpcError::Metric(m) => String::from_str("Metric computation error: ").concat(
                m.as_str(),
            ),
            DpcError::Config(m) => String::from_str("Configuration error: ").concat(m.as_str()),
            DpcError::Unknown(m) => String::from_str("Unexpected error: ").concat(m.as_str()),
        }
    }

    /// The category under which the error is reported.
    pub open spec fn category(&self) -> ErrorCategory {
        match self {
            DpcError::Io(_) => ErrorCategory::Config,
            DpcError::Network(_) => ErrorCategory::Network,
            DpcError::InvalidUrl(_) => ErrorCategory::Config,
            DpcError::FigmaApi { .. } => ErrorCategory::Figma,
            DpcError::Image(_) => ErrorCategory::Image,
            DpcError::Serialization(_) => ErrorCategory::Config,
            DpcError::Metric(_) => ErrorCategory::Metric,
            DpcError::Config(_) => ErrorCategory::Config,
            DpcError::Unknown(_) => ErrorCategory::Unknown,
        }
    }

    /// The message that is reported.
    pub open spec fn message(&self) -> Seq<char> {
        match self {
            DpcError::Io(m) => m@,
            DpcError::Network(m) => m@,
            DpcError::InvalidUrl(m) => m@,
            DpcError::FigmaApi { status, message } => "Figma API error (status "@ + status_text(
                *status,
            ) + "): "@ + message@,
            DpcError::Image(m) => m@,
            DpcError::Serialization(m) => m@,
            DpcError::Metric(m) => m@,
            DpcError::Config(m) => m@,
            DpcError::Unknown(m) => m@,
        }
    }

    /// The hint that tells the user what to do about it.
    pub open spec fn remediation(&self) -> Seq<char> {
        match self {
            DpcError::Io(_) => "Check file paths/permissions."@,
            DpcError::Network(_) => "Check connectivity/proxy/VPN and retry."@,
            DpcError::InvalidUrl(_) => "Verify URL/format (e.g., https://example.com)."@,
            DpcError::FigmaApi { .. } => "Check FIGMA_TOKEN/URL and rate limits; retry after waiting."@,
            DpcError::Image(_) => "Verify image path/format and readability."@,
            DpcError::Serialization(_) => "Check JSON/serialization inputs; run with --verbose for details."@,
            DpcError::Metric(_) => "Inspect metric inputs; try rerunning with --verbose."@,
            DpcError::Config(_) => "Check flags/paths (e.g., --viewport WIDTHxHEIGHT) and required tokens."@,
            DpcError::Unknown(_) => "Re-run with --verbose; file an issue if persistent."@,
        }
    }

    /// The payload for this error: its category, its message and its hint.
    pub fn to_payload(&self) -> (r: ErrorPayload)
        ensures
            r.category == self.category(),
            r.message@ == self.message(),
            r.remediation is Some,
            r.remediation->0@ == self.remediation(),
    {
        match self {
            DpcError::Io(e) => ErrorPayload::new(
                ErrorCategory::Config,
                e.clone(),
                "Check file paths/permissions.",
            ),
            DpcError::Network(e) => ErrorPayload::new(
                ErrorCategory::Network,
                e.clone(),
                "Check connectivity/proxy/VPN and retry.",
            ),
            DpcError::InvalidUrl(e) => ErrorPayload::new(
                ErrorCategory::Config,
                e.clone(),
                "Verify URL/format (e.g., https://example.com).",
            ),
            DpcError::FigmaApi { status, message } => {
                let mut text = String::from_str("Figma API error (status ");
                push_status(&mut text, *status);
                text.append("): ");
                text.append(message.as_str());
                assert(text@ =~= self.message());
                ErrorPayload::new(
                    ErrorCategory::Figma,
                    text,
                    "Check FIGMA_TOKEN/URL and rate limits; retry after waiting.",
                )
            },
            DpcError::Image(e) => ErrorPayload::new(
                ErrorCategory::Image,
                e.clone(),
                "Verify image path/format and readability.",
            ),
            DpcError::Serialization(e) => ErrorPayload::new(
                ErrorCategory::Config,
                e.clone(),
                "Check JSON/serialization inputs; run with --verbose for details.",
            ),
            DpcError::Metric(msg) => ErrorPayload::new(
                ErrorCategory::Metric,
                msg.clone(),
                "Inspect metric inputs; try rerunning with --verbose.",
            ),
            DpcError::Config(msg) => ErrorPayload::new(
                ErrorCategory::Config,
                msg.clone(),
                "Check flags/paths (e.g., --viewport WIDTHxHEIGHT) and required tokens.",
            ),
            DpcError::Unknown(msg) => ErrorPayload::new(
                ErrorCategory::Unknown,
                msg.clone(),
                "Re-run with --verbose; file an issue if persistent.",
            ),
        }
    }
}

/// The variant and text that an image failure turns into.
pub open spec fn converted(err: ImageLoadError, out: DpcError) -> bool {
    match err {
        ImageLoadError::Load(e) => out matches DpcError::Image(m) && m@ == e@,
        ImageLoadError::NotFound(path) => out matches DpcError::Config(m) && m@
            == "File not found: "@ + path@,
        ImageLoadError::Save(msg) => out matches DpcError::Io(m) && m@
            == "Failed to save image: "@ + msg@,
        ImageLoadError::Ocr(msg) => out matches DpcError::Unknown(m) && m@
            == "OCR extraction failed: "@ + msg@,
    }
}

/// The conversion makes new text, so what it gives is told by the relation
/// `converted` on `from` itself and not by a value in `from_spec`.
impl vstd::std_specs::convert::FromSpecImpl<ImageLoadError> for DpcError {
    open spec fn obeys_from_spec() -> bool {
        false
    }

    open spec fn from_spec(err: ImageLoadError) -> DpcError {
        DpcError::Unknown(arbitrary())
    }
}

impl From<ImageLoadError> for DpcError {
    fn from(err: ImageLoadError) -> (r: DpcError)
        ensures
            converted(err, r),
    {
        match err {
            ImageLoadError::Load(e) => DpcError::Image(e),
            ImageLoadError::NotFound(path) => {
                let mut text = String::from_str("File not found: ");
                text.append(path.as_str());
                DpcError::Config(text)
            },
            ImageLoadError::Save(msg) => {
                let mut text = String::from_str("Failed to save image: ");
                text.append(msg.as_str());
                DpcError::Io(text)
            },
            ImageLoadError::Ocr(msg) => {
                let mut text = String::from_str("OCR extraction failed: ");
                text.append(msg.as_str());
                DpcError::Unknown(text)
            },
        }
    }
}

} // verus!
