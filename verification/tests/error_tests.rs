use dpc_lib::error::DpcError;
use dpc_lib::error::ErrorCategory;
use dpc_lib::error::ErrorPayload;
use dpc_lib::error::ImageLoadError;
use dpc_lib::formatting::error_output;
use dpc_lib::formatting::EXIT_FATAL;
use dpc_lib::output::DPC_OUTPUT_VERSION;

fn payload_of(err: DpcError) -> (ErrorCategory, String, String) {
    let p = err.to_payload();
    (p.category, p.message, p.remediation.expect("every error has a hint"))
}

#[test]
fn error_payload_new_keeps_its_parts() {
    let p = ErrorPayload::new(ErrorCategory::Image, "bad".to_string(), "try again");
    assert_eq!(p.category, ErrorCategory::Image);
    assert_eq!(p.message, "bad");
    assert_eq!(p.remediation.as_deref(), Some("try again"));
}

#[test]
fn each_error_maps_to_its_category_and_hint() {
    assert_eq!(
        payload_of(DpcError::Io("No such file: missing.png".into())),
        (
            ErrorCategory::Config,
            "No such file: missing.png".to_string(),
            "Check file paths/permissions.".to_string()
        )
    );
    assert_eq!(
        payload_of(DpcError::Network("timed out".into())),
        (
            ErrorCategory::Network,
            "timed out".to_string(),
            "Check connectivity/proxy/VPN and retry.".to_string()
        )
    );
    assert_eq!(
        payload_of(DpcError::InvalidUrl("relative URL without a base".into())),
        (
            ErrorCategory::Config,
            "relative URL without a base".to_string(),
            "Verify URL/format (e.g., https://example.com).".to_string()
        )
    );
    assert_eq!(
        payload_of(DpcError::Image("Format error".into())),
        (
            ErrorCategory::Image,
            "Format error".to_string(),
            "Verify image path/format and readability.".to_string()
        )
    );
    assert_eq!(
        payload_of(DpcError::Serialization("EOF while parsing".into())),
        (
            ErrorCategory::Config,
            "EOF while parsing".to_string(),
            "Check JSON/serialization inputs; run with --verbose for details.".to_string()
        )
    );
    assert_eq!(
        payload_of(DpcError::metric("sizes differ")),
        (
            ErrorCategory::Metric,
            "sizes differ".to_string(),
            "Inspect metric inputs; try rerunning with --verbose.".to_string()
        )
    );
    assert_eq!(
        payload_of(DpcError::Config("boom".into())),
        (
            ErrorCategory::Config,
            "boom".to_string(),
            "Check flags/paths (e.g., --viewport WIDTHxHEIGHT) and required tokens.".to_string()
        )
    );
    assert_eq!(
        payload_of(DpcError::Unknown("?".into())),
        (
            ErrorCategory::Unknown,
            "?".to_string(),
            "Re-run with --verbose; file an issue if persistent.".to_string()
        )
    );
}

#[test]
fn figma_errors_show_the_status() {
    assert_eq!(
        payload_of(DpcError::figma_api(Some(403), "Forbidden")),
        (
            ErrorCategory::Figma,
            "Figma API error (status Some(403)): Forbidden".to_string(),
            "Check FIGMA_TOKEN/URL and rate limits; retry after waiting.".to_string()
        )
    );
    assert_eq!(
        payload_of(DpcError::figma_api(None, "schema mismatch")).1,
        "Figma API error (status None): schema mismatch"
    );
}

#[test]
fn image_load_errors_convert_to_run_errors() {
    match DpcError::from(ImageLoadError::Load("bad header".into())) {
        DpcError::Image(m) => assert_eq!(m, "bad header"),
        other => panic!("unexpected {:?}", other),
    }
    match DpcError::from(ImageLoadError::NotFound("missing.png".into())) {
        DpcError::Config(m) => assert_eq!(m, "File not found: missing.png"),
        other => panic!("unexpected {:?}", other),
    }
    match DpcError::from(ImageLoadError::Save("disk full".into())) {
        DpcError::Io(m) => assert_eq!(m, "Failed to save image: disk full"),
        other => panic!("unexpected {:?}", other),
    }
    match DpcError::from(ImageLoadError::Ocr("engine crashed".into())) {
        DpcError::Unknown(m) => assert_eq!(m, "OCR extraction failed: engine crashed"),
        other => panic!("unexpected {:?}", other),
    }
}

#[test]
fn errors_read_as_kind_and_cause() {
    assert_eq!(DpcError::Io("denied".into()).to_string(), "IO error: denied");
    assert_eq!(DpcError::Network("reset".into()).to_string(), "Network error: reset");
    assert_eq!(DpcError::InvalidUrl("empty host".into()).to_string(), "Invalid URL: empty host");
    assert_eq!(
        DpcError::figma_api(Some(429), "slow down").to_string(),
        "Figma API error (status: Some(429)): slow down"
    );
    assert_eq!(DpcError::figma_api(None, "x").to_string(), "Figma API error (status: None): x");
    assert_eq!(DpcError::Image("bad".into()).to_string(), "Image processing error: bad");
    assert_eq!(DpcError::Serialization("eof".into()).to_string(), "Serialization error: eof");
    assert_eq!(DpcError::metric("nan").to_string(), "Metric computation error: nan");
    assert_eq!(DpcError::Config("boom".into()).to_string(), "Configuration error: boom");
    assert_eq!(DpcError::Unknown("?".into()).to_string(), "Unexpected error: ?");
    assert_eq!(ImageLoadError::Load("bad".into()).to_string(), "Failed to load image: bad");
    assert_eq!(ImageLoadError::NotFound("a.png".into()).to_string(), "File not found: a.png");
    assert_eq!(
        ImageLoadError::Save("full".into()).to_string(),
        "Failed to save normalized image: full"
    );
    assert_eq!(ImageLoadError::Ocr("none".into()).to_string(), "OCR extraction failed: none");
}

#[test]
fn a_missing_input_file_is_a_configuration_error() {
    let err = DpcError::from(ImageLoadError::NotFound("missing.png".into()));
    let out = error_output(&err);
    assert_eq!(out.error.category, ErrorCategory::Config);
    assert!(out.error.message.contains("missing"));
    assert_eq!(out.message.as_deref(), Some("File not found: missing.png"));
    assert_eq!(out.version, DPC_OUTPUT_VERSION);
    assert_eq!(EXIT_FATAL, 2);
}
