use dpc_lib::error::DpcError;
use dpc_lib::error::ErrorCategory;
use dpc_lib::error::ImageLoadError;
use dpc_lib::geometry::Viewport;
use dpc_lib::image_loader::ImageLoadOptions;
use dpc_lib::masking::IgnoreRegion;
use dpc_lib::pipeline::artifacts_dir_name;
use dpc_lib::pipeline::check_ignore_regions;
use dpc_lib::pipeline::detect_kind;
use dpc_lib::pipeline::figma_file_name;
use dpc_lib::pipeline::figma_info_from;
use dpc_lib::pipeline::has_figma_credentials;
use dpc_lib::pipeline::ingest_error_payload;
use dpc_lib::pipeline::ingest_failure;
use dpc_lib::pipeline::masked_file_name;
use dpc_lib::pipeline::mock_env_key;
use dpc_lib::pipeline::mock_render_image_path;
use dpc_lib::pipeline::mock_renderer_file;
use dpc_lib::pipeline::ocr_outcome;
use dpc_lib::pipeline::persist_compare_artifacts;
use dpc_lib::pipeline::plan_normalization;
use dpc_lib::pipeline::resolve_artifacts_dir;
use dpc_lib::pipeline::screenshot_file_name;
use dpc_lib::pipeline::with_masked_screenshot;
use dpc_lib::pipeline::ArtifactPaths;
use dpc_lib::pipeline::EnvSnapshot;
use dpc_lib::pipeline::EnvVar;
use dpc_lib::pipeline::FigmaInfo;
use dpc_lib::pipeline::IngestError;
use dpc_lib::pipeline::IngestPlan;
use dpc_lib::pipeline::OcrError;
use dpc_lib::pipeline::ParsedResource;
use dpc_lib::pipeline::ViewRole;
use dpc_lib::pipeline::DIFF_HEATMAP_FILE;
use dpc_lib::pipeline::MOCK_RENDERERS_DIR;
use dpc_lib::settings::Timeouts;
use dpc_lib::geometry::BoundingBox;
use dpc_lib::types::DomSnapshot;
use dpc_lib::types::FigmaSnapshot;
use dpc_lib::types::NormalizedView;
use dpc_lib::types::OcrBlock;
use dpc_lib::types::ResourceKind;

const VIEWPORT: Viewport = Viewport { width: 1440, height: 900 };
const TIMEOUTS: Timeouts = Timeouts { navigation: 30, network_idle: 10, process: 45 };

fn env(pairs: &[(&str, &str)]) -> EnvSnapshot {
    EnvSnapshot {
        vars: pairs.iter().map(|(n, v)| EnvVar { name: n.to_string(), value: v.to_string() }).collect(),
    }
}

fn resource(kind: ResourceKind, value: &str, figma: Option<(&str, Option<&str>)>) -> ParsedResource {
    ParsedResource {
        kind,
        value: value.to_string(),
        figma_info: figma.map(|(key, node)| FigmaInfo {
            file_key: key.to_string(),
            node_id: node.map(String::from),
        }),
    }
}

fn plan(res: &ParsedResource, prefix: &str, mock: Option<&str>, credentials: bool) -> Result<IngestPlan, IngestError> {
    plan_normalization(res, &VIEWPORT, prefix, &TIMEOUTS, mock.map(String::from), credentials)
}

fn view(kind: ResourceKind, path: &str) -> NormalizedView {
    NormalizedView {
        kind,
        screenshot_path: path.to_string(),
        width: 4,
        height: 4,
        dom: None,
        figma_tree: None,
        ocr_blocks: None,
    }
}

#[test]
fn file_names_are_fixed() {
    assert_eq!(screenshot_file_name("ref"), "ref_screenshot.png");
    assert_eq!(masked_file_name("impl"), "impl_masked.png");
    assert_eq!(figma_file_name("input"), "input_figma.png");
    assert_eq!(mock_renderer_file("ref"), "ref.png");
    assert_eq!(DIFF_HEATMAP_FILE, "diff_heatmap.png");
    assert_eq!(ViewRole::Reference.file_prefix(), "ref");
    assert_eq!(ViewRole::Implementation.file_prefix(), "impl");
    assert_eq!(ViewRole::Input.file_prefix(), "input");
    assert_eq!(artifacts_dir_name(4711, 1_700_000_000_123), "dpc-4711-1700000000123");
}

#[test]
fn artifacts_directory_is_the_callers_or_the_fallback() {
    assert_eq!(
        resolve_artifacts_dir(Some("out".to_string()), "/tmp/dpc-1-2".to_string()),
        ("out".to_string(), true)
    );
    assert_eq!(
        resolve_artifacts_dir(None, "/tmp/dpc-1-2".to_string()),
        ("/tmp/dpc-1-2".to_string(), false)
    );
}

#[test]
fn mock_render_key_upper_cases_the_prefix() {
    assert_eq!(mock_env_key("ref"), "MOCK_RENDER_REF");
    assert_eq!(mock_env_key("Impl-2ä"), "MOCK_RENDER_IMPL-2ä");
    assert_eq!(MOCK_RENDERERS_DIR, "MOCK_RENDERERS_DIR");
}

#[test]
fn mock_render_prefers_the_views_own_variable() {
    let snapshot = env(&[("PATH", "/bin"), ("MOCK_RENDER_REF", " shots/ref.png"), ("MOCK_RENDER_REF", "later.png")]);
    assert_eq!(
        mock_render_image_path(&snapshot, "ref", Some("mocks/ref.png".to_string())),
        Some(" shots/ref.png".to_string())
    );
    assert_eq!(mock_render_image_path(&snapshot, "impl", None), None);
    assert_eq!(
        mock_render_image_path(&snapshot, "impl", Some("mocks/impl.png".to_string())),
        Some("mocks/impl.png".to_string())
    );
    assert_eq!(snapshot.get("PATH").map(String::as_str), Some("/bin"));
    assert_eq!(snapshot.get("path"), None);
}

#[test]
fn credentials_are_a_token_that_is_not_blank() {
    assert!(!has_figma_credentials(&env(&[("PATH", "/bin")])));
    assert!(!has_figma_credentials(&env(&[("FIGMA_TOKEN", ""), ("FIGMA_OAUTH_TOKEN", " \t")])));
    assert!(!has_figma_credentials(&env(&[("figma_token", "abc")])));
    assert!(has_figma_credentials(&env(&[("FIGMA_TOKEN", "abc")])));
    assert!(has_figma_credentials(&env(&[("FIGMA_TOKEN", " "), ("FIGMA_OAUTH_TOKEN", "xyz")])));
    assert!(has_figma_credentials(&env(&[("FIGMA_OAUTH_TOKEN", "xyz")])));
}

#[test]
fn an_empty_mock_variable_counts_as_unset() {
    let snapshot = env(&[("MOCK_RENDER_REF", "")]);
    assert_eq!(mock_render_image_path(&snapshot, "ref", None), None);
    assert_eq!(
        mock_render_image_path(&snapshot, "ref", Some("dir/ref.png".to_string())),
        Some("dir/ref.png".to_string())
    );
    let blank = env(&[("MOCK_RENDER_REF", " \t")]);
    assert_eq!(
        mock_render_image_path(&blank, "ref", Some("dir/ref.png".to_string())),
        Some(" \t".to_string())
    );
}

#[test]
fn images_are_loaded_and_fitted_to_the_viewport() {
    let res = resource(ResourceKind::Image, "shots/home.png", None);
    match plan(&res, "ref", Some("ignored.png"), false).unwrap() {
        IngestPlan::LoadImage { source, screenshot_name, options, mocked } => {
            assert_eq!(source, "shots/home.png");
            assert_eq!(screenshot_name, "ref_screenshot.png");
            assert_eq!(
                options,
                ImageLoadOptions {
                    no_resize: false,
                    target_width: Some(1440),
                    target_height: Some(900),
                    enable_ocr: false,
                }
            );
            assert!(!mocked);
        }
        other => panic!("unexpected plan {:?}", other),
    }
}

#[test]
fn pages_are_rendered_with_the_timeouts() {
    let res = resource(ResourceKind::Url, "https://example.com", None);
    match plan(&res, "impl", None, false).unwrap() {
        IngestPlan::RenderUrl { url, screenshot_name, viewport, timeouts } => {
            assert_eq!(url, "https://example.com");
            assert_eq!(screenshot_name, "impl_screenshot.png");
            assert_eq!(viewport, VIEWPORT);
            assert_eq!(timeouts, TIMEOUTS);
        }
        other => panic!("unexpected plan {:?}", other),
    }
}

#[test]
fn a_mock_image_replaces_the_render_of_a_page_or_frame() {
    for res in [
        resource(ResourceKind::Url, "https://example.com", None),
        resource(ResourceKind::Figma, "https://www.figma.com/file/F/M", None),
    ] {
        match plan(&res, "ref", Some("mock.png"), false).unwrap() {
            IngestPlan::LoadImage { source, screenshot_name, mocked, options } => {
                assert_eq!(source, "mock.png");
                assert_eq!(screenshot_name, "ref_screenshot.png");
                assert!(mocked);
                assert_eq!(options.target_width, Some(1440));
            }
            other => panic!("unexpected plan {:?}", other),
        }
    }
}

#[test]
fn frames_are_rendered_at_scale_one() {
    let res = resource(
        ResourceKind::Figma,
        "https://www.figma.com/file/FILE123/Mock?node-id=1-2",
        Some(("FILE123", Some("1-2"))),
    );
    match plan(&res, "ref", None, true).unwrap() {
        IngestPlan::RenderFigma { file_key, node_id, output_name, viewport, scale } => {
            assert_eq!(file_key, "FILE123");
            assert_eq!(node_id, "1-2");
            assert_eq!(output_name, "ref_figma.png");
            assert_eq!(viewport, VIEWPORT);
            assert_eq!(scale, 1_000_000);
        }
        other => panic!("unexpected plan {:?}", other),
    }
}

#[test]
fn the_kind_of_a_resource_follows_its_address() {
    assert_eq!(detect_kind(None, Some("https"), Some("www.figma.com")), ResourceKind::Figma);
    assert_eq!(detect_kind(None, Some("HTTP"), Some("Figma.com")), ResourceKind::Figma);
    assert_eq!(detect_kind(None, Some("https"), Some("notfigma.com")), ResourceKind::Url);
    assert_eq!(detect_kind(None, Some("https"), Some("figma.com.example.org")), ResourceKind::Url);
    assert_eq!(detect_kind(None, Some("https"), None), ResourceKind::Url);
    assert_eq!(detect_kind(None, Some("file"), Some("www.figma.com")), ResourceKind::Image);
    assert_eq!(detect_kind(None, None, None), ResourceKind::Image);
    assert_eq!(detect_kind(Some(ResourceKind::Image), Some("https"), Some("figma.com")), ResourceKind::Image);
    assert_eq!(detect_kind(Some(ResourceKind::Figma), None, None), ResourceKind::Figma);
}

#[test]
fn a_figma_address_names_file_and_node() {
    // https://www.figma.com/file/FILE123/Mock?node-id=1-2
    let segments = vec!["file".to_string(), "FILE123".to_string(), "Mock".to_string()];
    let info = figma_info_from(&segments, Some("1-2".to_string()));
    assert_eq!(info.file_key, "FILE123");
    assert_eq!(info.node_id.as_deref(), Some("1-2"));
    let res = ParsedResource {
        kind: detect_kind(None, Some("https"), Some("www.figma.com")),
        value: "https://www.figma.com/file/FILE123/Mock?node-id=1-2".to_string(),
        figma_info: Some(info),
    };
    let err = plan(&res, "ref", None, false).unwrap_err();
    let payload = ingest_error_payload(ViewRole::Reference, &err);
    assert_eq!(payload.category, ErrorCategory::Config);
    assert!(payload.remediation.unwrap().contains("FIGMA_TOKEN"));

    let bare = figma_info_from(&vec!["file".to_string()], None);
    assert_eq!(bare.file_key, "");
    assert_eq!(bare.node_id, None);
}

#[test]
fn a_frame_without_token_reports_how_to_set_one() {
    let res = resource(
        ResourceKind::Figma,
        "https://www.figma.com/file/FILE123/Mock?node-id=1-2",
        Some(("FILE123", Some("1-2"))),
    );
    let err = plan(&res, "ref", None, false).unwrap_err();
    assert!(matches!(err, IngestError::MissingCredentials));
    let payload = ingest_error_payload(ViewRole::Reference, &err);
    assert_eq!(payload.category, ErrorCategory::Config);
    assert_eq!(
        payload.message,
        "Failed to process reference: Configuration error: Figma token missing; set FIGMA_TOKEN or FIGMA_OAUTH_TOKEN"
    );
    assert!(payload.remediation.unwrap().contains("FIGMA_TOKEN"));
}

#[test]
fn a_frame_without_node_or_file_is_refused_before_credentials_matter() {
    let no_node = resource(ResourceKind::Figma, "u", Some(("FILE123", None)));
    assert!(matches!(plan(&no_node, "ref", None, false), Err(IngestError::MissingNodeId)));
    let empty_node = resource(ResourceKind::Figma, "u", Some(("FILE123", Some(""))));
    assert!(matches!(plan(&empty_node, "ref", None, true), Err(IngestError::MissingNodeId)));
    let empty_key = resource(ResourceKind::Figma, "u", Some(("", Some("1-2"))));
    assert!(matches!(plan(&empty_key, "ref", None, true), Err(IngestError::MissingFileKey)));
    let nothing = resource(ResourceKind::Figma, "u", None);
    assert!(matches!(plan(&nothing, "ref", None, true), Err(IngestError::MissingFileKey)));

    let payload = ingest_error_payload(ViewRole::Implementation, &IngestError::MissingNodeId);
    assert_eq!(
        payload.message,
        "Failed to process implementation: Configuration error: Figma node-id is required"
    );
    assert!(payload.remediation.unwrap().to_ascii_lowercase().contains("node-id"));
}

#[test]
fn backend_failures_keep_their_cause() {
    let cases = [
        (IngestError::MockRender("x".into()), "Mock rendering failed: x"),
        (IngestError::ImageLoad("File not found: missing.png".into()), "Image loading failed: File not found: missing.png"),
        (IngestError::UrlRender("timeout".into()), "URL rendering failed: timeout"),
        (IngestError::FigmaClient("bad token".into()), "Figma client error: bad token"),
        (IngestError::FigmaRender("404".into()), "Figma rendering failed: 404"),
        (IngestError::MissingFileKey, "Configuration error: Missing Figma file key"),
    ];
    for (err, text) in cases {
        assert_eq!(err.to_message(), text);
        match ingest_failure(ViewRole::Input, &err) {
            DpcError::Config(m) => assert_eq!(m, format!("Failed to process input: {text}")),
            other => panic!("unexpected {:?}", other),
        }
    }
    let payload = ingest_error_payload(ViewRole::Reference, &IngestError::ImageLoad("File not found: missing.png".into()));
    assert_eq!(payload.category, ErrorCategory::Config);
    assert!(payload.message.contains("missing"));
    assert_eq!(
        payload.remediation.as_deref(),
        Some("Check flags/paths (e.g., --viewport WIDTHxHEIGHT) and required tokens.")
    );
}

#[test]
fn image_to_normalized_view_with_ocr_enabled_gracefully_handles_unavailable() {
    let outcome = ocr_outcome(Err(OcrError::NotAvailable)).expect("should succeed even when OCR unavailable");
    assert!(outcome.is_none());
}

#[test]
fn recognised_blocks_are_kept_and_failures_are_errors() {
    let block = OcrBlock {
        text: "Hi".into(),
        bounding_box: BoundingBox { x: 0, y: 0, width: 1, height: 1 },
        confidence: None,
    };
    let blocks = ocr_outcome(Ok(vec![block])).unwrap().unwrap();
    assert_eq!(blocks.len(), 1);
    assert_eq!(blocks[0].text, "Hi");
    assert!(ocr_outcome(Ok(Vec::new())).unwrap().unwrap().is_empty());
    match ocr_outcome(Err(OcrError::Failed("no tessdata".into()))) {
        Err(ImageLoadError::Ocr(m)) => assert_eq!(m, "no tessdata"),
        other => panic!("unexpected {:?}", other),
    }
}

#[test]
fn an_empty_list_of_ignore_regions_is_an_error() {
    match check_ignore_regions(Vec::new()) {
        Err(DpcError::Config(m)) => assert_eq!(m, "ignore-regions file contained no regions"),
        other => panic!("unexpected {:?}", other),
    }
    let regions = vec![IgnoreRegion { x: 0, y: 0, width: 1, height: 1 }];
    assert_eq!(check_ignore_regions(regions.clone()).unwrap(), regions);
}

#[test]
fn a_view_is_well_formed_with_a_raster_one_structure_and_coordinates_in_range() {
    let mut v = view(ResourceKind::Url, "a.png");
    assert!(v.is_well_formed());
    assert!(v.has_coordinates_in_range());
    v.dom = Some(DomSnapshot { url: None, title: None, nodes: vec![] });
    assert!(v.is_well_formed());
    v.figma_tree = Some(FigmaSnapshot { file_key: "F".into(), node_id: "1".into(), name: None, nodes: vec![] });
    assert!(!v.is_well_formed());
    v.dom = None;
    v.width = 0;
    assert!(!v.is_well_formed());
    v.width = 1;
    let twice = |names: [&str; 3]| dpc_lib::types::DomNode {
        id: "n".into(),
        tag: "div".into(),
        children: vec![],
        parent: None,
        attributes: names
            .iter()
            .map(|n| dpc_lib::types::Attribute { name: n.to_string(), value: "v".into() })
            .collect(),
        text: None,
        bounding_box: BoundingBox { x: 0, y: 0, width: 0, height: 0 },
        computed_style: None,
    };
    assert!(twice(["id", "class", "ID"]).is_well_formed());
    assert!(!twice(["id", "class", "id"]).is_well_formed());
    let mut page = view(ResourceKind::Url, "p.png");
    page.dom = Some(DomSnapshot { url: None, title: None, nodes: vec![twice(["a", "b", "c"]), twice(["a", "a", "b"])] });
    assert!(!page.is_well_formed());
    page.dom.as_mut().unwrap().nodes.pop();
    assert!(page.is_well_formed());
    let far = BoundingBox { x: 0, y: 1_000_000_000_000_000_001, width: 0, height: 0 };
    v.figma_tree.as_mut().unwrap().nodes.push(dpc_lib::types::FigmaNode {
        id: "n".into(),
        name: None,
        node_type: "FRAME".into(),
        bounding_box: far,
        text: None,
        typography: None,
        fills: vec![],
        children: vec![],
    });
    assert!(!v.has_coordinates_in_range());
    assert!(!v.is_well_formed());
    assert!(!far.is_in_range());
    assert!(BoundingBox { y: -1_000_000_000_000_000_000, ..far }.is_in_range());
}

#[test]
fn masking_moves_only_the_path_of_the_raster() {
    let mut before = view(ResourceKind::Url, "art/ref_screenshot.png");
    before.dom = Some(DomSnapshot { url: Some("https://example.com".into()), title: None, nodes: vec![] });
    let masked = with_masked_screenshot(&before, "art/ref_masked.png".to_string());
    assert_eq!(masked.screenshot_path, "art/ref_masked.png");
    assert_eq!(before.screenshot_path, "art/ref_screenshot.png");
    assert_eq!(masked.kind, ResourceKind::Url);
    assert_eq!((masked.width, masked.height), (4, 4));
    assert_eq!(masked.dom.unwrap().url.as_deref(), Some("https://example.com"));
}

#[test]
fn kept_artifacts_list_the_heatmap_and_the_snapshots_at_hand() {
    let paths = ArtifactPaths {
        diff_heatmap: "art/diff_heatmap.png".into(),
        ref_dom: "art/ref_dom.json".into(),
        impl_dom: "art/impl_dom.json".into(),
        ref_figma: "art/ref_figma.json".into(),
        impl_figma: "art/impl_figma.json".into(),
    };
    let mut reference = view(ResourceKind::Figma, "art/ref_figma.png");
    reference.figma_tree =
        Some(FigmaSnapshot { file_key: "F".into(), node_id: "1".into(), name: None, nodes: vec![] });
    let mut implementation = view(ResourceKind::Url, "art/impl_masked.png");
    implementation.dom = Some(DomSnapshot { url: None, title: None, nodes: vec![] });

    let kept = persist_compare_artifacts("art", &reference, &implementation, true, &paths);
    assert_eq!(kept.directory, "art");
    assert!(kept.kept);
    assert_eq!(kept.ref_screenshot.as_deref(), Some("art/ref_figma.png"));
    assert_eq!(kept.impl_screenshot.as_deref(), Some("art/impl_masked.png"));
    assert_eq!(kept.diff_image.as_deref(), Some("art/diff_heatmap.png"));
    assert_eq!(kept.ref_dom_snapshot, None);
    assert_eq!(kept.impl_dom_snapshot.as_deref(), Some("art/impl_dom.json"));
    assert_eq!(kept.ref_figma_snapshot.as_deref(), Some("art/ref_figma.json"));
    assert_eq!(kept.impl_figma_snapshot, None);

    let dropped = persist_compare_artifacts("art", &reference, &implementation, false, &paths);
    assert!(!dropped.kept);
    assert_eq!(dropped.ref_screenshot.as_deref(), Some("art/ref_figma.png"));
    assert_eq!(dropped.diff_image, None);
    assert_eq!(dropped.impl_dom_snapshot, None);
    assert_eq!(dropped.ref_figma_snapshot, None);
}
