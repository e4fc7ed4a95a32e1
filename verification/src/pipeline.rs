//! Ingestion: the decisions that turn a resource into a normalized view, and
//! the names of the files that a run leaves behind.
//!
//! Nothing here touches a file, the network or the environment. The caller
//! hands in what it found there, carries out the plan that it gets back, and
//! reports what came of it.

use crate::decimal::decimal;
use crate::decimal::push_decimal;
use crate::error::DpcError;
use crate::error::ErrorCategory;
use crate::error::ErrorPayload;
use crate::error::ImageLoadError;
use crate::geometry::Viewport;
use crate::image_loader::can_resample;
use crate::image_loader::is_letterbox_of;
use crate::image_loader::resample_fits;
use crate::image_loader::resize_with_letterbox;
use crate::image_loader::ImageLoadOptions;
use crate::masking::IgnoreRegion;
use crate::output::CompareArtifacts;
use crate::raster::Raster;
use crate::raster::RasterModel;
use crate::settings::Timeouts;
use crate::text::chars_of;
use crate::text::eq_ignore_case;
use crate::text::has_visible_text;
use crate::text::is_blank;
use crate::text::push_upper;
use crate::text::range_eq_ignore_case;
use crate::text::str_eq_ignore_case;
use crate::text::str_equal;
use crate::text::upper_seq;
use crate::types::view::NormalizedView;
use crate::types::view::OcrBlock;
use crate::types::view::ResourceKind;
use vstd::prelude::*;
use vstd::string::StringExecFns;

verus! {

/// Where a Figma frame is found.
#[derive(Clone, Debug)]
pub struct FigmaInfo {
    pub file_key: String,
    pub node_id: Option<String>,
}

/// An input as it was parsed: its kind, its value, and for a Figma input the
/// file and the node.
#[derive(Clone, Debug)]
pub struct ParsedResource {
    pub kind: ResourceKind,
    pub value: String,
    pub figma_info: Option<FigmaInfo>,
}

/// The scheme is that of a web address.
pub open spec fn is_web_scheme(scheme: Seq<char>) -> bool {
    eq_ignore_case(scheme, "http"@) || eq_ignore_case(scheme, "https"@)
}

/// The host is `figma.com` or lies under it.
pub open spec fn is_figma_host(host: Seq<char>) -> bool {
    eq_ignore_case(host, "figma.com"@) || (host.len() > 10 && eq_ignore_case(
        host.subrange(host.len() - 10, host.len() as int),
        ".figma.com"@,
    ))
}

/// The kind of a resource: the kind that the caller names, if any; else a
/// Figma frame for a web address at Figma, a page for any other web address,
/// and an image for everything else.
pub open spec fn kind_of_resource(
    explicit: Option<ResourceKind>,
    scheme: Option<Seq<char>>,
    host: Option<Seq<char>>,
) -> ResourceKind {
    match explicit {
        Some(kind) => kind,
        None => if scheme is Some && is_web_scheme(scheme->0) {
            if host is Some && is_figma_host(host->0) {
                ResourceKind::Figma
            } else {
                ResourceKind::Url
            }
        } else {
            ResourceKind::Image
        },
    }
}

/// Tells the kind of a resource from what the caller names and from the
/// scheme and the host of its address, where it is one.
pub fn detect_kind(explicit: Option<ResourceKind>, scheme: Option<&str>, host: Option<&str>) -> (kind:
    ResourceKind)
    ensures
        kind == kind_of_resource(
            explicit,
            match scheme {
                Some(s) => Some(s@),
                None => None,
            },
            match host {
                Some(h) => Some(h@),
                None => None,
            },
        ),
{
    if let Some(kind) = explicit {
        return kind;
    }
    let web = match scheme {
        Some(s) => str_eq_ignore_case(s, "http") || str_eq_ignore_case(s, "https"),
        None => false,
    };
    if !web {
        return ResourceKind::Image;
    }
    let figma = match host {
        Some(h) => {
            let v = chars_of(h);
            let suffix = chars_of(".figma.com");
            proof {
                reveal_strlit(".figma.com");
                assert(suffix@.len() == 10);
            }
            str_eq_ignore_case(h, "figma.com") || (v.len() > 10 && range_eq_ignore_case(
                &v,
                v.len() - 10,
                v.len(),
                &suffix,
            ))
        },
        None => false,
    };
    if figma {
        ResourceKind::Figma
    } else {
        ResourceKind::Url
    }
}

/// Where the frame of a Figma address is found: the file is named by the
/// second segment of the path, the node by the parameter `node-id`.
pub fn figma_info_from(path_segments: &Vec<String>, node_id: Option<String>) -> (info: FigmaInfo)
    ensures
        info.file_key@ == (if path_segments@.len() > 1 {
            path_segments@[1]@
        } else {
            Seq::<char>::empty()
        }),
        info.node_id == node_id,
{
    let file_key = if path_segments.len() > 1 {
        path_segments[1].clone()
    } else {
        String::new()
    };
    FigmaInfo { file_key, node_id }
}

/// One variable of the environment.
#[derive(Clone, Debug)]
pub struct EnvVar {
    pub name: String,
    pub value: String,
}

/// The variables of the environment as they were when the run began.
#[derive(Clone, Debug)]
pub struct EnvSnapshot {
    pub vars: Vec<EnvVar>,
}

/// The value of the first variable called `name`.
pub open spec fn env_value(vars: Seq<EnvVar>, name: Seq<char>) -> Option<Seq<char>>
    decreases vars.len(),
{
    if vars.len() == 0 {
        None
    } else if vars[0].name@ == name {
        Some(vars[0].value@)
    } else {
        env_value(vars.drop_first(), name)
    }
}

impl EnvSnapshot {
    /// The value of the variable called `name`, if it is set.
    pub fn get(&self, name: &str) -> (r: Option<&String>)
        ensures
            match r {
                Some(v) => env_value(self.vars@, name@) == Some(v@),
                None => env_value(self.vars@, name@) is None,
            },
    {
        let mut i: usize = 0;
        assert(self.vars@.subrange(0, self.vars@.len() as int) =~= self.vars@);
        while i < self.vars.len()
            invariant
                i <= self.vars.len(),
                env_value(self.vars@, name@) == env_value(
                    self.vars@.subrange(i as int, self.vars@.len() as int),
                    name@,
                ),
            decreases self.vars.len() - i,
        {
            let ghost rest = self.vars@.subrange(i as int, self.vars@.len() as int);
            assert(rest[0] == self.vars@[i as int]);
            if str_equal(self.vars[i].name.as_str(), name) {
                return Some(&self.vars[i].value);
            }
            assert(rest.drop_first() =~= self.vars@.subrange(i + 1, self.vars@.len() as int));
            i = i + 1;
        }
        None
    }
}

/// The variable that holds a personal access token for Figma.
pub const FIGMA_TOKEN: &'static str = "FIGMA_TOKEN";

/// The variable that holds an OAuth token for Figma.
pub const FIGMA_OAUTH_TOKEN: &'static str = "FIGMA_OAUTH_TOKEN";

/// The variable `name` is set to something that is not blank.
pub open spec fn is_set(vars: Seq<EnvVar>, name: Seq<char>) -> bool {
    env_value(vars, name) matches Some(v) && !is_blank(v)
}

/// Whether credentials for Figma are at hand: one of the two token variables
/// is set and not blank.
pub fn has_figma_credentials(env: &EnvSnapshot) -> (r: bool)
    ensures
        r == (is_set(env.vars@, FIGMA_TOKEN@) || is_set(env.vars@, FIGMA_OAUTH_TOKEN@)),
{
    let token = match env.get(FIGMA_TOKEN) {
        Some(v) => has_visible_text(v.as_str()),
        None => false,
    };
    if token {
        return true;
    }
    match env.get(FIGMA_OAUTH_TOKEN) {
        Some(v) => has_visible_text(v.as_str()),
        None => false,
    }
}

/// The variable that names a prerendered image for the view `prefix`.
pub open spec fn mock_key(prefix: Seq<char>) -> Seq<char> {
    "MOCK_RENDER_"@ + upper_seq(prefix)
}

/// The variable that names a directory of prerendered images.
pub const MOCK_RENDERERS_DIR: &'static str = "MOCK_RENDERERS_DIR";

/// The name of the variable that names a prerendered image for the view
/// `prefix`.
pub fn mock_env_key(prefix: &str) -> (key: String)
    ensures
        key@ == mock_key(prefix@),
{
    let mut key = String::from_str("MOCK_RENDER_");
    push_upper(&mut key, prefix);
    key
}

/// The file that stands in for a render of the view `prefix` in the
/// directory of prerendered images.
pub fn mock_renderer_file(prefix: &str) -> (name: String)
    ensures
        name@ == prefix@ + ".png"@,
{
    let mut name = String::from_str(prefix);
    name.append(".png");
    name
}

/// The image that takes the place of a render: the value of the view's own
/// variable where that is set and not empty, else the file found in the
/// directory of prerendered images, else none.
pub open spec fn mock_image(
    vars: Seq<EnvVar>,
    prefix: Seq<char>,
    found_in_dir: Option<Seq<char>>,
) -> Option<Seq<char>> {
    match env_value(vars, mock_key(prefix)) {
        Some(path) if path.len() > 0 => Some(path),
        _ => found_in_dir,
    }
}

/// Decides which image, if any, takes the place of a render of the view
/// `prefix`. `found_in_dir` is the path of `mock_renderer_file(prefix)` in the
/// directory that `MOCK_RENDERERS_DIR` names, where that variable is set and
/// the file exists.
pub fn mock_render_image_path(env: &EnvSnapshot, prefix: &str, found_in_dir: Option<String>) -> (r:
    Option<String>)
    ensures
        (match r {
            Some(p) => Some(p@),
            None => None,
        }) == mock_image(
            env.vars@,
            prefix@,
            match found_in_dir {
                Some(p) => Some(p@),
                None => None,
            },
        ),
{
    let key = mock_env_key(prefix);
    if let Some(path) = env.get(key.as_str()) {
        if path.as_str().unicode_len() > 0 {
            return Some(path.clone());
        }
    }
    found_in_dir
}

/// The file that holds the canonical raster of the view `prefix`.
pub fn screenshot_file_name(prefix: &str) -> (name: String)
    ensures
        name@ == prefix@ + "_screenshot.png"@,
{
    let mut name = String::from_str(prefix);
    name.append("_screenshot.png");
    name
}

/// The file that holds the raster of the view `prefix` after masking.
pub fn masked_file_name(prefix: &str) -> (name: String)
    ensures
        name@ == prefix@ + "_masked.png"@,
{
    let mut name = String::from_str(prefix);
    name.append("_masked.png");
    name
}

/// The file that holds the render of a Figma frame for the view `prefix`.
pub fn figma_file_name(prefix: &str) -> (name: String)
    ensures
        name@ == prefix@ + "_figma.png"@,
{
    let mut name = String::from_str(prefix);
    name.append("_figma.png");
    name
}

/// The name of the directory that a run makes for its files where the caller
/// names none.
pub fn artifacts_dir_name(process_id: u32, millis: u128) -> (name: String)
    ensures
        name@ == "dpc-"@ + decimal(process_id as nat) + "-"@ + decimal(millis as nat),
{
    let mut name = String::from_str("dpc-");
    push_decimal(&mut name, process_id as u128);
    name.append("-");
    push_decimal(&mut name, millis);
    name
}

/// The directory for the files of a run, and whether the caller chose it:
/// the caller's directory where there is one, else `fallback`.
pub fn resolve_artifacts_dir(custom: Option<String>, fallback: String) -> (r: (String, bool))
    ensures
        r.1 == custom is Some,
        r.0 == match custom {
            Some(dir) => dir,
            None => fallback,
        },
{
    match custom {
        Some(dir) => (dir, true),
        None => (fallback, false),
    }
}

/// What has to be done to get the view of a resource.
#[derive(Clone, Debug)]
pub enum IngestPlan {
    /// Load the image at `source`, fit it to the viewport and save it under
    /// `screenshot_name`.
    LoadImage { source: String, screenshot_name: String, options: ImageLoadOptions, mocked: bool },
    /// Render the page at `url` into `screenshot_name`.
    RenderUrl { url: String, screenshot_name: String, viewport: Viewport, timeouts: Timeouts },
    /// Render the frame into `output_name`. The scale is in millionths.
    RenderFigma {
        file_key: String,
        node_id: String,
        output_name: String,
        viewport: Viewport,
        scale: u32,
    },
}

/// Why a resource did not become a view.
#[derive(Clone, Debug)]
pub enum IngestError {
    MissingFileKey,
    MissingNodeId,
    MissingCredentials,
    MockRender(String),
    ImageLoad(String),
    UrlRender(String),
    FigmaClient(String),
    FigmaRender(String),
}

/// The options with which an image is fitted to the viewport.
pub open spec fn fit_options(viewport: Viewport) -> ImageLoadOptions {
    ImageLoadOptions {
        no_resize: false,
        target_width: Some(viewport.width),
        target_height: Some(viewport.height),
        enable_ocr: false,
    }
}

/// The file key and the node of a Figma resource, where both are there and
/// not empty.
pub open spec fn figma_target(resource: ParsedResource) -> Result<(Seq<char>, Seq<char>), IngestError> {
    match resource.figma_info {
        None => Err(IngestError::MissingFileKey),
        Some(info) => if info.file_key@.len() == 0 {
            Err(IngestError::MissingFileKey)
        } else {
            match info.node_id {
                None => Err(IngestError::MissingNodeId),
                Some(node) => if node@.len() == 0 {
                    Err(IngestError::MissingNodeId)
                } else {
                    Ok((info.file_key@, node@))
                },
            }
        },
    }
}

/// Whether the plan is the one that the rules of ingestion call for.
///
/// A page or a frame for which a prerendered image is at hand is loaded from
/// that image, whatever else holds. An image is loaded. A page is rendered
/// with the given timeouts. A frame is rendered at scale one, and only where
/// file key, node and credentials are all there.
pub open spec fn plan_is_right(
    outcome: Result<IngestPlan, IngestError>,
    resource: ParsedResource,
    viewport: Viewport,
    prefix: Seq<char>,
    timeouts: Timeouts,
    mock_path: Option<Seq<char>>,
    has_credentials: bool,
) -> bool {
    if resource.kind != ResourceKind::Image && mock_path is Some {
        outcome matches Ok(IngestPlan::LoadImage { source, screenshot_name, options, mocked })
            && source@ == mock_path->0 && screenshot_name@ == prefix + "_screenshot.png"@
            && options == fit_options(viewport) && mocked
    } else {
        match resource.kind {
            ResourceKind::Image => outcome matches Ok(
                IngestPlan::LoadImage { source, screenshot_name, options, mocked },
            ) && source@ == resource.value@ && screenshot_name@ == prefix + "_screenshot.png"@
                && options == fit_options(viewport) && !mocked,
            ResourceKind::Url => outcome matches Ok(
                IngestPlan::RenderUrl { url, screenshot_name, viewport: v, timeouts: t },
            ) && url@ == resource.value@ && screenshot_name@ == prefix + "_screenshot.png"@ && v
                == viewport && t == timeouts,
            ResourceKind::Figma => match figma_target(resource) {
                Err(e) => outcome == Err::<IngestPlan, IngestError>(e),
                Ok((key, node)) => if !has_credentials {
                    outcome == Err::<IngestPlan, IngestError>(IngestError::MissingCredentials)
                } else {
                    outcome matches Ok(
                        IngestPlan::RenderFigma { file_key, node_id, output_name, viewport: v, scale },
                    ) && file_key@ == key && node_id@ == node && output_name@ == prefix
                        + "_figma.png"@ && v == viewport && scale == 1_000_000
                },
            },
        }
    }
}

/// Decides how the view of `resource` is to be obtained. `mock_path` is what
/// `mock_render_image_path` gave for `prefix`; `has_credentials` tells
/// whether a Figma token is at hand.
pub fn plan_normalization(
    resource: &ParsedResource,
    viewport: &Viewport,
    prefix: &str,
    timeouts: &Timeouts,
    mock_path: Option<String>,
    has_credentials: bool,
) -> (r: Result<IngestPlan, IngestError>)
    ensures
        plan_is_right(
            r,
            *resource,
            *viewport,
            prefix@,
            *timeouts,
            match mock_path {
                Some(p) => Some(p@),
                None => None,
            },
            has_credentials,
        ),
{
    let options = ImageLoadOptions {
        no_resize: false,
        target_width: Some(viewport.width),
        target_height: Some(viewport.height),
        enable_ocr: false,
    };
    match resource.kind {
        ResourceKind::Image => {},
        _ => {
            if let Some(path) = mock_path {
                return Ok(
                    IngestPlan::LoadImage {
                        source: path,
                        screenshot_name: screenshot_file_name(prefix),
                        options,
                        mocked: true,
                    },
                );
            }
        },
    }
    match resource.kind {
        ResourceKind::Image => Ok(
            IngestPlan::LoadImage {
                source: resource.value.clone(),
                screenshot_name: screenshot_file_name(prefix),
                options,
                mocked: false,
            },
        ),
        ResourceKind::Url => Ok(
            IngestPlan::RenderUrl {
                url: resource.value.clone(),
                screenshot_name: screenshot_file_name(prefix),
                viewport: *viewport,
                timeouts: *timeouts,
            },
        ),
        ResourceKind::Figma => {
            let info = match &resource.figma_info {
                Some(info) => info,
                None => {
                    return Err(IngestError::MissingFileKey);
                },
            };
            if info.file_key.as_str().unicode_len() == 0 {
                return Err(IngestError::MissingFileKey);
            }
            let node = match &info.node_id {
                Some(node) => node,
                None => {
                    return Err(IngestError::MissingNodeId);
                },
            };
            if node.as_str().unicode_len() == 0 {
                return Err(IngestError::MissingNodeId);
            }
            if !has_credentials {
                return Err(IngestError::MissingCredentials);
            }
            Ok(
                IngestPlan::RenderFigma {
                    file_key: info.file_key.clone(),
                    node_id: node.clone(),
                    output_name: figma_file_name(prefix),
                    viewport: *viewport,
                    scale: 1_000_000,
                },
            )
        },
    }
}

impl IngestError {
    /// The failure in words.
    pub open spec fn message(&self) -> Seq<char> {
        match self {
            IngestError::MissingFileKey => "Configuration error: Missing Figma file key"@,
            IngestError::MissingNodeId => "Configuration error: Figma node-id is required"@,
            IngestError::MissingCredentials => "Configuration error: Figma token missing; set FIGMA_TOKEN or FIGMA_OAUTH_TOKEN"@,
            IngestError::MockRender(e) => "Mock rendering failed: "@ + e@,
            IngestError::ImageLoad(e) => "Image loading failed: "@ + e@,
            IngestError::UrlRender(e) => "URL rendering failed: "@ + e@,
            IngestError::FigmaClient(e) => "Figma client error: "@ + e@,
            IngestError::FigmaRender(e) => "Figma rendering failed: "@ + e@,
        }
    }

    /// What the user can do about it.
    pub open spec fn remediation(&self) -> Seq<char> {
        match self {
            IngestError::MissingFileKey => "Use a Figma URL that names the file (https://www.figma.com/file/<key>/...)."@,
            IngestError::MissingNodeId => "Add the node-id of the frame to the Figma URL (e.g., ?node-id=1-2)."@,
            IngestError::MissingCredentials => "Set FIGMA_TOKEN or FIGMA_OAUTH_TOKEN to a Figma access token and retry."@,
            _ => "Check flags/paths (e.g., --viewport WIDTHxHEIGHT) and required tokens."@,
        }
    }

    /// The failure in words.
    pub fn to_message(&self) -> (text: String)
        ensures
            text@ == self.message(),
    {
        match self {
            IngestError::MissingFileKey => String::from_str(
                "Configuration error: Missing Figma file key",
            ),
            IngestError::MissingNodeId => String::from_str(
                "Configuration error: Figma node-id is required",
            ),
            IngestError::MissingCredentials => String::from_str(
                "Configuration error: Figma token missing; set FIGMA_TOKEN or FIGMA_OAUTH_TOKEN",
            ),
            IngestError::MockRender(e) => String::from_str("Mock rendering failed: ").concat(
                e.as_str(),
            ),
            IngestError::ImageLoad(e) => String::from_str("Image loading failed: ").concat(
                e.as_str(),
            ),
            IngestError::UrlRender(e) => String::from_str("URL rendering failed: ").concat(
                e.as_str(),
            ),
            IngestError::FigmaClient(e) => String::from_str("Figma client error: ").concat(
                e.as_str(),
            ),
            IngestError::FigmaRender(e) => String::from_str("Figma rendering failed: ").concat(
                e.as_str(),
            ),
        }
    }
}

/// Which of the inputs of a run a view stands for.
#[derive(Clone, Copy, Debug, PartialEq, Eq, Structural)]
pub enum ViewRole {
    Reference,
    Implementation,
    Input,
}

impl ViewRole {
    /// The prefix of the files of the view.
    pub open spec fn prefix(self) -> Seq<char> {
        match self {
            ViewRole::Reference => "ref"@,
            ViewRole::Implementation => "impl"@,
            ViewRole::Input => "input"@,
        }
    }

    /// The role in words.
    pub open spec fn label(self) -> Seq<char> {
        match self {
            ViewRole::Reference => "reference"@,
            ViewRole::Implementation => "implementation"@,
            ViewRole::Input => "input"@,
        }
    }

    /// The prefix of the files of the view.
    pub fn file_prefix(self) -> (p: &'static str)
        ensures
            p@ == self.prefix(),
    {
        match self {
            ViewRole::Reference => "ref",
            ViewRole::Implementation => "impl",
            ViewRole::Input => "input",
        }
    }
}

/// The message of a failed ingestion: which input failed, and why.
pub open spec fn failure_message(role: ViewRole, err: IngestError) -> Seq<char> {
    "Failed to process "@ + role.label() + ": "@ + err.message()
}

/// The payload that reports a failed ingestion: a configuration failure with
/// the hint that belongs to its cause.
pub fn ingest_error_payload(role: ViewRole, err: &IngestError) -> (r: ErrorPayload)
    ensures
        r.category == ErrorCategory::Config,
        r.message@ == failure_message(role, *err),
        r.remediation is Some,
        r.remediation->0@ == err.remediation(),
{
    let mut message = String::from_str("Failed to process ");
    message.append(
        match role {
            ViewRole::Reference => "reference",
            ViewRole::Implementation => "implementation",
            ViewRole::Input => "input",
        },
    );
    message.append(": ");
    let cause = err.to_message();
    message.append(cause.as_str());
    assert(message@ =~= failure_message(role, *err));
    let hint = match err {
        IngestError::MissingFileKey => "Use a Figma URL that names the file (https://www.figma.com/file/<key>/...).",
        IngestError::MissingNodeId => "Add the node-id of the frame to the Figma URL (e.g., ?node-id=1-2).",
        IngestError::MissingCredentials => "Set FIGMA_TOKEN or FIGMA_OAUTH_TOKEN to a Figma access token and retry.",
        _ => "Check flags/paths (e.g., --viewport WIDTHxHEIGHT) and required tokens.",
    };
    ErrorPayload::new(ErrorCategory::Config, message, hint)
}

/// The failed ingestion as an error of the run.
pub fn ingest_failure(role: ViewRole, err: &IngestError) -> (r: DpcError)
    ensures
        r matches DpcError::Config(m) && m@ == failure_message(role, *err),
{
    let payload = ingest_error_payload(role, err);
    DpcError::Config(payload.message)
}

/// The size that an image of `width` by `height` has after it was brought to
/// size under `options`.
pub open spec fn normalized_size(options: ImageLoadOptions, width: nat, height: nat) -> (nat, nat) {
    if options.no_resize {
        (width, height)
    } else {
        match (options.target_width, options.target_height) {
            (Some(w), Some(h)) => (w as nat, h as nat),
            _ => (width, height),
        }
    }
}

/// Whether the image is resized under `options`.
pub open spec fn resizes(options: ImageLoadOptions) -> bool {
    !options.no_resize && options.target_width is Some && options.target_height is Some
}

/// `out` is `img` brought to size under `options`: fitted into the target
/// size where the options give one and do not forbid it, `img` itself
/// otherwise.
pub open spec fn is_normalized_image_of(out: RasterModel, img: RasterModel, options: ImageLoadOptions) -> bool {
    &&& (out.width, out.height) == normalized_size(options, img.width, img.height)
    &&& out.well_formed()
    &&& if resizes(options) {
        is_letterbox_of(out, img, options.target_width->0, options.target_height->0)
    } else {
        out == img
    }
}

/// Brings a loaded image to size: fitted into the target size where the
/// options give one and do not forbid it, unchanged otherwise.
pub fn normalize_image(img: Raster, options: &ImageLoadOptions) -> (out: Raster)
    requires
        resizes(*options) ==> resample_fits(
            img@.width,
            options.target_width->0 as nat,
            options.target_height->0 as nat,
        ),
    ensures
        (out@.width, out@.height) == normalized_size(*options, img@.width, img@.height),
        is_normalized_image_of(out@, img@, *options),
{
    if options.no_resize {
        let _ = img.dimensions();
        img
    } else {
        match (options.target_width, options.target_height) {
            (Some(w), Some(h)) => resize_with_letterbox(&img, w, h),
            _ => {
                let _ = img.dimensions();
                img
            },
        }
    }
}

/// Brings a loaded image to size as `normalize_image` does, where resampling
/// stays within what a vector may hold or is not called for; nothing where
/// it does not.
pub fn try_normalize_image(img: Raster, options: &ImageLoadOptions) -> (r: Option<Raster>)
    ensures
        r is Some <==> (resizes(*options) ==> resample_fits(
            img@.width,
            options.target_width->0 as nat,
            options.target_height->0 as nat,
        )),
        r matches Some(out) ==> is_normalized_image_of(out@, img@, *options),
{
    let fits = if options.no_resize {
        true
    } else {
        match (options.target_width, options.target_height) {
            (Some(w), Some(h)) => can_resample(img.width(), w, h),
            _ => true,
        }
    };
    if fits {
        Some(normalize_image(img, options))
    } else {
        None
    }
}

/// Whatever the image and the options: an image that was brought to size has
/// the target size where it was to be resized, and its own size otherwise.
pub proof fn law_normalized_image_has_the_stated_size(
    out: RasterModel,
    img: RasterModel,
    options: ImageLoadOptions,
)
    requires
        is_normalized_image_of(out, img, options),
    ensures
        resizes(options) ==> out.width == options.target_width->0 && out.height
            == options.target_height->0,
        !resizes(options) ==> out.width == img.width && out.height == img.height,
        out.rows.len() == out.height,
        forall|y: int| 0 <= y < out.height ==> (#[trigger] out.rows[y]).len() == out.width,
{
}

/// Why recognising text failed.
#[derive(Clone, Debug)]
pub enum OcrError {
    /// No recogniser is at hand. This is no failure of the run.
    NotAvailable,
    Failed(String),
}

/// What a view holds after recognition was tried: the blocks, nothing where
/// no recogniser is at hand, and an error for any other failure.
pub fn ocr_outcome(result: Result<Vec<OcrBlock>, OcrError>) -> (r: Result<
    Option<Vec<OcrBlock>>,
    ImageLoadError,
>)
    ensures
        match result {
            Ok(blocks) => r == Ok::<Option<Vec<OcrBlock>>, ImageLoadError>(Some(blocks)),
            Err(OcrError::NotAvailable) => r == Ok::<Option<Vec<OcrBlock>>, ImageLoadError>(None),
            Err(OcrError::Failed(msg)) => r == Err::<Option<Vec<OcrBlock>>, ImageLoadError>(
                ImageLoadError::Ocr(msg),
            ),
        },
{
    match result {
        Ok(blocks) => Ok(Some(blocks)),
        Err(OcrError::NotAvailable) => Ok(None),
        Err(OcrError::Failed(msg)) => Err(ImageLoadError::Ocr(msg)),
    }
}

/// The view of the image `raster`, which was saved under `screenshot_path`:
/// it has the size of the raster and carries no structure.
pub fn image_view(screenshot_path: String, raster: &Raster, ocr_blocks: Option<Vec<OcrBlock>>) -> (view:
    NormalizedView)
    ensures
        view.kind == ResourceKind::Image,
        view.screenshot_path == screenshot_path,
        view.width == raster@.width,
        view.height == raster@.height,
        view.dom is None,
        view.figma_tree is None,
        view.ocr_blocks == ocr_blocks,
        view.coordinates_in_range(),
        raster@.width > 0 && raster@.height > 0 ==> view.well_formed(),
{
    let (width, height) = raster.dimensions();
    let view = NormalizedView {
        kind: ResourceKind::Image,
        screenshot_path,
        width,
        height,
        dom: None,
        figma_tree: None,
        ocr_blocks,
    };
    assert(view.boxes() =~= Seq::empty());
    view
}

/// The view after its raster was masked and saved under `masked_path`:
/// everything but the path of the raster is as before.
pub fn with_masked_screenshot(view: &NormalizedView, masked_path: String) -> (out: NormalizedView)
    ensures
        out.deep_view() == (crate::types::view::NormalizedViewModel {
            screenshot_path: masked_path@,
            ..view.deep_view()
        }),
        view.coordinates_in_range() ==> out.coordinates_in_range(),
        view.well_formed() ==> out.well_formed(),
{
    let copy = view.clone();
    let out = NormalizedView {
        kind: copy.kind,
        screenshot_path: masked_path,
        width: copy.width,
        height: copy.height,
        dom: copy.dom,
        figma_tree: copy.figma_tree,
        ocr_blocks: copy.ocr_blocks,
    };
    proof {
        crate::types::view::lemma_boxes_of_model(*view);
        crate::types::view::lemma_boxes_of_model(out);
    }
    out
}

/// Accepts the regions read from a file unless there are none.
pub fn check_ignore_regions(regions: Vec<IgnoreRegion>) -> (r: Result<Vec<IgnoreRegion>, DpcError>)
    ensures
        regions@.len() > 0 ==> r == Ok::<Vec<IgnoreRegion>, DpcError>(regions),
        regions@.len() == 0 ==> (r matches Err(DpcError::Config(m)) && m@
            == "ignore-regions file contained no regions"@),
{
    if regions.len() == 0 {
        Err(DpcError::Config(String::from_str("ignore-regions file contained no regions")))
    } else {
        Ok(regions)
    }
}

/// The files that a comparison may leave behind, as full paths.
#[derive(Clone, Debug)]
pub struct ArtifactPaths {
    pub diff_heatmap: String,
    pub ref_dom: String,
    pub impl_dom: String,
    pub ref_figma: String,
    pub impl_figma: String,
}

/// The heatmap of the differences. This and the following are the names of
/// the files of `ArtifactPaths` within the directory of the run.
pub const DIFF_HEATMAP_FILE: &'static str = "diff_heatmap.png";

/// The snapshot of the reference's DOM.
pub const REF_DOM_FILE: &'static str = "ref_dom.json";

/// The snapshot of the implementation's DOM.
pub const IMPL_DOM_FILE: &'static str = "impl_dom.json";

/// The snapshot of the reference's Figma tree.
pub const REF_FIGMA_FILE: &'static str = "ref_figma.json";

/// The snapshot of the implementation's Figma tree.
pub const IMPL_FIGMA_FILE: &'static str = "impl_figma.json";

/// `path` where `wanted`, nothing otherwise.
pub open spec fn path_if(wanted: bool, path: String) -> Option<Seq<char>> {
    if wanted {
        Some(path@)
    } else {
        None
    }
}

/// The characters of an optional path.
pub open spec fn shown(path: Option<String>) -> Option<Seq<char>> {
    match path {
        Some(p) => Some(p@),
        None => None,
    }
}

/// Lists what a comparison keeps. The screenshots are always listed, at the
/// paths where the views have them. Where the files are kept, the heatmap is
/// listed, and a snapshot for each structure that a view carries.
pub fn persist_compare_artifacts(
    directory: &str,
    ref_view: &NormalizedView,
    impl_view: &NormalizedView,
    keep: bool,
    paths: &ArtifactPaths,
) -> (r: CompareArtifacts)
    ensures
        r.directory@ == directory@,
        r.kept == keep,
        shown(r.ref_screenshot) == Some(ref_view.screenshot_path@),
        shown(r.impl_screenshot) == Some(impl_view.screenshot_path@),
        shown(r.diff_image) == path_if(keep, paths.diff_heatmap),
        shown(r.ref_dom_snapshot) == path_if(keep && ref_view.dom is Some, paths.ref_dom),
        shown(r.impl_dom_snapshot) == path_if(keep && impl_view.dom is Some, paths.impl_dom),
        shown(r.ref_figma_snapshot) == path_if(
            keep && ref_view.figma_tree is Some,
            paths.ref_figma,
        ),
        shown(r.impl_figma_snapshot) == path_if(
            keep && impl_view.figma_tree is Some,
            paths.impl_figma,
        ),
{
    CompareArtifacts {
        directory: String::from_str(directory),
        kept: keep,
        ref_screenshot: Some(ref_view.screenshot_path.clone()),
        impl_screenshot: Some(impl_view.screenshot_path.clone()),
        diff_image: if keep {
            Some(paths.diff_heatmap.clone())
        } else {
            None
        },
        ref_dom_snapshot: if keep && ref_view.dom.is_some() {
            Some(paths.ref_dom.clone())
        } else {
            None
        },
        impl_dom_snapshot: if keep && impl_view.dom.is_some() {
            Some(paths.impl_dom.clone())
        } else {
            None
        },
        ref_figma_snapshot: if keep && ref_view.figma_tree.is_some() {
            Some(paths.ref_figma.clone())
        } else {
            None
        },
        impl_figma_snapshot: if keep && impl_view.figma_tree.is_some() {
            Some(paths.impl_figma.clone())
        } else {
            None
        },
    }
}

} // verus!
