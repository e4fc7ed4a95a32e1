//! Settings of a comparison: what the configuration gives, what the command
//! line overrides, and how the outcome is put in words.

use crate::decimal::decimal;
use crate::error::DpcError;
use crate::decimal::fixed_text;
use crate::decimal::push_decimal;
use crate::decimal::push_fixed;
use crate::geometry::Viewport;
use crate::metrics::scoring::ScoreWeights;
use crate::text::chars_of;
use crate::text::range_starts_with;
use crate::text::starts_with;
use crate::text::str_equal;
use vstd::prelude::*;
use vstd::string::StringExecFns;

verus! {

/// How long each phase of rendering may take, in seconds.
#[derive(Clone, Copy, Debug, PartialEq, Eq, Structural)]
pub struct Timeouts {
    pub navigation: u64,
    pub network_idle: u64,
    pub process: u64,
}

/// What a configuration file sets. Threshold and weights are in millionths.
#[derive(Clone, Copy, Debug, PartialEq, Eq, Structural)]
pub struct Config {
    pub viewport: Viewport,
    pub threshold: u32,
    pub metric_weights: ScoreWeights,
    pub timeouts: Timeouts,
}

impl Default for Config {
    fn default() -> (r: Self)
        ensures
            r == (Config {
                viewport: Viewport { width: 1440, height: 900 },
                threshold: 950_000,
                metric_weights: ScoreWeights {
                    pixel: 350_000,
                    layout: 250_000,
                    typography: 150_000,
                    color: 150_000,
                    content: 100_000,
                },
                timeouts: Timeouts { navigation: 30, network_idle: 10, process: 45 },
            }),
    {
        Config {
            viewport: Viewport { width: 1440, height: 900 },
            threshold: 950_000,
            metric_weights: ScoreWeights::default(),
            timeouts: Timeouts { navigation: 30, network_idle: 10, process: 45 },
        }
    }
}

/// What is wrong with a configuration, if anything: the first of an empty
/// viewport, a threshold over one whole, and weights that are all nothing.
pub open spec fn config_fault(config: Config) -> Option<Seq<char>> {
    if config.viewport.width == 0 || config.viewport.height == 0 {
        Some("Invalid config: viewport must not be empty"@)
    } else if config.threshold > 1_000_000 {
        Some("Invalid config: threshold must be between 0 and 1"@)
    } else if config.metric_weights.total() == 0 {
        Some("Invalid config: at least one metric weight must be positive"@)
    } else {
        None
    }
}

impl Config {
    /// Accepts the configuration unless something is wrong with it.
    pub fn validate(&self) -> (r: Result<(), DpcError>)
        ensures
            match config_fault(*self) {
                Some(fault) => r matches Err(DpcError::Config(m)) && m@ == fault,
                None => r is Ok,
            },
    {
        if self.viewport.width == 0 || self.viewport.height == 0 {
            Err(DpcError::Config(String::from_str("Invalid config: viewport must not be empty")))
        } else if self.threshold > 1_000_000 {
            Err(
                DpcError::Config(
                    String::from_str("Invalid config: threshold must be between 0 and 1"),
                ),
            )
        } else if self.metric_weights.sum() == 0 {
            Err(
                DpcError::Config(
                    String::from_str("Invalid config: at least one metric weight must be positive"),
                ),
            )
        } else {
            Ok(())
        }
    }
}

/// Which settings were given on the command line.
#[derive(Clone, Copy, Debug, Default, PartialEq, Eq, Structural)]
pub struct CompareFlagSources {
    pub viewport: bool,
    pub threshold: bool,
    pub nav_timeout: bool,
    pub network_idle_timeout: bool,
    pub process_timeout: bool,
}

/// The argument gives `flag`: it is the flag itself, or the flag followed by
/// `=` and a value.
pub open spec fn gives_flag(arg: Seq<char>, flag: Seq<char>) -> bool {
    arg == flag || starts_with(arg, flag + "="@)
}

/// Some argument gives `flag`.
pub open spec fn flag_given(args: Seq<Seq<char>>, flag: Seq<char>) -> bool {
    exists|i: int| 0 <= i < args.len() && gives_flag(#[trigger] args[i], flag)
}

/// Whether `flag` occurs among the arguments, alone or with `=` and a value.
pub fn flag_present(args: &Vec<String>, flag: &str) -> (r: bool)
    ensures
        r == flag_given(args.deep_view(), flag@),
{
    let mut with_value = chars_of(flag);
    with_value.push('=');
    proof {
        reveal_strlit("=");
        assert(with_value@ =~= flag@ + "="@);
    }
    let ghost all = args.deep_view();
    let mut i: usize = 0;
    while i < args.len()
        invariant
            i <= args.len(),
            all == args.deep_view(),
            with_value@ == flag@ + "="@,
            forall|k: int| 0 <= k < i ==> !gives_flag(#[trigger] all[k], flag@),
        decreases args.len() - i,
    {
        let arg = args[i].as_str();
        assert(all[i as int] == arg@);
        if str_equal(arg, flag) {
            return true;
        }
        let v = chars_of(arg);
        assert(v@.subrange(0, v.len() as int) =~= v@);
        if range_starts_with(&v, 0, &with_value) {
            return true;
        }
        i = i + 1;
    }
    false
}

impl CompareFlagSources {
    /// Finds out which settings the arguments give.
    pub fn from_args(args: &Vec<String>) -> (r: Self)
        ensures
            r.viewport == flag_given(args.deep_view(), "--viewport"@),
            r.threshold == flag_given(args.deep_view(), "--threshold"@),
            r.nav_timeout == flag_given(args.deep_view(), "--nav-timeout"@),
            r.network_idle_timeout == flag_given(args.deep_view(), "--network-idle-timeout"@),
            r.process_timeout == flag_given(args.deep_view(), "--process-timeout"@),
    {
        Self {
            viewport: flag_present(args, "--viewport"),
            threshold: flag_present(args, "--threshold"),
            nav_timeout: flag_present(args, "--nav-timeout"),
            network_idle_timeout: flag_present(args, "--network-idle-timeout"),
            process_timeout: flag_present(args, "--process-timeout"),
        }
    }
}

/// The settings that a comparison runs with.
#[derive(Clone, Copy, Debug, PartialEq, Eq, Structural)]
pub struct ResolvedCompareSettings {
    pub viewport: Viewport,
    pub threshold: u32,
    pub nav_timeout: u64,
    pub network_idle_timeout: u64,
    pub process_timeout: u64,
    pub weights: ScoreWeights,
}

/// Takes each setting from the command line where it was given there and
/// from the configuration otherwise. The weights always come from the
/// configuration.
pub fn resolve_compare_settings(
    cli_viewport: Viewport,
    cli_threshold: u32,
    cli_nav_timeout: u64,
    cli_network_idle_timeout: u64,
    cli_process_timeout: u64,
    config: &Config,
    flags: &CompareFlagSources,
) -> (r: ResolvedCompareSettings)
    ensures
        r.viewport == if flags.viewport {
            cli_viewport
        } else {
            config.viewport
        },
        r.threshold == if flags.threshold {
            cli_threshold
        } else {
            config.threshold
        },
        r.nav_timeout == if flags.nav_timeout {
            cli_nav_timeout
        } else {
            config.timeouts.navigation
        },
        r.network_idle_timeout == if flags.network_idle_timeout {
            cli_network_idle_timeout
        } else {
            config.timeouts.network_idle
        },
        r.process_timeout == if flags.process_timeout {
            cli_process_timeout
        } else {
            config.timeouts.process
        },
        r.weights == config.metric_weights,
{
    ResolvedCompareSettings {
        viewport: if flags.viewport {
            cli_viewport
        } else {
            config.viewport
        },
        threshold: if flags.threshold {
            cli_threshold
        } else {
            config.threshold
        },
        nav_timeout: if flags.nav_timeout {
            cli_nav_timeout
        } else {
            config.timeouts.navigation
        },
        network_idle_timeout: if flags.network_idle_timeout {
            cli_network_idle_timeout
        } else {
            config.timeouts.network_idle
        },
        process_timeout: if flags.process_timeout {
            cli_process_timeout
        } else {
            config.timeouts.process
        },
        weights: config.metric_weights,
    }
}

/// The source of the configuration as it is shown: the path of the file, or
/// `fallback` where there is none.
pub open spec fn source_text(source: Option<Seq<char>>, fallback: Seq<char>) -> Seq<char> {
    match source {
        Some(path) => path,
        None => fallback,
    }
}

/// A quantity in millionths with two decimal places.
pub open spec fn two_places(millionths: u32) -> Seq<char> {
    fixed_text(millionths as nat, 2)
}

/// The settings in effect, in one line.
pub open spec fn effective_config_text(
    viewport: Viewport,
    threshold: u32,
    nav_timeout: u64,
    network_idle_timeout: u64,
    process_timeout: u64,
    weights: ScoreWeights,
    source: Option<Seq<char>>,
) -> Seq<char> {
    "Effective config ["@ + source_text(source, "defaults"@) + "]: viewport="@ + decimal(
        viewport.width as nat,
    ) + "x"@ + decimal(viewport.height as nat) + ", threshold="@ + two_places(threshold)
        + ", timeouts: nav="@ + decimal(nav_timeout as nat) + "s, network-idle="@ + decimal(
        network_idle_timeout as nat,
    ) + "s, process="@ + decimal(process_timeout as nat) + "s, weights: pixel="@ + two_places(
        weights.pixel,
    ) + ", layout="@ + two_places(weights.layout) + ", typography="@ + two_places(
        weights.typography,
    ) + ", color="@ + two_places(weights.color) + ", content="@ + two_places(weights.content)
}

/// The settings in effect as they are logged.
pub open spec fn effective_config_log_text(
    source: Option<Seq<char>>,
    viewport: Viewport,
    threshold: u32,
    weights: ScoreWeights,
    nav_timeout: u64,
    network_idle_timeout: u64,
    process_timeout: u64,
) -> Seq<char> {
    "Effective config (source: "@ + source_text(source, "defaults/built-in"@) + "): viewport "@
        + decimal(viewport.width as nat) + "x"@ + decimal(viewport.height as nat)
        + ", threshold "@ + two_places(threshold) + ", timeouts nav "@ + decimal(
        nav_timeout as nat,
    ) + "s / idle "@ + decimal(network_idle_timeout as nat) + "s / process "@ + decimal(
        process_timeout as nat,
    ) + "s, weights pixel "@ + two_places(weights.pixel) + ", layout "@ + two_places(
        weights.layout,
    ) + ", typography "@ + two_places(weights.typography) + ", color "@ + two_places(
        weights.color,
    ) + ", content "@ + two_places(weights.content)
}

/// The line that logs the settings in effect.
pub fn effective_config_log_line(
    config_path: Option<&str>,
    viewport: &Viewport,
    threshold: u32,
    weights: &ScoreWeights,
    nav_timeout: u64,
    network_idle_timeout: u64,
    process_timeout: u64,
) -> (text: String)
    ensures
        text@ == effective_config_log_text(
            match config_path {
                Some(s) => Some(s@),
                None => None,
            },
            *viewport,
            threshold,
            *weights,
            nav_timeout,
            network_idle_timeout,
            process_timeout,
        ),
{
    let mut text = String::from_str("Effective config (source: ");
    match config_path {
        Some(path) => text.append(path),
        None => text.append("defaults/built-in"),
    }
    text.append("): viewport ");
    push_decimal(&mut text, viewport.width as u128);
    text.append("x");
    push_decimal(&mut text, viewport.height as u128);
    text.append(", threshold ");
    push_fixed(&mut text, threshold as u128, 2);
    text.append(", timeouts nav ");
    push_decimal(&mut text, nav_timeout as u128);
    text.append("s / idle ");
    push_decimal(&mut text, network_idle_timeout as u128);
    text.append("s / process ");
    push_decimal(&mut text, process_timeout as u128);
    let ghost first_half = text@;
    text.append("s, weights pixel ");
    push_fixed(&mut text, weights.pixel as u128, 2);
    text.append(", layout ");
    push_fixed(&mut text, weights.layout as u128, 2);
    text.append(", typography ");
    push_fixed(&mut text, weights.typography as u128, 2);
    text.append(", color ");
    push_fixed(&mut text, weights.color as u128, 2);
    text.append(", content ");
    push_fixed(&mut text, weights.content as u128, 2);
    assert(text@ =~= first_half + "s, weights pixel "@ + two_places(weights.pixel) + ", layout "@
        + two_places(weights.layout) + ", typography "@ + two_places(weights.typography)
        + ", color "@ + two_places(weights.color) + ", content "@ + two_places(weights.content));
    assert(first_half =~= "Effective config (source: "@ + source_text(
        match config_path {
            Some(s) => Some(s@),
            None => None,
        },
        "defaults/built-in"@,
    ) + "): viewport "@ + decimal(viewport.width as nat) + "x"@ + decimal(viewport.height as nat)
        + ", threshold "@ + two_places(threshold) + ", timeouts nav "@ + decimal(
        nav_timeout as nat,
    ) + "s / idle "@ + decimal(network_idle_timeout as nat) + "s / process "@ + decimal(
        process_timeout as nat,
    ));
    text
}

/// Puts the settings in effect in one line.
pub fn format_effective_config(
    viewport: &Viewport,
    threshold: u32,
    nav_timeout: u64,
    network_idle_timeout: u64,
    process_timeout: u64,
    weights: &ScoreWeights,
    config_source: Option<&str>,
) -> (text: String)
    ensures
        text@ == effective_config_text(
            *viewport,
            threshold,
            nav_timeout,
            network_idle_timeout,
            process_timeout,
            *weights,
            match config_source {
                Some(s) => Some(s@),
                None => None,
            },
        ),
{
    let mut text = String::from_str("Effective config [");
    match config_source {
        Some(path) => text.append(path),
        None => text.append("defaults"),
    }
    text.append("]: viewport=");
    push_decimal(&mut text, viewport.width as u128);
    text.append("x");
    push_decimal(&mut text, viewport.height as u128);
    text.append(", threshold=");
    push_fixed(&mut text, threshold as u128, 2);
    text.append(", timeouts: nav=");
    push_decimal(&mut text, nav_timeout as u128);
    text.append("s, network-idle=");
    push_decimal(&mut text, network_idle_timeout as u128);
    text.append("s, process=");
    push_decimal(&mut text, process_timeout as u128);
    let ghost first_half = text@;
    text.append("s, weights: pixel=");
    push_fixed(&mut text, weights.pixel as u128, 2);
    text.append(", layout=");
    push_fixed(&mut text, weights.layout as u128, 2);
    text.append(", typography=");
    push_fixed(&mut text, weights.typography as u128, 2);
    text.append(", color=");
    push_fixed(&mut text, weights.color as u128, 2);
    text.append(", content=");
    push_fixed(&mut text, weights.content as u128, 2);
    assert(text@ =~= first_half + "s, weights: pixel="@ + two_places(weights.pixel) + ", layout="@
        + two_places(weights.layout) + ", typography="@ + two_places(weights.typography)
        + ", color="@ + two_places(weights.color) + ", content="@ + two_places(weights.content));
    assert(first_half =~= "Effective config ["@ + source_text(
        match config_source {
            Some(s) => Some(s@),
            None => None,
        },
        "defaults"@,
    ) + "]: viewport="@ + decimal(viewport.width as nat) + "x"@ + decimal(viewport.height as nat)
        + ", threshold="@ + two_places(threshold) + ", timeouts: nav="@ + decimal(
        nav_timeout as nat,
    ) + "s, network-idle="@ + decimal(network_idle_timeout as nat) + "s, process="@ + decimal(
        process_timeout as nat,
    ));
    text
}

} // verus!
