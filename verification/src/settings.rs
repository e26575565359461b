//! Decisions on saving settings: which changes apply at once and which need
//! a restart.
use vstd::prelude::*;

use crate::monitor::config::MonitorConfig;
use crate::text::{owned, same_text};

verus! {

/// Outcome of saving settings.
#[derive(Debug)]
pub struct SaveSettingsResult {
    /// Whether an application restart is needed to apply the telemetry change.
    pub restart_required: bool,
}

/// The OTLP endpoint or headers changed; the telemetry providers are built
/// once at start-up, so such a change needs a restart.
pub open spec fn otel_changed(old: MonitorConfig, new: MonitorConfig) -> bool {
    old.debug_otel_endpoint@ != new.debug_otel_endpoint@ || old.debug_otel_headers@ != new.debug_otel_headers@
}

/// What saving `new` over `old` requires.
pub fn save_settings_result(old: &MonitorConfig, new: &MonitorConfig) -> (r: SaveSettingsResult)
    ensures
        r.restart_required == otel_changed(*old, *new),
{
    let endpoint_same = same_text(old.debug_otel_endpoint.as_str(), new.debug_otel_endpoint.as_str());
    let headers_same = same_text(old.debug_otel_headers.as_str(), new.debug_otel_headers.as_str());
    SaveSettingsResult { restart_required: !endpoint_same || !headers_same }
}

/// Whether the log filter must be reloaded: the directive changed.
pub fn log_reload_needed(old: &MonitorConfig, new: &MonitorConfig) -> (r: bool)
    ensures
        r == (old.debug_rust_log@ != new.debug_rust_log@),
{
    !same_text(old.debug_rust_log.as_str(), new.debug_rust_log.as_str())
}

/// The log filter directive: the configured one when not empty, else the
/// `RUST_LOG` environment variable when set, else `"warn,dna=info"`.
pub open spec fn directive_for(configured: Seq<char>, env_rust_log: Option<Seq<char>>) -> Seq<char> {
    if configured.len() > 0 {
        configured
    } else {
        match env_rust_log {
            Some(e) => e,
            None => "warn,dna=info"@,
        }
    }
}

/// Choose the log filter directive.
pub fn log_directive(configured: &str, env_rust_log: Option<String>) -> (s: String)
    ensures
        s@ == directive_for(
            configured@,
            match env_rust_log {
                Some(e) => Some(e@),
                None => None,
            },
        ),
{
    if configured.unicode_len() > 0 {
        owned(configured)
    } else {
        match env_rust_log {
            Some(e) => e,
            None => owned("warn,dna=info"),
        }
    }
}

} // verus!
