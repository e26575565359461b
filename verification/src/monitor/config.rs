//! Monitor loop configuration. Durations are in milliseconds; the
//! confirmation ratio is in basis points (1/10000).
use vstd::prelude::*;

verus! {

/// Settings of the monitor loop and the notifications.
#[derive(Clone, Debug)]
pub struct MonitorConfig {
    /// Interval between captured frames (ms).
    pub capture_interval: u64,
    /// Interval between window search retries (ms).
    pub window_search_interval: u64,
    /// Consecutive capture failures before the window is searched again.
    pub max_capture_retries: u32,
    /// Refresh interval of the detection page preview (ms).
    pub preview_interval: u64,
    /// Cooldown between duplicate notifications (ms).
    pub notification_cooldown: u64,
    /// How long `DialogVisible` must last before a notification (ms).
    pub notify_dialog_sustain: u64,
    /// How long `RoundGone` must last before a notification (ms).
    pub notify_round_sustain: u64,
    /// Cooldown between repeated round-completion notifications (ms).
    pub notify_round_cooldown: u64,
    /// How long `GenemonVisible` must last before a notification (ms).
    pub notify_genemon_sustain: u64,
    /// Whether the round detector runs.
    pub round_enabled: bool,
    /// Whether the dialog detector runs.
    pub dialog_enabled: bool,
    /// Sliding window for transition confirmation (ms).
    pub confirmation_window: u64,
    /// Share of agreeing frames required within the window, in basis points.
    pub confirmation_ratio: u32,
    /// Master switch of all notifications.
    pub notifications_enabled: bool,
    /// Notify on `RoundGone`.
    pub notify_round_enabled: bool,
    /// Notify on `DialogVisible`.
    pub notify_dialog_enabled: bool,
    /// Notify on the result screen.
    pub notify_result_enabled: bool,
    /// Notify on the genemon quest.
    pub notify_genemon_enabled: bool,
    /// Round trip Green threshold (ms).
    pub roundtrip_green: u64,
    /// Round trip Yellow threshold (ms).
    pub roundtrip_yellow: u64,
    /// Round trip Red threshold (ms).
    pub roundtrip_red: u64,
    /// Notify when the round trip exceeds Green.
    pub notify_roundtrip_green: bool,
    /// Notify when the round trip exceeds Yellow.
    pub notify_roundtrip_yellow: bool,
    /// Notify when the round trip exceeds Red.
    pub notify_roundtrip_red: bool,
    /// Maximum number of repeated notifications.
    pub notification_max_repeat: u32,
    /// Notify when capture frames stop arriving.
    pub notify_capture_lost_enabled: bool,
    /// How long capture must fail before a notification (ms).
    pub notify_capture_lost_sustain: u64,
    /// Notify while the result screen stays up without a new round.
    pub notify_result_idle_enabled: bool,
    /// How long the result screen must stay up before that notification (ms).
    pub notify_result_idle_threshold: u64,
    /// Suppress notifications while the game window is in the foreground.
    pub suppress_when_game_focused: bool,
    /// Show desktop (toast) notifications.
    pub desktop_enabled: bool,
    /// Send notifications to a Discord webhook.
    pub discord_enabled: bool,
    /// Discord webhook URL.
    pub discord_webhook_url: String,
    /// Discord user or role ID to mention.
    pub discord_mention_id: String,
    /// `RUST_LOG`-style log directive override.
    pub debug_rust_log: String,
    /// OTLP endpoint override.
    pub debug_otel_endpoint: String,
    /// OTLP headers override.
    pub debug_otel_headers: String,
}

/// Default of the boolean settings that are on unless configured.
pub fn default_true() -> (b: bool)
    ensures
        b,
{
    true
}

/// Default sliding confirmation window: 3 s.
pub fn default_confirmation_window() -> (ms: u64)
    ensures
        ms == 3000,
{
    3000
}

/// Default Green threshold: 60 s.
pub fn default_roundtrip_green() -> (ms: u64)
    ensures
        ms == 60000,
{
    60000
}

/// Default Yellow threshold: 120 s.
pub fn default_roundtrip_yellow() -> (ms: u64)
    ensures
        ms == 120000,
{
    120000
}

/// Default Red threshold: 180 s.
pub fn default_roundtrip_red() -> (ms: u64)
    ensures
        ms == 180000,
{
    180000
}

/// Default maximum number of repeated notifications: 5.
pub fn default_notification_max_repeat() -> (n: u32)
    ensures
        n == 5,
{
    5
}

/// Default capture-lost sustain: 5 s.
pub fn default_capture_lost_sustain() -> (ms: u64)
    ensures
        ms == 5000,
{
    5000
}

/// Default confirmation ratio: 80 %.
pub fn default_confirmation_ratio() -> (bp: u32)
    ensures
        bp == 8000,
{
    8000
}

impl MonitorConfig {
    /// Whether Discord webhook notifications are configured and enabled.
    pub open spec fn spec_is_discord_active(&self) -> bool {
        self.discord_enabled && self.discord_webhook_url@.len() > 0
    }

    /// Whether Discord webhook notifications are configured and enabled.
    pub fn is_discord_active(&self) -> (r: bool)
        ensures
            r == self.spec_is_discord_active(),
    {
        self.discord_enabled && self.discord_webhook_url.as_str().unicode_len() > 0
    }

    /// The built-in settings (timing in ms, ratio in basis points).
    pub open spec fn spec_default_timings(c: MonitorConfig) -> bool {
        &&& c.capture_interval == 200
        &&& c.window_search_interval == 3000
        &&& c.max_capture_retries == 3
        &&& c.preview_interval == 200
        &&& c.notification_cooldown == 60000
        &&& c.notify_dialog_sustain == 3000
        &&& c.notify_round_sustain == 5000
        &&& c.notify_round_cooldown == 10000
        &&& c.notify_genemon_sustain == 0
        &&& c.confirmation_window == 3000
        &&& c.confirmation_ratio == 8000
        &&& c.roundtrip_green == 60000
        &&& c.roundtrip_yellow == 120000
        &&& c.roundtrip_red == 180000
        &&& c.notification_max_repeat == 5
        &&& c.notify_capture_lost_sustain == 5000
        &&& c.notify_result_idle_threshold == 60000
    }

    /// The built-in switches and texts.
    pub open spec fn spec_default_switches(c: MonitorConfig) -> bool {
        &&& c.round_enabled
        &&& c.dialog_enabled
        &&& c.notifications_enabled
        &&& c.notify_round_enabled
        &&& c.notify_dialog_enabled
        &&& c.notify_result_enabled
        &&& c.notify_genemon_enabled
        &&& !c.notify_roundtrip_green
        &&& !c.notify_roundtrip_yellow
        &&& c.notify_roundtrip_red
        &&& c.notify_capture_lost_enabled
        &&& c.notify_result_idle_enabled
        &&& !c.suppress_when_game_focused
        &&& c.desktop_enabled
        &&& !c.discord_enabled
        &&& c.discord_webhook_url@.len() == 0
        &&& c.discord_mention_id@.len() == 0
        &&& c.debug_rust_log@.len() == 0
        &&& c.debug_otel_endpoint@.len() == 0
        &&& c.debug_otel_headers@.len() == 0
    }

    /// A field-for-field copy.
    pub fn duplicate(&self) -> (c: MonitorConfig)
        ensures
            c == *self,
    {
        MonitorConfig {
            capture_interval: self.capture_interval,
            window_search_interval: self.window_search_interval,
            max_capture_retries: self.max_capture_retries,
            preview_interval: self.preview_interval,
            notification_cooldown: self.notification_cooldown,
            notify_dialog_sustain: self.notify_dialog_sustain,
            notify_round_sustain: self.notify_round_sustain,
            notify_round_cooldown: self.notify_round_cooldown,
            notify_genemon_sustain: self.notify_genemon_sustain,
            round_enabled: self.round_enabled,
            dialog_enabled: self.dialog_enabled,
            confirmation_window: self.confirmation_window,
            confirmation_ratio: self.confirmation_ratio,
            notifications_enabled: self.notifications_enabled,
            notify_round_enabled: self.notify_round_enabled,
            notify_dialog_enabled: self.notify_dialog_enabled,
            notify_result_enabled: self.notify_result_enabled,
            notify_genemon_enabled: self.notify_genemon_enabled,
            roundtrip_green: self.roundtrip_green,
            roundtrip_yellow: self.roundtrip_yellow,
            roundtrip_red: self.roundtrip_red,
            notify_roundtrip_green: self.notify_roundtrip_green,
            notify_roundtrip_yellow: self.notify_roundtrip_yellow,
            notify_roundtrip_red: self.notify_roundtrip_red,
            notification_max_repeat: self.notification_max_repeat,
            notify_capture_lost_enabled: self.notify_capture_lost_enabled,
            notify_capture_lost_sustain: self.notify_capture_lost_sustain,
            notify_result_idle_enabled: self.notify_result_idle_enabled,
            notify_result_idle_threshold: self.notify_result_idle_threshold,
            suppress_when_game_focused: self.suppress_when_game_focused,
            desktop_enabled: self.desktop_enabled,
            discord_enabled: self.discord_enabled,
            discord_webhook_url: self.discord_webhook_url.clone(),
            discord_mention_id: self.discord_mention_id.clone(),
            debug_rust_log: self.debug_rust_log.clone(),
            debug_otel_endpoint: self.debug_otel_endpoint.clone(),
            debug_otel_headers: self.debug_otel_headers.clone(),
        }
    }
}

impl Default for MonitorConfig {
    fn default() -> (c: MonitorConfig)
        ensures
            MonitorConfig::spec_default_timings(c),
            MonitorConfig::spec_default_switches(c),
    {
        MonitorConfig {
            capture_interval: 200,
            window_search_interval: 3000,
            max_capture_retries: 3,
            preview_interval: 200,
            notification_cooldown: 60000,
            notify_dialog_sustain: 3000,
            notify_round_sustain: 5000,
            notify_round_cooldown: 10000,
            notify_genemon_sustain: 0,
            round_enabled: true,
            dialog_enabled: true,
            confirmation_window: default_confirmation_window(),
            confirmation_ratio: default_confirmation_ratio(),
            notifications_enabled: true,
            notify_round_enabled: true,
            notify_dialog_enabled: true,
            notify_result_enabled: true,
            notify_genemon_enabled: true,
            roundtrip_green: default_roundtrip_green(),
            roundtrip_yellow: default_roundtrip_yellow(),
            roundtrip_red: default_roundtrip_red(),
            notify_roundtrip_green: false,
            notify_roundtrip_yellow: false,
            notify_roundtrip_red: true,
            notification_max_repeat: default_notification_max_repeat(),
            notify_capture_lost_enabled: true,
            notify_capture_lost_sustain: default_capture_lost_sustain(),
            notify_result_idle_enabled: true,
            notify_result_idle_threshold: 60000,
            suppress_when_game_focused: false,
            desktop_enabled: true,
            discord_enabled: false,
            discord_webhook_url: String::new(),
            discord_mention_id: String::new(),
            debug_rust_log: String::new(),
            debug_otel_endpoint: String::new(),
            debug_otel_headers: String::new(),
        }
    }
}

} // verus!
