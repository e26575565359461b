//! Notification decisions: sustain times, cooldowns and repeat limits per
//! trigger, and the texts of each notification. Sending (toast, Discord
//! webhook) is left to the caller, which receives one [`Notice`] per
//! notification to deliver.
use vstd::prelude::*;

use crate::event::DetectionEvent;
use crate::monitor::config::MonitorConfig;
use crate::monitor::rounds::{elapsed_text, format_elapsed};
use crate::monitor::transition::{kind_of, spec_kind, EventKind};
use crate::state::elapsed_ms;
use crate::text::{dec_padded, owned, push_decimal_padded, push_str};

verus! {

/// Notification trigger, the key of cooldown tracking.
#[derive(Debug, Clone, Copy, PartialEq, Eq, Structural)]
pub enum TriggerKind {
    DialogVisible,
    RoundGone,
    ResultScreen,
    RoundTripGreen,
    RoundTripYellow,
    RoundTripRed,
    CaptureLost,
    ResultIdle,
    GenemonVisible,
}

/// Number of trigger kinds.
pub const TRIGGER_COUNT: usize = 9;

/// Slot of a trigger in the per-trigger tables.
pub open spec fn trigger_index(k: TriggerKind) -> int {
    match k {
        TriggerKind::DialogVisible => 0,
        TriggerKind::RoundGone => 1,
        TriggerKind::ResultScreen => 2,
        TriggerKind::RoundTripGreen => 3,
        TriggerKind::RoundTripYellow => 4,
        TriggerKind::RoundTripRed => 5,
        TriggerKind::CaptureLost => 6,
        TriggerKind::ResultIdle => 7,
        TriggerKind::GenemonVisible => 8,
    }
}

/// Trigger stored in slot `i`.
pub open spec fn trigger_at(i: int) -> TriggerKind {
    if i == 0 {
        TriggerKind::DialogVisible
    } else if i == 1 {
        TriggerKind::RoundGone
    } else if i == 2 {
        TriggerKind::ResultScreen
    } else if i == 3 {
        TriggerKind::RoundTripGreen
    } else if i == 4 {
        TriggerKind::RoundTripYellow
    } else if i == 5 {
        TriggerKind::RoundTripRed
    } else if i == 6 {
        TriggerKind::CaptureLost
    } else if i == 7 {
        TriggerKind::ResultIdle
    } else {
        TriggerKind::GenemonVisible
    }
}

fn trigger_slot(k: TriggerKind) -> (i: usize)
    ensures
        i == trigger_index(k),
        i < TRIGGER_COUNT,
        trigger_at(i as int) == k,
{
    match k {
        TriggerKind::DialogVisible => 0,
        TriggerKind::RoundGone => 1,
        TriggerKind::ResultScreen => 2,
        TriggerKind::RoundTripGreen => 3,
        TriggerKind::RoundTripYellow => 4,
        TriggerKind::RoundTripRed => 5,
        TriggerKind::CaptureLost => 6,
        TriggerKind::ResultIdle => 7,
        TriggerKind::GenemonVisible => 8,
    }
}

fn trigger_of_slot(i: usize) -> (k: TriggerKind)
    requires
        i < TRIGGER_COUNT,
    ensures
        k == trigger_at(i as int),
        trigger_index(k) == i,
{
    if i == 0 {
        TriggerKind::DialogVisible
    } else if i == 1 {
        TriggerKind::RoundGone
    } else if i == 2 {
        TriggerKind::ResultScreen
    } else if i == 3 {
        TriggerKind::RoundTripGreen
    } else if i == 4 {
        TriggerKind::RoundTripYellow
    } else if i == 5 {
        TriggerKind::RoundTripRed
    } else if i == 6 {
        TriggerKind::CaptureLost
    } else if i == 7 {
        TriggerKind::ResultIdle
    } else {
        TriggerKind::GenemonVisible
    }
}

/// Timing and texts of one trigger.
pub struct TriggerConfig {
    /// How long the condition must persist before notifying (ms).
    pub sustain_duration: u64,
    /// Minimum time between two notifications of the trigger (ms).
    pub cooldown: u64,
    /// Notification title.
    pub title: &'static str,
    /// Default notification body.
    pub body: &'static str,
}

/// How long a trigger's condition must persist before it notifies (ms).
pub open spec fn sustain_of(k: TriggerKind, cfg: MonitorConfig) -> u64 {
    match k {
        TriggerKind::DialogVisible => cfg.notify_dialog_sustain,
        TriggerKind::RoundGone => cfg.notify_round_sustain,
        TriggerKind::GenemonVisible => cfg.notify_genemon_sustain,
        _ => 0,
    }
}

/// Minimum time between two notifications of a trigger (ms).
pub open spec fn cooldown_of(k: TriggerKind, cfg: MonitorConfig) -> u64 {
    match k {
        TriggerKind::DialogVisible | TriggerKind::CaptureLost | TriggerKind::GenemonVisible | TriggerKind::ResultIdle => cfg.notification_cooldown,
        _ => cfg.notify_round_cooldown,
    }
}

/// Title of a trigger's notification.
pub open spec fn title_of(k: TriggerKind) -> Seq<char> {
    match k {
        TriggerKind::DialogVisible => "ダイアログ検出"@,
        TriggerKind::RoundGone => "ラウンド完了"@,
        TriggerKind::ResultScreen => "依頼完了"@,
        TriggerKind::RoundTripGreen => "RoundTrip: Green"@,
        TriggerKind::RoundTripYellow => "RoundTrip: Yellow"@,
        TriggerKind::RoundTripRed => "RoundTrip: Red"@,
        TriggerKind::CaptureLost => "キャプチャ停止"@,
        TriggerKind::ResultIdle => "リザルト放置中"@,
        TriggerKind::GenemonVisible => "ジェネモン発見"@,
    }
}

/// Default body of a trigger's notification.
pub open spec fn body_of(k: TriggerKind) -> Seq<char> {
    match k {
        TriggerKind::DialogVisible => "通信エラー等のダイアログが表示されています"@,
        TriggerKind::RoundGone => "ラウンドが完了しました"@,
        TriggerKind::ResultScreen => "ラウンドが完了しました (OCR 確認済み)"@,
        TriggerKind::RoundTripGreen => "設定 Green より時間がかかっています"@,
        TriggerKind::RoundTripYellow => "設定 Yellow より時間がかかっています"@,
        TriggerKind::RoundTripRed => "設定 Red より時間がかかっています"@,
        TriggerKind::CaptureLost => "ウィンドウのキャプチャに失敗しました。最小化されていないか確認してください"@,
        TriggerKind::ResultIdle => "リザルト画面が表示されたまま次のラウンドが始まっていません"@,
        TriggerKind::GenemonVisible => "ジェネモンを探して解放しよう"@,
    }
}

/// Timing and texts of a trigger under the given settings.
pub fn trigger_config(kind: TriggerKind, cfg: &MonitorConfig) -> (tc: TriggerConfig)
    ensures
        tc.sustain_duration == sustain_of(kind, *cfg),
        tc.cooldown == cooldown_of(kind, *cfg),
        tc.title@ == title_of(kind),
        tc.body@ == body_of(kind),
{
    match kind {
        TriggerKind::DialogVisible => TriggerConfig {
            sustain_duration: cfg.notify_dialog_sustain,
            cooldown: cfg.notification_cooldown,
            title: "ダイアログ検出",
            body: "通信エラー等のダイアログが表示されています",
        },
        TriggerKind::RoundGone => TriggerConfig {
            sustain_duration: cfg.notify_round_sustain,
            cooldown: cfg.notify_round_cooldown,
            title: "ラウンド完了",
            body: "ラウンドが完了しました",
        },
        TriggerKind::ResultScreen => TriggerConfig {
            sustain_duration: 0,
            cooldown: cfg.notify_round_cooldown,
            title: "依頼完了",
            body: "ラウンドが完了しました (OCR 確認済み)",
        },
        TriggerKind::RoundTripGreen => TriggerConfig {
            sustain_duration: 0,
            cooldown: cfg.notify_round_cooldown,
            title: "RoundTrip: Green",
            body: "設定 Green より時間がかかっています",
        },
        TriggerKind::RoundTripYellow => TriggerConfig {
            sustain_duration: 0,
            cooldown: cfg.notify_round_cooldown,
            title: "RoundTrip: Yellow",
            body: "設定 Yellow より時間がかかっています",
        },
        TriggerKind::RoundTripRed => TriggerConfig {
            sustain_duration: 0,
            cooldown: cfg.notify_round_cooldown,
            title: "RoundTrip: Red",
            body: "設定 Red より時間がかかっています",
        },
        TriggerKind::CaptureLost => TriggerConfig {
            sustain_duration: 0,
            cooldown: cfg.notification_cooldown,
            title: "キャプチャ停止",
            body: "ウィンドウのキャプチャに失敗しました。最小化されていないか確認してください",
        },
        TriggerKind::ResultIdle => TriggerConfig {
            sustain_duration: 0,
            cooldown: cfg.notification_cooldown,
            title: "リザルト放置中",
            body: "リザルト画面が表示されたまま次のラウンドが始まっていません",
        },
        TriggerKind::GenemonVisible => TriggerConfig {
            sustain_duration: cfg.notify_genemon_sustain,
            cooldown: cfg.notification_cooldown,
            title: "ジェネモン発見",
            body: "ジェネモンを探して解放しよう",
        },
    }
}

/// Whether a trigger is switched on in the settings.
pub open spec fn enabled(cfg: MonitorConfig, k: TriggerKind) -> bool {
    cfg.notifications_enabled && match k {
        TriggerKind::RoundGone => cfg.notify_round_enabled,
        TriggerKind::DialogVisible => cfg.notify_dialog_enabled,
        TriggerKind::ResultScreen => cfg.notify_result_enabled,
        TriggerKind::RoundTripGreen => cfg.notify_roundtrip_green,
        TriggerKind::RoundTripYellow => cfg.notify_roundtrip_yellow,
        TriggerKind::RoundTripRed => cfg.notify_roundtrip_red,
        TriggerKind::CaptureLost => cfg.notify_capture_lost_enabled,
        TriggerKind::ResultIdle => cfg.notify_result_idle_enabled,
        TriggerKind::GenemonVisible => cfg.notify_genemon_enabled,
    }
}

/// The last notification at `last` is less than `cooldown` ms before `now`.
pub open spec fn cooling(last: Option<u64>, now: u64, cooldown: u64) -> bool {
    match last {
        Some(l) => elapsed_ms(now, l) < cooldown,
        None => false,
    }
}

/// Notifications are held back because the game window has the focus.
pub open spec fn focus_suppressed(cfg: MonitorConfig, game_focused: bool) -> bool {
    cfg.suppress_when_game_focused && game_focused
}

/// What the caller is asked to deliver.
pub struct NoticeModel {
    pub title: Seq<char>,
    pub body: Seq<char>,
    pub toast: bool,
    pub discord: bool,
    pub mention: bool,
    pub attach_image: bool,
}

/// A notification to deliver: as a desktop toast when `toast`, as a Discord
/// webhook message when `discord` (mentioning the configured ID when
/// `mention`, with a screenshot when `attach_image`).
pub struct Notice {
    pub title: String,
    pub body: String,
    pub toast: bool,
    pub discord: bool,
    pub mention: bool,
    pub attach_image: bool,
}

impl View for Notice {
    type V = NoticeModel;

    open spec fn view(&self) -> NoticeModel {
        NoticeModel {
            title: self.title@,
            body: self.body@,
            toast: self.toast,
            discord: self.discord,
            mention: self.mention,
            attach_image: self.attach_image,
        }
    }
}

/// The notice for a notification with the given texts under `cfg`: a toast
/// when desktop notifications are on, a webhook message when Discord is active.
pub open spec fn notice_of(cfg: MonitorConfig, title: Seq<char>, body: Seq<char>, mention: bool, attach_image: bool) -> NoticeModel {
    NoticeModel {
        title,
        body,
        toast: cfg.desktop_enabled,
        discord: cfg.spec_is_discord_active(),
        mention,
        attach_image,
    }
}

/// The notices of a list, in order.
pub open spec fn notices_view(v: Seq<Notice>) -> Seq<NoticeModel> {
    v.map_values(|n: Notice| n@)
}

/// The notice inside an optional notice.
pub open spec fn opt_notice(o: Option<Notice>) -> Option<NoticeModel> {
    match o {
        Some(n) => Some(n@),
        None => None,
    }
}

fn make_notice(cfg: &MonitorConfig, title: String, body: String, mention: bool, attach_image: bool) -> (n: Notice)
    ensures
        n@ == notice_of(*cfg, title@, body@, mention, attach_image),
{
    Notice {
        title,
        body,
        toast: cfg.desktop_enabled,
        discord: cfg.is_discord_active(),
        mention,
        attach_image,
    }
}

/// Abstract state of a [`NotificationManager`].
pub struct NotifierModel {
    /// When each trigger's condition became active.
    pub condition_start: Seq<Option<u64>>,
    /// When each trigger last notified.
    pub last_notified: Seq<Option<u64>>,
    /// `RoundVisible` was seen since the last round notification.
    pub round_was_visible: bool,
    /// The round completion was notified and awaits `RoundVisible`.
    pub round_notified: bool,
    /// Repeats of the highest enabled round-trip level.
    pub roundtrip_repeat: u32,
    /// Repeats of the capture-lost notification.
    pub capture_lost_repeat: u32,
    /// Repeats of the result-idle notification.
    pub result_idle_repeat: u32,
    /// Dialog notifications in the current occurrence.
    pub dialog_repeat: u32,
    /// Genemon notifications in the current occurrence.
    pub genemon_repeat: u32,
    /// Round number shown in notifications.
    pub current_round: Option<u32>,
    /// Settings.
    pub config: MonitorConfig,
}

/// `n + 1`, saturating.
pub open spec fn bump(n: u32) -> u32 {
    if n == u32::MAX {
        n
    } else {
        (n + 1) as u32
    }
}

/// `"ラウンド NN "` for a known round, nothing otherwise.
pub open spec fn round_prefix(r: Option<u32>) -> Seq<char> {
    match r {
        Some(n) => "ラウンド "@ + dec_padded(n as nat, 2) + " "@,
        None => Seq::empty(),
    }
}

// ----------------------------------------------------------------------
// Round trip
// ----------------------------------------------------------------------

/// Highest round-trip level that is switched on (Green when none is).
pub open spec fn highest_enabled(cfg: MonitorConfig) -> TriggerKind {
    if cfg.notify_roundtrip_red {
        TriggerKind::RoundTripRed
    } else if cfg.notify_roundtrip_yellow {
        TriggerKind::RoundTripYellow
    } else {
        TriggerKind::RoundTripGreen
    }
}

/// Threshold of a round-trip level (ms).
pub open spec fn threshold_of(cfg: MonitorConfig, k: TriggerKind) -> u64 {
    match k {
        TriggerKind::RoundTripRed => cfg.roundtrip_red,
        TriggerKind::RoundTripYellow => cfg.roundtrip_yellow,
        _ => cfg.roundtrip_green,
    }
}

/// Name of a round-trip level as shown in the notification.
pub open spec fn level_name(k: TriggerKind) -> Seq<char> {
    match k {
        TriggerKind::RoundTripRed => "Red"@,
        TriggerKind::RoundTripYellow => "Yellow"@,
        _ => "Green"@,
    }
}

/// Round-trip level reached after `elapsed` ms, if any.
pub open spec fn level_reached(cfg: MonitorConfig, elapsed: u64) -> Option<TriggerKind> {
    if elapsed >= cfg.roundtrip_red {
        Some(TriggerKind::RoundTripRed)
    } else if elapsed >= cfg.roundtrip_yellow {
        Some(TriggerKind::RoundTripYellow)
    } else if elapsed >= cfg.roundtrip_green {
        Some(TriggerKind::RoundTripGreen)
    } else {
        None
    }
}

/// Body of a round-trip notification.
pub open spec fn roundtrip_body(r: Option<u32>, k: TriggerKind, elapsed: u64) -> Seq<char> {
    round_prefix(r) + "完了設定 "@ + level_name(k) + " より時間がかかっています。(Elapsed="@ + elapsed_text(
        elapsed as nat,
    ) + ")"@
}

/// A round-trip check after `elapsed` ms of the current round at time `now`:
/// the highest enabled level repeats at its own threshold interval up to the
/// repeat limit, lower levels notify once.
pub open spec fn roundtrip_step(m: NotifierModel, elapsed: u64, now: u64, focused: bool) -> (NotifierModel, Option<NoticeModel>) {
    match level_reached(m.config, elapsed) {
        None => (m, None),
        Some(k) => {
            let i = trigger_index(k);
            let highest = highest_enabled(m.config);
            let blocked = if k == highest {
                m.roundtrip_repeat >= m.config.notification_max_repeat || cooling(
                    m.last_notified[i],
                    now,
                    threshold_of(m.config, k),
                )
            } else {
                m.last_notified[i] is Some
            };
            if !enabled(m.config, k) || blocked || focus_suppressed(m.config, focused) {
                (m, None)
            } else {
                (
                    NotifierModel {
                        last_notified: m.last_notified.update(i, Some(now)),
                        roundtrip_repeat: if k == highest { bump(m.roundtrip_repeat) } else { m.roundtrip_repeat },
                        ..m
                    },
                    Some(notice_of(
                        m.config,
                        title_of(k),
                        roundtrip_body(m.current_round, k, elapsed),
                        k == TriggerKind::RoundTripYellow || k == TriggerKind::RoundTripRed,
                        true,
                    )),
                )
            }
        },
    }
}

// ----------------------------------------------------------------------
// Capture lost / result idle
// ----------------------------------------------------------------------

/// A failed capture at `now`.
pub open spec fn capture_lost_step(m: NotifierModel, now: u64) -> (NotifierModel, Option<NoticeModel>) {
    let k = TriggerKind::CaptureLost;
    let i = trigger_index(k);
    if !enabled(m.config, k) || m.capture_lost_repeat >= m.config.notification_max_repeat || cooling(
        m.last_notified[i],
        now,
        cooldown_of(k, m.config),
    ) {
        (m, None)
    } else {
        (
            NotifierModel {
                last_notified: m.last_notified.update(i, Some(now)),
                capture_lost_repeat: bump(m.capture_lost_repeat),
                ..m
            },
            Some(notice_of(m.config, title_of(k), body_of(k), true, false)),
        )
    }
}

/// Capture works again: the counter and cooldown are cleared, and a
/// recovery notice goes out if a loss was notified.
pub open spec fn capture_recovered_step(m: NotifierModel) -> (NotifierModel, Option<NoticeModel>) {
    let k = TriggerKind::CaptureLost;
    let m1 = NotifierModel {
        capture_lost_repeat: 0,
        last_notified: m.last_notified.update(trigger_index(k), None),
        ..m
    };
    if m.capture_lost_repeat > 0 && enabled(m.config, k) {
        (m1, Some(notice_of(m.config, "キャプチャ復帰"@, "ウィンドウのキャプチャが復帰しました"@, false, false)))
    } else {
        (m1, None)
    }
}

/// The result screen has stayed up for `elapsed` ms at time `now`.
pub open spec fn result_idle_step(m: NotifierModel, elapsed: u64, now: u64, focused: bool) -> (NotifierModel, Option<NoticeModel>) {
    let k = TriggerKind::ResultIdle;
    let i = trigger_index(k);
    if !m.config.notify_result_idle_enabled || elapsed < m.config.notify_result_idle_threshold
        || m.result_idle_repeat >= m.config.notification_max_repeat || cooling(
        m.last_notified[i],
        now,
        cooldown_of(k, m.config),
    ) || focus_suppressed(m.config, focused) {
        (m, None)
    } else {
        (
            NotifierModel {
                last_notified: m.last_notified.update(i, Some(now)),
                result_idle_repeat: bump(m.result_idle_repeat),
                ..m
            },
            Some(notice_of(m.config, title_of(k), body_of(k), false, false)),
        )
    }
}

// ----------------------------------------------------------------------
// Result screen
// ----------------------------------------------------------------------

/// Body of the result-screen notification.
pub open spec fn result_body(r: Option<u32>) -> Seq<char> {
    match r {
        Some(n) => "ラウンド "@ + dec_padded(n as nat, 2) + " が完了しました (OCR 確認済み)"@,
        None => body_of(TriggerKind::ResultScreen),
    }
}

/// A confirmed result screen at `now`.
pub open spec fn result_screen_step(m: NotifierModel, now: u64, focused: bool) -> (NotifierModel, Option<NoticeModel>) {
    let k = TriggerKind::ResultScreen;
    let i = trigger_index(k);
    if !enabled(m.config, k) || cooling(m.last_notified[i], now, cooldown_of(k, m.config))
        || focus_suppressed(m.config, focused) {
        (m, None)
    } else {
        (
            NotifierModel { last_notified: m.last_notified.update(i, Some(now)), ..m },
            Some(notice_of(m.config, title_of(k), result_body(m.current_round), true, true)),
        )
    }
}

// ----------------------------------------------------------------------
// Sustained conditions
// ----------------------------------------------------------------------

/// Start tracking a condition, keeping an earlier start.
pub open spec fn track(m: NotifierModel, k: TriggerKind, now: u64) -> NotifierModel {
    let i = trigger_index(k);
    if m.condition_start[i] is Some {
        m
    } else {
        NotifierModel { condition_start: m.condition_start.update(i, Some(now)), ..m }
    }
}

/// Stop tracking a condition. The dialog forgets its repeat count and last
/// notification; the genemon quest forgets its repeat count but keeps its
/// last notification, so that a noisy false "gone" does not reset the cooldown.
pub open spec fn clear(m: NotifierModel, k: TriggerKind) -> NotifierModel {
    let i = trigger_index(k);
    let m1 = NotifierModel { condition_start: m.condition_start.update(i, None), ..m };
    match k {
        TriggerKind::DialogVisible => NotifierModel {
            dialog_repeat: 0,
            last_notified: m1.last_notified.update(i, None),
            ..m1
        },
        TriggerKind::GenemonVisible => NotifierModel { genemon_repeat: 0, ..m1 },
        _ => m1,
    }
}

/// How one raw event updates the tracked conditions.
pub open spec fn absorb(m: NotifierModel, e: DetectionEvent, now: u64) -> NotifierModel {
    match spec_kind(e) {
        EventKind::RoundVisible => clear(
            NotifierModel { round_was_visible: true, round_notified: false, ..m },
            TriggerKind::RoundGone,
        ),
        EventKind::RoundGone => if m.round_was_visible && !m.round_notified {
            track(m, TriggerKind::RoundGone, now)
        } else {
            m
        },
        EventKind::DialogVisible => track(m, TriggerKind::DialogVisible, now),
        EventKind::DialogGone => clear(m, TriggerKind::DialogVisible),
        EventKind::GenemonVisible => track(m, TriggerKind::GenemonVisible, now),
        EventKind::GenemonGone => clear(m, TriggerKind::GenemonVisible),
        _ => m,
    }
}

/// Events absorbed one after another.
pub open spec fn absorb_all(m: NotifierModel, es: Seq<DetectionEvent>, now: u64) -> NotifierModel
    decreases es.len(),
{
    if es.len() == 0 {
        m
    } else {
        absorb(absorb_all(m, es.drop_last(), now), es.last(), now)
    }
}

/// Repeat count of a condition trigger in its current occurrence.
pub open spec fn repeat_of(m: NotifierModel, k: TriggerKind) -> u32 {
    match k {
        TriggerKind::DialogVisible => m.dialog_repeat,
        TriggerKind::GenemonVisible => m.genemon_repeat,
        _ => 0,
    }
}

/// Body of a sustained-condition notification.
pub open spec fn condition_body(r: Option<u32>, k: TriggerKind) -> Seq<char> {
    match r {
        Some(n) => match k {
            TriggerKind::RoundGone => "ラウンド "@ + dec_padded(n as nat, 2) + " が完了しました"@,
            TriggerKind::ResultScreen => "ラウンド "@ + dec_padded(n as nat, 2) + " が完了しました (OCR 確認済み)"@,
            _ => body_of(k),
        },
        None => body_of(k),
    }
}

/// Check a tracked condition at `now`: it notifies once it has lasted its
/// sustain time, is enabled, under its repeat limit and out of cooldown.
pub open spec fn check(m: NotifierModel, k: TriggerKind, now: u64, focused: bool) -> (NotifierModel, Option<NoticeModel>) {
    let i = trigger_index(k);
    match m.condition_start[i] {
        None => (m, None),
        Some(start) => {
            let limited = (k == TriggerKind::DialogVisible || k == TriggerKind::GenemonVisible)
                && repeat_of(m, k) >= m.config.notification_max_repeat;
            if !enabled(m.config, k) || limited || elapsed_ms(now, start) < sustain_of(k, m.config)
                || cooling(m.last_notified[i], now, cooldown_of(k, m.config)) || focus_suppressed(
                m.config,
                focused,
            ) {
                (m, None)
            } else {
                let m1 = NotifierModel {
                    last_notified: m.last_notified.update(i, Some(now)),
                    condition_start: m.condition_start.update(i, None),
                    dialog_repeat: if k == TriggerKind::DialogVisible { bump(m.dialog_repeat) } else { m.dialog_repeat },
                    genemon_repeat: if k == TriggerKind::GenemonVisible { bump(m.genemon_repeat) } else { m.genemon_repeat },
                    round_notified: if k == TriggerKind::RoundGone { true } else { m.round_notified },
                    round_was_visible: if k == TriggerKind::RoundGone { false } else { m.round_was_visible },
                    ..m
                };
                (
                    m1,
                    Some(notice_of(
                        m.config,
                        title_of(k),
                        condition_body(m.current_round, k),
                        k == TriggerKind::DialogVisible || k == TriggerKind::ResultScreen,
                        true,
                    )),
                )
            }
        },
    }
}

/// Conditions in slots `0..n` checked in slot order.
pub open spec fn check_upto(m: NotifierModel, n: int, now: u64, focused: bool) -> (NotifierModel, Seq<NoticeModel>)
    decreases n,
{
    if n <= 0 {
        (m, Seq::empty())
    } else {
        let (m1, out) = check_upto(m, n - 1, now, focused);
        let (m2, o) = check(m1, trigger_at(n - 1), now, focused);
        (
            m2,
            match o {
                Some(x) => out.push(x),
                None => out,
            },
        )
    }
}

/// A batch of raw events at time `now`: conditions are updated by every
/// event, then every tracked condition is checked.
pub open spec fn process_step(m: NotifierModel, es: Seq<DetectionEvent>, now: u64, focused: bool) -> (NotifierModel, Seq<NoticeModel>) {
    check_upto(absorb_all(m, es, now), TRIGGER_COUNT as int, now, focused)
}

/// Per-trigger tables have one slot per trigger.
pub open spec fn notifier_wf(m: NotifierModel) -> bool {
    m.condition_start.len() == TRIGGER_COUNT && m.last_notified.len() == TRIGGER_COUNT
}

/// Turns detection events, round-trip times, capture failures and the result
/// screen into notifications, enforcing sustain times, cooldowns and repeat
/// limits per trigger.
pub struct NotificationManager {
    condition_start: Vec<Option<u64>>,
    last_notified: Vec<Option<u64>>,
    round_was_visible: bool,
    round_notified: bool,
    roundtrip_repeat_count: u32,
    capture_lost_repeat_count: u32,
    result_idle_repeat_count: u32,
    dialog_visible_repeat_count: u32,
    genemon_visible_repeat_count: u32,
    current_round: Option<u32>,
    config: MonitorConfig,
}

impl View for NotificationManager {
    type V = NotifierModel;

    closed spec fn view(&self) -> NotifierModel {
        NotifierModel {
            condition_start: self.condition_start@,
            last_notified: self.last_notified@,
            round_was_visible: self.round_was_visible,
            round_notified: self.round_notified,
            roundtrip_repeat: self.roundtrip_repeat_count,
            capture_lost_repeat: self.capture_lost_repeat_count,
            result_idle_repeat: self.result_idle_repeat_count,
            dialog_repeat: self.dialog_visible_repeat_count,
            genemon_repeat: self.genemon_visible_repeat_count,
            current_round: self.current_round,
            config: self.config,
        }
    }
}

fn round_label(round: u32) -> (s: String)
    ensures
        s@ == "ラウンド "@ + dec_padded(round as nat, 2),
{
    let mut s = owned("ラウンド ");
    push_decimal_padded(&mut s, round as u64, 2);
    s
}

impl NotificationManager {
    /// The tables are well formed.
    pub open spec fn wf(&self) -> bool {
        notifier_wf(self@)
    }

    /// A manager with nothing tracked or notified yet.
    pub fn new(config: &MonitorConfig) -> (m: Self)
        ensures
            m.wf(),
            m@.config == *config,
            forall|i: int| 0 <= i < TRIGGER_COUNT ==> m@.condition_start[i] is None && m@.last_notified[i] is None,
            !m@.round_was_visible,
            !m@.round_notified,
            m@.roundtrip_repeat == 0,
            m@.capture_lost_repeat == 0,
            m@.result_idle_repeat == 0,
            m@.dialog_repeat == 0,
            m@.genemon_repeat == 0,
            m@.current_round is None,
    {
        let mut condition_start: Vec<Option<u64>> = Vec::new();
        let mut last_notified: Vec<Option<u64>> = Vec::new();
        let mut i: usize = 0;
        while i < TRIGGER_COUNT
            invariant
                i <= TRIGGER_COUNT,
                condition_start.len() == i,
                last_notified.len() == i,
                forall|j: int| 0 <= j < i ==> condition_start@[j] is None && last_notified@[j] is None,
            decreases TRIGGER_COUNT - i,
        {
            condition_start.push(None);
            last_notified.push(None);
            i = i + 1;
        }
        NotificationManager {
            condition_start,
            last_notified,
            round_was_visible: false,
            round_notified: false,
            roundtrip_repeat_count: 0,
            capture_lost_repeat_count: 0,
            result_idle_repeat_count: 0,
            dialog_visible_repeat_count: 0,
            genemon_visible_repeat_count: 0,
            current_round: None,
            config: config.duplicate(),
        }
    }

    /// Set the round number shown in notifications.
    pub fn set_current_round(&mut self, round: Option<u32>)
        ensures
            final(self)@ == (NotifierModel { current_round: round, ..old(self)@ }),
    {
        self.current_round = round;
    }

    /// Whether a trigger is switched on in the settings.
    pub fn is_trigger_enabled(&self, kind: TriggerKind) -> (r: bool)
        ensures
            r == enabled(self@.config, kind),
    {
        if !self.config.notifications_enabled {
            return false;
        }
        match kind {
            TriggerKind::RoundGone => self.config.notify_round_enabled,
            TriggerKind::DialogVisible => self.config.notify_dialog_enabled,
            TriggerKind::ResultScreen => self.config.notify_result_enabled,
            TriggerKind::RoundTripGreen => self.config.notify_roundtrip_green,
            TriggerKind::RoundTripYellow => self.config.notify_roundtrip_yellow,
            TriggerKind::RoundTripRed => self.config.notify_roundtrip_red,
            TriggerKind::CaptureLost => self.config.notify_capture_lost_enabled,
            TriggerKind::ResultIdle => self.config.notify_result_idle_enabled,
            TriggerKind::GenemonVisible => self.config.notify_genemon_enabled,
        }
    }

    fn is_cooling(&self, i: usize, now: u64, cooldown: u64) -> (r: bool)
        requires
            self.wf(),
            i < TRIGGER_COUNT,
        ensures
            r == cooling(self@.last_notified[i as int], now, cooldown),
    {
        match self.last_notified[i] {
            Some(l) => {
                let el = if now >= l { now - l } else { 0 };
                el < cooldown
            },
            None => false,
        }
    }

    fn is_focus_suppressed(&self, game_focused: bool) -> (r: bool)
        ensures
            r == focus_suppressed(self@.config, game_focused),
    {
        self.config.suppress_when_game_focused && game_focused
    }

    fn highest_enabled_kind(&self) -> (k: TriggerKind)
        ensures
            k == highest_enabled(self@.config),
    {
        if self.config.notify_roundtrip_red {
            TriggerKind::RoundTripRed
        } else if self.config.notify_roundtrip_yellow {
            TriggerKind::RoundTripYellow
        } else {
            TriggerKind::RoundTripGreen
        }
    }

    fn threshold_for(&self, kind: TriggerKind) -> (t: u64)
        ensures
            t == threshold_of(self@.config, kind),
    {
        match kind {
            TriggerKind::RoundTripRed => self.config.roundtrip_red,
            TriggerKind::RoundTripYellow => self.config.roundtrip_yellow,
            _ => self.config.roundtrip_green,
        }
    }

    /// Notify that the current round has run past a round-trip threshold,
    /// `elapsed_ms` after it started, at time `now_ms`.
    pub fn notify_roundtrip(&mut self, elapsed: u64, now_ms: u64, game_focused: bool) -> (r: Option<Notice>)
        requires
            old(self).wf(),
        ensures
            final(self).wf(),
            (final(self)@, opt_notice(r)) == roundtrip_step(old(self)@, elapsed, now_ms, game_focused),
    {
        let kind = if elapsed >= self.config.roundtrip_red {
            TriggerKind::RoundTripRed
        } else if elapsed >= self.config.roundtrip_yellow {
            TriggerKind::RoundTripYellow
        } else if elapsed >= self.config.roundtrip_green {
            TriggerKind::RoundTripGreen
        } else {
            return None;
        };
        let (name, tc) = match kind {
            TriggerKind::RoundTripRed => ("Red", trigger_config(kind, &self.config)),
            TriggerKind::RoundTripYellow => ("Yellow", trigger_config(kind, &self.config)),
            _ => ("Green", trigger_config(kind, &self.config)),
        };
        if !self.is_trigger_enabled(kind) {
            return None;
        }
        let i = trigger_slot(kind);
        let highest = self.highest_enabled_kind();
        if kind == highest {
            if self.roundtrip_repeat_count >= self.config.notification_max_repeat {
                return None;
            }
            let threshold = self.threshold_for(kind);
            if self.is_cooling(i, now_ms, threshold) {
                return None;
            }
        } else {
            if self.last_notified[i].is_some() {
                return None;
            }
        }
        if self.is_focus_suppressed(game_focused) {
            return None;
        }
        let mut body = match self.current_round {
            Some(r) => {
                let mut s = round_label(r);
                push_str(&mut s, " ");
                s
            },
            None => String::new(),
        };
        push_str(&mut body, "完了設定 ");
        push_str(&mut body, name);
        push_str(&mut body, " より時間がかかっています。(Elapsed=");
        let el = format_elapsed(elapsed);
        push_str(&mut body, el.as_str());
        push_str(&mut body, ")");
        assert(body@ =~= roundtrip_body(self@.current_round, kind, elapsed));
        let mention = kind == TriggerKind::RoundTripYellow || kind == TriggerKind::RoundTripRed;
        let notice = make_notice(&self.config, owned(tc.title), body, mention, true);
        self.last_notified.set(i, Some(now_ms));
        if kind == highest {
            self.roundtrip_repeat_count = if self.roundtrip_repeat_count == u32::MAX {
                u32::MAX
            } else {
                self.roundtrip_repeat_count + 1
            };
        }
        Some(notice)
    }

    /// Reset the round-trip levels (a new round started or the result
    /// screen was dismissed).
    pub fn reset_roundtrip(&mut self)
        requires
            old(self).wf(),
        ensures
            final(self).wf(),
            final(self)@ == (NotifierModel {
                roundtrip_repeat: 0,
                last_notified: old(self)@.last_notified.update(3, None).update(4, None).update(5, None),
                ..old(self)@
            }),
    {
        self.roundtrip_repeat_count = 0;
        self.last_notified.set(3, None);
        self.last_notified.set(4, None);
        self.last_notified.set(5, None);
    }

    /// Notify that capture frames stopped arriving, at time `now_ms`.
    pub fn notify_capture_lost(&mut self, now_ms: u64) -> (r: Option<Notice>)
        requires
            old(self).wf(),
        ensures
            final(self).wf(),
            (final(self)@, opt_notice(r)) == capture_lost_step(old(self)@, now_ms),
    {
        let kind = TriggerKind::CaptureLost;
        if !self.is_trigger_enabled(kind) {
            return None;
        }
        if self.capture_lost_repeat_count >= self.config.notification_max_repeat {
            return None;
        }
        let tc = trigger_config(kind, &self.config);
        if self.is_cooling(6, now_ms, tc.cooldown) {
            return None;
        }
        let notice = make_notice(&self.config, owned(tc.title), owned(tc.body), true, false);
        self.last_notified.set(6, Some(now_ms));
        self.capture_lost_repeat_count = if self.capture_lost_repeat_count == u32::MAX {
            u32::MAX
        } else {
            self.capture_lost_repeat_count + 1
        };
        Some(notice)
    }

    /// Capture works again: clear the capture-lost state and announce the
    /// recovery if a loss was notified.
    pub fn reset_capture_lost(&mut self) -> (r: Option<Notice>)
        requires
            old(self).wf(),
        ensures
            final(self).wf(),
            (final(self)@, opt_notice(r)) == capture_recovered_step(old(self)@),
    {
        let was_notified = self.capture_lost_repeat_count > 0;
        self.capture_lost_repeat_count = 0;
        self.last_notified.set(6, None);
        if was_notified && self.is_trigger_enabled(TriggerKind::CaptureLost) {
            Some(
                make_notice(
                    &self.config,
                    owned("キャプチャ復帰"),
                    owned("ウィンドウのキャプチャが復帰しました"),
                    false,
                    false,
                ),
            )
        } else {
            None
        }
    }

    /// Notify that the result screen has stayed up for `elapsed` ms without
    /// a new round, at time `now_ms`.
    pub fn notify_result_idle(&mut self, elapsed: u64, now_ms: u64, game_focused: bool) -> (r: Option<Notice>)
        requires
            old(self).wf(),
        ensures
            final(self).wf(),
            (final(self)@, opt_notice(r)) == result_idle_step(old(self)@, elapsed, now_ms, game_focused),
    {
        let kind = TriggerKind::ResultIdle;
        if !self.config.notify_result_idle_enabled {
            return None;
        }
        if elapsed < self.config.notify_result_idle_threshold {
            return None;
        }
        if self.result_idle_repeat_count >= self.config.notification_max_repeat {
            return None;
        }
        let tc = trigger_config(kind, &self.config);
        if self.is_cooling(7, now_ms, tc.cooldown) {
            return None;
        }
        if self.is_focus_suppressed(game_focused) {
            return None;
        }
        let notice = make_notice(&self.config, owned(tc.title), owned(tc.body), false, false);
        self.last_notified.set(7, Some(now_ms));
        self.result_idle_repeat_count = if self.result_idle_repeat_count == u32::MAX {
            u32::MAX
        } else {
            self.result_idle_repeat_count + 1
        };
        Some(notice)
    }

    /// Reset the result-idle state (a new round started or the result
    /// screen was dismissed).
    pub fn reset_result_idle(&mut self)
        requires
            old(self).wf(),
        ensures
            final(self).wf(),
            final(self)@ == (NotifierModel {
                result_idle_repeat: 0,
                last_notified: old(self)@.last_notified.update(7, None),
                ..old(self)@
            }),
    {
        self.result_idle_repeat_count = 0;
        self.last_notified.set(7, None);
    }

    /// Notify a confirmed result screen at time `now_ms`.
    pub fn notify_result_screen(&mut self, now_ms: u64, game_focused: bool) -> (r: Option<Notice>)
        requires
            old(self).wf(),
        ensures
            final(self).wf(),
            (final(self)@, opt_notice(r)) == result_screen_step(old(self)@, now_ms, game_focused),
    {
        let kind = TriggerKind::ResultScreen;
        if !self.is_trigger_enabled(kind) {
            return None;
        }
        let tc = trigger_config(kind, &self.config);
        if self.is_cooling(2, now_ms, tc.cooldown) {
            return None;
        }
        if self.is_focus_suppressed(game_focused) {
            return None;
        }
        let body = match self.current_round {
            Some(r) => {
                let mut s = round_label(r);
                push_str(&mut s, " が完了しました (OCR 確認済み)");
                s
            },
            None => owned(tc.body),
        };
        let notice = make_notice(&self.config, owned(tc.title), body, true, true);
        self.last_notified.set(2, Some(now_ms));
        Some(notice)
    }

    fn track_condition(&mut self, kind: TriggerKind, now: u64)
        requires
            old(self).wf(),
        ensures
            final(self).wf(),
            final(self)@ == track(old(self)@, kind, now),
    {
        let i = trigger_slot(kind);
        if self.condition_start[i].is_none() {
            self.condition_start.set(i, Some(now));
        }
    }

    fn clear_condition(&mut self, kind: TriggerKind)
        requires
            old(self).wf(),
        ensures
            final(self).wf(),
            final(self)@ == clear(old(self)@, kind),
    {
        let i = trigger_slot(kind);
        self.condition_start.set(i, None);
        match kind {
            TriggerKind::DialogVisible => {
                self.dialog_visible_repeat_count = 0;
                self.last_notified.set(i, None);
            },
            TriggerKind::GenemonVisible => {
                self.genemon_visible_repeat_count = 0;
            },
            _ => {},
        }
    }

    fn absorb_event(&mut self, event: &DetectionEvent, now: u64)
        requires
            old(self).wf(),
        ensures
            final(self).wf(),
            final(self)@ == absorb(old(self)@, *event, now),
    {
        match kind_of(event) {
            EventKind::RoundVisible => {
                self.round_was_visible = true;
                self.round_notified = false;
                self.clear_condition(TriggerKind::RoundGone);
            },
            EventKind::RoundGone => {
                if self.round_was_visible && !self.round_notified {
                    self.track_condition(TriggerKind::RoundGone, now);
                }
            },
            EventKind::DialogVisible => self.track_condition(TriggerKind::DialogVisible, now),
            EventKind::DialogGone => self.clear_condition(TriggerKind::DialogVisible),
            EventKind::GenemonVisible => self.track_condition(TriggerKind::GenemonVisible, now),
            EventKind::GenemonGone => self.clear_condition(TriggerKind::GenemonVisible),
            _ => {},
        }
    }

    fn check_and_notify(&mut self, kind: TriggerKind, now: u64, game_focused: bool) -> (r: Option<Notice>)
        requires
            old(self).wf(),
        ensures
            final(self).wf(),
            (final(self)@, opt_notice(r)) == check(old(self)@, kind, now, game_focused),
    {
        let i = trigger_slot(kind);
        let start = match self.condition_start[i] {
            Some(s) => s,
            None => {
                return None;
            },
        };
        if !self.is_trigger_enabled(kind) {
            return None;
        }
        let limited = match kind {
            TriggerKind::DialogVisible => self.dialog_visible_repeat_count >= self.config.notification_max_repeat,
            TriggerKind::GenemonVisible => self.genemon_visible_repeat_count >= self.config.notification_max_repeat,
            _ => false,
        };
        if limited {
            return None;
        }
        let tc = trigger_config(kind, &self.config);
        let held = if now >= start { now - start } else { 0 };
        if held < tc.sustain_duration {
            return None;
        }
        if self.is_cooling(i, now, tc.cooldown) {
            return None;
        }
        if self.is_focus_suppressed(game_focused) {
            return None;
        }
        let body = match self.current_round {
            Some(r) => match kind {
                TriggerKind::RoundGone => {
                    let mut s = round_label(r);
                    push_str(&mut s, " が完了しました");
                    s
                },
                TriggerKind::ResultScreen => {
                    let mut s = round_label(r);
                    push_str(&mut s, " が完了しました (OCR 確認済み)");
                    s
                },
                _ => owned(tc.body),
            },
            None => owned(tc.body),
        };
        let mention = kind == TriggerKind::DialogVisible || kind == TriggerKind::ResultScreen;
        let notice = make_notice(&self.config, owned(tc.title), body, mention, true);
        self.last_notified.set(i, Some(now));
        match kind {
            TriggerKind::DialogVisible => {
                self.dialog_visible_repeat_count = if self.dialog_visible_repeat_count == u32::MAX {
                    u32::MAX
                } else {
                    self.dialog_visible_repeat_count + 1
                };
            },
            TriggerKind::GenemonVisible => {
                self.genemon_visible_repeat_count = if self.genemon_visible_repeat_count == u32::MAX {
                    u32::MAX
                } else {
                    self.genemon_visible_repeat_count + 1
                };
            },
            _ => {},
        }
        self.condition_start.set(i, None);
        if kind == TriggerKind::RoundGone {
            self.round_notified = true;
            self.round_was_visible = false;
        }
        Some(notice)
    }

    /// Process a batch of raw detection events at time `now_ms` and return
    /// the notifications whose conditions have been sustained long enough.
    pub fn process_events(&mut self, events: &Vec<DetectionEvent>, now_ms: u64, game_focused: bool) -> (r: Vec<Notice>)
        requires
            old(self).wf(),
        ensures
            final(self).wf(),
            (final(self)@, notices_view(r@)) == process_step(old(self)@, events@, now_ms, game_focused),
    {
        let ghost m0 = self@;
        let mut j: usize = 0;
        while j < events.len()
            invariant
                self.wf(),
                j <= events.len(),
                self@ == absorb_all(m0, events@.take(j as int), now_ms),
            decreases events.len() - j,
        {
            assert(events@.take(j + 1).drop_last() =~= events@.take(j as int));
            self.absorb_event(&events[j], now_ms);
            j = j + 1;
        }
        assert(events@.take(events.len() as int) =~= events@);
        let ghost m1 = self@;
        let mut out: Vec<Notice> = Vec::new();
        let mut i: usize = 0;
        while i < TRIGGER_COUNT
            invariant
                self.wf(),
                i <= TRIGGER_COUNT,
                (self@, notices_view(out@)) == check_upto(m1, i as int, now_ms, game_focused),
            decreases TRIGGER_COUNT - i,
        {
            let kind = trigger_of_slot(i);
            let ghost before = out@;
            let o = self.check_and_notify(kind, now_ms, game_focused);
            match o {
                Some(n) => {
                    out.push(n);
                    assert(notices_view(out@) =~= notices_view(before).push(out@.last()@));
                },
                None => {},
            }
            i = i + 1;
        }
        out
    }

    /// Dialog notifications sent in the current occurrence.
    pub fn dialog_repeat_count(&self) -> (n: u32)
        ensures
            n == self@.dialog_repeat,
    {
        self.dialog_visible_repeat_count
    }

    /// Genemon notifications sent in the current occurrence.
    pub fn genemon_repeat_count(&self) -> (n: u32)
        ensures
            n == self@.genemon_repeat,
    {
        self.genemon_visible_repeat_count
    }

    /// Capture-lost notifications sent since the last recovery.
    pub fn capture_lost_count(&self) -> (n: u32)
        ensures
            n == self@.capture_lost_repeat,
    {
        self.capture_lost_repeat_count
    }

    /// Result-idle notifications sent since the last reset.
    pub fn result_idle_count(&self) -> (n: u32)
        ensures
            n == self@.result_idle_repeat,
    {
        self.result_idle_repeat_count
    }

    /// Whether a trigger has a recorded last notification.
    pub fn was_notified(&self, kind: TriggerKind) -> (b: bool)
        requires
            self.wf(),
        ensures
            b == self@.last_notified[trigger_index(kind)] is Some,
    {
        self.last_notified[trigger_slot(kind)].is_some()
    }

    /// Whether a trigger's condition is being tracked.
    pub fn is_tracking(&self, kind: TriggerKind) -> (b: bool)
        requires
            self.wf(),
        ensures
            b == self@.condition_start[trigger_index(kind)] is Some,
    {
        self.condition_start[trigger_slot(kind)].is_some()
    }
}

/// The notice of the test notification for the given settings, mentioning
/// the configured ID when there is one.
pub fn send_test_notification(config: &MonitorConfig) -> (n: Notice)
    ensures
        n@ == notice_of(
            *config,
            "DNA Assistant テスト"@,
            "通知が正常に動作しています"@,
            config.discord_mention_id@.len() > 0,
            false,
        ),
{
    let mention = config.discord_mention_id.as_str().unicode_len() > 0;
    make_notice(config, owned("DNA Assistant テスト"), owned("通知が正常に動作しています"), mention, false)
}

/// Text of a Discord webhook message: the bold title, preceded by a mention
/// of `mention_id` when one is given and not empty.
pub open spec fn discord_text(title: Seq<char>, mention_id: Option<Seq<char>>) -> Seq<char> {
    match mention_id {
        Some(id) => if id.len() > 0 {
            "<@"@ + id + "> "@ + "**"@ + title + "**"@
        } else {
            "**"@ + title + "**"@
        },
        None => "**"@ + title + "**"@,
    }
}

/// Content line of a Discord webhook message.
pub fn discord_content(title: &str, mention_id: Option<&str>) -> (s: String)
    ensures
        s@ == discord_text(
            title@,
            match mention_id {
                Some(id) => Some(id@),
                None => None,
            },
        ),
{
    let mut s = String::new();
    match mention_id {
        Some(id) => {
            if id.unicode_len() > 0 {
                push_str(&mut s, "<@");
                push_str(&mut s, id);
                push_str(&mut s, "> ");
            }
        },
        None => {},
    }
    push_str(&mut s, "**");
    push_str(&mut s, title);
    push_str(&mut s, "**");
    let ghost t = discord_text(
        title@,
        match mention_id {
            Some(id) => Some(id@),
            None => None,
        },
    );
    assert(s@ =~= t);
    s
}

// ----------------------------------------------------------------------
// Laws
// ----------------------------------------------------------------------

/// The repeat counters are within the limit.
pub open spec fn within_limits(m: NotifierModel) -> bool {
    &&& m.dialog_repeat <= m.config.notification_max_repeat
    &&& m.genemon_repeat <= m.config.notification_max_repeat
    &&& m.capture_lost_repeat <= m.config.notification_max_repeat
    &&& m.result_idle_repeat <= m.config.notification_max_repeat
    &&& m.roundtrip_repeat <= m.config.notification_max_repeat
}

proof fn lemma_absorb_all_limits(m: NotifierModel, es: Seq<DetectionEvent>, now: u64)
    requires
        notifier_wf(m),
        within_limits(m),
    ensures
        notifier_wf(absorb_all(m, es, now)),
        within_limits(absorb_all(m, es, now)),
        absorb_all(m, es, now).config == m.config,
    decreases es.len(),
{
    if es.len() > 0 {
        lemma_absorb_all_limits(m, es.drop_last(), now);
    }
}

proof fn lemma_check_upto_limits(m: NotifierModel, n: int, now: u64, focused: bool)
    requires
        notifier_wf(m),
        within_limits(m),
    ensures
        notifier_wf(check_upto(m, n, now, focused).0),
        within_limits(check_upto(m, n, now, focused).0),
        check_upto(m, n, now, focused).0.config == m.config,
    decreases n,
{
    if n > 0 {
        lemma_check_upto_limits(m, n - 1, now, focused);
    }
}

/// No notification path ever lets a repeat counter pass
/// `notification_max_repeat`: dialog and genemon per occurrence, capture
/// lost, result idle and the highest round-trip level.
pub proof fn law_repeat_counts_bounded(m: NotifierModel, es: Seq<DetectionEvent>, elapsed: u64, now: u64, focused: bool)
    requires
        notifier_wf(m),
        within_limits(m),
    ensures
        within_limits(process_step(m, es, now, focused).0),
        within_limits(roundtrip_step(m, elapsed, now, focused).0),
        within_limits(capture_lost_step(m, now).0),
        within_limits(capture_recovered_step(m).0),
        within_limits(result_idle_step(m, elapsed, now, focused).0),
        within_limits(result_screen_step(m, now, focused).0),
{
    lemma_absorb_all_limits(m, es, now);
    lemma_check_upto_limits(absorb_all(m, es, now), TRIGGER_COUNT as int, now, focused);
}

/// A dismissed dialog starts a fresh occurrence: its condition, repeat count
/// and cooldown are cleared. A dismissed genemon quest clears its condition
/// and repeat count but keeps its cooldown.
pub proof fn law_gone_resets_occurrence(m: NotifierModel, e: DetectionEvent, now: u64)
    requires
        notifier_wf(m),
    ensures
        spec_kind(e) == EventKind::DialogGone ==> absorb(m, e, now).dialog_repeat == 0
            && absorb(m, e, now).condition_start[0] is None && absorb(m, e, now).last_notified[0] is None,
        spec_kind(e) == EventKind::GenemonGone ==> absorb(m, e, now).genemon_repeat == 0
            && absorb(m, e, now).condition_start[8] is None && absorb(m, e, now).last_notified[8]
            == m.last_notified[8],
{
}

/// The round-completion condition is quiet: not tracked, and either already
/// notified for this round or no round seen yet.
pub open spec fn round_quiet(m: NotifierModel) -> bool {
    &&& m.round_notified || !m.round_was_visible
    &&& m.condition_start[1] is None
}

proof fn lemma_absorb_all_round_quiet(m: NotifierModel, es: Seq<DetectionEvent>, now: u64)
    requires
        notifier_wf(m),
        round_quiet(m),
        forall|j: int| 0 <= j < es.len() ==> spec_kind(#[trigger] es[j]) != EventKind::RoundVisible,
    ensures
        notifier_wf(absorb_all(m, es, now)),
        round_quiet(absorb_all(m, es, now)),
        absorb_all(m, es, now).round_notified == m.round_notified,
        absorb_all(m, es, now).round_was_visible == m.round_was_visible,
        absorb_all(m, es, now).last_notified[1] == m.last_notified[1],
    decreases es.len(),
{
    if es.len() > 0 {
        let pre = es.drop_last();
        assert forall|j: int| 0 <= j < pre.len() implies spec_kind(#[trigger] pre[j]) != EventKind::RoundVisible by {
            assert(pre[j] == es[j]);
        }
        lemma_absorb_all_round_quiet(m, pre, now);
        assert(spec_kind(es[es.len() - 1]) != EventKind::RoundVisible);
    }
}

proof fn lemma_check_upto_round_quiet(m: NotifierModel, n: int, now: u64, focused: bool)
    requires
        notifier_wf(m),
        round_quiet(m),
    ensures
        notifier_wf(check_upto(m, n, now, focused).0),
        round_quiet(check_upto(m, n, now, focused).0),
        check_upto(m, n, now, focused).0.round_notified == m.round_notified,
        check_upto(m, n, now, focused).0.round_was_visible == m.round_was_visible,
        check_upto(m, n, now, focused).0.last_notified[1] == m.last_notified[1],
    decreases n,
{
    if n > 0 {
        lemma_check_upto_round_quiet(m, n - 1, now, focused);
    }
}

/// Round completion is notified at most once per round, and never before a
/// round was seen: while no `RoundVisible` arrives, a quiet round-completion
/// trigger stays quiet and never notifies, whatever other events come.
pub proof fn law_round_completion_once_per_round(m: NotifierModel, es: Seq<DetectionEvent>, now: u64, focused: bool)
    requires
        notifier_wf(m),
        round_quiet(m),
        forall|j: int| 0 <= j < es.len() ==> spec_kind(#[trigger] es[j]) != EventKind::RoundVisible,
    ensures
        round_quiet(process_step(m, es, now, focused).0),
        process_step(m, es, now, focused).0.last_notified[1] == m.last_notified[1],
{
    lemma_absorb_all_round_quiet(m, es, now);
    lemma_check_upto_round_quiet(absorb_all(m, es, now), TRIGGER_COUNT as int, now, focused);
}

/// A round-completion notification marks the round as notified, so the
/// state after it is quiet until the next `RoundVisible`.
pub proof fn law_round_notice_quiets(m: NotifierModel, now: u64, focused: bool)
    requires
        notifier_wf(m),
        check(m, TriggerKind::RoundGone, now, focused).1 is Some,
    ensures
        round_quiet(check(m, TriggerKind::RoundGone, now, focused).0),
{
}

/// Desktop and Discord delivery are independent: a notice is a toast exactly
/// when desktop notifications are on, and a webhook message exactly when
/// Discord is enabled with a webhook URL.
pub proof fn law_channels_independent(cfg: MonitorConfig, title: Seq<char>, body: Seq<char>, mention: bool, image: bool)
    ensures
        notice_of(cfg, title, body, mention, image).toast == cfg.desktop_enabled,
        notice_of(cfg, title, body, mention, image).discord == (cfg.discord_enabled
            && cfg.discord_webhook_url@.len() > 0),
{
}

/// Round-trip tiers: below every threshold (with thresholds in ascending
/// order: below the green one) nothing is sent and nothing changes; a tier
/// is only sent when switched on; a tier below the highest
/// enabled one is sent only if it was not sent since the last reset, and
/// is then marked sent; the highest enabled tier is sent at most
/// `notification_max_repeat` times, each send at least its threshold after
/// the one before.
pub proof fn law_roundtrip_tiers(m: NotifierModel, elapsed: u64, now: u64, focused: bool)
    requires
        notifier_wf(m),
    ensures
        (elapsed < m.config.roundtrip_green && elapsed < m.config.roundtrip_yellow && elapsed
            < m.config.roundtrip_red) ==> roundtrip_step(m, elapsed, now, focused) == (m, None::<NoticeModel>),
        (m.config.roundtrip_green <= m.config.roundtrip_yellow <= m.config.roundtrip_red && elapsed
            < m.config.roundtrip_green) ==> roundtrip_step(m, elapsed, now, focused) == (m, None::<NoticeModel>),
        roundtrip_step(m, elapsed, now, focused).1 is Some ==> ({
            let k = level_reached(m.config, elapsed)->0;
            let i = trigger_index(k);
            &&& level_reached(m.config, elapsed) is Some
            &&& enabled(m.config, k)
            &&& roundtrip_step(m, elapsed, now, focused).0.last_notified[i] == Some(now)
            &&& (k != highest_enabled(m.config) ==> m.last_notified[i] is None)
            &&& (k == highest_enabled(m.config) ==> m.roundtrip_repeat < m.config.notification_max_repeat
                && match m.last_notified[i] {
                Some(l) => elapsed_ms(now, l) >= threshold_of(m.config, k),
                None => true,
            })
        }),
{
}

/// Which round-trip level each call of a run of `notify_roundtrip` calls
/// notified (`None` where it sent nothing); a call is `(elapsed, now,
/// game_focused)`.
pub open spec fn roundtrip_fired(m: NotifierModel, calls: Seq<(u64, u64, bool)>) -> Seq<
    Option<TriggerKind>,
>
    decreases calls.len(),
{
    if calls.len() == 0 {
        Seq::empty()
    } else {
        let c = calls[0];
        let (next, notice) = roundtrip_step(m, c.0, c.1, c.2);
        seq![if notice is Some { level_reached(m.config, c.0) } else { None }] + roundtrip_fired(
            next,
            calls.drop_first(),
        )
    }
}

/// A run reports one entry per call.
proof fn lemma_roundtrip_fired_len(m: NotifierModel, calls: Seq<(u64, u64, bool)>)
    ensures
        roundtrip_fired(m, calls).len() == calls.len(),
    decreases calls.len(),
{
    if calls.len() > 0 {
        let c = calls[0];
        let (next, notice) = roundtrip_step(m, c.0, c.1, c.2);
        lemma_roundtrip_fired_len(next, calls.drop_first());
    }
}

/// How many entries of `fired` are level `k`.
pub open spec fn fire_count(fired: Seq<Option<TriggerKind>>, k: TriggerKind) -> nat
    decreases fired.len(),
{
    if fired.len() == 0 {
        0
    } else {
        (if fired[0] == Some(k) {
            1nat
        } else {
            0nat
        }) + fire_count(fired.drop_first(), k)
    }
}

/// A round-trip step keeps the configuration and the well-formedness, and
/// changes the notification time of no level but the one it notified.
proof fn lemma_roundtrip_step_frame(m: NotifierModel, elapsed: u64, now: u64, focused: bool)
    requires
        notifier_wf(m),
    ensures
        ({
            let (next, notice) = roundtrip_step(m, elapsed, now, focused);
            &&& notifier_wf(next)
            &&& next.config == m.config
            &&& notice is Some ==> level_reached(m.config, elapsed) is Some
            &&& forall|j: int|
                0 <= j < TRIGGER_COUNT && (notice is None || j != trigger_index(
                    level_reached(m.config, elapsed)->0,
                )) ==> #[trigger] next.last_notified[j] == m.last_notified[j]
            &&& notice is Some ==> next.last_notified[trigger_index(
                level_reached(m.config, elapsed)->0,
            )] == Some(now)
            &&& (notice is None || level_reached(m.config, elapsed)->0 != highest_enabled(m.config))
                ==> next.roundtrip_repeat == m.roundtrip_repeat
        }),
{
}

/// Over any run of `notify_roundtrip` calls with no reset in between, a
/// round-trip level below the highest enabled one notifies at most once,
/// and not at all once it has notified before the run.
pub proof fn law_lower_tier_once(m: NotifierModel, calls: Seq<(u64, u64, bool)>, k: TriggerKind)
    requires
        notifier_wf(m),
        k != highest_enabled(m.config),
    ensures
        fire_count(roundtrip_fired(m, calls), k) <= 1,
        m.last_notified[trigger_index(k)] is Some ==> fire_count(roundtrip_fired(m, calls), k) == 0,
    decreases calls.len(),
{
    if calls.len() > 0 {
        let c = calls[0];
        let (next, notice) = roundtrip_step(m, c.0, c.1, c.2);
        lemma_roundtrip_step_frame(m, c.0, c.1, c.2);
        law_lower_tier_once(next, calls.drop_first(), k);
        let fired = roundtrip_fired(m, calls);
        assert(fired.drop_first() == roundtrip_fired(next, calls.drop_first()));
        let i = trigger_index(k);
        assert(0 <= i < TRIGGER_COUNT);
        if fired[0] == Some(k) {
            assert(next.last_notified[i] is Some);
        }
        if m.last_notified[i] is Some {
            assert(next.last_notified[i] is Some);
        }
    }
}

/// Once the highest enabled level last notified at `t`, the next call of
/// the run that notifies it comes at least its threshold after `t`.
proof fn lemma_highest_spacing_from(
    m: NotifierModel,
    calls: Seq<(u64, u64, bool)>,
    l: int,
    t: u64,
)
    requires
        notifier_wf(m),
        0 <= l < calls.len(),
        m.last_notified[trigger_index(highest_enabled(m.config))] == Some(t),
        roundtrip_fired(m, calls)[l] == Some(highest_enabled(m.config)),
        forall|x: int|
            0 <= x < l ==> roundtrip_fired(m, calls)[x] != Some(highest_enabled(m.config)),
    ensures
        elapsed_ms(calls[l].1, t) >= threshold_of(m.config, highest_enabled(m.config)),
    decreases l,
{
    let c = calls[0];
    let (next, notice) = roundtrip_step(m, c.0, c.1, c.2);
    lemma_roundtrip_step_frame(m, c.0, c.1, c.2);
    let fired = roundtrip_fired(m, calls);
    let rest = roundtrip_fired(next, calls.drop_first());
    lemma_roundtrip_fired_len(m, calls);
    assert(fired.drop_first() == rest);
    if l > 0 {
        assert(fired[0] != Some(highest_enabled(m.config)));
        assert forall|x: int| 0 <= x < l - 1 implies rest[x] != Some(
            highest_enabled(next.config),
        ) by {
            assert(rest[x] == fired[x + 1]);
        }
        assert(rest[l - 1] == fired[l]);
        lemma_highest_spacing_from(next, calls.drop_first(), l - 1, t);
    }
}

/// Over any run of `notify_roundtrip` calls with no reset in between, the
/// highest enabled round-trip level notifies at most as often as the repeat
/// limit still allows, and two of its notifications in a row lie at least
/// its threshold apart.
pub proof fn law_highest_tier_repeats(
    m: NotifierModel,
    calls: Seq<(u64, u64, bool)>,
    j: int,
    l: int,
)
    requires
        notifier_wf(m),
    ensures
        m.roundtrip_repeat <= m.config.notification_max_repeat ==> fire_count(
            roundtrip_fired(m, calls),
            highest_enabled(m.config),
        ) <= m.config.notification_max_repeat - m.roundtrip_repeat,
        ({
            let fired = roundtrip_fired(m, calls);
            let h = highest_enabled(m.config);
            (0 <= j < l < calls.len() && fired[j] == Some(h) && fired[l] == Some(h) && (forall|x: int|
                j < x < l ==> fired[x] != Some(h))) ==> elapsed_ms(calls[l].1, calls[j].1)
                >= threshold_of(m.config, h)
        }),
    decreases calls.len(),
{
    if calls.len() > 0 {
        let c = calls[0];
        let (next, notice) = roundtrip_step(m, c.0, c.1, c.2);
        lemma_roundtrip_step_frame(m, c.0, c.1, c.2);
        law_highest_tier_repeats(next, calls.drop_first(), j - 1, l - 1);
        let fired = roundtrip_fired(m, calls);
        let rest = roundtrip_fired(next, calls.drop_first());
        let h = highest_enabled(m.config);
        lemma_roundtrip_fired_len(m, calls);
        assert(fired.drop_first() == rest);
        if 0 <= j < l < calls.len() && fired[j] == Some(h) && fired[l] == Some(h) && (forall|x: int|
            j < x < l ==> fired[x] != Some(h)) {
            if j == 0 {
                assert(next.last_notified[trigger_index(h)] == Some(c.1));
                assert forall|x: int| 0 <= x < l - 1 implies rest[x] != Some(h) by {
                    assert(rest[x] == fired[x + 1]);
                }
                assert(rest[l - 1] == fired[l]);
                lemma_highest_spacing_from(next, calls.drop_first(), l - 1, c.1);
            } else {
                assert(rest[j - 1] == fired[j]);
                assert(rest[l - 1] == fired[l]);
                assert forall|x: int| j - 1 < x < l - 1 implies rest[x] != Some(h) by {
                    assert(rest[x] == fired[x + 1]);
                }
            }
        }
    }
}

} // verus!
