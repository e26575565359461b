use dna_assistant::color::PixelRatio;
use dna_assistant::event::DetectionEvent;
use dna_assistant::monitor::config::MonitorConfig;
use dna_assistant::notification::{
    discord_content, send_test_notification, trigger_config, NotificationManager, TriggerKind,
};

fn test_config_zero() -> MonitorConfig {
    MonitorConfig {
        notify_dialog_sustain: 0,
        notify_round_sustain: 0,
        notify_dialog_enabled: true,
        notify_round_enabled: true,
        notify_genemon_enabled: true,
        notify_capture_lost_enabled: true,
        notify_result_idle_enabled: true,
        notifications_enabled: true,
        notification_max_repeat: 3,
        notification_cooldown: 0,
        notify_round_cooldown: 0,
        desktop_enabled: false,
        discord_enabled: false,
        ..Default::default()
    }
}

fn test_config_with_cooldown(cooldown: u64) -> MonitorConfig {
    MonitorConfig { notification_cooldown: cooldown, ..test_config_zero() }
}

const HALF: PixelRatio = PixelRatio { count: 1, total: 2 };
const NONE: PixelRatio = PixelRatio { count: 0, total: 2 };

fn dialog_visible() -> Vec<DetectionEvent> {
    vec![DetectionEvent::DialogVisible { text_ratio: HALF, bg_dark_ratio: HALF }]
}

fn dialog_gone() -> Vec<DetectionEvent> {
    vec![DetectionEvent::DialogGone { text_ratio: NONE, bg_dark_ratio: NONE }]
}

fn genemon_visible() -> Vec<DetectionEvent> {
    vec![DetectionEvent::GenemonVisible]
}

fn genemon_gone() -> Vec<DetectionEvent> {
    vec![DetectionEvent::GenemonGone]
}

fn round_visible() -> Vec<DetectionEvent> {
    vec![DetectionEvent::RoundVisible { text_present: true, white_ratio: HALF, round_number: Some(1) }]
}

fn round_gone() -> Vec<DetectionEvent> {
    vec![DetectionEvent::RoundGone { white_ratio: NONE }]
}

#[test]
fn dialog_fires_up_to_max_repeat() {
    let cfg = test_config_zero();
    let mut mgr = NotificationManager::new(&cfg);
    for _ in 0..cfg.notification_max_repeat {
        mgr.process_events(&dialog_visible(), 1000, false);
    }
    assert_eq!(mgr.dialog_repeat_count(), cfg.notification_max_repeat);
}

#[test]
fn dialog_stops_after_max_repeat() {
    let cfg = test_config_zero();
    let mut mgr = NotificationManager::new(&cfg);
    for _ in 0..=cfg.notification_max_repeat {
        mgr.process_events(&dialog_visible(), 1000, false);
    }
    assert_eq!(mgr.dialog_repeat_count(), cfg.notification_max_repeat);
}

#[test]
fn dialog_resets_on_gone() {
    let cfg = test_config_zero();
    let mut mgr = NotificationManager::new(&cfg);
    for _ in 0..cfg.notification_max_repeat {
        mgr.process_events(&dialog_visible(), 1000, false);
    }
    mgr.process_events(&dialog_gone(), 1000, false);
    assert_eq!(mgr.dialog_repeat_count(), 0);
    mgr.process_events(&dialog_visible(), 1000, false);
    assert_eq!(mgr.dialog_repeat_count(), 1);
}

#[test]
fn dialog_cooldown_suppresses_repeat() {
    let cfg = test_config_with_cooldown(3_600_000);
    let mut mgr = NotificationManager::new(&cfg);
    mgr.process_events(&dialog_visible(), 1000, false);
    assert_eq!(mgr.dialog_repeat_count(), 1);
    mgr.process_events(&dialog_visible(), 2000, false);
    assert_eq!(mgr.dialog_repeat_count(), 1);
}

#[test]
fn dialog_sustain_blocks_premature_fire() {
    let cfg = MonitorConfig { notify_dialog_sustain: 3_600_000, ..test_config_zero() };
    let mut mgr = NotificationManager::new(&cfg);
    mgr.process_events(&dialog_visible(), 1000, false);
    assert!(!mgr.was_notified(TriggerKind::DialogVisible));
    assert!(mgr.is_tracking(TriggerKind::DialogVisible));
}

#[test]
fn dialog_fires_once_sustained() {
    let cfg = MonitorConfig { notify_dialog_sustain: 3000, ..test_config_zero() };
    let mut mgr = NotificationManager::new(&cfg);
    assert!(mgr.process_events(&dialog_visible(), 1000, false).is_empty());
    assert!(mgr.process_events(&dialog_visible(), 3999, false).is_empty());
    let notices = mgr.process_events(&dialog_visible(), 4000, false);
    assert_eq!(notices.len(), 1);
    assert_eq!(notices[0].title, "ダイアログ検出");
    assert_eq!(notices[0].body, "通信エラー等のダイアログが表示されています");
    assert!(notices[0].mention);
    assert!(notices[0].attach_image);
    assert!(!mgr.is_tracking(TriggerKind::DialogVisible));
}

#[test]
fn genemon_fires_up_to_max_repeat() {
    let cfg = test_config_zero();
    let mut mgr = NotificationManager::new(&cfg);
    for _ in 0..cfg.notification_max_repeat {
        mgr.process_events(&genemon_visible(), 1000, false);
    }
    assert_eq!(mgr.genemon_repeat_count(), cfg.notification_max_repeat);
}

#[test]
fn genemon_resets_on_gone() {
    let cfg = test_config_zero();
    let mut mgr = NotificationManager::new(&cfg);
    for _ in 0..cfg.notification_max_repeat {
        mgr.process_events(&genemon_visible(), 1000, false);
    }
    mgr.process_events(&genemon_gone(), 1000, false);
    assert_eq!(mgr.genemon_repeat_count(), 0);
    mgr.process_events(&genemon_visible(), 1000, false);
    assert_eq!(mgr.genemon_repeat_count(), 1);
}

#[test]
fn genemon_gone_keeps_cooldown() {
    let cfg = test_config_with_cooldown(60_000);
    let mut mgr = NotificationManager::new(&cfg);
    mgr.process_events(&genemon_visible(), 1000, false);
    assert_eq!(mgr.genemon_repeat_count(), 1);
    mgr.process_events(&genemon_gone(), 2000, false);
    assert!(mgr.was_notified(TriggerKind::GenemonVisible));
    mgr.process_events(&genemon_visible(), 3000, false);
    assert_eq!(mgr.genemon_repeat_count(), 0);
    mgr.process_events(&dialog_visible(), 4000, false);
    mgr.process_events(&dialog_gone(), 5000, false);
    assert!(!mgr.was_notified(TriggerKind::DialogVisible));
}

#[test]
fn round_gone_suppressed_before_round_visible() {
    let cfg = test_config_zero();
    let mut mgr = NotificationManager::new(&cfg);
    mgr.process_events(&round_gone(), 1000, false);
    assert!(!mgr.was_notified(TriggerKind::RoundGone));
}

#[test]
fn round_gone_fires_after_round_visible() {
    let cfg = test_config_zero();
    let mut mgr = NotificationManager::new(&cfg);
    mgr.process_events(&round_visible(), 1000, false);
    mgr.process_events(&round_gone(), 1000, false);
    assert!(mgr.was_notified(TriggerKind::RoundGone));
}

#[test]
fn round_gone_fires_once_per_round() {
    let cfg = test_config_zero();
    let mut mgr = NotificationManager::new(&cfg);
    mgr.process_events(&round_visible(), 1000, false);
    let first = mgr.process_events(&round_gone(), 1000, false);
    assert_eq!(first.len(), 1);
    assert!(mgr.was_notified(TriggerKind::RoundGone));
    let second = mgr.process_events(&round_gone(), 2000, false);
    assert!(second.is_empty());
    assert!(mgr.was_notified(TriggerKind::RoundGone));
}

#[test]
fn round_visible_resets_for_next_round() {
    let cfg = test_config_zero();
    let mut mgr = NotificationManager::new(&cfg);
    mgr.process_events(&round_visible(), 1000, false);
    mgr.process_events(&round_gone(), 1000, false);
    mgr.process_events(&round_visible(), 2000, false);
    let again = mgr.process_events(&round_gone(), 2000, false);
    assert_eq!(again.len(), 1);
    assert!(mgr.was_notified(TriggerKind::RoundGone));
}

#[test]
fn round_gone_body_names_the_round() {
    let cfg = test_config_zero();
    let mut mgr = NotificationManager::new(&cfg);
    mgr.set_current_round(Some(7));
    mgr.process_events(&round_visible(), 1000, false);
    let n = mgr.process_events(&round_gone(), 1000, false);
    assert_eq!(n[0].title, "ラウンド完了");
    assert_eq!(n[0].body, "ラウンド 07 が完了しました");
    assert!(!n[0].mention);
}

#[test]
fn capture_lost_max_repeat() {
    let cfg = test_config_zero();
    let mut mgr = NotificationManager::new(&cfg);
    for _ in 0..=cfg.notification_max_repeat {
        mgr.notify_capture_lost(1000);
    }
    assert_eq!(mgr.capture_lost_count(), cfg.notification_max_repeat);
    let recovered = mgr.reset_capture_lost();
    assert_eq!(mgr.capture_lost_count(), 0);
    let n = recovered.expect("recovery notice");
    assert_eq!(n.title, "キャプチャ復帰");
    assert_eq!(n.body, "ウィンドウのキャプチャが復帰しました");
    assert!(mgr.reset_capture_lost().is_none());
}

#[test]
fn result_idle_threshold_and_max_repeat() {
    let cfg = MonitorConfig { notify_result_idle_threshold: 5000, ..test_config_zero() };
    let mut mgr = NotificationManager::new(&cfg);
    mgr.notify_result_idle(4000, 10_000, false);
    assert_eq!(mgr.result_idle_count(), 0);
    mgr.notify_result_idle(5000, 10_000, false);
    assert_eq!(mgr.result_idle_count(), 1);
    for _ in 0..cfg.notification_max_repeat {
        mgr.notify_result_idle(5000, 10_000, false);
    }
    assert_eq!(mgr.result_idle_count(), cfg.notification_max_repeat);
}

#[test]
fn result_idle_cooldown_and_reset() {
    let cfg = MonitorConfig { notify_result_idle_threshold: 5000, ..test_config_with_cooldown(60_000) };
    let mut mgr = NotificationManager::new(&cfg);
    assert!(mgr.notify_result_idle(5000, 10_000, false).is_some());
    assert!(mgr.notify_result_idle(9000, 69_999, false).is_none());
    assert!(mgr.notify_result_idle(9000, 70_000, false).is_some());
    mgr.reset_result_idle();
    assert_eq!(mgr.result_idle_count(), 0);
    assert!(mgr.notify_result_idle(5000, 70_001, false).is_some());
}

#[test]
fn roundtrip_levels() {
    let cfg = MonitorConfig {
        roundtrip_green: 60_000,
        roundtrip_yellow: 120_000,
        roundtrip_red: 180_000,
        notify_roundtrip_green: true,
        notify_roundtrip_yellow: true,
        notify_roundtrip_red: true,
        ..test_config_zero()
    };
    let mut mgr = NotificationManager::new(&cfg);
    assert!(mgr.notify_roundtrip(59_999, 1, false).is_none());
    let g = mgr.notify_roundtrip(83_000, 2, false).expect("green");
    assert_eq!(g.title, "RoundTrip: Green");
    assert_eq!(g.body, "完了設定 Green より時間がかかっています。(Elapsed=1m 23s)");
    assert!(!g.mention);
    // Lower levels fire once.
    assert!(mgr.notify_roundtrip(90_000, 3, false).is_none());
    mgr.set_current_round(Some(3));
    let r = mgr.notify_roundtrip(180_000, 4, false).expect("red");
    assert_eq!(r.body, "ラウンド 03 完了設定 Red より時間がかかっています。(Elapsed=3m 00s)");
    assert!(r.mention);
    // The highest level repeats at its own threshold interval.
    assert!(mgr.notify_roundtrip(200_000, 100_000, false).is_none());
    assert!(mgr.notify_roundtrip(360_000, 180_004, false).is_some());
    mgr.reset_roundtrip();
    assert!(mgr.notify_roundtrip(60_000, 180_005, false).is_some());
}

#[test]
fn result_screen_notice() {
    let cfg = test_config_zero();
    let mut mgr = NotificationManager::new(&cfg);
    let n = mgr.notify_result_screen(1000, false).expect("notice");
    assert_eq!(n.title, "依頼完了");
    assert_eq!(n.body, "ラウンドが完了しました (OCR 確認済み)");
    mgr.set_current_round(Some(12));
    let n = mgr.notify_result_screen(2000, false).expect("notice");
    assert_eq!(n.body, "ラウンド 12 が完了しました (OCR 確認済み)");
    let focused = MonitorConfig { suppress_when_game_focused: true, ..test_config_zero() };
    let mut mgr = NotificationManager::new(&focused);
    assert!(mgr.notify_result_screen(1000, true).is_none());
    assert!(mgr.notify_result_screen(1000, false).is_some());
}

#[test]
fn disabled_notifications_are_silent() {
    let cfg = MonitorConfig { notifications_enabled: false, ..test_config_zero() };
    let mut mgr = NotificationManager::new(&cfg);
    assert!(mgr.process_events(&dialog_visible(), 1000, false).is_empty());
    assert!(mgr.notify_capture_lost(1000).is_none());
    assert!(mgr.notify_result_screen(1000, false).is_none());
    assert!(!mgr.is_trigger_enabled(TriggerKind::RoundGone));
}

#[test]
fn dispatch_channels_follow_settings() {
    let both = MonitorConfig {
        desktop_enabled: true,
        discord_enabled: true,
        discord_webhook_url: String::from("https://example.invalid/hook"),
        ..test_config_zero()
    };
    let mut mgr = NotificationManager::new(&both);
    let n = mgr.notify_capture_lost(1).expect("notice");
    assert!(n.toast && n.discord);
    let no_url = MonitorConfig { discord_enabled: true, ..test_config_zero() };
    let n = send_test_notification(&no_url);
    assert!(!n.toast && !n.discord);
    assert_eq!(n.title, "DNA Assistant テスト");
    assert_eq!(n.body, "通知が正常に動作しています");
}

#[test]
fn trigger_config_table() {
    let cfg = MonitorConfig::default();
    let tc = trigger_config(TriggerKind::ResultIdle, &cfg);
    assert_eq!(tc.cooldown, cfg.notification_cooldown);
    assert_eq!(tc.sustain_duration, 0);
    assert_eq!(tc.title, "リザルト放置中");
    let tc = trigger_config(TriggerKind::RoundGone, &cfg);
    assert_eq!(tc.sustain_duration, cfg.notify_round_sustain);
    assert_eq!(tc.cooldown, cfg.notify_round_cooldown);
}

#[test]
fn discord_content_mentions() {
    assert_eq!(discord_content("T", Some("123")), "<@123> **T**");
    assert_eq!(discord_content("T", Some("")), "**T**");
    assert_eq!(discord_content("T", None), "**T**");
}

fn all_roundtrip_levels() -> MonitorConfig {
    MonitorConfig {
        roundtrip_green: 60_000,
        roundtrip_yellow: 120_000,
        roundtrip_red: 180_000,
        notify_roundtrip_green: true,
        notify_roundtrip_yellow: true,
        notify_roundtrip_red: true,
        ..test_config_zero()
    }
}

#[test]
fn roundtrip_lower_levels_notify_once_per_run() {
    let cfg = all_roundtrip_levels();
    let mut mgr = NotificationManager::new(&cfg);
    let mut green = 0;
    let mut yellow = 0;
    for i in 0..20u64 {
        if mgr.notify_roundtrip(70_000, i * 100_000, false).is_some() {
            green += 1;
        }
    }
    for i in 20..40u64 {
        if mgr.notify_roundtrip(130_000, i * 100_000, false).is_some() {
            yellow += 1;
        }
    }
    assert_eq!(green, 1);
    assert_eq!(yellow, 1);
}

#[test]
fn roundtrip_highest_level_repeats_spaced_and_bounded() {
    let cfg = all_roundtrip_levels();
    let mut mgr = NotificationManager::new(&cfg);
    let mut sent: Vec<u64> = Vec::new();
    for i in 0..20u64 {
        let now = i * 90_000;
        if mgr.notify_roundtrip(200_000, now, false).is_some() {
            sent.push(now);
        }
    }
    assert_eq!(sent, vec![0, 180_000, 360_000]);
    assert_eq!(sent.len() as u32, cfg.notification_max_repeat);
    for pair in sent.windows(2) {
        assert!(pair[1] - pair[0] >= cfg.roundtrip_red);
    }
}
