use dna_assistant::color::PixelRatio;
use dna_assistant::config::{DetectionConfig, RoundNumberRoiConfig};
use dna_assistant::event::DetectionEvent;
use dna_assistant::frame::Frame;
use dna_assistant::monitor::calendar::{chrono_filename, days_to_ymd};
use dna_assistant::monitor::config::MonitorConfig;
use dna_assistant::monitor::ocr_steps::{
    apply_dialog_ocr, apply_round_ocr, has_round_text, has_tips_title, round_select_event, run_ocr,
    run_round_number_ocr,
};
use dna_assistant::monitor::rounds::{
    check_resolution, event_description, format_elapsed, majority_vote, resolve_round_number,
};
use dna_assistant::monitor::session::{CaptureInfo, MonitorSession, MonitoringState};
use dna_assistant::monitor::transition::{categorize, event_kind_name, DetectorCategory, TransitionFilter};
use dna_assistant::ocr::OcrEngine;

const R: PixelRatio = PixelRatio { count: 1, total: 2 };

fn round_visible() -> DetectionEvent {
    DetectionEvent::RoundVisible { text_present: true, white_ratio: R, round_number: None }
}

fn round_gone() -> DetectionEvent {
    DetectionEvent::RoundGone { white_ratio: R }
}

fn select(done: u32) -> DetectionEvent {
    DetectionEvent::RoundSelectScreen { next_round: Some(done + 1), completed_round: Some(done) }
}

#[test]
fn majority_vote_cases() {
    assert_eq!(majority_vote(&vec![], 6000), None);
    assert_eq!(majority_vote(&vec![5, 5, 5, 4], 6000), Some(5));
    assert_eq!(majority_vote(&vec![5, 4, 3], 6000), None);
    assert_eq!(majority_vote(&vec![5, 4, 3], 3000), Some(3));
    assert_eq!(majority_vote(&vec![4, 5, 4, 5], 5000), Some(5));
    assert_eq!(majority_vote(&vec![7], 10000), Some(7));
}

#[test]
fn resolve_round_number_cases() {
    assert_eq!(resolve_round_number(Some(5), None, &vec![]), Some(5));
    assert_eq!(resolve_round_number(Some(5), Some(5), &vec![]), Some(5));
    assert_eq!(resolve_round_number(Some(8), Some(5), &vec![3, 4]), Some(5));
    assert_eq!(resolve_round_number(None, Some(5), &vec![4, 5, 6]), Some(7));
    assert_eq!(resolve_round_number(None, Some(5), &vec![4, 6]), None);
    assert_eq!(resolve_round_number(None, None, &vec![6]), None);
    assert_eq!(resolve_round_number(None, None, &vec![98, 99]), None);
}

#[test]
fn check_resolution_messages() {
    assert_eq!(
        check_resolution(1282, 752),
        Some(String::from("Resolution 1282x752 is below recommended (1600x900+). OCR accuracy may be degraded."))
    );
    assert_eq!(check_resolution(1602, 932), None);
    assert_eq!(check_resolution(1922, 1112), None);
    assert_eq!(
        check_resolution(1920, 1080),
        Some(String::from("Resolution 1920x1080 has not been tested. Detection may be inaccurate."))
    );
}

#[test]
fn format_elapsed_cases() {
    assert_eq!(format_elapsed(0), "0s");
    assert_eq!(format_elapsed(59_999), "59s");
    assert_eq!(format_elapsed(83_500), "1m 23s");
    assert_eq!(format_elapsed(605_000), "10m 05s");
}

#[test]
fn event_names_and_descriptions() {
    assert_eq!(event_kind_name(&round_visible()), "RoundVisible");
    assert_eq!(event_description(&round_visible()), "ラウンド進行中");
    assert_eq!(event_description(&round_gone()), "ラウンド完了");
    assert_eq!(event_description(&DetectionEvent::ResultScreenGone), "リザルト終了");
    assert_eq!(event_description(&select(3)), "");
    assert_eq!(categorize(&select(3)), DetectorCategory::RoundNumber);
}

#[test]
fn calendar_dates() {
    assert_eq!(days_to_ymd(0), (1970, 1, 1));
    assert_eq!(days_to_ymd(11_017), (2000, 3, 1));
    assert_eq!(days_to_ymd(11_016), (2000, 2, 29));
    assert_eq!(days_to_ymd(10_957), (2000, 1, 1));
    assert_eq!(days_to_ymd(20_541), (2026, 3, 29));
    assert_eq!(chrono_filename(1_774_805_522_123), "20260329_173202_123");
    assert_eq!(chrono_filename(0), "19700101_000000_000");
}

#[test]
fn transition_filter_needs_full_window() {
    let mut f = TransitionFilter::new(3, 6000);
    assert!(!f.is_transition(&round_visible()));
    assert!(!f.is_transition(&round_visible()));
    assert!(f.is_transition(&round_visible()));
    assert!(!f.is_transition(&round_visible()));
    // One noisy frame does not flip the state.
    assert!(!f.is_transition(&round_gone()));
    assert!(f.is_transition(&round_gone()));
    assert!(!f.is_transition(&select(2)));
    assert!(f.has_pending_transition(&vec![round_visible()]));
    assert!(!f.has_pending_transition(&vec![round_gone()]));
}

struct StubOcr(String);

impl OcrEngine for StubOcr {
    fn recognize(&self, _image: &Frame) -> Result<String, String> {
        Ok(self.0.clone())
    }
}

struct FailOcr;

impl OcrEngine for FailOcr {
    fn recognize(&self, _image: &Frame) -> Result<String, String> {
        Err(String::from("no engine"))
    }
}

#[test]
fn round_ocr_confirms_or_rejects() {
    assert!(has_round_text("0 3 ラ ウ ン ド"));
    assert!(!has_round_text("damage"));
    let mut events = vec![round_visible(), DetectionEvent::GenemonGone];
    apply_round_ocr(&mut events, "12 ラウンド");
    assert!(matches!(events[0], DetectionEvent::RoundVisible { round_number: Some(12), .. }));
    assert!(matches!(events[1], DetectionEvent::GenemonGone));
    let mut events = vec![round_visible()];
    apply_round_ocr(&mut events, "HP 100");
    assert!(matches!(events[0], DetectionEvent::RoundGone { .. }));
}

#[test]
fn dialog_ocr_requires_tips() {
    assert!(has_tips_title("T i p s"));
    let mut events = vec![DetectionEvent::DialogVisible { text_ratio: R, bg_dark_ratio: R }];
    apply_dialog_ocr(&mut events, "tips");
    assert!(matches!(events[0], DetectionEvent::DialogVisible { .. }));
    apply_dialog_ocr(&mut events, "ok");
    assert!(matches!(events[0], DetectionEvent::DialogGone { .. }));
}

#[test]
fn run_ocr_uses_engine_text() {
    let frame = Frame::new(100, 100);
    let config = DetectionConfig::default();
    let mut events = vec![round_visible()];
    run_ocr(&StubOcr(String::from("05 ラウンド")), &frame, &mut events, &config);
    assert!(matches!(events[0], DetectionEvent::RoundVisible { round_number: Some(5), .. }));
    let mut events = vec![round_visible()];
    run_ocr(&FailOcr, &frame, &mut events, &config);
    assert!(matches!(events[0], DetectionEvent::RoundVisible { round_number: None, .. }));
}

#[test]
fn round_select_event_cases() {
    let e = round_select_event("自動周回中（4/9）", Some(String::from("05 ラウンド")), None);
    assert!(matches!(e, Some(DetectionEvent::RoundSelectScreen { next_round: Some(5), completed_round: Some(4) })));
    let e = round_select_event("自動周回中", Some(String::from("05 ラウンド")), Some(String::from("03 ラウンド")));
    assert!(matches!(e, Some(DetectionEvent::RoundSelectScreen { next_round: Some(5), completed_round: Some(3) })));
    assert!(round_select_event("ラウンド終了", Some(String::from("05 ラウンド")), None).is_none());
    assert!(round_select_event("自動周回中", None, None).is_none());
    let frame = Frame::new(100, 100);
    let mut events = Vec::new();
    run_round_number_ocr(&StubOcr(String::from("自動周回中（2/5）")), &frame, &mut events, &RoundNumberRoiConfig::default());
    assert!(matches!(events[0], DetectionEvent::RoundSelectScreen { next_round: None, completed_round: Some(2) }));
}

fn session_config() -> MonitorConfig {
    MonitorConfig {
        capture_interval: 1000,
        confirmation_window: 1000,
        confirmation_ratio: 6000,
        notifications_enabled: false,
        ..Default::default()
    }
}

#[test]
fn session_round_cycle() {
    let mut s = MonitorSession::new(&session_config());
    let r = s.finish_frame(vec![round_visible()], 10_000, false);
    assert_eq!(r.payloads.len(), 1);
    assert_eq!(r.payloads[0].kind, "RoundVisible");
    assert_eq!(r.payloads[0].detail, "ラウンド進行中");
    assert!(!s.result_scanning());
    // Votes from the round selection screen settle the completed round.
    let r = s.finish_frame(vec![select(4)], 20_000, false);
    assert!(r.payloads.is_empty());
    let r = s.finish_frame(vec![round_gone(), select(4)], 95_000, false);
    assert_eq!(r.payloads.len(), 1);
    let p = &r.payloads[0];
    assert_eq!(p.kind, "RoundGone");
    assert_eq!(p.round_number, Some(4));
    assert_eq!(p.elapsed.as_deref(), Some("1m 25s"));
    assert_eq!(p.elapsed_ms, None);
    assert_eq!(s.current_round(), Some(5));
    assert!(s.result_scanning());
    // The result screen ends the quest.
    let mut raw = Vec::new();
    s.absorb_result_events(vec![DetectionEvent::ResultScreenVisible { text: String::from("依頼終了") }], &mut raw);
    let r = s.finish_frame(raw, 125_000, false);
    assert_eq!(r.payloads.len(), 1);
    assert_eq!(r.payloads[0].kind, "ResultScreenVisible");
    assert_eq!(r.payloads[0].elapsed.as_deref(), Some("30s"));
    assert_eq!(r.payloads[0].elapsed_ms, Some(30_000));
    assert_eq!(r.payloads[0].round_number, None);
    assert_eq!(s.current_round(), None);
}

#[test]
fn unconfirmed_result_gone_is_dropped() {
    let mut s = MonitorSession::new(&session_config());
    let mut raw = Vec::new();
    s.absorb_result_events(vec![DetectionEvent::ResultScreenGone], &mut raw);
    assert!(raw.is_empty());
    s.absorb_result_events(
        vec![DetectionEvent::ResultScreenVisible { text: String::new() }, DetectionEvent::ResultScreenGone],
        &mut raw,
    );
    assert_eq!(raw.len(), 2);
}

#[test]
fn capture_failures_and_recovery() {
    let cfg = MonitorConfig {
        max_capture_retries: 3,
        notify_capture_lost_sustain: 2000,
        notification_cooldown: 0,
        notifications_enabled: true,
        notify_capture_lost_enabled: true,
        ..session_config()
    };
    let mut s = MonitorSession::new(&cfg);
    // Before any success, failures are counted but not notified.
    let (research, notice) = s.on_capture_failed(1000);
    assert!(!research && notice.is_none());
    assert!(s.on_capture_ok().is_none());
    let (_, n1) = s.on_capture_failed(2000);
    assert!(n1.is_none());
    let (_, n2) = s.on_capture_failed(4000);
    assert_eq!(n2.expect("lost").title, "キャプチャ停止");
    let (research, _) = s.on_capture_failed(4500);
    assert!(research);
    let back = s.on_capture_ok().expect("recovered");
    assert_eq!(back.title, "キャプチャ復帰");
    s.on_window_found();
}

#[test]
fn resolution_warning_changes_once() {
    let mut s = MonitorSession::new(&session_config());
    assert!(s.resolution_changed(1280, 720));
    assert!(!s.resolution_changed(1280, 720));
    assert!(s.resolution_changed(1602, 932));
    assert!(s.resolution_warning().is_none());
}

#[test]
fn capture_info_keeps_first_names() {
    let mut info = CaptureInfo::empty();
    let src = CaptureInfo { window_name: String::from("DNA"), width: 0, height: 0, backend: String::from("WGC") };
    info.record_frame(&src, 1600, 900);
    assert_eq!((info.width, info.height), (1600, 900));
    let other = CaptureInfo { window_name: String::from("X"), width: 0, height: 0, backend: String::from("PrintWindow") };
    info.record_frame(&other, 800, 600);
    assert_eq!(info.window_name, "DNA");
    assert_eq!(info.backend, "WGC");
    assert_eq!(info.width, 800);
    assert!(MonitoringState::Idle != MonitoringState::Capturing);
}

#[test]
fn calendar_consecutive_days_follow_the_calendar() {
    assert_eq!(days_to_ymd(30), (1970, 1, 31));
    assert_eq!(days_to_ymd(31), (1970, 2, 1));
    assert_eq!(days_to_ymd(10_956), (1999, 12, 31));
    assert_eq!(days_to_ymd(10_957), (2000, 1, 1));
    assert_eq!(days_to_ymd(11_015), (2000, 2, 28));
    assert_eq!(days_to_ymd(11_016), (2000, 2, 29));
    assert_eq!(days_to_ymd(19_477), (2023, 4, 30));
    assert_eq!(days_to_ymd(19_478), (2023, 5, 1));
    assert_eq!(days_to_ymd(19_782), (2024, 2, 29));
    assert_eq!(days_to_ymd(19_783), (2024, 3, 1));
    // 2100 is not a leap year.
    assert_eq!(days_to_ymd(47_540), (2100, 2, 28));
    assert_eq!(days_to_ymd(47_541), (2100, 3, 1));
}

#[test]
fn run_ocr_skips_regions_outside_the_frame() {
    // On a 2x2 frame the round and dialog regions are empty, so nothing is
    // read and the pixel results stand, whatever the engine would answer.
    let frame = Frame::new(2, 2);
    let config = DetectionConfig::default();
    let dialog = DetectionEvent::DialogVisible { text_ratio: R, bg_dark_ratio: R };
    let mut events = vec![round_visible(), dialog];
    run_ocr(&StubOcr(String::new()), &frame, &mut events, &config);
    assert!(matches!(events[0], DetectionEvent::RoundVisible { round_number: None, .. }));
    assert!(matches!(events[1], DetectionEvent::DialogVisible { .. }));
    // On a full-size frame the same answer rejects both detections.
    let frame = Frame::new(100, 100);
    let mut events = vec![round_visible(), DetectionEvent::DialogVisible { text_ratio: R, bg_dark_ratio: R }];
    run_ocr(&StubOcr(String::new()), &frame, &mut events, &config);
    assert!(matches!(events[0], DetectionEvent::RoundGone { .. }));
    assert!(matches!(events[1], DetectionEvent::DialogGone { .. }));
}

/// An engine that records the size and bytes of every image it is given.
struct RecordingOcr {
    answer: String,
    seen: std::cell::RefCell<Vec<(u32, u32, Vec<u8>)>>,
}

impl OcrEngine for RecordingOcr {
    fn recognize(&self, image: &Frame) -> Result<String, String> {
        self.seen.borrow_mut().push((image.width(), image.height(), image.to_raw()));
        Ok(self.answer.clone())
    }
}

fn grey_frame(w: u32, h: u32, level: u8) -> Frame {
    Frame::from_raw(w, h, &vec![level; (w * h * 4) as usize]).expect("frame")
}

#[test]
fn run_ocr_hands_the_engine_the_binarised_regions() {
    let config = DetectionConfig::default();
    let frame = grey_frame(200, 200, 200);
    let engine = RecordingOcr { answer: String::from("07 ラウンド"), seen: Default::default() };
    let mut events = vec![round_visible()];
    run_ocr(&engine, &frame, &mut events, &config);
    let seen = engine.seen.borrow();
    assert_eq!(seen.len(), 1);
    let rect = config.round.roi.to_pixels(200, 200);
    assert_eq!((seen[0].0, seen[0].1), (rect.w, rect.h));
    // Brightness 200 is above the threshold: every channel becomes 255.
    assert!(seen[0].2.iter().all(|&b| b == 255));
    assert!(matches!(events[0], DetectionEvent::RoundVisible { round_number: Some(7), .. }));

    let dark = grey_frame(200, 200, 100);
    let engine = RecordingOcr { answer: String::from("Tips"), seen: Default::default() };
    let mut events = vec![DetectionEvent::DialogVisible { text_ratio: R, bg_dark_ratio: R }];
    run_ocr(&engine, &dark, &mut events, &config);
    let seen = engine.seen.borrow();
    assert_eq!(seen.len(), 1);
    let rect = config.dialog.ocr_roi.to_pixels(200, 200);
    assert_eq!((seen[0].0, seen[0].1), (rect.w, rect.h));
    // Brightness 100 is below the threshold: black with an opaque alpha.
    assert!(seen[0].2.chunks(4).all(|p| p == [0, 0, 0, 255]));
}

#[test]
fn round_number_ocr_hands_the_engine_the_binarised_header() {
    let rois = RoundNumberRoiConfig::default();
    let frame = grey_frame(200, 200, 200);
    let engine = RecordingOcr { answer: String::from("ラウンド終了"), seen: Default::default() };
    let mut events = Vec::new();
    run_round_number_ocr(&engine, &frame, &mut events, &rois);
    let seen = engine.seen.borrow();
    assert_eq!(seen.len(), 1);
    let rect = rois.select_header.to_pixels(200, 200);
    assert_eq!((seen[0].0, seen[0].1), (rect.w, rect.h));
    assert!(seen[0].2.iter().all(|&b| b == 255));
    assert!(events.is_empty());
}
