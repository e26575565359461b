use dna_assistant::color::HsvRange;
use dna_assistant::config::{
    AllyHpDetectorConfig, DialogDetectorConfig, GenemonDetectorConfig, ResultScreenRoiConfig,
    RoundDetectorConfig, SkillDetectorConfig,
};
use dna_assistant::detector::ally_hp::AllyHpDetector;
use dna_assistant::detector::dialog::DialogDetector;
use dna_assistant::detector::genemon::GenemonDetector;
use dna_assistant::detector::result::ResultScreenDetector;
use dna_assistant::detector::round::RoundDetector;
use dna_assistant::detector::skill::SkillDetector;
use dna_assistant::detector::Detector;
use dna_assistant::event::DetectionEvent;
use dna_assistant::frame::{Frame, Rgba};
use dna_assistant::ocr::OcrEngine;
use dna_assistant::roi::RoiDefinition;
use dna_assistant::state::DebouncedDetector;

const FULL: RoiDefinition = RoiDefinition { x: 0, y: 0, width: 10000, height: 10000 };

fn fill(frame: &mut Frame, xs: std::ops::Range<u32>, ys: std::ops::Range<u32>, p: [u8; 4]) {
    for y in ys {
        for x in xs.clone() {
            frame.put_pixel(x, y, Rgba(p));
        }
    }
}

fn ratio_f64(count: u64, total: u64) -> f64 {
    count as f64 / total as f64
}

struct StubOcr(String);

impl OcrEngine for StubOcr {
    fn recognize(&self, _image: &Frame) -> Result<String, String> {
        Ok(self.0.clone())
    }
}

struct FailOcr;

impl OcrEngine for FailOcr {
    fn recognize(&self, _image: &Frame) -> Result<String, String> {
        Err(String::from("OCR unavailable"))
    }
}

fn round_config() -> RoundDetectorConfig {
    RoundDetectorConfig {
        roi: FULL,
        text_presence_threshold: 300,
        brightness_min: 140,
        max_chroma: 60,
        text_left_brightness_min: 200,
    }
}

#[test]
fn white_text_detected_as_visible() {
    let mut img = Frame::new(10, 10);
    fill(&mut img, 0..10, 0..2, [200, 200, 200, 255]);
    let events = RoundDetector::new(round_config()).analyze(&img);
    assert_eq!(events.len(), 1);
    assert!(matches!(events[0], DetectionEvent::RoundVisible { .. }));
}

#[test]
fn dark_screen_detected_as_gone() {
    let img = Frame::new(10, 10);
    let events = RoundDetector::new(round_config()).analyze(&img);
    assert_eq!(events.len(), 1);
    assert!(matches!(events[0], DetectionEvent::RoundGone { .. }));
}

#[test]
fn bright_colorful_pixels_not_counted_as_text() {
    let mut img = Frame::new(10, 10);
    fill(&mut img, 0..10, 0..5, [255, 50, 255, 255]);
    let events = RoundDetector::new(round_config()).analyze(&img);
    assert_eq!(events.len(), 1);
    assert!(matches!(events[0], DetectionEvent::RoundGone { .. }));
}

#[test]
fn round_text_ratio_calculation() {
    let mut img = Frame::new(10, 10);
    fill(&mut img, 0..10, 0..3, [180, 180, 180, 255]);
    let ratio = RoundDetector::new(round_config()).text_ratio(&img);
    assert_eq!((ratio.count, ratio.total), (30, 100));
    assert!((ratio_f64(ratio.count, ratio.total) - 0.3).abs() < 0.01);
}

#[test]
fn mixed_text_and_effects_only_counts_text() {
    let mut img = Frame::new(10, 10);
    fill(&mut img, 0..10, 0..1, [210, 210, 210, 255]);
    fill(&mut img, 0..10, 1..4, [255, 160, 30, 255]);
    let ratio = RoundDetector::new(round_config()).text_ratio(&img);
    assert!((ratio_f64(ratio.count, ratio.total) - 0.10).abs() < 0.02);
}

#[test]
fn round_text_without_bright_left_is_gone() {
    // Enough text pixels, but none bright enough in the left quarter.
    let mut img = Frame::new(8, 8);
    fill(&mut img, 4..8, 0..8, [190, 190, 190, 255]);
    let detector = RoundDetector::new(round_config());
    assert!(!detector.has_bright_text_left(&img));
    let events = detector.analyze(&img);
    assert!(matches!(events[0], DetectionEvent::RoundGone { .. }));
}

fn dialog_config() -> DialogDetectorConfig {
    DialogDetectorConfig {
        text_roi: RoiDefinition { x: 0, y: 0, width: 10000, height: 5000 },
        bg_roi: RoiDefinition { x: 0, y: 5000, width: 10000, height: 5000 },
        ocr_roi: FULL,
        text_presence_threshold: 1000,
        bg_dark_threshold: 8500,
        brightness_min: 100,
        max_chroma: 60,
        bg_brightness_max: 25,
    }
}

#[test]
fn dialog_detected_with_white_text_and_dark_bg() {
    let mut img = Frame::new(10, 10);
    fill(&mut img, 0..10, 0..1, [200, 200, 200, 255]);
    let events = DialogDetector::new(dialog_config()).analyze(&img);
    assert_eq!(events.len(), 1);
    assert!(matches!(events[0], DetectionEvent::DialogVisible { .. }));
}

#[test]
fn no_dialog_when_bg_not_dark() {
    let mut img = Frame::new(10, 10);
    fill(&mut img, 0..10, 0..1, [200, 200, 200, 255]);
    fill(&mut img, 0..10, 5..10, [128, 128, 128, 255]);
    let events = DialogDetector::new(dialog_config()).analyze(&img);
    assert_eq!(events.len(), 1);
    assert!(matches!(events[0], DetectionEvent::DialogGone { .. }));
}

#[test]
fn no_dialog_when_no_text() {
    let img = Frame::new(10, 10);
    let events = DialogDetector::new(dialog_config()).analyze(&img);
    assert_eq!(events.len(), 1);
    assert!(matches!(events[0], DetectionEvent::DialogGone { .. }));
}

#[test]
fn colorful_bright_pixels_not_counted_as_text() {
    let mut img = Frame::new(10, 10);
    fill(&mut img, 0..10, 0..5, [255, 50, 255, 255]);
    let events = DialogDetector::new(dialog_config()).analyze(&img);
    assert_eq!(events.len(), 1);
    assert!(matches!(events[0], DetectionEvent::DialogGone { .. }));
}

#[test]
fn dialog_text_ratio_calculation() {
    let mut roi = Frame::new(10, 5);
    fill(&mut roi, 0..10, 0..3, [180, 180, 180, 255]);
    let ratio = DialogDetector::new(dialog_config()).text_ratio(&roi);
    assert_eq!((ratio.count, ratio.total), (30, 50));
    assert!((ratio_f64(ratio.count, ratio.total) - 0.6).abs() < 0.01);
}

#[test]
fn bg_dark_ratio_calculation() {
    let mut roi = Frame::new(10, 5);
    fill(&mut roi, 0..10, 0..4, [10, 10, 10, 255]);
    fill(&mut roi, 0..10, 4..5, [200, 200, 200, 255]);
    let ratio = DialogDetector::new(dialog_config()).bg_dark_ratio(&roi);
    assert_eq!((ratio.count, ratio.total), (40, 50));
    assert!((ratio_f64(ratio.count, ratio.total) - 0.8).abs() < 0.01);
}

fn skill_config() -> SkillDetectorConfig {
    SkillDetectorConfig {
        roi: FULL,
        greyed_max_brightness: 140,
        icon_bright_threshold: 500,
        icon_brightness_min: 120,
    }
}

#[test]
fn bright_icon_detected_as_ready() {
    let mut img = Frame::new(10, 10);
    fill(&mut img, 0..10, 0..3, [220, 220, 220, 255]);
    let events = SkillDetector::new(skill_config()).analyze(&img);
    assert_eq!(events.len(), 1);
    assert!(matches!(events[0], DetectionEvent::SkillReady { .. }));
}

#[test]
fn dark_icon_detected_as_greyed() {
    let mut img = Frame::new(10, 10);
    fill(&mut img, 0..10, 0..10, [30, 30, 30, 255]);
    let events = SkillDetector::new(skill_config()).analyze(&img);
    assert_eq!(events.len(), 1);
    assert!(matches!(events[0], DetectionEvent::SkillGreyed { .. }));
}

#[test]
fn icon_metrics_all_black() {
    let img = Frame::new(10, 10);
    let (ratio, max_br) = SkillDetector::new(skill_config()).icon_metrics(&img);
    assert_eq!(ratio.count, 0);
    assert_eq!(max_br, 0);
}

#[test]
fn icon_metrics_mixed_brightness() {
    let mut img = Frame::new(10, 10);
    fill(&mut img, 0..10, 0..2, [200, 200, 200, 255]);
    let (ratio, max_br) = SkillDetector::new(skill_config()).icon_metrics(&img);
    assert!((ratio_f64(ratio.count, ratio.total) - 0.2).abs() < 0.01);
    assert_eq!(max_br, 200);
}

#[test]
fn greyed_threshold_boundary() {
    let mut img = Frame::new(10, 10);
    fill(&mut img, 0..10, 0..10, [120, 120, 120, 255]);
    let events = SkillDetector::new(skill_config()).analyze(&img);
    assert!(matches!(events[0], DetectionEvent::SkillReady { .. }));
}

fn ally_config() -> AllyHpDetectorConfig {
    AllyHpDetectorConfig {
        roi: FULL,
        hp_color_range: HsvRange { h_min: 8000, h_max: 15000, s_min: 3000, s_max: 10000, v_min: 3000, v_max: 10000 },
        down_threshold: 500,
    }
}

#[test]
fn full_hp_bar_detected_as_normal() {
    let mut img = Frame::new(10, 10);
    fill(&mut img, 0..10, 0..10, [0, 200, 0, 255]);
    let events = AllyHpDetector::new(ally_config(), 0).analyze(&img);
    assert_eq!(events.len(), 1);
    assert!(matches!(events[0], DetectionEvent::AllyHpNormal { ally_index: 0, .. }));
}

#[test]
fn empty_hp_bar_detected_as_low() {
    let img = Frame::new(10, 10);
    let events = AllyHpDetector::new(ally_config(), 2).analyze(&img);
    assert_eq!(events.len(), 1);
    assert!(matches!(events[0], DetectionEvent::AllyHpLow { ally_index: 2, .. }));
}

fn genemon() -> GenemonDetector {
    GenemonDetector::new(GenemonDetectorConfig { quest_roi: FULL })
}

#[test]
fn visible_when_genemon_keyword_found() {
    let events = genemon().analyze(&Frame::new(10, 10), &StubOcr(String::from("ジェネモンを探して解放しよう")));
    assert_eq!(events.len(), 1);
    assert!(matches!(events[0], DetectionEvent::GenemonVisible));
}

#[test]
fn visible_when_liberation_keyword_found() {
    let events = genemon().analyze(&Frame::new(10, 10), &StubOcr(String::from("解放")));
    assert_eq!(events.len(), 1);
    assert!(matches!(events[0], DetectionEvent::GenemonVisible));
}

#[test]
fn gone_when_no_keyword() {
    let events = genemon().analyze(&Frame::new(10, 10), &StubOcr(String::from("クエスト受注中")));
    assert_eq!(events.len(), 1);
    assert!(matches!(events[0], DetectionEvent::GenemonGone));
}

#[test]
fn genemon_gone_when_text_is_empty() {
    let events = genemon().analyze(&Frame::new(10, 10), &StubOcr(String::new()));
    assert_eq!(events.len(), 1);
    assert!(matches!(events[0], DetectionEvent::GenemonGone));
}

#[test]
fn genemon_empty_when_ocr_fails() {
    let events = genemon().analyze(&Frame::new(10, 10), &FailOcr);
    assert!(events.is_empty());
}

fn result_detector() -> ResultScreenDetector {
    ResultScreenDetector::new(ResultScreenRoiConfig { text: FULL })
}

#[test]
fn visible_when_keyword_found() {
    let events = result_detector().analyze(&Frame::new(10, 10), &StubOcr(String::from("依頼終了")));
    assert_eq!(events.len(), 1);
    assert!(matches!(events[0], DetectionEvent::ResultScreenVisible { .. }));
}

#[test]
fn visible_when_keyword_with_surrounding() {
    let events =
        result_detector().analyze(&Frame::new(10, 10), &StubOcr(String::from("リ ト ラ イ Esc 依 頼 終 了")));
    assert_eq!(events.len(), 1);
    assert!(matches!(events[0], DetectionEvent::ResultScreenVisible { .. }));
}

#[test]
fn gone_when_text_does_not_match() {
    let events = result_detector().analyze(&Frame::new(10, 10), &StubOcr(String::from("リトライ")));
    assert_eq!(events.len(), 1);
    assert!(matches!(events[0], DetectionEvent::ResultScreenGone));
}

#[test]
fn result_gone_when_text_is_empty() {
    let events = result_detector().analyze(&Frame::new(10, 10), &StubOcr(String::new()));
    assert_eq!(events.len(), 1);
    assert!(matches!(events[0], DetectionEvent::ResultScreenGone));
}

#[test]
fn result_empty_when_ocr_fails() {
    let events = result_detector().analyze(&Frame::new(10, 10), &FailOcr);
    assert!(events.is_empty());
}

#[test]
fn debounced_detector_suppresses_within_cooldown() {
    let mut d = DebouncedDetector::new(RoundDetector::new(round_config()), 1000);
    let img = Frame::new(10, 10);
    assert_eq!(d.process(&img, 5000).len(), 1);
    assert!(d.process(&img, 5500).is_empty());
    assert_eq!(d.process(&img, 6000).len(), 1);
    d.reset();
    assert_eq!(d.process(&img, 6001).len(), 1);
}

#[test]
fn debounced_detector_lets_other_variant_through() {
    let mut d = DebouncedDetector::new(RoundDetector::new(round_config()), 1000);
    let dark = Frame::new(10, 10);
    let mut text = Frame::new(10, 10);
    fill(&mut text, 0..10, 0..2, [220, 220, 220, 255]);
    let first = d.process(&dark, 5000);
    assert!(matches!(first[0], DetectionEvent::RoundGone { .. }));
    // A different variant inside the cooldown passes.
    let second = d.process(&text, 5500);
    assert_eq!(second.len(), 1);
    assert!(matches!(second[0], DetectionEvent::RoundVisible { .. }));
    // The first variant is still cooling down.
    assert!(d.process(&dark, 5600).is_empty());
    assert!(d.process(&text, 6000).is_empty());
    assert_eq!(d.process(&dark, 6000).len(), 1);
}

#[test]
fn round_end_text_is_not_result_screen() {
    let events = result_detector().analyze(&Frame::new(10, 10), &StubOcr(String::from("ラウンド終了")));
    assert_eq!(events.len(), 1);
    assert!(matches!(events[0], DetectionEvent::ResultScreenGone));
}

/// An engine that records the size and bytes of every image it is given.
struct RecordingOcr {
    answer: String,
    seen: std::cell::RefCell<Vec<(u32, u32, Vec<u8>)>>,
}

impl OcrEngine for RecordingOcr {
    fn recognize(&self, image: &Frame) -> Result<String, String> {
        self.seen.borrow_mut().push((image.width(), image.height(), image.to_raw()));
        Ok(self.answer.clone())
    }
}

#[test]
fn result_screen_engine_gets_the_cropped_text_region() {
    let config = ResultScreenRoiConfig::default();
    let detector = ResultScreenDetector::new(ResultScreenRoiConfig::default());
    let frame = Frame::from_raw(200, 100, &vec![77u8; 200 * 100 * 4]).expect("frame");
    let engine = RecordingOcr { answer: String::from("依頼終了"), seen: Default::default() };
    let events = detector.analyze(&frame, &engine);
    let seen = engine.seen.borrow();
    assert_eq!(seen.len(), 1);
    let rect = config.text.to_pixels(200, 100);
    assert_eq!((seen[0].0, seen[0].1), (rect.w, rect.h));
    // The crop is handed over as it is, without binarising.
    assert!(seen[0].2.iter().all(|&b| b == 77));
    assert!(matches!(events[0], DetectionEvent::ResultScreenVisible { .. }));
}
