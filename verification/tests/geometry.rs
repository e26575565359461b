use dna_assistant::capture::{bgra_to_rgba, binarize_white_text, rgba_to_bgra, CaptureBackend};
use dna_assistant::color::{pixel_matches_hsv_range, rgb_to_hsv, text_pixel_ratio, HsvRange};
use dna_assistant::config::{DetectionConfig, ResultScreenRoiConfig, RoundNumberRoiConfig};
use dna_assistant::frame::{Frame, Rgba};
use dna_assistant::roi::RoiDefinition;
use dna_assistant::titlebar::{crop_titlebar, detect_titlebar_height};

fn fill(frame: &mut Frame, xs: std::ops::Range<u32>, ys: std::ops::Range<u32>, p: [u8; 4]) {
    for y in ys {
        for x in xs.clone() {
            frame.put_pixel(x, y, Rgba(p));
        }
    }
}

fn hue(r: u8, g: u8, b: u8) -> f64 {
    let h = rgb_to_hsv(r, g, b);
    h.h_num as f64 / h.h_den as f64
}

fn sat(r: u8, g: u8, b: u8) -> f64 {
    let h = rgb_to_hsv(r, g, b);
    h.s_num as f64 / h.s_den as f64
}

fn val(r: u8, g: u8, b: u8) -> f64 {
    let h = rgb_to_hsv(r, g, b);
    h.v_num as f64 / h.v_den as f64
}

#[test]
fn pure_red() {
    assert!((hue(255, 0, 0) - 0.0).abs() < 1.0);
    assert!((sat(255, 0, 0) - 1.0).abs() < 0.01);
    assert!((val(255, 0, 0) - 1.0).abs() < 0.01);
}

#[test]
fn pure_green() {
    assert!((hue(0, 255, 0) - 120.0).abs() < 1.0);
    assert!((sat(0, 255, 0) - 1.0).abs() < 0.01);
    assert!((val(0, 255, 0) - 1.0).abs() < 0.01);
}

#[test]
fn pure_blue() {
    assert!((hue(0, 0, 255) - 240.0).abs() < 1.0);
    assert!((sat(0, 0, 255) - 1.0).abs() < 0.01);
    assert!((val(0, 0, 255) - 1.0).abs() < 0.01);
}

#[test]
fn white_has_zero_saturation() {
    assert!(sat(255, 255, 255) < 0.01);
    assert!((val(255, 255, 255) - 1.0).abs() < 0.01);
}

#[test]
fn black_has_zero_value() {
    assert!(val(0, 0, 0) < 0.01);
}

#[test]
fn hue_of_magenta_wraps() {
    // 60 * (G - B) / delta + 360 for red-dominant colours with B > G.
    assert!((hue(255, 0, 255) - 300.0).abs() < 1e-9);
}

fn gold_range() -> HsvRange {
    HsvRange { h_min: 3000, h_max: 5000, s_min: 4000, s_max: 10000, v_min: 6000, v_max: 10000 }
}

#[test]
fn gold_color_matches_range() {
    let pixel: [u8; 4] = [218, 165, 32, 255];
    assert!(pixel_matches_hsv_range(&pixel, &gold_range()));
}

#[test]
fn blue_does_not_match_gold_range() {
    let pixel: [u8; 4] = [0, 0, 255, 255];
    assert!(!pixel_matches_hsv_range(&pixel, &gold_range()));
}

#[test]
fn text_pixel_ratio_counts_neutral_bright_pixels() {
    let mut img = Frame::new(4, 5);
    fill(&mut img, 0..4, 0..1, [200, 200, 200, 255]);
    fill(&mut img, 0..4, 1..2, [255, 40, 40, 255]);
    let r = text_pixel_ratio(&img, 140, 60);
    assert_eq!((r.count, r.total), (4, 20));
    assert!(r.at_least(2000));
    assert!(!r.at_least(2001));
}

#[test]
fn to_pixels_scales_correctly() {
    let roi = RoiDefinition { x: 1000, y: 2000, width: 5000, height: 3000 };
    let rect = roi.to_pixels(1920, 1080);
    assert_eq!(rect.x, 192);
    assert_eq!(rect.y, 216);
    assert_eq!(rect.w, 960);
    assert_eq!(rect.h, 324);
}

#[test]
fn crop_returns_correct_size() {
    let frame = Frame::new(100, 100);
    let roi = RoiDefinition { x: 1000, y: 1000, width: 5000, height: 5000 };
    let cropped = roi.crop(&frame).expect("crop should succeed");
    assert_eq!(cropped.width(), 50);
    assert_eq!(cropped.height(), 50);
}

#[test]
fn crop_out_of_bounds_returns_none() {
    let frame = Frame::new(100, 100);
    let roi = RoiDefinition { x: 8000, y: 8000, width: 5000, height: 5000 };
    assert!(roi.crop(&frame).is_none());
}

#[test]
fn crop_zero_size_returns_none() {
    let frame = Frame::new(100, 100);
    let roi = RoiDefinition { x: 5000, y: 5000, width: 0, height: 0 };
    assert!(roi.crop(&frame).is_none());
}

#[test]
fn crop_copies_the_region_pixels() {
    let mut frame = Frame::new(10, 10);
    frame.put_pixel(3, 4, Rgba([1, 2, 3, 4]));
    let roi = RoiDefinition { x: 3000, y: 4000, width: 2000, height: 2000 };
    let cropped = roi.crop(&frame).expect("crop");
    assert_eq!(cropped.get_pixel(0, 0), Rgba([1, 2, 3, 4]));
    assert_eq!(cropped.get_pixel(1, 1), Rgba([0, 0, 0, 0]));
}

fn within(r: &RoiDefinition) -> bool {
    r.x + r.width <= 10000 && r.y + r.height <= 10000
}

#[test]
fn default_config_has_valid_roi_ranges() {
    let config = DetectionConfig::default();
    assert!(within(&config.round.roi));
    assert!(within(&config.dialog.text_roi));
    assert!(within(&config.dialog.bg_roi));
    assert!(within(&config.dialog.ocr_roi));
    assert!(config.round.text_presence_threshold > 0);
    assert!(config.dialog.text_presence_threshold > 0);
    assert!(config.dialog.bg_dark_threshold > 0);
}

#[test]
fn round_number_roi_config_has_valid_ranges() {
    let config = RoundNumberRoiConfig::default();
    assert!(within(&config.select_header));
    assert!(within(&config.select_next_round));
    assert!(within(&config.select_completed_round));
    assert_eq!(config, RoundNumberRoiConfig::const_default());
}

#[test]
fn result_screen_roi_config_has_valid_ranges() {
    let config = ResultScreenRoiConfig::default();
    assert!(within(&config.text));
    assert_eq!(config, ResultScreenRoiConfig::const_default());
}

#[test]
fn no_titlebar_on_dark_frame() {
    let img = Frame::new(100, 100);
    assert_eq!(detect_titlebar_height(&img), 0);
}

#[test]
fn detects_bright_uniform_top_band() {
    let mut img = Frame::new(300, 100);
    fill(&mut img, 0..300, 0..30, [220, 220, 220, 255]);
    assert_eq!(detect_titlebar_height(&img), 30);
}

#[test]
fn ignores_bright_band_not_at_top() {
    let mut img = Frame::new(300, 100);
    fill(&mut img, 0..300, 20..40, [220, 220, 220, 255]);
    assert_eq!(detect_titlebar_height(&img), 0);
}

#[test]
fn allows_dark_border_pixel_at_row_0() {
    let mut img = Frame::new(300, 100);
    fill(&mut img, 0..300, 1..31, [230, 230, 230, 255]);
    assert_eq!(detect_titlebar_height(&img), 31);
}

#[test]
fn non_uniform_bright_row_not_titlebar() {
    let mut img = Frame::new(300, 100);
    fill(&mut img, 0..100, 0..30, [255, 255, 255, 255]);
    assert_eq!(detect_titlebar_height(&img), 0);
}

#[test]
fn crop_titlebar_returns_game_area() {
    let mut img = Frame::new(200, 100);
    fill(&mut img, 0..200, 0..30, [220, 220, 220, 255]);
    let game = crop_titlebar(&img);
    assert_eq!(game.width(), 200);
    assert_eq!(game.height(), 70);
}

#[test]
fn crop_titlebar_noop_when_no_titlebar() {
    let img = Frame::new(200, 100);
    let game = crop_titlebar(&img);
    assert_eq!(game.width(), 200);
    assert_eq!(game.height(), 100);
}

#[test]
fn channel_swap_round_trip() {
    let rgba = vec![1u8, 2, 3, 4, 5, 6, 7, 8, 9];
    let bgra = rgba_to_bgra(&rgba);
    assert_eq!(bgra, vec![3, 2, 1, 4, 7, 6, 5, 8, 9]);
    assert_eq!(bgra_to_rgba(&bgra), rgba);
}

#[test]
fn binarize_splits_at_threshold() {
    let mut img = Frame::new(2, 1);
    img.put_pixel(0, 0, Rgba([140, 140, 140, 7]));
    img.put_pixel(1, 0, Rgba([139, 140, 140, 7]));
    let out = binarize_white_text(&img, 140);
    assert_eq!(out.get_pixel(0, 0), Rgba([255, 255, 255, 255]));
    assert_eq!(out.get_pixel(1, 0), Rgba([0, 0, 0, 255]));
}

#[test]
fn capture_backends_differ() {
    assert!(CaptureBackend::WindowsGraphicsCapture != CaptureBackend::PrintWindow);
}
