use dna_assistant::event::DetectionEvent;
use dna_assistant::frame::{Frame, Rgba};
use dna_assistant::imaging::{attachable_png, preview_base64, capture_preview, debug_frame_name, debug_frame_png, fit_width_exec, screenshot_png};
use dna_assistant::monitor::session::CaptureInfo;

fn decode(png: &[u8]) -> image::RgbaImage {
    image::load_from_memory(png).expect("valid png").to_rgba8()
}

#[test]
fn preview_of_small_frame_keeps_pixels() {
    let mut frame = Frame::new(3, 2);
    frame.put_pixel(1, 1, Rgba([10, 20, 30, 255]));
    let preview = capture_preview(Some(&frame), CaptureInfo::empty());
    let text = preview.image_base64.expect("preview");
    let png = base64::Engine::decode(&base64::engine::general_purpose::STANDARD, text).expect("base64");
    assert_eq!(&png[1..4], b"PNG");
    let img = decode(&png);
    assert_eq!(img.dimensions(), (3, 2));
    assert_eq!(img.get_pixel(1, 1).0, [10, 20, 30, 255]);
    assert_eq!(img.get_pixel(0, 0).0, [0, 0, 0, 0]);
}

#[test]
fn preview_without_frame_is_empty() {
    let info = CaptureInfo { window_name: String::from("DNA"), width: 4, height: 3, backend: String::from("WGC") };
    let preview = capture_preview(None, info);
    assert!(preview.image_base64.is_none());
    assert_eq!(preview.info.window_name, "DNA");
}

#[test]
fn wide_preview_is_scaled_to_640() {
    let frame = Frame::new(1280, 10);
    let preview = capture_preview(Some(&frame), CaptureInfo::empty());
    let png = base64::Engine::decode(&base64::engine::general_purpose::STANDARD, preview.image_base64.unwrap()).unwrap();
    assert_eq!(decode(&png).dimensions(), (640, 5));
}

#[test]
fn screenshot_is_scaled_to_1920() {
    let frame = Frame::new(2000, 10);
    let png = screenshot_png(&frame).expect("png");
    assert_eq!(decode(&png).dimensions(), (1920, 9));
}

#[test]
fn debug_frame_is_scaled_to_960() {
    let frame = Frame::new(1000, 100);
    let png = debug_frame_png(&frame).expect("png");
    assert_eq!(decode(&png).dimensions(), (960, 96));
    let small = Frame::new(10, 10);
    assert_eq!(decode(&debug_frame_png(&small).unwrap()).dimensions(), (10, 10));
}

#[test]
fn fit_width_rounds_down() {
    assert_eq!(fit_width_exec(1922, 1112, 640), (640, 370));
    assert_eq!(fit_width_exec(600, 400, 640), (600, 400));
}

#[test]
fn debug_frame_names() {
    let events = vec![DetectionEvent::RoundGone { white_ratio: dna_assistant::color::PixelRatio { count: 0, total: 1 } }, DetectionEvent::GenemonVisible];
    assert_eq!(debug_frame_name(1_774_805_522_123, &events), "20260329_173202_123_RoundGone_GenemonVisible.png");
    assert_eq!(debug_frame_name(0, &vec![]), "19700101_000000_000_.png");
}

#[test]
fn attachment_size_limit() {
    assert_eq!(attachable_png(vec![1, 2, 3]), Some(vec![1, 2, 3]));
    assert_eq!(attachable_png(vec![0; 6 * 1024 * 1024]).map(|v| v.len()), Some(6 * 1024 * 1024));
    assert_eq!(attachable_png(vec![0; 6 * 1024 * 1024 + 1]), None);
    assert_eq!(preview_base64(&vec![]), Some(String::new()));
    assert_eq!(preview_base64(&b"hello".to_vec()), Some(String::from("aGVsbG8=")));
    assert_eq!(preview_base64(&vec![0xfb, 0xff]), Some(String::from("+/8=")));
}
