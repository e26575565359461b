//! Images for people: the detection page preview, the Discord screenshot and
//! the debug frames. Resampling and PNG encoding are done by the `image`
//! crate, base64 by the `base64` crate.
use vstd::prelude::*;

use crate::event::DetectionEvent;
use crate::frame::{Frame, FrameView};
use crate::monitor::calendar::{chrono_filename, timestamp_text};
use crate::monitor::session::CaptureInfo;
use crate::monitor::transition::{event_kind_name, kind_name, spec_kind};
use crate::text::{push_str, owned};

verus! {

/// Resampling filter.
#[derive(Debug, Clone, Copy, PartialEq, Eq, Structural)]
pub enum ResizeFilter {
    /// Nearest neighbour.
    Nearest,
    /// Linear (triangle) filter.
    Triangle,
}

/// The RGBA bytes of a `w` x `h` image with RGBA bytes `raw`, resampled by
/// `image::imageops::resize` to `new_w` x `new_h` with `filter`.
pub uninterp spec fn resized_rgba(w: u32, h: u32, raw: Seq<u8>, new_w: u32, new_h: u32, filter: ResizeFilter) -> Seq<u8>;

/// The PNG file that `image` writes for a `w` x `h` RGBA image with bytes
/// `raw`; none when encoding fails.
pub uninterp spec fn png_encoding(w: u32, h: u32, raw: Seq<u8>) -> Option<Seq<u8>>;

/// The bytes of an optional byte vector.
pub open spec fn opt_bytes(o: Option<Vec<u8>>) -> Option<Seq<u8>> {
    match o {
        Some(v) => Some(v@),
        None => None,
    }
}

/// `image::imageops::resize` on an RGBA image given by its bytes. The result
/// always has `new_w` x `new_h` pixels: the source shows an image buffer of
/// that size created in every branch.
#[verifier::external_body]
fn resize_rgba(w: u32, h: u32, raw: &Vec<u8>, new_w: u32, new_h: u32, filter: ResizeFilter) -> (out: Vec<u8>)
    requires
        raw@.len() == 4 * w * h,
        4 * new_w * new_h <= usize::MAX,
    ensures
        out@ == resized_rgba(w, h, raw@, new_w, new_h, filter),
        out@.len() == 4 * new_w * new_h,
{
    let img: image::RgbaImage = match image::ImageBuffer::from_raw(w, h, raw.clone()) {
        Some(i) => i,
        None => return Vec::new(),
    };
    let f = match filter {
        ResizeFilter::Nearest => image::imageops::FilterType::Nearest,
        ResizeFilter::Triangle => image::imageops::FilterType::Triangle,
    };
    image::imageops::resize(&img, new_w, new_h, f).into_raw()
}

/// `ImageBuffer::write_to` in PNG format on an RGBA image given by its
/// bytes: the encoded file, or none when the encoder reports an error.
#[verifier::external_body]
fn encode_png(w: u32, h: u32, raw: &Vec<u8>) -> (out: Option<Vec<u8>>)
    requires
        raw@.len() == 4 * w * h,
    ensures
        opt_bytes(out) == png_encoding(w, h, raw@),
{
    let img: image::RgbaImage = match image::ImageBuffer::from_raw(w, h, raw.clone()) {
        Some(i) => i,
        None => return None,
    };
    let mut buf = std::io::Cursor::new(Vec::new());
    match img.write_to(&mut buf, image::ImageFormat::Png) {
        Ok(()) => Some(buf.into_inner()),
        Err(_) => None,
    }
}

/// Character of a base64 digit in the standard alphabet.
pub open spec fn b64_digit(v: int) -> char {
    if v < 26 {
        ('A' as int + v) as char
    } else if v < 52 {
        ('a' as int + (v - 26)) as char
    } else if v < 62 {
        ('0' as int + (v - 52)) as char
    } else if v == 62 {
        '+'
    } else {
        '/'
    }
}

/// Standard base64 with `=` padding: every three bytes become four digits
/// of six bits each; a final one or two bytes are padded.
pub open spec fn base64_text(s: Seq<u8>) -> Seq<char>
    decreases s.len(),
{
    if s.len() == 0 {
        Seq::empty()
    } else {
        let a = s[0] as int;
        let b = if s.len() > 1 { s[1] as int } else { 0 };
        let c = if s.len() > 2 { s[2] as int } else { 0 };
        let d0 = b64_digit(a / 4);
        let d1 = b64_digit((a % 4) * 16 + b / 16);
        let d2 = b64_digit((b % 16) * 4 + c / 64);
        let d3 = b64_digit(c % 64);
        if s.len() == 1 {
            seq![d0, d1, '=', '=']
        } else if s.len() == 2 {
            seq![d0, d1, d2, '=']
        } else {
            seq![d0, d1, d2, d3] + base64_text(s.subrange(3, s.len() as int))
        }
    }
}

/// `Engine::encode` of `base64::engine::general_purpose::STANDARD`: the
/// standard-alphabet, padded base64 text of the bytes, as the crate
/// documents for that engine.
#[verifier::external_body]
fn base64_standard(bytes: &Vec<u8>) -> (s: String)
    requires
        bytes@.len() < usize::MAX / 2,
    ensures
        s@ == base64_text(bytes@),
{
    base64::Engine::encode(&base64::engine::general_purpose::STANDARD, bytes.as_slice())
}

/// Size of an image scaled down to at most `max_w` wide, keeping the aspect
/// ratio (height rounded down); images that fit keep their size.
pub open spec fn fit_width(w: u32, h: u32, max_w: u32) -> (u32, u32) {
    if w > max_w {
        (max_w, ((h * max_w) / (w as int)) as u32)
    } else {
        (w, h)
    }
}

/// Scale a size down to at most `max_w` wide.
pub fn fit_width_exec(w: u32, h: u32, max_w: u32) -> (r: (u32, u32))
    ensures
        r == fit_width(w, h, max_w),
        r.1 <= h,
{
    if w > max_w {
        proof {
            crate::frame::lemma_u32_product(h, max_w);
        }
        let prod: u64 = h as u64 * max_w as u64;
        let nh = prod / (w as u64);
        assert(nh <= h) by (nonlinear_arith)
            requires
                prod == h * max_w,
                nh == prod / (w as u64),
                max_w < w,
        ;
        (max_w, nh as u32)
    } else {
        (w, h)
    }
}

/// The bytes of a frame scaled down to at most `max_w` wide with `filter`.
pub open spec fn scaled_bytes(f: FrameView, max_w: u32, filter: ResizeFilter) -> Seq<u8> {
    let (nw, nh) = fit_width(f.width as u32, f.height as u32, max_w);
    if f.width > max_w {
        resized_rgba(f.width as u32, f.height as u32, f.bytes(), nw, nh, filter)
    } else {
        f.bytes()
    }
}

fn scaled(frame: &Frame, max_w: u32, filter: ResizeFilter) -> (r: (u32, u32, Vec<u8>))
    requires
        max_w <= 4096,
    ensures
        (r.0, r.1) == fit_width(frame@.width as u32, frame@.height as u32, max_w),
        r.2@ == scaled_bytes(frame@, max_w, filter),
        r.2@.len() == 4 * r.0 * r.1,
{
    let w = frame.width();
    let h = frame.height();
    let _count = frame.pixel_count();
    let raw = frame.to_raw();
    assert(raw@.len() == 4 * w * h) by (nonlinear_arith)
        requires
            raw@.len() == 4 * (w * h),
    ;
    let (nw, nh) = fit_width_exec(w, h, max_w);
    if w > max_w {
        assert(4 * nw * nh <= 4 * w * h) by (nonlinear_arith)
            requires
                nw < w,
                nh <= h,
        ;
        let rl = raw.len();
        assert(rl == 4 * w * h);
        let out = resize_rgba(w, h, &raw, nw, nh, filter);
        (nw, nh, out)
    } else {
        (w, h, raw)
    }
}

/// Widest preview shown on the detection page.
pub const PREVIEW_MAX_WIDTH: u32 = 640;

/// Widest screenshot attached to a Discord message.
pub const DISCORD_IMAGE_MAX_WIDTH: u32 = 1920;

/// Largest screenshot attached to a Discord message (6 MiB).
pub const DISCORD_IMAGE_MAX_BYTES: usize = 6291456;

/// Widest debug frame saved to disk.
pub const DEBUG_FRAME_WIDTH: u32 = 960;

/// The PNG of a frame scaled to at most `max_w` wide.
pub open spec fn scaled_png(f: FrameView, max_w: u32, filter: ResizeFilter) -> Option<Seq<u8>> {
    let (nw, nh) = fit_width(f.width as u32, f.height as u32, max_w);
    png_encoding(nw, nh, scaled_bytes(f, max_w, filter))
}

/// A PNG file small enough to attach to a Discord message, or none.
pub fn attachable_png(png: Vec<u8>) -> (r: Option<Vec<u8>>)
    ensures
        opt_bytes(r) == if png@.len() <= DISCORD_IMAGE_MAX_BYTES { Some(png@) } else { None::<Seq<u8>> },
{
    if png.len() <= DISCORD_IMAGE_MAX_BYTES {
        Some(png)
    } else {
        None
    }
}

/// The base64 text of an encoded preview.
pub fn preview_base64(png: &Vec<u8>) -> (r: Option<String>)
    ensures
        png@.len() < usize::MAX / 2 ==> (r matches Some(s) && s@ == base64_text(png@)),
        png@.len() >= usize::MAX / 2 ==> r is None,
{
    if png.len() < usize::MAX / 2 {
        Some(base64_standard(png))
    } else {
        None
    }
}

/// Capture preview for the detection page.
pub struct CapturePreview {
    /// Base64-encoded PNG of the latest frame.
    pub image_base64: Option<String>,
    /// Capture metadata.
    pub info: CaptureInfo,
}

/// The preview of the latest frame: scaled to at most 640 pixels wide with
/// the triangle filter, PNG-encoded and base64-encoded; none without a frame
/// or when encoding fails.
pub fn capture_preview(frame: Option<&Frame>, info: CaptureInfo) -> (p: CapturePreview)
    ensures
        p.info == info,
        match frame {
            None => p.image_base64 is None,
            Some(f) => match scaled_png(f@, PREVIEW_MAX_WIDTH, ResizeFilter::Triangle) {
                None => p.image_base64 is None,
                Some(png) => png.len() < usize::MAX / 2 ==> (p.image_base64 matches Some(s) && s@ == base64_text(png)),
            },
        },
{
    let image_base64 = match frame {
        None => None,
        Some(f) => {
            let (w, h, bytes) = scaled(f, PREVIEW_MAX_WIDTH, ResizeFilter::Triangle);
            match encode_png(w, h, &bytes) {
                None => None,
                Some(png) => preview_base64(&png),
            }
        },
    };
    CapturePreview { image_base64, info }
}

/// The screenshot attached to Discord messages: the frame scaled to at most
/// 1920 pixels wide with the triangle filter and PNG-encoded; none when
/// encoding fails or the file exceeds 6 MiB.
pub fn screenshot_png(frame: &Frame) -> (r: Option<Vec<u8>>)
    ensures
        opt_bytes(r) == match scaled_png(frame@, DISCORD_IMAGE_MAX_WIDTH, ResizeFilter::Triangle) {
            Some(png) => if png.len() <= DISCORD_IMAGE_MAX_BYTES { Some(png) } else { None },
            None => None,
        },
{
    let (w, h, bytes) = scaled(frame, DISCORD_IMAGE_MAX_WIDTH, ResizeFilter::Triangle);
    match encode_png(w, h, &bytes) {
        None => None,
        Some(png) => attachable_png(png),
    }
}

/// PNG of a debug frame: scaled to at most 960 pixels wide with the nearest
/// filter.
pub fn debug_frame_png(frame: &Frame) -> (r: Option<Vec<u8>>)
    ensures
        opt_bytes(r) == scaled_png(frame@, DEBUG_FRAME_WIDTH, ResizeFilter::Nearest),
{
    let (w, h, bytes) = scaled(frame, DEBUG_FRAME_WIDTH, ResizeFilter::Nearest);
    encode_png(w, h, &bytes)
}

/// Kind names of events joined by `_`.
pub open spec fn joined_kinds(es: Seq<DetectionEvent>) -> Seq<char>
    decreases es.len(),
{
    if es.len() == 0 {
        Seq::empty()
    } else if es.len() == 1 {
        kind_name(spec_kind(es[0]))
    } else {
        joined_kinds(es.drop_last()) + "_"@ + kind_name(spec_kind(es.last()))
    }
}

/// File name of a debug frame: `{timestamp}_{kinds}.png` for the events of
/// the frame, at `epoch_ms` milliseconds after the Unix epoch.
pub fn debug_frame_name(epoch_ms: u64, events: &Vec<DetectionEvent>) -> (s: String)
    ensures
        s@ == timestamp_text(epoch_ms as nat) + "_"@ + joined_kinds(events@) + ".png"@,
{
    let mut s = chrono_filename(epoch_ms);
    push_str(&mut s, "_");
    let ghost prefix = s@;
    let mut i: usize = 0;
    while i < events.len()
        invariant
            i <= events.len(),
            s@ == prefix + joined_kinds(events@.take(i as int)),
        decreases events.len() - i,
    {
        assert(events@.take(i + 1).drop_last() =~= events@.take(i as int));
        if i > 0 {
            push_str(&mut s, "_");
        }
        push_str(&mut s, event_kind_name(&events[i]));
        proof {
            if i == 0 {
                assert(events@.take(1) =~= seq![events@[0]]);
                assert(s@ =~= prefix + joined_kinds(events@.take(1)));
            } else {
                assert(s@ =~= prefix + joined_kinds(events@.take(i + 1)));
            }
        }
        i = i + 1;
    }
    assert(events@.take(events.len() as int) =~= events@);
    push_str(&mut s, ".png");
    s
}

} // verus!
