//! Capture-side pixel conversions: channel order swaps between BGRA and
//! RGBA buffers, and binarisation of white text for OCR.
use vstd::prelude::*;

use crate::color::brightness;
use crate::frame::{Frame, FrameView};

verus! {

/// Available capture backends.
#[derive(Clone, Copy, Debug, PartialEq, Eq)]
pub enum CaptureBackend {
    /// Windows Graphics Capture API (primary, GPU-accelerated).
    WindowsGraphicsCapture,
    /// `PrintWindow` API (fallback).
    PrintWindow,
}

/// Byte `i` of `s` after swapping bytes 0 and 2 of every complete 4-byte
/// chunk; the bytes of a trailing partial chunk are kept.
pub open spec fn swap_rb_at(s: Seq<u8>, i: int) -> u8 {
    let full = s.len() - s.len() % 4;
    if i < full && i % 4 == 0 {
        s[i + 2]
    } else if i < full && i % 4 == 2 {
        s[i - 2]
    } else {
        s[i]
    }
}

/// `s` with the first and third byte of each complete 4-byte chunk swapped.
pub open spec fn swap_rb(s: Seq<u8>) -> Seq<u8> {
    Seq::new(s.len(), |i: int| swap_rb_at(s, i))
}

/// Swap bytes 0 and 2 of every complete 4-byte chunk.
fn swap_red_blue(src: &[u8]) -> (out: Vec<u8>)
    ensures
        out@ == swap_rb(src@),
{
    let n = src.len();
    let full = n - n % 4;
    let mut out: Vec<u8> = Vec::new();
    let mut i: usize = 0;
    while i < n
        invariant
            n == src@.len(),
            full == n - n % 4,
            i <= n,
            out@.len() == i,
            forall|k: int| 0 <= k < i ==> #[trigger] out@[k] == swap_rb_at(src@, k),
        decreases n - i,
    {
        let b = if i < full && i % 4 == 0 {
            src[i + 2]
        } else if i < full && i % 4 == 2 {
            src[i - 2]
        } else {
            src[i]
        };
        out.push(b);
        i = i + 1;
    }
    assert(out@ =~= swap_rb(src@));
    out
}

/// Convert an RGBA pixel buffer to BGRA by swapping the R and B channels.
pub fn rgba_to_bgra(rgba: &[u8]) -> (bgra: Vec<u8>)
    ensures
        bgra@ == swap_rb(rgba@),
{
    swap_red_blue(rgba)
}

/// Convert a BGRA pixel buffer to RGBA by swapping the B and R channels.
pub fn bgra_to_rgba(bgra: &[u8]) -> (rgba: Vec<u8>)
    ensures
        rgba@ == swap_rb(bgra@),
{
    swap_red_blue(bgra)
}

/// Converting RGBA to BGRA and back gives back the same buffer.
pub proof fn law_channel_swap_round_trip(s: Seq<u8>)
    ensures
        swap_rb(swap_rb(s)) == s,
{
    let t = swap_rb(s);
    assert forall|i: int| 0 <= i < s.len() implies #[trigger] swap_rb(t)[i] == s[i] by {
        let full = s.len() - s.len() % 4;
        if i < full && i % 4 == 0 {
            assert((i + 2) % 4 == 2);
            assert(i + 2 < full) by {
                assert(full % 4 == 0);
            }
        } else if i < full && i % 4 == 2 {
            assert((i - 2) % 4 == 0);
        }
    }
    assert(swap_rb(t) =~= s);
}

/// The binarised pixel: opaque white when the average brightness reaches
/// `threshold`, opaque black otherwise.
pub open spec fn binarized(p: [u8; 4], threshold: u8) -> [u8; 4] {
    if brightness(p) >= threshold {
        [255u8, 255, 255, 255]
    } else {
        [0u8, 0, 0, 255]
    }
}

/// The image `f` binarised at `threshold`, pixel by pixel.
pub open spec fn binarized_view(f: FrameView, threshold: u8) -> FrameView {
    FrameView {
        width: f.width,
        height: f.height,
        pixels: Seq::new(f.pixels.len(), |i: int| binarized(f.pixels[i], threshold)),
    }
}

/// Binarise an image for OCR of white text on a dark background: pixels whose
/// average brightness is at least `threshold` become white, the others black.
pub fn binarize_white_text(image: &Frame, threshold: u8) -> (out: Frame)
    ensures
        out@ == binarized_view(image@, threshold),
        out@.width == image@.width,
        out@.height == image@.height,
        out@.pixels.len() == image@.pixels.len(),
        forall|i: int|
            0 <= i < out@.pixels.len() ==> #[trigger] out@.pixels[i] == binarized(
                image@.pixels[i],
                threshold,
            ),
{
    let n = image.pixel_count();
    let mut raw: Vec<u8> = Vec::new();
    let mut i: usize = 0;
    while i < n
        invariant
            n == image@.pixels.len(),
            i <= n,
            raw@.len() == 4 * i,
            forall|k: int, c: int|
                0 <= k < i && 0 <= c < 4 ==> #[trigger] raw@[4 * k + c] == binarized(
                    image@.pixels[k],
                    threshold,
                )[c],
        decreases n - i,
    {
        let p = image.pixel_at(i);
        let avg = (p[0] as u16 + p[1] as u16 + p[2] as u16) / 3;
        let v: u8 = if avg >= threshold as u16 {
            255
        } else {
            0
        };
        raw.push(v);
        raw.push(v);
        raw.push(v);
        raw.push(255);
        proof {
            assert forall|k: int, c: int| 0 <= k < i + 1 && 0 <= c < 4 implies #[trigger] raw@[4
                * k + c] == binarized(image@.pixels[k], threshold)[c] by {
                if k == i {
                    assert(c == 0 || c == 1 || c == 2 || c == 3);
                }
            }
        }
        i = i + 1;
    }
    let out = Frame::from_raw(image.width(), image.height(), &raw);
    match out {
        Some(f) => {
            assert forall|k: int| 0 <= k < f@.pixels.len() implies #[trigger] f@.pixels[k] == binarized(
                image@.pixels[k],
                threshold,
            ) by {
                assert(f@.pixels[k] =~= binarized(image@.pixels[k], threshold)) by {
                    assert(raw@[4 * k + 0] == binarized(image@.pixels[k], threshold)[0]);
                    assert(raw@[4 * k + 1] == binarized(image@.pixels[k], threshold)[1]);
                    assert(raw@[4 * k + 2] == binarized(image@.pixels[k], threshold)[2]);
                    assert(raw@[4 * k + 3] == binarized(image@.pixels[k], threshold)[3]);
                }
            }
            assert(f@.pixels =~= binarized_view(image@, threshold).pixels);
            f
        },
        None => {
            assert(false);
            Frame::new(0, 0)
        },
    }
}

/// Binarising an already binarised image with a non-zero threshold changes nothing.
pub proof fn law_binarize_idempotent(p: [u8; 4], threshold: u8)
    requires
        threshold >= 1,
    ensures
        binarized(binarized(p, threshold), threshold) == binarized(p, threshold),
{
}

} // verus!
