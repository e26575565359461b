//! Regions of interest given as fractions of the frame, in basis points
//! (1/10000 of the frame's width or height), so that one definition scales
//! to any capture resolution.
use vstd::prelude::*;

use crate::frame::{Frame, FrameView};

verus! {

/// A region given as fractions of the frame size, each in basis points
/// (10000 = the whole width or height).
#[derive(Clone, Copy, Debug, PartialEq, Eq)]
pub struct RoiDefinition {
    /// Left edge (0 = left border, 10000 = right border).
    pub x: u32,
    /// Top edge (0 = top border, 10000 = bottom border).
    pub y: u32,
    /// Width as a fraction of the frame width.
    pub width: u32,
    /// Height as a fraction of the frame height.
    pub height: u32,
}

/// Pixel-coordinate rectangle computed from a ratio-based ROI.
#[derive(Clone, Copy, Debug, PartialEq, Eq)]
pub struct PixelRect {
    /// X offset in pixels.
    pub x: u32,
    /// Y offset in pixels.
    pub y: u32,
    /// Width in pixels.
    pub w: u32,
    /// Height in pixels.
    pub h: u32,
}

/// `floor(bp * size / 10000)`, saturated to `u32::MAX`.
pub open spec fn scale(bp: u32, size: u32) -> nat {
    let v = (bp as nat * size as nat) / 10000;
    if v > u32::MAX {
        u32::MAX as nat
    } else {
        v
    }
}

/// Scale one basis-point coordinate to pixels.
fn scale_exec(bp: u32, size: u32) -> (r: u32)
    ensures
        r == scale(bp, size),
{
    proof {
        crate::frame::lemma_u32_product(bp, size);
    }
    let v: u64 = (bp as u64) * (size as u64) / 10000;
    if v > u32::MAX as u64 {
        u32::MAX
    } else {
        v as u32
    }
}

/// The part of `f` covered by `rect`, as a frame of its own.
pub open spec fn crop_view(f: FrameView, rect: PixelRect) -> FrameView {
    FrameView {
        width: rect.w as nat,
        height: rect.h as nat,
        pixels: Seq::new(
            rect.w as nat * rect.h as nat,
            |i: int| f.pixel(rect.x + i % (rect.w as int), rect.y + i / (rect.w as int)),
        ),
    }
}

impl RoiDefinition {
    /// The pixel rectangle of this ROI in a frame of the given size: each
    /// coordinate is the fraction of the size, rounded down.
    pub open spec fn spec_to_pixels(self, frame_width: u32, frame_height: u32) -> PixelRect {
        PixelRect {
            x: scale(self.x, frame_width) as u32,
            y: scale(self.y, frame_height) as u32,
            w: scale(self.width, frame_width) as u32,
            h: scale(self.height, frame_height) as u32,
        }
    }

    /// Convert the ratio-based ROI to pixel coordinates for a given frame size.
    pub fn to_pixels(&self, frame_width: u32, frame_height: u32) -> (r: PixelRect)
        ensures
            r == self.spec_to_pixels(frame_width, frame_height),
    {
        PixelRect {
            x: scale_exec(self.x, frame_width),
            y: scale_exec(self.y, frame_height),
            w: scale_exec(self.width, frame_width),
            h: scale_exec(self.height, frame_height),
        }
    }

    /// The rectangle is non-empty and lies inside a `w` by `h` frame.
    pub open spec fn fits(self, w: u32, h: u32) -> bool {
        let rect = self.spec_to_pixels(w, h);
        &&& rect.x + rect.w <= w
        &&& rect.y + rect.h <= h
        &&& rect.w > 0
        &&& rect.h > 0
    }

    /// The cropped region of a frame with content `f`; `None` when the
    /// region does not fit.
    pub open spec fn spec_crop(self, f: FrameView) -> Option<FrameView> {
        if self.fits(f.width as u32, f.height as u32) {
            Some(crop_view(f, self.spec_to_pixels(f.width as u32, f.height as u32)))
        } else {
            None
        }
    }

    /// Crop the ROI from a frame; `None` when the region is empty or exceeds
    /// the frame bounds.
    pub fn crop(&self, frame: &Frame) -> (r: Option<Frame>)
        ensures
            r is Some <==> self.fits(frame@.width as u32, frame@.height as u32),
            match r {
                Some(out) => self.spec_crop(frame@) == Some(out@),
                None => self.spec_crop(frame@) is None,
            },
            r matches Some(out) ==> {
                let rect = self.spec_to_pixels(frame@.width as u32, frame@.height as u32);
                &&& out@.width == rect.w
                &&& out@.height == rect.h
                &&& out@.pixels.len() == rect.w * rect.h
                &&& forall|cx: int, cy: int|
                    0 <= cx < rect.w && 0 <= cy < rect.h ==> #[trigger] out@.pixel(cx, cy)
                        == frame@.pixel(rect.x + cx, rect.y + cy)
            },
    {
        let rect = self.to_pixels(frame.width(), frame.height());
        if rect.x as u64 + rect.w as u64 > frame.width() as u64 || rect.y as u64 + rect.h as u64
            > frame.height() as u64 || rect.w == 0 || rect.h == 0 {
            return None;
        }
        let out = frame.crop_region(rect.x, rect.y, rect.w, rect.h);
        proof {
            let cv = crop_view(frame@, rect);
            let w = rect.w as int;
            assert forall|i: int| 0 <= i < out@.pixels.len() implies out@.pixels[i] == cv.pixels[i] by {
                vstd::arithmetic::div_mod::lemma_fundamental_div_mod(i, w);
                let cx = i % w;
                let cy = i / w;
                assert(0 <= cx < w) by {
                    vstd::arithmetic::div_mod::lemma_mod_bound(i, w);
                }
                assert(0 <= cy < rect.h) by {
                    vstd::arithmetic::div_mod::lemma_div_pos_is_pos(i, w);
                    vstd::arithmetic::div_mod::lemma_div_by_multiple_is_strongly_ordered(
                        i,
                        w * rect.h,
                        rect.h as int,
                        w,
                    );
                    assert(i < w * rect.h);
                    assert(w * rect.h == rect.h * w) by (nonlinear_arith);
                    vstd::arithmetic::div_mod::lemma_div_multiples_vanish(rect.h as int, w);
                }
                assert(i == cy * w + cx) by (nonlinear_arith)
                    requires
                        i == w * (i / w) + i % w,
                        cx == i % w,
                        cy == i / w,
                ;
                assert(out@.pixel(cx, cy) == frame@.pixel(rect.x + cx, rect.y + cy));
            }
            assert(out@.pixels =~= cv.pixels);
        }
        Some(out)
    }
}

} // verus!
