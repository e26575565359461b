//! Windows title bar detection and removal.
//!
//! Window captures include the title bar; it is detected as a bright,
//! horizontally uniform band at the top and cut off.
use vstd::prelude::*;

use crate::frame::{Frame, FrameView};

verus! {

/// `R + G + B` of a pixel.
pub open spec fn rgb_sum(p: [u8; 4]) -> int {
    p[0] + p[1] + p[2]
}

/// Sum of `R + G + B` over columns `lo..hi` of row `y`.
pub open spec fn row_sum(f: FrameView, y: int, lo: int, hi: int) -> int
    decreases hi - lo,
{
    if hi <= lo {
        0
    } else {
        row_sum(f, y, lo, hi - 1) + rgb_sum(f.pixel(hi - 1, y))
    }
}

/// `row_sum` is between 0 and 765 per column.
pub proof fn lemma_row_sum_bound(f: FrameView, y: int, lo: int, hi: int)
    ensures
        0 <= row_sum(f, y, lo, hi),
        lo <= hi ==> row_sum(f, y, lo, hi) <= 765 * (hi - lo),
    decreases hi - lo,
{
    if lo < hi {
        lemma_row_sum_bound(f, y, lo, hi - 1);
    }
}

/// The mean of sum `sa` over `3 * ca` values exceeds 150.
pub open spec fn mean_bright(sa: int, ca: int) -> bool {
    sa > 450 * ca
}

/// The means `sa / (3 * ca)` and `sb / (3 * cb)` differ by less than 40.
pub open spec fn means_close(sa: int, ca: int, sb: int, cb: int) -> bool {
    sa * cb - sb * ca < 120 * ca * cb && sb * ca - sa * cb < 120 * ca * cb
}

/// Row `y` looks like title bar: the mean channel value of each of the left,
/// centre and right thirds exceeds 150, and the three means lie within 40 of
/// each other.
pub open spec fn row_is_titlebar(f: FrameView, y: int) -> bool {
    let w = f.width as int;
    let t = w / 3;
    let (cl, cc, cr) = (t, t, w - 2 * t);
    let l = row_sum(f, y, 0, t);
    let c = row_sum(f, y, t, 2 * t);
    let r = row_sum(f, y, 2 * t, w);
    &&& mean_bright(l, cl)
    &&& mean_bright(c, cc)
    &&& mean_bright(r, cr)
    &&& means_close(l, cl, c, cc)
    &&& means_close(l, cl, r, cr)
    &&& means_close(c, cc, r, cr)
}

/// First title-bar row in `y..rows`.
pub open spec fn first_titlebar_row(f: FrameView, y: int, rows: int) -> Option<int>
    decreases rows - y,
{
    if y >= rows {
        None
    } else if row_is_titlebar(f, y) {
        Some(y)
    } else {
        first_titlebar_row(f, y + 1, rows)
    }
}

/// First row in `y..rows` that is not title bar (`rows` when there is none).
pub open spec fn first_plain_row(f: FrameView, y: int, rows: int) -> int
    decreases rows - y,
{
    if y >= rows {
        rows
    } else if !row_is_titlebar(f, y) {
        y
    } else {
        first_plain_row(f, y + 1, rows)
    }
}

/// Height of the title bar of `f`: among the first 50 rows, the band of
/// title-bar rows that starts at the first such row, provided that row is
/// one of rows 0 to 3 (border or shadow pixels may precede it); 0 when there
/// is no such band or the frame is narrower than 3 pixels.
pub open spec fn spec_titlebar_height(f: FrameView) -> int {
    let rows = if f.height < 50 {
        f.height as int
    } else {
        50
    };
    if f.width / 3 == 0 {
        0
    } else {
        match first_titlebar_row(f, 0, rows) {
            Some(s) => if s <= 3 {
                first_plain_row(f, s, rows)
            } else {
                0
            },
            None => 0,
        }
    }
}

/// A title-bar row found from `y` lies at or after `y`.
pub proof fn lemma_first_titlebar_row_after(f: FrameView, y: int, rows: int)
    ensures
        first_titlebar_row(f, y, rows) matches Some(s) ==> s >= y,
    decreases rows - y,
{
    if y < rows && !row_is_titlebar(f, y) {
        lemma_first_titlebar_row_after(f, y + 1, rows);
    }
}

/// Sums of `R + G + B` over the left, centre and right thirds of row `y`.
fn row_third_sums(frame: &Frame, y: u32, third: u32, width: u32) -> (r: (u64, u64, u64))
    requires
        y < frame@.height,
        width == frame@.width,
        third == width / 3,
    ensures
        r.0 == row_sum(frame@, y as int, 0, third as int),
        r.1 == row_sum(frame@, y as int, third as int, 2 * third),
        r.2 == row_sum(frame@, y as int, 2 * third, width as int),
{
    let mut left: u64 = 0;
    let mut center: u64 = 0;
    let mut right: u64 = 0;
    let mut x: u32 = 0;
    let ghost f = frame@;
    let ghost t = third as int;
    while x < width
        invariant
            f == frame@,
            t == third,
            y < frame@.height,
            width == frame@.width,
            third == width / 3,
            x <= width,
            x <= t ==> left == row_sum(f, y as int, 0, x as int) && center == 0 && right == 0,
            t <= x <= 2 * t ==> left == row_sum(f, y as int, 0, t) && center == row_sum(
                f,
                y as int,
                t,
                x as int,
            ) && right == 0,
            2 * t <= x ==> left == row_sum(f, y as int, 0, t) && center == row_sum(
                f,
                y as int,
                t,
                2 * t,
            ) && right == row_sum(f, y as int, 2 * t, x as int),
        decreases width - x,
    {
        let p = frame.get_pixel(x, y).0;
        let s = p[0] as u64 + p[1] as u64 + p[2] as u64;
        proof {
            lemma_row_sum_bound(f, y as int, 0, x as int);
            lemma_row_sum_bound(f, y as int, t, x as int);
            lemma_row_sum_bound(f, y as int, 2 * t, x as int);
            lemma_row_sum_bound(f, y as int, 0, t);
            lemma_row_sum_bound(f, y as int, t, 2 * t);
        }
        if x < third {
            left = left + s;
        } else if x < 2 * third {
            center = center + s;
        } else {
            right = right + s;
        }
        x = x + 1;
    }
    (left, center, right)
}

/// Exact test `sa * cb - sb * ca < 120 * ca * cb` (and symmetrically).
fn means_close_exec(sa: u64, ca: u64, sb: u64, cb: u64) -> (r: bool)
    requires
        sa <= 765 * ca,
        sb <= 765 * cb,
        ca <= u32::MAX,
        cb <= u32::MAX,
    ensures
        r == means_close(sa as int, ca as int, sb as int, cb as int),
{
    proof {
        crate::color::lemma_mul_le(sa as nat, cb as nat, 765 * (u32::MAX as nat), u32::MAX as nat);
        crate::color::lemma_mul_le(sb as nat, ca as nat, 765 * (u32::MAX as nat), u32::MAX as nat);
        crate::color::lemma_mul_le(ca as nat, cb as nat, u32::MAX as nat, u32::MAX as nat);
        assert(120 * ca * cb == 120 * (ca * cb)) by (nonlinear_arith);
    }
    let a = sa as u128 * cb as u128;
    let b = sb as u128 * ca as u128;
    let lim = 120 * (ca as u128 * cb as u128);
    (a < b || a - b < lim) && (b < a || b - a < lim)
}

/// Whether row `y` looks like title bar.
fn row_is_titlebar_exec(frame: &Frame, y: u32) -> (r: bool)
    requires
        y < frame@.height,
    ensures
        r == row_is_titlebar(frame@, y as int),
{
    let w = frame.width();
    let third = w / 3;
    let (l, c, r) = row_third_sums(frame, y, third, w);
    let ghost f = frame@;
    proof {
        lemma_row_sum_bound(f, y as int, 0, third as int);
        lemma_row_sum_bound(f, y as int, third as int, 2 * third);
        lemma_row_sum_bound(f, y as int, 2 * third, w as int);
    }
    let cl = third as u64;
    let cr = (w - 2 * third) as u64;
    let bright = l > 450 * cl && c > 450 * cl && r > 450 * cr;
    bright && means_close_exec(l, cl, c, cl) && means_close_exec(l, cl, r, cr) && means_close_exec(
        c,
        cl,
        r,
        cr,
    )
}

/// Detect the height of a Windows title bar at the top of a captured frame.
///
/// Returns 0 when no title bar is found (borderless, fullscreen or client-area
/// captures). A title bar is a contiguous band of bright (mean above 150) and
/// horizontally uniform (means of the thirds within 40) rows that starts in
/// one of the first 4 rows; only the first 50 rows are examined.
pub fn detect_titlebar_height(frame: &Frame) -> (h: u32)
    ensures
        h == spec_titlebar_height(frame@),
        h <= frame@.height,
        h <= 50,
{
    let w = frame.width();
    let height = frame.height();
    let check_rows = if height < 50 {
        height
    } else {
        50
    };
    let third = w / 3;
    if third == 0 {
        return 0;
    }
    let ghost f = frame@;
    // first title-bar row, which must be one of rows 0..=3
    let mut y: u32 = 0;
    while y < check_rows && !row_is_titlebar_exec(frame, y)
        invariant
            f == frame@,
            check_rows <= height,
            height == f.height,
            check_rows as int == (if f.height < 50 {
                f.height as int
            } else {
                50
            }),
            y <= check_rows,
            y <= 3,
            first_titlebar_row(f, 0, check_rows as int) == first_titlebar_row(
                f,
                y as int,
                check_rows as int,
            ),
        decreases check_rows - y,
    {
        if y >= 3 {
            proof {
                lemma_first_titlebar_row_after(f, (y + 1) as int, check_rows as int);
            }
            return 0;
        }
        y = y + 1;
    }
    if y >= check_rows {
        return 0;
    }
    // extend the band while rows keep looking like title bar
    let start = y;
    let mut e: u32 = start + 1;
    while e < check_rows && row_is_titlebar_exec(frame, e)
        invariant
            f == frame@,
            check_rows <= height,
            height == f.height,
            start < e <= check_rows,
            row_is_titlebar(f, start as int),
            first_plain_row(f, start as int, check_rows as int) == first_plain_row(
                f,
                e as int,
                check_rows as int,
            ),
        decreases check_rows - e,
    {
        e = e + 1;
    }
    e
}

/// Crop the title bar off a frame, returning only the game client area.
///
/// When no title bar is found (or it covers the whole frame) the frame is
/// returned unchanged.
pub fn crop_titlebar(frame: &Frame) -> (out: Frame)
    ensures
        ({
            let tb = spec_titlebar_height(frame@);
            let cut = if tb == 0 || tb >= frame@.height {
                0
            } else {
                tb
            };
            &&& out@.width == frame@.width
            &&& out@.height == frame@.height - cut
            &&& out@.pixels.len() == out@.width * out@.height
            &&& forall|cx: int, cy: int|
                0 <= cx < out@.width && 0 <= cy < out@.height ==> #[trigger] out@.pixel(cx, cy)
                    == frame@.pixel(cx, cy + cut)
        }),
{
    let tb = detect_titlebar_height(frame);
    let cut = if tb == 0 || tb >= frame.height() {
        0
    } else {
        tb
    };
    frame.crop_region(0, cut, frame.width(), frame.height() - cut)
}

} // verus!
