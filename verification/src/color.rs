//! Pixel colour measures: brightness, chroma, exact HSV, and pixel-ratio
//! thresholds expressed in basis points (1/10000).
use vstd::prelude::*;

use crate::frame::{Frame, FrameView};

verus! {

/// Integer average brightness `(R + G + B) / 3`.
pub open spec fn brightness(p: [u8; 4]) -> nat {
    ((p[0] + p[1] + p[2]) / 3) as nat
}

/// Largest of the three colour channels.
pub open spec fn max_channel(p: [u8; 4]) -> nat {
    if p[0] >= p[1] && p[0] >= p[2] {
        p[0] as nat
    } else if p[1] >= p[2] {
        p[1] as nat
    } else {
        p[2] as nat
    }
}

/// Smallest of the three colour channels.
pub open spec fn min_channel(p: [u8; 4]) -> nat {
    if p[0] <= p[1] && p[0] <= p[2] {
        p[0] as nat
    } else if p[1] <= p[2] {
        p[1] as nat
    } else {
        p[2] as nat
    }
}

/// Chroma `max(R, G, B) - min(R, G, B)`.
pub open spec fn chroma(p: [u8; 4]) -> nat {
    (max_channel(p) - min_channel(p)) as nat
}

/// A text-like pixel: bright enough and nearly colourless.
pub open spec fn is_text_pixel(p: [u8; 4], brightness_min: u8, max_chroma: u8) -> bool {
    brightness(p) >= brightness_min && chroma(p) < max_chroma
}

/// The text-like pixel test as a predicate.
pub open spec fn text_pred(brightness_min: u8, max_chroma: u8) -> spec_fn([u8; 4]) -> bool {
    |p: [u8; 4]| is_text_pixel(p, brightness_min, max_chroma)
}

/// Number of pixels of `s` that satisfy `f`.
pub open spec fn count_where(s: Seq<[u8; 4]>, f: spec_fn([u8; 4]) -> bool) -> nat
    decreases s.len(),
{
    if s.len() == 0 {
        0
    } else {
        count_where(s.drop_last(), f) + if f(s.last()) {
            1nat
        } else {
            0nat
        }
    }
}

/// Counting never exceeds the number of pixels.
pub proof fn lemma_count_where_bound(s: Seq<[u8; 4]>, f: spec_fn([u8; 4]) -> bool)
    ensures
        count_where(s, f) <= s.len(),
    decreases s.len(),
{
    if s.len() > 0 {
        lemma_count_where_bound(s.drop_last(), f);
    }
}

/// Product bounds for unsigned factors.
pub proof fn lemma_mul_le(a: nat, b: nat, x: nat, y: nat)
    requires
        a <= x,
        b <= y,
    ensures
        a * b <= x * y,
{
    assert(a * b <= x * y) by (nonlinear_arith)
        requires
            a <= x,
            b <= y,
    ;
}

/// `count / total >= bp / 10000`, where a ratio over no pixels is 0.
pub open spec fn ratio_at_least(count: nat, total: nat, bp: nat) -> bool {
    if total == 0 {
        bp == 0
    } else {
        count * 10000 >= bp * total
    }
}

/// Share of the pixels of a region that satisfy some test: `count` out of `total`.
#[derive(Clone, Copy, Debug, PartialEq, Eq)]
pub struct PixelRatio {
    pub count: u64,
    pub total: u64,
}

impl PixelRatio {
    /// The ratio is at least `bp` basis points (`bp / 10000`); the ratio of an
    /// empty region is 0.
    pub open spec fn spec_at_least(self, bp: u32) -> bool {
        ratio_at_least(self.count as nat, self.total as nat, bp as nat)
    }

    /// Whether the ratio is at least `bp / 10000`.
    pub fn at_least(&self, bp: u32) -> (r: bool)
        ensures
            r == self.spec_at_least(bp),
    {
        if self.total == 0 {
            bp == 0
        } else {
            proof {
                lemma_mul_le(bp as nat, self.total as nat, u32::MAX as nat, u64::MAX as nat);
                lemma_mul_le(self.count as nat, 10000, u64::MAX as nat, 10000);
            }
            (self.count as u128) * 10000 >= (bp as u128) * (self.total as u128)
        }
    }
}

/// Integer average brightness of a pixel.
pub fn pixel_brightness(p: [u8; 4]) -> (b: u8)
    ensures
        b == brightness(p),
{
    ((p[0] as u16 + p[1] as u16 + p[2] as u16) / 3) as u8
}

/// Chroma of a pixel.
pub fn pixel_chroma(p: [u8; 4]) -> (c: u8)
    ensures
        c == chroma(p),
{
    let max = if p[0] >= p[1] && p[0] >= p[2] {
        p[0]
    } else if p[1] >= p[2] {
        p[1]
    } else {
        p[2]
    };
    let min = if p[0] <= p[1] && p[0] <= p[2] {
        p[0]
    } else if p[1] <= p[2] {
        p[1]
    } else {
        p[2]
    };
    max - min
}

/// Ratio of text-like pixels (bright, low chroma) in an image.
///
/// A pixel is text-like when its average brightness `(R+G+B)/3` is at least
/// `brightness_min` and its chroma `max(R,G,B) - min(R,G,B)` is below `max_chroma`.
pub fn text_pixel_ratio(image: &Frame, brightness_min: u8, max_chroma: u8) -> (r: PixelRatio)
    ensures
        r.total == image@.pixels.len(),
        r.count == count_where(image@.pixels, text_pred(brightness_min, max_chroma)),
{
    let ghost f = text_pred(brightness_min, max_chroma);
    let n = image.pixel_count();
    let mut count: u64 = 0;
    let mut i: usize = 0;
    while i < n
        invariant
            n == image@.pixels.len(),
            i <= n,
            f == text_pred(brightness_min, max_chroma),
            count == count_where(image@.pixels.take(i as int), f),
        decreases n - i,
    {
        let p = image.pixel_at(i);
        proof {
            assert(image@.pixels.take(i + 1).last() == p);
            assert(image@.pixels.take(i + 1).drop_last() =~= image@.pixels.take(i as int));
            lemma_count_where_bound(image@.pixels.take(i as int), f);
        }
        let is_text = pixel_brightness(p) >= brightness_min && pixel_chroma(p) < max_chroma;
        assert(is_text == is_text_pixel(p, brightness_min, max_chroma));
        assert(is_text == f(p));
        if is_text {
            count = count + 1;
        }
        i = i + 1;
    }
    assert(image@.pixels.take(n as int) =~= image@.pixels);
    PixelRatio { count, total: n as u64 }
}

/// An HSV colour with exact rational components: hue `h_num / h_den`
/// degrees, saturation `s_num / s_den`, value `v_num / v_den`.
#[derive(Clone, Copy, Debug, PartialEq, Eq)]
pub struct Hsv {
    pub h_num: u64,
    pub h_den: u64,
    pub s_num: u64,
    pub s_den: u64,
    pub v_num: u64,
    pub v_den: u64,
}

/// `max - min` of the three channels.
pub open spec fn rgb_delta(r: u8, g: u8, b: u8) -> int {
    max_channel([r, g, b, 0]) - min_channel([r, g, b, 0])
}

/// Hue in degrees multiplied by the chroma `delta`: 60 * (G - B) / delta
/// (wrapped into 0..360) when red is largest, 60 * (B - R) / delta + 120 when
/// green is, 60 * (R - G) / delta + 240 when blue is.
pub open spec fn hue_times_delta(r: u8, g: u8, b: u8) -> int {
    let d = rgb_delta(r, g, b);
    if r >= g && r >= b {
        if g >= b {
            60 * (g - b)
        } else {
            360 * d - 60 * (b - g)
        }
    } else if g >= b {
        120 * d + 60 * (b - r)
    } else {
        240 * d + 60 * (r - g)
    }
}

/// Convert an RGB pixel to HSV (hue 0..360 degrees, saturation and value 0..=1).
///
/// Grey pixels (all channels equal) have hue 0; black has saturation 0.
pub fn rgb_to_hsv(r: u8, g: u8, b: u8) -> (hsv: Hsv)
    ensures
        rgb_delta(r, g, b) == 0 ==> hsv.h_num == 0 && hsv.h_den == 1,
        rgb_delta(r, g, b) > 0 ==> hsv.h_num == hue_times_delta(r, g, b) && hsv.h_den
            == rgb_delta(r, g, b),
        max_channel([r, g, b, 0]) == 0 ==> hsv.s_num == 0 && hsv.s_den == 1,
        max_channel([r, g, b, 0]) > 0 ==> hsv.s_num == rgb_delta(r, g, b) && hsv.s_den
            == max_channel([r, g, b, 0]),
        hsv.v_num == max_channel([r, g, b, 0]),
        hsv.v_den == 255,
        hsv.h_num < 360 * hsv.h_den,
        hsv.h_den <= 255,
        hsv.s_num <= 255,
        hsv.s_den <= 255,
        hsv.v_num <= 255,
{
    let max = if r >= g && r >= b {
        r
    } else if g >= b {
        g
    } else {
        b
    };
    let min = if r <= g && r <= b {
        r
    } else if g <= b {
        g
    } else {
        b
    };
    let d = (max - min) as u64;
    let (h_num, h_den) = if d == 0 {
        (0u64, 1u64)
    } else if r >= g && r >= b {
        if g >= b {
            (60 * (g - b) as u64, d)
        } else {
            (360 * d - 60 * (b - g) as u64, d)
        }
    } else if g >= b {
        (120 * d + 60 * (b as u64) - 60 * (r as u64), d)
    } else {
        (240 * d + 60 * (r as u64) - 60 * (g as u64), d)
    };
    let (s_num, s_den) = if max == 0 {
        (0u64, 1u64)
    } else {
        (d, max as u64)
    };
    Hsv { h_num, h_den, s_num, s_den, v_num: max as u64, v_den: 255 }
}

/// A box in HSV space. Hue bounds are in hundredths of a degree; saturation
/// and value bounds are in basis points (1/10000). All bounds are inclusive.
#[derive(Clone, Copy, Debug, PartialEq, Eq)]
pub struct HsvRange {
    pub h_min: u32,
    pub h_max: u32,
    pub s_min: u32,
    pub s_max: u32,
    pub v_min: u32,
    pub v_max: u32,
}

/// `lo / unit <= num / den <= hi / unit` for a positive `den`.
pub open spec fn frac_within(num: int, den: int, lo: int, hi: int, unit: int) -> bool {
    lo * den <= unit * num && unit * num <= hi * den
}

/// The HSV colour of the pixel's RGB lies inside `range`.
pub open spec fn hsv_in_range(p: [u8; 4], range: HsvRange) -> bool {
    let d = rgb_delta(p[0], p[1], p[2]);
    let mx = max_channel([p[0], p[1], p[2], 0]) as int;
    let h_ok = if d == 0 {
        range.h_min == 0
    } else {
        frac_within(hue_times_delta(p[0], p[1], p[2]), d, range.h_min as int, range.h_max as int, 100)
    };
    let s_ok = if mx == 0 {
        range.s_min == 0
    } else {
        frac_within(d, mx, range.s_min as int, range.s_max as int, 10000)
    };
    &&& h_ok
    &&& s_ok
    &&& frac_within(mx, 255, range.v_min as int, range.v_max as int, 10000)
}

/// Whether the pixel's colour falls within an HSV range.
pub fn pixel_matches_hsv_range(pixel: &[u8; 4], range: &HsvRange) -> (m: bool)
    ensures
        m == hsv_in_range(*pixel, *range),
{
    let hsv = rgb_to_hsv(pixel[0], pixel[1], pixel[2]);
    proof {
        lemma_mul_le(range.h_min as nat, hsv.h_den as nat, u32::MAX as nat, 255);
        lemma_mul_le(range.h_max as nat, hsv.h_den as nat, u32::MAX as nat, 255);
        lemma_mul_le(range.s_min as nat, hsv.s_den as nat, u32::MAX as nat, 255);
        lemma_mul_le(range.s_max as nat, hsv.s_den as nat, u32::MAX as nat, 255);
    }
    let h_ok = (range.h_min as u128) * (hsv.h_den as u128) <= 100 * (hsv.h_num as u128) && 100
        * (hsv.h_num as u128) <= (range.h_max as u128) * (hsv.h_den as u128);
    let s_ok = (range.s_min as u128) * (hsv.s_den as u128) <= 10000 * (hsv.s_num as u128) && 10000
        * (hsv.s_num as u128) <= (range.s_max as u128) * (hsv.s_den as u128);
    let v_ok = (range.v_min as u128) * 255 <= 10000 * (hsv.v_num as u128) && 10000 * (
    hsv.v_num as u128) <= (range.v_max as u128) * 255;
    proof {
        let p = *pixel;
        let d = rgb_delta(p[0], p[1], p[2]);
        let mx = max_channel([p[0], p[1], p[2], 0]) as int;
        let r = *range;
        if d == 0 {
            let (hmin, hmax, den) = (r.h_min as int, r.h_max as int, hsv.h_den as int);
            assert(hmin * den == hmin && hmax * den == hmax) by (nonlinear_arith)
                requires
                    den == 1,
            ;
            assert(h_ok == (r.h_min == 0));
        } else {
            assert(h_ok == frac_within(hue_times_delta(p[0], p[1], p[2]), d, r.h_min as int, r.h_max as int, 100));
        }
        if mx == 0 {
            let (smin, smax, den) = (r.s_min as int, r.s_max as int, hsv.s_den as int);
            assert(smin * den == smin && smax * den == smax) by (nonlinear_arith)
                requires
                    den == 1,
            ;
            assert(s_ok == (r.s_min == 0));
        } else {
            assert(s_ok == frac_within(d, mx, r.s_min as int, r.s_max as int, 10000));
        }
        assert(v_ok == frac_within(mx, 255, r.v_min as int, r.v_max as int, 10000));
    }
    h_ok && s_ok && v_ok
}

} // verus!

verus! {

/// A background pixel that counts as dark.
pub open spec fn dark_pred(bg_brightness_max: u8) -> spec_fn([u8; 4]) -> bool {
    |p: [u8; 4]| brightness(p) <= bg_brightness_max
}

/// A pixel at least as bright as `min`.
pub open spec fn bright_pred(min: u8) -> spec_fn([u8; 4]) -> bool {
    |p: [u8; 4]| brightness(p) >= min
}

/// A pixel whose colour lies in `range`.
pub open spec fn hsv_pred(range: HsvRange) -> spec_fn([u8; 4]) -> bool {
    |p: [u8; 4]| hsv_in_range(p, range)
}

/// Highest average brightness among `s` (0 for no pixels).
pub open spec fn max_brightness(s: Seq<[u8; 4]>) -> nat
    decreases s.len(),
{
    if s.len() == 0 {
        0
    } else {
        let m = max_brightness(s.drop_last());
        if brightness(s.last()) > m {
            brightness(s.last())
        } else {
            m
        }
    }
}

/// The brightest pixel is no brighter than 255 and some pixel attains it.
pub proof fn lemma_max_brightness(s: Seq<[u8; 4]>)
    ensures
        max_brightness(s) <= 255,
        forall|i: int| 0 <= i < s.len() ==> brightness(#[trigger] s[i]) <= max_brightness(s),
        s.len() > 0 ==> exists|i: int| 0 <= i < s.len() && brightness(s[i]) == max_brightness(s),
        s.len() == 0 ==> max_brightness(s) == 0,
    decreases s.len(),
{
    if s.len() > 0 {
        let t = s.drop_last();
        lemma_max_brightness(t);
        assert forall|i: int| 0 <= i < s.len() implies brightness(#[trigger] s[i]) <= max_brightness(
            s,
        ) by {
            if i < s.len() - 1 {
                assert(s[i] == t[i]);
            }
        }
        if brightness(s.last()) > max_brightness(t) {
            assert(brightness(s[s.len() - 1]) == max_brightness(s));
        } else if t.len() > 0 {
            let j = choose|j: int| 0 <= j < t.len() && brightness(t[j]) == max_brightness(t);
            assert(s[j] == t[j]);
        } else {
            assert(brightness(s[s.len() - 1]) == max_brightness(s));
        }
    }
}

/// Share of pixels of `image` whose average brightness is at most `bg_brightness_max`.
pub fn count_dark(image: &Frame, bg_brightness_max: u8) -> (r: PixelRatio)
    ensures
        r.total == image@.pixels.len(),
        r.count == count_where(image@.pixels, dark_pred(bg_brightness_max)),
{
    let ghost f = dark_pred(bg_brightness_max);
    let n = image.pixel_count();
    let mut count: u64 = 0;
    let mut i: usize = 0;
    while i < n
        invariant
            n == image@.pixels.len(),
            i <= n,
            f == dark_pred(bg_brightness_max),
            count == count_where(image@.pixels.take(i as int), f),
        decreases n - i,
    {
        let p = image.pixel_at(i);
        proof {
            assert(image@.pixels.take(i + 1).last() == p);
            assert(image@.pixels.take(i + 1).drop_last() =~= image@.pixels.take(i as int));
            lemma_count_where_bound(image@.pixels.take(i as int), f);
        }
        if pixel_brightness(p) <= bg_brightness_max {
            count = count + 1;
        }
        i = i + 1;
    }
    assert(image@.pixels.take(n as int) =~= image@.pixels);
    PixelRatio { count, total: n as u64 }
}

/// Share of pixels of `image` whose colour lies in `range`.
pub fn count_hsv(image: &Frame, range: &HsvRange) -> (r: PixelRatio)
    ensures
        r.total == image@.pixels.len(),
        r.count == count_where(image@.pixels, hsv_pred(*range)),
{
    let ghost f = hsv_pred(*range);
    let n = image.pixel_count();
    let mut count: u64 = 0;
    let mut i: usize = 0;
    while i < n
        invariant
            n == image@.pixels.len(),
            i <= n,
            f == hsv_pred(*range),
            count == count_where(image@.pixels.take(i as int), f),
        decreases n - i,
    {
        let p = image.pixel_at(i);
        proof {
            assert(image@.pixels.take(i + 1).last() == p);
            assert(image@.pixels.take(i + 1).drop_last() =~= image@.pixels.take(i as int));
            lemma_count_where_bound(image@.pixels.take(i as int), f);
        }
        if pixel_matches_hsv_range(&p, range) {
            count = count + 1;
        }
        i = i + 1;
    }
    assert(image@.pixels.take(n as int) =~= image@.pixels);
    PixelRatio { count, total: n as u64 }
}

/// Share of pixels at least as bright as `min`, and the highest brightness.
pub fn bright_metrics(image: &Frame, min: u8) -> (r: (PixelRatio, u8))
    ensures
        r.0.total == image@.pixels.len(),
        r.0.count == count_where(image@.pixels, bright_pred(min)),
        r.1 == max_brightness(image@.pixels),
{
    let ghost f = bright_pred(min);
    let n = image.pixel_count();
    let mut count: u64 = 0;
    let mut max: u8 = 0;
    let mut i: usize = 0;
    while i < n
        invariant
            n == image@.pixels.len(),
            i <= n,
            f == bright_pred(min),
            count == count_where(image@.pixels.take(i as int), f),
            max == max_brightness(image@.pixels.take(i as int)),
        decreases n - i,
    {
        let p = image.pixel_at(i);
        proof {
            assert(image@.pixels.take(i + 1).last() == p);
            assert(image@.pixels.take(i + 1).drop_last() =~= image@.pixels.take(i as int));
            lemma_count_where_bound(image@.pixels.take(i as int), f);
        }
        let b = pixel_brightness(p);
        if b > max {
            max = b;
        }
        if b >= min {
            count = count + 1;
        }
        i = i + 1;
    }
    assert(image@.pixels.take(n as int) =~= image@.pixels);
    (PixelRatio { count, total: n as u64 }, max)
}

/// The hue of HSV, per colour sector: with `delta` the chroma (largest minus
/// smallest channel) and the hue as `hue_times_delta / delta` degrees, a
/// strictly largest green channel puts the hue at `120 + 60 * (B - R) /
/// delta`, a strictly largest blue one at `240 + 60 * (R - G) / delta`, and
/// a strictly largest red one at `60 * (G - B) / delta`, taken modulo 360.
pub proof fn law_hue_by_sector(r: u8, g: u8, b: u8)
    ensures
        g > r && g > b ==> {
            let d = g - (if r <= b { r as int } else { b as int });
            &&& rgb_delta(r, g, b) == d
            &&& hue_times_delta(r, g, b) == 120 * d + 60 * (b - r)
        },
        b > r && b > g ==> {
            let d = b - (if r <= g { r as int } else { g as int });
            &&& rgb_delta(r, g, b) == d
            &&& hue_times_delta(r, g, b) == 240 * d + 60 * (r - g)
        },
        r > g && r > b ==> {
            let d = r - (if g <= b { g as int } else { b as int });
            &&& rgb_delta(r, g, b) == d
            &&& hue_times_delta(r, g, b) == if g >= b { 60 * (g - b) } else { 360 * d + 60 * (g - b) }
        },
{
}

/// Rotating the channels rotates the hue: moving red's value to green,
/// green's to blue and blue's to red turns the hue by 120 degrees, and
/// moving red's to blue, green's to red and blue's to green by 240 degrees
/// (for a colour whose red channel is strictly largest and whose hue lies
/// below 120 degrees), while the chroma stays the same.
pub proof fn law_hue_rotation(r: u8, g: u8, b: u8)
    requires
        r > g && r > b && g >= b,
    ensures
        rgb_delta(b, r, g) == rgb_delta(r, g, b),
        rgb_delta(g, b, r) == rgb_delta(r, g, b),
        hue_times_delta(b, r, g) == hue_times_delta(r, g, b) + 120 * rgb_delta(r, g, b),
        hue_times_delta(g, b, r) == hue_times_delta(r, g, b) + 240 * rgb_delta(r, g, b),
{
}

} // verus!
