//! RGBA frames: the pixel buffer that detectors read.
use vstd::prelude::*;

verus! {

/// One RGBA pixel.
#[derive(Clone, Copy, Debug, PartialEq, Eq)]
pub struct Rgba(pub [u8; 4]);

/// Abstract content of a frame: its size and its pixels in row-major order.
pub struct FrameView {
    pub width: nat,
    pub height: nat,
    pub pixels: Seq<[u8; 4]>,
}

impl FrameView {
    /// Row-major index of pixel `(x, y)`.
    pub open spec fn index_of(self, x: int, y: int) -> int {
        y * self.width + x
    }

    /// The pixel at column `x`, row `y`.
    pub open spec fn pixel(self, x: int, y: int) -> [u8; 4] {
        self.pixels[self.index_of(x, y)]
    }

    /// The raw RGBA bytes, 4 per pixel, row-major.
    pub open spec fn bytes(self) -> Seq<u8> {
        Seq::new(4 * self.pixels.len(), |i: int| self.pixels[i / 4][i % 4])
    }

    /// Pixel count and size agree.
    pub open spec fn well_formed(self) -> bool {
        self.pixels.len() == self.width * self.height
    }
}

/// `y * w + x` indexes a pixel of a `w` by `h` frame.
pub proof fn lemma_index_in_bounds(x: int, y: int, w: int, h: int)
    requires
        0 <= x < w,
        0 <= y < h,
    ensures
        0 <= y * w + x < w * h,
        y * w + x + 1 <= (y + 1) * w,
        (y + 1) * w <= w * h,
{
    assert(0 <= y * w) by (nonlinear_arith)
        requires
            0 <= y,
            0 <= w,
    ;
    assert((y + 1) * w <= h * w) by (nonlinear_arith)
        requires
            y + 1 <= h,
            0 <= w,
    ;
    assert((y + 1) * w == y * w + w) by (nonlinear_arith);
    assert(h * w == w * h) by (nonlinear_arith);
}

/// A product of two `u32` values fits in a `u64`.
pub proof fn lemma_u32_product(a: u32, b: u32)
    ensures
        a as nat * b as nat <= u64::MAX,
{
    assert(a as nat * b as nat <= u32::MAX as nat * u32::MAX as nat) by (nonlinear_arith)
        requires
            a <= u32::MAX,
            b <= u32::MAX,
    ;
}

/// Row-major index `y * width + x` of a pixel inside a `width` by `height` frame
/// holding `len` pixels.
fn pixel_index(width: u32, height: u32, len: usize, x: u32, y: u32) -> (i: usize)
    requires
        x < width,
        y < height,
        len == width * height,
    ensures
        i == y * width + x,
        i < len,
{
    proof {
        lemma_index_in_bounds(x as int, y as int, width as int, height as int);
        lemma_u32_product(y, width);
    }
    (y as u64 * width as u64 + x as u64) as usize
}

/// An RGBA image of `width` by `height` pixels, row-major.
pub struct Frame {
    width: u32,
    height: u32,
    pixels: Vec<[u8; 4]>,
}

impl View for Frame {
    type V = FrameView;

    closed spec fn view(&self) -> FrameView {
        FrameView { width: self.width as nat, height: self.height as nat, pixels: self.pixels@ }
    }
}

impl Frame {
    #[verifier::type_invariant]
    spec fn inv(&self) -> bool {
        self.pixels@.len() == self.width as nat * self.height as nat
    }

    /// A frame of the given size with every pixel `[0, 0, 0, 0]`.
    pub fn new(width: u32, height: u32) -> (f: Frame)
        requires
            width as nat * height as nat <= usize::MAX,
        ensures
            f@.width == width,
            f@.height == height,
            f@.pixels.len() == width * height,
            forall|i: int| 0 <= i < f@.pixels.len() ==> #[trigger] f@.pixels[i] == [0u8, 0, 0, 0],
    {
        let n: usize = (width as u64 * height as u64) as usize;
        let mut pixels: Vec<[u8; 4]> = Vec::new();
        while pixels.len() < n
            invariant
                n == width * height,
                pixels.len() <= n,
                forall|i: int| 0 <= i < pixels@.len() ==> #[trigger] pixels@[i] == [0u8, 0, 0, 0],
            decreases n - pixels.len(),
        {
            pixels.push([0u8, 0, 0, 0]);
        }
        Frame { width, height, pixels }
    }

    /// A frame from raw RGBA bytes (4 per pixel, row-major); `None` when the
    /// byte count is not `4 * width * height`.
    pub fn from_raw(width: u32, height: u32, raw: &Vec<u8>) -> (f: Option<Frame>)
        ensures
            f is Some <==> raw.len() == 4 * (width * height),
            f matches Some(fr) ==> fr@.width == width && fr@.height == height && fr@.pixels.len()
                == width * height && (forall|i: int|
                0 <= i < fr@.pixels.len() ==> #[trigger] fr@.pixels[i] == [
                    raw@[4 * i],
                    raw@[4 * i + 1],
                    raw@[4 * i + 2],
                    raw@[4 * i + 3],
                ]),
    {
        proof {
            lemma_u32_product(width, height);
        }
        let n: u64 = width as u64 * height as u64;
        if raw.len() % 4 != 0 || raw.len() as u64 / 4 != n {
            assert(raw.len() != 4 * (width * height));
            return None;
        }
        let count: usize = raw.len() / 4;
        assert(count == width * height);
        let mut pixels: Vec<[u8; 4]> = Vec::new();
        let mut i: usize = 0;
        while i < count
            invariant
                count * 4 == raw.len(),
                i <= count,
                pixels@.len() == i,
                forall|k: int| 0 <= k < i ==> #[trigger] pixels@[k] == [
                    raw@[4 * k],
                    raw@[4 * k + 1],
                    raw@[4 * k + 2],
                    raw@[4 * k + 3],
                ],
            decreases count - i,
        {
            let p = [raw[4 * i], raw[4 * i + 1], raw[4 * i + 2], raw[4 * i + 3]];
            pixels.push(p);
            i = i + 1;
        }
        Some(Frame { width, height, pixels })
    }

    /// The raw RGBA bytes of the frame, 4 per pixel, row-major.
    pub fn to_raw(&self) -> (raw: Vec<u8>)
        ensures
            raw@.len() == 4 * self@.pixels.len(),
            raw@ == self@.bytes(),
            forall|i: int, c: int|
                0 <= i < self@.pixels.len() && 0 <= c < 4 ==> #[trigger] raw@[4 * i + c]
                    == self@.pixels[i][c],
    {
        let mut raw: Vec<u8> = Vec::new();
        let mut i: usize = 0;
        while i < self.pixels.len()
            invariant
                i <= self.pixels.len(),
                raw@.len() == 4 * i,
                forall|k: int, c: int|
                    0 <= k < i && 0 <= c < 4 ==> #[trigger] raw@[4 * k + c] == self.pixels@[k][c],
            decreases self.pixels.len() - i,
        {
            let p = self.pixels[i];
            raw.push(p[0]);
            raw.push(p[1]);
            raw.push(p[2]);
            raw.push(p[3]);
            proof {
                assert forall|k: int, c: int| 0 <= k < i + 1 && 0 <= c < 4 implies #[trigger] raw@[4
                    * k + c] == self.pixels@[k][c] by {
                    if k == i {
                        assert(c == 0 || c == 1 || c == 2 || c == 3);
                    }
                }
            }
            i = i + 1;
        }
        proof {
            assert forall|j: int| 0 <= j < raw@.len() implies raw@[j] == self@.bytes()[j] by {
                let k = j / 4;
                let c = j % 4;
                assert(j == 4 * k + c);
                assert(raw@[4 * k + c] == self.pixels@[k][c]);
            }
            assert(raw@ =~= self@.bytes());
        }
        raw
    }

    /// Width in pixels.
    pub fn width(&self) -> (w: u32)
        ensures
            w == self@.width,
    {
        self.width
    }

    /// Height in pixels.
    pub fn height(&self) -> (h: u32)
        ensures
            h == self@.height,
    {
        self.height
    }

    /// Number of pixels.
    pub fn pixel_count(&self) -> (n: usize)
        ensures
            n == self@.pixels.len(),
            n == self@.width * self@.height,
    {
        proof {
            use_type_invariant(self);
        }
        self.pixels.len()
    }

    /// The pixel with row-major index `i`.
    pub fn pixel_at(&self, i: usize) -> (p: [u8; 4])
        requires
            i < self@.pixels.len(),
        ensures
            p == self@.pixels[i as int],
    {
        self.pixels[i]
    }

    /// The pixel at column `x`, row `y`.
    pub fn get_pixel(&self, x: u32, y: u32) -> (p: Rgba)
        requires
            x < self@.width,
            y < self@.height,
        ensures
            p.0 == self@.pixel(x as int, y as int),
    {
        proof {
            use_type_invariant(self);
            lemma_index_in_bounds(x as int, y as int, self.width as int, self.height as int);
        }
        let i = pixel_index(self.width, self.height, self.pixels.len(), x, y);
        Rgba(self.pixels[i])
    }

    /// Set the pixel at column `x`, row `y`.
    pub fn put_pixel(&mut self, x: u32, y: u32, p: Rgba)
        requires
            x < old(self)@.width,
            y < old(self)@.height,
        ensures
            final(self)@.width == old(self)@.width,
            final(self)@.height == old(self)@.height,
            final(self)@.pixels == old(self)@.pixels.update(
                old(self)@.index_of(x as int, y as int),
                p.0,
            ),
    {
        proof {
            use_type_invariant(&*self);
            lemma_index_in_bounds(x as int, y as int, self.width as int, self.height as int);
        }
        let i = pixel_index(self.width, self.height, self.pixels.len(), x, y);
        let mut taken = Frame { width: 0, height: 0, pixels: Vec::new() };
        std::mem::swap(&mut taken, self);
        let Frame { width, height, mut pixels } = taken;
        pixels.set(i, p.0);
        *self = Frame { width, height, pixels };
    }

    /// The `w` by `h` region whose top-left corner is `(x, y)`.
    pub fn crop_region(&self, x: u32, y: u32, w: u32, h: u32) -> (out: Frame)
        requires
            x + w <= self@.width,
            y + h <= self@.height,
        ensures
            out@.width == w,
            out@.height == h,
            out@.pixels.len() == w * h,
            forall|cx: int, cy: int|
                0 <= cx < w && 0 <= cy < h ==> #[trigger] out@.pixel(cx, cy) == self@.pixel(
                    x + cx,
                    y + cy,
                ),
    {
        proof {
            use_type_invariant(self);
        }
        let mut pixels: Vec<[u8; 4]> = Vec::new();
        let mut cy: u32 = 0;
        while cy < h
            invariant
                y + h <= self.height,
                x + w <= self.width,
                self.pixels@.len() == self.width * self.height,
                cy <= h,
                pixels@.len() == cy * w,
                forall|px: int, py: int|
                    0 <= px < w && 0 <= py < cy ==> #[trigger] pixels@[py * w + px]
                        == self.pixels@[(y + py) * self.width + x + px],
            decreases h - cy,
        {
            let mut cx: u32 = 0;
            let ghost before = pixels@;
            while cx < w
                invariant
                    y + h <= self.height,
                    x + w <= self.width,
                    self.pixels@.len() == self.width * self.height,
                    cy < h,
                    cx <= w,
                    before.len() == cy * w,
                    pixels@.len() == cy * w + cx,
                    pixels@.take(before.len() as int) == before,
                    forall|px: int| 0 <= px < cx ==> #[trigger] pixels@[cy * w + px]
                        == self.pixels@[(y + cy) * self.width + x + px],
                decreases w - cx,
            {
                proof {
                    lemma_index_in_bounds(
                        (x + cx) as int,
                        (y + cy) as int,
                        self.width as int,
                        self.height as int,
                    );
                }
                let i = pixel_index(self.width, self.height, self.pixels.len(), x + cx, y + cy);
                let ghost prev = pixels@;
                pixels.push(self.pixels[i]);
                assert(pixels@.take(before.len() as int) =~= prev.take(before.len() as int));
                cx = cx + 1;
            }
            proof {
                assert((cy + 1) * w == cy * w + w) by (nonlinear_arith);
                assert forall|px: int, py: int|
                    0 <= px < w && 0 <= py < cy + 1 implies #[trigger] pixels@[py * w + px]
                    == self.pixels@[(y + py) * self.width + x + px] by {
                    if py < cy {
                        lemma_index_in_bounds(px, py, w as int, cy as int);
                        assert(pixels@[py * w + px] == before[py * w + px]);
                    }
                }
            }
            cy = cy + 1;
        }
        proof {
            assert(h * w == w * h) by (nonlinear_arith);
            assert forall|cx: int, cy: int| 0 <= cx < w && 0 <= cy < h implies #[trigger] FrameView {
                width: w as nat,
                height: h as nat,
                pixels: pixels@,
            }.pixel(cx, cy) == self@.pixel(x + cx, y + cy) by {}
        }
        Frame { width: w, height: h, pixels }
    }
}

} // verus!
