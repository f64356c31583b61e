//! The in-memory picture model: an RGBA pixel and a row-major pixel grid.

use vstd::prelude::*;

verus! {

/// One pixel: red, green, blue and alpha channels, 8 bits each.
#[derive(Clone, Copy, PartialEq, Eq, Structural, Debug)]
pub struct Pixel {
    pub r: u8,
    pub g: u8,
    pub b: u8,
    pub a: u8,
}

/// A raster image: a grid of pixels stored row by row, addressed by
/// (x, y) with x in [0, width) and y in [0, height).
pub struct Image {
    pub width: u32,
    pub height: u32,
    pub pixels: Vec<Pixel>,
}

impl Image {
    /// Well-formed: the buffer holds exactly one pixel per grid cell, and a
    /// four-byte-per-pixel copy of the buffer fits in a `usize` count.
    pub open spec fn wf(self) -> bool {
        &&& self.pixels@.len() == self.width * self.height
        &&& 4 * self.pixels@.len() <= usize::MAX
    }

    /// The pixel at column x, row y.
    pub open spec fn px(self, x: int, y: int) -> Pixel {
        self.pixels@[y * self.width + x]
    }

    /// Read the pixel at (x, y).
    pub fn get_px(&self, x: u32, y: u32) -> (p: Pixel)
        requires
            self.wf(),
            x < self.width,
            y < self.height,
        ensures
            p == self.px(x as int, y as int),
    {
        proof {
            lemma_rowmajor_in_range(x as int, y as int, self.width as int, self.height as int);
        }
        let idx: usize = (y as usize) * (self.width as usize) + (x as usize);
        self.pixels[idx]
    }
}

/// A row-major index stays inside the buffer of a well-formed image.
pub proof fn lemma_rowmajor_in_range(x: int, y: int, w: int, h: int)
    requires
        0 <= x < w,
        0 <= y < h,
    ensures
        0 <= y * w + x < w * h,
{
    assert(y * w + x < w * h) by (nonlinear_arith)
        requires
            0 <= x < w,
            0 <= y < h,
    ;
}

/// A row-major index decomposes back into its column and row.
pub proof fn lemma_rowmajor_decomp(x: int, y: int, w: int)
    requires
        0 <= x < w,
        0 <= y,
    ensures
        (y * w + x) % w == x,
        (y * w + x) / w == y,
{
    assert((y * w + x) % w == x && (y * w + x) / w == y) by (nonlinear_arith)
        requires
            0 <= x < w,
            0 <= y,
    ;
}

/// A buffer index splits into its column `i % w` and row `i / w`.
pub proof fn lemma_index_decomp(i: int, w: int, h: int)
    requires
        w > 0,
        0 <= i < w * h,
    ensures
        0 <= i % w < w,
        0 <= i / w < h,
        (i / w) * w + (i % w) == i,
{
    vstd::arithmetic::div_mod::lemma_fundamental_div_mod(i, w);
    vstd::arithmetic::div_mod::lemma_mod_bound(i, w);
    let q = i / w;
    let m = i % w;
    assert(0 <= q && q < h) by (nonlinear_arith)
        requires
            i == w * q + m,
            0 <= m < w,
            0 <= i,
            i < w * h,
    ;
    assert(q * w + m == i) by (nonlinear_arith)
        requires
            i == w * q + m,
    ;
}

/// Build an image from a flat byte buffer holding four bytes (r, g, b, a)
/// per pixel, row by row; `None` when the buffer length does not match the
/// dimensions.
pub fn image_from_raw(width: u32, height: u32, raw: Vec<u8>) -> (r: Option<Image>)
    ensures
        r is Some <==> raw@.len() == 4 * width * height,
        r matches Some(img) ==> {
            &&& img.wf()
            &&& img.width == width
            &&& img.height == height
            &&& forall|i: int|
                0 <= i < img.pixels@.len() ==> img.pixels@[i] == (Pixel {
                    r: raw@[4 * i],
                    g: raw@[4 * i + 1],
                    b: raw@[4 * i + 2],
                    a: raw@[4 * i + 3],
                })
        },
{
    proof {
        assert((width as int) * (height as int) <= 0xFFFF_FFFFint * 0xFFFF_FFFFint)
            by (nonlinear_arith)
            requires
                width <= 0xFFFF_FFFFu32,
                height <= 0xFFFF_FFFFu32,
        ;
    }
    let wh: u64 = (width as u64) * (height as u64);
    let len: usize = raw.len();
    proof {
        let l = raw@.len() as int;
        let p = (width as int) * (height as int);
        assert(4 * (width as int) * (height as int) == 4 * ((width as int) * (height as int)))
            by (nonlinear_arith);
        vstd::arithmetic::div_mod::lemma_fundamental_div_mod(l, 4);
        if l == 4 * p {
            vstd::arithmetic::div_mod::lemma_fundamental_div_mod_converse(l, 4, p, 0);
        }
    }
    if len % 4 != 0 || (len / 4) as u64 != wh {
        return None;
    }
    let n: usize = len / 4;
    assert(n == width * height);
    let mut pixels: Vec<Pixel> = Vec::new();
    let mut i: usize = 0;
    while i < n
        invariant
            i <= n,
            n == width * height,
            raw@.len() == 4 * n,
            raw@.len() <= usize::MAX,
            pixels@.len() == i,
            forall|j: int|
                0 <= j < i ==> pixels@[j] == (Pixel {
                    r: raw@[4 * j],
                    g: raw@[4 * j + 1],
                    b: raw@[4 * j + 2],
                    a: raw@[4 * j + 3],
                }),
        decreases n - i,
    {
        let p = Pixel {
            r: raw[4 * i],
            g: raw[4 * i + 1],
            b: raw[4 * i + 2],
            a: raw[4 * i + 3],
        };
        pixels.push(p);
        i = i + 1;
    }
    Some(Image { width, height, pixels })
}

/// Flatten an image back into four bytes (r, g, b, a) per pixel, row by row.
pub fn image_to_raw(img: &Image) -> (raw: Vec<u8>)
    requires
        img.wf(),
    ensures
        raw@.len() == 4 * img.pixels@.len(),
        forall|i: int|
            0 <= i < img.pixels@.len() ==> {
                &&& raw@[4 * i] == img.pixels@[i].r
                &&& raw@[4 * i + 1] == img.pixels@[i].g
                &&& raw@[4 * i + 2] == img.pixels@[i].b
                &&& raw@[4 * i + 3] == img.pixels@[i].a
            },
{
    let n: usize = img.pixels.len();
    let mut raw: Vec<u8> = Vec::new();
    let mut i: usize = 0;
    while i < n
        invariant
            i <= n,
            n == img.pixels@.len(),
            4 * n <= usize::MAX,
            raw@.len() == 4 * i,
            forall|j: int|
                0 <= j < i ==> {
                    &&& raw@[4 * j] == img.pixels@[j].r
                    &&& raw@[4 * j + 1] == img.pixels@[j].g
                    &&& raw@[4 * j + 2] == img.pixels@[j].b
                    &&& raw@[4 * j + 3] == img.pixels@[j].a
                },
        decreases n - i,
    {
        let p = img.pixels[i];
        raw.push(p.r);
        raw.push(p.g);
        raw.push(p.b);
        raw.push(p.a);
        i = i + 1;
    }
    raw
}

} // verus!
