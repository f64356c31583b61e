//! The palettize filter: recolor the image using only colors found in a
//! caller-supplied reference image, nearest in RGB space first.

use vstd::prelude::*;
use crate::codec::LoadError;
use crate::codec::load_image;
use crate::mods::ModResult;
use crate::pixmap::Image;
use crate::pixmap::Pixel;

verus! {

/// Every distinct RGBA color of the sequence, in order of first appearance.
pub open spec fn palette_of(s: Seq<Pixel>) -> Seq<Pixel>
    decreases s.len(),
{
    if s.len() == 0 {
        Seq::empty()
    } else {
        let pre = palette_of(s.drop_last());
        if pre.contains(s.last()) {
            pre
        } else {
            pre.push(s.last())
        }
    }
}

/// Squared distance between two colors in RGB space; alpha plays no part.
pub open spec fn rgb_dist2(a: Pixel, b: Pixel) -> int {
    (a.r - b.r) * (a.r - b.r) + (a.g - b.g) * (a.g - b.g) + (a.b - b.b) * (a.b - b.b)
}

/// The palette entry nearest to `p`; on an exact tie the earliest wins.
pub open spec fn nearest_in(pal: Seq<Pixel>, p: Pixel) -> int
    decreases pal.len(),
{
    if pal.len() <= 1 {
        0
    } else {
        let j = nearest_in(pal.drop_last(), p);
        if rgb_dist2(pal.last(), p) < rgb_dist2(pal[j], p) {
            pal.len() - 1
        } else {
            j
        }
    }
}

/// What palettizing gives one pixel: the nearest palette color's RGB with
/// the pixel's own alpha; with an empty palette, black with that alpha.
pub open spec fn palettized_px(pal: Seq<Pixel>, p: Pixel) -> Pixel {
    if pal.len() == 0 {
        Pixel { r: 0, g: 0, b: 0, a: p.a }
    } else {
        let q = pal[nearest_in(pal, p)];
        Pixel { r: q.r, g: q.g, b: q.b, a: p.a }
    }
}

/// A sequence of one repeated color has that color as its whole palette.
proof fn lemma_palette_of_constant(s: Seq<Pixel>, c: Pixel)
    requires
        s.len() > 0,
        forall|i: int| 0 <= i < s.len() ==> s[i] == c,
    ensures
        palette_of(s) == seq![c],
    decreases s.len(),
{
    if s.len() == 1 {
        assert(s.drop_last() =~= Seq::<Pixel>::empty());
        assert(palette_of(Seq::<Pixel>::empty()) == Seq::<Pixel>::empty());
        assert(!Seq::<Pixel>::empty().contains(c));
        assert(s.last() == c);
        assert(palette_of(s) =~= seq![c]);
    } else {
        assert(forall|i: int| 0 <= i < s.drop_last().len() ==> s.drop_last()[i] == c);
        lemma_palette_of_constant(s.drop_last(), c);
        assert(seq![c][0] == c);
        assert(palette_of(s.drop_last()).contains(c));
        assert(s.last() == c);
    }
}

/// When the reference holds exactly one color, every pixel palettizes to
/// that color's RGB with its own alpha kept.
pub proof fn lemma_pallettize_single_color(ref_px: Seq<Pixel>, c: Pixel, p: Pixel)
    requires
        ref_px.len() > 0,
        forall|i: int| 0 <= i < ref_px.len() ==> ref_px[i] == c,
    ensures
        palettized_px(palette_of(ref_px), p) == (Pixel { r: c.r, g: c.g, b: c.b, a: p.a }),
{
    lemma_palette_of_constant(ref_px, c);
    assert(seq![c].len() == 1);
    assert(seq![c][0] == c);
}

/// Is `out` what palettizing `img` against a reference with the pixels
/// `ref_px` gives, pixel for pixel?
pub open spec fn palettized_against(out: Image, img: Image, ref_px: Seq<Pixel>) -> bool {
    forall|i: int|
        0 <= i < img.pixels@.len() ==> out.pixels@[i] == palettized_px(
            palette_of(ref_px),
            img.pixels@[i],
        )
}

/// Is this pixel among those already collected?
fn palette_contains(pal: &Vec<Pixel>, p: Pixel) -> (r: bool)
    ensures
        r == pal@.contains(p),
{
    let mut i: usize = 0;
    while i < pal.len()
        invariant
            i <= pal@.len(),
            forall|j: int| 0 <= j < i ==> pal@[j] != p,
        decreases pal@.len() - i,
    {
        if pal[i] == p {
            assert(pal@[i as int] == p);
            return true;
        }
        i = i + 1;
    }
    false
}

/// Collect every distinct color of the reference, first appearance first.
fn build_palette(reference: &Image) -> (pal: Vec<Pixel>)
    ensures
        pal@ == palette_of(reference.pixels@),
{
    let n: usize = reference.pixels.len();
    let mut pal: Vec<Pixel> = Vec::new();
    let mut i: usize = 0;
    while i < n
        invariant
            i <= n,
            n == reference.pixels@.len(),
            pal@ == palette_of(reference.pixels@.take(i as int)),
        decreases n - i,
    {
        let p = reference.pixels[i];
        proof {
            assert(reference.pixels@.take(i as int + 1).drop_last() =~= reference.pixels@.take(
                i as int,
            ));
            assert(reference.pixels@.take(i as int + 1).last() == reference.pixels@[i as int]);
        }
        if !palette_contains(&pal, p) {
            pal.push(p);
        }
        i = i + 1;
    }
    proof {
        assert(reference.pixels@.take(n as int) =~= reference.pixels@);
    }
    pal
}

proof fn lemma_sq_diff_bound(d: int)
    requires
        -255 <= d <= 255,
    ensures
        0 <= d * d <= 65025,
{
    assert(0 <= d * d <= 65025) by (nonlinear_arith)
        requires
            -255 <= d <= 255,
    ;
}

/// Squared RGB distance, in executable arithmetic.
fn rgb_dist2_exec(a: Pixel, b: Pixel) -> (d: u32)
    ensures
        d == rgb_dist2(a, b),
{
    let dr: i32 = a.r as i32 - b.r as i32;
    let dg: i32 = a.g as i32 - b.g as i32;
    let db: i32 = a.b as i32 - b.b as i32;
    proof {
        lemma_sq_diff_bound(dr as int);
        lemma_sq_diff_bound(dg as int);
        lemma_sq_diff_bound(db as int);
    }
    (dr * dr + dg * dg + db * db) as u32
}

/// The index of the palette color nearest to `p`, earliest first on ties.
fn nearest_color(pal: &Vec<Pixel>, p: Pixel) -> (k: usize)
    requires
        pal@.len() >= 1,
    ensures
        k == nearest_in(pal@, p),
        k < pal@.len(),
{
    let mut best: usize = 0;
    let mut bestd: u32 = rgb_dist2_exec(pal[0], p);
    let mut i: usize = 1;
    while i < pal.len()
        invariant
            1 <= i <= pal@.len(),
            best == nearest_in(pal@.take(i as int), p),
            best < i,
            bestd == rgb_dist2(pal@[best as int], p),
        decreases pal@.len() - i,
    {
        let d = rgb_dist2_exec(pal[i], p);
        proof {
            assert(pal@.take(i as int + 1).drop_last() =~= pal@.take(i as int));
            assert(pal@.take(i as int + 1).last() == pal@[i as int]);
        }
        if d < bestd {
            best = i;
            bestd = d;
        }
        i = i + 1;
    }
    proof {
        assert(pal@.take(pal@.len() as int) =~= pal@);
    }
    best
}

/// Recolor the image with the palette drawn from the given reference
/// image: each pixel takes the nearest palette color's RGB and keeps its
/// own alpha.
pub fn pallettize_with(img: &Image, reference: &Image) -> (r: Image)
    requires
        img.wf(),
    ensures
        r.wf(),
        r.width == img.width,
        r.height == img.height,
        forall|i: int|
            0 <= i < img.pixels@.len() ==> r.pixels@[i] == palettized_px(
                palette_of(reference.pixels@),
                img.pixels@[i],
            ),
{
    let pal = build_palette(reference);
    let n: usize = img.pixels.len();
    let mut out_px: Vec<Pixel> = Vec::new();
    let mut i: usize = 0;
    while i < n
        invariant
            i <= n,
            n == img.pixels@.len(),
            pal@ == palette_of(reference.pixels@),
            out_px@.len() == i,
            forall|j: int| 0 <= j < i ==> out_px@[j] == palettized_px(pal@, img.pixels@[j]),
        decreases n - i,
    {
        let p = img.pixels[i];
        let q = if pal.len() == 0 {
            Pixel { r: 0, g: 0, b: 0, a: p.a }
        } else {
            let k = nearest_color(&pal, p);
            let c = pal[k];
            Pixel { r: c.r, g: c.g, b: c.b, a: p.a }
        };
        out_px.push(q);
        i = i + 1;
    }
    Image { width: img.width, height: img.height, pixels: out_px }
}

/// Recolor the image using only colors found in a reference image, named
/// by the one argument; the reference is loaded from disk, and a load
/// failure is an operational error, not an argument error.
pub fn pallettize(img: Image, args: Vec<String>) -> (r: ModResult)
    requires
        img.wf(),
    ensures
        ({
            let a = args@;
            if a.len() != 1 {
                r matches ModResult::ArgError(m) && m@ == "Requires one file to use as a pallette."@
            } else {
                &&& !(r is ArgError)
                &&& (r matches ModResult::Error(m) ==> (m@
                    == "Error with pallette file: Failed to open file."@ || m@
                    == "Error with pallette file: Failed to read file."@))
                &&& (r matches ModResult::Success(out) ==> {
                    &&& out.wf()
                    &&& out.width == img.width
                    &&& out.height == img.height
                    &&& exists|ref_px: Seq<Pixel>| palettized_against(out, img, ref_px)
                })
            }
        }),
{
    if args.len() != 1 {
        return ModResult::ArgError("Requires one file to use as a pallette.".to_owned());
    }
    let reference = match load_image(args[0].as_str()) {
        Ok(loaded) => loaded,
        Err(LoadError::Open) => {
            return ModResult::Error("Error with pallette file: Failed to open file.".to_owned());
        },
        Err(LoadError::Decode) => {
            return ModResult::Error("Error with pallette file: Failed to read file.".to_owned());
        },
    };
    let out = pallettize_with(&img, &reference);
    proof {
        assert(palettized_against(out, img, reference.pixels@));
    }
    ModResult::Success(out)
}

} // verus!
