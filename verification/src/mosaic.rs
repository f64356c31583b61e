//! The mosaic filter: the image is partitioned into Voronoi-like cells
//! around randomly placed seed points, and every pixel takes the input
//! image's color at its nearest seed.

use vstd::prelude::*;
use crate::mods::ModResult;
use crate::numparse::parse_u32;
use crate::numparse::u32_parseable;
use crate::numparse::u32_value;
use crate::pixmap::Image;
use crate::pixmap::Pixel;
use crate::pixmap::lemma_index_decomp;
use crate::pixmap::lemma_rowmajor_decomp;
use crate::pixmap::lemma_rowmajor_in_range;
use crate::randsrc::new_rng;
use crate::randsrc::next_u32;

verus! {

/// Squared Euclidean distance from the point (x, y) to a seed point.
pub open spec fn seed_dist2(x: int, y: int, pt: (u32, u32)) -> int {
    (x - pt.0) * (x - pt.0) + (y - pt.1) * (y - pt.1)
}

/// The seed nearest to (x, y); on an exact tie the earliest seed wins.
pub open spec fn closest_seed(pts: Seq<(u32, u32)>, x: int, y: int) -> int
    decreases pts.len(),
{
    if pts.len() <= 1 {
        0
    } else {
        let j = closest_seed(pts.drop_last(), x, y);
        if seed_dist2(x, y, pts.last()) < seed_dist2(x, y, pts[j]) {
            pts.len() - 1
        } else {
            j
        }
    }
}

/// The color the mosaic gives the point (x, y): the input image's color at
/// the nearest seed.
pub open spec fn mosaic_px(img: Image, pts: Seq<(u32, u32)>, x: int, y: int) -> Pixel {
    let pt = pts[closest_seed(pts, x, y)];
    img.px(pt.0 as int, pt.1 as int)
}

/// With a single seed, every point takes the color at that seed.
pub proof fn lemma_mosaic_single_seed(img: Image, pts: Seq<(u32, u32)>, x: int, y: int)
    requires
        pts.len() == 1,
    ensures
        mosaic_px(img, pts, x, y) == img.px(pts[0].0 as int, pts[0].1 as int),
{
}

/// Are all seed points inside the image's bounds?
pub open spec fn seeds_in_bounds(pts: Seq<(u32, u32)>, img: Image) -> bool {
    forall|k: int| 0 <= k < pts.len() ==> (pts[k].0 < img.width && pts[k].1 < img.height)
}

proof fn lemma_sq_in_u64(d: int)
    requires
        -0x1_0000_0000 < d < 0x1_0000_0000,
    ensures
        0 <= d * d < 0x1_0000_0000_0000_0000,
{
    assert(0 <= d * d < 0x1_0000_0000_0000_0000) by (nonlinear_arith)
        requires
            -0x1_0000_0000 < d < 0x1_0000_0000,
    ;
}

/// Squared distance to a seed, in executable arithmetic.
fn dist2_exec(x: u32, y: u32, pt: (u32, u32)) -> (d: u128)
    ensures
        d == seed_dist2(x as int, y as int, pt),
{
    let dx: i128 = (x as i128) - (pt.0 as i128);
    let dy: i128 = (y as i128) - (pt.1 as i128);
    proof {
        lemma_sq_in_u64(dx as int);
        lemma_sq_in_u64(dy as int);
    }
    (dx * dx + dy * dy) as u128
}

/// The index of the seed nearest to (x, y), earliest seed first on ties.
fn nearest_seed(pts: &Vec<(u32, u32)>, x: u32, y: u32) -> (k: usize)
    requires
        pts@.len() >= 1,
    ensures
        k == closest_seed(pts@, x as int, y as int),
        k < pts@.len(),
{
    let mut best: usize = 0;
    let mut bestd: u128 = dist2_exec(x, y, pts[0]);
    let mut i: usize = 1;
    while i < pts.len()
        invariant
            1 <= i <= pts@.len(),
            best == closest_seed(pts@.take(i as int), x as int, y as int),
            best < i,
            bestd == seed_dist2(x as int, y as int, pts@[best as int]),
        decreases pts@.len() - i,
    {
        let d = dist2_exec(x, y, pts[i]);
        proof {
            assert(pts@.take(i as int + 1).drop_last() =~= pts@.take(i as int));
            assert(pts@.take(i as int + 1).last() == pts@[i as int]);
        }
        if d < bestd {
            best = i;
            bestd = d;
        }
        i = i + 1;
    }
    proof {
        assert(pts@.take(pts@.len() as int) =~= pts@);
    }
    best
}

/// Apply the mosaic for a given seed list: every pixel of the result is
/// the input image's color at the seed nearest to it.
pub fn mosaic_with_points(img: &Image, pts: &Vec<(u32, u32)>) -> (r: Image)
    requires
        img.wf(),
        pts@.len() >= 1,
        seeds_in_bounds(pts@, *img),
    ensures
        r.wf(),
        r.width == img.width,
        r.height == img.height,
        forall|x: int, y: int|
            0 <= x < img.width && 0 <= y < img.height ==> r.px(x, y) == mosaic_px(
                *img,
                pts@,
                x,
                y,
            ),
{
    let w: usize = img.width as usize;
    let n: usize = img.pixels.len();
    let mut out_px: Vec<Pixel> = Vec::new();
    let mut i: usize = 0;
    while i < n
        invariant
            i <= n,
            n == img.pixels@.len(),
            img.wf(),
            w == img.width,
            pts@.len() >= 1,
            seeds_in_bounds(pts@, *img),
            out_px@.len() == i,
            forall|j: int|
                0 <= j < i ==> out_px@[j] == mosaic_px(*img, pts@, j % (img.width as int), j / (
                img.width as int)),
        decreases n - i,
    {
        proof {
            assert(img.width > 0 && img.height > 0) by (nonlinear_arith)
                requires
                    img.pixels@.len() == img.width * img.height,
                    0 <= i < img.pixels@.len(),
            ;
            lemma_index_decomp(i as int, img.width as int, img.height as int);
        }
        let x: u32 = (i % w) as u32;
        let y: u32 = (i / w) as u32;
        let k = nearest_seed(pts, x, y);
        let pt = pts[k];
        let p = img.get_px(pt.0, pt.1);
        out_px.push(p);
        i = i + 1;
    }
    let r = Image { width: img.width, height: img.height, pixels: out_px };
    proof {
        assert forall|x: int, y: int|
            0 <= x < img.width && 0 <= y < img.height implies r.px(x, y) == mosaic_px(
            *img,
            pts@,
            x,
            y,
        ) by {
            lemma_rowmajor_in_range(x, y, img.width as int, img.height as int);
            lemma_rowmajor_decomp(x, y, img.width as int);
        }
    }
    r
}

/// Partition the image into cells around randomly placed seed points and
/// give every pixel the color at its nearest seed. One argument: how many
/// seed points to place; it must be a positive whole number. An image
/// with no pixels has nothing to seed and comes back unchanged.
pub fn mosaic(img: Image, args: Vec<String>) -> (r: ModResult)
    requires
        img.wf(),
    ensures
        ({
            let a = args@;
            if a.len() != 1 || !u32_parseable(a[0]@) || u32_value(a[0]@) == 0 {
                r matches ModResult::ArgError(m) && m@
                    == "Requires a number of pieces to make the mosaic out of."@
            } else if img.width == 0 || img.height == 0 {
                r matches ModResult::Success(out) && out == img
            } else {
                r matches ModResult::Success(out) && {
                    &&& out.wf()
                    &&& out.width == img.width
                    &&& out.height == img.height
                    &&& exists|pts: Seq<(u32, u32)>|
                        {
                            &&& pts.len() == u32_value(a[0]@)
                            &&& seeds_in_bounds(pts, img)
                            &&& forall|x: int, y: int|
                                0 <= x < img.width && 0 <= y < img.height ==> out.px(x, y)
                                    == mosaic_px(img, pts, x, y)
                        }
                }
            }
        }),
{
    if args.len() != 1 {
        return ModResult::ArgError(
            "Requires a number of pieces to make the mosaic out of.".to_owned(),
        );
    }
    let num: u32 = match parse_u32(args[0].as_str()) {
        Some(v) => v,
        None => {
            return ModResult::ArgError(
                "Requires a number of pieces to make the mosaic out of.".to_owned(),
            );
        },
    };
    if num == 0 {
        return ModResult::ArgError(
            "Requires a number of pieces to make the mosaic out of.".to_owned(),
        );
    }
    if img.width == 0 || img.height == 0 {
        return ModResult::Success(img);
    }
    let w = img.width;
    let h = img.height;
    let mut rng = new_rng();
    let mut pts: Vec<(u32, u32)> = Vec::new();
    let mut i: u32 = 0;
    while i < num
        invariant
            i <= num,
            w == img.width,
            h == img.height,
            w > 0,
            h > 0,
            pts@.len() == i,
            seeds_in_bounds(pts@, img),
        decreases num - i,
    {
        let rx = next_u32(&mut rng) % w;
        let ry = next_u32(&mut rng) % h;
        pts.push((rx, ry));
        i = i + 1;
    }
    let out = mosaic_with_points(&img, &pts);
    proof {
        let witness = pts@;
        assert(witness.len() == u32_value(args@[0]@) && seeds_in_bounds(witness, img) && forall|
            x: int,
            y: int,
        |
            0 <= x < img.width && 0 <= y < img.height ==> out.px(x, y) == mosaic_px(
                img,
                witness,
                x,
                y,
            ));
    }
    ModResult::Success(out)
}

} // verus!
