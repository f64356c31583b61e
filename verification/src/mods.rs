//! The filters: each takes an image and its argument strings, validates the
//! arguments, and returns a new image or a typed failure. No filter changes
//! the canvas size: only channel values.

use vstd::prelude::*;
use vstd::arithmetic::div_mod::lemma_div_basics_1;
use vstd::arithmetic::div_mod::lemma_div_is_ordered;
use vstd::arithmetic::div_mod::lemma_div_multiples_vanish;
use vstd::arithmetic::div_mod::lemma_fundamental_div_mod;
use vstd::arithmetic::div_mod::lemma_fundamental_div_mod_converse;
use vstd::arithmetic::div_mod::lemma_mod_multiples_vanish;
use vstd::arithmetic::mul::lemma_mul_by_zero_is_zero;
use vstd::arithmetic::mul::lemma_mul_inequality;
use vstd::arithmetic::mul::lemma_mul_nonnegative;
use vstd::arithmetic::mul::lemma_mul_upper_bound;
use crate::codec::hue_rotated_px;
use crate::codec::huerotate_image;
use crate::hexcolor::HexError;
use crate::hexcolor::decode_hex;
use crate::hexcolor::hex_color;
use crate::hexcolor::hex_decodes;
use crate::hexcolor::hex_decode_err;
use crate::numparse::i32_parseable;
use crate::numparse::i32_value;
use crate::numparse::parse_i32;
use crate::pixmap::Image;
use crate::pixmap::Pixel;

verus! {

/// The three-way outcome of a filter: a new image, an operational failure,
/// or a complaint about the supplied arguments.
pub enum ModResult {
    Success(Image),
    Error(String),
    ArgError(String),
}

/// Return the input unchanged. Arguments are accepted and ignored.
pub fn copy(img: Image, _args: Vec<String>) -> (r: ModResult)
    ensures
        r matches ModResult::Success(out) && out == img,
{
    ModResult::Success(img)
}

/// Always fail with a fixed operational error, to exercise error reporting.
pub fn error_test(_img: Image, _args: Vec<String>) -> (r: ModResult)
    ensures
        r matches ModResult::Error(m) && m@ == "This error is intentional, and meant for testing."@,
{
    ModResult::Error("This error is intentional, and meant for testing.".to_owned())
}

/// Always fail with a fixed argument error, to exercise error reporting.
pub fn argerror_test(_img: Image, _args: Vec<String>) -> (r: ModResult)
    ensures
        r matches ModResult::ArgError(m) && m@
            == "This argument error is intentional, and meant for testing."@,
{
    ModResult::ArgError("This argument error is intentional, and meant for testing.".to_owned())
}

/// An angle reduced to [0, 360): hue rotation is periodic in full turns.
pub open spec fn norm_deg(d: int) -> int {
    d % 360
}

/// Reduce a signed angle to its representative in [0, 360).
fn normalize_degrees(deg: i32) -> (r: u32)
    ensures
        r == norm_deg(deg as int),
        r < 360,
{
    if deg >= 0 {
        (deg as u32) % 360
    } else {
        let n: u64 = (-(deg as i64)) as u64;
        let m: u64 = n % 360;
        proof {
            let a = deg as int;
            lemma_fundamental_div_mod(n as int, 360);
            let qn = n as int / 360;
            if m == 0 {
                assert(a == 360 * (-qn) + 0) by {
                    assert(n == 360 * qn + m);
                }
                lemma_fundamental_div_mod_converse(a, 360, -qn, 0);
            } else {
                assert(a == 360 * (-qn - 1) + (360 - m)) by {
                    assert(n == 360 * qn + m);
                }
                lemma_fundamental_div_mod_converse(a, 360, -qn - 1, 360 - m);
            }
        }
        if m == 0 {
            0
        } else {
            (360 - m) as u32
        }
    }
}

/// Rotating by a full turn more changes nothing: the angle only enters the
/// rotation through its representative modulo 360.
pub proof fn lemma_hue_rotation_periodic(p: Pixel, d: int)
    ensures
        hue_rotated_px(p, norm_deg(d + 360)) == hue_rotated_px(p, norm_deg(d)),
{
    lemma_mod_multiples_vanish(1, d, 360);
}

/// Rotate every pixel's hue by a signed whole number of degrees, taken
/// modulo 360; the alpha channel is untouched. One argument: the degrees.
pub fn hue_rotate(img: Image, args: Vec<String>) -> (r: ModResult)
    requires
        img.wf(),
    ensures
        ({
            let a = args@;
            if a.len() == 0 || !i32_parseable(a[0]@) {
                r matches ModResult::ArgError(m) && m@ == "Requires a number of degrees."@
            } else {
                r matches ModResult::Success(out) && {
                    &&& out.wf()
                    &&& out.width == img.width
                    &&& out.height == img.height
                    &&& forall|i: int|
                        0 <= i < img.pixels@.len() ==> out.pixels@[i] == hue_rotated_px(
                            img.pixels@[i],
                            norm_deg(i32_value(a[0]@)),
                        )
                    &&& forall|i: int|
                        0 <= i < img.pixels@.len() ==> out.pixels@[i].a == img.pixels@[i].a
                }
            }
        }),
{
    if args.len() == 0 {
        return ModResult::ArgError("Requires a number of degrees.".to_owned());
    }
    let deg: i32 = match parse_i32(args[0].as_str()) {
        Some(d) => d,
        None => {
            return ModResult::ArgError("Requires a number of degrees.".to_owned());
        },
    };
    let d = normalize_degrees(deg);
    let out = huerotate_image(&img, d as i32);
    ModResult::Success(out)
}

/// The complaint when a hex color argument fails: its prefix names which
/// basis color was at fault, its tail repeats why the string did not decode.
pub open spec fn hex_fail_red(s: Seq<char>) -> Seq<char> {
    if hex_decode_err(s) == Some(HexError::MissingDigits) {
        "Red hex color improperly formatted: Missing Digits."@
    } else {
        "Red hex color improperly formatted: Not a Hexadecimal Number."@
    }
}

pub open spec fn hex_fail_green(s: Seq<char>) -> Seq<char> {
    if hex_decode_err(s) == Some(HexError::MissingDigits) {
        "Green hex color improperly formatted: Missing Digits."@
    } else {
        "Green hex color improperly formatted: Not a Hexadecimal Number."@
    }
}

pub open spec fn hex_fail_blue(s: Seq<char>) -> Seq<char> {
    if hex_decode_err(s) == Some(HexError::MissingDigits) {
        "Blue hex color improperly formatted: Missing Digits."@
    } else {
        "Blue hex color improperly formatted: Not a Hexadecimal Number."@
    }
}

pub open spec fn hex_fail_plain(s: Seq<char>) -> Seq<char> {
    if hex_decode_err(s) == Some(HexError::MissingDigits) {
        "Hex color improperly formatted: Missing Digits."@
    } else {
        "Hex color improperly formatted: Not a Hexadecimal Number."@
    }
}

/// One output channel of the channel remap: the basis colors' channel `c`
/// values, weighed by the pixel's red, green and blue intensities out of
/// 255; the quotient is truncated, and clamped to 255.
pub open spec fn remap_chan(cr: u8, cg: u8, cb: u8, p: Pixel) -> int {
    let v = (cr * p.r + cg * p.g + cb * p.b) / 255;
    if v > 255 {
        255
    } else {
        v
    }
}

/// The channel remap of one pixel: each output channel blends the same
/// channel of the three basis colors; alpha is kept.
pub open spec fn remap_px(red: (u8, u8, u8), green: (u8, u8, u8), blue: (u8, u8, u8), p: Pixel) -> Pixel {
    Pixel {
        r: remap_chan(red.0, green.0, blue.0, p) as u8,
        g: remap_chan(red.1, green.1, blue.1, p) as u8,
        b: remap_chan(red.2, green.2, blue.2, p) as u8,
        a: p.a,
    }
}

proof fn lemma_remap_chan_bounds(cr: u8, cg: u8, cb: u8, p: Pixel)
    ensures
        0 <= remap_chan(cr, cg, cb, p) <= 255,
{
    lemma_mul_nonnegative(cr as int, p.r as int);
    lemma_mul_nonnegative(cg as int, p.g as int);
    lemma_mul_nonnegative(cb as int, p.b as int);
    lemma_div_is_ordered(0, cr * p.r + cg * p.g + cb * p.b, 255);
    lemma_div_basics_1(255);
}

/// With the identity basis (pure red, pure green, pure blue) the remap
/// gives every pixel back unchanged.
pub proof fn lemma_remap_identity(p: Pixel)
    ensures
        remap_px((255, 0, 0), (0, 255, 0), (0, 0, 255), p) == p,
{
    lemma_div_multiples_vanish(p.r as int, 255);
    lemma_div_multiples_vanish(p.g as int, 255);
    lemma_div_multiples_vanish(p.b as int, 255);
    assert(remap_chan(255, 0, 0, p) == p.r);
    assert(remap_chan(0, 255, 0, p) == p.g);
    assert(remap_chan(0, 0, 255, p) == p.b);
}

/// One remapped channel, in executable arithmetic.
fn remap_channel(cr: u8, cg: u8, cb: u8, p: Pixel) -> (v: u8)
    ensures
        v == remap_chan(cr, cg, cb, p),
{
    proof {
        lemma_mul_upper_bound(cr as int, 255, p.r as int, 255);
        lemma_mul_upper_bound(cg as int, 255, p.g as int, 255);
        lemma_mul_upper_bound(cb as int, 255, p.b as int, 255);
        lemma_remap_chan_bounds(cr, cg, cb, p);
    }
    let s: u32 = (cr as u32) * (p.r as u32) + (cg as u32) * (p.g as u32) + (cb as u32) * (p.b
        as u32);
    let q: u32 = s / 255;
    if q > 255 {
        255u8
    } else {
        q as u8
    }
}

/// The remap of one pixel, in executable arithmetic.
fn remap_pixel(red: (u8, u8, u8), green: (u8, u8, u8), blue: (u8, u8, u8), p: Pixel) -> (q: Pixel)
    ensures
        q == remap_px(red, green, blue, p),
{
    proof {
        lemma_remap_chan_bounds(red.0, green.0, blue.0, p);
        lemma_remap_chan_bounds(red.1, green.1, blue.1, p);
        lemma_remap_chan_bounds(red.2, green.2, blue.2, p);
    }
    Pixel {
        r: remap_channel(red.0, green.0, blue.0, p),
        g: remap_channel(red.1, green.1, blue.1, p),
        b: remap_channel(red.2, green.2, blue.2, p),
        a: p.a,
    }
}

/// Recombine each pixel's normalized red, green and blue intensities
/// through three caller-supplied basis colors; alpha is preserved. Three
/// arguments: the red, green and blue basis colors, six hex digits each.
pub fn rgb_replace(img: Image, args: Vec<String>) -> (r: ModResult)
    requires
        img.wf(),
    ensures
        ({
            let a = args@;
            if a.len() != 3 {
                r matches ModResult::ArgError(m) && m@
                    == "Requires three hex-format colors, one for each R, G, and B."@
            } else if !hex_decodes(a[0]@) {
                r matches ModResult::ArgError(m) && m@ == hex_fail_red(a[0]@)
            } else if !hex_decodes(a[1]@) {
                r matches ModResult::ArgError(m) && m@ == hex_fail_green(a[1]@)
            } else if !hex_decodes(a[2]@) {
                r matches ModResult::ArgError(m) && m@ == hex_fail_blue(a[2]@)
            } else {
                r matches ModResult::Success(out) && {
                    &&& out.wf()
                    &&& out.width == img.width
                    &&& out.height == img.height
                    &&& forall|i: int|
                        0 <= i < img.pixels@.len() ==> out.pixels@[i] == remap_px(
                            hex_color(a[0]@),
                            hex_color(a[1]@),
                            hex_color(a[2]@),
                            img.pixels@[i],
                        )
                }
            }
        }),
{
    if args.len() != 3 {
        return ModResult::ArgError(
            "Requires three hex-format colors, one for each R, G, and B.".to_owned(),
        );
    }
    let red = match decode_hex(args[0].as_str()) {
        Ok(c) => c,
        Err(HexError::MissingDigits) => {
            return ModResult::ArgError(
                "Red hex color improperly formatted: Missing Digits.".to_owned(),
            );
        },
        Err(HexError::NotHex) => {
            return ModResult::ArgError(
                "Red hex color improperly formatted: Not a Hexadecimal Number.".to_owned(),
            );
        },
    };
    let green = match decode_hex(args[1].as_str()) {
        Ok(c) => c,
        Err(HexError::MissingDigits) => {
            return ModResult::ArgError(
                "Green hex color improperly formatted: Missing Digits.".to_owned(),
            );
        },
        Err(HexError::NotHex) => {
            return ModResult::ArgError(
                "Green hex color improperly formatted: Not a Hexadecimal Number.".to_owned(),
            );
        },
    };
    let blue = match decode_hex(args[2].as_str()) {
        Ok(c) => c,
        Err(HexError::MissingDigits) => {
            return ModResult::ArgError(
                "Blue hex color improperly formatted: Missing Digits.".to_owned(),
            );
        },
        Err(HexError::NotHex) => {
            return ModResult::ArgError(
                "Blue hex color improperly formatted: Not a Hexadecimal Number.".to_owned(),
            );
        },
    };
    let n: usize = img.pixels.len();
    let mut out_px: Vec<Pixel> = Vec::new();
    let mut i: usize = 0;
    while i < n
        invariant
            i <= n,
            n == img.pixels@.len(),
            out_px@.len() == i,
            forall|j: int|
                0 <= j < i ==> out_px@[j] == remap_px(red, green, blue, img.pixels@[j]),
        decreases n - i,
    {
        let p = img.pixels[i];
        let q = remap_pixel(red, green, blue, p);
        out_px.push(q);
        i = i + 1;
    }
    ModResult::Success(Image { width: img.width, height: img.height, pixels: out_px })
}

/// Perceptual luminance of an RGB triple, scaled by 10000 so that it stays
/// a whole number: 10000 * (0.2126 R + 0.7152 G + 0.0722 B).
pub open spec fn lum(r: u8, g: u8, b: u8) -> int {
    2126 * r + 7152 * g + 722 * b
}

/// One output channel of the recoloring, for a pixel of luminance `l` and
/// a target of luminance `cl` (both on the 10000-scaled scale). Darker
/// pixels scale the target channel toward black; brighter ones blend it
/// toward white by the pixel's fractional distance from the target
/// luminance to pure white; at equal luminance the channel is kept.
pub open spec fn colorize_chan(ch: u8, l: int, cl: int) -> int {
    if l > cl {
        ch + ((255 - ch) * (l - cl)) / (2550000 - cl)
    } else if l < cl {
        (ch * l) / cl
    } else {
        ch as int
    }
}

/// The recoloring of one pixel toward the target color; alpha is kept.
pub open spec fn colorize_px(c: (u8, u8, u8), p: Pixel) -> Pixel {
    let l = lum(p.r, p.g, p.b);
    let cl = lum(c.0, c.1, c.2);
    Pixel {
        r: colorize_chan(c.0, l, cl) as u8,
        g: colorize_chan(c.1, l, cl) as u8,
        b: colorize_chan(c.2, l, cl) as u8,
        a: p.a,
    }
}

proof fn lemma_colorize_chan_bounds(ch: u8, l: int, cl: int)
    requires
        0 <= l <= 2550000,
        0 <= cl <= 2550000,
    ensures
        0 <= colorize_chan(ch, l, cl) <= 255,
{
    if l > cl {
        lemma_mul_nonnegative(255 - ch, l - cl);
        lemma_mul_inequality(l - cl, 2550000 - cl, 255 - ch);
        lemma_div_is_ordered(0, (255 - ch) * (l - cl), 2550000 - cl);
        lemma_div_is_ordered((255 - ch) * (l - cl), (255 - ch) * (2550000 - cl), 2550000 - cl);
        lemma_div_multiples_vanish(255 - ch, 2550000 - cl);
        lemma_div_basics_1(2550000 - cl);
        assert((l - cl) * (255 - ch) == (255 - ch) * (l - cl)) by (nonlinear_arith);
        assert((2550000 - cl) * (255 - ch) == (255 - ch) * (2550000 - cl)) by (nonlinear_arith);
    } else if l < cl {
        lemma_mul_nonnegative(ch as int, l);
        lemma_mul_inequality(l, cl, ch as int);
        lemma_div_is_ordered(0, (ch as int) * l, cl);
        lemma_div_is_ordered((ch as int) * l, (ch as int) * cl, cl);
        lemma_div_multiples_vanish(ch as int, cl);
        assert(l * (ch as int) == (ch as int) * l) by (nonlinear_arith);
        assert(cl * (ch as int) == (ch as int) * cl) by (nonlinear_arith);
    }
}

/// A pixel whose luminance equals the target's takes the target color.
pub proof fn lemma_colorize_at_target(c: (u8, u8, u8), p: Pixel)
    requires
        lum(p.r, p.g, p.b) == lum(c.0, c.1, c.2),
    ensures
        colorize_px(c, p) == (Pixel { r: c.0, g: c.1, b: c.2, a: p.a }),
{
}

/// Pure black stays pure black whenever the target is not black itself:
/// the scale toward black zeroes every channel.
pub proof fn lemma_colorize_black(c: (u8, u8, u8), p: Pixel)
    requires
        p.r == 0,
        p.g == 0,
        p.b == 0,
        lum(c.0, c.1, c.2) > 0,
    ensures
        colorize_px(c, p) == (Pixel { r: 0, g: 0, b: 0, a: p.a }),
{
    let cl = lum(c.0, c.1, c.2);
    lemma_div_basics_1(cl);
    lemma_mul_by_zero_is_zero(c.0 as int);
    lemma_mul_by_zero_is_zero(c.1 as int);
    lemma_mul_by_zero_is_zero(c.2 as int);
    assert(lum(p.r, p.g, p.b) == 0);
    assert(colorize_chan(c.0, 0, cl) == 0);
    assert(colorize_chan(c.1, 0, cl) == 0);
    assert(colorize_chan(c.2, 0, cl) == 0);
}

/// Pure white stays pure white whenever the target is not white itself:
/// the blend closes the whole distance to white.
pub proof fn lemma_colorize_white(c: (u8, u8, u8), p: Pixel)
    requires
        p.r == 255,
        p.g == 255,
        p.b == 255,
        lum(c.0, c.1, c.2) < 2550000,
    ensures
        colorize_px(c, p) == (Pixel { r: 255, g: 255, b: 255, a: p.a }),
{
    let cl = lum(c.0, c.1, c.2);
    lemma_div_multiples_vanish(255 - c.0, 2550000 - cl);
    lemma_div_multiples_vanish(255 - c.1, 2550000 - cl);
    lemma_div_multiples_vanish(255 - c.2, 2550000 - cl);
    assert((255 - c.0) * (2550000 - cl) == (2550000 - cl) * (255 - c.0)) by (nonlinear_arith);
    assert((255 - c.1) * (2550000 - cl) == (2550000 - cl) * (255 - c.1)) by (nonlinear_arith);
    assert((255 - c.2) * (2550000 - cl) == (2550000 - cl) * (255 - c.2)) by (nonlinear_arith);
}

/// The 10000-scaled luminance, in executable arithmetic.
fn lum_exec(r: u8, g: u8, b: u8) -> (l: u32)
    ensures
        l == lum(r, g, b),
        l <= 2550000,
{
    2126 * (r as u32) + 7152 * (g as u32) + 722 * (b as u32)
}

/// The recoloring of one pixel, in executable arithmetic.
fn colorize_pixel(c: (u8, u8, u8), p: Pixel) -> (q: Pixel)
    ensures
        q == colorize_px(c, p),
{
    let l: u32 = lum_exec(p.r, p.g, p.b);
    let cl: u32 = lum_exec(c.0, c.1, c.2);
    proof {
        lemma_colorize_chan_bounds(c.0, l as int, cl as int);
        lemma_colorize_chan_bounds(c.1, l as int, cl as int);
        lemma_colorize_chan_bounds(c.2, l as int, cl as int);
    }
    if l > cl {
        Pixel {
            r: colorize_channel_up(c.0, l, cl),
            g: colorize_channel_up(c.1, l, cl),
            b: colorize_channel_up(c.2, l, cl),
            a: p.a,
        }
    } else if l < cl {
        Pixel {
            r: colorize_channel_down(c.0, l, cl),
            g: colorize_channel_down(c.1, l, cl),
            b: colorize_channel_down(c.2, l, cl),
            a: p.a,
        }
    } else {
        Pixel { r: c.0, g: c.1, b: c.2, a: p.a }
    }
}

/// One channel blended toward white, for a pixel brighter than the target.
fn colorize_channel_up(ch: u8, l: u32, cl: u32) -> (v: u8)
    requires
        cl < l <= 2550000,
    ensures
        v == colorize_chan(ch, l as int, cl as int),
{
    proof {
        lemma_mul_upper_bound(255 - ch, 255, l - cl, 2550000);
        lemma_colorize_chan_bounds(ch, l as int, cl as int);
    }
    let num: u64 = ((255 - ch) as u64) * ((l - cl) as u64);
    let den: u64 = (2550000 - cl) as u64;
    let q: u64 = num / den;
    ch + (q as u8)
}

/// One channel scaled toward black, for a pixel darker than the target.
fn colorize_channel_down(ch: u8, l: u32, cl: u32) -> (v: u8)
    requires
        l < cl <= 2550000,
    ensures
        v == colorize_chan(ch, l as int, cl as int),
{
    proof {
        lemma_mul_upper_bound(ch as int, 255, l as int, 2550000);
        lemma_colorize_chan_bounds(ch, l as int, cl as int);
    }
    let num: u64 = (ch as u64) * (l as u64);
    let q: u64 = num / (cl as u64);
    q as u8
}

/// Remap every pixel toward a single target hue, preserving relative
/// luminance: a duotone gradient between black, the target color and
/// white. One argument: the target color, six hex digits.
pub fn colorize(img: Image, args: Vec<String>) -> (r: ModResult)
    requires
        img.wf(),
    ensures
        ({
            let a = args@;
            if a.len() != 1 {
                r matches ModResult::ArgError(m) && m@
                    == "Requires one hex-format color to recolor the image to."@
            } else if !hex_decodes(a[0]@) {
                r matches ModResult::ArgError(m) && m@ == hex_fail_plain(a[0]@)
            } else {
                r matches ModResult::Success(out) && {
                    &&& out.wf()
                    &&& out.width == img.width
                    &&& out.height == img.height
                    &&& forall|i: int|
                        0 <= i < img.pixels@.len() ==> out.pixels@[i] == colorize_px(
                            hex_color(a[0]@),
                            img.pixels@[i],
                        )
                }
            }
        }),
{
    if args.len() != 1 {
        return ModResult::ArgError(
            "Requires one hex-format color to recolor the image to.".to_owned(),
        );
    }
    let c = match decode_hex(args[0].as_str()) {
        Ok(c) => c,
        Err(HexError::MissingDigits) => {
            return ModResult::ArgError("Hex color improperly formatted: Missing Digits.".to_owned());
        },
        Err(HexError::NotHex) => {
            return ModResult::ArgError(
                "Hex color improperly formatted: Not a Hexadecimal Number.".to_owned(),
            );
        },
    };
    let n: usize = img.pixels.len();
    let mut out_px: Vec<Pixel> = Vec::new();
    let mut i: usize = 0;
    while i < n
        invariant
            i <= n,
            n == img.pixels@.len(),
            out_px@.len() == i,
            forall|j: int| 0 <= j < i ==> out_px@[j] == colorize_px(c, img.pixels@[j]),
        decreases n - i,
    {
        let p = img.pixels[i];
        let q = colorize_pixel(c, p);
        out_px.push(q);
        i = i + 1;
    }
    ModResult::Success(Image { width: img.width, height: img.height, pixels: out_px })
}

} // verus!
