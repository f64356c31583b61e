//! Decoding a six-digit hexadecimal color string `RRGGBB` into channel values.

use vstd::prelude::*;
use vstd::string::StrSliceExecFns;

verus! {

/// Why a hex color string failed to decode.
#[derive(Clone, Copy, PartialEq, Eq, Structural, Debug)]
pub enum HexError {
    /// The string ended before six digits were read.
    MissingDigits,
    /// A two-digit group held a character that is no base-16 digit.
    NotHex,
}

/// Is `c` one of `0`-`9`, `a`-`f`, `A`-`F`?
pub open spec fn is_hex_digit(c: char) -> bool {
    ||| 48 <= c as u32 <= 57
    ||| 97 <= c as u32 <= 102
    ||| 65 <= c as u32 <= 70
}

/// The value of one hex digit.
pub open spec fn hex_digit_val(c: char) -> int {
    if 48 <= c as u32 <= 57 {
        c as u32 - 48
    } else if 97 <= c as u32 <= 102 {
        c as u32 - 87
    } else {
        c as u32 - 55
    }
}

/// Are the two characters at `i` and `i + 1` both hex digits?
pub open spec fn hex_pair_ok(s: Seq<char>, i: int) -> bool {
    is_hex_digit(s[i]) && is_hex_digit(s[i + 1])
}

/// The value of the two-digit group starting at `i`.
pub open spec fn hex_pair_val(s: Seq<char>, i: int) -> int {
    16 * hex_digit_val(s[i]) + hex_digit_val(s[i + 1])
}

/// The first failure when the red, green and blue two-digit groups are read
/// in order; `None` when the first six characters decode.
pub open spec fn hex_decode_err(s: Seq<char>) -> Option<HexError> {
    if s.len() < 2 {
        Some(HexError::MissingDigits)
    } else if !hex_pair_ok(s, 0) {
        Some(HexError::NotHex)
    } else if s.len() < 4 {
        Some(HexError::MissingDigits)
    } else if !hex_pair_ok(s, 2) {
        Some(HexError::NotHex)
    } else if s.len() < 6 {
        Some(HexError::MissingDigits)
    } else if !hex_pair_ok(s, 4) {
        Some(HexError::NotHex)
    } else {
        None
    }
}

/// Does the string decode as a color?
pub open spec fn hex_decodes(s: Seq<char>) -> bool {
    hex_decode_err(s) is None
}

/// The color a decodable string names: its three two-digit group values.
pub open spec fn hex_color(s: Seq<char>) -> (u8, u8, u8) {
    (hex_pair_val(s, 0) as u8, hex_pair_val(s, 2) as u8, hex_pair_val(s, 4) as u8)
}

/// Read one character as a hex digit.
fn hex_digit(c: char) -> (r: Option<u8>)
    ensures
        r is Some <==> is_hex_digit(c),
        r matches Some(v) ==> v == hex_digit_val(c) && v <= 15,
{
    let cv = c as u32;
    if 48 <= cv && cv <= 57 {
        Some((cv - 48) as u8)
    } else if 97 <= cv && cv <= 102 {
        Some((cv - 87) as u8)
    } else if 65 <= cv && cv <= 70 {
        Some((cv - 55) as u8)
    } else {
        None
    }
}

/// Read the two-digit group starting at `i`.
fn hex_pair(s: &str, i: usize) -> (r: Option<u8>)
    requires
        i + 2 <= s@.len(),
        i <= 4,
    ensures
        r is Some <==> hex_pair_ok(s@, i as int),
        r matches Some(v) ==> v == hex_pair_val(s@, i as int),
{
    let hi = match hex_digit(s.get_char(i)) {
        Some(v) => v,
        None => {
            return None;
        },
    };
    let lo = match hex_digit(s.get_char(i + 1)) {
        Some(v) => v,
        None => {
            return None;
        },
    };
    Some(16 * hi + lo)
}

/// Decode the first six characters of a hex color string `RRGGBB`
/// (case-insensitive) into red, green and blue channel values. Characters
/// past the sixth are ignored. The result depends on the string alone.
pub fn decode_hex(hex: &str) -> (r: Result<(u8, u8, u8), HexError>)
    ensures
        r is Ok <==> hex_decodes(hex@),
        r matches Err(e) ==> Some(e) == hex_decode_err(hex@),
        r matches Ok(c) ==> {
            &&& c.0 == hex_pair_val(hex@, 0)
            &&& c.1 == hex_pair_val(hex@, 2)
            &&& c.2 == hex_pair_val(hex@, 4)
            &&& c == hex_color(hex@)
        },
{
    let n = hex.unicode_len();
    if n < 2 {
        return Err(HexError::MissingDigits);
    }
    let red = match hex_pair(hex, 0) {
        Some(v) => v,
        None => {
            return Err(HexError::NotHex);
        },
    };
    if n < 4 {
        return Err(HexError::MissingDigits);
    }
    let green = match hex_pair(hex, 2) {
        Some(v) => v,
        None => {
            return Err(HexError::NotHex);
        },
    };
    if n < 6 {
        return Err(HexError::MissingDigits);
    }
    let blue = match hex_pair(hex, 4) {
        Some(v) => v,
        None => {
            return Err(HexError::NotHex);
        },
    };
    Ok((red, green, blue))
}

} // verus!
