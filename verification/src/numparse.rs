//! Parsing decimal integer strings, with the same acceptance rules as the
//! standard library: an optional sign, then one or more ASCII digits, and
//! the value must fit the target type.

use vstd::prelude::*;
use vstd::string::StrSliceExecFns;

verus! {

/// Is `c` one of `0`-`9`?
pub open spec fn is_digit(c: char) -> bool {
    48 <= c as u32 <= 57
}

/// The value of one decimal digit.
pub open spec fn digit_val(c: char) -> int {
    c as u32 - 48
}

/// Does the run hold decimal digits only?
pub open spec fn all_digits(s: Seq<char>) -> bool {
    forall|i: int| 0 <= i < s.len() ==> is_digit(s[i])
}

/// The number written by a run of decimal digits.
pub open spec fn digits_val(s: Seq<char>) -> int
    decreases s.len(),
{
    if s.len() == 0 {
        0
    } else {
        10 * digits_val(s.drop_last()) + digit_val(s.last())
    }
}

proof fn lemma_digits_val_nonneg(s: Seq<char>)
    requires
        all_digits(s),
    ensures
        digits_val(s) >= 0,
    decreases s.len(),
{
    if s.len() > 0 {
        assert(all_digits(s.drop_last()));
        lemma_digits_val_nonneg(s.drop_last());
    }
}

/// A digit run is worth at least any of its prefixes.
proof fn lemma_digits_val_prefix(s: Seq<char>, i: int)
    requires
        all_digits(s),
        0 <= i <= s.len(),
    ensures
        digits_val(s.take(i)) <= digits_val(s),
    decreases s.len() - i,
{
    if i < s.len() {
        lemma_digits_val_prefix(s, i + 1);
        assert(s.take(i + 1).drop_last() =~= s.take(i));
        assert(s.take(i + 1).last() == s[i]);
        assert(all_digits(s.take(i)));
        lemma_digits_val_nonneg(s.take(i));
        assert(digits_val(s.take(i + 1)) == 10 * digits_val(s.take(i)) + digit_val(s[i]));
    } else {
        assert(s.take(i) =~= s);
    }
}

/// Read the digit run from `start` to the end of the string, refusing a
/// value over `cap`, an empty run, and any non-digit.
fn parse_digits(s: &str, start: usize, cap: u64) -> (r: Option<u64>)
    requires
        start <= s@.len(),
        cap >= 9,
    ensures
        ({
            let body = s@.subrange(start as int, s@.len() as int);
            &&& (r is Some <==> body.len() > 0 && all_digits(body) && digits_val(body) <= cap)
            &&& (r matches Some(v) ==> v == digits_val(body))
        }),
{
    let ghost body = s@.subrange(start as int, s@.len() as int);
    let n = s.unicode_len();
    if start == n {
        return None;
    }
    let mut v: u64 = 0;
    let mut i: usize = start;
    while i < n
        invariant
            start <= i <= n,
            n == s@.len(),
            cap >= 9,
            body == s@.subrange(start as int, n as int),
            all_digits(s@.subrange(start as int, i as int)),
            v == digits_val(s@.subrange(start as int, i as int)),
            v <= cap,
        decreases n - i,
    {
        let c = s.get_char(i);
        let cv = c as u32;
        if cv < 48 || cv > 57 {
            assert(body[i - start] == s@[i as int]);
            return None;
        }
        let d = (cv - 48) as u64;
        proof {
            assert(s@.subrange(start as int, i as int + 1).drop_last() =~= s@.subrange(
                start as int,
                i as int,
            ));
            assert(s@.subrange(start as int, i as int + 1).last() == s@[i as int]);
        }
        if v > (cap - d) / 10 {
            proof {
                if all_digits(body) {
                    assert(body.take(i - start + 1) =~= s@.subrange(start as int, i as int + 1));
                    lemma_digits_val_prefix(body, i - start + 1);
                    assert(digits_val(body) > cap);
                }
            }
            return None;
        }
        v = 10 * v + d;
        i = i + 1;
    }
    proof {
        assert(s@.subrange(start as int, i as int) =~= body);
    }
    Some(v)
}

/// The digit run of an unsigned integer string: everything after one
/// optional leading `+`.
pub open spec fn u32_body(s: Seq<char>) -> Seq<char> {
    if s.len() > 0 && s[0] == '+' {
        s.subrange(1, s.len() as int)
    } else {
        s
    }
}

/// Does the string parse as a `u32`?
pub open spec fn u32_parseable(s: Seq<char>) -> bool {
    let b = u32_body(s);
    b.len() > 0 && all_digits(b) && digits_val(b) <= u32::MAX
}

/// The value of a `u32` string.
pub open spec fn u32_value(s: Seq<char>) -> int {
    digits_val(u32_body(s))
}

/// Parse an unsigned decimal integer as the standard library does: an
/// optional `+`, then one or more digits, with the value at most `u32::MAX`.
pub fn parse_u32(s: &str) -> (r: Option<u32>)
    ensures
        r is Some <==> u32_parseable(s@),
        r matches Some(v) ==> v == u32_value(s@),
{
    let n = s.unicode_len();
    let start: usize = if n > 0 && s.get_char(0) == '+' {
        1
    } else {
        0
    };
    proof {
        assert(u32_body(s@) == s@.subrange(start as int, s@.len() as int) || (start == 0 && u32_body(
            s@,
        ) == s@));
        assert(s@.subrange(0, s@.len() as int) =~= s@);
    }
    match parse_digits(s, start, 0xFFFF_FFFFu64) {
        Some(v) => Some(v as u32),
        None => None,
    }
}

/// The sign of a signed integer string: `-1` under one leading `-`, else `1`.
pub open spec fn i32_sign(s: Seq<char>) -> int {
    if s.len() > 0 && s[0] == '-' {
        -1
    } else {
        1
    }
}

/// The digit run of a signed integer string: everything after one optional
/// leading `+` or `-`.
pub open spec fn i32_body(s: Seq<char>) -> Seq<char> {
    if s.len() > 0 && (s[0] == '+' || s[0] == '-') {
        s.subrange(1, s.len() as int)
    } else {
        s
    }
}

/// Does the string parse as an `i32`?
pub open spec fn i32_parseable(s: Seq<char>) -> bool {
    let b = i32_body(s);
    b.len() > 0 && all_digits(b) && i32::MIN <= i32_sign(s) * digits_val(b) <= i32::MAX
}

/// The value of an `i32` string.
pub open spec fn i32_value(s: Seq<char>) -> int {
    i32_sign(s) * digits_val(i32_body(s))
}

/// Parse a signed decimal integer as the standard library does: an optional
/// `+` or `-`, then one or more digits, with the value in `i32`'s range.
pub fn parse_i32(s: &str) -> (r: Option<i32>)
    ensures
        r is Some <==> i32_parseable(s@),
        r matches Some(v) ==> v == i32_value(s@),
{
    let n = s.unicode_len();
    let mut neg = false;
    let mut start: usize = 0;
    if n > 0 {
        let c = s.get_char(0);
        if c == '+' {
            start = 1;
        } else if c == '-' {
            neg = true;
            start = 1;
        }
    }
    proof {
        assert(i32_body(s@) == s@.subrange(start as int, s@.len() as int) || (start == 0 && i32_body(
            s@,
        ) == s@));
        assert(s@.subrange(0, s@.len() as int) =~= s@);
    }
    let cap: u64 = if neg {
        0x8000_0000
    } else {
        0x7FFF_FFFF
    };
    let ghost b = i32_body(s@);
    proof {
        if all_digits(b) {
            lemma_digits_val_nonneg(b);
        }
    }
    match parse_digits(s, start, cap) {
        Some(v) => {
            if neg {
                Some((-(v as i64)) as i32)
            } else {
                Some(v as i32)
            }
        },
        None => None,
    }
}

} // verus!
