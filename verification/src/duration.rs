//! The delay/duration parser: plain integer seconds, or a human-readable
//! duration such as `30s`, `5m`, `2h`, `1d`, lower-cased first. Anything
//! unparsable degrades to `0`, which downstream means "disabled, exclude".

use vstd::prelude::*;

verus! {

/// A decimal digit, as `u32` `FromStr` accepts them.
pub open spec fn is_dec_digit(c: char) -> bool {
    48 <= c as u32 <= 57
}

/// The numeric value of a run of decimal digits (most significant first).
pub open spec fn digits_val(s: Seq<char>) -> nat
    decreases s.len(),
{
    if s.len() == 0 {
        0
    } else {
        digits_val(s.drop_last()) * 10 + (s.last() as u32 - 48) as nat
    }
}

/// True when every character of `s` is a decimal digit.
pub open spec fn all_dec_digits(s: Seq<char>) -> bool {
    forall|i: int| 0 <= i < s.len() ==> is_dec_digit(s[i])
}

/// What `str::parse::<u32>` returns: an optional `+`, then one or more
/// decimal digits, and a value that fits in 32 bits; anything else fails.
pub open spec fn spec_parse_u32(s: Seq<char>) -> Option<u32> {
    let digits = if s.len() >= 1 && s[0] == '+' {
        s.subrange(1, s.len() as int)
    } else {
        s
    };
    if digits.len() == 0 || !all_dec_digits(digits) || digits_val(digits) > u32::MAX {
        None
    } else {
        Some(digits_val(digits) as u32)
    }
}

/// How many characters of `s` are decimal digits.
pub open spec fn dec_digit_count(s: Seq<char>) -> nat
    decreases s.len(),
{
    if s.len() == 0 {
        0
    } else {
        dec_digit_count(s.drop_last()) + (if is_dec_digit(s.last()) {
            1nat
        } else {
            0nat
        })
    }
}

/// Counts the decimal digit characters of `s`.
fn count_dec_digits(s: &str) -> (r: usize)
    ensures
        r == dec_digit_count(s@),
{
    let len = s.unicode_len();
    let mut count: usize = 0;
    let mut i: usize = 0;
    while i < len
        invariant
            i <= len,
            len == s@.len(),
            count <= i,
            count == dec_digit_count(s@.subrange(0, i as int)),
        decreases len - i,
    {
        let c = s.get_char(i);
        let v = c as u32;
        let ghost pre = s@.subrange(0, i as int);
        let ghost post = s@.subrange(0, i + 1 as int);
        assert(post.drop_last() =~= pre && post.last() == s@[i as int]);
        if 48 <= v && v <= 57 {
            count += 1;
        }
        i += 1;
    }
    assert(s@.subrange(0, len as int) =~= s@);
    count
}

/// The lower-cased form of a string, as `str::to_lowercase` produces it.
pub uninterp spec fn lower_of(s: Seq<char>) -> Seq<char>;

/// Relies on `str::to_lowercase`: the result depends on the characters alone.
#[verifier::external_body]
fn lowercase(s: &str) -> (r: String)
    ensures
        r@ == lower_of(s@),
{
    s.to_lowercase()
}

/// Whether a text parses as a human-readable duration, and the whole
/// seconds it denotes when it does.
pub uninterp spec fn human_duration_secs(s: Seq<char>) -> Option<u64>;

/// Relies on humantime's `Duration` `FromStr` impl (`parse_duration`) and
/// `std::time::Duration::as_secs` on the wrapped value: the outcome is a
/// function of the text alone.
///
/// The digit bound keeps the call from aborting. humantime's `add_current`
/// normalizes carried nanoseconds only when they exceed one second, so a
/// sum of exactly 1 000 000 000 nanoseconds reaches `Duration::new`, which
/// panics when carrying it overflows a seconds counter already at
/// `u64::MAX`. With at most 11 digit characters, every number the parser
/// reads is below 10^11; one number per digit group and the largest
/// seconds-per-unit factor (a year, 31 557 600) bound the accumulated
/// seconds below 10^11 x 31 557 607, far under `u64::MAX`, so that carry
/// can never overflow. All other arithmetic in the parser is checked and
/// fails with an error, never a panic.
#[verifier::external_body]
fn parse_human_duration(s: &str) -> (r: Option<u64>)
    requires
        dec_digit_count(s@) <= 11,
    ensures
        r == human_duration_secs(s@),
{
    match s.parse::<humantime::Duration>() {
        Ok(d) => Some(d.as_secs()),
        Err(_) => None,
    }
}

/// The delay a text denotes: the direct integer parse when it succeeds,
/// else the lower-cased human-readable parse truncated to 32 bits, else 0.
/// A text with more than 11 digit characters degrades to 0 outright: no
/// delay this protocol carries comes near such a value, and the bound is
/// what lets the human-readable parser be called safely.
pub open spec fn spec_trans(s: Seq<char>) -> u32 {
    match spec_parse_u32(s) {
        Some(n) => n,
        None => if dec_digit_count(lower_of(s)) <= 11 {
            match human_duration_secs(lower_of(s)) {
                Some(d) => d as u32,
                None => 0,
            }
        } else {
            0
        },
    }
}

/// Parses a string exactly as `str::parse::<u32>` does.
fn parse_u32(s: &str) -> (r: Option<u32>)
    ensures
        r == spec_parse_u32(s@),
{
    let len = s.unicode_len();
    let start: usize = if len >= 1 && s.get_char(0) == '+' {
        1
    } else {
        0
    };
    let ghost digits = if s@.len() >= 1 && s@[0] == '+' {
        s@.subrange(1, s@.len() as int)
    } else {
        s@
    };
    assert(digits =~= s@.subrange(start as int, s@.len() as int));
    if len == start {
        return None;
    }
    let mut acc: u32 = 0;
    let mut overflow: bool = false;
    let mut i: usize = start;
    while i < len
        invariant
            start <= i <= len,
            start < len,
            len == s@.len(),
            digits == s@.subrange(start as int, s@.len() as int),
            digits == (if s@.len() >= 1 && s@[0] == '+' {
                s@.subrange(1, s@.len() as int)
            } else {
                s@
            }),
            forall|j: int| start <= j < i ==> is_dec_digit(s@[j]),
            overflow <==> digits_val(s@.subrange(start as int, i as int)) > u32::MAX,
            !overflow ==> acc == digits_val(s@.subrange(start as int, i as int)),
        decreases len - i,
    {
        let c = s.get_char(i);
        let v = c as u32;
        if v < 48 || v > 57 {
            assert(!all_dec_digits(digits)) by {
                if all_dec_digits(digits) {
                    assert(is_dec_digit(digits[i - start]));
                    assert(digits[i - start] == s@[i as int]);
                }
            }
            return None;
        }
        let d = v - 48;
        let ghost pre = s@.subrange(start as int, i as int);
        let ghost post = s@.subrange(start as int, i + 1 as int);
        assert(post.drop_last() =~= pre && post.last() == s@[i as int]);
        if overflow {
            assert(digits_val(post) > u32::MAX);
        } else if acc > (u32::MAX - d) / 10 {
            overflow = true;
            assert(digits_val(post) > u32::MAX);
        } else {
            acc = acc * 10 + d;
        }
        i += 1;
    }
    assert(digits =~= s@.subrange(start as int, i as int));
    assert(all_dec_digits(digits)) by {
        assert forall|k: int| 0 <= k < digits.len() implies is_dec_digit(digits[k]) by {
            assert(digits[k] == s@[start + k]);
        }
    }
    if overflow {
        None
    } else {
        Some(acc)
    }
}

/// Converts a delay specification into whole seconds. A plain integer is
/// taken as seconds; otherwise the lower-cased text is tried as a
/// human-readable duration, but only when it holds at most 11 digit
/// characters; on total failure the result is 0, the value downstream
/// treats as "disabled".
pub fn trans(input: &str) -> (r: u32)
    ensures
        r == spec_trans(input@),
{
    if let Some(n) = parse_u32(input) {
        return n;
    }
    let lower = lowercase(input);
    if count_dec_digits(lower.as_str()) > 11 {
        return 0;
    }
    match parse_human_duration(lower.as_str()) {
        Some(d) => #[verifier::truncate] (d as u32),
        None => 0,
    }
}

} // verus!
