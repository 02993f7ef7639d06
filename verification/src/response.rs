//! The generic acknowledgement `{response, info}` and the extraction of the
//! numeric counters from the `info` summary string.
//!
//! `info`, when present, is scanned for the fixed pattern
//! `processed: <digits>; failed: <digits>; total: <digits>; seconds spent: <digit><any><digits>`
//! at the leftmost position where it occurs, exactly as an unanchored
//! regular-expression search would find it (the single `<any>` character may
//! be anything but a newline). A counter whose capture is absent or does not
//! fit in 32 bits degrades to the sentinel `-1` instead of failing.

use crate::duration::{all_dec_digits, digits_val, is_dec_digit};
use crate::text::{lit_at, lit_at_exec, str_eq};
use vstd::prelude::*;

verus! {

/// The generic acknowledgement a server sends back: a status word and an
/// optional human-readable summary.
#[derive(Debug, Clone)]
pub struct Response {
    response: String,
    info: Option<String>,
}

pub struct ResponseV {
    pub response: Seq<char>,
    pub info: Option<Seq<char>>,
}

impl View for Response {
    type V = ResponseV;

    closed spec fn view(&self) -> ResponseV {
        ResponseV {
            response: self.response@,
            info: match self.info {
                Some(t) => Some(t@),
                None => None,
            },
        }
    }
}

/// The four substrings the summary pattern captures.
pub struct InfoCaptures {
    pub processed: String,
    pub failed: String,
    pub total: String,
    pub seconds: String,
}

pub struct InfoCapturesV {
    pub processed: Seq<char>,
    pub failed: Seq<char>,
    pub total: Seq<char>,
    pub seconds: Seq<char>,
}

impl View for InfoCaptures {
    type V = InfoCapturesV;

    open spec fn view(&self) -> InfoCapturesV {
        InfoCapturesV {
            processed: self.processed@,
            failed: self.failed@,
            total: self.total@,
            seconds: self.seconds@,
        }
    }
}

/// The end of the maximal run of decimal digits of `s` starting at `i`.
pub open spec fn digit_run_end(s: Seq<char>, i: int) -> int
    decreases s.len() - i,
{
    if 0 <= i < s.len() && is_dec_digit(s[i]) {
        digit_run_end(s, i + 1)
    } else {
        i
    }
}

proof fn lemma_digit_run_bounds(s: Seq<char>, i: int)
    requires
        0 <= i <= s.len(),
    ensures
        i <= digit_run_end(s, i) <= s.len(),
    decreases s.len() - i,
{
    if 0 <= i < s.len() && is_dec_digit(s[i]) {
        lemma_digit_run_bounds(s, i + 1);
    }
}

/// The pattern matched at position `i` of `s`: each literal piece followed
/// by a non-empty greedy digit run, and for the timing field one digit, one
/// character that is not a newline, then a non-empty digit run.
pub open spec fn match_at(s: Seq<char>, i: int) -> Option<InfoCapturesV> {
    if !lit_at(s, i, "processed: "@) {
        None
    } else {
        let p0 = i + 11;
        let p1 = digit_run_end(s, p0);
        if p1 == p0 || !lit_at(s, p1, "; failed: "@) {
            None
        } else {
            let f0 = p1 + 10;
            let f1 = digit_run_end(s, f0);
            if f1 == f0 || !lit_at(s, f1, "; total: "@) {
                None
            } else {
                let t0 = f1 + 9;
                let t1 = digit_run_end(s, t0);
                if t1 == t0 || !lit_at(s, t1, "; seconds spent: "@) {
                    None
                } else {
                    let s0 = t1 + 17;
                    if !(s0 < s.len() && is_dec_digit(s[s0]) && s0 + 1 < s.len() && s[s0 + 1]
                        != '\n') {
                        None
                    } else {
                        let s1 = digit_run_end(s, s0 + 2);
                        if s1 == s0 + 2 {
                            None
                        } else {
                            Some(
                                (InfoCapturesV {
                                    processed: s.subrange(p0, p1),
                                    failed: s.subrange(f0, f1),
                                    total: s.subrange(t0, t1),
                                    seconds: s.subrange(s0, s1),
                                }),
                            )
                        }
                    }
                }
            }
        }
    }
}

/// The leftmost match of the pattern in `s` at or after position `i`.
pub open spec fn find_match(s: Seq<char>, i: int) -> Option<InfoCapturesV>
    decreases s.len() - i,
{
    if i < 0 || i >= s.len() {
        None
    } else if match_at(s, i) is Some {
        match_at(s, i)
    } else {
        find_match(s, i + 1)
    }
}

/// What scanning an optional summary yields.
pub open spec fn spec_captures(info: Option<Seq<char>>) -> Option<InfoCapturesV> {
    match info {
        Some(t) => find_match(t, 0),
        None => None,
    }
}

/// What `str::parse::<i32>` returns on an unsigned run of characters.
pub open spec fn spec_digits_i32(s: Seq<char>) -> Option<i32> {
    if s.len() == 0 || !all_dec_digits(s) || digits_val(s) > i32::MAX {
        None
    } else {
        Some(digits_val(s) as i32)
    }
}

/// A captured counter's value, or the sentinel `-1` when the capture does
/// not parse as an `i32`.
pub open spec fn counter_or_sentinel(field: Seq<char>) -> i32 {
    match spec_digits_i32(field) {
        Some(n) => n,
        None => (-1) as i32,
    }
}

pub open spec fn spec_processed(v: ResponseV) -> i32 {
    match spec_captures(v.info) {
        Some(c) => counter_or_sentinel(c.processed),
        None => (-1) as i32,
    }
}

pub open spec fn spec_failed(v: ResponseV) -> i32 {
    match spec_captures(v.info) {
        Some(c) => counter_or_sentinel(c.failed),
        None => (-1) as i32,
    }
}

pub open spec fn spec_total(v: ResponseV) -> i32 {
    match spec_captures(v.info) {
        Some(c) => counter_or_sentinel(c.total),
        None => (-1) as i32,
    }
}

/// The character of `s` at `j` is a decimal digit.
fn char_is_digit(s: &str, j: usize) -> (r: bool)
    requires
        j < s@.len(),
    ensures
        r == is_dec_digit(s@[j as int]),
{
    let c = s.get_char(j);
    let v = c as u32;
    48 <= v && v <= 57
}

/// The end of the maximal digit run of `s` starting at `i`.
fn digit_run_end_exec(s: &str, i: usize) -> (r: usize)
    requires
        i <= s@.len(),
    ensures
        r == digit_run_end(s@, i as int),
        i <= r <= s@.len(),
{
    let len = s.unicode_len();
    let mut j: usize = i;
    while j < len && char_is_digit(s, j)
        invariant
            i <= j <= len,
            len == s@.len(),
            digit_run_end(s@, i as int) == digit_run_end(s@, j as int),
        decreases len - j,
    {
        j += 1;
    }
    proof {
        lemma_digit_run_bounds(s@, j as int);
    }
    j
}

/// Attempts the whole pattern at position `i`, handing back the four
/// captured substrings on success.
fn match_at_exec(s: &str, i: usize) -> (r: Option<InfoCaptures>)
    requires
        i <= s@.len(),
    ensures
        match r {
            Some(c) => match_at(s@, i as int) == Some(c@),
            None => match_at(s@, i as int) is None,
        },
{
    proof {
        reveal_strlit("processed: ");
        reveal_strlit("; failed: ");
        reveal_strlit("; total: ");
        reveal_strlit("; seconds spent: ");
    }
    let slen = s.unicode_len();
    if !lit_at_exec(s, i, "processed: ") {
        return None;
    }
    let p0 = i + 11;
    let p1 = digit_run_end_exec(s, p0);
    if p1 == p0 || !lit_at_exec(s, p1, "; failed: ") {
        return None;
    }
    let f0 = p1 + 10;
    let f1 = digit_run_end_exec(s, f0);
    if f1 == f0 || !lit_at_exec(s, f1, "; total: ") {
        return None;
    }
    let t0 = f1 + 9;
    let t1 = digit_run_end_exec(s, t0);
    if t1 == t0 || !lit_at_exec(s, t1, "; seconds spent: ") {
        return None;
    }
    let s0 = t1 + 17;
    if !(s0 < slen) {
        return None;
    }
    let c0 = s.get_char(s0);
    let v0 = c0 as u32;
    if !(48 <= v0 && v0 <= 57) {
        return None;
    }
    if !(s0 + 1 < slen) {
        return None;
    }
    if s.get_char(s0 + 1) == '\n' {
        return None;
    }
    let s1 = digit_run_end_exec(s, s0 + 2);
    if s1 == s0 + 2 {
        return None;
    }
    Some(
        InfoCaptures {
            processed: s.substring_char(p0, p1).to_owned(),
            failed: s.substring_char(f0, f1).to_owned(),
            total: s.substring_char(t0, t1).to_owned(),
            seconds: s.substring_char(s0, s1).to_owned(),
        },
    )
}

/// The leftmost match of the pattern anywhere in `s`.
fn find_captures(s: &str) -> (r: Option<InfoCaptures>)
    ensures
        match r {
            Some(c) => find_match(s@, 0) == Some(c@),
            None => find_match(s@, 0) is None,
        },
{
    let len = s.unicode_len();
    let mut i: usize = 0;
    while i < len
        invariant
            i <= len,
            len == s@.len(),
            find_match(s@, 0) == find_match(s@, i as int),
        decreases len - i,
    {
        let m = match_at_exec(s, i);
        if let Some(c) = m {
            return Some(c);
        }
        i += 1;
    }
    None
}

/// Parses an unsigned run of characters exactly as `str::parse::<i32>` does.
fn parse_digits_i32(s: &str) -> (r: Option<i32>)
    ensures
        r == spec_digits_i32(s@),
{
    let len = s.unicode_len();
    if len == 0 {
        return None;
    }
    let mut acc: i32 = 0;
    let mut overflow: bool = false;
    let mut i: usize = 0;
    while i < len
        invariant
            i <= len,
            len == s@.len(),
            forall|j: int| 0 <= j < i ==> is_dec_digit(s@[j]),
            overflow <==> digits_val(s@.subrange(0, i as int)) > i32::MAX,
            !overflow ==> acc == digits_val(s@.subrange(0, i as int)),
        decreases len - i,
    {
        let c = s.get_char(i);
        let v = c as u32;
        if v < 48 || v > 57 {
            assert(!all_dec_digits(s@)) by {
                if all_dec_digits(s@) {
                    assert(is_dec_digit(s@[i as int]));
                }
            }
            return None;
        }
        let d = (v - 48) as i32;
        let ghost pre = s@.subrange(0, i as int);
        let ghost post = s@.subrange(0, i + 1 as int);
        assert(post.drop_last() =~= pre && post.last() == s@[i as int]);
        if overflow {
            assert(digits_val(post) > i32::MAX);
        } else if acc > (i32::MAX - d) / 10 {
            overflow = true;
            assert(digits_val(post) > i32::MAX);
        } else {
            acc = acc * 10 + d;
        }
        i += 1;
    }
    assert(s@.subrange(0, len as int) =~= s@);
    assert(all_dec_digits(s@));
    if overflow {
        None
    } else {
        Some(acc)
    }
}

impl Response {
    /// Builds an acknowledgement value from its status word and optional
    /// summary string.
    pub fn new(response: String, info: Option<String>) -> (r: Self)
        ensures
            r@.response == response@,
            r@.info == (match info {
                Some(t) => Some(t@),
                None => None::<Seq<char>>,
            }),
    {
        Response { response, info }
    }

    /// True iff the status word is exactly `success`.
    pub fn success(&self) -> (r: bool)
        ensures
            r == (self@.response == "success"@),
    {
        str_eq(self.response.as_str(), "success")
    }

    /// The exchange fully succeeded: nothing failed and everything offered
    /// was processed. Of the two policies the protocol's generations use,
    /// this library deliberately takes the tolerant one: it does not also
    /// demand a positive total, so an exchange with `total == 0` counts
    /// as ok.
    pub fn ok(&self) -> (r: bool)
        ensures
            r == (spec_failed(self@) == 0 && spec_processed(self@) == spec_total(self@)),
    {
        self.failed_cnt() == 0 && self.processed_cnt() == self.total_cnt()
    }

    /// The four captured substrings of the summary, when the pattern occurs.
    pub fn info_captures(&self) -> (r: Option<InfoCaptures>)
        ensures
            match r {
                Some(c) => spec_captures(self@.info) == Some(c@),
                None => spec_captures(self@.info) is None,
            },
    {
        match &self.info {
            Some(t) => find_captures(t.as_str()),
            None => None,
        }
    }

    /// The `processed` counter of the summary, or `-1`.
    pub fn processed_cnt(&self) -> (r: i32)
        ensures
            r == spec_processed(self@),
    {
        match self.info_captures() {
            Some(c) => match parse_digits_i32(c.processed.as_str()) {
                Some(n) => n,
                None => -1,
            },
            None => -1,
        }
    }

    /// The `failed` counter of the summary, or `-1`.
    pub fn failed_cnt(&self) -> (r: i32)
        ensures
            r == spec_failed(self@),
    {
        match self.info_captures() {
            Some(c) => match parse_digits_i32(c.failed.as_str()) {
                Some(n) => n,
                None => -1,
            },
            None => -1,
        }
    }

    /// The `total` counter of the summary, or `-1`.
    pub fn total_cnt(&self) -> (r: i32)
        ensures
            r == spec_total(self@),
    {
        match self.info_captures() {
            Some(c) => match parse_digits_i32(c.total.as_str()) {
                Some(n) => n,
                None => -1,
            },
            None => -1,
        }
    }
}

} // verus!
