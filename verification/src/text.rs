//! Character-level string helpers shared by the summary matcher and the
//! item-key compression: literal matching, substring search, and the
//! prefix-before-first-occurrence split.

use vstd::prelude::*;

verus! {

/// Relies on `String::push` of std: appending one character to a string
/// appends it to the string's character sequence.
pub assume_specification[ String::push ](s: &mut String, c: char)
    ensures
        final(s)@ == old(s)@.push(c),
;

/// The sequence `lit` occurs in `s` starting at position `i`.
pub open spec fn lit_at(s: Seq<char>, i: int, lit: Seq<char>) -> bool {
    0 <= i && i + lit.len() <= s.len() && s.subrange(i, i + lit.len()) == lit
}

/// The first position at or after `i` where `sep` occurs in `s`.
pub open spec fn find_sub(s: Seq<char>, sep: Seq<char>, i: int) -> Option<int>
    decreases s.len() - i,
{
    if i < 0 || i + sep.len() > s.len() {
        None
    } else if sep.len() == 0 {
        Some(i)
    } else if s.subrange(i, i + sep.len()) == sep {
        Some(i)
    } else {
        find_sub(s, sep, i + 1)
    }
}

/// The part of `s` before the first occurrence of `sep`, or all of `s`
/// when `sep` does not occur: what the first element of `str::split` is.
pub open spec fn split_first(s: Seq<char>, sep: Seq<char>) -> Seq<char> {
    match find_sub(s, sep, 0) {
        Some(i) => s.subrange(0, i),
        None => s,
    }
}

/// Compares two strings character by character.
pub fn str_eq(a: &str, b: &str) -> (r: bool)
    ensures
        r == (a@ == b@),
{
    let alen = a.unicode_len();
    let blen = b.unicode_len();
    if alen != blen {
        assert(a@ != b@);
        return false;
    }
    let mut i: usize = 0;
    while i < alen
        invariant
            i <= alen,
            alen == a@.len(),
            alen == b@.len(),
            forall|j: int| 0 <= j < i ==> a@[j] == b@[j],
        decreases alen - i,
    {
        if a.get_char(i) != b.get_char(i) {
            return false;
        }
        i += 1;
    }
    assert(a@ =~= b@);
    true
}

/// The literal `lit` occurs in `s` at position `i` (checked, not assumed).
pub fn lit_at_exec(s: &str, i: usize, lit: &str) -> (r: bool)
    ensures
        r == lit_at(s@, i as int, lit@),
{
    let slen = s.unicode_len();
    let llen = lit.unicode_len();
    if i > slen || llen > slen - i {
        assert(!lit_at(s@, i as int, lit@));
        return false;
    }
    let mut k: usize = 0;
    while k < llen
        invariant
            k <= llen,
            slen == s@.len(),
            llen == lit@.len(),
            i + llen <= slen,
            forall|j: int| 0 <= j < k ==> s@[i + j] == lit@[j],
        decreases llen - k,
    {
        if s.get_char(i + k) != lit.get_char(k) {
            assert(s@.subrange(i as int, i + lit@.len())[k as int] != lit@[k as int]);
            return false;
        }
        k += 1;
    }
    assert(s@.subrange(i as int, i + lit@.len()) =~= lit@);
    true
}

/// The first position where `sep` occurs in `s`.
pub fn find_sub_exec(s: &str, sep: &str) -> (r: Option<usize>)
    ensures
        match r {
            Some(i) => find_sub(s@, sep@, 0) == Some(i as int),
            None => find_sub(s@, sep@, 0) is None,
        },
{
    let slen = s.unicode_len();
    let seplen = sep.unicode_len();
    if seplen > slen {
        return None;
    }
    if seplen == 0 {
        return Some(0);
    }
    let mut i: usize = 0;
    while i <= slen - seplen
        invariant
            i <= slen - seplen + 1,
            1 <= seplen <= slen,
            slen == s@.len(),
            seplen == sep@.len(),
            find_sub(s@, sep@, 0) == find_sub(s@, sep@, i as int),
        decreases slen - i,
    {
        if lit_at_exec(s, i, sep) {
            return Some(i);
        }
        i += 1;
    }
    None
}

/// The prefix of `key` before the first occurrence of `sep`, or all of
/// `key` when `sep` does not occur.
pub fn split_prefix(key: &str, sep: &str) -> (r: String)
    ensures
        r@ == split_first(key@, sep@),
{
    match find_sub_exec(key, sep) {
        Some(i) => {
            proof {
                lemma_find_sub_bounds(key@, sep@, 0);
            }
            key.substring_char(0, i).to_owned()
        },
        None => key.to_owned(),
    }
}

proof fn lemma_find_sub_bounds(s: Seq<char>, sep: Seq<char>, i: int)
    requires
        0 <= i,
    ensures
        match find_sub(s, sep, i) {
            Some(j) => i <= j && j + sep.len() <= s.len(),
            None => true,
        },
    decreases s.len() - i,
{
    if i < 0 || i + sep.len() > s.len() {
    } else if sep.len() == 0 {
    } else if s.subrange(i, i + sep.len()) == sep {
    } else {
        lemma_find_sub_bounds(s, sep, i + 1);
    }
}

} // verus!
