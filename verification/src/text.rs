//! Text as a sequence of characters: decoding, classification and substring
//! search. Every index in this crate counts characters.

use vstd::prelude::*;

verus! {

/// Whether `c` has the Unicode property `White_Space`, as
/// `char::is_whitespace` of the standard library decides it.
pub uninterp spec fn is_whitespace(c: char) -> bool;

/// Whether `c` is a control character (general category `Cc`), as
/// `char::is_control` of the standard library decides it.
pub uninterp spec fn is_control(c: char) -> bool;

/// The number of extended grapheme clusters of `text`, as the crate
/// `unicode_segmentation` counts them.
pub uninterp spec fn grapheme_count(text: Seq<char>) -> nat;

/// Calls `char::is_whitespace`. Trusted: the answer is the named property of
/// `c`, and the space character has it, as the documentation of the function
/// shows.
#[verifier::external_body]
pub(crate) fn char_is_whitespace(c: char) -> (b: bool)
    ensures
        b == is_whitespace(c),
        c == ' ' ==> b,
{
    c.is_whitespace()
}

/// Calls `char::is_control`. Trusted: the answer is the named property of `c`.
#[verifier::external_body]
pub(crate) fn char_is_control(c: char) -> (b: bool)
    ensures
        b == is_control(c),
{
    c.is_control()
}

/// Calls `UnicodeSegmentation::graphemes` with extended clusters and counts
/// what it yields. Trusted: the count is a function of the characters alone.
#[verifier::external_body]
pub(crate) fn count_graphemes(s: &str) -> (n: usize)
    ensures
        n == grapheme_count(s@),
{
    unicode_segmentation::UnicodeSegmentation::graphemes(s, true).count()
}

/// Calls `String::push`. Trusted: the string grows by exactly `c` at its end.
#[verifier::external_body]
pub(crate) fn push_char(s: &mut String, c: char)
    ensures
        final(s)@ == old(s)@.push(c),
{
    s.push(c)
}

/// Decodes a string slice into its characters.
pub fn chars_of(s: &str) -> (v: Vec<char>)
    ensures
        v@ == s@,
{
    let mut v: Vec<char> = Vec::new();
    for c in it: s.chars()
        invariant
            v@ == it.seq().take(it.index()),
            it.seq() == s@,
    {
        v.push(c);
    }
    v
}

/// Builds the string that holds the characters `chars[from..to]`.
pub fn string_of(chars: &Vec<char>, from: usize, to: usize) -> (s: String)
    requires
        from <= to <= chars.len(),
    ensures
        s@ == chars@.subrange(from as int, to as int),
{
    let mut s = String::new();
    let mut i: usize = from;
    while i < to
        invariant
            from <= i <= to <= chars.len(),
            s@ == chars@.subrange(from as int, i as int),
        decreases to - i,
    {
        push_char(&mut s, chars[i]);
        i += 1;
    }
    s
}

/// `pat` stands in `text` at index `i`.
pub open spec fn occurs_at(text: Seq<char>, pat: Seq<char>, i: int) -> bool {
    &&& 0 <= i
    &&& i + pat.len() <= text.len()
    &&& text.subrange(i, i + pat.len()) == pat
}

/// `pat` stands in `text` at index `i`, and wholly inside `[lo, hi)`.
pub open spec fn occurs_within(text: Seq<char>, pat: Seq<char>, lo: int, hi: int, i: int) -> bool {
    &&& lo <= i
    &&& i + pat.len() <= hi
    &&& occurs_at(text, pat, i)
}

/// `i` is the leftmost place in `[lo, hi)` where `pat` stands.
pub open spec fn is_first_match(text: Seq<char>, pat: Seq<char>, lo: int, hi: int, i: int) -> bool {
    &&& occurs_within(text, pat, lo, hi, i)
    &&& forall|j: int| lo <= j < i ==> !occurs_at(text, pat, j)
}

/// `i` is the rightmost place in `[lo, hi)` where `pat` stands.
pub open spec fn is_last_match(text: Seq<char>, pat: Seq<char>, lo: int, hi: int, i: int) -> bool {
    &&& occurs_within(text, pat, lo, hi, i)
    &&& forall|j: int| i < j && j + pat.len() <= hi ==> !occurs_at(text, pat, j)
}

/// `pat` stands nowhere wholly inside `[lo, hi)`.
pub open spec fn no_match(text: Seq<char>, pat: Seq<char>, lo: int, hi: int) -> bool {
    forall|j: int| !occurs_within(text, pat, lo, hi, j)
}

/// Tests whether `pat` stands in `text` at index `i`.
pub fn matches_at(text: &Vec<char>, pat: &Vec<char>, i: usize) -> (b: bool)
    ensures
        b == occurs_at(text@, pat@, i as int),
{
    let n: usize = text.len();
    let m: usize = pat.len();
    if i > n || m > n - i {
        return false;
    }
    let mut k: usize = 0;
    while k < m
        invariant
            i + m <= n,
            n == text.len(),
            m == pat.len(),
            k <= m,
            forall|j: int| 0 <= j < k ==> text@[i + j] == pat@[j],
        decreases m - k,
    {
        if text[i + k] != pat[k] {
            assert(text@.subrange(i as int, i + m)[k as int] == text@[i + k]);
            return false;
        }
        k += 1;
    }
    assert(text@.subrange(i as int, i + m) =~= pat@);
    true
}

/// The leftmost place wholly inside `[lo, hi)` where `pat` stands in `text`.
pub fn find_first(text: &Vec<char>, pat: &Vec<char>, lo: usize, hi: usize) -> (r: Option<usize>)
    ensures
        match r {
            Some(i) => is_first_match(text@, pat@, lo as int, hi as int, i as int),
            None => no_match(text@, pat@, lo as int, hi as int),
        },
{
    let m: usize = pat.len();
    if lo > hi || m > hi - lo {
        return None;
    }
    let last: usize = hi - m;
    let mut i: usize = lo;
    while i < last
        invariant
            lo <= i <= last,
            last + m == hi,
            m == pat.len(),
            forall|j: int| lo <= j < i ==> !occurs_at(text@, pat@, j),
        decreases last - i,
    {
        if matches_at(text, pat, i) {
            return Some(i);
        }
        i += 1;
    }
    if matches_at(text, pat, last) {
        Some(last)
    } else {
        None
    }
}

/// The rightmost place wholly inside `[lo, hi)` where `pat` stands in `text`.
pub fn find_last(text: &Vec<char>, pat: &Vec<char>, lo: usize, hi: usize) -> (r: Option<usize>)
    ensures
        match r {
            Some(i) => is_last_match(text@, pat@, lo as int, hi as int, i as int),
            None => no_match(text@, pat@, lo as int, hi as int),
        },
{
    let m: usize = pat.len();
    if lo > hi || m > hi - lo {
        return None;
    }
    let mut i: usize = hi - m;
    loop
        invariant
            lo <= i <= hi - m,
            m == pat.len(),
            forall|j: int| i < j && j + m <= hi ==> !occurs_at(text@, pat@, j),
        decreases i,
    {
        if matches_at(text, pat, i) {
            return Some(i);
        }
        if i == lo {
            return None;
        }
        i -= 1;
    }
}

} // verus!
