//! Byte sequences: white space, patterns and their texts.

use vstd::prelude::*;
use vstd::slice::slice_subrange;
use vstd::utf8::{decode_utf8, valid_utf8};

verus! {

/// ASCII white space: space, tab, line feed, form feed and carriage return.
pub open spec fn is_blank(b: u8) -> bool {
    b == 32 || b == 9 || b == 10 || b == 12 || b == 13
}

/// Whether every byte is ASCII white space.
pub open spec fn all_blank(s: Seq<u8>) -> bool {
    forall|i: int| 0 <= i < s.len() ==> is_blank(#[trigger] s[i])
}

pub fn is_blank_byte(b: u8) -> (res: bool)
    ensures
        res == is_blank(b),
{
    b == 32 || b == 9 || b == 10 || b == 12 || b == 13
}

/// Whether every byte is ASCII white space.
pub fn all_blank_bytes(s: &[u8]) -> (res: bool)
    ensures
        res == all_blank(s@),
{
    let mut i: usize = 0;
    while i < s.len()
        invariant
            i <= s@.len(),
            forall|k: int| 0 <= k < i ==> is_blank(#[trigger] s@[k]),
        decreases s@.len() - i,
    {
        if !is_blank_byte(s[i]) {
            assert(!is_blank(s@[i as int]));
            return false;
        }
        i += 1;
    }
    true
}

/// `s` without the white space in front.
pub open spec fn trim_blank_start(s: Seq<u8>) -> Seq<u8>
    decreases s.len(),
{
    if s.len() > 0 && is_blank(s[0]) {
        trim_blank_start(s.subrange(1, s.len() as int))
    } else {
        s
    }
}

/// `s` without the white space at its end.
pub open spec fn trim_blank_end(s: Seq<u8>) -> Seq<u8>
    decreases s.len(),
{
    if s.len() > 0 && is_blank(s.last()) {
        trim_blank_end(s.drop_last())
    } else {
        s
    }
}

/// `s` without the white space around it.
pub open spec fn trim_blank(s: Seq<u8>) -> Seq<u8> {
    trim_blank_end(trim_blank_start(s))
}

/// `s` without the white space around it.
pub fn trim_blank_bytes<'a>(s: &'a [u8]) -> (out: &'a [u8])
    ensures
        out@ == trim_blank(s@),
{
    let mut i: usize = 0;
    assert(s@.subrange(0, s@.len() as int) =~= s@);
    while i < s.len() && is_blank_byte(s[i])
        invariant
            i <= s@.len(),
            trim_blank_start(s@) == trim_blank_start(s@.subrange(i as int, s@.len() as int)),
        decreases s@.len() - i,
    {
        assert(s@.subrange(i as int, s@.len() as int).subrange(1, s@.len() - i) =~= s@.subrange(
            i + 1,
            s@.len() as int,
        ));
        i += 1;
    }
    let mut j: usize = s.len();
    while j > i && is_blank_byte(s[j - 1])
        invariant
            i <= j <= s@.len(),
            trim_blank(s@) == trim_blank_end(s@.subrange(i as int, j as int)),
        decreases j,
    {
        assert(s@.subrange(i as int, j as int).drop_last() =~= s@.subrange(i as int, j - 1));
        j -= 1;
    }
    slice_subrange(s, i, j)
}

/// Whether `pattern` stands in `s` at position `i`.
pub open spec fn stands(s: Seq<u8>, pattern: Seq<u8>, i: int) -> bool {
    0 <= i && i + pattern.len() <= s.len() && s.subrange(i, i + pattern.len()) == pattern
}

/// The first position at or after `i` where `pattern` stands, or -1.
pub open spec fn find_pattern(s: Seq<u8>, pattern: Seq<u8>, i: int) -> int
    decreases s.len() + 1 - i,
{
    if i + pattern.len() > s.len() {
        -1
    } else if stands(s, pattern, i) {
        i
    } else {
        find_pattern(s, pattern, i + 1)
    }
}

pub proof fn lemma_find_pattern(s: Seq<u8>, pattern: Seq<u8>, i: int)
    requires
        0 <= i,
    ensures
        find_pattern(s, pattern, i) == -1 || (find_pattern(s, pattern, i) >= i && stands(
            s,
            pattern,
            find_pattern(s, pattern, i),
        )),
        forall|k: int|
            i <= k && (find_pattern(s, pattern, i) == -1 || k < find_pattern(s, pattern, i))
                ==> !#[trigger] stands(s, pattern, k),
    decreases s.len() + 1 - i,
{
    if i + pattern.len() <= s.len() && !stands(s, pattern, i) {
        lemma_find_pattern(s, pattern, i + 1);
    }
}

/// A position where the pattern stands, and nowhere before, is what is found.
pub proof fn lemma_find_pattern_is(s: Seq<u8>, pattern: Seq<u8>, i: int, at: int)
    requires
        0 <= i <= at,
        stands(s, pattern, at),
        forall|k: int| i <= k < at ==> !#[trigger] stands(s, pattern, k),
    ensures
        find_pattern(s, pattern, i) == at,
    decreases at - i,
{
    if i < at {
        lemma_find_pattern_is(s, pattern, i + 1, at);
    }
}

/// Whether `pattern` stands in `s` at position `i`.
pub fn stands_bytes(s: &[u8], pattern: &[u8], i: usize) -> (res: bool)
    requires
        i <= s@.len(),
    ensures
        res == stands(s@, pattern@, i as int),
{
    if pattern.len() > s.len() - i {
        return false;
    }
    let mut k: usize = 0;
    while k < pattern.len()
        invariant
            k <= pattern@.len(),
            i + pattern@.len() <= s@.len(),
            s@.len() <= usize::MAX,
            forall|j: int| 0 <= j < k ==> s@[i + j] == #[trigger] pattern@[j],
        decreases pattern@.len() - k,
    {
        if s[i + k] != pattern[k] {
            assert(s@.subrange(i as int, i + pattern@.len())[k as int] != pattern@[k as int]);
            return false;
        }
        k += 1;
    }
    assert(s@.subrange(i as int, i + pattern@.len()) =~= pattern@);
    true
}

/// The first position at or after `start` where `pattern` stands.
pub fn find_bytes(s: &[u8], pattern: &[u8], start: usize) -> (pos: Option<usize>)
    requires
        start <= s@.len(),
        pattern@.len() > 0,
    ensures
        match pos {
            Some(p) => find_pattern(s@, pattern@, start as int) == p && p + pattern@.len()
                <= s@.len(),
            None => find_pattern(s@, pattern@, start as int) == -1,
        },
{
    let mut i: usize = start;
    loop
        invariant
            start <= i <= s@.len(),
            pattern@.len() > 0,
            find_pattern(s@, pattern@, start as int) == find_pattern(s@, pattern@, i as int),
        decreases s@.len() - i,
    {
        if pattern.len() > s.len() - i {
            return None;
        }
        if stands_bytes(s, pattern, i) {
            return Some(i);
        }
        i += 1;
    }
}

/// What `String::from_utf8_lossy` makes of bytes.
pub uninterp spec fn lossy_text(bytes: Seq<u8>) -> Seq<char>;

/// `String::from_utf8_lossy` decodes UTF-8 and puts a replacement character in place
/// of what is not valid. Valid UTF-8 is decoded as it is; where the replacement
/// characters go otherwise is left to it.
#[verifier::external_body]
pub(crate) fn text_of_lossy(bytes: &[u8]) -> (text: String)
    ensures
        text@ == lossy_text(bytes@),
        valid_utf8(bytes@) ==> text@ == decode_utf8(bytes@),
{
    String::from_utf8_lossy(bytes).into_owned()
}

/// `String::from_utf8` decodes valid UTF-8, and refuses every other sequence.
#[verifier::external_body]
pub(crate) fn text_of(bytes: &[u8]) -> (text: Option<String>)
    ensures
        match text {
            Some(t) => valid_utf8(bytes@) && t@ == decode_utf8(bytes@),
            None => !valid_utf8(bytes@),
        },
{
    String::from_utf8(bytes.to_vec()).ok()
}

} // verus!
