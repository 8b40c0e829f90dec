//! Text primitives over sequences of characters.
//!
//! Every function here states its result over the character sequence of its
//! argument, so that the modules above can speak of `Seq<char>` alone.

use vstd::prelude::*;
use vstd::slice::{slice_subrange, slice_to_vec};

verus! {

/// `<str as PartialEq>::eq` compares two string slices: they are equal when they
/// hold the same characters.
pub assume_specification[ <str as PartialEq>::eq ](s: &str, other: &str) -> (res: bool)
    ensures
        res == (s@ == other@),
;

/// `String::push` appends one character to the end of the string.
pub assume_specification[ String::push ](s: &mut String, ch: char)
    ensures
        final(s)@ == old(s)@.push(ch),
;

/// An optional string over character sequences.
pub open spec fn opt(o: Option<String>) -> Option<Seq<char>> {
    match o {
        Some(s) => Some(s@),
        None => None,
    }
}

/// An optional string slice over character sequences.
pub open spec fn text_of_option(o: Option<&str>) -> Option<Seq<char>> {
    match o {
        Some(s) => Some(s@),
        None => None,
    }
}

/// Whether two string slices hold the same characters.
pub fn same(a: &str, b: &str) -> (res: bool)
    ensures
        res == (a@ == b@),
{
    a.eq(b)
}

/// The characters of a string slice.
pub fn chars_of(s: &str) -> (out: Vec<char>)
    ensures
        out@ == s@,
{
    let mut out: Vec<char> = Vec::new();
    for c in it: s.chars()
        invariant
            out@ == it.seq().take(it.index()),
            it.seq() == s@,
    {
        out.push(c);
    }
    out
}

/// The string made of the given characters.
pub fn string_of(chars: &[char]) -> (out: String)
    ensures
        out@ == chars@,
{
    let mut out = String::new();
    let mut i: usize = 0;
    while i < chars.len()
        invariant
            i <= chars.len(),
            out@ == chars@.take(i as int),
        decreases chars.len() - i,
    {
        out.push(chars[i]);
        i += 1;
    }
    out
}

/// The character sequences of a sequence of strings.
pub open spec fn texts(v: Seq<String>) -> Seq<Seq<char>> {
    v.map_values(|s: String| s@)
}

/// Two string slices joined.
pub fn join2(a: &str, b: &str) -> (out: String)
    ensures
        out@ == a@ + b@,
{
    let mut out = a.to_owned();
    out.append(b);
    out
}

/// Three string slices joined.
pub fn join3(a: &str, b: &str, c: &str) -> (out: String)
    ensures
        out@ == a@ + b@ + c@,
{
    let mut out = join2(a, b);
    out.append(c);
    out
}

/// Five string slices joined.
pub fn join5(a: &str, b: &str, c: &str, d: &str, e: &str) -> (out: String)
    ensures
        out@ == a@ + b@ + c@ + d@ + e@,
{
    let mut out = join3(a, b, c);
    out.append(d);
    out.append(e);
    out
}

/// The first position at or after `i` that holds `x`, or the length of `s`.
pub open spec fn find_from<T>(s: Seq<T>, x: T, i: int) -> int
    decreases s.len() - i,
{
    if i >= s.len() {
        s.len() as int
    } else if s[i] == x {
        i
    } else {
        find_from(s, x, i + 1)
    }
}

/// `find_from` stays in range, and every earlier position holds something else.
pub proof fn lemma_find_from<T>(s: Seq<T>, x: T, i: int)
    requires
        0 <= i <= s.len(),
    ensures
        i <= find_from(s, x, i) <= s.len(),
        find_from(s, x, i) < s.len() ==> s[find_from(s, x, i)] == x,
        forall|k: int| i <= k < find_from(s, x, i) ==> s[k] != x,
    decreases s.len() - i,
{
    if i < s.len() && s[i] != x {
        lemma_find_from(s, x, i + 1);
    }
}

/// The first position of `x` at or after `start`.
pub fn find_char(s: &[char], x: char, start: usize) -> (pos: usize)
    requires
        start <= s@.len(),
    ensures
        pos == find_from(s@, x, start as int),
        start <= pos <= s@.len(),
{
    let mut i: usize = start;
    while i < s.len() && s[i] != x
        invariant
            start <= i <= s@.len(),
            find_from(s@, x, start as int) == find_from(s@, x, i as int),
        decreases s@.len() - i,
    {
        i += 1;
    }
    i
}

/// The pieces of `s` from position `i` on, cut at every `sep`.
pub open spec fn split_from<T>(s: Seq<T>, sep: T, i: int) -> Seq<Seq<T>>
    decreases s.len() - i,
    when 0 <= i <= s.len()
{
    proof {
        lemma_find_from(s, sep, i);
    }
    let j = find_from(s, sep, i);
    if j >= s.len() {
        seq![s.subrange(i, s.len() as int)]
    } else {
        seq![s.subrange(i, j)] + split_from(s, sep, j + 1)
    }
}

/// The pieces of `s` between occurrences of `sep`.
pub open spec fn split<T>(s: Seq<T>, sep: T) -> Seq<Seq<T>> {
    split_from(s, sep, 0)
}

/// The character sequences of a vector of character vectors.
pub open spec fn char_rows(rows: Seq<Vec<char>>) -> Seq<Seq<char>> {
    rows.map_values(|r: Vec<char>| r@)
}

/// Cuts `s` at every `sep`.
pub fn split_chars(s: &[char], sep: char) -> (out: Vec<Vec<char>>)
    ensures
        char_rows(out@) == split(s@, sep),
        out@.len() >= 1,
{
    let mut out: Vec<Vec<char>> = Vec::new();
    let mut i: usize = 0;
    loop
        invariant
            i <= s@.len(),
            char_rows(out@) + split_from(s@, sep, i as int) == split(s@, sep),
        decreases s@.len() - i,
    {
        let j: usize = find_char(s, sep, i);
        let piece = slice_to_vec(slice_subrange(s, i, j));
        let ghost before = out@;
        out.push(piece);
        assert(char_rows(out@) =~= char_rows(before).push(piece@));
        if j >= s.len() {
            assert(char_rows(out@) =~= char_rows(before) + split_from(s@, sep, i as int));
            return out;
        }
        assert(char_rows(out@) + split_from(s@, sep, j + 1) =~= char_rows(before) + split_from(
            s@,
            sep,
            i as int,
        ));
        i = j + 1;
    }
}

/// What stands before and after the first `sep`, where there is one.
pub open spec fn split_once<T>(s: Seq<T>, sep: T) -> Option<(Seq<T>, Seq<T>)> {
    let j = find_from(s, sep, 0);
    if j < s.len() {
        Some((s.subrange(0, j), s.subrange(j + 1, s.len() as int)))
    } else {
        None
    }
}

/// Cuts `s` at its first `sep`.
pub fn split_once_chars<'a>(s: &'a [char], sep: char) -> (out: Option<(&'a [char], &'a [char])>)
    ensures
        match out {
            Some((a, b)) => split_once(s@, sep) == Some((a@, b@)),
            None => split_once(s@, sep) is None,
        },
{
    let j: usize = find_char(s, sep, 0);
    if j < s.len() {
        Some((slice_subrange(s, 0, j), slice_subrange(s, j + 1, s.len())))
    } else {
        None
    }
}

/// The ASCII lower case of a character.
pub open spec fn lower(c: char) -> char {
    if 'A' <= c <= 'Z' {
        ((c as u32) + 32) as char
    } else {
        c
    }
}

/// The ASCII lower case of every character.
pub open spec fn lower_all(s: Seq<char>) -> Seq<char> {
    s.map_values(|c: char| lower(c))
}

/// Equality up to ASCII case.
pub open spec fn same_ignoring_case(a: Seq<char>, b: Seq<char>) -> bool {
    lower_all(a) == lower_all(b)
}

/// The ASCII lower case of one character.
pub fn lower_char(c: char) -> (out: char)
    ensures
        out == lower(c),
{
    if 'A' <= c && c <= 'Z' {
        ((c as u8) + 32) as char
    } else {
        c
    }
}

/// The ASCII lower case of `s`.
pub fn lower_chars(s: &[char]) -> (out: Vec<char>)
    ensures
        out@ == lower_all(s@),
{
    let mut out: Vec<char> = Vec::new();
    let mut i: usize = 0;
    while i < s.len()
        invariant
            i <= s@.len(),
            out@ == lower_all(s@.take(i as int)),
        decreases s@.len() - i,
    {
        out.push(lower_char(s[i]));
        i += 1;
        assert(out@ =~= lower_all(s@.take(i as int)));
    }
    assert(s@.take(s@.len() as int) =~= s@);
    out
}

/// Whether two character slices are equal.
pub fn same_chars(a: &[char], b: &[char]) -> (res: bool)
    ensures
        res == (a@ == b@),
{
    if a.len() != b.len() {
        return false;
    }
    let mut i: usize = 0;
    while i < a.len()
        invariant
            i <= a@.len(),
            a@.len() == b@.len(),
            forall|k: int| 0 <= k < i ==> a@[k] == b@[k],
        decreases a@.len() - i,
    {
        if a[i] != b[i] {
            return false;
        }
        i += 1;
    }
    assert(a@ =~= b@);
    true
}

/// Whether two string slices are equal up to ASCII case.
pub fn same_text_ignoring_case(a: &str, b: &str) -> (res: bool)
    ensures
        res == same_ignoring_case(a@, b@),
{
    let x = lower_chars(chars_of(a).as_slice());
    let y = lower_chars(chars_of(b).as_slice());
    same_chars(x.as_slice(), y.as_slice())
}

/// The characters with the Unicode property White_Space.
pub open spec fn is_space(c: char) -> bool {
    ||| 0x09 <= c as u32 <= 0x0d
    ||| c as u32 == 0x20
    ||| c as u32 == 0x85
    ||| c as u32 == 0xa0
    ||| c as u32 == 0x1680
    ||| 0x2000 <= c as u32 <= 0x200a
    ||| c as u32 == 0x2028
    ||| c as u32 == 0x2029
    ||| c as u32 == 0x202f
    ||| c as u32 == 0x205f
    ||| c as u32 == 0x3000
}

/// Whether a character has the Unicode property White_Space.
pub fn is_space_char(c: char) -> (res: bool)
    ensures
        res == is_space(c),
{
    let n: u32 = c as u32;
    (0x09 <= n && n <= 0x0d) || n == 0x20 || n == 0x85 || n == 0xa0 || n == 0x1680 || (0x2000 <= n
        && n <= 0x200a) || n == 0x2028 || n == 0x2029 || n == 0x202f || n == 0x205f || n == 0x3000
}

/// `s` without the white space in front.
pub open spec fn trim_start(s: Seq<char>) -> Seq<char>
    decreases s.len(),
{
    if s.len() > 0 && is_space(s[0]) {
        trim_start(s.subrange(1, s.len() as int))
    } else {
        s
    }
}

/// `s` without the white space at its end.
pub open spec fn trim_end(s: Seq<char>) -> Seq<char>
    decreases s.len(),
{
    if s.len() > 0 && is_space(s.last()) {
        trim_end(s.drop_last())
    } else {
        s
    }
}

/// `s` without the white space around it.
pub open spec fn trim(s: Seq<char>) -> Seq<char> {
    trim_end(trim_start(s))
}

/// `s` without the white space around it.
pub fn trim_chars<'a>(s: &'a [char]) -> (out: &'a [char])
    ensures
        out@ == trim(s@),
{
    let mut i: usize = 0;
    assert(s@.subrange(0, s@.len() as int) =~= s@);
    while i < s.len() && is_space_char(s[i])
        invariant
            i <= s@.len(),
            trim_start(s@) == trim_start(s@.subrange(i as int, s@.len() as int)),
        decreases s@.len() - i,
    {
        assert(s@.subrange(i as int, s@.len() as int).subrange(1, s@.len() - i) =~= s@.subrange(
            i + 1,
            s@.len() as int,
        ));
        i += 1;
    }
    let mut j: usize = s.len();
    while j > i && is_space_char(s[j - 1])
        invariant
            i <= j <= s@.len(),
            trim(s@) == trim_end(s@.subrange(i as int, j as int)),
        decreases j,
    {
        assert(s@.subrange(i as int, j as int).drop_last() =~= s@.subrange(i as int, j - 1));
        j -= 1;
    }
    slice_subrange(s, i, j)
}

/// Whether `s` begins with `prefix`.
pub open spec fn starts_with<T>(s: Seq<T>, prefix: Seq<T>) -> bool {
    prefix.len() <= s.len() && s.take(prefix.len() as int) == prefix
}

/// Whether `prefix` stands in `s` at position `at`.
pub fn stands_at(s: &[char], at: usize, prefix: &[char]) -> (res: bool)
    requires
        at <= s@.len(),
    ensures
        res == starts_with(s@.skip(at as int), prefix@),
{
    if prefix.len() > s.len() - at {
        return false;
    }
    assert(s@.skip(at as int).take(prefix@.len() as int) =~= s@.subrange(
        at as int,
        at + prefix@.len(),
    ));
    same_chars(slice_subrange(s, at, at + prefix.len()), prefix)
}

/// Whether a string slice begins with another.
pub fn text_starts_with(s: &str, prefix: &str) -> (res: bool)
    ensures
        res == starts_with(s@, prefix@),
{
    let a = chars_of(s);
    let b = chars_of(prefix);
    assert(a@.skip(0) =~= a@);
    stands_at(a.as_slice(), 0, b.as_slice())
}

/// Whether `part` stands somewhere in `s`.
pub open spec fn contains(s: Seq<char>, part: Seq<char>) -> bool {
    exists|i: int| 0 <= i <= s.len() && #[trigger] starts_with(s.skip(i), part)
}

/// Whether `part` stands somewhere in `s`.
pub fn contains_chars(s: &[char], part: &[char]) -> (res: bool)
    ensures
        res == contains(s@, part@),
{
    let mut i: usize = 0;
    loop
        invariant
            i <= s@.len(),
            forall|k: int| 0 <= k < i ==> !#[trigger] starts_with(s@.skip(k), part@),
        decreases s@.len() - i,
    {
        if stands_at(s, i, part) {
            return true;
        }
        if i == s.len() {
            return false;
        }
        i += 1;
    }
}

/// Whether `part` stands somewhere in `s`.
pub fn text_contains(s: &str, part: &str) -> (res: bool)
    ensures
        res == contains(s@, part@),
{
    contains_chars(chars_of(s).as_slice(), chars_of(part).as_slice())
}

/// Searching from position `i` is searching what follows it.
pub proof fn lemma_find_from_skip<T>(s: Seq<T>, x: T, i: int, j: int)
    requires
        0 <= j <= i <= s.len(),
    ensures
        find_from(s, x, i) == j + find_from(s.skip(j), x, i - j),
    decreases s.len() - i,
{
    if i < s.len() && s[i] != x {
        lemma_find_from_skip(s, x, i + 1, j);
    }
}

/// Cutting from position `i` is cutting what follows it.
pub proof fn lemma_split_skip<T>(s: Seq<T>, sep: T, i: int, j: int)
    requires
        0 <= j <= i <= s.len(),
    ensures
        split_from(s, sep, i) == split_from(s.skip(j), sep, i - j),
    decreases s.len() - i,
{
    lemma_find_from(s, sep, i);
    lemma_find_from_skip(s, sep, i, j);
    let p = find_from(s, sep, i);
    assert(s.skip(j).subrange(i - j, s.len() - j) =~= s.subrange(i, s.len() as int));
    if p < s.len() {
        assert(s.skip(j).subrange(i - j, p - j) =~= s.subrange(i, p));
        lemma_split_skip(s, sep, p + 1, j);
    }
}

/// A piece without the separator, the separator and a rest are cut into the piece
/// and the pieces of the rest.
pub proof fn lemma_split_head<T>(piece: Seq<T>, sep: T, rest: Seq<T>)
    requires
        !piece.contains(sep),
    ensures
        split(piece + seq![sep] + rest, sep) == seq![piece] + split(rest, sep),
{
    let s = piece + seq![sep] + rest;
    let n = piece.len() as int;
    lemma_find_from(s, sep, 0);
    let p = find_from(s, sep, 0);
    assert(s[n] == sep);
    assert(p == n) by {
        if p < n {
            assert(piece[p] == s[p]);
        }
    }
    assert(s.subrange(0, n) =~= piece);
    assert(s.skip(n + 1) =~= rest);
    lemma_split_skip(s, sep, n + 1, n + 1);
}

/// A text without the separator is one piece.
pub proof fn lemma_split_one<T>(piece: Seq<T>, sep: T)
    requires
        !piece.contains(sep),
    ensures
        split(piece, sep) == seq![piece],
{
    lemma_find_from(piece, sep, 0);
    let p = find_from(piece, sep, 0);
    if p < piece.len() {
        assert(piece[p] == sep);
    }
    assert(piece.subrange(0, piece.len() as int) =~= piece);
}

/// No piece holds the separator, there is at least one, and every piece is made of
/// what the text holds.
pub proof fn lemma_split_pieces<T>(s: Seq<T>, sep: T, i: int)
    requires
        0 <= i <= s.len(),
    ensures
        split_from(s, sep, i).len() >= 1,
        forall|k: int|
            0 <= k < split_from(s, sep, i).len() ==> !(#[trigger] split_from(
                s,
                sep,
                i,
            )[k]).contains(sep),
        forall|k: int, c: T|
            0 <= k < split_from(s, sep, i).len() && (#[trigger] split_from(s, sep, i)[k]).contains(
                c,
            ) ==> #[trigger] s.contains(c),
    decreases s.len() - i,
{
    lemma_find_from(s, sep, i);
    let p = find_from(s, sep, i);
    let pieces = split_from(s, sep, i);
    let first = s.subrange(i, p);
    assert(pieces[0] == first);
    if p < s.len() {
        lemma_split_pieces(s, sep, p + 1);
        let later = split_from(s, sep, p + 1);
        assert(pieces == seq![first] + later);
        assert forall|k: int| 0 <= k < pieces.len() implies !(#[trigger] pieces[k]).contains(
            sep,
        ) by {
            if k > 0 {
                assert(pieces[k] == later[k - 1]);
            }
        }
        assert forall|k: int, c: T|
            0 <= k < pieces.len() && (#[trigger] pieces[k]).contains(
                c,
            ) implies #[trigger] s.contains(c) by {
            if k > 0 {
                assert(pieces[k] == later[k - 1]);
            } else {
                let w = choose|w: int| 0 <= w < first.len() && first[w] == c;
                assert(s[i + w] == c);
            }
        }
    } else {
        assert forall|k: int, c: T|
            0 <= k < pieces.len() && (#[trigger] pieces[k]).contains(
                c,
            ) implies #[trigger] s.contains(c) by {
            let w = choose|w: int| 0 <= w < first.len() && first[w] == c;
            assert(s[i + w] == c);
        }
    }
}

} // verus!
