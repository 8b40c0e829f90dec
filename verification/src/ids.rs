//! Message identifiers and their texts.

use vstd::prelude::*;
use vstd::slice::slice_subrange;

use crate::numbers::{decimal, decimal_text, digit_char, parse_unsigned, unsigned_value};
use crate::text::{chars_of, stands_at, starts_with, string_of, text_starts_with};

verus! {

/// Whether a number is laid out as a time-ordered identifier: the version 7 in the four
/// bits above the lowest seventy-six, and the variant `10` in the two above the lowest
/// sixty-two.
pub open spec fn is_v7(id: u128) -> bool {
    &&& (id as int / 0x1000_0000_0000_0000_0000) % 16 == 7
    &&& (id as int / 0x4000_0000_0000_0000) % 4 == 2
}

/// Whether a text is the hyphenated form of a time-ordered identifier.
pub open spec fn is_v7_text(text: Seq<char>) -> bool {
    exists|id: u128| #[trigger] is_v7(id) && text == uuid_text(id)
}

/// Whether a text is a time-ordered identifier in decimal.
pub open spec fn is_v7_decimal(text: Seq<char>) -> bool {
    exists|id: u128| #[trigger] is_v7(id) && text == decimal(id as nat)
}

/// `fast_uuid_v7::gen_id` makes a new time-ordered identifier: milliseconds on top, then
/// the version, the variant and random bits. Which one depends on the clock and on
/// chance, so only the layout is stated, and not that no two are equal.
#[verifier::external_body]
pub(crate) fn fresh_id() -> (id: u128)
    ensures
        is_v7(id),
{
    fast_uuid_v7::gen_id()
}

/// `fast_uuid_v7::gen_id_string` makes a new identifier and writes it in lower case
/// hexadecimal with hyphens between the groups. Which one depends on the clock and on
/// chance, so only the layout is stated, and not that no two are equal.
#[verifier::external_body]
pub(crate) fn fresh_id_text() -> (text: String)
    ensures
        is_v7_text(text@),
{
    fast_uuid_v7::gen_id_string()
}

/// A new identifier in decimal.
pub(crate) fn fresh_id_decimal() -> (text: String)
    ensures
        is_v7_decimal(text@),
{
    let id: u128 = fresh_id();
    let text = decimal_text(id);
    assert(is_v7(id) && text@ == decimal(id as nat));
    text
}

/// The lower case hexadecimal digit for a number below sixteen.
pub open spec fn hex_char(n: int) -> char {
    if n < 10 {
        digit_char(n)
    } else {
        ((n - 10 + 'a' as int) as u8) as char
    }
}

/// The hexadecimal digits of `n`, the last `width` of them.
pub open spec fn hex_digits(n: nat, width: nat) -> Seq<char>
    decreases width,
{
    if width == 0 {
        seq![]
    } else {
        hex_digits(n / 16, (width - 1) as nat).push(hex_char((n % 16) as int))
    }
}

/// The hyphenated text of an identifier: thirty-two hexadecimal digits in groups of
/// eight, four, four, four and twelve.
pub open spec fn uuid_text(id: u128) -> Seq<char> {
    let d = hex_digits(id as nat, 32);
    d.subrange(0, 8) + seq!['-'] + d.subrange(8, 12) + seq!['-'] + d.subrange(12, 16) + seq!['-']
        + d.subrange(16, 20) + seq!['-'] + d.subrange(20, 32)
}

/// The identifier that `uuid::Uuid::parse_str` reads from a text.
pub uninterp spec fn parsed_uuid(text: Seq<char>) -> Option<u128>;

/// `fast_uuid_v7::format_uuid` writes an identifier in lower case hexadecimal with
/// hyphens between the groups. That form is one that `uuid::Uuid::parse_str` reads,
/// and it reads the identifier back.
#[verifier::external_body]
pub(crate) fn format_id(id: u128) -> (text: String)
    ensures
        text@ == uuid_text(id),
        parsed_uuid(text@) == Some(id),
{
    fast_uuid_v7::format_uuid(id).to_string()
}

/// `uuid::Uuid::parse_str` reads an identifier in any of the usual forms, and fails
/// on every other text. Which texts it reads is left to it.
#[verifier::external_body]
pub(crate) fn parse_uuid(text: &str) -> (id: Option<u128>)
    ensures
        id == parsed_uuid(text@),
{
    uuid::Uuid::parse_str(text).ok().map(|u| u.as_u128())
}

/// `s` without any number of copies of a non-empty `part` in front.
pub open spec fn strip_all(s: Seq<char>, part: Seq<char>) -> Seq<char>
    decreases s.len(),
{
    if part.len() > 0 && starts_with(s, part) {
        strip_all(s.skip(part.len() as int), part)
    } else {
        s
    }
}

/// `s` without any number of copies of `part` in front.
pub fn strip_all_text(s: &str, part: &str) -> (out: String)
    ensures
        out@ == strip_all(s@, part@),
{
    let all = chars_of(s);
    let p = chars_of(part);
    let total: usize = all.len();
    let mut i: usize = 0;
    assert(s@.skip(0) =~= s@);
    while p.len() > 0 && stands_at(all.as_slice(), i, p.as_slice())
        invariant
            i <= total,
            total == all@.len(),
            all@ == s@,
            p@ == part@,
            strip_all(s@, part@) == strip_all(s@.skip(i as int), part@),
        decreases all@.len() - i,
    {
        assert(p@.len() <= s@.skip(i as int).len());
        assert(s@.skip(i as int).skip(p@.len() as int) =~= s@.skip(i + p@.len()));
        i += p.len();
    }
    assert(s@.skip(i as int) =~= s@.subrange(i as int, s@.len() as int));
    string_of(slice_subrange(all.as_slice(), i, all.len()))
}

/// The number that hexadecimal text denotes.
pub open spec fn hex_id(text: Seq<char>) -> Option<int> {
    unsigned_value(text, 16, u128::MAX as int)
}

/// The number that decimal text denotes.
pub open spec fn decimal_id(text: Seq<char>) -> Option<int> {
    unsigned_value(text, 10, u128::MAX as int)
}

/// The identifier that a request header holds: in a usual form, else in hexadecimal
/// with or without `0x`, else in decimal.
pub open spec fn header_id(text: Seq<char>) -> Option<int> {
    match parsed_uuid(text) {
        Some(id) => Some(id as int),
        None => match hex_id(strip_all(text, "0x"@)) {
            Some(n) => Some(n),
            None => decimal_id(text),
        },
    }
}

/// What is read of an identifier header once the usual forms have been tried.
pub fn id_from_parsed(text: &str, uuid: Option<u128>) -> (id: Option<u128>)
    ensures
        match id {
            Some(n) => (match uuid {
                Some(u) => Some(u as int),
                None => match hex_id(strip_all(text@, "0x"@)) {
                    Some(n) => Some(n),
                    None => decimal_id(text@),
                },
            }) == Some(n as int),
            None => uuid is None && hex_id(strip_all(text@, "0x"@)) is None && decimal_id(text@)
                is None,
        },
{
    if uuid.is_some() {
        return uuid;
    }
    let bare = strip_all_text(text, "0x");
    match parse_unsigned(bare.as_str(), 16, u128::MAX) {
        Some(n) => Some(n),
        None => parse_unsigned(text, 10, u128::MAX),
    }
}

/// Reads the identifier in a request header.
pub fn parse_header_id(text: &str) -> (id: Option<u128>)
    ensures
        match id {
            Some(n) => header_id(text@) == Some(n as int),
            None => header_id(text@) is None,
        },
{
    id_from_parsed(text, parse_uuid(text))
}

/// The identifier in a bridge message: none for an empty text, else in a usual form,
/// else in hexadecimal behind `0x` or `0X`, else in decimal.
pub open spec fn bridge_id(text: Seq<char>, uuid: Option<u128>) -> Option<int> {
    if text.len() == 0 {
        None
    } else if uuid is Some {
        Some(uuid->0 as int)
    } else if starts_with(text, "0x"@) || starts_with(text, "0X"@) {
        hex_id(strip_all(strip_all(text, "0x"@), "0X"@))
    } else {
        decimal_id(text)
    }
}

/// What is read of a bridge message's identifier once the usual forms have been
/// tried.
pub fn bridge_id_from_parsed(text: &str, uuid: Option<u128>) -> (id: Option<u128>)
    ensures
        match id {
            Some(n) => bridge_id(text@, uuid) == Some(n as int),
            None => bridge_id(text@, uuid) is None,
        },
{
    if text.is_empty() {
        return None;
    }
    if uuid.is_some() {
        return uuid;
    }
    if text_starts_with(text, "0x") || text_starts_with(text, "0X") {
        let once = strip_all_text(text, "0x");
        let bare = strip_all_text(once.as_str(), "0X");
        parse_unsigned(bare.as_str(), 16, u128::MAX)
    } else {
        parse_unsigned(text, 10, u128::MAX)
    }
}

/// Reads the identifier of a bridge message.
pub fn parse_bridge_id(text: &str) -> (id: Option<u128>)
    ensures
        match id {
            Some(n) => bridge_id(text@, parsed_uuid(text@)) == Some(n as int),
            None => bridge_id(text@, parsed_uuid(text@)) is None,
        },
{
    bridge_id_from_parsed(text, parse_uuid(text))
}

/// The hexadecimal text of an identifier: thirty-two digits.
pub fn hex_text(id: u128) -> (out: String)
    ensures
        out@ == hex_digits(id as nat, 32),
{
    let mut out = String::new();
    push_hex(&mut out, id, 32);
    assert(out@ =~= hex_digits(id as nat, 32));
    out
}

/// The last `width` hexadecimal digits of a number.
pub fn hex_tail(n: u128, width: u8) -> (out: String)
    ensures
        out@ == hex_digits(n as nat, width as nat),
{
    let mut out = String::new();
    push_hex(&mut out, n, width);
    assert(out@ =~= hex_digits(n as nat, width as nat));
    out
}

fn push_hex(out: &mut String, n: u128, width: u8)
    ensures
        final(out)@ == old(out)@ + hex_digits(n as nat, width as nat),
    decreases width,
{
    if width == 0 {
        assert(out@ =~= old(out)@ + hex_digits(n as nat, 0));
        return;
    }
    push_hex(out, n / 16, width - 1);
    let d: u8 = (n % 16) as u8;
    let c: char = if d < 10 {
        (d + ('0' as u8)) as char
    } else {
        (d - 10 + ('a' as u8)) as char
    };
    out.push(c);
    assert(out@ =~= old(out)@ + hex_digits(n as nat, width as nat));
}

} // verus!
