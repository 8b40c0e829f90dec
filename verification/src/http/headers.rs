//! Header fields and the media types in them.

use vstd::prelude::*;
use vstd::utf8::encode_utf8;

use crate::message::copy_bytes;
use crate::text::{
    char_rows, chars_of, lower_all, lower_chars, same_chars, same_ignoring_case,
    same_text_ignoring_case, split, split_chars, trim, trim_chars,
};

verus! {

/// A header field: the name in lower case, the bytes of the value, and its text where
/// it is visible text.
#[derive(Debug)]
pub struct Header {
    pub name: String,
    pub text: Option<String>,
    pub raw: Vec<u8>,
}

impl Header {
    /// A field with a textual value.
    pub fn new(name: &str, text: &str) -> (h: Self)
        ensures
            h.name@ == name@,
            h.text matches Some(t) && t@ == text@,
            h.raw@ == encode_utf8(text@),
    {
        Header {
            name: name.to_owned(),
            text: Some(text.to_owned()),
            raw: copy_bytes(text.as_bytes()),
        }
    }

    /// A field whose value is not visible text.
    pub fn opaque(name: &str, raw: Vec<u8>) -> (h: Self)
        ensures
            h.name@ == name@,
            h.text is None,
            h.raw == raw,
    {
        Header { name: name.to_owned(), text: None, raw }
    }
}

/// Whether a character may stand in a token, such as a request method or a header name.
pub open spec fn is_token_char(c: char) -> bool {
    ||| '0' <= c <= '9'
    ||| 'a' <= c <= 'z'
    ||| 'A' <= c <= 'Z'
    ||| c == '!' || c == '#' || c == '$' || c == '%' || c == '&' || c == '\'' || c == '*'
    ||| c == '+' || c == '-' || c == '.' || c == '^' || c == '_' || c == '`' || c == '|' || c == '~'
}

/// Whether a text is a header name: at least one and at most 65535 characters of a
/// token.
pub open spec fn is_header_name(text: Seq<char>) -> bool {
    &&& 0 < text.len() <= 65535
    &&& forall|i: int| 0 <= i < text.len() ==> is_token_char(#[trigger] text[i])
}

/// Whether a text may be the value of a header: it holds no control character but the
/// tab.
pub open spec fn is_field_text(text: Seq<char>) -> bool {
    forall|i: int|
        0 <= i < text.len() ==> (32 <= (#[trigger] text[i]) as u32 && text[i] as u32 != 127)
            || text[i] as u32 == 9
}

/// The media type of one item of a media list: what stands before the parameters.
pub open spec fn media_of(item: Seq<char>) -> Seq<char> {
    trim(split(item, ';')[0])
}

/// Whether a media list names `media`, up to case.
pub open spec fn lists_media(raw: Seq<char>, media: Seq<char>) -> bool {
    exists|k: int|
        0 <= k < split(raw, ',').len() && same_ignoring_case(
            media_of(#[trigger] split(raw, ',')[k]),
            media,
        )
}

/// Whether a media list names `media`.
fn list_has_media(raw: &str, media: &str) -> (res: bool)
    ensures
        res == lists_media(raw@, media@),
{
    let all = chars_of(raw);
    let items = split_chars(all.as_slice(), ',');
    let want = lower_chars(chars_of(media).as_slice());
    let ghost parts = split(raw@, ',');
    let mut k: usize = 0;
    while k < items.len()
        invariant
            k <= items@.len(),
            char_rows(items@) == parts,
            parts == split(raw@, ','),
            want@ == lower_all(media@),
            forall|j: int|
                0 <= j < k ==> !same_ignoring_case(media_of(#[trigger] parts[j]), media@),
        decreases items@.len() - k,
    {
        assert(char_rows(items@)[k as int] == items@[k as int]@);
        let pieces = split_chars(items[k].as_slice(), ';');
        assert(char_rows(pieces@)[0] == pieces@[0]@);
        let found = lower_chars(trim_chars(pieces[0].as_slice()));
        if same_chars(found.as_slice(), want.as_slice()) {
            assert(same_ignoring_case(media_of(parts[k as int]), media@));
            return true;
        }
        k += 1;
    }
    assert(parts.len() == items@.len());
    false
}

/// Whether one of the fields called `name`, up to case, lists `media`.
pub open spec fn header_has_media(
    headers: Seq<Header>,
    name: Seq<char>,
    media: Seq<char>,
) -> bool {
    exists|i: int|
        0 <= i < headers.len() && same_ignoring_case(
            (#[trigger] headers[i]).name@,
            name,
        ) && headers[i].text is Some && lists_media(headers[i].text->0@, media)
}

/// Whether one of the fields called `name`, up to case, lists `media`.
pub fn header_contains_media(headers: &[Header], name: &str, media: &str) -> (res: bool)
    ensures
        res == header_has_media(headers@, name@, media@),
{
    let mut i: usize = 0;
    while i < headers.len()
        invariant
            i <= headers@.len(),
            forall|k: int|
                0 <= k < i ==> !(same_ignoring_case((#[trigger] headers@[k]).name@, name@)
                    && headers@[k].text is Some && lists_media(headers@[k].text->0@, media@)),
        decreases headers@.len() - i,
    {
        if same_text_ignoring_case(headers[i].name.as_str(), name) {
            if let Some(text) = &headers[i].text {
                if list_has_media(text.as_str(), media) {
                    return true;
                }
            }
        }
        i += 1;
    }
    false
}

/// The position of the first field called `name`, up to case, at or after `i`, or the
/// length.
pub open spec fn header_slot(headers: Seq<Header>, name: Seq<char>, i: int) -> int
    decreases headers.len() - i,
{
    if i >= headers.len() {
        headers.len() as int
    } else if same_ignoring_case(headers[i].name@, name) {
        i
    } else {
        header_slot(headers, name, i + 1)
    }
}

/// The text of the first field called `name`, up to case, where it has one.
pub open spec fn header_value(headers: Seq<Header>, name: Seq<char>) -> Option<Seq<char>> {
    let i = header_slot(headers, name, 0);
    if i < headers.len() && headers[i].text is Some {
        Some(headers[i].text->0@)
    } else {
        None
    }
}

/// The first field called `name`, up to case.
pub open spec fn first_header(headers: Seq<Header>, name: Seq<char>) -> Option<Header> {
    let i = header_slot(headers, name, 0);
    if i < headers.len() {
        Some(headers[i])
    } else {
        None
    }
}

/// Whether a field is called `name`, up to case.
pub open spec fn has_header(headers: Seq<Header>, name: Seq<char>) -> bool {
    header_slot(headers, name, 0) < headers.len()
}

/// The position of the first field called `name`, up to case, or the length.
pub fn header_position(headers: &[Header], name: &str) -> (i: usize)
    ensures
        i == header_slot(headers@, name@, 0),
        i <= headers@.len(),
{
    let mut i: usize = 0;
    while i < headers.len()
        invariant
            i <= headers@.len(),
            header_slot(headers@, name@, 0) == header_slot(headers@, name@, i as int),
        decreases headers@.len() - i,
    {
        if same_text_ignoring_case(headers[i].name.as_str(), name) {
            return i;
        }
        i += 1;
    }
    i
}

/// The first field called `name`, up to case.
pub fn header_named<'a>(headers: &'a [Header], name: &str) -> (h: Option<&'a Header>)
    ensures
        match h {
            Some(x) => first_header(headers@, name@) == Some(*x),
            None => first_header(headers@, name@) is None,
        },
{
    let i: usize = header_position(headers, name);
    if i < headers.len() {
        Some(&headers[i])
    } else {
        None
    }
}

/// The text of the first field called `name`, up to case.
pub fn header_text<'a>(headers: &'a [Header], name: &str) -> (text: Option<&'a String>)
    ensures
        match text {
            Some(t) => header_value(headers@, name@) == Some(t@),
            None => header_value(headers@, name@) is None,
        },
{
    let i: usize = header_position(headers, name);
    if i < headers.len() {
        match &headers[i].text {
            Some(t) => Some(t),
            None => None,
        }
    } else {
        None
    }
}

} // verus!
