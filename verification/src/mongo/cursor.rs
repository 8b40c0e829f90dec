//! Document identifiers as text, for checkpoints.

use vstd::prelude::*;

use crate::ids::{format_id, hex_char, hex_digits, hex_tail, parse_uuid, parsed_uuid, uuid_text};
use crate::mongo::bson::{
    field, law_fields_give_back_values, with_field, BsonValue, BsonView, Document, Fields,
};
use crate::mongo::document::{uuid_bson, uuid_value, UUID_SUBTYPE};
use crate::mongo::json::{option_fields, option_view};
use crate::numbers::{
    digit, digits_value, is_digits, lemma_signed_decimal_reads_back, parse_i64, parse_unsigned,
    signed_decimal, signed_decimal_text, signed_value,
};
use crate::text::{
    chars_of, find_from, join2, lemma_find_from, opt, same_chars, split_once, split_once_chars,
    string_of,
};
use crate::wire::{be_bytes, be_value, byte_power, lemma_be_value_bound, low_bytes, read_be};

verus! {

/// Whether a value is a UUID.
pub open spec fn is_uuid(v: BsonView) -> bool {
    v matches BsonView::Binary(subtype, bytes) && subtype == UUID_SUBTYPE && bytes.len() == 16
}

/// The text of a document identifier, behind a tag for its kind. Identifiers of
/// other kinds have none.
pub open spec fn encoded_id(v: BsonView) -> Option<Seq<char>> {
    match v {
        BsonView::ObjectId(bytes) => Some("oid:"@ + hex_digits(be_value(bytes), 24)),
        BsonView::Binary(subtype, bytes) => if is_uuid(v) {
            Some("uuid:"@ + uuid_text(be_value(bytes) as u128))
        } else {
            None
        },
        BsonView::Int64(n) => Some("int:"@ + signed_decimal(n as int)),
        BsonView::Int32(n) => Some("int:"@ + signed_decimal(n as int)),
        BsonView::Text(s) => Some("str:"@ + s),
        _ => None,
    }
}

/// The twelve bytes of an object identifier that twenty-four hexadecimal digits denote.
pub open spec fn object_id(text: Seq<char>) -> Option<BsonView> {
    if text.len() == 24 && is_digits(text, 16) {
        Some(BsonView::ObjectId(be_bytes(digits_value(text, 16) as nat, 12)))
    } else {
        None
    }
}

/// The document identifier that a tagged text denotes, given what it reads as in the
/// usual forms of a UUID.
pub open spec fn tagged_id(tag: Seq<char>, rest: Seq<char>, uuid: Option<u128>) -> Option<BsonView> {
    if tag == "oid"@ {
        object_id(rest)
    } else if tag == "uuid"@ {
        match uuid {
            Some(id) => Some(uuid_value(id)),
            None => None,
        }
    } else if tag == "int"@ {
        match signed_value(rest) {
            Some(n) => Some(BsonView::Int64(n as i64)),
            None => None,
        }
    } else if tag == "str"@ {
        Some(BsonView::Text(rest))
    } else {
        None
    }
}

/// The document identifier that a text denotes.
pub open spec fn decoded_id(text: Seq<char>) -> Option<BsonView> {
    match split_once(text, ':') {
        Some((tag, rest)) => tagged_id(tag, rest, parsed_uuid(rest)),
        None => None,
    }
}

/// What reading back the text of an identifier gives: integers come back wide.
pub open spec fn widened(v: BsonView) -> BsonView {
    match v {
        BsonView::Int32(n) => BsonView::Int64(n as i64),
        _ => v,
    }
}

/// Sixteen to a power.
pub open spec fn hex_power(width: nat) -> nat
    decreases width,
{
    if width == 0 {
        1
    } else {
        16 * hex_power((width - 1) as nat)
    }
}

proof fn lemma_hex_reads_back(n: nat, width: nat)
    requires
        n < hex_power(width),
    ensures
        hex_digits(n, width).len() == width,
        forall|i: int|
            0 <= i < width ==> 0 <= #[trigger] digit(hex_digits(n, width)[i]) < 16,
        digits_value(hex_digits(n, width), 16) == n,
    decreases width,
{
    if width > 0 {
        let w = (width - 1) as nat;
        assert(n / 16 < hex_power(w));
        lemma_hex_reads_back(n / 16, w);
        let front = hex_digits(n / 16, w);
        let out = hex_digits(n, width);
        assert(out.drop_last() =~= front);
        let d = (n % 16) as int;
        assert(digit(hex_char(d)) == d);
        assert forall|i: int| 0 <= i < width implies 0 <= #[trigger] digit(out[i]) < 16 by {
            if i < w {
                assert(out[i] == front[i]);
            }
        }
    }
}

proof fn lemma_digits_bound(s: Seq<char>)
    requires
        forall|i: int| 0 <= i < s.len() ==> 0 <= #[trigger] digit(s[i]) < 16,
    ensures
        0 <= digits_value(s, 16) < hex_power(s.len()),
    decreases s.len(),
{
    if s.len() > 0 {
        let front = s.drop_last();
        assert(forall|i: int| 0 <= i < front.len() ==> #[trigger] front[i] == s[i]);
        assert forall|i: int| 0 <= i < front.len() implies 0 <= #[trigger] digit(front[i]) < 16 by {
            assert(front[i] == s[i]);
        }
        lemma_digits_bound(front);
        assert(0 <= digit(s[s.len() - 1]) < 16);
    }
}

proof fn lemma_power_24()
    ensures
        hex_power(24) == 0x1_0000_0000_0000_0000_0000_0000,
        byte_power(12) == 0x1_0000_0000_0000_0000_0000_0000,
{
    reveal_with_fuel(hex_power, 25);
    reveal_with_fuel(byte_power, 13);
}

proof fn lemma_tag(tag: Seq<char>, rest: Seq<char>)
    requires
        !tag.contains(':'),
    ensures
        split_once(tag + seq![':'] + rest, ':') == Some((tag, rest)),
{
    let s = tag + seq![':'] + rest;
    lemma_find_from(s, ':', 0);
    let j = find_from(s, ':', 0);
    assert(s[tag.len() as int] == ':');
    if j < tag.len() {
        assert(s[j] == tag[j]);
        assert(tag.contains(tag[j]));
    }
    assert(j == tag.len());
    assert(s.subrange(0, j) =~= tag);
    assert(s.subrange(j + 1, s.len() as int) =~= rest);
}

proof fn lemma_bytes_of_value(bytes: Seq<u8>)
    ensures
        be_bytes(be_value(bytes), bytes.len()) == bytes,
    decreases bytes.len(),
{
    if bytes.len() == 0 {
        assert(be_bytes(be_value(bytes), 0) =~= bytes);
    } else {
        let front = bytes.drop_last();
        lemma_bytes_of_value(front);
        let n = be_value(bytes);
        assert(n / 256 == be_value(front));
        assert(n % 256 == bytes.last() as nat);
        assert(be_bytes(n, bytes.len()) =~= bytes);
    }
}

proof fn lemma_reads_back(v: BsonView, text: Seq<char>)
    requires
        encoded_id(v) == Some(text),
        v matches BsonView::ObjectId(bytes) ==> bytes.len() == 12,
        is_uuid(v) ==> (v matches BsonView::Binary(s, bytes) && be_value(bytes) <= u128::MAX
            && parsed_uuid(uuid_text(be_value(bytes) as u128)) == Some(be_value(bytes) as u128)),
    ensures
        decoded_id(text) == Some(widened(v)),
{
    reveal_strlit("oid:");
    reveal_strlit("oid");
    reveal_strlit("uuid:");
    reveal_strlit("uuid");
    reveal_strlit("int:");
    reveal_strlit("int");
    reveal_strlit("str:");
    reveal_strlit("str");
    assert("oid:"@ =~= "oid"@ + seq![':']);
    assert("uuid:"@ =~= "uuid"@ + seq![':']);
    assert("int:"@ =~= "int"@ + seq![':']);
    assert("str:"@ =~= "str"@ + seq![':']);
    assert("oid"@[0] != "int"@[0] && "oid"@[0] != "str"@[0] && "int"@[0] != "str"@[0]);
    assert("uuid"@.len() == 4 && "oid"@.len() == 3 && "int"@.len() == 3 && "str"@.len() == 3);
    match v {
        BsonView::ObjectId(bytes) => {
            lemma_power_24();
            lemma_be_value_bound(bytes);
            lemma_hex_reads_back(be_value(bytes), 24);
            lemma_tag("oid"@, hex_digits(be_value(bytes), 24));
            lemma_bytes_of_value(bytes);
        },
        BsonView::Binary(_, bytes) => {
            lemma_tag("uuid"@, uuid_text(be_value(bytes) as u128));
            lemma_bytes_of_value(bytes);
        },
        BsonView::Int64(n) => {
            lemma_tag("int"@, signed_decimal(n as int));
            lemma_signed_decimal_reads_back(n);
        },
        BsonView::Int32(n) => {
            lemma_tag("int"@, signed_decimal(n as int));
            lemma_signed_decimal_reads_back(n as i64);
        },
        BsonView::Text(s) => {
            lemma_tag("str"@, s);
        },
        _ => {},
    }
}

/// Writes a document identifier as a tagged text, from which it reads back.
pub fn encode_id(id: &BsonValue) -> (text: Option<String>)
    ensures
        match text {
            Some(t) => {
                &&& encoded_id(id@) == Some(t@)
                &&& decoded_id(t@) == Some(widened(id@))
            },
            None => encoded_id(id@) is None,
        },
{
    match id {
        BsonValue::ObjectId(bytes) => {
            let n: u128 = read_be(bytes.as_slice());
            let digits = hex_tail(n, 24);
            let t = join2("oid:", digits.as_str());
            proof {
                lemma_reads_back(id@, t@);
            }
            Some(t)
        },
        BsonValue::Binary { subtype, bytes } => {
            if *subtype == UUID_SUBTYPE && bytes.len() == 16 {
                let n: u128 = read_be(bytes.as_slice());
                let digits = format_id(n);
                let t = join2("uuid:", digits.as_str());
                proof {
                    lemma_reads_back(id@, t@);
                }
                Some(t)
            } else {
                None
            }
        },
        BsonValue::Int64(n) => {
            let digits = signed_decimal_text(*n);
            let t = join2("int:", digits.as_str());
            proof {
                lemma_reads_back(id@, t@);
            }
            Some(t)
        },
        BsonValue::Int32(n) => {
            let digits = signed_decimal_text(*n as i64);
            let t = join2("int:", digits.as_str());
            proof {
                lemma_reads_back(id@, t@);
            }
            Some(t)
        },
        BsonValue::Text(s) => {
            let t = join2("str:", s.as_str());
            proof {
                lemma_reads_back(id@, t@);
            }
            Some(t)
        },
        _ => None,
    }
}

fn parse_object_id(text: &[char]) -> (id: Option<BsonValue>)
    ensures
        option_view(id) == object_id(text@),
{
    if text.len() != 24 || text[0] == '+' {
        assert(text@.len() == 24 ==> digit(text@[0]) < 0);
        return None;
    }
    let s = string_of(text);
    proof {
        lemma_power_24();
        if is_digits(text@, 16) {
            lemma_digits_bound(text@);
        }
    }
    match parse_unsigned(s.as_str(), 16, u128::MAX) {
        Some(n) => Some(BsonValue::ObjectId(low_bytes(n))),
        None => None,
    }
}

/// Reads a document identifier from its tag and the text behind it, given what the
/// text reads as in the usual forms of a UUID.
pub fn id_from_tag(tag: &[char], rest: &[char], uuid: Option<u128>) -> (id: Option<BsonValue>)
    ensures
        option_view(id) == tagged_id(tag@, rest@, uuid),
{
    let oid = chars_of("oid");
    let uuid_tag = chars_of("uuid");
    let int_tag = chars_of("int");
    let str_tag = chars_of("str");
    if same_chars(tag, oid.as_slice()) {
        return parse_object_id(rest);
    }
    if same_chars(tag, uuid_tag.as_slice()) {
        return match uuid {
            Some(n) => Some(uuid_bson(n)),
            None => None,
        };
    }
    if same_chars(tag, int_tag.as_slice()) {
        let s = string_of(rest);
        return match parse_i64(s.as_str()) {
            Some(n) => Some(BsonValue::Int64(n)),
            None => None,
        };
    }
    if same_chars(tag, str_tag.as_slice()) {
        return Some(BsonValue::Text(string_of(rest)));
    }
    None
}

/// Reads a document identifier from its tagged text. What is malformed reads as
/// none.
pub fn decode_id(text: &str) -> (id: Option<BsonValue>)
    ensures
        option_view(id) == decoded_id(text@),
{
    let all = chars_of(text);
    match split_once_chars(all.as_slice(), ':') {
        None => None,
        Some((tag, rest)) => {
            let s = string_of(rest);
            id_from_tag(tag, rest, parse_uuid(s.as_str()))
        },
    }
}

/// The query for the checkpoint with a key.
pub open spec fn checkpoint_query(key: Seq<char>) -> Fields {
    seq![("_id"@, BsonView::Text(key))]
}

/// The update that keeps a text in a checkpoint.
pub open spec fn checkpoint_change(value: Seq<char>) -> Fields {
    seq![("$set"@, BsonView::Document(seq![("last_value"@, BsonView::Text(value))]))]
}

/// The query for the checkpoint with this key, and the update that keeps a text in it.
pub fn checkpoint_update(key: &str, value: &str) -> (res: (Document, Document))
    ensures
        res.0@ == seq![("_id"@, BsonView::Text(key@))],
        res.1@ == seq![
            ("$set"@, BsonView::Document(seq![("last_value"@, BsonView::Text(value@))])),
        ],
        res.0@ == checkpoint_query(key@),
        res.1@ == checkpoint_change(value@),
{
    let filter = checkpoint_filter(key);
    let inner = Document::new().then_field("last_value", BsonValue::Text(value.to_owned()));
    assert(inner@ =~= seq![("last_value"@, BsonView::Text(value@))]);
    let update = Document::new().then_field("$set", BsonValue::Document(inner));
    assert(update@ =~= seq![
        ("$set"@, BsonView::Document(seq![("last_value"@, BsonView::Text(value@))])),
    ]);
    (filter, update)
}

/// The query for the checkpoint with this key.
pub fn checkpoint_filter(key: &str) -> (d: Document)
    ensures
        d@ == seq![("_id"@, BsonView::Text(key@))],
        d@ == checkpoint_query(key@),
{
    let d = Document::new().then_field("_id", BsonValue::Text(key.to_owned()));
    assert(d@ =~= seq![("_id"@, BsonView::Text(key@))]);
    d
}

/// The text that a checkpoint holds.
pub open spec fn checkpoint_value(d: Option<Fields>) -> Option<Seq<char>> {
    match d {
        Some(fields) => match field(fields, "last_value"@) {
            Some(BsonView::Text(t)) => Some(t),
            _ => None,
        },
        None => None,
    }
}

/// The text that a checkpoint holds, where there is one.
pub fn read_checkpoint(found: &Option<Document>) -> (value: Option<String>)
    ensures
        opt(value) == checkpoint_value(option_fields(*found)),
{
    match found {
        Some(d) => match d.get("last_value") {
            Some(BsonValue::Text(t)) => Some(t.clone()),
            _ => None,
        },
        None => None,
    }
}

/// A checkpoint holds the text that was kept in it last, whatever else its document
/// holds.
pub proof fn law_checkpoint_reads_back(before: Fields, value: Seq<char>)
    ensures
        checkpoint_value(Some(with_field(before, "last_value"@, BsonView::Text(value)))) == Some(
            value,
        ),
{
    law_fields_give_back_values(before, "last_value"@, BsonView::Text(value), "_id"@);
}

} // verus!
