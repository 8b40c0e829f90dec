//! Messages as MongoDB documents, and documents as messages.

use vstd::prelude::*;
use vstd::utf8::{decode_utf8, encode_utf8, valid_utf8};

use crate::bytes::text_of;
use crate::ids::is_v7;
use crate::message::{
    copy_bytes, drop_prefixed, law_drop_prefixed, law_reads_give_back_writes, lemma_slot_is, lookup,
    unique, with, CanonicalMessage, MessageView, Metadata, Pairs, SOURCE_PREFIX,
};
use crate::models::MongoDbFormat;
use crate::mongo::bson::{
    field, lemma_field_at_is, with_field, BsonValue, BsonView, Document, Fields,
};
use crate::mongo::json::{
    document_in_json, field_in_json, json_document, json_field, json_of_value, json_value,
    option_fields, option_view, plain_json, plain_json_of_value, value_in_json, value_json,
    JsonField, JsonFieldView,
};
use crate::text::{join3, starts_with, text_of_option};
use crate::wire::{be_bytes, be_value, byte_power, law_be_bytes_read_back, push_be, read_be};

verus! {

/// The binary subtype of a UUID.
pub const UUID_SUBTYPE: u8 = 4;

/// The identifier that a field of a payload makes, or why it makes none. An
/// identifier is neither null nor an array.
pub open spec fn id_result(found: JsonFieldView, id_field: Seq<char>) -> Result<
    BsonView,
    Seq<char>,
> {
    match found {
        JsonFieldView::NotJson => Err(
            "id_field '"@ + id_field + "' requires a JSON payload"@,
        ),
        JsonFieldView::Missing => Err("id_field '"@ + id_field + "' not found in payload"@),
        JsonFieldView::NotBson => Err("id_field '"@ + id_field + "' value is not valid BSON"@),
        JsonFieldView::Found(v) => match v {
            BsonView::Null => Err("id_field '"@ + id_field + "' resolved to null"@),
            BsonView::Array(_) => Err(
                "id_field '"@ + id_field + "' resolved to an array, which is not a valid _id"@,
            ),
            _ => Ok(v),
        },
    }
}

/// A result over mathematical values.
pub open spec fn result_view(r: Result<BsonValue, String>) -> Result<BsonView, Seq<char>> {
    match r {
        Ok(v) => Ok(v@),
        Err(e) => Err(e@),
    }
}

/// The identifier that a field of a payload makes, given what the field holds.
pub fn id_from_field(found: JsonField, id_field: &str) -> (res: Result<BsonValue, String>)
    ensures
        result_view(res) == id_result(found@, id_field@),
{
    match found {
        JsonField::NotJson => Err(join3("id_field '", id_field, "' requires a JSON payload")),
        JsonField::Missing => Err(join3("id_field '", id_field, "' not found in payload")),
        JsonField::NotBson => Err(join3("id_field '", id_field, "' value is not valid BSON")),
        JsonField::Found(v) => match v {
            BsonValue::Null => Err(join3("id_field '", id_field, "' resolved to null")),
            BsonValue::Array(_) => Err(
                join3(
                    "id_field '",
                    id_field,
                    "' resolved to an array, which is not a valid _id",
                ),
            ),
            _ => Ok(v),
        },
    }
}

/// The identifier that a field of a payload makes.
pub fn extract_id_bson(payload: &[u8], id_field: &str) -> (res: Result<BsonValue, String>)
    ensures
        result_view(res) == id_result(field_in_json(payload@, id_field@), id_field@),
{
    id_from_field(json_field(payload, id_field), id_field)
}

/// The identifier of a message as a UUID value.
pub open spec fn uuid_value(id: u128) -> BsonView {
    BsonView::Binary(UUID_SUBTYPE, be_bytes(id as nat, 16))
}

/// The identifier of a message as a UUID value.
pub fn uuid_bson(id: u128) -> (v: BsonValue)
    ensures
        v@ == uuid_value(id),
{
    let mut bytes: Vec<u8> = Vec::new();
    push_be(&mut bytes, id, 16);
    assert(bytes@ =~= be_bytes(id as nat, 16));
    BsonValue::Binary { subtype: UUID_SUBTYPE, bytes }
}

/// Whether a message has to keep its metadata, because it is a request or a reply.
pub open spec fn must_wrap(m: MessageView) -> bool {
    lookup(m.metadata, "correlation_id"@) is Some || lookup(m.metadata, "reply_to"@) is Some
}

/// The payload of a wrapped message as a value.
pub open spec fn stored_payload(
    payload: Seq<u8>,
    format: MongoDbFormat,
    json: Option<BsonView>,
) -> BsonView {
    if format is Json && json is Some {
        json->0
    } else if format is Text && valid_utf8(payload) {
        BsonView::Text(decode_utf8(payload))
    } else {
        BsonView::Binary(0, payload)
    }
}

/// The metadata of a wrapped message: what says where it was read from is left out,
/// and the kind of a payload that is not stored as bytes is noted.
pub open spec fn stored_metadata(
    m: MessageView,
    format: MongoDbFormat,
    json: Option<BsonView>,
) -> Pairs {
    let kept = drop_prefixed(m.metadata, SOURCE_PREFIX@);
    if format is Json && json is Some {
        with(kept, "type"@, "json"@)
    } else if format is Text && valid_utf8(m.payload) {
        with(kept, "type"@, "text"@)
    } else {
        kept
    }
}

/// Metadata as fields of texts.
pub open spec fn text_fields(pairs: Pairs) -> Fields {
    pairs.map_values(|p: (Seq<char>, Seq<char>)| (p.0, BsonView::Text(p.1)))
}

/// A wrapped message as a document.
pub open spec fn wrapped_document(
    m: MessageView,
    format: MongoDbFormat,
    id: Option<BsonView>,
    json: Option<BsonView>,
    now: i64,
) -> Fields {
    seq![
        (
            "_id"@,
            match id {
                Some(v) => v,
                None => uuid_value(m.message_id),
            },
        ),
        ("payload"@, stored_payload(m.payload, format, json)),
        ("metadata"@, BsonView::Document(text_fields(stored_metadata(m, format, json)))),
        ("locked_until"@, BsonView::Null),
        ("created_at"@, BsonView::DateTime(now)),
    ]
}

/// A message as a document, given what its payload reads as: the payload itself in
/// the raw format where it is a document, else wrapped. A configured identifier
/// replaces the message's own.
pub open spec fn stored_document(
    m: MessageView,
    format: MongoDbFormat,
    id: Option<BsonView>,
    raw: Option<Fields>,
    json: Option<BsonView>,
    now: i64,
) -> Fields {
    if !must_wrap(m) && format is Raw && raw is Some {
        match id {
            Some(v) => with_field(raw->0, "_id"@, v),
            None => raw->0,
        }
    } else {
        wrapped_document(m, format, id, json, now)
    }
}

fn metadata_fields(metadata: &Metadata) -> (d: Document)
    ensures
        d@ == text_fields(metadata@),
{
    let mut d = Document::new();
    let mut i: usize = 0;
    assert(d@ =~= text_fields(metadata@.take(0)));
    while i < metadata.entries.len()
        invariant
            i <= metadata.entries@.len(),
            d@ == text_fields(metadata@.take(i as int)),
        decreases metadata.entries@.len() - i,
    {
        let name = metadata.entries[i].0.as_str();
        let value = BsonValue::Text(metadata.entries[i].1.clone());
        d = d.then_field(name, value);
        assert(metadata@[i as int] == (
            metadata.entries@[i as int].0@,
            metadata.entries@[i as int].1@,
        ));
        assert(text_fields(metadata@.take(i + 1)) =~= text_fields(metadata@.take(i as int)).push(
            (metadata@[i as int].0, BsonView::Text(metadata@[i as int].1)),
        ));
        i += 1;
    }
    assert(metadata@.take(metadata@.len() as int) =~= metadata@);
    d
}

/// Makes the document for a message, given what its payload reads as.
pub fn build_document(
    message: &CanonicalMessage,
    format: &MongoDbFormat,
    id: Option<BsonValue>,
    raw: Option<Document>,
    json: Option<BsonValue>,
    now: i64,
) -> (d: Document)
    ensures
        d@ == stored_document(
            message@,
            *format,
            option_view(id),
            option_fields(raw),
            option_view(json),
            now,
        ),
{
    let force_wrapped = message.metadata.contains_key("correlation_id")
        || message.metadata.contains_key("reply_to");
    let is_raw = match format {
        MongoDbFormat::Raw => true,
        _ => false,
    };
    if !force_wrapped && is_raw {
        if let Some(found) = raw {
            return match id {
                Some(v) => found.with("_id", v),
                None => found,
            };
        }
    }
    let mut metadata = message.metadata.without_prefix(SOURCE_PREFIX);
    let payload = match format {
        MongoDbFormat::Json => match json {
            Some(v) => {
                metadata.put("type", "json");
                v
            },
            None => BsonValue::Binary {
                subtype: 0,
                bytes: copy_bytes(message.payload.as_slice()),
            },
        },
        MongoDbFormat::Text => match text_of(message.payload.as_slice()) {
            Some(t) => {
                metadata.put("type", "text");
                BsonValue::Text(t)
            },
            None => BsonValue::Binary {
                subtype: 0,
                bytes: copy_bytes(message.payload.as_slice()),
            },
        },
        _ => BsonValue::Binary { subtype: 0, bytes: copy_bytes(message.payload.as_slice()) },
    };
    let id_value = match id {
        Some(v) => v,
        None => uuid_bson(message.message_id),
    };
    let fields = metadata_fields(&metadata);
    let d = Document::new().then_field("_id", id_value).then_field("payload", payload).then_field(
        "metadata",
        BsonValue::Document(fields),
    ).then_field("locked_until", BsonValue::Null).then_field(
        "created_at",
        BsonValue::DateTime(now),
    );
    assert(d@ =~= stored_document(
        message@,
        *format,
        option_view(id),
        option_fields(raw),
        option_view(json),
        now,
    ));
    d
}

/// The configured identifier of a message, where there is one.
pub open spec fn explicit_id(payload: Seq<u8>, id_field: Option<Seq<char>>) -> Result<
    Option<BsonView>,
    Seq<char>,
> {
    match id_field {
        None => Ok(None),
        Some(f) => match id_result(field_in_json(payload, f), f) {
            Ok(v) => Ok(Some(v)),
            Err(e) => Err(e),
        },
    }
}

/// The document for a message, or why there is none.
pub open spec fn document_for(
    m: MessageView,
    format: MongoDbFormat,
    id_field: Option<Seq<char>>,
    now: i64,
) -> Result<Fields, Seq<char>> {
    match explicit_id(m.payload, id_field) {
        Ok(id) => Ok(
            stored_document(
                m,
                format,
                id,
                document_in_json(m.payload),
                value_in_json(m.payload),
                now,
            ),
        ),
        Err(e) => Err(e),
    }
}

/// A document result over mathematical values.
pub open spec fn document_result(r: Result<Document, String>) -> Result<Fields, Seq<char>> {
    match r {
        Ok(d) => Ok(d@),
        Err(e) => Err(e@),
    }
}

/// Makes the document for a message.
pub fn message_to_document(
    message: &CanonicalMessage,
    format: &MongoDbFormat,
    id_field: Option<&str>,
    now: i64,
) -> (res: Result<Document, String>)
    ensures
        document_result(res) == document_for(
            message@,
            *format,
            text_of_option(id_field),
            now,
        ),
{
    let id = match id_field {
        Some(f) => match extract_id_bson(message.payload.as_slice(), f) {
            Ok(v) => Some(v),
            Err(e) => {
                return Err(e);
            },
        },
        None => None,
    };
    let raw = json_document(message.payload.as_slice());
    let json = json_value(message.payload.as_slice());
    Ok(build_document(message, format, id, raw, json, now))
}

/// Whether every field holds a text.
pub open spec fn all_texts(d: Fields) -> bool {
    forall|i: int| 0 <= i < d.len() ==> (#[trigger] d[i]).1 is Text
}

/// Whether a document is a wrapped message.
pub open spec fn is_wrapped(d: Fields) -> bool {
    &&& field(d, "payload"@) is Some
    &&& field(d, "_id"@) matches Some(BsonView::Binary(subtype, bytes)) && subtype
        == UUID_SUBTYPE && bytes.len() == 16
    &&& match field(d, "metadata"@) {
        None => true,
        Some(BsonView::Null) => true,
        Some(BsonView::Document(m)) => all_texts(m),
        Some(_) => false,
    }
}

fn holds_only_texts(d: &Document) -> (res: bool)
    ensures
        res == all_texts(d@),
{
    let mut i: usize = 0;
    while i < d.fields.len()
        invariant
            i <= d.fields@.len(),
            forall|k: int| 0 <= k < i ==> (#[trigger] d@[k]).1 is Text,
        decreases d.fields@.len() - i,
    {
        assert(d@[i as int].1 == d.fields@[i as int].1@);
        match &d.fields[i].1 {
            BsonValue::Text(_) => {},
            _ => {
                return false;
            },
        }
        i += 1;
    }
    true
}

/// Whether a document is a wrapped message.
pub fn is_wrapped_message(doc: &Document) -> (res: bool)
    ensures
        res == is_wrapped(doc@),
{
    if !doc.contains_key("payload") {
        return false;
    }
    let has_id = match doc.get("_id") {
        Some(BsonValue::Binary { subtype, bytes }) => *subtype == UUID_SUBTYPE && bytes.len()
            == 16,
        _ => false,
    };
    if !has_id {
        return false;
    }
    match doc.get("metadata") {
        None => true,
        Some(BsonValue::Null) => true,
        Some(BsonValue::Document(m)) => holds_only_texts(m),
        Some(_) => false,
    }
}

/// The payload that a stored value reads as, or why it reads as none. Bytes and texts
/// are taken as they are, everything else as JSON.
pub open spec fn read_payload(v: BsonView) -> Result<Seq<u8>, Seq<char>> {
    match v {
        BsonView::Binary(_, bytes) => Ok(bytes),
        BsonView::Text(t) => Ok(encode_utf8(t)),
        BsonView::Document(_) => json_of_value(v),
        BsonView::Array(_) => json_of_value(v),
        _ => plain_json_of_value(v),
    }
}

/// The payload that a stored value reads as.
pub fn payload_of(value: &BsonValue) -> (res: Result<Vec<u8>, String>)
    ensures
        match res {
            Ok(b) => Ok::<Seq<u8>, Seq<char>>(b@),
            Err(e) => Err::<Seq<u8>, Seq<char>>(e@),
        } == read_payload(value@),
{
    match value {
        BsonValue::Binary { subtype, bytes } => Ok(copy_bytes(bytes.as_slice())),
        BsonValue::Text(t) => Ok(copy_bytes(t.as_str().as_bytes())),
        BsonValue::Document(_) => value_json(value),
        BsonValue::Array(_) => value_json(value),
        _ => plain_json(value),
    }
}

/// The text of a field value.
pub open spec fn text_in(v: BsonView) -> Seq<char> {
    match v {
        BsonView::Text(t) => t,
        _ => seq![],
    }
}

/// The metadata that fields of texts make.
pub open spec fn read_metadata(d: Fields) -> Pairs
    decreases d.len(),
{
    if d.len() == 0 {
        Pairs::empty()
    } else {
        with(read_metadata(d.drop_last()), d.last().0, text_in(d.last().1))
    }
}

fn metadata_of(d: &Document) -> (m: Metadata)
    requires
        all_texts(d@),
    ensures
        m@ == read_metadata(d@),
{
    let mut m = Metadata::new();
    let mut i: usize = 0;
    assert(d@.take(0) =~= Fields::empty());
    while i < d.fields.len()
        invariant
            i <= d.fields@.len(),
            all_texts(d@),
            m@ == read_metadata(d@.take(i as int)),
        decreases d.fields@.len() - i,
    {
        assert(d@.take(i + 1).drop_last() =~= d@.take(i as int));
        assert(d@[i as int] == (d.fields@[i as int].0@, d.fields@[i as int].1@));
        assert(d@[i as int].1 is Text);
        match &d.fields[i].1 {
            BsonValue::Text(t) => {
                m.put(d.fields[i].0.as_str(), t.as_str());
            },
            _ => {},
        }
        i += 1;
    }
    assert(d@.take(d@.len() as int) =~= d@);
    m
}

/// The metadata of a wrapped message.
pub open spec fn wrapped_metadata(d: Fields) -> Pairs {
    match field(d, "metadata"@) {
        Some(BsonView::Document(m)) => read_metadata(m),
        _ => Pairs::empty(),
    }
}

/// The identifier of a wrapped message.
pub open spec fn wrapped_id(d: Fields) -> int {
    match field(d, "_id"@) {
        Some(BsonView::Binary(_, bytes)) => be_value(bytes) as int,
        _ => 0,
    }
}

/// The metadata of a document that is no wrapped message.
pub open spec fn raw_metadata() -> Pairs {
    seq![("mq_bridge.original_format"@, "raw"@)]
}

/// Whether `res` is what a document reads as. A wrapped message is unwrapped; any
/// other document is taken whole, as JSON, under a fresh identifier.
pub open spec fn reads_document(d: Fields, res: Result<CanonicalMessage, String>) -> bool {
    if is_wrapped(d) {
        match read_payload(field(d, "payload"@)->0) {
            Ok(payload) => (res matches Ok(m) && m.message_id as int == wrapped_id(d)
                && m.payload@ == payload && m.metadata@ == wrapped_metadata(d)),
            Err(why) => (res matches Err(e) && e@ == why),
        }
    } else {
        match json_of_value(BsonView::Document(d)) {
            Ok(payload) => (res matches Ok(m) && is_v7(m.message_id) && m.payload@ == payload
                && m.metadata@ == raw_metadata()),
            Err(why) => (res matches Err(e) && e@ == why),
        }
    }
}

/// The metadata of the message that a document reads as, or why it is none.
pub open spec fn document_metadata(d: Fields) -> Result<Pairs, Seq<char>> {
    if is_wrapped(d) {
        match read_payload(field(d, "payload"@)->0) {
            Ok(_) => Ok(wrapped_metadata(d)),
            Err(why) => Err(why),
        }
    } else {
        match json_of_value(BsonView::Document(d)) {
            Ok(_) => Ok(raw_metadata()),
            Err(why) => Err(why),
        }
    }
}

/// Takes a document whole, given its JSON.
pub fn document_to_canonical(payload: Vec<u8>) -> (m: CanonicalMessage)
    ensures
        is_v7(m.message_id),
        m.payload@ == payload@,
        m.metadata@ == raw_metadata(),
{
    let m = CanonicalMessage::new(payload, None).with_metadata_kv(
        "mq_bridge.original_format",
        "raw",
    );
    assert(m.metadata@ =~= raw_metadata());
    m
}

/// Reads a document as a message.
pub fn parse_mongodb_document(doc: Document) -> (res: Result<CanonicalMessage, String>)
    ensures
        reads_document(doc@, res),
{
    if is_wrapped_message(&doc) {
        if let Some(BsonValue::Binary { subtype, bytes }) = doc.get("_id") {
            if let Some(value) = doc.get("payload") {
                let id: u128 = read_be(bytes.as_slice());
                let payload = match payload_of(value) {
                    Ok(p) => p,
                    Err(e) => {
                        return Err(e);
                    },
                };
                let metadata = match doc.get("metadata") {
                    Some(BsonValue::Document(m)) => metadata_of(m),
                    _ => Metadata::new(),
                };
                return Ok(CanonicalMessage { message_id: id, payload, metadata });
            }
        }
    }
    let whole = BsonValue::Document(doc);
    assert(whole@ == BsonView::Document(doc@));
    match value_json(&whole) {
        Ok(payload) => Ok(document_to_canonical(payload)),
        Err(e) => Err(e),
    }
}

proof fn lemma_metadata_reads_back(pairs: Pairs)
    requires
        unique(pairs),
    ensures
        read_metadata(text_fields(pairs)) == pairs,
        all_texts(text_fields(pairs)),
    decreases pairs.len(),
{
    let d = text_fields(pairs);
    if pairs.len() > 0 {
        let front = pairs.drop_last();
        assert(unique(front));
        lemma_metadata_reads_back(front);
        assert(d.drop_last() =~= text_fields(front));
        lemma_slot_is(front, pairs.last().0, 0, front.len() as int);
        assert(front.push(pairs.last()) =~= pairs);
    } else {
        assert(read_metadata(d) =~= pairs);
    }
}

proof fn lemma_dropping_keeps_unique(pairs: Pairs, prefix: Seq<char>)
    requires
        unique(pairs),
    ensures
        unique(drop_prefixed(pairs, prefix)),
        forall|i: int|
            0 <= i < drop_prefixed(pairs, prefix).len() ==> pairs.contains(
                #[trigger] drop_prefixed(pairs, prefix)[i],
            ),
    decreases pairs.len(),
{
    if pairs.len() > 0 {
        let front = pairs.drop_last();
        assert(unique(front));
        lemma_dropping_keeps_unique(front, prefix);
        let rest = drop_prefixed(front, prefix);
        let out = drop_prefixed(pairs, prefix);
        assert forall|i: int| 0 <= i < out.len() implies pairs.contains(#[trigger] out[i]) by {
            if i < rest.len() {
                assert(out[i] == rest[i]);
                let w = choose|w: int| 0 <= w < front.len() && front[w] == rest[i];
                assert(pairs[w] == out[i]);
            } else {
                assert(pairs[pairs.len() - 1] == out[i]);
            }
        }
        assert forall|i: int, j: int| 0 <= i < j < out.len() implies (#[trigger] out[i]).0 != (
        #[trigger] out[j]).0 by {
            if j >= rest.len() {
                assert(front.contains(rest[i]));
                let w = choose|w: int| 0 <= w < front.len() && front[w] == rest[i];
                assert(pairs[w].0 != pairs[pairs.len() - 1].0);
            }
        }
    }
}

/// A message that is stored wrapped, as bytes or as text, reads back with its
/// identifier, its payload and its metadata; only what says where it was read from
/// is gone, and a payload that is stored as text is noted as such under `type`.
pub proof fn law_stored_message_reads_back(
    m: MessageView,
    format: MongoDbFormat,
    json: Option<BsonView>,
    now: i64,
    key: Seq<char>,
)
    requires
        unique(m.metadata),
        format is Normal || format is Text,
    ensures
        ({
            let d = wrapped_document(m, format, None, json, now);
            &&& is_wrapped(d)
            &&& wrapped_id(d) == m.message_id
            &&& read_payload(field(d, "payload"@)->0) == Ok::<Seq<u8>, Seq<char>>(m.payload)
            &&& lookup(wrapped_metadata(d), key) == (if format is Text && valid_utf8(m.payload)
                && key == "type"@ {
                Some("text"@)
            } else if starts_with(key, SOURCE_PREFIX@) {
                None
            } else {
                lookup(m.metadata, key)
            })
        }),
{
    let d = wrapped_document(m, format, None, json, now);
    reveal_strlit("_id");
    reveal_strlit("payload");
    reveal_strlit("metadata");
    assert("payload"@.len() == 7 && "_id"@.len() == 3 && "metadata"@.len() == 8);
    lemma_field_at_is(d, "_id"@, 0, 0);
    lemma_field_at_is(d, "payload"@, 0, 1);
    lemma_field_at_is(d, "metadata"@, 0, 2);
    law_be_bytes_read_back(m.message_id as nat, 16);
    assert(byte_power(16) == 0x1_0000_0000_0000_0000_0000_0000_0000_0000int) by {
        reveal_with_fuel(byte_power, 17);
    }
    let kept = drop_prefixed(m.metadata, SOURCE_PREFIX@);
    let stored = stored_metadata(m, format, json);
    lemma_dropping_keeps_unique(m.metadata, SOURCE_PREFIX@);
    law_reads_give_back_writes(kept, "type"@, "text"@);
    law_drop_prefixed(m.metadata, SOURCE_PREFIX@, key);
    lemma_metadata_reads_back(stored);
    if format is Text && valid_utf8(m.payload) {
        vstd::utf8::decode_utf8_encode_utf8(m.payload);
    }
}

} // verus!
