//! BSON values as JSON, and JSON as BSON values.

use vstd::prelude::*;

use crate::mongo::bson::{BsonValue, BsonView, Document, Fields};
use mongodb::bson::Bson;

verus! {

/// What looking for a field of a JSON payload gives.
#[derive(Debug)]
pub enum JsonField {
    /// The payload is not JSON.
    NotJson,
    /// The payload has no such field.
    Missing,
    /// The value of the field has no BSON form.
    NotBson,
    Found(BsonValue),
}

/// What looking for a field of a JSON payload gives, over mathematical values.
pub enum JsonFieldView {
    NotJson,
    Missing,
    NotBson,
    Found(BsonView),
}

impl View for JsonField {
    type V = JsonFieldView;

    open spec fn view(&self) -> JsonFieldView {
        match self {
            JsonField::NotJson => JsonFieldView::NotJson,
            JsonField::Missing => JsonFieldView::Missing,
            JsonField::NotBson => JsonFieldView::NotBson,
            JsonField::Found(b) => JsonFieldView::Found(b@),
        }
    }
}

/// What a field of a JSON payload holds, as `serde_json` reads it and
/// `mongodb::bson::to_bson` converts it.
pub uninterp spec fn field_in_json(payload: Seq<u8>, key: Seq<char>) -> JsonFieldView;

/// What a JSON payload is, as `serde_json` reads it and `mongodb::bson::to_bson`
/// converts it.
pub uninterp spec fn value_in_json(payload: Seq<u8>) -> Option<BsonView>;

/// The document that `serde_json` reads from bytes in extended JSON.
pub uninterp spec fn document_in_json(bytes: Seq<u8>) -> Option<Fields>;

/// The JSON that `serde_json` writes for a value, or why it writes none.
pub uninterp spec fn json_of_value(value: BsonView) -> Result<Seq<u8>, Seq<char>>;

/// The JSON of a value that `mongodb::bson::from_bson` first converts to a plain JSON
/// value, or why there is none.
pub uninterp spec fn plain_json_of_value(value: BsonView) -> Result<Seq<u8>, Seq<char>>;

/// The canonical extended JSON of a document, or why there is none.
pub uninterp spec fn canonical_json(fields: Fields) -> Result<Seq<char>, Seq<char>>;

/// The value that a text denotes in extended JSON, where it can be a resume token.
pub uninterp spec fn token_in_json(text: Seq<char>) -> Option<BsonView>;

/// Takes a value of `mongodb::bson` over that holds no other, one kind for one.
#[verifier::external_body]
fn import_scalar(b: Bson) -> (v: BsonValue) {
    match b {
        Bson::Null => BsonValue::Null,
        Bson::Boolean(x) => BsonValue::Boolean(x),
        Bson::Int32(x) => BsonValue::Int32(x),
        Bson::Int64(x) => BsonValue::Int64(x),
        Bson::String(x) => BsonValue::Text(x),
        Bson::Binary(x) => BsonValue::Binary { subtype: x.subtype.into(), bytes: x.bytes },
        Bson::ObjectId(x) => BsonValue::ObjectId(x.bytes()),
        Bson::DateTime(x) => BsonValue::DateTime(x.timestamp_millis()),
        other => BsonValue::Other(other),
    }
}

/// Takes the fields of a document of `mongodb::bson` over, one for one.
#[verifier::external_body]
fn import_fields(fields: Vec<(String, Bson)>) -> (d: Document) {
    Document { fields: fields.into_iter().map(|(k, v)| (k, import_value(v))).collect() }
}

/// Takes a value of `mongodb::bson` over, one kind for one.
#[verifier::external_body]
fn import_value(b: Bson) -> (v: BsonValue) {
    match b {
        Bson::Array(x) => BsonValue::Array(x.into_iter().map(import_value).collect()),
        Bson::Document(x) => BsonValue::Document(import_fields(x.into_iter().collect())),
        other => import_scalar(other),
    }
}

/// Hands the fields of a document over to `mongodb::bson`, one for one.
#[verifier::external_body]
fn export_fields(d: &Document) -> (fields: Vec<(String, Bson)>) {
    d.fields.iter().map(|f| (f.0.clone(), export_value(&f.1))).collect()
}

/// Hands a value over to `mongodb::bson`, one kind for one.
#[verifier::external_body]
fn export_value(v: &BsonValue) -> (b: Bson) {
    match v {
        BsonValue::Null => Bson::Null,
        BsonValue::Boolean(x) => Bson::from(*x),
        BsonValue::Int32(x) => Bson::from(*x),
        BsonValue::Int64(x) => Bson::from(*x),
        BsonValue::Text(x) => Bson::from(x),
        BsonValue::Binary { subtype, bytes } => export_bytes(*subtype, bytes),
        BsonValue::ObjectId(x) => Bson::from(*x),
        BsonValue::DateTime(x) => Bson::from(mongodb::bson::DateTime::from_millis(*x)),
        BsonValue::Array(x) => Bson::Array(x.iter().map(export_value).collect()),
        BsonValue::Document(x) => Bson::Document(export_fields(x).into_iter().collect()),
        BsonValue::Other(x) => x.clone(),
    }
}

/// Hands bytes over to `mongodb::bson`.
#[verifier::external_body]
fn export_bytes(subtype: u8, bytes: &Vec<u8>) -> (b: Bson) {
    Bson::Binary(mongodb::bson::Binary { subtype: subtype.into(), bytes: bytes.clone() })
}

/// `serde_json::from_slice` reads a payload, and `mongodb::bson::to_bson` converts the
/// field that `serde_json::Value::get` finds in it.
#[verifier::external_body]
pub(crate) fn json_field(payload: &[u8], key: &str) -> (found: JsonField)
    ensures
        found@ == field_in_json(payload@, key@),
{
    match serde_json::from_slice::<serde_json::Value>(payload) {
        Err(_) => JsonField::NotJson,
        Ok(json) => match json.get(key).map(mongodb::bson::to_bson) {
            None => JsonField::Missing,
            Some(Err(_)) => JsonField::NotBson,
            Some(Ok(value)) => JsonField::Found(import_value(value)),
        },
    }
}

/// An optional value over mathematical values.
pub open spec fn option_view(o: Option<BsonValue>) -> Option<BsonView> {
    match o {
        Some(v) => Some(v@),
        None => None,
    }
}

/// An optional document over mathematical values.
pub open spec fn option_fields(o: Option<Document>) -> Option<Fields> {
    match o {
        Some(d) => Some(d@),
        None => None,
    }
}

/// `serde_json::from_slice` reads a payload, and `mongodb::bson::to_bson` converts it.
#[verifier::external_body]
pub(crate) fn json_value(payload: &[u8]) -> (value: Option<BsonValue>)
    ensures
        option_view(value) == value_in_json(payload@),
{
    let json = serde_json::from_slice::<serde_json::Value>(payload).ok()?;
    mongodb::bson::to_bson(&json).ok().map(import_value)
}

/// `serde_json::from_slice` reads bytes as a document of `mongodb::bson`.
#[verifier::external_body]
pub(crate) fn json_document(bytes: &[u8]) -> (d: Option<Document>)
    ensures
        option_fields(d) == document_in_json(bytes@),
{
    let d = serde_json::from_slice::<mongodb::bson::Document>(bytes).ok()?;
    Some(import_fields(d.into_iter().collect()))
}

/// `serde_json::to_vec` writes a value of `mongodb::bson` as JSON.
#[verifier::external_body]
pub(crate) fn value_json(value: &BsonValue) -> (json: Result<Vec<u8>, String>)
    ensures
        match json {
            Ok(bytes) => Ok::<Seq<u8>, Seq<char>>(bytes@),
            Err(e) => Err::<Seq<u8>, Seq<char>>(e@),
        } == json_of_value(value@),
{
    serde_json::to_vec(&export_value(value)).map_err(|e| e.to_string())
}

/// `mongodb::bson::from_bson` converts a value to a JSON value, and
/// `serde_json::to_vec` writes that.
#[verifier::external_body]
pub(crate) fn plain_json(value: &BsonValue) -> (json: Result<Vec<u8>, String>)
    ensures
        match json {
            Ok(bytes) => Ok::<Seq<u8>, Seq<char>>(bytes@),
            Err(e) => Err::<Seq<u8>, Seq<char>>(e@),
        } == plain_json_of_value(value@),
{
    let plain: serde_json::Value = mongodb::bson::from_bson(export_value(value)).map_err(
        |e| e.to_string(),
    )?;
    serde_json::to_vec(&plain).map_err(|e| e.to_string())
}

/// Whether a document is of the kind that servers give as resume tokens: a few texts
/// and bytes under plain names.
pub open spec fn is_plain_token(fields: Fields) -> bool {
    &&& forall|i: int, j: int|
        0 <= i < j < fields.len() ==> (#[trigger] fields[i]).0 != (#[trigger] fields[j]).0
    &&& forall|i: int|
        0 <= i < fields.len() ==> {
            &&& (#[trigger] fields[i]).0.len() > 0
            &&& fields[i].0[0] == '_'
            &&& !fields[i].0.contains('\0')
            &&& (fields[i].1 is Text || (fields[i].1 matches BsonView::Binary(subtype, bytes)
                && subtype == 0))
        }
}

/// `mongodb::bson::Bson::into_canonical_extjson` gives the extended JSON of a document,
/// and `serde_json::to_string` writes it. A token of the usual kind reads back as it
/// was.
#[verifier::external_body]
pub(crate) fn token_json(token: &Document) -> (text: Result<String, String>)
    ensures
        match text {
            Ok(t) => canonical_json(token@) == Ok::<Seq<char>, Seq<char>>(t@) && (is_plain_token(
                token@,
            ) ==> token_in_json(t@) == Some(BsonView::Document(token@))),
            Err(e) => canonical_json(token@) == Err::<Seq<char>, Seq<char>>(e@)
                && !is_plain_token(token@),
        },
{
    let fields = export_fields(token).into_iter().collect();
    let json = Bson::Document(fields).into_canonical_extjson();
    serde_json::to_string(&json).map_err(|e| e.to_string())
}

/// `serde_json::from_str` reads a text, `mongodb::bson::Bson` is made from that, and it
/// is a token where `mongodb::bson::from_bson` makes a
/// `mongodb::change_stream::event::ResumeToken` of it.
#[verifier::external_body]
pub(crate) fn json_token(text: &str) -> (token: Option<BsonValue>)
    ensures
        option_view(token) == token_in_json(text@),
{
    let json = serde_json::from_str::<serde_json::Value>(text).ok()?;
    let value = Bson::try_from(json).ok()?;
    let token = mongodb::bson::from_bson::<mongodb::change_stream::event::ResumeToken>(
        value.clone(),
    );
    token.ok().map(|_| import_value(value))
}

} // verus!
