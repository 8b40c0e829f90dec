//! The queries that readers and consumers make.

use vstd::prelude::*;

use crate::mongo::bson::{
    copy_values, lemma_array, values_of, BsonValue, BsonView, Document, Fields,
};
use crate::mongo::json::{document_in_json, json_document, option_fields, option_view};
use crate::text::{chars_of, join2, opt, starts_with};

verus! {

/// A document of one field, as a value.
pub open spec fn one(key: Seq<char>, value: BsonView) -> BsonView {
    BsonView::Document(seq![(key, value)])
}

fn single(key: &str, value: BsonValue) -> (d: Document)
    ensures
        d@ == seq![(key@, value@)],
{
    let d = Document::new().then_field(key, value);
    assert(d@ =~= seq![(key@, value@)]);
    d
}

fn nested(key: &str, value: BsonValue) -> (v: BsonValue)
    ensures
        v@ == one(key@, value@),
{
    BsonValue::Document(single(key, value))
}

fn list2(a: BsonValue, b: BsonValue) -> (v: BsonValue)
    ensures
        v@ == BsonView::Array(seq![a@, b@]),
{
    let mut items: Vec<BsonValue> = Vec::new();
    items.push(a);
    items.push(b);
    proof {
        lemma_array(items);
        assert(values_of(items@) =~= seq![a@, b@]);
    }
    BsonValue::Array(items)
}

fn list3(a: BsonValue, b: BsonValue, c: BsonValue) -> (v: BsonValue)
    ensures
        v@ == BsonView::Array(seq![a@, b@, c@]),
{
    let mut items: Vec<BsonValue> = Vec::new();
    items.push(a);
    items.push(b);
    items.push(c);
    proof {
        lemma_array(items);
        assert(values_of(items@) =~= seq![a@, b@, c@]);
    }
    BsonValue::Array(items)
}

/// That a field is absent.
pub open spec fn absent(name: Seq<char>) -> BsonView {
    one(name, one("$exists"@, BsonView::Boolean(false)))
}

fn absent_field(name: &str) -> (v: BsonValue)
    ensures
        v@ == absent(name@),
{
    nested(name, nested("$exists", BsonValue::Boolean(false)))
}

/// That a message is not locked at a time, and that the document is none of the
/// bookkeeping ones.
pub open spec fn available_filter(now: i64) -> Fields {
    seq![
        (
            "$and"@,
            BsonView::Array(
                seq![
                    one(
                        "$or"@,
                        BsonView::Array(
                            seq![
                                absent("locked_until"@),
                                one("locked_until"@, BsonView::Null),
                                one("locked_until"@, one("$lt"@, BsonView::Int64(now))),
                            ],
                        ),
                    ),
                    absent("seq_counter"@),
                    absent("last_seq"@),
                ],
            ),
        ),
    ]
}

/// The query for messages that are not locked at a time.
pub fn available_message_filter(now: i64) -> (d: Document)
    ensures
        d@ == available_filter(now),
{
    let unlocked = list3(
        absent_field("locked_until"),
        nested("locked_until", BsonValue::Null),
        nested("locked_until", nested("$lt", BsonValue::Int64(now))),
    );
    let all = list3(
        nested("$or", unlocked),
        absent_field("seq_counter"),
        absent_field("last_seq"),
    );
    single("$and", all)
}

/// Two queries at once.
pub open spec fn both(a: Fields, b: Fields) -> Fields {
    seq![("$and"@, BsonView::Array(seq![BsonView::Document(a), BsonView::Document(b)]))]
}

/// Two queries at once.
pub fn match_both(a: Document, b: Document) -> (d: Document)
    ensures
        d@ == both(a@, b@),
{
    single("$and", list2(BsonValue::Document(a), BsonValue::Document(b)))
}

/// The query for messages that a consumer may claim. An empty extra query is none.
pub open spec fn claim_filter_of(now: i64, extra: Option<Fields>) -> Fields {
    match extra {
        Some(e) => if e.len() == 0 {
            available_filter(now)
        } else {
            both(available_filter(now), e)
        },
        None => available_filter(now),
    }
}

/// The query for messages that a consumer may claim.
pub fn claim_filter(now: i64, extra: &Option<Document>) -> (d: Document)
    ensures
        d@ == claim_filter_of(now, option_fields(*extra)),
{
    match extra {
        Some(e) => if e.is_empty() {
            available_message_filter(now)
        } else {
            match_both(available_message_filter(now), e.copy())
        },
        None => available_message_filter(now),
    }
}

/// How long a claimed message stays locked, in seconds.
pub const LOCK_SECONDS: i64 = 60;

/// The update that locks messages.
pub open spec fn lock_update_of(until: i64) -> Fields {
    seq![("$set"@, one("locked_until"@, BsonView::Int64(until)))]
}

/// Until when a message is locked that is claimed now. A time near the end of time is
/// as far as it goes.
pub open spec fn locked_from(now: i64) -> i64 {
    if now + LOCK_SECONDS > i64::MAX {
        i64::MAX
    } else {
        (now + LOCK_SECONDS) as i64
    }
}

/// The update that locks messages from now on.
pub fn lock_update(now: i64) -> (d: Document)
    ensures
        d@ == lock_update_of(locked_from(now)),
{
    let until: i64 = if now > i64::MAX - LOCK_SECONDS {
        i64::MAX
    } else {
        now + LOCK_SECONDS
    };
    single("$set", nested("locked_until", BsonValue::Int64(until)))
}

/// The update that unlocks messages.
pub open spec fn unlocking() -> Fields {
    seq![("$set"@, one("locked_until"@, BsonView::Null))]
}

/// The update that unlocks messages.
pub fn unlock_update() -> (d: Document)
    ensures
        d@ == seq![("$set"@, one("locked_until"@, BsonView::Null))],
        d@ == unlocking(),
{
    single("$set", nested("locked_until", BsonValue::Null))
}

/// That the identifier is one of these.
pub open spec fn among(ids: Seq<BsonView>) -> (Seq<char>, BsonView) {
    ("_id"@, one("$in"@, BsonView::Array(ids)))
}

/// The query for documents with these identifiers.
pub fn ids_filter(ids: &Vec<BsonValue>) -> (d: Document)
    ensures
        d@ == seq![among(values_of(ids@))],
{
    let items = copy_values(ids);
    proof {
        lemma_array(items);
    }
    single("_id", nested("$in", BsonValue::Array(items)))
}

/// The query that claims these documents: they still have to be available.
pub fn claim_these_filter(ids: &Vec<BsonValue>, base: Document) -> (d: Document)
    ensures
        d@ == seq![among(values_of(ids@))] + base@,
{
    let mut d = ids_filter(ids);
    let ghost head = d@;
    let mut rest = base.fields;
    let ghost all = base@;
    let ghost mut n: int = 0;
    assert(d@ =~= head + all.take(0));
    while rest.len() > 0
        invariant
            0 <= n <= base.fields@.len(),
            rest@ == base.fields@.skip(n),
            all == base@,
            d@ == head + all.take(n),
        decreases rest@.len(),
    {
        assert(rest@[0] == base.fields@[n]);
        let f = rest.remove(0);
        assert(base.fields@.skip(n).remove(0) =~= base.fields@.skip(n + 1));
        assert(all[n] == (f.0@, f.1@));
        d = d.then_field(f.0.as_str(), f.1);
        assert(d@ =~= head + all.take(n + 1));
        proof {
            n = n + 1;
        }
    }
    assert(all.take(all.len() as int) =~= all);
    d
}

/// That the identifier comes after another one.
pub open spec fn beyond(id: BsonView) -> (Seq<char>, BsonView) {
    ("_id"@, one("$gt"@, id))
}

/// The query for the documents behind an identifier that also match an extra query.
pub open spec fn page_filter_of(last: Option<BsonView>, extra: Option<Fields>) -> Fields {
    match last {
        Some(id) => match extra {
            Some(e) => both(seq![beyond(id)], e),
            None => seq![beyond(id)],
        },
        None => match extra {
            Some(e) => e,
            None => seq![],
        },
    }
}

/// The query for the documents behind an identifier that also match an extra query.
pub fn page_filter(last: &Option<BsonValue>, extra: &Option<Document>) -> (d: Document)
    ensures
        d@ == page_filter_of(option_view(*last), option_fields(*extra)),
{
    match last {
        Some(id) => {
            let base = single("_id", nested("$gt", id.copy()));
            match extra {
                Some(e) => match_both(base, e.copy()),
                None => base,
            }
        },
        None => match extra {
            Some(e) => e.copy(),
            None => Document::new(),
        },
    }
}

/// The query for a page of the initial snapshot. The bookkeeping document is no part
/// of it.
pub open spec fn snapshot_filter_of(last: Option<BsonView>, extra: Option<Fields>) -> Fields {
    let skip = ("seq_counter"@, one("$exists"@, BsonView::Boolean(false)));
    let base = match last {
        Some(id) => seq![beyond(id), skip],
        None => seq![skip],
    };
    match extra {
        Some(e) => both(base, e),
        None => base,
    }
}

/// The query for a page of the initial snapshot.
pub fn snapshot_filter(last: &Option<BsonValue>, extra: &Option<Document>) -> (d: Document)
    ensures
        d@ == snapshot_filter_of(option_view(*last), option_fields(*extra)),
{
    let exists = nested("$exists", BsonValue::Boolean(false));
    let base = match last {
        Some(id) => single("_id", nested("$gt", id.copy())).then_field("seq_counter", exists),
        None => single("seq_counter", exists),
    };
    assert(base@ =~= snapshot_filter_of(option_view(*last), None));
    match extra {
        Some(e) => match_both(base, e.copy()),
        None => base,
    }
}

/// The query for the events behind a sequence number. Only events have a payload.
pub open spec fn events_filter_of(last_seq: i64, extra: Option<Fields>) -> Fields {
    let base = seq![
        ("seq"@, one("$gt"@, BsonView::Int64(last_seq))),
        ("payload"@, one("$exists"@, BsonView::Boolean(true))),
    ];
    match extra {
        Some(e) => both(base, e),
        None => base,
    }
}

/// The query for the events behind a sequence number.
pub fn events_filter(last_seq: i64, extra: &Option<Document>) -> (d: Document)
    ensures
        d@ == events_filter_of(last_seq, option_fields(*extra)),
{
    let base = single("seq", nested("$gt", BsonValue::Int64(last_seq))).then_field(
        "payload",
        nested("$exists", BsonValue::Boolean(true)),
    );
    assert(base@ =~= events_filter_of(last_seq, None));
    match extra {
        Some(e) => match_both(base, e.copy()),
        None => base,
    }
}

/// What a configured extra query reads as, or why it does not.
pub open spec fn receive_query_of(config: Option<Seq<char>>) -> Result<Option<Fields>, Seq<char>> {
    match config {
        None => Ok(None),
        Some(text) => match document_in_json(vstd::utf8::encode_utf8(text)) {
            Some(d) => Ok(Some(d)),
            None => Err(
                "Failed to parse 'receive_query' from configuration as a JSON document"@,
            ),
        },
    }
}

/// Reads a configured extra query.
pub fn parse_receive_query(config: &Option<String>) -> (res: Result<Option<Document>, String>)
    ensures
        match res {
            Ok(d) => Ok::<Option<Fields>, Seq<char>>(option_fields(d)),
            Err(e) => Err::<Option<Fields>, Seq<char>>(e@),
        } == receive_query_of(opt(*config)),
{
    match config {
        None => Ok(None),
        Some(text) => match json_document(text.as_str().as_bytes()) {
            Some(d) => Ok(Some(d)),
            None => Err(
                "Failed to parse 'receive_query' from configuration as a JSON document".to_owned(),
            ),
        },
    }
}

/// Whether a name is that of an operator.
pub open spec fn is_operator(name: Seq<char>) -> bool {
    name.len() > 0 && name[0] == '$'
}

/// A query on documents as a query on change events: fields are looked for in the
/// document of the event, and the queries inside an operator likewise.
pub open spec fn on_events(d: Fields) -> Fields
    decreases d,
{
    Seq::new(
        d.len(),
        |i: int|
            if 0 <= i < d.len() {
                if is_operator(d[i].0) {
                    (d[i].0, operand_on_events(d[i].1))
                } else {
                    ("fullDocument."@ + d[i].0, d[i].1)
                }
            } else {
                (seq![], BsonView::Null)
            },
    )
}

/// The operand of an operator in a query on change events.
pub open spec fn operand_on_events(v: BsonView) -> BsonView
    decreases v,
{
    match v {
        BsonView::Array(items) => BsonView::Array(
            Seq::new(
                items.len(),
                |i: int|
                    if 0 <= i < items.len() {
                        match items[i] {
                            BsonView::Document(x) => BsonView::Document(on_events(x)),
                            other => other,
                        }
                    } else {
                        BsonView::Null
                    },
            ),
        ),
        BsonView::Document(x) => BsonView::Document(on_events(x)),
        other => other,
    }
}

fn begins_operator(name: &str) -> (res: bool)
    ensures
        res == is_operator(name@),
{
    let all = chars_of(name);
    all.len() > 0 && all[0] == '$'
}

/// A query on documents as a query on change events.
pub fn full_document_match(query: &Document) -> (out: Document)
    ensures
        out@ == on_events(query@),
    decreases query,
{
    let mut out = Document::new();
    let ghost all = query@;
    let mut i: usize = 0;
    assert(out@ =~= on_events(all).take(0));
    while i < query.fields.len()
        invariant
            i <= query.fields@.len(),
            all == query@,
            out@ == on_events(all).take(i as int),
        decreases query.fields@.len() - i,
    {
        assert(all[i as int] == (query.fields@[i as int].0@, query.fields@[i as int].1@));
        let name = query.fields[i].0.as_str();
        if begins_operator(name) {
            let value = rewrite_operator_value(&query.fields[i].1);
            out = out.then_field(name, value);
        } else {
            let longer = join2("fullDocument.", name);
            out = out.then_field(longer.as_str(), query.fields[i].1.copy());
        }
        assert(out@ =~= on_events(all).take(i + 1));
        i += 1;
    }
    assert(on_events(all).take(all.len() as int) =~= on_events(all));
    out
}

/// The operand of an operator in a query on change events.
pub fn rewrite_operator_value(value: &BsonValue) -> (out: BsonValue)
    ensures
        out@ == operand_on_events(value@),
    decreases value,
{
    match value {
        BsonValue::Array(items) => {
            let rewritten = rewrite_items(items);
            proof {
                lemma_array(rewritten);
                lemma_array(*items);
                match operand_on_events(value@) {
                    BsonView::Array(w) => {
                        assert(w =~= values_of(rewritten@));
                    },
                    _ => {},
                }
            }
            BsonValue::Array(rewritten)
        },
        BsonValue::Document(d) => BsonValue::Document(full_document_match(d)),
        _ => value.copy(),
    }
}

fn rewrite_items(items: &Vec<BsonValue>) -> (out: Vec<BsonValue>)
    ensures
        out@.len() == items@.len(),
        forall|i: int|
            0 <= i < out@.len() ==> (#[trigger] out@[i])@ == (match items@[i]@ {
                BsonView::Document(x) => BsonView::Document(on_events(x)),
                other => other,
            }),
    decreases items,
{
    let mut out: Vec<BsonValue> = Vec::new();
    let mut i: usize = 0;
    while i < items.len()
        invariant
            i <= items@.len(),
            out@.len() == i,
            forall|k: int|
                0 <= k < out@.len() ==> (#[trigger] out@[k])@ == (match items@[k]@ {
                    BsonView::Document(x) => BsonView::Document(on_events(x)),
                    other => other,
                }),
        decreases items@.len() - i,
    {
        let item = match &items[i] {
            BsonValue::Document(d) => BsonValue::Document(full_document_match(d)),
            other => other.copy(),
        };
        out.push(item);
        i += 1;
    }
    out
}

/// Every name in a query on change events is that of an operator or lies in the
/// document of the event, so that no field of a document is looked for in the event
/// itself. Each field keeps its place, and what is asked of it stays as it was.
pub proof fn law_queries_target_the_document(d: Fields, i: int)
    requires
        0 <= i < d.len(),
    ensures
        on_events(d).len() == d.len(),
        is_operator(d[i].0) ==> on_events(d)[i].0 == d[i].0,
        !is_operator(d[i].0) ==> on_events(d)[i] == ("fullDocument."@ + d[i].0, d[i].1),
        is_operator(on_events(d)[i].0) || starts_with(on_events(d)[i].0, "fullDocument."@),
{
    let name = on_events(d)[i].0;
    if !is_operator(d[i].0) {
        assert(name.take("fullDocument."@.len() as int) =~= "fullDocument."@);
    }
}

} // verus!
