//! What is stored, what is read back, and what a commit leaves.

use vstd::prelude::*;
use vstd::utf8::{decode_utf8, encode_utf8, valid_utf8};

use crate::ids::{hex_digits, is_v7, uuid_text};
use crate::message::{
    drop_prefixed, failed_views, law_drop_prefixed, law_reads_give_back_writes, lookup,
    message_views, slot, unique, with, BatchView, CanonicalMessage, DispositionView, FailureView,
    MessageView, Pairs, SentView,
};
use crate::models::{MongoDbConfig, MongoDbFormat};
use crate::mongo::bson::{
    field, field_at, law_fields_give_back_values, lemma_field_at_is, with_field, BsonView, Document,
    Fields,
};
use crate::mongo::changes::{
    clean_after, commit_save, event_id, event_metadata, event_payload, idle_save, operation_name,
    pipeline_of, snapshot_metadata, ChangeEvent, OperationType,
};
use crate::mongo::commit::{
    accepted, done_ids, highest_accepted, listed_texts, reply_errors, stored_reply, undone_ids,
    ClaimOutcome, CommitPlan, CommitStepView,
};
use crate::mongo::cursor::{encoded_id, tagged_id};
use crate::mongo::document::{
    document_for, document_metadata, raw_metadata, read_payload, reads_document, stored_document,
    stored_metadata, text_fields, wrapped_document,
};
use crate::mongo::filters::{on_events, receive_query_of};
use crate::mongo::json::{
    canonical_json, document_in_json, field_in_json, json_of_value, plain_json_of_value,
    value_in_json, JsonFieldView,
};
use crate::mongo::publisher::{
    concern_failures, counted, error_at, error_for, insert_failure, insert_failures, insert_result,
    longer_sleep, numbered, recovered, recovery, request_under, stops_at, storable, stored_result,
    stored_under, unstorable, CounterOutcome, InsertManyOutcome, InsertOutcome, InsertPlan, Lookup,
    MongoDbPublisher, WriteError,
};
use crate::mongo::query::{changed, selects, Judge};
use crate::mongo::query_laws::law_replies_are_found_by_their_correlation;
use crate::mongo::readers::{
    capped_capacity, claim_error, claimable, collection_report, holds_claims, polling_ms,
    reader_refusal, start_seq, subscriber_refusal, ClaimedBatch, ClaimingView,
};
use crate::mongo::sending::{
    documents_of, goes_under, nothing_stored, plans, reply_filter, StoreActionView, StoreEvent,
    StoreStageView,
};
use crate::numbers::signed_decimal;
use crate::text::{opt, starts_with, texts};
use crate::wire::{be_bytes, be_value};

verus! {

proof fn lemma_names()
    ensures
        "_id"@ != "payload"@,
        "_id"@ != "metadata"@,
        "_id"@ != "locked_until"@,
        "_id"@ != "created_at"@,
        "payload"@ != "metadata"@,
        "payload"@ != "locked_until"@,
        "payload"@ != "created_at"@,
        "metadata"@ != "locked_until"@,
        "metadata"@ != "created_at"@,
        "locked_until"@ != "created_at"@,
{
    reveal_strlit("_id");
    reveal_strlit("payload");
    reveal_strlit("metadata");
    reveal_strlit("locked_until");
    reveal_strlit("created_at");
    assert("_id"@.len() == 3);
    assert("payload"@.len() == 7);
    assert("metadata"@.len() == 8);
    assert("locked_until"@.len() == 12);
    assert("created_at"@.len() == 10);
}

/// A message is stored under its identifier or under the configured one, not locked, with
/// the time at which it was stored. Its payload is stored as bytes, but as text in the
/// text format where it is text, and as what it reads as in the JSON format where it is
/// JSON.
pub proof fn law_stored_fields(
    m: MessageView,
    format: MongoDbFormat,
    id: Option<BsonView>,
    json: Option<BsonView>,
    now: i64,
)
    ensures
        ({
            let d = wrapped_document(m, format, id, json, now);
            &&& field(d, "_id"@) == Some(
                match id {
                    Some(v) => v,
                    None => BsonView::Binary(4, be_bytes(m.message_id as nat, 16)),
                },
            )
            &&& field(d, "locked_until"@) == Some(BsonView::Null)
            &&& field(d, "created_at"@) == Some(BsonView::DateTime(now))
            &&& field(d, "payload"@) == Some(
                match format {
                    MongoDbFormat::Json => match json {
                        Some(v) => v,
                        None => BsonView::Binary(0, m.payload),
                    },
                    MongoDbFormat::Text => if valid_utf8(m.payload) {
                        BsonView::Text(decode_utf8(m.payload))
                    } else {
                        BsonView::Binary(0, m.payload)
                    },
                    _ => BsonView::Binary(0, m.payload),
                },
            )
            &&& field(d, "metadata"@) == Some(
                BsonView::Document(text_fields(stored_metadata(m, format, json))),
            )
        }),
{
    let d = wrapped_document(m, format, id, json, now);
    lemma_names();
    lemma_field_at_is(d, "_id"@, 0, 0);
    lemma_field_at_is(d, "payload"@, 0, 1);
    lemma_field_at_is(d, "metadata"@, 0, 2);
    lemma_field_at_is(d, "locked_until"@, 0, 3);
    lemma_field_at_is(d, "created_at"@, 0, 4);
}

/// The metadata of a message is stored with it, but for what says where the message was
/// read from. The kind of a payload that is not stored as bytes is noted under `type`.
pub proof fn law_stored_metadata(
    m: MessageView,
    format: MongoDbFormat,
    json: Option<BsonView>,
    key: Seq<char>,
)
    ensures
        ({
            let stored = field(text_fields(stored_metadata(m, format, json)), key);
            let is_json = format is Json && json is Some;
            let is_text = format is Text && valid_utf8(m.payload);
            &&& is_json && key == "type"@ ==> stored == Some(BsonView::Text("json"@))
            &&& is_text && key == "type"@ ==> stored == Some(BsonView::Text("text"@))
            &&& !(key == "type"@ && (is_json || is_text)) ==> if starts_with(key, "mqb.src."@) {
                stored is None
            } else {
                stored == (match lookup(m.metadata, key) {
                    Some(v) => Some(BsonView::Text(v)),
                    None => None,
                })
            }
        }),
{
    let kept = drop_prefixed(m.metadata, "mqb.src."@);
    law_drop_prefixed(m.metadata, "mqb.src."@, key);
    law_reads_give_back_writes(kept, "type"@, "json"@);
    law_reads_give_back_writes(kept, "type"@, "text"@);
    lemma_text_field(stored_metadata(m, format, json), key, 0);
}

proof fn lemma_text_field(pairs: Pairs, key: Seq<char>, i: int)
    requires
        0 <= i <= pairs.len(),
    ensures
        field_at(text_fields(pairs), key, i) == slot(pairs, key, i),
        i == 0 ==> field(text_fields(pairs), key) == (match lookup(pairs, key) {
            Some(v) => Some(BsonView::Text(v)),
            None => None,
        }),
    decreases pairs.len() - i,
{
    if i < pairs.len() && pairs[i].0 != key {
        lemma_text_field(pairs, key, i + 1);
    }
    lemma_slot_bound(pairs, key, i);
}

proof fn lemma_slot_bound(pairs: Pairs, key: Seq<char>, i: int)
    requires
        0 <= i <= pairs.len(),
    ensures
        i <= slot(pairs, key, i) <= pairs.len(),
    decreases pairs.len() - i,
{
    if i < pairs.len() && pairs[i].0 != key {
        lemma_slot_bound(pairs, key, i + 1);
    }
}

/// In the raw format a payload that is a document is stored as it is, under the
/// configured identifier where there is one. A request or a reply is stored wrapped in
/// every format, and so is every other message.
pub proof fn law_raw_documents(
    m: MessageView,
    format: MongoDbFormat,
    id: Option<BsonView>,
    raw: Option<Fields>,
    json: Option<BsonView>,
    now: i64,
    key: Seq<char>,
)
    ensures
        ({
            let d = stored_document(m, format, id, raw, json, now);
            let plain = lookup(m.metadata, "correlation_id"@) is None && lookup(
                m.metadata,
                "reply_to"@,
            ) is None;
            &&& format is Raw && plain && raw is Some && id is None ==> d == raw->0
            &&& format is Raw && plain && raw is Some && id is Some ==> field(d, "_id"@) == id && (
            key != "_id"@ ==> field(d, key) == field(raw->0, key))
            &&& !(format is Raw && plain && raw is Some) ==> d == wrapped_document(
                m,
                format,
                id,
                json,
                now,
            )
        }),
{
    if raw is Some && id is Some {
        law_fields_give_back_values(raw->0, "_id"@, id->0, key);
    }
}

/// A configured identifier is what the field of the payload holds, unless that is
/// nothing, null or an array; then the message cannot be stored, and only then.
pub proof fn law_configured_identifiers(
    m: MessageView,
    format: MongoDbFormat,
    name: Seq<char>,
    now: i64,
)
    ensures
        document_for(m, format, None, now) is Ok,
        stored_under(m, None) == Ok::<BsonView, Seq<char>>(
            BsonView::Binary(4, be_bytes(m.message_id as nat, 16)),
        ),
        match field_in_json(m.payload, name) {
            JsonFieldView::Found(v) => if v is Null || v is Array {
                document_for(m, format, Some(name), now) is Err && stored_under(m, Some(name))
                    is Err
            } else {
                &&& stored_under(m, Some(name)) == Ok::<BsonView, Seq<char>>(v)
                &&& document_for(m, format, Some(name), now) matches Ok(d) && field(d, "_id"@)
                    == Some(v)
            },
            _ => document_for(m, format, Some(name), now) is Err && stored_under(m, Some(name))
                is Err,
        },
{
    if field_in_json(m.payload, name) is Found {
        let v = field_in_json(m.payload, name)->Found_0;
        law_raw_documents(
            m,
            format,
            Some(v),
            document_in_json(m.payload),
            value_in_json(m.payload),
            now,
            name,
        );
        law_stored_fields(m, format, Some(v), value_in_json(m.payload), now);
    }
}

/// Stored bytes and texts read as they are, and every other value as its JSON.
pub proof fn law_payloads_are_read(v: BsonView)
    ensures
        match v {
            BsonView::Binary(_, bytes) => read_payload(v) == Ok::<Seq<u8>, Seq<char>>(bytes),
            BsonView::Text(t) => read_payload(v) == Ok::<Seq<u8>, Seq<char>>(encode_utf8(t)),
            BsonView::Document(_) => read_payload(v) == json_of_value(v),
            BsonView::Array(_) => read_payload(v) == json_of_value(v),
            _ => read_payload(v) == plain_json_of_value(v),
        },
{
}

/// A document that no publisher wrapped is a message of its own: the payload is the whole
/// document as JSON, and the metadata says that it is raw.
pub proof fn law_foreign_documents_are_read_whole(
    d: Fields,
    res: Result<CanonicalMessage, String>,
)
    requires
        reads_document(d, res),
        field(d, "payload"@) is None || !(field(d, "_id"@) matches Some(BsonView::Binary(s, b)) && s
            == 4 && b.len() == 16),
    ensures
        match json_of_value(BsonView::Document(d)) {
            Ok(json) => res matches Ok(m) && m.payload@ == json && lookup(
                m.metadata@,
                "mq_bridge.original_format"@,
            ) == Some("raw"@),
            Err(_) => res is Err,
        },
{
    reveal_with_fuel(slot, 2);
    assert(lookup(raw_metadata(), "mq_bridge.original_format"@) == Some("raw"@));
}

/// A message that was stored, and one that was there already, counts as sent. Where that
/// is reported, it comes back as it was, and says which of the two it is. An insert that
/// failed may be tried again.
pub proof fn law_inserts_are_reported(
    report: bool,
    m: MessageView,
    outcome: InsertOutcome,
    key: Seq<char>,
)
    ensures
        ({
            let existed = outcome matches InsertOutcome::Refused { code, .. } && code == 11000;
            let res = stored_result(report, m, outcome);
            &&& outcome is Done || existed ==> res is Ok
            &&& !(outcome is Done || existed) ==> (res matches Err(e) && e is Retryable)
            &&& res is Ok && !report ==> res->Ok_0 is Ack
            &&& res is Ok && report ==> (res->Ok_0 matches SentView::Response(r) && r.message_id
                == m.message_id && r.payload == m.payload && lookup(
                r.metadata,
                "mongodb.outcome"@,
            ) == Some(
                if outcome is Done {
                    "inserted"@
                } else {
                    "existed"@
                },
            ) && (key != "mongodb.outcome"@ ==> lookup(r.metadata, key) == lookup(
                m.metadata,
                key,
            )))
        }),
{
    law_reads_give_back_writes(m.metadata, "mongodb.outcome"@, "inserted"@);
    law_reads_give_back_writes(m.metadata, "mongodb.outcome"@, "existed"@);
}

/// A request carries its correlation identifier and says where its reply goes: to the
/// collection in which the reply is looked for. Everything else stays as it was.
pub proof fn law_requests_say_where_replies_go(
    p: MongoDbPublisher,
    m: MessageView,
    id: Seq<char>,
    key: Seq<char>,
    timeout: u128,
    sleep: u128,
    elapsed: u128,
    reply: Result<CanonicalMessage, String>,
)
    ensures
        ({
            let r = request_under(p.collection_name@, m, id);
            let waiting = StoreStageView::Pausing { correlation_id: id, timeout, sleep };
            let (_, action) = waiting.next(p, r, StoreEvent::Passed(elapsed), reply);
            &&& r.message_id == m.message_id
            &&& r.payload == m.payload
            &&& lookup(r.metadata, "correlation_id"@) == Some(id)
            &&& lookup(r.metadata, "reply_to"@) == Some(p.collection_name@ + "_replies"@)
            &&& key != "correlation_id"@ && key != "reply_to"@ ==> lookup(r.metadata, key)
                == lookup(m.metadata, key)
            &&& elapsed <= timeout ==> (action matches StoreActionView::Look {
                collection,
                filter,
            } && lookup(r.metadata, "reply_to"@) == Some(collection) && filter == reply_filter(id))
            &&& elapsed > timeout ==> (action matches StoreActionView::Finish(Err(e))
                && e is NonRetryable)
        }),
{
    reveal_strlit("correlation_id");
    reveal_strlit("reply_to");
    assert("correlation_id"@.len() == 14 && "reply_to"@.len() == 8);
    let a = with(m.metadata, "correlation_id"@, id);
    law_reads_give_back_writes(m.metadata, "correlation_id"@, id);
    law_reads_give_back_writes(a, "reply_to"@, p.collection_name@ + "_replies"@);
}

/// The reply to a request is stored with its payload and under the correlation
/// identifier of that request, so that whoever looks for it finds it.
pub proof fn law_stored_replies_are_found(
    other: Judge,
    m: MessageView,
    id: Seq<char>,
    now: i64,
)
    requires
        unique(m.metadata),
    ensures
        selects(other, reply_filter(id), stored_reply(m, Some(id), now)),
        field(stored_reply(m, Some(id), now), "payload"@) == Some(
            BsonView::Binary(0, m.payload),
        ),
        field(stored_reply(m, None, now), "payload"@) == Some(BsonView::Binary(0, m.payload)),
{
    let answered = MessageView { metadata: with(m.metadata, "correlation_id"@, id), ..m };
    let d = stored_reply(m, Some(id), now);
    law_reads_give_back_writes(m.metadata, "correlation_id"@, id);
    law_stored_fields(answered, MongoDbFormat::Normal, None, None, now);
    law_stored_fields(m, MongoDbFormat::Normal, None, None, now);
    law_stored_metadata(answered, MongoDbFormat::Normal, None, "correlation_id"@);
    reveal_strlit("correlation_id");
    reveal_strlit("mqb.src.");
    assert(!starts_with("correlation_id"@, "mqb.src."@)) by {
        assert("correlation_id"@.take(8)[0] == 'c');
    }
    law_replies_are_found_by_their_correlation(other, id, d);
}

/// A request that is repeated takes the correlation identifier and the address of the
/// first one over where that has them, and keeps its own else.
pub proof fn law_repeated_requests_take_over(metadata: Pairs, earlier: Pairs, key: Seq<char>)
    ensures
        lookup(recovered(metadata, earlier), "correlation_id"@) == (match lookup(
            earlier,
            "correlation_id"@,
        ) {
            Some(c) => Some(c),
            None => lookup(metadata, "correlation_id"@),
        }),
        lookup(recovered(metadata, earlier), "reply_to"@) == (match lookup(
            earlier,
            "reply_to"@,
        ) {
            Some(c) => Some(c),
            None => lookup(metadata, "reply_to"@),
        }),
        key != "correlation_id"@ && key != "reply_to"@ ==> lookup(recovered(metadata, earlier), key)
            == lookup(metadata, key),
{
    reveal_strlit("correlation_id");
    reveal_strlit("reply_to");
    assert("correlation_id"@.len() == 14 && "reply_to"@.len() == 8);
    let a = match lookup(earlier, "correlation_id"@) {
        Some(c) => with(metadata, "correlation_id"@, c),
        None => metadata,
    };
    if lookup(earlier, "correlation_id"@) is Some {
        law_reads_give_back_writes(
            metadata,
            "correlation_id"@,
            lookup(earlier, "correlation_id"@)->0,
        );
    }
    if lookup(earlier, "reply_to"@) is Some {
        law_reads_give_back_writes(a, "reply_to"@, lookup(earlier, "reply_to"@)->0);
    }
}

/// A reply that is found is what the request comes to, as it reads. One that does not
/// read is a failure for good. Looks that find nothing are repeated after ever longer
/// sleeps: half as long again, up to half a second.
pub proof fn law_replies_come_back(
    p: MongoDbPublisher,
    m: MessageView,
    id: Seq<char>,
    timeout: u128,
    sleep: u128,
    found: Lookup,
    reply: Result<CanonicalMessage, String>,
)
    ensures
        ({
            let looking = StoreStageView::Looking { correlation_id: id, timeout, sleep };
            let (next, action) = looking.next(p, m, StoreEvent::Found(found), reply);
            match found {
                Lookup::Found(_) => action matches StoreActionView::Finish(outcome) && match reply {
                    Ok(r) => outcome == Ok::<SentView, FailureView>(SentView::Response(r@)),
                    Err(_) => outcome matches Err(e) && e is NonRetryable,
                },
                Lookup::NotFound => action == StoreActionView::Pause(sleep) && (
                next matches StoreStageView::Pausing { correlation_id, timeout: t, sleep: s }
                    && correlation_id == id && t == timeout && s == longer_sleep(sleep)),
                Lookup::Failed(_) => action == StoreActionView::Pause(sleep) && next
                    == (StoreStageView::Pausing { correlation_id: id, timeout, sleep }),
            }
        }),
        sleep <= 333_333_333 ==> 2 * longer_sleep(sleep) <= 3 * sleep <= 2 * longer_sleep(sleep)
            + 1,
        sleep > 333_333_333 ==> longer_sleep(sleep) == 500_000_000,
{
}

/// A message is published by inserting its document. A request then waits for its reply,
/// under its correlation identifier and for as long as configured. Another message first
/// gets the number that the sequencer gave, but not in the raw format.
pub proof fn law_publishing_goes_step_by_step(
    p: MongoDbPublisher,
    m: MessageView,
    id: Seq<char>,
    now: i64,
    d: Fields,
    n: i64,
    counter: CounterOutcome,
    reply: Result<CanonicalMessage, String>,
)
    requires
        document_for(m, p.format, opt(p.id_field), now) == Ok::<Fields, Seq<char>>(d),
    ensures
        p.request_reply ==> StoreStageView::first(p, m, id, now).1 == StoreActionView::Insert(d),
        !p.request_reply && p.format is Raw ==> StoreStageView::first(p, m, id, now).1
            == StoreActionView::Insert(d),
        !p.request_reply && !(p.format is Raw) ==> StoreStageView::first(p, m, id, now).1
            is Reserve,
        ({
            let (next, action) = StoreStageView::Requesting { correlation_id: id }.next(
                p,
                m,
                StoreEvent::Inserted(InsertOutcome::Done),
                reply,
            );
            &&& action == StoreActionView::Pause(0)
            &&& next matches StoreStageView::Pausing { correlation_id, timeout, sleep }
            &&& correlation_id == id
            &&& timeout == p.request_timeout_ms * 1_000_000
            &&& sleep == p.reply_polling_ms * 1_000_000
        }),
        (counter matches CounterOutcome::Document(c) && field(c@, "seq_counter"@) == Some(
            BsonView::Int64(n),
        )) ==> {
            let (_, action) = StoreStageView::Numbering(d).next(
                p,
                m,
                StoreEvent::Counter(counter),
                reply,
            );
            action matches StoreActionView::Insert(numbered) && field(numbered, "seq"@) == Some(
                BsonView::Int64(n),
            ) && forall|key: Seq<char>|
                key != "seq"@ ==> #[trigger] field(numbered, key) == field(d, key)
        },
        counter is Failed || counter is NotReturned ==> (StoreStageView::Numbering(d).next(
            p,
            m,
            StoreEvent::Counter(counter),
            reply,
        ).1 matches StoreActionView::Finish(Err(e)) && e is Retryable),
{
    assert forall|key: Seq<char>| key != "seq"@ implies #[trigger] field(
        with_field(d, "seq"@, BsonView::Int64(n)),
        key,
    ) == field(d, key) by {
        law_fields_give_back_values(d, "seq"@, BsonView::Int64(n), key);
    }
    law_fields_give_back_values(d, "seq"@, BsonView::Int64(n), "seq"@);
    assert(p.request_timeout_ms * 1_000_000 <= u128::MAX);
    assert(p.reply_polling_ms * 1_000_000 <= u128::MAX);
}

/// The messages of a batch that can be stored are stored, and the others fail for good,
/// each for its reason; both keep their order.
pub proof fn law_batches_are_sorted_out(
    a: Seq<MessageView>,
    b: Seq<MessageView>,
    m: MessageView,
    format: MongoDbFormat,
    id_field: Option<Seq<char>>,
    now: i64,
)
    ensures
        storable(a + b, format, id_field, now) == storable(a, format, id_field, now) + storable(
            b,
            format,
            id_field,
            now,
        ),
        unstorable(a + b, format, id_field, now) == unstorable(a, format, id_field, now)
            + unstorable(b, format, id_field, now),
        match document_for(m, format, id_field, now) {
            Ok(_) => storable(seq![m], format, id_field, now) == seq![m] && unstorable(
                seq![m],
                format,
                id_field,
                now,
            ).len() == 0,
            Err(why) => storable(seq![m], format, id_field, now).len() == 0 && unstorable(
                seq![m],
                format,
                id_field,
                now,
            ) == seq![(m, FailureView::NonRetryable(why))],
        },
    decreases b.len(),
{
    reveal_with_fuel(storable, 2);
    reveal_with_fuel(unstorable, 2);
    assert(seq![m].drop_last() =~= seq![]);
    assert(seq![m].last() == m);
    match document_for(m, format, id_field, now) {
        Ok(_) => {
            assert(storable(seq![m], format, id_field, now) =~= seq![m]);
        },
        Err(why) => {
            assert(unstorable(seq![m], format, id_field, now) =~= seq![
                (m, FailureView::NonRetryable(why)),
            ]);
        },
    }
    if b.len() == 0 {
        assert(a + b =~= a);
        assert(storable(a, format, id_field, now) + storable(b, format, id_field, now)
            =~= storable(a, format, id_field, now));
        assert(unstorable(a, format, id_field, now) + unstorable(b, format, id_field, now)
            =~= unstorable(a, format, id_field, now));
    } else {
        law_batches_are_sorted_out(a, b.drop_last(), m, format, id_field, now);
        assert((a + b).drop_last() =~= a + b.drop_last());
        assert((a + b).last() == b.last());
        assert(storable(a + b, format, id_field, now) =~= storable(a, format, id_field, now)
            + storable(b, format, id_field, now));
        assert(unstorable(a + b, format, id_field, now) =~= unstorable(a, format, id_field, now)
            + unstorable(b, format, id_field, now));
    }
}

proof fn lemma_error_at(errors: Seq<WriteError>, index: int, n: int)
    requires
        0 <= n <= errors.len(),
    ensures
        -1 <= error_at(errors, index, n) < n || n == 0,
        error_at(errors, index, n) >= 0 ==> errors[error_at(errors, index, n)].index == index,
        error_at(errors, index, n) < 0 ==> forall|k: int|
            0 <= k < n ==> (#[trigger] errors[k]).index != index,
    decreases n,
{
    if n > 0 && errors[n - 1].index != index {
        lemma_error_at(errors, index, n - 1);
    }
}

proof fn lemma_stop(errors: Seq<WriteError>, len: int, i: int)
    requires
        0 <= i <= len,
    ensures
        i <= stops_at(errors, len, i) <= len,
        stops_at(errors, len, i) < len ==> error_for(errors, stops_at(errors, len, i)) is Some,
        forall|k: int| i <= k < stops_at(errors, len, i) ==> #[trigger] error_for(errors, k) is None,
    decreases len - i,
{
    if i < len && error_for(errors, i) is None {
        lemma_stop(errors, len, i + 1);
    }
}

proof fn lemma_failures(messages: Seq<MessageView>, errors: Seq<WriteError>, stop: int, n: int, i: int)
    requires
        0 <= i < n,
    ensures
        insert_failure(errors, stop, i) matches Some(why) ==> insert_failures(
            messages,
            errors,
            stop,
            n,
        ).contains((messages[i], why)),
    decreases n,
{
    let rest = insert_failures(messages, errors, stop, n - 1);
    let out = insert_failures(messages, errors, stop, n);
    if insert_failure(errors, stop, i) is Some {
        let f = (messages[i], insert_failure(errors, stop, i)->0);
        if i < n - 1 {
            lemma_failures(messages, errors, stop, n - 1, i);
            let w = choose|w: int| 0 <= w < rest.len() && rest[w] == f;
            assert(out[w] == f);
        } else {
            assert(out[rest.len() as int] == f);
        }
    }
}

/// What was refused before a batch was inserted stays refused, and what the insert
/// refused may be tried again: the message at the first error, unless it was there
/// already, and every message behind it. An insert that failed altogether fails the
/// batch.
pub proof fn law_batch_inserts_are_told(
    valid: Seq<MessageView>,
    failed: Seq<(MessageView, FailureView)>,
    outcome: InsertManyOutcome,
    k: int,
    i: int,
)
    ensures
        match insert_result(valid, failed, outcome) {
            Ok(BatchView::Ack) => outcome is Done && failed.len() == 0,
            Ok(BatchView::Partial { responses, failed: f }) => {
                &&& responses is None
                &&& 0 <= k < failed.len() ==> f.contains(failed[k])
                &&& outcome is Done ==> f == failed
                &&& outcome matches InsertManyOutcome::Refused { errors, write_concern } ==> {
                    &&& write_concern && 0 <= i < valid.len() ==> f.contains(
                        (valid[i], FailureView::Retryable("MongoDB write concern error"@)),
                    )
                    &&& !write_concern && 0 <= i < valid.len() && 0 <= k < errors@.len()
                        && errors@[k].index < i ==> f.contains(
                        (
                            valid[i],
                            FailureView::Retryable(
                                "Message not inserted (skipped due to previous error)"@,
                            ),
                        ),
                    )
                    &&& !write_concern && errors@.len() == 1 && errors@[0].index == i && 0 <= i
                        < valid.len() && errors@[0].code != 11000 ==> f.contains(
                        (
                            valid[i],
                            FailureView::Retryable("MongoDB write error: "@ + errors@[0].text@),
                        ),
                    )
                    &&& !write_concern && errors@.len() == 0 ==> f == failed
                }
            },
            Err(e) => outcome matches InsertManyOutcome::Failed(why) && e
                == FailureView::Retryable(why@),
        },
{
    if outcome is Refused {
        let errors = outcome->errors@;
        let res = insert_result(valid, failed, outcome)->Ok_0->failed;
        if 0 <= k < failed.len() {
            assert(res[k] == failed[k]);
        }
        if outcome->write_concern {
            if 0 <= i < valid.len() {
                assert(res[failed.len() + i] == (
                    valid[i],
                    FailureView::Retryable("MongoDB write concern error"@),
                ));
            }
        } else {
            let n = valid.len() as int;
            let stop = stops_at(errors, n, 0);
            let more = insert_failures(valid, errors, stop, n);
            lemma_stop(errors, n, 0);
            if 0 <= i < n {
                lemma_failures(valid, errors, stop, n, i);
                if 0 <= k < errors.len() && errors[k].index < i {
                    lemma_error_at(errors, errors[k].index as int, errors.len() as int);
                    assert(error_for(errors, errors[k].index as int) is Some);
                    assert(stop <= errors[k].index);
                }
                if errors.len() == 1 && errors[0].index == i {
                    assert forall|j: int| 0 <= j < i implies #[trigger] error_for(errors, j)
                        is None by {
                        lemma_error_at(errors, j, 1);
                    }
                    lemma_error_at(errors, i, 1);
                    if stop < i {
                        assert(error_for(errors, stop) is Some);
                    }
                    assert(error_for(errors, i) == Some(errors[0]));
                    assert(stop == i);
                }
                if insert_failure(errors, stop, i) is Some {
                    let f = (valid[i], insert_failure(errors, stop, i)->0);
                    let w = choose|w: int| 0 <= w < more.len() && more[w] == f;
                    assert(res[failed.len() + w] == f);
                }
            }
            if errors.len() == 0 {
                lemma_no_errors(valid, errors, stop, n);
                assert(res =~= failed);
            }
        }
    } else if outcome is Done && 0 <= k < failed.len() {
        assert(failed.contains(failed[k]));
    }
}

proof fn lemma_no_errors(valid: Seq<MessageView>, errors: Seq<WriteError>, stop: int, n: int)
    requires
        errors.len() == 0,
        n <= stop,
    ensures
        insert_failures(valid, errors, stop, n).len() == 0,
    decreases n,
{
    if n > 0 {
        lemma_no_errors(valid, errors, stop, n - 1);
    }
}

/// Of a batch of claimed messages those that are done are deleted, and the others given
/// free again.
pub proof fn law_done_messages_are_deleted(
    ids: Seq<BsonView>,
    outcomes: Seq<ClaimOutcome>,
    n: int,
    i: int,
    x: BsonView,
)
    requires
        0 <= i < n,
    ensures
        outcomes[i] is Done ==> done_ids(ids, outcomes, n).contains(ids[i]),
        !(outcomes[i] is Done) ==> undone_ids(ids, outcomes, n).contains(ids[i]),
        done_ids(ids, outcomes, n).contains(x) ==> exists|j: int|
            0 <= j < n && outcomes[j] is Done && #[trigger] ids[j] == x,
        undone_ids(ids, outcomes, n).contains(x) ==> exists|j: int|
            0 <= j < n && !(outcomes[j] is Done) && #[trigger] ids[j] == x,
        outcomes[i] matches ClaimOutcome::ReplyFailed(e) ==> reply_errors(outcomes, n).contains(
            e@,
        ),
    decreases n,
{
    lemma_settled(ids, outcomes, n, x);
    let done = done_ids(ids, outcomes, n);
    let undone = undone_ids(ids, outcomes, n);
    let errors = reply_errors(outcomes, n);
    let done1 = done_ids(ids, outcomes, n - 1);
    let undone1 = undone_ids(ids, outcomes, n - 1);
    let errors1 = reply_errors(outcomes, n - 1);
    if i < n - 1 {
        law_done_messages_are_deleted(ids, outcomes, n - 1, i, x);
        if outcomes[i] is Done {
            let w = choose|w: int| 0 <= w < done1.len() && done1[w] == ids[i];
            assert(done[w] == ids[i]);
        } else {
            let w = choose|w: int| 0 <= w < undone1.len() && undone1[w] == ids[i];
            assert(undone[w] == ids[i]);
        }
        if outcomes[i] is ReplyFailed {
            let e = outcomes[i]->ReplyFailed_0@;
            let w = choose|w: int| 0 <= w < errors1.len() && errors1[w] == e;
            assert(errors[w] == e);
        }
    } else {
        if outcomes[i] is Done {
            assert(done[done1.len() as int] == ids[i]);
        } else {
            assert(undone[undone1.len() as int] == ids[i]);
        }
        if outcomes[i] is ReplyFailed {
            assert(errors[errors1.len() as int] == outcomes[i]->ReplyFailed_0@);
        }
    }
}

proof fn lemma_settled(ids: Seq<BsonView>, outcomes: Seq<ClaimOutcome>, n: int, x: BsonView)
    ensures
        done_ids(ids, outcomes, n).contains(x) ==> exists|j: int|
            0 <= j < n && outcomes[j] is Done && #[trigger] ids[j] == x,
        undone_ids(ids, outcomes, n).contains(x) ==> exists|j: int|
            0 <= j < n && !(outcomes[j] is Done) && #[trigger] ids[j] == x,
    decreases n,
{
    if n > 0 {
        let done = done_ids(ids, outcomes, n);
        let undone = undone_ids(ids, outcomes, n);
        let done1 = done_ids(ids, outcomes, n - 1);
        let undone1 = undone_ids(ids, outcomes, n - 1);
        lemma_settled(ids, outcomes, n - 1, x);
        if done.contains(x) {
            let w = choose|w: int| 0 <= w < done.len() && done[w] == x;
            if w < done1.len() {
                assert(done1[w] == x);
            } else {
                assert(ids[n - 1] == x);
            }
        }
        if undone.contains(x) {
            let w = choose|w: int| 0 <= w < undone.len() && undone[w] == x;
            if w < undone1.len() {
                assert(undone1[w] == x);
            } else {
                assert(ids[n - 1] == x);
            }
        }
    }
}

/// A commit that unlocked deletes what there is to delete, and ends without an error
/// exactly if every reply was stored.
pub proof fn law_commits_delete_and_report(plan: CommitPlan)
    ensures
        plan.delete@.len() > 0 ==> plan.then_delete() is Delete,
        plan.delete@.len() == 0 ==> plan.then_delete() == plan.rest(),
        plan.rest() matches CommitStepView::Finished(e) && (e is None <==> plan.errors@.len() == 0),
{
    assert(texts(plan.errors@).len() == plan.errors@.len());
}

/// The accepted messages of a batch are those before the first that was refused or that
/// nothing is known of. The number that is kept is that of the last of them.
pub proof fn law_accepted_events_are_kept(seqs: Seq<i64>, d: Seq<DispositionView>, k: int)
    requires
        0 <= k <= seqs.len(),
        k <= d.len(),
        forall|i: int| 0 <= i < k ==> !(#[trigger] d[i] is Nack),
        k < seqs.len() && k < d.len() ==> d[k] is Nack,
    ensures
        k == seqs.len() || k == d.len() || d[k] is Nack ==> accepted(d, seqs.len() as int) == k,
        k > 0 ==> highest_accepted(seqs, k) == seqs[k - 1],
        highest_accepted(seqs, 0) == 0,
{
    lemma_count(d, seqs.len() as int, k);
}

proof fn lemma_count(d: Seq<DispositionView>, n: int, k: int)
    requires
        0 <= k <= n,
        k <= d.len(),
        forall|i: int| 0 <= i < k ==> !(#[trigger] d[i] is Nack),
        k == n || k == d.len() || d[k] is Nack,
    ensures
        accepted(d, n) == k,
    decreases k,
{
    if k > 0 {
        assert(!(d[0] is Nack));
        let tail = d.skip(1);
        assert forall|i: int| 0 <= i < k - 1 implies !(#[trigger] tail[i] is Nack) by {
            assert(!(d[i + 1] is Nack));
        }
        lemma_count(tail, n - 1, k - 1);
    }
}

/// A commit keeps the position of the last accepted change whenever there is a
/// checkpoint, nothing is missing and the position has a text. A stream that is idle
/// keeps its position whenever that moved, nothing is out and nothing is missing.
pub proof fn law_positions_are_kept(
    tokens: Seq<Fields>,
    d: Seq<DispositionView>,
    last_saved: Option<Seq<char>>,
    token: Fields,
    text: Seq<char>,
)
    ensures
        ({
            let k = accepted(d, tokens.len() as int);
            k > 0 && canonical_json(tokens[k - 1]) == Ok::<Seq<char>, Seq<char>>(text)
                ==> commit_save(true, true, tokens, d) == Some(text)
        }),
        commit_save(false, true, tokens, d) is None,
        canonical_json(token) == Ok::<Seq<char>, Seq<char>>(text) && last_saved != Some(text)
            ==> idle_save(true, true, 0, last_saved, Some(token)) == Some(text),
        canonical_json(token) == Ok::<Seq<char>, Seq<char>>(text) && last_saved == Some(text)
            ==> idle_save(true, true, 0, last_saved, Some(token)) is None,
        idle_save(false, true, 0, last_saved, Some(token)) is None,
        idle_save(true, true, 0, last_saved, None) is None,
        clean_after(true, tokens.len() as int, d) <==> accepted(d, tokens.len() as int)
            >= tokens.len(),
{
}

/// A change becomes a message with the changed document as JSON, or the key of a deleted
/// one. What changes no document, and the document that counts, becomes none.
pub proof fn law_changes_become_messages(event: ChangeEvent)
    ensures
        ({
            let changed = event.operation is Insert || event.operation is Update
                || event.operation is Replace;
            &&& event.operation is Other ==> event_payload(event) is None
            &&& changed ==> match event.full_document {
                Some(d) => if field(d@, "seq_counter"@) is Some {
                    event_payload(event) is None
                } else {
                    match json_of_value(BsonView::Document(d@)) {
                        Ok(p) => event_payload(event) == Some(p),
                        Err(_) => event_payload(event) is None,
                    }
                },
                None => event_payload(event) is None,
            }
            &&& event.operation is Delete ==> (event.document_key matches Some(k) ==> match (
            json_of_value(BsonView::Document(k@))) {
                Ok(p) => event_payload(event) == Some(p),
                Err(_) => event_payload(event) is None,
            })
        }),
{
}

/// The message of a change names the operation and the identifier of the document, and
/// that of a snapshot says so too.
pub proof fn law_changes_name_their_document(event: ChangeEvent, id: BsonView, text: Seq<char>)
    requires
        encoded_id(id) == Some(text),
    ensures
        lookup(event_metadata(event), "mongodb.operation"@) == Some(
            match event.operation {
                OperationType::Insert => "insert"@,
                OperationType::Update => "update"@,
                OperationType::Replace => "replace"@,
                OperationType::Delete => "delete"@,
                OperationType::Other => "other"@,
            },
        ),
        (event.document_key matches Some(k) && field(k@, "_id"@) == Some(id)) ==> lookup(
            event_metadata(event),
            "mongodb.document_id"@,
        ) == Some(text),
        lookup(snapshot_metadata(id), "mongodb.operation"@) == Some("insert"@),
        lookup(snapshot_metadata(id), "mongodb.snapshot"@) == Some("true"@),
        lookup(snapshot_metadata(id), "mongodb.document_id"@) == Some(text),
{
    reveal_strlit("mongodb.operation");
    reveal_strlit("mongodb.snapshot");
    reveal_strlit("mongodb.document_id");
    assert("mongodb.operation"@.len() == 17);
    assert("mongodb.snapshot"@.len() == 16);
    assert("mongodb.document_id"@.len() == 19);
    let none = Pairs::empty();
    let name = operation_name(event.operation);
    law_reads_give_back_writes(none, "mongodb.operation"@, name);
    let a = with(none, "mongodb.operation"@, name);
    let found = event_id(event);
    if found is Some && encoded_id(found->0) is Some {
        law_reads_give_back_writes(a, "mongodb.document_id"@, encoded_id(found->0)->0);
    }
    law_reads_give_back_writes(none, "mongodb.operation"@, "insert"@);
    let b = with(none, "mongodb.operation"@, "insert"@);
    law_reads_give_back_writes(b, "mongodb.snapshot"@, "true"@);
    let c = with(b, "mongodb.snapshot"@, "true"@);
    law_reads_give_back_writes(c, "mongodb.document_id"@, text);
}

/// A change stream with an extra query has one stage that matches its events, and one
/// without has none.
pub proof fn law_change_streams_are_narrowed(q: Fields)
    ensures
        pipeline_of(None).len() == 0,
        pipeline_of(Some(q)).len() == 1,
        pipeline_of(Some(q))[0].len() == 1,
        pipeline_of(Some(q))[0][0] == ("$match"@, BsonView::Document(on_events(q))),
{
}

/// Identifiers of the usual kinds have a text, behind a tag that says of which kind they
/// are.
pub proof fn law_identifiers_have_texts(v: BsonView)
    ensures
        v is ObjectId || v is Int64 || v is Int32 || v is Text ==> encoded_id(v) is Some,
        (v matches BsonView::Binary(s, b) && s == 4 && b.len() == 16) ==> encoded_id(v) is Some,
        v matches BsonView::Text(t) ==> encoded_id(v) == Some("str:"@ + t),
        v matches BsonView::Text(t) ==> tagged_id("str"@, t, None) == Some(v),
        v matches BsonView::Int64(n) ==> encoded_id(v) == Some("int:"@ + signed_decimal(n as int)),
        v matches BsonView::Int32(n) ==> encoded_id(v) == Some("int:"@ + signed_decimal(n as int)),
        v matches BsonView::ObjectId(b) ==> encoded_id(v) == Some(
            "oid:"@ + hex_digits(be_value(b), 24),
        ),
        (v matches BsonView::Binary(s, b) && s == 4 && b.len() == 16) ==> encoded_id(v) == Some(
            "uuid:"@ + uuid_text(be_value(v->Binary_1) as u128),
        ),
{
    reveal_strlit("str");
    reveal_strlit("oid");
    reveal_strlit("uuid");
    reveal_strlit("int");
    assert("str"@[0] == 's' && "oid"@[0] == 'o' && "int"@[0] == 'i');
    assert("uuid"@.len() == 4 && "str"@.len() == 3);
}

/// A subscriber with a cursor goes on from the number that the cursor holds, and one
/// without from the number that the sequencer has given. Without either it begins at the
/// beginning.
pub proof fn law_where_subscribers_start(d: Fields, other: Option<Fields>, n: i64)
    ensures
        field(d, "last_seq"@) == Some(BsonView::Int64(n)) ==> start_seq(true, Some(d), other) == n,
        field(d, "seq_counter"@) == Some(BsonView::Int64(n)) ==> start_seq(false, other, Some(d))
            == n,
        start_seq(true, None, other) == 0,
        start_seq(false, other, None) == 0,
{
}

/// A reader needs a collection and an extra query that reads, if any. A subscriber also
/// needs messages with numbers, which the raw format does not have.
pub proof fn law_what_readers_need(config: MongoDbConfig, missing: Seq<char>, unnumbered: bool)
    ensures
        config.collection is None ==> reader_refusal(config, missing) == Some(missing),
        config.collection is Some && config.receive_query is None ==> reader_refusal(
            config,
            missing,
        ) is None,
        config.format is Raw || unnumbered || config.collection is None ==> subscriber_refusal(
            config,
            unnumbered,
        ) is Some,
        !(config.format is Raw) && !unnumbered && config.collection is Some
            && config.receive_query is None ==> subscriber_refusal(config, unnumbered) is None,
        config.polling_interval_ms is None ==> polling_ms(config) == 100,
        config.polling_interval_ms matches Some(ms) ==> polling_ms(config) == ms,
{
}

/// What can be claimed are the documents whose identifiers are UUIDs.
pub proof fn law_what_can_be_claimed(docs: Seq<Fields>, i: int, x: BsonView)
    ensures
        0 <= i < docs.len() && (field(docs[i], "_id"@) matches Some(BsonView::Binary(s, b)) && s
            == 4 && b.len() == 16) ==> claimable(docs).contains(field(docs[i], "_id"@)->0),
        claimable(docs).contains(x) ==> (x matches BsonView::Binary(s, b) && s == 4 && b.len()
            == 16) && exists|j: int|
            0 <= j < docs.len() && field(#[trigger] docs[j], "_id"@) == Some(x),
    decreases docs.len(),
{
    if docs.len() > 0 {
        let front = docs.drop_last();
        let n = docs.len() - 1;
        let before = claimable(front);
        let out = claimable(docs);
        law_what_can_be_claimed(front, i, x);
        if 0 <= i < docs.len() && (field(docs[i], "_id"@) matches Some(BsonView::Binary(s, b)) && s
            == 4 && b.len() == 16) {
            let v = field(docs[i], "_id"@)->0;
            if i < n {
                assert(front[i] == docs[i]);
                let w = choose|w: int| 0 <= w < before.len() && before[w] == v;
                assert(out[w] == v);
            } else {
                assert(out[before.len() as int] == v);
            }
        }
        if out.contains(x) {
            let w = choose|w: int| 0 <= w < out.len() && out[w] == x;
            if w < before.len() {
                assert(before[w] == x);
                let j = choose|j: int|
                    0 <= j < front.len() && field(#[trigger] front[j], "_id"@) == Some(x);
                assert(docs[j] == front[j]);
            } else {
                assert(field(docs[n], "_id"@) == Some(x));
            }
        }
    }
}

/// The claimed documents of a batch are its messages, each with the identifier to commit
/// it by and with where its reply goes.
pub proof fn law_claims_become_messages(b: ClaimedBatch, docs: Seq<Fields>, n: int, i: int)
    requires
        holds_claims(b, docs, n),
        0 <= i < n,
    ensures
        b.messages@.len() == n,
        b.ids@.len() == n,
        field(docs[i], "_id"@) == Some(b.ids@[i]@),
        reads_document(docs[i], Ok::<CanonicalMessage, String>(b.messages@[i])),
        opt(b.replies@[i].reply_to) == lookup(b.messages@[i].metadata@, "reply_to"@),
        opt(b.replies@[i].correlation_id) == lookup(b.messages@[i].metadata@, "correlation_id"@),
{
    assert(b.ids@[i]@ == b.ids@[i]@);
}

/// A document without an identifier cannot be claimed, and neither can one that does not
/// read: the error says why not.
pub proof fn law_what_cannot_be_claimed(d: Fields, why: Seq<char>)
    requires
        claim_error(d, why),
    ensures
        field(d, "_id"@) is None ==> why == "Document missing _id"@,
        field(d, "_id"@) is Some ==> exists|e: String| #[trigger]
            reads_document(d, Err::<CanonicalMessage, String>(e)) && e@ == why,
{
}

/// A request goes under its own correlation identifier where it has one.
pub proof fn law_requests_keep_their_correlation(m: MessageView, id: Seq<char>)
    requires
        goes_under(m, id),
    ensures
        lookup(m.metadata, "correlation_id"@) matches Some(own) ==> own == id,
        lookup(m.metadata, "correlation_id"@) is None ==> exists|x: u128| #[trigger]
            is_v7(x) && id == uuid_text(x),
{
}

/// The documents of a batch are those of its messages, one for one and in order. A batch
/// without documents is acknowledged if nothing of it failed, and else names what did.
pub proof fn law_documents_of_a_batch(
    p: MongoDbPublisher,
    valid: Seq<MessageView>,
    now: i64,
    docs: Seq<Fields>,
    failed: Seq<(MessageView, FailureView)>,
    i: int,
)
    ensures
        documents_of(p, valid, now, docs) && 0 <= i < valid.len() ==> docs.len() == valid.len()
            && document_for(valid[i], p.format, opt(p.id_field), now) == Ok::<Fields, Seq<char>>(
            docs[i],
        ),
        failed.len() == 0 ==> nothing_stored(failed) is Ack,
        failed.len() > 0 ==> (nothing_stored(failed) matches BatchView::Partial {
            responses,
            failed: f,
        } && responses is None && f == failed),
{
    if documents_of(p, valid, now, docs) && 0 <= i < valid.len() {
        assert(docs[i] == docs[i]);
    }
}

/// A collection of a fixed size has the capacity that its statistics give, and any other
/// has none. Statistics that failed are reported unless something worse is.
pub proof fn law_capacities(stats: Fields, error: Option<Seq<char>>, why: Seq<char>, n: i64)
    ensures
        field(stats, "capped"@) == Some(BsonView::Boolean(true)) && field(stats, "max"@) == Some(
            BsonView::Int64(n),
        ) ==> capped_capacity(stats) == Some(n as usize),
        field(stats, "capped"@) != Some(BsonView::Boolean(true)) ==> capped_capacity(stats)
            is None,
        collection_report(true, Ok::<Fields, Seq<char>>(stats), error) == (
            capped_capacity(stats),
            field(stats, "capped"@) == Some(BsonView::Boolean(true)),
            error,
        ),
        collection_report(true, Err::<Fields, Seq<char>>(why), None) == (
            None::<usize>,
            false,
            Some("Failed to get collStats: "@ + why),
        ),
        error is Some ==> collection_report(true, Err::<Fields, Seq<char>>(why), error).2 == error,
        collection_report(false, Ok::<Fields, Seq<char>>(stats), error) == (
            None::<usize>,
            false,
            error,
        ),
{
}

/// An extra query is the document that its text reads as. A text that reads as none is
/// refused.
pub proof fn law_extra_queries(text: Seq<char>)
    ensures
        receive_query_of(None) == Ok::<Option<Fields>, Seq<char>>(None),
        match document_in_json(encode_utf8(text)) {
            Some(d) => receive_query_of(Some(text)) == Ok::<Option<Fields>, Seq<char>>(Some(d)),
            None => receive_query_of(Some(text)) is Err,
        },
{
}

/// A repeated request goes on with what its first document says of it. It fails for good
/// if that does not read, and may be tried again if it is not there or not to be had.
pub proof fn law_repeated_requests_go_on(m: MessageView, d: Document, why: String)
    ensures
        match document_metadata(d@) {
            Ok(earlier) => recovery(m, Lookup::Found(d)) matches Ok(r) && r.payload == m.payload
                && r.message_id == m.message_id && r.metadata == recovered(m.metadata, earlier),
            Err(_) => recovery(m, Lookup::Found(d)) matches Err(e) && e is NonRetryable,
        },
        recovery(m, Lookup::NotFound) matches Err(e) && e is Retryable,
        recovery(m, Lookup::Failed(why)) matches Err(e) && e is Retryable,
{
}

/// The errors of a commit are listed one after the other, with commas in between.
pub proof fn law_errors_are_listed(errors: Seq<Seq<char>>, last: Seq<char>)
    ensures
        listed_texts(seq![last]) == last,
        errors.len() > 0 ==> listed_texts(errors.push(last)) == listed_texts(errors) + ", "@ + last,
{
    assert(errors.push(last).drop_last() =~= errors);
}

/// A lock that was answered counts as tried, and the document of the answer comes behind
/// those that were claimed before. No lock is left once all were tried.
pub proof fn law_locks_are_counted(claim: ClaimingView, d: Fields)
    ensures
        claim.answered(Some(d)).claimed == claim.claimed.push(d),
        claim.answered(None).claimed == claim.claimed,
        claim.answered(Some(d)).tried == claim.tried + 1,
        claim.answered(None).tried == claim.tried + 1,
        claim.answered(Some(d)).ids == claim.ids && claim.answered(None).ids == claim.ids,
        claim.answered(Some(d)).base == claim.base && claim.answered(None).base == claim.base,
        claim.tried >= claim.ids.len() <==> claim.next_lock() is None,
{
}

/// A batch is planned by storing what can be stored and failing the rest: every message
/// is on one side.
pub proof fn law_plans_cover_the_batch(
    p: MongoDbPublisher,
    messages: Seq<MessageView>,
    now: i64,
    plan: InsertPlan,
    i: int,
)
    requires
        plans(p, messages, now, plan),
        0 <= i < messages.len(),
    ensures
        match document_for(messages[i], p.format, opt(p.id_field), now) {
            Ok(_) => message_views(plan.valid@).contains(messages[i]),
            Err(why) => failed_views(plan.failed@).contains(
                (messages[i], FailureView::NonRetryable(why)),
            ),
        },
{
    let m = messages[i];
    let a = messages.take(i);
    let b = messages.skip(i + 1);
    let f = p.format;
    let id = opt(p.id_field);
    assert(messages =~= a + seq![m] + b);
    law_batches_are_sorted_out(a + seq![m], b, m, f, id, now);
    law_batches_are_sorted_out(a, seq![m], m, f, id, now);
    match document_for(m, f, id, now) {
        Ok(_) => {
            let k = storable(a, f, id, now).len() as int;
            assert(storable(messages, f, id, now)[k] == m);
        },
        Err(why) => {
            let k = unstorable(a, f, id, now).len() as int;
            assert(unstorable(messages, f, id, now)[k] == (m, FailureView::NonRetryable(why)));
        },
    }
}

/// A counter gives its number. Whatever else comes of it may pass.
pub proof fn law_counters(d: Document, n: i64, c: CounterOutcome)
    ensures
        field(d@, "seq_counter"@) == Some(BsonView::Int64(n)) ==> counted(
            CounterOutcome::Document(d),
        ) == Ok::<i64, FailureView>(n),
        counted(c) matches Err(e) ==> e is Retryable,
        counted(c) is Ok ==> c is Document,
{
}

/// Where a write concern was not met, every message of the insert may be tried again.
pub proof fn law_unmet_write_concerns(messages: Seq<MessageView>, i: int)
    requires
        0 <= i < messages.len(),
    ensures
        concern_failures(messages).len() == messages.len(),
        concern_failures(messages)[i].0 == messages[i],
        concern_failures(messages)[i].1 is Retryable,
{
}

/// Until its time is over, a request looks for its reply beside its own collection, by
/// its correlation identifier. Later it fails for good.
pub proof fn law_where_replies_are_looked_for(
    p: MongoDbPublisher,
    m: MessageView,
    id: Seq<char>,
    timeout: u128,
    sleep: u128,
    elapsed: u128,
    reply: Result<CanonicalMessage, String>,
)
    ensures
        ({
            let pausing = StoreStageView::Pausing { correlation_id: id, timeout, sleep };
            let (next, action) = pausing.next(p, m, StoreEvent::Passed(elapsed), reply);
            if elapsed <= timeout {
                &&& action matches StoreActionView::Look { collection, filter } && collection
                    == p.collection_name@ + "_replies"@ && filter == reply_filter(id)
                &&& next == (StoreStageView::Looking { correlation_id: id, timeout, sleep })
            } else {
                action matches StoreActionView::Finish(outcome) && outcome matches Err(e)
                    && e is NonRetryable
            }
        }),
{
}

} // verus!
