//! What the queries of readers and consumers find, and what updates leave behind.

use vstd::prelude::*;

use crate::mongo::bson::{field, law_fields_give_back_values, with_field, BsonView, Fields};
use crate::mongo::commit::{cursor_change, cursor_filter};
use crate::mongo::cursor::{checkpoint_change, checkpoint_query, checkpoint_value};
use crate::mongo::filters::{
    absent, available_filter, both, claim_filter_of, events_filter_of, is_operator, lock_update_of,
    locked_from, on_events, one, operand_on_events, page_filter_of, snapshot_filter_of, unlocking,
};
use crate::mongo::publisher::{sequencer_change, sequencer_filter};
use crate::mongo::query::{
    all_set, changed, equal, is_operation, is_read, less, meets_field, meets_query, precedes,
    satisfies, selects, updated, value_at, Judge,
};
use crate::mongo::readers::{start_seq, ClaimingView};
use crate::mongo::sending::reply_filter;
use crate::text::{find_from, lemma_find_from};

verus! {

proof fn lemma_words()
    ensures
        is_operator("$and"@) && is_operator("$or"@) && is_operator("$exists"@),
        is_operator("$gt"@) && is_operator("$lt"@) && is_operator("$in"@),
        "$and"@ != "$or"@,
        "$exists"@ != "$gt"@ && "$exists"@ != "$lt"@ && "$exists"@ != "$in"@,
        "$gt"@ != "$lt"@ && "$gt"@ != "$in"@ && "$lt"@ != "$in"@,
{
    reveal_strlit("$and");
    reveal_strlit("$or");
    reveal_strlit("$exists");
    reveal_strlit("$gt");
    reveal_strlit("$lt");
    reveal_strlit("$in");
    assert("$and"@.len() != "$or"@.len());
    assert("$exists"@.len() == 7);
    assert("$gt"@[1] == 'g' && "$lt"@[1] == 'l' && "$in"@[1] == 'i');
}

/// A name that is that of a field of a document, and no path or operator.
spec fn is_name(name: Seq<char>) -> bool {
    !is_operator(name) && !name.contains('.')
}

proof fn lemma_names()
    ensures
        is_name("locked_until"@) && is_name("seq_counter"@) && is_name("last_seq"@),
        is_name("seq"@) && is_name("payload"@) && is_name("_id"@),
        "locked_until"@ != "seq_counter"@ && "locked_until"@ != "last_seq"@,
{
    reveal_strlit("locked_until");
    reveal_strlit("seq_counter");
    reveal_strlit("last_seq");
    reveal_strlit("seq");
    reveal_strlit("payload");
    reveal_strlit("_id");
    assert("locked_until"@[0] != "seq_counter"@[0]);
    assert("locked_until"@.len() != "last_seq"@.len());
}

proof fn lemma_plain_name(doc: Fields, name: Seq<char>)
    requires
        is_name(name),
    ensures
        value_at(doc, name) == field(doc, name),
{
    lemma_find_from(name, '.', 0);
    let j = find_from(name, '.', 0);
    if j < name.len() {
        assert(name.contains(name[j]));
    }
}

proof fn lemma_one(other: Judge, name: Seq<char>, condition: BsonView, doc: Fields)
    ensures
        meets_query(other, BsonView::Document(seq![(name, condition)]), doc) == meets_field(
            other,
            name,
            condition,
            doc,
        ),
{
    let q = BsonView::Document(seq![(name, condition)]);
    let f = q->Document_0;
    assert(f[0] == (name, condition));
    if meets_query(other, q, doc) {
        assert(meets_field(other, f[0].0, f[0].1, doc));
    }
}

proof fn lemma_two(
    other: Judge,
    a: (Seq<char>, BsonView),
    b: (Seq<char>, BsonView),
    doc: Fields,
)
    ensures
        meets_query(other, BsonView::Document(seq![a, b]), doc) == (meets_field(
            other,
            a.0,
            a.1,
            doc,
        ) && meets_field(other, b.0, b.1, doc)),
{
    let q = BsonView::Document(seq![a, b]);
    let f = q->Document_0;
    assert(f[0] == a && f[1] == b);
    if meets_query(other, q, doc) {
        assert(meets_field(other, f[0].0, f[0].1, doc));
        assert(meets_field(other, f[1].0, f[1].1, doc));
    }
}

/// A document is selected by a query in front of another exactly if it is by both.
proof fn lemma_joined(other: Judge, a: Fields, b: Fields, doc: Fields)
    ensures
        selects(other, a + b, doc) == (selects(other, a, doc) && selects(other, b, doc)),
{
    let x = BsonView::Document(a);
    let y = BsonView::Document(b);
    let z = BsonView::Document(a + b);
    let q = z->Document_0;
    if meets_query(other, z, doc) {
        assert forall|i: int| 0 <= i < x->Document_0.len() implies meets_field(
            other,
            (#[trigger] x->Document_0[i]).0,
            x->Document_0[i].1,
            doc,
        ) by {
            assert(q[i] == a[i]);
            assert(meets_field(other, q[i].0, q[i].1, doc));
        }
        assert forall|i: int| 0 <= i < y->Document_0.len() implies meets_field(
            other,
            (#[trigger] y->Document_0[i]).0,
            y->Document_0[i].1,
            doc,
        ) by {
            assert(q[a.len() + i] == b[i]);
            assert(meets_field(other, q[a.len() + i].0, q[a.len() + i].1, doc));
        }
    }
    if meets_query(other, x, doc) && meets_query(other, y, doc) {
        assert forall|i: int| 0 <= i < q.len() implies meets_field(
            other,
            (#[trigger] q[i]).0,
            q[i].1,
            doc,
        ) by {
            if i < a.len() {
                assert(q[i] == x->Document_0[i]);
            } else {
                assert(q[i] == y->Document_0[i - a.len()]);
            }
        }
    }
}

proof fn lemma_and2(other: Judge, a: BsonView, b: BsonView, doc: Fields)
    ensures
        meets_field(other, "$and"@, BsonView::Array(seq![a, b]), doc) == (meets_query(
            other,
            a,
            doc,
        ) && meets_query(other, b, doc)),
{
    let list = BsonView::Array(seq![a, b]);
    let items = list->Array_0;
    assert(items[0] == a && items[1] == b);
    if meets_field(other, "$and"@, list, doc) {
        assert(meets_query(other, items[0], doc));
        assert(meets_query(other, items[1], doc));
    }
}

proof fn lemma_and3(other: Judge, a: BsonView, b: BsonView, c: BsonView, doc: Fields)
    ensures
        meets_field(other, "$and"@, BsonView::Array(seq![a, b, c]), doc) == (meets_query(
            other,
            a,
            doc,
        ) && meets_query(other, b, doc) && meets_query(other, c, doc)),
{
    let list = BsonView::Array(seq![a, b, c]);
    let items = list->Array_0;
    assert(items[0] == a && items[1] == b && items[2] == c);
    if meets_field(other, "$and"@, list, doc) {
        assert(meets_query(other, items[0], doc));
        assert(meets_query(other, items[1], doc));
        assert(meets_query(other, items[2], doc));
    }
}

proof fn lemma_or3(other: Judge, a: BsonView, b: BsonView, c: BsonView, doc: Fields)
    ensures
        meets_field(other, "$or"@, BsonView::Array(seq![a, b, c]), doc) == (meets_query(
            other,
            a,
            doc,
        ) || meets_query(other, b, doc) || meets_query(other, c, doc)),
{
    lemma_words();
    let list = BsonView::Array(seq![a, b, c]);
    let items = list->Array_0;
    assert(items[0] == a && items[1] == b && items[2] == c);
    if meets_query(other, a, doc) {
        assert(meets_query(other, items[0], doc));
    }
    if meets_query(other, b, doc) {
        assert(meets_query(other, items[1], doc));
    }
    if meets_query(other, c, doc) {
        assert(meets_query(other, items[2], doc));
    }
}

proof fn lemma_operation(
    other: Judge,
    name: Seq<char>,
    op: Seq<char>,
    operand: BsonView,
    doc: Fields,
)
    requires
        !is_operator(name),
        is_read(op),
    ensures
        meets_field(other, name, one(op, operand), doc) == satisfies(
            op,
            operand,
            value_at(doc, name),
        ),
{
    lemma_words();
    let d: Fields = seq![(op, operand)];
    assert(d[0] == (op, operand));
    assert(is_operation(one(op, operand)));
}

proof fn lemma_absent(other: Judge, name: Seq<char>, doc: Fields)
    requires
        is_name(name),
    ensures
        meets_query(other, absent(name), doc) == (field(doc, name) is None),
{
    lemma_words();
    lemma_plain_name(doc, name);
    lemma_one(other, name, one("$exists"@, BsonView::Boolean(false)), doc);
    lemma_operation(other, name, "$exists"@, BsonView::Boolean(false), doc);
}

proof fn lemma_both(other: Judge, a: Fields, b: Fields, doc: Fields)
    ensures
        selects(other, both(a, b), doc) == (selects(other, a, doc) && selects(other, b, doc)),
{
    let x = BsonView::Document(a);
    let y = BsonView::Document(b);
    lemma_one(other, "$and"@, BsonView::Array(seq![x, y]), doc);
    lemma_and2(other, x, y, doc);
}

/// Whether a document is locked at a time: it says until when, and that is not before.
pub open spec fn is_locked(doc: Fields, now: i64) -> bool {
    match field(doc, "locked_until"@) {
        None => false,
        Some(BsonView::Null) => false,
        Some(BsonView::Int64(until)) => now <= until,
        Some(BsonView::Int32(until)) => now <= until,
        Some(_) => true,
    }
}

proof fn lemma_available(other: Judge, now: i64, doc: Fields)
    ensures
        selects(other, available_filter(now), doc) == (!is_locked(doc, now) && field(
            doc,
            "seq_counter"@,
        ) is None && field(doc, "last_seq"@) is None),
{
    lemma_words();
    lemma_names();
    let name = "locked_until"@;
    lemma_plain_name(doc, name);
    let a = absent(name);
    let b = one(name, BsonView::Null);
    let c = one(name, one("$lt"@, BsonView::Int64(now)));
    lemma_absent(other, name, doc);
    lemma_one(other, name, BsonView::Null, doc);
    lemma_one(other, name, one("$lt"@, BsonView::Int64(now)), doc);
    lemma_operation(other, name, "$lt"@, BsonView::Int64(now), doc);
    lemma_or3(other, a, b, c, doc);
    let x = one("$or"@, BsonView::Array(seq![a, b, c]));
    lemma_one(other, "$or"@, BsonView::Array(seq![a, b, c]), doc);
    let y = absent("seq_counter"@);
    let z = absent("last_seq"@);
    lemma_absent(other, "seq_counter"@, doc);
    lemma_absent(other, "last_seq"@, doc);
    lemma_and3(other, x, y, z, doc);
    lemma_one(other, "$and"@, BsonView::Array(seq![x, y, z]), doc);
}

/// A consumer may claim exactly the messages that are not locked at that time, that are
/// none of the bookkeeping documents, and that match the configured query as well.
pub proof fn law_claims_are_free_and_asked_for(
    other: Judge,
    now: i64,
    extra: Option<Fields>,
    doc: Fields,
)
    ensures
        selects(other, claim_filter_of(now, extra), doc) <==> {
            &&& !is_locked(doc, now)
            &&& field(doc, "seq_counter"@) is None
            &&& field(doc, "last_seq"@) is None
            &&& extra matches Some(q) ==> selects(other, q, doc)
        },
{
    lemma_available(other, now, doc);
    if let Some(q) = extra {
        lemma_both(other, available_filter(now), q, doc);
    }
}

/// A subscriber finds exactly the events behind the number that it has read up to that
/// have a payload and match the configured query as well.
pub proof fn law_events_are_those_behind_the_cursor(
    other: Judge,
    last_seq: i64,
    extra: Option<Fields>,
    doc: Fields,
)
    ensures
        selects(other, events_filter_of(last_seq, extra), doc) <==> {
            &&& match field(doc, "seq"@) {
                Some(BsonView::Int64(n)) => n > last_seq,
                Some(BsonView::Int32(n)) => n > last_seq,
                _ => false,
            }
            &&& field(doc, "payload"@) is Some
            &&& extra matches Some(q) ==> selects(other, q, doc)
        },
{
    lemma_words();
    lemma_names();
    let a = ("seq"@, one("$gt"@, BsonView::Int64(last_seq)));
    let b = ("payload"@, one("$exists"@, BsonView::Boolean(true)));
    lemma_two(other, a, b, doc);
    lemma_plain_name(doc, "seq"@);
    lemma_plain_name(doc, "payload"@);
    lemma_operation(other, "seq"@, "$gt"@, BsonView::Int64(last_seq), doc);
    lemma_operation(other, "payload"@, "$exists"@, BsonView::Boolean(true), doc);
    if let Some(q) = extra {
        lemma_both(other, seq![a, b], q, doc);
    }
}

/// A page holds exactly the documents whose identifier comes after the last one that was
/// read and that match the configured query as well.
pub proof fn law_pages_go_on_behind_the_last_document(
    other: Judge,
    last: Option<BsonView>,
    extra: Option<Fields>,
    doc: Fields,
)
    ensures
        selects(other, page_filter_of(last, extra), doc) <==> {
            &&& last matches Some(id) ==> (field(doc, "_id"@) matches Some(v) && less(id, v))
            &&& extra matches Some(q) ==> selects(other, q, doc)
        },
{
    lemma_words();
    lemma_names();
    lemma_plain_name(doc, "_id"@);
    if let Some(id) = last {
        lemma_one(other, "_id"@, one("$gt"@, id), doc);
        lemma_operation(other, "_id"@, "$gt"@, id, doc);
        if let Some(q) = extra {
            lemma_both(other, seq![("_id"@, one("$gt"@, id))], q, doc);
        }
    }
}

/// A page of the initial snapshot holds exactly such documents, without the one that
/// counts the sequence numbers.
pub proof fn law_snapshots_leave_out_the_counter(
    other: Judge,
    last: Option<BsonView>,
    extra: Option<Fields>,
    doc: Fields,
)
    ensures
        selects(other, snapshot_filter_of(last, extra), doc) <==> {
            &&& field(doc, "seq_counter"@) is None
            &&& last matches Some(id) ==> (field(doc, "_id"@) matches Some(v) && less(id, v))
            &&& extra matches Some(q) ==> selects(other, q, doc)
        },
{
    lemma_words();
    lemma_names();
    lemma_plain_name(doc, "_id"@);
    lemma_plain_name(doc, "seq_counter"@);
    let skip = ("seq_counter"@, one("$exists"@, BsonView::Boolean(false)));
    lemma_operation(other, "seq_counter"@, "$exists"@, BsonView::Boolean(false), doc);
    lemma_one(other, skip.0, skip.1, doc);
    if let Some(id) = last {
        lemma_two(other, ("_id"@, one("$gt"@, id)), skip, doc);
        lemma_operation(other, "_id"@, "$gt"@, id, doc);
        if let Some(q) = extra {
            lemma_both(other, seq![("_id"@, one("$gt"@, id)), skip], q, doc);
        }
    } else if let Some(q) = extra {
        lemma_both(other, seq![skip], q, doc);
    }
}

proof fn lemma_never_before_itself(a: Seq<int>)
    ensures
        !precedes(a, a),
    decreases a.len(),
{
    if a.len() > 0 {
        lemma_never_before_itself(a.skip(1));
    }
}

/// Integers are ordered by their number whatever their width, and nothing comes before
/// itself, so that no page gives a document again that was the last of one before.
pub proof fn law_order_of_identifiers(a: i64, b: i64, c: i32, v: BsonView)
    ensures
        less(BsonView::Int64(a), BsonView::Int64(b)) <==> a < b,
        less(BsonView::Int64(a), BsonView::Int32(c)) <==> a < c,
        less(BsonView::Int32(c), BsonView::Int64(a)) <==> c < a,
        !less(v, v),
{
    match v {
        BsonView::Text(x) => lemma_never_before_itself(x.map_values(|c: char| c as int)),
        BsonView::ObjectId(x) => lemma_never_before_itself(x.map_values(|c: u8| c as int)),
        BsonView::Binary(_, x) => lemma_never_before_itself(x.map_values(|c: u8| c as int)),
        _ => {},
    }
}

/// The lock of a claimed message is tried on that message alone, and only if the query
/// that it was found by still selects it.
pub proof fn law_locks_are_tried_on_what_was_found(
    other: Judge,
    claim: ClaimingView,
    doc: Fields,
)
    requires
        0 <= claim.tried < claim.ids.len(),
    ensures
        claim.next_lock() matches Some((filter, _)) && (selects(other, filter, doc) <==> {
            &&& field(doc, "_id"@) matches Some(v) && equal(v, claim.ids[claim.tried])
            &&& selects(other, claim.base, doc)
        }),
{
    lemma_words();
    lemma_names();
    lemma_plain_name(doc, "_id"@);
    let id = claim.ids[claim.tried];
    let items: Seq<BsonView> = seq![id];
    assert(items[0] == id);
    let head: Fields = seq![("_id"@, one("$in"@, BsonView::Array(items)))];
    lemma_one(other, "_id"@, one("$in"@, BsonView::Array(items)), doc);
    lemma_operation(other, "_id"@, "$in"@, BsonView::Array(items), doc);
    if let Some(v) = field(doc, "_id"@) {
        if equal(v, id) {
            assert(equal(v, items[0]));
        }
    }
    lemma_joined(other, head, claim.base, doc);
}

/// The query for a reply selects exactly the documents whose metadata hold that
/// correlation identifier.
pub proof fn law_replies_are_found_by_their_correlation(
    other: Judge,
    correlation_id: Seq<char>,
    doc: Fields,
)
    ensures
        selects(other, reply_filter(correlation_id), doc) <==> (field(
            doc,
            "metadata"@,
        ) matches Some(BsonView::Document(m)) && field(m, "correlation_id"@) == Some(
            BsonView::Text(correlation_id),
        )),
{
    let path = "metadata.correlation_id"@;
    reveal_strlit("metadata.correlation_id");
    reveal_strlit("metadata");
    reveal_strlit("correlation_id");
    lemma_words();
    lemma_path("metadata"@, "correlation_id"@, doc);
    assert(path =~= "metadata"@ + seq!['.'] + "correlation_id"@);
    lemma_one(other, path, BsonView::Text(correlation_id), doc);
    assert(!is_operator(path));
    assert("$and"@ != path && "$or"@ != path);
    if let Some(BsonView::Document(m)) = field(doc, "metadata"@) {
        lemma_plain_name(m, "correlation_id"@);
    }
}

/// A path looks into the document behind its first name.
proof fn lemma_path(head: Seq<char>, rest: Seq<char>, doc: Fields)
    requires
        !head.contains('.'),
    ensures
        value_at(doc, head + seq!['.'] + rest) == (match field(doc, head) {
            Some(BsonView::Document(inner)) => value_at(inner, rest),
            _ => None,
        }),
{
    let path = head + seq!['.'] + rest;
    lemma_find_from(path, '.', 0);
    let j = find_from(path, '.', 0);
    assert(path[head.len() as int] == '.');
    if j < head.len() {
        assert(head[j] == path[j]);
        assert(head.contains(head[j]));
    }
    assert(path.subrange(0, j) =~= head);
    assert(path.subrange(j + 1, path.len() as int) =~= rest);
}

proof fn lemma_change(op: Seq<char>, operand: BsonView, doc: Fields)
    ensures
        updated(seq![(op, operand)], doc) == changed(op, operand, doc),
{
    let u: Fields = seq![(op, operand)];
    assert(u.drop_last() =~= Seq::empty());
    assert(u.last() == (op, operand));
    reveal_with_fuel(updated, 2);
}

proof fn lemma_set(name: Seq<char>, value: BsonView, doc: Fields)
    ensures
        updated(seq![("$set"@, one(name, value))], doc) == with_field(doc, name, value),
{
    lemma_change("$set"@, one(name, value), doc);
    let f: Fields = seq![(name, value)];
    assert(f.drop_last() =~= Seq::empty());
    assert(f.last() == (name, value));
    reveal_with_fuel(all_set, 2);
}

/// A message that is claimed is locked for sixty seconds, in which nobody claims it; once
/// they are over it can be claimed again, as if it had not been. Nothing else of it
/// changes.
pub proof fn law_locked_messages_are_not_claimed(
    other: Judge,
    claimed: i64,
    now: i64,
    doc: Fields,
    name: Seq<char>,
)
    requires
        claimed + 60 <= i64::MAX,
    ensures
        ({
            let after = updated(lock_update_of(locked_from(claimed)), doc);
            &&& forall|extra: Option<Fields>|
                now <= claimed + 60 ==> !selects(
                    other,
                    #[trigger] claim_filter_of(now, extra),
                    after,
                )
            &&& now > claimed + 60 && field(doc, "seq_counter"@) is None && field(
                doc,
                "last_seq"@,
            ) is None ==> selects(other, claim_filter_of(now, None), after)
            &&& name != "locked_until"@ ==> field(after, name) == field(doc, name)
        }),
{
    lemma_names();
    let until = BsonView::Int64((claimed + 60) as i64);
    let after = updated(lock_update_of(locked_from(claimed)), doc);
    lemma_set("locked_until"@, until, doc);
    law_fields_give_back_values(doc, "locked_until"@, until, name);
    law_fields_give_back_values(doc, "locked_until"@, until, "seq_counter"@);
    law_fields_give_back_values(doc, "locked_until"@, until, "last_seq"@);
    assert forall|extra: Option<Fields>| now <= claimed + 60 implies !selects(
        other,
        #[trigger] claim_filter_of(now, extra),
        after,
    ) by {
        law_claims_are_free_and_asked_for(other, now, extra, after);
    }
    law_claims_are_free_and_asked_for(other, now, None, after);
}

/// A message that is given free again can be claimed at any time, and nothing else of it
/// changes.
pub proof fn law_unlocked_messages_can_be_claimed(
    other: Judge,
    now: i64,
    doc: Fields,
    name: Seq<char>,
)
    ensures
        ({
            let after = updated(unlocking(), doc);
            &&& field(doc, "seq_counter"@) is None && field(doc, "last_seq"@) is None ==> selects(
                other,
                claim_filter_of(now, None),
                after,
            )
            &&& name != "locked_until"@ ==> field(after, name) == field(doc, name)
        }),
{
    lemma_names();
    let after = updated(unlocking(), doc);
    lemma_set("locked_until"@, BsonView::Null, doc);
    law_fields_give_back_values(doc, "locked_until"@, BsonView::Null, name);
    law_fields_give_back_values(doc, "locked_until"@, BsonView::Null, "seq_counter"@);
    law_fields_give_back_values(doc, "locked_until"@, BsonView::Null, "last_seq"@);
    law_claims_are_free_and_asked_for(other, now, None, after);
}

proof fn lemma_by_id(other: Judge, id: BsonView, doc: Fields)
    requires
        !(id is Null) && !(id is Document),
    ensures
        selects(other, seq![("_id"@, id)], doc) == (field(doc, "_id"@) matches Some(v) && equal(
            v,
            id,
        )),
{
    lemma_words();
    lemma_names();
    lemma_plain_name(doc, "_id"@);
    lemma_one(other, "_id"@, id, doc);
}

/// A subscriber that starts again goes on behind the number that was kept for its cursor
/// last: the document of the cursor is found by its name, and holds that number.
pub proof fn law_cursor_goes_on_where_it_was_kept(
    other: Judge,
    collection: Seq<char>,
    cursor_id: Seq<char>,
    doc: Fields,
    last_seq: i64,
    sequencer: Option<Fields>,
)
    ensures
        start_seq(true, Some(updated(cursor_change(last_seq), doc)), sequencer) == last_seq,
        selects(other, cursor_filter(collection, cursor_id), doc) <==> field(doc, "_id"@) == Some(
            BsonView::Text(collection + ":cursor:"@ + cursor_id),
        ),
{
    lemma_set("last_seq"@, BsonView::Int64(last_seq), doc);
    law_fields_give_back_values(doc, "last_seq"@, BsonView::Int64(last_seq), "_id"@);
    lemma_by_id(other, BsonView::Text(collection + ":cursor:"@ + cursor_id), doc);
}

/// A checkpoint is found by its key, and holds the text that was kept in it last.
pub proof fn law_checkpoint_holds_what_was_kept(
    other: Judge,
    key: Seq<char>,
    doc: Fields,
    value: Seq<char>,
)
    ensures
        checkpoint_value(Some(updated(checkpoint_change(value), doc))) == Some(value),
        selects(other, checkpoint_query(key), doc) <==> field(doc, "_id"@) == Some(
            BsonView::Text(key),
        ),
{
    lemma_set("last_value"@, BsonView::Text(value), doc);
    law_fields_give_back_values(doc, "last_value"@, BsonView::Text(value), "_id"@);
    lemma_by_id(other, BsonView::Text(key), doc);
}

/// A sequencer counts up by what is asked for, from zero where there is none, and only
/// the one of the collection does.
pub proof fn law_sequencer_counts_up(
    other: Judge,
    collection: Seq<char>,
    doc: Fields,
    before: i64,
    count: i64,
)
    requires
        field(doc, "seq_counter"@) is None ==> before == 0,
        field(doc, "seq_counter"@) is Some ==> field(doc, "seq_counter"@) == Some(
            BsonView::Int64(before),
        ),
        i64::MIN <= before + count <= i64::MAX,
    ensures
        field(updated(sequencer_change(count), doc), "seq_counter"@) == Some(
            BsonView::Int64((before + count) as i64),
        ),
        selects(other, sequencer_filter(collection), doc) <==> field(doc, "_id"@) == Some(
            BsonView::Text(collection + ":sequencer"@),
        ),
{
    reveal_strlit("$set");
    reveal_strlit("$inc");
    assert("$set"@[1] != "$inc"@[1]);
    let n = BsonView::Int64(count);
    lemma_change("$inc"@, one("seq_counter"@, n), doc);
    let f: Fields = seq![("seq_counter"@, n)];
    assert(f[0] == ("seq_counter"@, n));
    let sum = BsonView::Int64((before + count) as i64);
    law_fields_give_back_values(doc, "seq_counter"@, sum, "_id"@);
    lemma_by_id(other, BsonView::Text(collection + ":sequencer"@), doc);
}

/// Whether a judge sees in a change event what another sees in the document of that
/// event.
pub open spec fn judges_alike(
    on_event: Judge,
    on_document: Judge,
    event: Fields,
    doc: Fields,
) -> bool {
    &&& forall|name: Seq<char>, condition: BsonView| #[trigger]
        on_document(name, condition, doc) == (if is_operator(name) {
            on_event(name, operand_on_events(condition), event)
        } else {
            on_event("fullDocument."@ + name, condition, event)
        })
}

/// A query that was made one on change events selects an event exactly if the query
/// itself selects the document of the event.
pub proof fn law_event_queries_select_by_the_document(
    on_event: Judge,
    on_document: Judge,
    query: Fields,
    event: Fields,
    doc: Fields,
)
    requires
        field(event, "fullDocument"@) == Some(BsonView::Document(doc)),
        judges_alike(on_event, on_document, event, doc),
    ensures
        selects(on_event, on_events(query), event) <==> selects(on_document, query, doc),
    decreases query,
{
    let q = BsonView::Document(query);
    let e = BsonView::Document(on_events(query));
    assert forall|i: int| 0 <= i < query.len() implies meets_field(
        on_event,
        (#[trigger] on_events(query)[i]).0,
        on_events(query)[i].1,
        event,
    ) == meets_field(on_document, query[i].0, query[i].1, doc) by {
        lemma_event_field(on_event, on_document, query[i].0, query[i].1, event, doc);
    }
    if meets_query(on_event, e, event) {
        assert forall|i: int| 0 <= i < q->Document_0.len() implies meets_field(
            on_document,
            (#[trigger] q->Document_0[i]).0,
            q->Document_0[i].1,
            doc,
        ) by {
            assert(q->Document_0[i] == query[i]);
            assert(e->Document_0[i] == on_events(query)[i]);
        }
    }
    if meets_query(on_document, q, doc) {
        assert forall|i: int| 0 <= i < e->Document_0.len() implies meets_field(
            on_event,
            (#[trigger] e->Document_0[i]).0,
            e->Document_0[i].1,
            event,
        ) by {
            assert(q->Document_0[i] == query[i]);
            assert(e->Document_0[i] == on_events(query)[i]);
        }
    }
}

proof fn lemma_event_query(
    on_event: Judge,
    on_document: Judge,
    item: BsonView,
    event: Fields,
    doc: Fields,
)
    requires
        field(event, "fullDocument"@) == Some(BsonView::Document(doc)),
        judges_alike(on_event, on_document, event, doc),
    ensures
        meets_query(
            on_event,
            match item {
                BsonView::Document(x) => BsonView::Document(on_events(x)),
                o => o,
            },
            event,
        ) == meets_query(on_document, item, doc),
    decreases item,
{
    if let BsonView::Document(x) = item {
        law_event_queries_select_by_the_document(on_event, on_document, x, event, doc);
    }
}

proof fn lemma_event_field(
    on_event: Judge,
    on_document: Judge,
    name: Seq<char>,
    condition: BsonView,
    event: Fields,
    doc: Fields,
)
    requires
        field(event, "fullDocument"@) == Some(BsonView::Document(doc)),
        judges_alike(on_event, on_document, event, doc),
    ensures
        is_operator(name) ==> meets_field(on_event, name, operand_on_events(condition), event)
            == meets_field(on_document, name, condition, doc),
        !is_operator(name) ==> meets_field(on_event, "fullDocument."@ + name, condition, event)
            == meets_field(on_document, name, condition, doc),
    decreases condition,
{
    lemma_words();
    if is_operator(name) {
        let there = operand_on_events(condition);
        assert(on_document(name, condition, doc) == on_event(name, there, event));
        if name == "$and"@ || name == "$or"@ {
            if let BsonView::Array(items) = condition {
                let a = condition->Array_0;
                let b = there->Array_0;
                assert(a.len() == b.len());
                assert forall|k: int| 0 <= k < a.len() implies meets_query(
                    on_event,
                    #[trigger] b[k],
                    event,
                ) == meets_query(on_document, a[k], doc) by {
                    lemma_event_query(on_event, on_document, items[k], event, doc);
                }
                assert forall|k: int| 0 <= k < a.len() implies meets_query(
                    on_event,
                    b[k],
                    event,
                ) == meets_query(on_document, #[trigger] a[k], doc) by {
                    assert(meets_query(on_event, b[k], event) == meets_query(
                        on_document,
                        a[k],
                        doc,
                    ));
                }
            }
        }
    } else {
        let path = "fullDocument."@ + name;
        reveal_strlit("fullDocument.");
        reveal_strlit("fullDocument");
        assert(path =~= "fullDocument"@ + seq!['.'] + name);
        lemma_path("fullDocument"@, name, event);
        assert(path[0] == 'f');
        assert(!is_operator(path));
        assert(on_document(name, condition, doc) == on_event(path, condition, event));
    }
}

} // verus!
