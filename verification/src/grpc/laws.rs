//! What publishers and subscribers can count on.

use vstd::prelude::*;

use crate::grpc::bridge::{
    bridge_views, client_ack, plain_ack, receipt_disposition, response_for, to_wire, Ack, AckView,
    BridgeMessage, BridgeView, Receipt, ResponseView,
};
use crate::grpc::calls::{
    binary_refusal, call_entries, call_refusal, text_refusal, CallSettings, EntryValueView,
    EntryView,
};
use crate::grpc::pending::{
    forgotten, kept_for, law_new_message_is_replayed, law_replay_is_what_is_unacknowledged,
    law_retention_is_bounded, law_subscribers_are_bounded, lemma_place, lemma_update, place, queued,
    sound, PendingView, Retention,
};
use crate::grpc::publisher::{
    all_failed, batch_error, batch_result, failed_after, seen_after, unanswered, under_id,
};
use crate::grpc::receive::{batch_size, ready_at, ShardPoll};
use crate::grpc::router::{
    ack_error, ack_taken, acked_in, awaiting_at, awaits, dispatched, drop_route, fits,
    law_dispatch_keeps_for_every_subscriber, new_route, normal_topic, number_at, put_route,
    released, replay_for, retained_by_all, routes_after_ack, subscribed, taken, topic_at, topic_of,
    with_active, RouteView, Routes, SubscribeError, SubscriptionClaim,
};
use crate::grpc::status::{code_name, failure_of_status, GrpcCode, StatusView};
use crate::http::headers::{is_field_text, is_header_name};
use crate::ids::uuid_text;
use crate::message::{
    drop_prefixed, law_drop_prefixed, law_reads_give_back_writes, lookup, slot, BatchView,
    DispositionView, FailureView, MessageView, Pairs,
};
use crate::text::{same_ignoring_case, starts_with, trim};

verus! {

/// A publish whose message was replied to is answered with exactly that reply, under the
/// identifier of the request: its payload and its metadata, but for what says where the
/// reply was read from.
pub proof fn law_answers_carry_the_reply(id: Seq<char>, m: MessageView, key: Seq<char>)
    ensures
        response_for(id, DispositionView::Reply(m)) matches ResponseView::Reply(r) && {
            &&& r.id == id
            &&& r.payload == m.payload
            &&& starts_with(key, "mqb.src."@) ==> lookup(r.metadata, key) is None
            &&& !starts_with(key, "mqb.src."@) ==> lookup(r.metadata, key) == lookup(
                m.metadata,
                key,
            )
        },
{
    law_drop_prefixed(m.metadata, "mqb.src."@, key);
}

/// A publish whose message was processed is acknowledged, and one whose message failed,
/// whose receipt did not come in time or whose route went away is refused. The answer
/// has the identifier of the request.
pub proof fn law_answers_tell_what_became_of_a_message(id: Seq<char>, receipt: Receipt)
    ensures
        response_for(id, DispositionView::Ack) matches ResponseView::Ack(a) && a.id == id
            && a.status == 0 && a.reason == ""@ && a.metadata == Pairs::empty(),
        response_for(id, DispositionView::Nack) matches ResponseView::Ack(a) && a.id == id
            && a.status == 1 && a.reason == "Downstream processing failed"@ && a.metadata
            == Pairs::empty(),
        receipt is TimedOut || receipt is Dropped ==> receipt_disposition(receipt)
            == DispositionView::Nack,
        receipt matches Receipt::Committed(d) ==> receipt_disposition(receipt) == d@,
        plain_ack(id, 1, "Internal queue closed"@) matches ResponseView::Ack(a) && a.id == id
            && a.status == 1 && a.reason == "Internal queue closed"@,
{
}

/// A message on the wire has the text of its identifier, its payload and its metadata,
/// but for what says where it was read from. It names the topic that it is published on,
/// unless it names one itself, and is routed there.
pub proof fn law_messages_on_the_wire(m: MessageView, topic: Option<Seq<char>>, key: Seq<char>)
    ensures
        to_wire(m, topic).id == uuid_text(m.message_id),
        to_wire(m, topic).payload == m.payload,
        key != "mq_bridge.topic"@ && !starts_with(key, "mqb.src."@) ==> lookup(
            to_wire(m, topic).metadata,
            key,
        ) == lookup(m.metadata, key),
        starts_with(key, "mqb.src."@) ==> lookup(to_wire(m, topic).metadata, key) is None,
        lookup(to_wire(m, topic).metadata, "mq_bridge.topic"@) == (match lookup(
            m.metadata,
            "mq_bridge.topic"@,
        ) {
            Some(t) => Some(t),
            None => topic,
        }),
        topic_of(to_wire(m, topic)) == normal_topic(
            match lookup(m.metadata, "mq_bridge.topic"@) {
                Some(t) => Some(t),
                None => topic,
            },
        ),
{
    let kept = drop_prefixed(m.metadata, "mqb.src."@);
    law_drop_prefixed(m.metadata, "mqb.src."@, key);
    law_drop_prefixed(m.metadata, "mqb.src."@, "mq_bridge.topic"@);
    reveal_strlit("mqb.src.");
    reveal_strlit("mq_bridge.topic");
    assert("mq_bridge.topic"@[2] != "mqb.src."@[2]);
    assert(!starts_with("mq_bridge.topic"@, "mqb.src."@)) by {
        assert("mq_bridge.topic"@.take("mqb.src."@.len() as int)[2] == "mq_bridge.topic"@[2]);
    }
    if topic is Some {
        law_reads_give_back_writes(kept, "mq_bridge.topic"@, topic->0);
    }
}

/// A topic is what is left of its name without white space around it. A blank one, or
/// none, is the default topic.
pub proof fn law_topics(topic: Seq<char>)
    ensures
        normal_topic(None) == "default"@,
        trim(topic).len() == 0 ==> normal_topic(Some(topic)) == "default"@,
        trim(topic).len() > 0 ==> normal_topic(Some(topic)) == trim(topic),
{
}

/// A client acknowledges a message under its identifier and in the name of its
/// subscription: negatively exactly if the message was refused.
pub proof fn law_client_acknowledgements(
    consumer: Seq<char>,
    id: Seq<char>,
    disposition: DispositionView,
)
    ensures
        ({
            let a = client_ack(consumer, id, disposition);
            &&& a.id == id
            &&& a.status == (if disposition is Nack {
                1int
            } else {
                0
            })
            &&& lookup(a.metadata, "mq_bridge.consumer_id"@) == Some(consumer)
        }),
{
    reveal_with_fuel(slot, 2);
}

/// Whether any registration kept a message for a subscriber that it still has to
/// acknowledge.
pub open spec fn is_awaited(routes: Routes, consumer: Seq<char>, id: Seq<char>) -> bool {
    exists|i: int| 0 <= i < routes.len() && awaits((#[trigger] routes[i]).1, consumer, id)
}

proof fn lemma_awaiting(routes: Routes, consumer: Seq<char>, id: Seq<char>, i: int)
    requires
        0 <= i <= routes.len(),
    ensures
        i <= awaiting_at(routes, consumer, id, i) <= routes.len(),
        awaiting_at(routes, consumer, id, i) < routes.len() ==> awaits(
            routes[awaiting_at(routes, consumer, id, i)].1,
            consumer,
            id,
        ),
        forall|k: int|
            i <= k < awaiting_at(routes, consumer, id, i) ==> !awaits(
                (#[trigger] routes[k]).1,
                consumer,
                id,
            ),
    decreases routes.len() - i,
{
    if i < routes.len() && !awaits(routes[i].1, consumer, id) {
        lemma_awaiting(routes, consumer, id, i + 1);
    }
}

/// The acknowledgement that a client sends is taken exactly if its subscription still
/// has to acknowledge the message, and is answered with an empty error then. One that
/// names no subscription is never taken.
pub proof fn law_awaited_acknowledgements_are_taken(
    routes: Routes,
    consumer: Seq<char>,
    id: Seq<char>,
    disposition: DispositionView,
    other: AckView,
)
    ensures
        ({
            let ack = client_ack(consumer, id, disposition);
            &&& ack_taken(routes, ack) <==> is_awaited(routes, consumer, id)
            &&& ack_taken(routes, ack) ==> ack_error(routes, ack) == ""@
            &&& !ack_taken(routes, ack) ==> ack_error(routes, ack) != ""@
        }),
        lookup(other.metadata, "mq_bridge.consumer_id"@) is None ==> !ack_taken(routes, other)
            && routes_after_ack(routes, other) == routes,
{
    law_client_acknowledgements(consumer, id, disposition);
    lemma_awaiting(routes, consumer, id, 0);
    if is_awaited(routes, consumer, id) {
        let i = choose|i: int| 0 <= i < routes.len() && awaits((#[trigger] routes[i]).1, consumer, id);
        assert(awaits(routes[i].1, consumer, id));
    } else if awaiting_at(routes, consumer, id, 0) < routes.len() {
        assert(awaits(routes[awaiting_at(routes, consumer, id, 0)].1, consumer, id));
    }
    reveal_strlit("");
    reveal_strlit("Unknown consumer or message");
    assert(""@.len() == 0);
    assert("Unknown consumer or message"@.len() == 27);
}

/// A positive acknowledgement ends the wait for that message in the first registration
/// that kept it for the subscription, and changes no other wait. A negative one changes
/// nothing.
pub proof fn law_acknowledgements_end_one_wait(
    routes: Routes,
    consumer: Seq<char>,
    id: Seq<char>,
    disposition: DispositionView,
    i: int,
    other: Seq<char>,
    msg: Seq<char>,
)
    requires
        0 <= i < routes.len(),
    ensures
        ({
            let after = routes_after_ack(routes, client_ack(consumer, id, disposition));
            let first = awaits(routes[i].1, consumer, id) && forall|k: int|
                0 <= k < i ==> !awaits((#[trigger] routes[k]).1, consumer, id);
            &&& after.len() == routes.len()
            &&& after[i].0 == routes[i].0
            &&& after[i].1.topic == routes[i].1.topic
            &&& after[i].1.active == routes[i].1.active
            &&& disposition is Nack ==> after == routes
            &&& !(disposition is Nack) ==> awaits(after[i].1, other, msg) == (awaits(
                routes[i].1,
                other,
                msg,
            ) && !(first && other == consumer && msg == id))
        }),
{
    law_client_acknowledgements(consumer, id, disposition);
    lemma_awaiting(routes, consumer, id, 0);
    let at = awaiting_at(routes, consumer, id, 0);
    if !(disposition is Nack) && at == i {
        let r = routes[i].1.pending;
        let p = kept_for(r, consumer)->0;
        lemma_place(r, consumer, 0);
        lemma_update(r, consumer, p.acknowledged(id), other);
        lemma_update(r, consumer, p.acknowledged(id), consumer);
        assert(acked_in(routes[i].1, consumer, id).pending == r.update(
            place(r, consumer, 0),
            (consumer, p.acknowledged(id)),
        ));
    }
    if at < routes.len() && at < i {
        assert(awaits(routes[at].1, consumer, id));
    }
}

/// A subscription that comes back under its identifier gets again what it has not
/// acknowledged, each message once, and nothing else. One without anything kept gets
/// nothing.
pub proof fn law_subscribers_get_what_they_missed(r: Retention, id: Seq<char>)
    requires
        sound(r),
    ensures
        match kept_for(r, id) {
            Some(p) => {
                &&& forall|k: Seq<char>| #[trigger]
                    p.unacked.contains(k) <==> queued(replay_for(r, id), k)
                &&& forall|i: int, j: int|
                    0 <= i < j < replay_for(r, id).len() ==> (#[trigger] replay_for(r, id)[i]).id
                        != (#[trigger] replay_for(r, id)[j]).id
            },
            None => replay_for(r, id).len() == 0,
        },
{
    lemma_place(r, id, 0);
    if kept_for(r, id) is Some {
        let p = kept_for(r, id)->0;
        assert(r[place(r, id, 0)].1.wf());
        law_replay_is_what_is_unacknowledged(p);
        assert forall|k: Seq<char>| #[trigger]
            p.unacked.contains(k) == queued(replay_for(r, id), k) by {
            if queued(replay_for(r, id), k) {
                let i = choose|i: int|
                    0 <= i < replay_for(r, id).len() && (#[trigger] replay_for(r, id)[i]).id == k;
                assert(p.unacked.contains(p.replayed()[i].id));
            }
        }
    }
}

/// A subscription that ends keeps what it has not acknowledged, unless the server made
/// up its identifier; then that is forgotten. What other subscriptions have is left
/// alone.
pub proof fn law_ended_subscriptions(
    route: RouteView,
    id: Seq<char>,
    other: Seq<char>,
    ephemeral: bool,
)
    requires
        sound(route.pending),
    ensures
        !ephemeral ==> kept_for(released(route, id, ephemeral).pending, id) == kept_for(
            route.pending,
            id,
        ),
        ephemeral ==> kept_for(released(route, id, ephemeral).pending, id) is None,
        other != id ==> kept_for(released(route, id, ephemeral).pending, other) == kept_for(
            route.pending,
            other,
        ),
        released(route, id, ephemeral).topic == route.topic,
        released(route, id, ephemeral).cursor == route.cursor,
        with_active(route, id).active == route.active.push(id),
        with_active(route, id).pending == route.pending,
        with_active(route, id).topic == route.topic,
{
    law_subscribers_are_bounded(route.pending, id, other);
}

proof fn lemma_topic(routes: Routes, topic: Seq<char>, i: int)
    requires
        0 <= i <= routes.len(),
    ensures
        i <= topic_at(routes, topic, i) <= routes.len(),
        topic_at(routes, topic, i) < routes.len() ==> routes[topic_at(
            routes,
            topic,
            i,
        )].1.topic == topic,
        forall|k: int|
            i <= k < topic_at(routes, topic, i) ==> (#[trigger] routes[k]).1.topic != topic,
    decreases routes.len() - i,
{
    if i < routes.len() && routes[i].1.topic != topic {
        lemma_topic(routes, topic, i + 1);
    }
}

proof fn lemma_number(routes: Routes, id: u64, i: int)
    requires
        0 <= i <= routes.len(),
    ensures
        i <= number_at(routes, id, i) <= routes.len(),
        number_at(routes, id, i) < routes.len() ==> routes[number_at(routes, id, i)].0 == id,
        forall|k: int| i <= k < number_at(routes, id, i) ==> (#[trigger] routes[k]).0 != id,
    decreases routes.len() - i,
{
    if i < routes.len() && routes[i].0 != id {
        lemma_number(routes, id, i + 1);
    }
}

/// A message goes to the registration for its topic, and a topic without one is not
/// taken. Registering adds the consumer under its number and leaves the others as they
/// are; leaving takes only that consumer out.
pub proof fn law_registrations(
    routes: Routes,
    id: u64,
    topic: Seq<char>,
    shards: usize,
    other: (u64, RouteView),
)
    ensures
        taken(routes, topic) <==> exists|i: int|
            0 <= i < routes.len() && (#[trigger] routes[i]).1.topic == topic,
        taken(routes, topic) ==> routes[topic_at(routes, topic, 0)].1.topic == topic,
        ({
            let fresh = new_route(topic, shards);
            &&& fresh.topic == topic
            &&& fresh.shards == shards
            &&& fresh.pending.len() == 0
            &&& fresh.active.len() == 0
            &&& put_route(routes, id, fresh).contains((id, fresh))
            &&& routes.contains(other) && other.0 != id ==> put_route(
                routes,
                id,
                fresh,
            ).contains(other)
            &&& put_route(routes, id, fresh).contains(other) ==> other == (id, fresh)
                || routes.contains(other)
        }),
        routes.contains(other) && other.0 != id ==> drop_route(routes, id).contains(other),
        drop_route(routes, id).contains(other) ==> routes.contains(other),
        (forall|i: int, j: int|
            0 <= i < j < routes.len() ==> (#[trigger] routes[i]).0 != (#[trigger] routes[j]).0)
            ==> forall|i: int|
            0 <= i < drop_route(routes, id).len() ==> (#[trigger] drop_route(routes, id)[i]).0 != id,
{
    lemma_topic(routes, topic, 0);
    lemma_number(routes, id, 0);
    let at = topic_at(routes, topic, 0);
    if at < routes.len() {
        assert(routes[at].1.topic == topic);
    }
    let n = number_at(routes, id, 0);
    let fresh = new_route(topic, shards);
    let put = put_route(routes, id, fresh);
    assert(put[n] == (id, fresh));
    let dropped = drop_route(routes, id);
    if routes.contains(other) && other.0 != id {
        let w = choose|w: int| 0 <= w < routes.len() && routes[w] == other;
        assert(put[w] == other);
        if w < n || n >= routes.len() {
            assert(dropped[w] == other);
        } else {
            assert(dropped[w - 1] == other);
        }
    }
    if put.contains(other) {
        let w = choose|w: int| 0 <= w < put.len() && put[w] == other;
        if w != n {
            assert(routes[w] == other);
        }
    }
    if dropped.contains(other) {
        let w = choose|w: int| 0 <= w < dropped.len() && dropped[w] == other;
        if w < n || n >= routes.len() {
            assert(routes[w] == other);
        } else {
            assert(routes[w + 1] == other);
        }
    }
    if (forall|i: int, j: int|
        0 <= i < j < routes.len() ==> (#[trigger] routes[i]).0 != (#[trigger] routes[j]).0) {
        assert forall|i: int| 0 <= i < dropped.len() implies (#[trigger] dropped[i]).0 != id by {
            if n >= routes.len() || i < n {
                assert(dropped[i] == routes[i]);
            } else {
                assert(dropped[i] == routes[i + 1]);
            }
        }
    }
}

/// A message that came for a registration changes neither its topic nor its
/// subscribers, and the next message goes to the next shard.
pub proof fn law_dispatch_goes_round(route: RouteView, msg: BridgeView)
    ensures
        dispatched(route, msg).topic == route.topic,
        dispatched(route, msg).active == route.active,
        dispatched(route, msg).shards == route.shards,
        route.cursor < usize::MAX ==> dispatched(route, msg).cursor == route.cursor + 1,
        route.cursor == usize::MAX ==> dispatched(route, msg).cursor == 0,
{
}

proof fn lemma_under(originals: Seq<MessageView>, id: Seq<char>, m: MessageView)
    ensures
        under_id(originals, id).contains(m) <==> originals.contains(m) && uuid_text(m.message_id)
            == id,
    decreases originals.len(),
{
    if originals.len() > 0 {
        let front = originals.drop_last();
        let before = under_id(front, id);
        let out = under_id(originals, id);
        lemma_under(front, id, m);
        if before.contains(m) {
            let w = choose|w: int| 0 <= w < before.len() && before[w] == m;
            assert(out[w] == m);
            let v = choose|v: int| 0 <= v < front.len() && front[v] == m;
            assert(originals[v] == m);
        }
        if originals.contains(m) && uuid_text(m.message_id) == id {
            let v = choose|v: int| 0 <= v < originals.len() && originals[v] == m;
            if v < front.len() {
                assert(front[v] == m);
            } else {
                assert(out[before.len() as int] == m);
            }
        }
        if out.contains(m) {
            let w = choose|w: int| 0 <= w < out.len() && out[w] == m;
            if w < before.len() {
                assert(before[w] == m);
            } else {
                assert(originals[originals.len() - 1] == m);
            }
        }
    }
}

/// A negative acknowledgement fails the messages of the batch under its identifier, for
/// its reason and so that they may be sent again, and no others. Any other answer fails
/// none. Failures that are known stay known.
pub proof fn law_refused_messages_fail(
    originals: Seq<MessageView>,
    failed: Seq<(MessageView, FailureView)>,
    r: ResponseView,
    f: (MessageView, FailureView),
)
    ensures
        failed_after(originals, failed, r).contains(f) <==> failed.contains(f) || (
        r matches ResponseView::Ack(a) && a.status != 0 && originals.contains(f.0) && uuid_text(
            f.0.message_id,
        ) == a.id && f.1 == FailureView::Retryable(a.reason)),
{
    let out = failed_after(originals, failed, r);
    if r is Ack && r->Ack_0.status != 0 {
        let a = r->Ack_0;
        let under = under_id(originals, a.id);
        let more = all_failed(under, FailureView::Retryable(a.reason));
        lemma_under(originals, a.id, f.0);
        if failed.contains(f) {
            let w = choose|w: int| 0 <= w < failed.len() && failed[w] == f;
            assert(out[w] == f);
        }
        if under.contains(f.0) && f.1 == FailureView::Retryable(a.reason) {
            let w = choose|w: int| 0 <= w < under.len() && under[w] == f.0;
            assert(more[w] == f);
            assert(out[failed.len() + w] == f);
        }
        if out.contains(f) {
            let w = choose|w: int| 0 <= w < out.len() && out[w] == f;
            if w < failed.len() {
                assert(failed[w] == f);
            } else {
                assert(more[w - failed.len()] == f);
                assert(under[w - failed.len()] == f.0);
            }
        }
    }
}

/// A batch ends at once exactly for an error, or for a negative acknowledgement of a
/// message that is not in it; it may then be sent again. An acknowledgement or a reply
/// answers the message under its identifier and no other.
pub proof fn law_answers_count_for_their_message(
    originals: Seq<MessageView>,
    seen: Set<Seq<char>>,
    r: ResponseView,
    id: Seq<char>,
)
    ensures
        match r {
            ResponseView::Ack(a) => {
                let known = exists|i: int|
                    0 <= i < originals.len() && uuid_text((#[trigger] originals[i]).message_id)
                        == a.id;
                &&& batch_error(originals, r) == (if a.status != 0 && !known {
                    Some(FailureView::Retryable(a.reason))
                } else {
                    None
                })
                &&& seen_after(seen, r).contains(id) <==> seen.contains(id) || id == a.id
            },
            ResponseView::Reply(m) => batch_error(originals, r) is None && (seen_after(
                seen,
                r,
            ).contains(id) <==> seen.contains(id) || id == m.id),
            ResponseView::Error(e) => batch_error(originals, r) == Some(
                FailureView::Retryable(e),
            ) && seen_after(seen, r) == seen,
            ResponseView::Empty => batch_error(originals, r) is None && seen_after(seen, r) == seen,
        },
{
    if r is Ack {
        let a = r->Ack_0;
        let under = under_id(originals, a.id);
        if under.len() > 0 {
            lemma_under(originals, a.id, under[0]);
            assert(under.contains(under[0]));
            let i = choose|i: int| 0 <= i < originals.len() && originals[i] == under[0];
            assert(uuid_text(originals[i].message_id) == a.id);
        }
        if exists|i: int|
            0 <= i < originals.len() && uuid_text((#[trigger] originals[i]).message_id) == a.id {
            let i = choose|i: int|
                0 <= i < originals.len() && uuid_text((#[trigger] originals[i]).message_id) == a.id;
            lemma_under(originals, a.id, originals[i]);
            assert(originals.contains(originals[i]));
            assert(under.contains(originals[i]));
        }
    }
}

/// The result of a batch hands every response on, in order, and names every message that
/// failed. Only a batch of which as many failed as were in it fails as a whole, and it
/// may then be sent again.
pub proof fn law_batch_results_are_complete(
    originals: Seq<MessageView>,
    responses: Seq<MessageView>,
    failed: Seq<(MessageView, FailureView)>,
    seen: Set<Seq<char>>,
    i: int,
)
    requires
        0 <= i < failed.len(),
    ensures
        match batch_result(originals, responses, failed, seen) {
            Ok(BatchView::Ack) => false,
            Ok(BatchView::Partial { responses: r, failed: f }) => {
                &&& responses.len() > 0 ==> r == Some(responses)
                &&& responses.len() == 0 ==> r is None
                &&& f.contains(failed[i])
            },
            Err(e) => e is Retryable && failed.len() + unanswered(originals, seen).len()
                == originals.len(),
        },
{
    let all = failed + all_failed(
        unanswered(originals, seen),
        FailureView::Retryable("missing response for id"@),
    );
    assert(all[i] == failed[i]);
}

/// A batch without failures is acknowledged where it has no responses, and else hands
/// them on.
pub proof fn law_answered_batches_succeed(
    originals: Seq<MessageView>,
    responses: Seq<MessageView>,
    seen: Set<Seq<char>>,
)
    requires
        originals.len() > 0,
        unanswered(originals, seen).len() == 0,
    ensures
        batch_result(originals, responses, seq![], seen) == Ok::<BatchView, FailureView>(
            if responses.len() == 0 {
                BatchView::Ack
            } else {
                BatchView::Partial { responses: Some(responses), failed: seq![] }
            },
        ),
{
    let all = Seq::<(MessageView, FailureView)>::empty() + all_failed(
        unanswered(originals, seen),
        FailureView::Retryable("missing response for id"@),
    );
    assert(all =~= seq![]);
}

/// A call that was cut off, refused for want of resources or failed inside the server
/// may be made again; one that can never succeed is not. The text tells the code and the
/// message.
pub proof fn law_which_calls_are_made_again(s: StatusView)
    ensures
        ({
            let passes = match s.code {
                GrpcCode::Success => true,
                GrpcCode::Cancelled => true,
                GrpcCode::Unknown => true,
                GrpcCode::DeadlineExceeded => true,
                GrpcCode::ResourceExhausted => true,
                GrpcCode::Aborted => true,
                GrpcCode::Internal => true,
                GrpcCode::Unavailable => true,
                GrpcCode::DataLoss => true,
                _ => false,
            };
            &&& passes ==> failure_of_status(s) is Retryable
            &&& !passes ==> failure_of_status(s) is NonRetryable
        }),
{
}

/// A call carries every configured entry, text or bytes, the bearer token as an
/// authorization, and the API key under its configured name or the usual one; and
/// nothing else.
pub proof fn law_calls_carry_what_is_configured(s: CallSettings, e: EntryView)
    ensures
        call_entries(s).contains(e) <==> {
            ||| (e.value matches EntryValueView::Text(t) && s.metadata.contains((e.name, t)))
            ||| (e.value matches EntryValueView::Binary(b) && s.binary.contains((e.name, b)))
            ||| (s.token matches Some(t) && e.name == "authorization"@ && e.value
                == EntryValueView::Text("Bearer "@ + t))
            ||| (s.api_key matches Some(k) && e.value == EntryValueView::Text(k) && e.name == (
            match s.api_key_name {
                Some(n) => n,
                None => "x-api-key"@,
            }))
        },
{
    let all = call_entries(s);
    let n = s.metadata.len() as int;
    let m = n + s.binary.len();
    let t = if s.token is Some {
        m + 1
    } else {
        m
    };
    if e.value is Text && s.metadata.contains((e.name, e.value->Text_0)) {
        let text = e.value->Text_0;
        let w = choose|w: int| 0 <= w < n && s.metadata[w] == (e.name, text);
        assert(all[w] == e);
    }
    if e.value is Binary && s.binary.contains((e.name, e.value->Binary_0)) {
        let bytes = e.value->Binary_0;
        let w = choose|w: int| 0 <= w < s.binary.len() && s.binary[w] == (e.name, bytes);
        assert(all[n + w] == e);
    }
    if s.token is Some {
        assert(all[m] == EntryView {
            name: "authorization"@,
            value: EntryValueView::Text("Bearer "@ + s.token->0),
        });
    }
    if s.api_key is Some {
        assert(all[t] == EntryView {
            name: match s.api_key_name {
                Some(n) => n,
                None => "x-api-key"@,
            },
            value: EntryValueView::Text(s.api_key->0),
        });
    }
    if all.contains(e) {
        let w = choose|w: int| 0 <= w < all.len() && all[w] == e;
        if w < n {
            assert(s.metadata[w] == (e.name, e.value->Text_0));
        } else if w < m {
            assert(s.binary[w - n] == (e.name, e.value->Binary_0));
        }
    }
}

/// Whether a name can be that of an entry: a header name that ends in `-bin` exactly if
/// the entry holds bytes.
pub open spec fn fits_entry(name: Seq<char>, binary: bool) -> bool {
    is_header_name(name) && binary == (name.len() >= 4 && same_ignoring_case(
        name.skip(name.len() - 4),
        "-bin"@,
    ))
}

proof fn lemma_texts(pairs: Pairs, i: int)
    requires
        0 <= i,
    ensures
        text_refusal(pairs, i) is None <==> forall|k: int|
            i <= k < pairs.len() ==> fits_entry((#[trigger] pairs[k]).0, false) && is_field_text(
                pairs[k].1,
            ),
    decreases pairs.len() - i,
{
    if i < pairs.len() {
        lemma_texts(pairs, i + 1);
        if text_refusal(pairs, i) is None {
            assert forall|k: int| i <= k < pairs.len() implies fits_entry(
                (#[trigger] pairs[k]).0,
                false,
            ) && is_field_text(pairs[k].1) by {
                if k > i {
                    assert(fits_entry(pairs[k].0, false));
                }
            }
        } else if fits_entry(pairs[i].0, false) && is_field_text(pairs[i].1) {
            assert(text_refusal(pairs, i + 1) is Some);
        }
    }
}

proof fn lemma_binaries(pairs: Seq<(Seq<char>, Seq<u8>)>, i: int)
    requires
        0 <= i,
    ensures
        binary_refusal(pairs, i) is None <==> forall|k: int|
            i <= k < pairs.len() ==> fits_entry((#[trigger] pairs[k]).0, true),
    decreases pairs.len() - i,
{
    if i < pairs.len() {
        lemma_binaries(pairs, i + 1);
        if binary_refusal(pairs, i) is None {
            assert forall|k: int| i <= k < pairs.len() implies fits_entry(
                (#[trigger] pairs[k]).0,
                true,
            ) by {
                if k > i {
                    assert(fits_entry(pairs[k].0, true));
                }
            }
        }
    }
}

/// Calls can be made exactly if every configured name fits its entry and every text, the
/// credentials with them, can be sent.
pub proof fn law_calls_are_refused_for_what_cannot_be_sent(s: CallSettings)
    ensures
        call_refusal(s) is None <==> {
            &&& forall|k: int|
                0 <= k < s.metadata.len() ==> fits_entry((#[trigger] s.metadata[k]).0, false)
                    && is_field_text(s.metadata[k].1)
            &&& forall|k: int|
                0 <= k < s.binary.len() ==> fits_entry((#[trigger] s.binary[k]).0, true)
            &&& s.token matches Some(t) ==> is_field_text("Bearer "@ + t)
            &&& s.api_key matches Some(k) ==> is_field_text(k) && fits_entry(
                match s.api_key_name {
                    Some(n) => n,
                    None => "x-api-key"@,
                },
                false,
            )
        },
{
    lemma_texts(s.metadata, 0);
    lemma_binaries(s.binary, 0);
}

/// A batch is as large as asked for, but never empty.
pub proof fn law_batches_have_room(max: usize)
    ensures
        max > 0 ==> batch_size(max) == max,
        max == 0 ==> batch_size(max) == 1,
{
}

/// The shard that gives a message is the first that has one.
pub proof fn law_first_ready_shard(polls: Seq<ShardPoll>, i: int)
    requires
        0 <= i <= polls.len(),
    ensures
        i <= ready_at(polls, i) <= polls.len(),
        ready_at(polls, i) < polls.len() ==> polls[ready_at(polls, i)] == ShardPoll::Message,
        forall|k: int| i <= k < ready_at(polls, i) ==> #[trigger] polls[k] != ShardPoll::Message,
    decreases polls.len() - i,
{
    if i < polls.len() && polls[i] != ShardPoll::Message {
        law_first_ready_shard(polls, i + 1);
    }
}

/// A subscription is granted exactly if its topic has a consumer and its identifier is
/// not in use there. It is then in use, and the subscriber first gets what it has not
/// acknowledged; nothing else changes. A refusal changes nothing.
pub proof fn law_subscriptions(
    before: Routes,
    topic: Seq<char>,
    id: Seq<char>,
    ephemeral: bool,
    after: Routes,
    res: Result<(SubscriptionClaim, Vec<BridgeMessage>), SubscribeError>,
    k: int,
)
    requires
        subscribed(before, topic, id, ephemeral, after, res),
        0 <= k < before.len(),
    ensures
        ({
            let name = normal_topic(Some(topic));
            let i = topic_at(before, name, 0);
            let known = exists|j: int|
                0 <= j < before.len() && (#[trigger] before[j]).1.topic == name;
            &&& res is Ok <==> known && !before[i].1.active.contains(id)
            &&& after.len() == before.len()
            &&& res is Err ==> after == before
            &&& res matches Err(e) ==> (e is NotFound <==> !known)
            &&& res matches Ok(granted) ==> {
                &&& before[i].1.topic == name
                &&& granted.0.consumer_id@ == id
                &&& granted.0.route_id == before[i].0
                &&& granted.0.ephemeral == ephemeral
                &&& bridge_views(granted.1@) == replay_for(before[i].1.pending, id)
                &&& after[i].1.active.contains(id)
                &&& after[i].1.pending == before[i].1.pending
                &&& after[i].1.topic == name
                &&& k != i ==> after[k] == before[k]
            }
        }),
{
    let name = normal_topic(Some(topic));
    lemma_topic(before, name, 0);
    let i = topic_at(before, name, 0);
    if i < before.len() {
        assert(before[i].1.topic == name);
        let active = before[i].1.active;
        assert(active.push(id)[active.len() as int] == id);
        assert(active.push(id).contains(id));
    }
}

/// A message is not taken for a new subscriber where sixty-four have messages waiting.
pub proof fn law_new_subscribers_need_room(r: Retention, names: Seq<Seq<char>>, msg: BridgeView)
    requires
        fits(r, names, msg),
        names.len() > 0,
        r.len() >= 64,
    ensures
        kept_for(r, names[0]) is Some,
{
    assert(names.take(0) =~= seq![]);
    assert(retained_by_all(r, names.take(0), msg) == r);
}

/// A status is told by the name of its code.
pub proof fn law_names_of_codes(code: GrpcCode)
    ensures
        code is Success ==> code_name(code) == "Ok"@,
        code is Cancelled ==> code_name(code) == "Cancelled"@,
        code is Unknown ==> code_name(code) == "Unknown"@,
        code is InvalidArgument ==> code_name(code) == "InvalidArgument"@,
        code is DeadlineExceeded ==> code_name(code) == "DeadlineExceeded"@,
        code is NotFound ==> code_name(code) == "NotFound"@,
        code is AlreadyExists ==> code_name(code) == "AlreadyExists"@,
        code is PermissionDenied ==> code_name(code) == "PermissionDenied"@,
        code is ResourceExhausted ==> code_name(code) == "ResourceExhausted"@,
        code is FailedPrecondition ==> code_name(code) == "FailedPrecondition"@,
        code is Aborted ==> code_name(code) == "Aborted"@,
        code is OutOfRange ==> code_name(code) == "OutOfRange"@,
        code is Unimplemented ==> code_name(code) == "Unimplemented"@,
        code is Internal ==> code_name(code) == "Internal"@,
        code is Unavailable ==> code_name(code) == "Unavailable"@,
        code is DataLoss ==> code_name(code) == "DataLoss"@,
        code is Unauthenticated ==> code_name(code) == "Unauthenticated"@,
{
}

/// A message that came for a registration waits for the acknowledgement of every live
/// subscriber that had none of its identifier waiting: were that one to come back, it
/// would get the message again.
pub proof fn law_dispatched_messages_are_awaited(route: RouteView, msg: BridgeView, k: int)
    requires
        sound(route.pending),
        route.active.no_duplicates(),
        fits(route.pending, route.active, msg),
        0 <= k < route.active.len(),
        !awaits(route, route.active[k], msg.id),
    ensures
        awaits(dispatched(route, msg), route.active[k], msg.id),
        replay_for(dispatched(route, msg).pending, route.active[k]).contains(msg),
{
    let name = route.active[k];
    let r = route.pending;
    law_dispatch_keeps_for_every_subscriber(r, route.active, msg, k);
    lemma_place(r, name, 0);
    let p = match kept_for(r, name) {
        Some(p) => p,
        None => PendingView::nothing(),
    };
    if kept_for(r, name) is Some {
        assert(r[place(r, name, 0)].1.wf());
    }
    law_new_message_is_replayed(p, msg);
    law_retention_is_bounded(p, msg, name);
    law_replay_is_what_is_unacknowledged(p.retained(msg));
}

} // verus!
