//! The topics of an embedded server, their subscribers, and who gets what.

use vstd::prelude::*;

use crate::grpc::bridge::{
    bridge_views, Ack, AckView, BridgeMessage, BridgeView, CONSUMER_KEY, STATUS_ACK, TOPIC_KEY,
};
use crate::grpc::pending::{
    entered, forgotten, kept_for, law_retention_is_bounded, law_subscribers_are_bounded,
    lemma_place, lemma_update, place, queued, sound, PendingView, Retention, SubscriberPending,
    MAX_PENDING_CONSUMERS,
};
use crate::ids::{fresh_id_decimal, is_v7_decimal};
use crate::message::lookup;
use crate::names::{lemma_name_at_is, lemma_without_name, without_name, NameSet};
use crate::text::{chars_of, join3, join5, same, string_of, text_of_option, texts, trim, trim_chars};

verus! {

/// A topic as it is compared: without white space around it, and `default` where
/// nothing is left.
pub open spec fn normal_topic(topic: Option<Seq<char>>) -> Seq<char> {
    match topic {
        Some(t) => if trim(t).len() > 0 {
            trim(t)
        } else {
            "default"@
        },
        None => "default"@,
    }
}

/// A topic as it is compared.
pub fn normalize_grpc_topic(topic: Option<&str>) -> (out: String)
    ensures
        out@ == normal_topic(text_of_option(topic)),
{
    if let Some(t) = topic {
        let all = chars_of(t);
        let bare = trim_chars(all.as_slice());
        if bare.len() > 0 {
            return string_of(bare);
        }
    }
    "default".to_owned()
}

/// The topic of a message on the wire.
pub open spec fn topic_of(msg: BridgeView) -> Seq<char> {
    normal_topic(lookup(msg.metadata, TOPIC_KEY@))
}

/// The topic of a message on the wire.
pub fn bridge_message_topic(msg: &BridgeMessage) -> (topic: String)
    ensures
        topic@ == topic_of(msg@),
{
    match msg.metadata.get(TOPIC_KEY) {
        Some(t) => normalize_grpc_topic(Some(t.as_str())),
        None => normalize_grpc_topic(None),
    }
}

/// A consumer's registration for a topic. Its queue is split into shards, which take
/// turns.
#[derive(Debug)]
pub struct SharedGrpcRoute {
    pub topic: String,
    pub shards: usize,
    pub cursor: usize,
    pub subscriber_pending: SubscriberPending,
    pub active_subscribers: NameSet,
}

/// A registration over mathematical values.
pub struct RouteView {
    pub topic: Seq<char>,
    pub shards: usize,
    pub cursor: usize,
    pub pending: Retention,
    pub active: Seq<Seq<char>>,
}

impl View for SharedGrpcRoute {
    type V = RouteView;

    open spec fn view(&self) -> RouteView {
        RouteView {
            topic: self.topic@,
            shards: self.shards,
            cursor: self.cursor,
            pending: self.subscriber_pending@,
            active: self.active_subscribers.order(),
        }
    }
}

impl SharedGrpcRoute {
    /// Whether the registration has a shard, and its retention and subscribers are
    /// sound.
    pub open spec fn wf(self) -> bool {
        &&& self.shards > 0
        &&& self.subscriber_pending.wf()
        &&& self.active_subscribers.wf()
    }
}

/// The registrations of one server, each under its number.
#[derive(Debug)]
pub struct SharedGrpcRouter {
    pub routes: Vec<(u64, SharedGrpcRoute)>,
}

/// Registrations over mathematical values.
pub type Routes = Seq<(u64, RouteView)>;

impl View for SharedGrpcRouter {
    type V = Routes;

    open spec fn view(&self) -> Routes {
        self.routes@.map_values(|r: (u64, SharedGrpcRoute)| (r.0, r.1@))
    }
}

/// The first registration at or after `i` for a topic, or the length.
pub open spec fn topic_at(routes: Routes, topic: Seq<char>, i: int) -> int
    decreases routes.len() - i,
{
    if i >= routes.len() {
        routes.len() as int
    } else if routes[i].1.topic == topic {
        i
    } else {
        topic_at(routes, topic, i + 1)
    }
}

/// The first registration at or after `i` under a number, or the length.
pub open spec fn number_at(routes: Routes, id: u64, i: int) -> int
    decreases routes.len() - i,
{
    if i >= routes.len() {
        routes.len() as int
    } else if routes[i].0 == id {
        i
    } else {
        number_at(routes, id, i + 1)
    }
}

/// Whether some registration is for a topic.
pub open spec fn taken(routes: Routes, topic: Seq<char>) -> bool {
    topic_at(routes, topic, 0) < routes.len()
}

proof fn lemma_topic_at(routes: Routes, topic: Seq<char>, i: int)
    requires
        0 <= i <= routes.len(),
    ensures
        i <= topic_at(routes, topic, i) <= routes.len(),
        topic_at(routes, topic, i) < routes.len() ==> routes[topic_at(routes, topic, i)].1.topic
            == topic,
        forall|k: int|
            i <= k < topic_at(routes, topic, i) ==> (#[trigger] routes[k]).1.topic != topic,
    decreases routes.len() - i,
{
    if i < routes.len() && routes[i].1.topic != topic {
        lemma_topic_at(routes, topic, i + 1);
    }
}

proof fn lemma_topic_at_is(routes: Routes, topic: Seq<char>, i: int, at: int)
    requires
        0 <= i <= at <= routes.len(),
        at < routes.len() ==> routes[at].1.topic == topic,
        forall|k: int| i <= k < at ==> (#[trigger] routes[k]).1.topic != topic,
    ensures
        topic_at(routes, topic, i) == at,
    decreases at - i,
{
    if i < at {
        lemma_topic_at_is(routes, topic, i + 1, at);
    }
}

proof fn lemma_number_at(routes: Routes, id: u64, i: int)
    requires
        0 <= i <= routes.len(),
    ensures
        i <= number_at(routes, id, i) <= routes.len(),
        number_at(routes, id, i) < routes.len() ==> routes[number_at(routes, id, i)].0 == id,
    decreases routes.len() - i,
{
    if i < routes.len() && routes[i].0 != id {
        lemma_number_at(routes, id, i + 1);
    }
}

/// A registration as it starts out.
pub open spec fn new_route(topic: Seq<char>, shards: usize) -> RouteView {
    RouteView { topic, shards, cursor: 0, pending: Retention::empty(), active: seq![] }
}

/// The registrations with one under a number.
pub open spec fn put_route(routes: Routes, id: u64, route: RouteView) -> Routes {
    let i = number_at(routes, id, 0);
    if i < routes.len() {
        routes.update(i, (id, route))
    } else {
        routes.push((id, route))
    }
}

/// The registrations without the one under a number.
pub open spec fn drop_route(routes: Routes, id: u64) -> Routes {
    let i = number_at(routes, id, 0);
    if i < routes.len() {
        routes.remove(i)
    } else {
        routes
    }
}

/// Whether no two registrations are for one topic.
pub open spec fn one_per_topic(routes: Routes) -> bool {
    forall|i: int, j: int|
        0 <= i < j < routes.len() ==> (#[trigger] routes[i]).1.topic != (#[trigger]
        routes[j]).1.topic
}

/// A topic has at most one consumer, whatever is registered or leaves. One that
/// registers for a free topic gets it, and no other topic changes hands.
pub proof fn law_one_consumer_per_topic(routes: Routes, id: u64, topic: Seq<char>, shards: usize)
    requires
        one_per_topic(routes),
    ensures
        !taken(routes, topic) ==> one_per_topic(put_route(routes, id, new_route(topic, shards))),
        !taken(routes, topic) ==> taken(
            put_route(routes, id, new_route(topic, shards)),
            topic,
        ),
        one_per_topic(drop_route(routes, id)),
{
    lemma_topic_at(routes, topic, 0);
    lemma_number_at(routes, id, 0);
    if !taken(routes, topic) {
        let out = put_route(routes, id, new_route(topic, shards));
        assert forall|i: int, j: int| 0 <= i < j < out.len() implies (#[trigger] out[i]).1.topic
            != (#[trigger] out[j]).1.topic by {
            if i < routes.len() {
                assert(routes[i].1.topic != topic);
            }
            if j < routes.len() {
                assert(routes[j].1.topic != topic);
            }
        }
        let at = number_at(routes, id, 0);
        lemma_topic_at_is(out, topic, 0, at);
    }
}

/// What is kept once a message went to these subscribers, one after the other.
pub open spec fn retained_by_all(r: Retention, names: Seq<Seq<char>>, msg: BridgeView) -> Retention
    decreases names.len(),
{
    if names.len() == 0 {
        r
    } else {
        retained_by(retained_by_all(r, names.drop_last(), msg), names.last(), msg)
    }
}

/// What is kept once a message went to a subscriber.
pub open spec fn retained_by(r: Retention, name: Seq<char>, msg: BridgeView) -> Retention {
    let e = entered(r, name);
    let i = place(e, name, 0);
    e.update(i, (name, e[i].1.retained(msg)))
}

/// Whether every subscriber of a list has an entry or finds a free one.
pub open spec fn fits(r: Retention, names: Seq<Seq<char>>, msg: BridgeView) -> bool {
    forall|k: int|
        0 <= k < names.len() ==> {
            let before = #[trigger] retained_by_all(r, names.take(k), msg);
            kept_for(before, names[k]) is Some || before.len()
                < MAX_PENDING_CONSUMERS
        }
}

proof fn lemma_retained_by(r: Retention, name: Seq<char>, msg: BridgeView, other: Seq<char>)
    requires
        sound(r),
        kept_for(r, name) is Some || r.len() < MAX_PENDING_CONSUMERS,
    ensures
        sound(retained_by(r, name, msg)),
        kept_for(retained_by(r, name, msg), name) == Some(
            (match kept_for(r, name) {
                Some(p) => p,
                None => PendingView::nothing(),
            }).retained(msg),
        ),
        other != name ==> kept_for(retained_by(r, name, msg), other) == kept_for(r, other),
{
    law_subscribers_are_bounded(r, name, other);
    let e = entered(r, name);
    lemma_place(e, name, 0);
    lemma_update(e, name, e[place(e, name, 0)].1.retained(msg), other);
    law_retention_is_bounded(e[place(e, name, 0)].1, msg, name);
}

/// A message is kept for every subscriber that was live when it came, where there is
/// room for all of them.
pub proof fn law_dispatch_keeps_for_every_subscriber(
    r: Retention,
    names: Seq<Seq<char>>,
    msg: BridgeView,
    k: int,
)
    requires
        sound(r),
        names.no_duplicates(),
        fits(r, names, msg),
        0 <= k < names.len(),
    ensures
        sound(retained_by_all(r, names, msg)),
        kept_for(retained_by_all(r, names, msg), names[k]) == Some(
            (match kept_for(r, names[k]) {
                Some(p) => p,
                None => PendingView::nothing(),
            }).retained(msg),
        ),
{
    lemma_all(r, names, msg, names[k]);
}

proof fn lemma_all(r: Retention, names: Seq<Seq<char>>, msg: BridgeView, name: Seq<char>)
    requires
        sound(r),
        names.no_duplicates(),
        fits(r, names, msg),
    ensures
        sound(retained_by_all(r, names, msg)),
        names.contains(name) ==> kept_for(retained_by_all(r, names, msg), name) == Some(
            (match kept_for(r, name) {
                Some(p) => p,
                None => PendingView::nothing(),
            }).retained(msg),
        ),
        !names.contains(name) ==> kept_for(retained_by_all(r, names, msg), name) == kept_for(
            r,
            name,
        ),
    decreases names.len(),
{
    if names.len() > 0 {
        let front = names.drop_last();
        let n = names.len() - 1;
        assert(names.take(n) =~= front);
        assert(fits(r, front, msg)) by {
            assert forall|k: int| 0 <= k < front.len() implies {
                let before = #[trigger] retained_by_all(r, front.take(k), msg);
                kept_for(before, front[k]) is Some || before.len()
                    < MAX_PENDING_CONSUMERS
            } by {
                assert(front.take(k) =~= names.take(k));
                let before = retained_by_all(r, names.take(k), msg);
                assert(names[k] == front[k]);
            }
        }
        lemma_all(r, front, msg, name);
        let before = retained_by_all(r, names.take(n), msg);
        assert(kept_for(before, names[n]) is Some || before.len()
            < MAX_PENDING_CONSUMERS);
        lemma_retained_by(before, names.last(), msg, name);
        if front.contains(name) {
            let w = choose|w: int| 0 <= w < front.len() && front[w] == name;
            assert(names[w] == name);
            assert(names[n] != name);
        } else if names.contains(name) {
            let w = choose|w: int| 0 <= w < names.len() && names[w] == name;
            assert(w == n) by {
                if w < n {
                    assert(front[w] == name);
                }
            }
        } else {
            assert(names[n] == names.last());
            assert(names.contains(names[n]));
        }
    }
}

/// Where a message of a topic goes.
#[derive(Debug)]
pub struct Delivery {
    pub route_id: u64,
    pub topic: String,
    pub shard: usize,
}

/// Why a message whose topic nobody consumes is not delivered.
pub open spec fn no_route(topic: Seq<char>) -> Seq<char> {
    "No route for topic '"@ + topic + "'"@
}

/// Why a message whose consumer went away is not delivered.
pub fn undelivered(topic: &str) -> (text: String)
    ensures
        text@ == "No active gRPC consumer for topic '"@ + topic@ + "'"@,
{
    join3("No active gRPC consumer for topic '", topic, "'")
}

/// A registration once a message came for it.
pub open spec fn dispatched(route: RouteView, msg: BridgeView) -> RouteView {
    RouteView {
        pending: retained_by_all(route.pending, route.active, msg),
        cursor: route.cursor.wrapping_add(1),
        ..route
    }
}

/// A subscription that was granted: under which identifier, and what is sent first.
/// An identifier that the server made up is worth nothing once the stream ends.
#[derive(Debug)]
pub struct SubscriptionClaim {
    pub route_id: u64,
    pub consumer_id: String,
    pub ephemeral: bool,
}

/// Why a subscription was refused.
#[derive(Debug)]
pub enum SubscribeError {
    NotFound(String),
    AlreadyExists(String),
}

/// Why a subscription was refused, over character sequences.
pub enum SubscribeErrorView {
    NotFound(Seq<char>),
    AlreadyExists(Seq<char>),
}

impl View for SubscribeError {
    type V = SubscribeErrorView;

    open spec fn view(&self) -> SubscribeErrorView {
        match self {
            SubscribeError::NotFound(t) => SubscribeErrorView::NotFound(t@),
            SubscribeError::AlreadyExists(t) => SubscribeErrorView::AlreadyExists(t@),
        }
    }
}

/// What a subscriber gets again when it comes back.
pub open spec fn replay_for(r: Retention, id: Seq<char>) -> Seq<BridgeView> {
    match kept_for(r, id) {
        Some(p) => p.replayed(),
        None => seq![],
    }
}

/// A registration with one more live subscriber.
pub open spec fn with_active(route: RouteView, id: Seq<char>) -> RouteView {
    RouteView { active: route.active.push(id), ..route }
}

/// A registration once a subscription ended.
pub open spec fn released(route: RouteView, id: Seq<char>, ephemeral: bool) -> RouteView {
    RouteView {
        active: without_name(route.active, id),
        pending: if ephemeral {
            forgotten(route.pending, id)
        } else {
            route.pending
        },
        ..route
    }
}

/// Whether a subscriber of a registration still has to acknowledge a message.
pub open spec fn awaits(route: RouteView, consumer: Seq<char>, id: Seq<char>) -> bool {
    match kept_for(route.pending, consumer) {
        Some(p) => p.unacked.contains(id),
        None => false,
    }
}

/// The first registration at or after `i` whose subscriber still has to acknowledge
/// a message, or the length.
pub open spec fn awaiting_at(routes: Routes, consumer: Seq<char>, id: Seq<char>, i: int) -> int
    decreases routes.len() - i,
{
    if i >= routes.len() {
        routes.len() as int
    } else if awaits(routes[i].1, consumer, id) {
        i
    } else {
        awaiting_at(routes, consumer, id, i + 1)
    }
}

/// A registration once a subscriber acknowledged a message.
pub open spec fn acked_in(route: RouteView, consumer: Seq<char>, id: Seq<char>) -> RouteView {
    let i = place(route.pending, consumer, 0);
    RouteView {
        pending: route.pending.update(i, (consumer, route.pending[i].1.acknowledged(id))),
        ..route
    }
}

/// The registrations once an acknowledgement came. A negative one leaves the message
/// where it is, so that it is delivered again.
pub open spec fn routes_after_ack(routes: Routes, ack: AckView) -> Routes {
    match lookup(ack.metadata, CONSUMER_KEY@) {
        Some(consumer) => {
            let i = awaiting_at(routes, consumer, ack.id, 0);
            if i < routes.len() && ack.status == STATUS_ACK {
                routes.update(i, (routes[i].0, acked_in(routes[i].1, consumer, ack.id)))
            } else {
                routes
            }
        },
        None => routes,
    }
}

/// The answer to an acknowledgement.
#[derive(Debug)]
pub struct AckResponse {
    pub success: bool,
    pub error: String,
}

/// The error that answers an acknowledgement, which is empty where it was taken.
pub open spec fn ack_error(routes: Routes, ack: AckView) -> Seq<char> {
    match lookup(ack.metadata, CONSUMER_KEY@) {
        Some(consumer) => if awaiting_at(routes, consumer, ack.id, 0) < routes.len() {
            ""@
        } else {
            "Unknown consumer or message"@
        },
        None => "Ack is missing the mq_bridge.consumer_id metadata entry"@,
    }
}

/// Whether an acknowledgement is taken: it names its consumer, and that consumer
/// still has to acknowledge the message.
pub open spec fn ack_taken(routes: Routes, ack: AckView) -> bool {
    match lookup(ack.metadata, CONSUMER_KEY@) {
        Some(consumer) => awaiting_at(routes, consumer, ack.id, 0) < routes.len(),
        None => false,
    }
}

impl SharedGrpcRouter {
    /// Whether each registration is sound and no topic is taken twice.
    pub open spec fn wf(self) -> bool {
        &&& one_per_topic(self@)
        &&& forall|i: int| 0 <= i < self.routes@.len() ==> (#[trigger] self.routes@[i]).1.wf()
    }

    /// No registration.
    pub fn new() -> (r: Self)
        ensures
            r.wf(),
            r@ == Routes::empty(),
    {
        let r = SharedGrpcRouter { routes: Vec::new() };
        assert(r@ =~= Routes::empty());
        r
    }

    fn position_of_topic(&self, topic: &str) -> (i: usize)
        ensures
            i == topic_at(self@, topic@, 0),
            i <= self.routes@.len(),
    {
        let mut i: usize = 0;
        while i < self.routes.len()
            invariant
                i <= self.routes@.len(),
                topic_at(self@, topic@, 0) == topic_at(self@, topic@, i as int),
            decreases self.routes@.len() - i,
        {
            assert(self@[i as int].1.topic == self.routes@[i as int].1.topic@);
            if same(self.routes[i].1.topic.as_str(), topic) {
                return i;
            }
            i += 1;
        }
        i
    }

    fn position_of_number(&self, id: u64) -> (i: usize)
        ensures
            i == number_at(self@, id, 0),
            i <= self.routes@.len(),
    {
        let mut i: usize = 0;
        while i < self.routes.len()
            invariant
                i <= self.routes@.len(),
                number_at(self@, id, 0) == number_at(self@, id, i as int),
            decreases self.routes@.len() - i,
        {
            assert(self@[i as int].0 == self.routes@[i as int].0);
            if self.routes[i].0 == id {
                return i;
            }
            i += 1;
        }
        i
    }

    /// Registers a consumer for a topic that nobody consumes yet.
    pub fn register_route(&mut self, route_id: u64, topic: String, shards: usize) -> (res: Result<
        (),
        String,
    >)
        requires
            old(self).wf(),
            shards > 0,
        ensures
            final(self).wf(),
            match res {
                Ok(_) => {
                    &&& !taken(old(self)@, topic@)
                    &&& final(self)@ == put_route(
                        old(self)@,
                        route_id,
                        new_route(topic@, shards),
                    )
                },
                Err(e) => {
                    &&& taken(old(self)@, topic@)
                    &&& *final(self) == *old(self)
                    &&& e@ == "Conflicting gRPC consumer registration for topic '"@ + topic@
                        + "'"@
                },
            },
    {
        proof {
            law_one_consumer_per_topic(self@, route_id, topic@, shards);
        }
        if self.position_of_topic(topic.as_str()) < self.routes.len() {
            return Err(
                join3(
                    "Conflicting gRPC consumer registration for topic '",
                    topic.as_str(),
                    "'",
                ),
            );
        }
        let i: usize = self.position_of_number(route_id);
        let ghost before = self@;
        let route = SharedGrpcRoute {
            topic,
            shards,
            cursor: 0,
            subscriber_pending: SubscriberPending::new(),
            active_subscribers: NameSet::new(),
        };
        assert(route@ == new_route(topic@, shards));
        if i < self.routes.len() {
            self.routes.set(i, (route_id, route));
            assert(self@ =~= before.update(i as int, (route_id, new_route(topic@, shards))));
        } else {
            self.routes.push((route_id, route));
            assert(self@ =~= before.push((route_id, new_route(topic@, shards))));
        }
        Ok(())
    }

    /// Drops a registration, and says whether none is left.
    pub fn unregister_route(&mut self, route_id: u64) -> (empty: bool)
        requires
            old(self).wf(),
        ensures
            final(self).wf(),
            final(self)@ == drop_route(old(self)@, route_id),
            empty == (final(self)@.len() == 0),
    {
        proof {
            law_one_consumer_per_topic(self@, route_id, seq![], 1);
        }
        let i: usize = self.position_of_number(route_id);
        if i < self.routes.len() {
            let ghost before = self@;
            self.routes.remove(i);
            assert(self@ =~= before.remove(i as int));
        }
        self.routes.len() == 0
    }

    /// The number of the registration for a topic.
    pub fn route_for_topic(&self, topic: &str) -> (id: Option<u64>)
        ensures
            match id {
                Some(n) => taken(self@, topic@) && self@[topic_at(self@, topic@, 0)].0 == n,
                None => !taken(self@, topic@),
            },
    {
        let i: usize = self.position_of_topic(topic);
        if i < self.routes.len() {
            Some(self.routes[i].0)
        } else {
            None
        }
    }

    /// Takes a message in: it is kept for every live subscriber of its topic, and
    /// goes to the next shard of its consumer.
    pub fn dispatch(&mut self, msg: &BridgeMessage) -> (res: Result<Delivery, String>)
        requires
            old(self).wf(),
        ensures
            final(self).wf(),
            match res {
                Ok(d) => {
                    let i = topic_at(old(self)@, topic_of(msg@), 0);
                    let route = old(self)@[i].1;
                    &&& taken(old(self)@, topic_of(msg@))
                    &&& final(self)@ == old(self)@.update(
                        i,
                        (old(self)@[i].0, dispatched(route, msg@)),
                    )
                    &&& d.route_id == old(self)@[i].0
                    &&& d.topic@ == topic_of(msg@)
                    &&& d.shard as int == route.cursor as int % route.shards as int
                    &&& d.shard < route.shards
                },
                Err(e) => {
                    &&& !taken(old(self)@, topic_of(msg@))
                    &&& *final(self) == *old(self)
                    &&& e@ == no_route(topic_of(msg@))
                },
            },
    {
        let topic = bridge_message_topic(msg);
        let i: usize = self.position_of_topic(topic.as_str());
        if i >= self.routes.len() {
            return Err(join3("No route for topic '", topic.as_str(), "'"));
        }
        let ghost before = self@;
        let ghost olds = self.routes@;
        proof {
            lemma_topic_at(before, topic@, 0);
        }
        let route_id: u64 = self.routes[i].0;
        let cursor: usize = self.routes[i].1.cursor;
        let shards: usize = self.routes[i].1.shards;
        assert(self.routes@[i as int].1.wf());
        retain_for(&mut self.routes[i].1, msg);
        self.routes[i].1.cursor = cursor.wrapping_add(1);
        assert(self@ =~= before.update(i as int, (route_id, dispatched(before[i as int].1, msg@))));
        assert(forall|k: int|
            0 <= k < self.routes@.len() && k != i ==> #[trigger] self.routes@[k] == olds[k]);
        Ok(Delivery { route_id, topic, shard: cursor % shards })
    }

    /// Grants a subscription under an identifier that no live subscription of the
    /// topic has, and says what is sent first.
    pub fn subscribe_as(&mut self, topic: &str, consumer_id: String, ephemeral: bool) -> (res:
        Result<(SubscriptionClaim, Vec<BridgeMessage>), SubscribeError>)
        requires
            old(self).wf(),
        ensures
            final(self).wf(),
            subscribed(old(self)@, topic@, consumer_id@, ephemeral, final(self)@, res),
    {
        let name = normalize_grpc_topic(Some(topic));
        let i: usize = self.position_of_topic(name.as_str());
        if i >= self.routes.len() {
            return Err(SubscribeError::NotFound(join3("No active gRPC topic '", name.as_str(), "'")));
        }
        let ghost before = self@;
        let ghost olds = self.routes@;
        proof {
            lemma_topic_at(before, name@, 0);
        }
        assert(self.routes@[i as int].1.wf());
        let route_id: u64 = self.routes[i].0;
        if !self.routes[i].1.active_subscribers.insert(consumer_id.as_str()) {
            assert(self@ =~= before);
            assert(forall|k: int|
                0 <= k < self.routes@.len() && k != i ==> #[trigger] self.routes@[k] == olds[k]);
            return Err(
                SubscribeError::AlreadyExists(
                    join5(
                        "gRPC consumer_id '",
                        consumer_id.as_str(),
                        "' already has an active subscription on topic '",
                        name.as_str(),
                        "'",
                    ),
                ),
            );
        }
        assert(self@ =~= before.update(
            i as int,
            (route_id, with_active(before[i as int].1, consumer_id@)),
        ));
        assert(forall|k: int|
            0 <= k < self.routes@.len() && k != i ==> #[trigger] self.routes@[k] == olds[k]);
        let replay = match self.routes[i].1.subscriber_pending.get(consumer_id.as_str()) {
            Some(p) => p.replay(),
            None => Vec::new(),
        };
        assert(bridge_views(replay@) =~= replay_for(before[i as int].1.pending, consumer_id@));
        Ok((SubscriptionClaim { route_id, consumer_id, ephemeral }, replay))
    }

    /// Grants a subscription. A subscriber without an identifier gets a fresh one,
    /// which only lasts as long as its stream.
    pub fn subscribe(&mut self, topic: &str, consumer_id: String) -> (res: Result<
        (SubscriptionClaim, Vec<BridgeMessage>),
        SubscribeError,
    >)
        requires
            old(self).wf(),
        ensures
            final(self).wf(),
            consumer_id@.len() > 0 ==> subscribed(
                old(self)@,
                topic@,
                consumer_id@,
                false,
                final(self)@,
                res,
            ),
            consumer_id@.len() == 0 ==> exists|id: Seq<char>| #[trigger]
                is_v7_decimal(id) && subscribed(
                    old(self)@,
                    topic@,
                    id,
                    true,
                    final(self)@,
                    res,
                ),
    {
        if consumer_id.as_str().is_empty() {
            let id = fresh_id_decimal();
            self.subscribe_as(topic, id, true)
        } else {
            self.subscribe_as(topic, consumer_id, false)
        }
    }

    /// Ends a subscription: its identifier is free again, and where the server made
    /// it up, what was kept under it goes too.
    pub fn release(&mut self, claim: SubscriptionClaim)
        requires
            old(self).wf(),
        ensures
            final(self).wf(),
            final(self)@ == ({
                let i = number_at(old(self)@, claim.route_id, 0);
                if i < old(self)@.len() {
                    old(self)@.update(
                        i,
                        (
                            claim.route_id,
                            released(old(self)@[i].1, claim.consumer_id@, claim.ephemeral),
                        ),
                    )
                } else {
                    old(self)@
                }
            }),
    {
        let i: usize = self.position_of_number(claim.route_id);
        if i >= self.routes.len() {
            return;
        }
        let ghost before = self@;
        let ghost olds = self.routes@;
        proof {
            lemma_number_at(before, claim.route_id, 0);
        }
        assert(self.routes@[i as int].1.wf());
        self.routes[i].1.active_subscribers.remove(claim.consumer_id.as_str());
        if claim.ephemeral {
            self.routes[i].1.subscriber_pending.remove(claim.consumer_id.as_str());
        }
        assert(self@ =~= before.update(
            i as int,
            (
                claim.route_id,
                released(before[i as int].1, claim.consumer_id@, claim.ephemeral),
            ),
        ));
        assert(forall|k: int|
            0 <= k < self.routes@.len() && k != i ==> #[trigger] self.routes@[k] == olds[k]);
    }

    /// Takes a subscriber's acknowledgement of a message.
    pub fn acknowledge(&mut self, ack: &Ack) -> (res: AckResponse)
        requires
            old(self).wf(),
        ensures
            final(self).wf(),
            final(self)@ == routes_after_ack(old(self)@, ack@),
            res.success == ack_taken(old(self)@, ack@),
            res.error@ == ack_error(old(self)@, ack@),
    {
        let consumer = match ack.metadata.get(CONSUMER_KEY) {
            Some(c) => c,
            None => {
                return AckResponse {
                    success: false,
                    error: "Ack is missing the mq_bridge.consumer_id metadata entry".to_owned(),
                };
            },
        };
        let i: usize = self.position_awaiting(consumer.as_str(), ack.id.as_str());
        if i >= self.routes.len() {
            return AckResponse { success: false, error: "Unknown consumer or message".to_owned() };
        }
        let ghost before = self@;
        let ghost olds = self.routes@;
        proof {
            lemma_awaiting_at(before, consumer@, ack.id@, 0);
        }
        assert(self.routes@[i as int].1.wf());
        if ack.status == STATUS_ACK {
            if let Some(p) = self.routes[i].1.subscriber_pending.get_mut(consumer.as_str()) {
                p.acknowledge(ack.id.as_str());
            }
            assert(self@ =~= before.update(
                i as int,
                (before[i as int].0, acked_in(before[i as int].1, consumer@, ack.id@)),
            ));
            assert(forall|k: int|
                0 <= k < self.routes@.len() && k != i ==> #[trigger] self.routes@[k] == olds[k]);
        }
        AckResponse { success: true, error: "".to_owned() }
    }

    fn position_awaiting(&self, consumer: &str, id: &str) -> (i: usize)
        ensures
            i == awaiting_at(self@, consumer@, id@, 0),
            i <= self.routes@.len(),
    {
        let mut i: usize = 0;
        while i < self.routes.len()
            invariant
                i <= self.routes@.len(),
                awaiting_at(self@, consumer@, id@, 0) == awaiting_at(
                    self@,
                    consumer@,
                    id@,
                    i as int,
                ),
            decreases self.routes@.len() - i,
        {
            assert(self@[i as int].1 == self.routes@[i as int].1@);
            if let Some(p) = self.routes[i].1.subscriber_pending.get(consumer) {
                if p.is_unacked(id) {
                    return i;
                }
            }
            i += 1;
        }
        i
    }
}

proof fn lemma_awaiting_at(routes: Routes, consumer: Seq<char>, id: Seq<char>, i: int)
    requires
        0 <= i <= routes.len(),
    ensures
        i <= awaiting_at(routes, consumer, id, i) <= routes.len(),
        awaiting_at(routes, consumer, id, i) < routes.len() ==> awaits(
            routes[awaiting_at(routes, consumer, id, i)].1,
            consumer,
            id,
        ),
    decreases routes.len() - i,
{
    if i < routes.len() && !awaits(routes[i].1, consumer, id) {
        lemma_awaiting_at(routes, consumer, id, i + 1);
    }
}

/// What asking for a subscription under an identifier comes to.
pub open spec fn subscribed(
    before: Routes,
    topic: Seq<char>,
    id: Seq<char>,
    ephemeral: bool,
    after: Routes,
    res: Result<(SubscriptionClaim, Vec<BridgeMessage>), SubscribeError>,
) -> bool {
    let name = normal_topic(Some(topic));
    let i = topic_at(before, name, 0);
    match res {
        Ok(granted) => {
            &&& taken(before, name)
            &&& !before[i].1.active.contains(id)
            &&& after == before.update(i, (before[i].0, with_active(before[i].1, id)))
            &&& granted.0.route_id == before[i].0
            &&& granted.0.consumer_id@ == id
            &&& granted.0.ephemeral == ephemeral
            &&& bridge_views(granted.1@) == replay_for(before[i].1.pending, id)
        },
        Err(e) => {
            &&& after == before
            &&& if taken(before, name) {
                &&& before[i].1.active.contains(id)
                &&& e@ == SubscribeErrorView::AlreadyExists(
                    "gRPC consumer_id '"@ + id + "' already has an active subscription on topic '"@
                        + name + "'"@,
                )
            } else {
                e@ == SubscribeErrorView::NotFound("No active gRPC topic '"@ + name + "'"@)
            }
        },
    }
}

/// Keeps a message for every live subscriber.
fn retain_for(route: &mut SharedGrpcRoute, msg: &BridgeMessage)
    requires
        old(route).wf(),
    ensures
        final(route).wf(),
        final(route)@ == (RouteView {
            pending: retained_by_all(old(route)@.pending, old(route)@.active, msg@),
            ..old(route)@
        }),
{
    let mut i: usize = 0;
    let ghost names = route@.active;
    let ghost r = route@.pending;
    assert(names.take(0) =~= seq![]);
    while i < route.active_subscribers.names.len()
        invariant
            i <= route.active_subscribers.names@.len(),
            names == texts(route.active_subscribers.names@),
            route.active_subscribers == old(route).active_subscribers,
            route.shards == old(route).shards,
            route.cursor == old(route).cursor,
            route.topic == old(route).topic,
            route.wf(),
            route@.pending == retained_by_all(r, names.take(i as int), msg@),
        decreases route.active_subscribers.names@.len() - i,
    {
        let ghost before = route@.pending;
        assert(names.take(i + 1).drop_last() =~= names.take(i as int));
        assert(names.take(i + 1).last() == route.active_subscribers.names@[i as int]@);
        proof {
            law_subscribers_are_bounded(before, names[i as int], names[i as int]);
        }
        let name = route.active_subscribers.names[i].clone();
        route.subscriber_pending.entry(name.as_str()).retain(msg);
        i += 1;
    }
    assert(names.take(names.len() as int) =~= names);
}

/// What a live subscription does with what is broadcast on its topic.
#[derive(Debug)]
pub enum Broadcast {
    Message(BridgeMessage),
    /// The subscriber fell behind and missed messages.
    Lagged,
    Closed,
}

/// The next step of a live subscription.
#[derive(Debug)]
pub enum StreamStep {
    Send(BridgeMessage),
    Skip,
    /// The stream ends. What was missed is kept, and sent when the subscriber comes
    /// back.
    Stop,
}

/// The next step of a live subscription. A message that was already sent from what
/// was kept is not sent twice.
pub fn subscription_step(replayed: &NameSet, event: Broadcast) -> (step: StreamStep)
    ensures
        match event {
            Broadcast::Message(m) => if replayed@.contains(m.id@) {
                step is Skip
            } else {
                step == StreamStep::Send(m)
            },
            Broadcast::Lagged => step is Stop,
            Broadcast::Closed => step is Stop,
        },
{
    match event {
        Broadcast::Message(m) => if replayed.contains(m.id.as_str()) {
            StreamStep::Skip
        } else {
            StreamStep::Send(m)
        },
        Broadcast::Lagged => StreamStep::Stop,
        Broadcast::Closed => StreamStep::Stop,
    }
}

/// The identifiers of messages.
pub fn ids_of(messages: &Vec<BridgeMessage>) -> (ids: NameSet)
    ensures
        ids.wf(),
        forall|id: Seq<char>| #[trigger]
            ids@.contains(id) <==> queued(bridge_views(messages@), id),
{
    let mut ids = NameSet::new();
    let mut i: usize = 0;
    let ghost all = bridge_views(messages@);
    while i < messages.len()
        invariant
            i <= messages@.len(),
            ids.wf(),
            all == bridge_views(messages@),
            forall|id: Seq<char>| #[trigger]
                ids@.contains(id) <==> queued(all.take(i as int), id),
        decreases messages@.len() - i,
    {
        let ghost before = ids@;
        ids.insert(messages[i].id.as_str());
        assert forall|id: Seq<char>| #[trigger] ids@.contains(id) <==> queued(
            all.take(i + 1),
            id,
        ) by {
            let now = all.take(i + 1);
            let was = all.take(i as int);
            assert(now[i as int].id == messages@[i as int].id@);
            if queued(was, id) {
                let w = choose|w: int| 0 <= w < was.len() && (#[trigger] was[w]).id == id;
                assert(now[w].id == id);
            }
            if queued(now, id) && id != messages@[i as int].id@ {
                let w = choose|w: int| 0 <= w < now.len() && (#[trigger] now[w]).id == id;
                assert(was[w].id == id);
            }
        }
        i += 1;
    }
    assert(all.take(all.len() as int) =~= all);
    ids
}

/// An acknowledgement counts once: it is taken while its subscriber has to
/// acknowledge the message, and where one topic kept the message for that subscriber
/// it is refused from then on.
pub proof fn law_second_ack_is_refused(routes: Routes, ack: AckView, consumer: Seq<char>)
    requires
        lookup(ack.metadata, CONSUMER_KEY@) == Some(consumer),
        ack.status == STATUS_ACK,
        forall|i: int, j: int|
            0 <= i < j < routes.len() ==> !(awaits((#[trigger] routes[i]).1, consumer, ack.id)
                && awaits((#[trigger] routes[j]).1, consumer, ack.id)),
    ensures
        !ack_taken(routes_after_ack(routes, ack), ack),
{
    let at = awaiting_at(routes, consumer, ack.id, 0);
    lemma_awaiting_at(routes, consumer, ack.id, 0);
    let out = routes_after_ack(routes, ack);
    if at < routes.len() {
        let route = routes[at].1;
        lemma_update(
            route.pending,
            consumer,
            route.pending[place(route.pending, consumer, 0)].1.acknowledged(ack.id),
            consumer,
        );
        assert(!awaits(out[at].1, consumer, ack.id));
        assert forall|k: int| 0 <= k < out.len() implies !awaits(
            (#[trigger] out[k]).1,
            consumer,
            ack.id,
        ) by {
            if k != at {
                assert(out[k] == routes[k]);
                if k < at {
                    assert(!(awaits(routes[k].1, consumer, ack.id) && awaits(
                        routes[at].1,
                        consumer,
                        ack.id,
                    )));
                } else {
                    assert(!(awaits(routes[at].1, consumer, ack.id) && awaits(
                        routes[k].1,
                        consumer,
                        ack.id,
                    )));
                }
            }
        }
        lemma_none_awaits(out, consumer, ack.id, 0);
    }
}

proof fn lemma_none_awaits(routes: Routes, consumer: Seq<char>, id: Seq<char>, i: int)
    requires
        0 <= i <= routes.len(),
        forall|k: int| 0 <= k < routes.len() ==> !awaits((#[trigger] routes[k]).1, consumer, id),
    ensures
        awaiting_at(routes, consumer, id, i) == routes.len(),
    decreases routes.len() - i,
{
    if i < routes.len() {
        lemma_none_awaits(routes, consumer, id, i + 1);
    }
}

/// A refused message stays with its subscriber, and its refusal changes nothing.
pub proof fn law_refused_message_is_delivered_again(routes: Routes, ack: AckView)
    requires
        ack.status != STATUS_ACK,
    ensures
        routes_after_ack(routes, ack) == routes,
{
}

/// Two live subscriptions of a topic never share an identifier, and a subscription
/// that ended leaves its identifier free.
pub proof fn law_one_live_subscription_per_identifier(
    route: RouteView,
    id: Seq<char>,
    ephemeral: bool,
)
    requires
        route.active.no_duplicates(),
    ensures
        !route.active.contains(id) ==> with_active(route, id).active.no_duplicates(),
        !route.active.contains(id) ==> released(with_active(route, id), id, ephemeral).active
            == route.active,
        !released(route, id, ephemeral).active.contains(id),
{
    let rows = route.active;
    lemma_without_name(rows, id);
    if !rows.contains(id) {
        let more = rows.push(id);
        assert(forall|i: int| 0 <= i < rows.len() ==> #[trigger] more[i] == rows[i]);
        lemma_name_at_is(more, id, 0, rows.len() as int);
        assert(without_name(more, id) =~= rows);
    }
}

} // verus!
