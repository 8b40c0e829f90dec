//! Messages that wait for a subscriber's acknowledgement.

use vstd::prelude::*;

use crate::grpc::bridge::{bridge_views, BridgeMessage, BridgeView};
use crate::names::NameSet;
use crate::text::same;

verus! {

/// The unacknowledged messages that are kept for one subscriber.
pub const MAX_PENDING_PER_CONSUMER: usize = 1024;

/// The subscribers that are kept for one route.
pub const MAX_PENDING_CONSUMERS: usize = 64;

/// The unacknowledged messages of one subscriber, so that it gets them again when it
/// comes back. What is unacknowledged decides. The queue keeps the order of arrival
/// and may still hold what was acknowledged since, but no identifier twice.
#[derive(Debug)]
pub struct PendingMessages {
    pub queue: Vec<BridgeMessage>,
    pub unacked: NameSet,
}

/// Pending messages over mathematical values.
pub struct PendingView {
    pub queue: Seq<BridgeView>,
    pub unacked: Set<Seq<char>>,
}

impl View for PendingMessages {
    type V = PendingView;

    open spec fn view(&self) -> PendingView {
        PendingView { queue: bridge_views(self.queue@), unacked: self.unacked@ }
    }
}

/// The messages whose identifiers are in a set, in order.
pub open spec fn held(queue: Seq<BridgeView>, ids: Set<Seq<char>>) -> Seq<BridgeView>
    decreases queue.len(),
{
    if queue.len() == 0 {
        seq![]
    } else {
        let rest = held(queue.drop_last(), ids);
        if ids.contains(queue.last().id) {
            rest.push(queue.last())
        } else {
            rest
        }
    }
}

/// Whether an identifier occurs in a queue.
pub open spec fn queued(queue: Seq<BridgeView>, id: Seq<char>) -> bool {
    exists|i: int| 0 <= i < queue.len() && (#[trigger] queue[i]).id == id
}

/// Whether no identifier occurs twice in a queue.
pub open spec fn distinct(queue: Seq<BridgeView>) -> bool {
    forall|i: int, j: int|
        0 <= i < j < queue.len() ==> (#[trigger] queue[i]).id != (#[trigger] queue[j]).id
}

/// All identifiers but one.
pub open spec fn all_but(id: Seq<char>) -> Set<Seq<char>> {
    Set::new(|k: Seq<char>| k != id)
}

/// The messages under other identifiers, in order.
pub open spec fn others(queue: Seq<BridgeView>, id: Seq<char>) -> Seq<BridgeView> {
    held(queue, all_but(id))
}

/// A full queue without what was acknowledged, another queue as it is.
pub open spec fn compacted(queue: Seq<BridgeView>, unacked: Set<Seq<char>>) -> Seq<BridgeView> {
    if queue.len() >= MAX_PENDING_PER_CONSUMER {
        held(queue, unacked)
    } else {
        queue
    }
}

impl PendingView {
    /// Whether the queue is within its bound and holds every unacknowledged message,
    /// and none twice.
    pub open spec fn wf(self) -> bool {
        &&& self.queue.len() <= MAX_PENDING_PER_CONSUMER
        &&& distinct(self.queue)
        &&& forall|id: Seq<char>| #[trigger]
            self.unacked.contains(id) ==> queued(self.queue, id)
    }

    /// What is kept once a message arrived: an unacknowledged one is not kept twice, one
    /// that was acknowledged before takes the place of its earlier copy, and where the
    /// bound is reached the oldest one leaves.
    pub open spec fn retained(self, msg: BridgeView) -> PendingView {
        if self.unacked.contains(msg.id) {
            self
        } else {
            let ids = self.unacked.insert(msg.id);
            let queue = compacted(others(self.queue, msg.id), ids);
            if queue.len() >= MAX_PENDING_PER_CONSUMER {
                PendingView { queue: queue.skip(1).push(msg), unacked: ids.remove(queue[0].id) }
            } else {
                PendingView { queue: queue.push(msg), unacked: ids }
            }
        }
    }

    /// What is kept once an identifier was acknowledged.
    pub open spec fn acknowledged(self, id: Seq<char>) -> PendingView {
        PendingView { queue: self.queue, unacked: self.unacked.remove(id) }
    }

    /// What a subscriber that comes back gets again.
    pub open spec fn replayed(self) -> Seq<BridgeView> {
        held(self.queue, self.unacked)
    }

    /// Nothing kept.
    pub open spec fn nothing() -> PendingView {
        PendingView { queue: seq![], unacked: Set::empty() }
    }
}

proof fn lemma_held(queue: Seq<BridgeView>, ids: Set<Seq<char>>)
    ensures
        held(queue, ids).len() <= queue.len(),
        forall|i: int|
            0 <= i < held(queue, ids).len() ==> ids.contains((#[trigger] held(queue, ids)[i]).id)
                && queue.contains(held(queue, ids)[i]),
        forall|i: int|
            0 <= i < queue.len() && ids.contains((#[trigger] queue[i]).id) ==> held(
                queue,
                ids,
            ).contains(queue[i]),
    decreases queue.len(),
{
    if queue.len() > 0 {
        let front = queue.drop_last();
        lemma_held(front, ids);
        let rest = held(front, ids);
        let out = held(queue, ids);
        assert forall|i: int| 0 <= i < out.len() implies ids.contains((#[trigger] out[i]).id)
            && queue.contains(out[i]) by {
            if i < rest.len() {
                assert(out[i] == rest[i]);
                let w = choose|w: int| 0 <= w < front.len() && front[w] == rest[i];
                assert(queue[w] == rest[i]);
            } else {
                assert(queue[queue.len() - 1] == out[i]);
            }
        }
        assert forall|i: int|
            0 <= i < queue.len() && ids.contains((#[trigger] queue[i]).id) implies out.contains(
            queue[i],
        ) by {
            if i < front.len() {
                assert(front[i] == queue[i]);
                let w = choose|w: int| 0 <= w < rest.len() && rest[w] == queue[i];
                assert(out[w] == queue[i]);
            } else {
                assert(out[out.len() - 1] == queue[i]);
            }
        }
    }
}

/// What is in a queue stays in it when what is not in the set leaves.
proof fn lemma_held_keeps(queue: Seq<BridgeView>, ids: Set<Seq<char>>, id: Seq<char>)
    requires
        queued(queue, id),
        ids.contains(id),
    ensures
        queued(held(queue, ids), id),
{
    lemma_held(queue, ids);
    let i = choose|i: int| 0 <= i < queue.len() && (#[trigger] queue[i]).id == id;
    let out = held(queue, ids);
    let w = choose|w: int| 0 <= w < out.len() && out[w] == queue[i];
    assert(out[w].id == id);
}

/// A queue without repetition stays one when messages leave it.
proof fn lemma_held_distinct(queue: Seq<BridgeView>, ids: Set<Seq<char>>)
    requires
        distinct(queue),
    ensures
        distinct(held(queue, ids)),
    decreases queue.len(),
{
    if queue.len() > 0 {
        let front = queue.drop_last();
        assert(distinct(front)) by {
            assert forall|i: int, j: int| 0 <= i < j < front.len() implies (
            #[trigger] front[i]).id != (#[trigger] front[j]).id by {
                assert(front[i] == queue[i] && front[j] == queue[j]);
            }
        }
        lemma_held_distinct(front, ids);
        lemma_held(front, ids);
        let rest = held(front, ids);
        if ids.contains(queue.last().id) {
            let out = rest.push(queue.last());
            assert forall|i: int, j: int| 0 <= i < j < out.len() implies (#[trigger] out[i]).id
                != (#[trigger] out[j]).id by {
                if j == rest.len() {
                    assert(front.contains(rest[i]));
                    let w = choose|w: int| 0 <= w < front.len() && front[w] == rest[i];
                    assert(queue[w].id != queue[queue.len() - 1].id);
                } else {
                    assert(rest[i] == out[i] && rest[j] == out[j]);
                }
            }
        }
    }
}

/// Nothing leaves a queue that has no such identifier.
proof fn lemma_others_same(queue: Seq<BridgeView>, id: Seq<char>)
    requires
        forall|k: int| 0 <= k < queue.len() ==> (#[trigger] queue[k]).id != id,
    ensures
        others(queue, id) == queue,
    decreases queue.len(),
{
    if queue.len() > 0 {
        let front = queue.drop_last();
        assert forall|k: int| 0 <= k < front.len() implies (#[trigger] front[k]).id != id by {
            assert(front[k] == queue[k]);
        }
        lemma_others_same(front, id);
        assert(queue[queue.len() - 1].id != id);
        assert(others(queue, id) =~= queue);
    } else {
        assert(others(queue, id) =~= queue);
    }
}

/// The one message under an identifier leaves its queue.
proof fn lemma_others(queue: Seq<BridgeView>, id: Seq<char>, at: int)
    requires
        0 <= at < queue.len(),
        queue[at].id == id,
        distinct(queue),
    ensures
        others(queue, id) == queue.remove(at),
    decreases queue.len(),
{
    let front = queue.drop_last();
    if at == queue.len() - 1 {
        assert forall|k: int| 0 <= k < front.len() implies (#[trigger] front[k]).id != id by {
            assert(front[k] == queue[k]);
            assert(queue[k].id != queue[at].id);
        }
        lemma_others_same(front, id);
        assert(queue.remove(at) =~= front);
    } else {
        assert forall|i: int, j: int| 0 <= i < j < front.len() implies (#[trigger] front[i]).id
            != (#[trigger] front[j]).id by {
            assert(front[i] == queue[i] && front[j] == queue[j]);
        }
        lemma_others(front, id, at);
        assert(queue[at].id != queue[queue.len() - 1].id);
        assert(queue.remove(at) =~= front.remove(at).push(queue.last()));
    }
}

/// What is kept stays within its bound and complete, whatever arrives or is
/// acknowledged.
pub proof fn law_retention_is_bounded(p: PendingView, msg: BridgeView, id: Seq<char>)
    requires
        p.wf(),
    ensures
        PendingView::nothing().wf(),
        p.retained(msg).wf(),
        p.acknowledged(id).wf(),
        p.replayed().len() <= MAX_PENDING_PER_CONSUMER,
{
    lemma_held(p.queue, p.unacked);
    if !p.unacked.contains(msg.id) {
        let ids = p.unacked.insert(msg.id);
        let rest = others(p.queue, msg.id);
        let queue = compacted(rest, ids);
        let out = p.retained(msg);
        lemma_rest(p, msg.id);
        assert(distinct(out.queue)) by {
            assert forall|i: int, j: int| 0 <= i < j < out.queue.len() implies (
            #[trigger] out.queue[i]).id != (#[trigger] out.queue[j]).id by {
                let shift = if queue.len() >= MAX_PENDING_PER_CONSUMER {
                    1int
                } else {
                    0
                };
                assert(out.queue[i] == queue[i + shift]);
                if j < out.queue.len() - 1 {
                    assert(out.queue[j] == queue[j + shift]);
                }
            }
        }
        assert forall|k: Seq<char>| #[trigger] out.unacked.contains(k) implies queued(
            out.queue,
            k,
        ) by {
            if k == msg.id {
                assert(out.queue[out.queue.len() - 1].id == k);
            } else {
                assert(queued(p.queue, k));
                lemma_held_keeps(p.queue, all_but(msg.id), k);
                if rest.len() >= MAX_PENDING_PER_CONSUMER {
                    lemma_held_keeps(rest, ids, k);
                }
                let i = choose|i: int| 0 <= i < queue.len() && (#[trigger] queue[i]).id == k;
                if queue.len() >= MAX_PENDING_PER_CONSUMER {
                    assert(out.queue[i - 1].id == k);
                } else {
                    assert(out.queue[i].id == k);
                }
            }
        }
    }
}

/// The queue that a message joins is within its bound, without repetition, and has no
/// message under the same identifier.
proof fn lemma_rest(p: PendingView, id: Seq<char>)
    requires
        p.wf(),
    ensures
        ({
            let queue = compacted(others(p.queue, id), p.unacked.insert(id));
            &&& queue.len() <= p.queue.len()
            &&& distinct(queue)
            &&& forall|k: int| 0 <= k < queue.len() ==> (#[trigger] queue[k]).id != id
        }),
{
    let ids = p.unacked.insert(id);
    let rest = others(p.queue, id);
    let queue = compacted(rest, ids);
    lemma_held(p.queue, all_but(id));
    lemma_held_distinct(p.queue, all_but(id));
    lemma_held(rest, ids);
    lemma_held_distinct(rest, ids);
    assert forall|k: int| 0 <= k < queue.len() implies (#[trigger] queue[k]).id != id by {
        if rest.len() >= MAX_PENDING_PER_CONSUMER {
            assert(rest.contains(queue[k]));
            let w = choose|w: int| 0 <= w < rest.len() && rest[w] == queue[k];
            assert(rest[w].id != id);
        }
    }
}

/// A subscriber that comes back gets every unacknowledged message once, and nothing
/// that was acknowledged.
pub proof fn law_replay_is_what_is_unacknowledged(p: PendingView)
    requires
        p.wf(),
    ensures
        forall|i: int|
            0 <= i < p.replayed().len() ==> p.unacked.contains((#[trigger] p.replayed()[i]).id),
        forall|id: Seq<char>| #[trigger] p.unacked.contains(id) ==> queued(p.replayed(), id),
        distinct(p.replayed()),
{
    lemma_held(p.queue, p.unacked);
    lemma_held_distinct(p.queue, p.unacked);
    assert forall|id: Seq<char>| #[trigger] p.unacked.contains(id) implies queued(
        p.replayed(),
        id,
    ) by {
        lemma_held_keeps(p.queue, p.unacked, id);
    }
}

/// A message that arrives while none under its identifier waits is the last one that
/// its subscriber gets again, also where one was acknowledged before.
pub proof fn law_new_message_is_replayed(p: PendingView, msg: BridgeView)
    requires
        p.wf(),
        !p.unacked.contains(msg.id),
    ensures
        p.retained(msg).replayed().len() > 0,
        p.retained(msg).replayed().last() == msg,
        distinct(p.retained(msg).replayed()),
{
    lemma_rest(p, msg.id);
    let out = p.retained(msg);
    assert(out.queue.last() == msg);
    assert(out.unacked.contains(msg.id));
    law_retention_is_bounded(p, msg, msg.id);
    lemma_held_distinct(out.queue, out.unacked);
}

/// An acknowledged message is not delivered again; the others keep their order.
pub proof fn law_acknowledged_is_not_replayed(p: PendingView, id: Seq<char>)
    ensures
        !queued(p.acknowledged(id).replayed(), id),
        p.acknowledged(id).replayed() == held(p.replayed(), p.unacked.remove(id)),
{
    lemma_held(p.queue, p.unacked.remove(id));
    lemma_held_twice(p.queue, p.unacked, p.unacked.remove(id));
}

proof fn lemma_held_twice(queue: Seq<BridgeView>, ids: Set<Seq<char>>, fewer: Set<Seq<char>>)
    requires
        fewer.subset_of(ids),
    ensures
        held(held(queue, ids), fewer) == held(queue, fewer),
    decreases queue.len(),
{
    if queue.len() > 0 {
        lemma_held_twice(queue.drop_last(), ids, fewer);
        if ids.contains(queue.last().id) {
            let rest = held(queue.drop_last(), ids);
            assert(rest.push(queue.last()).drop_last() =~= rest);
        }
    }
}

/// Messages are delivered again in the order in which they came. A new one goes to the
/// end, and only where a thousand and twenty-four others still wait the oldest of them
/// gives way. One that waits already changes nothing.
pub proof fn law_replay_keeps_the_order(p: PendingView, msg: BridgeView)
    requires
        p.wf(),
    ensures
        p.unacked.contains(msg.id) ==> p.retained(msg).replayed() == p.replayed(),
        !p.unacked.contains(msg.id) ==> p.retained(msg).replayed() == (if p.replayed().len()
            < 1024 {
            p.replayed().push(msg)
        } else {
            p.replayed().skip(1).push(msg)
        }),
{
    if !p.unacked.contains(msg.id) {
        let ids = p.unacked.insert(msg.id);
        let rest = others(p.queue, msg.id);
        let queue = compacted(rest, ids);
        let out = p.retained(msg);
        lemma_rest(p, msg.id);
        lemma_held(p.queue, p.unacked);
        lemma_held(p.queue, all_but(msg.id));
        lemma_held_twice(p.queue, all_but(msg.id), p.unacked);
        assert(held(rest, p.unacked) == p.replayed());
        lemma_held_alike(rest, ids, p.unacked, msg.id);
        assert(held(rest, ids) == p.replayed());
        if rest.len() >= 1024 {
            lemma_held_twice(rest, ids, ids);
        }
        assert(held(queue, ids) == p.replayed());
        if queue.len() >= 1024 {
            lemma_all_held(queue, ids);
            let tail = queue.skip(1);
            let fewer = ids.remove(queue[0].id);
            assert(queue == p.replayed());
            assert forall|i: int| 0 <= i < tail.len() implies fewer.contains(
                (#[trigger] tail[i]).id,
            ) by {
                assert(tail[i] == queue[i + 1]);
                assert(queue[0].id != queue[i + 1].id);
                assert(ids.contains(queue[i + 1].id));
            }
            lemma_all_held_back(tail, fewer);
            assert(tail.push(msg).drop_last() =~= tail);
            assert(fewer.contains(msg.id)) by {
                assert(queued(queue, queue[0].id));
            }
            assert(out.replayed() == tail.push(msg));
        } else {
            assert(queue.push(msg).drop_last() =~= queue);
            assert(out.replayed() == p.replayed().push(msg));
            lemma_held(queue, ids);
        }
    }
}

/// Identifiers that do not occur do not matter.
proof fn lemma_held_alike(
    queue: Seq<BridgeView>,
    a: Set<Seq<char>>,
    b: Set<Seq<char>>,
    id: Seq<char>,
)
    requires
        a == b.insert(id),
        !queued(queue, id),
    ensures
        held(queue, a) == held(queue, b),
    decreases queue.len(),
{
    if queue.len() > 0 {
        assert(queue[queue.len() - 1].id != id);
        assert(!queued(queue.drop_last(), id)) by {
            if queued(queue.drop_last(), id) {
                let i = choose|i: int|
                    0 <= i < queue.drop_last().len() && (#[trigger] queue.drop_last()[i]).id == id;
                assert(queue[i].id == id);
            }
        }
        lemma_held_alike(queue.drop_last(), a, b, id);
    }
}

/// Where as many are held as there are, all are.
proof fn lemma_all_held(queue: Seq<BridgeView>, ids: Set<Seq<char>>)
    requires
        held(queue, ids).len() >= queue.len() || forall|i: int|
            0 <= i < queue.len() ==> ids.contains((#[trigger] queue[i]).id),
    ensures
        held(queue, ids) == queue,
        forall|i: int| 0 <= i < queue.len() ==> ids.contains((#[trigger] queue[i]).id),
    decreases queue.len(),
{
    lemma_held(queue, ids);
    if queue.len() > 0 {
        lemma_held(queue.drop_last(), ids);
        if held(queue, ids).len() < queue.len() {
            assert(ids.contains(queue[queue.len() - 1].id));
            assert forall|i: int| 0 <= i < queue.drop_last().len() implies ids.contains(
                (#[trigger] queue.drop_last()[i]).id,
            ) by {
                assert(ids.contains(queue[i].id));
            }
        }
        lemma_all_held(queue.drop_last(), ids);
        assert(held(queue, ids) =~= queue);
        assert forall|i: int| 0 <= i < queue.len() implies ids.contains(
            (#[trigger] queue[i]).id,
        ) by {
            if i < queue.len() - 1 {
                assert(ids.contains(queue.drop_last()[i].id));
            }
        }
    }
}

proof fn lemma_all_held_back(queue: Seq<BridgeView>, ids: Set<Seq<char>>)
    requires
        forall|i: int| 0 <= i < queue.len() ==> ids.contains((#[trigger] queue[i]).id),
    ensures
        held(queue, ids) == queue,
{
    lemma_all_held(queue, ids);
}

impl PendingMessages {
    /// Whether no identifier is held twice as unacknowledged, and the bound is kept.
    pub open spec fn wf(self) -> bool {
        self.unacked.wf() && self@.wf()
    }

    /// Nothing kept.
    pub fn new() -> (p: Self)
        ensures
            p.wf(),
            p@ == PendingView::nothing(),
    {
        let p = PendingMessages { queue: Vec::new(), unacked: NameSet::new() };
        assert(p@.queue =~= seq![]);
        p
    }

    /// Keeps a message until it is acknowledged.
    pub fn retain(&mut self, msg: &BridgeMessage)
        requires
            old(self).wf(),
        ensures
            final(self).wf(),
            final(self)@ == old(self)@.retained(msg@),
    {
        proof {
            law_retention_is_bounded(self@, msg@, msg@.id);
        }
        if !self.unacked.insert(msg.id.as_str()) {
            assert(self@.unacked =~= old(self)@.unacked);
            return;
        }
        self.drop_copy(msg.id.as_str());
        if self.queue.len() >= MAX_PENDING_PER_CONSUMER {
            self.compact();
        }
        if self.queue.len() >= MAX_PENDING_PER_CONSUMER {
            let ghost before = self.queue@;
            let dropped = self.queue.remove(0);
            assert(bridge_views(self.queue@) =~= bridge_views(before).skip(1));
            assert(bridge_views(before)[0] == dropped@);
            self.unacked.remove(dropped.id.as_str());
        }
        let ghost before = self.queue@;
        self.queue.push(msg.copy());
        assert(bridge_views(self.queue@) =~= bridge_views(before).push(msg@));
    }

    /// Takes the message under an identifier out of the queue.
    fn drop_copy(&mut self, id: &str)
        requires
            distinct(old(self)@.queue),
        ensures
            final(self).unacked == old(self).unacked,
            final(self)@.queue == others(old(self)@.queue, id@),
    {
        let ghost all = self@.queue;
        let mut i: usize = 0;
        while i < self.queue.len()
            invariant
                i <= self.queue@.len(),
                all == bridge_views(self.queue@),
                all == old(self)@.queue,
                distinct(all),
                self.unacked == old(self).unacked,
                forall|k: int| 0 <= k < i ==> (#[trigger] all[k]).id != id@,
            decreases self.queue@.len() - i,
        {
            assert(all[i as int] == self.queue@[i as int]@);
            if same(self.queue[i].id.as_str(), id) {
                proof {
                    lemma_others(all, id@, i as int);
                }
                let ghost before = self.queue@;
                let _dropped = self.queue.remove(i);
                assert(bridge_views(self.queue@) =~= bridge_views(before).remove(i as int));
                return;
            }
            i += 1;
        }
        proof {
            lemma_others_same(all, id@);
        }
    }

    /// Takes what was acknowledged out of the queue.
    fn compact(&mut self)
        requires
            old(self).unacked.wf(),
        ensures
            final(self).unacked == old(self).unacked,
            final(self)@.queue == held(old(self)@.queue, old(self)@.unacked),
            final(self).queue@.len() <= old(self).queue@.len(),
    {
        let kept = self.replay();
        proof {
            lemma_held(self@.queue, self@.unacked);
        }
        self.queue = kept;
    }

    /// Whether an identifier waits for its acknowledgement.
    pub fn is_unacked(&self, msg_id: &str) -> (res: bool)
        ensures
            res == self@.unacked.contains(msg_id@),
    {
        self.unacked.contains(msg_id)
    }

    /// Takes an acknowledgement, and says whether the identifier still waited for it.
    pub fn acknowledge(&mut self, msg_id: &str) -> (waited: bool)
        requires
            old(self).wf(),
        ensures
            final(self).wf(),
            final(self)@ == old(self)@.acknowledged(msg_id@),
            waited == old(self)@.unacked.contains(msg_id@),
    {
        proof {
            law_retention_is_bounded(
                self@,
                BridgeView { payload: seq![], id: msg_id@, metadata: seq![] },
                msg_id@,
            );
        }
        self.unacked.remove(msg_id)
    }

    /// The messages that a subscriber gets again when it comes back, in order.
    pub fn replay(&self) -> (out: Vec<BridgeMessage>)
        ensures
            bridge_views(out@) == self@.replayed(),
    {
        let mut out: Vec<BridgeMessage> = Vec::new();
        let mut i: usize = 0;
        let ghost all = self@.queue;
        assert(bridge_views(out@) =~= held(all.take(0), self@.unacked));
        while i < self.queue.len()
            invariant
                i <= self.queue@.len(),
                all == bridge_views(self.queue@),
                bridge_views(out@) == held(all.take(i as int), self@.unacked),
            decreases self.queue@.len() - i,
        {
            assert(all.take(i + 1).drop_last() =~= all.take(i as int));
            assert(all.take(i + 1).last() == self.queue@[i as int]@);
            if self.unacked.contains(self.queue[i].id.as_str()) {
                let ghost before = out@;
                let again = self.queue[i].copy();
                out.push(again);
                assert(bridge_views(out@) =~= bridge_views(before).push(
                    self.queue@[i as int]@,
                ));
            }
            i += 1;
        }
        assert(all.take(all.len() as int) =~= all);
        out
    }
}

/// What is kept for each subscriber of a route, oldest subscriber first.
#[derive(Debug)]
pub struct SubscriberPending {
    pub by_consumer: Vec<(String, PendingMessages)>,
}

/// What is kept per subscriber, oldest subscriber first.
pub type Retention = Seq<(Seq<char>, PendingView)>;

impl View for SubscriberPending {
    type V = Retention;

    open spec fn view(&self) -> Retention {
        retention_of(self.by_consumer@)
    }
}

/// What is kept per subscriber over mathematical values.
pub open spec fn retention_of(rows: Seq<(String, PendingMessages)>) -> Retention {
    rows.map_values(|e: (String, PendingMessages)| (e.0@, e.1@))
}

/// The first position at or after `i` of a subscriber, or the length.
pub open spec fn place(r: Retention, id: Seq<char>, i: int) -> int
    decreases r.len() - i,
{
    if i >= r.len() {
        r.len() as int
    } else if r[i].0 == id {
        i
    } else {
        place(r, id, i + 1)
    }
}

/// What is kept for a subscriber.
pub open spec fn kept_for(r: Retention, id: Seq<char>) -> Option<PendingView> {
    let i = place(r, id, 0);
    if i < r.len() {
        Some(r[i].1)
    } else {
        None
    }
}

/// What is kept once a subscriber has an entry. A new one goes to the end, and where
/// the bound is reached the oldest one leaves.
pub open spec fn entered(r: Retention, id: Seq<char>) -> Retention {
    if place(r, id, 0) < r.len() {
        r
    } else if r.len() >= MAX_PENDING_CONSUMERS {
        r.skip(1).push((id, PendingView::nothing()))
    } else {
        r.push((id, PendingView::nothing()))
    }
}

/// What is kept without a subscriber.
pub open spec fn forgotten(r: Retention, id: Seq<char>) -> Retention {
    let i = place(r, id, 0);
    if i < r.len() {
        r.remove(i)
    } else {
        r
    }
}

/// Whether no subscriber has two entries, the bound is kept, and each entry is sound.
pub open spec fn sound(r: Retention) -> bool {
    &&& r.len() <= MAX_PENDING_CONSUMERS
    &&& forall|i: int, j: int| 0 <= i < j < r.len() ==> (#[trigger] r[i]).0 != (#[trigger] r[j]).0
    &&& forall|i: int| 0 <= i < r.len() ==> (#[trigger] r[i]).1.wf()
}

/// A position that was found has the subscriber, and none before it has.
pub proof fn lemma_place(r: Retention, id: Seq<char>, i: int)
    requires
        0 <= i <= r.len(),
    ensures
        i <= place(r, id, i) <= r.len(),
        place(r, id, i) < r.len() ==> r[place(r, id, i)].0 == id,
        forall|k: int| i <= k < place(r, id, i) ==> (#[trigger] r[k]).0 != id,
    decreases r.len() - i,
{
    if i < r.len() && r[i].0 != id {
        lemma_place(r, id, i + 1);
    }
}

proof fn lemma_place_is(r: Retention, id: Seq<char>, i: int, at: int)
    requires
        0 <= i <= at <= r.len(),
        at < r.len() ==> r[at].0 == id,
        forall|k: int| i <= k < at ==> (#[trigger] r[k]).0 != id,
    ensures
        place(r, id, i) == at,
    decreases at - i,
{
    if i < at {
        lemma_place_is(r, id, i + 1, at);
    }
}

/// Changing what is kept for one subscriber changes it for no other.
pub proof fn lemma_update(r: Retention, id: Seq<char>, p: PendingView, other: Seq<char>)
    requires
        kept_for(r, id) is Some,
    ensures
        kept_for(r.update(place(r, id, 0), (id, p)), id) == Some(p),
        other != id ==> kept_for(r.update(place(r, id, 0), (id, p)), other) == kept_for(
            r,
            other,
        ),
        sound(r) && p.wf() ==> sound(r.update(place(r, id, 0), (id, p))),
{
    let i = place(r, id, 0);
    lemma_place(r, id, 0);
    let out = r.update(i, (id, p));
    lemma_place_is(out, id, 0, i);
    if other != id {
        lemma_place(r, other, 0);
        lemma_place_is(out, other, 0, place(r, other, 0));
    }
}

/// What is kept stays within its bound and one entry per subscriber. An entry that
/// was asked for is there afterwards, one that was forgotten is not, and neither
/// touches what is kept for another subscriber, but that a full set loses its oldest
/// one.
pub proof fn law_subscribers_are_bounded(r: Retention, id: Seq<char>, other: Seq<char>)
    requires
        sound(r),
    ensures
        sound(entered(r, id)),
        sound(forgotten(r, id)),
        kept_for(entered(r, id), id) == (match kept_for(r, id) {
            Some(p) => Some(p),
            None => Some(PendingView::nothing()),
        }),
        kept_for(forgotten(r, id), id) is None,
        other != id ==> kept_for(forgotten(r, id), other) == kept_for(r, other),
        other != id && (r.len() < MAX_PENDING_CONSUMERS || kept_for(r, id) is Some || r[0].0
            != other) ==> kept_for(entered(r, id), other) == kept_for(r, other),
        r.len() >= MAX_PENDING_CONSUMERS && kept_for(r, id) is None ==> kept_for(
            entered(r, id),
            r[0].0,
        ) is None,
{
    let at = place(r, id, 0);
    let o = place(r, other, 0);
    lemma_place(r, id, 0);
    lemma_place(r, other, 0);
    let gone = forgotten(r, id);
    let here = entered(r, id);
    if at < r.len() {
        assert forall|k: int| 0 <= k < gone.len() implies (#[trigger] gone[k]).0 != id by {
            if k < at {
                assert(gone[k] == r[k]);
            } else {
                assert(gone[k] == r[k + 1]);
            }
        }
        lemma_place_is(gone, id, 0, gone.len() as int);
        if other != id {
            if o == r.len() {
                lemma_place_is(gone, other, 0, gone.len() as int);
            } else if o < at {
                lemma_place_is(gone, other, 0, o);
            } else {
                lemma_place_is(gone, other, 0, o - 1);
            }
        }
    } else if r.len() >= MAX_PENDING_CONSUMERS {
        assert forall|k: int| 0 <= k < r.len() - 1 implies #[trigger] here[k] == r[k + 1] by {}
        lemma_place_is(here, id, 0, here.len() - 1);
        lemma_place_is(here, r[0].0, 0, here.len() as int);
        if other != id && r[0].0 != other {
            if o == r.len() {
                lemma_place_is(here, other, 0, here.len() as int);
            } else {
                lemma_place_is(here, other, 0, o - 1);
            }
        }
    } else {
        lemma_place_is(here, id, 0, here.len() - 1);
        if other != id {
            if o == r.len() {
                lemma_place_is(here, other, 0, here.len() as int);
            } else {
                lemma_place_is(here, other, 0, o);
            }
        }
    }
    assert(PendingView::nothing().wf());
}

impl SubscriberPending {
    /// Whether the bounds are kept and each entry is sound.
    pub open spec fn wf(self) -> bool {
        &&& sound(self@)
        &&& forall|i: int|
            0 <= i < self.by_consumer@.len() ==> (#[trigger] self.by_consumer@[i]).1.wf()
    }

    /// No subscriber.
    pub fn new() -> (s: Self)
        ensures
            s.wf(),
            s@ == Retention::empty(),
    {
        let s = SubscriberPending { by_consumer: Vec::new() };
        assert(s@ =~= Retention::empty());
        s
    }

    fn position(&self, consumer_id: &str) -> (i: usize)
        ensures
            i == place(self@, consumer_id@, 0),
            i <= self.by_consumer@.len(),
    {
        let mut i: usize = 0;
        while i < self.by_consumer.len()
            invariant
                i <= self.by_consumer@.len(),
                place(self@, consumer_id@, 0) == place(self@, consumer_id@, i as int),
            decreases self.by_consumer@.len() - i,
        {
            assert(self@[i as int].0 == self.by_consumer@[i as int].0@);
            if same(self.by_consumer[i].0.as_str(), consumer_id) {
                return i;
            }
            i += 1;
        }
        i
    }

    /// Makes sure that a subscriber has an entry, and says where it is.
    fn enter(&mut self, consumer_id: &str) -> (i: usize)
        requires
            old(self).wf(),
        ensures
            final(self).wf(),
            final(self)@ == entered(old(self)@, consumer_id@),
            i == place(final(self)@, consumer_id@, 0),
            i < final(self).by_consumer@.len(),
    {
        proof {
            law_subscribers_are_bounded(self@, consumer_id@, consumer_id@);
            lemma_place(entered(self@, consumer_id@), consumer_id@, 0);
        }
        let at: usize = self.position(consumer_id);
        if at < self.by_consumer.len() {
            return at;
        }
        let ghost before = self@;
        if self.by_consumer.len() >= MAX_PENDING_CONSUMERS {
            self.by_consumer.remove(0);
            assert(self@ =~= before.skip(1));
        }
        let ghost mid = self@;
        self.by_consumer.push((consumer_id.to_owned(), PendingMessages::new()));
        assert(self@ =~= mid.push((consumer_id@, PendingView::nothing())));
        self.position(consumer_id)
    }

    /// The entry of a subscriber, which it gets if it has none.
    pub fn entry(&mut self, consumer_id: &str) -> (p: &mut PendingMessages)
        requires
            old(self).wf(),
        ensures
            p.wf(),
            kept_for(entered(old(self)@, consumer_id@), consumer_id@) == Some(p@),
            final(self)@ == entered(old(self)@, consumer_id@).update(
                place(entered(old(self)@, consumer_id@), consumer_id@, 0),
                (consumer_id@, final(p)@),
            ),
            final(p).wf() ==> final(self).wf(),
    {
        let i: usize = self.enter(consumer_id);
        let ghost r = self@;
        let ghost all = self.by_consumer@;
        proof {
            lemma_place(r, consumer_id@, 0);
            assert(r[i as int].0 == consumer_id@);
            assert forall|q: PendingMessages| q.wf() implies sound(
                retention_of(#[trigger] all.update(i as int, (all[i as int].0, q))),
            ) by {
                lemma_update(r, consumer_id@, q@, consumer_id@);
                assert(retention_of(all.update(i as int, (all[i as int].0, q))) =~= r.update(
                    i as int,
                    (consumer_id@, q@),
                ));
            }
        }
        &mut self.by_consumer[i].1
    }

    /// What is kept for a subscriber.
    pub fn get(&self, consumer_id: &str) -> (p: Option<&PendingMessages>)
        ensures
            match p {
                Some(q) => kept_for(self@, consumer_id@) == Some(q@),
                None => kept_for(self@, consumer_id@) is None,
            },
    {
        let i: usize = self.position(consumer_id);
        if i < self.by_consumer.len() {
            Some(&self.by_consumer[i].1)
        } else {
            None
        }
    }

    /// What is kept for a subscriber, to change it.
    pub fn get_mut(&mut self, consumer_id: &str) -> (p: Option<&mut PendingMessages>)
        requires
            old(self).wf(),
        ensures
            match p {
                Some(q) => {
                    &&& q.wf()
                    &&& kept_for(old(self)@, consumer_id@) == Some(q@)
                    &&& final(self)@ == old(self)@.update(
                        place(old(self)@, consumer_id@, 0),
                        (consumer_id@, final(q)@),
                    )
                    &&& final(q).wf() ==> final(self).wf()
                },
                None => kept_for(old(self)@, consumer_id@) is None && *final(self) == *old(self),
            },
    {
        let i: usize = self.position(consumer_id);
        if i < self.by_consumer.len() {
            let ghost r = self@;
        let ghost all = self.by_consumer@;
            proof {
                lemma_place(r, consumer_id@, 0);
                assert(r[i as int].0 == consumer_id@);
                assert forall|q: PendingMessages| q.wf() implies sound(
                    retention_of(#[trigger] all.update(i as int, (all[i as int].0, q))),
                ) by {
                    lemma_update(r, consumer_id@, q@, consumer_id@);
                    assert(retention_of(all.update(i as int, (all[i as int].0, q))) =~= r.update(
                        i as int,
                        (consumer_id@, q@),
                    ));
                }
            }
            Some(&mut self.by_consumer[i].1)
        } else {
            None
        }
    }

    /// Forgets a subscriber.
    pub fn remove(&mut self, consumer_id: &str)
        requires
            old(self).wf(),
        ensures
            final(self).wf(),
            final(self)@ == forgotten(old(self)@, consumer_id@),
    {
        proof {
            law_subscribers_are_bounded(self@, consumer_id@, consumer_id@);
        }
        let i: usize = self.position(consumer_id);
        if i < self.by_consumer.len() {
            let ghost before = self@;
            self.by_consumer.remove(i);
            assert(self@ =~= before.remove(i as int));
        }
    }
}

} // verus!
