//! Filling batches from gRPC streams and from the shards of an embedded server.

use vstd::prelude::*;

use crate::grpc::bridge::{bridge_to_canonical, from_wire, BridgeMessage};
use crate::message::{CanonicalMessage, ConsumerError, ReceiveFailure};
use crate::text::texts;

verus! {

/// How long a started batch waits for one more message, in milliseconds.
pub const GRPC_BATCH_POLL_MS: u64 = 15;

/// The size of a batch that is asked for: at least one.
pub open spec fn batch_size(max: usize) -> usize {
    if max < 1 {
        1
    } else {
        max
    }
}

/// What waiting for a message of a subscription came to.
#[derive(Debug)]
pub enum ClientEvent {
    Message(BridgeMessage),
    Closed,
    /// A started batch got no further message in time.
    TimedOut,
    /// A draining consumer found nothing.
    Idle,
    Failed(String),
}

/// What a receive loop does next.
#[derive(Debug)]
pub enum ReceiveStep {
    More,
    /// The batch is as full as it gets.
    Finish,
    /// There is nothing, and that is no failure.
    Empty,
    Fail(ConsumerError),
}

/// A batch of a subscription that is being filled.
#[derive(Debug)]
pub struct ClientBatch {
    pub messages: Vec<CanonicalMessage>,
    pub message_ids: Vec<String>,
    pub max: usize,
}

impl ClientBatch {
    /// An empty batch for at most so many messages, but at least one.
    pub fn new(max_messages: usize) -> (b: Self)
        ensures
            b.max == batch_size(max_messages),
            b.messages@.len() == 0,
            b.message_ids@.len() == 0,
    {
        let max: usize = if max_messages < 1 {
            1
        } else {
            max_messages
        };
        ClientBatch { messages: Vec::new(), message_ids: Vec::new(), max }
    }

    /// How long to wait for the next message. The first one is waited for without a
    /// limit.
    pub fn wait_ms(&self) -> (ms: Option<u64>)
        ensures
            ms == (if self.messages@.len() == 0 {
                None
            } else {
                Some(GRPC_BATCH_POLL_MS)
            }),
    {
        if self.messages.len() == 0 {
            None
        } else {
            Some(GRPC_BATCH_POLL_MS)
        }
    }

    /// Takes what waiting came to.
    pub fn on_event(&mut self, event: ClientEvent) -> (step: ReceiveStep)
        requires
            old(self).messages@.len() == old(self).message_ids@.len(),
        ensures
            final(self).max == old(self).max,
            match event {
                ClientEvent::Message(m) => {
                    &&& final(self).messages@.len() == old(self).messages@.len() + 1
                    &&& final(self).messages@.drop_last() == old(self).messages@
                    &&& from_wire(m@, final(self).messages@.last()@)
                    &&& texts(final(self).message_ids@) == texts(old(self).message_ids@).push(
                        m.id@,
                    )
                    &&& if final(self).messages@.len() >= final(self).max {
                        step is Finish
                    } else {
                        step is More
                    }
                },
                ClientEvent::Closed => step is Finish && *final(self) == *old(self),
                ClientEvent::TimedOut => step is Finish && *final(self) == *old(self),
                ClientEvent::Idle => step is Empty && *final(self) == *old(self),
                ClientEvent::Failed(why) => (step matches ReceiveStep::Fail(e) && e@
                    == ReceiveFailure::Connection(why@) && *final(self) == *old(self)),
            },
    {
        match event {
            ClientEvent::Message(m) => {
                let id = m.id.clone();
                let message = bridge_to_canonical(m);
                self.messages.push(message);
                self.message_ids.push(id);
                assert(self.messages@.drop_last() =~= old(self).messages@);
                assert(texts(self.message_ids@) =~= texts(old(self).message_ids@).push(m.id@));
                if self.messages.len() >= self.max {
                    ReceiveStep::Finish
                } else {
                    ReceiveStep::More
                }
            },
            ClientEvent::Closed => ReceiveStep::Finish,
            ClientEvent::TimedOut => ReceiveStep::Finish,
            ClientEvent::Idle => ReceiveStep::Empty,
            ClientEvent::Failed(why) => ReceiveStep::Fail(ConsumerError::Connection(why)),
        }
    }

    /// The batch. An empty one means that the stream ended.
    pub fn finish(self) -> (res: Result<(Vec<CanonicalMessage>, Vec<String>), ConsumerError>)
        ensures
            match res {
                Ok(batch) => {
                    &&& self.messages@.len() > 0
                    &&& batch.0 == self.messages
                    &&& batch.1 == self.message_ids
                },
                Err(e) => self.messages@.len() == 0 && e is EndOfStream,
            },
    {
        if self.messages.len() == 0 {
            return Err(ConsumerError::EndOfStream);
        }
        Ok((self.messages, self.message_ids))
    }
}

/// What draining the shards of a queue does next.
#[derive(Debug, Clone, Copy, PartialEq, Eq, Structural)]
pub enum DrainStep {
    /// Take from this shard what it has ready.
    Try(usize),
    /// Wait until some shard has something.
    Wait,
    /// The batch is as full as it gets.
    Finish,
}

/// The shards of a queue while a batch is taken from them. Each sweep goes over all
/// shards, and the next one begins one shard further on, so that none starves.
#[derive(Debug)]
pub struct ShardDrain {
    pub shards: usize,
    pub max: usize,
    /// The shard that a sweep begins with.
    pub start: usize,
    /// How many shards of the sweep were tried.
    pub offset: usize,
    /// Whether the sweep took something.
    pub got_any: bool,
    /// How many messages were taken.
    pub taken: usize,
    /// Whether a sweep filled the batch.
    pub full: bool,
}

/// The shard that a sweep tries at an offset.
pub open spec fn shard_at(start: int, offset: int, shards: int) -> int {
    (start + offset) % shards
}

fn shard_index(start: usize, offset: usize, shards: usize) -> (i: usize)
    requires
        start < shards,
        offset < shards,
    ensures
        i == shard_at(start as int, offset as int, shards as int),
        i < shards,
{
    if offset < shards - start {
        assert(shard_at(start as int, offset as int, shards as int) == start + offset)
            by (nonlinear_arith)
            requires
                start + offset < shards,
                shards > 0,
                shard_at(start as int, offset as int, shards as int) == (start + offset) % (
                shards as int),
        ;
        start + offset
    } else {
        assert((start + offset) % (shards as int) == start + offset - shards) by (nonlinear_arith)
            requires
                shards <= start + offset < 2 * shards,
                shards > 0,
        ;
        offset - (shards - start)
    }
}

fn next_shard(i: usize, shards: usize) -> (n: usize)
    requires
        i < shards,
    ensures
        n == (i + 1) % (shards as int),
        n < shards,
{
    if i + 1 < shards {
        assert((i + 1) % (shards as int) == i + 1) by (nonlinear_arith)
            requires
                i + 1 < shards,
        ;
        i + 1
    } else {
        assert((i + 1) % (shards as int) == 0) by (nonlinear_arith)
            requires
                i + 1 == shards,
                shards > 0,
        ;
        0
    }
}

/// A sweep tries every shard, and none twice.
pub proof fn law_sweep_visits_every_shard(start: int, shards: int, shard: int, a: int, b: int)
    requires
        0 <= start < shards,
        0 <= shard < shards,
        0 <= a < shards,
        0 <= b < shards,
    ensures
        exists|offset: int|
            0 <= offset < shards && #[trigger] shard_at(start, offset, shards) == shard,
        shard_at(start, a, shards) == shard_at(start, b, shards) ==> a == b,
        0 <= shard_at(start, a, shards) < shards,
{
    let offset = if shard >= start {
        shard - start
    } else {
        shard - start + shards
    };
    lemma_wrap(start + offset, shards);
    lemma_wrap(start + a, shards);
    lemma_wrap(start + b, shards);
    assert(shard_at(start, offset, shards) == shard);
}

proof fn lemma_wrap(n: int, m: int)
    by (nonlinear_arith)
    requires
        0 <= n < 2 * m,
        0 < m,
    ensures
        n % m == (if n < m {
            n
        } else {
            n - m
        }),
{
}

impl ShardDrain {
    /// Whether the positions are within the shards.
    pub open spec fn wf(self) -> bool {
        &&& self.start < self.shards
        &&& self.offset <= self.shards
        &&& self.max >= 1
        &&& self.full ==> self.taken > 0
        &&& self.got_any ==> self.taken > 0
    }

    /// A batch of at most so many messages, but at least one, from shards of which
    /// this one is first.
    pub fn new(shards: usize, start: usize, max_messages: usize) -> (d: Self)
        requires
            start < shards,
        ensures
            d.wf(),
            d == (ShardDrain {
                shards,
                max: batch_size(max_messages),
                start,
                offset: 0,
                got_any: false,
                taken: 0,
                full: false,
            }),
    {
        let max: usize = if max_messages < 1 {
            1
        } else {
            max_messages
        };
        ShardDrain { shards, max, start, offset: 0, got_any: false, taken: 0, full: false }
    }

    /// What to do next. A batch that holds anything is handed on as soon as the
    /// shards have nothing more ready.
    pub fn next(&mut self) -> (step: DrainStep)
        requires
            old(self).wf(),
        ensures
            final(self).wf(),
            final(self).taken == old(self).taken,
            final(self).full == old(self).full,
            final(self).shards == old(self).shards,
            final(self).max == old(self).max,
            ({
                let s = *old(self);
                if s.full {
                    step is Finish && *final(self) == s
                } else if s.offset < s.shards {
                    &&& *final(self) == s
                    &&& step matches DrainStep::Try(i) && i == shard_at(
                        s.start as int,
                        s.offset as int,
                        s.shards as int,
                    ) && i < s.shards
                } else if s.got_any {
                    &&& final(self).start == (s.start + 1) % (s.shards as int)
                    &&& final(self).offset == 0
                    &&& !final(self).got_any
                    &&& step matches DrainStep::Try(i) && i == final(self).start
                } else {
                    &&& *final(self) == s
                    &&& if s.taken > 0 {
                        step is Finish
                    } else {
                        step is Wait
                    }
                }
            }),
    {
        if self.full {
            return DrainStep::Finish;
        }
        if self.offset < self.shards {
            return DrainStep::Try(shard_index(self.start, self.offset, self.shards));
        }
        if self.got_any {
            self.start = next_shard(self.start, self.shards);
            self.offset = 0;
            self.got_any = false;
            return DrainStep::Try(self.start);
        }
        if self.taken > 0 {
            DrainStep::Finish
        } else {
            DrainStep::Wait
        }
    }

    /// Takes what trying a shard came to.
    pub fn on_try(&mut self, delivered: bool)
        requires
            old(self).wf(),
            old(self).offset < old(self).shards,
            old(self).taken < usize::MAX,
        ensures
            final(self).wf(),
            final(self).offset == old(self).offset + 1,
            final(self).start == old(self).start,
            final(self).shards == old(self).shards,
            final(self).max == old(self).max,
            final(self).taken == old(self).taken + (if delivered {
                1int
            } else {
                0
            }),
            final(self).got_any == (old(self).got_any || delivered),
            final(self).full == (old(self).full || (delivered && final(self).taken
                >= final(self).max)),
    {
        self.offset += 1;
        if delivered {
            self.taken += 1;
            self.got_any = true;
            if self.taken >= self.max {
                self.full = true;
            }
        }
    }

    /// Takes a message that a shard gave after waiting. The next sweep begins behind
    /// that shard.
    pub fn on_wait(&mut self, shard: usize)
        requires
            old(self).wf(),
            shard < old(self).shards,
            old(self).taken < usize::MAX,
        ensures
            final(self).wf(),
            final(self).start == (shard + 1) % (old(self).shards as int),
            final(self).offset == 0,
            !final(self).got_any,
            final(self).taken == old(self).taken + 1,
            final(self).full == old(self).full,
            final(self).shards == old(self).shards,
            final(self).max == old(self).max,
    {
        self.start = next_shard(shard, self.shards);
        self.offset = 0;
        self.got_any = false;
        self.taken += 1;
    }
}

/// What a shard says when it is asked while waiting.
#[derive(Debug, Clone, Copy, PartialEq, Eq, Structural)]
pub enum ShardPoll {
    Message,
    Closed,
    Pending,
}

/// What waiting on all shards came to.
#[derive(Debug, Clone, Copy, PartialEq, Eq, Structural)]
pub enum ShardWait {
    /// The shard at this offset of the sweep gave a message.
    Ready(usize),
    /// Every shard is closed.
    Closed,
    Pending,
}

/// The first offset at or after `i` with a message, or the length.
pub open spec fn ready_at(polls: Seq<ShardPoll>, i: int) -> int
    decreases polls.len() - i,
{
    if i >= polls.len() {
        polls.len() as int
    } else if polls[i] == ShardPoll::Message {
        i
    } else {
        ready_at(polls, i + 1)
    }
}

/// What waiting on all shards came to, asked in the order of a sweep.
pub fn wait_outcome(polls: &Vec<ShardPoll>) -> (res: ShardWait)
    ensures
        ({
            let i = ready_at(polls@, 0);
            if i < polls@.len() {
                res matches ShardWait::Ready(k) && k == i
            } else if forall|k: int| 0 <= k < polls@.len() ==> polls@[k] == ShardPoll::Closed {
                res == ShardWait::Closed
            } else {
                res == ShardWait::Pending
            }
        }),
{
    let mut all_closed: bool = true;
    let mut i: usize = 0;
    while i < polls.len()
        invariant
            i <= polls@.len(),
            ready_at(polls@, 0) == ready_at(polls@, i as int),
            all_closed == (forall|k: int| 0 <= k < i ==> polls@[k] == ShardPoll::Closed),
        decreases polls@.len() - i,
    {
        match polls[i] {
            ShardPoll::Message => {
                return ShardWait::Ready(i);
            },
            ShardPoll::Closed => {},
            ShardPoll::Pending => {
                assert(polls@[i as int] == ShardPoll::Pending);
                all_closed = false;
            },
        }
        i += 1;
    }
    if all_closed {
        ShardWait::Closed
    } else {
        ShardWait::Pending
    }
}

/// What a server consumer gives for the messages that it took.
pub fn server_batch(messages: Vec<BridgeMessage>) -> (res: Result<
    Vec<CanonicalMessage>,
    ConsumerError,
>)
    ensures
        match res {
            Ok(out) => {
                &&& messages@.len() > 0
                &&& out@.len() == messages@.len()
                &&& forall|i: int|
                    0 <= i < out@.len() ==> from_wire(messages@[i]@, (#[trigger] out@[i])@)
            },
            Err(e) => messages@.len() == 0 && e is EndOfStream,
        },
{
    if messages.len() == 0 {
        return Err(ConsumerError::EndOfStream);
    }
    let mut out: Vec<CanonicalMessage> = Vec::new();
    let mut rest = messages;
    let ghost mut n: int = 0;
    while rest.len() > 0
        invariant
            0 <= n <= messages@.len(),
            rest@ == messages@.skip(n),
            out@.len() == n,
            forall|i: int|
                0 <= i < out@.len() ==> from_wire(messages@[i]@, (#[trigger] out@[i])@),
        decreases rest@.len(),
    {
        assert(rest@[0] == messages@[n]);
        let m = rest.remove(0);
        assert(messages@.skip(n).remove(0) =~= messages@.skip(n + 1));
        out.push(bridge_to_canonical(m));
        proof {
            n = n + 1;
        }
    }
    Ok(out)
}

} // verus!
