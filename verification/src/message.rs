//! Messages and their metadata.

use vstd::prelude::*;

use crate::ids::{fresh_id, is_v7};
use crate::text::{same, starts_with, text_starts_with};

verus! {

/// Named values in order. A later value under a name replaces the earlier one.
#[derive(Debug)]
pub struct Metadata {
    pub entries: Vec<(String, String)>,
}

/// Named values over character sequences.
pub type Pairs = Seq<(Seq<char>, Seq<char>)>;

impl View for Metadata {
    type V = Pairs;

    open spec fn view(&self) -> Pairs {
        self.entries@.map_values(|p: (String, String)| (p.0@, p.1@))
    }
}

/// The first position at or after `i` with this name, or the length.
pub open spec fn slot(pairs: Pairs, key: Seq<char>, i: int) -> int
    decreases pairs.len() - i,
{
    if i >= pairs.len() {
        pairs.len() as int
    } else if pairs[i].0 == key {
        i
    } else {
        slot(pairs, key, i + 1)
    }
}

/// The value under a name.
pub open spec fn lookup(pairs: Pairs, key: Seq<char>) -> Option<Seq<char>> {
    let i = slot(pairs, key, 0);
    if i < pairs.len() {
        Some(pairs[i].1)
    } else {
        None
    }
}

/// The pairs with `value` under `key`: in place of the old value, or at the end.
pub open spec fn with(pairs: Pairs, key: Seq<char>, value: Seq<char>) -> Pairs {
    let i = slot(pairs, key, 0);
    if i < pairs.len() {
        pairs.update(i, (key, value))
    } else {
        pairs.push((key, value))
    }
}

/// The pairs with `value` under `key` unless there is a value already.
pub open spec fn with_default(pairs: Pairs, key: Seq<char>, value: Seq<char>) -> Pairs {
    if lookup(pairs, key) is Some {
        pairs
    } else {
        with(pairs, key, value)
    }
}

/// Whether no name occurs twice.
pub open spec fn unique(pairs: Pairs) -> bool {
    forall|i: int, j: int|
        0 <= i < j < pairs.len() ==> (#[trigger] pairs[i]).0 != (#[trigger] pairs[j]).0
}

pub proof fn lemma_slot(pairs: Pairs, key: Seq<char>, i: int)
    requires
        0 <= i <= pairs.len(),
    ensures
        i <= slot(pairs, key, i) <= pairs.len(),
        slot(pairs, key, i) < pairs.len() ==> pairs[slot(pairs, key, i)].0 == key,
        forall|k: int| i <= k < slot(pairs, key, i) ==> (#[trigger] pairs[k]).0 != key,
    decreases pairs.len() - i,
{
    if i < pairs.len() && pairs[i].0 != key {
        lemma_slot(pairs, key, i + 1);
    }
}

/// A position with the name, and none before it, is the slot.
pub proof fn lemma_slot_is(pairs: Pairs, key: Seq<char>, i: int, at: int)
    requires
        0 <= i <= at <= pairs.len(),
        at < pairs.len() ==> pairs[at].0 == key,
        forall|k: int| i <= k < at ==> (#[trigger] pairs[k]).0 != key,
    ensures
        slot(pairs, key, i) == at,
    decreases at - i,
{
    if i < at {
        lemma_slot_is(pairs, key, i + 1, at);
    }
}

/// What is read under a name is what was last written under it, and writing leaves
/// every other name alone. Names stay unique.
pub proof fn law_reads_give_back_writes(pairs: Pairs, key: Seq<char>, value: Seq<char>)
    ensures
        lookup(with(pairs, key, value), key) == Some(value),
        forall|other: Seq<char>|
            other != key ==> #[trigger] lookup(with(pairs, key, value), other) == lookup(
                pairs,
                other,
            ),
        unique(pairs) ==> unique(with(pairs, key, value)),
{
    lemma_slot(pairs, key, 0);
    let at = slot(pairs, key, 0);
    let out = with(pairs, key, value);
    lemma_slot_is(out, key, 0, at);
    assert forall|other: Seq<char>| other != key implies #[trigger] lookup(out, other) == lookup(
        pairs,
        other,
    ) by {
        lemma_slot(pairs, other, 0);
        let o = slot(pairs, other, 0);
        if o < pairs.len() {
            lemma_slot_is(out, other, 0, o);
        } else {
            lemma_slot_is(out, other, 0, out.len() as int);
        }
    }
}

impl Metadata {
    /// No values.
    pub fn new() -> (m: Self)
        ensures
            m@ == Pairs::empty(),
    {
        let m = Metadata { entries: Vec::new() };
        assert(m@ =~= Pairs::empty());
        m
    }

    fn position(&self, key: &str) -> (i: usize)
        ensures
            i == slot(self@, key@, 0),
            i <= self.entries@.len(),
    {
        let mut i: usize = 0;
        while i < self.entries.len()
            invariant
                i <= self.entries@.len(),
                slot(self@, key@, 0) == slot(self@, key@, i as int),
            decreases self.entries@.len() - i,
        {
            assert(self@[i as int].0 == self.entries@[i as int].0@);
            if same(self.entries[i].0.as_str(), key) {
                return i;
            }
            i += 1;
        }
        i
    }

    /// The value under a name.
    pub fn get<'a>(&'a self, key: &str) -> (value: Option<&'a String>)
        ensures
            match value {
                Some(v) => lookup(self@, key@) == Some(v@),
                None => lookup(self@, key@) is None,
            },
    {
        let i: usize = self.position(key);
        if i < self.entries.len() {
            Some(&self.entries[i].1)
        } else {
            None
        }
    }

    /// Whether there is a value under a name.
    pub fn contains_key(&self, key: &str) -> (res: bool)
        ensures
            res == (lookup(self@, key@) is Some),
    {
        self.position(key) < self.entries.len()
    }

    /// Puts a value under a name.
    pub fn insert(&mut self, key: String, value: String)
        ensures
            final(self)@ == with(old(self)@, key@, value@),
    {
        let i: usize = self.position(key.as_str());
        if i < self.entries.len() {
            let ghost before = self.entries@;
            self.entries.set(i, (key, value));
            assert(self@ =~= old(self)@.update(i as int, (key@, value@)));
        } else {
            self.entries.push((key, value));
            assert(self@ =~= old(self)@.push((key@, value@)));
        }
    }

    /// Puts a value given as slices under a name.
    pub fn put(&mut self, key: &str, value: &str)
        ensures
            final(self)@ == with(old(self)@, key@, value@),
    {
        self.insert(key.to_owned(), value.to_owned());
    }

    /// Puts a value under a name that has none.
    pub fn put_default(&mut self, key: &str, value: &str)
        ensures
            final(self)@ == with_default(old(self)@, key@, value@),
    {
        if !self.contains_key(key) {
            self.put(key, value);
        }
    }

    /// The same values again.
    pub fn copy(&self) -> (m: Metadata)
        ensures
            m@ == self@,
    {
        let mut entries: Vec<(String, String)> = Vec::new();
        let mut i: usize = 0;
        while i < self.entries.len()
            invariant
                i <= self.entries@.len(),
                entries@.len() == i,
                forall|k: int| 0 <= k < i ==> #[trigger] entries@[k] == self.entries@[k],
            decreases self.entries@.len() - i,
        {
            entries.push((self.entries[i].0.clone(), self.entries[i].1.clone()));
            i += 1;
        }
        let m = Metadata { entries };
        assert(m@ =~= self@);
        m
    }

    /// The values whose names do not begin with `prefix`.
    pub fn without_prefix(&self, prefix: &str) -> (m: Metadata)
        ensures
            m@ == drop_prefixed(self@, prefix@),
    {
        let mut entries: Vec<(String, String)> = Vec::new();
        let mut i: usize = 0;
        assert(entries@.map_values(|p: (String, String)| (p.0@, p.1@)) =~= drop_prefixed(
            self@.take(0),
            prefix@,
        ));
        while i < self.entries.len()
            invariant
                i <= self.entries@.len(),
                entries@.map_values(|p: (String, String)| (p.0@, p.1@)) == drop_prefixed(
                    self@.take(i as int),
                    prefix@,
                ),
            decreases self.entries@.len() - i,
        {
            let ghost before = entries@;
            assert(self@.take(i + 1).drop_last() =~= self@.take(i as int));
            assert(self@.take(i + 1).last() == (
                self.entries@[i as int].0@,
                self.entries@[i as int].1@,
            ));
            if !text_starts_with(self.entries[i].0.as_str(), prefix) {
                entries.push((self.entries[i].0.clone(), self.entries[i].1.clone()));
                assert(entries@.map_values(|p: (String, String)| (p.0@, p.1@))
                    =~= before.map_values(|p: (String, String)| (p.0@, p.1@)).push(
                    (self.entries@[i as int].0@, self.entries@[i as int].1@),
                ));
            }
            i += 1;
        }
        assert(self@.take(self@.len() as int) =~= self@);
        Metadata { entries }
    }
}

/// The pairs whose names do not begin with `prefix`, in order.
pub open spec fn drop_prefixed(pairs: Pairs, prefix: Seq<char>) -> Pairs
    decreases pairs.len(),
{
    if pairs.len() == 0 {
        Pairs::empty()
    } else {
        let rest = drop_prefixed(pairs.drop_last(), prefix);
        if starts_with(pairs.last().0, prefix) {
            rest
        } else {
            rest.push(pairs.last())
        }
    }
}

/// Dropping by prefix leaves no such name, keeps every other value, and adds none.
pub proof fn law_drop_prefixed(pairs: Pairs, prefix: Seq<char>, key: Seq<char>)
    ensures
        starts_with(key, prefix) ==> lookup(drop_prefixed(pairs, prefix), key) is None,
        !starts_with(key, prefix) ==> lookup(drop_prefixed(pairs, prefix), key) == lookup(
            pairs,
            key,
        ),
    decreases pairs.len(),
{
    let out = drop_prefixed(pairs, prefix);
    if pairs.len() == 0 {
    } else {
        law_drop_prefixed(pairs.drop_last(), prefix, key);
        let rest = drop_prefixed(pairs.drop_last(), prefix);
        lemma_lookup_last(pairs, key);
        if !starts_with(pairs.last().0, prefix) {
            assert(out.drop_last() =~= rest);
            lemma_lookup_last(out, key);
        }
    }
}

/// A name is found before the last pair, or it is the last pair's.
proof fn lemma_lookup_last(pairs: Pairs, key: Seq<char>)
    requires
        pairs.len() > 0,
    ensures
        lookup(pairs, key) == (match lookup(pairs.drop_last(), key) {
            Some(v) => Some(v),
            None => if pairs.last().0 == key {
                Some(pairs.last().1)
            } else {
                None
            },
        }),
{
    let front = pairs.drop_last();
    lemma_slot(front, key, 0);
    lemma_slot(pairs, key, 0);
    assert forall|k: int| 0 <= k < front.len() implies #[trigger] pairs[k] == front[k] by {}
    let i = slot(front, key, 0);
    if i < front.len() {
        lemma_slot_is(pairs, key, 0, i);
    } else if pairs.last().0 == key {
        lemma_slot_is(pairs, key, 0, front.len() as int);
    } else {
        lemma_slot_is(pairs, key, 0, pairs.len() as int);
    }
}

/// The prefix of metadata that describes where a message was read from. It is
/// never handed on.
pub const SOURCE_PREFIX: &'static str = "mqb.src.";

/// A message in the form that every endpoint understands.
#[derive(Debug)]
pub struct CanonicalMessage {
    pub message_id: u128,
    pub payload: Vec<u8>,
    pub metadata: Metadata,
}

/// A message over mathematical values.
pub struct MessageView {
    pub message_id: u128,
    pub payload: Seq<u8>,
    pub metadata: Pairs,
}

impl View for CanonicalMessage {
    type V = MessageView;

    open spec fn view(&self) -> MessageView {
        MessageView {
            message_id: self.message_id,
            payload: self.payload@,
            metadata: self.metadata@,
        }
    }
}

/// The same bytes again.
pub fn copy_bytes(bytes: &[u8]) -> (out: Vec<u8>)
    ensures
        out@ == bytes@,
{
    vstd::slice::slice_to_vec(bytes)
}

impl CanonicalMessage {
    /// A message without metadata. Without an id it gets a fresh one.
    pub fn new(payload: Vec<u8>, message_id: Option<u128>) -> (m: Self)
        ensures
            m.payload@ == payload@,
            m.metadata@ == Pairs::empty(),
            match message_id {
                Some(id) => m.message_id == id,
                None => is_v7(m.message_id),
            },
    {
        let id: u128 = match message_id {
            Some(id) => id,
            None => fresh_id(),
        };
        CanonicalMessage { message_id: id, payload, metadata: Metadata::new() }
    }

    /// The message with a metadata value added.
    pub fn with_metadata_kv(self, key: &str, value: &str) -> (m: Self)
        ensures
            m.message_id == self.message_id,
            m.payload@ == self.payload@,
            m.metadata@ == with(self.metadata@, key@, value@),
    {
        let mut metadata = self.metadata;
        metadata.put(key, value);
        CanonicalMessage { message_id: self.message_id, payload: self.payload, metadata }
    }

    /// The same message again.
    pub fn copy(&self) -> (m: CanonicalMessage)
        ensures
            m@ == self@,
    {
        CanonicalMessage {
            message_id: self.message_id,
            payload: copy_bytes(self.payload.as_slice()),
            metadata: self.metadata.copy(),
        }
    }
}

/// Why a message was not published. A retryable failure may pass by itself.
#[derive(Debug)]
pub enum PublisherError {
    Retryable(String),
    NonRetryable(String),
}

/// A publish failure over mathematical values.
pub enum FailureView {
    Retryable(Seq<char>),
    NonRetryable(Seq<char>),
}

impl View for PublisherError {
    type V = FailureView;

    open spec fn view(&self) -> FailureView {
        match self {
            PublisherError::Retryable(text) => FailureView::Retryable(text@),
            PublisherError::NonRetryable(text) => FailureView::NonRetryable(text@),
        }
    }
}

/// Why no batch was received. A lost connection may be made again, a permanent
/// failure stays.
#[derive(Debug)]
pub enum ConsumerError {
    Connection(String),
    Permanent(String),
    EndOfStream,
}

/// A receive failure over mathematical values.
pub enum ReceiveFailure {
    Connection(Seq<char>),
    Permanent(Seq<char>),
    EndOfStream,
}

impl View for ConsumerError {
    type V = ReceiveFailure;

    open spec fn view(&self) -> ReceiveFailure {
        match self {
            ConsumerError::Connection(text) => ReceiveFailure::Connection(text@),
            ConsumerError::Permanent(text) => ReceiveFailure::Permanent(text@),
            ConsumerError::EndOfStream => ReceiveFailure::EndOfStream,
        }
    }
}

/// What publishing a message gives back.
#[derive(Debug)]
pub enum Sent {
    Ack,
    Response(CanonicalMessage),
}

/// A publish result over mathematical values.
pub enum SentView {
    Ack,
    Response(MessageView),
}

impl View for Sent {
    type V = SentView;

    open spec fn view(&self) -> SentView {
        match self {
            Sent::Ack => SentView::Ack,
            Sent::Response(m) => SentView::Response(m@),
        }
    }
}

/// What became of a message that was consumed.
#[derive(Debug)]
pub enum MessageDisposition {
    Ack,
    Reply(CanonicalMessage),
    Nack,
}

/// A disposition over mathematical values.
pub enum DispositionView {
    Ack,
    Reply(MessageView),
    Nack,
}

impl View for MessageDisposition {
    type V = DispositionView;

    open spec fn view(&self) -> DispositionView {
        match self {
            MessageDisposition::Ack => DispositionView::Ack,
            MessageDisposition::Reply(m) => DispositionView::Reply(m@),
            MessageDisposition::Nack => DispositionView::Nack,
        }
    }
}

/// What publishing a batch gives back: everything acknowledged, or the responses and
/// the messages that failed, each in the order of the batch.
#[derive(Debug)]
pub enum SentBatch {
    Ack,
    Partial {
        responses: Option<Vec<CanonicalMessage>>,
        failed: Vec<(CanonicalMessage, PublisherError)>,
    },
}

/// A batch result over mathematical values.
pub enum BatchView {
    Ack,
    Partial { responses: Option<Seq<MessageView>>, failed: Seq<(MessageView, FailureView)> },
}

/// Messages over mathematical values.
pub open spec fn message_views(messages: Seq<CanonicalMessage>) -> Seq<MessageView> {
    messages.map_values(|m: CanonicalMessage| m@)
}

/// Failed messages over mathematical values.
pub open spec fn failed_views(failed: Seq<(CanonicalMessage, PublisherError)>) -> Seq<
    (MessageView, FailureView),
> {
    failed.map_values(|f: (CanonicalMessage, PublisherError)| (f.0@, f.1@))
}

impl View for SentBatch {
    type V = BatchView;

    open spec fn view(&self) -> BatchView {
        match self {
            SentBatch::Ack => BatchView::Ack,
            SentBatch::Partial { responses, failed } => BatchView::Partial {
                responses: match responses {
                    Some(r) => Some(message_views(r@)),
                    None => None,
                },
                failed: failed_views(failed@),
            },
        }
    }
}

/// The batch result for given responses and failures.
pub open spec fn batch_of(
    responses: Seq<MessageView>,
    failed: Seq<(MessageView, FailureView)>,
) -> BatchView {
    if responses.len() == 0 && failed.len() == 0 {
        BatchView::Ack
    } else {
        BatchView::Partial {
            responses: if responses.len() == 0 {
                None
            } else {
                Some(responses)
            },
            failed,
        }
    }
}

/// The batch result for given responses and failures.
pub fn make_batch(
    responses: Vec<CanonicalMessage>,
    failed: Vec<(CanonicalMessage, PublisherError)>,
) -> (batch: SentBatch)
    ensures
        batch@ == batch_of(message_views(responses@), failed_views(failed@)),
{
    if responses.is_empty() && failed.is_empty() {
        return SentBatch::Ack;
    }
    let some = if responses.is_empty() {
        None
    } else {
        Some(responses)
    };
    SentBatch::Partial { responses: some, failed }
}

/// The outcome of publishing one message of a batch.
#[derive(Debug)]
pub struct SendResult {
    pub message: CanonicalMessage,
    pub outcome: Result<Sent, PublisherError>,
}

/// The outcome of one message over mathematical values.
pub struct SendResultView {
    pub message: MessageView,
    pub outcome: Result<SentView, FailureView>,
}

/// What sending a message came to, over mathematical values.
pub open spec fn outcome_view(r: Result<Sent, PublisherError>) -> Result<SentView, FailureView> {
    match r {
        Ok(s) => Ok(s@),
        Err(e) => Err(e@),
    }
}

impl View for SendResult {
    type V = SendResultView;

    open spec fn view(&self) -> SendResultView {
        SendResultView { message: self.message@, outcome: outcome_view(self.outcome) }
    }
}

/// Outcomes over mathematical values.
pub open spec fn result_views(results: Seq<SendResult>) -> Seq<SendResultView> {
    results.map_values(|r: SendResult| r@)
}

/// The responses among outcomes, in order.
pub open spec fn responses_in(results: Seq<SendResultView>) -> Seq<MessageView>
    decreases results.len(),
{
    if results.len() == 0 {
        seq![]
    } else {
        let rest = responses_in(results.drop_last());
        match results.last().outcome {
            Ok(SentView::Response(m)) => rest.push(m),
            _ => rest,
        }
    }
}

/// The failed messages among outcomes, in order.
pub open spec fn failures_in(results: Seq<SendResultView>) -> Seq<(MessageView, FailureView)>
    decreases results.len(),
{
    if results.len() == 0 {
        seq![]
    } else {
        let rest = failures_in(results.drop_last());
        match results.last().outcome {
            Err(e) => rest.push((results.last().message, e)),
            _ => rest,
        }
    }
}

/// How many of the outcomes are plain acknowledgements.
pub open spec fn acks_in(results: Seq<SendResultView>) -> nat
    decreases results.len(),
{
    if results.len() == 0 {
        0
    } else {
        acks_in(results.drop_last()) + (if results.last().outcome == Ok::<
            SentView,
            FailureView,
        >(SentView::Ack) {
            1nat
        } else {
            0nat
        })
    }
}

/// Every message of a batch is acknowledged, answered or failed, and only one of
/// these.
pub proof fn law_every_message_has_one_outcome(results: Seq<SendResultView>)
    ensures
        acks_in(results) + responses_in(results).len() + failures_in(results).len()
            == results.len(),
    decreases results.len(),
{
    if results.len() > 0 {
        law_every_message_has_one_outcome(results.drop_last());
    }
}

/// Gathers the outcomes of a batch.
pub fn collect_batch(results: Vec<SendResult>) -> (batch: SentBatch)
    ensures
        batch@ == batch_of(
            responses_in(result_views(results@)),
            failures_in(result_views(results@)),
        ),
{
    let mut responses: Vec<CanonicalMessage> = Vec::new();
    let mut failed: Vec<(CanonicalMessage, PublisherError)> = Vec::new();
    let ghost views = result_views(results@);
    let mut rest = results;
    let ghost mut n: int = 0;
    assert(message_views(responses@) =~= responses_in(views.take(0)));
    assert(failed_views(failed@) =~= failures_in(views.take(0)));
    while rest.len() > 0
        invariant
            0 <= n <= results@.len(),
            rest@ == results@.skip(n),
            views == result_views(results@),
            message_views(responses@) == responses_in(views.take(n)),
            failed_views(failed@) == failures_in(views.take(n)),
        decreases rest@.len(),
    {
        assert(views.take(n + 1).drop_last() =~= views.take(n));
        assert(views.take(n + 1).last() == results@[n]@);
        assert(rest@[0] == results@[n]);
        let result = rest.remove(0);
        assert(results@.skip(n).remove(0) =~= results@.skip(n + 1));
        let ghost old_responses = responses@;
        let ghost old_failed = failed@;
        match result.outcome {
            Ok(Sent::Response(m)) => {
                responses.push(m);
                assert(message_views(responses@) =~= message_views(old_responses).push(m@));
            },
            Ok(Sent::Ack) => {},
            Err(e) => {
                failed.push((result.message, e));
                assert(failed_views(failed@) =~= failed_views(old_failed).push(
                    (result.message@, e@),
                ));
            },
        }
        proof {
            n = n + 1;
        }
    }
    assert(views.take(views.len() as int) =~= views);
    make_batch(responses, failed)
}

} // verus!
