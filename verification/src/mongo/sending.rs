//! Publishing to a MongoDB collection, from a message or a batch to its outcome.
//!
//! Publishing alternates between decisions and calls of the database. The publisher
//! performs what it is asked for, and tells what came of that.

use vstd::prelude::*;

use crate::ids::is_v7_text;
use crate::message::{
    batch_of, collect_batch, failed_views, failures_in, law_reads_give_back_writes, lookup,
    message_views, outcome_view, responses_in, result_views, with, BatchView, CanonicalMessage,
    FailureView, MessageView, PublisherError, SendResult, Sent, SentBatch, SentView,
};
use crate::mongo::bson::{
    field, law_fields_give_back_values, with_field, BsonValue, BsonView, Document, Fields,
};
use crate::mongo::document::{document_for, document_metadata, reads_document};
use crate::mongo::publisher::{
    counted, finish_batch, insert_result, is_duplicate, law_every_stored_message_is_accounted_for,
    longer_sleep, number_documents, numbered, read_counter, recover_correlation_id_from_duplicate,
    recovery, reply_result, request_under, sequenced, sequencer_change, sequencer_filter,
    sequencer_update, storable, stored_result, stored_under, unstorable, CounterOutcome,
    InsertManyOutcome, InsertOutcome, InsertPlan, Lookup, MongoDbPublisher, PollStep, ReplyWait,
};
use crate::text::opt;

verus! {

/// How far publishing a message has come.
#[derive(Debug)]
pub enum StoreStage {
    /// The document waits for its sequence number.
    Numbering(Document),
    /// The document is inserted.
    Storing,
    /// The document of a request is inserted.
    Requesting { correlation_id: String },
    /// The document that took the identifier of a request is looked for.
    Recovering { correlation_id: String },
    /// Time passes until the next look for a reply.
    Pausing { correlation_id: String, wait: ReplyWait },
    /// A reply is looked for.
    Looking { correlation_id: String, wait: ReplyWait },
    /// The outcome is known.
    Done,
}

/// How far publishing a message has come, over mathematical values.
pub enum StoreStageView {
    Numbering(Fields),
    Storing,
    Requesting { correlation_id: Seq<char> },
    Recovering { correlation_id: Seq<char> },
    Pausing { correlation_id: Seq<char>, timeout: u128, sleep: u128 },
    Looking { correlation_id: Seq<char>, timeout: u128, sleep: u128 },
    Done,
}

impl View for StoreStage {
    type V = StoreStageView;

    open spec fn view(&self) -> StoreStageView {
        match self {
            StoreStage::Numbering(d) => StoreStageView::Numbering(d@),
            StoreStage::Storing => StoreStageView::Storing,
            StoreStage::Requesting { correlation_id } => StoreStageView::Requesting {
                correlation_id: correlation_id@,
            },
            StoreStage::Recovering { correlation_id } => StoreStageView::Recovering {
                correlation_id: correlation_id@,
            },
            StoreStage::Pausing { correlation_id, wait } => StoreStageView::Pausing {
                correlation_id: correlation_id@,
                timeout: wait.timeout,
                sleep: wait.sleep,
            },
            StoreStage::Looking { correlation_id, wait } => StoreStageView::Looking {
                correlation_id: correlation_id@,
                timeout: wait.timeout,
                sleep: wait.sleep,
            },
            StoreStage::Done => StoreStageView::Done,
        }
    }
}

/// What came of a call of the database.
#[derive(Debug)]
pub enum StoreEvent {
    Counter(CounterOutcome),
    Inserted(InsertOutcome),
    Found(Lookup),
    /// So many nanoseconds have passed since the first pause began.
    Passed(u128),
}

/// What publishing a message asks for.
#[derive(Debug)]
pub enum StoreAction {
    /// Count the sequencer up, and make it where there is none.
    Reserve { filter: Document, update: Document },
    Insert(Document),
    Find(Document),
    /// Let so many nanoseconds pass.
    Pause(u128),
    /// Find a reply, and delete it.
    Look { collection: String, filter: Document },
    Finish(Result<Sent, PublisherError>),
}

/// What publishing a message asks for, over mathematical values.
pub enum StoreActionView {
    Reserve { filter: Fields, update: Fields },
    Insert(Fields),
    Find(Fields),
    Pause(u128),
    Look { collection: Seq<char>, filter: Fields },
    Finish(Result<SentView, FailureView>),
}

impl View for StoreAction {
    type V = StoreActionView;

    open spec fn view(&self) -> StoreActionView {
        match self {
            StoreAction::Reserve { filter, update } => StoreActionView::Reserve {
                filter: filter@,
                update: update@,
            },
            StoreAction::Insert(d) => StoreActionView::Insert(d@),
            StoreAction::Find(d) => StoreActionView::Find(d@),
            StoreAction::Pause(nanos) => StoreActionView::Pause(*nanos),
            StoreAction::Look { collection, filter } => StoreActionView::Look {
                collection: collection@,
                filter: filter@,
            },
            StoreAction::Finish(result) => StoreActionView::Finish(outcome_view(*result)),
        }
    }
}

/// The query for the reply under a correlation identifier.
pub open spec fn reply_filter(correlation_id: Seq<char>) -> Fields {
    seq![("metadata.correlation_id"@, BsonView::Text(correlation_id))]
}

/// Whether a message can be a request under this correlation identifier: its own one,
/// where it has one, and the text of a fresh identifier else.
pub open spec fn goes_under(m: MessageView, correlation_id: Seq<char>) -> bool {
    match lookup(m.metadata, "correlation_id"@) {
        Some(own) => own == correlation_id,
        None => is_v7_text(correlation_id),
    }
}

impl StoreStageView {
    /// Whether publishing waits for such an event.
    pub open spec fn awaits(self, event: StoreEvent) -> bool {
        match self {
            StoreStageView::Numbering(_) => event is Counter,
            StoreStageView::Storing => event is Inserted,
            StoreStageView::Requesting { .. } => event is Inserted,
            StoreStageView::Recovering { .. } => event is Found,
            StoreStageView::Pausing { .. } => event is Passed,
            StoreStageView::Looking { .. } => event is Found,
            StoreStageView::Done => false,
        }
    }

    /// The end of publishing with this outcome.
    pub open spec fn finish(outcome: Result<SentView, FailureView>) -> (Self, StoreActionView) {
        (StoreStageView::Done, StoreActionView::Finish(outcome))
    }

    /// The beginning of the wait for a reply.
    pub open spec fn await_reply(p: MongoDbPublisher, correlation_id: Seq<char>) -> (
        Self,
        StoreActionView,
    ) {
        (
            StoreStageView::Pausing {
                correlation_id,
                timeout: (p.request_timeout_ms * 1_000_000) as u128,
                sleep: (p.reply_polling_ms * 1_000_000) as u128,
            },
            StoreActionView::Pause(0),
        )
    }

    /// What publishing a message begins with. A request goes under the correlation
    /// identifier.
    pub open spec fn first(
        p: MongoDbPublisher,
        m: MessageView,
        correlation_id: Seq<char>,
        now: i64,
    ) -> (Self, StoreActionView) {
        match document_for(m, p.format, opt(p.id_field), now) {
            Err(why) => Self::finish(Err(FailureView::NonRetryable(why))),
            Ok(d) => if p.request_reply {
                (StoreStageView::Requesting { correlation_id }, StoreActionView::Insert(d))
            } else if sequenced(p.request_reply, p.format) {
                (
                    StoreStageView::Numbering(d),
                    StoreActionView::Reserve {
                        filter: sequencer_filter(p.collection_name@),
                        update: sequencer_change(1),
                    },
                )
            } else {
                (StoreStageView::Storing, StoreActionView::Insert(d))
            },
        }
    }

    /// What follows from an event while this message is published. Where the event is a
    /// reply, it reads so.
    pub open spec fn next(
        self,
        p: MongoDbPublisher,
        m: MessageView,
        event: StoreEvent,
        reply: Result<CanonicalMessage, String>,
    ) -> (Self, StoreActionView) {
        match (self, event) {
            (StoreStageView::Numbering(d), StoreEvent::Counter(c)) => match counted(c) {
                Ok(n) => (
                    StoreStageView::Storing,
                    StoreActionView::Insert(with_field(d, "seq"@, BsonView::Int64(n))),
                ),
                Err(e) => Self::finish(Err(e)),
            },
            (StoreStageView::Storing, StoreEvent::Inserted(outcome)) => Self::finish(
                stored_result(p.report_outcome, m, outcome),
            ),
            (
                StoreStageView::Requesting { correlation_id },
                StoreEvent::Inserted(outcome),
            ) => if outcome is Done {
                Self::await_reply(p, correlation_id)
            } else if is_duplicate(outcome) {
                match stored_under(m, opt(p.id_field)) {
                    Ok(id) => (
                        StoreStageView::Recovering { correlation_id },
                        StoreActionView::Find(seq![("_id"@, id)]),
                    ),
                    Err(why) => Self::finish(Err(FailureView::NonRetryable(why))),
                }
            } else {
                Self::finish(
                    Err(FailureView::Retryable("Failed to insert request document into MongoDB"@)),
                )
            },
            (StoreStageView::Recovering { correlation_id }, StoreEvent::Found(found)) => match (
            recovery(m, found)) {
                Ok(r) => Self::await_reply(
                    p,
                    match lookup(r.metadata, "correlation_id"@) {
                        Some(earlier) => earlier,
                        None => correlation_id,
                    },
                ),
                Err(e) => Self::finish(Err(e)),
            },
            (
                StoreStageView::Pausing { correlation_id, timeout, sleep },
                StoreEvent::Passed(elapsed),
            ) => if elapsed > timeout {
                Self::finish(
                    Err(
                        FailureView::NonRetryable(
                            "Request timed out waiting for MongoDB response"@,
                        ),
                    ),
                )
            } else {
                (
                    StoreStageView::Looking { correlation_id, timeout, sleep },
                    StoreActionView::Look {
                        collection: p.collection_name@ + "_replies"@,
                        filter: reply_filter(correlation_id),
                    },
                )
            },
            (
                StoreStageView::Looking { correlation_id, timeout, sleep },
                StoreEvent::Found(found),
            ) => match found {
                Lookup::Found(_) => Self::finish(reply_result(reply)),
                Lookup::NotFound => (
                    StoreStageView::Pausing { correlation_id, timeout, sleep: longer_sleep(sleep) },
                    StoreActionView::Pause(sleep),
                ),
                Lookup::Failed(_) => (
                    StoreStageView::Pausing { correlation_id, timeout, sleep },
                    StoreActionView::Pause(sleep),
                ),
            },
            _ => Self::finish(Ok(SentView::Ack)),
        }
    }

    /// Whether the reply that an event brings reads so.
    pub open spec fn reads_as(
        self,
        event: StoreEvent,
        reply: Result<CanonicalMessage, String>,
    ) -> bool {
        self is Looking ==> (event matches StoreEvent::Found(Lookup::Found(d)) ==> reads_document(
            d@,
            reply,
        ))
    }
}

/// A message that is being published.
#[derive(Debug)]
pub struct MongoSend {
    pub message: CanonicalMessage,
    pub stage: StoreStage,
}

fn reply_query(correlation_id: &str) -> (d: Document)
    ensures
        d@ == reply_filter(correlation_id@),
{
    let d = Document::new().then_field(
        "metadata.correlation_id",
        BsonValue::Text(correlation_id.to_owned()),
    );
    assert(d@ =~= reply_filter(correlation_id@));
    d
}

fn wait_for_reply(publisher: &MongoDbPublisher, correlation_id: String) -> (res: (
    StoreStage,
    StoreAction,
))
    ensures
        (res.0@, res.1@) == StoreStageView::await_reply(*publisher, correlation_id@),
{
    let wait = ReplyWait {
        timeout: publisher.request_timeout_ms as u128 * 1_000_000,
        sleep: publisher.reply_polling_ms as u128 * 1_000_000,
    };
    (StoreStage::Pausing { correlation_id, wait }, StoreAction::Pause(0))
}

impl MongoSend {
    /// Begins publishing a message.
    pub fn start(publisher: &MongoDbPublisher, message: CanonicalMessage, now: i64) -> (res: (
        Self,
        StoreAction,
    ))
        ensures
            !publisher.request_reply ==> res.0.message == message && (res.0.stage@, res.1@)
                == StoreStageView::first(*publisher, message@, ""@, now),
            publisher.request_reply ==> exists|correlation_id: Seq<char>|
                {
                    &&& #[trigger] goes_under(message@, correlation_id)
                    &&& res.0.message@ == request_under(
                        publisher.collection_name@,
                        message@,
                        correlation_id,
                    )
                    &&& (res.0.stage@, res.1@) == StoreStageView::first(
                        *publisher,
                        res.0.message@,
                        correlation_id,
                        now,
                    )
                },
    {
        if publisher.request_reply {
            let (request, correlation_id) = publisher.start_request(message);
            let ghost own = correlation_id@;
            assert(goes_under(message@, own));
            return match publisher.prepare(&request, now) {
                Ok(d) => (
                    MongoSend { message: request, stage: StoreStage::Requesting { correlation_id } },
                    StoreAction::Insert(d),
                ),
                Err(e) => (
                    MongoSend { message: request, stage: StoreStage::Done },
                    StoreAction::Finish(Err(e)),
                ),
            };
        }
        match publisher.prepare(&message, now) {
            Ok(d) => if publisher.uses_sequencer() {
                let (filter, update) = sequencer_update(publisher.collection_name.as_str(), 1);
                (
                    MongoSend { message, stage: StoreStage::Numbering(d) },
                    StoreAction::Reserve { filter, update },
                )
            } else {
                (MongoSend { message, stage: StoreStage::Storing }, StoreAction::Insert(d))
            },
            Err(e) => (
                MongoSend { message, stage: StoreStage::Done },
                StoreAction::Finish(Err(e)),
            ),
        }
    }

    /// Goes on after a call of the database.
    pub fn step(self, publisher: &MongoDbPublisher, event: StoreEvent) -> (res: (
        Self,
        StoreAction,
    ))
        requires
            self.stage@.awaits(event),
        ensures
            !(self.stage@ is Recovering) ==> res.0.stage@ is Done || res.0.message == self.message,
            exists|reply: Result<CanonicalMessage, String>|
                {
                    &&& #[trigger] self.stage@.reads_as(event, reply)
                    &&& (res.0.stage@, res.1@) == self.stage@.next(
                        *publisher,
                        self.message@,
                        event,
                        reply,
                    )
                },
    {
        let ghost unread: Result<CanonicalMessage, String> = arbitrary();
        let ghost before = self.stage@;
        let MongoSend { message, stage } = self;
        match (stage, event) {
            (StoreStage::Looking { correlation_id, wait }, StoreEvent::Found(found)) => {
                let mut wait = wait;
                match wait.on_look(found) {
                    PollStep::Reply(result) => {
                        proof {
                            let d = found->Found_0;
                            let read = choose|parsed: Result<CanonicalMessage, String>|
                                {
                                    &&& #[trigger] reads_document(d@, parsed)
                                    &&& outcome_view(result) == reply_result(parsed)
                                };
                            assert(before.reads_as(event, read));
                        }
                        (MongoSend { message, stage: StoreStage::Done }, StoreAction::Finish(result))
                    },
                    PollStep::Sleep(nanos) => {
                        assert(before.reads_as(event, unread));
                        (
                            MongoSend {
                                message,
                                stage: StoreStage::Pausing { correlation_id, wait },
                            },
                            StoreAction::Pause(nanos),
                        )
                    },
                }
            },
            (stage, event) => {
                assert(before.reads_as(event, unread));
                let (message, stage, action) = go_on(publisher, message, stage, event);
                (MongoSend { message, stage }, action)
            },
        }
    }
}

/// Goes on after a call of the database other than a look for a reply.
fn go_on(
    publisher: &MongoDbPublisher,
    message: CanonicalMessage,
    stage: StoreStage,
    event: StoreEvent,
) -> (res: (CanonicalMessage, StoreStage, StoreAction))
    requires
        stage@.awaits(event),
        !(stage@ is Looking),
    ensures
        !(stage@ is Recovering) ==> res.1@ is Done || res.0 == message,
        forall|reply: Result<CanonicalMessage, String>|
            (res.1@, res.2@) == #[trigger] stage@.next(*publisher, message@, event, reply),
{
    match (stage, event) {
        (StoreStage::Numbering(d), StoreEvent::Counter(c)) => match read_counter(c) {
            Ok(n) => (
                message,
                StoreStage::Storing,
                StoreAction::Insert(d.with("seq", BsonValue::Int64(n))),
            ),
            Err(e) => (message, StoreStage::Done, StoreAction::Finish(Err(e))),
        },
        (StoreStage::Storing, StoreEvent::Inserted(outcome)) => {
            let kept = message.copy();
            let result = publisher.on_insert(message, outcome);
            (kept, StoreStage::Done, StoreAction::Finish(result))
        },
        (StoreStage::Requesting { correlation_id }, StoreEvent::Inserted(outcome)) => {
            match publisher.on_request_insert(outcome) {
                Ok(true) => {
                    let (stage, action) = wait_for_reply(publisher, correlation_id);
                    (message, stage, action)
                },
                Ok(false) => match publisher.stored_id(&message) {
                    Ok(id) => {
                        let query = Document::new().then_field("_id", id);
                        assert(query@ =~= seq![("_id"@, id@)]);
                        (
                            message,
                            StoreStage::Recovering { correlation_id },
                            StoreAction::Find(query),
                        )
                    },
                    Err(e) => (message, StoreStage::Done, StoreAction::Finish(Err(e))),
                },
                Err(e) => (message, StoreStage::Done, StoreAction::Finish(Err(e))),
            }
        },
        (StoreStage::Recovering { correlation_id }, StoreEvent::Found(found)) => {
            let kept = message.copy();
            match recover_correlation_id_from_duplicate(message, found) {
                Ok(m) => {
                    let under = match m.metadata.get("correlation_id") {
                        Some(earlier) => earlier.clone(),
                        None => correlation_id,
                    };
                    let (stage, action) = wait_for_reply(publisher, under);
                    (m, stage, action)
                },
                Err(e) => (kept, StoreStage::Done, StoreAction::Finish(Err(e))),
            }
        },
        (StoreStage::Pausing { correlation_id, wait }, StoreEvent::Passed(elapsed)) => {
            match wait.expired(elapsed) {
                Some(e) => (message, StoreStage::Done, StoreAction::Finish(Err(e))),
                None => {
                    let filter = reply_query(correlation_id.as_str());
                    let collection = publisher.reply_collection();
                    (
                        message,
                        StoreStage::Looking { correlation_id, wait },
                        StoreAction::Look { collection, filter },
                    )
                },
            }
        },
        _ => (message, StoreStage::Done, StoreAction::Finish(Ok(Sent::Ack))),
    }
}

/// A message has an outcome exactly when publishing is over, and what is asked for is
/// what publishing then waits for.
pub proof fn law_publishing_ends_with_its_outcome(
    stage: StoreStageView,
    p: MongoDbPublisher,
    m: MessageView,
    event: StoreEvent,
    reply: Result<CanonicalMessage, String>,
)
    requires
        stage.awaits(event),
    ensures
        ({
            let (next, action) = stage.next(p, m, event, reply);
            &&& next is Done <==> action is Finish
            &&& next is Storing <==> action is Insert
            &&& next is Recovering <==> action is Find
            &&& next is Pausing <==> action is Pause
            &&& next is Looking <==> action is Look
            &&& !(action is Reserve)
        }),
{
}

/// A request that is sent a second time waits for the reply to the first one: it looks
/// for a reply under the correlation identifier that is stored.
pub proof fn law_repeated_request_awaits_the_first_reply(
    p: MongoDbPublisher,
    m: MessageView,
    correlation_id: Seq<char>,
    found: Document,
    reply: Result<CanonicalMessage, String>,
    earlier: Seq<char>,
    elapsed: u128,
)
    requires
        document_metadata(found@) matches Ok(metadata) && lookup(
            metadata,
            "correlation_id"@,
        ) == Some(earlier),
        elapsed <= p.request_timeout_ms * 1_000_000,
    ensures
        ({
            let (pausing, _) = (StoreStageView::Recovering { correlation_id }).next(
                p,
                m,
                StoreEvent::Found(Lookup::Found(found)),
                reply,
            );
            let (_, action) = pausing.next(p, m, StoreEvent::Passed(elapsed), reply);
            action == StoreActionView::Look {
                collection: p.collection_name@ + "_replies"@,
                filter: reply_filter(earlier),
            }
        }),
{
    let metadata = document_metadata(found@)->Ok_0;
    let first = with(m.metadata, "correlation_id"@, earlier);
    law_reads_give_back_writes(m.metadata, "correlation_id"@, earlier);
    if let Some(reply_to) = lookup(metadata, "reply_to"@) {
        law_reads_give_back_writes(first, "reply_to"@, reply_to);
        reveal_strlit("correlation_id");
        reveal_strlit("reply_to");
        assert("correlation_id"@.len() != "reply_to"@.len());
    }
}

/// No reply is looked for once the time of a request is over.
pub proof fn law_no_look_after_the_timeout(
    p: MongoDbPublisher,
    m: MessageView,
    stage: StoreStageView,
    event: StoreEvent,
    reply: Result<CanonicalMessage, String>,
)
    requires
        stage.awaits(event),
        stage.next(p, m, event, reply).1 is Look,
    ensures
        stage matches StoreStageView::Pausing { timeout, .. } && event matches StoreEvent::Passed(
            elapsed,
        ) && elapsed <= timeout,
{
}

/// How far publishing a batch has come.
#[derive(Debug)]
pub enum BatchStage {
    /// The messages are published one by one.
    Sending,
    /// The documents wait for their sequence numbers.
    Numbering(InsertPlan),
    /// The documents are inserted.
    Storing(InsertPlan),
    /// The outcome is known.
    Done,
}

/// What publishing a batch waited for.
#[derive(Debug)]
pub enum BatchEvent {
    Sent(Vec<SendResult>),
    Counter(CounterOutcome),
    Inserted(InsertManyOutcome),
}

/// What publishing a batch asks for.
#[derive(Debug)]
pub enum BatchAction {
    /// Publish each of the messages by itself.
    SendEach(Vec<CanonicalMessage>),
    /// Count the sequencer up, and make it where there is none.
    Reserve { filter: Document, update: Document },
    /// Insert the documents in their order.
    InsertAll(Vec<Document>),
    Finish(Result<SentBatch, PublisherError>),
}

/// Documents over mathematical values.
pub open spec fn document_views(docs: Seq<Document>) -> Seq<Fields> {
    docs.map_values(|d: Document| d@)
}

/// The result of a batch over mathematical values.
pub open spec fn batch_result(r: Result<SentBatch, PublisherError>) -> Result<
    BatchView,
    FailureView,
> {
    match r {
        Ok(batch) => Ok(batch@),
        Err(e) => Err(e@),
    }
}

/// The result of a batch none of whose messages has a document.
pub open spec fn nothing_stored(failed: Seq<(MessageView, FailureView)>) -> BatchView {
    if failed.len() == 0 {
        BatchView::Ack
    } else {
        BatchView::Partial { responses: None, failed }
    }
}

/// Documents under consecutive sequence numbers, of which the last is given.
pub open spec fn all_numbered(docs: Seq<Fields>, end_seq: i64) -> Seq<Fields> {
    Seq::new(docs.len(), |i: int| numbered(docs[i], end_seq, docs.len() as int, i))
}

/// Whether a plan is the one for this batch.
pub open spec fn plans(
    p: MongoDbPublisher,
    messages: Seq<MessageView>,
    now: i64,
    plan: InsertPlan,
) -> bool {
    &&& message_views(plan.valid@) == storable(messages, p.format, opt(p.id_field), now)
    &&& failed_views(plan.failed@) == unstorable(messages, p.format, opt(p.id_field), now)
}

/// Whether these are the documents of messages, in order.
pub open spec fn documents_of(
    p: MongoDbPublisher,
    valid: Seq<MessageView>,
    now: i64,
    docs: Seq<Fields>,
) -> bool {
    &&& docs.len() == valid.len()
    &&& forall|i: int|
        0 <= i < docs.len() ==> document_for(valid[i], p.format, opt(p.id_field), now) == Ok::<
            Fields,
            Seq<char>,
        >(#[trigger] docs[i])
}

impl BatchStage {
    /// Whether publishing waits for such an event. A sequencer that stands too low for
    /// the batch is none.
    pub open spec fn awaits(self, event: BatchEvent) -> bool {
        match self {
            BatchStage::Sending => event is Sent,
            BatchStage::Numbering(plan) => {
                &&& plan.docs@.len() <= i64::MAX
                &&& event matches BatchEvent::Counter(c)
                &&& (counted(c) matches Ok(n) ==> n - plan.docs@.len() >= i64::MIN)
            },
            BatchStage::Storing(_) => event is Inserted,
            BatchStage::Done => false,
        }
    }

    /// Begins publishing a batch.
    pub fn start(publisher: &MongoDbPublisher, messages: Vec<CanonicalMessage>, now: i64) -> (res: (
        Self,
        BatchAction,
    ))
        requires
            messages@.len() <= i64::MAX,
        ensures
            if messages@.len() == 0 {
                res.0 is Done && (res.1 matches BatchAction::Finish(r) && batch_result(r) == Ok::<
                    BatchView,
                    FailureView,
                >(BatchView::Ack))
            } else if publisher.request_reply || publisher.report_outcome {
                res.0 is Sending && res.1 == BatchAction::SendEach(messages)
            } else {
                let all = message_views(messages@);
                let valid = storable(all, publisher.format, opt(publisher.id_field), now);
                let failed = unstorable(all, publisher.format, opt(publisher.id_field), now);
                if valid.len() == 0 {
                    res.0 is Done && (res.1 matches BatchAction::Finish(r) && batch_result(r)
                        == Ok::<BatchView, FailureView>(nothing_stored(failed)))
                } else if sequenced(publisher.request_reply, publisher.format) {
                    &&& res.0 matches BatchStage::Numbering(plan)
                    &&& plans(*publisher, all, now, plan)
                    &&& documents_of(*publisher, valid, now, document_views(plan.docs@))
                    &&& plan.docs@.len() <= i64::MAX
                    &&& res.1 matches BatchAction::Reserve { filter, update }
                    &&& filter@ == sequencer_filter(publisher.collection_name@)
                    &&& update@ == sequencer_change(plan.docs@.len() as i64)
                } else {
                    &&& res.0 matches BatchStage::Storing(plan)
                    &&& plans(*publisher, all, now, plan)
                    &&& res.1 matches BatchAction::InsertAll(docs)
                    &&& documents_of(*publisher, valid, now, document_views(docs@))
                }
            },
    {
        if messages.len() == 0 {
            return (BatchStage::Done, BatchAction::Finish(Ok(SentBatch::Ack)));
        }
        if publisher.sends_one_by_one() {
            return (BatchStage::Sending, BatchAction::SendEach(messages));
        }
        let InsertPlan { docs, valid, failed } = publisher.plan_batch(messages, now);
        let ghost all = message_views(messages@);
        let ghost kept = storable(all, publisher.format, opt(publisher.id_field), now);
        proof {
            law_every_stored_message_is_accounted_for(
                all,
                publisher.format,
                opt(publisher.id_field),
                now,
            );
            assert forall|i: int| 0 <= i < document_views(docs@).len() implies document_for(
                kept[i],
                publisher.format,
                opt(publisher.id_field),
                now,
            ) == Ok::<Fields, Seq<char>>(#[trigger] document_views(docs@)[i]) by {
                assert(kept[i] == message_views(valid@)[i]);
                assert(document_views(docs@)[i] == docs@[i]@);
            }
        }
        if docs.len() == 0 {
            if failed.len() == 0 {
                return (BatchStage::Done, BatchAction::Finish(Ok(SentBatch::Ack)));
            }
            let batch = SentBatch::Partial { responses: None, failed };
            return (BatchStage::Done, BatchAction::Finish(Ok(batch)));
        }
        if publisher.uses_sequencer() {
            let (filter, update) = sequencer_update(
                publisher.collection_name.as_str(),
                docs.len() as i64,
            );
            return (
                BatchStage::Numbering(InsertPlan { docs, valid, failed }),
                BatchAction::Reserve { filter, update },
            );
        }
        let plan = InsertPlan { docs: Vec::new(), valid, failed };
        (BatchStage::Storing(plan), BatchAction::InsertAll(docs))
    }

    /// Goes on after a call of the database.
    pub fn step(self, event: BatchEvent) -> (res: (Self, BatchAction))
        requires
            self.awaits(event),
        ensures
            match (self, event) {
                (BatchStage::Sending, BatchEvent::Sent(results)) => {
                    &&& res.0 is Done
                    &&& res.1 matches BatchAction::Finish(r)
                    &&& batch_result(r) == Ok::<BatchView, FailureView>(
                        batch_of(
                            responses_in(result_views(results@)),
                            failures_in(result_views(results@)),
                        ),
                    )
                },
                (BatchStage::Numbering(plan), BatchEvent::Counter(c)) => match counted(c) {
                    Ok(n) => {
                        &&& res.0 matches BatchStage::Storing(kept)
                        &&& kept.valid == plan.valid
                        &&& kept.failed == plan.failed
                        &&& res.1 matches BatchAction::InsertAll(docs)
                        &&& document_views(docs@) == all_numbered(document_views(plan.docs@), n)
                    },
                    Err(e) => {
                        &&& res.0 is Done
                        &&& res.1 matches BatchAction::Finish(r)
                        &&& batch_result(r) == Err::<BatchView, FailureView>(e)
                    },
                },
                (BatchStage::Storing(plan), BatchEvent::Inserted(outcome)) => {
                    &&& res.0 is Done
                    &&& res.1 matches BatchAction::Finish(r)
                    &&& batch_result(r) == insert_result(
                        message_views(plan.valid@),
                        failed_views(plan.failed@),
                        outcome,
                    )
                },
                _ => true,
            },
    {
        match (self, event) {
            (BatchStage::Sending, BatchEvent::Sent(results)) => (
                BatchStage::Done,
                BatchAction::Finish(Ok(collect_batch(results))),
            ),
            (BatchStage::Numbering(plan), BatchEvent::Counter(c)) => match read_counter(c) {
                Ok(n) => {
                    let InsertPlan { docs, valid, failed } = plan;
                    let out = number_documents(docs, n);
                    assert(document_views(out@) =~= all_numbered(document_views(docs@), n));
                    let kept = InsertPlan { docs: Vec::new(), valid, failed };
                    (BatchStage::Storing(kept), BatchAction::InsertAll(out))
                },
                Err(e) => (BatchStage::Done, BatchAction::Finish(Err(e))),
            },
            (BatchStage::Storing(plan), BatchEvent::Inserted(outcome)) => (
                BatchStage::Done,
                BatchAction::Finish(finish_batch(plan, outcome)),
            ),
            _ => (BatchStage::Done, BatchAction::Finish(Ok(SentBatch::Ack))),
        }
    }
}

/// The documents of a batch get consecutive sequence numbers in their order, up to the
/// one that the sequencer gave.
pub proof fn law_sequence_numbers_are_consecutive(docs: Seq<Fields>, end_seq: i64, i: int)
    requires
        0 <= i < docs.len(),
        end_seq - docs.len() >= i64::MIN,
    ensures
        field(all_numbered(docs, end_seq)[i], "seq"@) == Some(
            BsonView::Int64((end_seq - docs.len() + 1 + i) as i64),
        ),
        end_seq - docs.len() < end_seq - docs.len() + 1 + i <= end_seq,
{
    law_fields_give_back_values(
        docs[i],
        "seq"@,
        BsonView::Int64((end_seq - docs.len() + 1 + i) as i64),
        "seq"@,
    );
}

} // verus!
