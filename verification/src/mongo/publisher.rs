//! Publishing to a MongoDB collection.

use vstd::prelude::*;

use crate::ids::{fresh_id_text, is_v7_text};
use crate::message::{
    failed_views, lookup, message_views, outcome_view, with, BatchView, CanonicalMessage,
    FailureView, MessageView, Pairs, PublisherError, Sent, SentBatch, SentView,
};
use crate::models::{MongoDbConfig, MongoDbFormat};
use crate::mongo::bson::{long_in, with_field, BsonValue, BsonView, Document, Fields};
use crate::mongo::document::{
    document_for, document_metadata, explicit_id, extract_id_bson, message_to_document,
    parse_mongodb_document, reads_document, uuid_bson, uuid_value,
};
use crate::status::{
    plain_status, push_detail, reachable, text_detail, Detail, DetailView, EndpointStatus,
};
use crate::text::{join2, join3, opt, text_of_option};

verus! {

/// The metadata name that says what became of an insert.
pub const OUTCOME_KEY: &'static str = "mongodb.outcome";

/// The message was new.
pub const OUTCOME_INSERTED: &'static str = "inserted";

/// The message was there already.
pub const OUTCOME_EXISTED: &'static str = "existed";

/// The error code of a write under an identifier that is taken.
pub const DUPLICATE_KEY: i32 = 11000;

/// Whether messages get sequence numbers.
pub open spec fn sequenced(request_reply: bool, format: MongoDbFormat) -> bool {
    !request_reply && format != MongoDbFormat::Raw
}

/// Whether messages get sequence numbers.
pub fn mongodb_uses_sequencer(request_reply: bool, format: &MongoDbFormat) -> (res: bool)
    ensures
        res == sequenced(request_reply, *format),
{
    !request_reply && match format {
        MongoDbFormat::Raw => false,
        _ => true,
    }
}

/// The identifier of the document that counts sequence numbers.
pub fn namespaced_sequencer_id(collection_name: &str) -> (id: String)
    ensures
        id@ == collection_name@ + ":sequencer"@,
{
    join2(collection_name, ":sequencer")
}

/// The identifier of the document that keeps a cursor.
pub fn namespaced_cursor_id(collection_name: &str, cursor_id: &str) -> (id: String)
    ensures
        id@ == collection_name@ + ":cursor:"@ + cursor_id@,
{
    join3(collection_name, ":cursor:", cursor_id)
}

/// What publishing a message gives back where its outcome is reported, or not.
pub open spec fn tagged(report: bool, m: MessageView, outcome: Seq<char>) -> SentView {
    if report {
        SentView::Response(
            MessageView { metadata: with(m.metadata, OUTCOME_KEY@, outcome), ..m },
        )
    } else {
        SentView::Ack
    }
}

/// What publishing a message gives back: with reporting, the message itself with its
/// outcome, so that a route can branch on it.
pub fn tag_outcome(report_outcome: bool, message: CanonicalMessage, outcome: &str) -> (sent: Sent)
    ensures
        sent@ == tagged(report_outcome, message@, outcome@),
{
    if report_outcome {
        Sent::Response(message.with_metadata_kv(OUTCOME_KEY, outcome))
    } else {
        Sent::Ack
    }
}

/// The settings of a MongoDB publisher.
#[derive(Debug)]
pub struct MongoDbPublisher {
    pub collection_name: String,
    pub meta_collection_name: String,
    pub request_reply: bool,
    pub request_timeout_ms: u64,
    pub reply_polling_ms: u64,
    pub format: MongoDbFormat,
    pub id_field: Option<String>,
    pub report_outcome: bool,
}

/// The indexes and collections that a publisher sets up.
#[derive(Debug, Clone, Copy, PartialEq, Eq, Structural)]
pub struct MongoSetup {
    /// The size of the capped collection to make where there is none.
    pub capped_size_bytes: Option<i64>,
    /// Whether sequence numbers get a unique index.
    pub seq_index: bool,
    /// The seconds after which documents expire.
    pub ttl_seconds: Option<u64>,
    /// Whether the collection of replies gets an index.
    pub reply_index: bool,
}

fn copy_name(o: &Option<String>) -> (out: Option<String>)
    ensures
        opt(out) == opt(*o),
{
    match o {
        Some(s) => Some(s.clone()),
        None => None,
    }
}

/// How an insert came out.
#[derive(Debug)]
pub enum InsertOutcome {
    Done,
    /// The document was refused. The text says why.
    Refused { code: i32, why: String },
    /// The insert failed altogether.
    Failed(String),
}

/// Whether an insert failed because its identifier is taken.
pub open spec fn is_duplicate(outcome: InsertOutcome) -> bool {
    outcome matches InsertOutcome::Refused { code, why } && code == DUPLICATE_KEY
}

/// What publishing a message came to, given how its insert came out.
pub open spec fn stored_result(report: bool, m: MessageView, outcome: InsertOutcome) -> Result<
    SentView,
    FailureView,
> {
    if outcome is Done {
        Ok(tagged(report, m, OUTCOME_INSERTED@))
    } else if is_duplicate(outcome) {
        Ok(tagged(report, m, OUTCOME_EXISTED@))
    } else {
        Err(FailureView::Retryable("Failed to insert document into MongoDB"@))
    }
}

/// The identifier under which a message is stored, or why it has none.
pub open spec fn stored_under(m: MessageView, id_field: Option<Seq<char>>) -> Result<
    BsonView,
    Seq<char>,
> {
    match explicit_id(m.payload, id_field) {
        Ok(Some(id)) => Ok(id),
        Ok(None) => Ok(uuid_value(m.message_id)),
        Err(why) => Err(why),
    }
}

/// A request under a correlation identifier.
pub open spec fn request_under(
    collection_name: Seq<char>,
    m: MessageView,
    correlation_id: Seq<char>,
) -> MessageView {
    MessageView {
        metadata: with(
            with(m.metadata, "correlation_id"@, correlation_id),
            "reply_to"@,
            collection_name + "_replies"@,
        ),
        ..m
    }
}

/// What looking for the document behind a taken identifier came to.
#[derive(Debug)]
pub enum Lookup {
    Found(Document),
    NotFound,
    Failed(String),
}

impl MongoDbPublisher {
    /// The settings of a publisher, and what it sets up.
    pub fn new(config: &MongoDbConfig) -> (res: Result<(Self, MongoSetup), String>)
        ensures
            match res {
                Ok(r) => {
                    let p = r.0;
                    &&& config.collection is Some
                    &&& p.collection_name@ == config.collection->0@
                    &&& p.meta_collection_name@ == (match config.meta_collection {
                        Some(m) => m@,
                        None => config.collection->0@,
                    })
                    &&& p.request_reply == config.request_reply
                    &&& p.request_timeout_ms == (match config.request_timeout_ms {
                        Some(ms) => ms,
                        None => 30000,
                    })
                    &&& p.reply_polling_ms == (match config.reply_polling_ms {
                        Some(ms) => ms,
                        None => 50,
                    })
                    &&& p.format == config.format
                    &&& opt(p.id_field) == opt(config.id_field)
                    &&& p.report_outcome == config.report_outcome
                    &&& r.1 == (MongoSetup {
                        capped_size_bytes: config.capped_size_bytes,
                        seq_index: sequenced(config.request_reply, config.format),
                        ttl_seconds: config.ttl_seconds,
                        reply_index: config.request_reply,
                    })
                },
                Err(e) => config.collection is None && e@
                    == "Collection name is required for MongoDB publisher"@,
            },
    {
        let name = match &config.collection {
            Some(n) => n.clone(),
            None => {
                return Err("Collection name is required for MongoDB publisher".to_owned());
            },
        };
        let meta = match &config.meta_collection {
            Some(m) => m.clone(),
            None => name.clone(),
        };
        let setup = MongoSetup {
            capped_size_bytes: config.capped_size_bytes,
            seq_index: mongodb_uses_sequencer(config.request_reply, &config.format),
            ttl_seconds: config.ttl_seconds,
            reply_index: config.request_reply,
        };
        let p = MongoDbPublisher {
            collection_name: name,
            meta_collection_name: meta,
            request_reply: config.request_reply,
            request_timeout_ms: match config.request_timeout_ms {
                Some(ms) => ms,
                None => 30000,
            },
            reply_polling_ms: match config.reply_polling_ms {
                Some(ms) => ms,
                None => 50,
            },
            format: config.format,
            id_field: copy_name(&config.id_field),
            report_outcome: config.report_outcome,
        };
        Ok((p, setup))
    }

    /// What the publisher reports of a database, given why that does not answer.
    pub fn status(&self, database: &str, down: Option<String>) -> (s: EndpointStatus)
        ensures
            s@ == plain_status(
                self.collection_name@,
                opt(down),
                seq![
                    ("database"@, DetailView::Text(database@)),
                    ("request_reply"@, DetailView::Flag(self.request_reply)),
                ],
            ),
    {
        let mut s = reachable(self.collection_name.as_str());
        push_detail(&mut s.details, "database", text_detail(database));
        push_detail(&mut s.details, "request_reply", Detail::Flag(self.request_reply));
        s.healthy = down.is_none();
        s.error = down;
        s
    }

    /// Whether messages get sequence numbers.
    pub fn uses_sequencer(&self) -> (res: bool)
        ensures
            res == sequenced(self.request_reply, self.format),
    {
        mongodb_uses_sequencer(self.request_reply, &self.format)
    }

    /// The collection that replies come in.
    pub fn reply_collection(&self) -> (name: String)
        ensures
            name@ == self.collection_name@ + "_replies"@,
    {
        join2(self.collection_name.as_str(), "_replies")
    }

    /// The document for a message.
    pub fn prepare(&self, message: &CanonicalMessage, now: i64) -> (res: Result<
        Document,
        PublisherError,
    >)
        ensures
            match res {
                Ok(d) => document_for(message@, self.format, opt(self.id_field), now) == Ok::<
                    Fields,
                    Seq<char>,
                >(d@),
                Err(e) => (document_for(message@, self.format, opt(self.id_field), now)
                    matches Err(why) && e@ == FailureView::NonRetryable(why)),
            },
    {
        let id_field = match &self.id_field {
            Some(f) => Some(f.as_str()),
            None => None,
        };
        assert(text_of_option(id_field) == opt(self.id_field));
        match message_to_document(message, &self.format, id_field, now) {
            Ok(d) => Ok(d),
            Err(e) => Err(PublisherError::NonRetryable(e)),
        }
    }

    /// What publishing a message came to.
    pub fn on_insert(&self, message: CanonicalMessage, outcome: InsertOutcome) -> (res: Result<
        Sent,
        PublisherError,
    >)
        ensures
            outcome_view(res) == stored_result(self.report_outcome, message@, outcome),
    {
        match outcome {
            InsertOutcome::Done => Ok(
                tag_outcome(self.report_outcome, message, OUTCOME_INSERTED),
            ),
            InsertOutcome::Refused { code, why } => {
                if code == DUPLICATE_KEY {
                    return Ok(tag_outcome(self.report_outcome, message, OUTCOME_EXISTED));
                }
                Err(
                    PublisherError::Retryable("Failed to insert document into MongoDB".to_owned()),
                )
            },
            InsertOutcome::Failed(why) => Err(
                PublisherError::Retryable("Failed to insert document into MongoDB".to_owned()),
            ),
        }
    }

    /// A request under a correlation identifier, and where its reply goes.
    pub fn as_request(&self, message: CanonicalMessage, correlation_id: &str) -> (m:
        CanonicalMessage)
        ensures
            m@ == request_under(self.collection_name@, message@, correlation_id@),
    {
        let reply_to = self.reply_collection();
        message.with_metadata_kv("correlation_id", correlation_id).with_metadata_kv(
            "reply_to",
            reply_to.as_str(),
        )
    }

    /// A request under its own correlation identifier, or a fresh one.
    pub fn start_request(&self, message: CanonicalMessage) -> (res: (CanonicalMessage, String))
        ensures
            res.0@ == request_under(self.collection_name@, message@, res.1@),
            match lookup(message.metadata@, "correlation_id"@) {
                Some(id) => res.1@ == id,
                None => is_v7_text(res.1@),
            },
    {
        let cid = match message.metadata.get("correlation_id") {
            Some(c) => c.clone(),
            None => fresh_id_text(),
        };
        let m = self.as_request(message, cid.as_str());
        (m, cid)
    }

    /// The identifier under which a message was stored.
    pub fn stored_id(&self, message: &CanonicalMessage) -> (res: Result<BsonValue, PublisherError>)
        ensures
            match res {
                Ok(v) => stored_under(message@, opt(self.id_field)) == Ok::<BsonView, Seq<char>>(
                    v@,
                ),
                Err(e) => (stored_under(message@, opt(self.id_field)) matches Err(why) && e@
                    == FailureView::NonRetryable(why)),
            },
    {
        match &self.id_field {
            Some(f) => match extract_id_bson(message.payload.as_slice(), f.as_str()) {
                Ok(v) => Ok(v),
                Err(e) => Err(PublisherError::NonRetryable(e)),
            },
            None => Ok(uuid_bson(message.message_id)),
        }
    }

    /// Whether a request was inserted, was there already, or failed.
    pub fn on_request_insert(&self, outcome: InsertOutcome) -> (res: Result<bool, PublisherError>)
        ensures
            match outcome {
                InsertOutcome::Done => res == Ok::<bool, PublisherError>(true),
                _ => if is_duplicate(outcome) {
                    res == Ok::<bool, PublisherError>(false)
                } else {
                    res matches Err(e) && e@ == FailureView::Retryable(
                        "Failed to insert request document into MongoDB"@,
                    )
                },
            },
    {
        match outcome {
            InsertOutcome::Done => Ok(true),
            InsertOutcome::Refused { code, why } => {
                if code == DUPLICATE_KEY {
                    return Ok(false);
                }
                Err(
                    PublisherError::Retryable(
                        "Failed to insert request document into MongoDB".to_owned(),
                    ),
                )
            },
            InsertOutcome::Failed(why) => Err(
                PublisherError::Retryable(
                    "Failed to insert request document into MongoDB".to_owned(),
                ),
            ),
        }
    }
}

/// The metadata of a request that takes over what an earlier copy of it has.
pub open spec fn recovered(metadata: Pairs, earlier: Pairs) -> Pairs {
    let a = match lookup(earlier, "correlation_id"@) {
        Some(c) => with(metadata, "correlation_id"@, c),
        None => metadata,
    };
    match lookup(earlier, "reply_to"@) {
        Some(r) => with(a, "reply_to"@, r),
        None => a,
    }
}

/// A request that takes over what an earlier copy of it has, so that it waits for the
/// reply to that one.
pub fn recover_from(message: CanonicalMessage, earlier: &CanonicalMessage) -> (m: CanonicalMessage)
    ensures
        m.message_id == message.message_id,
        m.payload@ == message.payload@,
        m.metadata@ == recovered(message.metadata@, earlier.metadata@),
{
    let mut m = message;
    if let Some(c) = earlier.metadata.get("correlation_id") {
        m = m.with_metadata_kv("correlation_id", c.as_str());
    }
    if let Some(r) = earlier.metadata.get("reply_to") {
        m = m.with_metadata_kv("reply_to", r.as_str());
    }
    m
}

/// What comes of a request whose identifier is taken, given the document that took it.
pub open spec fn recovery(message: MessageView, found: Lookup) -> Result<MessageView, FailureView> {
    match found {
        Lookup::Found(d) => match document_metadata(d@) {
            Ok(earlier) => Ok(
                MessageView { metadata: recovered(message.metadata, earlier), ..message },
            ),
            Err(why) => Err(
                FailureView::NonRetryable("Failed to parse existing document: "@ + why),
            ),
        },
        Lookup::NotFound => Err(
            FailureView::Retryable("Duplicate key error but document not found"@),
        ),
        Lookup::Failed(why) => Err(
            FailureView::Retryable("Failed to fetch existing document: "@ + why@),
        ),
    }
}

/// A request whose identifier is taken, given the document that took it.
pub fn recover_correlation_id_from_duplicate(message: CanonicalMessage, found: Lookup) -> (res:
    Result<CanonicalMessage, PublisherError>)
    ensures
        match res {
            Ok(m) => recovery(message@, found) == Ok::<MessageView, FailureView>(m@),
            Err(e) => recovery(message@, found) == Err::<MessageView, FailureView>(e@),
        },
{
    match found {
        Lookup::Found(d) => {
            match parse_mongodb_document(d) {
                Ok(earlier) => Ok(recover_from(message, &earlier)),
                Err(why) => Err(
                    PublisherError::NonRetryable(
                        join2("Failed to parse existing document: ", why.as_str()),
                    ),
                ),
            }
        },
        Lookup::NotFound => Err(
            PublisherError::Retryable("Duplicate key error but document not found".to_owned()),
        ),
        Lookup::Failed(why) => Err(
            PublisherError::Retryable(
                join2("Failed to fetch existing document: ", why.as_str()),
            ),
        ),
    }
}

/// What looking for a reply does next.
#[derive(Debug)]
pub enum PollStep {
    Reply(Result<Sent, PublisherError>),
    /// Sleep so many nanoseconds, and look again.
    Sleep(u128),
}

/// The longest sleep between two looks for a reply, in nanoseconds.
pub const MAX_REPLY_SLEEP: u128 = 500_000_000;

/// The sleep after one that found nothing: half as long again, up to the longest.
pub open spec fn longer_sleep(sleep: u128) -> u128 {
    let next = sleep as int + sleep as int / 2;
    if next > MAX_REPLY_SLEEP {
        MAX_REPLY_SLEEP
    } else {
        next as u128
    }
}

/// The outcome of a request whose reply reads so.
pub open spec fn reply_result(reply: Result<CanonicalMessage, String>) -> Result<
    SentView,
    FailureView,
> {
    match reply {
        Ok(m) => Ok(SentView::Response(m@)),
        Err(why) => Err(FailureView::NonRetryable("Failed to parse response: "@ + why@)),
    }
}

/// Waiting for the reply to a request.
#[derive(Debug)]
pub struct ReplyWait {
    pub timeout: u128,
    pub sleep: u128,
}

impl ReplyWait {
    /// Why waiting ends without a reply, where the time is over.
    pub fn expired(&self, elapsed: u128) -> (res: Option<PublisherError>)
        ensures
            match res {
                Some(e) => elapsed > self.timeout && e@ == FailureView::NonRetryable(
                    "Request timed out waiting for MongoDB response"@,
                ),
                None => elapsed <= self.timeout,
            },
    {
        if elapsed > self.timeout {
            return Some(
                PublisherError::NonRetryable(
                    "Request timed out waiting for MongoDB response".to_owned(),
                ),
            );
        }
        None
    }

    /// Takes what a look for the reply came to. A look that failed is repeated after
    /// the same sleep.
    pub fn on_look(&mut self, found: Lookup) -> (step: PollStep)
        ensures
            final(self).timeout == old(self).timeout,
            match found {
                Lookup::Found(d) => {
                    &&& final(self).sleep == old(self).sleep
                    &&& exists|parsed: Result<CanonicalMessage, String>|
                        {
                            &&& #[trigger] reads_document(d@, parsed)
                            &&& step matches PollStep::Reply(r)
                            &&& outcome_view(r) == reply_result(parsed)
                        }
                },
                Lookup::NotFound => step == PollStep::Sleep(old(self).sleep) && final(self).sleep
                    == longer_sleep(old(self).sleep),
                Lookup::Failed(_) => step == PollStep::Sleep(old(self).sleep)
                    && final(self).sleep == old(self).sleep,
            },
    {
        match found {
            Lookup::Found(d) => {
                let parsed = parse_mongodb_document(d);
                let ghost witness = parsed;
                assert(reads_document(d@, witness));
                match parsed {
                    Ok(m) => PollStep::Reply(Ok(Sent::Response(m))),
                    Err(why) => PollStep::Reply(
                        Err(
                            PublisherError::NonRetryable(
                                join2("Failed to parse response: ", why.as_str()),
                            ),
                        ),
                    ),
                }
            },
            Lookup::NotFound => {
                let now: u128 = self.sleep;
                self.sleep = if now >= MAX_REPLY_SLEEP || now + now / 2 > MAX_REPLY_SLEEP {
                    MAX_REPLY_SLEEP
                } else {
                    now + now / 2
                };
                PollStep::Sleep(now)
            },
            Lookup::Failed(_) => PollStep::Sleep(self.sleep),
        }
    }
}

/// Sleeps between looks for a reply grow, and never beyond the longest one.
pub proof fn law_sleeps_grow_to_a_bound(sleep: u128)
    ensures
        longer_sleep(sleep) <= MAX_REPLY_SLEEP,
        sleep <= MAX_REPLY_SLEEP ==> sleep <= longer_sleep(sleep),
{
}

/// What counting up the sequencer came to.
#[derive(Debug)]
pub enum CounterOutcome {
    Document(Document),
    NotReturned,
    Failed(String),
}

/// The sequence number that the sequencer gives, or why it gives none.
pub open spec fn counted(c: CounterOutcome) -> Result<i64, FailureView> {
    match c {
        CounterOutcome::Document(d) => match long_in(d@, "seq_counter"@) {
            Ok(n) => Ok(n),
            Err(why) => Err(
                FailureView::Retryable("Invalid seq_counter in sequencer: "@ + why),
            ),
        },
        CounterOutcome::NotReturned => Err(
            FailureView::Retryable("Sequencer document not returned after upsert"@),
        ),
        CounterOutcome::Failed(why) => Err(FailureView::Retryable(why@)),
    }
}

/// The sequence number that the sequencer gives.
pub fn read_counter(outcome: CounterOutcome) -> (res: Result<i64, PublisherError>)
    ensures
        match res {
            Ok(n) => counted(outcome) == Ok::<i64, FailureView>(n),
            Err(e) => counted(outcome) == Err::<i64, FailureView>(e@),
        },
{
    match outcome {
        CounterOutcome::Document(d) => match d.get_i64("seq_counter") {
            Ok(n) => Ok(n),
            Err(why) => Err(
                PublisherError::Retryable(join2("Invalid seq_counter in sequencer: ", why)),
            ),
        },
        CounterOutcome::NotReturned => Err(
            PublisherError::Retryable("Sequencer document not returned after upsert".to_owned()),
        ),
        CounterOutcome::Failed(why) => Err(PublisherError::Retryable(why)),
    }
}

/// The query for the sequencer of a collection.
pub open spec fn sequencer_filter(collection_name: Seq<char>) -> Fields {
    seq![("_id"@, BsonView::Text(collection_name + ":sequencer"@))]
}

/// The update that counts a sequencer up.
pub open spec fn sequencer_change(count: i64) -> Fields {
    seq![("$inc"@, BsonView::Document(seq![("seq_counter"@, BsonView::Int64(count))]))]
}

/// The query for the sequencer of a collection, and the update that counts it up.
pub fn sequencer_update(collection_name: &str, count: i64) -> (res: (Document, Document))
    ensures
        res.0@ == sequencer_filter(collection_name@),
        res.1@ == sequencer_change(count),
{
    let id = namespaced_sequencer_id(collection_name);
    let filter = Document::new().then_field("_id", BsonValue::Text(id));
    assert(filter@ =~= seq![("_id"@, BsonView::Text(collection_name@ + ":sequencer"@))]);
    let inner = Document::new().then_field("seq_counter", BsonValue::Int64(count));
    assert(inner@ =~= seq![("seq_counter"@, BsonView::Int64(count))]);
    let update = Document::new().then_field("$inc", BsonValue::Document(inner));
    assert(update@ =~= seq![
        ("$inc"@, BsonView::Document(seq![("seq_counter"@, BsonView::Int64(count))])),
    ]);
    (filter, update)
}

/// A document under its sequence number, where the last of so many documents has the
/// number `end_seq`.
pub open spec fn numbered(d: Fields, end_seq: i64, count: int, i: int) -> Fields {
    with_field(d, "seq"@, BsonView::Int64((end_seq - count + 1 + i) as i64))
}

/// Gives consecutive sequence numbers to the documents of a batch, of which the last
/// one gets the number that the sequencer gave.
pub fn number_documents(docs: Vec<Document>, end_seq: i64) -> (out: Vec<Document>)
    requires
        docs@.len() <= i64::MAX,
        end_seq - docs@.len() + 1 >= i64::MIN,
    ensures
        out@.len() == docs@.len(),
        forall|i: int|
            0 <= i < out@.len() ==> (#[trigger] out@[i])@ == numbered(
                docs@[i]@,
                end_seq,
                docs@.len() as int,
                i,
            ),
{
    let mut out: Vec<Document> = Vec::new();
    let mut rest = docs;
    let total: usize = rest.len();
    while rest.len() > 0
        invariant
            total == docs@.len(),
            docs@.len() <= i64::MAX,
            end_seq - docs@.len() + 1 >= i64::MIN,
            out@.len() <= docs@.len(),
            rest@ == docs@.skip(out@.len() as int),
            forall|i: int|
                0 <= i < out@.len() ==> (#[trigger] out@[i])@ == numbered(
                    docs@[i]@,
                    end_seq,
                    docs@.len() as int,
                    i,
                ),
        decreases rest@.len(),
    {
        let ghost n = out@.len() as int;
        assert(rest@[0] == docs@[n]);
        let left: i64 = (rest.len() - 1) as i64;
        let d = rest.remove(0);
        assert(docs@.skip(n).remove(0) =~= docs@.skip(n + 1));
        assert(end_seq - left == end_seq - docs@.len() + 1 + n);
        out.push(d.with("seq", BsonValue::Int64(end_seq - left)));
    }
    out
}

/// The documents of a batch, the messages that they are for, and the messages that
/// have none.
#[derive(Debug)]
pub struct InsertPlan {
    pub docs: Vec<Document>,
    pub valid: Vec<CanonicalMessage>,
    pub failed: Vec<(CanonicalMessage, PublisherError)>,
}

/// The messages of a batch that have a document, in order.
pub open spec fn storable(
    messages: Seq<MessageView>,
    format: MongoDbFormat,
    id_field: Option<Seq<char>>,
    now: i64,
) -> Seq<MessageView>
    decreases messages.len(),
{
    if messages.len() == 0 {
        seq![]
    } else {
        let rest = storable(messages.drop_last(), format, id_field, now);
        if document_for(messages.last(), format, id_field, now) is Ok {
            rest.push(messages.last())
        } else {
            rest
        }
    }
}

/// The messages of a batch that have no document, in order, each with why.
pub open spec fn unstorable(
    messages: Seq<MessageView>,
    format: MongoDbFormat,
    id_field: Option<Seq<char>>,
    now: i64,
) -> Seq<(MessageView, FailureView)>
    decreases messages.len(),
{
    if messages.len() == 0 {
        seq![]
    } else {
        let rest = unstorable(messages.drop_last(), format, id_field, now);
        match document_for(messages.last(), format, id_field, now) {
            Ok(_) => rest,
            Err(why) => rest.push((messages.last(), FailureView::NonRetryable(why))),
        }
    }
}

/// Every message of a batch has a document or is failed, and only one of these.
pub proof fn law_every_stored_message_is_accounted_for(
    messages: Seq<MessageView>,
    format: MongoDbFormat,
    id_field: Option<Seq<char>>,
    now: i64,
)
    ensures
        storable(messages, format, id_field, now).len() + unstorable(
            messages,
            format,
            id_field,
            now,
        ).len() == messages.len(),
    decreases messages.len(),
{
    if messages.len() > 0 {
        law_every_stored_message_is_accounted_for(messages.drop_last(), format, id_field, now);
    }
}

impl MongoDbPublisher {
    /// Whether the messages of a batch are sent one by one.
    pub fn sends_one_by_one(&self) -> (res: bool)
        ensures
            res == (self.request_reply || self.report_outcome),
    {
        self.request_reply || self.report_outcome
    }

    /// Makes the documents of a batch.
    pub fn plan_batch(&self, messages: Vec<CanonicalMessage>, now: i64) -> (plan: InsertPlan)
        ensures
            message_views(plan.valid@) == storable(
                message_views(messages@),
                self.format,
                opt(self.id_field),
                now,
            ),
            failed_views(plan.failed@) == unstorable(
                message_views(messages@),
                self.format,
                opt(self.id_field),
                now,
            ),
            plan.docs@.len() == plan.valid@.len(),
            forall|i: int|
                0 <= i < plan.docs@.len() ==> document_for(
                    plan.valid@[i]@,
                    self.format,
                    opt(self.id_field),
                    now,
                ) == Ok::<Fields, Seq<char>>((#[trigger] plan.docs@[i])@),
    {
        let mut plan = InsertPlan { docs: Vec::new(), valid: Vec::new(), failed: Vec::new() };
        let ghost all = message_views(messages@);
        let ghost f = self.format;
        let ghost idf = opt(self.id_field);
        let mut rest = messages;
        let ghost mut n: int = 0;
        assert(message_views(plan.valid@) =~= storable(all.take(0), f, idf, now));
        assert(failed_views(plan.failed@) =~= unstorable(all.take(0), f, idf, now));
        while rest.len() > 0
            invariant
                0 <= n <= messages@.len(),
                all == message_views(messages@),
                rest@ == messages@.skip(n),
                f == self.format,
                idf == opt(self.id_field),
                message_views(plan.valid@) == storable(all.take(n), f, idf, now),
                failed_views(plan.failed@) == unstorable(all.take(n), f, idf, now),
                plan.docs@.len() == plan.valid@.len(),
                forall|i: int|
                    0 <= i < plan.docs@.len() ==> document_for(plan.valid@[i]@, f, idf, now)
                        == Ok::<Fields, Seq<char>>((#[trigger] plan.docs@[i])@),
            decreases rest@.len(),
        {
            assert(all.take(n + 1).drop_last() =~= all.take(n));
            assert(all.take(n + 1).last() == messages@[n]@);
            assert(rest@[0] == messages@[n]);
            let message = rest.remove(0);
            assert(messages@.skip(n).remove(0) =~= messages@.skip(n + 1));
            let ghost before = plan;
            match self.prepare(&message, now) {
                Ok(d) => {
                    plan.docs.push(d);
                    plan.valid.push(message);
                    assert(message_views(plan.valid@) =~= message_views(before.valid@).push(
                        message@,
                    ));
                },
                Err(e) => {
                    plan.failed.push((message, e));
                    assert(failed_views(plan.failed@) =~= failed_views(before.failed@).push(
                        (message@, e@),
                    ));
                },
            }
            proof {
                n = n + 1;
            }
        }
        assert(all.take(all.len() as int) =~= all);
        plan
    }
}

/// A refused document of a batch: its position, the error code and the text.
#[derive(Debug)]
pub struct WriteError {
    pub index: usize,
    pub code: i32,
    pub text: String,
}

/// How inserting a batch came out.
#[derive(Debug)]
pub enum InsertManyOutcome {
    Done,
    /// Some documents were refused.
    Refused { errors: Vec<WriteError>, write_concern: bool },
    /// The insert failed altogether.
    Failed(String),
}

/// The last error at or before `n` for a position, or -1.
pub open spec fn error_at(errors: Seq<WriteError>, index: int, n: int) -> int
    decreases n,
{
    if n <= 0 {
        -1
    } else if errors[n - 1].index == index {
        n - 1
    } else {
        error_at(errors, index, n - 1)
    }
}

/// The error for a position, where there is one.
pub open spec fn error_for(errors: Seq<WriteError>, index: int) -> Option<WriteError> {
    let k = error_at(errors, index, errors.len() as int);
    if k >= 0 {
        Some(errors[k])
    } else {
        None
    }
}

/// The first position at or after `i` with an error, or the length.
pub open spec fn stops_at(errors: Seq<WriteError>, len: int, i: int) -> int
    decreases len - i,
{
    if i >= len {
        len
    } else if error_for(errors, i) is Some {
        i
    } else {
        stops_at(errors, len, i + 1)
    }
}

/// What became of the message at a position, where an ordered insert stopped at
/// another one. A message that was there already counts as inserted.
pub open spec fn insert_failure(errors: Seq<WriteError>, stop: int, i: int) -> Option<FailureView> {
    if i < stop {
        None
    } else if i == stop {
        match error_for(errors, i) {
            Some(w) => if w.code == DUPLICATE_KEY {
                None
            } else {
                Some(FailureView::Retryable("MongoDB write error: "@ + w.text@))
            },
            None => None,
        }
    } else {
        Some(FailureView::Retryable("Message not inserted (skipped due to previous error)"@))
    }
}

/// The messages before `n` that were not inserted, in order, each with why.
pub open spec fn insert_failures(
    messages: Seq<MessageView>,
    errors: Seq<WriteError>,
    stop: int,
    n: int,
) -> Seq<(MessageView, FailureView)>
    decreases n,
{
    if n <= 0 {
        seq![]
    } else {
        let rest = insert_failures(messages, errors, stop, n - 1);
        match insert_failure(errors, stop, n - 1) {
            Some(why) => rest.push((messages[n - 1], why)),
            None => rest,
        }
    }
}

/// Messages that all failed with a write concern error.
pub open spec fn concern_failures(messages: Seq<MessageView>) -> Seq<(MessageView, FailureView)> {
    messages.map_values(
        |m: MessageView| (m, FailureView::Retryable("MongoDB write concern error"@)),
    )
}

/// The result of a batch, given how its insert came out.
pub open spec fn insert_result(
    valid: Seq<MessageView>,
    failed: Seq<(MessageView, FailureView)>,
    outcome: InsertManyOutcome,
) -> Result<BatchView, FailureView> {
    match outcome {
        InsertManyOutcome::Done => if failed.len() == 0 {
            Ok(BatchView::Ack)
        } else {
            Ok(BatchView::Partial { responses: None, failed })
        },
        InsertManyOutcome::Refused { errors, write_concern } => if write_concern {
            Ok(BatchView::Partial { responses: None, failed: failed + concern_failures(valid) })
        } else {
            let stop = stops_at(errors@, valid.len() as int, 0);
            Ok(
                BatchView::Partial {
                    responses: None,
                    failed: failed + insert_failures(
                        valid,
                        errors@,
                        stop,
                        valid.len() as int,
                    ),
                },
            )
        },
        InsertManyOutcome::Failed(why) => Err(FailureView::Retryable(why@)),
    }
}

/// An ordered insert loses nothing: every message behind the one at which it stopped
/// counts as failed, to be tried again, and none before it does.
pub proof fn law_nothing_behind_a_failed_insert_is_lost(
    valid: Seq<MessageView>,
    errors: Seq<WriteError>,
    i: int,
)
    requires
        0 <= i < valid.len(),
    ensures
        ({
            let stop = stops_at(errors, valid.len() as int, 0);
            let failed = insert_failures(valid, errors, stop, valid.len() as int);
            &&& i > stop ==> exists|k: int|
                0 <= k < failed.len() && (#[trigger] failed[k]).0 == valid[i]
            &&& i < stop ==> insert_failure(errors, stop, i) is None
            &&& stop <= valid.len()
        }),
{
    let stop = stops_at(errors, valid.len() as int, 0);
    lemma_stops_at(errors, valid.len() as int, 0);
    if i > stop {
        lemma_failure_is_listed(valid, errors, stop, valid.len() as int, i);
    }
}

proof fn lemma_stops_at(errors: Seq<WriteError>, len: int, i: int)
    requires
        0 <= i <= len,
    ensures
        i <= stops_at(errors, len, i) <= len,
        stops_at(errors, len, i) < len ==> error_for(errors, stops_at(errors, len, i)) is Some,
        forall|k: int| i <= k < stops_at(errors, len, i) ==> #[trigger] error_for(errors, k) is None,
    decreases len - i,
{
    if i < len && error_for(errors, i) is None {
        lemma_stops_at(errors, len, i + 1);
    }
}

proof fn lemma_failure_is_listed(
    messages: Seq<MessageView>,
    errors: Seq<WriteError>,
    stop: int,
    n: int,
    i: int,
)
    requires
        0 <= i < n <= messages.len(),
        insert_failure(errors, stop, i) is Some,
    ensures
        exists|k: int|
            0 <= k < insert_failures(messages, errors, stop, n).len() && (
            #[trigger] insert_failures(messages, errors, stop, n)[k]).0 == messages[i],
    decreases n,
{
    let out = insert_failures(messages, errors, stop, n);
    if i == n - 1 {
        assert(out[out.len() - 1].0 == messages[i]);
    } else {
        lemma_failure_is_listed(messages, errors, stop, n - 1, i);
        let rest = insert_failures(messages, errors, stop, n - 1);
        let k = choose|k: int| 0 <= k < rest.len() && (#[trigger] rest[k]).0 == messages[i];
        assert(out[k].0 == messages[i]);
    }
}

fn find_error(errors: &Vec<WriteError>, index: usize) -> (found: Option<&WriteError>)
    ensures
        match found {
            Some(w) => error_for(errors@, index as int) == Some(*w),
            None => error_for(errors@, index as int) is None,
        },
{
    let mut n: usize = errors.len();
    while n > 0
        invariant
            n <= errors@.len(),
            error_at(errors@, index as int, errors@.len() as int) == error_at(
                errors@,
                index as int,
                n as int,
            ),
        decreases n,
    {
        if errors[n - 1].index == index {
            return Some(&errors[n - 1]);
        }
        n -= 1;
    }
    None
}

/// The result of a batch once its insert came out.
pub fn finish_batch(plan: InsertPlan, outcome: InsertManyOutcome) -> (res: Result<
    SentBatch,
    PublisherError,
>)
    ensures
        match res {
            Ok(batch) => Ok::<BatchView, FailureView>(batch@),
            Err(e) => Err::<BatchView, FailureView>(e@),
        } == insert_result(message_views(plan.valid@), failed_views(plan.failed@), outcome),
{
    let ghost all = message_views(plan.valid@);
    let ghost first = failed_views(plan.failed@);
    match outcome {
        InsertManyOutcome::Failed(why) => Err(PublisherError::Retryable(why)),
        InsertManyOutcome::Done => {
            if plan.failed.len() == 0 {
                return Ok(SentBatch::Ack);
            }
            Ok(SentBatch::Partial { responses: None, failed: plan.failed })
        },
        InsertManyOutcome::Refused { errors, write_concern } => {
            let mut failed = plan.failed;
            let mut rest = plan.valid;
            let mut i: usize = 0;
            let total: usize = rest.len();
            let mut stopped: bool = false;
            let ghost stop = stops_at(errors@, all.len() as int, 0);
            proof {
                lemma_stops_at(errors@, all.len() as int, 0);
            }
            assert(failed_views(failed@) =~= first + concern_failures(all.take(0)));
            assert(failed_views(failed@) =~= first + insert_failures(all, errors@, stop, 0));
            while rest.len() > 0
                invariant
                    total == plan.valid@.len(),
                    i <= total,
                    all == message_views(plan.valid@),
                    rest@ == plan.valid@.skip(i as int),
                    stop == stops_at(errors@, all.len() as int, 0),
                    0 <= stop <= all.len(),
                    stop < all.len() ==> error_for(errors@, stop) is Some,
                    forall|k: int| 0 <= k < stop ==> #[trigger] error_for(errors@, k) is None,
                    !write_concern ==> stopped == (i > stop),
                    write_concern ==> failed_views(failed@) == first + concern_failures(
                        all.take(i as int),
                    ),
                    !write_concern ==> failed_views(failed@) == first + insert_failures(
                        all,
                        errors@,
                        stop,
                        i as int,
                    ),
                decreases rest@.len(),
            {
                assert(rest@[0] == plan.valid@[i as int]);
                let message = rest.remove(0);
                assert(plan.valid@.skip(i as int).remove(0) =~= plan.valid@.skip(i + 1));
                assert(all[i as int] == message@);
                let ghost before = failed@;
                let ghost old_rest = insert_failures(all, errors@, stop, i as int);
                if write_concern {
                    failed.push(
                        (
                            message,
                            PublisherError::Retryable("MongoDB write concern error".to_owned()),
                        ),
                    );
                    assert(failed_views(failed@) =~= failed_views(before).push(
                        (
                            message@,
                            FailureView::Retryable("MongoDB write concern error"@),
                        ),
                    ));
                    assert(failed_views(failed@) =~= first + concern_failures(all.take(i + 1)));
                } else if stopped {
                    failed.push(
                        (
                            message,
                            PublisherError::Retryable(
                                "Message not inserted (skipped due to previous error)".to_owned(),
                            ),
                        ),
                    );
                    assert(failed_views(failed@) =~= failed_views(before).push(
                        (message@, insert_failure(errors@, stop, i as int)->0),
                    ));
                    assert(failed_views(failed@) =~= first + insert_failures(
                        all,
                        errors@,
                        stop,
                        i + 1,
                    ));
                } else {
                    match find_error(&errors, i) {
                        Some(w) => {
                            stopped = true;
                            assert(i == stop);
                            if w.code != DUPLICATE_KEY {
                                let text = join2("MongoDB write error: ", w.text.as_str());
                                failed.push((message, PublisherError::Retryable(text)));
                                assert(failed_views(failed@) =~= failed_views(before).push(
                                    (message@, insert_failure(errors@, stop, i as int)->0),
                                ));
                            }
                            assert(failed_views(failed@) =~= first + insert_failures(
                                all,
                                errors@,
                                stop,
                                i + 1,
                            ));
                        },
                        None => {
                            assert(i < stop);
                            assert(failed_views(failed@) =~= first + insert_failures(
                                all,
                                errors@,
                                stop,
                                i + 1,
                            ));
                        },
                    }
                }
                i += 1;
            }
            assert(all.take(all.len() as int) =~= all);
            Ok(SentBatch::Partial { responses: None, failed })
        },
    }
}

} // verus!
