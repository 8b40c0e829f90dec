//! Consuming a MongoDB collection: as a queue, by sequence number, and by document
//! identifier.

use vstd::prelude::*;

use crate::message::{lookup, CanonicalMessage, ConsumerError, ReceiveFailure};
use crate::models::{MongoDbConfig, MongoDbFormat};
use crate::mongo::bson::{field, long_in, values_of, BsonValue, BsonView, Document, Fields};
use crate::mongo::commit::{reply_info, ReplyInfo};
use crate::mongo::cursor::{decode_id, decoded_id, is_uuid};
use crate::mongo::document::{parse_mongodb_document, reads_document, UUID_SUBTYPE};
use crate::mongo::filters::{
    among, claim_filter, claim_filter_of, claim_these_filter, lock_update, lock_update_of,
    locked_from, parse_receive_query, receive_query_of,
};
use crate::mongo::json::{option_fields, option_view};
use crate::status::{
    no_details, optional_detail, probed, push_detail, read_probe, text_detail, text_or_absent,
    Detail, DetailView, EndpointStatus, EndpointStatusView, Probe,
};
use crate::text::{join2, join3, opt};

verus! {

/// The error code for change streams on a server that is no replica set.
pub const CHANGE_STREAM_UNSUPPORTED: i32 = 40573;

/// Whether an error says that the server has no change streams. Every other error is
/// passed on.
pub fn is_change_stream_unsupported(command_code: Option<i32>) -> (res: bool)
    ensures
        res == (command_code == Some(CHANGE_STREAM_UNSUPPORTED)),
{
    match command_code {
        Some(c) => c == CHANGE_STREAM_UNSUPPORTED,
        None => false,
    }
}

/// The settings of a reader, or why it cannot be set up: its collection must be
/// named, and its extra query must read.
pub open spec fn reader_refusal(config: MongoDbConfig, missing: Seq<char>) -> Option<Seq<char>> {
    if config.collection is None {
        Some(missing)
    } else {
        match receive_query_of(opt(config.receive_query)) {
            Ok(_) => None,
            Err(e) => Some(e),
        }
    }
}

/// The interval between polls, in milliseconds.
pub open spec fn polling_ms(config: MongoDbConfig) -> u64 {
    match config.polling_interval_ms {
        Some(ms) => ms,
        None => 100,
    }
}

fn polling_of(config: &MongoDbConfig) -> (ms: u64)
    ensures
        ms == polling_ms(*config),
{
    match config.polling_interval_ms {
        Some(ms) => ms,
        None => 100,
    }
}

/// A consumer that takes documents off a collection as off a queue.
#[derive(Debug)]
pub struct MongoDbConsumer {
    pub collection_name: String,
    pub polling_interval_ms: u64,
    pub receive_query: Option<Document>,
    /// Whether a change stream says when documents come.
    pub has_change_stream: bool,
}

/// What came of opening a change stream.
#[derive(Debug)]
pub enum StreamOpening {
    Opened,
    Failed { code: Option<i32>, why: String },
}

/// What waiting for documents came to.
#[derive(Debug)]
pub enum WakeEvent {
    /// Something was inserted.
    Inserted,
    Failed(String),
    /// The change stream ended.
    Ended,
    /// Nothing came in time.
    TimedOut,
}

/// What a consumer does after waiting.
#[derive(Debug)]
pub enum AfterWait {
    ClaimAgain,
    /// Hand on an empty batch, so that the route can pause or end.
    EmptyBatch,
    Fail(ConsumerError),
}

impl MongoDbConsumer {
    /// A queue consumer. A server without change streams is polled; any other error
    /// of opening one is passed on.
    pub fn new(config: &MongoDbConfig, stream: StreamOpening) -> (res: Result<Self, String>)
        ensures
            match res {
                Ok(c) => {
                    &&& reader_refusal(
                        *config,
                        "Collection name is required for MongoDB consumer"@,
                    ) is None
                    &&& c.collection_name@ == config.collection->0@
                    &&& c.polling_interval_ms == polling_ms(*config)
                    &&& receive_query_of(opt(config.receive_query)) == Ok::<
                        Option<Fields>,
                        Seq<char>,
                    >(option_fields(c.receive_query))
                    &&& c.has_change_stream == (stream is Opened)
                    &&& stream matches StreamOpening::Failed { code, why } ==> code == Some(
                        CHANGE_STREAM_UNSUPPORTED,
                    )
                },
                Err(e) => if config.collection is None {
                    e@ == "Collection name is required for MongoDB consumer"@
                } else {
                    match stream {
                        StreamOpening::Failed { code, why } => if code != Some(
                            CHANGE_STREAM_UNSUPPORTED,
                        ) {
                            e == why
                        } else {
                            reader_refusal(*config, seq![]) == Some(e@)
                        },
                        StreamOpening::Opened => reader_refusal(*config, seq![]) == Some(e@),
                    }
                },
            },
    {
        let name = match &config.collection {
            Some(n) => n.clone(),
            None => {
                return Err("Collection name is required for MongoDB consumer".to_owned());
            },
        };
        let has_change_stream = match stream {
            StreamOpening::Opened => true,
            StreamOpening::Failed { code, why } => {
                if !is_change_stream_unsupported(code) {
                    return Err(why);
                }
                false
            },
        };
        let receive_query = match parse_receive_query(&config.receive_query) {
            Ok(q) => q,
            Err(e) => {
                return Err(e);
            },
        };
        Ok(
            MongoDbConsumer {
                collection_name: name,
                polling_interval_ms: polling_of(config),
                receive_query,
                has_change_stream,
            },
        )
    }

    /// What the consumer reports of a database, given what a probe of that came to.
    pub fn status(&self, database: &str, probe: Probe) -> (s: EndpointStatus)
        ensures
            s@ == ({
                let (healthy, pending, error) = probed(
                    probe,
                    "Failed to count pending documents: "@,
                );
                EndpointStatusView {
                    healthy,
                    target: self.collection_name@,
                    pending,
                    capacity: None,
                    error,
                    details: seq![
                        ("database"@, DetailView::Text(database@)),
                        (
                            "mode"@,
                            DetailView::Text(
                                if self.has_change_stream {
                                    "change_stream"@
                                } else {
                                    "polling"@
                                },
                            ),
                        ),
                    ],
                }
            }),
    {
        let (healthy, pending, error) = read_probe(probe, "Failed to count pending documents: ");
        let mut details = no_details();
        push_detail(&mut details, "database", text_detail(database));
        let mode = if self.has_change_stream {
            "change_stream"
        } else {
            "polling"
        };
        push_detail(&mut details, "mode", text_detail(mode));
        EndpointStatus {
            healthy,
            target: self.collection_name.clone(),
            pending,
            capacity: None,
            error,
            details,
        }
    }

    /// What a consumer does after waiting for documents. Only a batch can be empty.
    pub fn after_wait(&self, event: WakeEvent, batch: bool) -> (next: AfterWait)
        ensures
            match event {
                WakeEvent::Inserted => next is ClaimAgain,
                WakeEvent::Failed(why) => (next matches AfterWait::Fail(e) && e@
                    == ReceiveFailure::Connection(why@)),
                WakeEvent::Ended => (next matches AfterWait::Fail(e) && e@
                    == ReceiveFailure::Connection(
                    "MongoDB change stream ended unexpectedly"@,
                )),
                WakeEvent::TimedOut => if batch {
                    next is EmptyBatch
                } else {
                    next is ClaimAgain
                },
            },
    {
        match event {
            WakeEvent::Inserted => AfterWait::ClaimAgain,
            WakeEvent::Failed(why) => AfterWait::Fail(ConsumerError::Connection(why)),
            WakeEvent::Ended => AfterWait::Fail(
                ConsumerError::Connection("MongoDB change stream ended unexpectedly".to_owned()),
            ),
            WakeEvent::TimedOut => if batch {
                AfterWait::EmptyBatch
            } else {
                AfterWait::ClaimAgain
            },
        }
    }
}

/// The identifiers among documents that can be claimed: those that are UUIDs.
pub open spec fn claimable(docs: Seq<Fields>) -> Seq<BsonView>
    decreases docs.len(),
{
    if docs.len() == 0 {
        seq![]
    } else {
        let rest = claimable(docs.drop_last());
        match field(docs.last(), "_id"@) {
            Some(v) => if is_uuid(v) {
                rest.push(v)
            } else {
                rest
            },
            None => rest,
        }
    }
}

/// Documents over mathematical values.
pub open spec fn document_views(docs: Seq<Document>) -> Seq<Fields> {
    docs.map_values(|d: Document| d@)
}

/// The identifiers among documents that can be claimed, in order.
pub fn ids_to_claim(docs: &Vec<Document>) -> (ids: Vec<BsonValue>)
    ensures
        values_of(ids@) == claimable(document_views(docs@)),
{
    let mut ids: Vec<BsonValue> = Vec::new();
    let ghost all = document_views(docs@);
    let mut i: usize = 0;
    assert(values_of(ids@) =~= claimable(all.take(0)));
    while i < docs.len()
        invariant
            i <= docs@.len(),
            all == document_views(docs@),
            values_of(ids@) == claimable(all.take(i as int)),
        decreases docs@.len() - i,
    {
        assert(all.take(i + 1).drop_last() =~= all.take(i as int));
        assert(all.take(i + 1).last() == docs@[i as int]@);
        if let Some(v) = docs[i].get("_id") {
            let fits = match v {
                BsonValue::Binary { subtype, bytes } => *subtype == UUID_SUBTYPE && bytes.len()
                    == 16,
                _ => false,
            };
            if fits {
                let ghost before = ids@;
                ids.push(v.copy());
                assert(values_of(ids@) =~= values_of(before).push(v@));
            }
        }
        i += 1;
    }
    assert(all.take(all.len() as int) =~= all);
    ids
}

/// The query for the documents to claim, unless none is asked for.
pub fn start_claim(limit: usize, now: i64, extra: &Option<Document>) -> (filter: Option<Document>)
    ensures
        match filter {
            Some(d) => limit > 0 && d@ == claim_filter_of(now, option_fields(*extra)),
            None => limit == 0,
        },
{
    if limit == 0 {
        return None;
    }
    Some(claim_filter(now, extra))
}

/// The claim of a batch: each document that was found is locked by itself, in one step
/// that also reads it, provided that it still matches the query it was found by.
#[derive(Debug)]
pub struct Claiming {
    /// The identifiers of what was found, in order.
    pub ids: Vec<BsonValue>,
    /// The query that it was found by.
    pub base: Document,
    pub now: i64,
    /// How many of the locks were tried.
    pub tried: usize,
    /// The documents that were locked, in order.
    pub claimed: Vec<Document>,
}

/// The claim of a batch over mathematical values.
pub struct ClaimingView {
    pub ids: Seq<BsonView>,
    pub base: Fields,
    pub now: i64,
    pub tried: int,
    pub claimed: Seq<Fields>,
}

impl View for Claiming {
    type V = ClaimingView;

    open spec fn view(&self) -> ClaimingView {
        ClaimingView {
            ids: values_of(self.ids@),
            base: self.base@,
            now: self.now,
            tried: self.tried as int,
            claimed: document_views(self.claimed@),
        }
    }
}

/// The documents among the answers to locks, in order. An answer without a document says
/// that somebody else has it.
pub open spec fn locked_in(answers: Seq<Option<Fields>>) -> Seq<Fields>
    decreases answers.len(),
{
    if answers.len() == 0 {
        seq![]
    } else {
        let rest = locked_in(answers.drop_last());
        match answers.last() {
            Some(d) => rest.push(d),
            None => rest,
        }
    }
}

impl ClaimingView {
    /// The beginning of a claim.
    pub open spec fn begun(ids: Seq<BsonView>, base: Fields, now: i64) -> Self {
        ClaimingView { ids, base, now, tried: 0, claimed: seq![] }
    }

    /// The query and the update of the next lock, where one is left.
    pub open spec fn next_lock(self) -> Option<(Fields, Fields)> {
        if self.tried < self.ids.len() {
            Some(
                (
                    seq![among(seq![self.ids[self.tried]])] + self.base,
                    lock_update_of(locked_from(self.now)),
                ),
            )
        } else {
            None
        }
    }

    /// The claim once a lock was answered.
    pub open spec fn answered(self, answer: Option<Fields>) -> Self {
        ClaimingView {
            tried: self.tried + 1,
            claimed: match answer {
                Some(d) => self.claimed.push(d),
                None => self.claimed,
            },
            ..self
        }
    }

    /// The claim once so many locks were answered.
    pub open spec fn after(self, answers: Seq<Option<Fields>>) -> Self
        decreases answers.len(),
    {
        if answers.len() == 0 {
            self
        } else {
            self.after(answers.drop_last()).answered(answers.last())
        }
    }
}

impl Claiming {
    /// Begins to claim the documents with these identifiers.
    pub fn new(ids: Vec<BsonValue>, base: Document, now: i64) -> (c: Self)
        ensures
            c@ == ClaimingView::begun(values_of(ids@), base@, now),
    {
        let c = Claiming { ids, base, now, tried: 0, claimed: Vec::new() };
        assert(c@.claimed =~= seq![]);
        c
    }

    /// The query and the update of the next lock, where one is left.
    pub fn next_lock(&self) -> (lock: Option<(Document, Document)>)
        ensures
            match lock {
                Some(l) => self@.next_lock() == Some((l.0@, l.1@)),
                None => self@.next_lock() is None,
            },
    {
        if self.tried >= self.ids.len() {
            return None;
        }
        let mut one: Vec<BsonValue> = Vec::new();
        one.push(self.ids[self.tried].copy());
        assert(values_of(one@) =~= seq![self@.ids[self.tried as int]]);
        Some((claim_these_filter(&one, self.base.copy()), lock_update(self.now)))
    }

    /// Takes the answer to a lock: the document that was locked, or nothing where
    /// somebody else has it.
    pub fn on_lock(&mut self, answer: Option<Document>)
        requires
            old(self)@.next_lock() is Some,
        ensures
            final(self)@ == old(self)@.answered(option_fields(answer)),
    {
        let ghost before = self.claimed@;
        let total: usize = self.ids.len();
        assert(self.tried < total);
        self.tried += 1;
        if let Some(d) = answer {
            self.claimed.push(d);
            assert(document_views(self.claimed@) =~= document_views(before).push(d@));
        }
    }
}

/// What a claim hands out is what its own locks gave it, in order and each once: a
/// document that another consumer locked first is not among it, and one that this claim
/// locked is.
pub proof fn law_only_own_locks_are_handed_out(
    ids: Seq<BsonView>,
    base: Fields,
    now: i64,
    answers: Seq<Option<Fields>>,
)
    requires
        answers.len() <= ids.len(),
    ensures
        ({
            let c = ClaimingView::begun(ids, base, now).after(answers);
            &&& c.claimed == locked_in(answers)
            &&& forall|d: Fields| #[trigger]
                c.claimed.contains(d) <==> answers.contains(Some(d))
            &&& c.claimed.len() <= answers.len()
            &&& c.ids == ids && c.base == base && c.now == now
            &&& c.tried == answers.len()
            &&& c.next_lock() is None <==> answers.len() == ids.len()
        }),
    decreases answers.len(),
{
    let c = ClaimingView::begun(ids, base, now).after(answers);
    if answers.len() > 0 {
        let front = answers.drop_last();
        law_only_own_locks_are_handed_out(ids, base, now, front);
        let rest = locked_in(front);
        assert forall|d: Fields| #[trigger] c.claimed.contains(d) <==> answers.contains(
            Some(d),
        ) by {
            if c.claimed.contains(d) {
                let w = choose|w: int| 0 <= w < c.claimed.len() && c.claimed[w] == d;
                if w < rest.len() {
                    assert(rest[w] == d);
                    assert(rest.contains(d));
                    assert(front.contains(Some(d)));
                    let k = choose|k: int| 0 <= k < front.len() && front[k] == Some(d);
                    assert(answers[k] == Some(d));
                } else {
                    assert(answers[answers.len() - 1] == Some(d));
                }
            }
            if answers.contains(Some(d)) {
                let k = choose|k: int| 0 <= k < answers.len() && answers[k] == Some(d);
                if k < front.len() {
                    assert(front[k] == Some(d));
                    assert(front.contains(Some(d)));
                    assert(rest.contains(d));
                    let w = choose|w: int| 0 <= w < rest.len() && rest[w] == d;
                    assert(c.claimed[w] == d);
                } else {
                    assert(c.claimed[c.claimed.len() - 1] == d);
                }
            }
        }
    }
}

/// Claimed documents as messages, with what is needed to commit them.
#[derive(Debug)]
pub struct ClaimedBatch {
    pub messages: Vec<CanonicalMessage>,
    pub ids: Vec<BsonValue>,
    pub replies: Vec<ReplyInfo>,
}

/// Whether a batch holds the messages of the first `n` documents.
pub open spec fn holds_claims(b: ClaimedBatch, docs: Seq<Fields>, n: int) -> bool {
    &&& b.messages@.len() == n
    &&& b.ids@.len() == n
    &&& b.replies@.len() == n
    &&& forall|i: int|
        0 <= i < n ==> {
            &&& field(docs[i], "_id"@) == Some((#[trigger] b.ids@[i])@)
            &&& reads_document(docs[i], Ok::<CanonicalMessage, String>(b.messages@[i]))
            &&& opt(b.replies@[i].reply_to) == lookup(
                b.messages@[i].metadata@,
                "reply_to"@,
            )
            &&& opt(b.replies@[i].correlation_id) == lookup(
                b.messages@[i].metadata@,
                "correlation_id"@,
            )
        }
}

/// Whether a document cannot be taken, and why.
pub open spec fn claim_error(d: Fields, why: Seq<char>) -> bool {
    if field(d, "_id"@) is None {
        why == "Document missing _id"@
    } else {
        exists|e: String| #[trigger] reads_document(d, Err::<CanonicalMessage, String>(e)) && e@ == why
    }
}

/// Reads claimed documents as messages. The first one that cannot be taken fails the
/// batch.
pub fn process_claimed_documents(docs: Vec<Document>) -> (res: Result<ClaimedBatch, String>)
    ensures
        match res {
            Ok(b) => holds_claims(b, document_views(docs@), docs@.len() as int),
            Err(e) => exists|before: ClaimedBatch, i: int|
                0 <= i < docs@.len() && #[trigger] holds_claims(
                    before,
                    document_views(docs@),
                    i,
                ) && claim_error(document_views(docs@)[i], e@),
        },
{
    let mut b = ClaimedBatch { messages: Vec::new(), ids: Vec::new(), replies: Vec::new() };
    let ghost all = document_views(docs@);
    let mut rest = docs;
    let ghost mut n: int = 0;
    while rest.len() > 0
        invariant
            0 <= n <= docs@.len(),
            all == document_views(docs@),
            rest@ == docs@.skip(n),
            holds_claims(b, all, n),
        decreases rest@.len(),
    {
        assert(rest@[0] == docs@[n]);
        let d = rest.remove(0);
        assert(docs@.skip(n).remove(0) =~= docs@.skip(n + 1));
        assert(all[n] == d@);
        let ghost before = b;
        assert(holds_claims(before, document_views(docs@), n));
        let id = match d.get("_id") {
            Some(v) => v.copy(),
            None => {
                let why = "Document missing _id".to_owned();
                assert(claim_error(document_views(docs@)[n], why@));
                return Err(why);
            },
        };
        match parse_mongodb_document(d) {
            Ok(m) => {
                let info = reply_info(&m);
                b.messages.push(m);
                b.ids.push(id);
                b.replies.push(info);
            },
            Err(e) => {
                assert(reads_document(all[n], Err::<CanonicalMessage, String>(e)));
                assert(claim_error(document_views(docs@)[n], e@));
                return Err(e);
            },
        }
        proof {
            n = n + 1;
        }
    }
    Ok(b)
}

/// A subscriber that reads messages by their sequence numbers.
#[derive(Debug)]
pub struct MongoDbSubscriber {
    pub collection_name: String,
    pub meta_collection_name: String,
    pub polling_interval_ms: u64,
    pub cursor_id: Option<String>,
    pub last_seq: i64,
    pub receive_query: Option<Document>,
}

/// Why a collection with messages that have no number cannot be subscribed to.
pub open spec fn missing_seq_text(collection: Seq<char>) -> Seq<char> {
    "MongoDB subscriber found documents with payload but no seq field in collection '"@
        + collection
        + "'; use wrapped publisher format or disable subscriber/change_stream mode for raw collections"@
}

/// Why a subscriber cannot be set up.
pub open spec fn subscriber_refusal(config: MongoDbConfig, unnumbered: bool) -> Option<Seq<char>> {
    if config.format == MongoDbFormat::Raw {
        Some(
            "MongoDB subscriber/change_stream mode requires wrapped documents with a seq ordering field; raw format is not supported"@,
        )
    } else if config.collection is None {
        Some("Collection name is required for MongoDB subscriber"@)
    } else if unnumbered {
        Some(missing_seq_text(config.collection->0@))
    } else {
        match receive_query_of(opt(config.receive_query)) {
            Ok(_) => None,
            Err(e) => Some(e),
        }
    }
}

/// The number that reading starts from: that of the cursor where there is one, else
/// that of the sequencer. Without a document it is zero.
pub open spec fn start_seq(
    has_cursor: bool,
    cursor: Option<Fields>,
    sequencer: Option<Fields>,
) -> i64 {
    let found = if has_cursor {
        match cursor {
            Some(d) => long_in(d, "last_seq"@),
            None => Ok(0i64),
        }
    } else {
        match sequencer {
            Some(d) => long_in(d, "seq_counter"@),
            None => Ok(0i64),
        }
    };
    match found {
        Ok(n) => n,
        Err(_) => 0,
    }
}

/// What reading a document of a cursor came to.
#[derive(Debug)]
pub enum ReadEvent {
    Document(Document),
    Failed(String),
}

/// A batch of numbered events that is being read.
#[derive(Debug)]
pub struct EventBatch {
    pub messages: Vec<CanonicalMessage>,
    pub seqs: Vec<i64>,
}

impl MongoDbSubscriber {
    /// A subscriber, given whether messages without a number were found, and the
    /// documents of its cursor and of the sequencer.
    pub fn new(
        config: &MongoDbConfig,
        unnumbered: bool,
        cursor: Option<Document>,
        sequencer: Option<Document>,
    ) -> (res: Result<Self, String>)
        ensures
            match res {
                Ok(s) => {
                    &&& subscriber_refusal(*config, unnumbered) is None
                    &&& s.collection_name@ == config.collection->0@
                    &&& s.meta_collection_name@ == (match config.meta_collection {
                        Some(m) => m@,
                        None => config.collection->0@,
                    })
                    &&& s.polling_interval_ms == polling_ms(*config)
                    &&& opt(s.cursor_id) == opt(config.cursor_id)
                    &&& s.last_seq == start_seq(
                        config.cursor_id is Some,
                        option_fields(cursor),
                        option_fields(sequencer),
                    )
                    &&& receive_query_of(opt(config.receive_query)) == Ok::<
                        Option<Fields>,
                        Seq<char>,
                    >(option_fields(s.receive_query))
                },
                Err(e) => subscriber_refusal(*config, unnumbered) == Some(e@),
            },
    {
        if config.format == MongoDbFormat::Raw {
            return Err(
                "MongoDB subscriber/change_stream mode requires wrapped documents with a seq ordering field; raw format is not supported".to_owned(),
            );
        }
        let name = match &config.collection {
            Some(n) => n.clone(),
            None => {
                return Err("Collection name is required for MongoDB subscriber".to_owned());
            },
        };
        if unnumbered {
            return Err(
                join3(
                    "MongoDB subscriber found documents with payload but no seq field in collection '",
                    name.as_str(),
                    "'; use wrapped publisher format or disable subscriber/change_stream mode for raw collections",
                ),
            );
        }
        let receive_query = match parse_receive_query(&config.receive_query) {
            Ok(q) => q,
            Err(e) => {
                return Err(e);
            },
        };
        let meta = match &config.meta_collection {
            Some(m) => m.clone(),
            None => name.clone(),
        };
        let (doc, key) = if config.cursor_id.is_some() {
            (cursor, "last_seq")
        } else {
            (sequencer, "seq_counter")
        };
        let last_seq: i64 = match doc {
            Some(d) => match d.get_i64(key) {
                Ok(n) => n,
                Err(_) => 0,
            },
            None => 0,
        };
        let cursor_id = match &config.cursor_id {
            Some(c) => Some(c.clone()),
            None => None,
        };
        Ok(
            MongoDbSubscriber {
                collection_name: name,
                meta_collection_name: meta,
                polling_interval_ms: polling_of(config),
                cursor_id,
                last_seq,
                receive_query,
            },
        )
    }

    /// Takes what reading a document came to. A document without a number, or one
    /// that does not read, is left out. A failed read ends a batch that is still
    /// empty, and is left out of another.
    pub fn on_read(&mut self, batch: &mut EventBatch, event: ReadEvent) -> (res: Result<
        (),
        ConsumerError,
    >)
        requires
            old(batch).messages@.len() == old(batch).seqs@.len(),
        ensures
            final(batch).messages@.len() == final(batch).seqs@.len(),
            final(self).collection_name == old(self).collection_name,
            final(self).meta_collection_name == old(self).meta_collection_name,
            final(self).polling_interval_ms == old(self).polling_interval_ms,
            final(self).cursor_id == old(self).cursor_id,
            final(self).receive_query == old(self).receive_query,
            match event {
                ReadEvent::Failed(why) => {
                    &&& *final(batch) == *old(batch)
                    &&& final(self).last_seq == old(self).last_seq
                    &&& if old(batch).messages@.len() == 0 {
                        res matches Err(e) && e@ == ReceiveFailure::Connection(why@)
                    } else {
                        res is Ok
                    }
                },
                ReadEvent::Document(d) => {
                    &&& res is Ok
                    &&& match long_in(d@, "seq"@) {
                        Err(_) => *final(batch) == *old(batch) && final(self).last_seq
                            == old(self).last_seq,
                        Ok(seq) => exists|parsed: Result<CanonicalMessage, String>| #[trigger]
                            reads_document(d@, parsed) && (match parsed {
                                Ok(m) => final(batch).messages@ == old(batch).messages@.push(m)
                                    && final(batch).seqs@ == old(batch).seqs@.push(seq)
                                    && final(self).last_seq == seq,
                                Err(_) => *final(batch) == *old(batch) && final(self).last_seq
                                    == old(self).last_seq,
                            }),
                    }
                },
            },
    {
        match event {
            ReadEvent::Failed(why) => {
                if batch.messages.len() == 0 {
                    return Err(ConsumerError::Connection(why));
                }
                Ok(())
            },
            ReadEvent::Document(d) => {
                let seq: i64 = match d.get_i64("seq") {
                    Ok(n) => n,
                    Err(_) => {
                        return Ok(());
                    },
                };
                let parsed = parse_mongodb_document(d);
                let ghost witness = parsed;
                assert(reads_document(d@, witness));
                match parsed {
                    Ok(m) => {
                        batch.messages.push(m);
                        batch.seqs.push(seq);
                        self.last_seq = seq;
                    },
                    Err(_) => {},
                }
                Ok(())
            },
        }
    }
}

/// How long the statistics of a collection are kept, in nanoseconds.
pub const STATS_AGE: u128 = 5_000_000_000;

/// Whether statistics of this age are used again.
pub fn stats_are_fresh(age: u128) -> (res: bool)
    ensures
        res == (age < STATS_AGE),
{
    age < STATS_AGE
}

/// Whether statistics say that a collection has a fixed size.
pub open spec fn is_capped(stats: Fields) -> bool {
    field(stats, "capped"@) == Some(BsonView::Boolean(true))
}

/// How many documents a collection of a fixed size holds at most.
pub open spec fn capped_capacity(stats: Fields) -> Option<usize> {
    if is_capped(stats) {
        match long_in(stats, "max"@) {
            Ok(n) => Some(n as usize),
            Err(_) => None,
        }
    } else {
        None
    }
}

/// What a subscriber reports of statistics that were asked for: the capacity, the
/// details, and what went wrong.
pub open spec fn collection_report(
    up: bool,
    stats: Result<Fields, Seq<char>>,
    error: Option<Seq<char>>,
) -> (Option<usize>, bool, Option<Seq<char>>) {
    if !up {
        (None, false, error)
    } else {
        match stats {
            Ok(d) => (capped_capacity(d), is_capped(d), error),
            Err(e) => (
                None,
                false,
                if error is None {
                    Some("Failed to get collStats: "@ + e)
                } else {
                    error
                },
            ),
        }
    }
}

impl MongoDbSubscriber {
    /// What the subscriber reports, given what a probe of the database and a request for
    /// the statistics of the collection came to. Statistics count only where the
    /// database answers; their error gives way to another.
    pub fn status(&self, probe: Probe, stats: Result<Document, String>) -> (s: EndpointStatus)
        ensures
            s@ == ({
                let (healthy, pending, error) = probed(probe, "Failed to count pending: "@);
                let seen = match stats {
                    Ok(d) => Ok::<Fields, Seq<char>>(d@),
                    Err(e) => Err::<Fields, Seq<char>>(e@),
                };
                let (capacity, capped, worst) = collection_report(healthy, seen, error);
                let cursor = ("cursor_id"@, text_or_absent(opt(self.cursor_id)));
                EndpointStatusView {
                    healthy,
                    target: self.collection_name@,
                    pending,
                    capacity,
                    error: worst,
                    details: if capped {
                        seq![cursor, ("capped"@, DetailView::Flag(true))]
                    } else {
                        seq![cursor]
                    },
                }
            }),
    {
        let (healthy, pending, error) = read_probe(probe, "Failed to count pending: ");
        let mut details = no_details();
        push_detail(&mut details, "cursor_id", optional_detail(&self.cursor_id));
        let mut capacity: Option<usize> = None;
        let mut worst = error;
        if healthy {
            match stats {
                Ok(d) => {
                    let capped = match d.get("capped") {
                        Some(BsonValue::Boolean(b)) => *b,
                        _ => false,
                    };
                    if capped {
                        capacity = match d.get_i64("max") {
                            Ok(n) => Some(n as usize),
                            Err(_) => None,
                        };
                        push_detail(&mut details, "capped", Detail::Flag(true));
                    }
                },
                Err(e) => {
                    if worst.is_none() {
                        worst = Some(join2("Failed to get collStats: ", e.as_str()));
                    }
                },
            }
        }
        EndpointStatus {
            healthy,
            target: self.collection_name.clone(),
            pending,
            capacity,
            error: worst,
            details,
        }
    }
}

/// A reader that pages through a collection by document identifier, without changing
/// it.
#[derive(Debug)]
pub struct MongoDbIdReader {
    pub collection_name: String,
    pub cursor_id: Option<String>,
    pub last_id: Option<BsonValue>,
    pub receive_query: Option<Document>,
}

/// A page of documents that is being read.
#[derive(Debug)]
pub struct PageBatch {
    pub messages: Vec<CanonicalMessage>,
    pub ids: Vec<BsonValue>,
    /// How many documents of the page were read.
    pub seen: usize,
}

impl MongoDbIdReader {
    /// A reader, given the text that was kept for its cursor. A text that does not
    /// read starts it over, in place of leaving something out.
    pub fn new(config: &MongoDbConfig, saved: Option<&str>) -> (res: Result<Self, String>)
        ensures
            match res {
                Ok(r) => {
                    &&& reader_refusal(
                        *config,
                        "Collection name is required for MongoDB id-cursor reader"@,
                    ) is None
                    &&& r.collection_name@ == config.collection->0@
                    &&& opt(r.cursor_id) == opt(config.cursor_id)
                    &&& option_view(r.last_id) == (match saved {
                        Some(t) => if config.cursor_id is Some {
                            decoded_id(t@)
                        } else {
                            None
                        },
                        None => None,
                    })
                    &&& receive_query_of(opt(config.receive_query)) == Ok::<
                        Option<Fields>,
                        Seq<char>,
                    >(option_fields(r.receive_query))
                },
                Err(e) => reader_refusal(
                    *config,
                    "Collection name is required for MongoDB id-cursor reader"@,
                ) == Some(e@),
            },
    {
        let name = match &config.collection {
            Some(n) => n.clone(),
            None => {
                return Err("Collection name is required for MongoDB id-cursor reader".to_owned());
            },
        };
        let receive_query = match parse_receive_query(&config.receive_query) {
            Ok(q) => q,
            Err(e) => {
                return Err(e);
            },
        };
        let cursor_id = match &config.cursor_id {
            Some(c) => Some(c.clone()),
            None => None,
        };
        let last_id = match saved {
            Some(t) => if config.cursor_id.is_some() {
                decode_id(t)
            } else {
                None
            },
            None => None,
        };
        Ok(MongoDbIdReader { collection_name: name, cursor_id, last_id, receive_query })
    }

    /// Takes a document of a page. Reading moves on behind it whether or not it
    /// reads, so that a bad document does not hold up the rest.
    pub fn on_document(&mut self, page: &mut PageBatch, doc: Document)
        requires
            old(page).messages@.len() == old(page).ids@.len(),
            old(page).seen < usize::MAX,
        ensures
            final(page).messages@.len() == final(page).ids@.len(),
            final(page).seen == old(page).seen + 1,
            final(self).collection_name == old(self).collection_name,
            final(self).cursor_id == old(self).cursor_id,
            final(self).receive_query == old(self).receive_query,
            match field(doc@, "_id"@) {
                None => {
                    &&& final(page).messages == old(page).messages
                    &&& final(page).ids == old(page).ids
                    &&& final(self).last_id == old(self).last_id
                },
                Some(id) => {
                    &&& option_view(final(self).last_id) == Some(id)
                    &&& exists|parsed: Result<CanonicalMessage, String>| #[trigger]
                        reads_document(doc@, parsed) && (match parsed {
                            Ok(m) => final(page).messages@ == old(page).messages@.push(m)
                                && values_of(final(page).ids@) == values_of(
                                old(page).ids@,
                            ).push(id),
                            Err(_) => final(page).messages == old(page).messages
                                && final(page).ids == old(page).ids,
                        })
                },
            },
    {
        page.seen += 1;
        let (id, again) = match doc.get("_id") {
            Some(v) => (v.copy(), v.copy()),
            None => {
                return ;
            },
        };
        let parsed = parse_mongodb_document(doc);
        let ghost witness = parsed;
        assert(reads_document(doc@, witness));
        match parsed {
            Ok(m) => {
                page.messages.push(m);
                page.ids.push(again);
                assert(values_of(page.ids@) =~= values_of(old(page).ids@).push(again@));
            },
            Err(_) => {},
        }
        self.last_id = Some(id);
    }

    /// What the reader reports, given what a probe of the database came to.
    pub fn status(&self, probe: Probe) -> (s: EndpointStatus)
        ensures
            s@ == ({
                let (healthy, pending, error) = probed(probe, "Failed to count pending: "@);
                EndpointStatusView {
                    healthy,
                    target: self.collection_name@,
                    pending,
                    capacity: None,
                    error,
                    details: seq![
                        ("cursor_id"@, text_or_absent(opt(self.cursor_id))),
                        ("mode"@, DetailView::Text("resumable"@)),
                    ],
                }
            }),
    {
        let (healthy, pending, error) = read_probe(probe, "Failed to count pending: ");
        let mut details = no_details();
        push_detail(&mut details, "cursor_id", optional_detail(&self.cursor_id));
        push_detail(&mut details, "mode", text_detail("resumable"));
        EndpointStatus {
            healthy,
            target: self.collection_name.clone(),
            pending,
            capacity: None,
            error,
            details,
        }
    }

    /// Whether a page ends the batch: it gave messages, or the collection has no more
    /// documents. A page of which nothing reads is followed by the next.
    pub fn page_ends_batch(&self, page: &PageBatch) -> (res: bool)
        ensures
            res == (page.messages@.len() > 0 || page.seen == 0),
    {
        page.messages.len() > 0 || page.seen == 0
    }
}

} // verus!
