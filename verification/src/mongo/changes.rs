//! Capturing the changes of a MongoDB collection.

use vstd::prelude::*;

use crate::grpc::bridge::disposition_views;
use crate::ids::is_v7;
use crate::message::{
    with, CanonicalMessage, ConsumerError, DispositionView, MessageDisposition, Pairs,
    ReceiveFailure,
};
use crate::models::MongoDbConfig;
use crate::mongo::bson::{field, values_of, BsonValue, BsonView, Document, Fields};
use crate::mongo::commit::{accepted, boundary, count_accepted, lemma_accepted};
use crate::mongo::cursor::{encode_id, encoded_id};
use crate::mongo::filters::{full_document_match, on_events, parse_receive_query, receive_query_of};
use crate::mongo::json::{
    canonical_json, is_plain_token, json_of_value, json_token, option_fields, option_view,
    token_in_json, token_json, value_json,
};
use crate::mongo::readers::reader_refusal;
use crate::status::{
    optional_detail, plain_status, push_detail, reachable, text_detail, text_or_absent, Detail,
    DetailView, EndpointStatus,
};
use crate::text::{opt, same};

verus! {

/// Writes a resume token as text, from which a token of the usual kind reads back.
pub fn encode_resume_token(token: &Document) -> (res: Result<String, String>)
    ensures
        match res {
            Ok(t) => {
                &&& canonical_json(token@) == Ok::<Seq<char>, Seq<char>>(t@)
                &&& is_plain_token(token@) ==> token_in_json(t@) == Some(
                    BsonView::Document(token@),
                )
            },
            Err(e) => canonical_json(token@) is Err && !is_plain_token(token@) && e@
                == "Failed to encode resume token"@,
        },
{
    match token_json(token) {
        Ok(t) => Ok(t),
        Err(_) => Err("Failed to encode resume token".to_owned()),
    }
}

/// Reads a resume token from text. What is malformed reads as none.
pub fn decode_resume_token(text: &str) -> (token: Option<BsonValue>)
    ensures
        option_view(token) == token_in_json(text@),
{
    json_token(text)
}

/// The kinds of change events.
#[derive(Debug, Clone, Copy, PartialEq, Eq, Structural)]
pub enum OperationType {
    Insert,
    Update,
    Replace,
    Delete,
    /// Anything that changes no document.
    Other,
}

/// The name of an operation.
pub open spec fn operation_name(op: OperationType) -> Seq<char> {
    match op {
        OperationType::Insert => "insert"@,
        OperationType::Update => "update"@,
        OperationType::Replace => "replace"@,
        OperationType::Delete => "delete"@,
        OperationType::Other => "other"@,
    }
}

/// The name of an operation.
pub fn op_str(op: OperationType) -> (name: &'static str)
    ensures
        name@ == operation_name(op),
{
    match op {
        OperationType::Insert => "insert",
        OperationType::Update => "update",
        OperationType::Replace => "replace",
        OperationType::Delete => "delete",
        OperationType::Other => "other",
    }
}

/// A change of a document.
#[derive(Debug)]
pub struct ChangeEvent {
    pub operation: OperationType,
    pub full_document: Option<Document>,
    pub document_key: Option<Document>,
}

/// The document that an event is about: the changed one, or the key of a deleted one.
/// The bookkeeping document is left out.
pub open spec fn event_subject(event: ChangeEvent) -> Option<Fields> {
    match event.operation {
        OperationType::Other => None,
        OperationType::Delete => Some(
            match event.document_key {
                Some(k) => k@,
                None => Fields::empty(),
            },
        ),
        _ => match event.full_document {
            Some(d) => if field(d@, "seq_counter"@) is Some {
                None
            } else {
                Some(d@)
            },
            None => None,
        },
    }
}

/// The payload of an event, where it has one.
pub open spec fn event_payload(event: ChangeEvent) -> Option<Seq<u8>> {
    match event_subject(event) {
        Some(d) => match json_of_value(BsonView::Document(d)) {
            Ok(p) => Some(p),
            Err(_) => None,
        },
        None => None,
    }
}

/// Metadata with the identifier of a document, where it has a text.
pub open spec fn with_document_id(m: Pairs, id: Option<BsonView>) -> Pairs {
    match id {
        Some(v) => match encoded_id(v) {
            Some(t) => with(m, "mongodb.document_id"@, t),
            None => m,
        },
        None => m,
    }
}

/// The identifier in the key of an event.
pub open spec fn event_id(event: ChangeEvent) -> Option<BsonView> {
    match event.document_key {
        Some(k) => field(k@, "_id"@),
        None => None,
    }
}

/// The metadata of an event.
pub open spec fn event_metadata(event: ChangeEvent) -> Pairs {
    with_document_id(
        with(Pairs::empty(), "mongodb.operation"@, operation_name(event.operation)),
        event_id(event),
    )
}

fn tag_document_id(m: CanonicalMessage, id: Option<&BsonValue>) -> (out: CanonicalMessage)
    ensures
        out.message_id == m.message_id,
        out.payload@ == m.payload@,
        out.metadata@ == with_document_id(
            m.metadata@,
            match id {
                Some(v) => Some(v@),
                None => None,
            },
        ),
{
    match id {
        Some(v) => match encode_id(v) {
            Some(t) => m.with_metadata_kv("mongodb.document_id", t.as_str()),
            None => m,
        },
        None => m,
    }
}

fn document_json(d: &Document) -> (json: Option<Vec<u8>>)
    ensures
        match json {
            Some(b) => json_of_value(BsonView::Document(d@)) == Ok::<Seq<u8>, Seq<char>>(b@),
            None => json_of_value(BsonView::Document(d@)) is Err,
        },
{
    let whole = BsonValue::Document(d.copy());
    assert(whole@ == BsonView::Document(d@));
    match value_json(&whole) {
        Ok(b) => Some(b),
        Err(_) => None,
    }
}

/// Makes the message for a change event, where it has a payload.
pub fn event_to_message(event: &ChangeEvent) -> (m: Option<CanonicalMessage>)
    ensures
        match m {
            Some(x) => is_v7(x.message_id) && event_payload(*event) == Some(x.payload@)
                && x.metadata@ == event_metadata(*event),
            None => event_payload(*event) is None,
        },
{
    let payload = match event.operation {
        OperationType::Other => {
            return None;
        },
        OperationType::Delete => match &event.document_key {
            Some(k) => document_json(k),
            None => document_json(&Document::new()),
        },
        _ => match &event.full_document {
            Some(d) => {
                if d.contains_key("seq_counter") {
                    return None;
                }
                document_json(d)
            },
            None => {
                return None;
            },
        },
    };
    match payload {
        None => None,
        Some(bytes) => {
            let m = CanonicalMessage::new(bytes, None).with_metadata_kv(
                "mongodb.operation",
                op_str(event.operation),
            );
            let id = match &event.document_key {
                Some(k) => k.get("_id"),
                None => None,
            };
            Some(tag_document_id(m, id))
        },
    }
}

/// The metadata of a document of the initial snapshot.
pub open spec fn snapshot_metadata(id: BsonView) -> Pairs {
    with_document_id(
        with(
            with(Pairs::empty(), "mongodb.operation"@, "insert"@),
            "mongodb.snapshot"@,
            "true"@,
        ),
        Some(id),
    )
}

/// A page of the initial snapshot that is being read.
#[derive(Debug)]
pub struct SnapshotBatch {
    pub messages: Vec<CanonicalMessage>,
    pub ids: Vec<BsonValue>,
}

/// What a reader of changes starts with.
#[derive(Debug)]
pub struct ChangeStart {
    /// The stages of its change stream.
    pub pipeline: Vec<Document>,
    /// Where it resumes.
    pub resume: Option<BsonValue>,
    /// Whether it reads what is there before it reads changes.
    pub take_snapshot: bool,
}

/// The stages of a change stream for an extra query.
pub open spec fn pipeline_of(query: Option<Fields>) -> Seq<Fields> {
    match query {
        Some(q) => seq![seq![("$match"@, BsonView::Document(on_events(q)))]],
        None => seq![],
    }
}

/// A reader of the changes of a collection.
#[derive(Debug)]
pub struct MongoDbChangeStreamReader {
    pub collection_name: String,
    pub cursor_id: Option<String>,
    pub receive_query: Option<Document>,
    /// Whether the initial snapshot is done.
    pub streaming: bool,
    /// Where the snapshot reads on.
    pub snapshot_last_id: Option<BsonValue>,
    /// How many batches are handed out and not committed.
    pub inflight: usize,
    /// Whether everything that was committed was accepted. Once something was not,
    /// no position is kept any more, for it would lie behind what is missing.
    pub clean: bool,
    /// The position that was kept last.
    pub last_saved_token: Option<String>,
}

/// The position that committing a batch keeps: that of the last event that was
/// accepted, unless something earlier is missing.
pub open spec fn commit_save(
    has_checkpoint: bool,
    clean: bool,
    tokens: Seq<Fields>,
    d: Seq<DispositionView>,
) -> Option<Seq<char>> {
    let acked = accepted(d, tokens.len() as int);
    if has_checkpoint && clean && acked > 0 {
        match canonical_json(tokens[acked - 1]) {
            Ok(t) => Some(t),
            Err(_) => None,
        }
    } else {
        None
    }
}

/// The position that an idle stream keeps: that of the stream, unless something is
/// out or missing, or it has not moved.
pub open spec fn idle_save(
    has_checkpoint: bool,
    clean: bool,
    inflight: usize,
    last_saved: Option<Seq<char>>,
    token: Option<Fields>,
) -> Option<Seq<char>> {
    if has_checkpoint && clean && inflight == 0 && token is Some {
        match canonical_json(token->0) {
            Ok(t) => if last_saved == Some(t) {
                None
            } else {
                Some(t)
            },
            Err(_) => None,
        }
    } else {
        None
    }
}

/// Whether everything was accepted, once a batch of so many was committed too.
pub open spec fn clean_after(clean: bool, n: int, d: Seq<DispositionView>) -> bool {
    clean && accepted(d, n) >= n
}

/// Once a change was not accepted, no position is kept any more, neither by a commit
/// nor by an idle stream, and that stays so.
pub proof fn law_no_position_is_kept_behind_a_gap(
    has_checkpoint: bool,
    inflight: usize,
    last_saved: Option<Seq<char>>,
    token: Option<Fields>,
    tokens: Seq<Fields>,
    n: int,
    d: Seq<DispositionView>,
)
    ensures
        commit_save(has_checkpoint, false, tokens, d) is None,
        idle_save(has_checkpoint, false, inflight, last_saved, token) is None,
        !clean_after(false, n, d),
{
}

/// A position that a commit keeps is that of an event which was accepted, with
/// everything before it; and while a batch is out an idle stream keeps none.
pub proof fn law_kept_position_is_accepted(
    has_checkpoint: bool,
    clean: bool,
    inflight: usize,
    last_saved: Option<Seq<char>>,
    token: Option<Fields>,
    tokens: Seq<Fields>,
    d: Seq<DispositionView>,
)
    ensures
        commit_save(has_checkpoint, clean, tokens, d) is Some ==> exists|k: int|
            0 <= k < tokens.len() && k < d.len() && canonical_json(#[trigger] tokens[k]) == Ok::<
                Seq<char>,
                Seq<char>,
            >(commit_save(has_checkpoint, clean, tokens, d)->0) && (forall|i: int|
                0 <= i <= k ==> !(#[trigger] d[i] is Nack)),
        inflight > 0 ==> idle_save(has_checkpoint, clean, inflight, last_saved, token) is None,
{
    lemma_accepted(d, tokens.len() as int);
    let acked = accepted(d, tokens.len() as int);
    if commit_save(has_checkpoint, clean, tokens, d) is Some {
        let k = acked - 1;
        assert(canonical_json(tokens[k]) is Ok);
    }
}

/// Resume tokens over mathematical values.
pub open spec fn token_views(tokens: Seq<Document>) -> Seq<Fields> {
    tokens.map_values(|d: Document| d@)
}

impl MongoDbChangeStreamReader {
    /// A reader of changes, given the text that was kept for its cursor. Without a
    /// position it can first read what is there.
    pub fn new(config: &MongoDbConfig, saved: Option<&str>, snapshot: bool) -> (res: Result<
        (Self, ChangeStart),
        String,
    >)
        ensures
            match res {
                Ok(r) => {
                    let query = receive_query_of(opt(config.receive_query));
                    let resume = match saved {
                        Some(t) => if config.cursor_id is Some {
                            token_in_json(t@)
                        } else {
                            None
                        },
                        None => None,
                    };
                    &&& reader_refusal(
                        *config,
                        "Collection name is required for MongoDB CDC reader"@,
                    ) is None
                    &&& r.0.collection_name@ == config.collection->0@
                    &&& opt(r.0.cursor_id) == opt(config.cursor_id)
                    &&& query == Ok::<Option<Fields>, Seq<char>>(
                        option_fields(r.0.receive_query),
                    )
                    &&& token_views(r.1.pipeline@) == pipeline_of(
                        option_fields(r.0.receive_query),
                    )
                    &&& option_view(r.1.resume) == resume
                    &&& r.1.take_snapshot == (resume is None && snapshot)
                    &&& r.0.streaming == !r.1.take_snapshot
                    &&& r.0.snapshot_last_id is None
                    &&& r.0.inflight == 0
                    &&& r.0.clean
                    &&& opt(r.0.last_saved_token) == (match resume {
                        Some(BsonView::Document(d)) => match canonical_json(d) {
                            Ok(t) => Some(t),
                            Err(_) => None,
                        },
                        _ => None,
                    })
                },
                Err(e) => reader_refusal(
                    *config,
                    "Collection name is required for MongoDB CDC reader"@,
                ) == Some(e@),
            },
    {
        let name = match &config.collection {
            Some(n) => n.clone(),
            None => {
                return Err("Collection name is required for MongoDB CDC reader".to_owned());
            },
        };
        let receive_query = match parse_receive_query(&config.receive_query) {
            Ok(q) => q,
            Err(e) => {
                return Err(e);
            },
        };
        let mut pipeline: Vec<Document> = Vec::new();
        if let Some(q) = &receive_query {
            let stage = Document::new().then_field(
                "$match",
                BsonValue::Document(full_document_match(q)),
            );
            assert(stage@ =~= seq![("$match"@, BsonView::Document(on_events(q@)))]);
            pipeline.push(stage);
        }
        assert(token_views(pipeline@) =~= pipeline_of(option_fields(receive_query)));
        let cursor_id = match &config.cursor_id {
            Some(c) => Some(c.clone()),
            None => None,
        };
        let resume = match saved {
            Some(t) => if config.cursor_id.is_some() {
                decode_resume_token(t)
            } else {
                None
            },
            None => None,
        };
        let last_saved_token = match &resume {
            Some(BsonValue::Document(d)) => match encode_resume_token(d) {
                Ok(t) => Some(t),
                Err(_) => None,
            },
            _ => None,
        };
        let take_snapshot = resume.is_none() && snapshot;
        let reader = MongoDbChangeStreamReader {
            collection_name: name,
            cursor_id,
            receive_query,
            streaming: !take_snapshot,
            snapshot_last_id: None,
            inflight: 0,
            clean: true,
            last_saved_token,
        };
        Ok((reader, ChangeStart { pipeline, resume, take_snapshot }))
    }

    /// Whether the reader keeps positions.
    pub fn has_checkpoint(&self) -> (res: bool)
        ensures
            res == (self.cursor_id is Some),
    {
        self.cursor_id.is_some()
    }

    /// Takes a document of the initial snapshot. Reading moves on behind it.
    pub fn on_snapshot_document(&mut self, batch: &mut SnapshotBatch, doc: Document)
        ensures
            final(self).collection_name == old(self).collection_name,
            final(self).cursor_id == old(self).cursor_id,
            final(self).receive_query == old(self).receive_query,
            final(self).streaming == old(self).streaming,
            final(self).inflight == old(self).inflight,
            final(self).clean == old(self).clean,
            final(self).last_saved_token == old(self).last_saved_token,
            match field(doc@, "_id"@) {
                None => *final(batch) == *old(batch) && final(self).snapshot_last_id == old(
                    self,
                ).snapshot_last_id,
                Some(id) => {
                    &&& option_view(final(self).snapshot_last_id) == Some(id)
                    &&& match json_of_value(BsonView::Document(doc@)) {
                        Ok(payload) => {
                            &&& final(batch).messages@.len() == old(batch).messages@.len() + 1
                            &&& final(batch).messages@.drop_last() == old(batch).messages@
                            &&& is_v7(final(batch).messages@.last().message_id)
                            &&& final(batch).messages@.last().payload@ == payload
                            &&& final(batch).messages@.last().metadata@ == snapshot_metadata(id)
                            &&& values_of(final(batch).ids@) == values_of(
                                old(batch).ids@,
                            ).push(id)
                        },
                        Err(_) => *final(batch) == *old(batch),
                    }
                },
            },
    {
        let (id, again) = match doc.get("_id") {
            Some(v) => (v.copy(), v.copy()),
            None => {
                return ;
            },
        };
        if let Some(payload) = document_json(&doc) {
            let m = CanonicalMessage::new(payload, None).with_metadata_kv(
                "mongodb.operation",
                "insert",
            ).with_metadata_kv("mongodb.snapshot", "true");
            let tagged = tag_document_id(m, Some(&id));
            batch.messages.push(tagged);
            batch.ids.push(again);
            assert(batch.messages@.drop_last() =~= old(batch).messages@);
            assert(values_of(batch.ids@) =~= values_of(old(batch).ids@).push(again@));
        }
        self.snapshot_last_id = Some(id);
    }

    /// A batch is handed out.
    pub fn hand_out(&mut self)
        requires
            old(self).inflight < usize::MAX,
        ensures
            *final(self) == (MongoDbChangeStreamReader {
                inflight: (old(self).inflight + 1) as usize,
                ..*old(self)
            }),
    {
        self.inflight += 1;
    }

    /// The snapshot is done, and changes are read.
    pub fn start_streaming(&mut self)
        ensures
            *final(self) == (MongoDbChangeStreamReader { streaming: true, ..*old(self) }),
    {
        self.streaming = true;
    }

    /// Commits a page of the snapshot that was read from a position on. What was not
    /// accepted is read again, and leaves a gap.
    pub fn commit_snapshot(
        &mut self,
        ids: &Vec<BsonValue>,
        resume_from: Option<BsonValue>,
        dispositions: &Vec<MessageDisposition>,
    )
        requires
            old(self).inflight > 0,
        ensures
            ({
                let d = disposition_views(dispositions@);
                let acked = accepted(d, ids@.len() as int);
                &&& final(self).inflight == old(self).inflight - 1
                &&& final(self).clean == clean_after(old(self).clean, ids@.len() as int, d)
                &&& acked < ids@.len() ==> option_view(final(self).snapshot_last_id) == boundary(
                    values_of(ids@),
                    option_view(resume_from),
                    acked,
                )
                &&& acked >= ids@.len() ==> final(self).snapshot_last_id == old(
                    self,
                ).snapshot_last_id
                &&& final(self).collection_name == old(self).collection_name
                &&& final(self).cursor_id == old(self).cursor_id
                &&& final(self).receive_query == old(self).receive_query
                &&& final(self).streaming == old(self).streaming
                &&& final(self).last_saved_token == old(self).last_saved_token
            }),
    {
        let acked: usize = count_accepted(dispositions, ids.len());
        if acked < ids.len() {
            if acked == 0 {
                self.snapshot_last_id = resume_from;
            } else {
                assert(values_of(ids@)[acked - 1] == ids@[acked - 1]@);
                self.snapshot_last_id = Some(ids[acked - 1].copy());
            }
            self.clean = false;
        }
        self.inflight -= 1;
    }

    /// Commits a batch of changes, and says which position to keep.
    pub fn commit_changes(
        &mut self,
        tokens: &Vec<Document>,
        dispositions: &Vec<MessageDisposition>,
    ) -> (save: Option<String>)
        requires
            old(self).inflight > 0,
        ensures
            ({
                let d = disposition_views(dispositions@);
                &&& opt(save) == commit_save(
                    old(self).cursor_id is Some,
                    old(self).clean,
                    token_views(tokens@),
                    d,
                )
                &&& final(self).inflight == old(self).inflight - 1
                &&& final(self).clean == clean_after(old(self).clean, tokens@.len() as int, d)
                &&& final(self).collection_name == old(self).collection_name
                &&& final(self).cursor_id == old(self).cursor_id
                &&& final(self).receive_query == old(self).receive_query
                &&& final(self).streaming == old(self).streaming
                &&& final(self).snapshot_last_id == old(self).snapshot_last_id
                &&& final(self).last_saved_token == old(self).last_saved_token
            }),
    {
        let acked: usize = count_accepted(dispositions, tokens.len());
        let mut save: Option<String> = None;
        if acked > 0 && self.clean && self.cursor_id.is_some() {
            assert(token_views(tokens@)[acked - 1] == tokens@[acked - 1]@);
            save = match encode_resume_token(&tokens[acked - 1]) {
                Ok(t) => Some(t),
                Err(_) => None,
            };
        }
        if acked < tokens.len() {
            self.clean = false;
        }
        self.inflight -= 1;
        save
    }

    /// A position was kept.
    pub fn on_saved(&mut self, token: String)
        ensures
            *final(self) == (MongoDbChangeStreamReader {
                last_saved_token: Some(token),
                ..*old(self)
            }),
    {
        self.last_saved_token = Some(token);
    }

    /// The position that an idle stream keeps, so that it does not grow too old to
    /// resume from.
    pub fn refresh_idle_checkpoint(&self, token: Option<&Document>) -> (save: Option<String>)
        ensures
            opt(save) == idle_save(
                self.cursor_id is Some,
                self.clean,
                self.inflight,
                opt(self.last_saved_token),
                match token {
                    Some(t) => Some(t@),
                    None => None,
                },
            ),
    {
        if self.cursor_id.is_none() || !self.clean || self.inflight != 0 {
            return None;
        }
        match token {
            None => None,
            Some(t) => match encode_resume_token(t) {
                Err(_) => None,
                Ok(text) => {
                    if let Some(last) = &self.last_saved_token {
                        if same(last.as_str(), text.as_str()) {
                            return None;
                        }
                    }
                    Some(text)
                },
            },
        }
    }

    /// What the reader reports, given why the database does not answer.
    pub fn status(&self, down: Option<String>) -> (s: EndpointStatus)
        ensures
            s@ == plain_status(
                self.collection_name@,
                opt(down),
                seq![
                    ("cursor_id"@, text_or_absent(opt(self.cursor_id))),
                    ("mode"@, DetailView::Text("cdc"@)),
                    (
                        "phase"@,
                        DetailView::Text(
                            if self.streaming {
                                "streaming"@
                            } else {
                                "snapshot"@
                            },
                        ),
                    ),
                    ("in_flight_batches"@, DetailView::Count(self.inflight)),
                    ("resume_token"@, text_or_absent(opt(self.last_saved_token))),
                ],
            ),
    {
        let mut s = reachable(self.collection_name.as_str());
        push_detail(&mut s.details, "cursor_id", optional_detail(&self.cursor_id));
        push_detail(&mut s.details, "mode", text_detail("cdc"));
        push_detail(&mut s.details, "phase", text_detail(self.phase()));
        push_detail(&mut s.details, "in_flight_batches", Detail::Count(self.inflight));
        push_detail(&mut s.details, "resume_token", optional_detail(&self.last_saved_token));
        s.healthy = down.is_none();
        s.error = down;
        s
    }

    /// Which part of its work the reader is in.
    pub fn phase(&self) -> (name: &'static str)
        ensures
            name@ == (if self.streaming {
                "streaming"@
            } else {
                "snapshot"@
            }),
    {
        if self.streaming {
            "streaming"
        } else {
            "snapshot"
        }
    }
}

/// What waiting for a change came to.
#[derive(Debug)]
pub enum ChangeRead {
    Event { event: ChangeEvent, token: Document },
    Failed(String),
    Ended,
    /// Nothing came in time.
    Idle,
}

/// What reading changes does next.
#[derive(Debug)]
pub enum ChangeStep {
    More,
    /// Nothing came yet: keep the position of the stream, and wait on.
    Refresh,
    Finish,
    Fail(ConsumerError),
}

/// A batch of changes that is being read.
#[derive(Debug)]
pub struct ChangeBatch {
    pub messages: Vec<CanonicalMessage>,
    pub tokens: Vec<Document>,
}

impl ChangeBatch {
    /// Takes what waiting came to. The first change is waited for; then the batch
    /// takes what is there at once.
    pub fn on_read(&mut self, read: ChangeRead, max_messages: usize) -> (step: ChangeStep)
        requires
            old(self).messages@.len() == old(self).tokens@.len(),
        ensures
            final(self).messages@.len() == final(self).tokens@.len(),
            match read {
                ChangeRead::Event { event, token } => {
                    &&& match event_payload(event) {
                        Some(payload) => {
                            &&& final(self).messages@.len() == old(self).messages@.len() + 1
                            &&& final(self).messages@.drop_last() == old(self).messages@
                            &&& final(self).messages@.last().payload@ == payload
                            &&& is_v7(final(self).messages@.last().message_id)
                            &&& final(self).messages@.last().metadata@ == event_metadata(event)
                            &&& final(self).tokens@ == old(self).tokens@.push(token)
                        },
                        None => *final(self) == *old(self),
                    }
                    &&& if final(self).messages@.len() > 0 && final(self).messages@.len()
                        >= max_messages {
                        step is Finish
                    } else {
                        step is More
                    }
                },
                ChangeRead::Failed(why) => (step matches ChangeStep::Fail(e) && e@
                    == ReceiveFailure::Connection(why@) && *final(self) == *old(self)),
                ChangeRead::Ended => (step matches ChangeStep::Fail(e) && e@
                    == ReceiveFailure::Connection(
                    "MongoDB change stream ended unexpectedly"@,
                ) && *final(self) == *old(self)),
                ChangeRead::Idle => {
                    &&& *final(self) == *old(self)
                    &&& if old(self).messages@.len() == 0 {
                        step is Refresh
                    } else {
                        step is Finish
                    }
                },
            },
    {
        match read {
            ChangeRead::Event { event, token } => {
                if let Some(m) = event_to_message(&event) {
                    self.messages.push(m);
                    self.tokens.push(token);
                    assert(self.messages@.drop_last() =~= old(self).messages@);
                }
                if self.messages.len() > 0 && self.messages.len() >= max_messages {
                    ChangeStep::Finish
                } else {
                    ChangeStep::More
                }
            },
            ChangeRead::Failed(why) => ChangeStep::Fail(ConsumerError::Connection(why)),
            ChangeRead::Ended => ChangeStep::Fail(
                ConsumerError::Connection("MongoDB change stream ended unexpectedly".to_owned()),
            ),
            ChangeRead::Idle => if self.messages.len() == 0 {
                ChangeStep::Refresh
            } else {
                ChangeStep::Finish
            },
        }
    }
}

} // verus!
