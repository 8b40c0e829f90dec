//! Committing batches, and the cursors that follow the commits.

use vstd::prelude::*;

use crate::grpc::bridge::disposition_views;
use crate::message::{
    lookup, with, CanonicalMessage, DispositionView, MessageDisposition, MessageView,
};
use crate::models::MongoDbFormat;
use crate::mongo::bson::{values_of, BsonValue, BsonView, Document, Fields};
use crate::mongo::cursor::{encode_id, encoded_id};
use crate::mongo::document::{build_document, stored_document};
use crate::mongo::json::option_view;
use crate::mongo::publisher::namespaced_cursor_id;
use crate::text::{join2, join3, opt, texts};

verus! {

/// What a claimed message is answered with: where the reply goes, and under which
/// identifier.
#[derive(Debug)]
pub struct ReplyInfo {
    pub reply_to: Option<String>,
    pub correlation_id: Option<String>,
}

/// Where a reply goes, from the metadata of its request.
pub fn reply_info(message: &CanonicalMessage) -> (info: ReplyInfo)
    ensures
        opt(info.reply_to) == lookup(message.metadata@, "reply_to"@),
        opt(info.correlation_id) == lookup(
            message.metadata@,
            "correlation_id"@,
        ),
{
    let reply_to = match message.metadata.get("reply_to") {
        Some(r) => Some(r.clone()),
        None => None,
    };
    let correlation_id = match message.metadata.get("correlation_id") {
        Some(c) => Some(c.clone()),
        None => None,
    };
    ReplyInfo { reply_to, correlation_id }
}

/// A reply as it is stored, under the identifier of its request.
pub open spec fn stored_reply(m: MessageView, correlation_id: Option<Seq<char>>, now: i64) -> Fields {
    let answered = match correlation_id {
        Some(c) => MessageView { metadata: with(m.metadata, "correlation_id"@, c), ..m },
        None => m,
    };
    stored_document(answered, MongoDbFormat::Normal, None, None, None, now)
}

/// The collection and the document of a reply. A request that asks for none gets
/// none.
pub fn handle_reply(info: &ReplyInfo, response: CanonicalMessage, now: i64) -> (plan: Option<
    (String, Document),
>)
    ensures
        match plan {
            Some(p) => {
                &&& opt(info.reply_to) == Some(p.0@)
                &&& p.1@ == stored_reply(response@, opt(info.correlation_id), now)
            },
            None => info.reply_to is None,
        },
{
    match &info.reply_to {
        None => None,
        Some(name) => {
            let resp = match &info.correlation_id {
                Some(c) => response.with_metadata_kv("correlation_id", c.as_str()),
                None => response,
            };
            let d = build_document(&resp, &MongoDbFormat::Normal, None, None, None, now);
            Some((name.clone(), d))
        },
    }
}

/// What became of a claimed message once its reply, if any, went out.
#[derive(Debug)]
pub enum ClaimOutcome {
    /// It was acknowledged, or its reply was stored.
    Done,
    /// It was refused.
    Refused,
    /// Its reply could not be stored.
    ReplyFailed(String),
}

/// What a commit does: which documents go, which are given free again, and what went
/// wrong.
#[derive(Debug)]
pub struct CommitPlan {
    pub delete: Vec<BsonValue>,
    pub unlock: Vec<BsonValue>,
    pub errors: Vec<String>,
}

/// The identifiers among the first `n` of the messages that are done, in order.
pub open spec fn done_ids(ids: Seq<BsonView>, outcomes: Seq<ClaimOutcome>, n: int) -> Seq<BsonView>
    decreases n,
{
    if n <= 0 {
        seq![]
    } else {
        let rest = done_ids(ids, outcomes, n - 1);
        if outcomes[n - 1] is Done {
            rest.push(ids[n - 1])
        } else {
            rest
        }
    }
}

/// The identifiers among the first `n` of the messages that are not done, in order.
pub open spec fn undone_ids(ids: Seq<BsonView>, outcomes: Seq<ClaimOutcome>, n: int) -> Seq<
    BsonView,
>
    decreases n,
{
    if n <= 0 {
        seq![]
    } else {
        let rest = undone_ids(ids, outcomes, n - 1);
        if outcomes[n - 1] is Done {
            rest
        } else {
            rest.push(ids[n - 1])
        }
    }
}

/// The errors among the first `n` outcomes, in order.
pub open spec fn reply_errors(outcomes: Seq<ClaimOutcome>, n: int) -> Seq<Seq<char>>
    decreases n,
{
    if n <= 0 {
        seq![]
    } else {
        let rest = reply_errors(outcomes, n - 1);
        match outcomes[n - 1] {
            ClaimOutcome::ReplyFailed(e) => rest.push(e@),
            _ => rest,
        }
    }
}

/// How many messages of a commit have both an identifier and an outcome.
pub open spec fn paired(ids: nat, outcomes: nat) -> int {
    if ids <= outcomes {
        ids as int
    } else {
        outcomes as int
    }
}

/// Every claimed message that has an outcome is deleted or given free again, and only
/// one of these: the two lists hold each identifier exactly as often as the batch.
pub proof fn law_every_claim_is_settled(ids: Seq<BsonView>, outcomes: Seq<ClaimOutcome>, n: int)
    requires
        0 <= n <= ids.len(),
        n <= outcomes.len(),
    ensures
        done_ids(ids, outcomes, n).to_multiset().add(
            undone_ids(ids, outcomes, n).to_multiset(),
        ) =~= ids.take(n).to_multiset(),
        reply_errors(outcomes, n).len() <= undone_ids(ids, outcomes, n).len(),
    decreases n,
{
    broadcast use vstd::seq_lib::group_to_multiset_ensures;

    if n > 0 {
        law_every_claim_is_settled(ids, outcomes, n - 1);
        assert(ids.take(n) =~= ids.take(n - 1).push(ids[n - 1]));
    } else {
        assert(ids.take(0) =~= Seq::<BsonView>::empty());
    }
}

/// Plans the commit of a batch of claimed messages.
pub fn process_mongodb_batch_commit(ids: &Vec<BsonValue>, outcomes: &Vec<ClaimOutcome>) -> (plan:
    CommitPlan)
    ensures
        ({
            let n = paired(ids@.len(), outcomes@.len());
            &&& values_of(plan.delete@) == done_ids(values_of(ids@), outcomes@, n)
            &&& values_of(plan.unlock@) == undone_ids(values_of(ids@), outcomes@, n)
            &&& texts(plan.errors@) == reply_errors(outcomes@, n)
        }),
{
    let mut plan = CommitPlan { delete: Vec::new(), unlock: Vec::new(), errors: Vec::new() };
    let ghost all = values_of(ids@);
    let mut i: usize = 0;
    assert(values_of(plan.delete@) =~= done_ids(all, outcomes@, 0));
    assert(values_of(plan.unlock@) =~= undone_ids(all, outcomes@, 0));
    assert(texts(plan.errors@) =~= reply_errors(outcomes@, 0));
    while i < ids.len() && i < outcomes.len()
        invariant
            i <= paired(ids@.len(), outcomes@.len()),
            all == values_of(ids@),
            values_of(plan.delete@) == done_ids(all, outcomes@, i as int),
            values_of(plan.unlock@) == undone_ids(all, outcomes@, i as int),
            texts(plan.errors@) == reply_errors(outcomes@, i as int),
        decreases ids@.len() - i,
    {
        assert(all[i as int] == ids@[i as int]@);
        let id = ids[i].copy();
        let ghost before = plan;
        match &outcomes[i] {
            ClaimOutcome::Done => {
                plan.delete.push(id);
                assert(values_of(plan.delete@) =~= values_of(before.delete@).push(id@));
            },
            ClaimOutcome::Refused => {
                plan.unlock.push(id);
                assert(values_of(plan.unlock@) =~= values_of(before.unlock@).push(id@));
            },
            ClaimOutcome::ReplyFailed(e) => {
                plan.errors.push(e.clone());
                plan.unlock.push(id);
                assert(values_of(plan.unlock@) =~= values_of(before.unlock@).push(id@));
                assert(texts(plan.errors@) =~= texts(
                    before.errors@,
                ).push(e@));
            },
        }
        i += 1;
    }
    plan
}

/// Why unlocking, deleting or replying failed.
#[derive(Debug)]
pub enum CommitFailure {
    Unlock(String),
    DeleteMany(String),
    DeleteOne(String),
    UnlockOne(String),
    InsertReply(String),
}

/// The text of a failed commit.
pub open spec fn commit_failure_of(f: CommitFailure) -> Seq<char> {
    match f {
        CommitFailure::Unlock(e) => "Failed to unlock Nacked MongoDB messages: "@ + e@,
        CommitFailure::DeleteMany(e) => "Failed to bulk-ack/delete MongoDB messages: "@ + e@,
        CommitFailure::DeleteOne(e) => "Failed to ack/delete MongoDB message: "@ + e@,
        CommitFailure::UnlockOne(e) => "Failed to unlock Nacked message"@,
        CommitFailure::InsertReply(e) => "Failed to insert MongoDB reply: "@ + e@,
    }
}

/// The text of a failed commit.
pub fn commit_failure(f: CommitFailure) -> (text: String)
    ensures
        text@ == commit_failure_of(f),
{
    match f {
        CommitFailure::Unlock(e) => join2(
            "Failed to unlock Nacked MongoDB messages: ",
            e.as_str(),
        ),
        CommitFailure::DeleteMany(e) => join2(
            "Failed to bulk-ack/delete MongoDB messages: ",
            e.as_str(),
        ),
        CommitFailure::DeleteOne(e) => join2("Failed to ack/delete MongoDB message: ", e.as_str()),
        CommitFailure::UnlockOne(e) => "Failed to unlock Nacked message".to_owned(),
        CommitFailure::InsertReply(e) => join2("Failed to insert MongoDB reply: ", e.as_str()),
    }
}

/// What committing a batch does next.
#[derive(Debug)]
pub enum CommitStep {
    /// Give the documents to unlock free again.
    Unlock,
    /// Delete the documents to delete.
    Delete,
    Finished(Result<(), String>),
}

/// What committing a batch does next, over mathematical values.
pub enum CommitStepView {
    Unlock,
    Delete,
    Finished(Option<Seq<char>>),
}

impl View for CommitStep {
    type V = CommitStepView;

    open spec fn view(&self) -> CommitStepView {
        match self {
            CommitStep::Unlock => CommitStepView::Unlock,
            CommitStep::Delete => CommitStepView::Delete,
            CommitStep::Finished(Ok(())) => CommitStepView::Finished(None),
            CommitStep::Finished(Err(e)) => CommitStepView::Finished(Some(e@)),
        }
    }
}

/// Texts in one, with commas between them.
pub open spec fn listed_texts(texts: Seq<Seq<char>>) -> Seq<char>
    decreases texts.len(),
{
    if texts.len() == 0 {
        seq![]
    } else if texts.len() == 1 {
        texts[0]
    } else {
        listed_texts(texts.drop_last()) + ", "@ + texts.last()
    }
}

fn list_texts(items: &Vec<String>) -> (out: String)
    ensures
        out@ == listed_texts(texts(items@)),
{
    let ghost all = texts(items@);
    proof {
        reveal_strlit("");
    }
    let mut out = "".to_owned();
    let mut i: usize = 0;
    assert(out@ =~= listed_texts(all.take(0)));
    while i < items.len()
        invariant
            i <= items@.len(),
            all == texts(items@),
            out@ == listed_texts(all.take(i as int)),
        decreases items@.len() - i,
    {
        assert(all.take(i + 1).drop_last() =~= all.take(i as int));
        assert(all.take(i + 1).last() == items@[i as int]@);
        if i > 0 {
            out = join3(out.as_str(), ", ", items[i].as_str());
        } else {
            out = items[i].clone();
        }
        i += 1;
    }
    assert(all.take(all.len() as int) =~= all);
    out
}

impl CommitPlan {
    /// What is left when nothing is to be unlocked or deleted any more: the replies
    /// that could not be stored are reported.
    pub open spec fn rest(self) -> CommitStepView {
        let errors = texts(self.errors@);
        CommitStepView::Finished(
            if errors.len() == 0 {
                None
            } else {
                Some("Errors occurred during commit: ["@ + listed_texts(errors) + "]"@)
            },
        )
    }

    /// What follows unlocking.
    pub open spec fn then_delete(self) -> CommitStepView {
        if self.delete@.len() > 0 {
            CommitStepView::Delete
        } else {
            self.rest()
        }
    }

    fn finish(&self) -> (step: CommitStep)
        ensures
            step@ == self.rest(),
    {
        if self.errors.len() == 0 {
            return CommitStep::Finished(Ok(()));
        }
        let list = list_texts(&self.errors);
        CommitStep::Finished(Err(join3("Errors occurred during commit: [", list.as_str(), "]")))
    }

    /// The first step of a commit. What was refused is given free before anything is
    /// deleted.
    pub fn start(&self) -> (step: CommitStep)
        ensures
            step@ == (if self.unlock@.len() > 0 {
                CommitStepView::Unlock
            } else {
                self.then_delete()
            }),
    {
        if self.unlock.len() > 0 {
            return CommitStep::Unlock;
        }
        self.after_unlock(None)
    }

    /// The step after unlocking, given why that failed. A failure ends the commit.
    pub fn after_unlock(&self, failed: Option<String>) -> (step: CommitStep)
        ensures
            step@ == (match failed {
                Some(e) => CommitStepView::Finished(
                    Some(commit_failure_of(CommitFailure::Unlock(e))),
                ),
                None => self.then_delete(),
            }),
    {
        match failed {
            Some(e) => CommitStep::Finished(Err(commit_failure(CommitFailure::Unlock(e)))),
            None => if self.delete.len() > 0 {
                CommitStep::Delete
            } else {
                self.finish()
            },
        }
    }

    /// The step after deleting, given why that failed.
    pub fn after_delete(&self, failed: Option<String>) -> (step: CommitStep)
        ensures
            step@ == (match failed {
                Some(e) => CommitStepView::Finished(
                    Some(commit_failure_of(CommitFailure::DeleteMany(e))),
                ),
                None => self.rest(),
            }),
    {
        match failed {
            Some(e) => CommitStep::Finished(Err(commit_failure(CommitFailure::DeleteMany(e)))),
            None => self.finish(),
        }
    }
}

/// What committing a single claimed message does next.
#[derive(Debug)]
pub enum SettleStep {
    /// Store a reply in a collection.
    StoreReply(String, Document),
    Unlock,
    Delete,
    Finished(Result<(), String>),
}

/// Starts to commit a single claimed message. A reply that nobody asked for is not
/// stored.
pub fn settle(info: &ReplyInfo, disposition: MessageDisposition, now: i64) -> (step: SettleStep)
    ensures
        match disposition {
            MessageDisposition::Ack => step is Delete,
            MessageDisposition::Nack => step is Unlock,
            MessageDisposition::Reply(m) => match opt(info.reply_to) {
                Some(to) => (step matches SettleStep::StoreReply(name, d) && name@ == to && d@
                    == stored_reply(m@, opt(info.correlation_id), now)),
                None => step is Delete,
            },
        },
{
    match disposition {
        MessageDisposition::Ack => SettleStep::Delete,
        MessageDisposition::Nack => SettleStep::Unlock,
        MessageDisposition::Reply(m) => match handle_reply(info, m, now) {
            Some((name, d)) => SettleStep::StoreReply(name, d),
            None => SettleStep::Delete,
        },
    }
}

/// The step after a reply was stored, given why that failed. A message whose reply is
/// lost stays claimed until its lock runs out.
pub fn settle_after_reply(failed: Option<String>) -> (step: SettleStep)
    ensures
        match failed {
            Some(e) => (step matches SettleStep::Finished(Err(text)) && text@
                == commit_failure_of(CommitFailure::InsertReply(e))),
            None => step is Delete,
        },
{
    match failed {
        Some(e) => SettleStep::Finished(Err(commit_failure(CommitFailure::InsertReply(e)))),
        None => SettleStep::Delete,
    }
}

/// The end of a commit that unlocked, given why that failed.
pub fn settle_after_unlock(failed: Option<String>) -> (res: Result<(), String>)
    ensures
        match failed {
            Some(e) => (res matches Err(text) && text@ == commit_failure_of(
                CommitFailure::UnlockOne(e),
            )),
            None => res is Ok,
        },
{
    match failed {
        Some(e) => Err(commit_failure(CommitFailure::UnlockOne(e))),
        None => Ok(()),
    }
}

/// The end of a commit that deleted, given why that failed. A message that is gone
/// already is no failure.
pub fn settle_after_delete(failed: Option<String>) -> (res: Result<(), String>)
    ensures
        match failed {
            Some(e) => (res matches Err(text) && text@ == commit_failure_of(
                CommitFailure::DeleteOne(e),
            )),
            None => res is Ok,
        },
{
    match failed {
        Some(e) => Err(commit_failure(CommitFailure::DeleteOne(e))),
        None => Ok(()),
    }
}

/// How many of the first `n` messages were accepted before the first that was not.
pub open spec fn accepted(d: Seq<DispositionView>, n: int) -> int
    decreases n,
{
    if n <= 0 || d.len() == 0 {
        0
    } else if d[0] is Nack {
        0
    } else {
        1 + accepted(d.skip(1), n - 1)
    }
}

pub proof fn lemma_accepted(d: Seq<DispositionView>, n: int)
    requires
        n >= 0,
    ensures
        0 <= accepted(d, n) <= n,
        accepted(d, n) <= d.len(),
        forall|i: int| 0 <= i < accepted(d, n) ==> !(#[trigger] d[i] is Nack),
        accepted(d, n) < n && accepted(d, n) < d.len() ==> d[accepted(d, n)] is Nack,
    decreases n,
{
    if n > 0 && d.len() > 0 && !(d[0] is Nack) {
        let rest = d.skip(1);
        lemma_accepted(rest, n - 1);
        assert forall|i: int| 0 <= i < accepted(d, n) implies !(#[trigger] d[i] is Nack) by {
            if i > 0 {
                assert(d[i] == rest[i - 1]);
            }
        }
        let k = accepted(rest, n - 1);
        if k < n - 1 && k < rest.len() {
            assert(d[k + 1] == rest[k]);
        }
    }
}

/// How many of the first `n` messages were accepted before the first that was not.
pub fn count_accepted(dispositions: &Vec<MessageDisposition>, n: usize) -> (k: usize)
    ensures
        k == accepted(disposition_views(dispositions@), n as int),
        k <= n,
{
    let ghost all = disposition_views(dispositions@);
    let mut k: usize = 0;
    assert(all.skip(0) =~= all);
    while k < n && k < dispositions.len()
        invariant
            k <= n,
            k <= dispositions@.len(),
            all == disposition_views(dispositions@),
            accepted(all, n as int) == k + accepted(all.skip(k as int), n - k),
        decreases n - k,
    {
        assert(all.skip(k as int)[0] == dispositions@[k as int]@);
        match &dispositions[k] {
            MessageDisposition::Nack => {
                return k;
            },
            MessageDisposition::Ack => {},
            MessageDisposition::Reply(_) => {},
        }
        assert(all.skip(k as int).skip(1) =~= all.skip(k + 1));
        k += 1;
    }
    assert(accepted(all.skip(k as int), n - k) == 0);
    k
}

/// What committing a batch of numbered events does: where reading goes on, and which
/// number is kept.
#[derive(Debug)]
pub struct SeqCommit {
    /// Where reading goes back to, where not all were accepted.
    pub rewind: Option<i64>,
    /// The number to keep for the cursor.
    pub persist: Option<i64>,
}

/// The number of the last event that was accepted, or zero.
pub open spec fn highest_accepted(seqs: Seq<i64>, acked: int) -> i64 {
    if acked > 0 {
        seqs[acked - 1]
    } else {
        0
    }
}

/// Commits a batch of numbered events that was read from a position on.
pub fn commit_events(seqs: &Vec<i64>, resume_from: i64, dispositions: &Vec<MessageDisposition>) -> (
    commit: SeqCommit)
    ensures
        ({
            let acked = accepted(disposition_views(dispositions@), seqs@.len() as int);
            let highest = highest_accepted(seqs@, acked);
            &&& commit.rewind == (if acked < seqs@.len() {
                if acked == 0 {
                    Some(resume_from)
                } else {
                    Some(highest)
                }
            } else {
                None
            })
            &&& commit.persist == (if highest > 0 {
                Some(highest)
            } else {
                None
            })
        }),
{
    let acked: usize = count_accepted(dispositions, seqs.len());
    let highest: i64 = if acked > 0 {
        seqs[acked - 1]
    } else {
        0
    };
    let rewind: Option<i64> = if acked < seqs.len() {
        if acked == 0 {
            Some(resume_from)
        } else {
            Some(highest)
        }
    } else {
        None
    };
    let persist: Option<i64> = if highest > 0 {
        Some(highest)
    } else {
        None
    };
    SeqCommit { rewind, persist }
}

/// Neither where reading goes on nor what is kept ever passes an event that was not
/// accepted: it is read again.
pub proof fn law_cursor_never_passes_an_unaccepted_event(
    seqs: Seq<i64>,
    resume_from: i64,
    d: Seq<DispositionView>,
    i: int,
)
    requires
        0 <= resume_from,
        0 <= i < seqs.len(),
        forall|j: int| 0 <= j < seqs.len() ==> resume_from < #[trigger] seqs[j],
        forall|j: int, k: int| 0 <= j < k < seqs.len() ==> #[trigger] seqs[j] < #[trigger] seqs[k],
        i < d.len() ==> d[i] is Nack,
    ensures
        ({
            let acked = accepted(d, seqs.len() as int);
            &&& acked <= i
            &&& (if acked == 0 {
                resume_from
            } else {
                highest_accepted(seqs, acked)
            }) < seqs[i]
            &&& highest_accepted(seqs, acked) < seqs[i]
        }),
{
    lemma_accepted(d, seqs.len() as int);
    let acked = accepted(d, seqs.len() as int);
    if acked > i {
        assert(!(d[i] is Nack));
    }
    if acked > 0 {
        assert(seqs[acked - 1] < seqs[i]);
    }
}

/// The query for the document that keeps a cursor.
pub open spec fn cursor_filter(collection_name: Seq<char>, cursor_id: Seq<char>) -> Fields {
    seq![("_id"@, BsonView::Text(collection_name + ":cursor:"@ + cursor_id))]
}

/// The update that keeps the position of a cursor.
pub open spec fn cursor_change(last_seq: i64) -> Fields {
    seq![("$set"@, BsonView::Document(seq![("last_seq"@, BsonView::Int64(last_seq))]))]
}

/// The update that keeps the position of a cursor.
pub fn cursor_update(collection_name: &str, cursor_id: &str, last_seq: i64) -> (res: (
    Document,
    Document,
))
    ensures
        res.0@ == seq![
            ("_id"@, BsonView::Text(collection_name@ + ":cursor:"@ + cursor_id@)),
        ],
        res.1@ == seq![
            ("$set"@, BsonView::Document(seq![("last_seq"@, BsonView::Int64(last_seq))])),
        ],
        res.0@ == cursor_filter(collection_name@, cursor_id@),
        res.1@ == cursor_change(last_seq),
{
    let id = namespaced_cursor_id(collection_name, cursor_id);
    let filter = Document::new().then_field("_id", BsonValue::Text(id));
    assert(filter@ =~= seq![
        ("_id"@, BsonView::Text(collection_name@ + ":cursor:"@ + cursor_id@)),
    ]);
    let inner = Document::new().then_field("last_seq", BsonValue::Int64(last_seq));
    assert(inner@ =~= seq![("last_seq"@, BsonView::Int64(last_seq))]);
    let update = Document::new().then_field("$set", BsonValue::Document(inner));
    assert(update@ =~= seq![
        ("$set"@, BsonView::Document(seq![("last_seq"@, BsonView::Int64(last_seq))])),
    ]);
    (filter, update)
}

/// What committing a page of documents does.
#[derive(Debug)]
pub struct PageCommit {
    /// Where reading goes back to, where not all were accepted.
    pub rewind: Option<Option<BsonValue>>,
    /// The text to keep for the cursor.
    pub persist: Option<String>,
    /// How many documents were accepted.
    pub acked: usize,
}

/// The identifier of the last document that was accepted, or where the page began.
pub open spec fn boundary(ids: Seq<BsonView>, resume_from: Option<BsonView>, acked: int) -> Option<
    BsonView,
> {
    if acked == 0 {
        resume_from
    } else {
        Some(ids[acked - 1])
    }
}

/// Commits a page of documents that was read from a position on. What is kept is
/// where reading would go on.
pub fn commit_page(
    ids: &Vec<BsonValue>,
    resume_from: &Option<BsonValue>,
    dispositions: &Vec<MessageDisposition>,
) -> (commit: PageCommit)
    ensures
        ({
            let acked = accepted(disposition_views(dispositions@), ids@.len() as int);
            let at = boundary(values_of(ids@), option_view(*resume_from), acked);
            &&& commit.acked == acked
            &&& match commit.rewind {
                Some(r) => acked < ids@.len() && option_view(r) == at,
                None => acked >= ids@.len(),
            }
            &&& opt(commit.persist) == (match at {
                Some(id) => encoded_id(id),
                None => None,
            })
        }),
{
    let acked: usize = count_accepted(dispositions, ids.len());
    let at = if acked == 0 {
        match resume_from {
            Some(v) => Some(v.copy()),
            None => None,
        }
    } else {
        assert(values_of(ids@)[acked - 1] == ids@[acked - 1]@);
        Some(ids[acked - 1].copy())
    };
    let persist = match &at {
        Some(id) => encode_id(id),
        None => None,
    };
    let rewind = if acked < ids.len() {
        Some(at)
    } else {
        None
    };
    PageCommit { rewind, persist, acked }
}

/// A page of which not everything was accepted is read again from behind the last
/// document that was: the documents before that are exactly the accepted ones.
pub proof fn law_page_is_read_again_from_the_boundary(
    ids: Seq<BsonView>,
    resume_from: Option<BsonView>,
    d: Seq<DispositionView>,
)
    ensures
        ({
            let acked = accepted(d, ids.len() as int);
            &&& 0 <= acked <= ids.len()
            &&& forall|i: int| 0 <= i < acked ==> !(#[trigger] d[i] is Nack)
            &&& acked < ids.len() && acked < d.len() ==> d[acked] is Nack
            &&& acked > 0 ==> boundary(ids, resume_from, acked) == Some(ids[acked - 1])
            &&& acked == 0 ==> boundary(ids, resume_from, acked) == resume_from
        }),
{
    lemma_accepted(d, ids.len() as int);
}

} // verus!
