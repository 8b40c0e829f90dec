//! Publishing batches over the Bridge protocol.

use vstd::prelude::*;

use crate::grpc::bridge::{
    bridge_to_canonical, canonical_to_bridge, from_wire, to_wire, BridgeMessage, PublishResponse,
    ResponseView,
};
use crate::ids::{format_id, uuid_text};
use crate::message::{
    batch_of, failed_views, make_batch, message_views, BatchView, CanonicalMessage, FailureView,
    MessageView, PublisherError, SentBatch,
};
use crate::names::NameSet;
use crate::text::{join2, same};

verus! {

/// A batch on its way: what was sent, and what the answers said so far.
#[derive(Debug)]
pub struct BatchReplies {
    pub originals: Vec<CanonicalMessage>,
    pub responses: Vec<CanonicalMessage>,
    pub failed: Vec<(CanonicalMessage, PublisherError)>,
    pub seen: NameSet,
}

/// The messages of a batch under an identifier, in order.
pub open spec fn under_id(originals: Seq<MessageView>, id: Seq<char>) -> Seq<MessageView>
    decreases originals.len(),
{
    if originals.len() == 0 {
        seq![]
    } else {
        let rest = under_id(originals.drop_last(), id);
        if uuid_text(originals.last().message_id) == id {
            rest.push(originals.last())
        } else {
            rest
        }
    }
}

/// Messages that all failed for one reason.
pub open spec fn all_failed(messages: Seq<MessageView>, why: FailureView) -> Seq<
    (MessageView, FailureView),
> {
    messages.map_values(|m: MessageView| (m, why))
}

/// The messages of a batch that were not answered, in order.
pub open spec fn unanswered(originals: Seq<MessageView>, seen: Set<Seq<char>>) -> Seq<MessageView>
    decreases originals.len(),
{
    if originals.len() == 0 {
        seq![]
    } else {
        let rest = unanswered(originals.drop_last(), seen);
        if seen.contains(uuid_text(originals.last().message_id)) {
            rest
        } else {
            rest.push(originals.last())
        }
    }
}

/// The failure that ends a batch for an answer, where it does: an error, or a
/// negative acknowledgement of a message that was not in the batch.
pub open spec fn batch_error(originals: Seq<MessageView>, r: ResponseView) -> Option<FailureView> {
    match r {
        ResponseView::Ack(a) => if a.status != 0 && under_id(originals, a.id).len() == 0 {
            Some(FailureView::Retryable(a.reason))
        } else {
            None
        },
        ResponseView::Error(e) => Some(FailureView::Retryable(e)),
        _ => None,
    }
}

/// The identifiers that are answered once an answer came.
pub open spec fn seen_after(seen: Set<Seq<char>>, r: ResponseView) -> Set<Seq<char>> {
    match r {
        ResponseView::Ack(a) => seen.insert(a.id),
        ResponseView::Reply(m) => seen.insert(m.id),
        _ => seen,
    }
}

/// The messages that failed once an answer came.
pub open spec fn failed_after(
    originals: Seq<MessageView>,
    failed: Seq<(MessageView, FailureView)>,
    r: ResponseView,
) -> Seq<(MessageView, FailureView)> {
    match r {
        ResponseView::Ack(a) => if a.status != 0 {
            failed + all_failed(under_id(originals, a.id), FailureView::Retryable(a.reason))
        } else {
            failed
        },
        _ => failed,
    }
}

/// What a batch came to once its answers ended.
pub open spec fn batch_result(
    originals: Seq<MessageView>,
    responses: Seq<MessageView>,
    failed: Seq<(MessageView, FailureView)>,
    seen: Set<Seq<char>>,
) -> Result<BatchView, FailureView> {
    let all = failed + all_failed(
        unanswered(originals, seen),
        FailureView::Retryable("missing response for id"@),
    );
    if all.len() == 0 && responses.len() == 0 {
        Ok(BatchView::Ack)
    } else if all.len() == originals.len() {
        Err(FailureView::Retryable("All messages in batch failed"@))
    } else {
        Ok(batch_of(responses, all))
    }
}

proof fn lemma_unanswered(originals: Seq<MessageView>, seen: Set<Seq<char>>)
    ensures
        unanswered(originals, seen).len() <= originals.len(),
        forall|i: int|
            0 <= i < originals.len() && !seen.contains(
                uuid_text((#[trigger] originals[i]).message_id),
            ) ==> unanswered(originals, seen).contains(originals[i]),
        forall|i: int|
            0 <= i < unanswered(originals, seen).len() ==> !seen.contains(
                uuid_text((#[trigger] unanswered(originals, seen)[i]).message_id),
            ),
    decreases originals.len(),
{
    if originals.len() > 0 {
        let front = originals.drop_last();
        lemma_unanswered(front, seen);
        let rest = unanswered(front, seen);
        let out = unanswered(originals, seen);
        assert forall|i: int|
            0 <= i < originals.len() && !seen.contains(
                uuid_text((#[trigger] originals[i]).message_id),
            ) implies out.contains(originals[i]) by {
            if i < front.len() {
                assert(front[i] == originals[i]);
                let w = choose|w: int| 0 <= w < rest.len() && rest[w] == originals[i];
                assert(out[w] == originals[i]);
            } else {
                assert(out[out.len() - 1] == originals[i]);
            }
        }
    }
}

/// A message that was never answered counts as failed: where a batch ends with a
/// result at all, the result names it.
pub proof fn law_unanswered_message_fails(
    originals: Seq<MessageView>,
    responses: Seq<MessageView>,
    failed: Seq<(MessageView, FailureView)>,
    seen: Set<Seq<char>>,
    i: int,
)
    requires
        0 <= i < originals.len(),
        !seen.contains(uuid_text(originals[i].message_id)),
    ensures
        match batch_result(originals, responses, failed, seen) {
            Ok(batch) => (batch matches BatchView::Partial { failed, .. } && failed.contains(
                (originals[i], FailureView::Retryable("missing response for id"@)),
            )),
            Err(e) => e == FailureView::Retryable("All messages in batch failed"@),
        },
{
    lemma_unanswered(originals, seen);
    let why = FailureView::Retryable("missing response for id"@);
    let missing = unanswered(originals, seen);
    let w = choose|w: int| 0 <= w < missing.len() && missing[w] == originals[i];
    let all = failed + all_failed(missing, why);
    assert(all[failed.len() + w] == (originals[i], why));
}

/// A batch whose messages were all acknowledged is acknowledged.
pub proof fn law_acknowledged_batch_is_acknowledged(
    originals: Seq<MessageView>,
    seen: Set<Seq<char>>,
)
    requires
        forall|i: int|
            0 <= i < originals.len() ==> seen.contains(
                uuid_text((#[trigger] originals[i]).message_id),
            ),
    ensures
        batch_result(originals, seq![], seq![], seen) == Ok::<BatchView, FailureView>(
            BatchView::Ack,
        ),
{
    lemma_all_answered(originals, seen);
}

proof fn lemma_all_answered(originals: Seq<MessageView>, seen: Set<Seq<char>>)
    requires
        forall|i: int|
            0 <= i < originals.len() ==> seen.contains(
                uuid_text((#[trigger] originals[i]).message_id),
            ),
    ensures
        unanswered(originals, seen).len() == 0,
    decreases originals.len(),
{
    if originals.len() > 0 {
        assert(originals.last() == originals[originals.len() - 1]);
        let front = originals.drop_last();
        assert(forall|i: int| 0 <= i < front.len() ==> #[trigger] front[i] == originals[i]);
        lemma_all_answered(front, seen);
    }
}

/// The messages of a batch as they go on the wire.
pub fn batch_to_wire(originals: &Vec<CanonicalMessage>, topic: &str) -> (out: Vec<BridgeMessage>)
    ensures
        out@.len() == originals@.len(),
        forall|i: int|
            0 <= i < out@.len() ==> (#[trigger] out@[i])@ == to_wire(
                originals@[i]@,
                Some(topic@),
            ),
{
    let mut out: Vec<BridgeMessage> = Vec::new();
    let mut i: usize = 0;
    while i < originals.len()
        invariant
            i <= originals@.len(),
            out@.len() == i,
            forall|k: int|
                0 <= k < i ==> (#[trigger] out@[k])@ == to_wire(originals@[k]@, Some(topic@)),
        decreases originals@.len() - i,
    {
        out.push(canonical_to_bridge(originals[i].copy(), Some(topic)));
        i += 1;
    }
    out
}

impl BatchReplies {
    /// Whether no identifier counts as answered twice.
    pub open spec fn wf(self) -> bool {
        self.seen.wf()
    }

    /// A batch without answers.
    pub fn new(originals: Vec<CanonicalMessage>) -> (b: Self)
        ensures
            b.wf(),
            b.originals == originals,
            message_views(b.responses@) == Seq::<MessageView>::empty(),
            failed_views(b.failed@) == Seq::<(MessageView, FailureView)>::empty(),
            b.seen@ == Set::<Seq<char>>::empty(),
    {
        let b = BatchReplies {
            originals,
            responses: Vec::new(),
            failed: Vec::new(),
            seen: NameSet::new(),
        };
        assert(message_views(b.responses@) =~= Seq::<MessageView>::empty());
        assert(failed_views(b.failed@) =~= Seq::<(MessageView, FailureView)>::empty());
        b
    }

    /// Fails every message of the batch under an identifier, and says whether there
    /// was one.
    fn fail_under(&mut self, id: &str, reason: &str) -> (any: bool)
        requires
            old(self).wf(),
        ensures
            final(self).wf(),
            final(self).originals == old(self).originals,
            final(self).responses == old(self).responses,
            final(self).seen == old(self).seen,
            failed_views(final(self).failed@) == failed_views(old(self).failed@) + all_failed(
                under_id(message_views(old(self).originals@), id@),
                FailureView::Retryable(reason@),
            ),
            any == (under_id(message_views(old(self).originals@), id@).len() > 0),
    {
        let ghost all = message_views(self.originals@);
        let ghost why = FailureView::Retryable(reason@);
        let ghost first = failed_views(self.failed@);
        let mut i: usize = 0;
        let mut any: bool = false;
        assert(failed_views(self.failed@) =~= first + all_failed(under_id(all.take(0), id@), why));
        while i < self.originals.len()
            invariant
                i <= self.originals@.len(),
                self.wf(),
                self.originals == old(self).originals,
                self.responses == old(self).responses,
                self.seen == old(self).seen,
                all == message_views(self.originals@),
                why == FailureView::Retryable(reason@),
                failed_views(self.failed@) == first + all_failed(
                    under_id(all.take(i as int), id@),
                    why,
                ),
                any == (under_id(all.take(i as int), id@).len() > 0),
            decreases self.originals@.len() - i,
        {
            assert(all.take(i + 1).drop_last() =~= all.take(i as int));
            assert(all.take(i + 1).last() == self.originals@[i as int]@);
            let text = format_id(self.originals[i].message_id);
            if same(text.as_str(), id) {
                let ghost before = self.failed@;
                let ghost rest = under_id(all.take(i as int), id@);
                let m = self.originals[i].copy();
                self.failed.push((m, PublisherError::Retryable(reason.to_owned())));
                assert(failed_views(self.failed@) =~= failed_views(before).push(
                    (self.originals@[i as int]@, why),
                ));
                assert(all_failed(rest.push(self.originals@[i as int]@), why) =~= all_failed(
                    rest,
                    why,
                ).push((self.originals@[i as int]@, why)));
                assert(failed_views(self.failed@) =~= first + all_failed(
                    under_id(all.take(i + 1), id@),
                    why,
                ));
                any = true;
            }
            i += 1;
        }
        assert(all.take(all.len() as int) =~= all);
        any
    }

    /// Takes one answer in, or ends the batch with a failure.
    pub fn on_response(&mut self, response: PublishResponse) -> (res: Result<(), PublisherError>)
        requires
            old(self).wf(),
        ensures
            final(self).wf(),
            final(self).originals == old(self).originals,
            final(self).seen@ == seen_after(old(self).seen@, response@),
            match res {
                Ok(_) => {
                    let originals = message_views(old(self).originals@);
                    &&& batch_error(originals, response@) is None
                    &&& failed_views(final(self).failed@) == failed_after(
                        originals,
                        failed_views(old(self).failed@),
                        response@,
                    )
                    &&& match response@ {
                        ResponseView::Reply(m) => {
                            &&& final(self).responses@.len() == old(self).responses@.len() + 1
                            &&& final(self).responses@.drop_last() == old(self).responses@
                            &&& from_wire(m, final(self).responses@.last()@)
                        },
                        _ => final(self).responses == old(self).responses,
                    }
                },
                Err(e) => batch_error(message_views(old(self).originals@), response@) == Some(e@),
            },
    {
        match response {
            PublishResponse::Ack(ack) => {
                self.seen.insert(ack.id.as_str());
                if ack.status != 0 {
                    if !self.fail_under(ack.id.as_str(), ack.reason.as_str()) {
                        return Err(PublisherError::Retryable(ack.reason));
                    }
                }
                Ok(())
            },
            PublishResponse::Reply(reply) => {
                self.seen.insert(reply.id.as_str());
                let m = bridge_to_canonical(reply);
                self.responses.push(m);
                assert(self.responses@.drop_last() =~= old(self).responses@);
                Ok(())
            },
            PublishResponse::Error(text) => Err(PublisherError::Retryable(text)),
            PublishResponse::Empty => Ok(()),
        }
    }

    /// What the batch came to once its answers ended.
    pub fn finish(self) -> (res: Result<SentBatch, PublisherError>)
        requires
            self.wf(),
        ensures
            match res {
                Ok(batch) => Ok(batch@),
                Err(e) => Err(e@),
            } == batch_result(
                message_views(self.originals@),
                message_views(self.responses@),
                failed_views(self.failed@),
                self.seen@,
            ),
    {
        let ghost all = message_views(self.originals@);
        let ghost why = FailureView::Retryable("missing response for id"@);
        let ghost first = failed_views(self.failed@);
        let mut failed = self.failed;
        let mut i: usize = 0;
        assert(failed_views(failed@) =~= first + all_failed(
            unanswered(all.take(0), self.seen@),
            why,
        ));
        while i < self.originals.len()
            invariant
                i <= self.originals@.len(),
                all == message_views(self.originals@),
                why == FailureView::Retryable("missing response for id"@),
                failed_views(failed@) == first + all_failed(
                    unanswered(all.take(i as int), self.seen@),
                    why,
                ),
            decreases self.originals@.len() - i,
        {
            assert(all.take(i + 1).drop_last() =~= all.take(i as int));
            assert(all.take(i + 1).last() == self.originals@[i as int]@);
            let text = format_id(self.originals[i].message_id);
            if !self.seen.contains(text.as_str()) {
                let ghost before = failed@;
                let ghost rest = unanswered(all.take(i as int), self.seen@);
                let m = self.originals[i].copy();
                failed.push(
                    (m, PublisherError::Retryable("missing response for id".to_owned())),
                );
                assert(failed_views(failed@) =~= failed_views(before).push(
                    (self.originals@[i as int]@, why),
                ));
                assert(all_failed(rest.push(self.originals@[i as int]@), why) =~= all_failed(
                    rest,
                    why,
                ).push((self.originals@[i as int]@, why)));
                assert(failed_views(failed@) =~= first + all_failed(
                    unanswered(all.take(i + 1), self.seen@),
                    why,
                ));
            }
            i += 1;
        }
        assert(all.take(all.len() as int) =~= all);
        if failed.len() == 0 && self.responses.len() == 0 {
            return Ok(SentBatch::Ack);
        }
        if failed.len() == self.originals.len() {
            return Err(PublisherError::Retryable("All messages in batch failed".to_owned()));
        }
        Ok(make_batch(self.responses, failed))
    }
}

/// How reading the answers of a batch can fail.
#[derive(Debug)]
pub enum PublishFailure {
    /// The call was not set up within its limit.
    SetupTimedOut,
    /// The call was refused. The text describes the status.
    Refused(String),
    /// The answers broke off. The text describes the status.
    StreamBroke(String),
    /// The answers did not end within the limit of the batch.
    BatchTimedOut,
}

/// The publish failure for a batch whose answers could not be read. Each may pass by
/// itself.
pub open spec fn publish_failure_text(f: PublishFailure) -> Seq<char> {
    match f {
        PublishFailure::SetupTimedOut => "gRPC publish request timed out"@,
        PublishFailure::Refused(s) => "gRPC publish_batch error: "@ + s@,
        PublishFailure::StreamBroke(s) => "gRPC stream error: "@ + s@,
        PublishFailure::BatchTimedOut => "gRPC publish batch timed out"@,
    }
}

/// The publish failure for a batch whose answers could not be read.
pub fn publish_failure(f: PublishFailure) -> (e: PublisherError)
    ensures
        e@ == FailureView::Retryable(publish_failure_text(f)),
{
    let text = match f {
        PublishFailure::SetupTimedOut => "gRPC publish request timed out".to_owned(),
        PublishFailure::Refused(s) => join2(
            "gRPC publish_batch error: ",
            s.as_str(),
        ),
        PublishFailure::StreamBroke(s) => join2("gRPC stream error: ", s.as_str()),
        PublishFailure::BatchTimedOut => "gRPC publish batch timed out".to_owned(),
    };
    PublisherError::Retryable(text)
}

} // verus!
