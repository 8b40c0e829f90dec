//! Consuming from and publishing to methods that a descriptor describes.

use vstd::prelude::*;
use vstd::slice::slice_subrange;

use crate::grpc::descriptors::{
    decode_dynamic_output, decode_output_json, encode_dynamic_input, input_failure, is_reply,
    method_shape, output_failure, shape, DynamicMethod, MethodView,
};
use crate::grpc::receive::batch_size;
use crate::grpc::status::{
    failure_of_status, status_error_text, status_to_publisher_error, GrpcStatusError,
};
use crate::message::{
    copy_bytes, failed_views, message_views, with, CanonicalMessage, ConsumerError, FailureView,
    MessageView, Pairs, PublisherError, ReceiveFailure, SentBatch,
};
use crate::numbers::{decimal, decimal_text};
use crate::status::{plain_status, push_detail, reachable, text_detail, DetailView, EndpointStatus};
use crate::text::join2;
use crate::wire::{be_bytes, be_value, push_be, read_be};

verus! {

/// The SHA-256 digest of bytes.
pub uninterp spec fn sha256_of(data: Seq<u8>) -> Seq<u8>;

/// `sha2::Sha256::digest` gives the digest of bytes, which is thirty-two bytes long.
#[verifier::external_body]
pub(crate) fn sha256(data: &[u8]) -> (digest: Vec<u8>)
    ensures
        digest@ == sha256_of(data@),
        digest@.len() == 32,
{
    <sha2::Sha256 as sha2::Digest>::digest(data).to_vec()
}

/// What the identifier of a response is made from: its service and method, its
/// position in the stream, and its bytes.
pub open spec fn response_seed(
    service: Seq<char>,
    method: Seq<char>,
    index: u64,
    bytes: Seq<u8>,
) -> Seq<u8> {
    vstd::utf8::encode_utf8("mqbridge.dynamic-response.v1"@) + seq![0u8]
        + vstd::utf8::encode_utf8(service) + seq![0u8] + vstd::utf8::encode_utf8(method)
        + seq![0u8] + be_bytes(index as nat, 8) + bytes
}

/// The identifier that a digest makes: its first sixteen bytes.
pub open spec fn id_of_digest(digest: Seq<u8>) -> int {
    be_value(digest.take(16)) as int
}

/// The metadata of a response.
pub open spec fn response_metadata(service: Seq<char>, method: Seq<char>, index: u64) -> Pairs {
    with(
        with(
            with(
                with(Pairs::empty(), "grpc.service"@, service),
                "grpc.method"@,
                method,
            ),
            "grpc.response_index"@,
            decimal(index as nat),
        ),
        "grpc.ack_guarantee"@,
        "none"@,
    )
}

/// Makes the message for a response from its JSON and the digest of its seed.
pub fn response_message(
    service: &str,
    method: &str,
    index: u64,
    digest: &[u8],
    payload: Vec<u8>,
) -> (m: CanonicalMessage)
    requires
        digest@.len() >= 16,
    ensures
        m.payload@ == payload@,
        m.message_id as int == id_of_digest(digest@),
        m.metadata@ == response_metadata(service@, method@, index),
{
    let head = slice_subrange(digest, 0, 16);
    assert(head@ =~= digest@.take(16));
    let id: u128 = read_be(head);
    let number = decimal_text(index as u128);
    CanonicalMessage::new(payload, Some(id)).with_metadata_kv("grpc.service", service)
        .with_metadata_kv("grpc.method", method).with_metadata_kv(
        "grpc.response_index",
        number.as_str(),
    ).with_metadata_kv("grpc.ack_guarantee", "none")
}

fn seed_bytes(service: &str, method: &str, index: u64, bytes: &[u8]) -> (seed: Vec<u8>)
    ensures
        seed@ == response_seed(service@, method@, index, bytes@),
{
    let mut seed: Vec<u8> = Vec::new();
    push_slice(&mut seed, "mqbridge.dynamic-response.v1".as_bytes());
    seed.push(0u8);
    push_slice(&mut seed, service.as_bytes());
    seed.push(0u8);
    push_slice(&mut seed, method.as_bytes());
    seed.push(0u8);
    push_be(&mut seed, index as u128, 8);
    push_slice(&mut seed, bytes);
    assert(seed@ =~= response_seed(service@, method@, index, bytes@));
    seed
}

fn push_slice(out: &mut Vec<u8>, more: &[u8])
    ensures
        final(out)@ == old(out)@ + more@,
{
    let mut copy = copy_bytes(more);
    out.append(&mut copy);
    assert(out@ =~= old(out)@ + more@);
}

/// The response at a position of a stream.
pub open spec fn position_after(start: u64, n: int) -> u64 {
    if start + n > u64::MAX {
        u64::MAX
    } else {
        (start + n) as u64
    }
}

/// Whether `m` is the message for a response at a position.
pub open spec fn is_response(method: MethodView, index: u64, bytes: Seq<u8>, m: MessageView) -> bool {
    &&& method.outputs(bytes) matches Ok(all) && all.contains(m.payload)
    &&& m.message_id as int == id_of_digest(
        sha256_of(response_seed(method.service_name, method.method_name, index, bytes)),
    )
    &&& m.metadata == response_metadata(method.service_name, method.method_name, index)
}

/// The positions before `n` of the responses that read as JSON.
pub open spec fn readable(method: MethodView, raw: Seq<Seq<u8>>, n: int) -> Seq<int>
    decreases n,
{
    if n <= 0 {
        seq![]
    } else {
        let rest = readable(method, raw, n - 1);
        if method.outputs(raw[n - 1]) is Ok {
            rest.push(n - 1)
        } else {
            rest
        }
    }
}

/// Responses over byte sequences.
pub open spec fn raw_views(raw: Seq<Vec<u8>>) -> Seq<Seq<u8>> {
    raw.map_values(|b: Vec<u8>| b@)
}

/// A consumer of the responses of a method.
#[derive(Debug)]
pub struct DynamicConsumer {
    pub method: DynamicMethod,
    pub response_index: u64,
}

impl DynamicConsumer {
    /// A consumer before its first response.
    pub fn new(method: DynamicMethod) -> (c: Self)
        ensures
            c.method == method,
            c.response_index == 0,
    {
        DynamicConsumer { method, response_index: 0 }
    }

    /// Reads a response. It takes its position whether it reads or not, so that the
    /// identifiers of those behind it do not shift.
    pub fn decode_message(&mut self, bytes: &[u8]) -> (res: Result<CanonicalMessage, ConsumerError>)
        ensures
            final(self).method == old(self).method,
            final(self).response_index == position_after(old(self).response_index, 1),
            match res {
                Ok(m) => is_response(
                    old(self).method@,
                    old(self).response_index,
                    bytes@,
                    m@,
                ),
                Err(e) => (old(self).method@.outputs(bytes@) matches Err(all) && exists|
                    decoding: bool,
                    why: Seq<char>,
                | #[trigger]
                    all.contains((decoding, why)) && e@ == ReceiveFailure::Permanent(why)),
            },
    {
        let index: u64 = self.response_index;
        if index < u64::MAX {
            self.response_index = index + 1;
        }
        match decode_output_json(&self.method, bytes) {
            Ok(json) => {
                let seed = seed_bytes(
                    self.method.service_name(),
                    self.method.method_name(),
                    index,
                    bytes,
                );
                let digest = sha256(seed.as_slice());
                Ok(
                    response_message(
                        self.method.service_name(),
                        self.method.method_name(),
                        index,
                        digest.as_slice(),
                        json,
                    ),
                )
            },
            Err((_, why)) => Err(ConsumerError::Permanent(why)),
        }
    }

    /// Reads a batch of responses. One that does not read is left out; a batch of
    /// which nothing reads is a failure, and one without responses is the end.
    pub fn decode_batch(&mut self, raw: Vec<Vec<u8>>) -> (res: Result<
        Vec<CanonicalMessage>,
        ConsumerError,
    >)
        ensures
            final(self).method == old(self).method,
            final(self).response_index == position_after(
                old(self).response_index,
                raw@.len() as int,
            ),
            ({
                let all = raw_views(raw@);
                let good = readable(old(self).method@, all, all.len() as int);
                match res {
                    Ok(messages) => {
                        &&& good.len() > 0
                        &&& messages@.len() == good.len()
                        &&& forall|k: int|
                            0 <= k < messages@.len() ==> is_response(
                                old(self).method@,
                                position_after(old(self).response_index, good[k]),
                                all[good[k]],
                                (#[trigger] messages@[k])@,
                            )
                    },
                    Err(e) => if raw@.len() == 0 {
                        e@ == ReceiveFailure::EndOfStream
                    } else {
                        good.len() == 0 && e@ == ReceiveFailure::Permanent(
                            "every message in the dynamic gRPC batch failed to decode"@,
                        )
                    },
                }
            }),
    {
        if raw.len() == 0 {
            return Err(ConsumerError::EndOfStream);
        }
        let ghost all = raw_views(raw@);
        let ghost method = self.method@;
        let ghost start = self.response_index;
        let mut messages: Vec<CanonicalMessage> = Vec::new();
        let mut i: usize = 0;
        while i < raw.len()
            invariant
                i <= raw@.len(),
                all == raw_views(raw@),
                method == self.method@,
                self.method == old(self).method,
                start == old(self).response_index,
                self.response_index == position_after(start, i as int),
                messages@.len() == readable(method, all, i as int).len(),
                forall|k: int|
                    0 <= k < messages@.len() ==> is_response(
                        method,
                        position_after(start, readable(method, all, i as int)[k]),
                        all[readable(method, all, i as int)[k]],
                        (#[trigger] messages@[k])@,
                    ),
            decreases raw@.len() - i,
        {
            assert(all[i as int] == raw@[i as int]@);
            let ghost before = readable(method, all, i as int);
            match self.decode_message(raw[i].as_slice()) {
                Ok(m) => {
                    messages.push(m);
                },
                Err(_) => {},
            }
            assert(readable(method, all, i + 1) == (if method.outputs(all[i as int]) is Ok {
                before.push(i as int)
            } else {
                before
            }));
            i += 1;
        }
        if messages.len() == 0 {
            return Err(
                ConsumerError::Permanent(
                    "every message in the dynamic gRPC batch failed to decode".to_owned(),
                ),
            );
        }
        Ok(messages)
    }
}

proof fn lemma_readable(method: MethodView, raw: Seq<Seq<u8>>, n: int)
    requires
        0 <= n <= raw.len(),
    ensures
        forall|k: int|
            0 <= k < readable(method, raw, n).len() ==> 0 <= #[trigger] readable(method, raw, n)[k]
                < n,
        forall|a: int, b: int|
            0 <= a < b < readable(method, raw, n).len() ==> #[trigger] readable(method, raw, n)[a]
                < #[trigger] readable(method, raw, n)[b],
    decreases n,
{
    if n > 0 {
        lemma_readable(method, raw, n - 1);
        let rest = readable(method, raw, n - 1);
        let out = readable(method, raw, n);
        assert(forall|k: int| 0 <= k < rest.len() ==> #[trigger] out[k] == rest[k]);
        assert(out.len() > rest.len() ==> out[rest.len() as int] == n - 1);
    }
}

/// The identifier of a response depends on its method, its position in the stream
/// and its bytes alone: it is the same whatever came before it, whether or not that
/// read. A batch keeps the order of the stream.
pub proof fn law_response_ids_follow_positions(
    method: MethodView,
    raw: Seq<Seq<u8>>,
    other: Seq<Seq<u8>>,
    i: int,
    a: MessageView,
    b: MessageView,
    start: u64,
)
    requires
        0 <= i < raw.len(),
        i < other.len(),
        raw[i] == other[i],
        is_response(method, position_after(start, i), raw[i], a),
        is_response(method, position_after(start, i), other[i], b),
    ensures
        a.message_id == b.message_id,
        a.metadata == b.metadata,
        forall|j: int, k: int|
            0 <= j < k < readable(method, raw, raw.len() as int).len() ==> #[trigger] readable(
                method,
                raw,
                raw.len() as int,
            )[j] < #[trigger] readable(method, raw, raw.len() as int)[k],
{
    lemma_readable(method, raw, raw.len() as int);
}

/// How long a receive loop waits on a stream of responses, in nanoseconds.
#[derive(Debug, Clone, Copy, PartialEq, Eq, Structural)]
pub enum StreamWait {
    /// The batch is full.
    Full,
    /// The limit of the whole call has passed.
    Expired,
    /// Wait for the first response.
    First(Option<u128>),
    /// Wait for one more response. Unless the limit of the whole call comes first,
    /// the batch is done when none comes.
    More { limit: u128, ends_batch: bool },
}

/// How long a started batch waits for one more response, in nanoseconds.
pub const POLL_NANOS: u128 = 15_000_000;

/// The smaller of two limits, where both are set.
pub open spec fn sooner(a: Option<u128>, b: Option<u128>) -> Option<u128> {
    match a {
        Some(x) => match b {
            Some(y) => if x <= y {
                Some(x)
            } else {
                Some(y)
            },
            None => Some(x),
        },
        None => b,
    }
}

/// How long to wait with so many responses taken.
pub open spec fn stream_wait(
    taken: usize,
    max: usize,
    idle: Option<u128>,
    remaining: Option<u128>,
) -> StreamWait {
    if taken >= batch_size(max) {
        StreamWait::Full
    } else if remaining == Some(0u128) {
        StreamWait::Expired
    } else if taken == 0 {
        StreamWait::First(sooner(idle, remaining))
    } else {
        let limit = sooner(Some(POLL_NANOS), remaining)->0;
        StreamWait::More { limit, ends_batch: limit == POLL_NANOS }
    }
}

/// How long to wait with so many responses taken.
pub fn next_wait(
    taken: usize,
    max_messages: usize,
    idle: Option<u128>,
    remaining: Option<u128>,
) -> (wait: StreamWait)
    ensures
        wait == stream_wait(taken, max_messages, idle, remaining),
{
    let max: usize = if max_messages < 1 {
        1
    } else {
        max_messages
    };
    if taken >= max {
        return StreamWait::Full;
    }
    if let Some(left) = remaining {
        if left == 0 {
            return StreamWait::Expired;
        }
    }
    if taken == 0 {
        let limit = match idle {
            Some(i) => match remaining {
                Some(left) => if i <= left {
                    Some(i)
                } else {
                    Some(left)
                },
                None => Some(i),
            },
            None => remaining,
        };
        return StreamWait::First(limit);
    }
    let limit: u128 = match remaining {
        Some(left) => if POLL_NANOS <= left {
            POLL_NANOS
        } else {
            left
        },
        None => POLL_NANOS,
    };
    StreamWait::More { limit, ends_batch: limit == POLL_NANOS }
}

/// What waiting on a stream of responses came to.
pub enum StreamEvent {
    Response(Vec<u8>),
    End,
    Refused(GrpcStatusError),
    /// The limit passed, and whether that of the whole call had passed too.
    TimedOut { expired: bool },
    /// A draining consumer found nothing.
    Idle,
}

/// What the receive loop does next.
#[derive(Debug)]
pub enum StreamNext {
    Keep(Vec<u8>),
    Finish,
    Empty,
    Fail(ConsumerError),
}

/// The failure of a call whose limit has passed. It is permanent, for a new call
/// would only start over.
pub fn overall_deadline_exceeded() -> (e: ConsumerError)
    ensures
        e@ == ReceiveFailure::Permanent("dynamic gRPC overall deadline exceeded"@),
{
    ConsumerError::Permanent("dynamic gRPC overall deadline exceeded".to_owned())
}

/// What the receive loop does after a wait. A stream that stays silent may be tried
/// again; a call that lasted too long may not.
pub fn after_wait(wait: StreamWait, event: StreamEvent) -> (next: StreamNext)
    ensures
        match event {
            StreamEvent::Response(b) => next == StreamNext::Keep(b),
            StreamEvent::End => next is Finish,
            StreamEvent::Refused(s) => (next matches StreamNext::Fail(e) && e@
                == ReceiveFailure::Connection(status_error_text(s@))),
            StreamEvent::Idle => next is Empty,
            StreamEvent::TimedOut { expired } => match wait {
                StreamWait::More { limit, ends_batch } => if ends_batch {
                    next is Finish
                } else {
                    next matches StreamNext::Fail(e) && e@ == ReceiveFailure::Permanent(
                        "dynamic gRPC overall deadline exceeded"@,
                    )
                },
                _ => if expired {
                    next matches StreamNext::Fail(e) && e@ == ReceiveFailure::Permanent(
                        "dynamic gRPC overall deadline exceeded"@,
                    )
                } else {
                    next matches StreamNext::Fail(e) && e@ == ReceiveFailure::Connection(
                        "dynamic gRPC response stream idle timeout exceeded"@,
                    )
                },
            },
        },
{
    match event {
        StreamEvent::Response(b) => StreamNext::Keep(b),
        StreamEvent::End => StreamNext::Finish,
        StreamEvent::Refused(s) => StreamNext::Fail(ConsumerError::Connection(s.text())),
        StreamEvent::Idle => StreamNext::Empty,
        StreamEvent::TimedOut { expired } => match wait {
            StreamWait::More { limit, ends_batch } => if ends_batch {
                StreamNext::Finish
            } else {
                StreamNext::Fail(overall_deadline_exceeded())
            },
            _ => if expired {
                StreamNext::Fail(overall_deadline_exceeded())
            } else {
                StreamNext::Fail(
                    ConsumerError::Connection(
                        "dynamic gRPC response stream idle timeout exceeded".to_owned(),
                    ),
                )
            },
        },
    }
}

/// No wait lasts longer than what is left of the call.
pub proof fn law_no_wait_outlasts_the_call(
    taken: usize,
    max: usize,
    idle: Option<u128>,
    left: u128,
)
    ensures
        match stream_wait(taken, max, idle, Some(left)) {
            StreamWait::First(limit) => limit is Some && limit->0 <= left,
            StreamWait::More { limit, ends_batch } => limit <= left,
            _ => true,
        },
        taken < batch_size(max) ==> (stream_wait(taken, max, idle, Some(left)) is Expired
            <==> left == 0),
{
}

/// What making a call came to.
pub enum CallEvent {
    /// The service was not ready. The text says why.
    NotReady(String),
    TimedOut,
    Refused(GrpcStatusError),
    Reply(Vec<u8>),
}

/// The failure of a call that gave no reply.
pub open spec fn call_failure(event: CallEvent) -> FailureView {
    match event {
        CallEvent::NotReady(why) => FailureView::Retryable(
            "dynamic gRPC service was not ready: "@ + why@,
        ),
        CallEvent::TimedOut => FailureView::Retryable("dynamic gRPC call timed out"@),
        CallEvent::Refused(s) => failure_of_status(s@),
        CallEvent::Reply(_) => FailureView::Retryable(seq![]),
    }
}

/// Whether `res` is what a call came to, as a reply under an identifier.
pub open spec fn is_outcome(
    method: MethodView,
    id: Option<u128>,
    event: CallEvent,
    res: Result<CanonicalMessage, PublisherError>,
) -> bool {
    match event {
        CallEvent::Reply(bytes) => match res {
            Ok(m) => is_reply(method, bytes@, id, m@),
            Err(e) => (method.outputs(bytes@) matches Err(all) && exists|
                decoding: bool,
                why: Seq<char>,
            | #[trigger]
                all.contains((decoding, why)) && e@ == output_failure(decoding, why)),
        },
        _ => res matches Err(e) && e@ == call_failure(event),
    }
}

/// What a call came to, as a reply under the identifier of its request.
pub fn call_outcome(method: &DynamicMethod, id: Option<u128>, event: CallEvent) -> (res: Result<
    CanonicalMessage,
    PublisherError,
>)
    ensures
        is_outcome(method@, id, event, res),
{
    match event {
        CallEvent::NotReady(why) => Err(
            PublisherError::Retryable(
                join2("dynamic gRPC service was not ready: ", why.as_str()),
            ),
        ),
        CallEvent::TimedOut => Err(
            PublisherError::Retryable("dynamic gRPC call timed out".to_owned()),
        ),
        CallEvent::Refused(s) => Err(status_to_publisher_error(&s)),
        CallEvent::Reply(bytes) => decode_dynamic_output(method, bytes.as_slice(), id),
    }
}

/// A message and what its call came to.
#[derive(Debug)]
pub struct CallResult {
    pub message: CanonicalMessage,
    pub outcome: Result<CanonicalMessage, PublisherError>,
}

/// The replies among results, in order.
pub open spec fn replies_in(results: Seq<CallResult>) -> Seq<MessageView>
    decreases results.len(),
{
    if results.len() == 0 {
        seq![]
    } else {
        let rest = replies_in(results.drop_last());
        match results.last().outcome {
            Ok(m) => rest.push(m@),
            Err(_) => rest,
        }
    }
}

/// The failed messages among results, in order.
pub open spec fn failures_among(results: Seq<CallResult>) -> Seq<(MessageView, FailureView)>
    decreases results.len(),
{
    if results.len() == 0 {
        seq![]
    } else {
        let rest = failures_among(results.drop_last());
        match results.last().outcome {
            Ok(_) => rest,
            Err(e) => rest.push((results.last().message@, e@)),
        }
    }
}

/// Every message that was called for is answered or failed, and only one of these.
pub proof fn law_every_call_is_accounted_for(results: Seq<CallResult>)
    ensures
        replies_in(results).len() + failures_among(results).len() == results.len(),
    decreases results.len(),
{
    if results.len() > 0 {
        law_every_call_is_accounted_for(results.drop_last());
    }
}

/// The result of a batch that was sent as one call per message.
pub fn unary_batch(results: Vec<CallResult>) -> (batch: SentBatch)
    ensures
        batch matches SentBatch::Partial { responses: Some(replies), failed } && message_views(
            replies@,
        ) == replies_in(results@) && failed_views(failed@) == failures_among(results@),
{
    let mut replies: Vec<CanonicalMessage> = Vec::new();
    let mut failed: Vec<(CanonicalMessage, PublisherError)> = Vec::new();
    let ghost all = results@;
    let mut rest = results;
    let ghost mut n: int = 0;
    assert(message_views(replies@) =~= replies_in(all.take(0)));
    assert(failed_views(failed@) =~= failures_among(all.take(0)));
    while rest.len() > 0
        invariant
            0 <= n <= all.len(),
            rest@ == all.skip(n),
            message_views(replies@) == replies_in(all.take(n)),
            failed_views(failed@) == failures_among(all.take(n)),
        decreases rest@.len(),
    {
        assert(all.take(n + 1).drop_last() =~= all.take(n));
        assert(all.take(n + 1).last() == all[n]);
        assert(rest@[0] == all[n]);
        let result = rest.remove(0);
        assert(all.skip(n).remove(0) =~= all.skip(n + 1));
        let ghost old_replies = replies@;
        let ghost old_failed = failed@;
        match result.outcome {
            Ok(m) => {
                replies.push(m);
                assert(message_views(replies@) =~= message_views(old_replies).push(m@));
            },
            Err(e) => {
                failed.push((result.message, e));
                assert(failed_views(failed@) =~= failed_views(old_failed).push(
                    (result.message@, e@),
                ));
            },
        }
        proof {
            n = n + 1;
        }
    }
    assert(all.take(all.len() as int) =~= all);
    SentBatch::Partial { responses: Some(replies), failed }
}

/// The messages of a batch whose payloads match the input of a method, in order.
pub open spec fn matching(method: MethodView, messages: Seq<MessageView>) -> Seq<MessageView>
    decreases messages.len(),
{
    if messages.len() == 0 {
        seq![]
    } else {
        let rest = matching(method, messages.drop_last());
        if method.inputs(messages.last().payload) is Ok {
            rest.push(messages.last())
        } else {
            rest
        }
    }
}

/// The messages of a batch whose payloads do not match, in order, each with why.
pub open spec fn mismatching(method: MethodView, messages: Seq<MessageView>) -> Seq<
    (MessageView, FailureView),
>
    decreases messages.len(),
{
    if messages.len() == 0 {
        seq![]
    } else {
        let rest = mismatching(method, messages.drop_last());
        match method.inputs(messages.last().payload) {
            Ok(_) => rest,
            Err(why) => rest.push((messages.last(), input_failure(method, why))),
        }
    }
}

/// A batch that goes out as one stream of requests: what is sent, for which
/// messages, and which messages could not be encoded.
#[derive(Debug)]
pub struct StreamPlan {
    pub encoded: Vec<Vec<u8>>,
    pub streamed: Vec<CanonicalMessage>,
    pub failed: Vec<(CanonicalMessage, PublisherError)>,
}

impl StreamPlan {
    /// Whether each message that is sent is encoded as its method allows.
    pub open spec fn encodes(self, method: MethodView) -> bool {
        &&& self.encoded@.len() == self.streamed@.len()
        &&& forall|i: int|
            0 <= i < self.encoded@.len() ==> (method.inputs(
                (#[trigger] self.streamed@[i]).payload@,
            ) matches Ok(all) && all.contains(self.encoded@[i]@))
    }
}

/// Encodes a whole batch before any of it is sent, so that a payload which does not
/// match leaves no half-sent call behind.
pub fn plan_stream(method: &DynamicMethod, messages: Vec<CanonicalMessage>) -> (plan: StreamPlan)
    ensures
        plan.encodes(method@),
        message_views(plan.streamed@) == matching(method@, message_views(messages@)),
        failed_views(plan.failed@) == mismatching(method@, message_views(messages@)),
{
    let mut plan = StreamPlan { encoded: Vec::new(), streamed: Vec::new(), failed: Vec::new() };
    let ghost all = message_views(messages@);
    let mut rest = messages;
    let ghost mut n: int = 0;
    assert(message_views(plan.streamed@) =~= matching(method@, all.take(0)));
    assert(failed_views(plan.failed@) =~= mismatching(method@, all.take(0)));
    while rest.len() > 0
        invariant
            0 <= n <= messages@.len(),
            all == message_views(messages@),
            rest@ == messages@.skip(n),
            plan.encodes(method@),
            message_views(plan.streamed@) == matching(method@, all.take(n)),
            failed_views(plan.failed@) == mismatching(method@, all.take(n)),
        decreases rest@.len(),
    {
        assert(all.take(n + 1).drop_last() =~= all.take(n));
        assert(all.take(n + 1).last() == messages@[n]@);
        assert(rest@[0] == messages@[n]);
        let message = rest.remove(0);
        assert(messages@.skip(n).remove(0) =~= messages@.skip(n + 1));
        let ghost before = plan;
        match encode_dynamic_input(method, message.payload.as_slice()) {
            Ok(bytes) => {
                plan.encoded.push(bytes);
                plan.streamed.push(message);
                assert(message_views(plan.streamed@) =~= message_views(before.streamed@).push(
                    message@,
                ));
            },
            Err(e) => {
                plan.failed.push((message, e));
                assert(failed_views(plan.failed@) =~= failed_views(before.failed@).push(
                    (message@, e@),
                ));
            },
        }
        proof {
            n = n + 1;
        }
    }
    assert(all.take(all.len() as int) =~= all);
    plan
}

/// Every message of a streamed batch is sent or failed, and only one of these.
pub proof fn law_every_streamed_message_is_accounted_for(
    method: MethodView,
    messages: Seq<MessageView>,
)
    ensures
        matching(method, messages).len() + mismatching(method, messages).len() == messages.len(),
    decreases messages.len(),
{
    if messages.len() > 0 {
        law_every_streamed_message_is_accounted_for(method, messages.drop_last());
    }
}

/// The identifier under which the one reply of a streamed batch answers: that of its
/// first message.
pub open spec fn stream_id(streamed: Seq<CanonicalMessage>) -> Option<u128> {
    if streamed.len() > 0 {
        Some(streamed[0].message_id)
    } else {
        None
    }
}

/// The result of a streamed batch. One reply covers all that was sent; a refusal
/// fails all of it, for nobody can say how much the server had consumed.
pub fn finish_stream(method: &DynamicMethod, plan: StreamPlan, event: CallEvent) -> (res: Result<
    SentBatch,
    PublisherError,
>)
    ensures
        if plan.encoded@.len() == 0 {
            res matches Ok(SentBatch::Partial { responses: Some(r), failed }) && r@.len() == 0
                && failed == plan.failed
        } else {
            match event {
                CallEvent::Refused(s) => (res matches Ok(
                    SentBatch::Partial { responses: Some(r), failed },
                ) && r@.len() == 0 && failed_views(failed@) == failed_views(plan.failed@)
                    + message_views(plan.streamed@).map_values(
                    |m: MessageView| (m, failure_of_status(s@)),
                )),
                _ => match res {
                    Ok(batch) => (batch matches SentBatch::Partial {
                        responses: Some(r),
                        failed,
                    } && r@.len() == 1 && is_outcome(
                        method@,
                        stream_id(plan.streamed@),
                        event,
                        Ok(r@[0]),
                    ) && failed == plan.failed),
                    Err(e) => is_outcome(method@, stream_id(plan.streamed@), event, Err(e)),
                },
            }
        },
{
    if plan.encoded.len() == 0 {
        return Ok(SentBatch::Partial { responses: Some(Vec::new()), failed: plan.failed });
    }
    if let CallEvent::Refused(s) = event {
        let mut failed = plan.failed;
        let ghost first = failed_views(failed@);
        let ghost why = failure_of_status(s@);
        let ghost all = message_views(plan.streamed@);
        let ghost pair = |m: MessageView| (m, why);
        let mut rest = plan.streamed;
        let ghost mut n: int = 0;
        assert(failed_views(failed@) =~= first + all.take(0).map_values(pair));
        while rest.len() > 0
            invariant
                0 <= n <= plan.streamed@.len(),
                all == message_views(plan.streamed@),
                rest@ == plan.streamed@.skip(n),
                why == failure_of_status(s@),
                pair == (|m: MessageView| (m, why)),
                failed_views(failed@) == first + all.take(n).map_values(pair),
            decreases rest@.len(),
        {
            assert(rest@[0] == plan.streamed@[n]);
            let sent = rest.remove(0);
            assert(plan.streamed@.skip(n).remove(0) =~= plan.streamed@.skip(n + 1));
            let ghost before = failed@;
            failed.push((sent, status_to_publisher_error(&s)));
            assert(failed_views(failed@) =~= failed_views(before).push((sent@, why)));
            assert(all.take(n + 1).map_values(pair) =~= all.take(n).map_values(pair).push(
                (sent@, why),
            ));
            assert(failed_views(failed@) =~= first + all.take(n + 1).map_values(pair));
            proof {
                n = n + 1;
            }
        }
        assert(all.take(all.len() as int) =~= all);
        return Ok(SentBatch::Partial { responses: Some(Vec::new()), failed });
    }
    let id: Option<u128> = if plan.streamed.len() > 0 {
        Some(plan.streamed[0].message_id)
    } else {
        None
    };
    match call_outcome(method, id, event) {
        Ok(reply) => {
            let mut replies: Vec<CanonicalMessage> = Vec::new();
            replies.push(reply);
            Ok(SentBatch::Partial { responses: Some(replies), failed: plan.failed })
        },
        Err(e) => Err(e),
    }
}

/// What a dynamic batch comes to without any call.
pub fn batch_without_call(messages: &Vec<CanonicalMessage>) -> (res: Option<SentBatch>)
    ensures
        res == (if messages@.len() == 0 {
            Some(SentBatch::Ack)
        } else {
            None
        }),
{
    if messages.len() == 0 {
        Some(SentBatch::Ack)
    } else {
        None
    }
}

/// The failure of a dynamic batch that lasted too long.
pub fn dynamic_batch_timed_out() -> (e: PublisherError)
    ensures
        e@ == FailureView::Retryable("dynamic gRPC batch timed out"@),
{
    PublisherError::Retryable("dynamic gRPC batch timed out".to_owned())
}

/// How far an acknowledgement of a method reaches: one reply covers a whole batch
/// where requests are streamed.
pub fn acknowledgement_guarantee(method: &DynamicMethod) -> (text: &'static str)
    ensures
        text@ == (if method@.client_streaming {
            "batch"@
        } else {
            "per-message"@
        }),
{
    if method.is_client_streaming() {
        "batch"
    } else {
        "per-message"
    }
}

/// What a publisher that calls a method reports.
pub fn dynamic_publisher_status(method: &DynamicMethod) -> (s: EndpointStatus)
    ensures
        s@ == plain_status(
            Seq::empty(),
            None,
            seq![
                ("mode"@, DetailView::Text("dynamic-client"@)),
                ("service"@, DetailView::Text(method@.service_name)),
                ("method"@, DetailView::Text(method@.method_name)),
                ("shape"@, DetailView::Text(shape(method@.client_streaming, method@.server_streaming))),
                (
                    "acknowledgement_guarantee"@,
                    DetailView::Text(
                        if method@.client_streaming {
                            "batch"@
                        } else {
                            "per-message"@
                        },
                    ),
                ),
            ],
        ),
{
    proof {
        reveal_strlit("");
    }
    let mut s = reachable("");
    push_detail(&mut s.details, "mode", text_detail("dynamic-client"));
    push_detail(&mut s.details, "service", text_detail(method.service_name()));
    push_detail(&mut s.details, "method", text_detail(method.method_name()));
    push_detail(&mut s.details, "shape", text_detail(method_shape(method)));
    push_detail(
        &mut s.details,
        "acknowledgement_guarantee",
        text_detail(acknowledgement_guarantee(method)),
    );
    s
}

} // verus!
