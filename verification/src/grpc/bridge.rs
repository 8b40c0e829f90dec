//! The messages of the Bridge protocol.

use vstd::prelude::*;

use crate::ids::{
    bridge_id, bridge_id_from_parsed, format_id, is_v7, parse_uuid, parsed_uuid, uuid_text,
};
use crate::message::{
    copy_bytes, drop_prefixed, law_drop_prefixed, law_reads_give_back_writes, lookup, with_default,
    CanonicalMessage, DispositionView, MessageDisposition, MessageView, Metadata, Pairs,
    SOURCE_PREFIX,
};
use crate::numbers::{decimal, decimal_text};
use crate::text::{join2, join3, starts_with, text_of_option};

verus! {

/// The metadata name under which a Bridge message carries its topic.
pub const TOPIC_KEY: &'static str = "mq_bridge.topic";

/// The metadata name under which an acknowledgement carries its consumer.
pub const CONSUMER_KEY: &'static str = "mq_bridge.consumer_id";

/// The status of a positive acknowledgement on the wire.
pub const STATUS_ACK: i32 = 0;

/// The status of a negative acknowledgement on the wire.
pub const STATUS_NACK: i32 = 1;

/// A message on the wire.
#[derive(Debug)]
pub struct BridgeMessage {
    pub payload: Vec<u8>,
    pub id: String,
    pub metadata: Metadata,
}

/// A message on the wire over mathematical values.
pub struct BridgeView {
    pub payload: Seq<u8>,
    pub id: Seq<char>,
    pub metadata: Pairs,
}

impl View for BridgeMessage {
    type V = BridgeView;

    open spec fn view(&self) -> BridgeView {
        BridgeView { payload: self.payload@, id: self.id@, metadata: self.metadata@ }
    }
}

impl BridgeMessage {
    /// The same message again.
    pub fn copy(&self) -> (m: BridgeMessage)
        ensures
            m@ == self@,
    {
        BridgeMessage {
            payload: copy_bytes(self.payload.as_slice()),
            id: self.id.clone(),
            metadata: self.metadata.copy(),
        }
    }
}

/// Messages on the wire over mathematical values.
pub open spec fn bridge_views(messages: Seq<BridgeMessage>) -> Seq<BridgeView> {
    messages.map_values(|m: BridgeMessage| m@)
}

/// An acknowledgement on the wire.
#[derive(Debug)]
pub struct Ack {
    pub id: String,
    pub status: i32,
    pub reason: String,
    pub metadata: Metadata,
}

/// An acknowledgement over mathematical values.
pub struct AckView {
    pub id: Seq<char>,
    pub status: i32,
    pub reason: Seq<char>,
    pub metadata: Pairs,
}

impl View for Ack {
    type V = AckView;

    open spec fn view(&self) -> AckView {
        AckView {
            id: self.id@,
            status: self.status,
            reason: self.reason@,
            metadata: self.metadata@,
        }
    }
}

/// The answer to one published message.
#[derive(Debug)]
pub enum PublishResponse {
    Ack(Ack),
    Reply(BridgeMessage),
    Error(String),
    /// An answer without content.
    Empty,
}

/// The answer to one published message over mathematical values.
pub enum ResponseView {
    Ack(AckView),
    Reply(BridgeView),
    Error(Seq<char>),
    Empty,
}

impl View for PublishResponse {
    type V = ResponseView;

    open spec fn view(&self) -> ResponseView {
        match self {
            PublishResponse::Ack(a) => ResponseView::Ack(a@),
            PublishResponse::Reply(m) => ResponseView::Reply(m@),
            PublishResponse::Error(e) => ResponseView::Error(e@),
            PublishResponse::Empty => ResponseView::Empty,
        }
    }
}

/// A message as it goes on the wire. Metadata that says where it was read from is
/// left out, and the topic is named unless the message names one itself.
pub open spec fn to_wire(m: MessageView, topic: Option<Seq<char>>) -> BridgeView {
    let kept = drop_prefixed(m.metadata, SOURCE_PREFIX@);
    BridgeView {
        payload: m.payload,
        id: uuid_text(m.message_id),
        metadata: match topic {
            Some(t) => with_default(kept, TOPIC_KEY@, t),
            None => kept,
        },
    }
}

/// Puts a message into the form that goes on the wire.
pub fn canonical_to_bridge(message: CanonicalMessage, topic: Option<&str>) -> (out: BridgeMessage)
    ensures
        out@ == to_wire(message@, text_of_option(topic)),
        parsed_uuid(out.id@) == Some(message.message_id),
{
    let mut metadata = message.metadata.without_prefix(SOURCE_PREFIX);
    if let Some(t) = topic {
        metadata.put_default(TOPIC_KEY, t);
    }
    BridgeMessage { payload: message.payload, id: format_id(message.message_id), metadata }
}

/// Reads a message off the wire, given what its identifier reads as in the usual
/// forms. A message without a readable identifier gets a fresh one.
pub fn bridge_from_parsed(msg: BridgeMessage, uuid: Option<u128>) -> (out: CanonicalMessage)
    ensures
        out.payload@ == msg.payload@,
        out.metadata@ == msg.metadata@,
        match bridge_id(msg.id@, uuid) {
            Some(id) => out.message_id as int == id,
            None => is_v7(out.message_id),
        },
{
    let id: Option<u128> = bridge_id_from_parsed(msg.id.as_str(), uuid);
    let m = CanonicalMessage::new(msg.payload, id);
    CanonicalMessage { message_id: m.message_id, payload: m.payload, metadata: msg.metadata }
}

/// Reads a message off the wire. A message without a readable identifier gets a
/// fresh one.
pub fn bridge_to_canonical(msg: BridgeMessage) -> (out: CanonicalMessage)
    ensures
        from_wire(msg@, out@),
{
    let uuid: Option<u128> = parse_uuid(msg.id.as_str());
    bridge_from_parsed(msg, uuid)
}

/// Whether `out` is what a message on the wire reads as: the same payload and
/// metadata, and the identifier, or a fresh one where it is not readable.
pub open spec fn from_wire(msg: BridgeView, out: MessageView) -> bool {
    let id = bridge_id(msg.id, parsed_uuid(msg.id));
    &&& out.payload == msg.payload
    &&& out.metadata == msg.metadata
    &&& match id {
        Some(n) => out.message_id as int == n,
        None => is_v7(out.message_id),
    }
}

/// A positive or negative acknowledgement without metadata.
pub open spec fn plain_ack(id: Seq<char>, status: i32, reason: Seq<char>) -> ResponseView {
    ResponseView::Ack(AckView { id, status, reason, metadata: Pairs::empty() })
}

/// The answer to a published message for what became of it. A reply answers under
/// the identifier of the request.
pub open spec fn response_for(id: Seq<char>, disposition: DispositionView) -> ResponseView {
    match disposition {
        DispositionView::Reply(m) => ResponseView::Reply(
            BridgeView { id, ..to_wire(m, None) },
        ),
        DispositionView::Ack => plain_ack(id, STATUS_ACK, ""@),
        DispositionView::Nack => plain_ack(id, STATUS_NACK, "Downstream processing failed"@),
    }
}

/// Answers a published message for what became of it.
pub fn publish_response_for_disposition(id: String, disposition: MessageDisposition) -> (res:
    PublishResponse)
    ensures
        res@ == response_for(id@, disposition@),
{
    match disposition {
        MessageDisposition::Reply(message) => {
            let reply = canonical_to_bridge(message, None);
            PublishResponse::Reply(
                BridgeMessage { payload: reply.payload, id, metadata: reply.metadata },
            )
        },
        MessageDisposition::Ack => PublishResponse::Ack(
            Ack { id, status: STATUS_ACK, reason: "".to_owned(), metadata: Metadata::new() },
        ),
        MessageDisposition::Nack => PublishResponse::Ack(
            Ack {
                id,
                status: STATUS_NACK,
                reason: "Downstream processing failed".to_owned(),
                metadata: Metadata::new(),
            },
        ),
    }
}

/// What waiting for a commit came to: the route's disposition, a limit that passed,
/// or a route that went away.
#[derive(Debug)]
pub enum Receipt {
    Committed(MessageDisposition),
    TimedOut,
    Dropped,
}

/// The disposition that counts for a receipt: a message that was not confirmed
/// committed counts as refused.
pub open spec fn receipt_disposition(receipt: Receipt) -> DispositionView {
    match receipt {
        Receipt::Committed(d) => d@,
        _ => DispositionView::Nack,
    }
}

/// Takes the disposition out of a receipt.
pub fn await_disposition(receipt: Receipt) -> (d: MessageDisposition)
    ensures
        d@ == receipt_disposition(receipt),
{
    match receipt {
        Receipt::Committed(d) => d,
        Receipt::TimedOut => MessageDisposition::Nack,
        Receipt::Dropped => MessageDisposition::Nack,
    }
}

/// Answers one message that was published: refused where it reached no consumer,
/// else as its receipt says.
pub fn answer_publish(id: String, receipt: Option<Receipt>) -> (res: PublishResponse)
    ensures
        res@ == (match receipt {
            Some(r) => response_for(id@, receipt_disposition(r)),
            None => plain_ack(id@, STATUS_NACK, "Internal queue closed"@),
        }),
{
    match receipt {
        Some(r) => publish_response_for_disposition(id, await_disposition(r)),
        None => PublishResponse::Ack(
            Ack {
                id,
                status: STATUS_NACK,
                reason: "Internal queue closed".to_owned(),
                metadata: Metadata::new(),
            },
        ),
    }
}

/// Dispositions over mathematical values.
pub open spec fn disposition_views(d: Seq<MessageDisposition>) -> Seq<DispositionView> {
    d.map_values(|m: MessageDisposition| m@)
}

/// The acknowledgement that a client sends for one message of a batch. Only a
/// refused message is acknowledged negatively.
pub open spec fn client_ack(
    consumer_id: Seq<char>,
    id: Seq<char>,
    disposition: DispositionView,
) -> AckView {
    AckView {
        id,
        status: if disposition is Nack {
            STATUS_NACK
        } else {
            STATUS_ACK
        },
        reason: ""@,
        metadata: seq![(CONSUMER_KEY@, consumer_id)],
    }
}

/// Why a commit with a wrong number of dispositions is refused.
pub open spec fn commit_mismatch(head: Seq<char>, dispositions: nat, messages: nat) -> Seq<char> {
    head + decimal(dispositions) + ", messages="@ + decimal(
        messages,
    )
}

fn mismatch_text(head: &str, dispositions: usize, messages: usize) -> (text: String)
    ensures
        text@ == commit_mismatch(head@, dispositions as nat, messages as nat),
{
    let a = decimal_text(dispositions as u128);
    let b = decimal_text(messages as u128);
    let left = join2(head, a.as_str());
    join3(left.as_str(), ", messages=", b.as_str())
}

/// The acknowledgements that commit a batch of a client subscription: one for each
/// message, in order.
pub fn plan_client_commit(
    consumer_id: &str,
    message_ids: Vec<String>,
    dispositions: Vec<MessageDisposition>,
) -> (res: Result<Vec<Ack>, String>)
    ensures
        match res {
            Ok(acks) => {
                &&& dispositions@.len() == message_ids@.len()
                &&& acks@.len() == message_ids@.len()
                &&& forall|i: int|
                    0 <= i < acks@.len() ==> (#[trigger] acks@[i])@ == client_ack(
                        consumer_id@,
                        message_ids@[i]@,
                        dispositions@[i]@,
                    )
            },
            Err(e) => {
                &&& dispositions@.len() != message_ids@.len()
                &&& e@ == commit_mismatch(
                    "gRPC batch commit length mismatch: dispositions="@,
                    dispositions@.len(),
                    message_ids@.len(),
                )
            },
        },
{
    if dispositions.len() != message_ids.len() {
        return Err(
            mismatch_text(
                "gRPC batch commit length mismatch: dispositions=",
                dispositions.len(),
                message_ids.len(),
            ),
        );
    }
    let mut acks: Vec<Ack> = Vec::new();
    let mut i: usize = 0;
    while i < message_ids.len()
        invariant
            i <= message_ids@.len(),
            dispositions@.len() == message_ids@.len(),
            acks@.len() == i,
            forall|k: int|
                0 <= k < i ==> (#[trigger] acks@[k])@ == client_ack(
                    consumer_id@,
                    message_ids@[k]@,
                    dispositions@[k]@,
                ),
        decreases message_ids@.len() - i,
    {
        let status: i32 = match &dispositions[i] {
            MessageDisposition::Nack => STATUS_NACK,
            MessageDisposition::Ack => STATUS_ACK,
            MessageDisposition::Reply(_) => STATUS_ACK,
        };
        let mut metadata = Metadata::new();
        metadata.put(CONSUMER_KEY, consumer_id);
        assert(metadata@ =~= seq![(CONSUMER_KEY@, consumer_id@)]);
        acks.push(Ack { id: message_ids[i].clone(), status, reason: "".to_owned(), metadata });
        i += 1;
    }
    Ok(acks)
}

/// Whether a batch of a server consumer can be committed with these dispositions.
/// They then go to the publishers one for one.
pub fn check_server_commit(messages: usize, dispositions: usize) -> (res: Result<(), String>)
    ensures
        match res {
            Ok(_) => dispositions == messages,
            Err(e) => dispositions != messages && e@ == commit_mismatch(
                "gRPC server batch commit length mismatch: dispositions="@,
                dispositions as nat,
                messages as nat,
            ),
        },
{
    if dispositions != messages {
        return Err(
            mismatch_text(
                "gRPC server batch commit length mismatch: dispositions=",
                dispositions,
                messages,
            ),
        );
    }
    Ok(())
}

/// A message that is put on the wire and read off again keeps its identifier, its
/// payload and its metadata but for what says where it was read from. Only a topic
/// can be new.
pub proof fn law_wire_round_trip(
    m: MessageView,
    topic: Option<Seq<char>>,
    out: MessageView,
    key: Seq<char>,
)
    requires
        from_wire(to_wire(m, topic), out),
        parsed_uuid(to_wire(m, topic).id) == Some(m.message_id),
    ensures
        out.message_id == m.message_id,
        out.payload == m.payload,
        key != TOPIC_KEY@ && !starts_with(key, SOURCE_PREFIX@) ==> lookup(out.metadata, key)
            == lookup(m.metadata, key),
        starts_with(key, SOURCE_PREFIX@) ==> lookup(out.metadata, key) is None,
        lookup(out.metadata, TOPIC_KEY@) == (match lookup(m.metadata, TOPIC_KEY@) {
            Some(t) => Some(t),
            None => topic,
        }),
{
    let kept = drop_prefixed(m.metadata, SOURCE_PREFIX@);
    law_drop_prefixed(m.metadata, SOURCE_PREFIX@, key);
    law_drop_prefixed(m.metadata, SOURCE_PREFIX@, TOPIC_KEY@);
    reveal_strlit("mqb.src.");
    reveal_strlit("mq_bridge.topic");
    assert(TOPIC_KEY@[2] != SOURCE_PREFIX@[2]);
    assert(!starts_with(TOPIC_KEY@, SOURCE_PREFIX@)) by {
        assert(TOPIC_KEY@.take(SOURCE_PREFIX@.len() as int)[2] == TOPIC_KEY@[2]);
    }
    if topic is Some {
        law_reads_give_back_writes(kept, TOPIC_KEY@, topic->0);
    }
    assert(to_wire(m, topic).id.len() >= 4);
}

} // verus!
