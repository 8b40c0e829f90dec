//! Streamed bodies in both directions.
//!
//! A request body becomes one message for each record. A streamed response is
//! published record by record, and closed by an end marker that consumers wait for.

use vstd::prelude::*;
use vstd::utf8::encode_utf8;

use crate::bytes::{lossy_text, text_of_lossy, trim_blank, trim_blank_bytes};
use crate::http::frames::{
    bound_stream_buffer, byte_rows, drain_ndjson, format_name, ndjson_records, ndjson_rest,
    sse_events, sse_rest, HttpStreamFormat,
};
use crate::http::sse::{
    drain_sse, parse_sse_event, sse_parse, sse_parse_all, ParsedSseEvent, SseEvent,
};
use crate::ids::{fresh_id_text, is_v7_text};
use crate::message::{
    copy_bytes, lookup, with, DispositionView, MessageDisposition, Metadata, Pairs, Sent, SentView,
};
use crate::numbers::{decimal, decimal_text};
use crate::text::{join2, opt};

verus! {

/// A record of a streamed body.
#[derive(Debug)]
pub struct StreamRecord {
    pub payload: Vec<u8>,
    pub event_id: Option<String>,
    pub event_name: Option<String>,
}

/// A record over mathematical values.
pub struct RecordView {
    pub payload: Seq<u8>,
    pub event_id: Option<Seq<char>>,
    pub event_name: Option<Seq<char>>,
}

impl View for StreamRecord {
    type V = RecordView;

    open spec fn view(&self) -> RecordView {
        RecordView {
            payload: self.payload@,
            event_id: opt(self.event_id),
            event_name: opt(self.event_name),
        }
    }
}

/// Records over mathematical values.
pub open spec fn record_views(records: Seq<StreamRecord>) -> Seq<RecordView> {
    records.map_values(|r: StreamRecord| r@)
}

/// A record without event fields.
pub open spec fn bare_record(payload: Seq<u8>) -> RecordView {
    RecordView { payload, event_id: None, event_name: None }
}

/// The record of an event.
pub open spec fn event_record(event: SseEvent) -> RecordView {
    RecordView {
        payload: encode_utf8(event.text),
        event_id: event.id,
        event_name: event.name,
    }
}

/// The records that `data` completes behind what was buffered.
pub open spec fn frame_records(
    format: HttpStreamFormat,
    buffer: Seq<u8>,
    data: Seq<u8>,
) -> Seq<RecordView> {
    match format {
        HttpStreamFormat::RawChunks => seq![bare_record(data)],
        HttpStreamFormat::Ndjson => ndjson_records(buffer + data).map_values(
            |p: Seq<u8>| bare_record(p),
        ),
        HttpStreamFormat::Sse => sse_parse_all(sse_events(buffer + data)).map_values(
            |e: SseEvent| event_record(e),
        ),
    }
}

/// What stays buffered after `data`.
pub open spec fn frame_rest(format: HttpStreamFormat, buffer: Seq<u8>, data: Seq<u8>) -> Seq<u8> {
    match format {
        HttpStreamFormat::RawChunks => buffer,
        HttpStreamFormat::Ndjson => ndjson_rest(buffer + data),
        HttpStreamFormat::Sse => sse_rest(buffer + data),
    }
}

/// The record that the end of the body completes: the rest of the buffer, unless it
/// is blank or holds no event.
pub open spec fn tail_records(format: HttpStreamFormat, buffer: Seq<u8>) -> Seq<RecordView> {
    match format {
        HttpStreamFormat::RawChunks => seq![],
        HttpStreamFormat::Ndjson => if trim_blank(buffer).len() > 0 {
            seq![bare_record(trim_blank(buffer))]
        } else {
            seq![]
        },
        HttpStreamFormat::Sse => if trim_blank(buffer).len() > 0 {
            match sse_parse(lossy_text(buffer)) {
                Some(e) => seq![event_record(e)],
                None => seq![],
            }
        } else {
            seq![]
        },
    }
}

fn record_of_event(event: ParsedSseEvent, Ghost(v): Ghost<SseEvent>) -> (r: StreamRecord)
    requires
        event.is(v),
    ensures
        r@ == event_record(v),
{
    StreamRecord {
        payload: event.payload,
        event_id: event.event_id,
        event_name: event.event_name,
    }
}

/// Takes the records that `data` completes.
pub fn take_records(format: HttpStreamFormat, buffer: &mut Vec<u8>, data: &[u8]) -> (records: Vec<
    StreamRecord,
>)
    ensures
        record_views(records@) == frame_records(format, old(buffer)@, data@),
        final(buffer)@ == frame_rest(format, old(buffer)@, data@),
{
    let mut records: Vec<StreamRecord> = Vec::new();
    match format {
        HttpStreamFormat::RawChunks => {
            records.push(
                StreamRecord { payload: copy_bytes(data), event_id: None, event_name: None },
            );
            assert(record_views(records@) =~= seq![bare_record(data@)]);
        },
        HttpStreamFormat::Ndjson => {
            let mut more = copy_bytes(data);
            buffer.append(&mut more);
            assert(buffer@ =~= old(buffer)@ + data@);
            let ghost whole = buffer@;
            let mut rows = drain_ndjson(buffer);
            let ghost all = byte_rows(rows@);
            let ghost want = all.map_values(|p: Seq<u8>| bare_record(p));
            while rows.len() > 0
                invariant
                    byte_rows(rows@) == all.skip(records@.len() as int),
                    records@.len() + rows@.len() == all.len(),
                    want == all.map_values(|p: Seq<u8>| bare_record(p)),
                    forall|k: int| 0 <= k < records@.len() ==> (#[trigger] records@[k])@ == want[k],
                decreases rows@.len(),
            {
                let ghost n = records@.len() as int;
                assert(byte_rows(rows@)[0] == all[n]);
                let ghost before = rows@;
                let payload = rows.remove(0);
                assert(byte_rows(rows@) =~= byte_rows(before).skip(1));
                assert(all.skip(n).skip(1) =~= all.skip(n + 1));
                records.push(StreamRecord { payload, event_id: None, event_name: None });
            }
            assert(record_views(records@) =~= want);
        },
        HttpStreamFormat::Sse => {
            let mut more = copy_bytes(data);
            buffer.append(&mut more);
            assert(buffer@ =~= old(buffer)@ + data@);
            let ghost all = sse_parse_all(sse_events(buffer@));
            let ghost want = all.map_values(|e: SseEvent| event_record(e));
            let mut events = drain_sse(buffer);
            while events.len() > 0
                invariant
                    records@.len() + events@.len() == all.len(),
                    forall|k: int|
                        0 <= k < events@.len() ==> (#[trigger] events@[k]).is(
                            all[records@.len() + k],
                        ),
                    want == all.map_values(|e: SseEvent| event_record(e)),
                    forall|k: int| 0 <= k < records@.len() ==> (#[trigger] records@[k])@ == want[k],
                decreases events@.len(),
            {
                let ghost n = records@.len() as int;
                let ghost before = events@;
                assert(before[0].is(all[n]));
                let event = events.remove(0);
                assert forall|k: int| 0 <= k < events@.len() implies (#[trigger] events@[k]).is(
                    all[n + 1 + k],
                ) by {
                    assert(events@[k] == before[k + 1]);
                }
                let record = record_of_event(event, Ghost(all[n]));
                records.push(record);
            }
            assert(record_views(records@) =~= want);
        },
    }
    records
}

/// Takes the record that the end of the body completes.
pub fn take_tail(format: HttpStreamFormat, buffer: &[u8]) -> (records: Vec<StreamRecord>)
    ensures
        record_views(records@) == tail_records(format, buffer@),
        records@.len() <= 1,
{
    let mut records: Vec<StreamRecord> = Vec::new();
    match format {
        HttpStreamFormat::RawChunks => {},
        HttpStreamFormat::Ndjson => {
            let tail = trim_blank_bytes(buffer);
            if tail.len() > 0 {
                records.push(
                    StreamRecord { payload: copy_bytes(tail), event_id: None, event_name: None },
                );
            }
        },
        HttpStreamFormat::Sse => {
            if trim_blank_bytes(buffer).len() > 0 {
                let text = text_of_lossy(buffer);
                if let Some(event) = parse_sse_event(text.as_str()) {
                    let record = record_of_event(event, Ghost(sse_parse(lossy_text(buffer@))->0));
                    records.push(record);
                }
            }
        },
    }
    assert(record_views(records@) =~= tail_records(format, buffer@));
    records
}

/// The metadata of a record: what the request or response had, the event fields,
/// and the record's place in the stream.
pub open spec fn record_metadata(
    base: Pairs,
    record: RecordView,
    correlation_id: Seq<char>,
    format: HttpStreamFormat,
    index: int,
) -> Pairs {
    let a = match record.event_id {
        Some(id) => with(base, "sse_id"@, id),
        None => base,
    };
    let b = match record.event_name {
        Some(name) => with(a, "sse_event"@, name),
        None => a,
    };
    placed_metadata(b, correlation_id, format, index)
}

/// Metadata with the place in the stream.
pub open spec fn placed_metadata(
    base: Pairs,
    correlation_id: Seq<char>,
    format: HttpStreamFormat,
    index: int,
) -> Pairs {
    with(
        with(
            with(
                with(base, "correlation_id"@, correlation_id),
                "http_stream_id"@,
                correlation_id,
            ),
            "http_stream_index"@,
            decimal(index as nat),
        ),
        "http_stream_format"@,
        format_name(format),
    )
}

/// Adds the place in the stream to metadata.
pub fn place(metadata: &mut Metadata, correlation_id: &str, format: HttpStreamFormat, index: usize)
    ensures
        final(metadata)@ == placed_metadata(
            old(metadata)@,
            correlation_id@,
            format,
            index as int,
        ),
{
    metadata.put("correlation_id", correlation_id);
    metadata.put("http_stream_id", correlation_id);
    let number = decimal_text(index as u128);
    metadata.put("http_stream_index", number.as_str());
    metadata.put("http_stream_format", format.as_str());
}

/// The metadata of a body with the event fields of a record.
pub fn describe(base: &Metadata, record: &StreamRecord) -> (metadata: Metadata)
    ensures
        metadata@ == ({
            let a = match record@.event_id {
                Some(id) => with(base@, "sse_id"@, id),
                None => base@,
            };
            match record@.event_name {
                Some(name) => with(a, "sse_event"@, name),
                None => a,
            }
        }),
{
    let mut metadata = base.copy();
    if let Some(id) = &record.event_id {
        metadata.put("sse_id", id.as_str());
    }
    if let Some(name) = &record.event_name {
        metadata.put("sse_event", name.as_str());
    }
    metadata
}

/// A message made of a record.
#[derive(Debug)]
pub struct StreamItem {
    pub payload: Vec<u8>,
    pub metadata: Metadata,
}

/// A message over mathematical values.
pub struct ItemView {
    pub payload: Seq<u8>,
    pub metadata: Pairs,
}

impl View for StreamItem {
    type V = ItemView;

    open spec fn view(&self) -> ItemView {
        ItemView { payload: self.payload@, metadata: self.metadata@ }
    }
}

/// Messages over mathematical values.
pub open spec fn item_views(items: Seq<StreamItem>) -> Seq<ItemView> {
    items.map_values(|i: StreamItem| i@)
}

/// A position `n` further on. Positions stop at the largest number.
pub open spec fn further(index: int, n: int) -> int {
    if index + n <= usize::MAX {
        index + n
    } else {
        usize::MAX as int
    }
}

/// The body of a request that is received record by record.
#[derive(Debug)]
pub struct RequestStream {
    pub correlation_id: String,
    pub format: HttpStreamFormat,
    pub metadata: Metadata,
    pub index: usize,
    pub buffer: Vec<u8>,
    /// How many bytes of an incomplete record are kept.
    pub limit: u64,
}

/// The state of a request body over mathematical values.
pub struct RequestStreamView {
    pub correlation_id: Seq<char>,
    pub format: HttpStreamFormat,
    pub metadata: Pairs,
    pub index: int,
    pub buffer: Seq<u8>,
    pub limit: u64,
}

impl View for RequestStream {
    type V = RequestStreamView;

    open spec fn view(&self) -> RequestStreamView {
        RequestStreamView {
            correlation_id: self.correlation_id@,
            format: self.format,
            metadata: self.metadata@,
            index: self.index as int,
            buffer: self.buffer@,
            limit: self.limit,
        }
    }
}

/// The messages for records that stand in the stream from `index` on.
pub open spec fn request_items(s: RequestStreamView, records: Seq<RecordView>) -> Seq<ItemView> {
    Seq::new(
        records.len(),
        |k: int|
            ItemView {
                payload: records[k].payload,
                metadata: record_metadata(
                    s.metadata,
                    records[k],
                    s.correlation_id,
                    s.format,
                    further(s.index, k),
                ),
            },
    )
}

impl RequestStream {
    /// A body that nothing has been read of. Without a correlation id in its
    /// metadata it gets a fresh one.
    pub fn new(metadata: Metadata, format: HttpStreamFormat, limit: u64) -> (s: Self)
        ensures
            s@.metadata == metadata@,
            s@.format == format,
            s@.index == 0,
            s@.buffer == Seq::<u8>::empty(),
            s@.limit == limit,
            match lookup(metadata@, "correlation_id"@) {
                Some(id) => s@.correlation_id == id,
                None => is_v7_text(s@.correlation_id),
            },
    {
        let correlation_id = match metadata.get("correlation_id") {
            Some(id) => id.clone(),
            None => fresh_id_text(),
        };
        RequestStream { correlation_id, format, metadata, index: 0, buffer: Vec::new(), limit }
    }

    fn items_of(&mut self, records: Vec<StreamRecord>) -> (items: Vec<StreamItem>)
        ensures
            item_views(items@) == request_items(old(self)@, record_views(records@)),
            final(self)@ == (RequestStreamView {
                index: further(old(self)@.index, records@.len() as int),
                ..old(self)@
            }),
    {
        let mut items: Vec<StreamItem> = Vec::new();
        let ghost start = self@;
        let ghost views = record_views(records@);
        let ghost want = request_items(start, views);
        let mut rest = records;
        while rest.len() > 0
            invariant
                items@.len() + rest@.len() == records@.len(),
                rest@ == records@.skip(items@.len() as int),
                views == record_views(records@),
                want == request_items(start, views),
                self@ == (RequestStreamView {
                    index: further(start.index, items@.len() as int),
                    ..start
                }),
                0 <= start.index <= usize::MAX,
                forall|k: int| 0 <= k < items@.len() ==> (#[trigger] items@[k])@ == want[k],
            decreases rest@.len(),
        {
            let ghost n = items@.len() as int;
            assert(rest@[0] == records@[n]);
            assert(views[n] == records@[n]@);
            let record = rest.remove(0);
            assert(records@.skip(n).skip(1) =~= records@.skip(n + 1));
            assert(rest@ =~= records@.skip(n + 1));
            let mut metadata = describe(&self.metadata, &record);
            place(&mut metadata, self.correlation_id.as_str(), self.format, self.index);
            let item = StreamItem { payload: record.payload, metadata };
            assert(item@ == want[n]);
            items.push(item);
            self.index = self.index.saturating_add(1);
        }
        assert(item_views(items@) =~= want);
        items
    }

    /// Takes a frame of the body: the messages that it completes, and an error if
    /// what stays buffered has grown past the limit. An empty frame changes nothing.
    pub fn on_frame(&mut self, data: &[u8]) -> (res: (Vec<StreamItem>, Option<String>))
        ensures
            data@.len() == 0 ==> final(self)@ == old(self)@ && res.0@.len() == 0 && res.1 is None,
            data@.len() > 0 ==> {
                let records = frame_records(old(self)@.format, old(self)@.buffer, data@);
                let rest = frame_rest(old(self)@.format, old(self)@.buffer, data@);
                &&& item_views(res.0@) == request_items(old(self)@, records)
                &&& final(self)@ == (RequestStreamView {
                    index: further(old(self)@.index, records.len() as int),
                    buffer: rest,
                    ..old(self)@
                })
                &&& (res.1 is Some) == (!(old(self)@.format is RawChunks) && rest.len()
                    > old(self)@.limit)
                &&& res.1 is Some ==> res.1->0@ == "stream record exceeds maximum buffered size of "@
                    + decimal(old(self)@.limit as nat) + " bytes"@
            },
    {
        if data.len() == 0 {
            return (Vec::new(), None);
        }
        let mut buffer: Vec<u8> = Vec::new();
        buffer.append(&mut self.buffer);
        assert(buffer@ =~= old(self).buffer@);
        let records = take_records(self.format, &mut buffer, data);
        self.buffer = buffer;
        let items = self.items_of(records);
        if self.format == HttpStreamFormat::RawChunks {
            return (items, None);
        }
        match bound_stream_buffer(self.buffer.as_slice(), self.limit) {
            Ok(_) => (items, None),
            Err(text) => (items, Some(text)),
        }
    }

    /// Takes the end of the body: the message that it completes.
    pub fn on_end(&mut self) -> (items: Vec<StreamItem>)
        ensures
            item_views(items@) == request_items(
                old(self)@,
                tail_records(old(self)@.format, old(self)@.buffer),
            ),
            final(self)@ == (RequestStreamView {
                index: further(
                    old(self)@.index,
                    tail_records(old(self)@.format, old(self)@.buffer).len() as int,
                ),
                ..old(self)@
            }),
    {
        let records = take_tail(self.format, self.buffer.as_slice());
        self.items_of(records)
    }
}

/// How long a record may wait for a place in the pipeline, in nanoseconds: two
/// seconds, or half of the request timeout if that is shorter.
pub fn send_timeout_nanos(request_timeout_nanos: u128) -> (wait: u128)
    ensures
        wait == (if request_timeout_nanos / 2 < 2_000_000_000 {
            request_timeout_nanos / 2
        } else {
            2_000_000_000
        }),
{
    let half: u128 = request_timeout_nanos / 2;
    if half < 2_000_000_000 {
        half
    } else {
        2_000_000_000
    }
}

/// What became of a record that was handed on.
#[derive(Debug)]
pub enum Dispatch {
    InlineSent(Sent),
    InlineFailed(String),
    InlineTimedOut,
    Queued,
    PipelineClosed(String),
    PipelineFull,
}

/// Decides what follows from handing a record on: a disposition to answer at once,
/// nothing yet, or an error that ends the stream.
pub fn dispatch_outcome(dispatch: Dispatch) -> (res: Result<Option<MessageDisposition>, String>)
    ensures
        match dispatch {
            Dispatch::InlineSent(sent) => res matches Ok(Some(d)) && d@ == (match sent@ {
                SentView::Ack => DispositionView::Ack,
                SentView::Response(m) => DispositionView::Reply(m),
            }),
            Dispatch::InlineFailed(text) => res matches Err(e) && e@
                == "HTTP inline stream publisher failed: "@ + text@,
            Dispatch::InlineTimedOut => res matches Err(e) && e@
                == "HTTP inline stream publisher timed out"@,
            Dispatch::Queued => res matches Ok(None),
            Dispatch::PipelineClosed(text) => res matches Err(e) && e@
                == "Internal pipeline closed: "@ + text@,
            Dispatch::PipelineFull => res matches Err(e) && e@ == "Server overloaded"@,
        },
{
    match dispatch {
        Dispatch::InlineSent(Sent::Ack) => Ok(Some(MessageDisposition::Ack)),
        Dispatch::InlineSent(Sent::Response(m)) => Ok(Some(MessageDisposition::Reply(m))),
        Dispatch::InlineFailed(text) => Err(
            join2("HTTP inline stream publisher failed: ", text.as_str()),
        ),
        Dispatch::InlineTimedOut => Err("HTTP inline stream publisher timed out".to_owned()),
        Dispatch::Queued => Ok(None),
        Dispatch::PipelineClosed(text) => Err(join2("Internal pipeline closed: ", text.as_str())),
        Dispatch::PipelineFull => Err("Server overloaded".to_owned()),
    }
}

} // verus!
