//! What streams of records keep.

use vstd::prelude::*;
use vstd::utf8::encode_utf8;

use crate::bytes::{
    all_blank, find_pattern, lemma_find_pattern, lemma_find_pattern_is, lossy_text, stands,
    trim_blank,
};
use crate::http::frames::{
    crlf_end, format_name, lf_end, ndjson_records, ndjson_rest, sse_end, sse_events, sse_rest,
    HttpStreamFormat,
};
use crate::http::response_stream::{ActionView, EventView, ResponseStreamView, StreamFailureView};
use crate::http::sse::{
    commit_frame, sse_frame_bytes, sse_parse, sse_parse_all, stream_error, stream_reply,
};
use crate::http::stream::{
    frame_records, frame_rest, further, placed_metadata, record_metadata, request_items,
    tail_records, RecordView, RequestStreamView,
};
use crate::ids::uuid_text;
use crate::json::json_string;
use crate::message::{law_reads_give_back_writes, lookup, with, DispositionView, MessageView, Pairs};
use crate::message_laws::law_defaults;
use crate::numbers::decimal;
use crate::text::{find_from, lemma_find_from};

verus! {

/// A line of newline-delimited JSON is one record, without its line end, be that a line
/// feed alone or behind a carriage return; a blank line is none. What is not ended by a
/// line feed stays buffered.
pub proof fn law_lines_are_records(line: Seq<u8>)
    requires
        !line.contains(10u8),
        line.len() > 0 ==> line.last() != 13,
    ensures
        ndjson_records(line).len() == 0,
        ndjson_rest(line) == line,
        ndjson_rest(line.push(10)).len() == 0,
        ndjson_rest(line.push(13).push(10)).len() == 0,
        all_blank(line) ==> ndjson_records(line.push(10)).len() == 0,
        !all_blank(line) ==> ndjson_records(line.push(10)) == seq![line],
        !all_blank(line) ==> ndjson_records(line.push(13).push(10)) == seq![line],
{
    lemma_find_from(line, 10u8, 0);
    assert(find_from(line, 10u8, 0) == line.len()) by {
        let p = find_from(line, 10u8, 0);
        if p < line.len() {
            assert(line[p] == 10u8);
        }
    }
    lemma_line(line, line);
    let crs = line.push(13);
    assert(!crs.contains(10u8)) by {
        if crs.contains(10u8) {
            let i = choose|i: int| 0 <= i < crs.len() && crs[i] == 10u8;
            assert(line[i] == 10u8);
        }
    }
    assert(crs.drop_last() =~= line);
    lemma_line(crs, line);
}

proof fn lemma_line(raw: Seq<u8>, line: Seq<u8>)
    requires
        !raw.contains(10u8),
        line == (if raw.len() > 0 && raw.last() == 13 {
            raw.drop_last()
        } else {
            raw
        }),
    ensures
        ndjson_rest(raw.push(10)).len() == 0,
        ndjson_records(raw.push(10)) == (if all_blank(line) {
            seq![]
        } else {
            seq![line]
        }),
{
    let b = raw.push(10u8);
    lemma_find_from(b, 10u8, 0);
    let p = find_from(b, 10u8, 0);
    assert(p == raw.len()) by {
        assert(b[raw.len() as int] == 10u8);
        if p < raw.len() {
            assert(raw[p] == 10u8);
        }
    }
    assert(b.subrange(0, p) =~= raw);
    let tail = b.subrange(p + 1, b.len() as int);
    assert(tail =~= Seq::<u8>::empty());
    assert(ndjson_records(tail) =~= seq![]);
    assert(ndjson_rest(tail) =~= tail);
    assert(ndjson_records(b) =~= (if all_blank(line) {
        seq![]
    } else {
        seq![line]
    }));
}

/// Whether bytes hold the blank line that ends an event, in either form, or end in a
/// line feed that a blank line could begin with.
pub open spec fn holds_an_end(event: Seq<u8>) -> bool {
    ||| exists|i: int| 0 <= i && i + 1 < event.len() && #[trigger] event[i] == 10 && event[i + 1] == 10
    ||| exists|i: int|
        0 <= i && i + 3 < event.len() && #[trigger] event[i] == 13 && event[i + 1] == 10 && event[i
            + 2] == 13 && event[i + 3] == 10
    ||| event.len() > 0 && event.last() == 10
}

proof fn lemma_no_end(event: Seq<u8>, end: Seq<u8>, k: int)
    requires
        !holds_an_end(event),
        event.len() == 0 || event.last() != 13,
        end == lf_end() || end == crlf_end(),
        0 <= k < event.len(),
    ensures
        !stands(event + end, lf_end(), k),
        !stands(event + end, crlf_end(), k),
{
    let b = event + end;
    if stands(b, lf_end(), k) {
        assert(b.subrange(k, k + 2)[0] == b[k] && b.subrange(k, k + 2)[1] == b[k + 1]);
        assert(event[k] == 10);
        if k + 1 < event.len() {
            assert(event[k + 1] == 10);
        }
    }
    if stands(b, crlf_end(), k) {
        let s = b.subrange(k, k + 4);
        assert(s[0] == b[k] && s[1] == b[k + 1] && s[2] == b[k + 2] && s[3] == b[k + 3]);
        assert(event[k] == 13);
        if k + 1 < event.len() {
            assert(event[k + 1] == 10);
            if k + 2 < event.len() {
                assert(event[k + 2] == 13);
                if k + 3 < event.len() {
                    assert(event[k + 3] == 10);
                } else {
                    assert(event.last() == 13);
                }
            } else {
                assert(event.last() == 10);
            }
        } else {
            assert(event.last() == 13);
        }
    }
}

/// An event is what stands before a blank line, in either form.
pub proof fn law_blank_lines_end_events(event: Seq<u8>)
    requires
        !holds_an_end(event),
        event.len() == 0 || event.last() != 13,
    ensures
        sse_events(event + seq![10u8, 10u8]) == seq![event],
        sse_rest(event + seq![10u8, 10u8]).len() == 0,
        sse_events(event + seq![13u8, 10u8, 13u8, 10u8]) == seq![event],
        sse_rest(event + seq![13u8, 10u8, 13u8, 10u8]).len() == 0,
{
    lemma_event(event, lf_end());
    lemma_event(event, crlf_end());
}

proof fn lemma_event(event: Seq<u8>, end: Seq<u8>)
    requires
        !holds_an_end(event),
        event.len() == 0 || event.last() != 13,
        end == lf_end() || end == crlf_end(),
    ensures
        sse_events(event + end) == seq![event],
        sse_rest(event + end).len() == 0,
{
    let b = event + end;
    let n = event.len() as int;
    assert forall|k: int| 0 <= k < n implies !#[trigger] stands(b, lf_end(), k) by {
        lemma_no_end(event, end, k);
    }
    assert forall|k: int| 0 <= k < n implies !#[trigger] stands(b, crlf_end(), k) by {
        lemma_no_end(event, end, k);
    }
    assert(b.subrange(n, b.len() as int) =~= end);
    lemma_find_pattern(b, lf_end(), 0);
    lemma_find_pattern(b, crlf_end(), 0);
    if end == lf_end() {
        assert(stands(b, lf_end(), n));
        lemma_find_pattern_is(b, lf_end(), 0, n);
        assert(!stands(b, crlf_end(), n));
    } else {
        assert(stands(b, crlf_end(), n));
        lemma_find_pattern_is(b, crlf_end(), 0, n);
        assert(b[n] == 13 && b[n + 1] == 10 && b[n + 2] == 13 && b[n + 3] == 10);
        assert forall|k: int| 0 <= k implies !#[trigger] stands(b, lf_end(), k) by {
            if stands(b, lf_end(), k) {
                assert(b.subrange(k, k + 2)[0] == b[k] && b.subrange(k, k + 2)[1] == b[k + 1]);
            }
        }
        assert(find_pattern(b, lf_end(), 0) == -1);
    }
    assert(sse_end(b) == n);
    assert(b.subrange(0, n) =~= event);
    let tail = b.subrange(b.len() as int, b.len() as int);
    assert(tail =~= Seq::<u8>::empty());
    assert(sse_end(tail) == -1) by {
        lemma_find_pattern(tail, lf_end(), 0);
        lemma_find_pattern(tail, crlf_end(), 0);
    }
    assert(sse_events(tail) =~= seq![]);
    assert(sse_rest(tail) =~= tail);
    assert(sse_events(b) =~= seq![event]);
}

/// Events are read one by one, in their order; those without data are left out.
pub proof fn law_events_are_read_in_order(a: Seq<Seq<u8>>, b: Seq<Seq<u8>>, e: Seq<u8>)
    ensures
        sse_parse_all(a + b) == sse_parse_all(a) + sse_parse_all(b),
        sse_parse_all(seq![e]) == (match sse_parse(lossy_text(e)) {
            Some(event) => seq![event],
            None => seq![],
        }),
    decreases a.len(),
{
    reveal_with_fuel(sse_parse_all, 2);
    assert(seq![e].subrange(1, 1) =~= seq![]);
    assert(sse_parse_all(seq![e]) =~= (match sse_parse(lossy_text(e)) {
        Some(event) => seq![event],
        None => seq![],
    }));
    if a.len() == 0 {
        assert(a + b =~= b);
        assert(sse_parse_all(a) + sse_parse_all(b) =~= sse_parse_all(b));
    } else {
        let tail = a.subrange(1, a.len() as int);
        law_events_are_read_in_order(tail, b, e);
        assert((a + b).subrange(1, (a + b).len() as int) =~= tail + b);
        assert((a + b)[0] == a[0]);
        assert(sse_parse_all(a + b) =~= sse_parse_all(a) + sse_parse_all(b));
    }
}

/// A raw body becomes a record for every frame, as it came. One in another format
/// becomes a record for every line or event that its frames complete, whatever was
/// buffered before: with the payload of the line, or with the text, the id and the name
/// of the event.
pub proof fn law_bodies_become_records(buffer: Seq<u8>, data: Seq<u8>, i: int)
    ensures
        frame_records(HttpStreamFormat::RawChunks, buffer, data) == seq![
            RecordView { payload: data, event_id: None, event_name: None },
        ],
        frame_rest(HttpStreamFormat::RawChunks, buffer, data) == buffer,
        ({
            let lines = ndjson_records(buffer + data);
            let records = frame_records(HttpStreamFormat::Ndjson, buffer, data);
            &&& records.len() == lines.len()
            &&& 0 <= i < lines.len() ==> records[i] == (RecordView {
                payload: lines[i],
                event_id: None,
                event_name: None,
            })
            &&& frame_rest(HttpStreamFormat::Ndjson, buffer, data) == ndjson_rest(buffer + data)
        }),
        ({
            let events = sse_parse_all(sse_events(buffer + data));
            let records = frame_records(HttpStreamFormat::Sse, buffer, data);
            &&& records.len() == events.len()
            &&& 0 <= i < events.len() ==> records[i] == (RecordView {
                payload: encode_utf8(events[i].text),
                event_id: events[i].id,
                event_name: events[i].name,
            })
            &&& frame_rest(HttpStreamFormat::Sse, buffer, data) == sse_rest(buffer + data)
        }),
{
}

/// What is left at the end of a body is its last record, unless it is blank: a line
/// without the white space around it, or an event.
pub proof fn law_ends_complete_records(buffer: Seq<u8>)
    ensures
        tail_records(HttpStreamFormat::RawChunks, buffer).len() == 0,
        trim_blank(buffer).len() == 0 ==> tail_records(HttpStreamFormat::Ndjson, buffer).len() == 0
            && tail_records(HttpStreamFormat::Sse, buffer).len() == 0,
        trim_blank(buffer).len() > 0 ==> {
            &&& tail_records(HttpStreamFormat::Ndjson, buffer) == seq![
                RecordView { payload: trim_blank(buffer), event_id: None, event_name: None },
            ]
            &&& match sse_parse(lossy_text(buffer)) {
                Some(e) => tail_records(HttpStreamFormat::Sse, buffer) == seq![
                    RecordView {
                        payload: encode_utf8(e.text),
                        event_id: e.id,
                        event_name: e.name,
                    },
                ],
                None => tail_records(HttpStreamFormat::Sse, buffer).len() == 0,
            }
        },
{
}

proof fn lemma_stream_names()
    ensures
        "sse_id"@ != "sse_event"@,
        forall|k: Seq<char>|
            #![trigger is_of_the_stream(k)]
            is_of_the_stream(k) <==> k == "correlation_id"@ || k == "http_stream_id"@ || k
                == "http_stream_index"@ || k == "http_stream_format"@,
        "correlation_id"@ != "http_stream_id"@,
        "correlation_id"@ != "http_stream_index"@,
        "correlation_id"@ != "http_stream_format"@,
        "http_stream_id"@ != "http_stream_index"@,
        "http_stream_id"@ != "http_stream_format"@,
        "http_stream_index"@ != "http_stream_format"@,
        !is_of_the_stream("sse_id"@),
        !is_of_the_stream("sse_event"@),
        !is_of_the_stream("http_stream_end"@),
        !is_of_the_stream("http_stream_error"@),
        "http_stream_end"@ != "http_stream_error"@,
        "http_stream_end"@ != "sse_id"@,
        "http_stream_end"@ != "sse_event"@,
{
    reveal_strlit("sse_id");
    reveal_strlit("sse_event");
    reveal_strlit("correlation_id");
    reveal_strlit("http_stream_id");
    reveal_strlit("http_stream_index");
    reveal_strlit("http_stream_format");
    reveal_strlit("http_stream_end");
    reveal_strlit("http_stream_error");
    assert("sse_id"@.len() == 6);
    assert("sse_event"@.len() == 9);
    assert("correlation_id"@.len() == 14 && "correlation_id"@[0] == 'c');
    assert("http_stream_id"@.len() == 14 && "http_stream_id"@[0] == 'h');
    assert("http_stream_index"@.len() == 17 && "http_stream_index"@[12] == 'i');
    assert("http_stream_format"@.len() == 18);
    assert("http_stream_end"@.len() == 15);
    assert("http_stream_error"@.len() == 17 && "http_stream_error"@[12] == 'e');
}

/// Whether a name is of a record's place in its stream.
pub open spec fn is_of_the_stream(key: Seq<char>) -> bool {
    key == "correlation_id"@ || key == "http_stream_id"@ || key == "http_stream_index"@ || key
        == "http_stream_format"@
}

/// A record tells its stream, its position in it and the format, and the id and the name
/// of its event where it has them. Everything else it has from the request or response.
pub proof fn law_records_tell_their_place(
    base: Pairs,
    record: RecordView,
    id: Seq<char>,
    format: HttpStreamFormat,
    index: int,
    key: Seq<char>,
)
    ensures
        ({
            let m = record_metadata(base, record, id, format, index);
            &&& lookup(m, "correlation_id"@) == Some(id)
            &&& lookup(m, "http_stream_id"@) == Some(id)
            &&& lookup(m, "http_stream_index"@) == Some(decimal(index as nat))
            &&& lookup(m, "http_stream_format"@) == Some(
                match format {
                    HttpStreamFormat::RawChunks => "raw_chunks"@,
                    HttpStreamFormat::Ndjson => "ndjson"@,
                    HttpStreamFormat::Sse => "sse"@,
                },
            )
            &&& lookup(m, "sse_id"@) == (match record.event_id {
                Some(e) => Some(e),
                None => lookup(base, "sse_id"@),
            })
            &&& lookup(m, "sse_event"@) == (match record.event_name {
                Some(e) => Some(e),
                None => lookup(base, "sse_event"@),
            })
            &&& !is_of_the_stream(key) && key != "sse_id"@ && key != "sse_event"@ ==> lookup(m, key)
                == lookup(base, key)
        }),
{
    lemma_stream_names();
    let a = match record.event_id {
        Some(e) => with(base, "sse_id"@, e),
        None => base,
    };
    if record.event_id is Some {
        law_reads_give_back_writes(base, "sse_id"@, record.event_id->0);
    }
    let b = match record.event_name {
        Some(e) => with(a, "sse_event"@, e),
        None => a,
    };
    if record.event_name is Some {
        law_reads_give_back_writes(a, "sse_event"@, record.event_name->0);
    }
    lemma_placed(b, id, format, index, key);
    lemma_placed(b, id, format, index, "sse_id"@);
    lemma_placed(b, id, format, index, "sse_event"@);
}

proof fn lemma_placed(
    b: Pairs,
    id: Seq<char>,
    format: HttpStreamFormat,
    index: int,
    key: Seq<char>,
)
    ensures
        ({
            let m = placed_metadata(b, id, format, index);
            &&& lookup(m, "correlation_id"@) == Some(id)
            &&& lookup(m, "http_stream_id"@) == Some(id)
            &&& lookup(m, "http_stream_index"@) == Some(decimal(index as nat))
            &&& lookup(m, "http_stream_format"@) == Some(
                match format {
                    HttpStreamFormat::RawChunks => "raw_chunks"@,
                    HttpStreamFormat::Ndjson => "ndjson"@,
                    HttpStreamFormat::Sse => "sse"@,
                },
            )
            &&& !is_of_the_stream(key) ==> lookup(m, key) == lookup(b, key)
        }),
{
    lemma_stream_names();
    law_reads_give_back_writes(b, "correlation_id"@, id);
    let c = with(b, "correlation_id"@, id);
    law_reads_give_back_writes(c, "http_stream_id"@, id);
    let d = with(c, "http_stream_id"@, id);
    law_reads_give_back_writes(d, "http_stream_index"@, decimal(index as nat));
    let e = with(d, "http_stream_index"@, decimal(index as nat));
    law_reads_give_back_writes(
        e,
        "http_stream_format"@,
        format_name(format),
    );
}

/// Every record of a request body becomes one message, in order and with its payload,
/// and tells its position behind those that came before.
pub proof fn law_request_records_become_messages(
    s: RequestStreamView,
    records: Seq<RecordView>,
    k: int,
)
    requires
        0 <= k < records.len(),
        s.index + records.len() <= usize::MAX,
        0 <= s.index,
    ensures
        ({
            let items = request_items(s, records);
            &&& items.len() == records.len()
            &&& items[k].payload == records[k].payload
            &&& lookup(items[k].metadata, "http_stream_index"@) == Some(
                decimal((s.index + k) as nat),
            )
            &&& lookup(items[k].metadata, "correlation_id"@) == Some(s.correlation_id)
            &&& further(s.index, k) == s.index + k
        }),
{
    law_records_tell_their_place(
        s.metadata,
        records[k],
        s.correlation_id,
        s.format,
        s.index + k,
        ""@,
    );
}

/// A record of a response is published with its payload and does not end its stream. The
/// end marker has no payload and does, and the error marker tells what went wrong.
pub proof fn law_published_items(
    s: ResponseStreamView,
    record: RecordView,
    index: int,
    text: Seq<char>,
)
    requires
        lookup(s.metadata, "http_stream_end"@) is None,
    ensures
        s.record_item(record, index).payload == record.payload,
        lookup(s.record_item(record, index).metadata, "http_stream_end"@) == Some("false"@),
        lookup(s.record_item(record, index).metadata, "http_stream_index"@) == Some(
            decimal(index as nat),
        ),
        lookup(s.record_item(record, index).metadata, "http_stream_id"@) == Some(
            s.correlation_id,
        ),
        s.end_item(index).payload.len() == 0,
        lookup(s.end_item(index).metadata, "http_stream_end"@) == Some("true"@),
        lookup(s.end_item(index).metadata, "http_stream_id"@) == Some(s.correlation_id),
        lookup(s.end_item(index).metadata, "http_stream_index"@) == Some(decimal(index as nat)),
        s.error_item(index, text).payload == encode_utf8(text),
        lookup(s.error_item(index, text).metadata, "http_stream_error"@) == Some("true"@),
        lookup(s.error_item(index, text).metadata, "http_stream_end"@) == Some("false"@),
        lookup(s.error_item(index, text).metadata, "http_stream_id"@) == Some(s.correlation_id),
{
    lemma_stream_names();
    let end = "http_stream_end"@;
    law_records_tell_their_place(
        s.metadata,
        record,
        s.correlation_id,
        s.format,
        index,
        end,
    );
    let m = record_metadata(s.metadata, record, s.correlation_id, s.format, index);
    assert(is_of_the_stream("http_stream_index"@) && is_of_the_stream("http_stream_id"@));
    law_defaults(m, end, "false"@, "http_stream_index"@);
    law_defaults(m, end, "false"@, "http_stream_id"@);
    let e = with(s.metadata, end, "true"@);
    law_reads_give_back_writes(s.metadata, end, "true"@);
    lemma_placed(e, s.correlation_id, s.format, index, end);
    let p = placed_metadata(e, s.correlation_id, s.format, index);
    law_defaults(p, end, "false"@, "http_stream_index"@);
    law_defaults(p, end, "false"@, "http_stream_id"@);
    let f = with(s.metadata, "http_stream_error"@, "true"@);
    law_reads_give_back_writes(s.metadata, "http_stream_error"@, "true"@);
    lemma_placed(f, s.correlation_id, s.format, index, end);
    lemma_placed(f, s.correlation_id, s.format, index, "http_stream_error"@);
    let q = placed_metadata(f, s.correlation_id, s.format, index);
    law_defaults(q, end, "false"@, "http_stream_error"@);
    law_defaults(q, end, "false"@, "http_stream_id"@);
}

/// The records of a frame are published one after the other, each at the position behind
/// the last: the first when the frame comes, the next when one was sent, and reading goes
/// on behind the last. A frame without records only goes on.
pub proof fn law_records_are_published_in_order(s: ResponseStreamView, e: EventView)
    requires
        s.wf(),
        s.awaits(e),
        s.index + s.sent + 1 <= usize::MAX,
    ensures
        s.stage is Reading ==> (e matches EventView::Frame(data) ==> {
            let records = frame_records(s.format, s.buffer, data);
            &&& data.len() > 0 && records.len() > 0 ==> {
                &&& s.next(e).1 == ActionView::Send(s.record_item(records[0], s.index))
                &&& s.next(e).0.stage is Publishing
                &&& s.next(e).0.pending == records
                &&& s.next(e).0.index == s.index
            }
            &&& data.len() == 0 || records.len() == 0 ==> s.next(e).1 is Read
            &&& data.len() > 0 ==> s.next(e).0.buffer == frame_rest(s.format, s.buffer, data)
        }),
        s.stage is Publishing && e is Sent ==> {
            &&& s.pending.len() > 1 ==> {
                &&& s.next(e).1 == ActionView::Send(
                    s.record_item(s.pending[1], s.index + s.sent + 1),
                )
                &&& s.next(e).0.pending == s.pending.skip(1)
                &&& s.next(e).0.sent == s.sent + 1
            }
            &&& s.pending.len() == 1 ==> {
                &&& s.next(e).1 is Read
                &&& s.next(e).0.stage is Reading
                &&& s.next(e).0.index == s.index + s.sent + 1
            }
        },
        s.stage is Reading && e is Ended ==> {
            let last = tail_records(s.format, s.buffer);
            if last.len() == 0 {
                s.next(e).1 == ActionView::Send(s.end_item(s.index))
            } else {
                s.next(e).1 == ActionView::Send(s.record_item(last[0], s.index))
            }
        },
        s.stage is Tail && e is Sent ==> s.next(e).1 == ActionView::Send(s.end_item(s.index + 1)),
        s.stage is Closing && e is Sent ==> s.next(e).1 == ActionView::Done(None),
{
}

/// A stream that could not be read tells why before it ends, with a reason that may
/// pass. A record that could not be sent gives the stream up for the reason that the
/// sink gave.
pub proof fn law_broken_streams_tell_why(s: ResponseStreamView, e: EventView)
    requires
        s.wf(),
        s.awaits(e),
    ensures
        s.stage is Reading ==> {
            &&& e matches EventView::ReadFailed(why) ==> s.next(e).1 == ActionView::Send(
                s.error_item(s.index, "Failed to read HTTP response stream: "@ + why),
            )
            &&& e is TimedOut ==> s.next(e).1 == ActionView::Send(
                s.error_item(s.index, "HTTP response stream timeout"@),
            )
            &&& e is ReadFailed || e is TimedOut ==> (s.next(e).0.failure matches Some(f)
                && f is Retryable)
        },
        (s.stage is Publishing || s.stage is Tail) && s.index == 0 ==> (
        e matches EventView::SendFailed(why) ==> s.next(e).1 == ActionView::Done(
            Some(StreamFailureView::BeforePublish(why)),
        )),
        (s.stage is Publishing || s.stage is Tail) && s.index > 0 ==> (
        e matches EventView::SendFailed(why) ==> s.next(e).1 == ActionView::Send(
            s.end_item(s.index),
        ) && s.next(e).0.failure == Some(why)),
        s.stage is EndingAfterError || s.stage is EndingAfterFailure ==> (
        s.next(e).1 matches ActionView::Done(Some(f)) && f == (if s.index > 0 {
            StreamFailureView::Partial(s.failure->0)
        } else {
            StreamFailureView::BeforePublish(s.failure->0)
        })),
{
}

/// A streamed reply is the payload itself in a raw stream, a line in one of JSON, and in
/// one of events an event under the id that the message names, or under its identifier.
pub proof fn law_streamed_replies(m: MessageView)
    ensures
        stream_reply(HttpStreamFormat::RawChunks, m) == m.payload,
        stream_reply(HttpStreamFormat::Ndjson, m) == m.payload + seq![10u8],
        stream_reply(HttpStreamFormat::Sse, m) == sse_frame_bytes(
            Some(
                match lookup(m.metadata, "sse_id"@) {
                    Some(id) => id,
                    None => uuid_text(m.message_id),
                },
            ),
            None,
            m.payload,
        ),
{
    assert(m.payload.push(10u8) =~= m.payload + seq![10u8]);
}

/// A reply goes to the client of a stream, an acknowledgement tells it nothing, and a
/// refusal is told as an error. Without a stream nothing is written.
pub proof fn law_streamed_dispositions(d: DispositionView, format: HttpStreamFormat)
    ensures
        commit_frame(d, false, format) is None,
        commit_frame(d, true, format) == (match d {
            DispositionView::Ack => None,
            DispositionView::Reply(m) => Some(stream_reply(format, m)),
            DispositionView::Nack => Some(stream_error(format, "Message processing failed"@)),
        }),
        stream_error(HttpStreamFormat::RawChunks, "Message processing failed"@) == encode_utf8(
            "Message processing failed"@,
        ),
        stream_error(HttpStreamFormat::Ndjson, "Message processing failed"@) == encode_utf8(
            "{\"error\":"@ + json_string("Message processing failed"@) + "}\n"@,
        ),
        stream_error(HttpStreamFormat::Sse, "Message processing failed"@) == sse_frame_bytes(
            None,
            Some("error"@),
            encode_utf8("Message processing failed"@),
        ),
{
}

} // verus!
