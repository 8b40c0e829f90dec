//! Server-sent events: reading them, writing them, and replies in every stream
//! format.

use vstd::prelude::*;
use vstd::slice::{slice_subrange, slice_to_vec};
use vstd::utf8::encode_utf8;

use crate::bytes::{lossy_text, stands_bytes, text_of_lossy};
use crate::http::frames::{
    crlf_end, find_sse_event_end, lemma_sse_end, sse_events, sse_rest, HttpStreamFormat,
};
use crate::ids::{format_id, uuid_text};
use crate::json::{json_string, to_json_string};
use crate::message::{
    copy_bytes, lookup, CanonicalMessage, DispositionView, MessageDisposition, MessageView,
};
use crate::text::{
    char_rows, chars_of, join3, opt, same_chars, split, split_chars, split_once, split_once_chars,
    string_of, text_of_option, texts,
};

verus! {

/// A server-sent event.
#[derive(Debug)]
pub struct ParsedSseEvent {
    pub payload: Vec<u8>,
    pub event_id: Option<String>,
    pub event_name: Option<String>,
}

/// What has been read of an event: its data lines, its id and its name.
pub struct SseFields {
    pub data: Seq<Seq<char>>,
    pub id: Option<Seq<char>>,
    pub name: Option<Seq<char>>,
}

/// A line without the carriage returns at its end.
pub open spec fn without_crs(line: Seq<char>) -> Seq<char>
    decreases line.len(),
{
    if line.len() > 0 && line.last() == '\r' {
        without_crs(line.drop_last())
    } else {
        line
    }
}

/// The field name and the value of a line. One space behind the colon is no part of
/// the value, and a line without a colon has an empty value.
pub open spec fn sse_field(line: Seq<char>) -> (Seq<char>, Seq<char>) {
    match split_once(line, ':') {
        Some((field, value)) => if value.len() > 0 && value[0] == ' ' {
            (field, value.subrange(1, value.len() as int))
        } else {
            (field, value)
        },
        None => (line, Seq::empty()),
    }
}

/// The fields after one more line. Empty lines and comments say nothing, nor do
/// fields of other names; a later id or name replaces an earlier one.
pub open spec fn sse_line(fields: SseFields, raw: Seq<char>) -> SseFields {
    let line = without_crs(raw);
    if line.len() == 0 || line[0] == ':' {
        fields
    } else {
        let (field, value) = sse_field(line);
        if field == "data"@ {
            SseFields { data: fields.data.push(value), ..fields }
        } else if field == "id"@ {
            SseFields { id: Some(value), ..fields }
        } else if field == "event"@ {
            SseFields { name: Some(value), ..fields }
        } else {
            fields
        }
    }
}

/// The fields after all the lines.
pub open spec fn sse_fields(lines: Seq<Seq<char>>) -> SseFields
    decreases lines.len(),
{
    if lines.len() == 0 {
        SseFields { data: seq![], id: None, name: None }
    } else {
        sse_line(sse_fields(lines.drop_last()), lines.last())
    }
}

/// Lines with line feeds between them.
pub open spec fn join_lines(lines: Seq<Seq<char>>) -> Seq<char>
    decreases lines.len(),
{
    if lines.len() == 0 {
        seq![]
    } else if lines.len() == 1 {
        lines[0]
    } else {
        join_lines(lines.drop_last()) + seq!['\n'] + lines.last()
    }
}

/// An event over mathematical values. The payload is the text of the data lines.
pub struct SseEvent {
    pub text: Seq<char>,
    pub id: Option<Seq<char>>,
    pub name: Option<Seq<char>>,
}

/// The event that a text holds. A text without data holds none.
pub open spec fn sse_parse(raw: Seq<char>) -> Option<SseEvent> {
    let fields = sse_fields(split(raw, '\n'));
    if fields.data.len() == 0 {
        None
    } else {
        Some(SseEvent { text: join_lines(fields.data), id: fields.id, name: fields.name })
    }
}

impl ParsedSseEvent {
    /// Whether this is the given event, with its payload in UTF-8.
    pub open spec fn is(self, event: SseEvent) -> bool {
        &&& self.payload@ == encode_utf8(event.text)
        &&& opt(self.event_id) == event.id
        &&& opt(self.event_name) == event.name
    }
}

fn strip_crs<'a>(line: &'a [char]) -> (out: &'a [char])
    ensures
        out@ == without_crs(line@),
{
    let mut n: usize = line.len();
    assert(line@.subrange(0, n as int) =~= line@);
    while n > 0 && line[n - 1] == '\r'
        invariant
            n <= line@.len(),
            without_crs(line@) == without_crs(line@.subrange(0, n as int)),
        decreases n,
    {
        assert(line@.subrange(0, n as int).drop_last() =~= line@.subrange(0, n - 1));
        n -= 1;
    }
    slice_subrange(line, 0, n)
}

/// Reads an event from its text.
pub fn parse_sse_event(raw: &str) -> (event: Option<ParsedSseEvent>)
    ensures
        match event {
            Some(e) => sse_parse(raw@) matches Some(v) && e.is(v),
            None => sse_parse(raw@) is None,
        },
{
    let all = chars_of(raw);
    let lines = split_chars(all.as_slice(), '\n');
    let ghost rows = split(raw@, '\n');
    let mut data: Vec<String> = Vec::new();
    let mut event_id: Option<String> = None;
    let mut event_name: Option<String> = None;
    let data_name = chars_of("data");
    let id_name = chars_of("id");
    let event_field = chars_of("event");
    let mut i: usize = 0;
    assert(texts(data@) =~= sse_fields(rows.take(0)).data);
    while i < lines.len()
        invariant
            i <= lines@.len(),
            char_rows(lines@) == rows,
            data_name@ == "data"@,
            id_name@ == "id"@,
            event_field@ == "event"@,
            texts(data@) == sse_fields(rows.take(i as int)).data,
            opt(event_id) == sse_fields(rows.take(i as int)).id,
            opt(event_name) == sse_fields(rows.take(i as int)).name,
        decreases lines@.len() - i,
    {
        assert(rows.take(i + 1).drop_last() =~= rows.take(i as int));
        assert(rows.take(i + 1).last() == rows[i as int]);
        assert(char_rows(lines@)[i as int] == lines@[i as int]@);
        let line = strip_crs(lines[i].as_slice());
        i += 1;
        if line.len() == 0 || line[0] == ':' {
            continue;
        }
        let nothing: Vec<char> = Vec::new();
        let (field, value) = match split_once_chars(line, ':') {
            Some((f, v)) => if v.len() > 0 && v[0] == ' ' {
                (f, slice_subrange(v, 1, v.len()))
            } else {
                (f, v)
            },
            None => (line, nothing.as_slice()),
        };
        assert((field@, value@) == sse_field(line@));
        let ghost before = data@;
        if same_chars(field, data_name.as_slice()) {
            let text = string_of(value);
            data.push(text);
            assert(texts(data@) =~= texts(before).push(value@));
        } else if same_chars(field, id_name.as_slice()) {
            event_id = Some(string_of(value));
        } else if same_chars(field, event_field.as_slice()) {
            event_name = Some(string_of(value));
        }
    }
    assert(rows.take(rows.len() as int) =~= rows);
    if data.is_empty() {
        assert(texts(data@).len() == 0);
        return None;
    }
    let text = join_texts(&data);
    Some(ParsedSseEvent { payload: copy_bytes(text.as_str().as_bytes()), event_id, event_name })
}

/// Joins texts with line feeds.
fn join_texts(lines: &Vec<String>) -> (out: String)
    requires
        lines@.len() > 0,
    ensures
        out@ == join_lines(texts(lines@)),
{
    let ghost rows = texts(lines@);
    let mut out = lines[0].clone();
    let mut i: usize = 1;
    assert(rows.take(1)[0] == out@);
    while i < lines.len()
        invariant
            1 <= i <= lines@.len(),
            rows == texts(lines@),
            out@ == join_lines(rows.take(i as int)),
        decreases lines@.len() - i,
    {
        assert(rows.take(i + 1).drop_last() =~= rows.take(i as int));
        out.push('\n');
        out.append(lines[i].as_str());
        assert(out@ =~= join_lines(rows.take(i as int)) + seq!['\n'] + rows[i as int]);
        i += 1;
    }
    assert(rows.take(rows.len() as int) =~= rows);
    out
}

/// What the texts of events hold, leaving out those that hold none.
pub open spec fn sse_parse_all(events: Seq<Seq<u8>>) -> Seq<SseEvent>
    decreases events.len(),
{
    if events.len() == 0 {
        seq![]
    } else {
        let first = sse_parse(lossy_text(events[0]));
        let later = sse_parse_all(events.subrange(1, events.len() as int));
        match first {
            Some(e) => seq![e] + later,
            None => later,
        }
    }
}

/// Whether the parsed events are the given ones, in order.
pub open spec fn are_events(parsed: Seq<ParsedSseEvent>, events: Seq<SseEvent>) -> bool {
    &&& parsed.len() == events.len()
    &&& forall|i: int| 0 <= i < parsed.len() ==> (#[trigger] parsed[i]).is(events[i])
}

/// Takes the complete events out of a buffer. Bytes are decoded only once an event
/// is complete, so a character split between frames stays whole.
pub fn drain_sse(buffer: &mut Vec<u8>) -> (parsed: Vec<ParsedSseEvent>)
    ensures
        are_events(parsed@, sse_parse_all(sse_events(old(buffer)@))),
        final(buffer)@ == sse_rest(old(buffer)@),
{
    let mut parsed: Vec<ParsedSseEvent> = Vec::new();
    let ghost mut done: Seq<SseEvent> = seq![];
    let mut start: usize = 0;
    let ghost whole = buffer@;
    let crlf: [u8; 4] = [13, 10, 13, 10];
    assert(crlf@ =~= crlf_end());
    assert(whole.subrange(0, whole.len() as int) =~= whole);
    assert(done + sse_parse_all(sse_events(whole)) =~= sse_parse_all(sse_events(whole)));
    loop
        invariant
            buffer@ == whole,
            whole == old(buffer)@,
            start <= whole.len(),
            crlf@ == crlf_end(),
            are_events(parsed@, done),
            done + sse_parse_all(
                sse_events(whole.subrange(start as int, whole.len() as int)),
            ) == sse_parse_all(sse_events(whole)),
            sse_rest(whole.subrange(start as int, whole.len() as int)) == sse_rest(whole),
        ensures
            buffer@ == whole,
            start <= whole.len(),
            are_events(parsed@, sse_parse_all(sse_events(whole))),
            whole.subrange(start as int, whole.len() as int) == sse_rest(whole),
        decreases whole.len() - start,
    {
        let total: usize = buffer.len();
        let tail = slice_subrange(buffer.as_slice(), start, total);
        proof {
            lemma_sse_end(tail@);
        }
        match find_sse_event_end(tail) {
            None => {
                assert(done + Seq::<SseEvent>::empty() =~= done);
                break;
            },
            Some(end) => {
                let gap: usize = if stands_bytes(tail, crlf.as_slice(), end) {
                    4
                } else {
                    2
                };
                let ghost events = sse_events(tail@);
                let ghost after = tail@.subrange(end + gap, tail@.len() as int);
                let event_bytes = slice_subrange(tail, 0, end);
                assert(events == seq![event_bytes@] + sse_events(after));
                assert(events[0] == event_bytes@);
                assert(events.subrange(1, events.len() as int) =~= sse_events(after));
                assert(after =~= whole.subrange(start + end + gap, whole.len() as int));
                let text = text_of_lossy(event_bytes);
                if let Some(event) = parse_sse_event(text.as_str()) {
                    let ghost later = sse_parse_all(sse_events(after));
                    let ghost v = sse_parse(lossy_text(event_bytes@))->0;
                    parsed.push(event);
                    proof {
                        assert(done.push(v) + later =~= done + (seq![v] + later));
                        done = done.push(v);
                    }
                }
                start = start + end + gap;
            },
        }
    }
    let rest = slice_to_vec(slice_subrange(buffer.as_slice(), start, buffer.len()));
    *buffer = rest;
    parsed
}

/// A complete line without one carriage return at its end.
pub open spec fn without_one_cr(line: Seq<char>) -> Seq<char> {
    if line.len() > 0 && line.last() == '\r' {
        line.drop_last()
    } else {
        line
    }
}

/// The data lines for the pieces of a text from position `i` on. The last piece is
/// not ended by a line feed; where it is empty, the text ends with one or is empty.
pub open spec fn sse_data(pieces: Seq<Seq<char>>, i: int) -> Seq<char>
    decreases pieces.len() - i,
{
    if i >= pieces.len() {
        seq![]
    } else if i + 1 < pieces.len() {
        "data: "@ + without_one_cr(pieces[i]) + "\n"@ + sse_data(pieces, i + 1)
    } else if pieces[i].len() == 0 {
        "data:\n"@
    } else {
        "data: "@ + pieces[i] + "\n"@
    }
}

/// A field line, unless the value would break the line.
pub open spec fn sse_head(name: Seq<char>, value: Option<Seq<char>>) -> Seq<char> {
    match value {
        Some(v) => if v.contains('\n') || v.contains('\r') {
            seq![]
        } else {
            name + ": "@ + v + "\n"@
        },
        None => seq![],
    }
}

/// The frame of an event: id, name, data, and a blank line.
pub open spec fn sse_frame(
    id: Option<Seq<char>>,
    event: Option<Seq<char>>,
    text: Seq<char>,
) -> Seq<char> {
    sse_head("id"@, id) + sse_head("event"@, event) + sse_data(split(text, '\n'), 0) + "\n"@
}

fn is_one_line(s: &str) -> (res: bool)
    ensures
        res == !(s@.contains('\n') || s@.contains('\r')),
{
    let all = chars_of(s);
    let mut i: usize = 0;
    while i < all.len()
        invariant
            i <= all@.len(),
            all@ == s@,
            forall|k: int| 0 <= k < i ==> all@[k] != '\n' && all@[k] != '\r',
        decreases all@.len() - i,
    {
        if all[i] == '\n' || all[i] == '\r' {
            assert(s@[i as int] == all@[i as int]);
            return false;
        }
        i += 1;
    }
    true
}

fn head_line(name: &str, value: Option<&str>) -> (out: String)
    ensures
        out@ == sse_head(
            name@,
            match value {
                Some(v) => Some(v@),
                None => None,
            },
        ),
{
    match value {
        Some(v) => if is_one_line(v) {
            let mut line = join3(name, ": ", v);
            line.append("\n");
            line
        } else {
            String::new()
        },
        None => String::new(),
    }
}

/// Writes an event as a frame.
pub fn format_sse_text(event_id: Option<&str>, event: Option<&str>, text: &str) -> (out: String)
    ensures
        out@ == sse_frame(text_of_option(event_id), text_of_option(event), text@),
{
    let mut frame = head_line("id", event_id);
    let second = head_line("event", event);
    frame.append(second.as_str());
    let all = chars_of(text);
    let pieces = split_chars(all.as_slice(), '\n');
    let ghost rows = split(text@, '\n');
    let ghost head = frame@;
    let mut i: usize = 0;
    assert(head + sse_data(rows, 0) == frame@ + sse_data(rows, 0));
    while i < pieces.len()
        invariant
            i <= pieces@.len(),
            char_rows(pieces@) == rows,
            frame@ + sse_data(rows, i as int) == head + sse_data(rows, 0),
        decreases pieces@.len() - i,
    {
        assert(char_rows(pieces@)[i as int] == pieces@[i as int]@);
        let ghost before = frame@;
        let piece = &pieces[i];
        if i + 1 < pieces.len() {
            let n: usize = piece.len();
            let end: usize = if n > 0 && piece[n - 1] == '\r' {
                n - 1
            } else {
                n
            };
            let line = string_of(slice_subrange(piece.as_slice(), 0, end));
            assert(line@ =~= without_one_cr(rows[i as int]));
            frame.append("data: ");
            frame.append(line.as_str());
            frame.append("\n");
            assert(frame@ + sse_data(rows, i + 1) =~= before + ("data: "@ + line@ + "\n"@
                + sse_data(rows, i + 1)));
        } else if piece.len() == 0 {
            frame.append("data:\n");
            assert(frame@ + sse_data(rows, i + 1) =~= before + sse_data(rows, i as int));
        } else {
            let line = string_of(piece.as_slice());
            frame.append("data: ");
            frame.append(line.as_str());
            frame.append("\n");
            assert(frame@ + sse_data(rows, i + 1) =~= before + sse_data(rows, i as int));
        }
        i += 1;
    }
    assert(frame@ + sse_data(rows, rows.len() as int) =~= frame@);
    frame.append("\n");
    frame
}

/// The bytes of a frame whose payload is given as bytes.
pub open spec fn sse_frame_bytes(
    id: Option<Seq<char>>,
    event: Option<Seq<char>>,
    payload: Seq<u8>,
) -> Seq<u8> {
    encode_utf8(sse_frame(id, event, lossy_text(payload)))
}

/// Writes an event with a payload of bytes as a frame.
pub fn format_sse_frame(event_id: Option<&str>, event: Option<&str>, payload: &[u8]) -> (out: Vec<
    u8,
>)
    ensures
        out@ == sse_frame_bytes(text_of_option(event_id), text_of_option(event), payload@),
{
    let text = text_of_lossy(payload);
    let frame = format_sse_text(event_id, event, text.as_str());
    copy_bytes(frame.as_str().as_bytes())
}

/// The bytes of a streamed reply.
pub open spec fn stream_reply(format: HttpStreamFormat, message: MessageView) -> Seq<u8> {
    match format {
        HttpStreamFormat::RawChunks => message.payload,
        HttpStreamFormat::Ndjson => message.payload.push(10u8),
        HttpStreamFormat::Sse => sse_frame_bytes(
            Some(
                match lookup(message.metadata, "sse_id"@) {
                    Some(id) => id,
                    None => uuid_text(message.message_id),
                },
            ),
            None,
            message.payload,
        ),
    }
}

/// Writes a streamed reply.
pub fn format_stream_reply(format: HttpStreamFormat, message: &CanonicalMessage) -> (out: Vec<u8>)
    ensures
        out@ == stream_reply(format, message@),
{
    match format {
        HttpStreamFormat::RawChunks => copy_bytes(message.payload.as_slice()),
        HttpStreamFormat::Ndjson => {
            let mut out = copy_bytes(message.payload.as_slice());
            out.push(10);
            out
        },
        HttpStreamFormat::Sse => {
            let event_id = match message.metadata.get("sse_id") {
                Some(id) => id.clone(),
                None => format_id(message.message_id),
            };
            format_sse_frame(Some(event_id.as_str()), None, message.payload.as_slice())
        },
    }
}

/// The bytes of a streamed error.
pub open spec fn stream_error(format: HttpStreamFormat, error: Seq<char>) -> Seq<u8> {
    match format {
        HttpStreamFormat::RawChunks => encode_utf8(error),
        HttpStreamFormat::Ndjson => encode_utf8(
            "{\"error\":"@ + json_string(error) + "}\n"@,
        ),
        HttpStreamFormat::Sse => sse_frame_bytes(None, Some("error"@), encode_utf8(error)),
    }
}

/// Writes a streamed error.
pub fn format_stream_error(format: HttpStreamFormat, error: &str) -> (out: Vec<u8>)
    ensures
        out@ == stream_error(format, error@),
{
    match format {
        HttpStreamFormat::RawChunks => copy_bytes(error.as_bytes()),
        HttpStreamFormat::Ndjson => {
            let value = to_json_string(error);
            let line = join3("{\"error\":", value.as_str(), "}\n");
            copy_bytes(line.as_str().as_bytes())
        },
        HttpStreamFormat::Sse => format_sse_frame(None, Some("error"), error.as_bytes()),
    }
}

/// What is written to the reply stream for a disposition: the reply, nothing for an
/// acknowledgement, and an error for a refusal. Nothing without a reply stream.
pub open spec fn commit_frame(
    disposition: DispositionView,
    has_stream: bool,
    format: HttpStreamFormat,
) -> Option<Seq<u8>> {
    if !has_stream {
        None
    } else {
        match disposition {
            DispositionView::Ack => None,
            DispositionView::Reply(m) => Some(stream_reply(format, m)),
            DispositionView::Nack => Some(stream_error(format, "Message processing failed"@)),
        }
    }
}

/// Decides what is written to the reply stream for a disposition.
pub fn streamable_commit(
    disposition: &MessageDisposition,
    has_stream: bool,
    format: HttpStreamFormat,
) -> (frame: Option<Vec<u8>>)
    ensures
        match frame {
            Some(f) => commit_frame(disposition@, has_stream, format) == Some(f@),
            None => commit_frame(disposition@, has_stream, format) is None,
        },
{
    if !has_stream {
        return None;
    }
    match disposition {
        MessageDisposition::Ack => None,
        MessageDisposition::Reply(message) => Some(format_stream_reply(format, message)),
        MessageDisposition::Nack => Some(format_stream_error(format, "Message processing failed")),
    }
}

} // verus!
