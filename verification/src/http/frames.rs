//! Framing of streamed bodies: raw chunks, newline-delimited JSON and server-sent
//! events.

use vstd::prelude::*;
use vstd::slice::{slice_subrange, slice_to_vec};

use crate::bytes::{
    all_blank, all_blank_bytes, find_bytes, find_pattern, lemma_find_pattern, lemma_find_pattern_is,
    stands,
};
use crate::http::headers::{header_contains_media, header_has_media, Header};
use crate::numbers::{decimal, decimal_text};
use crate::text::{find_from, join3, lemma_find_from};

verus! {

/// How the records of a streamed body are told apart.
#[derive(Debug, Clone, Copy, PartialEq, Eq, Structural)]
pub enum HttpStreamFormat {
    RawChunks,
    Ndjson,
    Sse,
}

/// The name of a format in metadata.
pub open spec fn format_name(format: HttpStreamFormat) -> Seq<char> {
    match format {
        HttpStreamFormat::RawChunks => "raw_chunks"@,
        HttpStreamFormat::Ndjson => "ndjson"@,
        HttpStreamFormat::Sse => "sse"@,
    }
}

impl HttpStreamFormat {
    /// The name of the format in metadata.
    pub fn as_str(self) -> (name: &'static str)
        ensures
            name@ == format_name(self),
    {
        match self {
            HttpStreamFormat::RawChunks => "raw_chunks",
            HttpStreamFormat::Ndjson => "ndjson",
            HttpStreamFormat::Sse => "sse",
        }
    }
}

/// The format that the media types in the field called `name` ask for, if any.
pub open spec fn framed_format(headers: Seq<Header>, name: Seq<char>) -> Option<HttpStreamFormat> {
    if header_has_media(headers, name, "text/event-stream"@) {
        Some(HttpStreamFormat::Sse)
    } else if header_has_media(headers, name, "application/x-ndjson"@) || header_has_media(
        headers,
        name,
        "application/jsonl"@,
    ) {
        Some(HttpStreamFormat::Ndjson)
    } else {
        None
    }
}

/// That format, with raw chunks for none.
pub open spec fn or_raw(format: Option<HttpStreamFormat>) -> HttpStreamFormat {
    match format {
        Some(f) => f,
        None => HttpStreamFormat::RawChunks,
    }
}

fn framed_format_of(headers: &[Header], name: &str) -> (format: Option<HttpStreamFormat>)
    ensures
        format == framed_format(headers@, name@),
{
    if header_contains_media(headers, name, "text/event-stream") {
        Some(HttpStreamFormat::Sse)
    } else if header_contains_media(headers, name, "application/x-ndjson")
        || header_contains_media(headers, name, "application/jsonl") {
        Some(HttpStreamFormat::Ndjson)
    } else {
        None
    }
}

/// The format of a request body, by its content type.
pub fn stream_request_format(headers: &[Header]) -> (format: HttpStreamFormat)
    ensures
        format == or_raw(framed_format(headers@, "content-type"@)),
{
    match framed_format_of(headers, "content-type") {
        Some(f) => f,
        None => HttpStreamFormat::RawChunks,
    }
}

/// The format of a reply, by what the client accepts.
pub fn stream_response_format(headers: &[Header]) -> (format: HttpStreamFormat)
    ensures
        format == or_raw(framed_format(headers@, "accept"@)),
{
    match framed_format_of(headers, "accept") {
        Some(f) => f,
        None => HttpStreamFormat::RawChunks,
    }
}

/// The format of a response that is streamed, by its content type. Any other
/// response is not.
pub fn streaming_response_format_from_headers(headers: &[Header]) -> (format: Option<
    HttpStreamFormat,
>)
    ensures
        format == framed_format(headers@, "content-type"@),
{
    framed_format_of(headers, "content-type")
}

/// The content type of a streamed reply.
pub fn stream_response_content_type(format: HttpStreamFormat) -> (media: &'static str)
    ensures
        media@ == (match format {
            HttpStreamFormat::RawChunks => "application/octet-stream"@,
            HttpStreamFormat::Ndjson => "application/x-ndjson"@,
            HttpStreamFormat::Sse => "text/event-stream"@,
        }),
{
    match format {
        HttpStreamFormat::RawChunks => "application/octet-stream",
        HttpStreamFormat::Ndjson => "application/x-ndjson",
        HttpStreamFormat::Sse => "text/event-stream",
    }
}

/// Refuses a buffered record that has grown past `limit` bytes.
pub fn bound_stream_buffer(buffer: &[u8], limit: u64) -> (res: Result<(), String>)
    ensures
        match res {
            Ok(_) => buffer@.len() <= limit,
            Err(text) => buffer@.len() > limit && text@
                == "stream record exceeds maximum buffered size of "@ + decimal(
                limit as nat,
            ) + " bytes"@,
        },
{
    if buffer.len() as u128 > limit as u128 {
        let number = decimal_text(limit as u128);
        return Err(
            join3("stream record exceeds maximum buffered size of ", number.as_str(), " bytes"),
        );
    }
    Ok(())
}

/// A line without one carriage return at its end.
pub open spec fn without_cr(line: Seq<u8>) -> Seq<u8> {
    if line.len() > 0 && line.last() == 13 {
        line.drop_last()
    } else {
        line
    }
}

/// The records in a buffer of newline-delimited JSON: the lines that are complete
/// and not blank.
pub open spec fn ndjson_records(buffer: Seq<u8>) -> Seq<Seq<u8>>
    decreases buffer.len(),
{
    let p = find_from(buffer, 10u8, 0);
    if 0 <= p < buffer.len() {
        let line = without_cr(buffer.subrange(0, p));
        let later = ndjson_records(buffer.subrange(p + 1, buffer.len() as int));
        if all_blank(line) {
            later
        } else {
            seq![line] + later
        }
    } else {
        seq![]
    }
}

/// What follows the last complete line of a buffer.
pub open spec fn ndjson_rest(buffer: Seq<u8>) -> Seq<u8>
    decreases buffer.len(),
{
    let p = find_from(buffer, 10u8, 0);
    if 0 <= p < buffer.len() {
        ndjson_rest(buffer.subrange(p + 1, buffer.len() as int))
    } else {
        buffer
    }
}

/// The records of a body do not depend on where it is cut into frames: what is read
/// from one frame and then from its rest with the next frame is what is read from
/// both frames at once.
pub proof fn law_ndjson_frames_do_not_matter(a: Seq<u8>, b: Seq<u8>)
    ensures
        ndjson_records(a + b) == ndjson_records(a) + ndjson_records(ndjson_rest(a) + b),
        ndjson_rest(a + b) == ndjson_rest(ndjson_rest(a) + b),
    decreases a.len(),
{
    lemma_find_from(a, 10u8, 0);
    let p = find_from(a, 10u8, 0);
    if p < a.len() {
        lemma_find_from(a + b, 10u8, 0);
        let q = find_from(a + b, 10u8, 0);
        assert((a + b)[p] == 10);
        assert(q == p) by {
            if q < p {
                assert((a + b)[q] == a[q]);
            }
            if q > p {
                assert((a + b)[p] != 10);
            }
        }
        let rest = a.subrange(p + 1, a.len() as int);
        assert((a + b).subrange(0, p) =~= a.subrange(0, p));
        assert((a + b).subrange(p + 1, (a + b).len() as int) =~= rest + b);
        law_ndjson_frames_do_not_matter(rest, b);
        let line = without_cr(a.subrange(0, p));
        if !all_blank(line) {
            assert(seq![line] + (ndjson_records(rest) + ndjson_records(ndjson_rest(rest) + b))
                =~= (seq![line] + ndjson_records(rest)) + ndjson_records(ndjson_rest(rest) + b));
        }
    } else {
        assert(ndjson_records(a) + ndjson_records(a + b) =~= ndjson_records(a + b));
    }
}

/// The byte sequences of a sequence of vectors.
pub open spec fn byte_rows(rows: Seq<Vec<u8>>) -> Seq<Seq<u8>> {
    rows.map_values(|r: Vec<u8>| r@)
}

/// Takes the complete records out of a buffer.
pub fn drain_ndjson(buffer: &mut Vec<u8>) -> (records: Vec<Vec<u8>>)
    ensures
        byte_rows(records@) == ndjson_records(old(buffer)@),
        final(buffer)@ == ndjson_rest(old(buffer)@),
{
    let mut records: Vec<Vec<u8>> = Vec::new();
    let mut start: usize = 0;
    let ghost whole = buffer@;
    assert(whole.subrange(0, whole.len() as int) =~= whole);
    assert(byte_rows(records@) + ndjson_records(whole) =~= ndjson_records(whole));
    loop
        invariant
            buffer@ == whole,
            whole == old(buffer)@,
            start <= whole.len(),
            byte_rows(records@) + ndjson_records(
                whole.subrange(start as int, whole.len() as int),
            ) == ndjson_records(whole),
            ndjson_rest(whole.subrange(start as int, whole.len() as int)) == ndjson_rest(whole),
        ensures
            buffer@ == whole,
            start <= whole.len(),
            byte_rows(records@) == ndjson_records(whole),
            whole.subrange(start as int, whole.len() as int) == ndjson_rest(whole),
        decreases whole.len() - start,
    {
        let total: usize = buffer.len();
        let tail = slice_subrange(buffer.as_slice(), start, total);
        let mut p: usize = 0;
        while p < tail.len() && tail[p] != 10
            invariant
                p <= tail@.len(),
                find_from(tail@, 10u8, 0) == find_from(tail@, 10u8, p as int),
            decreases tail@.len() - p,
        {
            p += 1;
        }
        if p >= tail.len() {
            assert(byte_rows(records@) + Seq::<Seq<u8>>::empty() =~= byte_rows(records@));
            break;
        }
        let end: usize = if p > 0 && tail[p - 1] == 13 {
            p - 1
        } else {
            p
        };
        let line = slice_subrange(tail, 0, end);
        assert(line@ =~= without_cr(tail@.subrange(0, p as int)));
        assert(tail@.subrange(p + 1, tail@.len() as int) =~= whole.subrange(
            start + p + 1,
            whole.len() as int,
        ));
        let ghost before = byte_rows(records@);
        let ghost later = ndjson_records(tail@.subrange(p + 1, tail@.len() as int));
        if !all_blank_bytes(line) {
            records.push(slice_to_vec(line));
            assert(byte_rows(records@) =~= before.push(line@));
            assert(before.push(line@) + later =~= before + (seq![line@] + later));
        }
        start = start + p + 1;
    }
    let rest = slice_to_vec(slice_subrange(buffer.as_slice(), start, buffer.len()));
    *buffer = rest;
    records
}

/// The blank line between events, with bare line feeds.
pub open spec fn lf_end() -> Seq<u8> {
    seq![10u8, 10u8]
}

/// The blank line between events, with carriage returns.
pub open spec fn crlf_end() -> Seq<u8> {
    seq![13u8, 10u8, 13u8, 10u8]
}

/// Where the first complete event of a buffer ends: at the first blank line of
/// either kind, or -1.
pub open spec fn sse_end(buffer: Seq<u8>) -> int {
    let lf = find_pattern(buffer, lf_end(), 0);
    let crlf = find_pattern(buffer, crlf_end(), 0);
    if lf == -1 {
        crlf
    } else if crlf == -1 || lf <= crlf {
        lf
    } else {
        crlf
    }
}

/// Where the first complete event of a buffer ends.
pub fn find_sse_event_end(buffer: &[u8]) -> (end: Option<usize>)
    ensures
        match end {
            Some(e) => sse_end(buffer@) == e && e + 2 <= buffer@.len() && (stands(
                buffer@,
                crlf_end(),
                e as int,
            ) ==> e + 4 <= buffer@.len()),
            None => sse_end(buffer@) == -1,
        },
{
    let two: [u8; 2] = [10, 10];
    let four: [u8; 4] = [13, 10, 13, 10];
    assert(two@ =~= lf_end());
    assert(four@ =~= crlf_end());
    let lf = find_bytes(buffer, two.as_slice(), 0);
    let crlf = find_bytes(buffer, four.as_slice(), 0);
    match lf {
        Some(a) => match crlf {
            Some(b) => if a <= b {
                Some(a)
            } else {
                Some(b)
            },
            None => Some(a),
        },
        None => crlf,
    }
}

/// How long the blank line at `end` is.
pub open spec fn sse_gap(buffer: Seq<u8>, end: int) -> int {
    if stands(buffer, crlf_end(), end) {
        4
    } else {
        2
    }
}

/// A found end leaves room for its blank line.
pub proof fn lemma_sse_end(buffer: Seq<u8>)
    ensures
        sse_end(buffer) == -1 || (0 <= sse_end(buffer) && sse_end(buffer) + sse_gap(
            buffer,
            sse_end(buffer),
        ) <= buffer.len()),
{
    lemma_find_pattern(buffer, lf_end(), 0);
    lemma_find_pattern(buffer, crlf_end(), 0);
}

/// The bytes of the complete events in a buffer.
pub open spec fn sse_events(buffer: Seq<u8>) -> Seq<Seq<u8>>
    decreases buffer.len(),
{
    let e = sse_end(buffer);
    let next = e + sse_gap(buffer, e);
    if 0 <= e && next <= buffer.len() {
        seq![buffer.subrange(0, e)] + sse_events(buffer.subrange(next, buffer.len() as int))
    } else {
        seq![]
    }
}

/// What follows the last complete event of a buffer.
pub open spec fn sse_rest(buffer: Seq<u8>) -> Seq<u8>
    decreases buffer.len(),
{
    let e = sse_end(buffer);
    let next = e + sse_gap(buffer, e);
    if 0 <= e && next <= buffer.len() {
        sse_rest(buffer.subrange(next, buffer.len() as int))
    } else {
        buffer
    }
}

/// An end that is found stays where it is when more bytes arrive.
proof fn lemma_sse_end_is_stable(a: Seq<u8>, b: Seq<u8>)
    requires
        sse_end(a) != -1,
    ensures
        sse_end(a + b) == sse_end(a),
        sse_gap(a + b, sse_end(a)) == sse_gap(a, sse_end(a)),
{
    let s = a + b;
    let e = sse_end(a);
    lemma_find_pattern(a, lf_end(), 0);
    lemma_find_pattern(a, crlf_end(), 0);
    lemma_find_pattern(s, lf_end(), 0);
    lemma_find_pattern(s, crlf_end(), 0);
    assert forall|k: int| stands(a, lf_end(), k) implies #[trigger] stands(s, lf_end(), k) by {
        assert(s.subrange(k, k + 2) =~= a.subrange(k, k + 2));
    }
    assert forall|k: int| stands(a, crlf_end(), k) implies #[trigger] stands(s, crlf_end(), k) by {
        assert(s.subrange(k, k + 4) =~= a.subrange(k, k + 4));
    }
    assert forall|k: int| 0 <= k < e implies !#[trigger] stands(s, lf_end(), k) by {
        if stands(s, lf_end(), k) {
            assert(a.subrange(k, k + 2) =~= s.subrange(k, k + 2));
            assert(stands(a, lf_end(), k));
        }
    }
    assert forall|k: int| 0 <= k <= e && !stands(a, crlf_end(), k) implies !#[trigger] stands(
        s,
        crlf_end(),
        k,
    ) by {
        if stands(s, crlf_end(), k) {
            let w = s.subrange(k, k + 4);
            assert(w[0] == 13 && w[1] == 10 && w[2] == 13 && w[3] == 10);
            assert(s[k] == 13 && s[k + 1] == 10 && s[k + 2] == 13 && s[k + 3] == 10);
            if k + 4 <= a.len() {
                assert(a.subrange(k, k + 4) =~= w);
            } else if stands(a, lf_end(), e) {
                let v = a.subrange(e, e + 2);
                assert(v[0] == 10 && v[1] == 10);
                assert(s[e] == 10 && s[e + 1] == 10);
            } else {
                assert(stands(a, crlf_end(), e));
            }
        }
    }
    if stands(a, lf_end(), e) {
        lemma_find_pattern_is(s, lf_end(), 0, e);
        let v = a.subrange(e, e + 2);
        assert(v[0] == 10 && v[1] == 10);
        assert(a[e] == 10);
        if stands(a, crlf_end(), e) {
            assert(a.subrange(e, e + 4)[0] == 13);
        }
        assert(!stands(a, crlf_end(), e));
    } else {
        assert(stands(a, crlf_end(), e));
        assert forall|k: int| 0 <= k < e implies !#[trigger] stands(s, crlf_end(), k) by {
            assert(!stands(a, crlf_end(), k));
        }
        lemma_find_pattern_is(s, crlf_end(), 0, e);
    }
}

/// The events of a body do not depend on where it is cut into frames.
pub proof fn law_sse_frames_do_not_matter(a: Seq<u8>, b: Seq<u8>)
    ensures
        sse_events(a + b) == sse_events(a) + sse_events(sse_rest(a) + b),
        sse_rest(a + b) == sse_rest(sse_rest(a) + b),
    decreases a.len(),
{
    lemma_sse_end(a);
    let e = sse_end(a);
    if e == -1 {
        assert(sse_events(a) + sse_events(a + b) =~= sse_events(a + b));
    } else {
        lemma_sse_end_is_stable(a, b);
        let next = e + sse_gap(a, e);
        let rest = a.subrange(next, a.len() as int);
        assert((a + b).subrange(0, e) =~= a.subrange(0, e));
        assert((a + b).subrange(next, (a + b).len() as int) =~= rest + b);
        law_sse_frames_do_not_matter(rest, b);
        let first = seq![a.subrange(0, e)];
        assert(first + (sse_events(rest) + sse_events(sse_rest(rest) + b)) =~= (first + sse_events(
            rest,
        )) + sse_events(sse_rest(rest) + b));
    }
}

} // verus!
