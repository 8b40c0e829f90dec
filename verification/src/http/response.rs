//! Responses to requests.

use vstd::prelude::*;
use vstd::utf8::encode_utf8;

use crate::http::content::{has_content_type_header, names_content_type};
use crate::http::gzip::{compress_if_needed, sent_body};
use crate::http::headers::{has_header, header_position, header_text, header_value, Header};
use crate::http::request::{request_metadata_matches, request_value, RequestHead, HTTP_STATUS_CODE};
use crate::message::{
    copy_bytes, lookup, DispositionView, MessageDisposition, MessageView, Metadata, Pairs,
};
use crate::numbers::{parse_unsigned, unsigned_value};
use crate::text::{
    chars_of, contains, lower_chars, same, same_chars, same_ignoring_case, same_text_ignoring_case,
    text_contains, trim, trim_chars,
};

verus! {

/// A response: a status, a content type that is sent as the bytes that it came as,
/// header fields in the order in which they are added behind it, and a body that may be
/// sent as a stream.
#[derive(Debug)]
pub struct HttpResponse {
    pub status: u16,
    pub raw_type: Option<Vec<u8>>,
    pub headers: Metadata,
    pub body: Vec<u8>,
    pub streaming: bool,
}

/// A response over mathematical values.
pub struct ResponseView {
    pub status: u16,
    pub raw_type: Option<Seq<u8>>,
    pub headers: Pairs,
    pub body: Seq<u8>,
    pub streaming: bool,
}

impl View for HttpResponse {
    type V = ResponseView;

    open spec fn view(&self) -> ResponseView {
        ResponseView {
            status: self.status,
            raw_type: match self.raw_type {
                Some(bytes) => Some(bytes@),
                None => None,
            },
            headers: self.headers@,
            body: self.body@,
            streaming: self.streaming,
        }
    }
}

/// A response that is not streamed.
pub open spec fn plain_response(status: u16, headers: Pairs, body: Seq<u8>) -> ResponseView {
    ResponseView { status, raw_type: None, headers, body, streaming: false }
}

/// Adds a header field behind those that are there.
pub fn add_header(headers: &mut Metadata, name: &str, value: &str)
    ensures
        final(headers)@ == old(headers)@.push((name@, value@)),
{
    headers.entries.push((name.to_owned(), value.to_owned()));
    assert(headers@ =~= old(headers)@.push((name@, value@)));
}

/// Adds header fields behind those that are there.
pub fn add_headers(headers: &mut Metadata, more: &Metadata)
    ensures
        final(headers)@ == old(headers)@ + more@,
{
    let mut i: usize = 0;
    assert(headers@ =~= old(headers)@ + more@.take(0));
    while i < more.entries.len()
        invariant
            i <= more.entries@.len(),
            headers@ == old(headers)@ + more@.take(i as int),
        decreases more.entries@.len() - i,
    {
        let ghost before = headers@;
        assert(more@[i as int] == (more.entries@[i as int].0@, more.entries@[i as int].1@));
        add_header(headers, more.entries[i].0.as_str(), more.entries[i].1.as_str());
        assert(headers@ =~= old(headers)@ + more@.take(i + 1));
        i += 1;
    }
    assert(more@.take(more@.len() as int) =~= more@);
}

/// The fields of an error response: the custom ones, and a content type if the
/// client takes text and none is among them.
pub open spec fn error_headers(custom: Option<Pairs>, accepts_text: bool) -> Pairs {
    let base = match custom {
        Some(c) => c,
        None => Pairs::empty(),
    };
    if accepts_text && !names_content_type(base) {
        base.push(("content-type"@, "text/plain; charset=utf-8"@))
    } else {
        base
    }
}

/// An error response with a text.
pub open spec fn error_response(
    status: u16,
    text: Seq<char>,
    accepts_text: bool,
    custom: Option<Pairs>,
) -> ResponseView {
    plain_response(status, error_headers(custom, accepts_text), encode_utf8(text))
}

/// Optional header fields over mathematical values.
pub open spec fn opt_pairs(headers: Option<&Metadata>) -> Option<Pairs> {
    match headers {
        Some(h) => Some(h@),
        None => None,
    }
}

/// An error response with a text.
pub fn text_error_response(
    status: u16,
    text: &str,
    accepts_text: bool,
    custom_headers: Option<&Metadata>,
) -> (response: HttpResponse)
    ensures
        response@ == error_response(status, text@, accepts_text, opt_pairs(custom_headers)),
{
    let mut headers = match custom_headers {
        Some(h) => h.copy(),
        None => Metadata::new(),
    };
    if accepts_text && !has_content_type_header(&headers) {
        add_header(&mut headers, "content-type", "text/plain; charset=utf-8");
    }
    HttpResponse {
        status,
        raw_type: None,
        headers,
        body: copy_bytes(text.as_bytes()),
        streaming: false,
    }
}

/// Whether a number is a status code.
pub open spec fn is_status(code: int) -> bool {
    100 <= code <= 999
}

/// The status of a reply: the one that its metadata sets, or 200.
pub open spec fn reply_status(metadata: Pairs) -> u16 {
    match lookup(metadata, HTTP_STATUS_CODE@) {
        Some(text) => match unsigned_value(text, 10, u16::MAX as int) {
            Some(code) => if is_status(code) {
                code as u16
            } else {
                200
            },
            None => 200,
        },
        None => 200,
    }
}

fn status_of(metadata: &Metadata) -> (status: u16)
    ensures
        status == reply_status(metadata@),
{
    match metadata.get(HTTP_STATUS_CODE) {
        Some(text) => match parse_unsigned(text.as_str(), 10, 65535) {
            Some(code) => if 100 <= code && code <= 999 {
                code as u16
            } else {
                200
            },
            None => 200,
        },
        None => 200,
    }
}

/// What the metadata of a reply makes of its response.
pub struct ReplyFields {
    pub headers: Pairs,
    pub has_content_type: bool,
    pub streaming: bool,
    /// The encoding that the application has applied to the body itself.
    pub encoding: Option<Seq<char>>,
}

/// The fields after one more value. The status is no field; a value that the request
/// itself had under that name is not sent back, but a content type always is;
/// encodings and the length are the server's to say.
pub open spec fn reply_field(
    f: ReplyFields,
    key: Seq<char>,
    value: Seq<char>,
    request: Option<RequestHead>,
) -> ReplyFields {
    let is_type = same_ignoring_case(key, "content-type"@);
    let is_transfer = same_ignoring_case(key, "transfer-encoding"@);
    let is_encoding = same_ignoring_case(key, "content-encoding"@);
    if key == HTTP_STATUS_CODE@ {
        f
    } else if !is_type && request is Some && request_value(request->0, key) == Some(value) {
        f
    } else {
        ReplyFields {
            headers: if is_encoding || is_transfer || same_ignoring_case(key, "content-length"@) {
                f.headers
            } else {
                f.headers.push((key, value))
            },
            has_content_type: f.has_content_type || is_type,
            streaming: f.streaming || (is_type && contains(value, "text/event-stream"@)) || (
            !is_type && is_transfer && contains(value, "chunked"@)),
            encoding: if !is_type && !(is_transfer && contains(value, "chunked"@)) && is_encoding
                && !same_ignoring_case(trim(value), "identity"@) {
                Some(value)
            } else {
                f.encoding
            },
        }
    }
}

/// The fields after all the values.
pub open spec fn reply_fields(metadata: Pairs, request: Option<RequestHead>) -> ReplyFields
    decreases metadata.len(),
{
    if metadata.len() == 0 {
        ReplyFields {
            headers: Pairs::empty(),
            has_content_type: false,
            streaming: false,
            encoding: None,
        }
    } else {
        reply_field(
            reply_fields(metadata.drop_last(), request),
            metadata.last().0,
            metadata.last().1,
            request,
        )
    }
}

/// What the metadata of a reply makes of its response.
#[derive(Debug)]
pub struct ReplySummary {
    pub headers: Metadata,
    pub has_content_type: bool,
    pub streaming: bool,
    pub encoding: Option<String>,
}

impl ReplySummary {
    /// Whether this summary holds these fields.
    pub open spec fn is(self, f: ReplyFields) -> bool {
        &&& self.headers@ == f.headers
        &&& self.has_content_type == f.has_content_type
        &&& self.streaming == f.streaming
        &&& match self.encoding {
            Some(e) => f.encoding == Some(e@),
            None => f.encoding is None,
        }
    }
}

/// An optional request over its value.
pub open spec fn opt_head(request: Option<&RequestHead>) -> Option<RequestHead> {
    match request {
        Some(r) => Some(*r),
        None => None,
    }
}

/// Reads the metadata of a reply.
pub fn summarize_reply(metadata: &Metadata, request: Option<&RequestHead>) -> (s: ReplySummary)
    ensures
        s.is(reply_fields(metadata@, opt_head(request))),
{
    let mut s = ReplySummary {
        headers: Metadata::new(),
        has_content_type: false,
        streaming: false,
        encoding: None,
    };
    let ghost head = opt_head(request);
    let mut i: usize = 0;
    while i < metadata.entries.len()
        invariant
            i <= metadata.entries@.len(),
            head == opt_head(request),
            s.is(reply_fields(metadata@.take(i as int), head)),
        decreases metadata.entries@.len() - i,
    {
        let ghost f = reply_fields(metadata@.take(i as int), head);
        assert(metadata@.take(i + 1).drop_last() =~= metadata@.take(i as int));
        assert(metadata@.take(i + 1).last() == (
            metadata.entries@[i as int].0@,
            metadata.entries@[i as int].1@,
        ));
        let key = metadata.entries[i].0.as_str();
        let value = metadata.entries[i].1.as_str();
        i += 1;
        if same(key, HTTP_STATUS_CODE) {
            continue;
        }
        let is_type = same_text_ignoring_case(key, "content-type");
        let echoed = match request {
            Some(r) => request_metadata_matches(r, key, value),
            None => false,
        };
        if !is_type && echoed {
            continue;
        }
        let is_transfer = same_text_ignoring_case(key, "transfer-encoding");
        let is_encoding = same_text_ignoring_case(key, "content-encoding");
        if is_type {
            s.has_content_type = true;
            if text_contains(value, "text/event-stream") {
                s.streaming = true;
            }
        } else if is_transfer && text_contains(value, "chunked") {
            s.streaming = true;
        } else if is_encoding {
            let all = chars_of(value);
            let trimmed = lower_chars(trim_chars(all.as_slice()));
            let identity = lower_chars(chars_of("identity").as_slice());
            if !same_chars(trimmed.as_slice(), identity.as_slice()) {
                s.encoding = Some(value.to_owned());
            }
        }
        if !is_encoding && !is_transfer && !same_text_ignoring_case(key, "content-length") {
            add_header(&mut s.headers, key, value);
        }
    }
    assert(metadata@.take(metadata@.len() as int) =~= metadata@);
    s
}

/// The response for a reply, given the body that is sent and whether the server has
/// compressed it.
pub open spec fn reply_response(
    status: u16,
    f: ReplyFields,
    body: Seq<u8>,
    compressed: bool,
    custom: Pairs,
) -> ResponseView {
    let a = if !f.has_content_type && status == 200 {
        f.headers.push(("content-type"@, "application/octet-stream"@))
    } else {
        f.headers
    };
    let b = match f.encoding {
        Some(e) => a.push(("Content-Encoding"@, e)),
        None => a,
    };
    let c = if compressed {
        b.push(("Content-Encoding"@, "gzip"@))
    } else {
        b
    };
    ResponseView { status, raw_type: None, headers: c + custom, body, streaming: f.streaming }
}

/// Makes the response for a reply of the body that is sent.
pub fn finish_reply(
    status: u16,
    summary: ReplySummary,
    body: Vec<u8>,
    compressed: bool,
    custom_headers: &Metadata,
) -> (response: HttpResponse)
    ensures
        forall|f: ReplyFields|
            summary.is(f) ==> response@ == #[trigger] reply_response(
                status,
                f,
                body@,
                compressed,
                custom_headers@,
            ),
{
    let mut headers = summary.headers;
    if !summary.has_content_type && status == 200 {
        add_header(&mut headers, "content-type", "application/octet-stream");
    }
    if let Some(encoding) = &summary.encoding {
        add_header(&mut headers, "Content-Encoding", encoding.as_str());
    }
    if compressed {
        add_header(&mut headers, "Content-Encoding", "gzip");
    }
    add_headers(&mut headers, custom_headers);
    HttpResponse { status, raw_type: None, headers, body, streaming: summary.streaming }
}

/// The settings of a server that shape its responses.
#[derive(Debug)]
pub struct ResponseSettings {
    pub compression_enabled: bool,
    pub compression_threshold_bytes: usize,
    pub custom_headers: Metadata,
}

/// The response for a disposition, or why its body could not be compressed.
pub open spec fn response_for(
    disposition: DispositionView,
    settings: ResponseSettings,
    client_accepts_gzip: bool,
    accepts_text: bool,
    request: Option<RequestHead>,
) -> Result<ResponseView, Seq<char>> {
    match disposition {
        DispositionView::Reply(m) => {
            let f = reply_fields(m.metadata, request);
            let sent = if f.encoding is Some {
                Ok((m.payload, false))
            } else {
                sent_body(
                    m.payload,
                    settings.compression_enabled && client_accepts_gzip,
                    settings.compression_threshold_bytes,
                )
            };
            match sent {
                Ok((body, compressed)) => Ok(
                    reply_response(
                        reply_status(m.metadata),
                        f,
                        body,
                        compressed,
                        settings.custom_headers@,
                    ),
                ),
                Err(e) => Err(e),
            }
        },
        DispositionView::Ack => Ok(
            plain_response(202, settings.custom_headers@, encode_utf8("Message processed"@)),
        ),
        DispositionView::Nack => Ok(
            error_response(
                500,
                "Message processing failed"@,
                accepts_text,
                Some(settings.custom_headers@),
            ),
        ),
    }
}

/// A response or a text that says why there is none, over mathematical values.
pub open spec fn response_or_text(r: Result<HttpResponse, String>) -> Result<
    ResponseView,
    Seq<char>,
> {
    match r {
        Ok(response) => Ok(response@),
        Err(e) => Err(e@),
    }
}

/// Makes the response for a disposition. An error means that the body could not be
/// compressed; without compression there is none.
pub fn make_response(
    disposition: MessageDisposition,
    settings: &ResponseSettings,
    client_accepts_gzip: bool,
    accepts_text: bool,
    request: Option<&RequestHead>,
) -> (res: Result<HttpResponse, String>)
    ensures
        response_or_text(res) == response_for(
            disposition@,
            *settings,
            client_accepts_gzip,
            accepts_text,
            opt_head(request),
        ),
{
    match disposition {
        MessageDisposition::Reply(message) => {
            let status: u16 = status_of(&message.metadata);
            let summary = summarize_reply(&message.metadata, request);
            if summary.encoding.is_some() {
                return Ok(
                    finish_reply(
                        status,
                        summary,
                        message.payload,
                        false,
                        &settings.custom_headers,
                    ),
                );
            }
            match compress_if_needed(
                message.payload,
                settings.compression_enabled && client_accepts_gzip,
                settings.compression_threshold_bytes,
            ) {
                Ok((body, compressed)) => Ok(
                    finish_reply(status, summary, body, compressed, &settings.custom_headers),
                ),
                Err(e) => Err(e),
            }
        },
        MessageDisposition::Ack => Ok(
            HttpResponse {
                status: 202,
                raw_type: None,
                headers: settings.custom_headers.copy(),
                body: copy_bytes("Message processed".as_bytes()),
                streaming: false,
            },
        ),
        MessageDisposition::Nack => Ok(
            text_error_response(
                500,
                "Message processing failed",
                accepts_text,
                Some(&settings.custom_headers),
            ),
        ),
    }
}

/// A reply that the application has encoded itself is never encoded again: its body
/// goes out as it is.
pub proof fn law_encoded_replies_are_not_encoded_again(
    message: MessageView,
    settings: ResponseSettings,
    client_accepts_gzip: bool,
    accepts_text: bool,
    request: Option<RequestHead>,
)
    requires
        reply_fields(message.metadata, request).encoding is Some,
    ensures
        response_for(
            DispositionView::Reply(message),
            settings,
            client_accepts_gzip,
            accepts_text,
            request,
        ) matches Ok(r) && r.body == message.payload,
{
}

/// A client that does not take gzip gets the payload as it is.
pub proof fn law_no_gzip_for_clients_without_it(
    message: MessageView,
    settings: ResponseSettings,
    accepts_text: bool,
    request: Option<RequestHead>,
)
    ensures
        response_for(
            DispositionView::Reply(message),
            settings,
            false,
            accepts_text,
            request,
        ) matches Ok(r) && r.body == message.payload,
{
}

/// The textual content type that an echo sends: the request's, or one for any bytes
/// where the request has none.
pub open spec fn echoed_type(content_type: Option<Header>) -> Pairs {
    match content_type {
        Some(h) => match h.text {
            Some(t) => seq![("content-type"@, t@)],
            None => Pairs::empty(),
        },
        None => seq![("content-type"@, "application/octet-stream"@)],
    }
}

/// The response of a route that only echoes: the request's content type and body. A
/// content type that is not visible text goes back as the bytes that it came as.
pub open spec fn echo_response(
    content_type: Option<Header>,
    body: (Seq<u8>, bool),
    custom: Pairs,
) -> ResponseView {
    let a = echoed_type(content_type);
    let b = if body.1 {
        a.push(("Content-Encoding"@, "gzip"@))
    } else {
        a
    };
    ResponseView {
        raw_type: match content_type {
            Some(h) => if h.text is None {
                Some(h.raw@)
            } else {
                None
            },
            None => None,
        },
        ..plain_response(200, b + custom, body.0)
    }
}

/// Makes the response of a route that only echoes. `content_type` is the request's.
/// An error means that the body could not be compressed.
pub fn inline_echo_response(
    content_type: Option<&Header>,
    body: Vec<u8>,
    settings: &ResponseSettings,
    client_accepts_gzip: bool,
) -> (res: Result<HttpResponse, String>)
    ensures
        response_or_text(res) == (match sent_body(
            body@,
            settings.compression_enabled && client_accepts_gzip,
            settings.compression_threshold_bytes,
        ) {
            Ok(sent) => Ok(
                echo_response(
                    match content_type {
                        Some(h) => Some(*h),
                        None => None,
                    },
                    sent,
                    settings.custom_headers@,
                ),
            ),
            Err(e) => Err(e),
        }),
{
    let (sent, compressed) = match compress_if_needed(
        body,
        settings.compression_enabled && client_accepts_gzip,
        settings.compression_threshold_bytes,
    ) {
        Ok(pair) => pair,
        Err(e) => {
            return Err(e);
        },
    };
    let mut headers = Metadata::new();
    let mut raw_type: Option<Vec<u8>> = None;
    match content_type {
        Some(h) => match &h.text {
            Some(t) => add_header(&mut headers, "content-type", t.as_str()),
            None => {
                raw_type = Some(copy_bytes(h.raw.as_slice()));
            },
        },
        None => add_header(&mut headers, "content-type", "application/octet-stream"),
    }
    assert(headers@ =~= echoed_type(
        match content_type {
            Some(h) => Some(*h),
            None => None,
        },
    ));
    if compressed {
        add_header(&mut headers, "Content-Encoding", "gzip");
    }
    add_headers(&mut headers, &settings.custom_headers);
    Ok(HttpResponse { status: 200, raw_type, headers, body: sent, streaming: false })
}

/// Whether a request with these headers can be echoed without looking at its
/// metadata: nothing in them asks for another status, encoding or a stream.
pub open spec fn echo_applies(inline_echo: bool, streamable: bool, headers: Seq<Header>) -> bool {
    &&& inline_echo && !streamable
    &&& !has_header(headers, "content-encoding"@)
    &&& !has_header(headers, "transfer-encoding"@)
    &&& !has_header(headers, HTTP_STATUS_CODE@)
    &&& !(header_value(headers, "content-type"@) matches Some(t) && contains(
        t,
        "text/event-stream"@,
    ))
}

/// Decides whether a request can be echoed without looking at its metadata.
pub fn inline_echo_fast_path_applies(
    inline_echo: bool,
    receive_streamable: bool,
    headers: &[Header],
) -> (res: bool)
    ensures
        res == echo_applies(inline_echo, receive_streamable, headers@),
{
    if !inline_echo || receive_streamable {
        return false;
    }
    if header_position(headers, "content-encoding") < headers.len() || header_position(
        headers,
        "transfer-encoding",
    ) < headers.len() || header_position(headers, HTTP_STATUS_CODE) < headers.len() {
        return false;
    }
    match header_text(headers, "content-type") {
        Some(text) => !text_contains(text.as_str(), "text/event-stream"),
        None => true,
    }
}

} // verus!
