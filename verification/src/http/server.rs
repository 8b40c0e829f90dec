//! Answering requests.
//!
//! A request passes through stages: it is routed, admitted, its body is read, the
//! message is handed to the output, and the answer is made of what came back. Between
//! the stages the server waits; each function here takes what the wait has brought and
//! says what comes next.

use vstd::prelude::*;
use vstd::utf8::encode_utf8;

use crate::http::auth::{auth_refusal, authorize, config_auth, credentials};
use crate::http::content::{http_version_str, version_text};
use crate::http::frames::{
    framed_format, or_raw, stream_request_format, stream_response_content_type,
    stream_response_format, HttpStreamFormat,
};
use crate::http::gzip::{decompress_if_needed, plain_body};
use crate::http::headers::{header_text, header_value, Header};
use crate::http::request::{RequestHead, HTTP_METHOD, HTTP_PATH, HTTP_QUERY, HTTP_VERSION};
use crate::http::response::{
    add_header, add_headers, echo_applies, error_response, inline_echo_fast_path_applies,
    make_response, plain_response, response_for, response_or_text, text_error_response,
    HttpResponse, ResponseSettings, ResponseView,
};
use crate::http::router::{
    allows, is_best, key_views, on_method, on_path, strictly_sorted, KeyView, RouteMatchResult,
    SharedHttpRouter,
};
use crate::ids::{header_id, is_v7, parse_header_id};
use crate::message::{
    copy_bytes, with, CanonicalMessage, DispositionView, MessageDisposition, Metadata, Pairs, Sent,
    SentView,
};
use crate::text::{join2, join3, same, same_ignoring_case, same_text_ignoring_case, texts};

verus! {

/// Texts with a separator between them.
pub open spec fn joined(parts: Seq<Seq<char>>, sep: Seq<char>) -> Seq<char>
    decreases parts.len(),
{
    if parts.len() == 0 {
        seq![]
    } else if parts.len() == 1 {
        parts[0]
    } else {
        joined(parts.drop_last(), sep) + sep + parts.last()
    }
}

fn join_with(parts: &Vec<String>, sep: &str) -> (out: String)
    ensures
        out@ == joined(texts(parts@), sep@),
{
    let ghost rows = texts(parts@);
    if parts.len() == 0 {
        return String::new();
    }
    let mut out = parts[0].clone();
    let mut i: usize = 1;
    assert(rows.take(1)[0] == out@);
    while i < parts.len()
        invariant
            1 <= i <= parts@.len(),
            rows == texts(parts@),
            out@ == joined(rows.take(i as int), sep@),
        decreases parts@.len() - i,
    {
        assert(rows.take(i + 1).drop_last() =~= rows.take(i as int));
        out.append(sep);
        out.append(parts[i].as_str());
        assert(out@ =~= joined(rows.take(i as int), sep@) + sep@ + rows[i as int]);
        i += 1;
    }
    assert(rows.take(rows.len() as int) =~= rows);
    out
}

/// What routing a request gives.
#[derive(Debug)]
pub enum Routed {
    /// To the consumer at this position of the table.
    To(usize),
    Respond(HttpResponse),
}

/// The fields of the response to a method that is not allowed.
pub open spec fn allow_headers(methods: Seq<Seq<char>>) -> Pairs {
    if methods.len() == 0 {
        Pairs::empty()
    } else {
        with(Pairs::empty(), "Allow"@, joined(methods, ", "@))
    }
}

/// Whether this is what routing a request gives: the consumer whose registration
/// fits it best; where only the path is known, the methods that it allows, in order;
/// and else that the path is not found.
pub open spec fn is_routing(
    keys: Seq<KeyView>,
    path: Seq<char>,
    method: Seq<char>,
    accepts_text: bool,
    res: Routed,
) -> bool {
    match res {
        Routed::To(i) => is_best(keys, path, method, i as int),
        Routed::Respond(response) => {
            ||| {
                &&& forall|j: int|
                    0 <= j < keys.len() ==> !on_path(#[trigger] keys[j], path)
                &&& response@ == error_response(
                    404,
                    "No HTTP consumer registered for this path"@,
                    accepts_text,
                    None,
                )
            }
            ||| {
                &&& exists|j: int| 0 <= j < keys.len() && on_path(#[trigger] keys[j], path)
                &&& forall|j: int|
                    0 <= j < keys.len() && on_path(#[trigger] keys[j], path) ==> !on_method(
                        keys[j],
                        method,
                    )
                &&& exists|methods: Seq<Seq<char>>| #[trigger]
                    strictly_sorted(methods) && (forall|m: Seq<char>| #[trigger]
                        methods.contains(m) <==> allows(keys, path, m)) && response@
                        == error_response(
                        405,
                        "Method "@ + method + " not allowed"@,
                        accepts_text,
                        Some(allow_headers(methods)),
                    )
            }
        },
    }
}

/// Finds the consumer for a request. A known path with another method is answered
/// with the methods that it allows, in order; an unknown path is not found.
pub fn route_request(
    router: &SharedHttpRouter,
    path: &str,
    method: &str,
    accepts_text: bool,
) -> (res: Routed)
    ensures
        is_routing(key_views(router.routes@), path@, method@, accepts_text, res),
{
    match router.match_route(path, method) {
        RouteMatchResult::Matched(i) => Routed::To(i),
        RouteMatchResult::MethodNotAllowed(methods) => {
            let mut headers = Metadata::new();
            if methods.len() > 0 {
                let list = join_with(&methods, ", ");
                headers.put("Allow", list.as_str());
            }
            assert(headers@ == allow_headers(texts(methods@)));
            let text = join3("Method ", method, " not allowed");
            assert(strictly_sorted(texts(methods@)));
            Routed::Respond(
                text_error_response(405, text.as_str(), accepts_text, Some(&headers)),
            )
        },
        RouteMatchResult::NotFound => Routed::Respond(
            text_error_response(
                404,
                "No HTTP consumer registered for this path",
                accepts_text,
                None,
            ),
        ),
    }
}

/// The settings of a consumer.
#[derive(Debug)]
pub struct HttpConsumerState {
    /// Whether an output answers inline, in place of the pipeline.
    pub inline: bool,
    /// Whether that output only echoes.
    pub inline_echo: bool,
    pub message_id_header: String,
    pub request_timeout_ms: u64,
    pub fire_and_forget: bool,
    pub receive_streamable: bool,
    pub basic_auth: Option<(String, String)>,
    pub response: ResponseSettings,
    pub concurrency_limit: usize,
}

impl HttpConsumerState {
    /// The credentials that are asked for.
    pub open spec fn expected(self) -> Option<(Seq<char>, Seq<char>)> {
        credentials(config_auth(self.basic_auth))
    }

    /// The header fields that are added to responses.
    pub open spec fn custom(self) -> Pairs {
        self.response.custom_headers@
    }
}

/// Whether a header may not stand in for what the server itself says of a request.
pub open spec fn is_reserved(name: Seq<char>) -> bool {
    ||| name == HTTP_METHOD@
    ||| name == HTTP_PATH@
    ||| name == HTTP_QUERY@
    ||| name == HTTP_VERSION@
    ||| same_ignoring_case(name, "tls_cipher_suite"@)
    ||| same_ignoring_case(name, "tls_protocol_version"@)
}

fn is_reserved_name(name: &str) -> (res: bool)
    ensures
        res == is_reserved(name@),
{
    same(name, HTTP_METHOD) || same(name, HTTP_PATH) || same(name, HTTP_QUERY) || same(
        name,
        HTTP_VERSION,
    ) || same_text_ignoring_case(name, "tls_cipher_suite") || same_text_ignoring_case(
        name,
        "tls_protocol_version",
    )
}

/// The metadata that the server itself says of a request.
pub open spec fn line_metadata(request: RequestHead) -> Pairs {
    let a = with(Pairs::empty(), HTTP_METHOD@, request.method@);
    let b = with(a, HTTP_PATH@, request.path@);
    let c = with(
        b,
        HTTP_QUERY@,
        match request.query {
            Some(q) => q@,
            None => Seq::empty(),
        },
    );
    let d = with(c, HTTP_VERSION@, version_text(request.version));
    let e = match request.conn_info.cipher_suite {
        Some(s) => with(d, "tls_cipher_suite"@, s@),
        None => d,
    };
    match request.conn_info.protocol_version {
        Some(s) => with(e, "tls_protocol_version"@, s@),
        None => e,
    }
}

/// Metadata with the headers added, the textual ones that are not reserved. A later
/// header replaces an earlier one of the same name.
pub open spec fn header_metadata(base: Pairs, headers: Seq<Header>) -> Pairs
    decreases headers.len(),
{
    if headers.len() == 0 {
        base
    } else {
        let rest = header_metadata(base, headers.drop_last());
        let h = headers.last();
        match h.text {
            Some(text) => if is_reserved(h.name@) {
                rest
            } else {
                with(rest, h.name@, text@)
            },
            None => rest,
        }
    }
}

/// The content encoding of a request: the last one that is given as text.
pub open spec fn request_encoding(headers: Seq<Header>) -> Option<Seq<char>>
    decreases headers.len(),
{
    if headers.len() == 0 {
        None
    } else {
        let h = headers.last();
        match h.text {
            Some(text) => if same_ignoring_case(h.name@, "content-encoding"@) {
                Some(text@)
            } else {
                request_encoding(headers.drop_last())
            },
            None => request_encoding(headers.drop_last()),
        }
    }
}

/// The metadata of a request message.
pub open spec fn request_metadata(request: RequestHead) -> Pairs {
    header_metadata(line_metadata(request), request.headers@)
}

fn read_headers(request: &RequestHead) -> (res: (Metadata, Option<String>))
    ensures
        res.0@ == request_metadata(*request),
        match res.1 {
            Some(e) => request_encoding(request.headers@) == Some(e@),
            None => request_encoding(request.headers@) is None,
        },
{
    let mut metadata = Metadata::new();
    metadata.put(HTTP_METHOD, request.method.as_str());
    metadata.put(HTTP_PATH, request.path.as_str());
    let query = match &request.query {
        Some(q) => q.clone(),
        None => String::new(),
    };
    metadata.put(HTTP_QUERY, query.as_str());
    metadata.put(HTTP_VERSION, http_version_str(request.version));
    if let Some(s) = &request.conn_info.cipher_suite {
        metadata.put("tls_cipher_suite", s.as_str());
    }
    if let Some(s) = &request.conn_info.protocol_version {
        metadata.put("tls_protocol_version", s.as_str());
    }
    let ghost base = metadata@;
    assert(base == line_metadata(*request));
    let mut encoding: Option<String> = None;
    let mut i: usize = 0;
    let ghost all = request.headers@;
    while i < request.headers.len()
        invariant
            i <= request.headers@.len(),
            all == request.headers@,
            metadata@ == header_metadata(base, all.take(i as int)),
            match encoding {
                Some(e) => request_encoding(all.take(i as int)) == Some(e@),
                None => request_encoding(all.take(i as int)) is None,
            },
        decreases request.headers@.len() - i,
    {
        assert(all.take(i + 1).drop_last() =~= all.take(i as int));
        assert(all.take(i + 1).last() == all[i as int]);
        let header = &request.headers[i];
        if let Some(text) = &header.text {
            if same_text_ignoring_case(header.name.as_str(), "content-encoding") {
                encoding = Some(text.clone());
            }
            if !is_reserved_name(header.name.as_str()) {
                metadata.put(header.name.as_str(), text.as_str());
            }
        }
        i += 1;
    }
    assert(all.take(all.len() as int) =~= all);
    (metadata, encoding)
}

/// A request whose body is still to be read.
#[derive(Debug)]
pub struct PendingRequest {
    pub message_id: Option<u128>,
    pub metadata: Metadata,
    pub content_encoding: Option<String>,
}

/// What admitting a request gives.
#[derive(Debug)]
pub enum Admitted {
    Respond(HttpResponse),
    /// The body is sent back as it is.
    Echo,
    /// The body is received record by record.
    Stream {
        metadata: Metadata,
        request_format: HttpStreamFormat,
        response_format: HttpStreamFormat,
    },
    /// The body is read as a whole.
    ReadBody(PendingRequest),
}

/// The identifier that a request carries in the header of that name.
pub open spec fn request_id(headers: Seq<Header>, name: Seq<char>) -> Option<int> {
    match header_value(headers, name) {
        Some(text) => header_id(text),
        None => None,
    }
}

/// Whether this is what admitting a request gives.
pub open spec fn is_admission(
    state: HttpConsumerState,
    request: RequestHead,
    accepts_text: bool,
    res: Admitted,
) -> bool {
    let headers = request.headers@;
    let refusal = auth_refusal(headers, state.expected());
    if refusal is Some {
        res matches Admitted::Respond(r) && r@ == error_response(
            (refusal->0).0,
            (refusal->0).1,
            accepts_text,
            None,
        )
    } else if echo_applies(state.inline_echo, state.receive_streamable, headers) {
        res is Echo
    } else if state.receive_streamable {
        if request_encoding(headers) is Some {
            res matches Admitted::Respond(r) && r@ == error_response(
                415,
                "Compressed streamable HTTP requests are not supported"@,
                accepts_text,
                Some(state.custom()),
            )
        } else {
            res matches Admitted::Stream { metadata, request_format, response_format } && {
                &&& metadata@ == request_metadata(request)
                &&& request_format == or_raw(framed_format(headers, "content-type"@))
                &&& response_format == or_raw(framed_format(headers, "accept"@))
            }
        }
    } else {
        res matches Admitted::ReadBody(p) && {
            &&& p.metadata@ == request_metadata(request)
            &&& match p.message_id {
                Some(id) => request_id(headers, state.message_id_header@) == Some(
                    id as int,
                ),
                None => request_id(headers, state.message_id_header@) is None,
            }
            &&& match p.content_encoding {
                Some(e) => request_encoding(headers) == Some(e@),
                None => request_encoding(headers) is None,
            }
        }
    }
}

/// Decides how a routed request is received: whether its credentials let it in, and
/// then whether it is echoed, received as a stream, or read as a whole. A compressed
/// stream is not supported.
pub fn admit_request(state: &HttpConsumerState, request: &RequestHead, accepts_text: bool) -> (res:
    Admitted)
    ensures
        is_admission(*state, *request, accepts_text, res),
{
    let headers = request.headers.as_slice();
    if let Some(refusal) = authorize(headers, state.basic_auth.as_ref()) {
        return Admitted::Respond(
            text_error_response(refusal.status, refusal.text, accepts_text, None),
        );
    }
    if inline_echo_fast_path_applies(state.inline_echo, state.receive_streamable, headers) {
        return Admitted::Echo;
    }
    let message_id = match header_text(headers, state.message_id_header.as_str()) {
        Some(text) => parse_header_id(text.as_str()),
        None => None,
    };
    let (metadata, content_encoding) = read_headers(request);
    if state.receive_streamable {
        if content_encoding.is_some() {
            return Admitted::Respond(
                text_error_response(
                    415,
                    "Compressed streamable HTTP requests are not supported",
                    accepts_text,
                    Some(&state.response.custom_headers),
                ),
            );
        }
        return Admitted::Stream {
            metadata,
            request_format: stream_request_format(headers),
            response_format: stream_response_format(headers),
        };
    }
    Admitted::ReadBody(PendingRequest { message_id, metadata, content_encoding })
}

/// The response that opens a streamed exchange.
pub open spec fn opening_response(
    fire_and_forget: bool,
    response_format: HttpStreamFormat,
    custom: Pairs,
) -> ResponseView {
    if fire_and_forget {
        plain_response(
            202,
            custom,
            encode_utf8("Message stream accepted for processing"@),
        )
    } else {
        ResponseView {
            status: 200,
            raw_type: None,
            headers: seq![
                (
                    "content-type"@,
                    match response_format {
                        HttpStreamFormat::RawChunks => "application/octet-stream"@,
                        HttpStreamFormat::Ndjson => "application/x-ndjson"@,
                        HttpStreamFormat::Sse => "text/event-stream"@,
                    },
                ),
            ] + custom,
            body: Seq::empty(),
            streaming: true,
        }
    }
}

/// The response that opens a streamed exchange: accepted at once, or a stream of
/// replies in the client's format.
pub fn stream_opening(
    fire_and_forget: bool,
    response_format: HttpStreamFormat,
    custom_headers: &Metadata,
) -> (response: HttpResponse)
    ensures
        response@ == opening_response(fire_and_forget, response_format, custom_headers@),
{
    if fire_and_forget {
        HttpResponse {
            status: 202,
            raw_type: None,
            headers: custom_headers.copy(),
            body: copy_bytes("Message stream accepted for processing".as_bytes()),
            streaming: false,
        }
    } else {
        let mut headers = Metadata::new();
        add_header(
            &mut headers,
            "content-type",
            stream_response_content_type(response_format),
        );
        let ghost first = headers@;
        add_headers(&mut headers, custom_headers);
        assert(first =~= seq![
            (
                "content-type"@,
                match response_format {
                    HttpStreamFormat::RawChunks => "application/octet-stream"@,
                    HttpStreamFormat::Ndjson => "application/x-ndjson"@,
                    HttpStreamFormat::Sse => "text/event-stream"@,
                },
            ),
        ]);
        HttpResponse { status: 200, raw_type: None, headers, body: Vec::new(), streaming: true }
    }
}

/// What reading a body has brought.
#[derive(Debug)]
pub enum BodyEvent {
    Read(Vec<u8>),
    Failed(String),
    TimedOut,
}

/// The response to a body that could not be read.
pub open spec fn body_failure(event: BodyEvent, accepts_text: bool) -> Option<ResponseView> {
    match event {
        BodyEvent::Read(_) => None,
        BodyEvent::Failed(text) => Some(
            error_response(400, "Failed to read body: "@ + text@, accepts_text, None),
        ),
        BodyEvent::TimedOut => Some(
            error_response(408, "Timed out reading request body"@, accepts_text, None),
        ),
    }
}

/// Takes the body out of what reading it has brought, or answers.
pub fn body_or_response(event: BodyEvent, accepts_text: bool) -> (res: Result<
    Vec<u8>,
    HttpResponse,
>)
    ensures
        match res {
            Ok(body) => event matches BodyEvent::Read(b) && body@ == b@,
            Err(response) => body_failure(event, accepts_text) == Some(response@),
        },
{
    match event {
        BodyEvent::Read(body) => Ok(body),
        BodyEvent::Failed(text) => {
            let message = join2("Failed to read body: ", text.as_str());
            Err(text_error_response(400, message.as_str(), accepts_text, None))
        },
        BodyEvent::TimedOut => Err(
            text_error_response(408, "Timed out reading request body", accepts_text, None),
        ),
    }
}

/// Where a message is handed to.
#[derive(Debug)]
pub enum Delivery {
    Respond(HttpResponse),
    Inline(CanonicalMessage),
    Queue(CanonicalMessage),
}

/// The optional encoding of a pending request.
pub open spec fn pending_encoding(p: PendingRequest) -> Option<Seq<char>> {
    match p.content_encoding {
        Some(e) => Some(e@),
        None => None,
    }
}

/// Whether this is what the body of a pending request comes to.
pub open spec fn is_delivery(
    state: HttpConsumerState,
    pending: PendingRequest,
    event: BodyEvent,
    accepts_text: bool,
    res: Result<Delivery, String>,
) -> bool {
    match event {
        BodyEvent::Read(body) => match plain_body(body@, pending_encoding(pending)) {
            Ok(payload) => {
                let delivers = |m: CanonicalMessage|
                    m.payload@ == payload && m.metadata@ == pending.metadata@ && (
                    match pending.message_id {
                        Some(id) => m.message_id == id,
                        None => is_v7(m.message_id),
                    });
                if state.inline {
                    res matches Ok(Delivery::Inline(m)) && delivers(m)
                } else {
                    res matches Ok(Delivery::Queue(m)) && delivers(m)
                }
            },
            Err(why) => res matches Err(e) && e@ == "Failed to decompress request body: "@
                + why,
        },
        _ => res matches Ok(Delivery::Respond(r)) && body_failure(event, accepts_text) == Some(
            r@,
        ),
    }
}

/// Makes the message of a body, and says where it is handed to. A body that does not
/// decompress is an error. Without an identifier the message gets a fresh one.
pub fn receive_body(
    state: &HttpConsumerState,
    pending: PendingRequest,
    event: BodyEvent,
    accepts_text: bool,
) -> (res: Result<Delivery, String>)
    ensures
        is_delivery(*state, pending, event, accepts_text, res),
{
    let body = match body_or_response(event, accepts_text) {
        Ok(b) => b,
        Err(response) => {
            return Ok(Delivery::Respond(response));
        },
    };
    let encoding = match &pending.content_encoding {
        Some(e) => Some(e.as_str()),
        None => None,
    };
    let payload = match decompress_if_needed(body, encoding) {
        Ok(p) => p,
        Err(e) => {
            return Err(join2("Failed to decompress request body: ", e.as_str()));
        },
    };
    let made = CanonicalMessage::new(payload, pending.message_id);
    let message = CanonicalMessage {
        message_id: made.message_id,
        payload: made.payload,
        metadata: pending.metadata,
    };
    if state.inline {
        Ok(Delivery::Inline(message))
    } else {
        Ok(Delivery::Queue(message))
    }
}

/// What an inline output has brought.
#[derive(Debug)]
pub enum InlineEvent {
    Sent(Sent),
    Failed,
    TimedOut,
}

/// The disposition that an inline output amounts to, unless it timed out.
pub open spec fn inline_disposition(event: InlineEvent) -> Option<DispositionView> {
    match event {
        InlineEvent::Sent(sent) => Some(
            match sent@ {
                SentView::Ack => DispositionView::Ack,
                SentView::Response(m) => DispositionView::Reply(m),
            },
        ),
        InlineEvent::Failed => Some(DispositionView::Nack),
        InlineEvent::TimedOut => None,
    }
}

/// The answer to what an inline output has brought.
pub open spec fn inline_answer(
    state: HttpConsumerState,
    request: RequestHead,
    event: InlineEvent,
    client_accepts_gzip: bool,
    accepts_text: bool,
) -> Result<ResponseView, Seq<char>> {
    match inline_disposition(event) {
        Some(d) => response_for(
            d,
            state.response,
            client_accepts_gzip,
            accepts_text,
            Some(request),
        ),
        None => Ok(
            error_response(504, "Request timed out"@, accepts_text, Some(state.custom())),
        ),
    }
}

/// Answers with what an inline output has brought. Metadata that the request itself
/// had is not sent back.
pub fn answer_inline(
    state: &HttpConsumerState,
    request: &RequestHead,
    event: InlineEvent,
    client_accepts_gzip: bool,
    accepts_text: bool,
) -> (res: Result<HttpResponse, String>)
    ensures
        response_or_text(res) == inline_answer(
            *state,
            *request,
            event,
            client_accepts_gzip,
            accepts_text,
        ),
{
    let disposition = match event {
        InlineEvent::Sent(Sent::Response(m)) => MessageDisposition::Reply(m),
        InlineEvent::Sent(Sent::Ack) => MessageDisposition::Ack,
        InlineEvent::Failed => MessageDisposition::Nack,
        InlineEvent::TimedOut => {
            return Ok(
                text_error_response(
                    504,
                    "Request timed out",
                    accepts_text,
                    Some(&state.response.custom_headers),
                ),
            );
        },
    };
    make_response(
        disposition,
        &state.response,
        client_accepts_gzip,
        accepts_text,
        Some(request),
    )
}

/// What handing a message to the pipeline has brought.
#[derive(Debug, Clone, Copy, PartialEq, Eq, Structural)]
pub enum QueueEvent {
    Queued,
    Closed,
    Full,
}

/// Whether this is the answer to what handing a message to the pipeline has brought.
pub open spec fn is_queue_answer(
    state: HttpConsumerState,
    event: QueueEvent,
    accepts_text: bool,
    res: Option<HttpResponse>,
) -> bool {
    match event {
        QueueEvent::Closed => res matches Some(r) && r@ == error_response(
            500,
            "Internal pipeline closed"@,
            accepts_text,
            None,
        ),
        QueueEvent::Full => res matches Some(r) && r@ == error_response(
            503,
            "Server overloaded"@,
            accepts_text,
            Some(state.custom()),
        ),
        QueueEvent::Queued => if state.fire_and_forget {
            res matches Some(r) && r@ == plain_response(
                202,
                state.custom(),
                encode_utf8("Message accepted for processing"@),
            )
        } else {
            res is None
        },
    }
}

/// Answers what handing a message to the pipeline has brought, or waits for its
/// disposition.
pub fn answer_queued(state: &HttpConsumerState, event: QueueEvent, accepts_text: bool) -> (res:
    Option<HttpResponse>)
    ensures
        is_queue_answer(*state, event, accepts_text, res),
{
    match event {
        QueueEvent::Closed => Some(
            text_error_response(500, "Internal pipeline closed", accepts_text, None),
        ),
        QueueEvent::Full => Some(
            text_error_response(
                503,
                "Server overloaded",
                accepts_text,
                Some(&state.response.custom_headers),
            ),
        ),
        QueueEvent::Queued => if state.fire_and_forget {
            Some(
                HttpResponse {
                    status: 202,
                    raw_type: None,
                    headers: state.response.custom_headers.copy(),
                    body: copy_bytes("Message accepted for processing".as_bytes()),
                    streaming: false,
                },
            )
        } else {
            None
        },
    }
}

/// What waiting for a disposition has brought.
#[derive(Debug)]
pub enum WaitEvent {
    Disposed(MessageDisposition),
    Closed,
    TimedOut,
}

/// The answer to what waiting for a disposition has brought.
pub open spec fn wait_answer(
    state: HttpConsumerState,
    event: WaitEvent,
    client_accepts_gzip: bool,
    accepts_text: bool,
) -> Result<ResponseView, Seq<char>> {
    match event {
        WaitEvent::Disposed(d) => response_for(
            d@,
            state.response,
            client_accepts_gzip,
            accepts_text,
            None,
        ),
        WaitEvent::Closed => Ok(
            error_response(500, "Pipeline closed"@, accepts_text, Some(state.custom())),
        ),
        WaitEvent::TimedOut => Ok(
            error_response(504, "Request timed out"@, accepts_text, Some(state.custom())),
        ),
    }
}

/// Answers what waiting for a disposition has brought.
pub fn answer_disposition(
    state: &HttpConsumerState,
    event: WaitEvent,
    client_accepts_gzip: bool,
    accepts_text: bool,
) -> (res: Result<HttpResponse, String>)
    ensures
        response_or_text(res) == wait_answer(*state, event, client_accepts_gzip, accepts_text),
{
    match event {
        WaitEvent::Disposed(d) => make_response(
            d,
            &state.response,
            client_accepts_gzip,
            accepts_text,
            None,
        ),
        WaitEvent::Closed => Ok(
            text_error_response(
                500,
                "Pipeline closed",
                accepts_text,
                Some(&state.response.custom_headers),
            ),
        ),
        WaitEvent::TimedOut => Ok(
            text_error_response(
                504,
                "Request timed out",
                accepts_text,
                Some(&state.response.custom_headers),
            ),
        ),
    }
}

/// The response to a failure inside the server.
pub open spec fn internal_error(why: Seq<char>, accepts_text: bool) -> ResponseView {
    error_response(500, "Internal error: "@ + why, accepts_text, None)
}

/// Answers a request that failed inside the server.
pub fn answer_error(error: &str, accepts_text: bool) -> (response: HttpResponse)
    ensures
        response@ == internal_error(error@, accepts_text),
{
    let text = join2("Internal error: ", error);
    text_error_response(500, text.as_str(), accepts_text, None)
}

} // verus!
