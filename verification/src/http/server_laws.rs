//! What becomes of a request.

use vstd::prelude::*;
use vstd::utf8::encode_utf8;

use crate::http::auth::auth_refusal;
use crate::http::content::{version_text, HttpVersion};
use crate::http::exchange::{echoed, Exchange, ExchangeAction, ExchangeEvent, ExchangeStage};
use crate::http::frames::HttpStreamFormat;
use crate::http::gzip::gunzip_of;
use crate::http::headers::{
    first_header, has_header, header_has_media, header_slot, header_value, Header,
};
use crate::http::reply_laws::{
    law_echoes_send_the_body_back, law_errors_are_told_in_text, law_other_dispositions,
};
use crate::http::request::{request_value, RequestHead};
use crate::http::response::{error_response, HttpResponse};
use crate::http::router::{
    allows, comes_before, conflict, is_best, keep_others, on_method, on_path, strictly_sorted,
    KeyView, RouteKey,
};
use crate::http::server::{
    allow_headers, header_metadata, inline_answer, internal_error, is_admission, is_delivery,
    is_queue_answer, is_routing, joined, line_metadata, opening_response, request_id,
    request_metadata, wait_answer, Admitted, BodyEvent, Delivery, HttpConsumerState, InlineEvent,
    PendingRequest, QueueEvent, Routed, WaitEvent,
};
use crate::ids::header_id;
use crate::message::{
    law_reads_give_back_writes, lookup, with, DispositionView, MessageView, Pairs, SentView,
};
use crate::text::{contains, lower_all, opt, same_ignoring_case};

verus! {

/// Whether a header may not stand in for what the server itself says of a request.
pub open spec fn is_kept_out(name: Seq<char>) -> bool {
    ||| name == "http_method"@
    ||| name == "http_path"@
    ||| name == "http_query"@
    ||| name == "http_version"@
    ||| same_ignoring_case(name, "tls_cipher_suite"@)
    ||| same_ignoring_case(name, "tls_protocol_version"@)
}

proof fn lemma_line_names()
    ensures
        "http_method"@ != "http_path"@,
        "http_method"@ != "http_query"@,
        "http_method"@ != "http_version"@,
        "http_path"@ != "http_query"@,
        "http_path"@ != "http_version"@,
        "http_query"@ != "http_version"@,
        forall|k: Seq<char>| #[trigger]
            is_kept_out(k) || (k != "http_method"@ && k != "http_path"@ && k != "http_query"@ && k
                != "http_version"@ && k != "tls_cipher_suite"@ && k != "tls_protocol_version"@),
        "tls_cipher_suite"@ != "tls_protocol_version"@,
        "tls_cipher_suite"@ != "http_method"@,
        "tls_cipher_suite"@ != "http_path"@,
        "tls_cipher_suite"@ != "http_query"@,
        "tls_cipher_suite"@ != "http_version"@,
        "tls_protocol_version"@ != "http_method"@,
        "tls_protocol_version"@ != "http_path"@,
        "tls_protocol_version"@ != "http_query"@,
        "tls_protocol_version"@ != "http_version"@,
{
    reveal_strlit("http_method");
    reveal_strlit("http_path");
    reveal_strlit("http_query");
    reveal_strlit("http_version");
    reveal_strlit("tls_cipher_suite");
    reveal_strlit("tls_protocol_version");
    assert("http_method"@.len() == 11);
    assert("http_path"@.len() == 9);
    assert("http_query"@.len() == 10);
    assert("http_version"@.len() == 12);
    assert("tls_cipher_suite"@.len() == 16);
    assert("tls_protocol_version"@.len() == 20);
}

proof fn lemma_one_header(base: Pairs, headers: Seq<Header>, key: Seq<char>)
    requires
        headers.len() > 0,
    ensures
        ({
            let last = headers.last();
            lookup(header_metadata(base, headers), key) == (if last.text is Some && last.name@
                == key && !is_kept_out(key) {
                Some(last.text->0@)
            } else {
                lookup(header_metadata(base, headers.drop_last()), key)
            })
        }),
{
    let last = headers.last();
    if last.text is Some {
        law_reads_give_back_writes(
            header_metadata(base, headers.drop_last()),
            last.name@,
            last.text->0@,
        );
    }
}

/// Whether no textual header from position `i` on has a name.
spec fn is_last(headers: Seq<Header>, key: Seq<char>, i: int) -> bool {
    forall|j: int|
        i <= j < headers.len() && (#[trigger] headers[j]).name@ == key ==> headers[j].text is None
}

proof fn lemma_header_metadata(base: Pairs, headers: Seq<Header>, key: Seq<char>, i: int)
    requires
        0 <= i <= headers.len(),
        is_kept_out(key) || is_last(headers, key, i),
    ensures
        is_kept_out(key) ==> lookup(header_metadata(base, headers), key) == lookup(base, key),
        i == 0 ==> lookup(header_metadata(base, headers), key) == lookup(base, key),
        i > 0 && !is_kept_out(key) && headers[i - 1].name@ == key && headers[i - 1].text is Some
            ==> lookup(header_metadata(base, headers), key) == Some(headers[i - 1].text->0@),
    decreases headers.len(),
{
    if headers.len() > 0 {
        let front = headers.drop_last();
        let n = headers.len() - 1;
        lemma_one_header(base, headers, key);
        assert(headers[n] == headers.last());
        if i <= n {
            assert(is_kept_out(key) || is_last(front, key, i)) by {
                assert forall|j: int|
                    !is_kept_out(key) && i <= j < front.len() && (#[trigger] front[j]).name@
                        == key implies front[j].text is None by {
                    assert(front[j] == headers[j]);
                }
            }
            lemma_header_metadata(base, front, key, i);
        } else if is_kept_out(key) {
            lemma_header_metadata(base, front, key, 0);
        }
    }
}

/// A request message tells the method, the path, the query, the version and the TLS
/// parameters of its request, and no header can stand in for them. Any other name has
/// the text of the last header that is called so.
pub proof fn law_messages_tell_of_their_request(request: RequestHead, key: Seq<char>)
    ensures
        ({
            let m = request_metadata(request);
            let headers = request.headers@;
            &&& lookup(m, "http_method"@) == Some(request.method@)
            &&& lookup(m, "http_path"@) == Some(request.path@)
            &&& lookup(m, "http_query"@) == Some(
                match request.query {
                    Some(q) => q@,
                    None => Seq::empty(),
                },
            )
            &&& lookup(m, "http_version"@) == Some(
                match request.version {
                    HttpVersion::Http09 => "HTTP/0.9"@,
                    HttpVersion::Http10 => "HTTP/1.0"@,
                    HttpVersion::Http11 => "HTTP/1.1"@,
                    HttpVersion::Http2 => "HTTP/2.0"@,
                    HttpVersion::Http3 => "HTTP/3.0"@,
                    HttpVersion::Unknown => "HTTP/?"@,
                },
            )
            &&& lookup(m, "tls_cipher_suite"@) == opt(request.conn_info.cipher_suite)
            &&& lookup(m, "tls_protocol_version"@) == opt(request.conn_info.protocol_version)
            &&& !is_kept_out(key) ==> {
                &&& (forall|i: int|
                    0 <= i < headers.len() && (#[trigger] headers[i]).name@ == key
                        ==> headers[i].text is None) ==> lookup(m, key) is None
                &&& forall|i: int|
                    0 <= i < headers.len() && (#[trigger] headers[i]).name@ == key
                        && headers[i].text is Some && (forall|j: int|
                        i < j < headers.len() && (#[trigger] headers[j]).name@ == key
                            ==> headers[j].text is None) ==> lookup(m, key) == Some(
                        headers[i].text->0@,
                    )
            }
        }),
{
    let base = line_metadata(request);
    lemma_line(request, key);
    lemma_line_names();
    assert(is_kept_out("http_method"@));
    assert(is_kept_out("http_path"@));
    assert(is_kept_out("http_query"@));
    assert(is_kept_out("http_version"@));
    assert(is_kept_out("tls_cipher_suite"@));
    assert(is_kept_out("tls_protocol_version"@));
    let headers = request.headers@;
    lemma_header_metadata(base, headers, "http_method"@, 0);
    lemma_header_metadata(base, headers, "http_path"@, 0);
    lemma_header_metadata(base, headers, "http_query"@, 0);
    lemma_header_metadata(base, headers, "http_version"@, 0);
    lemma_header_metadata(base, headers, "tls_cipher_suite"@, 0);
    lemma_header_metadata(base, headers, "tls_protocol_version"@, 0);
    if !is_kept_out(key) {
        if is_last(headers, key, 0) {
            lemma_header_metadata(base, headers, key, 0);
        }
        assert forall|i: int|
            0 <= i < headers.len() && (#[trigger] headers[i]).name@ == key && headers[i].text
                is Some && (forall|j: int|
                i < j < headers.len() && (#[trigger] headers[j]).name@ == key ==> headers[j].text
                    is None) implies lookup(request_metadata(request), key) == Some(
            headers[i].text->0@,
        ) by {
            assert(is_last(headers, key, i + 1));
            lemma_header_metadata(base, headers, key, i + 1);
        }
    }
}

proof fn lemma_line(request: RequestHead, key: Seq<char>)
    ensures
        ({
            let m = line_metadata(request);
            &&& lookup(m, "http_method"@) == Some(request.method@)
            &&& lookup(m, "http_path"@) == Some(request.path@)
            &&& lookup(m, "http_query"@) == Some(
                match request.query {
                    Some(q) => q@,
                    None => Seq::empty(),
                },
            )
            &&& lookup(m, "http_version"@) == Some(version_text(request.version))
            &&& lookup(m, "tls_cipher_suite"@) == opt(request.conn_info.cipher_suite)
            &&& lookup(m, "tls_protocol_version"@) == opt(request.conn_info.protocol_version)
            &&& !is_kept_out(key) ==> lookup(m, key) is None
        }),
{
    lemma_line_names();
    let query = match request.query {
        Some(q) => q@,
        None => Seq::<char>::empty(),
    };
    let none = Pairs::empty();
    assert(lookup(none, key) is None);
    assert(lookup(none, "tls_cipher_suite"@) is None);
    assert(lookup(none, "tls_protocol_version"@) is None);
    law_reads_give_back_writes(none, "http_method"@, request.method@);
    let a = with(none, "http_method"@, request.method@);
    law_reads_give_back_writes(a, "http_path"@, request.path@);
    let b = with(a, "http_path"@, request.path@);
    law_reads_give_back_writes(b, "http_query"@, query);
    let c = with(b, "http_query"@, query);
    law_reads_give_back_writes(c, "http_version"@, version_text(request.version));
    let d = with(c, "http_version"@, version_text(request.version));
    let e = match request.conn_info.cipher_suite {
        Some(s) => with(d, "tls_cipher_suite"@, s@),
        None => d,
    };
    if request.conn_info.cipher_suite is Some {
        law_reads_give_back_writes(d, "tls_cipher_suite"@, request.conn_info.cipher_suite->0@);
    }
    if request.conn_info.protocol_version is Some {
        law_reads_give_back_writes(
            e,
            "tls_protocol_version"@,
            request.conn_info.protocol_version->0@,
        );
    }
    assert(!is_kept_out(key) ==> lookup(e, key) is None);
}

/// What a request had under a name is what its line and its connection say, or the text
/// of its first header of that name.
pub proof fn law_what_a_request_had(request: RequestHead, key: Seq<char>)
    ensures
        request_value(request, "http_method"@) == Some(request.method@),
        request_value(request, "http_path"@) == Some(request.path@),
        request_value(request, "http_query"@) == Some(
            match request.query {
                Some(q) => q@,
                None => Seq::empty(),
            },
        ),
        request_value(request, "http_version"@) == lookup(
            request_metadata(request),
            "http_version"@,
        ),
        request_value(request, "tls_cipher_suite"@) == opt(request.conn_info.cipher_suite),
        request_value(request, "tls_protocol_version"@) == opt(
            request.conn_info.protocol_version,
        ),
        !is_kept_out(key) ==> request_value(request, key) == header_value(
            request.headers@,
            key,
        ),
{
    lemma_line_names();
    law_messages_tell_of_their_request(request, key);
    assert(is_kept_out(key) || key != "tls_cipher_suite"@);
}

proof fn lemma_slot(headers: Seq<Header>, name: Seq<char>, i: int)
    requires
        0 <= i <= headers.len(),
    ensures
        i <= header_slot(headers, name, i) <= headers.len(),
        header_slot(headers, name, i) < headers.len() ==> same_ignoring_case(
            headers[header_slot(headers, name, i)].name@,
            name,
        ),
        forall|k: int|
            i <= k < header_slot(headers, name, i) ==> !same_ignoring_case(
                (#[trigger] headers[k]).name@,
                name,
            ),
    decreases headers.len() - i,
{
    if i < headers.len() && !same_ignoring_case(headers[i].name@, name) {
        lemma_slot(headers, name, i + 1);
    }
}

/// Of headers with one name, in whatever case, the first is looked at.
pub proof fn law_first_header_counts(headers: Seq<Header>, name: Seq<char>, i: int)
    requires
        0 <= i < headers.len(),
        same_ignoring_case(headers[i].name@, name),
        forall|k: int|
            0 <= k < i ==> !same_ignoring_case((#[trigger] headers[k]).name@, name),
    ensures
        has_header(headers, name),
        first_header(headers, name) == Some(headers[i]),
        header_value(headers, name) == opt(headers[i].text),
        header_value(headers, name) matches Some(text) ==> request_id(headers, name) == header_id(
            text,
        ),
{
    lemma_slot(headers, name, 0);
}

/// Without a header of a name there is nothing to look at.
pub proof fn law_absent_headers(headers: Seq<Header>, name: Seq<char>)
    requires
        forall|k: int|
            0 <= k < headers.len() ==> !same_ignoring_case((#[trigger] headers[k]).name@, name),
    ensures
        !has_header(headers, name),
        first_header(headers, name) is None,
        header_value(headers, name) is None,
        request_id(headers, name) is None,
{
    lemma_slot(headers, name, 0);
}

/// A request that is let in keeps all that it says. It is echoed unread only where that
/// applies; else it is received as a stream exactly where the consumer does so, in the
/// formats of its content type and of what it accepts, and otherwise read as a whole,
/// under the identifier in the configured header. It is turned away only for its
/// credentials, or with 415 for a compressed stream.
pub proof fn law_admission(
    state: HttpConsumerState,
    request: RequestHead,
    accepts_text: bool,
    res: Admitted,
)
    requires
        is_admission(state, request, accepts_text, res),
    ensures
        ({
            let refusal = auth_refusal(request.headers@, state.expected());
            match res {
                Admitted::Respond(r) => {
                    ||| refusal matches Some(why) && r@.status == why.0 && r@.body
                        == encode_utf8(why.1)
                    ||| refusal is None && state.receive_streamable && r@.status == 415
                },
                Admitted::Echo => refusal is None && state.inline_echo
                    && !state.receive_streamable,
                Admitted::Stream { metadata, request_format, response_format } => {
                    &&& refusal is None && state.receive_streamable
                    &&& metadata@ == request_metadata(request)
                    &&& request_format is Sse <==> header_has_media(
                        request.headers@,
                        "content-type"@,
                        "text/event-stream"@,
                    )
                    &&& response_format is Sse <==> header_has_media(
                        request.headers@,
                        "accept"@,
                        "text/event-stream"@,
                    )
                    &&& request_format is Ndjson ==> header_has_media(
                        request.headers@,
                        "content-type"@,
                        "application/x-ndjson"@,
                    ) || header_has_media(
                        request.headers@,
                        "content-type"@,
                        "application/jsonl"@,
                    )
                    &&& response_format is Ndjson ==> header_has_media(
                        request.headers@,
                        "accept"@,
                        "application/x-ndjson"@,
                    ) || header_has_media(request.headers@, "accept"@, "application/jsonl"@)
                },
                Admitted::ReadBody(p) => {
                    &&& refusal is None && !state.receive_streamable
                    &&& p.metadata@ == request_metadata(request)
                    &&& match p.message_id {
                        Some(id) => header_value(
                            request.headers@,
                            state.message_id_header@,
                        ) matches Some(text) && header_id(text) == Some(id as int),
                        None => header_value(
                            request.headers@,
                            state.message_id_header@,
                        ) matches Some(text) ==> header_id(text) is None,
                    }
                },
            }
        }),
{
}

/// The message of a request has the body as its payload, decompressed where it is marked
/// as gzip, the metadata of the request and its identifier. It goes to the output that
/// answers inline where there is one, and to the pipeline otherwise.
pub proof fn law_requests_are_delivered(
    state: HttpConsumerState,
    pending: PendingRequest,
    event: BodyEvent,
    accepts_text: bool,
    res: Result<Delivery, String>,
)
    requires
        is_delivery(state, pending, event, accepts_text, res),
    ensures
        event matches BodyEvent::Read(body) ==> {
            let packed = opt(pending.content_encoding) matches Some(e) && contains(
                lower_all(e),
                "gzip"@,
            );
            &&& !packed ==> res is Ok
            &&& packed ==> (res is Ok <==> gunzip_of(body@) is Ok)
            &&& res is Ok ==> {
                let m = if state.inline {
                    (res->Ok_0)->Inline_0
                } else {
                    (res->Ok_0)->Queue_0
                };
                &&& state.inline ==> res->Ok_0 is Inline
                &&& !state.inline ==> res->Ok_0 is Queue
                &&& !packed ==> m.payload@ == body@
                &&& packed ==> gunzip_of(body@) == Ok::<Seq<u8>, Seq<char>>(m.payload@)
                &&& m.metadata@ == pending.metadata@
                &&& pending.message_id matches Some(id) ==> m.message_id == id
            }
        },
        event is Failed ==> (res matches Ok(Delivery::Respond(r)) && r@.status == 400),
        event is TimedOut ==> (res matches Ok(Delivery::Respond(r)) && r@.status == 408),
{
    if event is Failed {
        law_errors_are_told_in_text(
            400,
            "Failed to read body: "@ + event->Failed_0@,
            accepts_text,
            Pairs::empty(),
        );
    }
    law_errors_are_told_in_text(
        408,
        "Timed out reading request body"@,
        accepts_text,
        Pairs::empty(),
    );
}

/// A client that takes no gzip gets the payload of the response that its output gave, or
/// 202 for an acknowledgement, 500 for a failure, and 504 where it took too long.
pub proof fn law_inline_outputs_answer(
    state: HttpConsumerState,
    request: RequestHead,
    event: InlineEvent,
    accepts_text: bool,
)
    ensures
        inline_answer(state, request, event, false, accepts_text) matches Ok(r) && match event {
            InlineEvent::Sent(sent) => match sent@ {
                SentView::Ack => r.status == 202,
                SentView::Response(m) => r.body == m.payload,
            },
            InlineEvent::Failed => r.status == 500,
            InlineEvent::TimedOut => r.status == 504,
        },
{
    law_other_dispositions(state.response, false, accepts_text, Some(request));
}

/// A message that found no place is answered with 503, and one whose pipeline is closed
/// with 500. One that was queued is answered with 202 at once where nobody waits for
/// what becomes of it, and not yet otherwise.
pub proof fn law_queues_answer(
    state: HttpConsumerState,
    event: QueueEvent,
    accepts_text: bool,
    res: Option<HttpResponse>,
)
    requires
        is_queue_answer(state, event, accepts_text, res),
    ensures
        match event {
            QueueEvent::Full => res matches Some(r) && r@.status == 503,
            QueueEvent::Closed => res matches Some(r) && r@.status == 500,
            QueueEvent::Queued => match res {
                Some(r) => state.fire_and_forget && r@.status == 202,
                None => !state.fire_and_forget,
            },
        },
{
}

/// A client that takes no gzip gets the payload of the reply to its message, 202 for a
/// message without a reply, 500 for one that failed or whose pipeline closed, and 504
/// where it took too long.
pub proof fn law_dispositions_answer(
    state: HttpConsumerState,
    event: WaitEvent,
    accepts_text: bool,
)
    ensures
        wait_answer(state, event, false, accepts_text) matches Ok(r) && match event {
            WaitEvent::Disposed(d) => match d@ {
                DispositionView::Ack => r.status == 202,
                DispositionView::Reply(m) => r.body == m.payload,
                DispositionView::Nack => r.status == 500,
            },
            WaitEvent::Closed => r.status == 500,
            WaitEvent::TimedOut => r.status == 504,
        },
{
    law_other_dispositions(state.response, false, accepts_text, None);
}

/// A failure inside the server is answered with 500 and told in the body.
pub proof fn law_internal_errors(why: Seq<char>, accepts_text: bool)
    ensures
        internal_error(why, accepts_text).status == 500,
        internal_error(why, accepts_text).body == encode_utf8("Internal error: "@ + why),
{
}

/// A streamed exchange opens with a stream of replies in the client's format, or with
/// 202 where nobody waits for replies. The configured fields go with either.
pub proof fn law_streamed_exchanges_open(
    fire_and_forget: bool,
    format: HttpStreamFormat,
    custom: Pairs,
)
    ensures
        ({
            let r = opening_response(fire_and_forget, format, custom);
            &&& fire_and_forget ==> r.status == 202 && !r.streaming
            &&& !fire_and_forget ==> r.status == 200 && r.streaming && r.body.len() == 0
            &&& !fire_and_forget ==> r.headers.contains(
                (
                    "content-type"@,
                    match format {
                        HttpStreamFormat::RawChunks => "application/octet-stream"@,
                        HttpStreamFormat::Ndjson => "application/x-ndjson"@,
                        HttpStreamFormat::Sse => "text/event-stream"@,
                    },
                ),
            )
            &&& forall|h: (Seq<char>, Seq<char>)|
                custom.contains(h) ==> #[trigger] r.headers.contains(h)
        }),
{
    let r = opening_response(fire_and_forget, format, custom);
    let n = r.headers.len() - custom.len();
    assert forall|h: (Seq<char>, Seq<char>)|
        custom.contains(h) implies #[trigger] r.headers.contains(h) by {
        let i = choose|i: int| 0 <= i < custom.len() && custom[i] == h;
        assert(r.headers[n + i] == h);
    }
    if !fire_and_forget {
        let first = r.headers[0];
        assert(r.headers.contains(first));
    }
}

/// A request goes only where its path and its method are registered. One for which both
/// are registered by name goes there and nowhere else; one whose path is registered by
/// name goes to such a path before any other. Of two like registrations the first counts.
pub proof fn law_requests_go_where_they_fit(
    keys: Seq<KeyView>,
    path: Seq<char>,
    method: Seq<char>,
    i: int,
    j: int,
)
    requires
        is_best(keys, path, method, i),
        0 <= j < keys.len(),
    ensures
        keys[i].path is None || keys[i].path == Some(path),
        keys[i].method is None || keys[i].method == Some(method),
        keys[j].path == Some(path) && keys[j].method == Some(method) ==> keys[i].path == Some(path)
            && keys[i].method == Some(method),
        keys[j].path == Some(path) && keys[j].method is None ==> keys[i].path == Some(path),
        keys[j].path is None && keys[j].method == Some(method) ==> keys[i].path is Some
            || keys[i].method is Some,
        keys[j] == keys[i] ==> i <= j,
{
    assert(on_path(keys[i], path));
    if (keys[j].path is None || keys[j].path == Some(path)) && (keys[j].method is None
        || keys[j].method == Some(method)) {
        assert(on_path(keys[j], path) && on_method(keys[j], method));
    }
}

/// A request is answered with 404 where no registration is for its path, and with 405
/// and the methods that are allowed where its path is registered for others only.
pub proof fn law_requests_without_a_route(
    keys: Seq<KeyView>,
    path: Seq<char>,
    method: Seq<char>,
    accepts_text: bool,
    res: Routed,
)
    requires
        is_routing(keys, path, method, accepts_text, res),
    ensures
        ({
            let known = exists|j: int|
                0 <= j < keys.len() && ((#[trigger] keys[j]).path is None || keys[j].path == Some(
                    path,
                ));
            let fits = exists|j: int|
                0 <= j < keys.len() && ((#[trigger] keys[j]).path is None || keys[j].path == Some(
                    path,
                )) && (keys[j].method is None || keys[j].method == Some(method));
            &&& res is To <==> fits
            &&& res matches Routed::Respond(r) ==> if known {
                &&& r@.status == 405
                &&& exists|methods: Seq<Seq<char>>|
                    (forall|m: Seq<char>| #[trigger]
                        methods.contains(m) <==> exists|j: int|
                            0 <= j < keys.len() && ((#[trigger] keys[j]).path is None
                                || keys[j].path == Some(path)) && keys[j].method == Some(m))
                        && r@.headers.contains(("Allow"@, #[trigger] joined(methods, ", "@)))
            } else {
                r@.status == 404
            }
        }),
{
    match res {
        Routed::To(i) => {
            assert(on_path(keys[i as int], path) && on_method(keys[i as int], method));
        },
        Routed::Respond(r) => {
            let known = exists|j: int|
                0 <= j < keys.len() && ((#[trigger] keys[j]).path is None || keys[j].path == Some(
                    path,
                ));
            if known {
                let j = choose|j: int|
                    0 <= j < keys.len() && ((#[trigger] keys[j]).path is None || keys[j].path
                        == Some(path));
                assert(on_path(keys[j], path));
                assert(!on_method(keys[j], method));
                let methods = choose|methods: Seq<Seq<char>>| #[trigger]
                    strictly_sorted(methods) && (forall|m: Seq<char>|
                     #[trigger]
                        methods.contains(m) <==> allows(keys, path, m)) && r@ == error_response(
                        405,
                        "Method "@ + method + " not allowed"@,
                        accepts_text,
                        Some(allow_headers(methods)),
                    );
                law_errors_are_told_in_text(
                    405,
                    "Method "@ + method + " not allowed"@,
                    accepts_text,
                    allow_headers(methods),
                );
                lemma_allowed(keys, path, methods, j);
                let allow = ("Allow"@, joined(methods, ", "@));
                assert(allow_headers(methods)[0] == allow);
                assert(allow_headers(methods).contains(allow));
                assert(r@.headers.contains(allow));
            }
        },
    }
}

/// The methods that a known path allows are some, and each is of a registration for it.
proof fn lemma_allowed(keys: Seq<KeyView>, path: Seq<char>, methods: Seq<Seq<char>>, j: int)
    requires
        0 <= j < keys.len(),
        on_path(keys[j], path),
        keys[j].method is Some,
        forall|m: Seq<char>| #[trigger] methods.contains(m) <==> allows(keys, path, m),
    ensures
        methods.len() > 0,
        allow_headers(methods).len() > 0,
        allow_headers(methods)[0] == ("Allow"@, joined(methods, ", "@)),
        forall|m: Seq<char>| #[trigger]
            methods.contains(m) <==> exists|j: int|
                0 <= j < keys.len() && ((#[trigger] keys[j]).path is None || keys[j].path == Some(
                    path,
                )) && keys[j].method == Some(m),
{
    let m = keys[j].method->0;
    assert(allows(keys, path, m));
    assert(methods.contains(m));
    assert forall|m: Seq<char>| #[trigger]
        methods.contains(m) == exists|j: int|
            0 <= j < keys.len() && ((#[trigger] keys[j]).path is None || keys[j].path == Some(
                path,
            )) && keys[j].method == Some(m) by {
        if methods.contains(m) {
            let k = choose|k: int|
                0 <= k < keys.len() && on_path(#[trigger] keys[k], path) && keys[k].method == Some(
                    m,
                );
            assert(keys[k].method == Some(m));
        }
        if exists|j: int|
            0 <= j < keys.len() && ((#[trigger] keys[j]).path is None || keys[j].path == Some(path))
                && keys[j].method == Some(m) {
            let k = choose|k: int|
                0 <= k < keys.len() && ((#[trigger] keys[k]).path is None || keys[k].path == Some(
                    path,
                )) && keys[k].method == Some(m);
            assert(on_path(keys[k], path));
            assert(allows(keys, path, m));
        }
    }
}

/// Whether a registration is for requests with this method.
pub open spec fn is_for(k: KeyView, method: Seq<char>) -> bool {
    k.method is None || k.method == Some(method)
}

/// Two registrations conflict exactly if they name the same path, or both name none, and
/// there is a method that both are for.
pub proof fn law_conflicts(a: KeyView, b: KeyView)
    ensures
        conflict(a, b) == conflict(b, a),
        conflict(a, b) <==> a.path == b.path && exists|m: Seq<char>|
            #[trigger] is_for(a, m) && is_for(b, m),
{
    let m = match a.method {
        Some(x) => x,
        None => match b.method {
            Some(y) => y,
            None => Seq::empty(),
        },
    };
    if conflict(a, b) {
        assert(is_for(a, m) && is_for(b, m));
    }
}

/// A consumer that leaves takes all that was registered under its number with it, and
/// nothing else.
pub proof fn law_consumers_leave_alone(
    routes: Seq<(u64, RouteKey)>,
    id: u64,
    r: (u64, RouteKey),
)
    ensures
        keep_others(routes, id).contains(r) <==> routes.contains(r) && r.0 != id,
    decreases routes.len(),
{
    if routes.len() > 0 {
        let tail = routes.subrange(1, routes.len() as int);
        let later = keep_others(tail, id);
        let out = keep_others(routes, id);
        law_consumers_leave_alone(tail, id, r);
        if later.contains(r) {
            let w = choose|w: int| 0 <= w < later.len() && later[w] == r;
            if routes[0].0 == id {
                assert(out[w] == r);
            } else {
                assert(out[w + 1] == r);
            }
            let v = choose|v: int| 0 <= v < tail.len() && tail[v] == r;
            assert(routes[v + 1] == r);
        }
        if routes.contains(r) && r.0 != id {
            let v = choose|v: int| 0 <= v < routes.len() && routes[v] == r;
            if v == 0 {
                assert(out[0] == r);
            } else {
                assert(tail[v - 1] == r);
            }
        }
        if out.contains(r) {
            let w = choose|w: int| 0 <= w < out.len() && out[w] == r;
            if routes[0].0 == id {
                assert(later[w] == r);
            } else if w == 0 {
                assert(routes[0] == r);
            } else {
                assert(later[w - 1] == r);
            }
        }
    }
}

/// A request whose message was replied to is answered with that reply: a client that
/// takes no gzip gets its payload, whether the pipeline or an inline output gave it.
pub proof fn law_exchanges_end_with_the_reply(
    x: Exchange,
    state: HttpConsumerState,
    event: ExchangeEvent,
    next: ExchangeStage,
    action: ExchangeAction,
    m: MessageView,
)
    requires
        x.awaits(event),
        x.goes_on(state, event, next, action),
        !x.accepts_gzip,
        ({
            ||| (event matches ExchangeEvent::Wait(WaitEvent::Disposed(d)) && d@
                == DispositionView::Reply(m))
            ||| (event matches ExchangeEvent::Inline(InlineEvent::Sent(s)) && s@
                == SentView::Response(m))
        }),
    ensures
        next is Done,
        action matches ExchangeAction::Respond(r) && r@.body == m.payload,
{
    match event {
        ExchangeEvent::Wait(e) => {
            law_dispositions_answer(state, e, x.accepts_text);
        },
        ExchangeEvent::Inline(e) => {
            law_inline_outputs_answer(state, x.request, e, x.accepts_text);
        },
        _ => {},
    }
}

/// The message that an exchange hands on holds the body that was read, under the
/// identifier and with the metadata of its request.
pub proof fn law_exchanges_hand_on_the_body(
    x: Exchange,
    state: HttpConsumerState,
    body: Vec<u8>,
    pending: PendingRequest,
    next: ExchangeStage,
    action: ExchangeAction,
)
    requires
        x.stage == ExchangeStage::Reading(pending),
        pending.content_encoding is None,
        x.goes_on(state, ExchangeEvent::Body(BodyEvent::Read(body)), next, action),
    ensures
        state.inline ==> (next is Sending && action is SendInline),
        !state.inline ==> (next is Queueing && action is Queue),
        ({
            let m = if state.inline {
                action->SendInline_0
            } else {
                action->Queue_0
            };
            m.payload@ == body@ && m.metadata@ == pending.metadata@ && (
            pending.message_id matches Some(id) ==> m.message_id == id)
        }),
{
    let d = choose|d: Result<Delivery, String>| #[trigger]
        is_delivery(state, pending, BodyEvent::Read(body), x.accepts_text, d) && (match d {
            Ok(Delivery::Respond(r)) => next is Done && action == ExchangeAction::Respond(r),
            Ok(Delivery::Inline(m)) => next is Sending && action == ExchangeAction::SendInline(m),
            Ok(Delivery::Queue(m)) => next is Queueing && action == ExchangeAction::Queue(m),
            Err(why) => Exchange::ends_with(
                next,
                action,
                internal_error(why@, x.accepts_text),
            ),
        });
    law_requests_are_delivered(state, pending, BodyEvent::Read(body), x.accepts_text, d);
}

/// An exchange that echoes sends the body back: a client that takes no gzip gets it as
/// it was, under the content type that it came with.
pub proof fn law_echoing_exchanges_send_the_body_back(
    x: Exchange,
    state: HttpConsumerState,
    body: Vec<u8>,
    next: ExchangeStage,
    action: ExchangeAction,
)
    requires
        x.stage is Echoing,
        !x.accepts_gzip,
        x.goes_on(state, ExchangeEvent::Body(BodyEvent::Read(body)), next, action),
    ensures
        next is Done,
        action matches ExchangeAction::Respond(r) && r@.status == 200 && r@.body == body@ && (
        (forall|k: int|
            0 <= k < x.request.headers@.len() ==> !same_ignoring_case(
                (#[trigger] x.request.headers@[k]).name@,
                "content-type"@,
            )) ==> r@.headers.contains(("content-type"@, "application/octet-stream"@))) && (header_value(x.request.headers@, "content-type"@) matches Some(t)
            ==> r@.headers.contains(("content-type"@, t))),
{
    law_echoes_send_the_body_back(
        first_header(x.request.headers@, "content-type"@),
        body@,
        false,
        state.response.custom_headers@,
    );
    if forall|k: int|
        0 <= k < x.request.headers@.len() ==> !same_ignoring_case(
            (#[trigger] x.request.headers@[k]).name@,
            "content-type"@,
        ) {
        law_absent_headers(x.request.headers@, "content-type"@);
    }
}

/// Methods are listed in the order of their letters, with a comma and a space in between.
pub proof fn law_methods_are_listed(a: Seq<char>, b: Seq<char>, all: Seq<Seq<char>>, sep: Seq<char>)
    ensures
        !comes_before(a, a),
        a != b ==> comes_before(a, b) != comes_before(b, a),
        a.len() > 0 && b.len() > 0 && a[0] < b[0] ==> comes_before(a, b),
        a.len() > 0 && b.len() > 0 && a[0] == b[0] ==> comes_before(a, b) == comes_before(
            a.skip(1),
            b.skip(1),
        ),
        a.len() == 0 && b.len() > 0 ==> comes_before(a, b),
        joined(seq![a], sep) == a,
        all.len() > 0 ==> joined(all.push(a), sep) == joined(all, sep) + sep + a,
    decreases a.len(),
{
    assert(all.push(a).drop_last() =~= all);
    if a.len() > 0 {
        let a1 = a.skip(1);
        assert(a1 =~= a.subrange(1, a.len() as int));
        law_methods_are_listed(a1, a1, all, sep);
        if b.len() > 0 {
            let b1 = b.skip(1);
            assert(b1 =~= b.subrange(1, b.len() as int));
            law_methods_are_listed(a1, b1, all, sep);
            if a[0] == b[0] && a1 == b1 {
                assert(a =~= seq![a[0]] + a1);
                assert(b =~= seq![b[0]] + b1);
            }
        }
    } else if b.len() == 0 {
        assert(a =~= b);
    }
}

} // verus!
