use mq_bridge::http::content::HttpVersion;
use mq_bridge::http::exchange::{Exchange, ExchangeAction, ExchangeEvent, ExchangeStage};
use mq_bridge::http::frames::HttpStreamFormat;
use mq_bridge::http::gzip::decompress_if_needed;
use mq_bridge::http::headers::Header;
use mq_bridge::http::limiter::{ConcurrencyLimiter, ShardCounter};
use mq_bridge::http::publisher::{
    response_outcome, stream_outcome, HeadStep, HttpPublisher, ResponseBody, ResponseHead,
};
use mq_bridge::http::request::{HttpConnInfo, RequestHead};
use mq_bridge::http::response::{
    inline_echo_fast_path_applies, inline_echo_response, make_response, text_error_response,
    HttpResponse, ResponseSettings,
};
use mq_bridge::http::response_stream::{
    PublishResponseStreamError, ResponseStream, StreamAction, StreamEvent,
};
use mq_bridge::http::router::{RouteKey, RouteMatchResult, SharedHttpRouter};
use mq_bridge::http::sending::{HttpSend, SendAction, SendEvent, SendStage};
use mq_bridge::http::server::{
    admit_request, answer_disposition, answer_error, answer_inline, answer_queued,
    body_or_response, receive_body, route_request, stream_opening, Admitted, BodyEvent, Delivery,
    HttpConsumerState, InlineEvent, QueueEvent, Routed, WaitEvent,
};
use mq_bridge::http::setup::{
    accept_pause_ms, after_bind, alpn_protocols, build_consumer_target_url, commit_result,
    find_shared_server, http_reuseport_enabled, listener_of_worker, normalize_http_path,
    receive_limit, received_requests, registered_key, same_tls_values, start_binding,
    tls_server_refusal, worker_count, BindStep, HttpConsumer, HttpServerKey, ServerLookup,
    TOO_MANY_FILES,
};
use mq_bridge::http::sse::{
    drain_sse, format_sse_frame, format_stream_error, format_stream_reply, parse_sse_event,
    streamable_commit,
};
use mq_bridge::http::stream::{
    dispatch_outcome, send_timeout_nanos, Dispatch, RequestStream, StreamItem,
};
use mq_bridge::message::{
    collect_batch, CanonicalMessage, MessageDisposition, Metadata, PublisherError, SendResult, Sent,
    SentBatch,
};
use mq_bridge::models::{HttpConfig, HttpServerProtocol, TlsConfig};
use mq_bridge::status::Detail;

fn metadata(pairs: &[(&str, &str)]) -> Metadata {
    let mut m = Metadata::new();
    for (k, v) in pairs {
        m.put(k, v);
    }
    m
}

fn value<'a>(m: &'a Metadata, key: &str) -> Option<&'a str> {
    m.get(key).map(String::as_str)
}

/// A header field, by its name in any case.
fn field<'a>(headers: &'a Metadata, key: &str) -> Option<&'a str> {
    headers.entries.iter().find(|(k, _)| k.eq_ignore_ascii_case(key)).map(|(_, v)| v.as_str())
}

fn header<'a>(response: &'a HttpResponse, key: &str) -> Option<&'a str> {
    field(&response.headers, key)
}

fn body_text(response: &HttpResponse) -> &str {
    std::str::from_utf8(&response.body).unwrap()
}

fn reply(payload: &[u8], pairs: &[(&str, &str)]) -> MessageDisposition {
    let mut m = CanonicalMessage::new(payload.to_vec(), Some(1));
    m.metadata = metadata(pairs);
    MessageDisposition::Reply(m)
}

fn settings() -> ResponseSettings {
    ResponseSettings {
        compression_enabled: true,
        compression_threshold_bytes: 64,
        custom_headers: metadata(&[("x-bridge", "yes")]),
    }
}

fn request_head(headers: Vec<Header>) -> RequestHead {
    RequestHead {
        method: "POST".to_string(),
        path: "/orders".to_string(),
        query: Some("a=1".to_string()),
        version: HttpVersion::Http11,
        headers,
        conn_info: HttpConnInfo {
            cipher_suite: Some("TLS13_AES_256_GCM_SHA384".to_string()),
            protocol_version: Some("TLSv1_3".to_string()),
        },
    }
}

fn state() -> HttpConsumerState {
    HttpConsumer::new(&HttpConfig::default()).unwrap().state
}

fn key(path: Option<&str>, method: Option<&str>) -> RouteKey {
    RouteKey { path: path.map(str::to_string), method: method.map(str::to_string) }
}

fn failure_text(e: &PublisherError) -> (&str, bool) {
    match e {
        PublisherError::Retryable(t) => (t, true),
        PublisherError::NonRetryable(t) => (t, false),
    }
}

fn err<T, E>(r: Result<T, E>) -> E {
    match r {
        Ok(_) => panic!("expected an error"),
        Err(e) => e,
    }
}

#[test]
fn test_text_error_response_sets_text_content_type_when_accepted() {
    let response = text_error_response(400, "bad request", true, None);
    assert_eq!(header(&response, "content-type"), Some("text/plain; charset=utf-8"));
}

#[test]
fn test_text_error_response_skips_text_content_type_when_not_accepted() {
    let response = text_error_response(400, "bad request", false, None);
    assert!(header(&response, "content-type").is_none());
}

#[test]
fn test_text_error_response_preserves_custom_content_type() {
    let headers = metadata(&[("content-type", "application/problem+json")]);
    let response = text_error_response(400, "bad request", true, Some(&headers));
    assert_eq!(header(&response, "content-type"), Some("application/problem+json"));
}

#[test]
fn test_parse_sse_event_collects_data_id_and_event() {
    let event = parse_sse_event(": keepalive\nid: evt-7\nevent: update\ndata: one\ndata: two")
        .expect("sse event");

    assert_eq!(event.payload, b"one\ntwo".to_vec());
    assert_eq!(event.event_id.as_deref(), Some("evt-7"));
    assert_eq!(event.event_name.as_deref(), Some("update"));
}

#[test]
fn test_format_stream_reply_as_sse_frame() {
    let message = CanonicalMessage::new(b"hello\nworld".to_vec(), None)
        .with_metadata_kv("sse_id", "reply-1");

    let frame = format_stream_reply(HttpStreamFormat::Sse, &message);
    let frame = std::str::from_utf8(&frame).expect("utf8 frame");

    assert!(frame.contains("id: reply-1\n"));
    assert!(frame.contains("data: hello\n"));
    assert!(frame.contains("data: world\n"));
    assert!(frame.ends_with("\n\n"));
}

#[test]
fn a_written_event_reads_back() {
    let frame = format_sse_frame(Some("7"), Some("update"), b"one\ntwo\n");
    assert_eq!(
        std::str::from_utf8(&frame).unwrap(),
        "id: 7\nevent: update\ndata: one\ndata: two\ndata:\n\n"
    );
    let mut buffer = frame;
    let events = drain_sse(&mut buffer);
    assert!(buffer.is_empty());
    assert_eq!(events.len(), 1);
    assert_eq!(events[0].payload, b"one\ntwo\n".to_vec());
    assert_eq!(events[0].event_id.as_deref(), Some("7"));
    assert_eq!(events[0].event_name.as_deref(), Some("update"));

    // An identifier that would break the frame is left out.
    assert_eq!(format_sse_frame(Some("a\nb"), None, b""), b"data:\n\n".to_vec());
    assert!(parse_sse_event(": only a comment\nid: 3").is_none());
}

#[test]
fn stream_errors_in_every_format() {
    assert_eq!(format_stream_error(HttpStreamFormat::RawChunks, "bad \"x\""), b"bad \"x\"".to_vec());
    assert_eq!(
        format_stream_error(HttpStreamFormat::Ndjson, "bad \"x\""),
        b"{\"error\":\"bad \\\"x\\\"\"}\n".to_vec()
    );
    assert_eq!(
        format_stream_error(HttpStreamFormat::Sse, "bad"),
        b"event: error\ndata: bad\n\n".to_vec()
    );
}

#[test]
fn stream_replies_in_every_format() {
    let message = CanonicalMessage::new(b"x".to_vec(), Some(0));
    assert_eq!(format_stream_reply(HttpStreamFormat::RawChunks, &message), b"x".to_vec());
    assert_eq!(format_stream_reply(HttpStreamFormat::Ndjson, &message), b"x\n".to_vec());
    // Without an identifier of its own the event carries that of the message.
    assert_eq!(
        format_stream_reply(HttpStreamFormat::Sse, &message),
        b"id: 00000000-0000-0000-0000-000000000000\ndata: x\n\n".to_vec()
    );
}

#[test]
fn what_a_committed_stream_item_sends_back() {
    let format = HttpStreamFormat::Ndjson;
    assert_eq!(streamable_commit(&reply(b"x", &[]), true, format), Some(b"x\n".to_vec()));
    assert_eq!(streamable_commit(&MessageDisposition::Ack, true, format), None);
    assert_eq!(
        streamable_commit(&MessageDisposition::Nack, true, format),
        Some(b"{\"error\":\"Message processing failed\"}\n".to_vec())
    );
    assert_eq!(streamable_commit(&reply(b"x", &[]), false, format), None);
}

fn item<'a>(items: &'a [StreamItem], i: usize) -> (&'a [u8], &'a str) {
    (&items[i].payload, value(&items[i].metadata, "http_stream_index").unwrap())
}

#[test]
fn request_records_are_framed_across_frames() {
    let mut s = RequestStream::new(
        metadata(&[("correlation_id", "c1"), ("http_method", "POST")]),
        HttpStreamFormat::Ndjson,
        16,
    );
    let (items, failed) = s.on_frame(b"{\"a\":1}\n{\"b\"");
    assert!(failed.is_none());
    assert_eq!(items.len(), 1);
    assert_eq!(item(&items, 0), (&b"{\"a\":1}"[..], "0"));
    assert_eq!(value(&items[0].metadata, "correlation_id"), Some("c1"));
    assert_eq!(value(&items[0].metadata, "http_stream_id"), Some("c1"));
    assert_eq!(value(&items[0].metadata, "http_stream_format"), Some("ndjson"));
    assert_eq!(value(&items[0].metadata, "http_method"), Some("POST"));

    let (items, failed) = s.on_frame(b":2}\n\n tail ");
    assert!(failed.is_none());
    assert_eq!(items.len(), 1);
    assert_eq!(item(&items, 0), (&b"{\"b\":2}"[..], "1"));
    let items = s.on_end();
    assert_eq!(items.len(), 1);
    assert_eq!(item(&items, 0), (&b"tail"[..], "2"));

    // A record that does not end is refused once it is too long.
    let mut s = RequestStream::new(metadata(&[]), HttpStreamFormat::Ndjson, 16);
    let (items, failed) = s.on_frame(&[b'x'; 17]);
    assert!(items.is_empty());
    assert!(failed.is_some());
}

#[test]
fn request_events_keep_their_identifiers() {
    let mut s = RequestStream::new(
        metadata(&[("correlation_id", "c1")]),
        HttpStreamFormat::Sse,
        1024,
    );
    let (items, _) = s.on_frame(b"id: 4\nevent: e\ndata: x\r\n\r\ndata: y");
    assert_eq!(items.len(), 1);
    assert_eq!(items[0].payload, b"x".to_vec());
    assert_eq!(value(&items[0].metadata, "sse_id"), Some("4"));
    assert_eq!(value(&items[0].metadata, "sse_event"), Some("e"));
    let items = s.on_end();
    assert_eq!(items.len(), 1);
    assert_eq!(items[0].payload, b"y".to_vec());
    assert_eq!(value(&items[0].metadata, "sse_id"), None);

    let mut s = RequestStream::new(metadata(&[]), HttpStreamFormat::RawChunks, 1);
    let (items, failed) = s.on_frame(b"any chunk");
    assert!(failed.is_none());
    assert_eq!(items[0].payload, b"any chunk".to_vec());
    // Without a correlation identifier a fresh one names the stream.
    assert_eq!(
        value(&items[0].metadata, "correlation_id"),
        value(&items[0].metadata, "http_stream_id")
    );
    let fresh = value(&items[0].metadata, "correlation_id").unwrap();
    assert_eq!((fresh.len(), fresh.as_bytes()[14]), (36, b'7'));
}

#[test]
fn stream_items_wait_at_most_two_seconds() {
    assert_eq!(send_timeout_nanos(30_000_000_000), 2_000_000_000);
    assert_eq!(send_timeout_nanos(1_000_000_000), 500_000_000);
    assert_eq!(send_timeout_nanos(0), 0);
}

#[test]
fn what_dispatching_a_stream_item_comes_to() {
    assert!(matches!(
        dispatch_outcome(Dispatch::InlineSent(Sent::Ack)),
        Ok(Some(MessageDisposition::Ack))
    ));
    assert!(matches!(
        dispatch_outcome(Dispatch::InlineSent(Sent::Response(CanonicalMessage::new(vec![], None)))),
        Ok(Some(MessageDisposition::Reply(_)))
    ));
    assert!(matches!(dispatch_outcome(Dispatch::Queued), Ok(None)));
    assert_eq!(
        err(dispatch_outcome(Dispatch::InlineFailed("x".to_string()))),
        "HTTP inline stream publisher failed: x"
    );
    assert_eq!(
        err(dispatch_outcome(Dispatch::InlineTimedOut)),
        "HTTP inline stream publisher timed out"
    );
    assert_eq!(
        err(dispatch_outcome(Dispatch::PipelineClosed("x".to_string()))),
        "Internal pipeline closed: x"
    );
    assert_eq!(err(dispatch_outcome(Dispatch::PipelineFull)), "Server overloaded");
}

fn sent_item(action: StreamAction) -> StreamItem {
    match action {
        StreamAction::Send(item) => item,
        other => panic!("expected a message, got {:?}", other),
    }
}

#[test]
fn a_response_stream_is_published_in_order() {
    let mut s = ResponseStream::new(
        metadata(&[("content-type", "application/x-ndjson")]),
        "c9".to_string(),
        HttpStreamFormat::Ndjson,
    );
    let first = sent_item(s.step(StreamEvent::Frame(b"one\ntwo\nthr".to_vec())));
    assert_eq!(first.payload, b"one".to_vec());
    assert_eq!(value(&first.metadata, "http_stream_index"), Some("0"));
    assert_eq!(value(&first.metadata, "http_stream_end"), Some("false"));
    assert_eq!(value(&first.metadata, "correlation_id"), Some("c9"));
    let second = sent_item(s.step(StreamEvent::Sent));
    assert_eq!(second.payload, b"two".to_vec());
    assert!(matches!(s.step(StreamEvent::Sent), StreamAction::Read));
    let third = sent_item(s.step(StreamEvent::Ended));
    assert_eq!(third.payload, b"thr".to_vec());
    assert_eq!(value(&third.metadata, "http_stream_index"), Some("2"));
    let end = sent_item(s.step(StreamEvent::Sent));
    assert!(end.payload.is_empty());
    assert_eq!(value(&end.metadata, "http_stream_end"), Some("true"));
    assert_eq!(value(&end.metadata, "http_stream_index"), Some("3"));
    assert!(matches!(s.step(StreamEvent::Sent), StreamAction::Done(Ok(()))));
}

#[test]
fn a_broken_response_stream_is_marked() {
    let mut s = ResponseStream::new(metadata(&[]), "c".to_string(), HttpStreamFormat::RawChunks);
    sent_item(s.step(StreamEvent::Frame(b"x".to_vec())));
    assert!(matches!(s.step(StreamEvent::Sent), StreamAction::Read));
    let marker = sent_item(s.step(StreamEvent::ReadFailed("gone".to_string())));
    assert_eq!(marker.payload, b"Failed to read HTTP response stream: gone".to_vec());
    assert_eq!(value(&marker.metadata, "http_stream_error"), Some("true"));
    assert_eq!(value(&marker.metadata, "http_stream_index"), Some("1"));
    let end = sent_item(s.step(StreamEvent::Sent));
    assert_eq!(value(&end.metadata, "http_stream_index"), Some("2"));
    match s.step(StreamEvent::Sent) {
        StreamAction::Done(Err(PublishResponseStreamError::Partial(e))) => {
            assert_eq!(failure_text(&e), ("Failed to read HTTP response stream: gone", true));
        }
        other => panic!("unexpected {:?}", other),
    }

    // Nothing was published before the failure.
    let mut s = ResponseStream::new(metadata(&[]), "c".to_string(), HttpStreamFormat::Sse);
    let marker = sent_item(s.step(StreamEvent::TimedOut));
    assert_eq!(marker.payload, b"HTTP response stream timeout".to_vec());
    let failed = StreamEvent::SendFailed(PublisherError::Retryable("sink".to_string()));
    match s.step(failed) {
        StreamAction::Done(Err(PublishResponseStreamError::BeforePublish(e))) => {
            assert_eq!(failure_text(&e), ("HTTP response stream timeout", true));
        }
        other => panic!("unexpected {:?}", other),
    }
}

#[test]
fn a_sink_that_fails_ends_the_response_stream() {
    let mut s = ResponseStream::new(metadata(&[]), "c".to_string(), HttpStreamFormat::RawChunks);
    sent_item(s.step(StreamEvent::Frame(b"x".to_vec())));
    match s.step(StreamEvent::SendFailed(PublisherError::NonRetryable("sink".to_string()))) {
        StreamAction::Done(Err(PublishResponseStreamError::BeforePublish(e))) => {
            assert_eq!(failure_text(&e), ("sink", false));
        }
        other => panic!("unexpected {:?}", other),
    }

    let mut s = ResponseStream::new(metadata(&[]), "c".to_string(), HttpStreamFormat::RawChunks);
    sent_item(s.step(StreamEvent::Frame(b"x".to_vec())));
    assert!(matches!(s.step(StreamEvent::Sent), StreamAction::Read));
    sent_item(s.step(StreamEvent::Frame(b"y".to_vec())));
    let end = sent_item(s.step(StreamEvent::SendFailed(PublisherError::Retryable("z".to_string()))));
    assert_eq!(value(&end.metadata, "http_stream_end"), Some("true"));
    assert_eq!(value(&end.metadata, "http_stream_index"), Some("1"));
    assert!(matches!(
        s.step(StreamEvent::Sent),
        StreamAction::Done(Err(PublishResponseStreamError::Partial(_)))
    ));
}

#[test]
fn a_partly_published_stream_counts_as_sent() {
    assert!(matches!(stream_outcome(Ok(())), Ok(Sent::Ack)));
    let lost = PublishResponseStreamError::Partial(PublisherError::Retryable("x".to_string()));
    assert!(matches!(stream_outcome(Err(lost)), Ok(Sent::Ack)));
    let none = PublishResponseStreamError::BeforePublish(PublisherError::Retryable("x".to_string()));
    assert_eq!(failure_text(&err(stream_outcome(Err(none)))), ("x", true));
}

#[test]
fn replies_become_responses() {
    let r = make_response(
        reply(
            b"hello",
            &[
                ("http_status_code", "201"),
                ("content-type", "text/plain"),
                ("X-A", "1"),
                ("content-length", "99"),
            ],
        ),
        &settings(),
        true,
        true,
        None,
    )
    .unwrap();
    assert_eq!(r.status, 201);
    assert_eq!(header(&r, "content-type"), Some("text/plain"));
    assert_eq!(header(&r, "content-length"), None);
    assert_eq!(header(&r, "x-bridge"), Some("yes"));
    assert_eq!(header(&r, "http_status_code"), None);
    assert_eq!(r.body, b"hello".to_vec());
    assert!(!r.streaming);

    // Without a status and a content type.
    let r = make_response(reply(b"hello", &[]), &settings(), true, true, None).unwrap();
    assert_eq!(r.status, 200);
    assert_eq!(header(&r, "content-type"), Some("application/octet-stream"));

    // A status that is none is ignored.
    let r = make_response(reply(b"", &[("http_status_code", "99")]), &settings(), true, true, None);
    assert_eq!(r.unwrap().status, 200);

    let r = make_response(MessageDisposition::Ack, &settings(), true, true, None).unwrap();
    assert_eq!((r.status, body_text(&r)), (202, "Message processed"));
    let r = make_response(MessageDisposition::Nack, &settings(), true, true, None).unwrap();
    assert_eq!((r.status, body_text(&r)), (500, "Message processing failed"));
}

#[test]
fn replies_are_compressed_once() {
    let long = vec![b'a'; 500];
    let r = make_response(reply(&long, &[]), &settings(), true, true, None).unwrap();
    assert_eq!(header(&r, "content-encoding"), Some("gzip"));
    assert_eq!(decompress_if_needed(r.body, Some("gzip")).unwrap(), long);

    let r = make_response(reply(&long, &[]), &settings(), false, true, None).unwrap();
    assert_eq!(header(&r, "content-encoding"), None);
    assert_eq!(r.body, long);

    // A body that the application has encoded is sent as it is.
    let r = make_response(reply(&long, &[("Content-Encoding", "br")]), &settings(), true, true, None)
        .unwrap();
    assert_eq!(header(&r, "content-encoding"), Some("br"));
    assert_eq!(r.body, long);
}

#[test]
fn replies_that_stream() {
    let r = make_response(
        reply(b"x", &[("content-type", "text/event-stream")]),
        &settings(),
        false,
        true,
        None,
    );
    assert!(r.unwrap().streaming);
    let r = make_response(
        reply(b"x", &[("transfer-encoding", "chunked")]),
        &settings(),
        false,
        true,
        None,
    )
    .unwrap();
    assert!(r.streaming);
    assert_eq!(header(&r, "transfer-encoding"), None);
}

#[test]
fn unchanged_request_headers_are_not_repeated() {
    let request = request_head(vec![
        Header::new("x-request-id", "7"),
        Header::new("content-type", "text/plain"),
    ]);
    let r = make_response(
        reply(b"x", &[("x-request-id", "7"), ("x-new", "8"), ("content-type", "text/plain")]),
        &settings(),
        false,
        true,
        Some(&request),
    )
    .unwrap();
    assert_eq!(header(&r, "x-request-id"), None);
    assert_eq!(header(&r, "x-new"), Some("8"));
    // The content type describes the response, so it is always sent.
    assert_eq!(header(&r, "content-type"), Some("text/plain"));
}

#[test]
fn echoes_without_metadata() {
    assert!(inline_echo_fast_path_applies(true, false, &[]));
    assert!(!inline_echo_fast_path_applies(false, false, &[]));
    assert!(!inline_echo_fast_path_applies(true, true, &[]));
    for name in ["content-encoding", "transfer-encoding", "http_status_code"] {
        assert!(!inline_echo_fast_path_applies(true, false, &[Header::new(name, "x")]));
    }
    assert!(!inline_echo_fast_path_applies(
        true,
        false,
        &[Header::new("content-type", "text/event-stream")]
    ));

    let plain = Header::new("content-type", "text/plain");
    let r = inline_echo_response(Some(&plain), b"hi".to_vec(), &settings(), true).unwrap();
    assert_eq!(r.status, 200);
    assert_eq!(header(&r, "content-type"), Some("text/plain"));
    assert_eq!(r.raw_type, None);
    assert_eq!(r.body, b"hi".to_vec());
    let r = inline_echo_response(None, b"hi".to_vec(), &settings(), true).unwrap();
    assert_eq!(header(&r, "content-type"), Some("application/octet-stream"));
    let odd = Header::opaque("content-type", b"text/pl\xe9".to_vec());
    let r = inline_echo_response(Some(&odd), b"hi".to_vec(), &settings(), true).unwrap();
    assert_eq!(header(&r, "content-type"), None);
    assert_eq!(r.raw_type, Some(b"text/pl\xe9".to_vec()));
}

#[test]
fn requests_are_routed_by_the_most_specific_registration() {
    let mut router = SharedHttpRouter::new();
    router.register_route(1, key(None, None)).unwrap();
    router.register_route(2, key(Some("/a"), None)).unwrap();
    router.register_route(3, key(Some("/b"), Some("POST"))).unwrap();
    router.register_route(4, key(Some("/b"), Some("PUT"))).unwrap();
    // The same path twice is refused and changes nothing.
    assert_eq!(
        err(router.register_route(5, key(Some("/a"), None))),
        "Conflicting HTTP consumer registration for path Some(\"/a\") and method None"
    );
    assert_eq!(router.routes.len(), 4);

    assert!(matches!(router.match_route("/a", "GET"), RouteMatchResult::Matched(1)));
    assert!(matches!(router.match_route("/zzz", "GET"), RouteMatchResult::Matched(0)));
    assert!(matches!(router.match_route("/b", "PUT"), RouteMatchResult::Matched(3)));

    assert!(!router.unregister_route(1));
    assert!(matches!(router.match_route("/zzz", "GET"), RouteMatchResult::NotFound));
    match router.match_route("/b", "GET") {
        RouteMatchResult::MethodNotAllowed(allowed) => {
            assert_eq!(allowed, vec!["POST".to_string(), "PUT".to_string()]);
        }
        other => panic!("unexpected {:?}", other),
    }

    match route_request(&router, "/b", "GET", true) {
        Routed::Respond(r) => {
            assert_eq!((r.status, body_text(&r)), (405, "Method GET not allowed"));
            assert_eq!(header(&r, "allow"), Some("POST, PUT"));
        }
        other => panic!("unexpected {:?}", other),
    }
    match route_request(&router, "/zzz", "GET", true) {
        Routed::Respond(r) => {
            assert_eq!((r.status, body_text(&r)), (404, "No HTTP consumer registered for this path"));
        }
        other => panic!("unexpected {:?}", other),
    }
    assert!(!router.unregister_route(2));
    assert!(!router.unregister_route(3));
    assert!(router.unregister_route(4));
}

#[test]
fn requests_are_admitted_with_their_metadata() {
    let id = "0192b0c6-0000-7000-8000-000000000001";
    let request = request_head(vec![
        Header::new("message-id", id),
        Header::new("http_path", "/forged"),
        Header::new("x-a", "1"),
        Header::opaque("x-bytes", vec![0xe9]),
        Header::new("content-encoding", "gzip"),
    ]);
    match admit_request(&state(), &request, true) {
        Admitted::ReadBody(pending) => {
            assert_eq!(pending.message_id, Some(0x0192b0c6_0000_7000_8000_000000000001));
            assert_eq!(value(&pending.metadata, "http_method"), Some("POST"));
            assert_eq!(value(&pending.metadata, "http_path"), Some("/orders"));
            assert_eq!(value(&pending.metadata, "http_query"), Some("a=1"));
            assert_eq!(value(&pending.metadata, "http_version"), Some("HTTP/1.1"));
            assert_eq!(value(&pending.metadata, "tls_protocol_version"), Some("TLSv1_3"));
            assert_eq!(
                value(&pending.metadata, "tls_cipher_suite"),
                Some("TLS13_AES_256_GCM_SHA384")
            );
            assert_eq!(value(&pending.metadata, "x-a"), Some("1"));
            assert_eq!(value(&pending.metadata, "x-bytes"), None);
            assert_eq!(pending.content_encoding.as_deref(), Some("gzip"));
        }
        other => panic!("unexpected {:?}", other),
    }
}

#[test]
fn the_identifier_header_is_found_in_any_case() {
    let mut s = state();
    s.message_id_header = "X-Message-Id".to_string();
    match admit_request(&s, &request_head(vec![Header::new("x-message-id", "42")]), true) {
        Admitted::ReadBody(pending) => assert_eq!(pending.message_id, Some(0x42)),
        other => panic!("unexpected {:?}", other),
    }
}

#[test]
fn message_identifiers_in_a_header() {
    let with_id = |text: &str| match admit_request(
        &state(),
        &request_head(vec![Header::new("message-id", text)]),
        true,
    ) {
        Admitted::ReadBody(pending) => pending.message_id,
        other => panic!("unexpected {:?}", other),
    };
    assert_eq!(with_id("0xff"), Some(255));
    assert_eq!(with_id("10"), Some(16));
    assert_eq!(with_id("340282366920938463463374607431768211455"), Some(u128::MAX));
    assert_eq!(with_id("not an id"), None);
    assert_eq!(with_id("urn:uuid:00000000-0000-0000-0000-00000000000a"), Some(10));
}

#[test]
fn streamed_and_echoed_requests() {
    let mut s = state();
    s.receive_streamable = true;
    let request = request_head(vec![
        Header::new("content-type", "application/x-ndjson"),
        Header::new("accept", "text/event-stream"),
    ]);
    match admit_request(&s, &request, true) {
        Admitted::Stream { request_format, response_format, .. } => {
            assert_eq!(request_format, HttpStreamFormat::Ndjson);
            assert_eq!(response_format, HttpStreamFormat::Sse);
        }
        other => panic!("unexpected {:?}", other),
    }
    let request = request_head(vec![Header::new("content-encoding", "gzip")]);
    match admit_request(&s, &request, true) {
        Admitted::Respond(r) => {
            assert_eq!(
                (r.status, body_text(&r)),
                (415, "Compressed streamable HTTP requests are not supported")
            );
        }
        other => panic!("unexpected {:?}", other),
    }
    let r = stream_opening(false, HttpStreamFormat::Sse, &metadata(&[("x", "1")]));
    assert_eq!(r.status, 200);
    assert_eq!(header(&r, "content-type"), Some("text/event-stream"));
    assert!(r.streaming);
    let r = stream_opening(true, HttpStreamFormat::Sse, &metadata(&[]));
    assert_eq!((r.status, body_text(&r)), (202, "Message stream accepted for processing"));

    let mut s = state();
    s.inline_echo = true;
    assert!(matches!(admit_request(&s, &request_head(vec![]), true), Admitted::Echo));

    let mut s = state();
    s.basic_auth = Some(("u".to_string(), "p".to_string()));
    match admit_request(&s, &request_head(vec![]), true) {
        Admitted::Respond(r) => {
            assert_eq!((r.status, body_text(&r)), (401, "Missing authorization header"));
        }
        other => panic!("unexpected {:?}", other),
    }
}

#[test]
fn bodies_become_messages() {
    let pending = |s: &HttpConsumerState, headers: Vec<Header>| {
        match admit_request(s, &request_head(headers), true) {
            Admitted::ReadBody(p) => p,
            other => panic!("unexpected {:?}", other),
        }
    };
    let s = state();
    let p = pending(&s, vec![Header::new("message-id", "0x5")]);
    match receive_body(&s, p, BodyEvent::Read(b"hi".to_vec()), true).unwrap() {
        Delivery::Queue(m) => {
            assert_eq!(m.message_id, 5);
            assert_eq!(m.payload, b"hi".to_vec());
            assert_eq!(value(&m.metadata, "http_path"), Some("/orders"));
        }
        other => panic!("unexpected {:?}", other),
    }
    let inline = HttpConsumer::new_with_inline_publisher(&HttpConfig::default(), false).unwrap();
    let p = pending(&inline.state, vec![]);
    assert!(matches!(
        receive_body(&inline.state, p, BodyEvent::Read(vec![]), true).unwrap(),
        Delivery::Inline(_)
    ));
    let p = pending(&s, vec![Header::new("content-encoding", "gzip")]);
    let e = err(receive_body(&s, p, BodyEvent::Read(b"plain".to_vec()), true));
    assert!(e.starts_with("Failed to decompress request body: "));

    let r = err(body_or_response(BodyEvent::Failed("reset".to_string()), true));
    assert_eq!((r.status, body_text(&r)), (400, "Failed to read body: reset"));
    let r = err(body_or_response(BodyEvent::TimedOut, true));
    assert_eq!((r.status, body_text(&r)), (408, "Timed out reading request body"));
}

#[test]
fn answers_to_queued_requests() {
    let mut s = state();
    assert!(answer_queued(&s, QueueEvent::Queued, true).is_none());
    let r = answer_queued(&s, QueueEvent::Closed, true).unwrap();
    assert_eq!((r.status, body_text(&r)), (500, "Internal pipeline closed"));
    let r = answer_queued(&s, QueueEvent::Full, true).unwrap();
    assert_eq!((r.status, body_text(&r)), (503, "Server overloaded"));
    s.fire_and_forget = true;
    let r = answer_queued(&s, QueueEvent::Queued, true).unwrap();
    assert_eq!((r.status, body_text(&r)), (202, "Message accepted for processing"));

    let s = state();
    let r = answer_disposition(&s, WaitEvent::Closed, true, true).unwrap();
    assert_eq!((r.status, body_text(&r)), (500, "Pipeline closed"));
    let r = answer_disposition(&s, WaitEvent::TimedOut, true, true).unwrap();
    assert_eq!((r.status, body_text(&r)), (504, "Request timed out"));
    let r = answer_disposition(&s, WaitEvent::Disposed(reply(b"ok", &[])), true, true).unwrap();
    assert_eq!((r.status, body_text(&r)), (200, "ok"));

    let request = request_head(vec![]);
    let r = answer_inline(&s, &request, InlineEvent::TimedOut, true, true).unwrap();
    assert_eq!((r.status, body_text(&r)), (504, "Request timed out"));
    let r = answer_inline(&s, &request, InlineEvent::Failed, true, true).unwrap();
    assert_eq!((r.status, body_text(&r)), (500, "Message processing failed"));
    let r = answer_inline(&s, &request, InlineEvent::Sent(Sent::Ack), true, true).unwrap();
    assert_eq!((r.status, body_text(&r)), (202, "Message processed"));

    let r = answer_error("boom", true);
    assert_eq!(r.status, 500);
}

#[test]
fn consumers_are_set_up_from_their_configuration() {
    let c = HttpConsumer::new(&HttpConfig::default()).unwrap();
    assert_eq!(c.buffer_size, 1024);
    assert_eq!(c.state.request_timeout_ms, 30_000);
    assert_eq!(c.state.message_id_header, "message-id");
    assert_eq!(c.state.concurrency_limit, 100);
    assert_eq!(c.state.response.compression_threshold_bytes, 1024);
    assert!(!c.state.inline);

    let config = HttpConfig {
        path: Some("a/b".to_string()),
        method: Some("PATCH".to_string()),
        internal_buffer_size: Some(0),
        ..HttpConfig::default()
    };
    let c = HttpConsumer::new(&config).unwrap();
    assert_eq!(c.route.path.as_deref(), Some("/a/b"));
    assert_eq!(c.route.method.as_deref(), Some("PATCH"));
    assert_eq!(c.buffer_size, 1);

    let bad = HttpConfig { method: Some("NO WAY".to_string()), ..HttpConfig::default() };
    assert_eq!(err(HttpConsumer::new(&bad)), "Invalid config.method: 'NO WAY'");
    assert_eq!(err(HttpPublisher::new(&HttpConfig {
        url: "http://localhost".to_string(),
        ..bad
    })), "Invalid config.method: 'NO WAY'");
}

#[test]
fn paths_are_normalised() {
    assert_eq!(normalize_http_path(None), None);
    assert_eq!(normalize_http_path(Some("x")).as_deref(), Some("/x"));
    assert_eq!(normalize_http_path(Some("/x")).as_deref(), Some("/x"));
    assert_eq!(normalize_http_path(Some("")), None);
}

#[test]
fn servers_are_shared_by_equal_settings() {
    let key = |addr: &str, workers: usize| HttpServerKey {
        listen_addr: addr.to_string(),
        tls: TlsConfig::default(),
        workers,
        server_protocol: HttpServerProtocol::Auto,
    };
    let servers = vec![key("127.0.0.1:1", 1), key("127.0.0.1:2", 1)];
    assert!(matches!(
        find_shared_server(&servers, &key("127.0.0.1:2", 1), false),
        ServerLookup::Reuse(1)
    ));
    assert!(matches!(
        find_shared_server(&servers, &key("127.0.0.1:2", 1), true),
        ServerLookup::Absent
    ));
    assert!(matches!(
        find_shared_server(&servers, &key("127.0.0.1:3", 1), false),
        ServerLookup::Absent
    ));
    match find_shared_server(&servers, &key("127.0.0.1:2", 2), false) {
        ServerLookup::Conflict(text) => assert_eq!(
            text,
            "HTTP consumer 127.0.0.1:2 is already registered with different TLS or worker settings"
        ),
        other => panic!("unexpected {:?}", other),
    }
    let secret = TlsConfig { cert_password: Some("p".to_string()), ..TlsConfig::default() };
    assert!(!same_tls_values(&secret, &TlsConfig::default()));
    assert!(same_tls_values(&secret, &secret.copy()));
}

#[test]
fn server_settings_at_the_edges() {
    assert_eq!(worker_count(None, 4), 4);
    assert_eq!(worker_count(Some(0), 4), 4);
    assert_eq!(worker_count(Some(2), 4), 2);
    assert!(http_reuseport_enabled(None, true));
    assert!(!http_reuseport_enabled(None, false));
    assert!(!http_reuseport_enabled(Some(" OFF "), true));
    assert!(http_reuseport_enabled(Some("1"), false));
    assert_eq!(listener_of_worker(5, 3), 2);
    assert_eq!(alpn_protocols(HttpServerProtocol::Auto), vec!["h2", "http/1.1"]);
    assert_eq!(alpn_protocols(HttpServerProtocol::Http1Only), vec!["http/1.1"]);
    assert_eq!(alpn_protocols(HttpServerProtocol::Http2Only), vec!["h2"]);

    let tls = TlsConfig { required: true, ..TlsConfig::default() };
    assert_eq!(
        tls_server_refusal(&tls).as_deref(),
        Some("HTTP server TLS enabled but no cert/key provided in HttpConfig")
    );
    assert!(tls_server_refusal(&TlsConfig::default()).is_none());

    let config = HttpConfig {
        url: "127.0.0.1:0".to_string(),
        path: Some("in".to_string()),
        ..HttpConfig::default()
    };
    assert_eq!(
        build_consumer_target_url(&config, Some(("127.0.0.1", 0)), Some(8081)),
        "http://127.0.0.1:8081/in"
    );
    assert_eq!(build_consumer_target_url(&config, None, Some(8081)), "http://127.0.0.1:0/in");
}

#[test]
fn permits_are_split_over_shards() {
    let limiter = ConcurrencyLimiter::new(10, 4);
    assert_eq!(limiter.shards.iter().sum::<usize>(), 10);
    assert_eq!(limiter.shards.len(), 4);
    assert!(limiter.shards.iter().all(|n| *n == 2 || *n == 3));
    let mut order = limiter.sweep(6);
    assert_eq!(order[0], 2);
    order.sort();
    assert_eq!(order, vec![0, 1, 2, 3]);
    // A single permit has a single shard.
    assert_eq!(ConcurrencyLimiter::new(1, 8).shards, vec![1]);

    let mut counter = ShardCounter { next: 7 };
    assert_eq!(counter.shard_index(None), 7);
    assert_eq!(counter.shard_index(Some(7)), 7);
    assert_eq!(counter.shard_index(None), 8);
}

fn publisher(config: HttpConfig) -> HttpPublisher {
    HttpPublisher::new(&HttpConfig { url: "http://host:81/base".to_string(), ..config }).unwrap()
}

#[test]
fn messages_become_requests() {
    let p = publisher(HttpConfig {
        basic_auth: Some(("user".to_string(), "pass".to_string())),
        custom_headers: vec![("x-key".to_string(), "k".to_string())],
        compression_enabled: true,
        compression_threshold_bytes: Some(64),
        ..HttpConfig::default()
    });
    let plain = p.prepare(&CanonicalMessage::new(b"hi".to_vec(), Some(1))).unwrap();
    assert_eq!(plain.method, "POST");
    assert_eq!(plain.uri, "http://host:81/base");
    assert_eq!(field(&plain.headers, "authorization"), Some("Basic dXNlcjpwYXNz"));
    assert_eq!(field(&plain.headers, "x-key"), Some("k"));
    assert_eq!(plain.body, b"hi".to_vec());

    let message = CanonicalMessage::new(vec![b'a'; 300], Some(1))
        .with_metadata_kv("http_method", "PUT")
        .with_metadata_kv("http_path", "/other")
        .with_metadata_kv("http_query", "q=1")
        .with_metadata_kv("http_version", "HTTP/1.1")
        .with_metadata_kv("x-a", "1");
    let request = p.prepare(&message).unwrap();
    assert_eq!(request.method, "PUT");
    assert_eq!(request.uri, "http://host:81/other?q=1");
    assert_eq!(field(&request.headers, "x-a"), Some("1"));
    assert_eq!(field(&request.headers, "http_version"), None);
    assert_eq!(field(&request.headers, "content-encoding"), Some("gzip"));
    assert_eq!(decompress_if_needed(request.body, Some("gzip")).unwrap(), vec![b'a'; 300]);

    // A method that is none falls back to the configured one.
    let message =
        CanonicalMessage::new(vec![], Some(1)).with_metadata_kv("http_method", "NOT A METHOD");
    assert_eq!(p.prepare(&message).unwrap().method, "POST");
    let message = CanonicalMessage::new(vec![], Some(1)).with_metadata_kv("http_path", "/a b");
    let e = err(p.prepare(&message));
    assert!(failure_text(&e).0.starts_with("Failed to build URI: "));
    assert!(!failure_text(&e).1);

    let e = err(HttpPublisher::new(&HttpConfig { url: "a b".to_string(), ..HttpConfig::default() }));
    assert!(e.starts_with("Invalid configured URL 'http://a b': "));
}

#[test]
fn publishers_read_the_head_of_a_response() {
    let p = publisher(HttpConfig::default());
    let e = p.no_response(Some("refused"));
    assert_eq!(
        failure_text(&e),
        ("Failed to send HTTP request to http://host:81/base: refused", true)
    );
    assert_eq!(failure_text(&p.no_response(None)), ("HTTP request timeout", true));

    let message = CanonicalMessage::new(vec![], Some(0xab));
    let head = |headers: Vec<Header>| ResponseHead {
        status: 200,
        version: HttpVersion::Http2,
        headers,
    };
    let stream = vec![Header::new("content-type", "text/event-stream")];
    match p.on_head(&message, &head(stream)) {
        HeadStep::ReadBody { metadata, content_encoding } => {
            assert_eq!(value(&metadata, "http_version"), Some("HTTP/2.0"));
            assert_eq!(value(&metadata, "content-type"), Some("text/event-stream"));
            assert_eq!(content_encoding, None);
        }
        other => panic!("unexpected {:?}", other),
    }
    let config = HttpConfig { url: "http://host".to_string(), ..HttpConfig::default() };
    let p = HttpPublisher::new_with_stream_response_sink(&config, true).unwrap();
    let stream = vec![Header::new("content-type", "text/event-stream")];
    match p.on_head(&message, &head(stream)) {
        HeadStep::Stream { correlation_id, format, .. } => {
            assert_eq!(correlation_id, "000000000000000000000000000000ab");
            assert_eq!(format, HttpStreamFormat::Sse);
        }
        other => panic!("unexpected {:?}", other),
    }
    let packed = vec![
        Header::new("content-type", "text/event-stream"),
        Header::new("content-encoding", "gzip"),
    ];
    match p.on_head(&message, &head(packed)) {
        HeadStep::Fail(e) => assert_eq!(
            failure_text(&e),
            ("Compressed HTTP response streams cannot be published to stream_response_to", true)
        ),
        other => panic!("unexpected {:?}", other),
    }
}

#[test]
fn statuses_decide_what_is_tried_again() {
    let outcome = |status: u16, body: ResponseBody| {
        response_outcome(7, status, metadata(&[("a", "b")]), None, body)
    };
    match outcome(204, ResponseBody::Read(b"x".to_vec())) {
        Ok(Sent::Response(m)) => {
            assert_eq!(m.message_id, 7);
            assert_eq!(m.payload, b"x".to_vec());
            assert_eq!(value(&m.metadata, "a"), Some("b"));
        }
        other => panic!("unexpected {:?}", other),
    }
    for (status, again) in [(404, false), (500, true), (501, false), (503, true), (505, false), (302, false)] {
        let e = err(outcome(status, ResponseBody::Read(b"no\n".to_vec())));
        assert_eq!(failure_text(&e).1, again, "status {}", status);
    }
    let e = err(outcome(404, ResponseBody::Read(b"no\n".to_vec())));
    assert_eq!(
        failure_text(&e).0,
        "HTTP send request failed with status 404 Not Found: \"no\\n\""
    );
    let e = err(outcome(200, ResponseBody::TimedOut));
    assert_eq!(failure_text(&e), ("HTTP response body collection timeout", true));
    let e = err(outcome(200, ResponseBody::Failed("cut".to_string())));
    assert_eq!(failure_text(&e), ("Failed to read HTTP response body: cut", true));
    let e = err(response_outcome(7, 200, metadata(&[]), Some("gzip"), ResponseBody::Read(vec![1])));
    assert!(failure_text(&e).0.starts_with("Failed to decompress response: "));
}

#[test]
fn batches_keep_every_outcome() {
    let message = |id: u128| CanonicalMessage::new(vec![], Some(id));
    assert!(matches!(
        collect_batch(vec![SendResult { message: message(1), outcome: Ok(Sent::Ack) }]),
        SentBatch::Ack
    ));
    let batch = collect_batch(vec![
        SendResult { message: message(1), outcome: Ok(Sent::Response(message(10))) },
        SendResult { message: message(2), outcome: Ok(Sent::Ack) },
        SendResult {
            message: message(3),
            outcome: Err(PublisherError::Retryable("x".to_string())),
        },
    ]);
    match batch {
        SentBatch::Partial { responses: Some(responses), failed } => {
            assert_eq!(responses.len(), 1);
            assert_eq!(responses[0].message_id, 10);
            assert_eq!(failed.len(), 1);
            assert_eq!(failed[0].0.message_id, 3);
        }
        other => panic!("unexpected {:?}", other),
    }
}

#[test]
fn listeners_are_bound_one_by_one() {
    assert_eq!(start_binding(1, true), BindStep::Shared);
    assert_eq!(start_binding(4, false), BindStep::Shared);
    assert_eq!(start_binding(3, true), BindStep::Own);
    assert_eq!(after_bind(3, 0, true), BindStep::Own);
    assert_eq!(after_bind(3, 2, true), BindStep::Done(3));
    // Where a listener cannot be bound, a single one is shared.
    assert_eq!(after_bind(3, 0, false), BindStep::Shared);
    assert_eq!(after_bind(3, 2, false), BindStep::Done(1));
    assert_eq!(accept_pause_ms(true, Some(TOO_MANY_FILES)), 1);
    assert_eq!(accept_pause_ms(false, Some(TOO_MANY_FILES)), 100);
    assert_eq!(accept_pause_ms(false, None), 10);
}

#[test]
fn servers_on_picked_ports_are_kept_under_their_address() {
    let key = HttpServerKey {
        listen_addr: "127.0.0.1:0".to_string(),
        tls: TlsConfig::default(),
        workers: 2,
        server_protocol: HttpServerProtocol::Auto,
    };
    let kept = registered_key(&key, true, Some("127.0.0.1:81")).unwrap();
    assert_eq!(kept.listen_addr, "127.0.0.1:81");
    assert_eq!(kept.workers, 2);
    assert_eq!(registered_key(&key, false, None).unwrap().listen_addr, "127.0.0.1:0");
    assert_eq!(
        err(registered_key(&key, true, None)),
        "Failed to determine bound HTTP listener address"
    );
}

#[test]
fn batches_of_requests() {
    assert_eq!(receive_limit(0), 1);
    assert_eq!(receive_limit(5), 5);
    assert!(received_requests(vec![]).is_err());
    assert_eq!(received_requests(vec![CanonicalMessage::new(vec![], None)]).unwrap().len(), 1);
    assert!(commit_result(&vec![None, None]).is_ok());
    let failed = vec![None, Some("a".to_string()), Some("b".to_string())];
    assert_eq!(err(commit_result(&failed)), "a");
}

#[test]
fn endpoints_report_their_load() {
    let consumer = HttpConsumer::new(&HttpConfig::default()).unwrap();
    let s = consumer.status("http://h", &None, 3);
    assert_eq!((s.pending, s.capacity), (Some(3), Some(1024)));
    assert_eq!(s.details, vec![("bound_addr".to_string(), Detail::Absent)]);
    assert_eq!(publisher(HttpConfig::default()).status().target, "http://host:81/base");
}

#[test]
fn fields_that_cannot_be_sent_are_refused() {
    let p = publisher(HttpConfig::default());
    let message = CanonicalMessage::new(vec![], Some(1)).with_metadata_kv("bad name", "x");
    let e = err(p.prepare(&message));
    assert_eq!(failure_text(&e).0, "Failed to build request: invalid HTTP header name");
    assert!(!failure_text(&e).1);
    let message = CanonicalMessage::new(vec![], Some(1)).with_metadata_kv("x-a", "line\nbreak");
    let e = err(p.prepare(&message));
    assert_eq!(failure_text(&e).0, "Failed to build request: failed to parse header value");
}

#[test]
fn an_exchange_runs_from_head_to_response() {
    let mut router = SharedHttpRouter::new();
    router.register_route(1, key(Some("/orders"), Some("POST"))).unwrap();
    let s = state();
    let (x, action) = Exchange::start(&router, request_head(vec![]), false);
    assert!(matches!(action, ExchangeAction::Acquire(0)));
    assert!(!x.holds_permit());
    let (x, action) = x.step(&s, ExchangeEvent::Permit(None));
    assert!(matches!(action, ExchangeAction::ReadBody));
    assert!(x.holds_permit());
    let (x, action) = x.step(&s, ExchangeEvent::Body(BodyEvent::Read(b"hi".to_vec())));
    match action {
        ExchangeAction::Queue(m) => assert_eq!(m.payload, b"hi".to_vec()),
        other => panic!("unexpected {:?}", other),
    }
    assert!(x.holds_permit());
    let (x, action) = x.step(&s, ExchangeEvent::Queue(QueueEvent::Queued));
    assert!(matches!(action, ExchangeAction::Wait));
    assert!(!x.holds_permit());
    let done = WaitEvent::Disposed(reply(b"done", &[("content-type", "text/plain")]));
    let (x, action) = x.step(&s, ExchangeEvent::Wait(done));
    match action {
        ExchangeAction::Respond(r) => {
            assert_eq!((r.status, body_text(&r)), (200, "done"));
            assert_eq!(header(&r, "content-type"), Some("text/plain"));
        }
        other => panic!("unexpected {:?}", other),
    }
    assert!(matches!(x.stage, ExchangeStage::Done));
}

#[test]
fn an_exchange_can_end_early() {
    let answer = |action: ExchangeAction| match action {
        ExchangeAction::Respond(r) => (r.status, body_text(&r).to_string()),
        other => panic!("unexpected {:?}", other),
    };
    let mut router = SharedHttpRouter::new();
    let (x, action) = Exchange::start(&router, request_head(vec![]), false);
    assert_eq!(answer(action).0, 404);
    assert!(matches!(x.stage, ExchangeStage::Done));

    router.register_route(1, key(None, None)).unwrap();
    let begin = |headers: Vec<Header>| Exchange::start(&router, request_head(headers), true).0;
    let mut s = state();
    s.basic_auth = Some(("u".to_string(), "p".to_string()));
    let (x, action) = begin(vec![]).step(&s, ExchangeEvent::Permit(None));
    assert_eq!(answer(action), (401, "Missing authorization header".to_string()));
    assert!(!x.holds_permit());
    let (_, action) = begin(vec![]).step(&s, ExchangeEvent::Permit(Some("closed".to_string())));
    assert_eq!(answer(action), (500, "Internal error: closed".to_string()));

    let mut s = state();
    s.receive_streamable = true;
    let (x, action) = begin(vec![]).step(&s, ExchangeEvent::Permit(None));
    assert!(matches!(action, ExchangeAction::Stream { .. }));
    assert!(matches!(x.stage, ExchangeStage::Done));

    let inline = HttpConsumer::new_with_inline_publisher(&HttpConfig::default(), true).unwrap();
    let headers = vec![Header::new("content-type", "text/css")];
    let (x, _) = begin(headers).step(&inline.state, ExchangeEvent::Permit(None));
    assert!(matches!(x.stage, ExchangeStage::Echoing));
    let read = ExchangeEvent::Body(BodyEvent::Read(b"a {}".to_vec()));
    let (_, action) = x.step(&inline.state, read);
    match action {
        ExchangeAction::Respond(r) => {
            assert_eq!((r.status, body_text(&r)), (200, "a {}"));
            assert_eq!(header(&r, "content-type"), Some("text/css"));
        }
        other => panic!("unexpected {:?}", other),
    }

    let inline = HttpConsumer::new_with_inline_publisher(&HttpConfig::default(), false).unwrap();
    let (x, _) = begin(vec![]).step(&inline.state, ExchangeEvent::Permit(None));
    let (x, action) =
        x.step(&inline.state, ExchangeEvent::Body(BodyEvent::Read(b"in".to_vec())));
    assert!(matches!(action, ExchangeAction::SendInline(_)));
    assert!(!x.holds_permit());
    let (_, action) = x.step(&inline.state, ExchangeEvent::Inline(InlineEvent::TimedOut));
    assert_eq!(answer(action), (504, "Request timed out".to_string()));

    let headers = vec![Header::new("content-encoding", "gzip")];
    let (x, _) = begin(headers).step(&state(), ExchangeEvent::Permit(None));
    let (_, action) = x.step(&state(), ExchangeEvent::Body(BodyEvent::Read(b"no".to_vec())));
    let (status, text) = answer(action);
    assert_eq!(status, 500);
    assert!(text.starts_with("Internal error: Failed to decompress request body: "));
}

#[test]
fn sending_runs_from_request_to_outcome() {
    let config = HttpConfig { url: "http://localhost:9".to_string(), ..HttpConfig::default() };
    let publisher = HttpPublisher::new(&config).unwrap();
    let head = |status: u16| ResponseHead {
        status,
        version: HttpVersion::Http11,
        headers: vec![Header::new("x-a", "1")],
    };
    let message = || CanonicalMessage::new(b"ping".to_vec(), Some(7));

    let (send, action) = HttpSend::start(&publisher, message());
    match action {
        SendAction::Request(r) => assert_eq!((r.method.as_str(), r.body), ("POST", b"ping".to_vec())),
        other => panic!("unexpected {:?}", other),
    }
    let (send, action) = send.step(&publisher, SendEvent::Head(head(200)));
    assert!(matches!(action, SendAction::ReadBody));
    let body = SendEvent::Body(ResponseBody::Read(b"pong".to_vec()));
    let (send, action) = send.step(&publisher, body);
    match action {
        SendAction::Finish(Ok(Sent::Response(m))) => {
            assert_eq!((m.message_id, m.payload), (7, b"pong".to_vec()));
            assert_eq!(value(&m.metadata, "x-a"), Some("1"));
        }
        other => panic!("unexpected {:?}", other),
    }
    assert!(matches!(send.stage, SendStage::Done));

    let (send, _) = HttpSend::start(&publisher, message());
    let (_, action) = send.step(&publisher, SendEvent::NoResponse(None));
    match action {
        SendAction::Finish(Err(e)) => assert_eq!(failure_text(&e), ("HTTP request timeout", true)),
        other => panic!("unexpected {:?}", other),
    }
    let mut odd = message();
    odd.metadata = metadata(&[("bad name", "x")]);
    let (send, action) = HttpSend::start(&publisher, odd);
    assert!(matches!(action, SendAction::Finish(Err(PublisherError::NonRetryable(_)))));
    assert!(matches!(send.stage, SendStage::Done));
}

#[test]
fn a_streamed_response_is_sent_once_it_was_published_in_part() {
    let config = HttpConfig { url: "http://localhost:9".to_string(), ..HttpConfig::default() };
    let publisher = HttpPublisher::new_with_stream_response_sink(&config, true).unwrap();
    let head = ResponseHead {
        status: 200,
        version: HttpVersion::Http11,
        headers: vec![Header::new("content-type", "application/x-ndjson")],
    };
    let message = CanonicalMessage::new(b"ping".to_vec(), Some(7));
    let (send, _) = HttpSend::start(&publisher, message);
    let (send, action) = send.step(&publisher, SendEvent::Head(head));
    assert!(matches!(action, SendAction::ReadFrame));
    let (send, action) =
        send.step(&publisher, SendEvent::Stream(StreamEvent::Frame(b"{}\n".to_vec())));
    match action {
        SendAction::Publish(item) => assert_eq!(item.payload, b"{}".to_vec()),
        other => panic!("unexpected {:?}", other),
    }
    let (send, action) = send.step(&publisher, SendEvent::Stream(StreamEvent::Sent));
    assert!(matches!(action, SendAction::ReadFrame));
    let (send, action) = send.step(&publisher, SendEvent::Stream(StreamEvent::TimedOut));
    assert!(matches!(action, SendAction::Publish(_)));
    let lost = StreamEvent::SendFailed(PublisherError::Retryable("full".to_string()));
    let (_, action) = send.step(&publisher, SendEvent::Stream(lost));
    assert!(matches!(action, SendAction::Finish(Ok(Sent::Ack))));
}
