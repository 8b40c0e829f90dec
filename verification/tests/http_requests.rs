use mq_bridge::http::auth::{authorize, basic_auth_header_value, configured_basic_auth};
use mq_bridge::http::content::{guess_content_type, http_version_str, request_accepts_text, HttpVersion};
use mq_bridge::http::frames::{
    bound_stream_buffer, drain_ndjson, find_sse_event_end, stream_request_format,
    stream_response_content_type, stream_response_format, streaming_response_format_from_headers,
    HttpStreamFormat,
};
use mq_bridge::http::gzip::{
    accepts_gzip_offers, compress_if_needed, decompress_if_needed, gzip_offers,
};
use mq_bridge::http::headers::{header_contains_media, header_text, Header};
use mq_bridge::http::request::{
    request_metadata_matches, HttpConnInfo, HttpRequestExt, RequestHead, HTTP_METHOD, HTTP_PATH,
    HTTP_QUERY,
};
use mq_bridge::message::CanonicalMessage;

fn request(method: &str, path: &str, query: &str) -> CanonicalMessage {
    CanonicalMessage::new(Vec::new(), None)
        .with_metadata_kv(HTTP_METHOD, method)
        .with_metadata_kv(HTTP_PATH, path)
        .with_metadata_kv(HTTP_QUERY, query)
}

#[test]
fn reads_request_line() {
    let msg = request("GET", "/sum", "a=2&b=40");
    assert_eq!(msg.http_method(), "GET");
    assert_eq!(msg.http_path(), "/sum");
    assert_eq!(msg.http_query(), "a=2&b=40");
}

#[test]
fn missing_metadata_reads_as_empty() {
    let msg = CanonicalMessage::new(Vec::new(), None);
    assert_eq!(msg.http_method(), "");
    assert_eq!(msg.query_param("a"), None);
    assert_eq!(msg.query_int("a"), None);
}

#[test]
fn parses_query_params_by_exact_key() {
    let msg = request("GET", "/", "a=2&ab=9&b=40");
    assert_eq!(msg.query_param("a"), Some("2"));
    assert_eq!(msg.query_param("ab"), Some("9"));
    assert_eq!(msg.query_int("b"), Some(40));
    assert_eq!(msg.query_param("missing"), None);
    // A prefix of an existing key must not match it.
    assert_eq!(msg.query_param("c"), None);
}

#[test]
fn detects_gzip_support() {
    let yes = request("GET", "/", "").with_metadata_kv("accept-encoding", "br, GZIP");
    let no = request("GET", "/", "").with_metadata_kv("accept-encoding", "deflate");
    assert!(yes.accepts_gzip());
    assert!(!no.accepts_gzip());
    assert!(!request("GET", "/", "").accepts_gzip());
}

#[test]
fn query_values_at_the_edges() {
    let msg = request("GET", "/", "flag&a=&a=1&n=-9223372036854775808&m=9223372036854775808&p=+7");
    // A part without an equals sign has no key, and the first match wins.
    assert_eq!(msg.query_param("flag"), None);
    assert_eq!(msg.query_param("a"), Some(""));
    assert_eq!(msg.query_int("a"), None);
    assert_eq!(msg.query_int("n"), Some(i64::MIN));
    assert_eq!(msg.query_int("m"), None);
    assert_eq!(msg.query_int("p"), Some(7));
}

#[test]
fn test_guess_content_type_from_path() {
    assert_eq!(
        guess_content_type("/assets/app.bundle.js"),
        "text/javascript; charset=utf-8"
    );
    assert_eq!(guess_content_type("images/logo.SVG"), "image/svg+xml");
}

#[test]
fn test_guess_content_type_from_extension() {
    assert_eq!(guess_content_type("html"), "text/html; charset=utf-8");
    assert_eq!(guess_content_type(".woff2"), "font/woff2");
    assert_eq!(guess_content_type("JSON"), "application/json; charset=utf-8");
}

#[test]
fn test_guess_content_type_unknown_defaults_to_octet_stream() {
    assert_eq!(guess_content_type(""), "application/octet-stream");
    assert_eq!(guess_content_type("unknown-ext"), "application/octet-stream");
    assert_eq!(
        guess_content_type("archive.custombin"),
        "application/octet-stream"
    );
}

#[test]
fn test_request_accepts_text_defaults_true_without_accept_header() {
    let headers: Vec<Header> = Vec::new();
    assert!(request_accepts_text(&headers));
}

#[test]
fn test_request_accepts_text_matches_text_and_wildcards() {
    let headers = vec![Header::new("accept", "application/json, text/plain")];
    assert!(request_accepts_text(&headers));

    let headers = vec![Header::new("accept", "*/*")];
    assert!(request_accepts_text(&headers));
}

#[test]
fn test_request_accepts_text_rejects_binary_only_accept_header() {
    let headers = vec![Header::new("accept", "application/octet-stream")];
    assert!(!request_accepts_text(&headers));
}

/// Reads each weight of each offer as the number that a client meant.
fn request_accepts_gzip(headers: &[Header]) -> bool {
    let offers: Vec<(bool, Vec<bool>)> = gzip_offers(headers)
        .iter()
        .map(|(named, weights)| {
            (*named, weights.iter().map(|w| w.parse::<f32>() == Ok(0.0)).collect())
        })
        .collect();
    accepts_gzip_offers(&offers)
}

fn accept_encoding(text: &str) -> Vec<Header> {
    vec![Header::new("accept-encoding", text)]
}

#[test]
fn test_request_accepts_gzip_false_without_header() {
    // No Accept-Encoding => identity only, do not compress.
    let headers: Vec<Header> = Vec::new();
    assert!(!request_accepts_gzip(&headers));
}

#[test]
fn test_request_accepts_gzip_matches_gzip_and_wildcard() {
    assert!(request_accepts_gzip(&accept_encoding("gzip, deflate, br")));
    assert!(request_accepts_gzip(&accept_encoding("deflate, gzip;q=0.8")));
    assert!(request_accepts_gzip(&accept_encoding("*")));
}

#[test]
fn test_request_accepts_gzip_honors_q_zero_and_other_codings() {
    assert!(!request_accepts_gzip(&accept_encoding("gzip;q=0")));
    assert!(!request_accepts_gzip(&accept_encoding("*;q=0")));
    assert!(!request_accepts_gzip(&accept_encoding("br, deflate")));
}

#[test]
fn gzip_offers_lists_the_weights() {
    let headers = vec![
        Header::new("accept-encoding", "GZIP ; level=1 ; q=0.0, br;q=1, *; q=0.5;q=x"),
        Header::opaque("accept-encoding", vec![0xe9]),
        Header::new("accept", "gzip"),
    ];
    assert_eq!(
        gzip_offers(&headers),
        vec![
            (true, vec!["0.0".to_string()]),
            (false, vec!["0.5".to_string(), "x".to_string()])
        ]
    );
    assert!(accepts_gzip_offers(&vec![(true, vec![false, false]), (false, vec![true])]));
    assert!(!accepts_gzip_offers(&vec![(true, vec![false, true]), (false, vec![])]));
    assert!(!accepts_gzip_offers(&vec![(false, vec![true]), (false, vec![])]));
    assert!(!accepts_gzip_offers(&vec![]));
}

#[test]
fn an_explicit_zero_for_gzip_outranks_the_star() {
    assert!(!request_accepts_gzip(&accept_encoding("gzip;q=0, *")));
    assert!(!request_accepts_gzip(&accept_encoding("*, GZIP; q=0.0")));
    assert!(!request_accepts_gzip(&accept_encoding("gzip;q=0, gzip")));
    assert!(!request_accepts_gzip(&accept_encoding("br, *;q=0")));
    assert!(request_accepts_gzip(&accept_encoding("gzip, *;q=0")));
    let fields = vec![
        Header::new("accept-encoding", "*"),
        Header::new("accept-encoding", "gzip;q=0"),
    ];
    assert!(!request_accepts_gzip(&fields));
}

#[test]
fn bodies_are_compressed_above_the_threshold() {
    let data = vec![0u8; 2048];
    assert_eq!(compress_if_needed(data.clone(), true, 2048), Ok((data.clone(), false)));
    let (body, compressed) = compress_if_needed(data.clone(), true, 2047).unwrap();
    assert!(compressed && body.len() < data.len());
    assert_eq!(decompress_if_needed(body, Some("gzip")), Ok(data));
}

#[test]
fn test_basic_auth_header_value_omits_empty_credentials() {
    let empty = (String::new(), String::new());
    assert_eq!(basic_auth_header_value(Some(&empty)), None);
    assert_eq!(basic_auth_header_value(None), None);
}

#[test]
fn test_configured_basic_auth_omits_empty_credentials() {
    let empty = (String::new(), String::new());
    assert_eq!(configured_basic_auth(Some(&empty)), None);
    assert_eq!(configured_basic_auth(None), None);
}

#[test]
fn test_configured_basic_auth_keeps_non_empty_credentials() {
    let creds = ("user".to_string(), "pass".to_string());
    assert_eq!(configured_basic_auth(Some(&creds)), Some(("user", "pass")));
}

#[test]
fn test_basic_auth_header_value_encodes_configured_credentials() {
    let creds = ("user".to_string(), "pass".to_string());
    assert_eq!(
        basic_auth_header_value(Some(&creds)).as_deref(),
        Some("Basic dXNlcjpwYXNz")
    );
}

#[test]
fn what_the_publisher_sends_the_consumer_lets_in() {
    let creds = ("user".to_string(), "pa:ss".to_string());
    let value = basic_auth_header_value(Some(&creds)).unwrap();
    let headers = vec![Header::new("authorization", &value)];
    assert!(authorize(&headers, Some(&creds)).is_none());
    // Nothing is asked for without credentials.
    assert!(authorize(&[], None).is_none());

    let other = ("user".to_string(), "wrong".to_string());
    let refusal = authorize(&headers, Some(&other)).unwrap();
    assert_eq!(refusal.status, 401);
    let missing = authorize(&[], Some(&creds)).unwrap();
    assert_eq!(missing.status, 401);
    let scheme = authorize(&[Header::new("authorization", "Bearer x")], Some(&creds)).unwrap();
    assert_eq!(scheme.status, 401);
    let garbage = authorize(&[Header::new("authorization", "Basic %%%")], Some(&creds)).unwrap();
    assert!(garbage.status == 400 || garbage.status == 401);
}

#[test]
fn compression_round_trip() {
    let data = vec![b'a'; 4096];
    let (body, compressed) = compress_if_needed(data.clone(), true, 1024).unwrap();
    assert!(compressed);
    assert!(body.len() < data.len());
    assert_eq!(&body[..2], &[0x1f, 0x8b]);
    assert_eq!(decompress_if_needed(body.clone(), Some("GZip")).unwrap(), data);
    // Without the encoding the body is left as it is.
    assert_eq!(decompress_if_needed(body.clone(), None).unwrap(), body);
    assert!(decompress_if_needed(b"plain".to_vec(), Some("gzip")).is_err());

    // Too short, switched off, or not worth it.
    assert_eq!(compress_if_needed(data.clone(), true, 4097).unwrap(), (data.clone(), false));
    assert_eq!(compress_if_needed(data.clone(), false, 0).unwrap(), (data.clone(), false));
    assert_eq!(compress_if_needed(b"x".to_vec(), true, 0).unwrap(), (b"x".to_vec(), false));
}

#[test]
fn protocol_versions_have_names() {
    assert_eq!(http_version_str(HttpVersion::Http09), "HTTP/0.9");
    assert_eq!(http_version_str(HttpVersion::Http10), "HTTP/1.0");
    assert_eq!(http_version_str(HttpVersion::Http11), "HTTP/1.1");
    assert_eq!(http_version_str(HttpVersion::Http2), "HTTP/2.0");
    assert_eq!(http_version_str(HttpVersion::Http3), "HTTP/3.0");
    assert_eq!(http_version_str(HttpVersion::Unknown), "HTTP/?");
}

#[test]
fn test_stream_formats_are_selected_from_headers() {
    let sse_headers = vec![Header::new("content-type", "text/event-stream; charset=utf-8")];
    assert_eq!(stream_request_format(&sse_headers), HttpStreamFormat::Sse);

    let ndjson_headers =
        vec![Header::new("accept", "application/json, application/x-ndjson")];
    assert_eq!(
        stream_response_format(&ndjson_headers),
        HttpStreamFormat::Ndjson
    );
}

#[test]
fn stream_formats_without_a_matching_header() {
    assert_eq!(stream_request_format(&[]), HttpStreamFormat::RawChunks);
    assert_eq!(stream_response_format(&[]), HttpStreamFormat::RawChunks);
    assert_eq!(streaming_response_format_from_headers(&[]), None);
    let sse = vec![Header::new("content-type", "text/event-stream")];
    assert_eq!(streaming_response_format_from_headers(&sse), Some(HttpStreamFormat::Sse));
    assert_eq!(stream_response_content_type(HttpStreamFormat::Ndjson), "application/x-ndjson");
    assert_eq!(stream_response_content_type(HttpStreamFormat::Sse), "text/event-stream");
}

#[test]
fn headers_are_looked_up_by_name() {
    let headers = vec![
        Header::new("accept", "a/b"),
        Header::new("x", "1"),
        Header::new("x", "2"),
    ];
    assert_eq!(header_text(&headers, "x").map(String::as_str), Some("1"));
    assert_eq!(header_text(&headers, "y"), None);
    assert!(header_contains_media(&headers, "accept", "a/b"));
    assert!(!header_contains_media(&headers, "accept", "text/html"));
}

#[test]
fn stream_buffers_are_bounded() {
    assert!(bound_stream_buffer(&[0; 8], 8).is_ok());
    assert!(bound_stream_buffer(&[0; 9], 8).is_err());
}

#[test]
fn ndjson_records_end_at_line_breaks() {
    let mut buffer = b"one\r\n\n  \ntwo\nrest".to_vec();
    let records = drain_ndjson(&mut buffer);
    assert_eq!(records.first().map(|r| r.as_slice()), Some(&b"one"[..]));
    assert_eq!(records.last().map(|r| r.as_slice()), Some(&b"two"[..]));
    assert_eq!(buffer, b"rest".to_vec());
}

#[test]
fn events_end_at_a_blank_line() {
    assert_eq!(find_sse_event_end(b"data: x"), None);
    assert!(find_sse_event_end(b"data: x\n\nnext").is_some());
    assert!(find_sse_event_end(b"data: x\r\n\r\nnext").is_some());
}

#[test]
fn reply_metadata_that_repeats_the_request_is_recognised() {
    let head = RequestHead {
        method: "POST".to_string(),
        path: "/a".to_string(),
        query: None,
        version: HttpVersion::Http11,
        headers: vec![Header::new("x-id", "7")],
        conn_info: HttpConnInfo { cipher_suite: None, protocol_version: None },
    };
    assert!(request_metadata_matches(&head, "http_method", "POST"));
    assert!(request_metadata_matches(&head, "http_path", "/a"));
    assert!(request_metadata_matches(&head, "x-id", "7"));
    assert!(!request_metadata_matches(&head, "x-id", "8"));
    assert!(!request_metadata_matches(&head, "absent", "7"));
    assert!(request_metadata_matches(&head, "X-Id", "7"));
}

#[test]
fn only_the_last_extension_counts() {
    let js = "text/javascript; charset=utf-8";
    for name in ["js", ".js", "JS", "/dir/name.js", "a.b.js", "/assets/app.bundle.js", " x.js "] {
        assert_eq!(guess_content_type(name), js);
    }
    assert_eq!(guess_content_type("JSON"), "application/json; charset=utf-8");
    for name in ["zzz", ".zzz", "/dir/name.zzz", "a.js.zzz", "/dir/.js"] {
        assert_eq!(guess_content_type(name), "application/octet-stream");
    }
}
