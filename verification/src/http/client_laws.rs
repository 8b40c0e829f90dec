//! What a server sees of a message, and what comes back of its response.

use vstd::prelude::*;
use vstd::utf8::{decode_utf8, valid_utf8};

use crate::http::auth::{
    auth_refusal, base64_decoded, credential_bytes, credentials, law_own_credentials_are_let_in,
    user_and_password,
};
use crate::http::content::{version_text, HttpVersion};
use crate::http::gzip::{gunzip_of, gzip_of};
use crate::http::headers::{header_has_media, header_slot, is_field_text, is_header_name, Header};
use crate::http::publisher::{
    field_refusal, first_refusal, head_step, header_fields, is_method, keeps_origin,
    no_response_failure, parts_of_uri, prepared, request_headers, request_uri, response_metadata,
    response_result, stream_result, uri_of_parts, with_scheme, HeadView, HttpPublisher,
    ResponseBody, ResponseHead,
};
use crate::http::response_stream::StreamFailureView;
use crate::http::server::request_encoding;
use crate::ids::hex_digits;
use crate::message::{law_reads_give_back_writes, lookup, FailureView, MessageView, Pairs, SentView};
use crate::text::{contains, lower_all, same_ignoring_case, starts_with};

verus! {

/// Whether a name is of the request line or of the connection.
pub open spec fn is_of_the_line(key: Seq<char>) -> bool {
    key == "http_method"@ || key == "http_path"@ || key == "http_query"@ || key
        == "http_version"@ || key == "tls_cipher_suite"@ || key == "tls_protocol_version"@
}

/// Every value of a message's metadata is among the header fields of its request, unless
/// it is of the request line or of the connection; and no other field is. The fields
/// keep the order of the metadata, each as often as it is there.
pub proof fn law_metadata_becomes_header_fields(a: Pairs, b: Pairs, p: (Seq<char>, Seq<char>))
    ensures
        header_fields(a).contains(p) <==> a.contains(p) && !is_of_the_line(p.0),
        header_fields(a + b) == header_fields(a) + header_fields(b),
        header_fields(seq![p]) == (if is_of_the_line(p.0) {
            seq![]
        } else {
            seq![p]
        }),
{
    lemma_fields(a, p);
    lemma_fields_of_both(a, b);
    reveal_with_fuel(header_fields, 2);
    assert(seq![p].drop_last() =~= Pairs::empty());
    assert(seq![p].last() == p);
    assert(header_fields(seq![p]) =~= (if is_of_the_line(p.0) {
        seq![]
    } else {
        seq![p]
    }));
}

proof fn lemma_fields(a: Pairs, p: (Seq<char>, Seq<char>))
    ensures
        header_fields(a).contains(p) <==> a.contains(p) && !is_of_the_line(p.0),
    decreases a.len(),
{
    if a.len() > 0 {
        let front = a.drop_last();
        let before = header_fields(front);
        let out = header_fields(a);
        lemma_fields(front, p);
        assert(out == if is_of_the_line(a.last().0) {
            before
        } else {
            before.push(a.last())
        });
        if before.contains(p) {
            let w = choose|w: int| 0 <= w < before.len() && before[w] == p;
            assert(out[w] == p);
            let v = choose|v: int| 0 <= v < front.len() && front[v] == p;
            assert(a[v] == p);
        }
        if a.contains(p) && !is_of_the_line(p.0) {
            let v = choose|v: int| 0 <= v < a.len() && a[v] == p;
            if v < front.len() {
                assert(front[v] == p);
            } else {
                assert(out[before.len() as int] == p);
            }
        }
        if out.contains(p) {
            let w = choose|w: int| 0 <= w < out.len() && out[w] == p;
            if w < before.len() {
                assert(before[w] == p);
            } else {
                assert(a[a.len() - 1] == p);
            }
        }
    }
}

proof fn lemma_fields_of_both(a: Pairs, b: Pairs)
    ensures
        header_fields(a + b) == header_fields(a) + header_fields(b),
    decreases b.len(),
{
    if b.len() == 0 {
        assert(a + b =~= a);
        assert(header_fields(a) + header_fields(b) =~= header_fields(a));
    } else {
        lemma_fields_of_both(a, b.drop_last());
        assert((a + b).drop_last() =~= a + b.drop_last());
        assert((a + b).last() == b.last());
        assert(header_fields(a + b) =~= header_fields(a) + header_fields(b));
    }
}

/// The request for a message carries the fields of its metadata, the credentials, the
/// configured fields and, for a compressed body, how it is encoded; and nothing else.
pub proof fn law_requests_carry_what_is_said(
    p: HttpPublisher,
    metadata: Pairs,
    payload: Seq<u8>,
    field: (Seq<char>, Seq<char>),
)
    ensures
        prepared(p, metadata, payload) matches Ok(r) ==> {
            &&& metadata.contains(field) && !is_of_the_line(field.0) ==> r.headers.contains(field)
            &&& p.custom_headers@.contains(field) ==> r.headers.contains(field)
            &&& p.basic_auth_header matches Some(v) ==> r.headers.contains(
                ("Authorization"@, v@),
            )
            &&& r.body != payload ==> r.headers.contains(("Content-Encoding"@, "gzip"@))
            &&& r.headers.contains(field) ==> {
                ||| metadata.contains(field) && !is_of_the_line(field.0)
                ||| p.custom_headers@.contains(field)
                ||| (p.basic_auth_header matches Some(v) && field == ("Authorization"@, v@))
                ||| field == ("Content-Encoding"@, "gzip"@)
            }
        },
{
    lemma_fields(metadata, field);
    if prepared(p, metadata, payload) is Ok {
        let r = prepared(p, metadata, payload)->Ok_0;
        let fields = header_fields(metadata);
        let custom = p.custom_headers@;
        let n = fields.len() as int;
        let m = if p.basic_auth_header is Some {
            n + 1
        } else {
            n
        };
        if fields.contains(field) {
            let w = choose|w: int| 0 <= w < fields.len() && fields[w] == field;
            assert(r.headers[w] == field);
        }
        if custom.contains(field) {
            let w = choose|w: int| 0 <= w < custom.len() && custom[w] == field;
            assert(r.headers[m + w] == field);
        }
        if p.basic_auth_header is Some {
            assert(r.headers[n] == ("Authorization"@, p.basic_auth_header->0@));
        }
        if r.body != payload {
            assert(r.headers[m + custom.len()] == ("Content-Encoding"@, "gzip"@));
        }
        if r.headers.contains(field) {
            let w = choose|w: int| 0 <= w < r.headers.len() && r.headers[w] == field;
            if w < n {
                assert(fields[w] == field);
            } else if m <= w < m + custom.len() {
                assert(custom[w - m] == field);
            }
        }
    }
}

/// A request has the method that its message names where that is a method, and else the
/// configured one. Its body is the payload, or the payload compressed: that only where
/// it is switched on, the payload is longer than the threshold and its compressed form
/// is shorter.
pub proof fn law_requests_carry_the_payload(p: HttpPublisher, metadata: Pairs, payload: Seq<u8>)
    ensures
        prepared(p, metadata, payload) matches Ok(r) ==> {
            &&& r.method == (match lookup(metadata, "http_method"@) {
                Some(m) => if is_method(m) {
                    m
                } else {
                    p.method@
                },
                None => p.method@,
            })
            &&& if p.compression_enabled && payload.len() > p.compression_threshold_bytes {
                gzip_of(payload) matches Ok(packed) && r.body == (if packed.len() < payload.len() {
                    packed
                } else {
                    payload
                })
            } else {
                r.body == payload
            }
        },
{
}

/// A message without a path goes to the configured target. One with a path goes to that
/// path at the configured scheme and authority, with its query behind a question mark
/// where there is one.
pub proof fn law_targets(base: Seq<char>, metadata: Pairs, path: Seq<char>, query: Seq<char>)
    ensures
        lookup(metadata, "http_path"@) is None ==> request_uri(metadata, base) == Ok::<
            Seq<char>,
            Seq<char>,
        >(base),
        lookup(metadata, "http_path"@) == Some(path) ==> {
            let target = if lookup(metadata, "http_query"@) == Some(query) && query.len() > 0 {
                path + "?"@ + query
            } else {
                path
            };
            let is_query = lookup(metadata, "http_query"@) == Some(query) || lookup(
                metadata,
                "http_query"@,
            ) is None;
            is_query ==> match parts_of_uri(base) {
                Ok(parts) => request_uri(metadata, base) == uri_of_parts(
                    parts.scheme,
                    parts.authority,
                    target,
                ),
                Err(why) => request_uri(metadata, base) == Err::<Seq<char>, Seq<char>>(why),
            }
        },
{
    reveal_strlit("?");
    assert(path.push('?') + query =~= path + "?"@ + query);
}

/// A message is refused for good before it is sent exactly if its target is no URI, its
/// payload could not be compressed, or one of its fields is not fit for a header.
pub proof fn law_requests_are_made_of_fit_fields(
    p: HttpPublisher,
    metadata: Pairs,
    payload: Seq<u8>,
)
    ensures
        prepared(p, metadata, payload) is Ok ==> {
            let r = prepared(p, metadata, payload)->Ok_0;
            request_uri(metadata, p.url@) == Ok::<Seq<char>, Seq<char>>(r.uri) && forall|i: int|
                0 <= i < r.headers.len() ==> is_header_name((#[trigger] r.headers[i]).0)
                    && is_field_text(r.headers[i].1)
        },
        prepared(p, metadata, payload) is Err ==> {
            ||| request_uri(metadata, p.url@) is Err
            ||| gzip_of(payload) is Err
            ||| exists|compressed: bool, i: int|
                0 <= i < request_headers(p, metadata, compressed).len() && !(is_header_name(
                    (#[trigger] request_headers(p, metadata, compressed)[i]).0,
                ) && is_field_text(request_headers(p, metadata, compressed)[i].1))
        },
{
    let res = prepared(p, metadata, payload);
    if res is Ok {
        lemma_refusal(res->Ok_0.headers, 0);
    } else if request_uri(metadata, p.url@) is Ok && gzip_of(payload) is Ok {
        lemma_refusal(request_headers(p, metadata, true), 0);
        lemma_refusal(request_headers(p, metadata, false), 0);
    }
}

proof fn lemma_refusal(headers: Pairs, i: int)
    requires
        0 <= i,
    ensures
        first_refusal(headers, i) is None ==> forall|k: int|
            i <= k < headers.len() ==> is_header_name((#[trigger] headers[k]).0) && is_field_text(
                headers[k].1,
            ),
        first_refusal(headers, i) is Some ==> exists|k: int|
            i <= k < headers.len() && !(is_header_name((#[trigger] headers[k]).0) && is_field_text(
                headers[k].1,
            )) && first_refusal(headers, i) == field_refusal(headers[k].0, headers[k].1),
    decreases headers.len() - i,
{
    if i < headers.len() {
        lemma_refusal(headers, i + 1);
        if first_refusal(headers, i) is Some && field_refusal(headers[i].0, headers[i].1) is None {
            let k = choose|k: int|
                i + 1 <= k < headers.len() && !(is_header_name((#[trigger] headers[k]).0)
                    && is_field_text(headers[k].1)) && first_refusal(headers, i + 1)
                    == field_refusal(headers[k].0, headers[k].1);
            assert(!(is_header_name(headers[k].0) && is_field_text(headers[k].1)));
        } else if first_refusal(headers, i) is Some {
            assert(!(is_header_name(headers[i].0) && is_field_text(headers[i].1)));
        }
    }
}

/// A header that comes last under its name gives its text.
proof fn lemma_last_response_header(
    version: HttpVersion,
    headers: Seq<Header>,
    key: Seq<char>,
    i: int,
)
    requires
        0 <= i < headers.len(),
        headers[i].name@ == key,
        headers[i].text is Some,
        forall|j: int|
            i < j < headers.len() && (#[trigger] headers[j]).name@ == key ==> headers[j].text
                is None,
    ensures
        lookup(response_metadata(version, headers), key) == Some(headers[i].text->0@),
    decreases headers.len(),
{
    let front = headers.drop_last();
    let n = headers.len() - 1;
    let last = headers[n];
    assert(headers.last() == last);
    if last.text is Some {
        law_reads_give_back_writes(response_metadata(version, front), last.name@, last.text->0@);
    }
    if i < n {
        assert(front[i] == headers[i]);
        assert forall|j: int|
            i < j < front.len() && (#[trigger] front[j]).name@ == key implies front[j].text
            is None by {
            assert(front[j] == headers[j]);
        }
        lemma_last_response_header(version, front, key, i);
    }
}

/// Without a textual header under a name only the version can stand there.
proof fn lemma_no_response_header(version: HttpVersion, headers: Seq<Header>, key: Seq<char>)
    requires
        forall|i: int|
            0 <= i < headers.len() && (#[trigger] headers[i]).name@ == key ==> headers[i].text
                is None,
    ensures
        lookup(response_metadata(version, headers), key) == (if key == "http_version"@ {
            Some(version_text(version))
        } else {
            None
        }),
    decreases headers.len(),
{
    if headers.len() == 0 {
        law_reads_give_back_writes(Pairs::empty(), "http_version"@, version_text(version));
        assert(lookup(Pairs::empty(), key) is None);
    } else {
        let front = headers.drop_last();
        let n = headers.len() - 1;
        let last = headers[n];
        assert(headers.last() == last);
        assert forall|i: int|
            0 <= i < front.len() && (#[trigger] front[i]).name@ == key implies front[i].text
            is None by {
            assert(front[i] == headers[i]);
        }
        lemma_no_response_header(version, front, key);
        if last.text is Some {
            law_reads_give_back_writes(
                response_metadata(version, front),
                last.name@,
                last.text->0@,
            );
        }
    }
}

/// A response gives its version and every textual header as metadata. Of headers with
/// the same name the last counts.
pub proof fn law_responses_give_their_headers(
    version: HttpVersion,
    headers: Seq<Header>,
    key: Seq<char>,
)
    ensures
        (forall|i: int|
            0 <= i < headers.len() && (#[trigger] headers[i]).name@ == key ==> headers[i].text
                is None) ==> lookup(response_metadata(version, headers), key) == (if key
            == "http_version"@ {
            Some(
                match version {
                    HttpVersion::Http09 => "HTTP/0.9"@,
                    HttpVersion::Http10 => "HTTP/1.0"@,
                    HttpVersion::Http11 => "HTTP/1.1"@,
                    HttpVersion::Http2 => "HTTP/2.0"@,
                    HttpVersion::Http3 => "HTTP/3.0"@,
                    HttpVersion::Unknown => "HTTP/?"@,
                },
            )
        } else {
            None
        }),
        forall|i: int|
            0 <= i < headers.len() && (#[trigger] headers[i]).name@ == key && headers[i].text
                is Some && (forall|j: int|
                i < j < headers.len() && (#[trigger] headers[j]).name@ == key ==> headers[j].text
                    is None) ==> lookup(response_metadata(version, headers), key) == Some(
                headers[i].text->0@,
            ),
{
    if forall|i: int|
        0 <= i < headers.len() && (#[trigger] headers[i]).name@ == key ==> headers[i].text is None {
        lemma_no_response_header(version, headers, key);
    }
    assert forall|i: int|
        0 <= i < headers.len() && (#[trigger] headers[i]).name@ == key && headers[i].text is Some
            && (forall|j: int|
            i < j < headers.len() && (#[trigger] headers[j]).name@ == key ==> headers[j].text
                is None) implies lookup(response_metadata(version, headers), key) == Some(
        headers[i].text->0@,
    ) by {
        lemma_last_response_header(version, headers, key, i);
    }
}

/// The encoding of a body is what the last textual `content-encoding` says, in whatever
/// case its name is written.
pub proof fn law_last_encoding_counts(headers: Seq<Header>)
    ensures
        match request_encoding(headers) {
            Some(e) => exists|i: int|
                0 <= i < headers.len() && same_ignoring_case(
                    (#[trigger] headers[i]).name@,
                    "content-encoding"@,
                ) && headers[i].text is Some && headers[i].text->0@ == e && forall|j: int|
                    i < j < headers.len() && same_ignoring_case(
                        (#[trigger] headers[j]).name@,
                        "content-encoding"@,
                    ) ==> headers[j].text is None,
            None => forall|i: int|
                0 <= i < headers.len() && same_ignoring_case(
                    (#[trigger] headers[i]).name@,
                    "content-encoding"@,
                ) ==> headers[i].text is None,
        },
    decreases headers.len(),
{
    if headers.len() > 0 {
        let front = headers.drop_last();
        let n = headers.len() - 1;
        law_last_encoding_counts(front);
        assert(forall|i: int| 0 <= i < n ==> front[i] == #[trigger] headers[i]);
        assert(headers[n] == headers.last());
        if request_encoding(headers) is Some && !(headers[n].text is Some && same_ignoring_case(
            headers[n].name@,
            "content-encoding"@,
        )) {
            let e = request_encoding(front)->0;
            let i = choose|i: int|
                0 <= i < front.len() && same_ignoring_case(
                    (#[trigger] front[i]).name@,
                    "content-encoding"@,
                ) && front[i].text is Some && front[i].text->0@ == e && forall|j: int|
                    i < j < front.len() && same_ignoring_case(
                        (#[trigger] front[j]).name@,
                        "content-encoding"@,
                    ) ==> front[j].text is None;
            assert(headers[i] == front[i]);
            assert forall|j: int|
                i < j < headers.len() && same_ignoring_case(
                    (#[trigger] headers[j]).name@,
                    "content-encoding"@,
                ) implies headers[j].text is None by {
                if j < n {
                    assert(front[j] == headers[j]);
                }
            }
        } else if request_encoding(headers) is None {
            assert forall|i: int|
                0 <= i < headers.len() && same_ignoring_case(
                    (#[trigger] headers[i]).name@,
                    "content-encoding"@,
                ) implies headers[i].text is None by {
                if i < n {
                    assert(front[i] == headers[i]);
                }
            }
        }
    }
}

/// A successful response is handed back under the identifier of its message, with its
/// metadata and its payload: the body as it came, or decompressed where it is marked as
/// gzip.
pub proof fn law_successes_give_the_response(
    message_id: u128,
    status: u16,
    metadata: Pairs,
    encoding: Option<Seq<char>>,
    body: ResponseBody,
)
    requires
        200 <= status <= 299,
    ensures
        body matches ResponseBody::Read(raw) ==> {
            let packed = encoding matches Some(e) && contains(lower_all(e), "gzip"@);
            let res = response_result(message_id, status, metadata, encoding, body);
            &&& !packed ==> res == Ok::<SentView, FailureView>(
                SentView::Response(MessageView { message_id, payload: raw@, metadata }),
            )
            &&& packed ==> match gunzip_of(raw@) {
                Ok(payload) => res == Ok::<SentView, FailureView>(
                    SentView::Response(MessageView { message_id, payload, metadata }),
                ),
                Err(_) => res is Err && res->Err_0 is Retryable,
            }
        },
{
}

/// Any other status is a failure. It passes only for the server errors, and not for the
/// two that say that the server never will.
pub proof fn law_other_statuses_fail(
    message_id: u128,
    status: u16,
    metadata: Pairs,
    encoding: Option<Seq<char>>,
    body: ResponseBody,
)
    requires
        status < 200 || status > 299,
    ensures
        ({
            let res = response_result(message_id, status, metadata, encoding, body);
            &&& res is Err
            &&& body is Read && encoding is None ==> (res->Err_0 is Retryable <==> (500 <= status
                <= 599 && status != 501 && status != 505))
        }),
{
}

/// A response whose body could not be read is a failure that may pass, whatever its
/// status; so is a request without a response.
pub proof fn law_lost_responses_may_pass(
    message_id: u128,
    status: u16,
    metadata: Pairs,
    encoding: Option<Seq<char>>,
    body: ResponseBody,
    url: Seq<char>,
    reason: Option<Seq<char>>,
)
    ensures
        body is Failed || body is TimedOut ==> (response_result(
            message_id,
            status,
            metadata,
            encoding,
            body,
        ) matches Err(e) && e is Retryable),
        no_response_failure(url, reason) is Retryable,
{
}

/// Only a successful response in a stream format goes to a sink, and only if there is
/// one. Its records share the correlation id of the message, or else the digits of its
/// identifier. Compressed it is a failure that may pass. Any other response is read as a
/// whole, with all of its metadata.
pub proof fn law_streams_go_to_the_sink(
    has_stream_sink: bool,
    message: MessageView,
    head: ResponseHead,
)
    ensures
        ({
            let sse = header_has_media(head.headers@, "content-type"@, "text/event-stream"@);
            let ndjson = header_has_media(
                head.headers@,
                "content-type"@,
                "application/x-ndjson"@,
            ) || header_has_media(head.headers@, "content-type"@, "application/jsonl"@);
            let streams = 200 <= head.status <= 299 && has_stream_sink && (sse || ndjson);
            let metadata = response_metadata(head.version, head.headers@);
            match head_step(has_stream_sink, message, head) {
                HeadView::Stream { metadata: m, correlation_id, format } => {
                    &&& streams && request_encoding(head.headers@) is None
                    &&& m == metadata
                    &&& correlation_id == (match lookup(message.metadata, "correlation_id"@) {
                        Some(id) => id,
                        None => hex_digits(message.message_id as nat, 32),
                    })
                    &&& format is Sse <==> sse
                    &&& format is Ndjson <==> !sse && ndjson
                },
                HeadView::Fail(e) => streams && request_encoding(head.headers@) is Some
                    && e is Retryable,
                HeadView::ReadBody { metadata: m, content_encoding } => !streams && m == metadata
                    && content_encoding == request_encoding(head.headers@),
            }
        }),
{
}

/// A streamed response is a failure only if nothing of it was published.
pub proof fn law_streams_are_sent_once(failure: Option<StreamFailureView>)
    ensures
        match stream_result(failure) {
            Ok(sent) => sent is Ack && !(failure matches Some(f) && f is BeforePublish),
            Err(e) => failure == Some(StreamFailureView::BeforePublish(e)),
        },
{
}

/// A target without a scheme gets the secure one exactly if TLS is required, and one
/// with a scheme is left alone.
pub proof fn law_targets_get_a_scheme(required: bool, url: Seq<char>)
    ensures
        contains(url, "://"@) ==> with_scheme(required, url) == url,
        !contains(url, "://"@) ==> with_scheme(required, url) == (if required {
            "https"@
        } else {
            "http"@
        }) + "://"@ + url,
{
    reveal_strlit("https://");
    reveal_strlit("http://");
    reveal_strlit("https");
    reveal_strlit("http");
    reveal_strlit("://");
    assert("https"@ + "://"@ =~= "https://"@);
    assert("http"@ + "://"@ =~= "http://"@);
    assert("https"@ + "://"@ + url =~= "https://"@ + url);
    assert("http"@ + "://"@ + url =~= "http://"@ + url);
}

/// Configured credentials are asked for as they are, unless both are empty.
pub proof fn law_credentials_are_asked_for(user: Seq<char>, pass: Seq<char>)
    ensures
        credentials(None) is None,
        user.len() == 0 && pass.len() == 0 ==> credentials(Some((user, pass))) is None,
        user.len() > 0 || pass.len() > 0 ==> credentials(Some((user, pass))) == Some((user, pass)),
{
}

/// A request is let in if nothing is asked for, or if its first `authorization` field
/// holds the expected credentials. It is refused with 401 if it has no such field, or
/// one of another scheme, or other credentials, and with 400 if the field cannot be
/// read.
pub proof fn law_who_is_let_in(headers: Seq<Header>, user: Seq<char>, pass: Seq<char>)
    requires
        !user.contains(':'),
    ensures
        auth_refusal(headers, None) is None,
        ({
            let i = header_slot(headers, "authorization"@, 0);
            let refusal = auth_refusal(headers, Some((user, pass)));
            if i >= headers.len() {
                refusal matches Some(r) && r.0 == 401
            } else {
                match headers[i].text {
                    None => refusal matches Some(r) && r.0 == 400,
                    Some(value) => if !starts_with(value@, "Basic "@) {
                        refusal matches Some(r) && r.0 == 401
                    } else {
                        match base64_decoded(value@.skip(6)) {
                            None => refusal matches Some(r) && r.0 == 400,
                            Some(bytes) => {
                                &&& bytes == credential_bytes(user, pass) ==> refusal is None
                                &&& valid_utf8(bytes) && user_and_password(
                                    decode_utf8(bytes),
                                ) != (user, pass) ==> (refusal matches Some(r) && r.0 == 401)
                                &&& !valid_utf8(bytes) ==> (refusal matches Some(r)
                                    && r.0 == 400)
                            },
                        }
                    },
                }
            }
        }),
{
    law_own_credentials_are_let_in(user, pass, credential_bytes(user, pass));
}

/// A message is sent to the configured target, or to another path of it: the scheme and
/// the authority are kept.
pub proof fn law_requests_keep_their_origin(
    base: Seq<char>,
    metadata: Pairs,
    uri: Seq<char>,
    scheme: Seq<char>,
    authority: Seq<char>,
)
    requires
        keeps_origin(base, metadata, uri),
    ensures
        lookup(metadata, "http_path"@) is None ==> uri == base,
        lookup(metadata, "http_path"@) is Some ==> (parts_of_uri(base) matches Ok(parts) && (
        parts.scheme == Some(scheme) && parts.authority == Some(authority) ==> starts_with(
            uri,
            scheme + "://"@ + authority,
        ))),
{
}

} // verus!
