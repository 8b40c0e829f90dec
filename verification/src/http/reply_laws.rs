//! What a client sees of a reply.

use vstd::prelude::*;
use vstd::utf8::encode_utf8;

use crate::http::content::names_content_type;
use crate::http::gzip::gzip_of;
use crate::http::headers::{has_header, header_value, Header};
use crate::http::request::{request_value, RequestHead};
use crate::http::response::{
    echo_applies, echo_response, error_response, reply_field, reply_fields, response_for,
    ResponseSettings, ResponseView,
};
use crate::message::{lookup, DispositionView, MessageView, Pairs};
use crate::numbers::{decimal, digit, lemma_decimal_reads_back, unsigned_value};
use crate::text::{contains, lower_all, same_ignoring_case, trim};

verus! {

/// A reply gets a response with exactly the status that its metadata sets, for every
/// status code that there is.
pub proof fn law_replies_set_their_status(
    message: MessageView,
    settings: ResponseSettings,
    client_accepts_gzip: bool,
    accepts_text: bool,
    request: Option<RequestHead>,
    code: nat,
)
    requires
        100 <= code <= 999,
        lookup(message.metadata, "http_status_code"@) == Some(decimal(code)),
    ensures
        response_for(
            DispositionView::Reply(message),
            settings,
            client_accepts_gzip,
            accepts_text,
            request,
        ) matches Ok(r) ==> r.status == code,
{
    lemma_decimal_reads_back(code);
    assert(digit(decimal(code)[0]) >= 0);
}

/// A reply whose metadata sets no status, or none that is a status code, gets a response
/// with the status 200.
pub proof fn law_other_replies_are_ok(
    message: MessageView,
    settings: ResponseSettings,
    client_accepts_gzip: bool,
    accepts_text: bool,
    request: Option<RequestHead>,
)
    requires
        lookup(message.metadata, "http_status_code"@) matches Some(text) ==> match unsigned_value(
            text,
            10,
            65535,
        ) {
            Some(n) => n < 100 || n > 999,
            None => true,
        },
    ensures
        response_for(
            DispositionView::Reply(message),
            settings,
            client_accepts_gzip,
            accepts_text,
            request,
        ) matches Ok(r) ==> r.status == 200,
{
}

/// Whether the request itself had this value under this name.
pub open spec fn came_with(request: Option<RequestHead>, key: Seq<char>, value: Seq<char>) -> bool {
    request is Some && request_value(request->0, key) == Some(value)
}

/// Whether a value of a reply's metadata says something to the client: it is no status,
/// and the request did not have it, unless it is a content type.
pub open spec fn is_said(
    request: Option<RequestHead>,
    key: Seq<char>,
    value: Seq<char>,
) -> bool {
    key != "http_status_code"@ && (same_ignoring_case(key, "content-type"@) || !came_with(
        request,
        key,
        value,
    ))
}

/// Whether a name is of a field that the server itself writes.
pub open spec fn is_for_the_server(key: Seq<char>) -> bool {
    same_ignoring_case(key, "content-encoding"@) || same_ignoring_case(
        key,
        "transfer-encoding"@,
    ) || same_ignoring_case(key, "content-length"@)
}

/// Whether a value of a reply's metadata asks for a body that is sent as a stream.
pub open spec fn asks_for_stream(key: Seq<char>, value: Seq<char>) -> bool {
    (same_ignoring_case(key, "content-type"@) && contains(value, "text/event-stream"@)) || (
    same_ignoring_case(key, "transfer-encoding"@) && contains(value, "chunked"@))
}

/// Whether a value of a reply's metadata says how the application has encoded the body.
pub open spec fn names_encoding(key: Seq<char>, value: Seq<char>) -> bool {
    same_ignoring_case(key, "content-encoding"@) && !same_ignoring_case(
        trim(value),
        "identity"@,
    )
}

proof fn lemma_names()
    ensures
        forall|k: Seq<char>|
            #![trigger same_ignoring_case(k, "content-type"@)]
            same_ignoring_case(k, "content-type"@) ==> !is_for_the_server(k) && k
                != "http_status_code"@,
        forall|k: Seq<char>|
            #![trigger same_ignoring_case(k, "transfer-encoding"@)]
            same_ignoring_case(k, "transfer-encoding"@) ==> !same_ignoring_case(
                k,
                "content-encoding"@,
            ),
{
    reveal_strlit("content-type");
    reveal_strlit("content-encoding");
    reveal_strlit("transfer-encoding");
    reveal_strlit("content-length");
    reveal_strlit("http_status_code");
    assert forall|k: Seq<char>| #![trigger same_ignoring_case(k, "content-type"@)]
        same_ignoring_case(k, "content-type"@) implies !is_for_the_server(k) && k
        != "http_status_code"@ by {
        assert(lower_all(k).len() == k.len());
        assert(lower_all("content-type"@).len() == 12);
        assert(lower_all("content-encoding"@).len() == 16);
        assert(lower_all("transfer-encoding"@).len() == 17);
        assert(lower_all("content-length"@).len() == 14);
    }
    assert forall|k: Seq<char>| #![trigger same_ignoring_case(k, "transfer-encoding"@)]
        same_ignoring_case(k, "transfer-encoding"@) implies !same_ignoring_case(
        k,
        "content-encoding"@,
    ) by {
        assert(lower_all(k).len() == k.len());
        assert(lower_all("content-encoding"@).len() == 16);
        assert(lower_all("transfer-encoding"@).len() == 17);
    }
}

/// What the fields of a reply hold of its metadata.
proof fn lemma_fields(metadata: Pairs, request: Option<RequestHead>)
    ensures
        forall|i: int|
            0 <= i < metadata.len() && is_said(
                request,
                (#[trigger] metadata[i]).0,
                metadata[i].1,
            ) && !is_for_the_server(metadata[i].0) ==> reply_fields(
                metadata,
                request,
            ).headers.contains(metadata[i]),
        forall|j: int|
            0 <= j < reply_fields(metadata, request).headers.len() ==> {
                let h = #[trigger] reply_fields(metadata, request).headers[j];
                metadata.contains(h) && is_said(request, h.0, h.1) && !is_for_the_server(h.0)
            },
        reply_fields(metadata, request).streaming == exists|i: int|
            0 <= i < metadata.len() && is_said(
                request,
                (#[trigger] metadata[i]).0,
                metadata[i].1,
            ) && asks_for_stream(metadata[i].0, metadata[i].1),
        reply_fields(metadata, request).has_content_type == exists|i: int|
            0 <= i < metadata.len() && same_ignoring_case(
                (#[trigger] metadata[i]).0,
                "content-type"@,
            ),
        match reply_fields(metadata, request).encoding {
            Some(e) => exists|i: int|
                0 <= i < metadata.len() && is_said(
                    request,
                    (#[trigger] metadata[i]).0,
                    metadata[i].1,
                ) && names_encoding(metadata[i].0, metadata[i].1) && metadata[i].1 == e,
            None => forall|i: int|
                0 <= i < metadata.len() && is_said(
                    request,
                    (#[trigger] metadata[i]).0,
                    metadata[i].1,
                ) ==> !names_encoding(metadata[i].0, metadata[i].1),
        },
    decreases metadata.len(),
{
    if metadata.len() > 0 {
        let front = metadata.drop_last();
        let last = metadata.last();
        let n = metadata.len() - 1;
        lemma_fields(front, request);
        lemma_names();
        let before = reply_fields(front, request);
        let f = reply_fields(metadata, request);
        assert(f == reply_field(before, last.0, last.1, request));
        assert(metadata[n] == last);
        assert(is_said(request, last.0, last.1) == !(last.0 == "http_status_code"@ || (
        !same_ignoring_case(last.0, "content-type"@) && came_with(request, last.0, last.1))));
        assert forall|i: int|
            0 <= i < metadata.len() && is_said(
                request,
                (#[trigger] metadata[i]).0,
                metadata[i].1,
            ) && !is_for_the_server(metadata[i].0) implies f.headers.contains(metadata[i]) by {
            if i < n {
                assert(front[i] == metadata[i]);
                let w = choose|w: int|
                    0 <= w < before.headers.len() && before.headers[w] == metadata[i];
                assert(f.headers[w] == metadata[i]);
            } else {
                assert(f.headers == before.headers.push(last));
                assert(f.headers[before.headers.len() as int] == last);
            }
        }
        assert forall|j: int| 0 <= j < f.headers.len() implies {
            let h = #[trigger] f.headers[j];
            metadata.contains(h) && is_said(request, h.0, h.1) && !is_for_the_server(h.0)
        } by {
            if j < before.headers.len() {
                let h = before.headers[j];
                let w = choose|w: int| 0 <= w < front.len() && front[w] == h;
                assert(metadata[w] == h);
            } else {
                assert(metadata[n] == f.headers[j]);
            }
        }
        if before.streaming {
            let i = choose|i: int|
                0 <= i < front.len() && is_said(request, (#[trigger] front[i]).0, front[i].1)
                    && asks_for_stream(front[i].0, front[i].1);
            assert(metadata[i] == front[i]);
        }
        if before.has_content_type {
            let i = choose|i: int|
                0 <= i < front.len() && same_ignoring_case(
                    (#[trigger] front[i]).0,
                    "content-type"@,
                );
            assert(metadata[i] == front[i]);
        }
        assert(forall|i: int| 0 <= i < n ==> front[i] == #[trigger] metadata[i]);
        if before.encoding is Some {
            let e = before.encoding->0;
            let i = choose|i: int|
                0 <= i < front.len() && is_said(request, (#[trigger] front[i]).0, front[i].1)
                    && names_encoding(front[i].0, front[i].1) && front[i].1 == e;
            assert(metadata[i] == front[i]);
        }
    }
}

/// Every value of a reply's metadata that says something to the client is among the
/// header fields of the response, but for the fields that the server itself writes. So
/// is every configured field.
pub proof fn law_reply_values_are_sent(
    message: MessageView,
    settings: ResponseSettings,
    client_accepts_gzip: bool,
    accepts_text: bool,
    request: Option<RequestHead>,
    key: Seq<char>,
    value: Seq<char>,
)
    ensures
        response_for(
            DispositionView::Reply(message),
            settings,
            client_accepts_gzip,
            accepts_text,
            request,
        ) matches Ok(r) ==> {
            &&& message.metadata.contains((key, value)) && is_said(request, key, value)
                && !is_for_the_server(key) ==> r.headers.contains((key, value))
            &&& settings.custom_headers@.contains((key, value)) ==> r.headers.contains(
                (key, value),
            )
        },
{
    lemma_fields(message.metadata, request);
    let res = response_for(
        DispositionView::Reply(message),
        settings,
        client_accepts_gzip,
        accepts_text,
        request,
    );
    if res is Ok {
        let r = res->Ok_0;
        let f = reply_fields(message.metadata, request);
        let custom = settings.custom_headers@;
        if message.metadata.contains((key, value)) && is_said(request, key, value)
            && !is_for_the_server(key) {
            let i = choose|i: int|
                0 <= i < message.metadata.len() && message.metadata[i] == (key, value);
            assert(f.headers.contains(message.metadata[i]));
            let w = choose|w: int| 0 <= w < f.headers.len() && f.headers[w] == (key, value);
            assert(r.headers[w] == (key, value));
        }
        if custom.contains((key, value)) {
            let i = choose|i: int| 0 <= i < custom.len() && custom[i] == (key, value);
            let front = r.headers.len() - custom.len();
            assert(r.headers[front + i] == custom[i]);
        }
    }
}

/// A response says no more than the reply, the settings and the server say: every field
/// comes from the metadata or from the settings, or it is the content type of a reply
/// that has none, or it tells how the body is encoded. What the request had under a name
/// is not sent back under it, and neither is the status.
pub proof fn law_responses_add_nothing(
    message: MessageView,
    settings: ResponseSettings,
    client_accepts_gzip: bool,
    accepts_text: bool,
    request: Option<RequestHead>,
    field: (Seq<char>, Seq<char>),
)
    ensures
        response_for(
            DispositionView::Reply(message),
            settings,
            client_accepts_gzip,
            accepts_text,
            request,
        ) matches Ok(r) ==> r.headers.contains(field) ==> {
            ||| message.metadata.contains(field) && is_said(request, field.0, field.1)
                && !is_for_the_server(field.0)
            ||| settings.custom_headers@.contains(field)
            ||| field == ("content-type"@, "application/octet-stream"@)
            ||| field.0 == "Content-Encoding"@
        },
{
    lemma_fields(message.metadata, request);
    let res = response_for(
        DispositionView::Reply(message),
        settings,
        client_accepts_gzip,
        accepts_text,
        request,
    );
    if res is Ok && res->Ok_0.headers.contains(field) {
        let r = res->Ok_0;
        let f = reply_fields(message.metadata, request);
        let custom = settings.custom_headers@;
        let i = choose|i: int| 0 <= i < r.headers.len() && r.headers[i] == field;
        let front = r.headers.len() - custom.len();
        if i >= front {
            assert(custom[i - front] == field);
        } else if i < f.headers.len() {
            assert(f.headers[i] == field);
        }
    }
}

/// A reply with the status 200 and no content type is sent as bytes of any kind, and a
/// content type that it has is kept. A reply is sent as a stream exactly if its metadata
/// asks for one.
pub proof fn law_content_types_and_streams(
    message: MessageView,
    settings: ResponseSettings,
    client_accepts_gzip: bool,
    accepts_text: bool,
    request: Option<RequestHead>,
)
    ensures
        response_for(
            DispositionView::Reply(message),
            settings,
            client_accepts_gzip,
            accepts_text,
            request,
        ) matches Ok(r) ==> {
            let has_type = exists|i: int|
                0 <= i < message.metadata.len() && same_ignoring_case(
                    (#[trigger] message.metadata[i]).0,
                    "content-type"@,
                );
            &&& r.status == 200 && !has_type ==> r.headers.contains(
                ("content-type"@, "application/octet-stream"@),
            )
            &&& has_type && r.headers.contains(("content-type"@, "application/octet-stream"@))
                ==> message.metadata.contains(("content-type"@, "application/octet-stream"@))
                || settings.custom_headers@.contains(
                ("content-type"@, "application/octet-stream"@),
            )
            &&& r.streaming == exists|i: int|
                0 <= i < message.metadata.len() && is_said(
                    request,
                    (#[trigger] message.metadata[i]).0,
                    message.metadata[i].1,
                ) && asks_for_stream(message.metadata[i].0, message.metadata[i].1)
            &&& r.raw_type is None
        },
{
    lemma_fields(message.metadata, request);
    let res = response_for(
        DispositionView::Reply(message),
        settings,
        client_accepts_gzip,
        accepts_text,
        request,
    );
    let octets = ("content-type"@, "application/octet-stream"@);
    if res is Ok {
        let r = res->Ok_0;
        let f = reply_fields(message.metadata, request);
        let custom = settings.custom_headers@;
        if r.status == 200 && !f.has_content_type {
            assert(r.headers[f.headers.len() as int] == octets);
        }
        if f.has_content_type && r.headers.contains(octets) {
            let i = choose|i: int| 0 <= i < r.headers.len() && r.headers[i] == octets;
            let front = r.headers.len() - custom.len();
            if i >= front {
                assert(custom[i - front] == octets);
            } else if i < f.headers.len() {
                assert(f.headers[i] == octets);
            } else {
                reveal_strlit("content-type");
                reveal_strlit("Content-Encoding");
            }
        }
    }
}

/// The body of a response is the payload of the reply, or the payload compressed: that
/// only where it is switched on, the client takes it, the application has not encoded
/// the payload itself, the payload is longer than the threshold, and the compressed form
/// is shorter. The response then says so.
pub proof fn law_reply_bodies(
    message: MessageView,
    settings: ResponseSettings,
    client_accepts_gzip: bool,
    accepts_text: bool,
    request: Option<RequestHead>,
)
    ensures
        ({
            let res = response_for(
                DispositionView::Reply(message),
                settings,
                client_accepts_gzip,
                accepts_text,
                request,
            );
            let encoded = exists|i: int|
                0 <= i < message.metadata.len() && is_said(
                    request,
                    (#[trigger] message.metadata[i]).0,
                    message.metadata[i].1,
                ) && names_encoding(message.metadata[i].0, message.metadata[i].1);
            let tried = settings.compression_enabled && client_accepts_gzip && !encoded
                && message.payload.len() > settings.compression_threshold_bytes;
            &&& !tried ==> (res matches Ok(r) && r.body == message.payload)
            &&& tried ==> match gzip_of(message.payload) {
                Ok(packed) => res matches Ok(r) && (if packed.len() < message.payload.len() {
                    r.body == packed && r.headers.contains(("Content-Encoding"@, "gzip"@))
                } else {
                    r.body == message.payload
                }),
                Err(why) => res == Err::<ResponseView, Seq<char>>(why),
            }
        }),
{
    lemma_fields(message.metadata, request);
    let res = response_for(
        DispositionView::Reply(message),
        settings,
        client_accepts_gzip,
        accepts_text,
        request,
    );
    let f = reply_fields(message.metadata, request);
    if res is Ok && settings.compression_enabled && client_accepts_gzip && f.encoding is None
        && message.payload.len() > settings.compression_threshold_bytes {
        let r = res->Ok_0;
        let n = r.headers.len() - settings.custom_headers@.len() - 1;
        if gzip_of(message.payload)->Ok_0.len() < message.payload.len() {
            assert(r.headers[n] == ("Content-Encoding"@, "gzip"@));
        }
    }
}

/// A reply whose application has encoded the payload says how, in one of the encodings
/// that its metadata names.
pub proof fn law_own_encodings_are_told(
    message: MessageView,
    settings: ResponseSettings,
    client_accepts_gzip: bool,
    accepts_text: bool,
    request: Option<RequestHead>,
    i: int,
)
    requires
        0 <= i < message.metadata.len(),
        is_said(request, message.metadata[i].0, message.metadata[i].1),
        names_encoding(message.metadata[i].0, message.metadata[i].1),
    ensures
        response_for(
            DispositionView::Reply(message),
            settings,
            client_accepts_gzip,
            accepts_text,
            request,
        ) matches Ok(r) && exists|k: int|
            0 <= k < message.metadata.len() && is_said(
                request,
                (#[trigger] message.metadata[k]).0,
                message.metadata[k].1,
            ) && names_encoding(message.metadata[k].0, message.metadata[k].1)
                && r.headers.contains(("Content-Encoding"@, message.metadata[k].1)),
{
    lemma_fields(message.metadata, request);
    let f = reply_fields(message.metadata, request);
    assert(f.encoding is Some);
    let e = f.encoding->0;
    let k = choose|k: int|
        0 <= k < message.metadata.len() && is_said(
            request,
            (#[trigger] message.metadata[k]).0,
            message.metadata[k].1,
        ) && names_encoding(message.metadata[k].0, message.metadata[k].1)
            && message.metadata[k].1 == e;
    let r = response_for(
        DispositionView::Reply(message),
        settings,
        client_accepts_gzip,
        accepts_text,
        request,
    )->Ok_0;
    let n = r.headers.len() - settings.custom_headers@.len() - 1;
    assert(r.headers[n] == ("Content-Encoding"@, e));
    assert(message.metadata[k].1 == e);
}

/// A message that was processed without a reply is answered with 202, and one that
/// failed with 500. Both carry the configured fields.
pub proof fn law_other_dispositions(
    settings: ResponseSettings,
    client_accepts_gzip: bool,
    accepts_text: bool,
    request: Option<RequestHead>,
)
    ensures
        response_for(
            DispositionView::Ack,
            settings,
            client_accepts_gzip,
            accepts_text,
            request,
        ) matches Ok(r) && r.status == 202 && r.body == encode_utf8("Message processed"@)
            && r.headers == settings.custom_headers@ && !r.streaming && r.raw_type is None,
        response_for(
            DispositionView::Nack,
            settings,
            client_accepts_gzip,
            accepts_text,
            request,
        ) matches Ok(r) && r.status == 500 && r.body == encode_utf8(
            "Message processing failed"@,
        ) && !r.streaming && r.raw_type is None && (forall|h: (Seq<char>, Seq<char>)|
            settings.custom_headers@.contains(h) ==> #[trigger] r.headers.contains(h)),
{
    law_errors_are_told_in_text(
        500,
        "Message processing failed"@,
        accepts_text,
        settings.custom_headers@,
    );
}

/// An error is answered with its status, its text in UTF-8 and the configured fields. A
/// client that takes text is told that it is plain text, unless the configuration names
/// a content type; another one is told no more than what is configured.
pub proof fn law_errors_are_told_in_text(
    status: u16,
    text: Seq<char>,
    accepts_text: bool,
    custom: Pairs,
)
    ensures
        ({
            let r = error_response(status, text, accepts_text, Some(custom));
            let typed = exists|i: int|
                0 <= i < custom.len() && same_ignoring_case(
                    (#[trigger] custom[i]).0,
                    "content-type"@,
                );
            &&& r.status == status
            &&& r.body == encode_utf8(text)
            &&& !r.streaming
            &&& r.raw_type is None
            &&& forall|h: (Seq<char>, Seq<char>)|
                custom.contains(h) ==> #[trigger] r.headers.contains(h)
            &&& accepts_text && !typed ==> r.headers.contains(
                ("content-type"@, "text/plain; charset=utf-8"@),
            )
            &&& !accepts_text || typed ==> r.headers == custom
        }),
        error_response(status, text, accepts_text, None) == error_response(
            status,
            text,
            accepts_text,
            Some(Pairs::empty()),
        ),
{
    let r = error_response(status, text, accepts_text, Some(custom));
    assert forall|h: (Seq<char>, Seq<char>)|
        custom.contains(h) implies #[trigger] r.headers.contains(h) by {
        let i = choose|i: int| 0 <= i < custom.len() && custom[i] == h;
        assert(r.headers[i] == h);
    }
    if accepts_text && !names_content_type(custom) {
        assert(r.headers[custom.len() as int] == ("content-type"@, "text/plain; charset=utf-8"@));
    }
}

/// An echo sends the body back with the status 200 and under the content type that the
/// request had, be it text or not, or as bytes of any kind where it had none. Configured
/// fields go with it, and so does word of the compression.
pub proof fn law_echoes_send_the_body_back(
    content_type: Option<Header>,
    body: Seq<u8>,
    compressed: bool,
    custom: Pairs,
)
    ensures
        ({
            let r = echo_response(content_type, (body, compressed), custom);
            &&& r.status == 200
            &&& r.body == body
            &&& !r.streaming
            &&& forall|h: (Seq<char>, Seq<char>)|
                custom.contains(h) ==> #[trigger] r.headers.contains(h)
            &&& compressed ==> r.headers.contains(("Content-Encoding"@, "gzip"@))
            &&& match content_type {
                Some(h) => match h.text {
                    Some(t) => r.raw_type is None && r.headers.contains(("content-type"@, t@)),
                    None => r.raw_type == Some(h.raw@),
                },
                None => r.raw_type is None && r.headers.contains(
                    ("content-type"@, "application/octet-stream"@),
                ),
            }
        }),
{
    let r = echo_response(content_type, (body, compressed), custom);
    let front = r.headers.len() - custom.len();
    assert forall|h: (Seq<char>, Seq<char>)|
        custom.contains(h) implies #[trigger] r.headers.contains(h) by {
        let i = choose|i: int| 0 <= i < custom.len() && custom[i] == h;
        assert(r.headers[front + i] == h);
    }
    if compressed {
        assert(r.headers[front - 1] == ("Content-Encoding"@, "gzip"@));
    }
    match content_type {
        Some(h) => match h.text {
            Some(t) => assert(r.headers[0] == ("content-type"@, t@)),
            None => {},
        },
        None => assert(r.headers[0] == ("content-type"@, "application/octet-stream"@)),
    }
}

/// A request is echoed unread only on a route that echoes whole bodies, and only if
/// nothing in it asks for another status, another encoding or a stream. On such a route
/// a request without any of these is.
pub proof fn law_echoes_are_plain(inline_echo: bool, streamable: bool, headers: Seq<Header>)
    ensures
        echo_applies(inline_echo, streamable, headers) ==> inline_echo && !streamable,
        has_header(headers, "http_status_code"@) || has_header(headers, "content-encoding"@)
            || has_header(headers, "transfer-encoding"@) ==> !echo_applies(
            inline_echo,
            streamable,
            headers,
        ),
        header_value(headers, "content-type"@) matches Some(t) ==> contains(
            t,
            "text/event-stream"@,
        ) ==> !echo_applies(inline_echo, streamable, headers),
        headers.len() == 0 && inline_echo && !streamable ==> echo_applies(
            inline_echo,
            streamable,
            headers,
        ),
{
}

} // verus!
