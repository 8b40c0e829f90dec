//! Sending messages as HTTP requests.
//!
//! A message becomes a request, and what comes back becomes an acknowledgement, a
//! response message, a streamed response, or a failure that may or may not pass.

use vstd::prelude::*;

use crate::bytes::{lossy_text, text_of_lossy};
use crate::http::auth::{
    base64_of, basic_auth_header_value, config_auth, credential_bytes, credentials,
};
use crate::http::content::{http_version_str, version_text, HttpVersion};
use crate::http::frames::{framed_format, streaming_response_format_from_headers, HttpStreamFormat};
use crate::http::gzip::{compress_if_needed, decompress_if_needed, plain_body, sent_body};
use crate::http::headers::{is_field_text, is_header_name, is_token_char, Header};
use crate::http::request::{HTTP_METHOD, HTTP_PATH, HTTP_QUERY, HTTP_VERSION};
use crate::http::response::{add_header, add_headers};
use crate::http::response_stream::{stream_end, PublishResponseStreamError, StreamFailureView};
use crate::http::server::request_encoding;
use crate::ids::{hex_digits, hex_text};
use crate::message::{
    copy_bytes, lookup, outcome_view, with, CanonicalMessage, FailureView, MessageView, Metadata,
    Pairs, PublisherError, Sent, SentView,
};
use crate::models::{HttpConfig, TlsConfig};
use crate::status::{plain_status, reachable, EndpointStatus};
use crate::text::{
    contains, join2, join3, opt, same, same_text_ignoring_case, starts_with, text_contains,
    text_of_option,
};

verus! {

/// Whether a text is a request method: one or more characters of a token.
pub open spec fn is_method(text: Seq<char>) -> bool {
    text.len() > 0 && forall|i: int| 0 <= i < text.len() ==> is_token_char(#[trigger] text[i])
}

/// `hyper::Method::from_bytes` takes every non-empty text of token characters as a
/// method, and refuses every other.
#[verifier::external_body]
pub(crate) fn is_http_method(text: &str) -> (ok: bool)
    ensures
        ok == is_method(text@),
{
    hyper::Method::from_bytes(text.as_bytes()).is_ok()
}

/// A URI in parts.
#[derive(Debug)]
pub struct UriParts {
    pub scheme: Option<String>,
    pub authority: Option<String>,
    pub path_and_query: Option<String>,
}

/// A URI in parts over mathematical values.
pub struct UriPartsView {
    pub scheme: Option<Seq<char>>,
    pub authority: Option<Seq<char>>,
    pub path_and_query: Option<Seq<char>>,
}

impl View for UriParts {
    type V = UriPartsView;

    open spec fn view(&self) -> UriPartsView {
        UriPartsView {
            scheme: opt(self.scheme),
            authority: opt(self.authority),
            path_and_query: opt(self.path_and_query),
        }
    }
}

/// The parts of the URI that `hyper::Uri` reads from a text, or why it reads none.
pub uninterp spec fn parts_of_uri(text: Seq<char>) -> Result<UriPartsView, Seq<char>>;

/// `hyper::Uri` reads a URI from text and comes apart into its parts. What it takes for
/// one is left to it, and so is the text that says why it did not.
#[verifier::external_body]
pub(crate) fn read_uri(text: &str) -> (parts: Result<UriParts, String>)
    ensures
        match parts {
            Ok(p) => parts_of_uri(text@) == Ok::<UriPartsView, Seq<char>>(p@),
            Err(e) => parts_of_uri(text@) == Err::<UriPartsView, Seq<char>>(e@),
        },
{
    let parts = text.parse::<hyper::Uri>().map_err(|e| e.to_string())?.into_parts();
    Ok(UriParts {
        scheme: parts.scheme.map(|s| s.to_string()),
        authority: parts.authority.map(|a| a.to_string()),
        path_and_query: parts.path_and_query.map(|p| p.to_string()),
    })
}

/// The URI that `hyper::Uri::builder` makes of parts, or why it makes none.
pub uninterp spec fn uri_of_parts(
    scheme: Option<Seq<char>>,
    authority: Option<Seq<char>>,
    path_and_query: Seq<char>,
) -> Result<Seq<char>, Seq<char>>;

/// What a URI with this scheme and this authority begins with.
pub open spec fn uri_front(scheme: Seq<char>, authority: Seq<char>) -> Seq<char> {
    scheme + "://"@ + authority
}

/// `hyper::Uri::builder` makes a URI of a scheme and an authority where they are given,
/// and a path and query. It takes both of the first two or neither, and the text of the
/// URI begins with them. It fails where the parts do not make a URI, and the text says
/// why. Which paths it takes is left to it.
#[verifier::external_body]
pub(crate) fn build_uri(
    scheme: &Option<String>,
    authority: &Option<String>,
    path_and_query: &str,
) -> (uri: Result<String, String>)
    ensures
        match uri {
            Ok(u) => uri_of_parts(opt(*scheme), opt(*authority), path_and_query@) == Ok::<
                Seq<char>,
                Seq<char>,
            >(u@),
            Err(e) => uri_of_parts(opt(*scheme), opt(*authority), path_and_query@) == Err::<
                Seq<char>,
                Seq<char>,
            >(e@),
        },
        uri matches Ok(u) ==> match (opt(*scheme), opt(*authority)) {
            (Some(s), Some(a)) => starts_with(u@, uri_front(s, a)),
            (None, None) => true,
            _ => false,
        },
{
    let mut builder = hyper::Uri::builder();
    if let Some(s) = scheme {
        builder = builder.scheme(s.as_str());
    }
    if let Some(a) = authority {
        builder = builder.authority(a.as_str());
    }
    let built = builder.path_and_query(path_and_query).build();
    built.map(|uri| uri.to_string()).map_err(|e| e.to_string())
}

/// Why `hyper` refuses a header field of a request.
pub open spec fn field_refusal(name: Seq<char>, value: Seq<char>) -> Option<Seq<char>> {
    if !is_header_name(name) {
        Some("invalid HTTP header name"@)
    } else if !is_field_text(value) {
        Some("failed to parse header value"@)
    } else {
        None
    }
}

/// `hyper::Request::builder` takes a header field if its name is a header name and its
/// value holds no control character but the tab, and says which of them is wrong
/// otherwise.
#[verifier::external_body]
pub(crate) fn refuse_field(name: &str, value: &str) -> (why: Option<String>)
    ensures
        opt(why) == field_refusal(name@, value@),
{
    hyper::Request::builder().header(name, value).body(()).err().map(|e| e.to_string())
}

/// The status line text of a code, such as `404 Not Found`, as `hyper::StatusCode`
/// writes it.
pub uninterp spec fn status_line(code: u16) -> Seq<char>;

/// `hyper::StatusCode` writes a code with its usual reason. A number that is no status
/// code is written as it is.
#[verifier::external_body]
pub(crate) fn status_text(code: u16) -> (text: String)
    ensures
        text@ == status_line(code),
{
    match hyper::StatusCode::from_u16(code) {
        Ok(status) => status.to_string(),
        Err(_) => code.to_string(),
    }
}

/// A text in quotes with escapes, as the standard library writes it for debugging.
pub uninterp spec fn quoted_text(text: Seq<char>) -> Seq<char>;

/// `str` writes itself for debugging in quotes, with escapes.
#[verifier::external_body]
pub(crate) fn quote(text: &str) -> (out: String)
    ensures
        out@ == quoted_text(text@),
{
    format!("{:?}", text)
}

/// A target with a scheme in front: the secure one if TLS is required. A target that
/// has one is left as it is.
pub open spec fn with_scheme(required: bool, url: Seq<char>) -> Seq<char> {
    if contains(url, "://"@) {
        url
    } else if required {
        "https://"@ + url
    } else {
        "http://"@ + url
    }
}

impl TlsConfig {
    /// A target with a scheme in front.
    pub fn normalize_url(&self, url: &str) -> (out: String)
        ensures
            out@ == with_scheme(self.required, url@),
    {
        if text_contains(url, "://") {
            url.to_owned()
        } else if self.required {
            join2("https://", url)
        } else {
            join2("http://", url)
        }
    }
}

/// The settings of an HTTP publisher.
#[derive(Debug)]
pub struct HttpPublisher {
    pub url: String,
    pub method: String,
    pub request_timeout_ms: u64,
    pub batch_concurrency: usize,
    pub compression_enabled: bool,
    pub compression_threshold_bytes: usize,
    pub basic_auth_header: Option<String>,
    pub custom_headers: Metadata,
    pub has_stream_sink: bool,
}

/// Configured header fields over mathematical values.
pub open spec fn config_pairs(headers: Seq<(String, String)>) -> Pairs {
    headers.map_values(|p: (String, String)| (p.0@, p.1@))
}

/// Configured header fields as metadata.
pub fn headers_of(headers: &Vec<(String, String)>) -> (out: Metadata)
    ensures
        out@ == config_pairs(headers@),
{
    let mut entries: Vec<(String, String)> = Vec::new();
    let mut i: usize = 0;
    while i < headers.len()
        invariant
            i <= headers@.len(),
            entries@.len() == i,
            forall|k: int| 0 <= k < i ==> #[trigger] entries@[k] == headers@[k],
        decreases headers@.len() - i,
    {
        entries.push((headers[i].0.clone(), headers[i].1.clone()));
        i += 1;
    }
    let out = Metadata { entries };
    assert(out@ =~= config_pairs(headers@));
    out
}

/// Why a publisher cannot be made of a configuration: its target is no URI, or its
/// method no method.
pub open spec fn publisher_refusal(config: HttpConfig) -> Option<Seq<char>> {
    let url = with_scheme(config.tls.required, config.url@);
    match parts_of_uri(url) {
        Err(why) => Some("Invalid configured URL '"@ + url + "': "@ + why),
        Ok(_) => match config.method {
            Some(m) => if is_method(m@) {
                None
            } else {
                Some("Invalid config.method: '"@ + m@ + "'"@)
            },
            None => None,
        },
    }
}

/// Whether `res` is what a configuration makes of a publisher. Without other words a
/// request is a `POST` that may take thirty seconds, batches go out twenty at a time,
/// and bodies from a kilobyte on may be compressed.
pub open spec fn publisher_made(
    config: HttpConfig,
    has_stream_sink: bool,
    res: Result<HttpPublisher, String>,
) -> bool {
    match res {
        Ok(p) => {
            &&& publisher_refusal(config) is None
            &&& p.url@ == with_scheme(config.tls.required, config.url@)
            &&& p.method@ == (match config.method {
                Some(m) => m@,
                None => "POST"@,
            })
            &&& p.request_timeout_ms == (match config.request_timeout_ms {
                Some(t) => t,
                None => 30000,
            })
            &&& p.batch_concurrency == (match config.batch_concurrency {
                Some(n) => if n < 1 {
                    1
                } else {
                    n
                },
                None => 20,
            })
            &&& p.compression_enabled == config.compression_enabled
            &&& p.compression_threshold_bytes == (match config.compression_threshold_bytes {
                Some(n) => n,
                None => 1024,
            })
            &&& p.custom_headers@ == config_pairs(config.custom_headers@)
            &&& p.has_stream_sink == has_stream_sink
            &&& match p.basic_auth_header {
                Some(v) => credentials(config_auth(config.basic_auth)) matches Some((user, pass))
                    && v@ == "Basic "@ + base64_of(credential_bytes(user, pass)),
                None => credentials(config_auth(config.basic_auth)) is None,
            }
        },
        Err(e) => publisher_refusal(config) == Some(e@),
    }
}

impl HttpPublisher {
    /// A publisher that hands every response back.
    pub fn new(config: &HttpConfig) -> (res: Result<HttpPublisher, String>)
        ensures
            publisher_made(*config, false, res),
    {
        HttpPublisher::new_with_stream_response_sink(config, false)
    }

    /// A publisher that may have a sink for the items of streamed responses.
    pub fn new_with_stream_response_sink(config: &HttpConfig, has_stream_sink: bool) -> (res:
        Result<HttpPublisher, String>)
        ensures
            publisher_made(*config, has_stream_sink, res),
    {
        let url = config.tls.normalize_url(config.url.as_str());
        if let Err(why) = read_uri(url.as_str()) {
            let head = join3("Invalid configured URL '", url.as_str(), "': ");
            return Err(join2(head.as_str(), why.as_str()));
        }
        let method = match &config.method {
            Some(m) => {
                if !is_http_method(m.as_str()) {
                    return Err(join3("Invalid config.method: '", m.as_str(), "'"));
                }
                m.clone()
            },
            None => "POST".to_owned(),
        };
        let batch_concurrency: usize = match config.batch_concurrency {
            Some(n) => if n < 1 {
                1
            } else {
                n
            },
            None => 20,
        };
        let request_timeout_ms: u64 = match config.request_timeout_ms {
            Some(t) => t,
            None => 30000,
        };
        let compression_threshold_bytes: usize = match config.compression_threshold_bytes {
            Some(n) => n,
            None => 1024,
        };
        Ok(
            HttpPublisher {
                url,
                method,
                request_timeout_ms,
                batch_concurrency,
                compression_enabled: config.compression_enabled,
                compression_threshold_bytes,
                basic_auth_header: basic_auth_header_value(config.basic_auth.as_ref()),
                custom_headers: headers_of(&config.custom_headers),
                has_stream_sink,
            },
        )
    }
}

/// A request that is ready to be sent.
#[derive(Debug)]
pub struct OutgoingRequest {
    pub method: String,
    pub uri: String,
    pub headers: Metadata,
    pub body: Vec<u8>,
}

/// The method of a message's request: its own if it is one, or the configured one.
pub open spec fn request_method(metadata: Pairs, configured: Seq<char>) -> Seq<char> {
    match lookup(metadata, HTTP_METHOD@) {
        Some(m) => if is_method(m) {
            m
        } else {
            configured
        },
        None => configured,
    }
}

/// The path and query of a message, if it has a path. An empty query is left out.
pub open spec fn path_and_query(metadata: Pairs) -> Option<Seq<char>> {
    match lookup(metadata, HTTP_PATH@) {
        Some(path) => Some(
            match lookup(metadata, HTTP_QUERY@) {
                Some(query) => if query.len() > 0 {
                    path.push('?') + query
                } else {
                    path
                },
                None => path,
            },
        ),
        None => None,
    }
}

/// The target of a message's request: the configured one, or where the message has a
/// path of its own, that one behind the scheme and the authority of the configured one.
pub open spec fn request_uri(metadata: Pairs, base: Seq<char>) -> Result<Seq<char>, Seq<char>> {
    match path_and_query(metadata) {
        Some(pq) => match parts_of_uri(base) {
            Ok(parts) => uri_of_parts(parts.scheme, parts.authority, pq),
            Err(why) => Err(why),
        },
        None => Ok(base),
    }
}

/// Whether a request's target is where the publisher sends to: its text itself, or a
/// text with the same scheme and authority.
pub open spec fn keeps_origin(base: Seq<char>, metadata: Pairs, uri: Seq<char>) -> bool {
    if path_and_query(metadata) is None {
        uri == base
    } else {
        parts_of_uri(base) matches Ok(parts) && match (parts.scheme, parts.authority) {
            (Some(s), Some(a)) => starts_with(uri, uri_front(s, a)),
            (None, None) => true,
            _ => false,
        }
    }
}

/// Whether a metadata value describes the request line or the connection, and so is
/// no header.
pub open spec fn is_line_value(key: Seq<char>) -> bool {
    key == HTTP_METHOD@ || key == HTTP_PATH@ || key == HTTP_QUERY@ || key == HTTP_VERSION@ || key
        == "tls_cipher_suite"@ || key == "tls_protocol_version"@
}

/// The header fields that the metadata of a message becomes.
pub open spec fn header_fields(metadata: Pairs) -> Pairs
    decreases metadata.len(),
{
    if metadata.len() == 0 {
        Pairs::empty()
    } else if is_line_value(metadata.last().0) {
        header_fields(metadata.drop_last())
    } else {
        header_fields(metadata.drop_last()).push(metadata.last())
    }
}

/// All the header fields of a request: those of the message, the credentials, the
/// configured ones, and the encoding of a compressed body.
pub open spec fn request_headers(p: HttpPublisher, metadata: Pairs, compressed: bool) -> Pairs {
    let a = header_fields(metadata);
    let b = match p.basic_auth_header {
        Some(v) => a.push(("Authorization"@, v@)),
        None => a,
    };
    let c = b + p.custom_headers@;
    if compressed {
        c.push(("Content-Encoding"@, "gzip"@))
    } else {
        c
    }
}

/// What is wrong with the first header field from position `i` on that is refused.
pub open spec fn first_refusal(headers: Pairs, i: int) -> Option<Seq<char>>
    decreases headers.len() - i,
{
    if i >= headers.len() {
        None
    } else {
        match field_refusal(headers[i].0, headers[i].1) {
            Some(why) => Some(why),
            None => first_refusal(headers, i + 1),
        }
    }
}

fn refuse_fields(headers: &Metadata) -> (why: Option<String>)
    ensures
        opt(why) == first_refusal(headers@, 0),
{
    let mut i: usize = 0;
    while i < headers.entries.len()
        invariant
            i <= headers.entries@.len(),
            headers@.len() == headers.entries@.len(),
            first_refusal(headers@, 0) == first_refusal(headers@, i as int),
        decreases headers.entries@.len() - i,
    {
        assert(headers@[i as int] == (
            headers.entries@[i as int].0@,
            headers.entries@[i as int].1@,
        ));
        let why = refuse_field(headers.entries[i].0.as_str(), headers.entries[i].1.as_str());
        if why.is_some() {
            return why;
        }
        i += 1;
    }
    None
}

/// A request over mathematical values.
pub struct RequestView {
    pub method: Seq<char>,
    pub uri: Seq<char>,
    pub headers: Pairs,
    pub body: Seq<u8>,
}

impl View for OutgoingRequest {
    type V = RequestView;

    open spec fn view(&self) -> RequestView {
        RequestView {
            method: self.method@,
            uri: self.uri@,
            headers: self.headers@,
            body: self.body@,
        }
    }
}

/// The failure of a request that got no response, for this reason or because the time
/// was up.
pub open spec fn no_response_failure(url: Seq<char>, reason: Option<Seq<char>>) -> FailureView {
    FailureView::Retryable(
        match reason {
            Some(text) => "Failed to send HTTP request to "@ + url + ": "@ + text,
            None => "HTTP request timeout"@,
        },
    )
}

/// The request for a message, or why there is none.
pub open spec fn prepared(p: HttpPublisher, metadata: Pairs, payload: Seq<u8>) -> Result<
    RequestView,
    Seq<char>,
> {
    match request_uri(metadata, p.url@) {
        Err(why) => Err("Failed to build URI: "@ + why),
        Ok(uri) => match sent_body(payload, p.compression_enabled, p.compression_threshold_bytes) {
            Err(why) => Err("Failed to compress payload: "@ + why),
            Ok((body, compressed)) => {
                let headers = request_headers(p, metadata, compressed);
                match first_refusal(headers, 0) {
                    Some(why) => Err("Failed to build request: "@ + why),
                    None => Ok(
                        RequestView {
                            method: request_method(metadata, p.method@),
                            uri,
                            headers,
                            body,
                        },
                    ),
                }
            },
        },
    }
}

fn fields_of(metadata: &Metadata) -> (headers: Metadata)
    ensures
        headers@ == header_fields(metadata@),
{
    let mut headers = Metadata::new();
    let mut i: usize = 0;
    while i < metadata.entries.len()
        invariant
            i <= metadata.entries@.len(),
            headers@ == header_fields(metadata@.take(i as int)),
        decreases metadata.entries@.len() - i,
    {
        assert(metadata@.take(i + 1).drop_last() =~= metadata@.take(i as int));
        assert(metadata@.take(i + 1).last() == (
            metadata.entries@[i as int].0@,
            metadata.entries@[i as int].1@,
        ));
        let key = metadata.entries[i].0.as_str();
        if !(same(key, HTTP_METHOD) || same(key, HTTP_PATH) || same(key, HTTP_QUERY) || same(
            key,
            HTTP_VERSION,
        ) || same(key, "tls_cipher_suite") || same(key, "tls_protocol_version")) {
            add_header(&mut headers, key, metadata.entries[i].1.as_str());
        }
        i += 1;
    }
    assert(metadata@.take(metadata@.len() as int) =~= metadata@);
    headers
}

impl HttpPublisher {
    /// Makes the request for a message.
    pub fn prepare(&self, message: &CanonicalMessage) -> (res: Result<
        OutgoingRequest,
        PublisherError,
    >)
        ensures
            match res {
                Ok(r) => prepared(*self, message.metadata@, message.payload@) == Ok::<
                    RequestView,
                    Seq<char>,
                >(r@),
                Err(e) => (e@ matches FailureView::NonRetryable(text) && prepared(
                    *self,
                    message.metadata@,
                    message.payload@,
                ) == Err::<RequestView, Seq<char>>(text)),
            },
            res matches Ok(r) ==> keeps_origin(self.url@, message.metadata@, r.uri@),
    {
        let method = match message.metadata.get(HTTP_METHOD) {
            Some(m) => if is_http_method(m.as_str()) {
                m.clone()
            } else {
                self.method.clone()
            },
            None => self.method.clone(),
        };
        let uri = match message.metadata.get(HTTP_PATH) {
            Some(path) => {
                let mut target = path.clone();
                if let Some(query) = message.metadata.get(HTTP_QUERY) {
                    if !query.as_str().is_empty() {
                        target.push('?');
                        target.append(query.as_str());
                    }
                }
                let built = match read_uri(self.url.as_str()) {
                    Ok(base) => build_uri(&base.scheme, &base.authority, target.as_str()),
                    Err(e) => Err(e),
                };
                match built {
                    Ok(uri) => uri,
                    Err(e) => {
                        return Err(
                            PublisherError::NonRetryable(
                                join2("Failed to build URI: ", e.as_str()),
                            ),
                        );
                    },
                }
            },
            None => self.url.clone(),
        };
        let mut headers = fields_of(&message.metadata);
        if let Some(value) = &self.basic_auth_header {
            add_header(&mut headers, "Authorization", value.as_str());
        }
        add_headers(&mut headers, &self.custom_headers);
        let (body, compressed) = match compress_if_needed(
            copy_bytes(message.payload.as_slice()),
            self.compression_enabled,
            self.compression_threshold_bytes,
        ) {
            Ok(pair) => pair,
            Err(e) => {
                return Err(
                    PublisherError::NonRetryable(
                        join2("Failed to compress payload: ", e.as_str()),
                    ),
                );
            },
        };
        if compressed {
            add_header(&mut headers, "Content-Encoding", "gzip");
        }
        if let Some(why) = refuse_fields(&headers) {
            return Err(
                PublisherError::NonRetryable(join2("Failed to build request: ", why.as_str())),
            );
        }
        Ok(OutgoingRequest { method, uri, headers, body })
    }

    /// What the publisher reports.
    pub fn status(&self) -> (s: EndpointStatus)
        ensures
            s@ == plain_status(self.url@, None, Seq::empty()),
    {
        reachable(self.url.as_str())
    }

    /// The failure of a request that got no response: with the reason, or because the
    /// time was up. Both may pass.
    pub fn no_response(&self, reason: Option<&str>) -> (e: PublisherError)
        ensures
            e@ == no_response_failure(self.url@, text_of_option(reason)),
    {
        match reason {
            Some(text) => {
                let head = join3("Failed to send HTTP request to ", self.url.as_str(), ": ");
                PublisherError::Retryable(join2(head.as_str(), text))
            },
            None => PublisherError::Retryable("HTTP request timeout".to_owned()),
        }
    }
}

/// The head of a response.
#[derive(Debug)]
pub struct ResponseHead {
    pub status: u16,
    pub version: HttpVersion,
    pub headers: Vec<Header>,
}

/// The metadata of a response: the version, and every textual header.
pub open spec fn response_metadata(version: HttpVersion, headers: Seq<Header>) -> Pairs
    decreases headers.len(),
{
    if headers.len() == 0 {
        with(Pairs::empty(), HTTP_VERSION@, version_text(version))
    } else {
        let rest = response_metadata(version, headers.drop_last());
        match headers.last().text {
            Some(text) => with(rest, headers.last().name@, text@),
            None => rest,
        }
    }
}

fn read_response_headers(head: &ResponseHead) -> (res: (Metadata, Option<String>))
    ensures
        res.0@ == response_metadata(head.version, head.headers@),
        match res.1 {
            Some(e) => request_encoding(head.headers@) == Some(e@),
            None => request_encoding(head.headers@) is None,
        },
{
    let mut metadata = Metadata::new();
    metadata.put(HTTP_VERSION, http_version_str(head.version));
    let mut encoding: Option<String> = None;
    let mut i: usize = 0;
    let ghost all = head.headers@;
    while i < head.headers.len()
        invariant
            i <= head.headers@.len(),
            all == head.headers@,
            metadata@ == response_metadata(head.version, all.take(i as int)),
            match encoding {
                Some(e) => request_encoding(all.take(i as int)) == Some(e@),
                None => request_encoding(all.take(i as int)) is None,
            },
        decreases head.headers@.len() - i,
    {
        assert(all.take(i + 1).drop_last() =~= all.take(i as int));
        assert(all.take(i + 1).last() == all[i as int]);
        let header = &head.headers[i];
        if let Some(text) = &header.text {
            if same_text_ignoring_case(header.name.as_str(), "content-encoding") {
                encoding = Some(text.clone());
            }
            metadata.put(header.name.as_str(), text.as_str());
        }
        i += 1;
    }
    assert(all.take(all.len() as int) =~= all);
    (metadata, encoding)
}

/// Whether a status tells of success.
pub open spec fn is_success(status: u16) -> bool {
    200 <= status < 300
}

/// What follows from the head of a response.
#[derive(Debug)]
pub enum HeadStep {
    /// The body is published record by record.
    Stream { metadata: Metadata, correlation_id: String, format: HttpStreamFormat },
    Fail(PublisherError),
    /// The body is read as a whole.
    ReadBody { metadata: Metadata, content_encoding: Option<String> },
}

/// What follows from the head of a response, over mathematical values.
pub enum HeadView {
    Stream { metadata: Pairs, correlation_id: Seq<char>, format: HttpStreamFormat },
    Fail(FailureView),
    ReadBody { metadata: Pairs, content_encoding: Option<Seq<char>> },
}

impl View for HeadStep {
    type V = HeadView;

    open spec fn view(&self) -> HeadView {
        match self {
            HeadStep::Stream { metadata, correlation_id, format } => HeadView::Stream {
                metadata: metadata@,
                correlation_id: correlation_id@,
                format: *format,
            },
            HeadStep::Fail(e) => HeadView::Fail(e@),
            HeadStep::ReadBody { metadata, content_encoding } => HeadView::ReadBody {
                metadata: metadata@,
                content_encoding: opt(*content_encoding),
            },
        }
    }
}

/// The identifier that the records of a streamed response share: that of the message
/// where it has one for replies.
pub open spec fn stream_id(message: MessageView) -> Seq<char> {
    match lookup(message.metadata, "correlation_id"@) {
        Some(id) => id,
        None => hex_digits(message.message_id as nat, 32),
    }
}

/// What follows from the head of a response to a message. A successful response in a
/// stream format goes to the sink, if there is one; compressed it cannot.
pub open spec fn head_step(
    has_stream_sink: bool,
    message: MessageView,
    head: ResponseHead,
) -> HeadView {
    let format = framed_format(head.headers@, "content-type"@);
    let metadata = response_metadata(head.version, head.headers@);
    let content_encoding = request_encoding(head.headers@);
    if is_success(head.status) && has_stream_sink && format is Some {
        if content_encoding is Some {
            HeadView::Fail(
                FailureView::Retryable(
                    "Compressed HTTP response streams cannot be published to stream_response_to"@,
                ),
            )
        } else {
            HeadView::Stream { metadata, correlation_id: stream_id(message), format: format->0 }
        }
    } else {
        HeadView::ReadBody { metadata, content_encoding }
    }
}

impl HttpPublisher {
    /// Decides what follows from the head of a response to `message`. A successful
    /// response in a stream format goes to the sink, if there is one; compressed it
    /// cannot.
    pub fn on_head(&self, message: &CanonicalMessage, head: &ResponseHead) -> (step: HeadStep)
        ensures
            step@ == head_step(self.has_stream_sink, message@, *head),
    {
        let (metadata, content_encoding) = read_response_headers(head);
        if 200 <= head.status && head.status < 300 && self.has_stream_sink {
            if let Some(format) = streaming_response_format_from_headers(head.headers.as_slice()) {
                if content_encoding.is_some() {
                    return HeadStep::Fail(
                        PublisherError::Retryable(
                            "Compressed HTTP response streams cannot be published to stream_response_to".to_owned(),
                        ),
                    );
                }
                let correlation_id = match message.metadata.get("correlation_id") {
                    Some(id) => id.clone(),
                    None => hex_text(message.message_id),
                };
                return HeadStep::Stream { metadata, correlation_id, format };
            }
        }
        HeadStep::ReadBody { metadata, content_encoding }
    }
}

/// The outcome of a streamed response that ended like this.
pub open spec fn stream_result(failure: Option<StreamFailureView>) -> Result<
    SentView,
    FailureView,
> {
    match failure {
        Some(StreamFailureView::BeforePublish(e)) => Err(e),
        _ => Ok(SentView::Ack),
    }
}

/// The outcome of a streamed response. Once a part has been published the message
/// counts as sent, since sending it again would publish that part twice.
pub fn stream_outcome(result: Result<(), PublishResponseStreamError>) -> (res: Result<
    Sent,
    PublisherError,
>)
    ensures
        outcome_view(res) == stream_result(stream_end(result)),
{
    match result {
        Ok(_) => Ok(Sent::Ack),
        Err(PublishResponseStreamError::Partial(_)) => Ok(Sent::Ack),
        Err(PublishResponseStreamError::BeforePublish(e)) => Err(e),
    }
}

/// Whether a failed status may pass: server errors do, unless the server says that it
/// never will.
pub open spec fn may_pass(status: u16) -> bool {
    500 <= status < 600 && status != 501 && status != 505
}

/// The failure of a response with this status and body.
pub open spec fn status_failure(status: u16, body: Seq<u8>) -> FailureView {
    let text = "HTTP send request failed with status "@ + status_line(status) + ": "@
        + quoted_text(lossy_text(body));
    if may_pass(status) {
        FailureView::Retryable(text)
    } else {
        FailureView::NonRetryable(text)
    }
}

/// What reading the body of a response has brought.
#[derive(Debug)]
pub enum ResponseBody {
    Read(Vec<u8>),
    Failed(String),
    TimedOut,
}

/// The outcome of a request with such a response.
pub open spec fn response_result(
    message_id: u128,
    status: u16,
    metadata: Pairs,
    content_encoding: Option<Seq<char>>,
    body: ResponseBody,
) -> Result<SentView, FailureView> {
    match body {
        ResponseBody::Failed(text) => Err(
            FailureView::Retryable("Failed to read HTTP response body: "@ + text@),
        ),
        ResponseBody::TimedOut => Err(
            FailureView::Retryable("HTTP response body collection timeout"@),
        ),
        ResponseBody::Read(raw) => match plain_body(raw@, content_encoding) {
            Err(why) => Err(FailureView::Retryable("Failed to decompress response: "@ + why)),
            Ok(payload) => if is_success(status) {
                Ok(SentView::Response(MessageView { message_id, payload, metadata }))
            } else {
                Err(status_failure(status, payload))
            },
        },
    }
}

/// Decides the outcome of a request once its response has been read. A body that
/// does not decompress is a failure that may pass.
pub fn response_outcome(
    message_id: u128,
    status: u16,
    metadata: Metadata,
    content_encoding: Option<&str>,
    body: ResponseBody,
) -> (res: Result<Sent, PublisherError>)
    ensures
        outcome_view(res) == response_result(
            message_id,
            status,
            metadata@,
            text_of_option(content_encoding),
            body,
        ),
{
    let raw = match body {
        ResponseBody::Read(raw) => raw,
        ResponseBody::Failed(text) => {
            return Err(
                PublisherError::Retryable(
                    join2("Failed to read HTTP response body: ", text.as_str()),
                ),
            );
        },
        ResponseBody::TimedOut => {
            return Err(
                PublisherError::Retryable("HTTP response body collection timeout".to_owned()),
            );
        },
    };
    let payload = match decompress_if_needed(raw, content_encoding) {
        Ok(p) => p,
        Err(e) => {
            return Err(
                PublisherError::Retryable(join2("Failed to decompress response: ", e.as_str())),
            );
        },
    };
    if !(200 <= status && status < 300) {
        let line = status_text(status);
        let text = text_of_lossy(payload.as_slice());
        let shown = quote(text.as_str());
        let head = join3("HTTP send request failed with status ", line.as_str(), ": ");
        let message = join2(head.as_str(), shown.as_str());
        if 500 <= status && status < 600 && status != 501 && status != 505 {
            return Err(PublisherError::Retryable(message));
        }
        return Err(PublisherError::NonRetryable(message));
    }
    Ok(Sent::Response(CanonicalMessage { message_id, payload, metadata }))
}

/// A client error never passes by itself.
pub proof fn law_client_errors_are_final(status: u16, body: Seq<u8>)
    requires
        400 <= status < 500,
    ensures
        status_failure(status, body) is NonRetryable,
{
}

/// Every header field of a request comes from the message's metadata, and none of
/// them says again what the request line or the connection says.
pub proof fn law_header_fields_leave_out_the_request_line(metadata: Pairs, i: int)
    requires
        0 <= i < header_fields(metadata).len(),
    ensures
        !is_line_value(header_fields(metadata)[i].0),
        metadata.contains(header_fields(metadata)[i]),
    decreases metadata.len(),
{
    let front = metadata.drop_last();
    let out = header_fields(metadata);
    if is_line_value(metadata.last().0) {
        law_header_fields_leave_out_the_request_line(front, i);
        let w = choose|w: int| 0 <= w < front.len() && front[w] == out[i];
        assert(metadata[w] == out[i]);
    } else if i < header_fields(front).len() {
        law_header_fields_leave_out_the_request_line(front, i);
        let w = choose|w: int| 0 <= w < front.len() && front[w] == out[i];
        assert(metadata[w] == out[i]);
    } else {
        assert(metadata[metadata.len() - 1] == out[i]);
    }
}

} // verus!
