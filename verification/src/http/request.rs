//! What a handler reads of a request.

use vstd::prelude::*;
use vstd::slice::slice_subrange;

use crate::http::content::{http_version_str, version_text, HttpVersion};
use crate::http::headers::{header_text, header_value, Header};
use crate::message::{lookup, CanonicalMessage, Pairs};
use crate::numbers::{parse_i64, signed_value};
use crate::text::{
    chars_of, contains, contains_chars, find_char, find_from, lemma_find_from, lower_all,
    lower_chars, same, same_chars, split, split_from, split_once,
};

verus! {

/// Metadata key of the request method, such as `GET`.
pub const HTTP_METHOD: &'static str = "http_method";

/// Metadata key of the request path, such as `/users`.
pub const HTTP_PATH: &'static str = "http_path";

/// Metadata key of the raw query string, without the question mark.
pub const HTTP_QUERY: &'static str = "http_query";

/// Metadata key of the negotiated protocol version, such as `HTTP/1.1`.
pub const HTTP_VERSION: &'static str = "http_version";

/// Metadata key that sets the status code of a reply.
pub const HTTP_STATUS_CODE: &'static str = "http_status_code";

/// The value under a name, or the empty text.
pub open spec fn value_or_empty(pairs: Pairs, key: Seq<char>) -> Seq<char> {
    match lookup(pairs, key) {
        Some(v) => v,
        None => Seq::empty(),
    }
}

/// The value of the first query part from position `i` on that has this key. A part
/// without an equals sign has no key.
pub open spec fn param_from(parts: Seq<Seq<char>>, key: Seq<char>, i: int) -> Option<Seq<char>>
    decreases parts.len() - i,
{
    if i >= parts.len() {
        None
    } else {
        match split_once(parts[i], '=') {
            Some((k, v)) => if k == key {
                Some(v)
            } else {
                param_from(parts, key, i + 1)
            },
            None => param_from(parts, key, i + 1),
        }
    }
}

/// The raw value of a query parameter.
pub open spec fn param(query: Seq<char>, key: Seq<char>) -> Option<Seq<char>> {
    param_from(split(query, '&'), key, 0)
}

/// Reads the request line and the headers that a request message carries as
/// metadata.
pub trait HttpRequestExt {
    /// The metadata that is read.
    spec fn request_metadata(&self) -> Pairs;

    /// The request method, or the empty text.
    fn http_method(&self) -> (res: &str)
        ensures
            res@ == value_or_empty(self.request_metadata(), HTTP_METHOD@),
    ;

    /// The request path, or the empty text.
    fn http_path(&self) -> (res: &str)
        ensures
            res@ == value_or_empty(self.request_metadata(), HTTP_PATH@),
    ;

    /// The raw query string, or the empty text.
    fn http_query(&self) -> (res: &str)
        ensures
            res@ == value_or_empty(self.request_metadata(), HTTP_QUERY@),
    ;

    /// The raw value of a query parameter, still percent-encoded.
    fn query_param(&self, key: &str) -> (res: Option<&str>)
        ensures
            match res {
                Some(v) => param(
                    value_or_empty(self.request_metadata(), HTTP_QUERY@),
                    key@,
                ) == Some(v@),
                None => param(value_or_empty(self.request_metadata(), HTTP_QUERY@), key@) is None,
            },
    ;

    /// A query parameter read as a number.
    fn query_int(&self, key: &str) -> (res: Option<i64>)
        ensures
            ({
                let value = param(value_or_empty(self.request_metadata(), HTTP_QUERY@), key@);
                match res {
                    Some(n) => value is Some && signed_value(value->0) == Some(n as int),
                    None => value is None || signed_value(value->0) is None,
                }
            }),
    ;

    /// Whether the client offered gzip.
    fn accepts_gzip(&self) -> (res: bool)
        ensures
            res == (lookup(self.request_metadata(), "accept-encoding"@) matches Some(v)
                && contains(lower_all(v), "gzip"@)),
    ;
}

fn value_of<'a>(message: &'a CanonicalMessage, key: &str) -> (res: &'a str)
    ensures
        res@ == value_or_empty(message.metadata@, key@),
{
    match message.metadata.get(key) {
        Some(v) => v.as_str(),
        None => {
            let empty = "";
            proof {
                reveal_strlit("");
            }
            assert(empty@ =~= Seq::<char>::empty());
            empty
        },
    }
}

/// The first key-value split of the query parts from position `i` of the text on.
proof fn lemma_param_step(query: Seq<char>, key: Seq<char>, i: int)
    requires
        0 <= i <= query.len(),
    ensures
        ({
            let j = find_from(query, '&', i);
            let part = query.subrange(i, j);
            let later = if j < query.len() {
                param_from(split_from(query, '&', j + 1), key, 0)
            } else {
                None
            };
            param_from(split_from(query, '&', i), key, 0) == (match split_once(part, '=') {
                Some((k, v)) => if k == key {
                    Some(v)
                } else {
                    later
                },
                None => later,
            })
        }),
{
    lemma_find_from(query, '&', i);
    let j = find_from(query, '&', i);
    let parts = split_from(query, '&', i);
    assert(parts[0] == query.subrange(i, j));
    if j < query.len() {
        let rest = split_from(query, '&', j + 1);
        assert(parts == seq![query.subrange(i, j)] + rest);
        lemma_param_shift(seq![query.subrange(i, j)], rest, key, 0);
    } else {
        reveal_with_fuel(param_from, 2);
    }
}

proof fn lemma_param_shift(head: Seq<Seq<char>>, rest: Seq<Seq<char>>, key: Seq<char>, i: int)
    requires
        0 <= i <= rest.len(),
    ensures
        param_from(head + rest, key, head.len() + i) == param_from(rest, key, i),
    decreases rest.len() - i,
{
    if i < rest.len() {
        assert((head + rest)[head.len() + i] == rest[i]);
        lemma_param_shift(head, rest, key, i + 1);
    }
}

impl HttpRequestExt for CanonicalMessage {
    open spec fn request_metadata(&self) -> Pairs {
        self.metadata@
    }

    fn http_method(&self) -> (res: &str) {
        value_of(self, HTTP_METHOD)
    }

    fn http_path(&self) -> (res: &str) {
        value_of(self, HTTP_PATH)
    }

    fn http_query(&self) -> (res: &str) {
        value_of(self, HTTP_QUERY)
    }

    fn query_param(&self, key: &str) -> (res: Option<&str>) {
        let query = self.http_query();
        let all = chars_of(query);
        let want = chars_of(key);
        let mut i: usize = 0;
        loop
            invariant
                i <= all@.len(),
                all@ == query@,
                want@ == key@,
                query@ == value_or_empty(self.request_metadata(), HTTP_QUERY@),
                param(query@, key@) == param_from(split_from(query@, '&', i as int), key@, 0),
            decreases all@.len() - i,
        {
            proof {
                lemma_param_step(query@, key@, i as int);
            }
            let j: usize = find_char(all.as_slice(), '&', i);
            let part = slice_subrange(all.as_slice(), i, j);
            let eq: usize = find_char(part, '=', 0);
            if eq < part.len() && same_chars(slice_subrange(part, 0, eq), want.as_slice()) {
                let value = query.substring_char(i + eq + 1, j);
                assert(value@ =~= part@.subrange(eq + 1, part@.len() as int));
                return Some(value);
            }
            if j >= all.len() {
                return None;
            }
            i = j + 1;
        }
    }

    fn query_int(&self, key: &str) -> (res: Option<i64>) {
        match self.query_param(key) {
            Some(text) => parse_i64(text),
            None => None,
        }
    }

    fn accepts_gzip(&self) -> (res: bool) {
        match self.metadata.get("accept-encoding") {
            Some(v) => contains_chars(
                lower_chars(chars_of(v.as_str()).as_slice()).as_slice(),
                chars_of("gzip").as_slice(),
            ),
            None => false,
        }
    }
}

/// The TLS parameters of a connection.
#[derive(Debug)]
pub struct HttpConnInfo {
    pub cipher_suite: Option<String>,
    pub protocol_version: Option<String>,
}

/// The parts of a request that its metadata is made of.
#[derive(Debug)]
pub struct RequestHead {
    pub method: String,
    pub path: String,
    pub query: Option<String>,
    pub version: HttpVersion,
    pub headers: Vec<Header>,
    pub conn_info: HttpConnInfo,
}

/// The value that a request has under a metadata key, if any.
pub open spec fn request_value(request: RequestHead, key: Seq<char>) -> Option<Seq<char>> {
    if key == HTTP_METHOD@ {
        Some(request.method@)
    } else if key == HTTP_PATH@ {
        Some(request.path@)
    } else if key == HTTP_QUERY@ {
        Some(
            match request.query {
                Some(q) => q@,
                None => Seq::empty(),
            },
        )
    } else if key == HTTP_VERSION@ {
        Some(version_text(request.version))
    } else if key == "tls_cipher_suite"@ {
        match request.conn_info.cipher_suite {
            Some(s) => Some(s@),
            None => None,
        }
    } else if key == "tls_protocol_version"@ {
        match request.conn_info.protocol_version {
            Some(s) => Some(s@),
            None => None,
        }
    } else {
        header_value(request.headers@, key)
    }
}

/// Whether a metadata value is what the request itself had under that key.
pub fn request_metadata_matches(request: &RequestHead, key: &str, value: &str) -> (res: bool)
    ensures
        res == (request_value(*request, key@) == Some(value@)),
{
    if same(key, HTTP_METHOD) {
        same(request.method.as_str(), value)
    } else if same(key, HTTP_PATH) {
        same(request.path.as_str(), value)
    } else if same(key, HTTP_QUERY) {
        match &request.query {
            Some(q) => same(q.as_str(), value),
            None => {
                assert(value@.len() == 0 ==> value@ =~= Seq::<char>::empty());
                value.is_empty()
            },
        }
    } else if same(key, HTTP_VERSION) {
        same(http_version_str(request.version), value)
    } else if same(key, "tls_cipher_suite") {
        match &request.conn_info.cipher_suite {
            Some(s) => same(s.as_str(), value),
            None => false,
        }
    } else if same(key, "tls_protocol_version") {
        match &request.conn_info.protocol_version {
            Some(s) => same(s.as_str(), value),
            None => false,
        }
    } else {
        match header_text(request.headers.as_slice(), key) {
            Some(text) => same(text.as_str(), value),
            None => false,
        }
    }
}

} // verus!
