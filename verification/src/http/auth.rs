//! Basic authentication on both sides.

use vstd::prelude::*;
use vstd::slice::slice_subrange;
use vstd::utf8::{decode_utf8, encode_utf8, valid_utf8};

use crate::bytes::text_of;
use crate::http::headers::{header_position, header_slot, Header};
use crate::text::{
    chars_of, find_from, join2, join3, lemma_find_from, same, same_chars, split_once,
    split_once_chars, starts_with, string_of, text_starts_with,
};

verus! {

/// The standard base64 text of bytes, with padding, as the `base64` crate writes it.
pub uninterp spec fn base64_of(data: Seq<u8>) -> Seq<char>;

/// The bytes that the `base64` crate reads from a text in the standard alphabet.
pub uninterp spec fn base64_decoded(text: Seq<char>) -> Option<Seq<u8>>;

/// `base64::Engine::encode` of `general_purpose::STANDARD` writes bytes as text.
/// Decoding that text with the same engine gives the bytes back.
#[verifier::external_body]
pub(crate) fn base64_encode(data: &[u8]) -> (text: String)
    ensures
        text@ == base64_of(data@),
        base64_decoded(text@) == Some(data@),
{
    base64::Engine::encode(&base64::engine::general_purpose::STANDARD, data)
}

/// `base64::Engine::decode` of `general_purpose::STANDARD` reads bytes from text, and
/// fails on what is not in the standard alphabet with its padding.
#[verifier::external_body]
pub(crate) fn base64_decode(text: &str) -> (data: Option<Vec<u8>>)
    ensures
        match data {
            Some(d) => base64_decoded(text@) == Some(d@),
            None => base64_decoded(text@) is None,
        },
{
    base64::Engine::decode(&base64::engine::general_purpose::STANDARD, text).ok()
}

/// The credentials that are asked for: none if both are empty.
pub open spec fn credentials(basic_auth: Option<(Seq<char>, Seq<char>)>) -> Option<
    (Seq<char>, Seq<char>),
> {
    match basic_auth {
        Some((user, pass)) => if user.len() == 0 && pass.len() == 0 {
            None
        } else {
            Some((user, pass))
        },
        None => None,
    }
}

/// Configured credentials over character sequences.
pub open spec fn pair_view(basic_auth: Option<&(String, String)>) -> Option<
    (Seq<char>, Seq<char>),
> {
    match basic_auth {
        Some(p) => Some((p.0@, p.1@)),
        None => None,
    }
}

/// Credentials in a configuration over character sequences.
pub open spec fn config_auth(basic_auth: Option<(String, String)>) -> Option<
    (Seq<char>, Seq<char>),
> {
    match basic_auth {
        Some(p) => Some((p.0@, p.1@)),
        None => None,
    }
}

/// The credentials that are asked for, unless both are empty.
pub fn configured_basic_auth<'a>(basic_auth: Option<&'a (String, String)>) -> (res: Option<
    (&'a str, &'a str),
>)
    ensures
        match res {
            Some((u, p)) => credentials(pair_view(basic_auth)) == Some((u@, p@)),
            None => credentials(pair_view(basic_auth)) is None,
        },
{
    match basic_auth {
        Some(pair) => if pair.0.as_str().is_empty() && pair.1.as_str().is_empty() {
            None
        } else {
            Some((pair.0.as_str(), pair.1.as_str()))
        },
        None => None,
    }
}

/// The bytes that credentials are sent as.
pub open spec fn credential_bytes(user: Seq<char>, pass: Seq<char>) -> Seq<u8> {
    encode_utf8(user + ":"@ + pass)
}

/// The value of an `Authorization` field for the configured credentials.
pub fn basic_auth_header_value(basic_auth: Option<&(String, String)>) -> (value: Option<String>)
    ensures
        match value {
            Some(v) => credentials(pair_view(basic_auth)) matches Some((user, pass)) && {
                &&& v@ == "Basic "@ + base64_of(credential_bytes(user, pass))
                &&& base64_decoded(base64_of(credential_bytes(user, pass))) == Some(
                    credential_bytes(user, pass),
                )
            },
            None => credentials(pair_view(basic_auth)) is None,
        },
{
    match configured_basic_auth(basic_auth) {
        Some((user, pass)) => {
            let plain = join3(user, ":", pass);
            let encoded = base64_encode(plain.as_str().as_bytes());
            Some(join2("Basic ", encoded.as_str()))
        },
        None => None,
    }
}

/// Why a request is not let in: a status and a text.
#[derive(Debug, Clone, Copy)]
pub struct AuthRefusal {
    pub status: u16,
    pub text: &'static str,
}

/// A refusal over mathematical values.
pub open spec fn refusal_view(r: Option<AuthRefusal>) -> Option<(u16, Seq<char>)> {
    match r {
        Some(r) => Some((r.status, r.text@)),
        None => None,
    }
}

/// The user and the password in decoded credentials. Without a colon both are empty.
pub open spec fn user_and_password(text: Seq<char>) -> (Seq<char>, Seq<char>) {
    match split_once(text, ':') {
        Some((u, p)) => (u, p),
        None => (Seq::empty(), Seq::empty()),
    }
}

/// Why decoded credentials do not let a request in, if they do not.
pub open spec fn credential_refusal(
    decoded: Option<Seq<u8>>,
    user: Seq<char>,
    pass: Seq<char>,
) -> Option<(u16, Seq<char>)> {
    match decoded {
        None => Some((400u16, "Invalid base64 encoding in authorization header"@)),
        Some(bytes) => if !valid_utf8(bytes) {
            Some((400u16, "Invalid authorization header encoding"@))
        } else if user_and_password(decode_utf8(bytes)) == (user, pass) {
            None
        } else {
            Some((401u16, "Invalid credentials"@))
        },
    }
}

/// Holds decoded credentials against the expected ones.
pub fn check_credentials(decoded: Option<Vec<u8>>, user: &str, pass: &str) -> (res: Option<
    AuthRefusal,
>)
    ensures
        refusal_view(res) == credential_refusal(
            match decoded {
                Some(d) => Some(d@),
                None => None,
            },
            user@,
            pass@,
        ),
{
    let bytes = match decoded {
        Some(b) => b,
        None => {
            return Some(
                AuthRefusal {
                    status: 400,
                    text: "Invalid base64 encoding in authorization header",
                },
            );
        },
    };
    let text = match text_of(bytes.as_slice()) {
        Some(t) => t,
        None => {
            return Some(
                AuthRefusal { status: 400, text: "Invalid authorization header encoding" },
            );
        },
    };
    let all = chars_of(text.as_str());
    let want_user = chars_of(user);
    let want_pass = chars_of(pass);
    let nothing: Vec<char> = Vec::new();
    let (u, p) = match split_once_chars(all.as_slice(), ':') {
        Some((u, p)) => (u, p),
        None => (nothing.as_slice(), nothing.as_slice()),
    };
    assert((u@, p@) == user_and_password(text@));
    if same_chars(u, want_user.as_slice()) && same_chars(p, want_pass.as_slice()) {
        None
    } else {
        Some(AuthRefusal { status: 401, text: "Invalid credentials" })
    }
}

/// Why a request with these headers is not let in, if it is not.
pub open spec fn auth_refusal(
    headers: Seq<Header>,
    expected: Option<(Seq<char>, Seq<char>)>,
) -> Option<(u16, Seq<char>)> {
    match expected {
        None => None,
        Some((user, pass)) => {
            let i = header_slot(headers, "authorization"@, 0);
            if i >= headers.len() {
                Some((401u16, "Missing authorization header"@))
            } else {
                match headers[i].text {
                    None => Some((400u16, "Invalid authorization header encoding"@)),
                    Some(value) => if !starts_with(value@, "Basic "@) {
                        Some((401u16, "Missing Basic authentication scheme"@))
                    } else {
                        credential_refusal(base64_decoded(value@.skip(6)), user, pass)
                    },
                }
            }
        },
    }
}

/// Decides whether a request is let in.
pub fn authorize(headers: &[Header], basic_auth: Option<&(String, String)>) -> (res: Option<
    AuthRefusal,
>)
    ensures
        refusal_view(res) == auth_refusal(headers@, credentials(pair_view(basic_auth))),
{
    let (user, pass) = match configured_basic_auth(basic_auth) {
        Some(pair) => pair,
        None => {
            return None;
        },
    };
    let i: usize = header_position(headers, "authorization");
    if i >= headers.len() {
        return Some(AuthRefusal { status: 401, text: "Missing authorization header" });
    }
    let value = match &headers[i].text {
        Some(v) => v,
        None => {
            return Some(
                AuthRefusal { status: 400, text: "Invalid authorization header encoding" },
            );
        },
    };
    if !text_starts_with(value.as_str(), "Basic ") {
        return Some(AuthRefusal { status: 401, text: "Missing Basic authentication scheme" });
    }
    let all = chars_of(value.as_str());
    proof {
        reveal_strlit("Basic ");
    }
    let encoded = string_of(slice_subrange(all.as_slice(), 6, all.len()));
    assert(encoded@ =~= value@.skip(6));
    check_credentials(base64_decode(encoded.as_str()), user, pass)
}

/// A request that carries the header made of the expected credentials is let in. A
/// user name with a colon is outside the law, since the first colon ends the name.
pub proof fn law_own_credentials_are_let_in(user: Seq<char>, pass: Seq<char>, decoded: Seq<u8>)
    requires
        !user.contains(':'),
        decoded == credential_bytes(user, pass),
    ensures
        credential_refusal(Some(decoded), user, pass) is None,
{
    reveal_strlit(":");
    let text = user + ":"@ + pass;
    vstd::utf8::encode_utf8_valid_utf8(text);
    vstd::utf8::encode_utf8_decode_utf8(text);
    lemma_find_from(text, ':', 0);
    let p = find_from(text, ':', 0);
    let n = user.len() as int;
    assert(text[n] == ':');
    assert(p == n) by {
        if p < n {
            assert(user[p] == text[p]);
        }
    }
    assert(text.subrange(0, n) =~= user);
    assert(text.subrange(n + 1, text.len() as int) =~= pass);
}

/// Other credentials are refused.
pub proof fn law_other_credentials_are_refused(
    decoded: Seq<u8>,
    user: Seq<char>,
    pass: Seq<char>,
)
    requires
        user_and_password(decode_utf8(decoded)) != (user, pass),
    ensures
        credential_refusal(Some(decoded), user, pass) is Some,
{
}

} // verus!
