//! How endpoints are set up, and how requests are read.

use vstd::prelude::*;

use crate::http::auth::user_and_password;
use crate::http::content::{accepts_text, covers_text, list_covers_text};
use crate::http::gzip::{
    coding_of, excludes, gzip_of, header_offers, is_named, item_offers, sent_body, takes_gzip,
    weights,
};
use crate::http::headers::{has_header, media_of, Header};
use crate::http::limiter::{budget, shard_count};
use crate::http::publisher::{is_method, parts_of_uri, publisher_made, with_scheme, HttpPublisher};
use crate::http::request::{param, param_from};
use crate::http::server_laws::law_absent_headers;
use crate::http::setup::{
    consumer_made, first_failure, is_off, listening, normal_path, reachable_address, same_server,
    HttpConsumer, HttpServerKey,
};
use crate::models::HttpConfig;
use crate::numbers::decimal;
use crate::text::{
    find_from, lemma_find_from, lemma_split_head, lemma_split_one, lower_all, opt,
    same_ignoring_case, split, split_once, starts_with, trim,
};

verus! {

/// A path is registered with a slash in front, whether it is written with one or not. A
/// blank one is every path.
pub proof fn law_paths_begin_with_a_slash(path: Seq<char>)
    ensures
        normal_path(None) is None,
        trim(path).len() == 0 ==> normal_path(Some(path)) is None,
        trim(path).len() > 0 && trim(path)[0] == '/' ==> normal_path(Some(path)) == Some(
            trim(path),
        ),
        trim(path).len() > 0 && trim(path)[0] != '/' ==> normal_path(Some(path)) == Some(
            "/"@ + trim(path),
        ),
        normal_path(Some(path)) matches Some(p) ==> p.len() > 0 && p[0] == '/',
{
    reveal_strlit("/");
}

/// A consumer is set up as configured. What is not configured is a thousand and
/// twenty-four waiting requests, thirty seconds for each, a hundred at once, identifiers
/// in `message-id`, and compression from a kilobyte on.
pub proof fn law_consumers_are_set_up(
    config: HttpConfig,
    inline: bool,
    inline_echo: bool,
    s: HttpConsumer,
)
    requires
        consumer_made(config, inline, inline_echo, Ok::<HttpConsumer, String>(s)),
    ensures
        config.internal_buffer_size is None ==> s.buffer_size == 1024,
        config.internal_buffer_size == Some(0usize) ==> s.buffer_size == 1,
        config.internal_buffer_size matches Some(n) ==> n > 0 ==> s.buffer_size == n,
        config.request_timeout_ms is None ==> s.state.request_timeout_ms == 30000,
        config.request_timeout_ms matches Some(t) ==> s.state.request_timeout_ms == t,
        config.concurrency_limit is None ==> s.state.concurrency_limit == 100,
        config.concurrency_limit matches Some(n) ==> s.state.concurrency_limit == n,
        config.message_id_header is None ==> s.state.message_id_header@ == "message-id"@,
        config.message_id_header matches Some(h) ==> s.state.message_id_header@ == h@,
        config.compression_threshold_bytes is None
            ==> s.state.response.compression_threshold_bytes == 1024,
        config.compression_threshold_bytes matches Some(n)
            ==> s.state.response.compression_threshold_bytes == n,
        s.state.response.compression_enabled == config.compression_enabled,
        s.state.fire_and_forget == config.fire_and_forget,
        s.state.receive_streamable == config.receive_streamable,
        s.state.inline == inline,
        s.state.inline_echo == inline_echo,
        opt(s.route.method) == opt(config.method),
        opt(s.route.path) == normal_path(opt(config.path)),
        match s.state.basic_auth {
            Some(p) => config.basic_auth matches Some(q) && p.0@ == q.0@ && p.1@ == q.1@,
            None => config.basic_auth is None,
        },
        s.state.response.custom_headers@.len() == config.custom_headers@.len(),
        forall|i: int|
            0 <= i < config.custom_headers@.len() ==> #[trigger] s.state.response.custom_headers@[i]
                == (config.custom_headers@[i].0@, config.custom_headers@[i].1@),
{
}

/// A publisher is set up as configured. What is not configured is a `POST` that may take
/// thirty seconds, twenty messages of a batch at once, and compression from a kilobyte
/// on.
pub proof fn law_publishers_are_set_up(
    config: HttpConfig,
    has_stream_sink: bool,
    p: HttpPublisher,
)
    requires
        publisher_made(config, has_stream_sink, Ok::<HttpPublisher, String>(p)),
    ensures
        config.method is None ==> p.method@ == "POST"@,
        config.method matches Some(m) ==> p.method@ == m@,
        config.request_timeout_ms is None ==> p.request_timeout_ms == 30000,
        config.request_timeout_ms matches Some(t) ==> p.request_timeout_ms == t,
        config.batch_concurrency is None ==> p.batch_concurrency == 20,
        config.batch_concurrency == Some(0usize) ==> p.batch_concurrency == 1,
        config.batch_concurrency matches Some(n) ==> n > 0 ==> p.batch_concurrency == n,
        config.compression_threshold_bytes is None ==> p.compression_threshold_bytes == 1024,
        config.compression_threshold_bytes matches Some(n) ==> p.compression_threshold_bytes == n,
        p.compression_enabled == config.compression_enabled,
        p.has_stream_sink == has_stream_sink,
        config.basic_auth is None ==> p.basic_auth_header is None,
        config.basic_auth matches Some(q) ==> (q.0@.len() > 0 || q.1@.len() > 0)
            ==> p.basic_auth_header is Some,
        p.custom_headers@.len() == config.custom_headers@.len(),
        forall|i: int|
            0 <= i < config.custom_headers@.len() ==> #[trigger] p.custom_headers@[i] == (
                config.custom_headers@[i].0@,
                config.custom_headers@[i].1@,
            ),
{
}

/// A consumer on a port that the system picked is reached at that port, and any other
/// where it is configured.
pub proof fn law_where_consumers_are_reached(
    url: Seq<char>,
    host: Seq<char>,
    port: u16,
    bound: u16,
)
    ensures
        reachable_address(url, Some((host, 0)), Some(bound)) == host + ":"@ + decimal(bound as nat),
        port != 0 ==> reachable_address(url, Some((host, port)), Some(bound)) == url,
        reachable_address(url, Some((host, port)), None) == url,
        reachable_address(url, None, Some(bound)) == url,
{
}

/// Two consumers share a server only if everything that shapes a listener is the same.
pub proof fn law_which_servers_are_shared(a: HttpServerKey, b: HttpServerKey)
    ensures
        same_server(a, a),
        same_server(a, b) == same_server(b, a),
        same_server(a, b) ==> a.listen_addr@ == b.listen_addr@ && a.workers == b.workers
            && a.server_protocol == b.server_protocol && a.tls.required == b.tls.required && opt(
            a.tls.cert_file,
        ) == opt(b.tls.cert_file) && opt(a.tls.key_file) == opt(b.tls.key_file) && opt(
            a.tls.ca_file,
        ) == opt(b.tls.ca_file) && opt(a.tls.cert_password) == opt(b.tls.cert_password)
            && a.tls.accept_invalid_certs == b.tls.accept_invalid_certs,
{
}

/// A running server is found by the address that it listens on.
pub proof fn law_servers_are_found_by_address(
    servers: Seq<HttpServerKey>,
    addr: Seq<char>,
    i: int,
)
    requires
        0 <= i <= servers.len(),
    ensures
        i <= listening(servers, addr, i) <= servers.len(),
        listening(servers, addr, i) < servers.len() ==> servers[listening(
            servers,
            addr,
            i,
        )].listen_addr@ == addr,
        forall|k: int|
            i <= k < listening(servers, addr, i) ==> (#[trigger] servers[k]).listen_addr@ != addr,
    decreases servers.len() - i,
{
    if i < servers.len() && servers[i].listen_addr@ != addr {
        law_servers_are_found_by_address(servers, addr, i + 1);
    }
}

/// Committing a batch reports the first answer that failed.
pub proof fn law_first_failure_is_reported(failed: Seq<Option<String>>, i: int)
    requires
        0 <= i <= failed.len(),
    ensures
        match first_failure(failed, i) {
            Some(e) => exists|k: int|
                i <= k < failed.len() && (#[trigger] failed[k] matches Some(x) && x@ == e)
                    && forall|j: int| i <= j < k ==> #[trigger] failed[j] is None,
            None => forall|k: int| i <= k < failed.len() ==> #[trigger] failed[k] is None,
        },
    decreases failed.len() - i,
{
    if i < failed.len() {
        law_first_failure_is_reported(failed, i + 1);
        if failed[i] is Some {
            assert(failed[i] matches Some(x) && x@ == first_failure(failed, i)->0);
        } else if first_failure(failed, i) is Some {
            let e = first_failure(failed, i + 1)->0;
            let k = choose|k: int|
                i + 1 <= k < failed.len() && (#[trigger] failed[k] matches Some(x) && x@ == e)
                    && forall|j: int| i + 1 <= j < k ==> #[trigger] failed[j] is None;
            assert(failed[k] matches Some(x) && x@ == e);
        }
    }
}

/// A setting switches something off in a few words, in whatever case.
pub proof fn law_what_switches_off(value: Seq<char>)
    ensures
        is_off(value) <==> {
            let v = lower_all(trim(value));
            v == "0"@ || v == "false"@ || v == "off"@ || v == "no"@
        },
{
}

/// A budget is split into no more shards than it has permits or the machine has
/// processors, and never into more than sixteen.
pub proof fn law_shards_of_a_budget(total: usize, parallelism: int)
    requires
        parallelism >= 1,
    ensures
        budget(total) >= 1,
        total >= 1 ==> budget(total) == total,
        1 <= shard_count(budget(total), parallelism) <= 16,
        shard_count(budget(total), parallelism) <= budget(total),
        shard_count(budget(total), parallelism) <= parallelism,
        parallelism <= 16 && parallelism <= budget(total) ==> shard_count(
            budget(total),
            parallelism,
        ) == parallelism,
{
}

/// A query gives the value behind the first equals sign of the first part with that key.
/// A part with another key, or without an equals sign, is passed over.
pub proof fn law_query_parameters(
    key: Seq<char>,
    value: Seq<char>,
    other: Seq<char>,
    rest: Seq<char>,
)
    requires
        !key.contains('=') && !key.contains('&'),
        !value.contains('&'),
        !other.contains('&'),
        !starts_with(other, key + seq!['=']),
    ensures
        param(key + seq!['='] + value, key) == Some(value),
        param(key + seq!['='] + value + seq!['&'] + rest, key) == Some(value),
        param(other, key) is None,
        param(other + seq!['&'] + rest, key) == param(rest, key),
{
    let part = key + seq!['='] + value;
    assert(!part.contains('&')) by {
        if part.contains('&') {
            let i = choose|i: int| 0 <= i < part.len() && part[i] == '&';
            if i < key.len() {
                assert(key[i] == '&');
            } else if i > key.len() {
                assert(value[i - key.len() - 1] == '&');
            }
        }
    }
    lemma_part(key, value);
    lemma_other(key, other);
    lemma_split_one(part, '&');
    lemma_split_head(part, '&', rest);
    lemma_split_one(other, '&');
    lemma_split_head(other, '&', rest);
    reveal_with_fuel(param_from, 2);
    lemma_skip_part(other, split(rest, '&'), key, 0);
    let all = seq![part] + split(rest, '&');
    assert(all[0] == part);
    let both = seq![other] + split(rest, '&');
    assert(both[0] == other);
}

proof fn lemma_skip_part(first: Seq<char>, parts: Seq<Seq<char>>, key: Seq<char>, i: int)
    requires
        0 <= i <= parts.len(),
    ensures
        param_from(seq![first] + parts, key, i + 1)
            == param_from(parts, key, i),
    decreases parts.len() - i,
{
    if i < parts.len() {
        lemma_skip_part(first, parts, key, i + 1);
        assert((seq![first] + parts)[i + 1] == parts[i]);
    }
}

proof fn lemma_part(key: Seq<char>, value: Seq<char>)
    requires
        !key.contains('='),
    ensures
        split_once(key + seq!['='] + value, '=') == Some((key, value)),
{
    let s = key + seq!['='] + value;
    lemma_find_from(s, '=', 0);
    let p = find_from(s, '=', 0);
    assert(p == key.len()) by {
        assert(s[key.len() as int] == '=');
        if p < key.len() {
            assert(key[p] == '=');
        }
    }
    assert(s.subrange(0, p) =~= key);
    assert(s.subrange(p + 1, s.len() as int) =~= value);
}

proof fn lemma_other(key: Seq<char>, other: Seq<char>)
    requires
        !key.contains('='),
        !starts_with(other, key + seq!['=']),
    ensures
        split_once(other, '=') matches Some((k, v)) ==> k != key,
{
    lemma_find_from(other, '=', 0);
    let p = find_from(other, '=', 0);
    if p < other.len() && other.subrange(0, p) == key {
        assert(other.take(key.len() as int + 1) =~= key + seq!['=']);
    }
}

/// Credentials are split at their first colon, so that only a password can hold one.
pub proof fn law_users_and_passwords(user: Seq<char>, pass: Seq<char>)
    requires
        !user.contains(':'),
    ensures
        user_and_password(user + seq![':'] + pass) == (user, pass),
        user_and_password(user) == (Seq::<char>::empty(), Seq::<char>::empty()),
{
    let s = user + seq![':'] + pass;
    lemma_find_from(s, ':', 0);
    let p = find_from(s, ':', 0);
    assert(p == user.len()) by {
        assert(s[user.len() as int] == ':');
        if p < user.len() {
            assert(user[p] == ':');
        }
    }
    assert(s.subrange(0, p) =~= user);
    assert(s.subrange(p + 1, s.len() as int) =~= pass);
    lemma_find_from(user, ':', 0);
    let q = find_from(user, ':', 0);
    if q < user.len() {
        assert(user[q] == ':');
    }
}

/// A client takes gzip if an offer names it and none that does excludes it, whatever is
/// said of every coding. Without a word on gzip it does if every coding is offered and
/// not excluded. Without an offer it does not.
pub proof fn law_who_takes_gzip(offers: Seq<(bool, Vec<bool>)>, i: int)
    requires
        0 <= i < offers.len(),
    ensures
        offers[i].0 && (forall|k: int|
            0 <= k < offers.len() && (#[trigger] offers[k]).0 ==> !offers[k].1@.contains(true))
            ==> takes_gzip(offers),
        (forall|k: int|
            0 <= k < offers.len() ==> !(#[trigger] offers[k]).0 && !offers[k].1@.contains(true))
            ==> takes_gzip(offers),
        (forall|k: int|
            0 <= k < offers.len() ==> !(#[trigger] offers[k]).0) && offers[i].1@.contains(true)
            ==> !takes_gzip(offers),
        offers[i].0 && offers[i].1@.contains(true) ==> !takes_gzip(offers),
        !takes_gzip(Seq::empty()),
{
    use_names(offers);
    if offers[i].0 {
        assert(is_named(offers[i]));
    }
    if offers[i].1@.contains(true) {
        assert(excludes(offers[i]));
    }
}

proof fn use_names(offers: Seq<(bool, Vec<bool>)>)
    ensures
        forall|k: int|
            0 <= k < offers.len() ==> is_named(#[trigger] offers[k])
                == offers[k].0 && excludes(offers[k])
                == offers[k].1@.contains(true),
{
}

/// Every textual `accept-encoding` field offers what its items offer. An item offers gzip
/// by its name or as every coding, with the weights that it gives.
pub proof fn law_gzip_offers(h: Header, item: Seq<char>)
    ensures
        header_offers(seq![h], 0) == (if same_ignoring_case(h.name@, "accept-encoding"@) && h.text
            is Some {
            item_offers(split(h.text->0@, ','), 0)
        } else {
            seq![]
        }),
        ({
            let coding = lower_all(trim(split(item, ';')[0]));
            item_offers(seq![item], 0) == (if coding == "gzip"@ {
                seq![(true, weights(split(item, ';'), 1))]
            } else if coding == "*"@ {
                seq![(false, weights(split(item, ';'), 1))]
            } else {
                seq![]
            })
        }),
{
    reveal_with_fuel(header_offers, 2);
    reveal_with_fuel(item_offers, 2);
    reveal_strlit("*");
    reveal_strlit("gzip");
    assert("*"@.len() == 1 && "gzip"@.len() == 4);
    assert(header_offers(seq![h], 0) =~= (if same_ignoring_case(h.name@, "accept-encoding"@)
        && h.text is Some {
        item_offers(split(h.text->0@, ','), 0)
    } else {
        seq![]
    }));
    let coding = coding_of(item);
    assert(item_offers(seq![item], 0) =~= (if coding == "gzip"@ {
        seq![(true, weights(split(item, ';'), 1))]
    } else if coding == "*"@ {
        seq![(false, weights(split(item, ';'), 1))]
    } else {
        seq![]
    }));
}

/// A body is sent compressed only where that is switched on, the body is longer than the
/// threshold and its compressed form is shorter.
pub proof fn law_when_bodies_are_compressed(payload: Seq<u8>, enabled: bool, threshold: usize)
    ensures
        !enabled || payload.len() <= threshold ==> sent_body(payload, enabled, threshold) == Ok::<
            (Seq<u8>, bool),
            Seq<char>,
        >((payload, false)),
        enabled && payload.len() > threshold ==> match gzip_of(payload) {
            Ok(packed) => sent_body(payload, enabled, threshold) == Ok::<(Seq<u8>, bool), Seq<char>>(
                if packed.len() < payload.len() {
                    (packed, true)
                } else {
                    (payload, false)
                },
            ),
            Err(why) => sent_body(payload, enabled, threshold) == Err::<
                (Seq<u8>, bool),
                Seq<char>,
            >(why),
        },
{
}

/// A client takes text unless it says what it takes and text is not among it.
pub proof fn law_who_takes_text(headers: Seq<Header>)
    ensures
        (forall|k: int|
            0 <= k < headers.len() ==> !same_ignoring_case(
                (#[trigger] headers[k]).name@,
                "accept"@,
            )) ==> accepts_text(headers),
        has_header(headers, "accept"@) ==> (accepts_text(headers) <==> exists|i: int, k: int|
            0 <= i < headers.len() && same_ignoring_case((#[trigger] headers[i]).name@, "accept"@)
                && headers[i].text is Some && 0 <= k < split(headers[i].text->0@, ',').len()
                && is_text(media_of(#[trigger] split(headers[i].text->0@, ',')[k]))),
{
    if (forall|k: int|
        0 <= k < headers.len() ==> !same_ignoring_case((#[trigger] headers[k]).name@, "accept"@)) {
        law_absent_headers(headers, "accept"@);
    }
    if has_header(headers, "accept"@) {
        if accepts_text(headers) {
            let i = choose|i: int|
                0 <= i < headers.len() && same_ignoring_case(
                    (#[trigger] headers[i]).name@,
                    "accept"@,
                ) && headers[i].text is Some && list_covers_text(
                    headers[i].text->0@,
                );
            let raw = headers[i].text->0@;
            let k = choose|k: int|
                0 <= k < split(raw, ',').len() && covers_text(
                    media_of(#[trigger] split(raw, ',')[k]),
                );
            assert(is_text(media_of(split(headers[i].text->0@, ',')[k])));
        }
        if exists|i: int, k: int|
            0 <= i < headers.len() && same_ignoring_case((#[trigger] headers[i]).name@, "accept"@)
                && headers[i].text is Some && 0 <= k < split(headers[i].text->0@, ',').len()
                && is_text(media_of(#[trigger] split(headers[i].text->0@, ',')[k])) {
            let (i, k) = choose|i: int, k: int|
                0 <= i < headers.len() && same_ignoring_case(
                    (#[trigger] headers[i]).name@,
                    "accept"@,
                ) && headers[i].text is Some && 0 <= k < split(headers[i].text->0@, ',').len()
                    && is_text(media_of(#[trigger] split(headers[i].text->0@, ',')[k]));
            assert(covers_text(media_of(split(headers[i].text->0@, ',')[k])));
            assert(list_covers_text(headers[i].text->0@));
        }
    }
}

/// Whether a media type covers plain text.
pub open spec fn is_text(media: Seq<char>) -> bool {
    let m = lower_all(media);
    m == "*/*"@ || m == "text/*"@ || m == "text/plain"@
}

/// The weights of an offer are what stands behind `q=` in its parameters.
pub proof fn law_weights_of_an_offer(parts: Seq<Seq<char>>, i: int, w: Seq<char>)
    requires
        0 <= i <= parts.len(),
    ensures
        weights(parts, i).contains(w) <==> exists|k: int|
            i <= k < parts.len() && trim(#[trigger] parts[k]) == "q="@ + w,
    decreases parts.len() - i,
{
    reveal_strlit("q=");
    if i < parts.len() {
        law_weights_of_an_offer(parts, i + 1, w);
        let t = trim(parts[i]);
        let rest = weights(parts, i + 1);
        if starts_with(t, "q="@) {
            let all = seq![t.skip(2)] + rest;
            assert(t.take(2) == "q="@);
            assert("q="@ + t.skip(2) =~= t);
            if all.contains(w) {
                let k = choose|k: int| 0 <= k < all.len() && all[k] == w;
                if k > 0 {
                    assert(rest[k - 1] == w);
                }
            }
            if t == "q="@ + w {
                assert(t.skip(2) =~= w);
                assert(all[0] == w);
            }
            if rest.contains(w) {
                let k = choose|k: int| 0 <= k < rest.len() && rest[k] == w;
                assert(all[k + 1] == w);
            }
        } else if t == "q="@ + w {
            assert(t.take(2) =~= "q="@);
        }
    }
}

/// A publisher is refused exactly if its target, with a scheme where it had none, is no
/// URI or its method is none.
pub proof fn law_which_publishers_are_refused(config: HttpConfig, res: Result<HttpPublisher, String>)
    requires
        publisher_made(config, false, res),
    ensures
        res is Err <==> {
            ||| parts_of_uri(with_scheme(config.tls.required, config.url@)) is Err
            ||| config.method matches Some(m) && !is_method(m@)
        },
        res matches Ok(p) ==> p.url@ == with_scheme(config.tls.required, config.url@),
{
}

} // verus!
