//! What calls by descriptor and the set-up of endpoints keep.

use vstd::prelude::*;
use vstd::utf8::encode_utf8;

use crate::grpc::calls::present;
use crate::grpc::descriptors::{
    input_failure, method_at, method_refusal, output_failure, plain_file, plain_files, pool_error,
    publisher_refusal, request_text, service_found, set_of_files, shape, target_refusal, MethodView,
};
use crate::grpc::dynamic::{
    call_failure, failures_among, id_of_digest, is_outcome, matching, mismatching, position_after,
    readable, replies_in, response_metadata, response_seed, stream_id, stream_wait, CallEvent,
    CallResult, StreamWait,
};
use crate::grpc::setup::{
    bridge_made, consumer_mode, either, host_of, key_of, same_grpc_server, scheme_end, serving,
    shard_count, GrpcPublisher, GrpcServerKey,
};
use crate::grpc::sound::set_sound;
use crate::grpc::status::failure_of_status;
use crate::message::{
    law_reads_give_back_writes, lookup, with, CanonicalMessage, MessageView, Pairs, PublisherError,
};
use crate::models::GrpcConfig;
use crate::numbers::decimal;
use crate::text::{find_from, lemma_find_from, opt};
use crate::wire::{be_bytes, be_value, byte_power, law_be_bytes_read_back, varint};

verus! {

/// An endpoint runs a server where it is told to, calls by descriptor where it has
/// descriptors or asks for them, and subscribes otherwise.
pub proof fn law_modes(config: GrpcConfig)
    ensures
        config.server_mode ==> consumer_mode(config) is Server,
        !config.server_mode && (config.descriptor_set_bytes is Some || config.descriptor_set_path
            is Some || config.reflection) ==> consumer_mode(config) is Dynamic,
        !config.server_mode && config.descriptor_set_bytes is None && config.descriptor_set_path
            is None && !config.reflection ==> consumer_mode(config) is Client,
{
}

/// A limit that is set counts, and the general one stands in for one that is not.
pub proof fn law_limits(a: u64, general: Option<u64>)
    ensures
        either(Some(a), general) == Some(a),
        either(None, general) == general,
{
}

/// A queue has as many shards as the machine does at once, but at least one and at most
/// sixteen.
pub proof fn law_shards(parallelism: usize)
    ensures
        1 <= shard_count(parallelism) <= 16,
        1 <= parallelism <= 16 ==> shard_count(parallelism) == parallelism,
        parallelism > 16 ==> shard_count(parallelism) == 16,
{
}

/// A publisher over the Bridge protocol keeps its topic, or the default one, and its
/// limits. Its connection is shared unless that is switched off. Settings of calls that
/// it would not send are refused.
pub proof fn law_bridge_publishers(config: GrpcConfig, res: Result<GrpcPublisher, String>)
    requires
        bridge_made(config, res),
    ensures
        res is Ok <==> {
            &&& config.metadata@.len() == 0
            &&& config.binary_metadata@.len() == 0
            &&& config.bearer_token is None
            &&& config.api_key is None
        },
        res matches Ok(p) ==> {
            &&& config.topic matches Some(t) ==> p.topic@ == t@
            &&& config.topic is None ==> p.topic@ == "default"@
            &&& config.request_timeout_ms is Some ==> p.request_timeout_ms
                == config.request_timeout_ms
            &&& config.request_timeout_ms is None ==> p.request_timeout_ms == config.timeout_ms
            &&& config.overall_timeout_ms is Some ==> p.overall_timeout_ms
                == config.overall_timeout_ms
            &&& config.shared == Some(false) ==> !p.shared
            &&& config.shared != Some(false) ==> p.shared
        },
{
}

/// The settings of calls that are present are named in their order.
pub proof fn law_present_settings(config: GrpcConfig)
    ensures
        present(config).contains("metadata"@) <== config.metadata@.len() > 0,
        present(config).contains("binary_metadata"@) <== config.binary_metadata@.len() > 0,
        present(config).contains("bearer_token"@) <== config.bearer_token is Some,
        present(config).contains("api_key"@) <== config.api_key is Some,
        present(config).len() <= 4,
{
    let p = present(config);
    let a: int = if config.metadata@.len() > 0 {
        1
    } else {
        0
    };
    let b: int = if config.binary_metadata@.len() > 0 {
        a + 1
    } else {
        a
    };
    let c: int = if config.bearer_token is Some {
        b + 1
    } else {
        b
    };
    if config.metadata@.len() > 0 {
        assert(p[0] == "metadata"@);
    }
    if config.binary_metadata@.len() > 0 {
        assert(p[a] == "binary_metadata"@);
    }
    if config.bearer_token is Some {
        assert(p[b] == "bearer_token"@);
    }
    if config.api_key is Some {
        assert(p[c] == "api_key"@);
    }
}

/// The address in a URL is what stands between its scheme and its path, with or without
/// either.
pub proof fn law_addresses(scheme: Seq<char>, host: Seq<char>, path: Seq<char>)
    requires
        !scheme.contains(':'),
        !host.contains('/'),
        path.len() == 0 || path[0] == '/',
    ensures
        host_of(scheme + "://"@ + host + path) == host,
        !host.contains(':') && path.len() == 0 ==> host_of(host) == host,
{
    reveal_strlit("://");
    let url = scheme + "://"@ + host + path;
    let n = scheme.len() as int;
    assert(url[n] == ':' && url[n + 1] == '/' && url[n + 2] == '/');
    lemma_scheme(url, 0, n);
    let rest = url.skip(n + 3);
    assert(rest =~= host + path);
    lemma_host(host, path);
    assert(rest.take(host.len() as int) =~= host);
    if !host.contains(':') && path.len() == 0 {
        lemma_no_scheme(host, 0);
        assert(host.skip(0) =~= host);
        assert(host + path =~= host);
        assert(host.take(host.len() as int) =~= host);
    }
}

proof fn lemma_scheme(url: Seq<char>, i: int, at: int)
    requires
        0 <= i <= at,
        at + 3 <= url.len(),
        url[at] == ':' && url[at + 1] == '/' && url[at + 2] == '/',
        forall|k: int| i <= k < at ==> url[k] != ':',
    ensures
        scheme_end(url, i) == at + 3,
    decreases at - i,
{
    if i < at {
        lemma_scheme(url, i + 1, at);
    }
}

proof fn lemma_no_scheme(url: Seq<char>, i: int)
    requires
        0 <= i,
        !url.contains(':'),
    ensures
        scheme_end(url, i) == 0,
    decreases url.len() - i,
{
    if i + 3 <= url.len() {
        if url[i] == ':' {
            assert(url.contains(':'));
        }
        lemma_no_scheme(url, i + 1);
    }
}

proof fn lemma_host(host: Seq<char>, path: Seq<char>)
    requires
        !host.contains('/'),
        path.len() == 0 || path[0] == '/',
    ensures
        find_from(host + path, '/', 0) == host.len(),
{
    let s = host + path;
    lemma_find_from(s, '/', 0);
    let p = find_from(s, '/', 0);
    if p < host.len() {
        assert(host[p] == '/');
    }
    if p > host.len() {
        assert(s[host.len() as int] == '/');
    }
}

/// A running server is found by the address that it listens on.
pub proof fn law_servers_are_found_by_address(
    servers: Seq<GrpcServerKey>,
    addr: Seq<char>,
    i: int,
)
    requires
        0 <= i <= servers.len(),
    ensures
        i <= serving(servers, addr, i) <= servers.len(),
        serving(servers, addr, i) < servers.len() ==> servers[serving(
            servers,
            addr,
            i,
        )].listen_addr@ == addr,
        forall|k: int|
            i <= k < serving(servers, addr, i) ==> (#[trigger] servers[k]).listen_addr@ != addr,
    decreases servers.len() - i,
{
    if i < servers.len() && servers[i].listen_addr@ != addr {
        law_servers_are_found_by_address(servers, addr, i + 1);
    }
}

/// A call by descriptor needs a service, a method and a source of descriptors, and
/// nothing else.
pub proof fn law_what_calls_need(config: GrpcConfig)
    ensures
        target_refusal(config) is None <==> config.service_name is Some && config.method_name
            is Some && (config.descriptor_set_bytes is Some || config.descriptor_set_path is Some
            || config.reflection),
        config.request is None ==> request_text(config) == "{}"@,
        config.request matches Some(r) ==> request_text(config) == r@,
{
}

/// The method that is called is the first of its name.
pub proof fn law_methods_are_found_by_name(
    methods: Seq<(Seq<char>, bool, bool, Seq<char>)>,
    name: Seq<char>,
    i: int,
)
    requires
        0 <= i <= methods.len(),
    ensures
        i <= method_at(methods, name, i) <= methods.len(),
        method_at(methods, name, i) < methods.len() ==> methods[method_at(methods, name, i)].0
            == name,
        forall|k: int| i <= k < method_at(methods, name, i) ==> (#[trigger] methods[k]).0 != name,
    decreases methods.len() - i,
{
    if i < methods.len() && methods[i].0 != name {
        law_methods_are_found_by_name(methods, name, i + 1);
    }
}

/// A method can be published to exactly if it does not stream responses and no request
/// is configured for it, for the messages are its requests. How its requests and
/// responses come has a name.
pub proof fn law_what_can_be_published_to(config: GrpcConfig, method: MethodView)
    ensures
        publisher_refusal(config, method) is None <==> !method.server_streaming && (
        config.request matches Some(r) ==> r@ == "null"@),
        shape(false, false) == "unary"@,
        shape(true, false) == "client-streaming"@,
        shape(false, true) == "server-streaming"@,
        shape(true, true) == "bidirectional-streaming"@,
{
}

/// A payload that does not match, and a response that does not read, would fail again; a
/// service that is not ready, or a call that took too long, may not. A refused call
/// fails as its status says.
pub proof fn law_how_calls_fail(
    method: MethodView,
    why: Seq<char>,
    decoding: bool,
    event: CallEvent,
)
    ensures
        input_failure(method, why) is NonRetryable,
        output_failure(decoding, why) is NonRetryable,
        event is NotReady || event is TimedOut ==> call_failure(event) is Retryable,
        event matches CallEvent::Refused(s) ==> call_failure(event) == failure_of_status(s@),
{
}

/// A response names its service, its method and its position, and says that it cannot be
/// acknowledged. Its identifier is the beginning of its digest.
pub proof fn law_responses_name_their_call(
    service: Seq<char>,
    method: Seq<char>,
    index: u64,
    digest: Seq<u8>,
)
    ensures
        lookup(response_metadata(service, method, index), "grpc.service"@) == Some(service),
        lookup(response_metadata(service, method, index), "grpc.method"@) == Some(method),
        lookup(response_metadata(service, method, index), "grpc.response_index"@) == Some(
            decimal(index as nat),
        ),
        lookup(response_metadata(service, method, index), "grpc.ack_guarantee"@) == Some("none"@),
        id_of_digest(digest) == be_value(digest.take(16)),
{
    reveal_strlit("grpc.service");
    reveal_strlit("grpc.method");
    reveal_strlit("grpc.response_index");
    reveal_strlit("grpc.ack_guarantee");
    assert("grpc.service"@.len() == 12);
    assert("grpc.method"@.len() == 11);
    assert("grpc.response_index"@.len() == 19);
    assert("grpc.ack_guarantee"@.len() == 18);
    let none = Pairs::empty();
    law_reads_give_back_writes(none, "grpc.service"@, service);
    let a = with(none, "grpc.service"@, service);
    law_reads_give_back_writes(a, "grpc.method"@, method);
    let b = with(a, "grpc.method"@, method);
    law_reads_give_back_writes(b, "grpc.response_index"@, decimal(index as nat));
    let c = with(b, "grpc.response_index"@, decimal(index as nat));
    law_reads_give_back_writes(c, "grpc.ack_guarantee"@, "none"@);
}

/// A response has the position behind those before it. Positions stop at the largest
/// number.
pub proof fn law_positions_count_up(start: u64, n: int)
    requires
        0 <= n,
    ensures
        start + n <= u64::MAX ==> position_after(start, n) == start + n,
        start + n > u64::MAX ==> position_after(start, n) == u64::MAX,
{
}

/// A batch holds every response that reads, and no other.
pub proof fn law_readable_responses_are_kept(method: MethodView, raw: Seq<Seq<u8>>, n: int, i: int)
    requires
        0 <= n <= raw.len(),
    ensures
        readable(method, raw, n).contains(i) <==> 0 <= i < n && method.outputs(raw[i]) is Ok,
    decreases n,
{
    if n > 0 {
        law_readable_responses_are_kept(method, raw, n - 1, i);
        let rest = readable(method, raw, n - 1);
        let out = readable(method, raw, n);
        if rest.contains(i) {
            let w = choose|w: int| 0 <= w < rest.len() && rest[w] == i;
            assert(out[w] == i);
        }
        if i == n - 1 && method.outputs(raw[i]) is Ok {
            assert(out[rest.len() as int] == i);
        }
        if out.contains(i) {
            let w = choose|w: int| 0 <= w < out.len() && out[w] == i;
            if w < rest.len() {
                assert(rest[w] == i);
            }
        }
    }
}

/// The replies of a batch are those that came, and its failures those of the messages
/// that got none, both in the order of the batch.
pub proof fn law_calls_keep_their_order(a: Seq<CallResult>, b: Seq<CallResult>, r: CallResult)
    ensures
        replies_in(a + b) == replies_in(a) + replies_in(b),
        failures_among(a + b) == failures_among(a) + failures_among(b),
        match r.outcome {
            Ok(m) => replies_in(seq![r]) == seq![m@] && failures_among(seq![r]).len() == 0,
            Err(e) => replies_in(seq![r]).len() == 0 && failures_among(seq![r]) == seq![
                (r.message@, e@),
            ],
        },
    decreases b.len(),
{
    reveal_with_fuel(replies_in, 2);
    reveal_with_fuel(failures_among, 2);
    assert(seq![r].drop_last() =~= seq![]);
    assert(seq![r].last() == r);
    match r.outcome {
        Ok(m) => {
            assert(replies_in(seq![r]) =~= seq![m@]);
        },
        Err(e) => {
            assert(failures_among(seq![r]) =~= seq![(r.message@, e@)]);
        },
    }
    if b.len() == 0 {
        assert(a + b =~= a);
        assert(replies_in(a) + replies_in(b) =~= replies_in(a));
        assert(failures_among(a) + failures_among(b) =~= failures_among(a));
    } else {
        law_calls_keep_their_order(a, b.drop_last(), r);
        assert((a + b).drop_last() =~= a + b.drop_last());
        assert((a + b).last() == b.last());
        assert(replies_in(a + b) =~= replies_in(a) + replies_in(b));
        assert(failures_among(a + b) =~= failures_among(a) + failures_among(b));
    }
}

/// Of a batch that is streamed, the messages whose payloads match are sent, and the
/// others fail for good, both in the order of the batch. The one reply answers under the
/// identifier of the first message.
pub proof fn law_streams_keep_their_order(
    method: MethodView,
    a: Seq<MessageView>,
    b: Seq<MessageView>,
    m: MessageView,
    streamed: Seq<CanonicalMessage>,
)
    ensures
        matching(method, a + b) == matching(method, a) + matching(method, b),
        mismatching(method, a + b) == mismatching(method, a) + mismatching(method, b),
        match method.inputs(m.payload) {
            Ok(_) => matching(method, seq![m]) == seq![m] && mismatching(method, seq![m]).len()
                == 0,
            Err(why) => matching(method, seq![m]).len() == 0 && mismatching(method, seq![m]).len()
                == 1 && mismatching(method, seq![m])[0].0 == m && mismatching(method, seq![m])[0].1
                is NonRetryable,
        },
        streamed.len() > 0 ==> stream_id(streamed) == Some(streamed[0].message_id),
        streamed.len() == 0 ==> stream_id(streamed) is None,
    decreases b.len(),
{
    reveal_with_fuel(matching, 2);
    reveal_with_fuel(mismatching, 2);
    assert(seq![m].drop_last() =~= seq![]);
    assert(seq![m].last() == m);
    match method.inputs(m.payload) {
        Ok(_) => {
            assert(matching(method, seq![m]) =~= seq![m]);
        },
        Err(why) => {
            assert(mismatching(method, seq![m]) =~= seq![(m, input_failure(method, why))]);
        },
    }
    if b.len() == 0 {
        assert(a + b =~= a);
        assert(matching(method, a) + matching(method, b) =~= matching(method, a));
        assert(mismatching(method, a) + mismatching(method, b) =~= mismatching(method, a));
    } else {
        law_streams_keep_their_order(method, a, b.drop_last(), m, streamed);
        assert((a + b).drop_last() =~= a + b.drop_last());
        assert((a + b).last() == b.last());
        assert(matching(method, a + b) =~= matching(method, a) + matching(method, b));
        assert(mismatching(method, a + b) =~= mismatching(method, a) + mismatching(method, b));
    }
}

/// A batch waits for its first response as long as a stream may stay silent, and then
/// fifteen milliseconds for each further one, until it is full; never beyond the limit
/// of the whole call.
pub proof fn law_how_long_batches_wait(
    taken: usize,
    max: usize,
    idle: Option<u128>,
    left: Option<u128>,
)
    requires
        max > 0,
        left != Some(0u128),
    ensures
        taken >= max ==> stream_wait(taken, max, idle, left) is Full,
        taken == 0 ==> (stream_wait(taken, max, idle, left) matches StreamWait::First(limit) && {
            &&& left is None ==> limit == idle
            &&& idle is None ==> limit == left
            &&& idle is Some && left is Some ==> limit is Some && (limit == idle || limit == left)
                && limit->0 <= idle->0 && limit->0 <= left->0
        }),
        0 < taken < max ==> (stream_wait(taken, max, idle, left) matches StreamWait::More {
            limit,
            ends_batch,
        } && {
            &&& left is None || left->0 >= 15_000_000 ==> limit == 15_000_000 && ends_batch
            &&& left is Some && left->0 < 15_000_000 ==> limit == left->0 && !ends_batch
        }),
        taken < max ==> stream_wait(taken, max, idle, Some(0u128)) is Expired,
{
}

/// A descriptor set holds its files one behind the other, each with its field number and
/// its length in front. Every file is taken, as far as it is known, and one that is none
/// fails the set.
pub proof fn law_sets_hold_their_files(a: Seq<Seq<u8>>, f: Seq<u8>, n: nat)
    requires
        n <= a.len(),
    ensures
        set_of_files(a.push(f)) == set_of_files(a) + seq![10u8] + varint(f.len()) + f,
        set_of_files(seq![]).len() == 0,
        match plain_files(a, n) {
            Ok(files) => files.len() == n && forall|i: int|
                0 <= i < n ==> plain_file(a[i]) == Ok::<Seq<u8>, Seq<char>>(#[trigger] files[i]),
            Err(why) => exists|i: int|
                0 <= i < n && plain_file(#[trigger] a[i]) == Err::<Seq<u8>, Seq<char>>(why),
        },
    decreases n,
{
    assert(a.push(f).drop_last() =~= a);
    assert(a.push(f).last() == f);
    if n > 0 {
        law_sets_hold_their_files(a, f, (n - 1) as nat);
        if plain_files(a, (n - 1) as nat) is Err {
            let why = plain_files(a, (n - 1) as nat)->Err_0;
            let i = choose|i: int|
                0 <= i < n - 1 && plain_file(#[trigger] a[i]) == Err::<Seq<u8>, Seq<char>>(why);
            assert(plain_file(a[i]) == Err::<Seq<u8>, Seq<char>>(why));
        } else if plain_file(a[n - 1]) is Err {
            assert(plain_files(a, n) == Err::<Seq<Seq<u8>>, Seq<char>>(
                plain_file(a[n - 1])->Err_0,
            ));
        }
    }
}

/// Two endpoints share a server only if everything that shapes it is the same.
pub proof fn law_which_servers_are_shared(a: GrpcServerKey, b: GrpcServerKey)
    ensures
        same_grpc_server(a, a),
        same_grpc_server(a, b) == same_grpc_server(b, a),
        same_grpc_server(a, b) ==> a.listen_addr@ == b.listen_addr@ && a.tls.required
            == b.tls.required && opt(a.tls.cert_file) == opt(b.tls.cert_file) && opt(
            a.tls.key_file,
        ) == opt(b.tls.key_file) && a.request_timeout_ms == b.request_timeout_ms
            && a.initial_stream_window_size == b.initial_stream_window_size
            && a.initial_connection_window_size == b.initial_connection_window_size
            && a.concurrency_limit_per_connection == b.concurrency_limit_per_connection
            && a.http2_keepalive_interval_ms == b.http2_keepalive_interval_ms
            && a.http2_keepalive_timeout_ms == b.http2_keepalive_timeout_ms
            && a.max_decoding_message_size == b.max_decoding_message_size,
{
}

/// A server has the settings of the configuration that it is started for.
pub proof fn law_servers_have_their_settings(
    key: GrpcServerKey,
    config: GrpcConfig,
    addr: Seq<char>,
)
    requires
        key_of(key, config, addr),
    ensures
        key.listen_addr@ == addr,
        config.request_timeout_ms is Some ==> key.request_timeout_ms == config.request_timeout_ms,
        config.request_timeout_ms is None ==> key.request_timeout_ms == config.timeout_ms,
        key.tls.required == config.tls.required,
        key.max_decoding_message_size == config.max_decoding_message_size,
        key.initial_stream_window_size == config.initial_stream_window_size,
        key.initial_connection_window_size == config.initial_connection_window_size,
        key.concurrency_limit_per_connection == config.concurrency_limit_per_connection,
        key.http2_keepalive_interval_ms == config.http2_keepalive_interval_ms,
        key.http2_keepalive_timeout_ms == config.http2_keepalive_timeout_ms,
{
}

/// A method is found exactly if its set can be worked with and holds the service, and
/// that has a method of the name.
pub proof fn law_which_methods_are_found(set: Seq<u8>, service: Seq<char>, method: Seq<char>)
    ensures
        method_refusal(set, service, method) is None <==> {
            &&& set_sound(set)
            &&& pool_error(set) is None
            &&& service_found(set, service) matches Some(found)
            &&& exists|i: int| 0 <= i < found.1.len() && (#[trigger] found.1[i]).0 == method
        },
{
    if service_found(set, service) is Some {
        let methods = (service_found(set, service)->0).1;
        law_methods_are_found_by_name(methods, method, 0);
        let i = method_at(methods, method, 0);
        if i < methods.len() {
            assert(methods[i].0 == method);
        }
    }
}

/// The reply to a call is a message under the identifier of its request, with one of the
/// texts of the response as its payload. A response that does not read fails for good,
/// and without a response the call fails as what came of it says.
pub proof fn law_replies_answer_their_request(
    method: MethodView,
    id: u128,
    event: CallEvent,
    res: Result<CanonicalMessage, PublisherError>,
)
    requires
        is_outcome(method, Some(id), event, res),
    ensures
        event matches CallEvent::Reply(bytes) ==> match res {
            Ok(m) => {
                &&& m.message_id == id
                &&& method.outputs(bytes@) matches Ok(all) && all.contains(m.payload@)
                &&& m.metadata@.len() == 0
            },
            Err(e) => method.outputs(bytes@) is Err && e@ is NonRetryable,
        },
        !(event is Reply) ==> res is Err && res->Err_0@ == call_failure(event),
{
}

/// Two responses of a method with one seed have the same position and the same bytes.
pub proof fn law_seeds_tell_responses_apart(
    service: Seq<char>,
    method: Seq<char>,
    i: u64,
    a: Seq<u8>,
    j: u64,
    b: Seq<u8>,
)
    requires
        response_seed(service, method, i, a) == response_seed(service, method, j, b),
    ensures
        i == j,
        a == b,
{
    let front = encode_utf8("mqbridge.dynamic-response.v1"@) + seq![0u8] + encode_utf8(service)
        + seq![0u8] + encode_utf8(method) + seq![0u8];
    let n = front.len() as int;
    let s = response_seed(service, method, i, a);
    let t = response_seed(service, method, j, b);
    law_be_bytes_read_back(i as nat, 8);
    law_be_bytes_read_back(j as nat, 8);
    assert(byte_power(8) == 0x1_0000_0000_0000_0000int) by {
        reveal_with_fuel(byte_power, 9);
    }
    assert(s.subrange(n, n + 8) =~= be_bytes(i as nat, 8));
    assert(t.subrange(n, n + 8) =~= be_bytes(j as nat, 8));
    assert(s.skip(n + 8) =~= a);
    assert(t.skip(n + 8) =~= b);
}

} // verus!
