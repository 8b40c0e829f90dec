//! Setting up gRPC endpoints.

use vstd::prelude::*;
use vstd::slice::slice_subrange;

use crate::grpc::calls::{present, reject_unsupported_call_metadata, unsupported_text};
use crate::grpc::router::{normal_topic, normalize_grpc_topic};
use crate::http::publisher::with_scheme;
use crate::http::setup::{same_tls, same_tls_values};
use crate::ids::{fresh_id_decimal, is_v7_decimal};
use crate::models::{GrpcConfig, TlsConfig};
use crate::status::{
    optional_detail, plain_status, push_detail, reachable, text_detail, text_or_absent, DetailView,
    EndpointStatus,
};
use crate::text::{
    chars_of, find_char, find_from, join2, join3, opt, same, starts_with, string_of,
    text_starts_with,
};

verus! {

/// How a gRPC endpoint consumes.
#[derive(Debug, Clone, Copy, PartialEq, Eq, Structural)]
pub enum GrpcConsumerMode {
    /// It subscribes to a Bridge server.
    Client,
    /// It calls a method that a descriptor describes.
    Dynamic,
    /// It runs a Bridge server.
    Server,
}

/// Whether a source of descriptors is configured.
pub open spec fn describes_calls(config: GrpcConfig) -> bool {
    config.descriptor_set_bytes is Some || config.descriptor_set_path is Some || config.reflection
}

/// How a gRPC endpoint consumes.
pub open spec fn consumer_mode(config: GrpcConfig) -> GrpcConsumerMode {
    if config.server_mode {
        GrpcConsumerMode::Server
    } else if describes_calls(config) {
        GrpcConsumerMode::Dynamic
    } else {
        GrpcConsumerMode::Client
    }
}

/// A gRPC consumer: how it consumes, and from where.
#[derive(Debug)]
pub struct GrpcConsumer {
    pub mode: GrpcConsumerMode,
    pub url: String,
}

impl GrpcConsumer {
    /// The consumer that a configuration asks for.
    pub fn new(config: &GrpcConfig) -> (c: Self)
        ensures
            c.mode == consumer_mode(*config),
            c.url@ == with_scheme(config.tls.required, config.url@),
    {
        let mode = if config.server_mode {
            GrpcConsumerMode::Server
        } else if has_descriptors(config) {
            GrpcConsumerMode::Dynamic
        } else {
            GrpcConsumerMode::Client
        };
        GrpcConsumer { mode, url: config.tls.normalize_url(config.url.as_str()) }
    }

    /// Whether dropping a read of the consumer loses nothing.
    pub fn is_cancel_safe(&self) -> (res: bool)
        ensures
            res == (self.mode == GrpcConsumerMode::Server),
    {
        self.mode == GrpcConsumerMode::Server
    }

    /// What the consumer reports, given the address of its embedded server and whether
    /// that stopped. Only an embedded server can be seen to have stopped; a stream of a
    /// client shows with the next read.
    pub fn status(&self, bound_addr: &Option<String>, server_stopped: bool) -> (s: EndpointStatus)
        ensures
            s@ == plain_status(
                self.url@,
                if self.mode == GrpcConsumerMode::Server && server_stopped {
                    Some("gRPC server task stopped"@)
                } else {
                    None
                },
                match self.mode {
                    GrpcConsumerMode::Server => seq![
                        ("mode"@, DetailView::Text("server"@)),
                        ("bound_addr"@, text_or_absent(opt(*bound_addr))),
                    ],
                    GrpcConsumerMode::Client => seq![("mode"@, DetailView::Text("client"@))],
                    GrpcConsumerMode::Dynamic => seq![
                        ("mode"@, DetailView::Text("dynamic-client"@)),
                        ("acknowledgement_guarantee"@, DetailView::Text("none"@)),
                    ],
                },
            ),
    {
        let mut s = reachable(self.url.as_str());
        match self.mode {
            GrpcConsumerMode::Server => {
                push_detail(&mut s.details, "mode", text_detail("server"));
                push_detail(&mut s.details, "bound_addr", optional_detail(bound_addr));
                if server_stopped {
                    s.healthy = false;
                    s.error = Some("gRPC server task stopped".to_owned());
                }
            },
            GrpcConsumerMode::Client => {
                push_detail(&mut s.details, "mode", text_detail("client"));
            },
            GrpcConsumerMode::Dynamic => {
                push_detail(&mut s.details, "mode", text_detail("dynamic-client"));
                push_detail(&mut s.details, "acknowledgement_guarantee", text_detail("none"));
            },
        }
        s
    }
}

fn has_descriptors(config: &GrpcConfig) -> (res: bool)
    ensures
        res == describes_calls(*config),
{
    config.descriptor_set_bytes.is_some() || config.descriptor_set_path.is_some()
        || config.reflection
}

/// How a gRPC endpoint publishes.
#[derive(Debug)]
pub enum GrpcOutput {
    /// It calls a method that a descriptor describes, at this target.
    Dynamic(String),
    /// It publishes over the Bridge protocol.
    Bridge(GrpcPublisher),
}

/// Decides how a gRPC endpoint publishes.
pub fn create_grpc_publisher(config: &GrpcConfig) -> (res: Result<GrpcOutput, String>)
    ensures
        match res {
            Ok(GrpcOutput::Dynamic(url)) => describes_calls(*config) && url@ == with_scheme(
                config.tls.required,
                config.url@,
            ),
            Ok(GrpcOutput::Bridge(p)) => !describes_calls(*config) && bridge_made(*config, Ok(p)),
            Err(e) => !describes_calls(*config) && bridge_made(*config, Err(e)),
        },
{
    if has_descriptors(config) {
        return Ok(GrpcOutput::Dynamic(config.tls.normalize_url(config.url.as_str())));
    }
    match GrpcPublisher::new(config) {
        Ok(p) => Ok(GrpcOutput::Bridge(p)),
        Err(e) => Err(e),
    }
}

/// The first of two limits that is set.
pub open spec fn either(a: Option<u64>, b: Option<u64>) -> Option<u64> {
    if a is Some {
        a
    } else {
        b
    }
}

fn first_set(a: Option<u64>, b: Option<u64>) -> (out: Option<u64>)
    ensures
        out == either(a, b),
{
    if a.is_some() {
        a
    } else {
        b
    }
}

/// The limits of the calls of an endpoint, in milliseconds.
#[derive(Debug, Clone, Copy, PartialEq, Eq, Structural)]
pub struct Deadlines {
    pub connect: Option<u64>,
    pub request: Option<u64>,
    pub overall: Option<u64>,
}

/// The limits of the calls of an endpoint. The general limit stands in for one that
/// is not set; but the whole of a dynamic call is limited only where that is asked
/// for.
pub fn deadlines(config: &GrpcConfig, dynamic: bool) -> (d: Deadlines)
    ensures
        d.connect == either(config.connect_timeout_ms, config.timeout_ms),
        d.request == either(config.request_timeout_ms, config.timeout_ms),
        d.overall == (if dynamic {
            config.overall_timeout_ms
        } else {
            either(config.overall_timeout_ms, config.timeout_ms)
        }),
{
    Deadlines {
        connect: first_set(config.connect_timeout_ms, config.timeout_ms),
        request: first_set(config.request_timeout_ms, config.timeout_ms),
        overall: if dynamic {
            config.overall_timeout_ms
        } else {
            first_set(config.overall_timeout_ms, config.timeout_ms)
        },
    }
}

/// What a client subscribes to, and under which identifier where one is configured.
#[derive(Debug)]
pub struct SubscribePlan {
    pub topic: String,
    pub consumer_id: String,
}

/// Plans the subscription of a client. Without a configured identifier it gets one
/// of its own, so that consumers of one topic do not take each other's
/// acknowledgements.
pub fn plan_subscription(config: &GrpcConfig) -> (res: Result<SubscribePlan, String>)
    ensures
        match res {
            Ok(plan) => {
                &&& present(*config).len() == 0
                &&& plan.topic@ == (match config.topic {
                    Some(t) => t@,
                    None => "default"@,
                })
                &&& match config.consumer_id {
                    Some(id) => plan.consumer_id@ == id@,
                    None => is_v7_decimal(plan.consumer_id@),
                }
            },
            Err(e) => present(*config).len() > 0 && e@ == unsupported_text(
                "Bridge client"@,
                present(*config),
            ),
        },
{
    reject_unsupported_call_metadata(config, "Bridge client")?;
    let topic = topic_or_default(config);
    let consumer_id = match &config.consumer_id {
        Some(id) => id.clone(),
        None => fresh_id_decimal(),
    };
    Ok(SubscribePlan { topic, consumer_id })
}

fn topic_or_default(config: &GrpcConfig) -> (topic: String)
    ensures
        topic@ == (match config.topic {
            Some(t) => t@,
            None => "default"@,
        }),
{
    match &config.topic {
        Some(t) => t.clone(),
        None => "default".to_owned(),
    }
}

/// The settings of a Bridge publisher.
#[derive(Debug)]
pub struct GrpcPublisher {
    pub url: String,
    pub topic: String,
    pub request_timeout_ms: Option<u64>,
    pub overall_timeout_ms: Option<u64>,
    pub shared: bool,
}

/// Whether `res` is what a configuration makes of a Bridge publisher. Its connection
/// is shared unless that is switched off.
pub open spec fn bridge_made(config: GrpcConfig, res: Result<GrpcPublisher, String>) -> bool {
    match res {
        Ok(p) => {
            &&& present(config).len() == 0
            &&& p.url@ == with_scheme(config.tls.required, config.url@)
            &&& p.topic@ == (match config.topic {
                Some(t) => t@,
                None => "default"@,
            })
            &&& p.request_timeout_ms == either(config.request_timeout_ms, config.timeout_ms)
            &&& p.overall_timeout_ms == either(config.overall_timeout_ms, config.timeout_ms)
            &&& p.shared == (config.shared != Some(false))
        },
        Err(e) => present(config).len() > 0 && e@ == unsupported_text(
            "Bridge publisher"@,
            present(config),
        ),
    }
}

impl GrpcPublisher {
    /// The settings of a Bridge publisher.
    pub fn new(config: &GrpcConfig) -> (res: Result<Self, String>)
        ensures
            bridge_made(*config, res),
    {
        reject_unsupported_call_metadata(config, "Bridge publisher")?;
        let d = deadlines(config, false);
        Ok(
            GrpcPublisher {
                url: config.tls.normalize_url(config.url.as_str()),
                topic: topic_or_default(config),
                request_timeout_ms: d.request,
                overall_timeout_ms: d.overall,
                shared: match config.shared {
                    Some(b) => b,
                    None => true,
                },
            },
        )
    }

    /// What the publisher reports.
    pub fn status(&self) -> (s: EndpointStatus)
        ensures
            s@ == plain_status(self.url@, None, Seq::empty()),
    {
        reachable(self.url.as_str())
    }
}

/// What tells two embedded servers apart.
#[derive(Debug)]
pub struct GrpcServerKey {
    pub listen_addr: String,
    pub tls: TlsConfig,
    pub request_timeout_ms: Option<u64>,
    pub initial_stream_window_size: Option<u32>,
    pub initial_connection_window_size: Option<u32>,
    pub concurrency_limit_per_connection: Option<usize>,
    pub http2_keepalive_interval_ms: Option<u64>,
    pub http2_keepalive_timeout_ms: Option<u64>,
    pub max_decoding_message_size: Option<usize>,
}

/// Whether two keys are for the same server.
pub open spec fn same_grpc_server(a: GrpcServerKey, b: GrpcServerKey) -> bool {
    &&& a.listen_addr@ == b.listen_addr@
    &&& same_tls(a.tls, b.tls)
    &&& a.request_timeout_ms == b.request_timeout_ms
    &&& a.initial_stream_window_size == b.initial_stream_window_size
    &&& a.initial_connection_window_size == b.initial_connection_window_size
    &&& a.concurrency_limit_per_connection == b.concurrency_limit_per_connection
    &&& a.http2_keepalive_interval_ms == b.http2_keepalive_interval_ms
    &&& a.http2_keepalive_timeout_ms == b.http2_keepalive_timeout_ms
    &&& a.max_decoding_message_size == b.max_decoding_message_size
}

fn is_same_grpc_server(a: &GrpcServerKey, b: &GrpcServerKey) -> (res: bool)
    ensures
        res == same_grpc_server(*a, *b),
{
    same(a.listen_addr.as_str(), b.listen_addr.as_str()) && same_tls_values(&a.tls, &b.tls)
        && a.request_timeout_ms == b.request_timeout_ms && a.initial_stream_window_size
        == b.initial_stream_window_size && a.initial_connection_window_size
        == b.initial_connection_window_size && a.concurrency_limit_per_connection
        == b.concurrency_limit_per_connection && a.http2_keepalive_interval_ms
        == b.http2_keepalive_interval_ms && a.http2_keepalive_timeout_ms
        == b.http2_keepalive_timeout_ms && a.max_decoding_message_size
        == b.max_decoding_message_size
}

/// Whether a key holds the settings of a configuration for an address.
pub open spec fn key_of(key: GrpcServerKey, config: GrpcConfig, addr: Seq<char>) -> bool {
    &&& key.listen_addr@ == addr
    &&& same_tls(key.tls, config.tls)
    &&& key.request_timeout_ms == either(config.request_timeout_ms, config.timeout_ms)
    &&& key.initial_stream_window_size == config.initial_stream_window_size
    &&& key.initial_connection_window_size == config.initial_connection_window_size
    &&& key.concurrency_limit_per_connection == config.concurrency_limit_per_connection
    &&& key.http2_keepalive_interval_ms == config.http2_keepalive_interval_ms
    &&& key.http2_keepalive_timeout_ms == config.http2_keepalive_timeout_ms
    &&& key.max_decoding_message_size == config.max_decoding_message_size
}

/// What a server consumer needs to start: which server, which topic, and how its
/// queue is split.
#[derive(Debug)]
pub struct ServerPlan {
    pub key: GrpcServerKey,
    pub topic: String,
    pub shards: usize,
    pub per_shard: usize,
}

/// How many shards a queue has on a machine that does so much at once.
pub open spec fn shard_count(parallelism: usize) -> int {
    if parallelism < 1 {
        1
    } else if parallelism > 16 {
        16
    } else {
        parallelism as int
    }
}

/// Plans a server consumer for an address that it listens on.
pub fn plan_server(config: &GrpcConfig, listen_addr: String, parallelism: usize) -> (res: Result<
    ServerPlan,
    String,
>)
    ensures
        match res {
            Ok(plan) => {
                &&& present(*config).len() == 0
                &&& key_of(plan.key, *config, listen_addr@)
                &&& plan.topic@ == normal_topic(opt(config.topic))
                &&& plan.shards as int == shard_count(parallelism)
                &&& plan.per_shard as int == 16384int / shard_count(parallelism)
                &&& plan.shards >= 1
                &&& plan.per_shard >= 1024
            },
            Err(e) => present(*config).len() > 0 && e@ == unsupported_text(
                "server"@,
                present(*config),
            ),
        },
{
    reject_unsupported_call_metadata(config, "server")?;
    let shards: usize = if parallelism < 1 {
        1
    } else if parallelism > 16 {
        16
    } else {
        parallelism
    };
    let per_shard: usize = 16384 / shards;
    assert(1024 <= 16384int / (shards as int)) by (nonlinear_arith)
        requires
            1 <= shards <= 16,
    ;
    let topic = match &config.topic {
        Some(t) => normalize_grpc_topic(Some(t.as_str())),
        None => normalize_grpc_topic(None),
    };
    let key = GrpcServerKey {
        listen_addr,
        tls: config.tls.copy(),
        request_timeout_ms: first_set(config.request_timeout_ms, config.timeout_ms),
        initial_stream_window_size: config.initial_stream_window_size,
        initial_connection_window_size: config.initial_connection_window_size,
        concurrency_limit_per_connection: config.concurrency_limit_per_connection,
        http2_keepalive_interval_ms: config.http2_keepalive_interval_ms,
        http2_keepalive_timeout_ms: config.http2_keepalive_timeout_ms,
        max_decoding_message_size: config.max_decoding_message_size,
    };
    Ok(ServerPlan { key, topic, shards, per_shard })
}

/// What a look at the running servers gives.
#[derive(Debug)]
pub enum GrpcServerLookup {
    /// The server at this position listens there with the same settings.
    Reuse(usize),
    /// A server listens there with other settings.
    Conflict(String),
    /// No server listens there.
    Absent,
}

/// The first server at or after `i` that listens on an address, or the length.
pub open spec fn serving(servers: Seq<GrpcServerKey>, addr: Seq<char>, i: int) -> int
    decreases servers.len() - i,
{
    if i >= servers.len() {
        servers.len() as int
    } else if servers[i].listen_addr@ == addr {
        i
    } else {
        serving(servers, addr, i + 1)
    }
}

/// Looks for a server that can be shared. An address with a server of other settings
/// cannot be.
pub fn find_shared_grpc_server(servers: &Vec<GrpcServerKey>, key: &GrpcServerKey) -> (res:
    GrpcServerLookup)
    ensures
        ({
            let i = serving(servers@, key.listen_addr@, 0);
            if i >= servers@.len() {
                res is Absent
            } else if same_grpc_server(servers@[i], *key) {
                res matches GrpcServerLookup::Reuse(k) && k == i
            } else {
                res matches GrpcServerLookup::Conflict(text) && text@ == "gRPC consumer "@
                    + key.listen_addr@ + " is already registered with different server settings"@
            }
        }),
{
    let mut i: usize = 0;
    while i < servers.len()
        invariant
            i <= servers@.len(),
            serving(servers@, key.listen_addr@, 0) == serving(
                servers@,
                key.listen_addr@,
                i as int,
            ),
        decreases servers@.len() - i,
    {
        if same(servers[i].listen_addr.as_str(), key.listen_addr.as_str()) {
            if is_same_grpc_server(&servers[i], key) {
                return GrpcServerLookup::Reuse(i);
            }
            return GrpcServerLookup::Conflict(
                join3(
                    "gRPC consumer ",
                    key.listen_addr.as_str(),
                    " is already registered with different server settings",
                ),
            );
        }
        i += 1;
    }
    GrpcServerLookup::Absent
}

/// Why a server cannot be started with this TLS configuration, if it cannot.
pub fn grpc_tls_refusal(tls: &TlsConfig) -> (res: Option<String>)
    ensures
        match res {
            Some(text) => tls.required && !(tls.cert_file is Some && tls.key_file is Some) && text@
                == "gRPC server TLS enabled but no cert/key provided in GrpcConfig"@,
            None => !tls.required || (tls.cert_file is Some && tls.key_file is Some),
        },
{
    if tls.required && !tls.is_tls_server_configured() {
        return Some("gRPC server TLS enabled but no cert/key provided in GrpcConfig".to_owned());
    }
    None
}

/// The position behind the first `://`, or zero without one.
pub open spec fn scheme_end(s: Seq<char>, i: int) -> int
    decreases s.len() - i,
{
    if i + 3 > s.len() {
        0
    } else if s[i] == ':' && s[i + 1] == '/' && s[i + 2] == '/' {
        i + 3
    } else {
        scheme_end(s, i + 1)
    }
}

/// The part of a URL that names its host and port: between the scheme and the path.
pub open spec fn host_of(url: Seq<char>) -> Seq<char> {
    let rest = url.skip(scheme_end(url, 0));
    rest.take(find_from(rest, '/', 0))
}

/// The part of a URL that names its host and port.
pub fn address_of(url: &str) -> (host: String)
    ensures
        host@ == host_of(url@),
{
    let all = chars_of(url);
    let mut start: usize = 0;
    let mut i: usize = 0;
    let mut found: bool = false;
    while i < all.len() && all.len() - i >= 3 && !found
        invariant
            i <= all@.len(),
            all@ == url@,
            start <= all@.len(),
            found ==> start == scheme_end(url@, 0),
            !found ==> start == 0 && scheme_end(url@, 0) == scheme_end(url@, i as int),
        decreases all@.len() - i, (if found {
            0int
        } else {
            1
        }),
    {
        if all[i] == ':' && all[i + 1] == '/' && all[i + 2] == '/' {
            start = i + 3;
            found = true;
        } else {
            i += 1;
        }
    }
    assert(start == scheme_end(url@, 0));
    let rest = slice_subrange(all.as_slice(), start, all.len());
    assert(rest@ =~= url@.skip(start as int));
    let end: usize = find_char(rest, '/', 0);
    let host = slice_subrange(rest, 0, end);
    assert(host@ =~= rest@.take(end as int));
    string_of(host)
}

/// Why a server address was refused, given what the address parser said.
pub fn bad_address(host: &str, why: &str) -> (text: String)
    ensures
        text@ == "Invalid gRPC server address '"@ + host@ + "': "@ + why@,
{
    let head = join3("Invalid gRPC server address '", host, "': ");
    join2(head.as_str(), why)
}

/// The services that share a listener.
#[derive(Debug, Clone, Copy, PartialEq, Eq, Structural)]
pub enum HostedService {
    Bridge,
    ReflectionV1,
    ReflectionV1Alpha,
}

pub const REFLECTION_V1_PREFIX: &'static str = "/grpc.reflection.v1.ServerReflection/";

pub const REFLECTION_V1ALPHA_PREFIX: &'static str = "/grpc.reflection.v1alpha.ServerReflection/";

/// The service that answers a path. Everything that no other service answers goes to
/// the Bridge.
pub fn service_for(path: &str) -> (service: HostedService)
    ensures
        service == (if starts_with(path@, REFLECTION_V1ALPHA_PREFIX@) {
            HostedService::ReflectionV1Alpha
        } else if starts_with(path@, REFLECTION_V1_PREFIX@) {
            HostedService::ReflectionV1
        } else {
            HostedService::Bridge
        }),
{
    if text_starts_with(path, REFLECTION_V1ALPHA_PREFIX) {
        HostedService::ReflectionV1Alpha
    } else if text_starts_with(path, REFLECTION_V1_PREFIX) {
        HostedService::ReflectionV1
    } else {
        HostedService::Bridge
    }
}

} // verus!
