//! Resolving references, and planning which consumer an input becomes.

use vstd::prelude::*;

use crate::checks::{
    consumer_refusal, consumer_refused, on_route, ref_missing_text, unsupported_text, ConfigError,
    Side,
};
use crate::models::{
    has_name, mongo_consume, policy_name, AmqpConfig, AwsConfig, ClickHouseConfig, Endpoint,
    EndpointType, FileConfig, GrpcConfig, HandlerId, HttpConfig, IbmMqConfig, KafkaConfig,
    MemoryConfig, Middleware, MongoConsume, MongoDbConfig, MqttConfig, NatsConfig,
    ObjectStoreConfig, PostgresCdcConfig, RedisStreamsConfig, Registry, SledConfig, SqlxConfig,
    StaticConfig, StreamBufferConfig, TlsConfig, WebSocketConfig, ZeroMqConfig,
};
use crate::text::{chars_of, join3, join5, same, stands_at, starts_with, trim, trim_chars};

verus! {

/// The name under which the bridge presents itself to brokers.
pub const APP_NAME: &'static str = "mq-bridge";

/// How many references are followed.
pub const MAX_REFERENCES: usize = 16;

/// What a chain of references leads to.
#[derive(Debug)]
pub struct ResolvedEndpoint<'a> {
    pub endpoint_type: &'a EndpointType,
    pub middlewares: Vec<&'a Middleware>,
    pub handler: Option<HandlerId>,
}

/// What a chain of references leads to: the type, the middlewares from the
/// outermost in, and the handler.
pub struct Resolution {
    pub endpoint_type: EndpointType,
    pub middlewares: Seq<Middleware>,
    pub handler: Option<HandlerId>,
}

impl<'a> View for ResolvedEndpoint<'a> {
    type V = Resolution;

    open spec fn view(&self) -> Resolution {
        Resolution {
            endpoint_type: *self.endpoint_type,
            middlewares: self.middlewares@.map_values(|m: &Middleware| *m),
            handler: self.handler,
        }
    }
}

/// The result of a resolution over mathematical values.
pub open spec fn resolved<'a>(r: Result<ResolvedEndpoint<'a>, ConfigError>) -> Result<
    Resolution,
    Seq<char>,
> {
    match r {
        Ok(e) => Ok(e@),
        Err(e) => Err(e.message@),
    }
}

/// The message for a reference that leads back to itself.
pub open spec fn circular_text(route: Seq<char>, name: Seq<char>) -> Seq<char> {
    "[route:"@ + route + "] Circular reference detected for endpoint '"@ + name + "'"@
}

/// Follows references from `endpoint`, past the names in `visited`. Each reference
/// puts its own middlewares outside those of what it refers to.
pub open spec fn resolution(
    registry: Registry,
    route: Seq<char>,
    endpoint: Endpoint,
    visited: Seq<Seq<char>>,
) -> Result<Resolution, Seq<char>>
    decreases MAX_REFERENCES + 1 - visited.len(),
{
    if visited.len() > MAX_REFERENCES {
        Err("Reference recursion depth exceeded limit of 16"@)
    } else if let EndpointType::Ref(name) = endpoint.endpoint_type {
        if visited.contains(name@) {
            Err(circular_text(route, name@))
        } else {
            match registry.endpoint(name@) {
                None => Err(ref_missing_text(route, name@, "' not found"@)),
                Some(target) => match resolution(registry, route, target, visited.push(name@)) {
                    Ok(r) => Ok(
                        Resolution {
                            endpoint_type: r.endpoint_type,
                            middlewares: endpoint.middlewares@ + r.middlewares,
                            handler: r.handler,
                        },
                    ),
                    Err(e) => Err(e),
                },
            }
        }
    } else {
        Ok(
            Resolution {
                endpoint_type: endpoint.endpoint_type,
                middlewares: endpoint.middlewares@,
                handler: endpoint.handler,
            },
        )
    }
}

/// A resolution never ends at a reference.
pub proof fn law_resolution_is_never_a_reference(
    registry: Registry,
    route: Seq<char>,
    endpoint: Endpoint,
    visited: Seq<Seq<char>>,
)
    ensures
        resolution(registry, route, endpoint, visited) matches Ok(r) ==> !(r.endpoint_type is Ref),
    decreases MAX_REFERENCES + 1 - visited.len(),
{
    if visited.len() <= MAX_REFERENCES {
        if let EndpointType::Ref(name) = endpoint.endpoint_type {
            if let Some(target) = registry.endpoint(name@) {
                law_resolution_is_never_a_reference(registry, route, target, visited.push(name@));
            }
        }
    }
}

/// A reference that leads back to a name already passed is refused.
pub proof fn law_circular_reference_is_refused(
    registry: Registry,
    route: Seq<char>,
    endpoint: Endpoint,
    visited: Seq<Seq<char>>,
)
    requires
        endpoint.endpoint_type matches EndpointType::Ref(name) && visited.contains(name@),
    ensures
        resolution(registry, route, endpoint, visited) is Err,
{
}

/// References to the middlewares of a vector, behind those of another.
pub fn append_refs<'a>(front: &'a Vec<Middleware>, back: Vec<&'a Middleware>) -> (out: Vec<
    &'a Middleware,
>)
    ensures
        out@.map_values(|m: &Middleware| *m) == front@ + back@.map_values(|m: &Middleware| *m),
{
    let mut out: Vec<&'a Middleware> = Vec::new();
    let mut i: usize = 0;
    while i < front.len()
        invariant
            i <= front@.len(),
            out@.len() == i,
            forall|k: int| 0 <= k < i ==> *#[trigger] out@[k] == front@[k],
        decreases front@.len() - i,
    {
        out.push(&front[i]);
        i += 1;
    }
    let mut tail = back;
    out.append(&mut tail);
    assert(out@.map_values(|m: &Middleware| *m) =~= front@ + back@.map_values(
        |m: &Middleware| *m,
    ));
    out
}

fn resolve_endpoint_recursive<'a>(
    registry: &'a Registry,
    endpoint: &'a Endpoint,
    route_name: &str,
    visited: Vec<&'a str>,
) -> (res: Result<ResolvedEndpoint<'a>, ConfigError>)
    requires
        visited@.len() <= MAX_REFERENCES + 1,
    ensures
        resolved(res) == resolution(
            *registry,
            route_name@,
            *endpoint,
            visited@.map_values(|s: &str| s@),
        ),
    decreases MAX_REFERENCES + 1 - visited@.len(),
{
    let ghost seen = visited@.map_values(|s: &str| s@);
    if visited.len() > MAX_REFERENCES {
        return Err(
            ConfigError { message: "Reference recursion depth exceeded limit of 16".to_owned() },
        );
    }
    if let EndpointType::Ref(name) = &endpoint.endpoint_type {
        let mut i: usize = 0;
        while i < visited.len()
            invariant
                i <= visited@.len(),
                visited@.len() <= MAX_REFERENCES,
                endpoint.endpoint_type == EndpointType::Ref(*name),
                seen == visited@.map_values(|s: &str| s@),
                forall|k: int| 0 <= k < i ==> #[trigger] seen[k] != name@,
            decreases visited@.len() - i,
        {
            if same(visited[i], name.as_str()) {
                assert(seen[i as int] == name@);
                return Err(
                    ConfigError {
                        message: join5(
                            "[route:",
                            route_name,
                            "] Circular reference detected for endpoint '",
                            name.as_str(),
                            "'",
                        ),
                    },
                );
            }
            i += 1;
        }
        let mut path = visited;
        path.push(name.as_str());
        assert(path@.map_values(|s: &str| s@) =~= seen.push(name@));
        match registry.get_endpoint(name.as_str()) {
            None => Err(
                ConfigError {
                    message: join5(
                        "[route:",
                        route_name,
                        "] Referenced endpoint '",
                        name.as_str(),
                        "' not found",
                    ),
                },
            ),
            Some(target) => {
                match resolve_endpoint_recursive(registry, target, route_name, path) {
                    Ok(r) => Ok(
                        ResolvedEndpoint {
                            endpoint_type: r.endpoint_type,
                            middlewares: append_refs(&endpoint.middlewares, r.middlewares),
                            handler: r.handler,
                        },
                    ),
                    Err(e) => Err(e),
                }
            },
        }
    } else {
        let none: Vec<&'a Middleware> = Vec::new();
        let middlewares = append_refs(&endpoint.middlewares, none);
        assert(middlewares@.map_values(|m: &Middleware| *m) =~= endpoint.middlewares@);
        Ok(
            ResolvedEndpoint {
                endpoint_type: &endpoint.endpoint_type,
                middlewares,
                handler: endpoint.handler,
            },
        )
    }
}

/// Follows references from an input until an endpoint that is none.
pub fn resolve_endpoint<'a>(
    registry: &'a Registry,
    endpoint: &'a Endpoint,
    route_name: &str,
) -> (res: Result<ResolvedEndpoint<'a>, ConfigError>)
    ensures
        resolved(res) == resolution(*registry, route_name@, *endpoint, seq![]),
{
    let visited: Vec<&'a str> = Vec::new();
    assert(visited@.map_values(|s: &str| s@) =~= Seq::<Seq<char>>::empty());
    resolve_endpoint_recursive(registry, endpoint, route_name, visited)
}

fn copy_option(o: &Option<String>) -> (out: Option<String>)
    ensures
        out == *o,
{
    match o {
        Some(s) => Some(s.clone()),
        None => None,
    }
}

fn copy_tls(tls: &TlsConfig) -> (out: TlsConfig)
    ensures
        out == *tls,
{
    TlsConfig {
        required: tls.required,
        ca_file: copy_option(&tls.ca_file),
        cert_file: copy_option(&tls.cert_file),
        key_file: copy_option(&tls.key_file),
        cert_password: copy_option(&tls.cert_password),
        accept_invalid_certs: tls.accept_invalid_certs,
    }
}

/// Whether a connection text names a PostgreSQL server.
pub open spec fn is_postgres_url(url: Seq<char>) -> bool {
    starts_with(trim(url), "postgres://"@) || starts_with(trim(url), "postgresql://"@)
}

/// Why a table configuration cannot be captured by logical replication, if it
/// cannot.
pub open spec fn cdc_refusal(cfg: SqlxConfig) -> Option<Seq<char>> {
    if !is_postgres_url(cfg.url@) {
        Some(
            "sqlx `publication` (CDC) is only supported for PostgreSQL URLs; got '"@ + cfg.url@
                + "'. Use a postgres:// URL or the dedicated `postgres_cdc` endpoint."@,
        )
    } else if cfg.cursor_column is Some {
        Some(
            "sqlx endpoint sets both `publication` (CDC) and `cursor_column` (polling); pick one."@,
        )
    } else {
        None
    }
}

/// Whether `cdc` captures what the table configuration asks for.
pub open spec fn captures(cfg: SqlxConfig, cdc: PostgresCdcConfig) -> bool {
    &&& cdc.url == cfg.url
    &&& match cfg.publication {
        Some(p) => cdc.publication == p,
        None => cdc.publication@ == Seq::<char>::empty(),
    }
    &&& match cfg.slot_name {
        Some(s) => cdc.slot_name == s,
        None => cdc.slot_name@ == "mq_bridge_slot"@,
    }
    &&& cdc.create_slot
    &&& cdc.create_publication == cfg.create_publication
    &&& cdc.publication_tables@ == (if cfg.create_publication {
        seq![cfg.table]
    } else {
        Seq::empty()
    })
    &&& !cdc.temporary_slot
    &&& cdc.cursor_id == cfg.cursor_id
    &&& cdc.checkpoint_store == cfg.checkpoint_store
    &&& cdc.status_interval_ms == 10_000
    &&& cdc.tls == cfg.tls
}

/// Maps a table configuration with a publication onto logical replication. Only
/// PostgreSQL has it, and polling by a cursor column excludes it.
pub fn sqlx_cfg_to_cdc(cfg: &SqlxConfig) -> (res: Result<PostgresCdcConfig, ConfigError>)
    ensures
        match res {
            Ok(cdc) => cdc_refusal(*cfg) is None && captures(*cfg, cdc),
            Err(e) => cdc_refusal(*cfg) == Some(e.message@),
        },
{
    let all = chars_of(cfg.url.as_str());
    let url = trim_chars(all.as_slice());
    let short = chars_of("postgres://");
    let long = chars_of("postgresql://");
    assert(url@.skip(0) =~= url@);
    if !(stands_at(url, 0, short.as_slice()) || stands_at(url, 0, long.as_slice())) {
        return Err(
            ConfigError {
                message: join3(
                    "sqlx `publication` (CDC) is only supported for PostgreSQL URLs; got '",
                    cfg.url.as_str(),
                    "'. Use a postgres:// URL or the dedicated `postgres_cdc` endpoint.",
                ),
            },
        );
    }
    if cfg.cursor_column.is_some() {
        return Err(
            ConfigError {
                message: "sqlx endpoint sets both `publication` (CDC) and `cursor_column` (polling); pick one.".to_owned(),
            },
        );
    }
    let mut publication_tables: Vec<String> = Vec::new();
    if cfg.create_publication {
        publication_tables.push(cfg.table.clone());
    }
    let publication = match &cfg.publication {
        Some(p) => p.clone(),
        None => String::new(),
    };
    let slot_name = match &cfg.slot_name {
        Some(s) => s.clone(),
        None => "mq_bridge_slot".to_owned(),
    };
    Ok(
        PostgresCdcConfig {
            url: cfg.url.clone(),
            publication,
            slot_name,
            create_slot: true,
            create_publication: cfg.create_publication,
            publication_tables,
            temporary_slot: false,
            cursor_id: copy_option(&cfg.cursor_id),
            checkpoint_store: copy_option(&cfg.checkpoint_store),
            status_interval_ms: 10_000,
            tls: copy_tls(&cfg.tls),
        },
    )
}

/// Which consumer to open, with the settings that the route's name fills in.
#[allow(inconsistent_fields)]
#[derive(Debug)]
pub enum ConsumerPlan<'a> {
    Aws(&'a AwsConfig),
    Kafka { config: &'a KafkaConfig, topic: String },
    Nats { config: &'a NatsConfig, subject: String },
    Amqp { config: &'a AmqpConfig, queue: String },
    Mqtt { config: &'a MqttConfig, topic: String, client_id: Option<String> },
    IbmMq { config: &'a IbmMqConfig, queue: Option<String> },
    ZeroMq(&'a ZeroMqConfig),
    RedisStreams { config: &'a RedisStreamsConfig, stream: String },
    File(&'a FileConfig),
    ObjectStore(&'a ObjectStoreConfig),
    Grpc { config: &'a GrpcConfig, topic: String },
    SqlxCapture(PostgresCdcConfig),
    SqlxCursor(&'a SqlxConfig),
    SqlxPoll(&'a SqlxConfig),
    ClickHouseCursor(&'a ClickHouseConfig),
    PostgresCdc(&'a PostgresCdcConfig),
    Http(&'a HttpConfig),
    WebSocket(&'a WebSocketConfig),
    Static(&'a StaticConfig),
    Memory(&'a MemoryConfig),
    StreamBuffer(&'a StreamBufferConfig),
    Sled(&'a SledConfig),
    MongoDb {
        config: &'a MongoDbConfig,
        collection: String,
        mode: MongoConsume,
        ttl_seconds: Option<u64>,
    },
    Custom { name: &'a String, config: &'a String },
}

/// The configured name, or that of the route.
pub open spec fn or_route(configured: Option<String>, route: Seq<char>) -> Seq<char> {
    match configured {
        Some(s) => s@,
        None => route,
    }
}

pub fn name_or_route(configured: &Option<String>, route_name: &str) -> (out: String)
    ensures
        out@ == or_route(*configured, route_name@),
{
    match configured {
        Some(s) => s.clone(),
        None => route_name.to_owned(),
    }
}

/// The client id under which a route connects when it has none of its own.
pub open spec fn default_client_id(route: Seq<char>) -> Seq<char> {
    APP_NAME@ + "-"@ + route
}

/// The message for a custom endpoint that no factory makes.
pub open spec fn factory_missing_text(name: Seq<char>) -> Seq<char> {
    "Custom endpoint factory '"@ + name + "' not found"@
}

/// How long subscribed events are kept by default, in seconds.
pub const DEFAULT_EVENT_TTL_SECONDS: u64 = 86400;

/// Why no consumer can be opened for this type, if none can.
pub open spec fn consumer_plan_refusal(
    registry: Registry,
    route: Seq<char>,
    t: EndpointType,
) -> Option<Seq<char>> {
    match t {
        EndpointType::Sqlx(cfg) => if cfg.publication is Some {
            cdc_refusal(cfg)
        } else {
            None
        },
        EndpointType::ClickHouse(cfg) => if cfg.cursor_column is None {
            Some(
                "ClickHouse endpoint used as a consumer requires 'cursor_column' (ClickHouse has no native queue; only non-destructive cursor reads are supported)."@,
            )
        } else {
            None
        },
        EndpointType::Custom { name, .. } => if registry.makes(name@) {
            None
        } else {
            Some(factory_missing_text(name@))
        },
        EndpointType::Switch(_) => Some(
            on_route(route, "] Switch endpoint is only supported as an output"@),
        ),
        EndpointType::Ref(_) | EndpointType::Reader(_) | EndpointType::Fanout(_)
        | EndpointType::Request(_) | EndpointType::Response(_) | EndpointType::Null => Some(
            unsupported_text(Side::Consumer, route, policy_name(t)),
        ),
        _ => None,
    }
}

/// Whether `plan` is the consumer for this type on this route.
pub open spec fn consumer_planned<'a>(
    route: Seq<char>,
    t: EndpointType,
    plan: ConsumerPlan<'a>,
) -> bool {
    match t {
        EndpointType::Aws(cfg) => plan matches ConsumerPlan::Aws(c) && *c == cfg,
        EndpointType::Kafka(cfg) => plan matches ConsumerPlan::Kafka { config, topic } && *config
            == cfg && topic@ == or_route(cfg.topic, route),
        EndpointType::Nats(cfg) => plan matches ConsumerPlan::Nats { config, subject } && *config
            == cfg && subject@ == or_route(cfg.subject, route),
        EndpointType::Amqp(cfg) => plan matches ConsumerPlan::Amqp { config, queue } && *config
            == cfg && queue@ == or_route(cfg.queue, route),
        EndpointType::Mqtt(cfg) => plan matches ConsumerPlan::Mqtt { config, topic, client_id }
            && *config == cfg && topic@ == or_route(cfg.topic, route) && match cfg.client_id {
            Some(id) => client_id == Some(id),
            None => if cfg.clean_session {
                client_id is None
            } else {
                client_id matches Some(id) && id@ == default_client_id(route)
            },
        },
        EndpointType::IbmMq(cfg) => plan matches ConsumerPlan::IbmMq { config, queue } && *config
            == cfg && if cfg.queue is None && cfg.topic is None {
            queue matches Some(q) && q@ == route
        } else {
            queue == cfg.queue
        },
        EndpointType::ZeroMq(cfg) => plan matches ConsumerPlan::ZeroMq(c) && *c == cfg,
        EndpointType::RedisStreams(cfg) => plan matches ConsumerPlan::RedisStreams {
            config,
            stream,
        } && *config == cfg && stream@ == or_route(cfg.stream, route),
        EndpointType::File(cfg) => plan matches ConsumerPlan::File(c) && *c == cfg,
        EndpointType::ObjectStore(cfg) => plan matches ConsumerPlan::ObjectStore(c) && *c == cfg,
        EndpointType::Grpc(cfg) => plan matches ConsumerPlan::Grpc { config, topic } && *config
            == cfg && topic@ == or_route(cfg.topic, route),
        EndpointType::Sqlx(cfg) => if cfg.publication is Some {
            plan matches ConsumerPlan::SqlxCapture(cdc) && captures(cfg, cdc)
        } else if cfg.cursor_column is Some {
            plan matches ConsumerPlan::SqlxCursor(c) && *c == cfg
        } else {
            plan matches ConsumerPlan::SqlxPoll(c) && *c == cfg
        },
        EndpointType::ClickHouse(cfg) => plan matches ConsumerPlan::ClickHouseCursor(c) && *c
            == cfg,
        EndpointType::PostgresCdc(cfg) => plan matches ConsumerPlan::PostgresCdc(c) && *c == cfg,
        EndpointType::Http(cfg) => plan matches ConsumerPlan::Http(c) && *c == cfg,
        EndpointType::WebSocket(cfg) => plan matches ConsumerPlan::WebSocket(c) && *c == cfg,
        EndpointType::Static(cfg) => plan matches ConsumerPlan::Static(c) && *c == cfg,
        EndpointType::Memory(cfg) => plan matches ConsumerPlan::Memory(c) && *c == cfg,
        EndpointType::StreamBuffer(cfg) => plan matches ConsumerPlan::StreamBuffer(c) && *c == cfg,
        EndpointType::Sled(cfg) => plan matches ConsumerPlan::Sled(c) && *c == cfg,
        EndpointType::MongoDb(cfg) => plan matches ConsumerPlan::MongoDb {
            config,
            collection,
            mode,
            ttl_seconds,
        } && *config == cfg && collection@ == or_route(cfg.collection, route) && mode
            == mongo_consume(cfg) && ttl_seconds == (if mode is Subscriber && cfg.ttl_seconds
            is None {
            Some(DEFAULT_EVENT_TTL_SECONDS)
        } else {
            cfg.ttl_seconds
        }),
        EndpointType::Custom { name, config } => plan matches ConsumerPlan::Custom {
            name: n,
            config: c,
        } && *n == name && *c == config,
        _ => false,
    }
}

/// Decides which consumer an endpoint becomes.
pub fn plan_base_consumer<'a>(
    registry: &Registry,
    route_name: &str,
    t: &'a EndpointType,
) -> (res: Result<ConsumerPlan<'a>, ConfigError>)
    ensures
        match res {
            Ok(plan) => consumer_plan_refusal(*registry, route_name@, *t) is None
                && consumer_planned(route_name@, *t, plan),
            Err(e) => consumer_plan_refusal(*registry, route_name@, *t) == Some(e.message@),
        },
{
    match t {
        EndpointType::Aws(cfg) => Ok(ConsumerPlan::Aws(cfg)),
        EndpointType::Kafka(cfg) => Ok(
            ConsumerPlan::Kafka { config: cfg, topic: name_or_route(&cfg.topic, route_name) },
        ),
        EndpointType::Nats(cfg) => Ok(
            ConsumerPlan::Nats { config: cfg, subject: name_or_route(&cfg.subject, route_name) },
        ),
        EndpointType::Amqp(cfg) => Ok(
            ConsumerPlan::Amqp { config: cfg, queue: name_or_route(&cfg.queue, route_name) },
        ),
        EndpointType::Mqtt(cfg) => {
            // A session that outlives its connection needs a stable client id.
            let client_id = match &cfg.client_id {
                Some(id) => Some(id.clone()),
                None => if cfg.clean_session {
                    None
                } else {
                    Some(join3(APP_NAME, "-", route_name))
                },
            };
            Ok(
                ConsumerPlan::Mqtt {
                    config: cfg,
                    topic: name_or_route(&cfg.topic, route_name),
                    client_id,
                },
            )
        },
        EndpointType::IbmMq(cfg) => {
            let queue = if cfg.queue.is_none() && cfg.topic.is_none() {
                Some(route_name.to_owned())
            } else {
                copy_option(&cfg.queue)
            };
            Ok(ConsumerPlan::IbmMq { config: cfg, queue })
        },
        EndpointType::ZeroMq(cfg) => Ok(ConsumerPlan::ZeroMq(cfg)),
        EndpointType::RedisStreams(cfg) => Ok(
            ConsumerPlan::RedisStreams {
                config: cfg,
                stream: name_or_route(&cfg.stream, route_name),
            },
        ),
        EndpointType::File(cfg) => Ok(ConsumerPlan::File(cfg)),
        EndpointType::ObjectStore(cfg) => Ok(ConsumerPlan::ObjectStore(cfg)),
        EndpointType::Grpc(cfg) => Ok(
            ConsumerPlan::Grpc { config: cfg, topic: name_or_route(&cfg.topic, route_name) },
        ),
        EndpointType::Sqlx(cfg) => {
            if cfg.publication.is_some() {
                match sqlx_cfg_to_cdc(cfg) {
                    Ok(cdc) => Ok(ConsumerPlan::SqlxCapture(cdc)),
                    Err(e) => Err(e),
                }
            } else if cfg.cursor_column.is_some() {
                Ok(ConsumerPlan::SqlxCursor(cfg))
            } else {
                Ok(ConsumerPlan::SqlxPoll(cfg))
            }
        },
        EndpointType::ClickHouse(cfg) => {
            if cfg.cursor_column.is_some() {
                Ok(ConsumerPlan::ClickHouseCursor(cfg))
            } else {
                Err(
                    ConfigError {
                        message: "ClickHouse endpoint used as a consumer requires 'cursor_column' (ClickHouse has no native queue; only non-destructive cursor reads are supported).".to_owned(),
                    },
                )
            }
        },
        EndpointType::PostgresCdc(cfg) => Ok(ConsumerPlan::PostgresCdc(cfg)),
        EndpointType::Http(cfg) => Ok(ConsumerPlan::Http(cfg)),
        EndpointType::WebSocket(cfg) => Ok(ConsumerPlan::WebSocket(cfg)),
        EndpointType::Static(cfg) => Ok(ConsumerPlan::Static(cfg)),
        EndpointType::Memory(cfg) => Ok(ConsumerPlan::Memory(cfg)),
        EndpointType::StreamBuffer(cfg) => Ok(ConsumerPlan::StreamBuffer(cfg)),
        EndpointType::Sled(cfg) => Ok(ConsumerPlan::Sled(cfg)),
        EndpointType::MongoDb(cfg) => {
            let mode = cfg.resolved_consume();
            let ttl_seconds = if mode == MongoConsume::Subscriber && cfg.ttl_seconds.is_none() {
                Some(DEFAULT_EVENT_TTL_SECONDS)
            } else {
                cfg.ttl_seconds
            };
            Ok(
                ConsumerPlan::MongoDb {
                    config: cfg,
                    collection: name_or_route(&cfg.collection, route_name),
                    mode,
                    ttl_seconds,
                },
            )
        },
        EndpointType::Custom { name, config } => {
            if has_name(&registry.factories, name.as_str()) {
                Ok(ConsumerPlan::Custom { name, config })
            } else {
                Err(
                    ConfigError {
                        message: join3("Custom endpoint factory '", name.as_str(), "' not found"),
                    },
                )
            }
        },
        EndpointType::Switch(_) => Err(
            ConfigError {
                message: join3(
                    "[route:",
                    route_name,
                    "] Switch endpoint is only supported as an output",
                ),
            },
        ),
        EndpointType::Ref(_)
        | EndpointType::Reader(_)
        | EndpointType::Fanout(_)
        | EndpointType::Request(_)
        | EndpointType::Response(_)
        | EndpointType::Null => Err(
            ConfigError {
                message: join5(
                    "[route:",
                    route_name,
                    "] Unsupported consumer endpoint type '",
                    t.name(),
                    "'",
                ),
            },
        ),
    }
}

/// A consumer with the middlewares around it, from the outermost in.
#[derive(Debug)]
pub struct RouteConsumer<'a> {
    pub base: ConsumerPlan<'a>,
    pub middlewares: Vec<&'a Middleware>,
}

/// Why a route has no consumer, if it has none: its input does not resolve, does
/// not pass the checks, or has no implementation.
pub open spec fn route_consumer_refusal(
    registry: Registry,
    route: Seq<char>,
    endpoint: Endpoint,
) -> Option<Seq<char>> {
    match resolution(registry, route, endpoint, seq![]) {
        Err(e) => Some(e),
        Ok(r) => match consumer_refusal(route, r.endpoint_type, None) {
            Some(e) => Some(e),
            None => consumer_plan_refusal(registry, route, r.endpoint_type),
        },
    }
}

/// Whether `plan` is the consumer of a route with this input.
pub open spec fn route_consumer_planned<'a>(
    registry: Registry,
    route: Seq<char>,
    endpoint: Endpoint,
    plan: RouteConsumer<'a>,
) -> bool {
    resolution(registry, route, endpoint, seq![]) matches Ok(r) && {
        &&& consumer_planned(route, r.endpoint_type, plan.base)
        &&& plan.middlewares@.map_values(|m: &Middleware| *m) == r.middlewares
    }
}

/// Decides which consumer the input of a route becomes.
pub fn create_consumer_from_route<'a>(
    registry: &'a Registry,
    route_name: &str,
    endpoint: &'a Endpoint,
) -> (res: Result<RouteConsumer<'a>, ConfigError>)
    ensures
        match res {
            Ok(plan) => route_consumer_refusal(*registry, route_name@, *endpoint) is None
                && route_consumer_planned(*registry, route_name@, *endpoint, plan),
            Err(e) => route_consumer_refusal(*registry, route_name@, *endpoint) == Some(
                e.message@,
            ),
        },
{
    let found = match resolve_endpoint(registry, endpoint, route_name) {
        Ok(r) => r,
        Err(e) => {
            return Err(e);
        },
    };
    if let Some(e) = consumer_refused(route_name, found.endpoint_type, None) {
        return Err(e);
    }
    match plan_base_consumer(registry, route_name, found.endpoint_type) {
        Ok(base) => Ok(RouteConsumer { base, middlewares: found.middlewares }),
        Err(e) => Err(e),
    }
}

} // verus!
