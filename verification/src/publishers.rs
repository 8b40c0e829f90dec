//! Planning which publishers an output becomes.
//!
//! An output can nest further outputs. The plan is a tree: each node says which
//! publisher to open, with the settings that the route's name fills in, the handler
//! in front of it and the middlewares around it.

use vstd::prelude::*;

use crate::checks::{
    check_publisher, collect_outputs, outputs_of, publisher_check, ref_missing_text,
    unsupported_text, ConfigError, Side,
};
use crate::models::{
    has_name, policy_name, AmqpConfig, AwsConfig, ClickHouseConfig, Endpoint, EndpointType,
    FileConfig, GrpcConfig, HandlerId, HttpConfig, IbmMqConfig, KafkaConfig, MemoryConfig,
    Middleware, MongoDbConfig, MqttConfig, NatsConfig, ObjectStoreConfig, RedisStreamsConfig,
    Registry, SledConfig, SqlxConfig, StaticConfig, StreamBufferConfig, WebSocketConfig,
    ZeroMqConfig,
};
use crate::resolve::{
    append_refs, create_consumer_from_route, default_client_id, factory_missing_text, name_or_route,
    or_route, route_consumer_planned, route_consumer_refusal, RouteConsumer, APP_NAME,
};
use crate::text::{join3, join5};

verus! {

/// How many references or nested outputs a plan follows.
pub const MAX_DEPTH: usize = 16;

/// A publisher with the handler in front of it and the middlewares around it, from
/// the innermost out.
#[derive(Debug)]
pub struct PublisherPlan<'a> {
    pub base: BasePublisher<'a>,
    pub handler: Option<HandlerId>,
    pub middlewares: Vec<&'a Middleware>,
}

/// Which publisher to open.
#[allow(inconsistent_fields)]
#[derive(Debug)]
pub enum BasePublisher<'a> {
    /// A ready-made publisher of the registry.
    Registered(&'a String),
    Aws(&'a AwsConfig),
    Kafka { config: &'a KafkaConfig, topic: String },
    Nats { config: &'a NatsConfig, subject: String },
    Amqp { config: &'a AmqpConfig, queue: String },
    Mqtt { config: &'a MqttConfig, topic: String, client_id: String },
    ZeroMq(&'a ZeroMqConfig),
    RedisStreams { config: &'a RedisStreamsConfig, stream: String },
    Grpc(&'a GrpcConfig),
    Sqlx(&'a SqlxConfig),
    ClickHouse(&'a ClickHouseConfig),
    Http { config: &'a HttpConfig, stream_response_sink: Option<Box<PublisherPlan<'a>>> },
    WebSocket(&'a WebSocketConfig),
    MongoDb { config: &'a MongoDbConfig, collection: String },
    File(&'a FileConfig),
    ObjectStore(&'a ObjectStoreConfig),
    Static(&'a StaticConfig),
    Memory(&'a MemoryConfig),
    StreamBuffer(&'a StreamBufferConfig),
    Sled(&'a SledConfig),
    IbmMq(&'a IbmMqConfig),
    Null,
    Fanout(Vec<PublisherPlan<'a>>),
    /// The cases in the order of the configuration, then the default where there is
    /// one.
    Switch {
        metadata_key: &'a String,
        keys: Vec<&'a String>,
        outputs: Vec<PublisherPlan<'a>>,
        has_default: bool,
    },
    Response,
    Reader(RouteConsumer<'a>),
    /// The request publisher, then the one that replies are forwarded to.
    Request(Vec<PublisherPlan<'a>>),
    Custom { name: &'a String, config: &'a String },
}

/// The message for two handlers on one output.
pub open spec fn ambiguous_handler_text(route: Seq<char>, name: Seq<char>) -> Seq<char> {
    "[route:"@ + route + "] Both ref endpoint and referenced endpoint '"@ + name
        + "' have handlers defined. This is ambiguous."@
}

/// The outputs nested in a type, in the order in which they are opened.
pub open spec fn nested_outputs(t: EndpointType) -> Seq<Endpoint> {
    match t {
        EndpointType::Http(cfg) => match cfg.stream_response_to {
            Some(sink) => seq![*sink],
            None => seq![],
        },
        _ => outputs_of(t),
    }
}

/// Why an output of this type and handler cannot be opened, if it cannot: the first
/// refusal met in the order in which publishers are opened.
pub open spec fn plan_refusal(
    registry: Registry,
    route: Seq<char>,
    t: EndpointType,
    handled: bool,
    depth: int,
) -> Option<Seq<char>>
    decreases MAX_DEPTH + 1 - depth, 0int,
{
    if depth > MAX_DEPTH {
        Some("Fanout/Ref recursion depth exceeded limit of 16"@)
    } else {
        match t {
            EndpointType::Ref(name) => match registry.endpoint(name@) {
                None => if registry.publishes(name@) {
                    None
                } else {
                    Some(ref_missing_text(route, name@, "' not found"@))
                },
                Some(target) => if handled && target.handler is Some {
                    Some(ambiguous_handler_text(route, name@))
                } else {
                    plan_refusal(
                        registry,
                        route,
                        target.endpoint_type,
                        handled || target.handler is Some,
                        depth + 1,
                    )
                },
            },
            EndpointType::Reader(inner) => route_consumer_refusal(registry, route, *inner),
            EndpointType::Custom { name, .. } => if registry.makes(name@) {
                None
            } else {
                Some(factory_missing_text(name@))
            },
            EndpointType::PostgresCdc(_) => Some(
                unsupported_text(Side::Publisher, route, policy_name(t)),
            ),
            _ => plan_refusal_from(registry, route, nested_outputs(t), 0, depth + 1),
        }
    }
}

/// The first refusal among the outputs from position `i` on.
pub open spec fn plan_refusal_from(
    registry: Registry,
    route: Seq<char>,
    outputs: Seq<Endpoint>,
    i: int,
    depth: int,
) -> Option<Seq<char>>
    decreases MAX_DEPTH + 1 - depth, outputs.len() - i + 1,
{
    if i >= outputs.len() {
        None
    } else {
        match plan_refusal(
            registry,
            route,
            outputs[i].endpoint_type,
            outputs[i].handler is Some,
            depth,
        ) {
            Some(e) => Some(e),
            None => plan_refusal_from(registry, route, outputs, i + 1, depth),
        }
    }
}

/// Whether `plan` is what an output of this type becomes, with `middlewares` around
/// it and `handler` in front. A reference adds its own middlewares outside those of
/// what it refers to, and lends its handler.
pub open spec fn planned<'a>(
    registry: Registry,
    route: Seq<char>,
    t: EndpointType,
    middlewares: Seq<Middleware>,
    handler: Option<HandlerId>,
    depth: int,
    plan: PublisherPlan<'a>,
) -> bool
    decreases MAX_DEPTH + 1 - depth, 1int,
{
    if depth > MAX_DEPTH {
        false
    } else {
        match t {
            EndpointType::Ref(name) => match registry.endpoint(name@) {
                None => {
                    &&& plan.base matches BasePublisher::Registered(n) && *n == name
                    &&& plan.handler == handler
                    &&& plan.middlewares@.map_values(|m: &Middleware| *m) == middlewares
                },
                Some(target) => planned(
                    registry,
                    route,
                    target.endpoint_type,
                    target.middlewares@ + middlewares,
                    if handler is Some {
                        handler
                    } else {
                        target.handler
                    },
                    depth + 1,
                    plan,
                ),
            },
            _ => {
                &&& plan.handler == handler
                &&& plan.middlewares@.map_values(|m: &Middleware| *m) == middlewares
                &&& base_planned(registry, route, t, depth, plan.base)
            },
        }
    }
}

/// Whether `base` is the publisher for a type that is no reference.
pub open spec fn base_planned<'a>(
    registry: Registry,
    route: Seq<char>,
    t: EndpointType,
    depth: int,
    base: BasePublisher<'a>,
) -> bool
    decreases MAX_DEPTH + 1 - depth, 0int,
{
    if depth > MAX_DEPTH {
        false
    } else {
        match t {
            EndpointType::Aws(cfg) => base matches BasePublisher::Aws(c) && *c == cfg,
            EndpointType::Kafka(cfg) => base matches BasePublisher::Kafka { config, topic }
                && *config == cfg && topic@ == or_route(cfg.topic, route),
            EndpointType::Nats(cfg) => base matches BasePublisher::Nats { config, subject }
                && *config == cfg && subject@ == or_route(cfg.subject, route),
            EndpointType::Amqp(cfg) => base matches BasePublisher::Amqp { config, queue } && *config
                == cfg && queue@ == or_route(cfg.queue, route),
            EndpointType::Mqtt(cfg) => base matches BasePublisher::Mqtt { config, topic, client_id }
                && *config == cfg && topic@ == or_route(cfg.topic, route) && client_id@
                == or_route(cfg.client_id, default_client_id(route)),
            EndpointType::ZeroMq(cfg) => base matches BasePublisher::ZeroMq(c) && *c == cfg,
            EndpointType::RedisStreams(cfg) => base matches BasePublisher::RedisStreams {
                config,
                stream,
            } && *config == cfg && stream@ == or_route(cfg.stream, route),
            EndpointType::Grpc(cfg) => base matches BasePublisher::Grpc(c) && *c == cfg,
            EndpointType::Sqlx(cfg) => base matches BasePublisher::Sqlx(c) && *c == cfg,
            EndpointType::ClickHouse(cfg) => base matches BasePublisher::ClickHouse(c) && *c == cfg,
            EndpointType::Http(cfg) => base matches BasePublisher::Http {
                config,
                stream_response_sink,
            } && *config == cfg && match cfg.stream_response_to {
                None => stream_response_sink is None,
                Some(sink) => stream_response_sink matches Some(p) && planned(
                    registry,
                    route,
                    sink.endpoint_type,
                    sink.middlewares@,
                    sink.handler,
                    depth + 1,
                    *p,
                ),
            },
            EndpointType::WebSocket(cfg) => base matches BasePublisher::WebSocket(c) && *c == cfg,
            EndpointType::MongoDb(cfg) => base matches BasePublisher::MongoDb { config, collection }
                && *config == cfg && collection@ == or_route(cfg.collection, route),
            EndpointType::File(cfg) => base matches BasePublisher::File(c) && *c == cfg,
            EndpointType::ObjectStore(cfg) => base matches BasePublisher::ObjectStore(c) && *c
                == cfg,
            EndpointType::Static(cfg) => base matches BasePublisher::Static(c) && *c == cfg,
            EndpointType::Memory(cfg) => base matches BasePublisher::Memory(c) && *c == cfg,
            EndpointType::StreamBuffer(cfg) => base matches BasePublisher::StreamBuffer(c) && *c
                == cfg,
            EndpointType::Sled(cfg) => base matches BasePublisher::Sled(c) && *c == cfg,
            EndpointType::IbmMq(cfg) => base matches BasePublisher::IbmMq(c) && *c == cfg,
            EndpointType::Null => base is Null,
            EndpointType::Fanout(_) => base matches BasePublisher::Fanout(plans) && all_planned(
                registry,
                route,
                outputs_of(t),
                depth + 1,
                plans@,
            ),
            EndpointType::Switch(cfg) => base matches BasePublisher::Switch {
                metadata_key,
                keys,
                outputs,
                has_default,
            } && *metadata_key == cfg.metadata_key && keys@.map_values(|k: &String| *k)
                == cfg.cases@.map_values(|c: (String, Endpoint)| c.0) && has_default == (cfg.default
                is Some) && all_planned(registry, route, outputs_of(t), depth + 1, outputs@),
            EndpointType::Response(_) => base is Response,
            EndpointType::Reader(inner) => base matches BasePublisher::Reader(consumer)
                && route_consumer_planned(registry, route, *inner, consumer),
            EndpointType::Request(_) => base matches BasePublisher::Request(plans) && all_planned(
                registry,
                route,
                outputs_of(t),
                depth + 1,
                plans@,
            ),
            EndpointType::Custom { name, config } => base matches BasePublisher::Custom {
                name: n,
                config: c,
            } && *n == name && *c == config,
            _ => false,
        }
    }
}

/// Whether the plans are those of the outputs, one for one.
pub open spec fn all_planned<'a>(
    registry: Registry,
    route: Seq<char>,
    outputs: Seq<Endpoint>,
    depth: int,
    plans: Seq<PublisherPlan<'a>>,
) -> bool
    decreases MAX_DEPTH + 1 - depth, 2int,
{
    &&& plans.len() == outputs.len()
    &&& forall|i: int|
        0 <= i < outputs.len() ==> planned(
            registry,
            route,
            outputs[i].endpoint_type,
            outputs[i].middlewares@,
            outputs[i].handler,
            depth,
            #[trigger] plans[i],
        )
}

/// Plans the outputs of a composite endpoint, one after the other.
fn plan_outputs<'a>(
    registry: &'a Registry,
    route_name: &str,
    outputs: &Vec<&'a Endpoint>,
    depth: usize,
) -> (res: Result<Vec<PublisherPlan<'a>>, ConfigError>)
    requires
        depth <= MAX_DEPTH + 1,
    ensures
        match res {
            Ok(plans) => plan_refusal_from(
                *registry,
                route_name@,
                outputs@.map_values(|e: &Endpoint| *e),
                0,
                depth as int,
            ) is None && all_planned(
                *registry,
                route_name@,
                outputs@.map_values(|e: &Endpoint| *e),
                depth as int,
                plans@,
            ),
            Err(e) => plan_refusal_from(
                *registry,
                route_name@,
                outputs@.map_values(|e: &Endpoint| *e),
                0,
                depth as int,
            ) == Some(e.message@),
        },
    decreases MAX_DEPTH + 1 - depth, 2int,
{
    let ghost all = outputs@.map_values(|e: &Endpoint| *e);
    let mut plans: Vec<PublisherPlan<'a>> = Vec::new();
    let mut i: usize = 0;
    while i < outputs.len()
        invariant
            i <= outputs@.len(),
            depth <= MAX_DEPTH + 1,
            all == outputs@.map_values(|e: &Endpoint| *e),
            plans@.len() == i,
            forall|k: int|
                0 <= k < i ==> planned(
                    *registry,
                    route_name@,
                    all[k].endpoint_type,
                    all[k].middlewares@,
                    all[k].handler,
                    depth as int,
                    #[trigger] plans@[k],
                ),
            plan_refusal_from(*registry, route_name@, all, 0, depth as int) == plan_refusal_from(
                *registry,
                route_name@,
                all,
                i as int,
                depth as int,
            ),
        decreases outputs@.len() - i,
    {
        let output = outputs[i];
        assert(all[i as int] == *output);
        let none: Vec<&'a Middleware> = Vec::new();
        let middlewares = append_refs(&output.middlewares, none);
        assert(middlewares@.map_values(|m: &Middleware| *m) =~= output.middlewares@);
        match plan_publisher_with_depth(
            registry,
            route_name,
            &output.endpoint_type,
            middlewares,
            output.handler,
            depth,
        ) {
            Ok(plan) => {
                plans.push(plan);
            },
            Err(e) => {
                return Err(e);
            },
        }
        i += 1;
    }
    Ok(plans)
}

/// Plans the publisher for an output, following references.
fn plan_publisher_with_depth<'a>(
    registry: &'a Registry,
    route_name: &str,
    t: &'a EndpointType,
    middlewares: Vec<&'a Middleware>,
    handler: Option<HandlerId>,
    depth: usize,
) -> (res: Result<PublisherPlan<'a>, ConfigError>)
    requires
        depth <= MAX_DEPTH + 1,
    ensures
        match res {
            Ok(plan) => plan_refusal(*registry, route_name@, *t, handler is Some, depth as int)
                is None && planned(
                *registry,
                route_name@,
                *t,
                middlewares@.map_values(|m: &Middleware| *m),
                handler,
                depth as int,
                plan,
            ),
            Err(e) => plan_refusal(*registry, route_name@, *t, handler is Some, depth as int)
                == Some(e.message@),
        },
    decreases MAX_DEPTH + 1 - depth, 1int,
{
    if depth > MAX_DEPTH {
        return Err(
            ConfigError { message: "Fanout/Ref recursion depth exceeded limit of 16".to_owned() },
        );
    }
    if let EndpointType::Ref(name) = t {
        return match registry.get_endpoint(name.as_str()) {
            None => {
                if has_name(&registry.publishers, name.as_str()) {
                    Ok(
                        PublisherPlan {
                            base: BasePublisher::Registered(name),
                            handler,
                            middlewares,
                        },
                    )
                } else {
                    Err(
                        ConfigError {
                            message: join5(
                                "[route:",
                                route_name,
                                "] Referenced endpoint '",
                                name.as_str(),
                                "' not found",
                            ),
                        },
                    )
                }
            },
            Some(target) => {
                if handler.is_some() && target.handler.is_some() {
                    return Err(
                        ConfigError {
                            message: join5(
                                "[route:",
                                route_name,
                                "] Both ref endpoint and referenced endpoint '",
                                name.as_str(),
                                "' have handlers defined. This is ambiguous.",
                            ),
                        },
                    );
                }
                let merged = append_refs(&target.middlewares, middlewares);
                let merged_handler = if handler.is_some() {
                    handler
                } else {
                    target.handler
                };
                plan_publisher_with_depth(
                    registry,
                    route_name,
                    &target.endpoint_type,
                    merged,
                    merged_handler,
                    depth + 1,
                )
            },
        };
    }
    match plan_base_publisher(registry, route_name, t, depth) {
        Ok(base) => Ok(PublisherPlan { base, handler, middlewares }),
        Err(e) => Err(e),
    }
}

/// Plans the publisher for a type that is no reference.
fn plan_base_publisher<'a>(
    registry: &'a Registry,
    route_name: &str,
    t: &'a EndpointType,
    depth: usize,
) -> (res: Result<BasePublisher<'a>, ConfigError>)
    requires
        depth <= MAX_DEPTH,
        !(t is Ref),
    ensures
        match res {
            Ok(base) => plan_refusal(*registry, route_name@, *t, false, depth as int) is None
                && plan_refusal(*registry, route_name@, *t, true, depth as int) is None
                && base_planned(*registry, route_name@, *t, depth as int, base),
            Err(e) => plan_refusal(*registry, route_name@, *t, false, depth as int) == Some(
                e.message@,
            ) && plan_refusal(*registry, route_name@, *t, true, depth as int) == Some(e.message@),
        },
    decreases MAX_DEPTH + 1 - depth, 0int,
{
    proof {
        reveal_with_fuel(plan_refusal_from, 3);
    }
    match t {
        EndpointType::Aws(cfg) => Ok(BasePublisher::Aws(cfg)),
        EndpointType::Kafka(cfg) => Ok(
            BasePublisher::Kafka { config: cfg, topic: name_or_route(&cfg.topic, route_name) },
        ),
        EndpointType::Nats(cfg) => Ok(
            BasePublisher::Nats { config: cfg, subject: name_or_route(&cfg.subject, route_name) },
        ),
        EndpointType::Amqp(cfg) => Ok(
            BasePublisher::Amqp { config: cfg, queue: name_or_route(&cfg.queue, route_name) },
        ),
        EndpointType::Mqtt(cfg) => {
            let fallback = join3(APP_NAME, "-", route_name);
            Ok(
                BasePublisher::Mqtt {
                    config: cfg,
                    topic: name_or_route(&cfg.topic, route_name),
                    client_id: name_or_route(&cfg.client_id, fallback.as_str()),
                },
            )
        },
        EndpointType::ZeroMq(cfg) => Ok(BasePublisher::ZeroMq(cfg)),
        EndpointType::RedisStreams(cfg) => Ok(
            BasePublisher::RedisStreams {
                config: cfg,
                stream: name_or_route(&cfg.stream, route_name),
            },
        ),
        EndpointType::Grpc(cfg) => Ok(BasePublisher::Grpc(cfg)),
        EndpointType::Sqlx(cfg) => Ok(BasePublisher::Sqlx(cfg)),
        EndpointType::ClickHouse(cfg) => Ok(BasePublisher::ClickHouse(cfg)),
        EndpointType::Http(cfg) => {
            match &cfg.stream_response_to {
                None => Ok(BasePublisher::Http { config: cfg, stream_response_sink: None }),
                Some(sink) => {
                    let none: Vec<&'a Middleware> = Vec::new();
                    let middlewares = append_refs(&sink.middlewares, none);
                    assert(middlewares@.map_values(|m: &Middleware| *m) =~= sink.middlewares@);
                    assert(nested_outputs(*t) == seq![**sink]);
                    assert(plan_refusal_from(
                        *registry,
                        route_name@,
                        nested_outputs(*t),
                        0,
                        depth + 1,
                    ) == plan_refusal(
                        *registry,
                        route_name@,
                        sink.endpoint_type,
                        sink.handler is Some,
                        depth + 1,
                    ));
                    match plan_publisher_with_depth(
                        registry,
                        route_name,
                        &sink.endpoint_type,
                        middlewares,
                        sink.handler,
                        depth + 1,
                    ) {
                        Ok(plan) => Ok(
                            BasePublisher::Http {
                                config: cfg,
                                stream_response_sink: Some(Box::new(plan)),
                            },
                        ),
                        Err(e) => Err(e),
                    }
                },
            }
        },
        EndpointType::WebSocket(cfg) => Ok(BasePublisher::WebSocket(cfg)),
        EndpointType::MongoDb(cfg) => Ok(
            BasePublisher::MongoDb {
                config: cfg,
                collection: name_or_route(&cfg.collection, route_name),
            },
        ),
        EndpointType::File(cfg) => Ok(BasePublisher::File(cfg)),
        EndpointType::ObjectStore(cfg) => Ok(BasePublisher::ObjectStore(cfg)),
        EndpointType::Static(cfg) => Ok(BasePublisher::Static(cfg)),
        EndpointType::Memory(cfg) => Ok(BasePublisher::Memory(cfg)),
        EndpointType::StreamBuffer(cfg) => Ok(BasePublisher::StreamBuffer(cfg)),
        EndpointType::Sled(cfg) => Ok(BasePublisher::Sled(cfg)),
        EndpointType::IbmMq(cfg) => Ok(BasePublisher::IbmMq(cfg)),
        EndpointType::Null => Ok(BasePublisher::Null),
        EndpointType::Fanout(_) => {
            let outputs = collect_outputs(t);
            match plan_outputs(registry, route_name, &outputs, depth + 1) {
                Ok(plans) => Ok(BasePublisher::Fanout(plans)),
                Err(e) => Err(e),
            }
        },
        EndpointType::Switch(cfg) => {
            let outputs = collect_outputs(t);
            match plan_outputs(registry, route_name, &outputs, depth + 1) {
                Ok(plans) => {
                    let mut keys: Vec<&'a String> = Vec::new();
                    let mut i: usize = 0;
                    while i < cfg.cases.len()
                        invariant
                            i <= cfg.cases@.len(),
                            keys@.len() == i,
                            forall|k: int| 0 <= k < i ==> *#[trigger] keys@[k] == cfg.cases@[k].0,
                        decreases cfg.cases@.len() - i,
                    {
                        keys.push(&cfg.cases[i].0);
                        i += 1;
                    }
                    assert(keys@.map_values(|k: &String| *k) =~= cfg.cases@.map_values(
                        |c: (String, Endpoint)| c.0,
                    ));
                    Ok(
                        BasePublisher::Switch {
                            metadata_key: &cfg.metadata_key,
                            keys,
                            outputs: plans,
                            has_default: cfg.default.is_some(),
                        },
                    )
                },
                Err(e) => Err(e),
            }
        },
        EndpointType::Response(_) => Ok(BasePublisher::Response),
        EndpointType::Reader(inner) => {
            match create_consumer_from_route(registry, route_name, inner) {
                Ok(consumer) => Ok(BasePublisher::Reader(consumer)),
                Err(e) => Err(e),
            }
        },
        EndpointType::Request(_) => {
            let outputs = collect_outputs(t);
            match plan_outputs(registry, route_name, &outputs, depth + 1) {
                Ok(plans) => Ok(BasePublisher::Request(plans)),
                Err(e) => Err(e),
            }
        },
        EndpointType::Custom { name, config } => {
            if has_name(&registry.factories, name.as_str()) {
                Ok(BasePublisher::Custom { name, config })
            } else {
                Err(
                    ConfigError {
                        message: join3("Custom endpoint factory '", name.as_str(), "' not found"),
                    },
                )
            }
        },
        EndpointType::PostgresCdc(_) => Err(
            ConfigError {
                message: join5(
                    "[route:",
                    route_name,
                    "] Unsupported publisher endpoint type '",
                    t.name(),
                    "'",
                ),
            },
        ),
        EndpointType::Ref(_) => Ok(BasePublisher::Null),
    }
}

/// Why a route has no publisher, if it has none: its output does not pass the
/// checks or cannot be opened.
pub open spec fn route_publisher_refusal(
    registry: Registry,
    route: Seq<char>,
    endpoint: Endpoint,
) -> Option<Seq<char>> {
    match publisher_check(registry, route, endpoint, 0, None) {
        Err(e) => Some(e),
        Ok(_) => plan_refusal(
            registry,
            route,
            endpoint.endpoint_type,
            endpoint.handler is Some,
            0,
        ),
    }
}

/// Decides which publishers the output of a route becomes.
pub fn create_publisher_from_route<'a>(
    registry: &'a Registry,
    route_name: &str,
    endpoint: &'a Endpoint,
) -> (res: Result<PublisherPlan<'a>, ConfigError>)
    ensures
        match res {
            Ok(plan) => route_publisher_refusal(*registry, route_name@, *endpoint) is None
                && planned(
                *registry,
                route_name@,
                endpoint.endpoint_type,
                endpoint.middlewares@,
                endpoint.handler,
                0,
                plan,
            ),
            Err(e) => route_publisher_refusal(*registry, route_name@, *endpoint) == Some(
                e.message@,
            ),
        },
{
    if let Err(e) = check_publisher(registry, route_name, endpoint, None) {
        return Err(e);
    }
    let none: Vec<&'a Middleware> = Vec::new();
    let middlewares = append_refs(&endpoint.middlewares, none);
    assert(middlewares@.map_values(|m: &Middleware| *m) =~= endpoint.middlewares@);
    plan_publisher_with_depth(
        registry,
        route_name,
        &endpoint.endpoint_type,
        middlewares,
        endpoint.handler,
        0,
    )
}

} // verus!
