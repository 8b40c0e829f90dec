use mq_bridge::checks::{check_consumer, check_publisher, collect_outputs, consumer_refused};
use mq_bridge::fast_path::{
    choose_fast_path, output_middlewares_allow_http_inline_fast_path,
    websocket_direct_route_options_allowed, websocket_direct_route_support, FastPath,
    WebSocketDirectRouteSupport,
};
use mq_bridge::models::{
    BufferMiddleware, DeadLetterQueueMiddleware, DeduplicationMiddleware, DelayMiddleware, Endpoint,
    EndpointType, FileConfig, HttpConfig, KafkaConfig, LimiterMiddleware, MemoryConfig,
    Middleware, MongoConsume, MongoDbConfig, MqttConfig, NatsConfig, Registry, RequestConfig, RetryMiddleware,
    Route, RouteOptions, SqlxConfig, StaticConfig, SwitchConfig, WebSocketConfig,
    WebSocketExecutionMode,
};
use mq_bridge::publishers::{create_publisher_from_route, BasePublisher};
use mq_bridge::resolve::{
    create_consumer_from_route, plan_base_consumer, resolve_endpoint, sqlx_cfg_to_cdc,
    ConsumerPlan,
};

fn registry() -> Registry {
    Registry { endpoints: Vec::new(), publishers: Vec::new(), factories: Vec::new() }
}

fn err<T, E>(r: Result<T, E>) -> E {
    match r {
        Ok(_) => panic!("expected an error"),
        Err(e) => e,
    }
}

#[test]
fn websocket_direct_route_support_requires_default_route_options() {
    let mut options = RouteOptions::default();
    assert!(websocket_direct_route_options_allowed(&options));

    options.batch_size = 128;
    assert!(!websocket_direct_route_options_allowed(&options));
}

#[test]
fn websocket_direct_route_support_respects_execution_mode_and_output() {
    let input = || Endpoint::new(EndpointType::WebSocket(WebSocketConfig::new("127.0.0.1:0")));
    let response_route = Route::new(input(), Endpoint::new_response());
    assert!(matches!(
        websocket_direct_route_support(&response_route),
        WebSocketDirectRouteSupport::Supported
    ));

    let memory_route = Route::new(input(), Endpoint::new_memory("ws", 1));
    assert!(matches!(
        websocket_direct_route_support(&memory_route),
        WebSocketDirectRouteSupport::Unsupported("output is not response")
    ));

    let routed_input = Endpoint::new(EndpointType::WebSocket(
        WebSocketConfig::new("127.0.0.1:0").with_execution_mode(WebSocketExecutionMode::Routed),
    ));
    let routed_route = Route::new(routed_input, Endpoint::new_response());
    assert!(matches!(
        websocket_direct_route_support(&routed_route),
        WebSocketDirectRouteSupport::Unsupported("execution_mode is routed")
    ));
}

#[test]
fn test_endpoint_middleware_ordering_helpers() {
    let endpoint = Endpoint::new_memory("test", 10)
        .with_metrics()
        .with_dlq(DeadLetterQueueMiddleware::default())
        .with_retry(RetryMiddleware::default());

    // Expected order: Retry, Dlq, Metrics
    assert_eq!(endpoint.middlewares.len(), 3);
    assert!(matches!(endpoint.middlewares[0], Middleware::Retry(_)));
    assert!(matches!(endpoint.middlewares[1], Middleware::Dlq(_)));
    assert!(matches!(endpoint.middlewares[2], Middleware::Metrics(_)));
}

#[test]
fn test_http_inline_fast_path_allows_simple_output_publisher_middlewares() {
    assert!(output_middlewares_allow_http_inline_fast_path(&[
        Middleware::Buffer(BufferMiddleware { max_messages: 16, max_delay_ms: 0 }),
        Middleware::Delay(DelayMiddleware { delay_ms: 0 }),
        Middleware::Limiter(LimiterMiddleware { millimessages_per_second: 1_000_000_000 }),
    ]));

    assert!(!output_middlewares_allow_http_inline_fast_path(&[Middleware::Retry(
        RetryMiddleware::default()
    )]));
    assert!(!output_middlewares_allow_http_inline_fast_path(&[Middleware::Dlq(Box::default())]));
}

#[test]
fn test_consumer_middleware_ordering() {
    let endpoint = Endpoint::new_memory("test", 10)
        .with_deduplication(DeduplicationMiddleware {
            store: None,
            sled_path: Some("".into()),
            ttl_seconds: 10,
        })
        .with_consumer_metrics();

    // Expected order in list: [Metrics, Dedup]
    assert_eq!(endpoint.middlewares.len(), 2);
    assert!(matches!(endpoint.middlewares[0], Middleware::Metrics(_)));
    assert!(matches!(endpoint.middlewares[1], Middleware::Deduplication(_)));
}

#[test]
fn test_check_consumer_invalid_config() {
    let config = MemoryConfig {
        topic: "test".to_string(),
        request_reply: true, // Invalid for consumer
        ..Default::default()
    };
    let endpoint = Endpoint::new(EndpointType::Memory(config));

    let warnings = check_consumer(&registry(), "test_route", &endpoint, None).unwrap();
    assert!(warnings
        .iter()
        .any(|w| w.contains("request_reply") && w.contains("publisher-only")));
}

#[test]
fn fanout_publishers_get_every_output() {
    let fanout = Endpoint::new(EndpointType::Fanout(vec![
        Endpoint::new_memory("fanout_1", 10),
        Endpoint::new_memory("fanout_2", 10),
    ]));
    let registry = registry();
    let plan = create_publisher_from_route(&registry, "test_fanout", &fanout).unwrap();
    match plan.base {
        BasePublisher::Fanout(outputs) => {
            let topics: Vec<&str> = outputs
                .iter()
                .map(|o| match o.base {
                    BasePublisher::Memory(c) => c.topic.as_str(),
                    _ => panic!("expected memory"),
                })
                .collect();
            assert_eq!(topics, vec!["fanout_1", "fanout_2"]);
        }
        other => panic!("unexpected {:?}", other),
    }
}

#[test]
fn memory_consumers_keep_their_subscription() {
    let mut config = MemoryConfig::new("mem", None);
    config.subscribe_mode = true;
    let endpoint = Endpoint::new(EndpointType::Memory(config));
    let registry = registry();
    let consumer = create_consumer_from_route(&registry, "test", &endpoint).unwrap();
    match consumer.base {
        ConsumerPlan::Memory(c) => assert!(c.subscribe_mode),
        other => panic!("unexpected {:?}", other),
    }
    // The method on the endpoint decides the same.
    assert!(matches!(
        endpoint.create_consumer(&registry, "test").unwrap().base,
        ConsumerPlan::Memory(_)
    ));
    assert!(matches!(
        endpoint.create_publisher(&registry, "test").unwrap().base,
        BasePublisher::Memory(_)
    ));
}

#[test]
fn allowed_endpoint_types_are_enforced() {
    let kafka = || Endpoint::new(EndpointType::Kafka(KafkaConfig::default()));
    assert!(check_consumer(&registry(), "r", &kafka(), Some(&["kafka"])).is_ok());
    assert_eq!(
        err(check_consumer(&registry(), "r", &kafka(), Some(&["http"]))).message,
        "[route:r] Endpoint type 'kafka' is not allowed by policy"
    );
    // Core endpoints are always allowed.
    let memory = Endpoint::new_memory("m", 1);
    assert!(check_consumer(&registry(), "r", &memory, Some(&["http"])).is_ok());

    let endpoint = kafka();
    assert!(endpoint.check_consumer(&registry(), "r", Some(&["http"])).is_err());
    assert!(endpoint.check_publisher(&registry(), "r", Some(&["http"])).is_err());
    assert!(endpoint.check_consumer(&registry(), "r", None).is_ok());
    assert!(check_publisher(&registry(), "r", &endpoint, None).is_ok());
}

#[test]
fn publishers_are_checked_through_their_outputs() {
    let kafka = || Endpoint::new(EndpointType::Kafka(KafkaConfig::default()));
    let switch = Endpoint::new(EndpointType::Switch(SwitchConfig {
        metadata_key: "k".to_string(),
        cases: vec![("a".to_string(), Endpoint::new_memory("m", 1)), ("b".to_string(), kafka())],
        default: Some(Box::new(Endpoint::null())),
    }));
    assert_eq!(collect_outputs(&switch.endpoint_type).len(), 3);
    assert!(check_publisher(&registry(), "r", &switch, Some(&["kafka"])).is_ok());
    assert!(check_publisher(&registry(), "r", &switch, Some(&["http"])).is_err());

    let request = Endpoint::new(EndpointType::Request(RequestConfig {
        to: Box::new(kafka()),
        forward_to: Box::new(Endpoint::null()),
    }));
    assert!(check_publisher(&registry(), "r", &request, Some(&["http"])).is_err());

    // Outputs that nest without end are refused.
    let mut deep = Endpoint::null();
    for _ in 0..20 {
        deep = Endpoint::new(EndpointType::Fanout(vec![deep]));
    }
    assert!(check_publisher(&registry(), "r", &deep, None).is_err());
    assert!(create_publisher_from_route(&registry(), "r", &deep).is_err());
}

#[test]
fn references_are_followed_to_their_end() {
    let mut registry = registry();
    registry.endpoints.push((
        "one".to_string(),
        Endpoint::new(EndpointType::Ref("two".to_string()))
            .add_middleware(Middleware::Delay(DelayMiddleware { delay_ms: 1 })),
    ));
    registry.endpoints.push((
        "two".to_string(),
        Endpoint::new_memory("t", 1)
            .add_middleware(Middleware::Delay(DelayMiddleware { delay_ms: 2 })),
    ));
    registry
        .endpoints
        .push(("loop".to_string(), Endpoint::new(EndpointType::Ref("loop".to_string()))));

    let start = Endpoint::new(EndpointType::Ref("one".to_string()))
        .add_middleware(Middleware::Delay(DelayMiddleware { delay_ms: 0 }));
    let resolved = resolve_endpoint(&registry, &start, "r").unwrap();
    assert!(matches!(resolved.endpoint_type, EndpointType::Memory(_)));
    let delays: Vec<u64> = resolved
        .middlewares
        .iter()
        .map(|m| match m {
            Middleware::Delay(d) => d.delay_ms,
            _ => panic!("unexpected middleware"),
        })
        .collect();
    assert_eq!(delays.len(), 3);
    assert_eq!(delays, vec![0, 1, 2]);

    let looped = Endpoint::new(EndpointType::Ref("loop".to_string()));
    assert!(resolve_endpoint(&registry, &looped, "r").is_err());
    let absent = Endpoint::new(EndpointType::Ref("absent".to_string()));
    assert!(err(resolve_endpoint(&registry, &absent, "r")).message.contains("absent"));
}

#[test]
fn consumers_take_the_route_name_where_none_is_configured() {
    let registry = registry();
    let t = EndpointType::Kafka(KafkaConfig::default());
    match plan_base_consumer(&registry, "orders", &t).unwrap() {
        ConsumerPlan::Kafka { topic, .. } => assert_eq!(topic, "orders"),
        other => panic!("unexpected {:?}", other),
    }
    let t = EndpointType::Kafka(KafkaConfig {
        topic: Some("own".to_string()),
        ..KafkaConfig::default()
    });
    match plan_base_consumer(&registry, "orders", &t).unwrap() {
        ConsumerPlan::Kafka { topic, .. } => assert_eq!(topic, "own"),
        other => panic!("unexpected {:?}", other),
    }
    let t = EndpointType::Mqtt(MqttConfig { clean_session: true, ..MqttConfig::default() });
    assert!(plan_base_consumer(&registry, "orders", &t).is_ok());
}

#[test]
fn mongodb_consumers_by_mode() {
    let registry = registry();
    let plan = |consume: MongoConsume, ttl: Option<u64>| {
        let mut config = MongoDbConfig::new("mongodb://localhost", "db");
        config.consume = Some(consume);
        config.ttl_seconds = ttl;
        let t = EndpointType::MongoDb(config);
        match plan_base_consumer(&registry, "orders", &t).unwrap() {
            ConsumerPlan::MongoDb { collection, mode, ttl_seconds, .. } => {
                assert_eq!(collection, "orders");
                assert_eq!(mode, consume);
                ttl_seconds
            }
            other => panic!("unexpected {:?}", other),
        }
    };
    assert_eq!(plan(MongoConsume::Consumer, None), None);
    assert_eq!(plan(MongoConsume::Subscriber, None), Some(86_400));
    assert_eq!(plan(MongoConsume::Subscriber, Some(5)), Some(5));
}

#[test]
fn table_capture_needs_postgres() {
    let config = SqlxConfig {
        url: "postgres://h/db".to_string(),
        table: "public.orders".to_string(),
        publication: Some("pub".to_string()),
        ..SqlxConfig::default()
    };
    let cdc = sqlx_cfg_to_cdc(&config).unwrap();
    assert_eq!(cdc.url, "postgres://h/db");
    assert_eq!(cdc.publication, "pub");
    let config = SqlxConfig { url: "mysql://h/db".to_string(), ..config };
    assert!(sqlx_cfg_to_cdc(&config).is_err());
}

#[test]
fn publisher_only_endpoints_cannot_consume() {
    let registry = registry();
    for endpoint in [Endpoint::null(), Endpoint::new_response()] {
        assert!(create_consumer_from_route(&registry, "r", &endpoint).is_err());
        assert!(create_publisher_from_route(&registry, "r", &endpoint).is_ok());
    }
    let custom = Endpoint::new(EndpointType::Custom {
        name: "mine".to_string(),
        config: "{}".to_string(),
    });
    assert!(create_publisher_from_route(&registry, "r", &custom).is_err());
    let mut known = Registry { endpoints: vec![], publishers: vec![], factories: vec![] };
    known.factories.push("mine".to_string());
    assert!(matches!(
        create_publisher_from_route(&known, "r", &custom).unwrap().base,
        BasePublisher::Custom { .. }
    ));
}

#[test]
fn routes_choose_a_fast_path() {
    let http = || {
        Endpoint::new(EndpointType::Http(HttpConfig {
            inline_response_fast_path: Some(true),
            ..HttpConfig::default()
        }))
    };
    assert!(matches!(
        choose_fast_path(&Route::new(http(), Endpoint::new_response()), "r"),
        FastPath::HttpInline
    ));
    let off = Endpoint::new(EndpointType::Http(HttpConfig {
        inline_response_fast_path: Some(false),
        ..HttpConfig::default()
    }));
    assert!(matches!(
        choose_fast_path(&Route::new(off, Endpoint::new_response()), "r"),
        FastPath::Routed
    ));
    assert!(matches!(
        choose_fast_path(&Route::new(Endpoint::new_memory("a", 1), Endpoint::null()), "r"),
        FastPath::Routed
    ));
    let ws = |mode: WebSocketExecutionMode| {
        Endpoint::new(EndpointType::WebSocket(
            WebSocketConfig::new("127.0.0.1:0").with_execution_mode(mode),
        ))
    };
    assert!(matches!(
        choose_fast_path(
            &Route::new(ws(WebSocketExecutionMode::Auto), Endpoint::new_response()),
            "r"
        ),
        FastPath::WebSocketDirect
    ));
    assert!(matches!(
        choose_fast_path(&Route::new(ws(WebSocketExecutionMode::DirectOnly), Endpoint::null()), "r"),
        FastPath::Refused(_)
    ));
    assert!(matches!(
        choose_fast_path(&Route::new(ws(WebSocketExecutionMode::Auto), Endpoint::null()), "r"),
        FastPath::FellBack("output is not response")
    ));
}

#[test]
fn channels_belong_to_memory_endpoints() {
    let key = Endpoint::new_memory("t", 3).channel().unwrap();
    assert_eq!(key.topic, "t");
    assert_eq!(key.capacity, Some(3));
    let file = Endpoint::new(EndpointType::File(FileConfig::default()));
    assert!(file.channel().is_err());
    assert!(!file.has_retry_middleware());
    let file = file.add_middlewares(vec![Middleware::Delay(DelayMiddleware { delay_ms: 1 })]);
    assert_eq!(file.middlewares.len(), 1);
    assert!(file.with_retry(RetryMiddleware::default()).has_retry_middleware());
    assert!(matches!(
        Endpoint::new_stream_buffer("t", Some("c"), 2).endpoint_type,
        EndpointType::StreamBuffer(_)
    ));
    let fixed = Endpoint::new(EndpointType::Static(StaticConfig::default()));
    assert_eq!(fixed.endpoint_type.name(), "static");
}

#[test]
fn consumers_without_what_they_need_are_refused() {
    let nats = EndpointType::Nats(NatsConfig::default());
    assert_eq!(
        consumer_refused("r", &nats, None).unwrap().message,
        "[route:r] NATS consumer must specify a 'stream'"
    );
    assert!(consumer_refused("r", &EndpointType::Memory(MemoryConfig::default()), None).is_none());
}

#[test]
fn a_check_distributes_over_the_outputs() {
    let kafka = || {
        Endpoint::new(EndpointType::Kafka(KafkaConfig {
            group_id: Some("g".to_string()),
            ..KafkaConfig::default()
        }))
    };
    let mqtt = || {
        Endpoint::new(EndpointType::Mqtt(MqttConfig {
            clean_session: true,
            ..MqttConfig::default()
        }))
    };
    let missing = || Endpoint::new(EndpointType::Ref("nowhere".to_string()));
    let alone = |e: Endpoint| check_publisher(&registry(), "r", &e, None);
    let mut each = alone(kafka()).unwrap();
    each.extend(alone(mqtt()).unwrap());
    assert_eq!(each.len(), 2);

    let fanout = Endpoint::new(EndpointType::Fanout(vec![kafka(), mqtt()]));
    assert_eq!(alone(fanout).unwrap(), each);
    let request = Endpoint::new(EndpointType::Request(RequestConfig {
        to: Box::new(kafka()),
        forward_to: Box::new(mqtt()),
    }));
    assert_eq!(alone(request).unwrap(), each);
    let broken = Endpoint::new(EndpointType::Fanout(vec![kafka(), missing(), mqtt()]));
    assert_eq!(err(alone(broken)).message, err(alone(missing())).message);
}
