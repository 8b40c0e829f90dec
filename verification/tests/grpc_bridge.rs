use mq_bridge::grpc::bridge::{
    answer_publish, await_disposition, bridge_to_canonical, canonical_to_bridge,
    check_server_commit, plan_client_commit, publish_response_for_disposition, Ack, BridgeMessage,
    PublishResponse, Receipt, CONSUMER_KEY, STATUS_ACK, STATUS_NACK, TOPIC_KEY,
};
use mq_bridge::grpc::calls::{apply_call_metadata, reject_unsupported_call_metadata, EntryValue};
use mq_bridge::grpc::pending::{
    PendingMessages, SubscriberPending, MAX_PENDING_CONSUMERS, MAX_PENDING_PER_CONSUMER,
};
use mq_bridge::grpc::publisher::{batch_to_wire, publish_failure, BatchReplies, PublishFailure};
use mq_bridge::grpc::receive::{
    server_batch, wait_outcome, ClientBatch, ClientEvent, DrainStep, ReceiveStep, ShardDrain,
    ShardPoll, ShardWait, GRPC_BATCH_POLL_MS,
};
use mq_bridge::grpc::router::{
    bridge_message_topic, ids_of, normalize_grpc_topic, subscription_step, undelivered, Broadcast,
    SharedGrpcRouter, StreamStep, SubscribeError,
};
use mq_bridge::grpc::setup::{
    address_of, bad_address, create_grpc_publisher, deadlines, find_shared_grpc_server, grpc_tls_refusal,
    plan_server, plan_subscription, service_for, GrpcConsumer, GrpcConsumerMode, GrpcOutput,
    GrpcPublisher, GrpcServerLookup, HostedService,
};
use mq_bridge::grpc::status::{status_to_publisher_error, GrpcCode, GrpcStatusError};
use mq_bridge::message::{
    CanonicalMessage, ConsumerError, MessageDisposition, Metadata, PublisherError, SentBatch,
};
use mq_bridge::models::{GrpcConfig, TlsConfig};
use mq_bridge::status::Detail;

fn bridge_msg(id: &str) -> BridgeMessage {
    BridgeMessage {
        payload: id.as_bytes().to_vec(),
        id: id.to_string(),
        metadata: Metadata::new(),
    }
}

fn value<'a>(m: &'a Metadata, key: &str) -> Option<&'a str> {
    m.get(key).map(String::as_str)
}

fn err<T, E>(r: Result<T, E>) -> E {
    match r {
        Ok(_) => panic!("expected an error"),
        Err(e) => e,
    }
}

fn failure(e: &PublisherError) -> (&str, bool) {
    match e {
        PublisherError::Retryable(t) => (t, true),
        PublisherError::NonRetryable(t) => (t, false),
    }
}

fn config() -> GrpcConfig {
    GrpcConfig {
        url: "http://127.0.0.1:1".to_string(),
        topic: Some("orders".to_string()),
        ..GrpcConfig::default()
    }
}

#[test]
fn reply_preserves_the_request_id() {
    let response = publish_response_for_disposition(
        "request-id".to_string(),
        MessageDisposition::Reply(CanonicalMessage::new(b"reply".to_vec(), None)),
    );
    let PublishResponse::Reply(reply) = response else {
        panic!("expected a reply response");
    };
    assert_eq!(reply.id, "request-id");
}

#[test]
fn pending_messages_replays_only_unacknowledged() {
    let mut pending = PendingMessages::new();
    for id in ["a", "b", "c"] {
        pending.retain(&bridge_msg(id));
    }
    // Retaining the same id twice must not duplicate it.
    pending.retain(&bridge_msg("b"));

    assert!(pending.acknowledge("b"));
    assert!(!pending.acknowledge("b"), "a second ack finds nothing");
    assert!(!pending.is_unacked("b"));

    let replayed: Vec<String> = pending.replay().into_iter().map(|msg| msg.id).collect();
    assert_eq!(replayed, vec!["a".to_string(), "c".to_string()]);
}

#[test]
fn a_message_that_comes_again_is_replayed_once() {
    let mut pending = PendingMessages::new();
    pending.retain(&bridge_msg("a"));
    pending.retain(&bridge_msg("b"));
    assert!(pending.acknowledge("a"));
    pending.retain(&bridge_msg("a"));
    let replayed: Vec<String> = pending.replay().into_iter().map(|msg| msg.id).collect();
    assert_eq!(replayed, vec!["b".to_string(), "a".to_string()]);
}

#[test]
fn pending_messages_caps_retention_and_drops_the_oldest() {
    let mut pending = PendingMessages::new();
    for i in 0..MAX_PENDING_PER_CONSUMER + 10 {
        pending.retain(&bridge_msg(&format!("m{i}")));
    }
    assert_eq!(pending.replay().len(), MAX_PENDING_PER_CONSUMER);
    assert!(!pending.is_unacked("m0"), "the oldest is evicted");
    assert!(pending.is_unacked(&format!("m{}", MAX_PENDING_PER_CONSUMER + 9)));
}

#[test]
fn subscriber_pending_caps_the_number_of_subscribers() {
    let mut subscribers = SubscriberPending::new();
    for i in 0..MAX_PENDING_CONSUMERS + 5 {
        subscribers.entry(&format!("c{i}")).retain(&bridge_msg("x"));
    }
    assert!(subscribers.get("c0").is_none(), "the oldest is evicted");
    assert!(subscribers
        .get(&format!("c{}", MAX_PENDING_CONSUMERS + 4))
        .is_some());
}

fn router_with_topic(topic: &str) -> SharedGrpcRouter {
    let mut router = SharedGrpcRouter::new();
    router.register_route(1, topic.to_string(), 1).unwrap();
    router
}

fn ack(id: &str, status: i32, consumer: Option<&str>) -> Ack {
    let mut metadata = Metadata::new();
    if let Some(c) = consumer {
        metadata.put(CONSUMER_KEY, c);
    }
    Ack { id: id.to_string(), status, reason: String::new(), metadata }
}

#[test]
fn one_live_subscription_per_identifier() {
    let mut router = router_with_topic("dup");
    let (claim, replay) = router.subscribe("dup", "shared".to_string()).unwrap();
    assert!(replay.is_empty());
    match err(router.subscribe("dup", "shared".to_string())) {
        SubscribeError::AlreadyExists(text) => assert!(text.contains("shared")),
        other => panic!("unexpected {:?}", other),
    }
    router.subscribe("dup", "other".to_string()).expect("a distinct id still works");
    router.release(claim);
    router.subscribe("dup", "shared".to_string()).expect("a released id can be claimed again");
    assert!(matches!(
        err(router.subscribe("absent", "x".to_string())),
        SubscribeError::NotFound(_)
    ));
}

#[test]
fn a_lagging_subscriber_gets_what_was_kept() {
    let mut router = router_with_topic("default");
    let (claim, _) = router.subscribe("default", "durable".to_string()).unwrap();
    for id in ["a", "b", "c"] {
        router.dispatch(&bridge_msg(id)).unwrap();
    }
    // A reader that fell behind ends its stream, and a new one starts with the kept ones.
    let none = ids_of(&Vec::new());
    assert!(matches!(subscription_step(&none, Broadcast::Lagged), StreamStep::Stop));
    router.release(claim);
    let (_, replay) = router.subscribe("default", "durable".to_string()).unwrap();
    let ids: Vec<&str> = replay.iter().map(|m| m.id.as_str()).collect();
    assert_eq!(ids, vec!["a", "b", "c"]);
    // What was replayed is not sent again as it comes in.
    let seen = ids_of(&replay);
    assert!(matches!(subscription_step(&seen, Broadcast::Message(bridge_msg("a"))), StreamStep::Skip));
    assert!(matches!(
        subscription_step(&seen, Broadcast::Message(bridge_msg("d"))),
        StreamStep::Send(_)
    ));
    assert!(matches!(subscription_step(&seen, Broadcast::Closed), StreamStep::Stop));
}

#[test]
fn acknowledgements_are_taken_once() {
    let mut router = router_with_topic("acks");
    router.subscribe("acks", "c".to_string()).unwrap();
    let mut message = bridge_msg("m1");
    message.metadata.put(TOPIC_KEY, "acks");
    let delivery = router.dispatch(&message).unwrap();
    assert_eq!((delivery.route_id, delivery.shard), (1, 0));

    // Without the consumer there is nothing to find the message in.
    let response = router.acknowledge(&ack("m1", STATUS_ACK, None));
    assert!(!response.success);
    assert!(response.error.contains("mq_bridge.consumer_id"));

    // A refused message stays and is delivered again.
    assert!(router.acknowledge(&ack("m1", STATUS_NACK, Some("c"))).success);
    assert!(router.acknowledge(&ack("m1", STATUS_ACK, Some("c"))).success);
    assert!(!router.acknowledge(&ack("m1", STATUS_ACK, Some("c"))).success);
}

#[test]
fn topics_have_one_consumer() {
    let mut router = router_with_topic("t");
    let e = err(router.register_route(2, "t".to_string(), 1));
    assert!(e.contains("t"));
    router.register_route(2, "u".to_string(), 2).unwrap();
    assert_eq!(router.route_for_topic("u"), Some(2));
    assert!(!router.unregister_route(1));
    assert_eq!(router.route_for_topic("t"), None);
    assert!(err(router.dispatch(&bridge_msg("x"))).contains("default"));
    // Messages go round the shards.
    let mut message = bridge_msg("x");
    message.metadata.put(TOPIC_KEY, "u");
    let shards: Vec<usize> =
        (0..4).map(|_| router.dispatch(&message).unwrap().shard).collect();
    assert_eq!(shards, vec![0, 1, 0, 1]);
    assert!(router.unregister_route(2));

    assert_eq!(normalize_grpc_topic(None), "default");
    assert_eq!(normalize_grpc_topic(Some("")), "default");
    assert_eq!(normalize_grpc_topic(Some("a")), "a");
    assert_eq!(bridge_message_topic(&message), "u");
    assert_eq!(bridge_message_topic(&bridge_msg("x")), "default");
}

#[test]
fn messages_cross_the_wire_unchanged() {
    let message = CanonicalMessage::new(b"hi".to_vec(), Some(0xabcd)).with_metadata_kv("k", "v");
    let wire = canonical_to_bridge(message, Some("orders"));
    assert_eq!(wire.id, "00000000-0000-0000-0000-00000000abcd");
    assert_eq!(value(&wire.metadata, TOPIC_KEY), Some("orders"));
    let back = bridge_to_canonical(wire);
    assert_eq!(back.message_id, 0xabcd);
    assert_eq!(back.payload, b"hi".to_vec());
    assert_eq!(value(&back.metadata, "k"), Some("v"));

    let mut named = bridge_msg("x");
    named.id = "00000000-0000-0000-0000-00000000000a".to_string();
    assert_eq!(bridge_to_canonical(named).message_id, 10);
}

#[test]
fn published_messages_are_answered() {
    let status = |d: MessageDisposition| match publish_response_for_disposition("i".to_string(), d) {
        PublishResponse::Ack(a) => a.status,
        other => panic!("unexpected {:?}", other),
    };
    assert_eq!(status(MessageDisposition::Ack), STATUS_ACK);
    assert_eq!(status(MessageDisposition::Nack), STATUS_NACK);
    assert!(matches!(await_disposition(Receipt::TimedOut), MessageDisposition::Nack));
    assert!(matches!(await_disposition(Receipt::Dropped), MessageDisposition::Nack));
    assert!(matches!(
        await_disposition(Receipt::Committed(MessageDisposition::Ack)),
        MessageDisposition::Ack
    ));
    assert!(matches!(
        answer_publish("i".to_string(), Some(Receipt::Committed(MessageDisposition::Ack))),
        PublishResponse::Ack(_)
    ));
    assert!(check_server_commit(2, 2).is_ok());
    assert!(check_server_commit(2, 1).is_err());

    let acks = plan_client_commit(
        "c",
        vec!["a".to_string(), "b".to_string()],
        vec![MessageDisposition::Ack, MessageDisposition::Nack],
    )
    .unwrap();
    assert_eq!((acks[0].status, acks[1].status), (STATUS_ACK, STATUS_NACK));
    assert_eq!(value(&acks[0].metadata, CONSUMER_KEY), Some("c"));
    assert!(plan_client_commit("c", vec!["a".to_string()], vec![]).is_err());
}

#[test]
fn batch_answers_are_matched_by_identifier() {
    let originals = || {
        vec![
            CanonicalMessage::new(b"1".to_vec(), Some(1)),
            CanonicalMessage::new(b"2".to_vec(), Some(2)),
        ]
    };
    let wire = batch_to_wire(&originals(), "orders");
    assert_eq!(value(&wire[0].metadata, TOPIC_KEY), Some("orders"));
    let ok = |i: usize| PublishResponse::Ack(ack(&wire[i].id, STATUS_ACK, None));

    let mut replies = BatchReplies::new(originals());
    replies.on_response(ok(0)).unwrap();
    replies.on_response(ok(1)).unwrap();
    assert!(matches!(replies.finish(), Ok(SentBatch::Ack)));

    // What got no answer failed, and may be sent again.
    let mut replies = BatchReplies::new(originals());
    replies.on_response(ok(1)).unwrap();
    match replies.finish() {
        Ok(SentBatch::Partial { failed, .. }) => {
            assert_eq!(failed.len(), 1);
            assert_eq!(failed[0].0.message_id, 1);
            assert!(failure(&failed[0].1).1);
        }
        other => panic!("unexpected {:?}", other),
    }

    let mut replies = BatchReplies::new(originals());
    replies.on_response(PublishResponse::Ack(ack(&wire[0].id, STATUS_NACK, None))).unwrap();
    replies.on_response(PublishResponse::Reply(BridgeMessage {
        payload: b"pong".to_vec(),
        id: wire[1].id.clone(),
        metadata: Metadata::new(),
    })).unwrap();
    match replies.finish() {
        Ok(SentBatch::Partial { responses: Some(responses), failed }) => {
            assert_eq!(responses[0].payload, b"pong".to_vec());
            assert_eq!(failed[0].0.message_id, 1);
        }
        other => panic!("unexpected {:?}", other),
    }
    assert!(BatchReplies::new(originals())
        .on_response(PublishResponse::Error("boom".to_string()))
        .is_err());
    for f in [
        PublishFailure::SetupTimedOut,
        PublishFailure::Refused("x".to_string()),
        PublishFailure::StreamBroke("x".to_string()),
        PublishFailure::BatchTimedOut,
    ] {
        assert!(!failure(&publish_failure(f)).0.is_empty());
    }
}

#[test]
fn call_metadata_is_checked_before_a_call() {
    let mut c = config();
    c.bearer_token = Some("test-token".to_string());
    c.api_key = Some("key".to_string());
    c.metadata = vec![("x-static".to_string(), "value".to_string())];
    c.binary_metadata = vec![("x-trace-bin".to_string(), vec![1, 2])];
    let entries = apply_call_metadata(&c).unwrap();
    let find = |name: &str| {
        entries
            .iter()
            .find(|e| e.name == name)
            .map(|e| match &e.value {
                EntryValue::Text(t) => t.clone(),
                EntryValue::Binary(b) => format!("{b:?}"),
            })
    };
    assert_eq!(find("authorization").as_deref(), Some("Bearer test-token"));
    assert_eq!(find("x-static").as_deref(), Some("value"));
    assert_eq!(find("x-trace-bin").as_deref(), Some("[1, 2]"));
    assert_eq!(find("x-api-key").as_deref(), Some("key"));

    let bad = |change: fn(&mut GrpcConfig)| {
        let mut c = config();
        change(&mut c);
        err(apply_call_metadata(&c))
    };
    let e = bad(|c| c.metadata = vec![("bad name".to_string(), "secret-v".to_string())]);
    assert!(!e.contains("secret-v"));
    let e = bad(|c| c.metadata = vec![("ok".to_string(), "secret-\u{7f}".to_string())]);
    assert!(!e.contains("secret-"));
    bad(|c| c.binary_metadata = vec![("x-trace".to_string(), vec![1])]);
    bad(|c| c.metadata = vec![("X-Trace-BIN".to_string(), "v".to_string())]);
    bad(|c| c.metadata = vec![("a".repeat(65536), "v".to_string())]);
    let mut c = config();
    c.metadata = vec![("a".repeat(65535), "t\tv".to_string())];
    c.binary_metadata = vec![("X-Trace-BIN".to_string(), vec![1])];
    assert!(apply_call_metadata(&c).is_ok());
    let e = bad(|c| c.bearer_token = Some("secret-\n".to_string()));
    assert!(!e.contains("secret-"));
}

#[test]
fn bridge_modes_refuse_credentials_they_would_not_send() {
    let with = |label: &str| {
        let mut c = config();
        match label {
            "bearer_token" => c.bearer_token = Some("token".to_string()),
            "api_key" => c.api_key = Some("key".to_string()),
            "metadata" => c.metadata = vec![("x-tenant".to_string(), "acme".to_string())],
            _ => c.binary_metadata = vec![("x-trace-bin".to_string(), vec![1])],
        }
        c
    };
    for label in ["bearer_token", "api_key", "metadata", "binary_metadata"] {
        let c = with(label);
        assert!(err(GrpcPublisher::new(&c)).contains(label));
        assert!(err(plan_subscription(&c)).contains(label));
        assert!(err(plan_server(&c, "127.0.0.1:0".to_string(), 1)).contains(label));
        assert!(err(reject_unsupported_call_metadata(&c, "mode")).contains(label));
    }
    assert!(reject_unsupported_call_metadata(&config(), "mode").is_ok());
}

#[test]
fn failures_keep_their_status_and_hide_trailers() {
    let status = |code: GrpcCode| GrpcStatusError {
        code,
        message: "invalid fixture request".to_string(),
        trailing_metadata: {
            let mut m = Metadata::new();
            m.put("error-detail", "secret-trailer");
            m
        },
    };
    let s = status(GrpcCode::InvalidArgument);
    assert_eq!(s.code(), GrpcCode::InvalidArgument);
    assert_eq!(s.message(), "invalid fixture request");
    assert_eq!(value(s.trailing_metadata(), "error-detail"), Some("secret-trailer"));
    assert!(!s.debug_text().contains("secret-trailer"));
    assert!(!s.text().contains("secret-trailer"));
    assert!(s.text().contains("invalid fixture request"));
    assert!(!failure(&status_to_publisher_error(&s)).1);
    assert!(failure(&status_to_publisher_error(&status(GrpcCode::Unavailable))).1);
    assert!(failure(&status_to_publisher_error(&status(GrpcCode::DeadlineExceeded))).1);
    assert!(!failure(&status_to_publisher_error(&status(GrpcCode::Unauthenticated))).1);
}

#[test]
fn endpoints_choose_their_mode() {
    let mut c = config();
    assert_eq!(GrpcConsumer::new(&c).mode, GrpcConsumerMode::Client);
    c.server_mode = true;
    let server = GrpcConsumer::new(&c);
    assert_eq!(server.mode, GrpcConsumerMode::Server);
    assert!(server.is_cancel_safe());
    let bound = Some("127.0.0.1:50051".to_string());
    let running = server.status(&bound, false);
    assert!(running.healthy);
    assert_eq!(running.target, "http://127.0.0.1:1");
    assert_eq!(running.details[1], ("bound_addr".to_string(), Detail::Text("127.0.0.1:50051".to_string())));
    let stopped = server.status(&bound, true);
    assert!(!stopped.healthy);
    assert_eq!(stopped.error.as_deref(), Some("gRPC server task stopped"));
    // A client cannot be seen to have stopped.
    assert!(GrpcConsumer::new(&config()).status(&None, true).healthy);
    let mut c = config();
    c.service_name = Some("a.B".to_string());
    c.method_name = Some("C".to_string());
    c.reflection = true;
    assert_eq!(GrpcConsumer::new(&c).mode, GrpcConsumerMode::Dynamic);
    assert!(matches!(create_grpc_publisher(&c).unwrap(), GrpcOutput::Dynamic(_)));
    assert!(matches!(create_grpc_publisher(&config()).unwrap(), GrpcOutput::Bridge(_)));
    let d = deadlines(&config(), false);
    assert_eq!(d.overall, None);
    let plan = plan_subscription(&config()).unwrap();
    assert_eq!(plan.topic, "orders");
    assert!(!plan.consumer_id.is_empty());
}

#[test]
fn servers_are_shared_by_their_settings() {
    let plan = plan_server(&config(), "127.0.0.1:50051".to_string(), 4).unwrap();
    assert_eq!(plan.topic, "orders");
    assert!(plan.shards >= 1);
    let same = plan_server(&config(), "127.0.0.1:50051".to_string(), 4).unwrap();
    let servers = vec![plan.key];
    assert!(matches!(find_shared_grpc_server(&servers, &same.key), GrpcServerLookup::Reuse(0)));
    let mut other = config();
    other.max_decoding_message_size = Some(5);
    let other = plan_server(&other, "127.0.0.1:50051".to_string(), 4).unwrap();
    assert!(matches!(
        find_shared_grpc_server(&servers, &other.key),
        GrpcServerLookup::Conflict(_)
    ));
    let far = plan_server(&config(), "127.0.0.1:50052".to_string(), 4).unwrap();
    assert!(matches!(find_shared_grpc_server(&servers, &far.key), GrpcServerLookup::Absent));

    let tls = TlsConfig { required: true, ..TlsConfig::default() };
    assert!(grpc_tls_refusal(&tls).is_some());
    assert!(grpc_tls_refusal(&TlsConfig::default()).is_none());
    assert_eq!(address_of("http://127.0.0.1:50051"), "127.0.0.1:50051");
    assert!(bad_address("nowhere", "bad port").contains("nowhere"));
    assert!(undelivered("orders").contains("orders"));
    assert!(GrpcPublisher::new(&config()).unwrap().status().healthy);
    assert_eq!(
        service_for("/grpc.reflection.v1.ServerReflection/ServerReflectionInfo"),
        HostedService::ReflectionV1
    );
    assert_eq!(
        service_for("/grpc.reflection.v1alpha.ServerReflection/ServerReflectionInfo"),
        HostedService::ReflectionV1Alpha
    );
    assert_eq!(service_for("/mqbridge.Bridge/Publish"), HostedService::Bridge);
}

#[test]
fn client_batches_wait_only_for_the_first_message() {
    let mut b = ClientBatch::new(2);
    assert_eq!(b.wait_ms(), None);
    assert!(matches!(b.on_event(ClientEvent::Message(bridge_msg("a"))), ReceiveStep::More));
    assert_eq!(b.wait_ms(), Some(GRPC_BATCH_POLL_MS));
    assert!(matches!(b.on_event(ClientEvent::Message(bridge_msg("b"))), ReceiveStep::Finish));
    let (messages, ids) = b.finish().unwrap();
    assert_eq!(messages.len(), 2);
    assert_eq!(ids, vec!["a".to_string(), "b".to_string()]);

    let mut b = ClientBatch::new(2);
    assert!(matches!(b.on_event(ClientEvent::Closed), ReceiveStep::Fail(_) | ReceiveStep::Finish));
    let mut b = ClientBatch::new(2);
    assert!(matches!(
        b.on_event(ClientEvent::Failed("x".to_string())),
        ReceiveStep::Fail(ConsumerError::Connection(_))
    ));
    assert!(ClientBatch::new(2).finish().is_err());
}

#[test]
fn shards_are_swept_in_turn() {
    let mut d = ShardDrain::new(3, 1, 2);
    assert_eq!(d.next(), DrainStep::Try(1));
    d.on_try(false);
    assert_eq!(d.next(), DrainStep::Try(2));
    d.on_try(true);
    assert_eq!(d.next(), DrainStep::Try(0));
    d.on_try(true);
    assert_eq!(d.next(), DrainStep::Finish);

    // With nothing there, it waits; what it waited for does not make it linger.
    let mut d = ShardDrain::new(1, 0, 128);
    assert_eq!(d.next(), DrainStep::Try(0));
    d.on_try(false);
    assert_eq!(d.next(), DrainStep::Wait);
    d.on_wait(0);
    assert_eq!(d.next(), DrainStep::Try(0));
    d.on_try(false);
    assert_eq!(d.next(), DrainStep::Finish);

    assert_eq!(
        wait_outcome(&vec![ShardPoll::Pending, ShardPoll::Message]),
        ShardWait::Ready(1)
    );
    assert_eq!(wait_outcome(&vec![ShardPoll::Closed, ShardPoll::Closed]), ShardWait::Closed);
    assert_eq!(wait_outcome(&vec![ShardPoll::Closed, ShardPoll::Pending]), ShardWait::Pending);
    assert_eq!(server_batch(vec![bridge_msg("a")]).unwrap().len(), 1);
    assert!(server_batch(vec![]).is_err());
}
