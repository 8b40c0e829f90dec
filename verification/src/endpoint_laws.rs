//! What configurations come to.

use vstd::prelude::*;

use crate::checks::{
    consumer_check, consumer_ignores, consumer_refusal, consumer_warnings, forbidden, outputs_of,
    publisher_check, publisher_ignores, publisher_warnings,
};
use crate::endpoint::{
    has_metrics, metrics_slot, retry_slot, with_dlq_at_slot, with_metrics_first, with_metrics_last,
    with_retry_at_slot,
};
use crate::fast_path::{answers_inline, inline_middleware, routed_reason};
use crate::models::{
    endpoint_from, mongo_consume, policy_name, DeadLetterQueueMiddleware, Endpoint, EndpointType,
    HandlerId, Middleware, MongoConsume, MongoDbConfig, PostgresCdcConfig, Registry,
    RetryMiddleware, Route, SqlxConfig,
};
use crate::publishers::{
    base_planned, plan_refusal, planned, route_publisher_refusal, BasePublisher, PublisherPlan,
};
use crate::resolve::{
    captures, cdc_refusal, consumer_planned, resolution, route_consumer_refusal, ConsumerPlan,
};
use crate::status::{plain_status, probed, DetailView, Probe};
use crate::text::{starts_with, trim};

verus! {

/// A name in a configuration refers to the first endpoint that is registered under it.
pub proof fn law_names_refer_to_the_first(
    entries: Seq<(String, Endpoint)>,
    name: Seq<char>,
    i: int,
    from: int,
)
    requires
        0 <= from <= i <= entries.len(),
        forall|k: int| from <= k < i ==> (#[trigger] entries[k]).0@ != name,
        i < entries.len() ==> entries[i].0@ == name,
    ensures
        endpoint_from(entries, name, from) == (if i < entries.len() {
            Some(entries[i].1)
        } else {
            None
        }),
    decreases i - from,
{
    if from < i {
        law_names_refer_to_the_first(entries, name, i, from + 1);
    }
}

/// Whether a type is of the bridge itself.
pub open spec fn is_of_the_bridge(t: EndpointType) -> bool {
    t is Ref || t is Static || t is Memory || t is StreamBuffer || t is File || t is Custom || t
        is Switch || t is Reader || t is Fanout || t is Request || t is Response || t is Null
}

/// A policy forbids the types that it does not name, but none of the bridge itself.
/// Without a policy nothing is forbidden. What is forbidden is refused on either side.
pub proof fn law_policies(
    registry: Registry,
    route: Seq<char>,
    endpoint: Endpoint,
    names: Seq<Seq<char>>,
)
    ensures
        ({
            let t = endpoint.endpoint_type;
            let barred = !is_of_the_bridge(t) && !names.contains(policy_name(t));
            &&& forbidden(Some(names), t) == barred
            &&& !forbidden(None, t)
            &&& barred ==> consumer_check(registry, route, endpoint, 0, Some(names)) is Err
            &&& barred ==> publisher_check(registry, route, endpoint, 0, Some(names)) is Err
        }),
{
}

/// Whether an endpoint of this type can be an input.
pub open spec fn can_be_input(t: EndpointType) -> bool {
    match t {
        EndpointType::Nats(cfg) => cfg.stream is Some,
        EndpointType::MongoDb(cfg) => !(cfg.format is Raw && (cfg.consume == Some(
            MongoConsume::Subscriber,
        ) || (cfg.consume is None && cfg.change_stream))),
        EndpointType::ClickHouse(cfg) => cfg.cursor_column is Some,
        EndpointType::PostgresCdc(cfg) => trim(cfg.publication@).len() > 0,
        EndpointType::StreamBuffer(cfg) => cfg.correlation_id is Some,
        EndpointType::Switch(_) => false,
        EndpointType::Reader(_) => false,
        EndpointType::Fanout(_) => false,
        EndpointType::Request(_) => false,
        EndpointType::Response(_) => false,
        EndpointType::Null => false,
        _ => true,
    }
}

/// An input that is no reference passes exactly if an endpoint of its type can be one.
/// Its warnings are those of its options, behind one about its handler where it has one.
pub proof fn law_which_inputs_pass(registry: Registry, route: Seq<char>, endpoint: Endpoint)
    requires
        !(endpoint.endpoint_type is Ref),
    ensures
        ({
            let t = endpoint.endpoint_type;
            let res = consumer_check(registry, route, endpoint, 0, None);
            &&& res is Ok <==> can_be_input(t)
            &&& res matches Ok(w) ==> {
                &&& endpoint.handler is None ==> w == consumer_warnings(t)
                &&& endpoint.handler is Some ==> w.len() == consumer_warnings(t).len() + 1
                    && w.skip(1) == consumer_warnings(t)
            }
        }),
{
    let t = endpoint.endpoint_type;
    let res = consumer_check(registry, route, endpoint, 0, None);
    if res is Ok {
        let w = res->Ok_0;
        if endpoint.handler is None {
            assert(w =~= consumer_warnings(t));
        } else {
            assert(w.skip(1) =~= consumer_warnings(t));
        }
    }
}

/// An input that is a reference passes exactly if what it refers to passes, and is
/// refused where the name is not registered. No more than sixteen references are
/// followed.
pub proof fn law_referring_inputs(
    registry: Registry,
    route: Seq<char>,
    endpoint: Endpoint,
    name: String,
    depth: int,
)
    requires
        endpoint.endpoint_type == EndpointType::Ref(name),
        0 <= depth,
    ensures
        depth > 16 ==> consumer_check(registry, route, endpoint, depth, None) is Err,
        depth <= 16 ==> match registry.endpoint(name@) {
            None => consumer_check(registry, route, endpoint, depth, None) is Err,
            Some(target) => consumer_check(registry, route, endpoint, depth, None) is Ok
                == consumer_check(registry, route, target, depth + 1, None) is Ok,
        },
{
}

/// An output passes unless something that it hands messages to is refused. A source of
/// changes is no output, a reader passes if its endpoint passes as an input, and a
/// reference passes if what it refers to does or a publisher is registered under it.
pub proof fn law_which_outputs_pass(
    registry: Registry,
    route: Seq<char>,
    endpoint: Endpoint,
    depth: int,
)
    requires
        0 <= depth <= 16,
    ensures
        ({
            let t = endpoint.endpoint_type;
            let res = publisher_check(registry, route, endpoint, depth, None);
            match t {
                EndpointType::Ref(name) => match registry.endpoint(name@) {
                    Some(target) => res == publisher_check(
                        registry,
                        route,
                        target,
                        depth + 1,
                        None,
                    ),
                    None => res is Ok <==> exists|i: int|
                        0 <= i < registry.publishers@.len() && #[trigger] registry.publishers@[i]@
                            == name@,
                },
                EndpointType::Fanout(_) => true,
                EndpointType::Switch(_) => true,
                EndpointType::Request(_) => true,
                EndpointType::Reader(inner) => res == consumer_check(
                    registry,
                    route,
                    *inner,
                    0,
                    None,
                ),
                EndpointType::PostgresCdc(_) => res is Err,
                _ => res == Ok::<Seq<Seq<char>>, Seq<char>>(publisher_warnings(t)),
            }
        }),
        publisher_check(registry, route, endpoint, 17, None) is Err,
{
}

/// A switch hands messages to the endpoints of all its cases, in their order, and then to
/// its default.
pub proof fn law_switches_have_all_their_cases(t: EndpointType, i: int)
    ensures
        t matches EndpointType::Switch(cfg) ==> {
            &&& outputs_of(t).len() == cfg.cases@.len() + (if cfg.default is Some {
                1int
            } else {
                0
            })
            &&& 0 <= i < cfg.cases@.len() ==> outputs_of(t)[i] == cfg.cases@[i].1
            &&& cfg.default matches Some(d) ==> outputs_of(t).last() == *d
        },
{
}

/// The warning about an option of an input that only outputs have.
pub open spec fn idle_on_input(kind: Seq<char>, option: Seq<char>) -> Seq<char> {
    "Endpoint '"@ + kind + "' is used as a consumer, but '"@ + option
        + "' is a publisher-only option and will be ignored."@
}

/// The warning about an option of an output that only inputs have.
pub open spec fn idle_on_output(kind: Seq<char>, option: Seq<char>) -> Seq<char> {
    "Endpoint '"@ + kind + "' is used as a publisher, but '"@ + option
        + "' is a consumer-only option and will be ignored."@
}

/// What is in one of two lists is in both together.
broadcast proof fn lemma_one_of(a: Seq<Seq<char>>, b: Seq<Seq<char>>, x: Seq<char>)
    ensures
        #[trigger] (a + b).contains(x) <==> a.contains(x) || b.contains(x),
{
    if a.contains(x) {
        let i = choose|i: int| 0 <= i < a.len() && a[i] == x;
        assert((a + b)[i] == x);
    }
    if b.contains(x) {
        let i = choose|i: int| 0 <= i < b.len() && b[i] == x;
        assert((a + b)[a.len() + i] == x);
    }
    if (a + b).contains(x) {
        let i = choose|i: int| 0 <= i < (a + b).len() && (a + b)[i] == x;
        if i < a.len() {
            assert(a[i] == x);
        } else {
            assert(b[i - a.len()] == x);
        }
    }
}

/// An option that is set on an input is warned about.
broadcast proof fn lemma_input_told(set: bool, kind: Seq<char>, option: Seq<char>)
    ensures
        set ==> (#[trigger] consumer_ignores(set, kind, option)).contains(
            idle_on_input(kind, option),
        ),
{
    if set {
        assert(consumer_ignores(set, kind, option)[0] == idle_on_input(kind, option));
    }
}

/// An option that is set on an output is warned about.
broadcast proof fn lemma_output_told(set: bool, kind: Seq<char>, option: Seq<char>)
    ensures
        set ==> (#[trigger] publisher_ignores(set, kind, option)).contains(
            idle_on_output(kind, option),
        ),
{
    if set {
        assert(publisher_ignores(set, kind, option)[0] == idle_on_output(kind, option));
    }
}

/// Every option that is set on an input and has no effect there is warned about.
pub proof fn law_inputs_warn_about_idle_options(t: EndpointType)
    ensures
        match t {
            EndpointType::Aws(cfg) => {
                &&& cfg.topic_arn is Some ==> consumer_warnings(t).contains(
                    idle_on_input("aws"@, "topic_arn"@),
                )
            },
            EndpointType::Kafka(cfg) => {
                &&& cfg.delayed_ack ==> consumer_warnings(t).contains(
                    idle_on_input("kafka"@, "delayed_ack"@),
                )
                &&& cfg.producer_options is Some ==> consumer_warnings(t).contains(
                    idle_on_input("kafka"@, "producer_options"@),
                )
            },
            EndpointType::Nats(cfg) => {
                &&& cfg.request_reply ==> consumer_warnings(t).contains(
                    idle_on_input("nats"@, "request_reply"@),
                )
                &&& cfg.request_timeout_ms is Some ==> consumer_warnings(t).contains(
                    idle_on_input("nats"@, "request_timeout_ms"@),
                )
                &&& cfg.delayed_ack ==> consumer_warnings(t).contains(
                    idle_on_input("nats"@, "delayed_ack"@),
                )
                &&& cfg.stream_max_messages is Some ==> consumer_warnings(t).contains(
                    idle_on_input("nats"@, "stream_max_messages"@),
                )
                &&& cfg.stream_max_bytes is Some ==> consumer_warnings(t).contains(
                    idle_on_input("nats"@, "stream_max_bytes"@),
                )
            },
            EndpointType::Amqp(cfg) => {
                &&& cfg.delayed_ack ==> consumer_warnings(t).contains(
                    idle_on_input("amqp"@, "delayed_ack"@),
                )
            },
            EndpointType::Mqtt(cfg) => {
                &&& cfg.delayed_ack ==> consumer_warnings(t).contains(
                    idle_on_input("mqtt"@, "delayed_ack"@),
                )
            },
            EndpointType::RedisStreams(cfg) => {
                &&& cfg.maxlen is Some ==> consumer_warnings(t).contains(
                    idle_on_input("redis_streams"@, "maxlen"@),
                )
                &&& cfg.approx_trim is Some ==> consumer_warnings(t).contains(
                    idle_on_input("redis_streams"@, "approx_trim"@),
                )
            },
            EndpointType::MongoDb(cfg) => {
                &&& cfg.reply_polling_ms is Some ==> consumer_warnings(t).contains(
                    idle_on_input("mongodb"@, "reply_polling_ms"@),
                )
                &&& cfg.request_reply ==> consumer_warnings(t).contains(
                    idle_on_input("mongodb"@, "request_reply"@),
                )
                &&& cfg.request_timeout_ms is Some ==> consumer_warnings(t).contains(
                    idle_on_input("mongodb"@, "request_timeout_ms"@),
                )
                &&& cfg.ttl_seconds is Some ==> consumer_warnings(t).contains(
                    idle_on_input("mongodb"@, "ttl_seconds"@),
                )
                &&& cfg.capped_size_bytes is Some ==> consumer_warnings(t).contains(
                    idle_on_input("mongodb"@, "capped_size_bytes"@),
                )
            },
            EndpointType::Http(cfg) => {
                &&& cfg.batch_concurrency is Some ==> consumer_warnings(t).contains(
                    idle_on_input("http"@, "batch_concurrency"@),
                )
                &&& cfg.tcp_keepalive_ms is Some ==> consumer_warnings(t).contains(
                    idle_on_input("http"@, "tcp_keepalive_ms"@),
                )
                &&& cfg.pool_idle_timeout_ms is Some ==> consumer_warnings(t).contains(
                    idle_on_input("http"@, "pool_idle_timeout_ms"@),
                )
                &&& cfg.stream_response_to is Some ==> consumer_warnings(t).contains(
                    idle_on_input("http"@, "stream_response_to"@),
                )
            },
            EndpointType::ClickHouse(cfg) => {
                &&& cfg.columns is Some ==> consumer_warnings(t).contains(
                    idle_on_input("clickhouse"@, "columns"@),
                )
                &&& cfg.async_insert ==> consumer_warnings(t).contains(
                    idle_on_input("clickhouse"@, "async_insert"@),
                )
            },
            EndpointType::Sqlx(cfg) => {
                &&& cfg.insert_query is Some ==> consumer_warnings(t).contains(
                    idle_on_input("sqlx"@, "insert_query"@),
                )
            },
            EndpointType::Memory(cfg) => {
                &&& cfg.request_reply ==> consumer_warnings(t).contains(
                    idle_on_input("memory"@, "request_reply"@),
                )
                &&& cfg.request_timeout_ms is Some ==> consumer_warnings(t).contains(
                    idle_on_input("memory"@, "request_timeout_ms"@),
                )
            },
            EndpointType::ObjectStore(cfg) => {
                &&& cfg.extension is Some ==> consumer_warnings(t).contains(
                    idle_on_input("object_store"@, "extension"@),
                )
                &&& cfg.date_partition ==> consumer_warnings(t).contains(
                    idle_on_input("object_store"@, "date_partition"@),
                )
            },
            _ => consumer_warnings(t).len() == 0,
        },
{
    broadcast use {lemma_one_of, lemma_input_told};

}

/// Every option that is set on an output and has no effect there is warned about.
pub proof fn law_outputs_warn_about_idle_options(t: EndpointType)
    ensures
        match t {
            EndpointType::Aws(cfg) => {
                &&& cfg.max_messages is Some ==> publisher_warnings(t).contains(
                    idle_on_output("aws"@, "max_messages"@),
                )
                &&& cfg.wait_time_seconds is Some ==> publisher_warnings(t).contains(
                    idle_on_output("aws"@, "wait_time_seconds"@),
                )
            },
            EndpointType::Kafka(cfg) => {
                &&& cfg.group_id is Some ==> publisher_warnings(t).contains(
                    idle_on_output("kafka"@, "group_id"@),
                )
                &&& cfg.consumer_options is Some ==> publisher_warnings(t).contains(
                    idle_on_output("kafka"@, "consumer_options"@),
                )
            },
            EndpointType::Nats(cfg) => {
                &&& cfg.stream is Some ==> publisher_warnings(t).contains(
                    idle_on_output("nats"@, "stream"@),
                )
                &&& cfg.subscriber_mode ==> publisher_warnings(t).contains(
                    idle_on_output("nats"@, "subscriber_mode"@),
                )
                &&& cfg.prefetch_count is Some ==> publisher_warnings(t).contains(
                    idle_on_output("nats"@, "prefetch_count"@),
                )
            },
            EndpointType::Amqp(cfg) => {
                &&& cfg.subscribe_mode ==> publisher_warnings(t).contains(
                    idle_on_output("amqp"@, "subscribe_mode"@),
                )
                &&& cfg.prefetch_count is Some ==> publisher_warnings(t).contains(
                    idle_on_output("amqp"@, "prefetch_count"@),
                )
            },
            EndpointType::Mqtt(cfg) => {
                &&& cfg.clean_session ==> publisher_warnings(t).contains(
                    idle_on_output("mqtt"@, "clean_session"@),
                )
            },
            EndpointType::ZeroMq(cfg) => {
                &&& cfg.topic is Some ==> publisher_warnings(t).contains(
                    idle_on_output("zeromq"@, "topic"@),
                )
            },
            EndpointType::Http(cfg) => {
                &&& cfg.path is Some ==> publisher_warnings(t).contains(
                    idle_on_output("http"@, "path"@),
                )
                &&& cfg.workers is Some ==> publisher_warnings(t).contains(
                    idle_on_output("http"@, "workers"@),
                )
                &&& cfg.message_id_header is Some ==> publisher_warnings(t).contains(
                    idle_on_output("http"@, "message_id_header"@),
                )
                &&& cfg.internal_buffer_size is Some ==> publisher_warnings(t).contains(
                    idle_on_output("http"@, "internal_buffer_size"@),
                )
                &&& cfg.fire_and_forget ==> publisher_warnings(t).contains(
                    idle_on_output("http"@, "fire_and_forget"@),
                )
                &&& cfg.receive_streamable ==> publisher_warnings(t).contains(
                    idle_on_output("http"@, "receive_streamable"@),
                )
            },
            EndpointType::RedisStreams(cfg) => {
                &&& cfg.group is Some ==> publisher_warnings(t).contains(
                    idle_on_output("redis_streams"@, "group"@),
                )
                &&& cfg.consumer_name is Some ==> publisher_warnings(t).contains(
                    idle_on_output("redis_streams"@, "consumer_name"@),
                )
                &&& cfg.subscriber_mode ==> publisher_warnings(t).contains(
                    idle_on_output("redis_streams"@, "subscriber_mode"@),
                )
                &&& cfg.block_ms is Some ==> publisher_warnings(t).contains(
                    idle_on_output("redis_streams"@, "block_ms"@),
                )
                &&& cfg.read_from_start ==> publisher_warnings(t).contains(
                    idle_on_output("redis_streams"@, "read_from_start"@),
                )
                &&& cfg.redelivery_timeout_ms is Some ==> publisher_warnings(t).contains(
                    idle_on_output("redis_streams"@, "redelivery_timeout_ms"@),
                )
                &&& cfg.internal_buffer_size is Some ==> publisher_warnings(t).contains(
                    idle_on_output("redis_streams"@, "internal_buffer_size"@),
                )
            },
            EndpointType::Sqlx(cfg) => {
                &&& cfg.select_query is Some ==> publisher_warnings(t).contains(
                    idle_on_output("sqlx"@, "select_query"@),
                )
                &&& cfg.delete_after_read ==> publisher_warnings(t).contains(
                    idle_on_output("sqlx"@, "delete_after_read"@),
                )
                &&& cfg.polling_interval_ms is Some ==> publisher_warnings(t).contains(
                    idle_on_output("sqlx"@, "polling_interval_ms"@),
                )
            },
            EndpointType::ClickHouse(cfg) => {
                &&& cfg.cursor_column is Some ==> publisher_warnings(t).contains(
                    idle_on_output("clickhouse"@, "cursor_column"@),
                )
                &&& cfg.checkpoint_store is Some ==> publisher_warnings(t).contains(
                    idle_on_output("clickhouse"@, "checkpoint_store"@),
                )
                &&& cfg.polling_interval_ms is Some ==> publisher_warnings(t).contains(
                    idle_on_output("clickhouse"@, "polling_interval_ms"@),
                )
            },
            EndpointType::IbmMq(cfg) => {
                &&& cfg.wait_timeout_ms != 1000 ==> publisher_warnings(t).contains(
                    idle_on_output("ibmmq"@, "wait_timeout_ms"@),
                )
            },
            EndpointType::MongoDb(cfg) => {
                &&& cfg.polling_interval_ms is Some ==> publisher_warnings(t).contains(
                    idle_on_output("mongodb"@, "polling_interval_ms"@),
                )
                &&& cfg.change_stream ==> publisher_warnings(t).contains(
                    idle_on_output("mongodb"@, "change_stream"@),
                )
                &&& cfg.cursor_id is Some ==> publisher_warnings(t).contains(
                    idle_on_output("mongodb"@, "cursor_id"@),
                )
            },
            EndpointType::ObjectStore(cfg) => {
                &&& cfg.checkpoint_store is Some ==> publisher_warnings(t).contains(
                    idle_on_output("object_store"@, "checkpoint_store"@),
                )
                &&& cfg.cursor_id is Some ==> publisher_warnings(t).contains(
                    idle_on_output("object_store"@, "cursor_id"@),
                )
                &&& cfg.polling_interval_ms is Some ==> publisher_warnings(t).contains(
                    idle_on_output("object_store"@, "polling_interval_ms"@),
                )
                &&& cfg.max_object_bytes is Some ==> publisher_warnings(t).contains(
                    idle_on_output("object_store"@, "max_object_bytes"@),
                )
            },
            EndpointType::Memory(cfg) => {
                &&& cfg.subscribe_mode ==> publisher_warnings(t).contains(
                    idle_on_output("memory"@, "subscribe_mode"@),
                )
                &&& cfg.enable_nack ==> publisher_warnings(t).contains(
                    idle_on_output("memory"@, "enable_nack"@),
                )
            },
            EndpointType::StreamBuffer(cfg) => {
                &&& cfg.correlation_id is Some ==> publisher_warnings(t).contains(
                    idle_on_output("stream_buffer"@, "correlation_id"@),
                )
            },
            EndpointType::Sled(cfg) => {
                &&& cfg.read_from_start ==> publisher_warnings(t).contains(
                    idle_on_output("sled"@, "read_from_start"@),
                )
                &&& cfg.delete_after_read ==> publisher_warnings(t).contains(
                    idle_on_output("sled"@, "delete_after_read"@),
                )
            },
            _ => publisher_warnings(t).len() == 0,
        },
{
    broadcast use {lemma_one_of, lemma_output_told};

}

/// Resolving follows references to an endpoint that is none. The middlewares of a
/// reference go around those of what it refers to, and the handler is that of the
/// endpoint itself.
pub proof fn law_references_lead_to_their_endpoint(
    registry: Registry,
    route: Seq<char>,
    endpoint: Endpoint,
    visited: Seq<Seq<char>>,
)
    requires
        visited.len() <= 16,
    ensures
        match endpoint.endpoint_type {
            EndpointType::Ref(name) => !visited.contains(name@) ==> match registry.endpoint(name@) {
                None => resolution(registry, route, endpoint, visited) is Err,
                Some(target) => {
                    let there = resolution(registry, route, target, visited.push(name@));
                    let here = resolution(registry, route, endpoint, visited);
                    &&& here is Ok <==> there is Ok
                    &&& here matches Ok(r) ==> r.endpoint_type == there->Ok_0.endpoint_type
                        && r.middlewares == endpoint.middlewares@ + there->Ok_0.middlewares
                        && r.handler == there->Ok_0.handler
                },
            },
            _ => resolution(registry, route, endpoint, visited) matches Ok(r) && r.endpoint_type
                == endpoint.endpoint_type && r.middlewares == endpoint.middlewares@ && r.handler
                == endpoint.handler,
        },
        visited.len() == 16 ==> (endpoint.endpoint_type is Ref ==> resolution(
            registry,
            route,
            endpoint,
            visited.push(seq![]),
        ) is Err),
{
}

/// The name that a configuration gives, or that of the route.
pub open spec fn given_or(configured: Option<String>, route: Seq<char>) -> Seq<char> {
    match configured {
        Some(name) => name@,
        None => route,
    }
}

/// A consumer has the configuration of its input, and the name of the route for the
/// topic, subject, queue, stream or collection that the configuration leaves open.
pub proof fn law_consumers_follow_their_configuration<'a>(
    route: Seq<char>,
    t: EndpointType,
    plan: ConsumerPlan<'a>,
)
    requires
        consumer_planned(route, t, plan),
    ensures
        match t {
            EndpointType::Kafka(cfg) => plan matches ConsumerPlan::Kafka { config, topic }
                && *config == cfg && topic@ == given_or(cfg.topic, route),
            EndpointType::Nats(cfg) => plan matches ConsumerPlan::Nats { config, subject }
                && *config == cfg && subject@ == given_or(cfg.subject, route),
            EndpointType::Amqp(cfg) => plan matches ConsumerPlan::Amqp { config, queue }
                && *config == cfg && queue@ == given_or(cfg.queue, route),
            EndpointType::Mqtt(cfg) => plan matches ConsumerPlan::Mqtt { config, topic, client_id }
                && *config == cfg && topic@ == given_or(cfg.topic, route) && (cfg.client_id
                is Some ==> client_id == cfg.client_id) && (cfg.client_id is None
                && cfg.clean_session ==> client_id is None) && (cfg.client_id is None
                && !cfg.clean_session ==> (client_id matches Some(id) && id@ == "mq-bridge"@
                + "-"@ + route)),
            EndpointType::RedisStreams(cfg) => plan matches ConsumerPlan::RedisStreams {
                config,
                stream,
            } && *config == cfg && stream@ == given_or(cfg.stream, route),
            EndpointType::IbmMq(cfg) => plan matches ConsumerPlan::IbmMq { config, queue }
                && *config == cfg && (cfg.queue is Some ==> queue == cfg.queue) && (cfg.queue
                is None && cfg.topic is None ==> (queue matches Some(q) && q@ == route)) && (
            cfg.queue is None && cfg.topic is Some ==> queue is None),
            EndpointType::Grpc(cfg) => plan matches ConsumerPlan::Grpc { config, topic }
                && *config == cfg && topic@ == given_or(cfg.topic, route),
            EndpointType::MongoDb(cfg) => plan matches ConsumerPlan::MongoDb {
                config,
                collection,
                mode,
                ttl_seconds,
            } && *config == cfg && collection@ == given_or(cfg.collection, route) && (
            cfg.ttl_seconds is Some ==> ttl_seconds == cfg.ttl_seconds) && (cfg.ttl_seconds is None
                ==> ttl_seconds == (if mode is Subscriber {
                Some(86400u64)
            } else {
                None
            })) && (cfg.consume matches Some(m) ==> mode == m) && (cfg.consume is None ==> (mode
                is Subscriber <==> cfg.change_stream) && (mode is Consumer <==> !cfg.change_stream)),
            EndpointType::Sqlx(cfg) => match cfg.publication {
                Some(p) => plan matches ConsumerPlan::SqlxCapture(cdc) && cdc.url == cfg.url
                    && cdc.publication == p,
                None => if cfg.cursor_column is Some {
                    plan matches ConsumerPlan::SqlxCursor(c) && *c == cfg
                } else {
                    plan matches ConsumerPlan::SqlxPoll(c) && *c == cfg
                },
            },
            EndpointType::Http(cfg) => plan matches ConsumerPlan::Http(c) && *c == cfg,
            EndpointType::Memory(cfg) => plan matches ConsumerPlan::Memory(c) && *c == cfg,
            EndpointType::File(cfg) => plan matches ConsumerPlan::File(c) && *c == cfg,
            EndpointType::Static(cfg) => plan matches ConsumerPlan::Static(c) && *c == cfg,
            EndpointType::Aws(cfg) => plan matches ConsumerPlan::Aws(c) && *c == cfg,
            EndpointType::ZeroMq(cfg) => plan matches ConsumerPlan::ZeroMq(c) && *c == cfg,
            EndpointType::ObjectStore(cfg) => plan matches ConsumerPlan::ObjectStore(c) && *c
                == cfg,
            EndpointType::ClickHouse(cfg) => plan matches ConsumerPlan::ClickHouseCursor(c) && *c
                == cfg,
            EndpointType::PostgresCdc(cfg) => plan matches ConsumerPlan::PostgresCdc(c) && *c
                == cfg,
            EndpointType::WebSocket(cfg) => plan matches ConsumerPlan::WebSocket(c) && *c == cfg,
            EndpointType::StreamBuffer(cfg) => plan matches ConsumerPlan::StreamBuffer(c) && *c
                == cfg,
            EndpointType::Sled(cfg) => plan matches ConsumerPlan::Sled(c) && *c == cfg,
            EndpointType::Custom { name, config } => plan matches ConsumerPlan::Custom {
                name: n,
                config: c,
            } && *n == name && *c == config,
            _ => false,
        },
{
}

/// A table is captured by replication only on PostgreSQL and not together with a cursor
/// column. What is captured is the publication that was asked for, through the named
/// slot or the usual one.
pub proof fn law_tables_that_are_captured(cfg: SqlxConfig, cdc: PostgresCdcConfig)
    ensures
        ({
            let postgres = starts_with(trim(cfg.url@), "postgres://"@) || starts_with(
                trim(cfg.url@),
                "postgresql://"@,
            );
            cdc_refusal(cfg) is None <==> postgres && cfg.cursor_column is None
        }),
        captures(cfg, cdc) ==> {
            &&& cdc.url == cfg.url
            &&& cfg.publication matches Some(p) ==> cdc.publication == p
            &&& cfg.slot_name matches Some(s) ==> cdc.slot_name == s
            &&& cfg.slot_name is None ==> cdc.slot_name@ == "mq_bridge_slot"@
            &&& cfg.create_publication ==> cdc.create_publication && cdc.publication_tables@
                == seq![cfg.table]
            &&& !cfg.create_publication ==> !cdc.create_publication
                && cdc.publication_tables@.len() == 0
            &&& cdc.create_slot && !cdc.temporary_slot
            &&& cdc.cursor_id == cfg.cursor_id
            &&& cdc.checkpoint_store == cfg.checkpoint_store
            &&& cdc.tls == cfg.tls
        },
{
}

/// A route has a consumer exactly if its input resolves to an endpoint that can be one,
/// that needs no factory which is not registered, and, where it captures a table, one
/// that can be captured.
pub proof fn law_which_routes_have_a_consumer(
    registry: Registry,
    route: Seq<char>,
    endpoint: Endpoint,
)
    ensures
        route_consumer_refusal(registry, route, endpoint) is None <==> {
            &&& resolution(registry, route, endpoint, seq![]) matches Ok(r)
            &&& can_be_input(r.endpoint_type)
            &&& !(r.endpoint_type is Ref)
            &&& r.endpoint_type matches EndpointType::Custom { name, .. } ==> exists|i: int|
                0 <= i < registry.factories@.len() && #[trigger] registry.factories@[i]@ == name@
            &&& r.endpoint_type matches EndpointType::Sqlx(cfg) ==> cfg.publication is Some
                ==> cdc_refusal(cfg) is None
        },
{
}

/// A publisher has the configuration of its output, and the name of the route for what
/// the configuration leaves open.
pub proof fn law_publishers_follow_their_configuration<'a>(
    registry: Registry,
    route: Seq<char>,
    t: EndpointType,
    depth: int,
    base: BasePublisher<'a>,
)
    requires
        base_planned(registry, route, t, depth, base),
    ensures
        match t {
            EndpointType::Kafka(cfg) => base matches BasePublisher::Kafka { config, topic }
                && *config == cfg && topic@ == given_or(cfg.topic, route),
            EndpointType::Nats(cfg) => base matches BasePublisher::Nats { config, subject }
                && *config == cfg && subject@ == given_or(cfg.subject, route),
            EndpointType::Amqp(cfg) => base matches BasePublisher::Amqp { config, queue }
                && *config == cfg && queue@ == given_or(cfg.queue, route),
            EndpointType::Mqtt(cfg) => base matches BasePublisher::Mqtt { config, topic, client_id }
                && *config == cfg && topic@ == given_or(cfg.topic, route) && client_id@
                == given_or(cfg.client_id, "mq-bridge"@ + "-"@ + route),
            EndpointType::RedisStreams(cfg) => base matches BasePublisher::RedisStreams {
                config,
                stream,
            } && *config == cfg && stream@ == given_or(cfg.stream, route),
            EndpointType::MongoDb(cfg) => base matches BasePublisher::MongoDb { config, collection }
                && *config == cfg && collection@ == given_or(cfg.collection, route),
            EndpointType::Http(cfg) => base matches BasePublisher::Http {
                config,
                stream_response_sink,
            } && *config == cfg && (stream_response_sink is Some <==> cfg.stream_response_to
                is Some),
            EndpointType::Grpc(cfg) => base matches BasePublisher::Grpc(c) && *c == cfg,
            EndpointType::Sqlx(cfg) => base matches BasePublisher::Sqlx(c) && *c == cfg,
            EndpointType::Memory(cfg) => base matches BasePublisher::Memory(c) && *c == cfg,
            EndpointType::File(cfg) => base matches BasePublisher::File(c) && *c == cfg,
            EndpointType::Static(cfg) => base matches BasePublisher::Static(c) && *c == cfg,
            EndpointType::Aws(cfg) => base matches BasePublisher::Aws(c) && *c == cfg,
            EndpointType::ZeroMq(cfg) => base matches BasePublisher::ZeroMq(c) && *c == cfg,
            EndpointType::IbmMq(cfg) => base matches BasePublisher::IbmMq(c) && *c == cfg,
            EndpointType::ClickHouse(cfg) => base matches BasePublisher::ClickHouse(c) && *c == cfg,
            EndpointType::WebSocket(cfg) => base matches BasePublisher::WebSocket(c) && *c == cfg,
            EndpointType::ObjectStore(cfg) => base matches BasePublisher::ObjectStore(c) && *c
                == cfg,
            EndpointType::StreamBuffer(cfg) => base matches BasePublisher::StreamBuffer(c) && *c
                == cfg,
            EndpointType::Sled(cfg) => base matches BasePublisher::Sled(c) && *c == cfg,
            EndpointType::Null => base is Null,
            EndpointType::Response(_) => base is Response,
            EndpointType::Fanout(es) => base matches BasePublisher::Fanout(plans) && plans@.len()
                == es@.len(),
            EndpointType::Switch(cfg) => base matches BasePublisher::Switch {
                metadata_key,
                keys,
                outputs,
                has_default,
            } && *metadata_key == cfg.metadata_key && keys@.len() == cfg.cases@.len() && (
            has_default <==> cfg.default is Some) && outputs@.len() == cfg.cases@.len() + (
            if has_default {
                1int
            } else {
                0
            }) && forall|i: int|
                0 <= i < keys@.len() ==> *(#[trigger] keys@[i]) == cfg.cases@[i].0,
            EndpointType::Request(_) => base matches BasePublisher::Request(plans) && plans@.len()
                == 2,
            EndpointType::Reader(_) => base is Reader,
            EndpointType::Custom { name, config } => base matches BasePublisher::Custom {
                name: n,
                config: c,
            } && *n == name && *c == config,
            _ => false,
        },
{
    if let EndpointType::Switch(cfg) = t {
        if let BasePublisher::Switch { metadata_key, keys, outputs, has_default } = base {
            let a = keys@.map_values(|k: &String| *k);
            let b = cfg.cases@.map_values(|c: (String, Endpoint)| c.0);
            assert(a == b);
            assert(a.len() == keys@.len() && b.len() == cfg.cases@.len());
            assert forall|i: int| 0 <= i < keys@.len() implies *(#[trigger] keys@[i])
                == cfg.cases@[i].0 by {
                assert(a[i] == b[i]);
            }
        }
    }
}

/// A publisher has the handler of its output and the middlewares around it. One behind a
/// reference has those of what is referred to inside those of the reference, and the
/// handler of the reference before that of what is referred to. Where both have one it
/// is refused.
pub proof fn law_referring_outputs<'a>(
    registry: Registry,
    route: Seq<char>,
    t: EndpointType,
    middlewares: Seq<Middleware>,
    handler: Option<HandlerId>,
    depth: int,
    plan: PublisherPlan<'a>,
)
    requires
        0 <= depth <= 16,
    ensures
        !(t is Ref) && planned(registry, route, t, middlewares, handler, depth, plan)
            ==> plan.handler == handler && plan.middlewares@.map_values(|m: &Middleware| *m)
            == middlewares && base_planned(registry, route, t, depth, plan.base),
        t matches EndpointType::Ref(name) ==> match registry.endpoint(name@) {
            Some(target) => {
                &&& planned(registry, route, t, middlewares, handler, depth, plan) ==> planned(
                    registry,
                    route,
                    target.endpoint_type,
                    target.middlewares@ + middlewares,
                    match handler {
                        Some(h) => Some(h),
                        None => target.handler,
                    },
                    depth + 1,
                    plan,
                )
                &&& handler is Some && target.handler is Some ==> plan_refusal(
                    registry,
                    route,
                    t,
                    true,
                    depth,
                ) is Some
            },
            None => plan_refusal(registry, route, t, handler is Some, depth) is None
                <==> exists|i: int|
                0 <= i < registry.publishers@.len() && #[trigger] registry.publishers@[i]@ == name@,
        },
        t is PostgresCdc ==> plan_refusal(registry, route, t, handler is Some, depth) is Some,
        plan_refusal(registry, route, t, handler is Some, 17) is Some,
{
}

/// A route whose output does not pass its checks has no publisher.
pub proof fn law_refused_outputs_have_no_publisher(
    registry: Registry,
    route: Seq<char>,
    endpoint: Endpoint,
)
    requires
        publisher_check(registry, route, endpoint, 0, None) is Err,
    ensures
        route_publisher_refusal(registry, route, endpoint) is Some,
{
}

proof fn lemma_slots(ms: Seq<Middleware>, i: int)
    requires
        0 <= i <= ms.len(),
    ensures
        i <= retry_slot(ms, i) <= ms.len(),
        i <= metrics_slot(ms, i) <= ms.len(),
        forall|k: int|
            i <= k < retry_slot(ms, i) ==> !(#[trigger] ms[k] is Dlq) && !(ms[k] is Metrics),
        forall|k: int| i <= k < metrics_slot(ms, i) ==> !(#[trigger] ms[k] is Metrics),
        retry_slot(ms, i) < ms.len() ==> ms[retry_slot(ms, i)] is Dlq || ms[retry_slot(ms, i)]
            is Metrics,
        metrics_slot(ms, i) < ms.len() ==> ms[metrics_slot(ms, i)] is Metrics,
    decreases ms.len() - i,
{
    if i < ms.len() {
        lemma_slots(ms, i + 1);
    }
}

/// A retry goes right inside the innermost dead letter queue or metrics, and a dead
/// letter queue right inside the metrics. Neither displaces another middleware.
pub proof fn law_where_middlewares_go(
    ms: Seq<Middleware>,
    retry: RetryMiddleware,
    dlq: DeadLetterQueueMiddleware,
    k: int,
)
    requires
        0 <= k <= ms.len(),
    ensures
        (forall|i: int| 0 <= i < k ==> !(#[trigger] ms[i] is Dlq) && !(ms[i] is Metrics)) && (k
            < ms.len() ==> ms[k] is Dlq || ms[k] is Metrics) ==> with_retry_at_slot(ms, retry)
            == ms.take(k) + seq![Middleware::Retry(retry)] + ms.skip(k),
        (forall|i: int| 0 <= i < k ==> !(#[trigger] ms[i] is Metrics)) && (k < ms.len() ==> ms[k]
            is Metrics) ==> with_dlq_at_slot(ms, dlq) == ms.take(k) + seq![
            Middleware::Dlq(Box::new(dlq)),
        ] + ms.skip(k),
{
    lemma_slots(ms, 0);
    let r = retry_slot(ms, 0);
    let m = metrics_slot(ms, 0);
    if (forall|i: int| 0 <= i < k ==> !(#[trigger] ms[i] is Dlq) && !(ms[i] is Metrics)) && (k
        < ms.len() ==> ms[k] is Dlq || ms[k] is Metrics) {
        assert(r == k) by {
            if r < k {
                assert(!(ms[r] is Dlq) && !(ms[r] is Metrics));
            }
            if k < r {
                assert(!(ms[k] is Dlq) && !(ms[k] is Metrics));
            }
        }
        assert(with_retry_at_slot(ms, retry) =~= ms.take(k) + seq![Middleware::Retry(retry)]
            + ms.skip(k));
    }
    if (forall|i: int| 0 <= i < k ==> !(#[trigger] ms[i] is Metrics)) && (k < ms.len() ==> ms[k]
        is Metrics) {
        assert(m == k) by {
            if m < k {
                assert(!(ms[m] is Metrics));
            }
            if k < m {
                assert(!(ms[k] is Metrics));
            }
        }
        assert(with_dlq_at_slot(ms, dlq) =~= ms.take(k) + seq![Middleware::Dlq(Box::new(dlq))]
            + ms.skip(k));
    }
}

/// Metrics are added once: around everything, which is last on a publisher and first on a
/// consumer.
pub proof fn law_metrics_are_added_once(ms: Seq<Middleware>)
    ensures
        ({
            let measured = exists|i: int| 0 <= i < ms.len() && #[trigger] ms[i] is Metrics;
            &&& measured ==> with_metrics_last(ms) == ms && with_metrics_first(ms) == ms
            &&& !measured ==> with_metrics_last(ms).len() == ms.len() + 1
                && with_metrics_last(ms).last() is Metrics && with_metrics_last(ms).drop_last()
                == ms
            &&& !measured ==> with_metrics_first(ms).len() == ms.len() + 1
                && with_metrics_first(ms)[0] is Metrics && with_metrics_first(ms).skip(1) == ms
        }),
{
    if !has_metrics(ms) {
        assert(with_metrics_last(ms).drop_last() =~= ms);
        assert(with_metrics_first(ms).skip(1) =~= ms);
    }
}

/// A WebSocket route answers directly exactly if it is not told otherwise, its output
/// only responds, its options are the usual ones and nothing stands around its two ends.
pub proof fn law_direct_websocket_routes(route: Route)
    ensures
        route.input.endpoint_type matches EndpointType::WebSocket(cfg) ==> (routed_reason(route)
            is None <==> {
            &&& !(cfg.execution_mode is Routed)
            &&& route.output.endpoint_type is Response
            &&& route.options.concurrency == 1
            &&& route.options.batch_size == 1
            &&& route.options.commit_concurrency_limit == 4096
            &&& route.input.middlewares@.len() == 0
            &&& route.output.middlewares@.len() == 0
        }),
        !(route.input.endpoint_type is WebSocket) ==> routed_reason(route) is Some,
{
}

/// An HTTP route answers inline exactly if its output responds by itself, nothing stands
/// before its input, nothing that could lose or repeat a message stands around its
/// output, its clients wait for the answer, and it is not switched off.
pub proof fn law_inline_http_routes(route: Route)
    ensures
        answers_inline(route) <==> {
            &&& route.input.endpoint_type matches EndpointType::Http(cfg)
            &&& route.output.endpoint_type is Response || route.output.endpoint_type is Static
            &&& cfg.inline_response_fast_path != Some(false)
            &&& !cfg.fire_and_forget
            &&& route.input.middlewares@.len() == 0
            &&& forall|i: int|
                0 <= i < route.output.middlewares@.len() ==> !(
                #[trigger] route.output.middlewares@[i] is Deduplication)
                    && !(route.output.middlewares@[i] is Dlq) && !(route.output.middlewares@[i]
                    is Retry)
        },
{
    if answers_inline(route) {
        assert forall|i: int| 0 <= i < route.output.middlewares@.len() implies !(
        #[trigger] route.output.middlewares@[i] is Deduplication) && !(route.output.middlewares@[i]
            is Dlq) && !(route.output.middlewares@[i] is Retry) by {}
    } else if route.input.endpoint_type is Http && route.input.middlewares@.len() == 0 {
        assert(forall|i: int|
            0 <= i < route.output.middlewares@.len() && !(#[trigger] route.output.middlewares@[i]
                is Deduplication) && !(route.output.middlewares@[i] is Dlq)
                && !(route.output.middlewares@[i] is Retry) ==> inline_middleware(
                route.output.middlewares@[i],
            ));
    }
}

/// A collection is consumed as its configuration says, or as the older flag says where
/// that says nothing.
pub proof fn law_how_collections_are_consumed(cfg: MongoDbConfig)
    ensures
        cfg.consume matches Some(mode) ==> mongo_consume(cfg) == mode,
        cfg.consume is None && cfg.change_stream ==> mongo_consume(cfg) is Subscriber,
        cfg.consume is None && !cfg.change_stream ==> mongo_consume(cfg) is Consumer,
{
}

/// An endpoint is healthy exactly if it can be reached, and says what it is for. A
/// database that answers is healthy, even if it cannot count.
pub proof fn law_statuses(
    target: Seq<char>,
    error: Option<Seq<char>>,
    details: Seq<(Seq<char>, DetailView)>,
    probe: Probe,
    why: Seq<char>,
)
    ensures
        plain_status(target, error, details).healthy <==> error is None,
        plain_status(target, error, details).error == error,
        plain_status(target, error, details).target == target,
        plain_status(target, error, details).details == details,
        match probe {
            Probe::Down(e) => !probed(probe, why).0 && probed(probe, why).1 is None && probed(
                probe,
                why,
            ).2 == Some(e@),
            Probe::Up(Ok(n)) => probed(probe, why).0 && (n <= usize::MAX ==> probed(probe, why).1
                == Some(n as usize)) && probed(probe, why).2 is None,
            Probe::Up(Err(e)) => probed(probe, why).0 && probed(probe, why).1 is None && probed(
                probe,
                why,
            ).2 == Some(why + e@),
        },
{
}

/// A policy that names a type which cannot be an input otherwise lets it be one, and one
/// that does not name it leaves it refused.
pub proof fn law_policies_can_allow_inputs(
    route: Seq<char>,
    t: EndpointType,
    names: Seq<Seq<char>>,
)
    requires
        t is Fanout || t is Request || t is Response || t is Null,
    ensures
        names.contains("fanout"@) && t is Fanout ==> consumer_refusal(route, t, Some(names)) is None,
        names.contains("request"@) && t is Request ==> consumer_refusal(route, t, Some(names))
            is None,
        names.contains("response"@) && t is Response ==> consumer_refusal(route, t, Some(names))
            is None,
        names.contains("null"@) && t is Null ==> consumer_refusal(route, t, Some(names)) is None,
        names.len() == 0 ==> consumer_refusal(route, t, Some(names)) is Some,
        consumer_refusal(route, t, None) is Some,
{
}

/// A policy names every type by one word.
pub proof fn law_names_of_types(t: EndpointType)
    ensures
        t is Ref ==> policy_name(t) == "ref"@,
        t is Aws ==> policy_name(t) == "aws"@,
        t is Kafka ==> policy_name(t) == "kafka"@,
        t is Nats ==> policy_name(t) == "nats"@,
        t is Amqp ==> policy_name(t) == "amqp"@,
        t is Mqtt ==> policy_name(t) == "mqtt"@,
        t is ZeroMq ==> policy_name(t) == "zeromq"@,
        t is RedisStreams ==> policy_name(t) == "redis_streams"@,
        t is IbmMq ==> policy_name(t) == "ibmmq"@,
        t is MongoDb ==> policy_name(t) == "mongodb"@,
        t is Grpc ==> policy_name(t) == "grpc"@,
        t is Http ==> policy_name(t) == "http"@,
        t is ClickHouse ==> policy_name(t) == "clickhouse"@,
        t is Sqlx ==> policy_name(t) == "sqlx"@,
        t is PostgresCdc ==> policy_name(t) == "postgres_cdc"@,
        t is Sled ==> policy_name(t) == "sled"@,
        t is Static ==> policy_name(t) == "static"@,
        t is Memory ==> policy_name(t) == "memory"@,
        t is StreamBuffer ==> policy_name(t) == "stream_buffer"@,
        t is File ==> policy_name(t) == "file"@,
        t is ObjectStore ==> policy_name(t) == "object_store"@,
        t is WebSocket ==> policy_name(t) == "websocket"@,
        t is Custom ==> policy_name(t) == "custom"@,
        t is Switch ==> policy_name(t) == "switch"@,
        t is Reader ==> policy_name(t) == "reader"@,
        t is Fanout ==> policy_name(t) == "fanout"@,
        t is Request ==> policy_name(t) == "request"@,
        t is Response ==> policy_name(t) == "response"@,
        t is Null ==> policy_name(t) == "null"@,
{
}

} // verus!
