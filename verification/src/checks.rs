//! Validation of endpoint configurations.
//!
//! A check either refuses an endpoint with a message or passes it with warnings
//! about options that the endpoint's role ignores.

use vstd::prelude::*;

use crate::models::{
    has_name, is_core_type, mongo_consume, policy_name, Endpoint, EndpointType, MongoConsume,
    MongoDbConfig, MongoDbFormat, Registry,
};
use crate::text::{chars_of, join3, join5, same, texts, trim, trim_chars};

verus! {

/// How many references or nested endpoints a check follows.
pub const MAX_DEPTH: usize = 16;

/// A refused configuration, with the reason in words.
#[derive(Debug)]
pub struct ConfigError {
    pub message: String,
}

/// The result of a check over character sequences.
pub open spec fn outcome(r: Result<Vec<String>, ConfigError>) -> Result<
    Seq<Seq<char>>,
    Seq<char>,
> {
    match r {
        Ok(w) => Ok(texts(w@)),
        Err(e) => Err(e.message@),
    }
}

/// The names that a policy allows, over character sequences.
pub open spec fn policy(allowed: Option<&[&str]>) -> Option<Seq<Seq<char>>> {
    match allowed {
        Some(names) => Some(names@.map_values(|s: &str| s@)),
        None => None,
    }
}

/// The two roles that an endpoint can have in a route.
#[derive(Debug, Clone, Copy, PartialEq, Eq, Structural)]
pub enum Side {
    Consumer,
    Publisher,
}

/// The warning that `option` has no effect on a `kind` endpoint in this role.
pub open spec fn ignored_option(side: Side, kind: Seq<char>, option: Seq<char>) -> Seq<char> {
    match side {
        Side::Consumer => "Endpoint '"@ + kind + "' is used as a consumer, but '"@ + option
            + "' is a publisher-only option and will be ignored."@,
        Side::Publisher => "Endpoint '"@ + kind + "' is used as a publisher, but '"@ + option
            + "' is a consumer-only option and will be ignored."@,
    }
}

/// The empty list of warnings.
pub open spec fn no_warnings() -> Seq<Seq<char>> {
    Seq::empty()
}

/// One warning if `set`, else none.
pub open spec fn consumer_ignores(set: bool, kind: Seq<char>, option: Seq<char>) -> Seq<Seq<char>> {
    if set {
        seq![ignored_option(Side::Consumer, kind, option)]
    } else {
        seq![]
    }
}

/// One warning if `set`, else none.
pub open spec fn publisher_ignores(set: bool, kind: Seq<char>, option: Seq<char>) -> Seq<
    Seq<char>,
> {
    if set {
        seq![ignored_option(Side::Publisher, kind, option)]
    } else {
        seq![]
    }
}

/// The warning about a handler on an input.
pub open spec fn handler_warning(present: bool) -> Seq<Seq<char>> {
    if present {
        seq![
            "Endpoint 'handler' is set on an input endpoint. Handlers are currently only supported on output endpoints (publishers) and will be ignored here."@,
        ]
    } else {
        seq![]
    }
}

/// The warning about the deprecated `change_stream` flag.
pub open spec fn mongo_deprecation(cfg: MongoDbConfig) -> Seq<Seq<char>> {
    if cfg.change_stream && cfg.consume is Some {
        seq![
            "Endpoint 'mongodb' sets 'consume'; the deprecated 'change_stream' boolean is ignored and should be removed."@,
        ]
    } else if cfg.change_stream {
        seq![
            "Endpoint 'mongodb' option 'change_stream' is deprecated; use 'consume: subscriber'."@,
        ]
    } else {
        seq![]
    }
}

/// What a consumer of this type ignores, in the order in which it is reported.
pub open spec fn consumer_warnings(t: EndpointType) -> Seq<Seq<char>> {
    match t {
        EndpointType::Aws(cfg) => no_warnings() + consumer_ignores(cfg.topic_arn is Some, "aws"@, "topic_arn"@),
        EndpointType::Kafka(cfg) => no_warnings() + consumer_ignores(cfg.delayed_ack, "kafka"@, "delayed_ack"@)
            + consumer_ignores(cfg.producer_options is Some, "kafka"@, "producer_options"@),
        EndpointType::Nats(cfg) => no_warnings() + consumer_ignores(cfg.request_reply, "nats"@, "request_reply"@)
            + consumer_ignores(cfg.request_timeout_ms is Some, "nats"@, "request_timeout_ms"@)
            + consumer_ignores(cfg.delayed_ack, "nats"@, "delayed_ack"@)
            + consumer_ignores(cfg.stream_max_messages is Some, "nats"@, "stream_max_messages"@)
            + consumer_ignores(cfg.stream_max_bytes is Some, "nats"@, "stream_max_bytes"@),
        EndpointType::Amqp(cfg) => no_warnings() + consumer_ignores(cfg.delayed_ack, "amqp"@, "delayed_ack"@),
        EndpointType::Mqtt(cfg) => no_warnings() + consumer_ignores(cfg.delayed_ack, "mqtt"@, "delayed_ack"@),
        EndpointType::RedisStreams(cfg) => no_warnings() + consumer_ignores(cfg.maxlen is Some, "redis_streams"@, "maxlen"@)
            + consumer_ignores(cfg.approx_trim is Some, "redis_streams"@, "approx_trim"@),
        EndpointType::MongoDb(cfg) => no_warnings() + mongo_deprecation(cfg) + consumer_ignores(cfg.reply_polling_ms is Some, "mongodb"@, "reply_polling_ms"@)
            + consumer_ignores(cfg.request_reply, "mongodb"@, "request_reply"@)
            + consumer_ignores(cfg.request_timeout_ms is Some, "mongodb"@, "request_timeout_ms"@)
            + consumer_ignores(cfg.ttl_seconds is Some, "mongodb"@, "ttl_seconds"@)
            + consumer_ignores(cfg.capped_size_bytes is Some, "mongodb"@, "capped_size_bytes"@),
        EndpointType::Http(cfg) => no_warnings() + consumer_ignores(cfg.batch_concurrency is Some, "http"@, "batch_concurrency"@)
            + consumer_ignores(cfg.tcp_keepalive_ms is Some, "http"@, "tcp_keepalive_ms"@)
            + consumer_ignores(cfg.pool_idle_timeout_ms is Some, "http"@, "pool_idle_timeout_ms"@)
            + consumer_ignores(cfg.stream_response_to is Some, "http"@, "stream_response_to"@),
        EndpointType::ClickHouse(cfg) => no_warnings() + consumer_ignores(cfg.columns is Some, "clickhouse"@, "columns"@)
            + consumer_ignores(cfg.async_insert, "clickhouse"@, "async_insert"@),
        EndpointType::Sqlx(cfg) => no_warnings() + consumer_ignores(cfg.insert_query is Some, "sqlx"@, "insert_query"@),
        EndpointType::Memory(cfg) => no_warnings() + consumer_ignores(cfg.request_reply, "memory"@, "request_reply"@)
            + consumer_ignores(cfg.request_timeout_ms is Some, "memory"@, "request_timeout_ms"@),
        EndpointType::ObjectStore(cfg) => no_warnings() + consumer_ignores(cfg.extension is Some, "object_store"@, "extension"@)
            + consumer_ignores(cfg.date_partition, "object_store"@, "date_partition"@),
        _ => no_warnings(),
    }
}

/// What a publisher of this type ignores, in the order in which it is reported.
pub open spec fn publisher_warnings(t: EndpointType) -> Seq<Seq<char>> {
    match t {
        EndpointType::Aws(cfg) => no_warnings() + publisher_ignores(cfg.max_messages is Some, "aws"@, "max_messages"@)
            + publisher_ignores(cfg.wait_time_seconds is Some, "aws"@, "wait_time_seconds"@),
        EndpointType::Kafka(cfg) => no_warnings() + publisher_ignores(cfg.group_id is Some, "kafka"@, "group_id"@)
            + publisher_ignores(cfg.consumer_options is Some, "kafka"@, "consumer_options"@),
        EndpointType::Nats(cfg) => no_warnings() + publisher_ignores(cfg.stream is Some, "nats"@, "stream"@)
            + publisher_ignores(cfg.subscriber_mode, "nats"@, "subscriber_mode"@)
            + publisher_ignores(cfg.prefetch_count is Some, "nats"@, "prefetch_count"@),
        EndpointType::Amqp(cfg) => no_warnings() + publisher_ignores(cfg.subscribe_mode, "amqp"@, "subscribe_mode"@)
            + publisher_ignores(cfg.prefetch_count is Some, "amqp"@, "prefetch_count"@),
        EndpointType::Mqtt(cfg) => no_warnings() + publisher_ignores(cfg.clean_session, "mqtt"@, "clean_session"@),
        EndpointType::ZeroMq(cfg) => no_warnings() + publisher_ignores(cfg.topic is Some, "zeromq"@, "topic"@),
        EndpointType::Http(cfg) => no_warnings() + publisher_ignores(cfg.path is Some, "http"@, "path"@)
            + publisher_ignores(cfg.workers is Some, "http"@, "workers"@)
            + publisher_ignores(cfg.message_id_header is Some, "http"@, "message_id_header"@)
            + publisher_ignores(cfg.internal_buffer_size is Some, "http"@, "internal_buffer_size"@)
            + publisher_ignores(cfg.fire_and_forget, "http"@, "fire_and_forget"@)
            + publisher_ignores(cfg.receive_streamable, "http"@, "receive_streamable"@),
        EndpointType::RedisStreams(cfg) => no_warnings() + publisher_ignores(cfg.group is Some, "redis_streams"@, "group"@)
            + publisher_ignores(cfg.consumer_name is Some, "redis_streams"@, "consumer_name"@)
            + publisher_ignores(cfg.subscriber_mode, "redis_streams"@, "subscriber_mode"@)
            + publisher_ignores(cfg.block_ms is Some, "redis_streams"@, "block_ms"@)
            + publisher_ignores(cfg.read_from_start, "redis_streams"@, "read_from_start"@)
            + publisher_ignores(cfg.redelivery_timeout_ms is Some, "redis_streams"@, "redelivery_timeout_ms"@)
            + publisher_ignores(cfg.internal_buffer_size is Some, "redis_streams"@, "internal_buffer_size"@),
        EndpointType::Sqlx(cfg) => no_warnings() + publisher_ignores(cfg.select_query is Some, "sqlx"@, "select_query"@)
            + publisher_ignores(cfg.delete_after_read, "sqlx"@, "delete_after_read"@)
            + publisher_ignores(cfg.polling_interval_ms is Some, "sqlx"@, "polling_interval_ms"@),
        EndpointType::ClickHouse(cfg) => no_warnings() + publisher_ignores(cfg.cursor_column is Some, "clickhouse"@, "cursor_column"@)
            + publisher_ignores(cfg.checkpoint_store is Some, "clickhouse"@, "checkpoint_store"@)
            + publisher_ignores(cfg.polling_interval_ms is Some, "clickhouse"@, "polling_interval_ms"@),
        EndpointType::IbmMq(cfg) => no_warnings() + publisher_ignores(cfg.wait_timeout_ms != 1000, "ibmmq"@, "wait_timeout_ms"@),
        EndpointType::MongoDb(cfg) => no_warnings() + publisher_ignores(cfg.polling_interval_ms is Some, "mongodb"@, "polling_interval_ms"@)
            + publisher_ignores(cfg.change_stream, "mongodb"@, "change_stream"@)
            + publisher_ignores(cfg.cursor_id is Some, "mongodb"@, "cursor_id"@),
        EndpointType::ObjectStore(cfg) => no_warnings() + publisher_ignores(cfg.checkpoint_store is Some, "object_store"@, "checkpoint_store"@)
            + publisher_ignores(cfg.cursor_id is Some, "object_store"@, "cursor_id"@)
            + publisher_ignores(cfg.polling_interval_ms is Some, "object_store"@, "polling_interval_ms"@)
            + publisher_ignores(cfg.max_object_bytes is Some, "object_store"@, "max_object_bytes"@),
        EndpointType::Memory(cfg) => no_warnings() + publisher_ignores(cfg.subscribe_mode, "memory"@, "subscribe_mode"@)
            + publisher_ignores(cfg.enable_nack, "memory"@, "enable_nack"@),
        EndpointType::StreamBuffer(cfg) => no_warnings() + publisher_ignores(cfg.correlation_id is Some, "stream_buffer"@, "correlation_id"@),
        EndpointType::Sled(cfg) => no_warnings() + publisher_ignores(cfg.read_from_start, "sled"@, "read_from_start"@)
            + publisher_ignores(cfg.delete_after_read, "sled"@, "delete_after_read"@),
        _ => no_warnings(),
    }
}

/// Appends a warning if `set`.
fn note_if(warnings: &mut Vec<String>, set: bool, side: Side, kind: &str, option: &str)
    ensures
        texts(final(warnings)@) == texts(old(warnings)@) + (match side {
            Side::Consumer => consumer_ignores(set, kind@, option@),
            Side::Publisher => publisher_ignores(set, kind@, option@),
        }),
{
    if set {
        let text = match side {
            Side::Consumer => join5(
                "Endpoint '",
                kind,
                "' is used as a consumer, but '",
                option,
                "' is a publisher-only option and will be ignored.",
            ),
            Side::Publisher => join5(
                "Endpoint '",
                kind,
                "' is used as a publisher, but '",
                option,
                "' is a consumer-only option and will be ignored.",
            ),
        };
        warnings.push(text);
    }
    assert(texts(warnings@) =~= texts(old(warnings)@) + (match side {
        Side::Consumer => consumer_ignores(set, kind@, option@),
        Side::Publisher => publisher_ignores(set, kind@, option@),
    }));
}

/// What a consumer of this type ignores.
fn consumer_notes(t: &EndpointType) -> (warnings: Vec<String>)
    ensures
        texts(warnings@) == consumer_warnings(*t),
{
    let mut warnings: Vec<String> = Vec::new();
    assert(texts(warnings@) =~= no_warnings());
    match t {
        EndpointType::Aws(cfg) => {
            note_if(&mut warnings, cfg.topic_arn.is_some(), Side::Consumer, "aws", "topic_arn");
        },
        EndpointType::Kafka(cfg) => {
            note_if(&mut warnings, cfg.delayed_ack, Side::Consumer, "kafka", "delayed_ack");
            note_if(&mut warnings, cfg.producer_options.is_some(), Side::Consumer, "kafka", "producer_options");
        },
        EndpointType::Nats(cfg) => {
            note_if(&mut warnings, cfg.request_reply, Side::Consumer, "nats", "request_reply");
            note_if(&mut warnings, cfg.request_timeout_ms.is_some(), Side::Consumer, "nats", "request_timeout_ms");
            note_if(&mut warnings, cfg.delayed_ack, Side::Consumer, "nats", "delayed_ack");
            note_if(&mut warnings, cfg.stream_max_messages.is_some(), Side::Consumer, "nats", "stream_max_messages");
            note_if(&mut warnings, cfg.stream_max_bytes.is_some(), Side::Consumer, "nats", "stream_max_bytes");
        },
        EndpointType::Amqp(cfg) => {
            note_if(&mut warnings, cfg.delayed_ack, Side::Consumer, "amqp", "delayed_ack");
        },
        EndpointType::Mqtt(cfg) => {
            note_if(&mut warnings, cfg.delayed_ack, Side::Consumer, "mqtt", "delayed_ack");
        },
        EndpointType::RedisStreams(cfg) => {
            note_if(&mut warnings, cfg.maxlen.is_some(), Side::Consumer, "redis_streams", "maxlen");
            note_if(&mut warnings, cfg.approx_trim.is_some(), Side::Consumer, "redis_streams", "approx_trim");
        },
        EndpointType::MongoDb(cfg) => {
            if cfg.change_stream && cfg.consume.is_some() {
                warnings.push(
                    "Endpoint 'mongodb' sets 'consume'; the deprecated 'change_stream' boolean is ignored and should be removed.".to_owned(),
                );
            } else if cfg.change_stream {
                warnings.push(
                    "Endpoint 'mongodb' option 'change_stream' is deprecated; use 'consume: subscriber'.".to_owned(),
                );
            }
            assert(texts(warnings@) =~= no_warnings() + mongo_deprecation(*cfg));
            note_if(&mut warnings, cfg.reply_polling_ms.is_some(), Side::Consumer, "mongodb", "reply_polling_ms");
            note_if(&mut warnings, cfg.request_reply, Side::Consumer, "mongodb", "request_reply");
            note_if(&mut warnings, cfg.request_timeout_ms.is_some(), Side::Consumer, "mongodb", "request_timeout_ms");
            note_if(&mut warnings, cfg.ttl_seconds.is_some(), Side::Consumer, "mongodb", "ttl_seconds");
            note_if(&mut warnings, cfg.capped_size_bytes.is_some(), Side::Consumer, "mongodb", "capped_size_bytes");
        },
        EndpointType::Http(cfg) => {
            note_if(&mut warnings, cfg.batch_concurrency.is_some(), Side::Consumer, "http", "batch_concurrency");
            note_if(&mut warnings, cfg.tcp_keepalive_ms.is_some(), Side::Consumer, "http", "tcp_keepalive_ms");
            note_if(&mut warnings, cfg.pool_idle_timeout_ms.is_some(), Side::Consumer, "http", "pool_idle_timeout_ms");
            note_if(&mut warnings, cfg.stream_response_to.is_some(), Side::Consumer, "http", "stream_response_to");
        },
        EndpointType::ClickHouse(cfg) => {
            note_if(&mut warnings, cfg.columns.is_some(), Side::Consumer, "clickhouse", "columns");
            note_if(&mut warnings, cfg.async_insert, Side::Consumer, "clickhouse", "async_insert");
        },
        EndpointType::Sqlx(cfg) => {
            note_if(&mut warnings, cfg.insert_query.is_some(), Side::Consumer, "sqlx", "insert_query");
        },
        EndpointType::Memory(cfg) => {
            note_if(&mut warnings, cfg.request_reply, Side::Consumer, "memory", "request_reply");
            note_if(&mut warnings, cfg.request_timeout_ms.is_some(), Side::Consumer, "memory", "request_timeout_ms");
        },
        EndpointType::ObjectStore(cfg) => {
            note_if(&mut warnings, cfg.extension.is_some(), Side::Consumer, "object_store", "extension");
            note_if(&mut warnings, cfg.date_partition, Side::Consumer, "object_store", "date_partition");
        },
        _ => {},
    }
    warnings
}

/// What a publisher of this type ignores.
fn publisher_notes(t: &EndpointType) -> (warnings: Vec<String>)
    ensures
        texts(warnings@) == publisher_warnings(*t),
{
    let mut warnings: Vec<String> = Vec::new();
    assert(texts(warnings@) =~= no_warnings());
    match t {
        EndpointType::Aws(cfg) => {
            note_if(&mut warnings, cfg.max_messages.is_some(), Side::Publisher, "aws", "max_messages");
            note_if(&mut warnings, cfg.wait_time_seconds.is_some(), Side::Publisher, "aws", "wait_time_seconds");
        },
        EndpointType::Kafka(cfg) => {
            note_if(&mut warnings, cfg.group_id.is_some(), Side::Publisher, "kafka", "group_id");
            note_if(&mut warnings, cfg.consumer_options.is_some(), Side::Publisher, "kafka", "consumer_options");
        },
        EndpointType::Nats(cfg) => {
            note_if(&mut warnings, cfg.stream.is_some(), Side::Publisher, "nats", "stream");
            note_if(&mut warnings, cfg.subscriber_mode, Side::Publisher, "nats", "subscriber_mode");
            note_if(&mut warnings, cfg.prefetch_count.is_some(), Side::Publisher, "nats", "prefetch_count");
        },
        EndpointType::Amqp(cfg) => {
            note_if(&mut warnings, cfg.subscribe_mode, Side::Publisher, "amqp", "subscribe_mode");
            note_if(&mut warnings, cfg.prefetch_count.is_some(), Side::Publisher, "amqp", "prefetch_count");
        },
        EndpointType::Mqtt(cfg) => {
            note_if(&mut warnings, cfg.clean_session, Side::Publisher, "mqtt", "clean_session");
        },
        EndpointType::ZeroMq(cfg) => {
            note_if(&mut warnings, cfg.topic.is_some(), Side::Publisher, "zeromq", "topic");
        },
        EndpointType::Http(cfg) => {
            note_if(&mut warnings, cfg.path.is_some(), Side::Publisher, "http", "path");
            note_if(&mut warnings, cfg.workers.is_some(), Side::Publisher, "http", "workers");
            note_if(&mut warnings, cfg.message_id_header.is_some(), Side::Publisher, "http", "message_id_header");
            note_if(&mut warnings, cfg.internal_buffer_size.is_some(), Side::Publisher, "http", "internal_buffer_size");
            note_if(&mut warnings, cfg.fire_and_forget, Side::Publisher, "http", "fire_and_forget");
            note_if(&mut warnings, cfg.receive_streamable, Side::Publisher, "http", "receive_streamable");
        },
        EndpointType::RedisStreams(cfg) => {
            note_if(&mut warnings, cfg.group.is_some(), Side::Publisher, "redis_streams", "group");
            note_if(&mut warnings, cfg.consumer_name.is_some(), Side::Publisher, "redis_streams", "consumer_name");
            note_if(&mut warnings, cfg.subscriber_mode, Side::Publisher, "redis_streams", "subscriber_mode");
            note_if(&mut warnings, cfg.block_ms.is_some(), Side::Publisher, "redis_streams", "block_ms");
            note_if(&mut warnings, cfg.read_from_start, Side::Publisher, "redis_streams", "read_from_start");
            note_if(&mut warnings, cfg.redelivery_timeout_ms.is_some(), Side::Publisher, "redis_streams", "redelivery_timeout_ms");
            note_if(&mut warnings, cfg.internal_buffer_size.is_some(), Side::Publisher, "redis_streams", "internal_buffer_size");
        },
        EndpointType::Sqlx(cfg) => {
            note_if(&mut warnings, cfg.select_query.is_some(), Side::Publisher, "sqlx", "select_query");
            note_if(&mut warnings, cfg.delete_after_read, Side::Publisher, "sqlx", "delete_after_read");
            note_if(&mut warnings, cfg.polling_interval_ms.is_some(), Side::Publisher, "sqlx", "polling_interval_ms");
        },
        EndpointType::ClickHouse(cfg) => {
            note_if(&mut warnings, cfg.cursor_column.is_some(), Side::Publisher, "clickhouse", "cursor_column");
            note_if(&mut warnings, cfg.checkpoint_store.is_some(), Side::Publisher, "clickhouse", "checkpoint_store");
            note_if(&mut warnings, cfg.polling_interval_ms.is_some(), Side::Publisher, "clickhouse", "polling_interval_ms");
        },
        EndpointType::IbmMq(cfg) => {
            note_if(&mut warnings, cfg.wait_timeout_ms != 1000, Side::Publisher, "ibmmq", "wait_timeout_ms");
        },
        EndpointType::MongoDb(cfg) => {
            note_if(&mut warnings, cfg.polling_interval_ms.is_some(), Side::Publisher, "mongodb", "polling_interval_ms");
            note_if(&mut warnings, cfg.change_stream, Side::Publisher, "mongodb", "change_stream");
            note_if(&mut warnings, cfg.cursor_id.is_some(), Side::Publisher, "mongodb", "cursor_id");
        },
        EndpointType::ObjectStore(cfg) => {
            note_if(&mut warnings, cfg.checkpoint_store.is_some(), Side::Publisher, "object_store", "checkpoint_store");
            note_if(&mut warnings, cfg.cursor_id.is_some(), Side::Publisher, "object_store", "cursor_id");
            note_if(&mut warnings, cfg.polling_interval_ms.is_some(), Side::Publisher, "object_store", "polling_interval_ms");
            note_if(&mut warnings, cfg.max_object_bytes.is_some(), Side::Publisher, "object_store", "max_object_bytes");
        },
        EndpointType::Memory(cfg) => {
            note_if(&mut warnings, cfg.subscribe_mode, Side::Publisher, "memory", "subscribe_mode");
            note_if(&mut warnings, cfg.enable_nack, Side::Publisher, "memory", "enable_nack");
        },
        EndpointType::StreamBuffer(cfg) => {
            note_if(&mut warnings, cfg.correlation_id.is_some(), Side::Publisher, "stream_buffer", "correlation_id");
        },
        EndpointType::Sled(cfg) => {
            note_if(&mut warnings, cfg.read_from_start, Side::Publisher, "sled", "read_from_start");
            note_if(&mut warnings, cfg.delete_after_read, Side::Publisher, "sled", "delete_after_read");
        },
        _ => {},
    }
    warnings
}

/// Whether the policy forbids this type: it allows only listed types, and never
/// speaks of core types.
pub open spec fn forbidden(allowed: Option<Seq<Seq<char>>>, t: EndpointType) -> bool {
    match allowed {
        Some(names) => !is_core_type(t) && !names.contains(policy_name(t)),
        None => false,
    }
}

/// The message for a type that the policy forbids.
pub open spec fn forbidden_text(route: Seq<char>, name: Seq<char>) -> Seq<char> {
    "[route:"@ + route + "] Endpoint type '"@ + name + "' is not allowed by policy"@
}

/// A text behind the name of the route that it is about.
pub open spec fn on_route(route: Seq<char>, text: Seq<char>) -> Seq<char> {
    "[route:"@ + route + text
}

/// Whether one of the names is `name`.
fn listed(names: &[&str], name: &str) -> (res: bool)
    ensures
        res == names@.map_values(|s: &str| s@).contains(name@),
{
    let ghost all = names@.map_values(|s: &str| s@);
    let mut i: usize = 0;
    while i < names.len()
        invariant
            i <= names@.len(),
            all == names@.map_values(|s: &str| s@),
            forall|k: int| 0 <= k < i ==> #[trigger] all[k] != name@,
        decreases names@.len() - i,
    {
        if same(names[i], name) {
            assert(all[i as int] == name@);
            return true;
        }
        i += 1;
    }
    false
}

/// Refuses a type that the policy forbids.
fn enforce_policy(route_name: &str, t: &EndpointType, allowed_types: Option<&[&str]>) -> (res:
    Result<(), ConfigError>)
    ensures
        match res {
            Ok(_) => !forbidden(policy(allowed_types), *t),
            Err(e) => forbidden(policy(allowed_types), *t) && e.message@ == forbidden_text(
                route_name@,
                policy_name(*t),
            ),
        },
{
    if let Some(allowed) = allowed_types {
        if !t.is_core() && !listed(allowed, t.name()) {
            return Err(
                ConfigError {
                    message: join5(
                        "[route:",
                        route_name,
                        "] Endpoint type '",
                        t.name(),
                        "' is not allowed by policy",
                    ),
                },
            );
        }
    }
    Ok(())
}

/// Whether a type that has no role of its own on this side passes because the
/// policy names it.
pub open spec fn named_by_policy(allowed: Option<Seq<Seq<char>>>, t: EndpointType) -> bool {
    match allowed {
        Some(names) => names.contains(policy_name(t)),
        None => false,
    }
}

fn is_named_by_policy(t: &EndpointType, allowed_types: Option<&[&str]>) -> (res: bool)
    ensures
        res == named_by_policy(policy(allowed_types), *t),
{
    match allowed_types {
        Some(allowed) => listed(allowed, t.name()),
        None => false,
    }
}

/// Why an endpoint of this type cannot be an input, if it cannot.
pub open spec fn consumer_refusal(
    route: Seq<char>,
    t: EndpointType,
    allowed: Option<Seq<Seq<char>>>,
) -> Option<Seq<char>> {
    match t {
        EndpointType::Nats(cfg) if cfg.stream is None => Some(
            on_route(route, "] NATS consumer must specify a 'stream'"@),
        ),
        EndpointType::MongoDb(cfg) if mongo_consume(cfg) is Subscriber && cfg.format is Raw => Some(
            on_route(
                route,
                "] MongoDB raw format cannot be used with subscriber mode because raw documents do not include the seq ordering field"@,
            ),
        ),
        EndpointType::ClickHouse(cfg) if cfg.cursor_column is None => Some(
            "ClickHouse endpoint used as a consumer requires 'cursor_column' (ClickHouse has no native queue; only non-destructive cursor reads are supported)."@,
        ),
        EndpointType::PostgresCdc(cfg) if trim(cfg.publication@).len() == 0 => Some(
            "postgres_cdc consumer requires a 'publication' (defines which tables are captured)."@,
        ),
        EndpointType::StreamBuffer(cfg) if cfg.correlation_id is None => Some(
            on_route(route, "] stream_buffer consumer must specify 'correlation_id'"@),
        ),
        EndpointType::Switch(_) => Some(
            on_route(route, "] Switch endpoint is only supported as an output"@),
        ),
        EndpointType::Reader(_) => Some(
            on_route(route, "] Reader endpoint is only supported as an output"@),
        ),
        EndpointType::Fanout(_) | EndpointType::Request(_) | EndpointType::Response(_)
        | EndpointType::Null => if named_by_policy(allowed, t) {
            None
        } else {
            Some(unsupported_text(Side::Consumer, route, policy_name(t)))
        },
        _ => None,
    }
}

/// The message for a type that has no implementation in this role.
pub open spec fn unsupported_text(side: Side, route: Seq<char>, name: Seq<char>) -> Seq<char> {
    match side {
        Side::Consumer => "[route:"@ + route + "] Unsupported consumer endpoint type '"@ + name
            + "'"@,
        Side::Publisher => "[route:"@ + route + "] Unsupported publisher endpoint type '"@ + name
            + "'"@,
    }
}

fn refuse(route_name: &str, text: &str) -> (e: ConfigError)
    ensures
        e.message@ == on_route(route_name@, text@),
{
    ConfigError { message: join3("[route:", route_name, text) }
}

pub fn consumer_refused(
    route_name: &str,
    t: &EndpointType,
    allowed_types: Option<&[&str]>,
) -> (res: Option<ConfigError>)
    ensures
        match res {
            Some(e) => consumer_refusal(route_name@, *t, policy(allowed_types)) == Some(e.message@),
            None => consumer_refusal(route_name@, *t, policy(allowed_types)) is None,
        },
{
    match t {
        EndpointType::Nats(cfg) => {
            if cfg.stream.is_none() {
                return Some(refuse(route_name, "] NATS consumer must specify a 'stream'"));
            }
        },
        EndpointType::MongoDb(cfg) => {
            if cfg.resolved_consume() == MongoConsume::Subscriber && cfg.format
                == MongoDbFormat::Raw {
                return Some(
                    refuse(
                        route_name,
                        "] MongoDB raw format cannot be used with subscriber mode because raw documents do not include the seq ordering field",
                    ),
                );
            }
        },
        EndpointType::ClickHouse(cfg) => {
            if cfg.cursor_column.is_none() {
                return Some(
                    ConfigError {
                        message: "ClickHouse endpoint used as a consumer requires 'cursor_column' (ClickHouse has no native queue; only non-destructive cursor reads are supported).".to_owned(),
                    },
                );
            }
        },
        EndpointType::PostgresCdc(cfg) => {
            if trim_chars(chars_of(cfg.publication.as_str()).as_slice()).len() == 0 {
                return Some(
                    ConfigError {
                        message: "postgres_cdc consumer requires a 'publication' (defines which tables are captured).".to_owned(),
                    },
                );
            }
        },
        EndpointType::StreamBuffer(cfg) => {
            if cfg.correlation_id.is_none() {
                return Some(
                    refuse(route_name, "] stream_buffer consumer must specify 'correlation_id'"),
                );
            }
        },
        EndpointType::Switch(_) => {
            return Some(refuse(route_name, "] Switch endpoint is only supported as an output"));
        },
        EndpointType::Reader(_) => {
            return Some(refuse(route_name, "] Reader endpoint is only supported as an output"));
        },
        EndpointType::Fanout(_)
        | EndpointType::Request(_)
        | EndpointType::Response(_)
        | EndpointType::Null => {
            if !is_named_by_policy(t, allowed_types) {
                return Some(
                    ConfigError {
                        message: join5(
                            "[route:",
                            route_name,
                            "] Unsupported consumer endpoint type '",
                            t.name(),
                            "'",
                        ),
                    },
                );
            }
        },
        _ => {},
    }
    None
}

/// The message for a reference that no registry resolves.
pub open spec fn ref_missing_text(route: Seq<char>, name: Seq<char>, tail: Seq<char>) -> Seq<char> {
    "[route:"@ + route + "] Referenced endpoint '"@ + name + tail
}

/// What checking an input gives: the first refusal met on the way through
/// references, or the warnings of every endpoint passed.
pub open spec fn consumer_check(
    registry: Registry,
    route: Seq<char>,
    endpoint: Endpoint,
    depth: int,
    allowed: Option<Seq<Seq<char>>>,
) -> Result<Seq<Seq<char>>, Seq<char>>
    decreases MAX_DEPTH + 1 - depth,
{
    let t = endpoint.endpoint_type;
    let own = handler_warning(endpoint.handler is Some);
    if depth > MAX_DEPTH {
        Err("Ref recursion depth exceeded limit of 16"@)
    } else if forbidden(allowed, t) {
        Err(forbidden_text(route, policy_name(t)))
    } else if let EndpointType::Ref(name) = t {
        match registry.endpoint(name@) {
            None => Err(ref_missing_text(route, name@, "' not found"@)),
            Some(target) => after(
                own,
                consumer_check(registry, route, target, depth + 1, allowed),
            ),
        }
    } else {
        match consumer_refusal(route, t, allowed) {
            Some(text) => Err(text),
            None => Ok(own + consumer_warnings(t)),
        }
    }
}

/// A later result with the warnings gathered before it in front.
pub open spec fn after(
    earlier: Seq<Seq<char>>,
    later: Result<Seq<Seq<char>>, Seq<char>>,
) -> Result<Seq<Seq<char>>, Seq<char>> {
    match later {
        Ok(w) => Ok(earlier + w),
        Err(e) => Err(e),
    }
}

/// Appends `more` to `warnings`.
fn extend(warnings: &mut Vec<String>, more: Vec<String>)
    ensures
        texts(final(warnings)@) == texts(old(warnings)@) + texts(more@),
{
    let mut rest = more;
    warnings.append(&mut rest);
    assert(texts(warnings@) =~= texts(old(warnings)@) + texts(more@));
}

fn check_consumer_recursive(
    registry: &Registry,
    route_name: &str,
    endpoint: &Endpoint,
    depth: usize,
    allowed_types: Option<&[&str]>,
) -> (res: Result<Vec<String>, ConfigError>)
    requires
        depth <= MAX_DEPTH + 1,
    ensures
        outcome(res) == consumer_check(
            *registry,
            route_name@,
            *endpoint,
            depth as int,
            policy(allowed_types),
        ),
    decreases MAX_DEPTH + 1 - depth,
{
    if depth > MAX_DEPTH {
        return Err(
            ConfigError { message: "Ref recursion depth exceeded limit of 16".to_owned() },
        );
    }
    let mut warnings: Vec<String> = Vec::new();
    if endpoint.handler.is_some() {
        warnings.push(
            "Endpoint 'handler' is set on an input endpoint. Handlers are currently only supported on output endpoints (publishers) and will be ignored here.".to_owned(),
        );
    }
    assert(texts(warnings@) =~= handler_warning(endpoint.handler is Some));
    if let Err(e) = enforce_policy(route_name, &endpoint.endpoint_type, allowed_types) {
        return Err(e);
    }
    if let EndpointType::Ref(name) = &endpoint.endpoint_type {
        return match registry.get_endpoint(name.as_str()) {
            Some(referenced) => {
                match check_consumer_recursive(
                    registry,
                    route_name,
                    referenced,
                    depth + 1,
                    allowed_types,
                ) {
                    Ok(more) => {
                        extend(&mut warnings, more);
                        Ok(warnings)
                    },
                    Err(e) => Err(e),
                }
            },
            None => Err(
                ConfigError {
                    message: join5(
                        "[route:",
                        route_name,
                        "] Referenced endpoint '",
                        name.as_str(),
                        "' not found",
                    ),
                },
            ),
        };
    }
    match consumer_refused(route_name, &endpoint.endpoint_type, allowed_types) {
        Some(e) => Err(e),
        None => {
            extend(&mut warnings, consumer_notes(&endpoint.endpoint_type));
            Ok(warnings)
        },
    }
}

/// Validates the input configuration of a route.
pub fn check_consumer(
    registry: &Registry,
    route_name: &str,
    endpoint: &Endpoint,
    allowed_types: Option<&[&str]>,
) -> (res: Result<Vec<String>, ConfigError>)
    ensures
        outcome(res) == consumer_check(
            *registry,
            route_name@,
            *endpoint,
            0,
            policy(allowed_types),
        ),
{
    check_consumer_recursive(registry, route_name, endpoint, 0, allowed_types)
}

/// The endpoints that a composite output hands messages to, in the order in which
/// they are checked.
pub open spec fn outputs_of(t: EndpointType) -> Seq<Endpoint> {
    match t {
        EndpointType::Fanout(endpoints) => endpoints@,
        EndpointType::Switch(cfg) => cfg.cases@.map_values(|c: (String, Endpoint)| c.1) + (
        match cfg.default {
            Some(d) => seq![*d],
            None => seq![],
        }),
        EndpointType::Request(cfg) => seq![*cfg.to, *cfg.forward_to],
        _ => seq![],
    }
}

/// What checking an output gives: the first refusal met in the endpoints that it
/// hands messages to, or the warnings of all of them.
pub open spec fn publisher_check(
    registry: Registry,
    route: Seq<char>,
    endpoint: Endpoint,
    depth: int,
    allowed: Option<Seq<Seq<char>>>,
) -> Result<Seq<Seq<char>>, Seq<char>>
    decreases MAX_DEPTH + 1 - depth, 0int,
{
    let t = endpoint.endpoint_type;
    if forbidden(allowed, t) {
        Err(forbidden_text(route, policy_name(t)))
    } else if depth > MAX_DEPTH {
        Err("Fanout recursion depth exceeded limit of 16"@)
    } else {
        match t {
            EndpointType::Ref(name) => match registry.endpoint(name@) {
                Some(target) => publisher_check(registry, route, target, depth + 1, allowed),
                None => if registry.publishes(name@) {
                    Ok(seq![])
                } else {
                    Err(ref_missing_text(route, name@, "' not found in any registry"@))
                },
            },
            EndpointType::Fanout(_) | EndpointType::Switch(_)
            | EndpointType::Request(_) => publisher_check_from(
                registry,
                route,
                outputs_of(t),
                0,
                depth + 1,
                allowed,
            ),
            EndpointType::Reader(inner) => consumer_check(registry, route, *inner, 0, allowed),
            EndpointType::PostgresCdc(_) => if named_by_policy(allowed, t) {
                Ok(seq![])
            } else {
                Err(unsupported_text(Side::Publisher, route, policy_name(t)))
            },
            _ => Ok(publisher_warnings(t)),
        }
    }
}

/// What checking the outputs from position `i` on gives.
pub open spec fn publisher_check_from(
    registry: Registry,
    route: Seq<char>,
    endpoints: Seq<Endpoint>,
    i: int,
    depth: int,
    allowed: Option<Seq<Seq<char>>>,
) -> Result<Seq<Seq<char>>, Seq<char>>
    decreases MAX_DEPTH + 1 - depth, endpoints.len() - i + 1,
{
    if i >= endpoints.len() {
        Ok(seq![])
    } else {
        match publisher_check(registry, route, endpoints[i], depth, allowed) {
            Ok(w) => after(
                w,
                publisher_check_from(registry, route, endpoints, i + 1, depth, allowed),
            ),
            Err(e) => Err(e),
        }
    }
}

/// The warnings of each of these outputs, in order, where they pass.
pub open spec fn warnings_of_each(
    registry: Registry,
    route: Seq<char>,
    endpoints: Seq<Endpoint>,
    depth: int,
    allowed: Option<Seq<Seq<char>>>,
) -> Seq<Seq<Seq<char>>> {
    Seq::new(
        endpoints.len(),
        |i: int| publisher_check(registry, route, endpoints[i], depth, allowed)->Ok_0,
    )
}

proof fn lemma_outputs_from(
    registry: Registry,
    route: Seq<char>,
    endpoints: Seq<Endpoint>,
    i: int,
    depth: int,
    allowed: Option<Seq<Seq<char>>>,
)
    requires
        0 <= i <= endpoints.len(),
    ensures
        ({
            let res = publisher_check_from(registry, route, endpoints, i, depth, allowed);
            let each = warnings_of_each(registry, route, endpoints, depth, allowed);
            &&& res is Ok <==> forall|k: int|
                i <= k < endpoints.len() ==> publisher_check(
                    registry,
                    route,
                    #[trigger] endpoints[k],
                    depth,
                    allowed,
                ) is Ok
            &&& res matches Ok(w) ==> w == each.skip(i).flatten()
            &&& res matches Err(e) ==> exists|k: int|
                {
                    &&& i <= k < endpoints.len()
                    &&& publisher_check(registry, route, #[trigger] endpoints[k], depth, allowed)
                        == Err::<Seq<Seq<char>>, Seq<char>>(e)
                    &&& forall|j: int|
                        i <= j < k ==> publisher_check(
                            registry,
                            route,
                            #[trigger] endpoints[j],
                            depth,
                            allowed,
                        ) is Ok
                }
        }),
    decreases endpoints.len() - i,
{
    let res = publisher_check_from(registry, route, endpoints, i, depth, allowed);
    let each = warnings_of_each(registry, route, endpoints, depth, allowed);
    if i < endpoints.len() {
        lemma_outputs_from(registry, route, endpoints, i + 1, depth, allowed);
        let first = publisher_check(registry, route, endpoints[i], depth, allowed);
        assert(each.skip(i).drop_first() =~= each.skip(i + 1));
        if first is Ok {
            assert(each.skip(i).first() == first->Ok_0);
        }
    } else {
        assert(each.skip(i) =~= seq![]);
    }
}

/// Checking an output that hands messages to others comes down to checking each of
/// these: it passes exactly when all of them pass, its warnings are theirs in their
/// order, and its refusal is that of the first one that is refused.
pub proof fn law_check_distributes_over_outputs(
    registry: Registry,
    route: Seq<char>,
    endpoint: Endpoint,
    depth: int,
    allowed: Option<Seq<Seq<char>>>,
)
    requires
        depth <= MAX_DEPTH,
        !forbidden(allowed, endpoint.endpoint_type),
        endpoint.endpoint_type is Fanout || endpoint.endpoint_type is Switch
            || endpoint.endpoint_type is Request,
    ensures
        ({
            let es = outputs_of(endpoint.endpoint_type);
            let res = publisher_check(registry, route, endpoint, depth, allowed);
            &&& res is Ok <==> forall|k: int|
                0 <= k < es.len() ==> publisher_check(
                    registry,
                    route,
                    #[trigger] es[k],
                    depth + 1,
                    allowed,
                ) is Ok
            &&& res matches Ok(w) ==> w == warnings_of_each(
                registry,
                route,
                es,
                depth + 1,
                allowed,
            ).flatten()
            &&& res matches Err(e) ==> exists|k: int|
                {
                    &&& 0 <= k < es.len()
                    &&& publisher_check(registry, route, #[trigger] es[k], depth + 1, allowed)
                        == Err::<Seq<Seq<char>>, Seq<char>>(e)
                    &&& forall|j: int|
                        0 <= j < k ==> publisher_check(
                            registry,
                            route,
                            #[trigger] es[j],
                            depth + 1,
                            allowed,
                        ) is Ok
                }
        }),
        endpoint.endpoint_type matches EndpointType::Fanout(endpoints) ==> outputs_of(
            endpoint.endpoint_type,
        ) == endpoints@,
        endpoint.endpoint_type matches EndpointType::Request(cfg) ==> outputs_of(
            endpoint.endpoint_type,
        ) == seq![*cfg.to, *cfg.forward_to],
        !forbidden(None, endpoint.endpoint_type),
{
    let es = outputs_of(endpoint.endpoint_type);
    lemma_outputs_from(registry, route, es, 0, depth + 1, allowed);
    let each = warnings_of_each(registry, route, es, depth + 1, allowed);
    assert(each.skip(0) =~= each);
}

/// Checks the outputs of a composite endpoint.
fn check_outputs(
    registry: &Registry,
    route_name: &str,
    endpoints: &Vec<&Endpoint>,
    depth: usize,
    allowed_types: Option<&[&str]>,
) -> (res: Result<Vec<String>, ConfigError>)
    requires
        depth <= MAX_DEPTH + 1,
    ensures
        outcome(res) == publisher_check_from(
            *registry,
            route_name@,
            endpoints@.map_values(|e: &Endpoint| *e),
            0,
            depth as int,
            policy(allowed_types),
        ),
    decreases MAX_DEPTH + 1 - depth, 1int,
{
    let ghost all = endpoints@.map_values(|e: &Endpoint| *e);
    let mut warnings: Vec<String> = Vec::new();
    let mut i: usize = 0;
    proof {
        let rest = publisher_check_from(
            *registry,
            route_name@,
            all,
            0,
            depth as int,
            policy(allowed_types),
        );
        assert(texts(warnings@) =~= no_warnings());
        if rest is Ok {
            assert(no_warnings() + rest->Ok_0 =~= rest->Ok_0);
        }
    }
    while i < endpoints.len()
        invariant
            i <= endpoints@.len(),
            depth <= MAX_DEPTH + 1,
            all == endpoints@.map_values(|e: &Endpoint| *e),
            publisher_check_from(*registry, route_name@, all, 0, depth as int, policy(allowed_types))
                == after(
                texts(warnings@),
                publisher_check_from(
                    *registry,
                    route_name@,
                    all,
                    i as int,
                    depth as int,
                    policy(allowed_types),
                ),
            ),
        decreases endpoints@.len() - i,
    {
        assert(all[i as int] == *endpoints@[i as int]);
        let ghost before = texts(warnings@);
        match check_publisher_recursive(registry, route_name, endpoints[i], depth, allowed_types) {
            Ok(more) => {
                let ghost added = texts(more@);
                extend(&mut warnings, more);
                proof {
                    let rest = publisher_check_from(
                        *registry,
                        route_name@,
                        all,
                        i + 1,
                        depth as int,
                        policy(allowed_types),
                    );
                    if rest is Ok {
                        assert(before + (added + rest->Ok_0) =~= before + added + rest->Ok_0);
                    }
                }
            },
            Err(e) => {
                return Err(e);
            },
        }
        i += 1;
    }
    assert(texts(warnings@) + Seq::<Seq<char>>::empty() =~= texts(warnings@));
    Ok(warnings)
}

fn check_publisher_recursive(
    registry: &Registry,
    route_name: &str,
    endpoint: &Endpoint,
    depth: usize,
    allowed_types: Option<&[&str]>,
) -> (res: Result<Vec<String>, ConfigError>)
    requires
        depth <= MAX_DEPTH + 1,
    ensures
        outcome(res) == publisher_check(
            *registry,
            route_name@,
            *endpoint,
            depth as int,
            policy(allowed_types),
        ),
    decreases MAX_DEPTH + 1 - depth, 0int,
{
    if let Err(e) = enforce_policy(route_name, &endpoint.endpoint_type, allowed_types) {
        return Err(e);
    }
    if depth > MAX_DEPTH {
        return Err(
            ConfigError { message: "Fanout recursion depth exceeded limit of 16".to_owned() },
        );
    }
    match &endpoint.endpoint_type {
        EndpointType::Ref(name) => {
            if let Some(referenced) = registry.get_endpoint(name.as_str()) {
                return check_publisher_recursive(
                    registry,
                    route_name,
                    referenced,
                    depth + 1,
                    allowed_types,
                );
            }
            if has_name(&registry.publishers, name.as_str()) {
                let none: Vec<String> = Vec::new();
                assert(texts(none@) =~= no_warnings());
                return Ok(none);
            }
            Err(
                ConfigError {
                    message: join5(
                        "[route:",
                        route_name,
                        "] Referenced endpoint '",
                        name.as_str(),
                        "' not found in any registry",
                    ),
                },
            )
        },
        EndpointType::Fanout(_) | EndpointType::Switch(_) | EndpointType::Request(_) => {
            let outputs = collect_outputs(&endpoint.endpoint_type);
            check_outputs(registry, route_name, &outputs, depth + 1, allowed_types)
        },
        EndpointType::Reader(inner) => check_consumer(registry, route_name, inner, allowed_types),
        EndpointType::PostgresCdc(_) => {
            if is_named_by_policy(&endpoint.endpoint_type, allowed_types) {
                let none: Vec<String> = Vec::new();
                assert(texts(none@) =~= no_warnings());
                return Ok(none);
            }
            Err(
                ConfigError {
                    message: join5(
                        "[route:",
                        route_name,
                        "] Unsupported publisher endpoint type '",
                        endpoint.endpoint_type.name(),
                        "'",
                    ),
                },
            )
        },
        _ => Ok(publisher_notes(&endpoint.endpoint_type)),
    }
}

/// The endpoints that a composite output hands messages to.
pub fn collect_outputs<'a>(t: &'a EndpointType) -> (out: Vec<&'a Endpoint>)
    ensures
        out@.map_values(|e: &Endpoint| *e) == outputs_of(*t),
{
    let mut out: Vec<&'a Endpoint> = Vec::new();
    match t {
        EndpointType::Fanout(endpoints) => {
            let mut i: usize = 0;
            while i < endpoints.len()
                invariant
                    i <= endpoints@.len(),
                    out@.len() == i,
                    forall|k: int| 0 <= k < i ==> *#[trigger] out@[k] == endpoints@[k],
                decreases endpoints@.len() - i,
            {
                out.push(&endpoints[i]);
                i += 1;
            }
            assert(out@.map_values(|e: &Endpoint| *e) =~= endpoints@);
        },
        EndpointType::Switch(cfg) => {
            let ghost targets = cfg.cases@.map_values(|c: (String, Endpoint)| c.1);
            let mut i: usize = 0;
            while i < cfg.cases.len()
                invariant
                    i <= cfg.cases@.len(),
                    targets == cfg.cases@.map_values(|c: (String, Endpoint)| c.1),
                    out@.len() == i,
                    forall|k: int| 0 <= k < i ==> *#[trigger] out@[k] == targets[k],
                decreases cfg.cases@.len() - i,
            {
                out.push(&cfg.cases[i].1);
                i += 1;
            }
            if let Some(d) = &cfg.default {
                out.push(d);
            }
            assert(out@.map_values(|e: &Endpoint| *e) =~= outputs_of(*t));
        },
        EndpointType::Request(cfg) => {
            out.push(&cfg.to);
            out.push(&cfg.forward_to);
            assert(out@.map_values(|e: &Endpoint| *e) =~= outputs_of(*t));
        },
        _ => {
            assert(out@.map_values(|e: &Endpoint| *e) =~= outputs_of(*t));
        },
    }
    out
}

/// Validates the output configuration of a route.
pub fn check_publisher(
    registry: &Registry,
    route_name: &str,
    endpoint: &Endpoint,
    allowed_types: Option<&[&str]>,
) -> (res: Result<Vec<String>, ConfigError>)
    ensures
        outcome(res) == publisher_check(
            *registry,
            route_name@,
            *endpoint,
            0,
            policy(allowed_types),
        ),
{
    check_publisher_recursive(registry, route_name, endpoint, 0, allowed_types)
}

} // verus!
