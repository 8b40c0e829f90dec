//! Configuration model: endpoints, middlewares, routes and the registries that
//! references are looked up in.

use vstd::prelude::*;

use crate::text::same;

verus! {

/// TLS settings shared by the network endpoints.
#[derive(Debug, Default)]
pub struct TlsConfig {
    pub required: bool,
    pub ca_file: Option<String>,
    pub cert_file: Option<String>,
    pub key_file: Option<String>,
    pub cert_password: Option<String>,
    pub accept_invalid_certs: bool,
}

fn copy_text(text: &Option<String>) -> (out: Option<String>)
    ensures
        out == *text,
{
    match text {
        Some(t) => Some(t.clone()),
        None => None,
    }
}

impl TlsConfig {
    /// The same values again.
    pub fn copy(&self) -> (t: TlsConfig)
        ensures
            t == *self,
    {
        TlsConfig {
            required: self.required,
            ca_file: copy_text(&self.ca_file),
            cert_file: copy_text(&self.cert_file),
            key_file: copy_text(&self.key_file),
            cert_password: copy_text(&self.cert_password),
            accept_invalid_certs: self.accept_invalid_certs,
        }
    }

    /// Whether a server certificate and its key are both configured.
    pub fn is_tls_server_configured(&self) -> (res: bool)
        ensures
            res == (self.cert_file is Some && self.key_file is Some),
    {
        self.cert_file.is_some() && self.key_file.is_some()
    }
}

/// Identifies a command handler held by the application.
#[derive(Debug, Clone, Copy, PartialEq, Eq, Structural)]
pub struct HandlerId {
    pub id: u64,
}

#[derive(Debug, Default)]
pub struct AwsConfig {
    pub queue_url: Option<String>,
    pub topic_arn: Option<String>,
    pub max_messages: Option<i32>,
    pub wait_time_seconds: Option<i32>,
}

#[derive(Debug, Default)]
pub struct KafkaConfig {
    pub url: String,
    pub topic: Option<String>,
    pub group_id: Option<String>,
    pub delayed_ack: bool,
    pub producer_options: Option<Vec<(String, String)>>,
    pub consumer_options: Option<Vec<(String, String)>>,
}

#[derive(Debug, Default)]
pub struct NatsConfig {
    pub url: String,
    pub subject: Option<String>,
    pub stream: Option<String>,
    pub request_reply: bool,
    pub request_timeout_ms: Option<u64>,
    pub delayed_ack: bool,
    pub stream_max_messages: Option<i64>,
    pub stream_max_bytes: Option<i64>,
    pub subscriber_mode: bool,
    pub prefetch_count: Option<usize>,
}

#[derive(Debug, Default)]
pub struct AmqpConfig {
    pub url: String,
    pub queue: Option<String>,
    pub delayed_ack: bool,
    pub subscribe_mode: bool,
    pub prefetch_count: Option<u16>,
}

#[derive(Debug, Default)]
pub struct MqttConfig {
    pub url: String,
    pub topic: Option<String>,
    pub client_id: Option<String>,
    pub clean_session: bool,
    pub delayed_ack: bool,
}

#[derive(Debug, Default)]
pub struct ZeroMqConfig {
    pub url: String,
    pub topic: Option<String>,
}

#[derive(Debug, Default)]
pub struct RedisStreamsConfig {
    pub url: String,
    pub stream: Option<String>,
    pub maxlen: Option<usize>,
    pub approx_trim: Option<bool>,
    pub group: Option<String>,
    pub consumer_name: Option<String>,
    pub subscriber_mode: bool,
    pub block_ms: Option<u64>,
    pub read_from_start: bool,
    pub redelivery_timeout_ms: Option<u64>,
    pub internal_buffer_size: Option<usize>,
}

#[derive(Debug, Default)]
pub struct IbmMqConfig {
    pub url: String,
    pub queue: Option<String>,
    pub topic: Option<String>,
    pub wait_timeout_ms: i32,
}

/// How a MongoDB collection is consumed.
#[derive(Debug, Clone, Copy, PartialEq, Eq, Structural)]
pub enum MongoConsume {
    Consumer,
    Subscriber,
    CaptureNew,
    CaptureAll,
}

/// How a message is stored as a MongoDB document.
#[derive(Debug, Clone, Copy, Default, PartialEq, Eq, Structural)]
pub enum MongoDbFormat {
    #[default]
    Normal,
    Json,
    Text,
    Raw,
}

#[derive(Debug, Default)]
pub struct MongoDbConfig {
    pub url: String,
    pub username: Option<String>,
    pub password: Option<String>,
    pub database: String,
    pub collection: Option<String>,
    pub meta_collection: Option<String>,
    pub consume: Option<MongoConsume>,
    pub change_stream: bool,
    pub format: MongoDbFormat,
    pub polling_interval_ms: Option<u64>,
    pub reply_polling_ms: Option<u64>,
    pub request_reply: bool,
    pub request_timeout_ms: Option<u64>,
    pub ttl_seconds: Option<u64>,
    pub capped_size_bytes: Option<i64>,
    pub cursor_id: Option<String>,
    pub receive_query: Option<String>,
    pub checkpoint_store: Option<String>,
    pub id_field: Option<String>,
    pub report_outcome: bool,
    pub shared: Option<bool>,
    pub tls: TlsConfig,
}

/// The consume mode that a MongoDB configuration asks for.
pub open spec fn mongo_consume(cfg: MongoDbConfig) -> MongoConsume {
    match cfg.consume {
        Some(mode) => mode,
        None => if cfg.change_stream {
            MongoConsume::Subscriber
        } else {
            MongoConsume::Consumer
        },
    }
}

impl MongoDbConfig {
    /// A configuration with everything else at its default.
    pub fn new(url: &str, database: &str) -> (cfg: Self)
        ensures
            cfg.url@ == url@,
            cfg.database@ == database@,
            cfg.username is None,
            cfg.password is None,
            cfg.collection is None,
            cfg.meta_collection is None,
            cfg.consume is None,
            !cfg.change_stream,
            cfg.format is Normal,
            cfg.polling_interval_ms is None,
            cfg.reply_polling_ms is None,
            !cfg.request_reply,
            cfg.request_timeout_ms is None,
            cfg.ttl_seconds is None,
            cfg.capped_size_bytes is None,
            cfg.cursor_id is None,
            cfg.receive_query is None,
            cfg.checkpoint_store is None,
            cfg.id_field is None,
            !cfg.report_outcome,
            cfg.shared is None,
            !cfg.tls.required,
    {
        MongoDbConfig {
            url: url.to_owned(),
            username: None,
            password: None,
            database: database.to_owned(),
            collection: None,
            meta_collection: None,
            consume: None,
            change_stream: false,
            format: MongoDbFormat::Normal,
            polling_interval_ms: None,
            reply_polling_ms: None,
            request_reply: false,
            request_timeout_ms: None,
            ttl_seconds: None,
            capped_size_bytes: None,
            cursor_id: None,
            receive_query: None,
            checkpoint_store: None,
            id_field: None,
            report_outcome: false,
            shared: None,
            tls: TlsConfig {
                required: false,
                ca_file: None,
                cert_file: None,
                key_file: None,
                cert_password: None,
                accept_invalid_certs: false,
            },
        }
    }

    /// The consume mode: an explicit `consume` wins over the deprecated
    /// `change_stream` flag, and a durable queue consumer is the default.
    pub fn resolved_consume(&self) -> (mode: MongoConsume)
        ensures
            mode == mongo_consume(*self),
    {
        match self.consume {
            Some(mode) => mode,
            None => if self.change_stream {
                MongoConsume::Subscriber
            } else {
                MongoConsume::Consumer
            },
        }
    }
}

#[derive(Debug, Default)]
pub struct GrpcConfig {
    pub url: String,
    pub topic: Option<String>,
    pub server_mode: bool,
    pub server_streaming: bool,
    pub shared: Option<bool>,
    pub reflection: bool,
    pub descriptor_set_path: Option<String>,
    pub descriptor_set_bytes: Option<Vec<u8>>,
    pub service_name: Option<String>,
    pub method_name: Option<String>,
    /// The request of a dynamic source, as JSON text.
    pub request: Option<String>,
    pub consumer_id: Option<String>,
    pub initial_stream_window_size: Option<u32>,
    pub initial_connection_window_size: Option<u32>,
    pub concurrency_limit_per_connection: Option<usize>,
    pub http2_keepalive_interval_ms: Option<u64>,
    pub http2_keepalive_timeout_ms: Option<u64>,
    pub max_decoding_message_size: Option<usize>,
    pub max_encoding_message_size: Option<usize>,
    pub timeout_ms: Option<u64>,
    pub request_timeout_ms: Option<u64>,
    pub overall_timeout_ms: Option<u64>,
    pub idle_stream_timeout_ms: Option<u64>,
    pub connect_timeout_ms: Option<u64>,
    pub metadata: Vec<(String, String)>,
    pub binary_metadata: Vec<(String, Vec<u8>)>,
    pub bearer_token: Option<String>,
    pub api_key: Option<String>,
    pub api_key_name: Option<String>,
    pub tls: TlsConfig,
}

/// Which HTTP versions a server speaks.
#[derive(Debug, Clone, Copy, Default, PartialEq, Eq, Structural)]
pub enum HttpServerProtocol {
    #[default]
    Auto,
    Http1Only,
    Http2Only,
}

#[derive(Debug, Default)]
pub struct HttpConfig {
    pub url: String,
    pub path: Option<String>,
    pub method: Option<String>,
    pub workers: Option<usize>,
    pub message_id_header: Option<String>,
    pub request_timeout_ms: Option<u64>,
    pub internal_buffer_size: Option<usize>,
    pub fire_and_forget: bool,
    pub receive_streamable: bool,
    pub inline_response_fast_path: Option<bool>,
    pub batch_concurrency: Option<usize>,
    pub concurrency_limit: Option<usize>,
    pub tcp_keepalive_ms: Option<u64>,
    pub pool_idle_timeout_ms: Option<u64>,
    pub stream_response_to: Option<Box<Endpoint>>,
    pub basic_auth: Option<(String, String)>,
    pub compression_enabled: bool,
    pub compression_threshold_bytes: Option<usize>,
    pub custom_headers: Vec<(String, String)>,
    pub shared: Option<bool>,
    pub server_protocol: HttpServerProtocol,
    pub tls: TlsConfig,
}

impl HttpConfig {
    /// Whether replies may be produced inline, without the worker pipeline. They
    /// may unless the configuration says otherwise.
    pub fn inline_response_fast_path_enabled(&self) -> (res: bool)
        ensures
            res == (self.inline_response_fast_path != Some(false)),
    {
        match self.inline_response_fast_path {
            Some(on) => on,
            None => true,
        }
    }
}

#[derive(Debug, Default)]
pub struct ClickHouseConfig {
    pub url: String,
    pub cursor_column: Option<String>,
    pub columns: Option<Vec<String>>,
    pub async_insert: bool,
    pub checkpoint_store: Option<String>,
    pub polling_interval_ms: Option<u64>,
}

#[derive(Debug, Default)]
pub struct SqlxConfig {
    pub url: String,
    pub table: String,
    pub insert_query: Option<String>,
    pub select_query: Option<String>,
    pub delete_after_read: bool,
    pub polling_interval_ms: Option<u64>,
    pub cursor_column: Option<String>,
    pub cursor_id: Option<String>,
    pub checkpoint_store: Option<String>,
    pub publication: Option<String>,
    pub slot_name: Option<String>,
    pub create_publication: bool,
    pub tls: TlsConfig,
}

#[derive(Debug, Default)]
pub struct PostgresCdcConfig {
    pub url: String,
    pub publication: String,
    pub slot_name: String,
    pub create_slot: bool,
    pub create_publication: bool,
    pub publication_tables: Vec<String>,
    pub temporary_slot: bool,
    pub cursor_id: Option<String>,
    pub checkpoint_store: Option<String>,
    pub status_interval_ms: u64,
    pub tls: TlsConfig,
}

#[derive(Debug, Default)]
pub struct SledConfig {
    pub path: String,
    pub read_from_start: bool,
    pub delete_after_read: bool,
}

#[derive(Debug, Default)]
pub struct StaticConfig {
    pub body: String,
    pub metadata: Vec<(String, String)>,
}

#[derive(Debug, Default)]
pub struct MemoryConfig {
    pub topic: String,
    pub capacity: Option<usize>,
    pub request_reply: bool,
    pub request_timeout_ms: Option<u64>,
    pub subscribe_mode: bool,
    pub enable_nack: bool,
}

impl MemoryConfig {
    /// A queue on `topic`.
    pub fn new(topic: &str, capacity: Option<usize>) -> (cfg: Self)
        ensures
            cfg.topic@ == topic@,
            cfg.capacity == capacity,
            !cfg.request_reply,
            cfg.request_timeout_ms is None,
            !cfg.subscribe_mode,
            !cfg.enable_nack,
    {
        MemoryConfig {
            topic: topic.to_owned(),
            capacity,
            request_reply: false,
            request_timeout_ms: None,
            subscribe_mode: false,
            enable_nack: false,
        }
    }
}

#[derive(Debug, Default)]
pub struct StreamBufferConfig {
    pub topic: String,
    pub correlation_id: Option<String>,
    pub capacity: Option<usize>,
}

#[derive(Debug, Default)]
pub struct FileConfig {
    pub path: String,
}

#[derive(Debug, Default)]
pub struct ObjectStoreConfig {
    pub url: String,
    pub extension: Option<String>,
    pub date_partition: bool,
    pub checkpoint_store: Option<String>,
    pub cursor_id: Option<String>,
    pub polling_interval_ms: Option<u64>,
    pub max_object_bytes: Option<u64>,
}

/// Whether a WebSocket route answers directly or through the route workers.
#[derive(Debug, Clone, Copy, Default, PartialEq, Eq, Structural)]
pub enum WebSocketExecutionMode {
    #[default]
    Auto,
    DirectOnly,
    Routed,
}

#[derive(Debug, Default)]
pub struct WebSocketConfig {
    pub url: String,
    pub execution_mode: WebSocketExecutionMode,
}

impl WebSocketConfig {
    /// A WebSocket endpoint that picks its execution mode itself.
    pub fn new(url: &str) -> (cfg: Self)
        ensures
            cfg.url@ == url@,
            cfg.execution_mode is Auto,
    {
        WebSocketConfig { url: url.to_owned(), execution_mode: WebSocketExecutionMode::Auto }
    }

    /// The same endpoint with the given execution mode.
    pub fn with_execution_mode(self, execution_mode: WebSocketExecutionMode) -> (cfg: Self)
        ensures
            cfg.url == self.url,
            cfg.execution_mode == execution_mode,
    {
        WebSocketConfig { url: self.url, execution_mode }
    }
}

#[derive(Debug)]
pub struct SwitchConfig {
    pub metadata_key: String,
    pub cases: Vec<(String, Endpoint)>,
    pub default: Option<Box<Endpoint>>,
}

#[derive(Debug)]
pub struct RequestConfig {
    pub to: Box<Endpoint>,
    pub forward_to: Box<Endpoint>,
}

#[derive(Debug, Clone, Copy)]
pub struct ResponseConfig {

}

impl Default for ResponseConfig {
    fn default() -> (cfg: Self)
        ensures
            cfg == (ResponseConfig {  }),
    {
        ResponseConfig {  }
    }
}

/// What an endpoint connects to.
#[derive(Debug)]
pub enum EndpointType {
    Ref(String),
    Aws(AwsConfig),
    Kafka(KafkaConfig),
    Nats(NatsConfig),
    Amqp(AmqpConfig),
    Mqtt(MqttConfig),
    ZeroMq(ZeroMqConfig),
    RedisStreams(RedisStreamsConfig),
    IbmMq(IbmMqConfig),
    MongoDb(MongoDbConfig),
    Grpc(GrpcConfig),
    Http(HttpConfig),
    ClickHouse(ClickHouseConfig),
    Sqlx(SqlxConfig),
    PostgresCdc(PostgresCdcConfig),
    Sled(SledConfig),
    Static(StaticConfig),
    Memory(MemoryConfig),
    StreamBuffer(StreamBufferConfig),
    File(FileConfig),
    ObjectStore(ObjectStoreConfig),
    WebSocket(WebSocketConfig),
    Custom { name: String, config: String },
    Switch(SwitchConfig),
    Reader(Box<Endpoint>),
    Fanout(Vec<Endpoint>),
    Request(RequestConfig),
    Response(ResponseConfig),
    Null,
}

/// The policy name of an endpoint type.
pub open spec fn policy_name(t: EndpointType) -> Seq<char> {
    match t {
        EndpointType::Ref(_) => "ref"@,
        EndpointType::Aws(_) => "aws"@,
        EndpointType::Kafka(_) => "kafka"@,
        EndpointType::Nats(_) => "nats"@,
        EndpointType::Amqp(_) => "amqp"@,
        EndpointType::Mqtt(_) => "mqtt"@,
        EndpointType::ZeroMq(_) => "zeromq"@,
        EndpointType::RedisStreams(_) => "redis_streams"@,
        EndpointType::IbmMq(_) => "ibmmq"@,
        EndpointType::MongoDb(_) => "mongodb"@,
        EndpointType::Grpc(_) => "grpc"@,
        EndpointType::Http(_) => "http"@,
        EndpointType::ClickHouse(_) => "clickhouse"@,
        EndpointType::Sqlx(_) => "sqlx"@,
        EndpointType::PostgresCdc(_) => "postgres_cdc"@,
        EndpointType::Sled(_) => "sled"@,
        EndpointType::Static(_) => "static"@,
        EndpointType::Memory(_) => "memory"@,
        EndpointType::StreamBuffer(_) => "stream_buffer"@,
        EndpointType::File(_) => "file"@,
        EndpointType::ObjectStore(_) => "object_store"@,
        EndpointType::WebSocket(_) => "websocket"@,
        EndpointType::Custom { .. } => "custom"@,
        EndpointType::Switch(_) => "switch"@,
        EndpointType::Reader(_) => "reader"@,
        EndpointType::Fanout(_) => "fanout"@,
        EndpointType::Request(_) => "request"@,
        EndpointType::Response(_) => "response"@,
        EndpointType::Null => "null"@,
    }
}

/// Whether an endpoint type is part of the bridge itself and so never subject to
/// the endpoint policy.
pub open spec fn is_core_type(t: EndpointType) -> bool {
    match t {
        EndpointType::Ref(_) => true,
        EndpointType::Static(_) => true,
        EndpointType::Memory(_) => true,
        EndpointType::StreamBuffer(_) => true,
        EndpointType::File(_) => true,
        EndpointType::Custom { .. } => true,
        EndpointType::Switch(_) => true,
        EndpointType::Reader(_) => true,
        EndpointType::Fanout(_) => true,
        EndpointType::Request(_) => true,
        EndpointType::Response(_) => true,
        EndpointType::Null => true,
        _ => false,
    }
}

impl EndpointType {
    /// The policy name of the type.
    pub fn name(&self) -> (res: &'static str)
        ensures
            res@ == policy_name(*self),
    {
        match self {
            EndpointType::Ref(_) => "ref",
            EndpointType::Aws(_) => "aws",
            EndpointType::Kafka(_) => "kafka",
            EndpointType::Nats(_) => "nats",
            EndpointType::Amqp(_) => "amqp",
            EndpointType::Mqtt(_) => "mqtt",
            EndpointType::ZeroMq(_) => "zeromq",
            EndpointType::RedisStreams(_) => "redis_streams",
            EndpointType::IbmMq(_) => "ibmmq",
            EndpointType::MongoDb(_) => "mongodb",
            EndpointType::Grpc(_) => "grpc",
            EndpointType::Http(_) => "http",
            EndpointType::ClickHouse(_) => "clickhouse",
            EndpointType::Sqlx(_) => "sqlx",
            EndpointType::PostgresCdc(_) => "postgres_cdc",
            EndpointType::Sled(_) => "sled",
            EndpointType::Static(_) => "static",
            EndpointType::Memory(_) => "memory",
            EndpointType::StreamBuffer(_) => "stream_buffer",
            EndpointType::File(_) => "file",
            EndpointType::ObjectStore(_) => "object_store",
            EndpointType::WebSocket(_) => "websocket",
            EndpointType::Custom { .. } => "custom",
            EndpointType::Switch(_) => "switch",
            EndpointType::Reader(_) => "reader",
            EndpointType::Fanout(_) => "fanout",
            EndpointType::Request(_) => "request",
            EndpointType::Response(_) => "response",
            EndpointType::Null => "null",
        }
    }

    /// Whether the type is part of the bridge itself.
    pub fn is_core(&self) -> (res: bool)
        ensures
            res == is_core_type(*self),
    {
        matches!(
            self,
            EndpointType::Ref(_)
                | EndpointType::Static(_)
                | EndpointType::Memory(_)
                | EndpointType::StreamBuffer(_)
                | EndpointType::File(_)
                | EndpointType::Custom { .. }
                | EndpointType::Switch(_)
                | EndpointType::Reader(_)
                | EndpointType::Fanout(_)
                | EndpointType::Request(_)
                | EndpointType::Response(_)
                | EndpointType::Null
        )
    }
}

#[derive(Debug)]
pub struct DeduplicationMiddleware {
    pub store: Option<String>,
    pub sled_path: Option<String>,
    pub ttl_seconds: u64,
}

#[derive(Debug, Clone, Copy)]
pub struct MetricsMiddleware {

}

#[derive(Debug)]
pub struct DeadLetterQueueMiddleware {
    pub endpoint: Endpoint,
}

impl Default for DeadLetterQueueMiddleware {
    fn default() -> (dlq: Self)
        ensures
            dlq.endpoint.endpoint_type is Null,
            dlq.endpoint.middlewares@ == Seq::<Middleware>::empty(),
            dlq.endpoint.handler is None,
    {
        DeadLetterQueueMiddleware {
            endpoint: Endpoint {
                endpoint_type: EndpointType::Null,
                middlewares: Vec::new(),
                handler: None,
            },
        }
    }
}

/// Retry settings. The multiplier is held in hundredths.
#[derive(Debug, Clone, Copy)]
pub struct RetryMiddleware {
    pub max_attempts: usize,
    pub initial_interval_ms: u64,
    pub max_interval_ms: u64,
    pub multiplier_hundredths: u64,
}

impl Default for RetryMiddleware {
    fn default() -> (retry: Self)
        ensures
            retry == (RetryMiddleware {
                max_attempts: 3,
                initial_interval_ms: 100,
                max_interval_ms: 5000,
                multiplier_hundredths: 200,
            }),
    {
        RetryMiddleware {
            max_attempts: 3,
            initial_interval_ms: 100,
            max_interval_ms: 5000,
            multiplier_hundredths: 200,
        }
    }
}

#[derive(Debug, Clone, Copy)]
pub struct BufferMiddleware {
    pub max_messages: usize,
    pub max_delay_ms: u64,
}

#[derive(Debug, Clone, Copy)]
pub struct DelayMiddleware {
    pub delay_ms: u64,
}

/// A rate limit, held in thousandths of a message per second.
#[derive(Debug, Clone, Copy)]
pub struct LimiterMiddleware {
    pub millimessages_per_second: u64,
}

/// A step that a message passes around an endpoint.
#[derive(Debug)]
pub enum Middleware {
    Deduplication(DeduplicationMiddleware),
    Metrics(MetricsMiddleware),
    Dlq(Box<DeadLetterQueueMiddleware>),
    Retry(RetryMiddleware),
    Buffer(BufferMiddleware),
    Delay(DelayMiddleware),
    Limiter(LimiterMiddleware),
}

/// One end of a route.
#[derive(Debug)]
pub struct Endpoint {
    pub endpoint_type: EndpointType,
    pub middlewares: Vec<Middleware>,
    pub handler: Option<HandlerId>,
}

/// Settings of a route beyond its two ends.
#[derive(Debug)]
pub struct RouteOptions {
    pub description: String,
    pub concurrency: usize,
    pub batch_size: usize,
    pub commit_concurrency_limit: usize,
}

impl Default for RouteOptions {
    fn default() -> (options: Self)
        ensures
            options.description@ == Seq::<char>::empty(),
            options.concurrency == 1,
            options.batch_size == 1,
            options.commit_concurrency_limit == 4096,
    {
        RouteOptions {
            description: String::new(),
            concurrency: 1,
            batch_size: 1,
            commit_concurrency_limit: 4096,
        }
    }
}

/// A path that messages take from an input to an output.
#[derive(Debug)]
pub struct Route {
    pub input: Endpoint,
    pub output: Endpoint,
    pub options: RouteOptions,
}

impl Route {
    /// A route with default options.
    pub fn new(input: Endpoint, output: Endpoint) -> (route: Self)
        ensures
            route.input == input,
            route.output == output,
            route.options.description@ == Seq::<char>::empty(),
            route.options.concurrency == 1,
            route.options.batch_size == 1,
            route.options.commit_concurrency_limit == 4096,
    {
        Route { input, output, options: RouteOptions::default() }
    }
}

/// The registries that names in a configuration refer to: endpoints, ready-made
/// publishers, and factories for custom endpoints.
#[derive(Debug, Default)]
pub struct Registry {
    pub endpoints: Vec<(String, Endpoint)>,
    pub publishers: Vec<String>,
    pub factories: Vec<String>,
}

/// The endpoint registered under `name` at or after position `i`: the first one.
pub open spec fn endpoint_from(entries: Seq<(String, Endpoint)>, name: Seq<char>, i: int) -> Option<
    Endpoint,
>
    decreases entries.len() - i,
{
    if i >= entries.len() {
        None
    } else if entries[i].0@ == name {
        Some(entries[i].1)
    } else {
        endpoint_from(entries, name, i + 1)
    }
}

/// Whether one of the strings is `name`.
pub open spec fn names_contain(names: Seq<String>, name: Seq<char>) -> bool {
    exists|i: int| 0 <= i < names.len() && #[trigger] names[i]@ == name
}

/// Whether one of the strings is `name`.
pub fn has_name(names: &Vec<String>, name: &str) -> (res: bool)
    ensures
        res == names_contain(names@, name@),
{
    let mut i: usize = 0;
    while i < names.len()
        invariant
            i <= names@.len(),
            forall|k: int| 0 <= k < i ==> #[trigger] names@[k]@ != name@,
        decreases names@.len() - i,
    {
        if same(names[i].as_str(), name) {
            return true;
        }
        i += 1;
    }
    false
}

impl Registry {
    /// The endpoint registered under `name`.
    pub open spec fn endpoint(self, name: Seq<char>) -> Option<Endpoint> {
        endpoint_from(self.endpoints@, name, 0)
    }

    /// Whether a ready-made publisher is registered under `name`.
    pub open spec fn publishes(self, name: Seq<char>) -> bool {
        names_contain(self.publishers@, name)
    }

    /// Whether a factory for custom endpoints is registered under `name`.
    pub open spec fn makes(self, name: Seq<char>) -> bool {
        names_contain(self.factories@, name)
    }

    /// Looks an endpoint up by name.
    pub fn get_endpoint<'a>(&'a self, name: &str) -> (found: Option<&'a Endpoint>)
        ensures
            match found {
                Some(e) => self.endpoint(name@) == Some(*e),
                None => self.endpoint(name@) is None,
            },
    {
        let mut i: usize = 0;
        while i < self.endpoints.len()
            invariant
                i <= self.endpoints@.len(),
                self.endpoint(name@) == endpoint_from(self.endpoints@, name@, i as int),
            decreases self.endpoints@.len() - i,
        {
            if same(self.endpoints[i].0.as_str(), name) {
                return Some(&self.endpoints[i].1);
            }
            i += 1;
        }
        None
    }
}

} // verus!
