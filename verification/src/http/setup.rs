//! Setting up an HTTP consumer: its settings, its listeners and the server that it
//! shares with others.

use vstd::prelude::*;

use crate::http::auth::config_auth;
use crate::http::publisher::{config_pairs, headers_of, is_http_method, is_method, with_scheme};
use crate::http::response::ResponseSettings;
use crate::http::router::RouteKey;
use crate::http::server::HttpConsumerState;
use crate::message::{CanonicalMessage, ConsumerError, ReceiveFailure};
use crate::models::{HttpConfig, HttpServerProtocol, TlsConfig};
use crate::numbers::{decimal, decimal_text};
use crate::status::{
    optional_detail, plain_status, push_detail, reachable, text_or_absent, EndpointStatus,
    EndpointStatusView,
};
use crate::text::{
    chars_of, join2, join3, lower_all, lower_chars, opt, same, string_of, trim, trim_chars,
};

verus! {

/// A path with a slash in front: none for a blank one.
pub open spec fn normal_path(path: Option<Seq<char>>) -> Option<Seq<char>> {
    match path {
        Some(p) => {
            let t = trim(p);
            if t.len() == 0 {
                None
            } else if t[0] == '/' {
                Some(t)
            } else {
                Some("/"@ + t)
            }
        },
        None => None,
    }
}

/// A path with a slash in front.
pub fn normalize_http_path(path: Option<&str>) -> (out: Option<String>)
    ensures
        opt(out) == normal_path(
            match path {
                Some(p) => Some(p@),
                None => None,
            },
        ),
{
    match path {
        Some(p) => {
            let all = chars_of(p);
            let trimmed = trim_chars(all.as_slice());
            if trimmed.len() == 0 {
                return None;
            }
            let text = string_of(trimmed);
            if trimmed[0] == '/' {
                Some(text)
            } else {
                Some(join2("/", text.as_str()))
            }
        },
        None => None,
    }
}

/// A consumer of requests: what it is registered for, how it answers, and how many
/// requests may wait.
#[derive(Debug)]
pub struct HttpConsumer {
    pub route: RouteKey,
    pub state: HttpConsumerState,
    /// How many requests may wait for the pipeline.
    pub buffer_size: usize,
}

/// A number, or one where it is zero.
pub open spec fn at_least_one(n: usize) -> usize {
    if n < 1 {
        1
    } else {
        n
    }
}

/// The optional text in a configuration.
fn copy_text(o: &Option<String>) -> (out: Option<String>)
    ensures
        opt(out) == opt(*o),
{
    match o {
        Some(s) => Some(s.clone()),
        None => None,
    }
}

/// Whether `res` is what a configuration makes of a consumer. Without other words a
/// thousand requests may wait, a request may take thirty seconds, its identifier is in
/// `message-id`, bodies from a kilobyte on may be compressed, and a hundred requests
/// run at once.
pub open spec fn consumer_made(
    config: HttpConfig,
    inline: bool,
    inline_echo: bool,
    res: Result<HttpConsumer, String>,
) -> bool {
    match res {
        Ok(s) => {
            &&& config.method is None || is_method(config.method->0@)
            &&& s.buffer_size == (match config.internal_buffer_size {
                Some(n) => at_least_one(n),
                None => 1024,
            })
            &&& opt(s.route.path) == normal_path(opt(config.path))
            &&& opt(s.route.method) == opt(config.method)
            &&& s.state.inline == inline
            &&& s.state.inline_echo == inline_echo
            &&& s.state.message_id_header@ == (match config.message_id_header {
                Some(h) => h@,
                None => "message-id"@,
            })
            &&& s.state.request_timeout_ms == (match config.request_timeout_ms {
                Some(t) => t,
                None => 30000,
            })
            &&& s.state.fire_and_forget == config.fire_and_forget
            &&& s.state.receive_streamable == config.receive_streamable
            &&& config_auth(s.state.basic_auth) == config_auth(config.basic_auth)
            &&& s.state.response.compression_enabled == config.compression_enabled
            &&& s.state.response.compression_threshold_bytes == (match
            config.compression_threshold_bytes {
                Some(n) => n,
                None => 1024,
            })
            &&& s.state.response.custom_headers@ == config_pairs(config.custom_headers@)
            &&& s.state.concurrency_limit == (match config.concurrency_limit {
                Some(n) => n,
                None => 100,
            })
        },
        Err(e) => config.method is Some && !is_method(config.method->0@) && e@
            == "Invalid config.method: '"@ + config.method->0@ + "'"@,
    }
}

impl HttpConsumer {
    /// A consumer that queues its requests.
    pub fn new(config: &HttpConfig) -> (res: Result<HttpConsumer, String>)
        ensures
            consumer_made(*config, false, false, res),
    {
        setup_http_state(config, false, false)
    }

    /// A consumer that answers its requests itself, with a publisher or as an echo.
    pub fn new_with_inline_publisher(config: &HttpConfig, inline_echo: bool) -> (res: Result<
        HttpConsumer,
        String,
    >)
        ensures
            consumer_made(*config, true, inline_echo, res),
    {
        setup_http_state(config, true, inline_echo)
    }

    /// What the consumer reports, given the URL that it can be reached at, the address
    /// that it listens on, and how many requests wait.
    pub fn status(&self, url: &str, bound_addr: &Option<String>, pending: usize) -> (s:
        EndpointStatus)
        ensures
            s@ == (EndpointStatusView {
                pending: Some(pending),
                capacity: Some(self.buffer_size),
                ..plain_status(
                    url@,
                    None,
                    seq![("bound_addr"@, text_or_absent(opt(*bound_addr)))],
                )
            }),
    {
        let mut s = reachable(url);
        s.pending = Some(pending);
        s.capacity = Some(self.buffer_size);
        push_detail(&mut s.details, "bound_addr", optional_detail(bound_addr));
        s
    }
}

/// Reads the settings of a consumer.
pub fn setup_http_state(config: &HttpConfig, inline: bool, inline_echo: bool) -> (res: Result<
    HttpConsumer,
    String,
>)
    ensures
        consumer_made(*config, inline, inline_echo, res),
{
    if let Some(m) = &config.method {
        if !is_http_method(m.as_str()) {
            return Err(join3("Invalid config.method: '", m.as_str(), "'"));
        }
    }
    let buffer_size: usize = match config.internal_buffer_size {
        Some(n) => if n < 1 {
            1
        } else {
            n
        },
        None => 1024,
    };
    let message_id_header = match &config.message_id_header {
        Some(h) => h.clone(),
        None => "message-id".to_owned(),
    };
    let request_timeout_ms: u64 = match config.request_timeout_ms {
        Some(t) => t,
        None => 30000,
    };
    let compression_threshold_bytes: usize = match config.compression_threshold_bytes {
        Some(n) => n,
        None => 1024,
    };
    let concurrency_limit: usize = match config.concurrency_limit {
        Some(n) => n,
        None => 100,
    };
    let basic_auth = match &config.basic_auth {
        Some(p) => Some((p.0.clone(), p.1.clone())),
        None => None,
    };
    let path = match &config.path {
        Some(p) => normalize_http_path(Some(p.as_str())),
        None => None,
    };
    Ok(
        HttpConsumer {
            route: RouteKey { path, method: copy_text(&config.method) },
            state: HttpConsumerState {
                inline,
                inline_echo,
                message_id_header,
                request_timeout_ms,
                fire_and_forget: config.fire_and_forget,
                receive_streamable: config.receive_streamable,
                basic_auth,
                response: ResponseSettings {
                    compression_enabled: config.compression_enabled,
                    compression_threshold_bytes,
                    custom_headers: headers_of(&config.custom_headers),
                },
                concurrency_limit,
            },
            buffer_size,
        },
    )
}

/// How many workers accept connections: the configured number, or one for each
/// processor.
pub fn worker_count(configured: Option<usize>, parallelism: usize) -> (n: usize)
    ensures
        n == (if configured is None || configured == Some(0usize) {
            parallelism
        } else {
            configured->0
        }),
{
    match configured {
        Some(n) => if n == 0 {
            parallelism
        } else {
            n
        },
        None => parallelism,
    }
}

/// The address that a consumer can be reached at: the configured one, or with the port
/// that was bound where it asks for any.
pub open spec fn reachable_address(
    url: Seq<char>,
    configured: Option<(Seq<char>, u16)>,
    bound_port: Option<u16>,
) -> Seq<char> {
    match configured {
        Some((host, port)) => if port == 0 && bound_port is Some {
            host + ":"@ + decimal(bound_port->0 as nat)
        } else {
            url
        },
        None => url,
    }
}

/// The URL that a consumer can be reached at. `configured` is the host and the port of
/// the configured address, where it is one, with the host written as in an address.
pub fn build_consumer_target_url(
    config: &HttpConfig,
    configured: Option<(&str, u16)>,
    bound_port: Option<u16>,
) -> (url: String)
    ensures
        ({
            let c = match configured {
                Some((h, p)) => Some((h@, p)),
                None => None,
            };
            let base = with_scheme(
                config.tls.required,
                reachable_address(config.url@, c, bound_port),
            );
            url@ == (match normal_path(opt(config.path)) {
                Some(p) => base + p,
                None => base,
            })
        }),
{
    let base = match configured {
        Some((host, port)) => match bound_port {
            Some(bound) => if port == 0 {
                let number = decimal_text(bound as u128);
                join3(host, ":", number.as_str())
            } else {
                config.url.clone()
            },
            None => config.url.clone(),
        },
        None => config.url.clone(),
    };
    let mut url = config.tls.normalize_url(base.as_str());
    if let Some(p) = &config.path {
        if let Some(path) = normalize_http_path(Some(p.as_str())) {
            url.append(path.as_str());
        }
    }
    url
}

/// What servers are told apart by.
#[derive(Debug)]
pub struct HttpServerKey {
    pub listen_addr: String,
    pub tls: TlsConfig,
    pub workers: usize,
    pub server_protocol: HttpServerProtocol,
}

/// Whether two TLS configurations hold the same values.
pub open spec fn same_tls(a: TlsConfig, b: TlsConfig) -> bool {
    &&& a.required == b.required
    &&& opt(a.ca_file) == opt(b.ca_file)
    &&& opt(a.cert_file) == opt(b.cert_file)
    &&& opt(a.key_file) == opt(b.key_file)
    &&& opt(a.cert_password) == opt(b.cert_password)
    &&& a.accept_invalid_certs == b.accept_invalid_certs
}

/// Whether two keys are for the same server.
pub open spec fn same_server(a: HttpServerKey, b: HttpServerKey) -> bool {
    &&& a.listen_addr@ == b.listen_addr@
    &&& same_tls(a.tls, b.tls)
    &&& a.workers == b.workers
    &&& a.server_protocol == b.server_protocol
}

fn same_text(a: &Option<String>, b: &Option<String>) -> (res: bool)
    ensures
        res == (opt(*a) == opt(*b)),
{
    match a {
        Some(x) => match b {
            Some(y) => same(x.as_str(), y.as_str()),
            None => false,
        },
        None => b.is_none(),
    }
}

/// Whether two TLS configurations hold the same values.
pub fn same_tls_values(a: &TlsConfig, b: &TlsConfig) -> (res: bool)
    ensures
        res == same_tls(*a, *b),
{
    a.required == b.required && same_text(&a.ca_file, &b.ca_file) && same_text(
        &a.cert_file,
        &b.cert_file,
    ) && same_text(&a.key_file, &b.key_file) && same_text(&a.cert_password, &b.cert_password)
        && a.accept_invalid_certs == b.accept_invalid_certs
}

fn is_same_server(a: &HttpServerKey, b: &HttpServerKey) -> (res: bool)
    ensures
        res == same_server(*a, *b),
{
    same(a.listen_addr.as_str(), b.listen_addr.as_str()) && same_tls_values(&a.tls, &b.tls)
        && a.workers == b.workers && a.server_protocol == b.server_protocol
}

/// What a look at the running servers gives.
#[derive(Debug)]
pub enum ServerLookup {
    /// The server at this position listens there with the same settings.
    Reuse(usize),
    /// A server listens there with other settings.
    Conflict(String),
    /// No server listens there.
    Absent,
}

/// The first server at or after `i` that listens on an address, or the length.
pub open spec fn listening(servers: Seq<HttpServerKey>, addr: Seq<char>, i: int) -> int
    decreases servers.len() - i,
{
    if i >= servers.len() {
        servers.len() as int
    } else if servers[i].listen_addr@ == addr {
        i
    } else {
        listening(servers, addr, i + 1)
    }
}

/// Looks for a server that can be shared. A port that the system picks is never
/// shared; an address with a server of other settings cannot be.
pub fn find_shared_server(
    servers: &Vec<HttpServerKey>,
    key: &HttpServerKey,
    ephemeral: bool,
) -> (res: ServerLookup)
    ensures
        ({
            let i = listening(servers@, key.listen_addr@, 0);
            if ephemeral || i >= servers@.len() {
                res is Absent
            } else if same_server(servers@[i], *key) {
                res matches ServerLookup::Reuse(k) && k == i
            } else {
                res matches ServerLookup::Conflict(text) && text@ == "HTTP consumer "@
                    + key.listen_addr@
                    + " is already registered with different TLS or worker settings"@
            }
        }),
{
    if ephemeral {
        return ServerLookup::Absent;
    }
    let mut i: usize = 0;
    while i < servers.len()
        invariant
            i <= servers@.len(),
            !ephemeral,
            listening(servers@, key.listen_addr@, 0) == listening(
                servers@,
                key.listen_addr@,
                i as int,
            ),
        decreases servers@.len() - i,
    {
        if same(servers[i].listen_addr.as_str(), key.listen_addr.as_str()) {
            if is_same_server(&servers[i], key) {
                return ServerLookup::Reuse(i);
            }
            return ServerLookup::Conflict(
                join3(
                    "HTTP consumer ",
                    key.listen_addr.as_str(),
                    " is already registered with different TLS or worker settings",
                ),
            );
        }
        i += 1;
    }
    ServerLookup::Absent
}

/// The key that a server is kept under: one on a port that the system picked is kept
/// under the address that it got.
pub fn registered_key(key: &HttpServerKey, ephemeral: bool, bound_addr: Option<&str>) -> (res:
    Result<HttpServerKey, String>)
    ensures
        match res {
            Ok(k) => {
                &&& !ephemeral || bound_addr is Some
                &&& k.listen_addr@ == (if ephemeral {
                    bound_addr->0@
                } else {
                    key.listen_addr@
                })
                &&& same_tls(k.tls, key.tls)
                &&& k.workers == key.workers
                &&& k.server_protocol == key.server_protocol
            },
            Err(e) => ephemeral && bound_addr is None && e@
                == "Failed to determine bound HTTP listener address"@,
        },
{
    let listen_addr = if ephemeral {
        match bound_addr {
            Some(a) => a.to_owned(),
            None => {
                return Err("Failed to determine bound HTTP listener address".to_owned());
            },
        }
    } else {
        key.listen_addr.clone()
    };
    Ok(
        HttpServerKey {
            listen_addr,
            tls: key.tls.copy(),
            workers: key.workers,
            server_protocol: key.server_protocol,
        },
    )
}

/// What binding the listeners of a server does next.
#[derive(Debug, Clone, Copy, PartialEq, Eq, Structural)]
pub enum BindStep {
    /// Bind one listener for every worker.
    Shared,
    /// Bind one more listener that shares its port.
    Own,
    /// Start with so many of the listeners, the first ones.
    Done(usize),
}

/// Starts to bind listeners.
pub fn start_binding(workers: usize, reuseport: bool) -> (step: BindStep)
    ensures
        step == (if workers <= 1 || !reuseport {
            BindStep::Shared
        } else {
            BindStep::Own
        }),
{
    if workers <= 1 || !reuseport {
        BindStep::Shared
    } else {
        BindStep::Own
    }
}

/// What follows an attempt to bind one more listener beside so many others. Where one
/// could not be bound, the workers share a single listener: the first one, or one that
/// does not share its port where there is not even that.
pub fn after_bind(workers: usize, listeners: usize, bound: bool) -> (step: BindStep)
    requires
        listeners < workers,
    ensures
        step == (if bound {
            if listeners + 1 < workers {
                BindStep::Own
            } else {
                BindStep::Done(workers)
            }
        } else if listeners == 0 {
            BindStep::Shared
        } else {
            BindStep::Done(1)
        }),
{
    if bound {
        if listeners + 1 < workers {
            BindStep::Own
        } else {
            BindStep::Done(workers)
        }
    } else if listeners == 0 {
        BindStep::Shared
    } else {
        BindStep::Done(1)
    }
}

/// The error number for too many open files.
pub const TOO_MANY_FILES: i32 = 24;

/// How long a worker pauses after it could not accept a connection, in milliseconds.
/// `transient` says that the error was of a passing kind.
pub fn accept_pause_ms(transient: bool, os_error: Option<i32>) -> (ms: u64)
    ensures
        ms == (if transient {
            1u64
        } else if os_error == Some(TOO_MANY_FILES) {
            100
        } else {
            10
        }),
{
    if transient {
        return 1;
    }
    match os_error {
        Some(n) => if n == TOO_MANY_FILES {
            100
        } else {
            10
        },
        None => 10,
    }
}

/// How many requests are taken at once: at least one.
pub fn receive_limit(max_messages: usize) -> (n: usize)
    ensures
        n == at_least_one(max_messages),
{
    if max_messages < 1 {
        1
    } else {
        max_messages
    }
}

/// The batch of requests that were taken. That none were means that the queue was
/// closed.
pub fn received_requests(messages: Vec<CanonicalMessage>) -> (res: Result<
    Vec<CanonicalMessage>,
    ConsumerError,
>)
    ensures
        match res {
            Ok(batch) => messages@.len() > 0 && batch == messages,
            Err(e) => messages@.len() == 0 && e@ == ReceiveFailure::Connection(
                "HTTP source channel closed"@,
            ),
        },
{
    if messages.len() == 0 {
        return Err(ConsumerError::Connection("HTTP source channel closed".to_owned()));
    }
    Ok(messages)
}

/// Whether committing failed, given why each answer of a batch failed: the first
/// failure counts.
pub open spec fn first_failure(failed: Seq<Option<String>>, i: int) -> Option<Seq<char>>
    decreases failed.len() - i,
{
    if i >= failed.len() {
        None
    } else {
        match failed[i] {
            Some(e) => Some(e@),
            None => first_failure(failed, i + 1),
        }
    }
}

/// The result of committing a batch, given why each answer failed. Every message is
/// answered; the first failure is reported.
pub fn commit_result(failed: &Vec<Option<String>>) -> (res: Result<(), String>)
    ensures
        match res {
            Ok(()) => first_failure(failed@, 0) is None,
            Err(e) => first_failure(failed@, 0) == Some(e@),
        },
{
    let mut i: usize = 0;
    while i < failed.len()
        invariant
            i <= failed@.len(),
            first_failure(failed@, 0) == first_failure(failed@, i as int),
        decreases failed@.len() - i,
    {
        if let Some(e) = &failed[i] {
            return Err(e.clone());
        }
        i += 1;
    }
    Ok(())
}

/// Why a server cannot be started with this TLS configuration, if it cannot.
pub fn tls_server_refusal(tls: &TlsConfig) -> (res: Option<String>)
    ensures
        match res {
            Some(text) => tls.required && !(tls.cert_file is Some && tls.key_file is Some) && text@
                == "HTTP server TLS enabled but no cert/key provided in HttpConfig"@,
            None => !tls.required || (tls.cert_file is Some && tls.key_file is Some),
        },
{
    if tls.required && !tls.is_tls_server_configured() {
        return Some("HTTP server TLS enabled but no cert/key provided in HttpConfig".to_owned());
    }
    None
}

/// Whether a setting switches something off.
pub open spec fn is_off(value: Seq<char>) -> bool {
    let v = lower_all(trim(value));
    v == "0"@ || v == "false"@ || v == "off"@ || v == "no"@
}

/// Whether each worker gets a listener of its own: as the environment says, or where
/// the system is known to share a port.
pub fn http_reuseport_enabled(value: Option<&str>, is_unix: bool) -> (res: bool)
    ensures
        res == (match value {
            Some(v) => !is_off(v@),
            None => is_unix,
        }),
{
    match value {
        Some(v) => {
            let all = chars_of(v);
            let text = string_of(lower_chars(trim_chars(all.as_slice())).as_slice());
            !(same(text.as_str(), "0") || same(text.as_str(), "false") || same(
                text.as_str(),
                "off",
            ) || same(text.as_str(), "no"))
        },
        None => is_unix,
    }
}

/// The listener of a worker. Workers beyond the last listener start again at the first.
pub fn listener_of_worker(worker: usize, listeners: usize) -> (i: usize)
    requires
        listeners > 0,
    ensures
        i == worker as int % listeners as int,
        i < listeners,
{
    worker % listeners
}

/// The protocols that a TLS server offers, the preferred one first.
pub fn alpn_protocols(protocol: HttpServerProtocol) -> (offers: Vec<&'static str>)
    ensures
        offers@.map_values(|s: &'static str| s@) == (match protocol {
            HttpServerProtocol::Auto => seq!["h2"@, "http/1.1"@],
            HttpServerProtocol::Http1Only => seq!["http/1.1"@],
            HttpServerProtocol::Http2Only => seq!["h2"@],
        }),
{
    let mut offers: Vec<&'static str> = Vec::new();
    match protocol {
        HttpServerProtocol::Auto => {
            offers.push("h2");
            offers.push("http/1.1");
        },
        HttpServerProtocol::Http1Only => {
            offers.push("http/1.1");
        },
        HttpServerProtocol::Http2Only => {
            offers.push("h2");
        },
    }
    assert(offers@.map_values(|s: &'static str| s@) =~= (match protocol {
        HttpServerProtocol::Auto => seq!["h2"@, "http/1.1"@],
        HttpServerProtocol::Http1Only => seq!["http/1.1"@],
        HttpServerProtocol::Http2Only => seq!["h2"@],
    }));
    offers
}

} // verus!
