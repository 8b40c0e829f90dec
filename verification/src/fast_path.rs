//! Routes that can answer without the worker pipeline.

use vstd::prelude::*;

use crate::models::{EndpointType, Middleware, Route, RouteOptions, WebSocketExecutionMode};
use crate::text::{join2, join3};

verus! {

/// Whether a WebSocket route can answer directly, and if not, why.
#[derive(Debug, Clone, Copy)]
pub enum WebSocketDirectRouteSupport {
    Supported,
    Unsupported(&'static str),
}

/// Why a WebSocket route needs the worker pipeline, if it does.
pub open spec fn routed_reason(route: Route) -> Option<Seq<char>> {
    match route.input.endpoint_type {
        EndpointType::WebSocket(cfg) => if cfg.execution_mode is Routed {
            Some("execution_mode is routed"@)
        } else if !(route.output.endpoint_type is Response) {
            Some("output is not response"@)
        } else if !has_default_options(route.options) {
            Some("custom route options require routed mode"@)
        } else if route.input.middlewares@.len() > 0 || route.output.middlewares@.len() > 0 {
            Some("middleware requires routed mode"@)
        } else {
            None
        },
        _ => Some("input is not websocket"@),
    }
}

/// Whether everything but the description is at its default.
pub open spec fn has_default_options(options: RouteOptions) -> bool {
    options.concurrency == 1 && options.batch_size == 1 && options.commit_concurrency_limit == 4096
}

/// Whether the options leave room for direct answers: all but the description must
/// be at their defaults.
pub fn websocket_direct_route_options_allowed(options: &RouteOptions) -> (res: bool)
    ensures
        res == has_default_options(*options),
{
    let defaults = RouteOptions::default();
    options.concurrency == defaults.concurrency && options.batch_size == defaults.batch_size
        && options.commit_concurrency_limit == defaults.commit_concurrency_limit
}

/// Decides whether a WebSocket route can answer directly.
pub fn websocket_direct_route_support(route: &Route) -> (res: WebSocketDirectRouteSupport)
    ensures
        match res {
            WebSocketDirectRouteSupport::Supported => routed_reason(*route) is None,
            WebSocketDirectRouteSupport::Unsupported(reason) => routed_reason(*route) == Some(
                reason@,
            ),
        },
{
    let cfg = match &route.input.endpoint_type {
        EndpointType::WebSocket(cfg) => cfg,
        _ => {
            return WebSocketDirectRouteSupport::Unsupported("input is not websocket");
        },
    };
    if cfg.execution_mode == WebSocketExecutionMode::Routed {
        return WebSocketDirectRouteSupport::Unsupported("execution_mode is routed");
    }
    if !matches!(route.output.endpoint_type, EndpointType::Response(_)) {
        return WebSocketDirectRouteSupport::Unsupported("output is not response");
    }
    if !websocket_direct_route_options_allowed(&route.options) {
        return WebSocketDirectRouteSupport::Unsupported("custom route options require routed mode");
    }
    if !route.input.middlewares.is_empty() || !route.output.middlewares.is_empty() {
        return WebSocketDirectRouteSupport::Unsupported("middleware requires routed mode");
    }
    WebSocketDirectRouteSupport::Supported
}

/// Whether a middleware may stay around an output that answers inline.
pub open spec fn inline_middleware(m: Middleware) -> bool {
    m is Buffer || m is Delay || m is Limiter || m is Metrics
}

/// Whether every output middleware may stay around an inline answer.
pub fn output_middlewares_allow_http_inline_fast_path(middlewares: &[Middleware]) -> (res: bool)
    ensures
        res == (forall|i: int|
            0 <= i < middlewares@.len() ==> inline_middleware(#[trigger] middlewares@[i])),
{
    let mut i: usize = 0;
    while i < middlewares.len()
        invariant
            i <= middlewares@.len(),
            forall|k: int| 0 <= k < i ==> inline_middleware(#[trigger] middlewares@[k]),
        decreases middlewares@.len() - i,
    {
        if !matches!(
            middlewares[i],
            Middleware::Buffer(_)
                | Middleware::Delay(_)
                | Middleware::Limiter(_)
                | Middleware::Metrics(_)
        ) {
            assert(!inline_middleware(middlewares@[i as int]));
            return false;
        }
        i += 1;
    }
    true
}

/// Whether an HTTP route answers inline.
pub open spec fn answers_inline(route: Route) -> bool {
    route.input.endpoint_type matches EndpointType::Http(cfg) && {
        &&& route.output.endpoint_type is Response || route.output.endpoint_type is Static
        &&& cfg.inline_response_fast_path != Some(false)
        &&& route.input.middlewares@.len() == 0
        &&& forall|i: int|
            0 <= i < route.output.middlewares@.len() ==> inline_middleware(
                #[trigger] route.output.middlewares@[i],
            )
        &&& !cfg.fire_and_forget
    }
}

/// How a route is run.
#[derive(Debug)]
pub enum FastPath {
    /// The HTTP server answers through the output itself.
    HttpInline,
    /// The WebSocket server answers by itself.
    WebSocketDirect,
    /// The route insists on direct answers that it cannot have.
    Refused(String),
    /// Through the workers, though direct answers would have been tried.
    FellBack(&'static str),
    /// Through the workers.
    Routed,
}

/// The message for a route that insists on direct answers without support.
pub open spec fn direct_only_text(name: Seq<char>, reason: Seq<char>) -> Seq<char> {
    "WebSocket route '"@ + name
        + "' is configured for direct_only, but direct mode is unsupported: "@ + reason
}

/// Decides how a route is run.
pub fn choose_fast_path(route: &Route, name: &str) -> (res: FastPath)
    ensures
        match route.input.endpoint_type {
            EndpointType::Http(_) => if answers_inline(*route) {
                res is HttpInline
            } else {
                res is Routed
            },
            EndpointType::WebSocket(cfg) => match routed_reason(*route) {
                None => res is WebSocketDirect,
                Some(reason) => match cfg.execution_mode {
                    WebSocketExecutionMode::Auto => res matches FastPath::FellBack(r) && r@
                        == reason,
                    WebSocketExecutionMode::DirectOnly => res matches FastPath::Refused(text)
                        && text@ == direct_only_text(name@, reason),
                    WebSocketExecutionMode::Routed => res is Routed,
                },
            },
            _ => res is Routed,
        },
{
    let output_is_inline = matches!(
        route.output.endpoint_type,
        EndpointType::Response(_) | EndpointType::Static(_)
    );
    match &route.input.endpoint_type {
        EndpointType::Http(cfg) => {
            if output_is_inline && cfg.inline_response_fast_path_enabled()
                && route.input.middlewares.is_empty()
                && output_middlewares_allow_http_inline_fast_path(
                route.output.middlewares.as_slice(),
            ) && !cfg.fire_and_forget {
                FastPath::HttpInline
            } else {
                FastPath::Routed
            }
        },
        EndpointType::WebSocket(cfg) => {
            match websocket_direct_route_support(route) {
                WebSocketDirectRouteSupport::Supported => FastPath::WebSocketDirect,
                WebSocketDirectRouteSupport::Unsupported(reason) => match cfg.execution_mode {
                    WebSocketExecutionMode::Auto => FastPath::FellBack(reason),
                    WebSocketExecutionMode::DirectOnly => FastPath::Refused(
                        join2(
                            join3(
                                "WebSocket route '",
                                name,
                                "' is configured for direct_only, but direct mode is unsupported: ",
                            ).as_str(),
                            reason,
                        ),
                    ),
                    WebSocketExecutionMode::Routed => FastPath::Routed,
                },
            }
        },
        _ => FastPath::Routed,
    }
}

} // verus!
