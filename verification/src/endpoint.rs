//! Building endpoints: constructors, and middleware in its proper order.

use vstd::prelude::*;

use crate::checks::{
    check_consumer, check_publisher, consumer_check, outcome, policy, publisher_check, ConfigError,
};
use crate::models::{
    DeadLetterQueueMiddleware, DeduplicationMiddleware, Endpoint, EndpointType, MemoryConfig,
    MetricsMiddleware, Middleware, Registry, ResponseConfig, RetryMiddleware, StreamBufferConfig,
};
use crate::publishers::{
    create_publisher_from_route, planned, route_publisher_refusal, PublisherPlan,
};
use crate::resolve::{
    create_consumer_from_route, route_consumer_planned, route_consumer_refusal, RouteConsumer,
};

verus! {

/// The first position at or after `i` whose middleware wraps retries: a dead letter
/// queue or metrics. The length if there is none.
pub open spec fn retry_slot(ms: Seq<Middleware>, i: int) -> int
    decreases ms.len() - i,
{
    if i >= ms.len() {
        ms.len() as int
    } else if ms[i] is Dlq || ms[i] is Metrics {
        i
    } else {
        retry_slot(ms, i + 1)
    }
}

/// The first position at or after `i` that holds metrics, or the length.
pub open spec fn metrics_slot(ms: Seq<Middleware>, i: int) -> int
    decreases ms.len() - i,
{
    if i >= ms.len() {
        ms.len() as int
    } else if ms[i] is Metrics {
        i
    } else {
        metrics_slot(ms, i + 1)
    }
}

/// Whether metrics are among the middlewares.
pub open spec fn has_metrics(ms: Seq<Middleware>) -> bool {
    exists|i: int| 0 <= i < ms.len() && #[trigger] ms[i] is Metrics
}

/// Whether a retry is among the middlewares.
pub open spec fn has_retry(ms: Seq<Middleware>) -> bool {
    exists|i: int| 0 <= i < ms.len() && #[trigger] ms[i] is Retry
}

/// The middlewares with a retry put inside every dead letter queue and metrics.
pub open spec fn with_retry_at_slot(ms: Seq<Middleware>, retry: RetryMiddleware) -> Seq<
    Middleware,
> {
    ms.insert(retry_slot(ms, 0), Middleware::Retry(retry))
}

/// The middlewares with a dead letter queue put inside metrics.
pub open spec fn with_dlq_at_slot(ms: Seq<Middleware>, dlq: DeadLetterQueueMiddleware) -> Seq<
    Middleware,
> {
    ms.insert(metrics_slot(ms, 0), Middleware::Dlq(Box::new(dlq)))
}

/// The middlewares with metrics as the last, unless they are there already.
pub open spec fn with_metrics_last(ms: Seq<Middleware>) -> Seq<Middleware> {
    if has_metrics(ms) {
        ms
    } else {
        ms.push(Middleware::Metrics(MetricsMiddleware {  }))
    }
}

/// The middlewares with metrics as the first, unless they are there already.
pub open spec fn with_metrics_first(ms: Seq<Middleware>) -> Seq<Middleware> {
    if has_metrics(ms) {
        ms
    } else {
        ms.insert(0, Middleware::Metrics(MetricsMiddleware {  }))
    }
}

/// How far out a middleware belongs on a publisher: retries inside dead letter
/// queues inside metrics. Others may stand anywhere.
pub open spec fn rank(m: Middleware) -> int {
    match m {
        Middleware::Retry(_) => 1,
        Middleware::Dlq(_) => 2,
        Middleware::Metrics(_) => 3,
        _ => 0,
    }
}

/// Whether ranked middlewares stand in the order of their ranks.
pub open spec fn publisher_order(ms: Seq<Middleware>) -> bool {
    forall|i: int, j: int|
        0 <= i < j < ms.len() && rank(#[trigger] ms[i]) > 0 && rank(#[trigger] ms[j]) > 0 ==> rank(
            ms[i],
        ) <= rank(ms[j])
}

proof fn lemma_retry_slot(ms: Seq<Middleware>, i: int)
    requires
        0 <= i <= ms.len(),
    ensures
        i <= retry_slot(ms, i) <= ms.len(),
        forall|k: int| i <= k < retry_slot(ms, i) ==> rank(#[trigger] ms[k]) <= 1,
    decreases ms.len() - i,
{
    if i < ms.len() && !(ms[i] is Dlq || ms[i] is Metrics) {
        lemma_retry_slot(ms, i + 1);
    }
}

proof fn lemma_metrics_slot(ms: Seq<Middleware>, i: int)
    requires
        0 <= i <= ms.len(),
    ensures
        i <= metrics_slot(ms, i) <= ms.len(),
        metrics_slot(ms, i) < ms.len() ==> ms[metrics_slot(ms, i)] is Metrics,
        forall|k: int| i <= k < metrics_slot(ms, i) ==> rank(#[trigger] ms[k]) <= 2,
    decreases ms.len() - i,
{
    if i < ms.len() && !(ms[i] is Metrics) {
        lemma_metrics_slot(ms, i + 1);
    }
}

/// Adding a retry, a dead letter queue, metrics or any unranked middleware at the
/// front keeps the publisher order, whatever the order of the calls.
pub proof fn law_builders_keep_publisher_order(
    ms: Seq<Middleware>,
    retry: RetryMiddleware,
    dlq: DeadLetterQueueMiddleware,
    dedup: DeduplicationMiddleware,
)
    requires
        publisher_order(ms),
    ensures
        publisher_order(with_retry_at_slot(ms, retry)),
        publisher_order(with_dlq_at_slot(ms, dlq)),
        publisher_order(with_metrics_last(ms)),
        publisher_order(ms.insert(0, Middleware::Deduplication(dedup))),
{
    lemma_retry_slot(ms, 0);
    lemma_metrics_slot(ms, 0);
    let r = retry_slot(ms, 0);
    let a = with_retry_at_slot(ms, retry);
    assert forall|i: int, j: int|
        0 <= i < j < a.len() && rank(#[trigger] a[i]) > 0 && rank(#[trigger] a[j]) > 0 implies rank(
        a[i],
    ) <= rank(a[j]) by {
        let oi = if i < r {
            i
        } else {
            i - 1
        };
        let oj = if j < r {
            j
        } else {
            j - 1
        };
        if i != r && j != r {
            assert(a[i] == ms[oi] && a[j] == ms[oj]);
        } else if j == r {
            assert(a[i] == ms[i]);
        }
    }
    let q = metrics_slot(ms, 0);
    let b = with_dlq_at_slot(ms, dlq);
    assert forall|i: int, j: int|
        0 <= i < j < b.len() && rank(#[trigger] b[i]) > 0 && rank(#[trigger] b[j]) > 0 implies rank(
        b[i],
    ) <= rank(b[j]) by {
        let oi = if i < q {
            i
        } else {
            i - 1
        };
        let oj = if j < q {
            j
        } else {
            j - 1
        };
        if i != q && j != q {
            assert(b[i] == ms[oi] && b[j] == ms[oj]);
        } else if j == q {
            assert(b[i] == ms[i]);
        } else {
            assert(b[j] == ms[j - 1]);
            if j - 1 > q {
                assert(rank(ms[q]) == 3);
            }
        }
    }
    let c = with_metrics_last(ms);
    assert forall|i: int, j: int|
        0 <= i < j < c.len() && rank(#[trigger] c[i]) > 0 && rank(#[trigger] c[j]) > 0 implies rank(
        c[i],
    ) <= rank(c[j]) by {
        assert(c[i] == ms[i]);
        if j < ms.len() {
            assert(c[j] == ms[j]);
        }
    }
    let d = ms.insert(0, Middleware::Deduplication(dedup));
    assert forall|i: int, j: int|
        0 <= i < j < d.len() && rank(#[trigger] d[i]) > 0 && rank(#[trigger] d[j]) > 0 implies rank(
        d[i],
    ) <= rank(d[j]) by {
        assert(d[j] == ms[j - 1]);
        if i > 0 {
            assert(d[i] == ms[i - 1]);
        }
    }
}

/// After `with_retry` the endpoint has a retry, and no middleware is lost: the old
/// list is the new one without the inserted retry.
pub proof fn law_with_retry_has_retry(ms: Seq<Middleware>, retry: RetryMiddleware)
    ensures
        has_retry(with_retry_at_slot(ms, retry)),
        with_retry_at_slot(ms, retry).remove(retry_slot(ms, 0)) == ms,
{
    lemma_retry_slot(ms, 0);
    let a = with_retry_at_slot(ms, retry);
    assert(a[retry_slot(ms, 0)] is Retry);
    assert(a.remove(retry_slot(ms, 0)) =~= ms);
}

/// What an in-memory channel is found by.
#[derive(Debug, PartialEq, Eq)]
pub struct ChannelKey {
    pub topic: String,
    pub capacity: Option<usize>,
}

impl Endpoint {
    /// An endpoint without middleware or handler.
    pub fn new(endpoint_type: EndpointType) -> (res: Self)
        ensures
            res.endpoint_type == endpoint_type,
            res.middlewares@ == Seq::<Middleware>::empty(),
            res.handler is None,
    {
        Endpoint { middlewares: Vec::new(), endpoint_type, handler: None }
    }

    /// An in-memory endpoint with the given topic and capacity.
    pub fn new_memory(topic: &str, capacity: usize) -> (res: Self)
        ensures
            res.middlewares@ == Seq::<Middleware>::empty(),
            res.handler is None,
            res.endpoint_type matches EndpointType::Memory(cfg) && {
                &&& cfg.topic@ == topic@
                &&& cfg.capacity == Some(capacity)
                &&& !cfg.request_reply
                &&& cfg.request_timeout_ms is None
                &&& !cfg.subscribe_mode
                &&& !cfg.enable_nack
            },
    {
        Self::new(EndpointType::Memory(MemoryConfig::new(topic, Some(capacity))))
    }

    /// An endpoint that answers the message it is given.
    pub fn new_response() -> (res: Self)
        ensures
            res.middlewares@ == Seq::<Middleware>::empty(),
            res.handler is None,
            res.endpoint_type is Response,
    {
        Self::new(EndpointType::Response(ResponseConfig::default()))
    }

    /// A stream buffer on a topic.
    pub fn new_stream_buffer(
        topic: &str,
        correlation_id: Option<&str>,
        capacity: usize,
    ) -> (res: Self)
        ensures
            res.middlewares@ == Seq::<Middleware>::empty(),
            res.handler is None,
            res.endpoint_type matches EndpointType::StreamBuffer(cfg) && {
                &&& cfg.topic@ == topic@
                &&& cfg.capacity == Some(capacity)
                &&& cfg.correlation_id is Some == correlation_id is Some
                &&& correlation_id is Some ==> cfg.correlation_id->0@ == correlation_id->0@
            },
    {
        let id = match correlation_id {
            Some(text) => Some(text.to_owned()),
            None => None,
        };
        Self::new(
            EndpointType::StreamBuffer(
                StreamBufferConfig {
                    topic: topic.to_owned(),
                    correlation_id: id,
                    capacity: Some(capacity),
                },
            ),
        )
    }

    /// An endpoint that drops what it is given.
    pub fn null() -> (res: Self)
        ensures
            res.middlewares@ == Seq::<Middleware>::empty(),
            res.handler is None,
            res.endpoint_type is Null,
    {
        Self::new(EndpointType::Null)
    }

    /// Whether a retry is configured.
    pub fn has_retry_middleware(&self) -> (res: bool)
        ensures
            res == has_retry(self.middlewares@),
    {
        let mut i: usize = 0;
        while i < self.middlewares.len()
            invariant
                i <= self.middlewares@.len(),
                forall|k: int| 0 <= k < i ==> !(#[trigger] self.middlewares@[k] is Retry),
            decreases self.middlewares@.len() - i,
        {
            if matches!(self.middlewares[i], Middleware::Retry(_)) {
                return true;
            }
            i += 1;
        }
        false
    }

    /// Adds a middleware at the end.
    pub fn add_middleware(self, middleware: Middleware) -> (res: Self)
        ensures
            res.middlewares@ == self.middlewares@.push(middleware),
            res.endpoint_type == self.endpoint_type,
            res.handler == self.handler,
    {
        let mut middlewares = self.middlewares;
        middlewares.push(middleware);
        Endpoint { middlewares, endpoint_type: self.endpoint_type, handler: self.handler }
    }

    /// Adds middlewares at the end.
    pub fn add_middlewares(self, middlewares: Vec<Middleware>) -> (res: Self)
        ensures
            res.middlewares@ == self.middlewares@ + middlewares@,
            res.endpoint_type == self.endpoint_type,
            res.handler == self.handler,
    {
        let mut all = self.middlewares;
        let mut more = middlewares;
        all.append(&mut more);
        Endpoint { middlewares: all, endpoint_type: self.endpoint_type, handler: self.handler }
    }

    /// What the in-memory channel of this endpoint is found by. Only a memory
    /// endpoint has one.
    pub fn channel(&self) -> (res: Result<ChannelKey, ConfigError>)
        ensures
            match self.endpoint_type {
                EndpointType::Memory(cfg) => res is Ok && res->Ok_0.topic@ == cfg.topic@
                    && res->Ok_0.capacity == cfg.capacity,
                _ => res is Err && res->Err_0.message@
                    == "channel() called on non-memory Endpoint"@,
            },
    {
        match &self.endpoint_type {
            EndpointType::Memory(cfg) => Ok(
                ChannelKey { topic: cfg.topic.clone(), capacity: cfg.capacity },
            ),
            _ => Err(
                ConfigError { message: "channel() called on non-memory Endpoint".to_owned() },
            ),
        }
    }

    /// Adds a retry inside any dead letter queue and metrics.
    pub fn with_retry(self, retry: RetryMiddleware) -> (res: Self)
        ensures
            res.middlewares@ == with_retry_at_slot(self.middlewares@, retry),
            res.endpoint_type == self.endpoint_type,
            res.handler == self.handler,
    {
        let mut middlewares = self.middlewares;
        let mut i: usize = 0;
        while i < middlewares.len() && !matches!(
            middlewares[i],
            Middleware::Dlq(_) | Middleware::Metrics(_)
        )
            invariant
                i <= middlewares@.len(),
                retry_slot(middlewares@, 0) == retry_slot(middlewares@, i as int),
            decreases middlewares@.len() - i,
        {
            i += 1;
        }
        middlewares.insert(i, Middleware::Retry(retry));
        Endpoint { middlewares, endpoint_type: self.endpoint_type, handler: self.handler }
    }

    /// Adds a dead letter queue outside retries and inside metrics.
    pub fn with_dlq(self, dlq: DeadLetterQueueMiddleware) -> (res: Self)
        ensures
            res.middlewares@ == with_dlq_at_slot(self.middlewares@, dlq),
            res.endpoint_type == self.endpoint_type,
            res.handler == self.handler,
    {
        let mut middlewares = self.middlewares;
        let mut i: usize = 0;
        while i < middlewares.len() && !matches!(middlewares[i], Middleware::Metrics(_))
            invariant
                i <= middlewares@.len(),
                metrics_slot(middlewares@, 0) == metrics_slot(middlewares@, i as int),
            decreases middlewares@.len() - i,
        {
            i += 1;
        }
        middlewares.insert(i, Middleware::Dlq(Box::new(dlq)));
        Endpoint { middlewares, endpoint_type: self.endpoint_type, handler: self.handler }
    }

    /// Adds deduplication as the first middleware.
    pub fn with_deduplication(self, dedup: DeduplicationMiddleware) -> (res: Self)
        ensures
            res.middlewares@ == self.middlewares@.insert(0, Middleware::Deduplication(dedup)),
            res.endpoint_type == self.endpoint_type,
            res.handler == self.handler,
    {
        let mut middlewares = self.middlewares;
        middlewares.insert(0, Middleware::Deduplication(dedup));
        Endpoint { middlewares, endpoint_type: self.endpoint_type, handler: self.handler }
    }

    /// Adds metrics around everything on a consumer, unless they are there already.
    pub fn with_consumer_metrics(self) -> (res: Self)
        ensures
            res.middlewares@ == with_metrics_first(self.middlewares@),
            res.endpoint_type == self.endpoint_type,
            res.handler == self.handler,
    {
        let mut middlewares = self.middlewares;
        if !contains_metrics(&middlewares) {
            middlewares.insert(0, Middleware::Metrics(MetricsMiddleware {  }));
        }
        Endpoint { middlewares, endpoint_type: self.endpoint_type, handler: self.handler }
    }

    /// Adds metrics around everything on a publisher, unless they are there already.
    pub fn with_metrics(self) -> (res: Self)
        ensures
            res.middlewares@ == with_metrics_last(self.middlewares@),
            res.endpoint_type == self.endpoint_type,
            res.handler == self.handler,
    {
        let mut middlewares = self.middlewares;
        if !contains_metrics(&middlewares) {
            middlewares.push(Middleware::Metrics(MetricsMiddleware {  }));
        }
        Endpoint { middlewares, endpoint_type: self.endpoint_type, handler: self.handler }
    }

    /// Validates this endpoint as the input of a route.
    pub fn check_consumer(
        &self,
        registry: &Registry,
        route_name: &str,
        allowed_endpoints: Option<&[&str]>,
    ) -> (res: Result<Vec<String>, ConfigError>)
        ensures
            outcome(res) == consumer_check(
                *registry,
                route_name@,
                *self,
                0,
                policy(allowed_endpoints),
            ),
    {
        check_consumer(registry, route_name, self, allowed_endpoints)
    }

    /// Validates this endpoint as the output of a route.
    pub fn check_publisher(
        &self,
        registry: &Registry,
        route_name: &str,
        allowed_endpoints: Option<&[&str]>,
    ) -> (res: Result<Vec<String>, ConfigError>)
        ensures
            outcome(res) == publisher_check(
                *registry,
                route_name@,
                *self,
                0,
                policy(allowed_endpoints),
            ),
    {
        check_publisher(registry, route_name, self, allowed_endpoints)
    }

    /// Decides which consumer this endpoint becomes as the input of a route.
    pub fn create_consumer<'a>(&'a self, registry: &'a Registry, route_name: &str) -> (res: Result<
        RouteConsumer<'a>,
        ConfigError,
    >)
        ensures
            match res {
                Ok(plan) => route_consumer_refusal(*registry, route_name@, *self) is None
                    && route_consumer_planned(*registry, route_name@, *self, plan),
                Err(e) => route_consumer_refusal(*registry, route_name@, *self) == Some(
                    e.message@,
                ),
            },
    {
        create_consumer_from_route(registry, route_name, self)
    }

    /// Decides which publishers this endpoint becomes. Topics and the like that it leaves
    /// open get this name.
    pub fn create_publisher<'a>(&'a self, registry: &'a Registry, name: &str) -> (res: Result<
        PublisherPlan<'a>,
        ConfigError,
    >)
        ensures
            match res {
                Ok(plan) => route_publisher_refusal(*registry, name@, *self) is None
                    && planned(
                    *registry,
                    name@,
                    self.endpoint_type,
                    self.middlewares@,
                    self.handler,
                    0,
                    plan,
                ),
                Err(e) => route_publisher_refusal(*registry, name@, *self) == Some(
                    e.message@,
                ),
            },
    {
        create_publisher_from_route(registry, name, self)
    }
}

fn contains_metrics(middlewares: &Vec<Middleware>) -> (res: bool)
    ensures
        res == has_metrics(middlewares@),
{
    let mut i: usize = 0;
    while i < middlewares.len()
        invariant
            i <= middlewares@.len(),
            forall|k: int| 0 <= k < i ==> !(#[trigger] middlewares@[k] is Metrics),
        decreases middlewares@.len() - i,
    {
        if matches!(middlewares[i], Middleware::Metrics(_)) {
            return true;
        }
        i += 1;
    }
    false
}

} // verus!
