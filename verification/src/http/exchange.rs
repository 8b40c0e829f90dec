//! One exchange, from the head of a request to its response.
//!
//! An exchange alternates between decisions and waits. The server performs what an
//! exchange asks for, and tells it what came of that.

use vstd::prelude::*;

use crate::http::auth::auth_refusal;
use crate::http::content::{accepts_text, request_accepts_text};
use crate::http::frames::HttpStreamFormat;
use crate::http::gzip::sent_body;
use crate::http::headers::{first_header, header_named};
use crate::http::request::RequestHead;
use crate::http::response::{
    echo_response, error_response, inline_echo_response, response_or_text, HttpResponse,
    ResponseView,
};
use crate::http::router::{key_views, SharedHttpRouter};
use crate::http::server::{
    admit_request, answer_disposition, answer_error, answer_inline, answer_queued, body_failure,
    body_or_response, inline_answer, internal_error, is_admission, is_delivery, is_queue_answer,
    is_routing, opening_response, receive_body, route_request, stream_opening, wait_answer,
    Admitted, BodyEvent, Delivery, HttpConsumerState, InlineEvent, PendingRequest, QueueEvent,
    Routed, WaitEvent,
};
use crate::message::{CanonicalMessage, Metadata};

verus! {

/// How far an exchange has come.
#[derive(Debug)]
pub enum ExchangeStage {
    /// It waits for a permit of its consumer.
    Admitting,
    /// It reads a body that it sends back.
    Echoing,
    /// It reads the body of a message.
    Reading(PendingRequest),
    /// An output answers inline.
    Sending,
    /// The message is handed to the pipeline.
    Queueing,
    /// The pipeline works on the message.
    Waiting,
    /// The response is made.
    Done,
}

/// What an exchange waited for.
#[derive(Debug)]
pub enum ExchangeEvent {
    /// A permit, or why there will be none.
    Permit(Option<String>),
    Body(BodyEvent),
    Inline(InlineEvent),
    Queue(QueueEvent),
    Wait(WaitEvent),
}

/// What an exchange asks for.
#[derive(Debug)]
pub enum ExchangeAction {
    /// A permit of the consumer at this position of the table.
    Acquire(usize),
    ReadBody,
    SendInline(CanonicalMessage),
    Queue(CanonicalMessage),
    Wait,
    /// The response, and the body received meanwhile, record by record.
    Stream {
        metadata: Metadata,
        request_format: HttpStreamFormat,
        response_format: HttpStreamFormat,
        opening: HttpResponse,
    },
    Respond(HttpResponse),
}

/// An exchange with a client.
#[derive(Debug)]
pub struct Exchange {
    pub request: RequestHead,
    pub accepts_text: bool,
    pub accepts_gzip: bool,
    pub stage: ExchangeStage,
}

/// The response that is made, or that to the failure of making one.
pub open spec fn made_or_error(r: Result<ResponseView, Seq<char>>, text: bool) -> ResponseView {
    match r {
        Ok(response) => response,
        Err(why) => internal_error(why, text),
    }
}

/// The response to a body that is sent back.
pub open spec fn echoed(
    x: Exchange,
    state: HttpConsumerState,
    body: Seq<u8>,
) -> Result<ResponseView, Seq<char>> {
    match sent_body(
        body,
        state.response.compression_enabled && x.accepts_gzip,
        state.response.compression_threshold_bytes,
    ) {
        Ok(sent) => Ok(
            echo_response(
                first_header(x.request.headers@, "content-type"@),
                sent,
                state.response.custom_headers@,
            ),
        ),
        Err(why) => Err(why),
    }
}

impl Exchange {
    /// Whether the exchange waits for an event of this kind.
    pub open spec fn awaits(self, event: ExchangeEvent) -> bool {
        match self.stage {
            ExchangeStage::Admitting => event is Permit,
            ExchangeStage::Echoing => event is Body,
            ExchangeStage::Reading(_) => event is Body,
            ExchangeStage::Sending => event is Inline,
            ExchangeStage::Queueing => event is Queue,
            ExchangeStage::Waiting => event is Wait,
            ExchangeStage::Done => false,
        }
    }

    /// Whether the exchange is over with this response.
    pub open spec fn ends_with(
        next: ExchangeStage,
        action: ExchangeAction,
        response: ResponseView,
    ) -> bool {
        next is Done && (action matches ExchangeAction::Respond(r) && r@ == response)
    }

    /// Whether the exchange goes on like this after an event.
    pub open spec fn goes_on(
        self,
        state: HttpConsumerState,
        event: ExchangeEvent,
        next: ExchangeStage,
        action: ExchangeAction,
    ) -> bool {
        match event {
            ExchangeEvent::Permit(Some(why)) => Self::ends_with(
                next,
                action,
                internal_error(why@, self.accepts_text),
            ),
            ExchangeEvent::Permit(None) => exists|a: Admitted| #[trigger]
                is_admission(state, self.request, self.accepts_text, a) && (match a {
                    Admitted::Respond(r) => next is Done && action == ExchangeAction::Respond(r),
                    Admitted::Echo => next is Echoing && action is ReadBody,
                    Admitted::Stream { metadata, request_format, response_format } => {
                        &&& next is Done
                        &&& action matches ExchangeAction::Stream {
                            metadata: m,
                            request_format: f,
                            response_format: g,
                            opening,
                        } && m == metadata && f == request_format && g == response_format
                            && opening@ == opening_response(
                            state.fire_and_forget,
                            response_format,
                            state.custom(),
                        )
                    },
                    Admitted::ReadBody(p) => next == ExchangeStage::Reading(p)
                        && action is ReadBody,
                }),
            ExchangeEvent::Body(e) => match self.stage {
                ExchangeStage::Reading(p) => exists|d: Result<Delivery, String>| #[trigger]
                    is_delivery(state, p, e, self.accepts_text, d) && (match d {
                        Ok(Delivery::Respond(r)) => next is Done && action
                            == ExchangeAction::Respond(r),
                        Ok(Delivery::Inline(m)) => next is Sending && action
                            == ExchangeAction::SendInline(m),
                        Ok(Delivery::Queue(m)) => next is Queueing && action
                            == ExchangeAction::Queue(m),
                        Err(why) => Self::ends_with(
                            next,
                            action,
                            internal_error(why@, self.accepts_text),
                        ),
                    }),
                _ => Self::ends_with(
                    next,
                    action,
                    match e {
                        BodyEvent::Read(body) => made_or_error(
                            echoed(self, state, body@),
                            self.accepts_text,
                        ),
                        _ => body_failure(e, self.accepts_text)->0,
                    },
                ),
            },
            ExchangeEvent::Inline(e) => Self::ends_with(
                next,
                action,
                made_or_error(
                    inline_answer(
                        state,
                        self.request,
                        e,
                        self.accepts_gzip,
                        self.accepts_text,
                    ),
                    self.accepts_text,
                ),
            ),
            ExchangeEvent::Queue(e) => exists|answer: Option<HttpResponse>| #[trigger]
                is_queue_answer(state, e, self.accepts_text, answer) && (match answer {
                    Some(r) => next is Done && action == ExchangeAction::Respond(r),
                    None => next is Waiting && action is Wait,
                }),
            ExchangeEvent::Wait(e) => Self::ends_with(
                next,
                action,
                made_or_error(
                    wait_answer(state, e, self.accepts_gzip, self.accepts_text),
                    self.accepts_text,
                ),
            ),
        }
    }

    /// Whether a permit is held at this stage: while a body is read and while its
    /// message is handed over.
    pub open spec fn permitted(stage: ExchangeStage) -> bool {
        stage is Echoing || stage is Reading || stage is Queueing
    }

    /// Whether a permit is held now.
    pub fn holds_permit(&self) -> (res: bool)
        ensures
            res == Self::permitted(self.stage),
    {
        match &self.stage {
            ExchangeStage::Echoing => true,
            ExchangeStage::Reading(_) => true,
            ExchangeStage::Queueing => true,
            _ => false,
        }
    }

    /// Begins an exchange by looking for the consumer of a request.
    pub fn start(router: &SharedHttpRouter, request: RequestHead, accepts_gzip: bool) -> (res: (
        Self,
        ExchangeAction,
    ))
        ensures
            res.0.request == request,
            res.0.accepts_gzip == accepts_gzip,
            res.0.accepts_text == accepts_text(request.headers@),
            exists|routed: Routed| #[trigger]
                is_routing(
                    key_views(router.routes@),
                    request.path@,
                    request.method@,
                    accepts_text(request.headers@),
                    routed,
                ) && (match routed {
                    Routed::To(i) => res.0.stage is Admitting && res.1 == ExchangeAction::Acquire(
                        i,
                    ),
                    Routed::Respond(r) => res.0.stage is Done && res.1 == ExchangeAction::Respond(
                        r,
                    ),
                }),
    {
        let text = request_accepts_text(request.headers.as_slice());
        let routed = route_request(
            router,
            request.path.as_str(),
            request.method.as_str(),
            text,
        );
        assert(is_routing(
            key_views(router.routes@),
            request.path@,
            request.method@,
            accepts_text(request.headers@),
            routed,
        ));
        let (stage, action) = match routed {
            Routed::To(i) => (ExchangeStage::Admitting, ExchangeAction::Acquire(i)),
            Routed::Respond(r) => (ExchangeStage::Done, ExchangeAction::Respond(r)),
        };
        (Exchange { request, accepts_text: text, accepts_gzip, stage }, action)
    }

    fn respond(&self, made: Result<HttpResponse, String>) -> (action: ExchangeAction)
        ensures
            action matches ExchangeAction::Respond(r) && r@ == made_or_error(
                response_or_text(made),
                self.accepts_text,
            ),
    {
        match made {
            Ok(r) => ExchangeAction::Respond(r),
            Err(why) => ExchangeAction::Respond(answer_error(why.as_str(), self.accepts_text)),
        }
    }

    fn let_in(&self, state: &HttpConsumerState) -> (res: (ExchangeStage, ExchangeAction))
        ensures
            self.goes_on(*state, ExchangeEvent::Permit(None), res.0, res.1),
    {
        let admitted = admit_request(state, &self.request, self.accepts_text);
        assert(is_admission(*state, self.request, self.accepts_text, admitted));
        match admitted {
            Admitted::Respond(r) => (ExchangeStage::Done, ExchangeAction::Respond(r)),
            Admitted::Echo => (ExchangeStage::Echoing, ExchangeAction::ReadBody),
            Admitted::Stream { metadata, request_format, response_format } => {
                let opening = stream_opening(
                    state.fire_and_forget,
                    response_format,
                    &state.response.custom_headers,
                );
                (
                    ExchangeStage::Done,
                    ExchangeAction::Stream { metadata, request_format, response_format, opening },
                )
            },
            Admitted::ReadBody(p) => (ExchangeStage::Reading(p), ExchangeAction::ReadBody),
        }
    }

    fn echo(&self, state: &HttpConsumerState, event: BodyEvent) -> (action: ExchangeAction)
        ensures
            Self::ends_with(
                ExchangeStage::Done,
                action,
                match event {
                    BodyEvent::Read(body) => made_or_error(
                        echoed(*self, *state, body@),
                        self.accepts_text,
                    ),
                    _ => body_failure(event, self.accepts_text)->0,
                },
            ),
    {
        let body = match body_or_response(event, self.accepts_text) {
            Ok(b) => b,
            Err(r) => {
                return ExchangeAction::Respond(r);
            },
        };
        let content_type = header_named(self.request.headers.as_slice(), "content-type");
        let made = inline_echo_response(content_type, body, &state.response, self.accepts_gzip);
        self.respond(made)
    }

    fn deliver(&self, delivery: Result<Delivery, String>) -> (res: (ExchangeStage, ExchangeAction))
        ensures
            match delivery {
                Ok(Delivery::Respond(r)) => res.0 is Done && res.1 == ExchangeAction::Respond(r),
                Ok(Delivery::Inline(m)) => res.0 is Sending && res.1
                    == ExchangeAction::SendInline(m),
                Ok(Delivery::Queue(m)) => res.0 is Queueing && res.1 == ExchangeAction::Queue(m),
                Err(why) => Self::ends_with(
                    res.0,
                    res.1,
                    internal_error(why@, self.accepts_text),
                ),
            },
    {
        match delivery {
            Ok(Delivery::Respond(r)) => (ExchangeStage::Done, ExchangeAction::Respond(r)),
            Ok(Delivery::Inline(m)) => (ExchangeStage::Sending, ExchangeAction::SendInline(m)),
            Ok(Delivery::Queue(m)) => (ExchangeStage::Queueing, ExchangeAction::Queue(m)),
            Err(why) => (
                ExchangeStage::Done,
                ExchangeAction::Respond(answer_error(why.as_str(), self.accepts_text)),
            ),
        }
    }

    /// Goes on after a wait.
    pub fn step(self, state: &HttpConsumerState, event: ExchangeEvent) -> (res: (
        Self,
        ExchangeAction,
    ))
        requires
            self.awaits(event),
        ensures
            res.0.request == self.request,
            res.0.accepts_text == self.accepts_text,
            res.0.accepts_gzip == self.accepts_gzip,
            self.goes_on(*state, event, res.0.stage, res.1),
    {
        let Exchange { request, accepts_text: text, accepts_gzip: gzip, stage } = self;
        let made = Exchange {
            request,
            accepts_text: text,
            accepts_gzip: gzip,
            stage: ExchangeStage::Done,
        };
        let (next, action) = match event {
            ExchangeEvent::Permit(Some(why)) => (
                ExchangeStage::Done,
                ExchangeAction::Respond(answer_error(why.as_str(), text)),
            ),
            ExchangeEvent::Permit(None) => made.let_in(state),
            ExchangeEvent::Body(e) => match stage {
                ExchangeStage::Reading(p) => {
                    let delivery = receive_body(state, p, e, text);
                    assert(is_delivery(*state, p, e, text, delivery));
                    made.deliver(delivery)
                },
                _ => (ExchangeStage::Done, made.echo(state, e)),
            },
            ExchangeEvent::Inline(e) => {
                let answer = answer_inline(state, &made.request, e, gzip, text);
                (ExchangeStage::Done, made.respond(answer))
            },
            ExchangeEvent::Queue(e) => {
                let answer = answer_queued(state, e, text);
                assert(is_queue_answer(*state, e, text, answer));
                match answer {
                    Some(r) => (ExchangeStage::Done, ExchangeAction::Respond(r)),
                    None => (ExchangeStage::Waiting, ExchangeAction::Wait),
                }
            },
            ExchangeEvent::Wait(e) => {
                let answer = answer_disposition(state, e, gzip, text);
                (ExchangeStage::Done, made.respond(answer))
            },
        };
        (
            Exchange {
                request: made.request,
                accepts_text: text,
                accepts_gzip: gzip,
                stage: next,
            },
            action,
        )
    }
}

/// How many waits may still come, at most.
pub open spec fn waits_left(stage: ExchangeStage) -> nat {
    match stage {
        ExchangeStage::Admitting => 4,
        ExchangeStage::Echoing => 3,
        ExchangeStage::Reading(_) => 3,
        ExchangeStage::Sending => 2,
        ExchangeStage::Queueing => 2,
        ExchangeStage::Waiting => 1,
        ExchangeStage::Done => 0,
    }
}

/// Every exchange comes to an end: each wait leaves fewer to come. It ends exactly
/// when a response is made, so that none is answered twice or not at all.
pub proof fn law_every_exchange_is_answered_once(
    x: Exchange,
    state: HttpConsumerState,
    event: ExchangeEvent,
    next: ExchangeStage,
    action: ExchangeAction,
)
    requires
        x.awaits(event),
        x.goes_on(state, event, next, action),
    ensures
        waits_left(next) < waits_left(x.stage),
        next is Done <==> (action is Respond || action is Stream),
{
}

/// A request whose credentials are refused goes no further: it is answered with the
/// refusal, its body is not read, and no message of it reaches an output.
pub proof fn law_refused_request_goes_no_further(
    x: Exchange,
    state: HttpConsumerState,
    next: ExchangeStage,
    action: ExchangeAction,
)
    requires
        x.stage is Admitting,
        auth_refusal(x.request.headers@, state.expected()) is Some,
        x.goes_on(state, ExchangeEvent::Permit(None), next, action),
    ensures
        ({
            let refusal = auth_refusal(x.request.headers@, state.expected())->0;
            Exchange::ends_with(
                next,
                action,
                error_response(refusal.0, refusal.1, x.accepts_text, None),
            )
        }),
{
}

/// No permit is held while an output works on a message, so that slow outputs do not
/// keep other requests out; nor once the exchange is over.
pub proof fn law_outputs_hold_no_permit(
    x: Exchange,
    state: HttpConsumerState,
    event: ExchangeEvent,
    next: ExchangeStage,
    action: ExchangeAction,
)
    requires
        x.awaits(event),
        x.goes_on(state, event, next, action),
    ensures
        action is SendInline || action is Wait || action is Respond ==> !Exchange::permitted(next),
        action is ReadBody || action is Queue ==> Exchange::permitted(next),
{
}

} // verus!
