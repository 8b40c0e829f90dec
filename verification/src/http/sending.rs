//! Sending one message, from its request to its outcome.
//!
//! Sending alternates between decisions and waits. The publisher performs what it is
//! asked for, and tells what came of that.

use vstd::prelude::*;

use crate::http::publisher::{
    head_step, no_response_failure, prepared, response_outcome, response_result, stream_outcome,
    stream_result, HeadStep, HeadView, HttpPublisher, OutgoingRequest, RequestView, ResponseBody,
    ResponseHead,
};
use crate::http::response_stream::{
    ActionView, ResponseStream, ResponseStreamView, Stage, StreamAction, StreamEvent,
};
use crate::http::stream::{ItemView, StreamItem};
use crate::message::{
    outcome_view, CanonicalMessage, FailureView, MessageView, Metadata, Pairs, PublisherError, Sent,
    SentView,
};
use crate::text::opt;

verus! {

/// How far sending has come.
#[derive(Debug)]
pub enum SendStage {
    /// The request is under way.
    Requesting,
    /// The body of the response is read.
    Reading { status: u16, metadata: Metadata, content_encoding: Option<String> },
    /// The response is published record by record.
    Streaming(ResponseStream),
    /// The outcome is known.
    Done,
}

/// How far sending has come, over mathematical values.
pub enum SendStageView {
    Requesting,
    Reading { status: u16, metadata: Pairs, content_encoding: Option<Seq<char>> },
    Streaming(ResponseStreamView),
    Done,
}

impl View for SendStage {
    type V = SendStageView;

    open spec fn view(&self) -> SendStageView {
        match self {
            SendStage::Requesting => SendStageView::Requesting,
            SendStage::Reading { status, metadata, content_encoding } => SendStageView::Reading {
                status: *status,
                metadata: metadata@,
                content_encoding: opt(*content_encoding),
            },
            SendStage::Streaming(stream) => SendStageView::Streaming(stream@),
            SendStage::Done => SendStageView::Done,
        }
    }
}

/// What sending waited for.
#[derive(Debug)]
pub enum SendEvent {
    Head(ResponseHead),
    /// There is no response, for this reason or because the time was up.
    NoResponse(Option<String>),
    Body(ResponseBody),
    Stream(StreamEvent),
}

/// What sending asks for.
#[derive(Debug)]
pub enum SendAction {
    Request(OutgoingRequest),
    ReadBody,
    ReadFrame,
    /// Hand a record of the response to the sink.
    Publish(StreamItem),
    Finish(Result<Sent, PublisherError>),
}

/// What sending asks for, over mathematical values.
pub enum SendActionView {
    Request(RequestView),
    ReadBody,
    ReadFrame,
    Publish(ItemView),
    Finish(Result<SentView, FailureView>),
}

impl View for SendAction {
    type V = SendActionView;

    open spec fn view(&self) -> SendActionView {
        match self {
            SendAction::Request(r) => SendActionView::Request(r@),
            SendAction::ReadBody => SendActionView::ReadBody,
            SendAction::ReadFrame => SendActionView::ReadFrame,
            SendAction::Publish(item) => SendActionView::Publish(item@),
            SendAction::Finish(result) => SendActionView::Finish(outcome_view(*result)),
        }
    }
}

impl SendStageView {
    /// What holds of every stage.
    pub open spec fn wf(self) -> bool {
        self matches SendStageView::Streaming(s) ==> s.wf()
    }

    /// Whether sending waits for such an event.
    pub open spec fn awaits(self, event: SendEvent) -> bool {
        match self {
            SendStageView::Requesting => event is Head || event is NoResponse,
            SendStageView::Reading { .. } => event is Body,
            SendStageView::Streaming(s) => (event matches SendEvent::Stream(e) && s.awaits(e@)),
            SendStageView::Done => false,
        }
    }

    /// The end of sending with this outcome.
    pub open spec fn finish(outcome: Result<SentView, FailureView>) -> (Self, SendActionView) {
        (SendStageView::Done, SendActionView::Finish(outcome))
    }

    /// What follows from an event while this message is sent.
    pub open spec fn next(self, p: HttpPublisher, message: MessageView, event: SendEvent) -> (
        Self,
        SendActionView,
    ) {
        match event {
            SendEvent::NoResponse(reason) => Self::finish(
                Err(no_response_failure(p.url@, opt(reason))),
            ),
            SendEvent::Head(head) => match head_step(p.has_stream_sink, message, head) {
                HeadView::Fail(e) => Self::finish(Err(e)),
                HeadView::Stream { metadata, correlation_id, format } => (
                    SendStageView::Streaming(
                        ResponseStreamView {
                            correlation_id,
                            format,
                            metadata,
                            index: 0,
                            buffer: Seq::empty(),
                            pending: Seq::empty(),
                            sent: 0,
                            stage: Stage::Reading,
                            failure: None,
                        },
                    ),
                    SendActionView::ReadFrame,
                ),
                HeadView::ReadBody { metadata, content_encoding } => (
                    SendStageView::Reading { status: head.status, metadata, content_encoding },
                    SendActionView::ReadBody,
                ),
            },
            SendEvent::Body(body) => match self {
                SendStageView::Reading { status, metadata, content_encoding } => Self::finish(
                    response_result(message.message_id, status, metadata, content_encoding, body),
                ),
                _ => Self::finish(Ok(SentView::Ack)),
            },
            SendEvent::Stream(e) => match self {
                SendStageView::Streaming(stream) => {
                    let (after, action) = stream.next(e@);
                    match action {
                        ActionView::Read => (
                            SendStageView::Streaming(after),
                            SendActionView::ReadFrame,
                        ),
                        ActionView::Send(item) => (
                            SendStageView::Streaming(after),
                            SendActionView::Publish(item),
                        ),
                        ActionView::Done(failure) => Self::finish(stream_result(failure)),
                    }
                },
                _ => Self::finish(Ok(SentView::Ack)),
            },
        }
    }
}

/// A message that is being sent.
#[derive(Debug)]
pub struct HttpSend {
    pub message: CanonicalMessage,
    pub stage: SendStage,
}

impl HttpSend {
    /// Begins sending a message: its request is made, or refused for good.
    pub fn start(publisher: &HttpPublisher, message: CanonicalMessage) -> (res: (
        Self,
        SendAction,
    ))
        ensures
            res.0.message == message,
            match prepared(*publisher, message.metadata@, message.payload@) {
                Ok(request) => res.0.stage@ is Requesting && res.1@ == SendActionView::Request(
                    request,
                ),
                Err(why) => (res.0.stage@, res.1@) == SendStageView::finish(
                    Err(FailureView::NonRetryable(why)),
                ),
            },
            res.0.stage@.wf(),
    {
        match publisher.prepare(&message) {
            Ok(request) => (
                HttpSend { message, stage: SendStage::Requesting },
                SendAction::Request(request),
            ),
            Err(e) => (HttpSend { message, stage: SendStage::Done }, SendAction::Finish(Err(e))),
        }
    }

    /// Goes on after a wait.
    pub fn step(self, publisher: &HttpPublisher, event: SendEvent) -> (res: (Self, SendAction))
        requires
            self.stage@.wf(),
            self.stage@.awaits(event),
        ensures
            res.0.message == self.message,
            (res.0.stage@, res.1@) == self.stage@.next(*publisher, self.message@, event),
            res.0.stage@.wf(),
    {
        let HttpSend { message, stage } = self;
        let (next, action) = match event {
            SendEvent::NoResponse(reason) => {
                let e = match &reason {
                    Some(text) => publisher.no_response(Some(text.as_str())),
                    None => publisher.no_response(None),
                };
                (SendStage::Done, SendAction::Finish(Err(e)))
            },
            SendEvent::Head(head) => match publisher.on_head(&message, &head) {
                HeadStep::Fail(e) => (SendStage::Done, SendAction::Finish(Err(e))),
                HeadStep::Stream { metadata, correlation_id, format } => (
                    SendStage::Streaming(ResponseStream::new(metadata, correlation_id, format)),
                    SendAction::ReadFrame,
                ),
                HeadStep::ReadBody { metadata, content_encoding } => (
                    SendStage::Reading { status: head.status, metadata, content_encoding },
                    SendAction::ReadBody,
                ),
            },
            SendEvent::Body(body) => match stage {
                SendStage::Reading { status, metadata, content_encoding } => {
                    let encoding = match &content_encoding {
                        Some(e) => Some(e.as_str()),
                        None => None,
                    };
                    let outcome = response_outcome(
                        message.message_id,
                        status,
                        metadata,
                        encoding,
                        body,
                    );
                    (SendStage::Done, SendAction::Finish(outcome))
                },
                _ => (SendStage::Done, SendAction::Finish(Ok(Sent::Ack))),
            },
            SendEvent::Stream(e) => match stage {
                SendStage::Streaming(before) => {
                    let mut stream = before;
                    match stream.step(e) {
                        StreamAction::Read => (
                            SendStage::Streaming(stream),
                            SendAction::ReadFrame,
                        ),
                        StreamAction::Send(item) => (
                            SendStage::Streaming(stream),
                            SendAction::Publish(item),
                        ),
                        StreamAction::Done(result) => (
                            SendStage::Done,
                            SendAction::Finish(stream_outcome(result)),
                        ),
                    }
                },
                _ => (SendStage::Done, SendAction::Finish(Ok(Sent::Ack))),
            },
        };
        (HttpSend { message, stage: next }, action)
    }
}

/// A message has an outcome exactly when sending is over, and what is asked for is
/// what sending then waits for.
pub proof fn law_sending_ends_with_its_outcome(
    stage: SendStageView,
    p: HttpPublisher,
    message: MessageView,
    event: SendEvent,
)
    requires
        stage.wf(),
        stage.awaits(event),
    ensures
        ({
            let (next, action) = stage.next(p, message, event);
            &&& next is Done <==> action is Finish
            &&& action is ReadBody <==> next is Reading
            &&& action is ReadFrame <==> (next matches SendStageView::Streaming(s)
                && s.stage is Reading)
            &&& !(action is Request)
        }),
{
}

/// Nothing is sent twice: once a part of its response has been published, a message
/// counts as sent, whatever fails.
pub proof fn law_published_parts_are_not_sent_again(
    stream: ResponseStreamView,
    p: HttpPublisher,
    message: MessageView,
    event: StreamEvent,
)
    requires
        stream.wf(),
        stream.awaits(event@),
        stream.index > 0,
    ensures
        SendStageView::Streaming(stream).next(
            p,
            message,
            SendEvent::Stream(event),
        ).1 matches SendActionView::Finish(outcome) ==> outcome == Ok::<SentView, FailureView>(
            SentView::Ack,
        ),
{
}

} // verus!
