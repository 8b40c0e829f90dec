//! Publishing a streamed response record by record.
//!
//! The stream is a state machine: it is told what happened and says what to do next,
//! read on, send a message, or stop. Consumers of the messages wait for an end
//! marker, so once a record has been published the stream is closed by one on every
//! way out.

use vstd::prelude::*;
use vstd::utf8::encode_utf8;

use crate::http::frames::HttpStreamFormat;
use crate::http::stream::{
    describe, frame_records, frame_rest, further, place, placed_metadata, record_metadata,
    record_views, tail_records, take_records, take_tail, ItemView, RecordView, StreamItem,
    StreamRecord,
};
use crate::message::{copy_bytes, with, with_default, FailureView, Metadata, Pairs, PublisherError};
use crate::text::join2;

verus! {

/// What the stream is waiting for.
#[derive(Debug, Clone, Copy, PartialEq, Eq, Structural)]
pub enum Stage {
    /// The next frame of the body.
    Reading,
    /// The record of a frame that is being sent.
    Publishing,
    /// The record that the end of the body completed.
    Tail,
    /// The end marker after a complete body.
    Closing,
    /// The marker of a body that could not be read.
    MarkingError,
    /// The end marker behind an error marker.
    EndingAfterError,
    /// The end marker after a record could not be sent.
    EndingAfterFailure,
    /// Nothing more.
    Finished,
}

/// Why a streamed response was not published in full, and whether a part was.
#[derive(Debug)]
pub enum PublishResponseStreamError {
    BeforePublish(PublisherError),
    Partial(PublisherError),
}

/// A failed stream over mathematical values.
pub enum StreamFailureView {
    BeforePublish(FailureView),
    Partial(FailureView),
}

/// What happened.
#[derive(Debug)]
pub enum StreamEvent {
    Frame(Vec<u8>),
    Ended,
    ReadFailed(String),
    TimedOut,
    Sent,
    SendFailed(PublisherError),
}

/// What happened, over mathematical values.
pub enum EventView {
    Frame(Seq<u8>),
    Ended,
    ReadFailed(Seq<char>),
    TimedOut,
    Sent,
    SendFailed(FailureView),
}

impl View for StreamEvent {
    type V = EventView;

    open spec fn view(&self) -> EventView {
        match self {
            StreamEvent::Frame(data) => EventView::Frame(data@),
            StreamEvent::Ended => EventView::Ended,
            StreamEvent::ReadFailed(text) => EventView::ReadFailed(text@),
            StreamEvent::TimedOut => EventView::TimedOut,
            StreamEvent::Sent => EventView::Sent,
            StreamEvent::SendFailed(error) => EventView::SendFailed(error@),
        }
    }
}

/// What to do next.
#[derive(Debug)]
pub enum StreamAction {
    Read,
    Send(StreamItem),
    Done(Result<(), PublishResponseStreamError>),
}

/// What to do next, over mathematical values.
pub enum ActionView {
    Read,
    Send(ItemView),
    Done(Option<StreamFailureView>),
}

/// How publishing a streamed response ended, over mathematical values.
pub open spec fn stream_end(r: Result<(), PublishResponseStreamError>) -> Option<
    StreamFailureView,
> {
    match r {
        Ok(_) => None,
        Err(PublishResponseStreamError::BeforePublish(e)) => Some(
            StreamFailureView::BeforePublish(e@),
        ),
        Err(PublishResponseStreamError::Partial(e)) => Some(StreamFailureView::Partial(e@)),
    }
}

impl View for StreamAction {
    type V = ActionView;

    open spec fn view(&self) -> ActionView {
        match self {
            StreamAction::Read => ActionView::Read,
            StreamAction::Send(item) => ActionView::Send(item@),
            StreamAction::Done(result) => ActionView::Done(stream_end(*result)),
        }
    }
}

/// A streamed response on its way to a sink.
#[derive(Debug)]
pub struct ResponseStream {
    pub correlation_id: String,
    pub format: HttpStreamFormat,
    pub metadata: Metadata,
    /// How many records have been published in the frames that are done.
    pub index: usize,
    pub buffer: Vec<u8>,
    /// The records of the frame that are not sent yet, the one being sent first.
    pub pending: Vec<StreamRecord>,
    /// How many records of the frame have been sent.
    pub sent: usize,
    pub stage: Stage,
    /// Why the stream is being given up.
    pub failure: Option<PublisherError>,
}

/// A streamed response over mathematical values.
pub struct ResponseStreamView {
    pub correlation_id: Seq<char>,
    pub format: HttpStreamFormat,
    pub metadata: Pairs,
    pub index: int,
    pub buffer: Seq<u8>,
    pub pending: Seq<RecordView>,
    pub sent: int,
    pub stage: Stage,
    pub failure: Option<FailureView>,
}

impl View for ResponseStream {
    type V = ResponseStreamView;

    open spec fn view(&self) -> ResponseStreamView {
        ResponseStreamView {
            correlation_id: self.correlation_id@,
            format: self.format,
            metadata: self.metadata@,
            index: self.index as int,
            buffer: self.buffer@,
            pending: record_views(self.pending@),
            sent: self.sent as int,
            stage: self.stage,
            failure: match self.failure {
                Some(e) => Some(e@),
                None => None,
            },
        }
    }
}

impl ResponseStreamView {
    /// What holds of every stream: a record is at hand while one is being sent, and
    /// a reason while the stream is being given up.
    pub open spec fn wf(self) -> bool {
        &&& 0 <= self.index <= usize::MAX
        &&& 0 <= self.sent <= usize::MAX
        &&& self.stage is Publishing || self.stage is Tail ==> self.pending.len() > 0
        &&& self.stage is MarkingError || self.stage is EndingAfterError || self.stage
            is EndingAfterFailure ==> self.failure is Some
    }

    /// Whether the stream waits for such an event.
    pub open spec fn awaits(self, e: EventView) -> bool {
        match self.stage {
            Stage::Reading => e is Frame || e is Ended || e is ReadFailed || e is TimedOut,
            Stage::Finished => false,
            _ => e is Sent || e is SendFailed,
        }
    }

    /// Metadata with a place in the stream. Only an end marker ends it.
    pub open spec fn place(self, base: Pairs, index: int) -> Pairs {
        with_default(
            placed_metadata(base, self.correlation_id, self.format, index),
            "http_stream_end"@,
            "false"@,
        )
    }

    /// The message for a record.
    pub open spec fn record_item(self, record: RecordView, index: int) -> ItemView {
        ItemView {
            payload: record.payload,
            metadata: with_default(
                record_metadata(self.metadata, record, self.correlation_id, self.format, index),
                "http_stream_end"@,
                "false"@,
            ),
        }
    }

    /// The end marker.
    pub open spec fn end_item(self, index: int) -> ItemView {
        ItemView {
            payload: Seq::empty(),
            metadata: self.place(with(self.metadata, "http_stream_end"@, "true"@), index),
        }
    }

    /// The error marker.
    pub open spec fn error_item(self, index: int, text: Seq<char>) -> ItemView {
        ItemView {
            payload: encode_utf8(text),
            metadata: self.place(with(self.metadata, "http_stream_error"@, "true"@), index),
        }
    }

    /// The stream in another stage.
    pub open spec fn at(self, stage: Stage) -> ResponseStreamView {
        ResponseStreamView { stage, ..self }
    }

    /// Stopping with an error: in part if a frame has been published before.
    pub open spec fn give_up(self, error: FailureView) -> (ResponseStreamView, ActionView) {
        (
            ResponseStreamView { failure: None, ..self.at(Stage::Finished) },
            ActionView::Done(
                Some(
                    if self.index > 0 {
                        StreamFailureView::Partial(error)
                    } else {
                        StreamFailureView::BeforePublish(error)
                    },
                ),
            ),
        )
    }

    /// After a record could not be sent: an end marker first if a frame has been
    /// published before.
    pub open spec fn send_failed(self, error: FailureView) -> (ResponseStreamView, ActionView) {
        if self.index > 0 {
            (
                ResponseStreamView {
                    failure: Some(error),
                    ..self.at(Stage::EndingAfterFailure)
                },
                ActionView::Send(self.end_item(self.index)),
            )
        } else {
            self.give_up(error)
        }
    }

    /// After the body could not be read: an error marker first.
    pub open spec fn read_failed(self, text: Seq<char>) -> (ResponseStreamView, ActionView) {
        (
            ResponseStreamView {
                failure: Some(FailureView::Retryable(text)),
                ..self.at(Stage::MarkingError)
            },
            ActionView::Send(self.error_item(self.index, text)),
        )
    }

    /// What follows from an event.
    pub open spec fn next(self, e: EventView) -> (ResponseStreamView, ActionView) {
        match self.stage {
            Stage::Reading => match e {
                EventView::Frame(data) => if data.len() == 0 {
                    (self, ActionView::Read)
                } else {
                    let records = frame_records(self.format, self.buffer, data);
                    let read = ResponseStreamView {
                        buffer: frame_rest(self.format, self.buffer, data),
                        pending: records,
                        sent: 0,
                        ..self
                    };
                    if records.len() == 0 {
                        (read, ActionView::Read)
                    } else {
                        (
                            read.at(Stage::Publishing),
                            ActionView::Send(self.record_item(records[0], self.index)),
                        )
                    }
                },
                EventView::Ended => {
                    let records = tail_records(self.format, self.buffer);
                    if records.len() == 0 {
                        (
                            self.at(Stage::Closing),
                            ActionView::Send(self.end_item(self.index)),
                        )
                    } else {
                        (
                            ResponseStreamView {
                                pending: records,
                                sent: 0,
                                ..self.at(Stage::Tail)
                            },
                            ActionView::Send(self.record_item(records[0], self.index)),
                        )
                    }
                },
                EventView::ReadFailed(text) => self.read_failed(
                    "Failed to read HTTP response stream: "@ + text,
                ),
                _ => self.read_failed("HTTP response stream timeout"@),
            },
            Stage::Publishing => match e {
                EventView::SendFailed(error) => self.send_failed(error),
                _ => {
                    let rest = self.pending.skip(1);
                    let sent = further(self.sent, 1);
                    if rest.len() == 0 {
                        (
                            ResponseStreamView {
                                index: further(self.index, sent),
                                pending: rest,
                                sent: 0,
                                ..self.at(Stage::Reading)
                            },
                            ActionView::Read,
                        )
                    } else {
                        (
                            ResponseStreamView { pending: rest, sent, ..self },
                            ActionView::Send(self.record_item(rest[0], further(self.index, sent))),
                        )
                    }
                },
            },
            Stage::Tail => match e {
                EventView::SendFailed(error) => self.send_failed(error),
                _ => {
                    let index = further(self.index, 1);
                    (
                        ResponseStreamView {
                            index,
                            pending: self.pending.skip(1),
                            ..self.at(Stage::Closing)
                        },
                        ActionView::Send(self.end_item(index)),
                    )
                },
            },
            Stage::Closing => match e {
                EventView::SendFailed(error) => self.give_up(error),
                _ => (self.at(Stage::Finished), ActionView::Done(None)),
            },
            Stage::MarkingError => match e {
                EventView::SendFailed(_) => self.give_up(self.failure->0),
                _ => (
                    self.at(Stage::EndingAfterError),
                    ActionView::Send(self.end_item(further(self.index, 1))),
                ),
            },
            _ => self.give_up(self.failure->0),
        }
    }
}

impl ResponseStream {
    /// A response that nothing has been read of.
    pub fn new(
        metadata: Metadata,
        correlation_id: String,
        format: HttpStreamFormat,
    ) -> (s: Self)
        ensures
            s@ == (ResponseStreamView {
                correlation_id: correlation_id@,
                format,
                metadata: metadata@,
                index: 0,
                buffer: Seq::empty(),
                pending: Seq::empty(),
                sent: 0,
                stage: Stage::Reading,
                failure: None,
            }),
            s@.wf(),
    {
        let s = ResponseStream {
            correlation_id,
            format,
            metadata,
            index: 0,
            buffer: Vec::new(),
            pending: Vec::new(),
            sent: 0,
            stage: Stage::Reading,
            failure: None,
        };
        assert(record_views(s.pending@) =~= Seq::<RecordView>::empty());
        s
    }

    fn end_marker(&self, index: usize) -> (action: StreamAction)
        ensures
            action@ == ActionView::Send(self@.end_item(index as int)),
    {
        let mut metadata = self.metadata.copy();
        metadata.put("http_stream_end", "true");
        place(&mut metadata, self.correlation_id.as_str(), self.format, index);
        metadata.put_default("http_stream_end", "false");
        StreamAction::Send(StreamItem { payload: Vec::new(), metadata })
    }

    fn error_marker(&self, index: usize, text: &str) -> (action: StreamAction)
        ensures
            action@ == ActionView::Send(self@.error_item(index as int, text@)),
    {
        let mut metadata = self.metadata.copy();
        metadata.put("http_stream_error", "true");
        place(&mut metadata, self.correlation_id.as_str(), self.format, index);
        metadata.put_default("http_stream_end", "false");
        StreamAction::Send(StreamItem { payload: copy_bytes(text.as_bytes()), metadata })
    }

    fn first_pending(&self, index: usize) -> (action: StreamAction)
        requires
            self.pending@.len() > 0,
        ensures
            action@ == ActionView::Send(self@.record_item(self@.pending[0], index as int)),
    {
        let record = &self.pending[0];
        assert(self@.pending[0] == record@);
        let mut metadata = describe(&self.metadata, record);
        place(&mut metadata, self.correlation_id.as_str(), self.format, index);
        metadata.put_default("http_stream_end", "false");
        StreamAction::Send(
            StreamItem { payload: copy_bytes(record.payload.as_slice()), metadata },
        )
    }

    fn give_up(&mut self, error: PublisherError) -> (action: StreamAction)
        ensures
            (final(self)@, action@) == old(self)@.give_up(error@),
    {
        self.stage = Stage::Finished;
        self.failure = None;
        if self.index > 0 {
            StreamAction::Done(Err(PublishResponseStreamError::Partial(error)))
        } else {
            StreamAction::Done(Err(PublishResponseStreamError::BeforePublish(error)))
        }
    }

    fn send_failed(&mut self, error: PublisherError) -> (action: StreamAction)
        ensures
            (final(self)@, action@) == old(self)@.send_failed(error@),
    {
        if self.index > 0 {
            self.failure = Some(error);
            self.stage = Stage::EndingAfterFailure;
            self.end_marker(self.index)
        } else {
            self.give_up(error)
        }
    }

    fn read_failed(&mut self, text: String) -> (action: StreamAction)
        ensures
            (final(self)@, action@) == old(self)@.read_failed(text@),
    {
        let action = self.error_marker(self.index, text.as_str());
        self.failure = Some(PublisherError::Retryable(text));
        self.stage = Stage::MarkingError;
        action
    }

    fn take_failure(&mut self) -> (error: PublisherError)
        requires
            old(self).failure is Some,
        ensures
            Some(error@) == old(self)@.failure,
            final(self)@ == (ResponseStreamView { failure: None, ..old(self)@ }),
    {
        match self.failure.take() {
            Some(error) => error,
            None => PublisherError::Retryable(String::new()),
        }
    }

    fn on_reading(&mut self, event: StreamEvent) -> (action: StreamAction)
        requires
            old(self)@.wf(),
            old(self).stage is Reading,
            old(self)@.awaits(event@),
        ensures
            (final(self)@, action@) == old(self)@.next(event@),
            final(self)@.wf(),
    {
        match event {
            StreamEvent::Frame(data) => {
                if data.len() == 0 {
                    return StreamAction::Read;
                }
                let mut buffer: Vec<u8> = Vec::new();
                buffer.append(&mut self.buffer);
                assert(buffer@ =~= old(self).buffer@);
                let records = take_records(self.format, &mut buffer, data.as_slice());
                self.buffer = buffer;
                self.pending = records;
                self.sent = 0;
                if self.pending.len() == 0 {
                    assert(self@.pending.len() == 0);
                    StreamAction::Read
                } else {
                    self.stage = Stage::Publishing;
                    self.first_pending(self.index)
                }
            },
            StreamEvent::Ended => {
                let records = take_tail(self.format, self.buffer.as_slice());
                if records.len() == 0 {
                    self.stage = Stage::Closing;
                    self.end_marker(self.index)
                } else {
                    self.pending = records;
                    self.sent = 0;
                    self.stage = Stage::Tail;
                    self.first_pending(self.index)
                }
            },
            StreamEvent::ReadFailed(text) => self.read_failed(
                join2("Failed to read HTTP response stream: ", text.as_str()),
            ),
            _ => self.read_failed("HTTP response stream timeout".to_owned()),
        }
    }

    /// Tells the stream what happened, and asks what to do next.
    pub fn step(&mut self, event: StreamEvent) -> (action: StreamAction)
        requires
            old(self)@.wf(),
            old(self)@.awaits(event@),
        ensures
            (final(self)@, action@) == old(self)@.next(event@),
            final(self)@.wf(),
    {
        match self.stage {
            Stage::Reading => self.on_reading(event),
            Stage::Publishing => match event {
                StreamEvent::SendFailed(error) => self.send_failed(error),
                _ => {
                    let ghost before = self.pending@;
                    self.pending.remove(0);
                    assert(record_views(self.pending@) =~= record_views(before).skip(1));
                    self.sent = self.sent.saturating_add(1);
                    if self.pending.len() == 0 {
                        self.index = self.index.saturating_add(self.sent);
                        self.sent = 0;
                        self.stage = Stage::Reading;
                        StreamAction::Read
                    } else {
                        self.first_pending(self.index.saturating_add(self.sent))
                    }
                },
            },
            Stage::Tail => match event {
                StreamEvent::SendFailed(error) => self.send_failed(error),
                _ => {
                    let ghost before = self.pending@;
                    self.pending.remove(0);
                    assert(record_views(self.pending@) =~= record_views(before).skip(1));
                    self.index = self.index.saturating_add(1);
                    self.stage = Stage::Closing;
                    self.end_marker(self.index)
                },
            },
            Stage::Closing => match event {
                StreamEvent::SendFailed(error) => self.give_up(error),
                _ => {
                    self.stage = Stage::Finished;
                    StreamAction::Done(Ok(()))
                },
            },
            Stage::MarkingError => match event {
                StreamEvent::SendFailed(_) => {
                    let error = self.take_failure();
                    self.give_up(error)
                },
                _ => {
                    self.stage = Stage::EndingAfterError;
                    self.end_marker(self.index.saturating_add(1))
                },
            },
            _ => {
                let error = self.take_failure();
                self.give_up(error)
            },
        }
    }
}

/// A stream of which a part has been published stops only after an end marker was
/// handed on, unless not even the error marker before it could be sent.
pub proof fn law_published_streams_are_ended(s: ResponseStreamView, e: EventView)
    requires
        s.wf(),
        s.awaits(e),
        s.index > 0,
    ensures
        s.next(e).1 is Done ==> s.stage is Closing || s.stage is EndingAfterError || s.stage
            is EndingAfterFailure || (s.stage is MarkingError && e is SendFailed),
{
}

/// The stages that wait for an end marker are entered by sending one.
pub proof fn law_ending_stages_send_the_end_marker(s: ResponseStreamView, e: EventView)
    requires
        s.wf(),
        s.awaits(e),
    ensures
        s.next(e).0.stage is Closing || s.next(e).0.stage is EndingAfterError || s.next(e).0.stage
            is EndingAfterFailure ==> exists|i: int|
            s.next(e).1 == ActionView::Send(#[trigger] s.end_item(i)),
{
    let n = s.next(e);
    if n.0.stage is Closing {
        if s.stage is Tail {
            assert(n.1 == ActionView::Send(s.end_item(further(s.index, 1))));
        } else {
            assert(n.1 == ActionView::Send(s.end_item(s.index)));
        }
    } else if n.0.stage is EndingAfterError {
        assert(n.1 == ActionView::Send(s.end_item(further(s.index, 1))));
    } else if n.0.stage is EndingAfterFailure {
        assert(n.1 == ActionView::Send(s.end_item(s.index)));
    }
}

/// A stream reports a partial failure exactly if a frame was published before.
pub proof fn law_partial_failures_follow_published_frames(s: ResponseStreamView, e: EventView)
    requires
        s.wf(),
        s.awaits(e),
    ensures
        s.next(e).1 matches ActionView::Done(Some(f)) ==> (f is Partial <==> s.index > 0),
{
}

} // verus!
