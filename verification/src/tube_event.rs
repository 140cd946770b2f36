//! Events a tube's consumer receives, in wire-arrival order.

use vstd::prelude::*;
use crate::frame::AbortReason;

verus! {

/// Errors surfaced on a tube's event stream itself.
#[allow(non_camel_case_types)]
#[derive(Clone, Debug, PartialEq)]
pub enum TubeEvent_StreamError {
    InvalidTubeEventTransition(TubeEventTag, TubeEventTag),
    ServerError(String),
}

/// One item of a tube's consumer stream.
#[derive(Clone, Debug, PartialEq)]
pub enum TubeEvent {
    Abort(AbortReason),
    AuthenticatedAndReady,
    ClientHasFinishedSending,
    Payload(Vec<u8>),
    StreamError(TubeEvent_StreamError),
    ServerHasFinishedSending,
}

/// The variant of an event, without its payload.
#[derive(Clone, Debug, PartialEq, Eq, Structural)]
pub enum TubeEventTag {
    Abort,
    Uninitialized,
    AuthenticatedAndReady,
    Payload,
    ClientHasFinishedSending,
    StreamError,
    ServerHasFinishedSending,
}

impl TubeEventTag {
    /// The tag of an event.
    pub fn of_event(event: &TubeEvent) -> (r: TubeEventTag)
        ensures
            r == event@.tag(),
    {
        match event {
            TubeEvent::Abort(_) => TubeEventTag::Abort,
            TubeEvent::AuthenticatedAndReady => TubeEventTag::AuthenticatedAndReady,
            TubeEvent::Payload(_) => TubeEventTag::Payload,
            TubeEvent::ClientHasFinishedSending => TubeEventTag::ClientHasFinishedSending,
            TubeEvent::StreamError(_) => TubeEventTag::StreamError,
            TubeEvent::ServerHasFinishedSending => TubeEventTag::ServerHasFinishedSending,
        }
    }
}

/// The mathematical value of a stream error.
pub enum StreamErrorModel {
    InvalidTubeEventTransition(TubeEventTag, TubeEventTag),
    ServerError(Seq<char>),
}

/// The mathematical value of an event.
pub enum EventModel {
    Abort(AbortReason),
    AuthenticatedAndReady,
    ClientHasFinishedSending,
    Payload(Seq<u8>),
    StreamError(StreamErrorModel),
    ServerHasFinishedSending,
}

impl EventModel {
    pub open spec fn tag(self) -> TubeEventTag {
        match self {
            EventModel::Abort(_) => TubeEventTag::Abort,
            EventModel::AuthenticatedAndReady => TubeEventTag::AuthenticatedAndReady,
            EventModel::ClientHasFinishedSending => TubeEventTag::ClientHasFinishedSending,
            EventModel::Payload(_) => TubeEventTag::Payload,
            EventModel::StreamError(_) => TubeEventTag::StreamError,
            EventModel::ServerHasFinishedSending => TubeEventTag::ServerHasFinishedSending,
        }
    }
}

impl View for TubeEvent_StreamError {
    type V = StreamErrorModel;

    open spec fn view(&self) -> StreamErrorModel {
        match self {
            TubeEvent_StreamError::InvalidTubeEventTransition(a, b) =>
                StreamErrorModel::InvalidTubeEventTransition(*a, *b),
            TubeEvent_StreamError::ServerError(s) => StreamErrorModel::ServerError(s@),
        }
    }
}

impl View for TubeEvent {
    type V = EventModel;

    open spec fn view(&self) -> EventModel {
        match self {
            TubeEvent::Abort(r) => EventModel::Abort(*r),
            TubeEvent::AuthenticatedAndReady => EventModel::AuthenticatedAndReady,
            TubeEvent::ClientHasFinishedSending => EventModel::ClientHasFinishedSending,
            TubeEvent::Payload(d) => EventModel::Payload(d@),
            TubeEvent::StreamError(e) => EventModel::StreamError(e@),
            TubeEvent::ServerHasFinishedSending => EventModel::ServerHasFinishedSending,
        }
    }
}

/// The models of a sequence of events.
pub open spec fn event_views(s: Seq<TubeEvent>) -> Seq<EventModel> {
    s.map_values(|e: TubeEvent| e@)
}

} // verus!
