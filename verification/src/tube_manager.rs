//! Per-tube state: the completion state machine, pending consumer events,
//! and the registry of sends awaiting a `PayloadAck`.
//!
//! The completion state only ever moves forward — from `Open` through at
//! most one half-close per side toward `Closed`, or to an aborted state —
//! and the state lemmas here show that order has no back-edges.  The ack
//! registry maps each pending ack id to the resolver that will complete
//! the matching `send`; an id is registered at most once.

use vstd::prelude::*;
use crate::PeerType;
use crate::frame::{AbortReason, FrameModel, spec_encode};
use crate::encoder::{
    FrameEncodeError, encode_abort_frame, encode_client_has_finished_sending_frame,
    encode_server_has_finished_sending_frame,
};
use crate::tube_event::{TubeEvent, EventModel, event_views};

verus! {

/// Where a tube stands in its lifecycle.
#[derive(Copy, Clone, Debug, PartialEq, Eq, Structural)]
pub enum TubeCompletionState {
    Open,
    ClientHasFinishedSending,
    ServerHasFinishedSending,
    Closed,
    AbortedFromLocal(AbortReason),
    AbortedFromRemote(AbortReason),
}

/// A state that accepts no further transitions.
pub open spec fn is_terminal(s: TubeCompletionState) -> bool {
    match s {
        TubeCompletionState::Closed => true,
        TubeCompletionState::AbortedFromLocal(_) => true,
        TubeCompletionState::AbortedFromRemote(_) => true,
        _ => false,
    }
}

/// The completion-state order: either no change, or one legal forward
/// edge.  Half-closes meet in `Closed`; any non-terminal state may abort.
pub open spec fn state_step_ok(pre: TubeCompletionState, post: TubeCompletionState) -> bool {
    ||| pre == post
    ||| match (pre, post) {
        (TubeCompletionState::Open, TubeCompletionState::ClientHasFinishedSending) => true,
        (TubeCompletionState::Open, TubeCompletionState::ServerHasFinishedSending) => true,
        (TubeCompletionState::Open, TubeCompletionState::AbortedFromLocal(_)) => true,
        (TubeCompletionState::Open, TubeCompletionState::AbortedFromRemote(_)) => true,
        (TubeCompletionState::ClientHasFinishedSending, TubeCompletionState::Closed) => true,
        (
            TubeCompletionState::ClientHasFinishedSending,
            TubeCompletionState::AbortedFromLocal(_),
        ) => true,
        (
            TubeCompletionState::ClientHasFinishedSending,
            TubeCompletionState::AbortedFromRemote(_),
        ) => true,
        (TubeCompletionState::ServerHasFinishedSending, TubeCompletionState::Closed) => true,
        (
            TubeCompletionState::ServerHasFinishedSending,
            TubeCompletionState::AbortedFromLocal(_),
        ) => true,
        (
            TubeCompletionState::ServerHasFinishedSending,
            TubeCompletionState::AbortedFromRemote(_),
        ) => true,
        _ => false,
    }
}

/// How far along the lifecycle a state is.
pub open spec fn state_rank(s: TubeCompletionState) -> int {
    match s {
        TubeCompletionState::Open => 0,
        TubeCompletionState::ClientHasFinishedSending => 1,
        TubeCompletionState::ServerHasFinishedSending => 1,
        _ => 2,
    }
}

/// State monotonicity: every legal transition that changes the state
/// strictly increases its rank, so transitions form a DAG toward the
/// terminal states.
pub proof fn lemma_state_step_monotonic(pre: TubeCompletionState, post: TubeCompletionState)
    ensures
        state_step_ok(pre, post) && pre != post ==> state_rank(post) > state_rank(pre),
{
}

/// No back-edges: two states reachable from each other are the same state.
pub proof fn lemma_state_no_back_edges(a: TubeCompletionState, b: TubeCompletionState)
    ensures
        state_step_ok(a, b) && state_step_ok(b, a) ==> a == b,
{
}

/// Terminal states accept no transitions.
pub proof fn lemma_terminal_absorbing(a: TubeCompletionState, b: TubeCompletionState)
    ensures
        state_step_ok(a, b) && is_terminal(a) ==> a == b,
{
}

/// The mathematical value of a tube's state.
pub struct TubeMgrModel {
    pub state: TubeCompletionState,
    pub events: Seq<EventModel>,
    pub acks: Set<u16>,
}

/// One tube's bookkeeping, generic over the resolver value `R` that
/// completes a pending `send` when its ack arrives.
#[derive(Debug)]
pub struct TubeManager<R> {
    pub completion_state: TubeCompletionState,
    pub pending_events: Vec<TubeEvent>,
    pub sendacks: Vec<(u16, R)>,
}

impl<R> TubeManager<R> {
    /// The set of ack ids with a pending resolver.
    pub open spec fn acks_set(&self) -> Set<u16> {
        Set::new(
            |a: u16|
                exists|i: int|
                    0 <= i < self.sendacks@.len() && (#[trigger] self.sendacks@[i]).0 == a,
        )
    }

    /// Each pending ack id is registered at most once.
    pub open spec fn wf(&self) -> bool {
        forall|i: int, j: int|
            0 <= i < j < self.sendacks@.len() ==> (#[trigger] self.sendacks@[i]).0 != (
            #[trigger] self.sendacks@[j]).0
    }

    /// A fresh tube: open, no events, no pending acks.
    pub fn new() -> (r: TubeManager<R>)
        ensures
            r.wf(),
            r@.state == TubeCompletionState::Open,
            r@.events == Seq::<EventModel>::empty(),
            r@.acks == Set::<u16>::empty(),
            r.sendacks@.len() == 0,
    {
        let r = TubeManager {
            completion_state: TubeCompletionState::Open,
            pending_events: Vec::new(),
            sendacks: Vec::new(),
        };
        proof {
            assert(r@.events =~= Seq::<EventModel>::empty());
            assert(r@.acks =~= Set::<u16>::empty());
        }
        r
    }

    /// Register a resolver for an ack id.  Fails, changing nothing, when
    /// the id is already registered — each id resolves at most one send.
    pub fn register_sendack(&mut self, ack_id: u16, resolver: R) -> (r: Result<(), ()>)
        requires
            old(self).wf(),
        ensures
            final(self).wf(),
            final(self).completion_state == old(self).completion_state,
            final(self).pending_events == old(self).pending_events,
            match r {
                Ok(()) => {
                    &&& !old(self).acks_set().contains(ack_id)
                    &&& final(self).sendacks@ == old(self).sendacks@.push((ack_id, resolver))
                    &&& final(self).acks_set() == old(self).acks_set().insert(ack_id)
                },
                Err(()) => {
                    &&& old(self).acks_set().contains(ack_id)
                    &&& final(self).sendacks@ == old(self).sendacks@
                },
            },
    {
        let mut i: usize = 0;
        while i < self.sendacks.len()
            invariant
                old(self).wf(),
                i <= self.sendacks@.len(),
                forall|k: int| 0 <= k < i ==> (#[trigger] self.sendacks@[k]).0 != ack_id,
                self.sendacks@ == old(self).sendacks@,
                self.completion_state == old(self).completion_state,
                self.pending_events == old(self).pending_events,
            decreases self.sendacks@.len() - i,
        {
            if self.sendacks[i].0 == ack_id {
                return Err(());
            }
            i += 1;
        }
        self.sendacks.push((ack_id, resolver));
        proof {
            assert(self.acks_set() =~= old(self).acks_set().insert(ack_id)) by {
                assert forall|a: u16| self.acks_set().contains(a) implies (old(
                    self,
                ).acks_set().contains(a) || a == ack_id) by {
                    let i = choose|i: int|
                        0 <= i < self.sendacks@.len() && (#[trigger] self.sendacks@[i]).0 == a;
                    if i < old(self).sendacks@.len() {
                        assert(old(self).sendacks@[i].0 == a);
                    }
                }
                assert forall|a: u16| old(self).acks_set().contains(a) implies self.acks_set(
                ).contains(a) by {
                    let i = choose|i: int|
                        0 <= i < old(self).sendacks@.len() && (#[trigger] old(
                            self,
                        ).sendacks@[i]).0 == a;
                    assert(self.sendacks@[i].0 == a);
                }
                assert(self.sendacks@[old(self).sendacks@.len() as int].0 == ack_id);
            }
            assert forall|p: int, q: int| 0 <= p < q < self.sendacks@.len() implies (
            #[trigger] self.sendacks@[p]).0 != (#[trigger] self.sendacks@[q]).0 by {
                if q == self.sendacks@.len() - 1 {
                    assert(self.sendacks@[p] == old(self).sendacks@[p]);
                    assert(self.sendacks@[q].0 == ack_id);
                } else {
                    assert(self.sendacks@[p] == old(self).sendacks@[p]);
                    assert(self.sendacks@[q] == old(self).sendacks@[q]);
                }
            }
        }
        Ok(())
    }

    /// Remove and return the resolver registered for an ack id, if any.
    pub fn remove_sendack(&mut self, ack_id: u16) -> (r: Option<R>)
        requires
            old(self).wf(),
        ensures
            final(self).wf(),
            final(self).completion_state == old(self).completion_state,
            final(self).pending_events == old(self).pending_events,
            match r {
                Some(resolver) => {
                    &&& old(self).acks_set().contains(ack_id)
                    &&& (exists|i: int|
                        {
                            &&& 0 <= i < old(self).sendacks@.len()
                            &&& (#[trigger] old(self).sendacks@[i]) == (ack_id, resolver)
                            &&& final(self).sendacks@ == old(self).sendacks@.remove(i)
                        })
                    &&& final(self).acks_set() == old(self).acks_set().remove(ack_id)
                },
                None => {
                    &&& !old(self).acks_set().contains(ack_id)
                    &&& final(self).sendacks@ == old(self).sendacks@
                },
            },
    {
        let mut i: usize = 0;
        while i < self.sendacks.len()
            invariant
                old(self).wf(),
                i <= self.sendacks@.len(),
                forall|k: int| 0 <= k < i ==> (#[trigger] self.sendacks@[k]).0 != ack_id,
                self.sendacks@ == old(self).sendacks@,
                self.completion_state == old(self).completion_state,
                self.pending_events == old(self).pending_events,
            decreases self.sendacks@.len() - i,
        {
            if self.sendacks[i].0 == ack_id {
                let (_, resolver) = self.sendacks.remove(i);
                proof {
                    let idx = i as int;
                    assert(old(self).sendacks@[idx] == (ack_id, resolver));
                    assert(self.sendacks@ == old(self).sendacks@.remove(idx));
                    assert(self.acks_set() =~= old(self).acks_set().remove(ack_id)) by {
                        assert forall|a: u16| self.acks_set().contains(a) implies (old(
                            self,
                        ).acks_set().contains(a) && a != ack_id) by {
                            let j = choose|j: int|
                                0 <= j < self.sendacks@.len() && (
                                #[trigger] self.sendacks@[j]).0 == a;
                            if j < idx {
                                assert(old(self).sendacks@[j].0 == a);
                                if a == ack_id {
                                    assert(old(self).sendacks@[j].0 == old(
                                        self,
                                    ).sendacks@[idx].0);
                                    assert(false);
                                }
                            } else {
                                assert(old(self).sendacks@[j + 1].0 == a);
                                if a == ack_id {
                                    assert(old(self).sendacks@[idx].0 == old(
                                        self,
                                    ).sendacks@[j + 1].0);
                                    assert(false);
                                }
                            }
                        }
                        assert forall|a: u16|
                            old(self).acks_set().contains(a) && a != ack_id implies self
                            .acks_set().contains(a) by {
                            let j = choose|j: int|
                                0 <= j < old(self).sendacks@.len() && (#[trigger] old(
                                    self,
                                ).sendacks@[j]).0 == a;
                            if j < idx {
                                assert(self.sendacks@[j].0 == a);
                            } else {
                                assert(j != idx);
                                assert(self.sendacks@[j - 1].0 == a);
                            }
                        }
                    }
                    assert forall|p: int, q: int| 0 <= p < q < self.sendacks@.len() implies (
                    #[trigger] self.sendacks@[p]).0 != (#[trigger] self.sendacks@[q]).0 by {
                        let op = if p < idx {
                            p
                        } else {
                            p + 1
                        };
                        let oq = if q < idx {
                            q
                        } else {
                            q + 1
                        };
                        assert(self.sendacks@[p] == old(self).sendacks@[op]);
                        assert(self.sendacks@[q] == old(self).sendacks@[oq]);
                    }
                }
                return Some(resolver);
            }
            i += 1;
        }
        None
    }
}

impl<R> View for TubeManager<R> {
    type V = TubeMgrModel;

    open spec fn view(&self) -> TubeMgrModel {
        TubeMgrModel {
            state: self.completion_state,
            events: event_views(self.pending_events@),
            acks: self.acks_set(),
        }
    }
}

/// Errors of the user-facing `has_finished_sending` operation.
#[derive(Debug)]
pub enum HasFinishedSendingError {
    AlreadyMarkedAsFinishedSending,
    FrameEncodeError(FrameEncodeError),
    InternalError(String),
    FatalTransportError,
    TubeAlreadyAborted(AbortReason),
}

/// Errors of the user-facing `abort` operation.
#[derive(Debug)]
pub enum AbortError {
    AlreadyAborted(AbortReason),
    AlreadyClosed,
    FrameEncodeError(FrameEncodeError),
    FatalTransportError,
}

/// Errors of the user-facing `send` operations.  The timeout is carried
/// in nanoseconds.
#[derive(Debug)]
pub enum SendError {
    AckIdAlreadyInUseInternalError,
    AckIdsExhausted,
    FrameEncodeError(FrameEncodeError),
    TimedOutWaitingOnAck(u64),
    TransportError,
    UnknownTransportError,
}

/// The completion state after this side's half-close, by role.
pub open spec fn hfs_next_state(peer: PeerType, pre: TubeCompletionState) -> TubeCompletionState {
    match (pre, peer) {
        (TubeCompletionState::Open, PeerType::Client) =>
            TubeCompletionState::ClientHasFinishedSending,
        (TubeCompletionState::Open, PeerType::Server) =>
            TubeCompletionState::ServerHasFinishedSending,
        _ => TubeCompletionState::Closed,
    }
}

/// Advance a tube's state for a local half-close and hand back the frame
/// bytes to transmit: the role-appropriate `...HasFinishedSending` frame.
/// A repeated half-close and a half-close on a closed or aborted tube
/// fail without changing anything.
pub fn has_finished_sending_transition<R>(
    peer: PeerType,
    tube_id: u16,
    tm: &mut TubeManager<R>,
) -> (r: Result<Vec<u8>, HasFinishedSendingError>)
    requires
        old(tm).wf(),
    ensures
        final(tm).wf(),
        final(tm).pending_events == old(tm).pending_events,
        final(tm).sendacks@ == old(tm).sendacks@,
        state_step_ok(old(tm).completion_state, final(tm).completion_state),
        match r {
            Ok(bytes) => {
                &&& match peer {
                    PeerType::Client => bytes@ == spec_encode(
                        FrameModel::ClientHasFinishedSending { tube_id },
                    ),
                    PeerType::Server => bytes@ == spec_encode(
                        FrameModel::ServerHasFinishedSending { tube_id },
                    ),
                }
                &&& match (old(tm).completion_state, peer) {
                    (TubeCompletionState::Open, _) => true,
                    (TubeCompletionState::ClientHasFinishedSending, PeerType::Server) => true,
                    (TubeCompletionState::ServerHasFinishedSending, PeerType::Client) => true,
                    _ => false,
                }
                &&& final(tm).completion_state == hfs_next_state(
                    peer,
                    old(tm).completion_state,
                )
            },
            Err(HasFinishedSendingError::AlreadyMarkedAsFinishedSending) => {
                &&& match (old(tm).completion_state, peer) {
                    (TubeCompletionState::ClientHasFinishedSending, PeerType::Client) => true,
                    (TubeCompletionState::ServerHasFinishedSending, PeerType::Server) => true,
                    (TubeCompletionState::Closed, _) => true,
                    _ => false,
                }
                &&& final(tm).completion_state == old(tm).completion_state
            },
            Err(HasFinishedSendingError::TubeAlreadyAborted(reason)) => {
                &&& (old(tm).completion_state == TubeCompletionState::AbortedFromLocal(reason)
                    || old(tm).completion_state == TubeCompletionState::AbortedFromRemote(
                    reason,
                ))
                &&& final(tm).completion_state == old(tm).completion_state
            },
            Err(_) => false,
        },
{
    let frame_data = match peer {
        PeerType::Client => encode_client_has_finished_sending_frame(tube_id),
        PeerType::Server => encode_server_has_finished_sending_frame(tube_id),
    };
    let frame_data = match frame_data {
        Ok(data) => data,
        Err(e) => {
            return Err(HasFinishedSendingError::FrameEncodeError(e));
        },
    };
    let new_state = match (&tm.completion_state, peer) {
        (TubeCompletionState::Open, PeerType::Client) =>
            TubeCompletionState::ClientHasFinishedSending,
        (TubeCompletionState::Open, PeerType::Server) =>
            TubeCompletionState::ServerHasFinishedSending,
        (TubeCompletionState::ClientHasFinishedSending, PeerType::Server) =>
            TubeCompletionState::Closed,
        (TubeCompletionState::ServerHasFinishedSending, PeerType::Client) =>
            TubeCompletionState::Closed,
        (TubeCompletionState::ClientHasFinishedSending, PeerType::Client) => {
            return Err(HasFinishedSendingError::AlreadyMarkedAsFinishedSending);
        },
        (TubeCompletionState::ServerHasFinishedSending, PeerType::Server) => {
            return Err(HasFinishedSendingError::AlreadyMarkedAsFinishedSending);
        },
        (TubeCompletionState::Closed, _) => {
            return Err(HasFinishedSendingError::AlreadyMarkedAsFinishedSending);
        },
        (TubeCompletionState::AbortedFromLocal(reason), _) => {
            return Err(HasFinishedSendingError::TubeAlreadyAborted(*reason));
        },
        (TubeCompletionState::AbortedFromRemote(reason), _) => {
            return Err(HasFinishedSendingError::TubeAlreadyAborted(*reason));
        },
    };
    tm.completion_state = new_state;
    Ok(frame_data)
}

/// Advance a tube's state for a local abort and hand back the `Abort`
/// frame bytes to transmit.  An already-aborted or closed tube fails
/// without changing anything.
pub fn abort_transition<R>(tube_id: u16, reason: AbortReason, tm: &mut TubeManager<R>) -> (r:
    Result<Vec<u8>, AbortError>)
    requires
        old(tm).wf(),
    ensures
        final(tm).wf(),
        final(tm).pending_events == old(tm).pending_events,
        final(tm).sendacks@ == old(tm).sendacks@,
        state_step_ok(old(tm).completion_state, final(tm).completion_state),
        match r {
            Ok(bytes) => {
                &&& bytes@ == spec_encode(FrameModel::Abort { tube_id, reason })
                &&& !is_terminal(old(tm).completion_state)
                &&& final(tm).completion_state == TubeCompletionState::AbortedFromLocal(reason)
            },
            Err(AbortError::AlreadyAborted(prior)) => {
                &&& (old(tm).completion_state == TubeCompletionState::AbortedFromLocal(prior)
                    || old(tm).completion_state == TubeCompletionState::AbortedFromRemote(prior))
                &&& final(tm).completion_state == old(tm).completion_state
            },
            Err(AbortError::AlreadyClosed) => {
                &&& old(tm).completion_state == TubeCompletionState::Closed
                &&& final(tm).completion_state == old(tm).completion_state
            },
            Err(_) => false,
        },
{
    let frame_data = match encode_abort_frame(tube_id, reason) {
        Ok(data) => data,
        Err(e) => {
            return Err(AbortError::FrameEncodeError(e));
        },
    };
    match &tm.completion_state {
        TubeCompletionState::AbortedFromLocal(prior) => {
            return Err(AbortError::AlreadyAborted(*prior));
        },
        TubeCompletionState::AbortedFromRemote(prior) => {
            return Err(AbortError::AlreadyAborted(*prior));
        },
        TubeCompletionState::Closed => {
            return Err(AbortError::AlreadyClosed);
        },
        _ => {},
    }
    tm.completion_state = TubeCompletionState::AbortedFromLocal(reason);
    Ok(frame_data)
}

/// What polling a tube's event stream yields.
pub enum TubePoll {
    /// An event was pending; deliver it.
    Event(TubeEvent),
    /// The stream is complete for this consumer's role: no further items.
    Finished,
    /// Nothing pending; the consumer's waker should be parked.
    Pending,
}

/// Whether, with no events pending, a consumer of the given role is done:
/// a client consumer completes once the server has finished sending (or
/// the tube closed or aborted), a server consumer once the client has.
pub open spec fn stream_done(peer: PeerType, state: TubeCompletionState) -> bool {
    match (peer, state) {
        (_, TubeCompletionState::AbortedFromLocal(_)) => true,
        (_, TubeCompletionState::AbortedFromRemote(_)) => true,
        (_, TubeCompletionState::Closed) => true,
        (PeerType::Client, TubeCompletionState::ServerHasFinishedSending) => true,
        (PeerType::Server, TubeCompletionState::ClientHasFinishedSending) => true,
        _ => false,
    }
}

/// Pop the next pending event, oldest first.  With no event pending, the
/// result says whether the stream is complete for this role or the
/// consumer should wait.
pub fn take_next_event<R>(peer: PeerType, tm: &mut TubeManager<R>) -> (r: TubePoll)
    requires
        old(tm).wf(),
    ensures
        final(tm).wf(),
        final(tm).completion_state == old(tm).completion_state,
        final(tm).sendacks@ == old(tm).sendacks@,
        match r {
            TubePoll::Event(e) => {
                &&& old(tm)@.events.len() > 0
                &&& e@ == old(tm)@.events[0]
                &&& final(tm)@.events == old(tm)@.events.drop_first()
            },
            TubePoll::Finished => {
                &&& old(tm)@.events.len() == 0
                &&& final(tm).pending_events == old(tm).pending_events
                &&& stream_done(peer, old(tm).completion_state)
            },
            TubePoll::Pending => {
                &&& old(tm)@.events.len() == 0
                &&& final(tm).pending_events == old(tm).pending_events
                &&& !stream_done(peer, old(tm).completion_state)
            },
        },
{
    if tm.pending_events.len() > 0 {
        let e = tm.pending_events.remove(0);
        proof {
            assert(final(tm)@.events =~= old(tm)@.events.drop_first());
        }
        return TubePoll::Event(e);
    }
    match (peer, &tm.completion_state) {
        (_, TubeCompletionState::AbortedFromLocal(_)) => TubePoll::Finished,
        (_, TubeCompletionState::AbortedFromRemote(_)) => TubePoll::Finished,
        (_, TubeCompletionState::Closed) => TubePoll::Finished,
        (PeerType::Client, TubeCompletionState::ServerHasFinishedSending) => TubePoll::Finished,
        (PeerType::Server, TubeCompletionState::ClientHasFinishedSending) => TubePoll::Finished,
        _ => TubePoll::Pending,
    }
}

/// What a dropped tube owes its peer before it disappears.
#[derive(Debug, PartialEq, Eq, Structural)]
pub enum DropDisposition {
    /// The tube already terminated: nothing to send.
    DoNothing,
    /// The remote side already half-closed: answer with the local
    /// half-close so the tube closes politely.
    SendHasFinishedSending,
    /// The tube is being dropped before termination: abort it with
    /// `ApplicationError`.
    SendAbort,
}

/// What dropping a tube in the given state must do, by role.
pub fn drop_disposition(peer: PeerType, state: &TubeCompletionState) -> (r: DropDisposition)
    ensures
        r == (match (peer, *state) {
            (_, TubeCompletionState::AbortedFromLocal(_)) => DropDisposition::DoNothing,
            (_, TubeCompletionState::AbortedFromRemote(_)) => DropDisposition::DoNothing,
            (_, TubeCompletionState::Closed) => DropDisposition::DoNothing,
            (PeerType::Client, TubeCompletionState::ServerHasFinishedSending) =>
                DropDisposition::SendHasFinishedSending,
            (PeerType::Server, TubeCompletionState::ClientHasFinishedSending) =>
                DropDisposition::SendHasFinishedSending,
            _ => DropDisposition::SendAbort,
        }),
{
    match (peer, state) {
        (_, TubeCompletionState::AbortedFromLocal(_)) => DropDisposition::DoNothing,
        (_, TubeCompletionState::AbortedFromRemote(_)) => DropDisposition::DoNothing,
        (_, TubeCompletionState::Closed) => DropDisposition::DoNothing,
        (PeerType::Client, TubeCompletionState::ServerHasFinishedSending) =>
            DropDisposition::SendHasFinishedSending,
        (PeerType::Server, TubeCompletionState::ClientHasFinishedSending) =>
            DropDisposition::SendHasFinishedSending,
        _ => DropDisposition::SendAbort,
    }
}

} // verus!
