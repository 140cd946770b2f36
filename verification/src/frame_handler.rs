//! The frame dispatcher: one decoded inbound frame at a time drives the
//! per-tube state machines.
//!
//! `dispatch_spec` is the protocol's rulebook: for each frame kind it says
//! how the tube table changes and what the caller must do next (wake a
//! consumer, emit a new tube, resolve an ack, or transmit an ack frame and
//! then deliver the payload).  `handle_frame` is verified to follow it
//! exactly.  A tube that reaches `Closed` or `AbortedFromRemote` is
//! detached from the table in the same step and handed back, so the table
//! never retains a finished tube; a locally-aborted tube stays until the
//! peer's own `Abort` arrives and is then detached silently.

use vstd::prelude::*;
use std::collections::HashMap;
use crate::PeerType;
use crate::frame::{Frame, FrameModel, spec_encode};
use crate::encoder::encode_payload_ack_frame;
use crate::tube_event::{TubeEvent, EventModel, event_views};
use crate::tube_manager::{TubeManager, TubeMgrModel, TubeCompletionState, state_step_ok};

verus! {

broadcast use vstd::std_specs::hash::group_hash_axioms;

/// Errors of inbound-frame dispatch.  They are reported and logged; none
/// of them ends the receive loop.
#[derive(Debug)]
pub enum FrameHandlerError {
    DuplicateAbortFrame { tube_id: u16 },
    DuplicateHasFinishedSendingFrame { tube_id: u16 },
    InappropriateHasFinishedSendingFrameFromPeer,
    ReceivedHasFinishedSendingAfterRemoteAbort { tube_id: u16 },
    ServerInitiatedTubesNotImplemented,
    TubeManagerInsertionError { tube_id: u16 },
    UntrackedAckId { tube_id: u16, ack_id: u16 },
    UntrackedTubeId(Frame),
}

/// The mathematical value of a dispatch error.
pub enum DispatchErrorModel {
    DuplicateAbortFrame { tube_id: u16 },
    DuplicateHasFinishedSendingFrame { tube_id: u16 },
    InappropriateHasFinishedSendingFrameFromPeer,
    ReceivedHasFinishedSendingAfterRemoteAbort { tube_id: u16 },
    ServerInitiatedTubesNotImplemented,
    TubeManagerInsertionError { tube_id: u16 },
    UntrackedAckId { tube_id: u16, ack_id: u16 },
    UntrackedTubeId(FrameModel),
}

impl View for FrameHandlerError {
    type V = DispatchErrorModel;

    open spec fn view(&self) -> DispatchErrorModel {
        match self {
            FrameHandlerError::DuplicateAbortFrame { tube_id } =>
                DispatchErrorModel::DuplicateAbortFrame { tube_id: *tube_id },
            FrameHandlerError::DuplicateHasFinishedSendingFrame { tube_id } =>
                DispatchErrorModel::DuplicateHasFinishedSendingFrame { tube_id: *tube_id },
            FrameHandlerError::InappropriateHasFinishedSendingFrameFromPeer =>
                DispatchErrorModel::InappropriateHasFinishedSendingFrameFromPeer,
            FrameHandlerError::ReceivedHasFinishedSendingAfterRemoteAbort { tube_id } =>
                DispatchErrorModel::ReceivedHasFinishedSendingAfterRemoteAbort {
                    tube_id: *tube_id,
                },
            FrameHandlerError::ServerInitiatedTubesNotImplemented =>
                DispatchErrorModel::ServerInitiatedTubesNotImplemented,
            FrameHandlerError::TubeManagerInsertionError { tube_id } =>
                DispatchErrorModel::TubeManagerInsertionError { tube_id: *tube_id },
            FrameHandlerError::UntrackedAckId { tube_id, ack_id } =>
                DispatchErrorModel::UntrackedAckId { tube_id: *tube_id, ack_id: *ack_id },
            FrameHandlerError::UntrackedTubeId(f) => DispatchErrorModel::UntrackedTubeId(f@),
        }
    }
}

/// What the caller must do after a successfully dispatched frame.
pub enum FrameHandlerResult<R> {
    /// Nothing further.
    FullyHandled,
    /// The tube's state or events changed: wake its consumer.
    WakeTube(u16),
    /// The tube reached a terminal state and left the table: wake its
    /// consumer and hand it the detached state for its remaining events.
    WakeAndDetach(u16, TubeManager<R>),
    /// A locally-aborted tube left the table silently (the peer's `Abort`
    /// confirmed ours).
    Detach(u16, TubeManager<R>),
    /// The server side learned of a new tube, now in the table and open:
    /// emit a handle for it.
    NewTube(u16),
    /// A pending send's ack arrived: complete it with this resolver, then
    /// wake whoever awaits it.
    ResolveAck(u16, R),
    /// A payload asked for an ack: transmit `ack_frame` on the shared
    /// sender first, then deliver `data` to the tube with
    /// `deliver_payload`.
    TransmitAckThenDeliver { tube_id: u16, ack_frame: Vec<u8>, data: Vec<u8> },
}

/// The mathematical value of a dispatch result.
pub enum DispatchOutcome {
    FullyHandled,
    WakeTube(u16),
    WakeAndDetach(u16, TubeMgrModel),
    Detach(u16, TubeMgrModel),
    NewTube(u16),
    ResolveAck(u16),
    TransmitAckThenDeliver(u16, Seq<u8>, Seq<u8>),
    Failed(DispatchErrorModel),
}

/// One dispatch step: the table afterwards, and what the caller must do.
pub struct DispatchStep {
    pub table: Map<u16, TubeMgrModel>,
    pub outcome: DispatchOutcome,
}

/// The empty, open state of a tube just learned of.
pub open spec fn fresh_tube_model() -> TubeMgrModel {
    TubeMgrModel {
        state: TubeCompletionState::Open,
        events: Seq::<EventModel>::empty(),
        acks: Set::<u16>::empty(),
    }
}

/// The dispatch rulebook: how a table reacts to one decoded frame,
/// depending on the receiving side's role.
pub open spec fn dispatch_spec(
    peer: PeerType,
    t: Map<u16, TubeMgrModel>,
    f: FrameModel,
) -> DispatchStep {
    match f {
        FrameModel::ClientHasFinishedSending { tube_id } => {
            if peer is Client {
                DispatchStep {
                    table: t,
                    outcome: DispatchOutcome::Failed(
                        DispatchErrorModel::InappropriateHasFinishedSendingFrameFromPeer,
                    ),
                }
            } else if !t.contains_key(tube_id) {
                DispatchStep {
                    table: t,
                    outcome: DispatchOutcome::Failed(DispatchErrorModel::UntrackedTubeId(f)),
                }
            } else {
                let tm = t[tube_id];
                match tm.state {
                    TubeCompletionState::Open => {
                        let tm2 = TubeMgrModel {
                            state: TubeCompletionState::ClientHasFinishedSending,
                            events: tm.events.push(EventModel::ClientHasFinishedSending),
                            acks: tm.acks,
                        };
                        DispatchStep {
                            table: t.insert(tube_id, tm2),
                            outcome: DispatchOutcome::WakeTube(tube_id),
                        }
                    },
                    TubeCompletionState::ServerHasFinishedSending => {
                        let tm2 = TubeMgrModel {
                            state: TubeCompletionState::Closed,
                            events: tm.events.push(EventModel::ClientHasFinishedSending),
                            acks: tm.acks,
                        };
                        DispatchStep {
                            table: t.remove(tube_id),
                            outcome: DispatchOutcome::WakeAndDetach(tube_id, tm2),
                        }
                    },
                    TubeCompletionState::ClientHasFinishedSending => DispatchStep {
                        table: t,
                        outcome: DispatchOutcome::Failed(
                            DispatchErrorModel::DuplicateHasFinishedSendingFrame { tube_id },
                        ),
                    },
                    TubeCompletionState::Closed => DispatchStep {
                        table: t,
                        outcome: DispatchOutcome::Failed(
                            DispatchErrorModel::DuplicateHasFinishedSendingFrame { tube_id },
                        ),
                    },
                    TubeCompletionState::AbortedFromRemote(_) => DispatchStep {
                        table: t,
                        outcome: DispatchOutcome::Failed(
                            DispatchErrorModel::ReceivedHasFinishedSendingAfterRemoteAbort {
                                tube_id,
                            },
                        ),
                    },
                    TubeCompletionState::AbortedFromLocal(_) => DispatchStep {
                        table: t,
                        outcome: DispatchOutcome::FullyHandled,
                    },
                }
            }
        },
        FrameModel::ServerHasFinishedSending { tube_id } => {
            if peer is Server {
                DispatchStep {
                    table: t,
                    outcome: DispatchOutcome::Failed(
                        DispatchErrorModel::InappropriateHasFinishedSendingFrameFromPeer,
                    ),
                }
            } else if !t.contains_key(tube_id) {
                DispatchStep {
                    table: t,
                    outcome: DispatchOutcome::Failed(DispatchErrorModel::UntrackedTubeId(f)),
                }
            } else {
                let tm = t[tube_id];
                match tm.state {
                    TubeCompletionState::Open => {
                        let tm2 = TubeMgrModel {
                            state: TubeCompletionState::ServerHasFinishedSending,
                            events: tm.events.push(EventModel::ServerHasFinishedSending),
                            acks: tm.acks,
                        };
                        DispatchStep {
                            table: t.insert(tube_id, tm2),
                            outcome: DispatchOutcome::WakeTube(tube_id),
                        }
                    },
                    TubeCompletionState::ClientHasFinishedSending => {
                        let tm2 = TubeMgrModel {
                            state: TubeCompletionState::Closed,
                            events: tm.events.push(EventModel::ServerHasFinishedSending),
                            acks: tm.acks,
                        };
                        DispatchStep {
                            table: t.remove(tube_id),
                            outcome: DispatchOutcome::WakeAndDetach(tube_id, tm2),
                        }
                    },
                    TubeCompletionState::ServerHasFinishedSending => DispatchStep {
                        table: t,
                        outcome: DispatchOutcome::Failed(
                            DispatchErrorModel::DuplicateHasFinishedSendingFrame { tube_id },
                        ),
                    },
                    TubeCompletionState::Closed => DispatchStep {
                        table: t,
                        outcome: DispatchOutcome::Failed(
                            DispatchErrorModel::DuplicateHasFinishedSendingFrame { tube_id },
                        ),
                    },
                    TubeCompletionState::AbortedFromRemote(_) => DispatchStep {
                        table: t,
                        outcome: DispatchOutcome::Failed(
                            DispatchErrorModel::ReceivedHasFinishedSendingAfterRemoteAbort {
                                tube_id,
                            },
                        ),
                    },
                    TubeCompletionState::AbortedFromLocal(_) => DispatchStep {
                        table: t,
                        outcome: DispatchOutcome::FullyHandled,
                    },
                }
            }
        },
        FrameModel::Drain => DispatchStep { table: t, outcome: DispatchOutcome::FullyHandled },
        FrameModel::NewTube { tube_id, .. } => {
            if peer is Client {
                DispatchStep {
                    table: t,
                    outcome: DispatchOutcome::Failed(
                        DispatchErrorModel::ServerInitiatedTubesNotImplemented,
                    ),
                }
            } else if t.contains_key(tube_id) {
                DispatchStep {
                    table: t,
                    outcome: DispatchOutcome::Failed(
                        DispatchErrorModel::TubeManagerInsertionError { tube_id },
                    ),
                }
            } else {
                DispatchStep {
                    table: t.insert(tube_id, fresh_tube_model()),
                    outcome: DispatchOutcome::NewTube(tube_id),
                }
            }
        },
        FrameModel::Payload { tube_id, ack_id, data } => {
            if !t.contains_key(tube_id) {
                DispatchStep {
                    table: t,
                    outcome: DispatchOutcome::Failed(DispatchErrorModel::UntrackedTubeId(f)),
                }
            } else {
                match ack_id {
                    Some(a) => DispatchStep {
                        table: t,
                        outcome: DispatchOutcome::TransmitAckThenDeliver(
                            tube_id,
                            spec_encode(FrameModel::PayloadAck { tube_id, ack_id: a }),
                            data,
                        ),
                    },
                    None => {
                        let tm = t[tube_id];
                        let tm2 = TubeMgrModel {
                            state: tm.state,
                            events: tm.events.push(EventModel::Payload(data)),
                            acks: tm.acks,
                        };
                        DispatchStep {
                            table: t.insert(tube_id, tm2),
                            outcome: DispatchOutcome::WakeTube(tube_id),
                        }
                    },
                }
            }
        },
        FrameModel::PayloadAck { tube_id, ack_id } => {
            if !t.contains_key(tube_id) {
                DispatchStep {
                    table: t,
                    outcome: DispatchOutcome::Failed(DispatchErrorModel::UntrackedTubeId(f)),
                }
            } else {
                let tm = t[tube_id];
                if tm.acks.contains(ack_id) {
                    let tm2 = TubeMgrModel {
                        state: tm.state,
                        events: tm.events,
                        acks: tm.acks.remove(ack_id),
                    };
                    DispatchStep {
                        table: t.insert(tube_id, tm2),
                        outcome: DispatchOutcome::ResolveAck(tube_id),
                    }
                } else {
                    DispatchStep {
                        table: t,
                        outcome: DispatchOutcome::Failed(
                            DispatchErrorModel::UntrackedAckId { tube_id, ack_id },
                        ),
                    }
                }
            }
        },
        FrameModel::Abort { tube_id, reason } => {
            if !t.contains_key(tube_id) {
                DispatchStep {
                    table: t,
                    outcome: DispatchOutcome::Failed(DispatchErrorModel::UntrackedTubeId(f)),
                }
            } else {
                let tm = t[tube_id];
                match tm.state {
                    TubeCompletionState::AbortedFromRemote(_) => DispatchStep {
                        table: t,
                        outcome: DispatchOutcome::Failed(
                            DispatchErrorModel::DuplicateAbortFrame { tube_id },
                        ),
                    },
                    TubeCompletionState::AbortedFromLocal(_) => DispatchStep {
                        table: t.remove(tube_id),
                        outcome: DispatchOutcome::Detach(tube_id, tm),
                    },
                    _ => {
                        let tm2 = TubeMgrModel {
                            state: TubeCompletionState::AbortedFromRemote(reason),
                            events: tm.events.push(EventModel::Abort(reason)),
                            acks: tm.acks,
                        };
                        DispatchStep {
                            table: t.remove(tube_id),
                            outcome: DispatchOutcome::WakeAndDetach(tube_id, tm2),
                        }
                    },
                }
            }
        },
    }
}

/// The models of a table of tubes.
pub open spec fn table_view<R>(t: Map<u16, TubeManager<R>>) -> Map<u16, TubeMgrModel> {
    t.map_values(|tm: TubeManager<R>| tm@)
}

/// Every tube in the table has a well-formed ack registry.
pub open spec fn table_wf<R>(t: Map<u16, TubeManager<R>>) -> bool {
    forall|k: u16| t.contains_key(k) ==> (#[trigger] t[k]).wf()
}

pub(crate) proof fn lemma_table_view_insert<R>(
    t: Map<u16, TubeManager<R>>,
    k: u16,
    v: TubeManager<R>,
)
    ensures
        table_view(t.insert(k, v)) == table_view(t).insert(k, v@),
{
    assert(table_view(t.insert(k, v)) =~= table_view(t).insert(k, v@));
}

pub(crate) proof fn lemma_table_view_remove<R>(t: Map<u16, TubeManager<R>>, k: u16)
    ensures
        table_view(t.remove(k)) == table_view(t).remove(k),
{
    assert(table_view(t.remove(k)) =~= table_view(t).remove(k));
}

/// Whether the exec dispatch result is the one the rulebook prescribes.
pub open spec fn outcome_matches<R>(
    r: Result<FrameHandlerResult<R>, FrameHandlerError>,
    o: DispatchOutcome,
) -> bool {
    match (r, o) {
        (Ok(FrameHandlerResult::FullyHandled), DispatchOutcome::FullyHandled) => true,
        (Ok(FrameHandlerResult::WakeTube(id1)), DispatchOutcome::WakeTube(id2)) => id1 == id2,
        (
            Ok(FrameHandlerResult::WakeAndDetach(id1, tm)),
            DispatchOutcome::WakeAndDetach(id2, m),
        ) => id1 == id2 && tm@ == m && tm.wf(),
        (Ok(FrameHandlerResult::Detach(id1, tm)), DispatchOutcome::Detach(id2, m)) => id1 == id2
            && tm@ == m && tm.wf(),
        (Ok(FrameHandlerResult::NewTube(id1)), DispatchOutcome::NewTube(id2)) => id1 == id2,
        (Ok(FrameHandlerResult::ResolveAck(id1, _)), DispatchOutcome::ResolveAck(id2)) => id1
            == id2,
        (
            Ok(FrameHandlerResult::TransmitAckThenDeliver { tube_id, ack_frame, data }),
            DispatchOutcome::TransmitAckThenDeliver(id2, af, d),
        ) => tube_id == id2 && ack_frame@ == af && data@ == d,
        (Err(e), DispatchOutcome::Failed(em)) => e@ == em,
        _ => false,
    }
}

/// The dispatcher for one side of a channel.
pub struct FrameHandler {
    pub peer_type: PeerType,
}

impl FrameHandler {
    /// A dispatcher acting for the given role.
    pub fn new(peer_type: PeerType) -> (r: FrameHandler)
        ensures
            r.peer_type == peer_type,
    {
        FrameHandler { peer_type }
    }

    /// Dispatch one decoded frame against the tube table, exactly as
    /// `dispatch_spec` prescribes.  A returned `ResolveAck` carries the
    /// very resolver that was registered for that ack id, so each
    /// `PayloadAck` can complete at most one send.
    #[verifier::rlimit(50)]
    pub fn handle_frame<R>(
        &self,
        table: &mut HashMap<u16, TubeManager<R>>,
        frame: Frame,
    ) -> (r: Result<FrameHandlerResult<R>, FrameHandlerError>)
        requires
            table_wf(old(table)@),
            frame@ matches FrameModel::Payload { ack_id: Some(a), .. } ==> a < 0x8000,
        ensures
            table_wf(final(table)@),
            ({
                let step = dispatch_spec(self.peer_type, table_view(old(table)@), frame@);
                &&& table_view(final(table)@) == step.table
                &&& outcome_matches(r, step.outcome)
            }),
            (r matches Ok(FrameHandlerResult::ResolveAck(tid, res)) ==> (
            frame@ matches FrameModel::PayloadAck { tube_id, ack_id } && tid == tube_id && old(
                table,
            )@.contains_key(tube_id) && (exists|i: int|
                0 <= i < old(table)@[tube_id].sendacks@.len() && old(
                    table,
                )@[tube_id].sendacks@[i] == (ack_id, res)))),
    {
        let ghost t0 = table@;
        match frame {
            Frame::ClientHasFinishedSending { tube_id } => {
                if let PeerType::Client = self.peer_type {
                    return Err(FrameHandlerError::InappropriateHasFinishedSendingFrameFromPeer);
                }
                let mut tm = match table.remove(&tube_id) {
                    Some(tm) => tm,
                    None => {
                        proof {
                            assert(table_view(t0).contains_key(tube_id) == t0.contains_key(
                                tube_id,
                            ));
                        }
                        return Err(
                            FrameHandlerError::UntrackedTubeId(
                                Frame::ClientHasFinishedSending { tube_id },
                            ),
                        );
                    },
                };
                proof {
                    lemma_table_view_remove(t0, tube_id);
                }
                match tm.completion_state {
                    TubeCompletionState::Open => {
                        tm.completion_state = TubeCompletionState::ClientHasFinishedSending;
                        tm.pending_events.push(TubeEvent::ClientHasFinishedSending);
                        proof {
                            assert(event_views(tm.pending_events@) =~= table_view(
                                t0,
                            )[tube_id].events.push(EventModel::ClientHasFinishedSending));
                            assert(tm.acks_set() =~= table_view(t0)[tube_id].acks);
                            lemma_table_view_insert(table@, tube_id, tm);
                            assert(table_view(t0).remove(tube_id).insert(tube_id, tm@)
                                =~= table_view(t0).insert(tube_id, tm@));
                        }
                        table.insert(tube_id, tm);
                        Ok(FrameHandlerResult::WakeTube(tube_id))
                    },
                    TubeCompletionState::ServerHasFinishedSending => {
                        tm.completion_state = TubeCompletionState::Closed;
                        tm.pending_events.push(TubeEvent::ClientHasFinishedSending);
                        proof {
                            assert(event_views(tm.pending_events@) =~= table_view(
                                t0,
                            )[tube_id].events.push(EventModel::ClientHasFinishedSending));
                            assert(tm.acks_set() =~= table_view(t0)[tube_id].acks);
                        }
                        Ok(FrameHandlerResult::WakeAndDetach(tube_id, tm))
                    },
                    _ => {
                        let state = tm.completion_state;
                        proof {
                            lemma_table_view_insert(table@, tube_id, tm);
                            assert(table_view(t0).remove(tube_id).insert(tube_id, tm@)
                                =~= table_view(t0));
                        }
                        table.insert(tube_id, tm);
                        match state {
                            TubeCompletionState::AbortedFromRemote(_) => Err(
                                FrameHandlerError::ReceivedHasFinishedSendingAfterRemoteAbort {
                                    tube_id,
                                },
                            ),
                            TubeCompletionState::AbortedFromLocal(_) => Ok(
                                FrameHandlerResult::FullyHandled,
                            ),
                            _ => Err(
                                FrameHandlerError::DuplicateHasFinishedSendingFrame { tube_id },
                            ),
                        }
                    },
                }
            },
            Frame::ServerHasFinishedSending { tube_id } => {
                if let PeerType::Server = self.peer_type {
                    return Err(FrameHandlerError::InappropriateHasFinishedSendingFrameFromPeer);
                }
                let mut tm = match table.remove(&tube_id) {
                    Some(tm) => tm,
                    None => {
                        return Err(
                            FrameHandlerError::UntrackedTubeId(
                                Frame::ServerHasFinishedSending { tube_id },
                            ),
                        );
                    },
                };
                proof {
                    lemma_table_view_remove(t0, tube_id);
                }
                match tm.completion_state {
                    TubeCompletionState::Open => {
                        tm.completion_state = TubeCompletionState::ServerHasFinishedSending;
                        tm.pending_events.push(TubeEvent::ServerHasFinishedSending);
                        proof {
                            assert(event_views(tm.pending_events@) =~= table_view(
                                t0,
                            )[tube_id].events.push(EventModel::ServerHasFinishedSending));
                            assert(tm.acks_set() =~= table_view(t0)[tube_id].acks);
                            lemma_table_view_insert(table@, tube_id, tm);
                            assert(table_view(t0).remove(tube_id).insert(tube_id, tm@)
                                =~= table_view(t0).insert(tube_id, tm@));
                        }
                        table.insert(tube_id, tm);
                        Ok(FrameHandlerResult::WakeTube(tube_id))
                    },
                    TubeCompletionState::ClientHasFinishedSending => {
                        tm.completion_state = TubeCompletionState::Closed;
                        tm.pending_events.push(TubeEvent::ServerHasFinishedSending);
                        proof {
                            assert(event_views(tm.pending_events@) =~= table_view(
                                t0,
                            )[tube_id].events.push(EventModel::ServerHasFinishedSending));
                            assert(tm.acks_set() =~= table_view(t0)[tube_id].acks);
                        }
                        Ok(FrameHandlerResult::WakeAndDetach(tube_id, tm))
                    },
                    _ => {
                        let state = tm.completion_state;
                        proof {
                            lemma_table_view_insert(table@, tube_id, tm);
                            assert(table_view(t0).remove(tube_id).insert(tube_id, tm@)
                                =~= table_view(t0));
                        }
                        table.insert(tube_id, tm);
                        match state {
                            TubeCompletionState::AbortedFromRemote(_) => Err(
                                FrameHandlerError::ReceivedHasFinishedSendingAfterRemoteAbort {
                                    tube_id,
                                },
                            ),
                            TubeCompletionState::AbortedFromLocal(_) => Ok(
                                FrameHandlerResult::FullyHandled,
                            ),
                            _ => Err(
                                FrameHandlerError::DuplicateHasFinishedSendingFrame { tube_id },
                            ),
                        }
                    },
                }
            },
            Frame::Drain => {
                // Advisory; accepted and otherwise ignored.
                Ok(FrameHandlerResult::FullyHandled)
            },
            Frame::NewTube { tube_id, headers: _ } => {
                if let PeerType::Client = self.peer_type {
                    return Err(FrameHandlerError::ServerInitiatedTubesNotImplemented);
                }
                if table.contains_key(&tube_id) {
                    return Err(FrameHandlerError::TubeManagerInsertionError { tube_id });
                }
                let tm: TubeManager<R> = TubeManager::new();
                proof {
                    assert(tm@ =~~= fresh_tube_model());
                    lemma_table_view_insert(t0, tube_id, tm);
                }
                table.insert(tube_id, tm);
                Ok(FrameHandlerResult::NewTube(tube_id))
            },
            Frame::Payload { tube_id, ack_id, data } => {
                if !table.contains_key(&tube_id) {
                    return Err(
                        FrameHandlerError::UntrackedTubeId(
                            Frame::Payload { tube_id, ack_id, data },
                        ),
                    );
                }
                match ack_id {
                    Some(a) => {
                        let ack_frame = match encode_payload_ack_frame(tube_id, a) {
                            Ok(bytes) => bytes,
                            Err(_) => {
                                // Unreachable: the ack id is 15 bits by
                                // this function's precondition.
                                proof {
                                    assert(false);
                                }
                                return Err(
                                    FrameHandlerError::UntrackedAckId { tube_id, ack_id: a },
                                );
                            },
                        };
                        Ok(
                            FrameHandlerResult::TransmitAckThenDeliver {
                                tube_id,
                                ack_frame,
                                data,
                            },
                        )
                    },
                    None => {
                        let mut tm = match table.remove(&tube_id) {
                            Some(tm) => tm,
                            None => {
                                // Unreachable: membership was checked above.
                                proof {
                                    assert(false);
                                }
                                return Err(
                                    FrameHandlerError::UntrackedTubeId(
                                        Frame::Payload { tube_id, ack_id: None, data },
                                    ),
                                );
                            },
                        };
                        proof {
                            lemma_table_view_remove(t0, tube_id);
                        }
                        let ghost data_view = data@;
                        tm.pending_events.push(TubeEvent::Payload(data));
                        proof {
                            assert(event_views(tm.pending_events@) =~= table_view(
                                t0,
                            )[tube_id].events.push(EventModel::Payload(data_view)));
                            assert(tm.acks_set() =~= table_view(t0)[tube_id].acks);
                            lemma_table_view_insert(table@, tube_id, tm);
                            assert(table_view(t0).remove(tube_id).insert(tube_id, tm@)
                                =~= table_view(t0).insert(tube_id, tm@));
                        }
                        table.insert(tube_id, tm);
                        Ok(FrameHandlerResult::WakeTube(tube_id))
                    },
                }
            },
            Frame::PayloadAck { tube_id, ack_id } => {
                let mut tm = match table.remove(&tube_id) {
                    Some(tm) => tm,
                    None => {
                        return Err(
                            FrameHandlerError::UntrackedTubeId(
                                Frame::PayloadAck { tube_id, ack_id },
                            ),
                        );
                    },
                };
                proof {
                    lemma_table_view_remove(t0, tube_id);
                }
                match tm.remove_sendack(ack_id) {
                    Some(resolver) => {
                        proof {
                            lemma_table_view_insert(table@, tube_id, tm);
                            assert(table_view(t0).remove(tube_id).insert(tube_id, tm@)
                                =~= table_view(t0).insert(tube_id, tm@));
                        }
                        table.insert(tube_id, tm);
                        Ok(FrameHandlerResult::ResolveAck(tube_id, resolver))
                    },
                    None => {
                        proof {
                            lemma_table_view_insert(table@, tube_id, tm);
                            assert(table_view(t0).remove(tube_id).insert(tube_id, tm@)
                                =~= table_view(t0));
                        }
                        table.insert(tube_id, tm);
                        Err(FrameHandlerError::UntrackedAckId { tube_id, ack_id })
                    },
                }
            },
            Frame::Abort { tube_id, reason } => {
                let mut tm = match table.remove(&tube_id) {
                    Some(tm) => tm,
                    None => {
                        return Err(
                            FrameHandlerError::UntrackedTubeId(Frame::Abort { tube_id, reason }),
                        );
                    },
                };
                proof {
                    lemma_table_view_remove(t0, tube_id);
                }
                match tm.completion_state {
                    TubeCompletionState::AbortedFromRemote(_) => {
                        proof {
                            lemma_table_view_insert(table@, tube_id, tm);
                            assert(table_view(t0).remove(tube_id).insert(tube_id, tm@)
                                =~= table_view(t0));
                        }
                        table.insert(tube_id, tm);
                        Err(FrameHandlerError::DuplicateAbortFrame { tube_id })
                    },
                    TubeCompletionState::AbortedFromLocal(_) => {
                        // The peer confirmed an abort we initiated: drop
                        // the frame silently and forget the tube.
                        Ok(FrameHandlerResult::Detach(tube_id, tm))
                    },
                    _ => {
                        tm.completion_state = TubeCompletionState::AbortedFromRemote(reason);
                        tm.pending_events.push(TubeEvent::Abort(reason));
                        proof {
                            assert(event_views(tm.pending_events@) =~= table_view(
                                t0,
                            )[tube_id].events.push(EventModel::Abort(reason)));
                            assert(tm.acks_set() =~= table_view(t0)[tube_id].acks);
                        }
                        Ok(FrameHandlerResult::WakeAndDetach(tube_id, tm))
                    },
                }
            },
        }
    }
}

/// Enqueue a payload on a tube after its requested ack has been
/// transmitted, and say whether the tube was still there (its consumer
/// should then be woken).
pub fn deliver_payload<R>(
    table: &mut HashMap<u16, TubeManager<R>>,
    tube_id: u16,
    data: Vec<u8>,
) -> (r: bool)
    requires
        table_wf(old(table)@),
    ensures
        table_wf(final(table)@),
        no_finished_tube(table_view(old(table)@)) ==> no_finished_tube(
            table_view(final(table)@),
        ),
        !old(table)@.contains_key(tube_id) ==> (!r && final(table)@ == old(table)@),
        old(table)@.contains_key(tube_id) ==> {
            &&& r
            &&& final(table)@.contains_key(tube_id)
            &&& final(table)@ == old(table)@.insert(tube_id, final(table)@[tube_id])
            &&& final(table)@[tube_id].completion_state == old(
                table,
            )@[tube_id].completion_state
            &&& final(table)@[tube_id].sendacks@ == old(table)@[tube_id].sendacks@
            &&& final(table)@[tube_id].pending_events@ == old(
                table,
            )@[tube_id].pending_events@.push(TubeEvent::Payload(data))
        },
        ({
            let t = table_view(old(table)@);
            if t.contains_key(tube_id) {
                let tm = t[tube_id];
                let tm2 = TubeMgrModel {
                    state: tm.state,
                    events: tm.events.push(EventModel::Payload(data@)),
                    acks: tm.acks,
                };
                r && table_view(final(table)@) == t.insert(tube_id, tm2)
            } else {
                !r && table_view(final(table)@) == t
            }
        }),
{
    let ghost t0 = table@;
    let mut tm = match table.remove(&tube_id) {
        Some(tm) => tm,
        None => {
            proof {
                assert(table@ =~= t0);
            }
            return false;
        },
    };
    proof {
        lemma_table_view_remove(t0, tube_id);
    }
    let ghost data_view = data@;
    tm.pending_events.push(TubeEvent::Payload(data));
    proof {
        assert(event_views(tm.pending_events@) =~= table_view(t0)[tube_id].events.push(
            EventModel::Payload(data_view),
        ));
        assert(tm.acks_set() =~= table_view(t0)[tube_id].acks);
        lemma_table_view_insert(table@, tube_id, tm);
        assert(table_view(t0).remove(tube_id).insert(tube_id, tm@) =~= table_view(t0).insert(
            tube_id,
            tm@,
        ));
        assert(t0.remove(tube_id).insert(tube_id, tm) =~= t0.insert(tube_id, tm));
        if no_finished_tube(table_view(t0)) {
            lemma_no_finished_tube_insert(table_view(t0), tube_id, tm@);
        }
    }
    table.insert(tube_id, tm);
    true
}

/// Ack-at-most-once: once a `PayloadAck` has resolved a pending send, the
/// same ack arriving again finds nothing to resolve and is reported as
/// untracked.  Each `PayloadAck` therefore resolves at most one send.
pub proof fn lemma_ack_resolves_at_most_once(
    peer: PeerType,
    t: Map<u16, TubeMgrModel>,
    tube_id: u16,
    ack_id: u16,
)
    ensures
        ({
            let s1 = dispatch_spec(peer, t, FrameModel::PayloadAck { tube_id, ack_id });
            let s2 = dispatch_spec(peer, s1.table, FrameModel::PayloadAck { tube_id, ack_id });
            s1.outcome is ResolveAck ==> s2.outcome == DispatchOutcome::Failed(
                DispatchErrorModel::UntrackedAckId { tube_id, ack_id },
            )
        }),
{
}

/// No tube in the table has finished: `Closed` and `AbortedFromRemote`
/// tubes are detached in the very step that puts them there.  (A
/// locally-aborted tube stays until the peer's `Abort` confirms it.)
pub open spec fn no_finished_tube(t: Map<u16, TubeMgrModel>) -> bool {
    forall|k: u16|
        t.contains_key(k) ==> !((#[trigger] t[k]).state is Closed) && !(t[k].state
            is AbortedFromRemote)
}

/// Rebinding a tube to a non-finished state keeps the table free of
/// finished tubes.
pub proof fn lemma_no_finished_tube_insert(t: Map<u16, TubeMgrModel>, id: u16, m: TubeMgrModel)
    requires
        no_finished_tube(t),
        !(m.state is Closed),
        !(m.state is AbortedFromRemote),
    ensures
        no_finished_tube(t.insert(id, m)),
{
    assert forall|k: u16| t.insert(id, m).contains_key(k) implies !((#[trigger] t.insert(
        id,
        m,
    )[k]).state is Closed) && !(t.insert(id, m)[k].state is AbortedFromRemote) by {
        if k != id {
            assert(t.insert(id, m)[k] == t[k]);
        }
    }
}

/// Removing a tube keeps the table free of finished tubes.
pub proof fn lemma_no_finished_tube_remove(t: Map<u16, TubeMgrModel>, id: u16)
    requires
        no_finished_tube(t),
    ensures
        no_finished_tube(t.remove(id)),
{
    assert forall|k: u16| t.remove(id).contains_key(k) implies !((#[trigger] t.remove(
        id,
    )[k]).state is Closed) && !(t.remove(id)[k].state is AbortedFromRemote) by {
        assert(t.remove(id)[k] == t[k]);
    }
}

/// Terminal cleanup: dispatching any frame preserves the absence of
/// finished tubes from the table.
pub proof fn lemma_dispatch_keeps_no_finished_tube(
    peer: PeerType,
    t: Map<u16, TubeMgrModel>,
    f: FrameModel,
)
    requires
        no_finished_tube(t),
    ensures
        no_finished_tube(dispatch_spec(peer, t, f).table),
{
}

/// Event order under dispatch: a frame only ever appends to a tube's
/// pending events, so a consumer sees them in exact wire-arrival order.
pub proof fn lemma_dispatch_appends_events(
    peer: PeerType,
    t: Map<u16, TubeMgrModel>,
    f: FrameModel,
    id: u16,
)
    requires
        t.contains_key(id),
    ensures
        ({
            let step = dispatch_spec(peer, t, f);
            &&& (step.table.contains_key(id) ==> t[id].events.is_prefix_of(
                step.table[id].events,
            ))
            &&& (step.outcome matches DispatchOutcome::WakeAndDetach(did, m) ==> (did == id
                ==> t[id].events.is_prefix_of(m.events)))
            &&& (step.outcome matches DispatchOutcome::Detach(did, m) ==> (did == id
                ==> t[id].events.is_prefix_of(m.events)))
        }),
{
}

/// State monotonicity under dispatch: whatever a frame does to a tube —
/// whether the tube stays in the table or is detached — its completion
/// state moves only along the forward order.
pub proof fn lemma_dispatch_state_monotonic(
    peer: PeerType,
    t: Map<u16, TubeMgrModel>,
    f: FrameModel,
    id: u16,
)
    requires
        no_finished_tube(t),
        t.contains_key(id),
    ensures
        ({
            let step = dispatch_spec(peer, t, f);
            &&& (step.table.contains_key(id) ==> state_step_ok(
                t[id].state,
                step.table[id].state,
            ))
            &&& (step.outcome matches DispatchOutcome::WakeAndDetach(did, m) ==> (did == id
                ==> state_step_ok(t[id].state, m.state)))
            &&& (step.outcome matches DispatchOutcome::Detach(did, m) ==> (did == id
                ==> state_step_ok(t[id].state, m.state)))
        }),
{
}

} // verus!
