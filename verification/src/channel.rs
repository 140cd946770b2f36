//! Channel-level operations on the tube table.
//!
//! A channel owns one tube table, one id allocator for locally-originated
//! tube ids, and the shared outbound byte sender.  The sender and the
//! receive task are asynchronous and live outside the verified core; the
//! functions here carry out every decision around them: allocating and
//! registering a new tube, and applying a locally-initiated half-close,
//! abort, send registration or event poll to the tube it concerns.  A tube
//! that closes locally is removed from the table in the same step and
//! handed back detached, so its consumer can still drain its events.

use vstd::prelude::*;
use std::collections::HashMap;
use crate::PeerType;
use crate::frame::{AbortReason, FrameModel, headers_wf, spec_encode};
use crate::encoder::{FrameEncodeError, encode_newtube_frame};
use crate::json_headers::{header_pairs_map, json_bytes_of};
use crate::unique_id_manager::{UniqueId, UniqueIdManager, UniqueIdError};
use crate::tube_manager::{
    TubeManager, TubeMgrModel, TubeCompletionState, HasFinishedSendingError, AbortError,
    TubePoll, SendError, has_finished_sending_transition, abort_transition, take_next_event,
    hfs_next_state, stream_done,
};
use crate::frame_handler::{
    no_finished_tube, table_view, table_wf, lemma_table_view_insert, lemma_table_view_remove,
};

verus! {

broadcast use vstd::std_specs::hash::group_hash_axioms;

/// Errors of `make_tube`.
#[derive(Debug)]
pub enum MakeTubeError {
    FrameEncodeError(FrameEncodeError),
    InternalErrorDuplicateTubeId(u16),
    TubeIdsExhausted,
    UnknownTransportError,
}

/// Errors of making a tube through a client's implicit channel: either
/// the channel could not be connected (a carrier-level failure, detailed
/// outside the core) or the tube itself could not be made.
#[derive(Debug)]
pub enum ServerMakeTubeError {
    ChannelConnectError,
    MakeTubeError(MakeTubeError),
}

/// Allocate a fresh tube id and encode the `NewTube` frame announcing it.
/// The caller transmits the frame and then registers the tube with
/// `make_tube_register`.  The id is exactly the allocator's next id —
/// released ids first, else the counter, which then advances by the
/// policy's step — so a fresh client channel hands out 1, 3, 5, ...  On
/// an encoding failure the id goes back to the allocator; with empty
/// headers encoding cannot fail, so the call succeeds whenever an id can
/// be issued.
pub fn make_tube_prepare(
    idman: &mut UniqueIdManager,
    headers: Vec<(String, String)>,
) -> (r: Result<(UniqueId, Vec<u8>), MakeTubeError>)
    requires
        old(idman).wf(),
    ensures
        final(idman).wf(),
        final(idman).policy() == old(idman).policy(),
        headers@.len() == 0 && old(idman).can_issue() ==> r is Ok,
        match r {
            Ok((id, bytes)) => {
                &&& !id.spec_taken()
                &&& id.spec_val() == old(idman).next_id()
                &&& crate::unique_id_manager::policy_admits(
                    old(idman).policy(),
                    id.spec_val(),
                )
                &&& !old(idman).outstanding_ids().contains(id.spec_val())
                &&& final(idman).outstanding_ids() == old(idman).outstanding_ids().insert(
                    id.spec_val(),
                )
                &&& if old(idman).available().len() > 0 {
                    &&& final(idman).available() == old(idman).available().drop_first()
                    &&& final(idman).spec_counter() == old(idman).spec_counter()
                    &&& final(idman).spec_exhausted() == old(idman).spec_exhausted()
                } else {
                    &&& !old(idman).spec_exhausted()
                    &&& final(idman).available() == old(idman).available()
                    &&& if old(idman).spec_counter() + crate::unique_id_manager::policy_step(
                        old(idman).policy(),
                    ) <= u16::MAX {
                        &&& final(idman).spec_counter() == old(idman).spec_counter()
                            + crate::unique_id_manager::policy_step(old(idman).policy())
                        &&& !final(idman).spec_exhausted()
                    } else {
                        &&& final(idman).spec_counter() == old(idman).spec_counter()
                        &&& final(idman).spec_exhausted()
                    }
                }
                &&& headers_wf(header_pairs_map(headers@))
                &&& bytes@ == spec_encode(
                    FrameModel::NewTube {
                        tube_id: id.spec_val(),
                        headers: header_pairs_map(headers@),
                    },
                )
            },
            Err(MakeTubeError::TubeIdsExhausted) => {
                &&& !old(idman).can_issue()
                &&& *final(idman) == *old(idman)
            },
            Err(MakeTubeError::FrameEncodeError(_)) => {
                &&& old(idman).can_issue()
                &&& json_bytes_of(header_pairs_map(headers@)).len() > 65533
                &&& final(idman).outstanding_ids() == old(idman).outstanding_ids()
            },
            Err(_) => false,
        },
{
    let ghost outstanding0 = idman.outstanding_ids();
    let tube_id = match idman.take_id() {
        Ok(id) => id,
        Err(UniqueIdError::NoIdsAvailable) => {
            return Err(MakeTubeError::TubeIdsExhausted);
        },
    };
    match encode_newtube_frame(tube_id.val(), headers) {
        Ok(bytes) => Ok((tube_id, bytes)),
        Err(e) => {
            idman.release(tube_id);
            proof {
                assert(idman.outstanding_ids() =~= outstanding0);
            }
            Err(MakeTubeError::FrameEncodeError(e))
        },
    }
}

/// Enter a freshly announced tube into the table, open and empty.  A tube
/// id already present is an internal invariant violation and changes
/// nothing.
pub fn make_tube_register<R>(table: &mut HashMap<u16, TubeManager<R>>, tube_id: u16) -> (r:
    Result<(), MakeTubeError>)
    requires
        table_wf(old(table)@),
    ensures
        table_wf(final(table)@),
        no_finished_tube(table_view(old(table)@)) ==> no_finished_tube(
            table_view(final(table)@),
        ),
        match r {
            Ok(()) => {
                &&& !table_view(old(table)@).contains_key(tube_id)
                &&& table_view(final(table)@) == table_view(old(table)@).insert(
                    tube_id,
                    crate::frame_handler::fresh_tube_model(),
                )
            },
            Err(MakeTubeError::InternalErrorDuplicateTubeId(id)) => {
                &&& id == tube_id
                &&& table_view(old(table)@).contains_key(tube_id)
                &&& table_view(final(table)@) == table_view(old(table)@)
            },
            Err(_) => false,
        },
{
    let ghost t0 = table@;
    if table.contains_key(&tube_id) {
        return Err(MakeTubeError::InternalErrorDuplicateTubeId(tube_id));
    }
    let tm: TubeManager<R> = TubeManager::new();
    proof {
        assert(tm@ =~~= crate::frame_handler::fresh_tube_model());
        lemma_table_view_insert(t0, tube_id, tm);
        if no_finished_tube(table_view(t0)) {
            crate::frame_handler::lemma_no_finished_tube_insert(table_view(t0), tube_id, tm@);
        }
    }
    table.insert(tube_id, tm);
    Ok(())
}

/// Apply a local half-close to a tube in the table.  It succeeds exactly
/// from `Open` or from the state where the remote side has already
/// half-closed; the frame bytes to transmit come back, and when the
/// half-close closes the tube, the tube leaves the table and comes back
/// detached for its consumer.  A repeated half-close (or one on a closed
/// tube) and a half-close on an aborted tube fail with the matching
/// error; a tube no longer in the table reports an internal error.
/// Nothing but the named tube ever changes.
pub fn local_has_finished_sending<R>(
    peer: PeerType,
    table: &mut HashMap<u16, TubeManager<R>>,
    tube_id: u16,
) -> (r: Result<(Vec<u8>, Option<TubeManager<R>>), HasFinishedSendingError>)
    requires
        table_wf(old(table)@),
    ensures
        table_wf(final(table)@),
        no_finished_tube(table_view(old(table)@)) ==> no_finished_tube(
            table_view(final(table)@),
        ),
        ({
            let t = table_view(old(table)@);
            match r {
                Ok((bytes, detached)) => {
                    &&& t.contains_key(tube_id)
                    &&& match (t[tube_id].state, peer) {
                        (TubeCompletionState::Open, _) => true,
                        (TubeCompletionState::ClientHasFinishedSending, PeerType::Server) =>
                            true,
                        (TubeCompletionState::ServerHasFinishedSending, PeerType::Client) =>
                            true,
                        _ => false,
                    }
                    &&& match peer {
                        PeerType::Client => bytes@ == spec_encode(
                            FrameModel::ClientHasFinishedSending { tube_id },
                        ),
                        PeerType::Server => bytes@ == spec_encode(
                            FrameModel::ServerHasFinishedSending { tube_id },
                        ),
                    }
                    &&& ({
                        let post = TubeMgrModel {
                            state: hfs_next_state(peer, t[tube_id].state),
                            events: t[tube_id].events,
                            acks: t[tube_id].acks,
                        };
                        if post.state is Closed {
                            &&& (detached matches Some(tm) && tm@ == post && tm.wf())
                            &&& table_view(final(table)@) == t.remove(tube_id)
                        } else {
                            &&& detached is None
                            &&& table_view(final(table)@) == t.insert(tube_id, post)
                        }
                    })
                },
                Err(HasFinishedSendingError::AlreadyMarkedAsFinishedSending) => {
                    &&& t.contains_key(tube_id)
                    &&& match (t[tube_id].state, peer) {
                        (TubeCompletionState::ClientHasFinishedSending, PeerType::Client) =>
                            true,
                        (TubeCompletionState::ServerHasFinishedSending, PeerType::Server) =>
                            true,
                        (TubeCompletionState::Closed, _) => true,
                        _ => false,
                    }
                    &&& table_view(final(table)@) == t
                },
                Err(HasFinishedSendingError::TubeAlreadyAborted(reason)) => {
                    &&& t.contains_key(tube_id)
                    &&& (t[tube_id].state == TubeCompletionState::AbortedFromLocal(reason)
                        || t[tube_id].state == TubeCompletionState::AbortedFromRemote(reason))
                    &&& table_view(final(table)@) == t
                },
                Err(HasFinishedSendingError::InternalError(_)) => {
                    &&& !t.contains_key(tube_id)
                    &&& table_view(final(table)@) == t
                },
                Err(_) => false,
            }
        }),
{
    let ghost t0 = table@;
    let mut tm = match table.remove(&tube_id) {
        Some(tm) => tm,
        None => {
            proof {
                assert(table_view(table@) =~= table_view(t0));
            }
            return Err(
                HasFinishedSendingError::InternalError(
                    "tube is no longer tracked by its channel".to_owned(),
                ),
            );
        },
    };
    proof {
        lemma_table_view_remove(t0, tube_id);
    }
    match has_finished_sending_transition(peer, tube_id, &mut tm) {
        Ok(bytes) => {
            match tm.completion_state {
                TubeCompletionState::Closed => {
                    proof {
                        assert(tm@ =~~= (TubeMgrModel {
                            state: hfs_next_state(peer, table_view(t0)[tube_id].state),
                            events: table_view(t0)[tube_id].events,
                            acks: table_view(t0)[tube_id].acks,
                        }));
                        if no_finished_tube(table_view(t0)) {
                            crate::frame_handler::lemma_no_finished_tube_remove(
                                table_view(t0),
                                tube_id,
                            );
                        }
                    }
                    Ok((bytes, Some(tm)))
                },
                _ => {
                    proof {
                        assert(tm@ =~~= (TubeMgrModel {
                            state: hfs_next_state(peer, table_view(t0)[tube_id].state),
                            events: table_view(t0)[tube_id].events,
                            acks: table_view(t0)[tube_id].acks,
                        }));
                        lemma_table_view_insert(table@, tube_id, tm);
                        assert(table_view(t0).remove(tube_id).insert(tube_id, tm@)
                            =~= table_view(t0).insert(tube_id, tm@));
                        if no_finished_tube(table_view(t0)) {
                            crate::frame_handler::lemma_no_finished_tube_insert(
                                table_view(t0),
                                tube_id,
                                tm@,
                            );
                        }
                    }
                    table.insert(tube_id, tm);
                    Ok((bytes, None))
                },
            }
        },
        Err(e) => {
            proof {
                lemma_table_view_insert(table@, tube_id, tm);
                assert(table_view(t0).remove(tube_id).insert(tube_id, tm@) =~= table_view(t0));
            }
            table.insert(tube_id, tm);
            Err(e)
        },
    }
}

/// Apply a local abort to a tube in the table: the tube enters
/// `AbortedFromLocal` and stays tracked until the peer's own `Abort`
/// confirms it.  The `Abort` frame bytes to transmit come back.  It
/// succeeds exactly when the tube is tracked and not yet terminal; an
/// aborted or closed tube fails with the matching error, and a tube no
/// longer in the table counts as already closed.
pub fn local_abort<R>(
    table: &mut HashMap<u16, TubeManager<R>>,
    tube_id: u16,
    reason: AbortReason,
) -> (r: Result<Vec<u8>, AbortError>)
    requires
        table_wf(old(table)@),
    ensures
        table_wf(final(table)@),
        no_finished_tube(table_view(old(table)@)) ==> no_finished_tube(
            table_view(final(table)@),
        ),
        ({
            let t = table_view(old(table)@);
            match r {
                Ok(bytes) => {
                    &&& t.contains_key(tube_id)
                    &&& !crate::tube_manager::is_terminal(t[tube_id].state)
                    &&& bytes@ == spec_encode(FrameModel::Abort { tube_id, reason })
                    &&& table_view(final(table)@) == t.insert(
                        tube_id,
                        TubeMgrModel {
                            state: TubeCompletionState::AbortedFromLocal(reason),
                            events: t[tube_id].events,
                            acks: t[tube_id].acks,
                        },
                    )
                },
                Err(AbortError::AlreadyClosed) => {
                    &&& (t.contains_key(tube_id) ==> t[tube_id].state is Closed)
                    &&& table_view(final(table)@) == t
                },
                Err(AbortError::AlreadyAborted(prior)) => {
                    &&& t.contains_key(tube_id)
                    &&& (t[tube_id].state == TubeCompletionState::AbortedFromLocal(prior)
                        || t[tube_id].state == TubeCompletionState::AbortedFromRemote(prior))
                    &&& table_view(final(table)@) == t
                },
                Err(_) => false,
            }
        }),
{
    let ghost t0 = table@;
    let mut tm = match table.remove(&tube_id) {
        Some(tm) => tm,
        None => {
            proof {
                assert(table_view(table@) =~= table_view(t0));
            }
            return Err(AbortError::AlreadyClosed);
        },
    };
    proof {
        lemma_table_view_remove(t0, tube_id);
    }
    match abort_transition(tube_id, reason, &mut tm) {
        Ok(bytes) => {
            proof {
                assert(tm@ =~~= (TubeMgrModel {
                    state: TubeCompletionState::AbortedFromLocal(reason),
                    events: table_view(t0)[tube_id].events,
                    acks: table_view(t0)[tube_id].acks,
                }));
                lemma_table_view_insert(table@, tube_id, tm);
                assert(table_view(t0).remove(tube_id).insert(tube_id, tm@) =~= table_view(
                    t0,
                ).insert(tube_id, tm@));
                if no_finished_tube(table_view(t0)) {
                    crate::frame_handler::lemma_no_finished_tube_insert(
                        table_view(t0),
                        tube_id,
                        tm@,
                    );
                }
            }
            table.insert(tube_id, tm);
            Ok(bytes)
        },
        Err(e) => {
            proof {
                lemma_table_view_insert(table@, tube_id, tm);
                assert(table_view(t0).remove(tube_id).insert(tube_id, tm@) =~= table_view(t0));
            }
            table.insert(tube_id, tm);
            Err(e)
        },
    }
}

/// Register an ack resolver on a tube still in the table, as part of a
/// `send`.  A duplicate ack id is the internal error `send` reports; a
/// tube no longer in the table surfaces as an unknown transport error.
pub fn register_sendack_on_tube<R>(
    table: &mut HashMap<u16, TubeManager<R>>,
    tube_id: u16,
    ack_id: u16,
    resolver: R,
) -> (r: Result<(), SendError>)
    requires
        table_wf(old(table)@),
    ensures
        table_wf(final(table)@),
        no_finished_tube(table_view(old(table)@)) ==> no_finished_tube(
            table_view(final(table)@),
        ),
        !old(table)@.contains_key(tube_id) ==> final(table)@ == old(table)@,
        old(table)@.contains_key(tube_id) ==> {
            &&& final(table)@.contains_key(tube_id)
            &&& final(table)@ == old(table)@.insert(tube_id, final(table)@[tube_id])
            &&& final(table)@[tube_id].completion_state == old(
                table,
            )@[tube_id].completion_state
            &&& final(table)@[tube_id].pending_events == old(table)@[tube_id].pending_events
            &&& (r is Ok ==> final(table)@[tube_id].sendacks@ == old(
                table,
            )@[tube_id].sendacks@.push((ack_id, resolver)))
            &&& (r is Err ==> final(table)@[tube_id].sendacks@ == old(
                table,
            )@[tube_id].sendacks@)
        },
        ({
            let t = table_view(old(table)@);
            match r {
                Ok(()) => {
                    &&& t.contains_key(tube_id)
                    &&& !t[tube_id].acks.contains(ack_id)
                    &&& table_view(final(table)@) == t.insert(
                        tube_id,
                        TubeMgrModel {
                            state: t[tube_id].state,
                            events: t[tube_id].events,
                            acks: t[tube_id].acks.insert(ack_id),
                        },
                    )
                },
                Err(SendError::AckIdAlreadyInUseInternalError) => {
                    &&& t.contains_key(tube_id)
                    &&& t[tube_id].acks.contains(ack_id)
                    &&& table_view(final(table)@) == t
                },
                Err(SendError::UnknownTransportError) => {
                    &&& !t.contains_key(tube_id)
                    &&& table_view(final(table)@) == t
                },
                Err(_) => false,
            }
        }),
{
    let ghost t0 = table@;
    let mut tm = match table.remove(&tube_id) {
        Some(tm) => tm,
        None => {
            proof {
                assert(table@ =~= t0);
            }
            return Err(SendError::UnknownTransportError);
        },
    };
    proof {
        lemma_table_view_remove(t0, tube_id);
    }
    match tm.register_sendack(ack_id, resolver) {
        Ok(()) => {
            proof {
                assert(tm@ =~~= (TubeMgrModel {
                    state: table_view(t0)[tube_id].state,
                    events: table_view(t0)[tube_id].events,
                    acks: table_view(t0)[tube_id].acks.insert(ack_id),
                }));
                lemma_table_view_insert(table@, tube_id, tm);
                assert(table_view(t0).remove(tube_id).insert(tube_id, tm@) =~= table_view(
                    t0,
                ).insert(tube_id, tm@));
                assert(t0.remove(tube_id).insert(tube_id, tm) =~= t0.insert(tube_id, tm));
                if no_finished_tube(table_view(t0)) {
                    crate::frame_handler::lemma_no_finished_tube_insert(
                        table_view(t0),
                        tube_id,
                        tm@,
                    );
                }
            }
            table.insert(tube_id, tm);
            Ok(())
        },
        Err(()) => {
            proof {
                lemma_table_view_insert(table@, tube_id, tm);
                assert(table_view(t0).remove(tube_id).insert(tube_id, tm@) =~= table_view(t0));
                assert(t0.remove(tube_id).insert(tube_id, tm) =~= t0.insert(tube_id, tm));
            }
            table.insert(tube_id, tm);
            Err(SendError::AckIdAlreadyInUseInternalError)
        },
    }
}

/// Remove the resolver registered for an ack id on a tube, as `send` does
/// after its ack arrived, its timeout expired, or its transmit failed.
pub fn remove_sendack_on_tube<R>(
    table: &mut HashMap<u16, TubeManager<R>>,
    tube_id: u16,
    ack_id: u16,
) -> (r: Option<R>)
    requires
        table_wf(old(table)@),
    ensures
        table_wf(final(table)@),
        no_finished_tube(table_view(old(table)@)) ==> no_finished_tube(
            table_view(final(table)@),
        ),
        !old(table)@.contains_key(tube_id) ==> (final(table)@ == old(table)@ && r is None),
        old(table)@.contains_key(tube_id) ==> {
            &&& final(table)@.contains_key(tube_id)
            &&& final(table)@ == old(table)@.insert(tube_id, final(table)@[tube_id])
            &&& final(table)@[tube_id].completion_state == old(
                table,
            )@[tube_id].completion_state
            &&& final(table)@[tube_id].pending_events == old(table)@[tube_id].pending_events
            &&& match r {
                Some(resolver) => (exists|i: int|
                    {
                        &&& 0 <= i < old(table)@[tube_id].sendacks@.len()
                        &&& (#[trigger] old(table)@[tube_id].sendacks@[i]) == (
                        ack_id,
                        resolver,
                        )
                        &&& final(table)@[tube_id].sendacks@ == old(
                            table,
                        )@[tube_id].sendacks@.remove(i)
                    }),
                None => final(table)@[tube_id].sendacks@ == old(table)@[tube_id].sendacks@,
            }
        },
        ({
            let t = table_view(old(table)@);
            match r {
                Some(_) => {
                    &&& t.contains_key(tube_id)
                    &&& t[tube_id].acks.contains(ack_id)
                    &&& table_view(final(table)@) == t.insert(
                        tube_id,
                        TubeMgrModel {
                            state: t[tube_id].state,
                            events: t[tube_id].events,
                            acks: t[tube_id].acks.remove(ack_id),
                        },
                    )
                },
                None => {
                    &&& (t.contains_key(tube_id) ==> !t[tube_id].acks.contains(ack_id))
                    &&& table_view(final(table)@) == t
                },
            }
        }),
{
    let ghost t0 = table@;
    let mut tm = match table.remove(&tube_id) {
        Some(tm) => tm,
        None => {
            proof {
                assert(table@ =~= t0);
            }
            return None;
        },
    };
    proof {
        lemma_table_view_remove(t0, tube_id);
    }
    let r = tm.remove_sendack(ack_id);
    proof {
        assert(t0.remove(tube_id).insert(tube_id, tm) =~= t0.insert(tube_id, tm));
        match r {
            Some(_) => {
                assert(tm@ =~~= (TubeMgrModel {
                    state: table_view(t0)[tube_id].state,
                    events: table_view(t0)[tube_id].events,
                    acks: table_view(t0)[tube_id].acks.remove(ack_id),
                }));
                lemma_table_view_insert(table@, tube_id, tm);
                assert(table_view(t0).remove(tube_id).insert(tube_id, tm@) =~= table_view(
                    t0,
                ).insert(tube_id, tm@));
                if no_finished_tube(table_view(t0)) {
                    crate::frame_handler::lemma_no_finished_tube_insert(
                        table_view(t0),
                        tube_id,
                        tm@,
                    );
                }
            },
            None => {
                lemma_table_view_insert(table@, tube_id, tm);
                assert(table_view(t0).remove(tube_id).insert(tube_id, tm@) =~= table_view(t0));
            },
        }
    }
    table.insert(tube_id, tm);
    r
}

/// The synchronous prefix of `send`: allocate an ack id from the tube's
/// allocator, encode the `Payload` frame carrying it, and register the
/// resolver under that id.  The caller transmits the returned bytes, then
/// awaits the rendezvous; whatever happens afterwards, it removes the
/// registration with `remove_sendack_on_tube` and releases the id.  On
/// every failure the allocator gets the id back and nothing stays
/// registered.
pub fn send_prepare<R>(
    idman: &mut UniqueIdManager,
    table: &mut HashMap<u16, TubeManager<R>>,
    tube_id: u16,
    data: Vec<u8>,
    resolver: R,
) -> (r: Result<(UniqueId, Vec<u8>), SendError>)
    requires
        old(idman).wf(),
        table_wf(old(table)@),
    ensures
        final(idman).wf(),
        final(idman).policy() == old(idman).policy(),
        table_wf(final(table)@),
        no_finished_tube(table_view(old(table)@)) ==> no_finished_tube(
            table_view(final(table)@),
        ),
        ({
            let t = table_view(old(table)@);
            match r {
                Ok((ack, bytes)) => {
                    &&& !ack.spec_taken()
                    &&& ack.spec_val() == old(idman).next_id()
                    &&& ack.spec_val() < 0x8000
                    &&& !old(idman).outstanding_ids().contains(ack.spec_val())
                    &&& final(idman).outstanding_ids() == old(idman).outstanding_ids().insert(
                        ack.spec_val(),
                    )
                    &&& data@.len() <= 65531
                    &&& bytes@ == spec_encode(
                        FrameModel::Payload {
                            tube_id,
                            ack_id: Some(ack.spec_val()),
                            data: data@,
                        },
                    )
                    &&& t.contains_key(tube_id)
                    &&& !t[tube_id].acks.contains(ack.spec_val())
                    &&& table_view(final(table)@) == t.insert(
                        tube_id,
                        TubeMgrModel {
                            state: t[tube_id].state,
                            events: t[tube_id].events,
                            acks: t[tube_id].acks.insert(ack.spec_val()),
                        },
                    )
                },
                Err(SendError::AckIdsExhausted) => {
                    &&& !old(idman).can_issue()
                    &&& *final(idman) == *old(idman)
                    &&& table_view(final(table)@) == t
                },
                Err(SendError::FrameEncodeError(_)) => {
                    &&& old(idman).can_issue()
                    &&& (data@.len() > 65531 || old(idman).next_id() >= 0x8000)
                    &&& final(idman).outstanding_ids() == old(idman).outstanding_ids()
                    &&& table_view(final(table)@) == t
                },
                Err(SendError::AckIdAlreadyInUseInternalError) => {
                    &&& old(idman).can_issue()
                    &&& data@.len() <= 65531
                    &&& old(idman).next_id() < 0x8000
                    &&& t.contains_key(tube_id)
                    &&& t[tube_id].acks.contains(old(idman).next_id())
                    &&& final(idman).outstanding_ids() == old(idman).outstanding_ids()
                    &&& table_view(final(table)@) == t
                },
                Err(SendError::UnknownTransportError) => {
                    &&& old(idman).can_issue()
                    &&& !t.contains_key(tube_id)
                    &&& final(idman).outstanding_ids() == old(idman).outstanding_ids()
                    &&& table_view(final(table)@) == t
                },
                Err(_) => false,
            }
        }),
{
    let ghost outstanding0 = idman.outstanding_ids();
    let ack = match idman.take_id() {
        Ok(id) => id,
        Err(UniqueIdError::NoIdsAvailable) => {
            return Err(SendError::AckIdsExhausted);
        },
    };
    let bytes = match crate::encoder::encode_payload_frame(tube_id, Some(ack.val()), data) {
        Ok(bytes) => bytes,
        Err(e) => {
            idman.release(ack);
            proof {
                assert(idman.outstanding_ids() =~= outstanding0);
            }
            return Err(SendError::FrameEncodeError(e));
        },
    };
    match register_sendack_on_tube(table, tube_id, ack.val(), resolver) {
        Ok(()) => Ok((ack, bytes)),
        Err(e) => {
            idman.release(ack);
            proof {
                assert(idman.outstanding_ids() =~= outstanding0);
            }
            Err(e)
        },
    }
}

/// Poll the event stream of a tube still in the table: `None` when the
/// tube has left it (its consumer then polls the detached state instead).
pub fn poll_tube_event<R>(
    peer: PeerType,
    table: &mut HashMap<u16, TubeManager<R>>,
    tube_id: u16,
) -> (r: Option<TubePoll>)
    requires
        table_wf(old(table)@),
    ensures
        table_wf(final(table)@),
        no_finished_tube(table_view(old(table)@)) ==> no_finished_tube(
            table_view(final(table)@),
        ),
        !old(table)@.contains_key(tube_id) ==> (final(table)@ == old(table)@ && r is None),
        old(table)@.contains_key(tube_id) ==> {
            &&& final(table)@.contains_key(tube_id)
            &&& final(table)@ == old(table)@.insert(tube_id, final(table)@[tube_id])
            &&& final(table)@[tube_id].completion_state == old(
                table,
            )@[tube_id].completion_state
            &&& final(table)@[tube_id].sendacks@ == old(table)@[tube_id].sendacks@
        },
        ({
            let t = table_view(old(table)@);
            match r {
                Some(poll) => {
                    &&& t.contains_key(tube_id)
                    &&& match poll {
                        TubePoll::Event(e) => {
                            &&& t[tube_id].events.len() > 0
                            &&& e@ == t[tube_id].events[0]
                            &&& table_view(final(table)@) == t.insert(
                                tube_id,
                                TubeMgrModel {
                                    state: t[tube_id].state,
                                    events: t[tube_id].events.drop_first(),
                                    acks: t[tube_id].acks,
                                },
                            )
                        },
                        TubePoll::Finished => {
                            &&& t[tube_id].events.len() == 0
                            &&& stream_done(peer, t[tube_id].state)
                            &&& table_view(final(table)@) == t
                        },
                        TubePoll::Pending => {
                            &&& t[tube_id].events.len() == 0
                            &&& !stream_done(peer, t[tube_id].state)
                            &&& table_view(final(table)@) == t
                        },
                    }
                },
                None => {
                    &&& !t.contains_key(tube_id)
                    &&& table_view(final(table)@) == t
                },
            }
        }),
{
    let ghost t0 = table@;
    let mut tm = match table.remove(&tube_id) {
        Some(tm) => tm,
        None => {
            proof {
                assert(table@ =~= t0);
            }
            return None;
        },
    };
    proof {
        lemma_table_view_remove(t0, tube_id);
    }
    let poll = take_next_event(peer, &mut tm);
    proof {
        assert(t0.remove(tube_id).insert(tube_id, tm) =~= t0.insert(tube_id, tm));
        if no_finished_tube(table_view(t0)) {
            crate::frame_handler::lemma_no_finished_tube_insert(table_view(t0), tube_id, tm@);
        }
        match poll {
            TubePoll::Event(_) => {
                assert(tm@ =~~= (TubeMgrModel {
                    state: table_view(t0)[tube_id].state,
                    events: table_view(t0)[tube_id].events.drop_first(),
                    acks: table_view(t0)[tube_id].acks,
                }));
                lemma_table_view_insert(table@, tube_id, tm);
                assert(table_view(t0).remove(tube_id).insert(tube_id, tm@) =~= table_view(
                    t0,
                ).insert(tube_id, tm@));
            },
            _ => {
                lemma_table_view_insert(table@, tube_id, tm);
                assert(table_view(t0).remove(tube_id).insert(tube_id, tm@) =~= table_view(t0));
            },
        }
    }
    table.insert(tube_id, tm);
    Some(poll)
}

} // verus!
