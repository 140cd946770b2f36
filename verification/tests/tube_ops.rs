use std::collections::HashMap;

use tubez::PeerType;
use tubez::frame::AbortReason;
use tubez::channel::{local_abort, local_has_finished_sending, make_tube_register, poll_tube_event};
use tubez::inverted_future::InvertedFutureContext;
use tubez::tube_event::TubeEvent;
use tubez::tube_manager::{
    drop_disposition, take_next_event, AbortError, DropDisposition, HasFinishedSendingError,
    TubeCompletionState, TubeManager, TubePoll,
};
use tubez::frame_handler::{FrameHandler, FrameHandlerResult};
use tubez::frame::Frame;
use tubez::channel::{register_sendack_on_tube, send_prepare};
use tubez::tube_manager::SendError;
use tubez::unique_id_manager::UniqueIdManager;

type Table = HashMap<u16, TubeManager<u32>>;

#[test]
fn unresolved_on_construction() {
    let mut cell: InvertedFutureContext<()> = InvertedFutureContext::new();
    assert_eq!(cell.take_resolution(), None);
}

#[test]
fn resolves_after_call_to_resolve() {
    let mut cell: InvertedFutureContext<u8> = InvertedFutureContext::new();
    cell.resolve(42);
    assert_eq!(cell.take_resolution(), Some(42));
    // One-shot: the value is taken, not peeked.
    assert_eq!(cell.take_resolution(), None);
}

#[test]
fn has_finished_sending_twice_is_an_error() {
    let mut table: Table = HashMap::new();
    make_tube_register(&mut table, 1).unwrap();
    local_has_finished_sending(PeerType::Client, &mut table, 1).unwrap();
    match local_has_finished_sending(PeerType::Client, &mut table, 1) {
        Err(HasFinishedSendingError::AlreadyMarkedAsFinishedSending) => (),
        other => panic!("unexpected: {:?}", other.is_ok()),
    }
}

#[test]
fn has_finished_sending_after_abort_is_an_error() {
    let mut table: Table = HashMap::new();
    make_tube_register(&mut table, 1).unwrap();
    local_abort(&mut table, 1, AbortReason::ApplicationAbort).unwrap();
    match local_has_finished_sending(PeerType::Client, &mut table, 1) {
        Err(HasFinishedSendingError::TubeAlreadyAborted(AbortReason::ApplicationAbort)) => (),
        other => panic!("unexpected: {:?}", other.is_ok()),
    }
}

#[test]
fn abort_twice_is_an_error() {
    let mut table: Table = HashMap::new();
    make_tube_register(&mut table, 1).unwrap();
    local_abort(&mut table, 1, AbortReason::ApplicationAbort).unwrap();
    match local_abort(&mut table, 1, AbortReason::ApplicationAbort) {
        Err(AbortError::AlreadyAborted(AbortReason::ApplicationAbort)) => (),
        other => panic!("unexpected: {:?}", other.is_ok()),
    }
}

#[test]
fn abort_of_closed_tube_is_an_error() {
    let mut table: Table = HashMap::new();
    make_tube_register(&mut table, 1).unwrap();
    // Close the tube: the peer half-closes, then we do.
    let handler = FrameHandler::new(PeerType::Client);
    handler
        .handle_frame(&mut table, Frame::ServerHasFinishedSending { tube_id: 1 })
        .unwrap();
    let (_bytes, detached) =
        local_has_finished_sending(PeerType::Client, &mut table, 1).unwrap();
    assert!(detached.is_some());
    // The closed tube has left the table; aborting it reports AlreadyClosed.
    match local_abort(&mut table, 1, AbortReason::ApplicationAbort) {
        Err(AbortError::AlreadyClosed) => (),
        other => panic!("unexpected: {:?}", other.is_ok()),
    }
}

#[test]
fn events_are_delivered_in_order_then_stream_completes() {
    let mut table: Table = HashMap::new();
    make_tube_register(&mut table, 1).unwrap();
    let handler = FrameHandler::new(PeerType::Client);

    handler
        .handle_frame(&mut table, Frame::Payload { tube_id: 1, ack_id: None, data: vec![1] })
        .unwrap();
    handler
        .handle_frame(&mut table, Frame::Payload { tube_id: 1, ack_id: None, data: vec![2] })
        .unwrap();

    match poll_tube_event(PeerType::Client, &mut table, 1).unwrap() {
        TubePoll::Event(TubeEvent::Payload(d)) => assert_eq!(d, vec![1]),
        _ => panic!("expected the first payload event"),
    }
    match poll_tube_event(PeerType::Client, &mut table, 1).unwrap() {
        TubePoll::Event(TubeEvent::Payload(d)) => assert_eq!(d, vec![2]),
        _ => panic!("expected the second payload event"),
    }
    // Nothing pending and the tube is open: the consumer parks.
    match poll_tube_event(PeerType::Client, &mut table, 1).unwrap() {
        TubePoll::Pending => (),
        _ => panic!("expected a pending poll"),
    }

    // After the server half-closes, the client consumer first sees the
    // event, then the stream completes.
    match handler
        .handle_frame(&mut table, Frame::ServerHasFinishedSending { tube_id: 1 })
        .unwrap()
    {
        FrameHandlerResult::WakeTube(1) => (),
        _ => panic!("expected a wake"),
    }
    match poll_tube_event(PeerType::Client, &mut table, 1).unwrap() {
        TubePoll::Event(TubeEvent::ServerHasFinishedSending) => (),
        _ => panic!("expected the half-close event"),
    }
    match poll_tube_event(PeerType::Client, &mut table, 1).unwrap() {
        TubePoll::Finished => (),
        _ => panic!("expected a finished stream"),
    }
}

#[test]
fn detached_tube_still_drains_its_events() {
    let mut table: Table = HashMap::new();
    make_tube_register(&mut table, 1).unwrap();
    let handler = FrameHandler::new(PeerType::Client);

    let mut tm = match handler
        .handle_frame(
            &mut table,
            Frame::Abort { tube_id: 1, reason: AbortReason::ApplicationError },
        )
        .unwrap()
    {
        FrameHandlerResult::WakeAndDetach(_, tm) => tm,
        _ => panic!("expected the tube to detach"),
    };
    assert!(poll_tube_event(PeerType::Client, &mut table, 1).is_none());

    match take_next_event(PeerType::Client, &mut tm) {
        TubePoll::Event(TubeEvent::Abort(AbortReason::ApplicationError)) => (),
        _ => panic!("expected the abort event"),
    }
    match take_next_event(PeerType::Client, &mut tm) {
        TubePoll::Finished => (),
        _ => panic!("expected a finished stream"),
    }
}

#[test]
fn drop_disposition_follows_completion_state() {
    let open = TubeCompletionState::Open;
    let chfs = TubeCompletionState::ClientHasFinishedSending;
    let shfs = TubeCompletionState::ServerHasFinishedSending;
    let closed = TubeCompletionState::Closed;
    let aborted = TubeCompletionState::AbortedFromRemote(AbortReason::Unknown);

    assert_eq!(drop_disposition(PeerType::Client, &closed), DropDisposition::DoNothing);
    assert_eq!(drop_disposition(PeerType::Server, &aborted), DropDisposition::DoNothing);
    assert_eq!(
        drop_disposition(PeerType::Client, &shfs),
        DropDisposition::SendHasFinishedSending,
    );
    assert_eq!(
        drop_disposition(PeerType::Server, &chfs),
        DropDisposition::SendHasFinishedSending,
    );
    assert_eq!(drop_disposition(PeerType::Client, &open), DropDisposition::SendAbort);
    assert_eq!(drop_disposition(PeerType::Client, &chfs), DropDisposition::SendAbort);
    assert_eq!(drop_disposition(PeerType::Server, &shfs), DropDisposition::SendAbort);
}

#[test]
fn send_prepare_errors_if_ackid_already_in_use() {
    let mut table: Table = HashMap::new();
    make_tube_register(&mut table, 1).unwrap();
    // Occupy ack id 0, the first id a fresh allocator hands out.
    register_sendack_on_tube(&mut table, 1, 0, 7u32).unwrap();

    let mut ack_ids = UniqueIdManager::new();
    match send_prepare(&mut ack_ids, &mut table, 1, b"test data".to_vec(), 8u32) {
        Err(SendError::AckIdAlreadyInUseInternalError) => {
            let tm = table.get(&1).unwrap();
            assert_eq!(tm.sendacks.len(), 1);
            assert_eq!(tm.sendacks[0].0, 0);
        },
        other => panic!("unexpected result: {:?}", other.is_ok()),
    }
}

#[test]
fn operations_on_untracked_tubes_fail() {
    let mut table: Table = HashMap::new();
    match local_has_finished_sending(PeerType::Client, &mut table, 9) {
        Err(HasFinishedSendingError::InternalError(_)) => (),
        other => panic!("unexpected: {:?}", other.is_ok()),
    }
    match register_sendack_on_tube(&mut table, 9, 0, 7u32) {
        Err(SendError::UnknownTransportError) => (),
        other => panic!("unexpected: {:?}", other.is_ok()),
    }
    let mut ack_ids = UniqueIdManager::new();
    match send_prepare(&mut ack_ids, &mut table, 9, vec![1], 7u32) {
        Err(SendError::UnknownTransportError) => (),
        other => panic!("unexpected: {:?}", other.is_ok()),
    }
}
