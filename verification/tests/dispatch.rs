use std::collections::HashMap;

use tubez::PeerType;
use tubez::frame::{AbortReason, Frame};
use tubez::decoder::Decoder;
use tubez::channel::{
    local_abort, local_has_finished_sending, make_tube_prepare, make_tube_register,
    remove_sendack_on_tube, send_prepare,
};
use tubez::frame_handler::{deliver_payload, FrameHandler, FrameHandlerError, FrameHandlerResult};
use tubez::tube_manager::{TubeCompletionState, TubeManager};
use tubez::unique_id_manager::UniqueIdManager;

type Table = HashMap<u16, TubeManager<u32>>;

fn feed_one(decoder: &mut Decoder, bytes: Vec<u8>) -> Frame {
    let mut frames = decoder.decode(bytes).unwrap();
    assert_eq!(frames.len(), 1);
    frames.pop_front().unwrap()
}

#[test]
fn half_close_handshake() {
    // Client side: allocator of odd tube ids, its own table, its decoder.
    let mut client_tube_ids = UniqueIdManager::new_with_odd_ids();
    let mut client_table: Table = HashMap::new();
    let mut client_decoder = Decoder::new();
    let client_handler = FrameHandler::new(PeerType::Client);
    let mut client_ack_ids = UniqueIdManager::new();

    // Server side.
    let mut server_table: Table = HashMap::new();
    let mut server_decoder = Decoder::new();
    let server_handler = FrameHandler::new(PeerType::Server);

    // Client makes a tube: the first odd id is 1.
    let (tube_id, newtube_bytes) = make_tube_prepare(&mut client_tube_ids, vec![]).unwrap();
    assert_eq!(tube_id.val(), 1);
    make_tube_register(&mut client_table, tube_id.val()).unwrap();

    // The NewTube frame reaches the server, which opens its side.
    let frame = feed_one(&mut server_decoder, newtube_bytes);
    match server_handler.handle_frame(&mut server_table, frame).unwrap() {
        FrameHandlerResult::NewTube(id) => assert_eq!(id, 1),
        other => panic!("unexpected dispatch result: {:?}", result_name(&other)),
    }
    assert!(server_table.contains_key(&1));

    // Client sends b"hi" with an ack.
    let (ack, payload_bytes) =
        send_prepare(&mut client_ack_ids, &mut client_table, 1, b"hi".to_vec(), 7).unwrap();
    let frame = feed_one(&mut server_decoder, payload_bytes);
    let (ack_bytes, data, tid) =
        match server_handler.handle_frame(&mut server_table, frame).unwrap() {
            FrameHandlerResult::TransmitAckThenDeliver { tube_id, ack_frame, data } =>
                (ack_frame, data, tube_id),
            other => panic!("unexpected dispatch result: {:?}", result_name(&other)),
        };
    assert_eq!(data, b"hi".to_vec());
    assert!(deliver_payload(&mut server_table, tid, data));

    // The ack comes back and resolves the pending send.
    let frame = feed_one(&mut client_decoder, ack_bytes);
    match client_handler.handle_frame(&mut client_table, frame).unwrap() {
        FrameHandlerResult::ResolveAck(id, resolver) => {
            assert_eq!(id, 1);
            assert_eq!(resolver, 7);
        },
        other => panic!("unexpected dispatch result: {:?}", result_name(&other)),
    }
    client_ack_ids.release(ack);

    // Client half-closes: its state becomes ClientHasFinishedSending.
    let (chfs_bytes, detached) =
        local_has_finished_sending(PeerType::Client, &mut client_table, 1).unwrap();
    assert!(detached.is_none());
    assert_eq!(
        client_table.get(&1).unwrap().completion_state,
        TubeCompletionState::ClientHasFinishedSending,
    );

    // The server observes it, then half-closes itself: both sides reach
    // Closed and both tables forget the tube.
    let frame = feed_one(&mut server_decoder, chfs_bytes);
    match server_handler.handle_frame(&mut server_table, frame).unwrap() {
        FrameHandlerResult::WakeTube(id) => assert_eq!(id, 1),
        other => panic!("unexpected dispatch result: {:?}", result_name(&other)),
    }
    let (shfs_bytes, server_detached) =
        local_has_finished_sending(PeerType::Server, &mut server_table, 1).unwrap();
    let server_detached = server_detached.expect("closing half-close detaches the tube");
    assert_eq!(server_detached.completion_state, TubeCompletionState::Closed);
    assert_eq!(server_table.len(), 0);

    let frame = feed_one(&mut client_decoder, shfs_bytes);
    match client_handler.handle_frame(&mut client_table, frame).unwrap() {
        FrameHandlerResult::WakeAndDetach(id, tm) => {
            assert_eq!(id, 1);
            assert_eq!(tm.completion_state, TubeCompletionState::Closed);
        },
        other => panic!("unexpected dispatch result: {:?}", result_name(&other)),
    }
    assert_eq!(client_table.len(), 0);
}

fn result_name(r: &FrameHandlerResult<u32>) -> &'static str {
    match r {
        FrameHandlerResult::FullyHandled => "FullyHandled",
        FrameHandlerResult::WakeTube(_) => "WakeTube",
        FrameHandlerResult::WakeAndDetach(_, _) => "WakeAndDetach",
        FrameHandlerResult::Detach(_, _) => "Detach",
        FrameHandlerResult::NewTube(_) => "NewTube",
        FrameHandlerResult::ResolveAck(_, _) => "ResolveAck",
        FrameHandlerResult::TransmitAckThenDeliver { .. } => "TransmitAckThenDeliver",
    }
}

#[test]
fn ack_timeout_leaves_no_pending_sendack() {
    // A send registers its rendezvous; when the ack never comes, the
    // timeout path removes the registration and the map is empty again.
    let mut ack_ids = UniqueIdManager::new();
    let mut table: Table = HashMap::new();
    make_tube_register(&mut table, 1).unwrap();

    let (ack, _payload_bytes) =
        send_prepare(&mut ack_ids, &mut table, 1, b"test data".to_vec(), 7).unwrap();
    assert_eq!(table.get(&1).unwrap().sendacks.len(), 1);

    let resolver = remove_sendack_on_tube(&mut table, 1, ack.val());
    assert_eq!(resolver, Some(7));
    assert_eq!(table.get(&1).unwrap().sendacks.len(), 0);
    ack_ids.release(ack);
}

#[test]
fn abort_precedence() {
    // A locally-aborted tube ignores the peer's half-close: the remote
    // did not yet know of the abort, so the frame is dropped silently.
    // (The wire scenario pairs a client abort with the peer's half-close
    // arriving afterwards; for a client that frame is
    // ServerHasFinishedSending, the only half-close a client accepts.)
    let mut table: Table = HashMap::new();
    make_tube_register(&mut table, 3).unwrap();
    let handler = FrameHandler::new(PeerType::Client);

    let abort_bytes = local_abort(&mut table, 3, AbortReason::ApplicationAbort).unwrap();
    // Frame with reason byte 0x00 is what goes on the wire.
    assert_eq!(abort_bytes, vec![0x6, 0, 3, 0, 3, 0x00]);
    assert_eq!(
        table.get(&3).unwrap().completion_state,
        TubeCompletionState::AbortedFromLocal(AbortReason::ApplicationAbort),
    );

    let frame = Frame::ServerHasFinishedSending { tube_id: 3 };
    match handler.handle_frame(&mut table, frame).unwrap() {
        FrameHandlerResult::FullyHandled => (),
        other => panic!("unexpected dispatch result: {:?}", result_name(&other)),
    }
}

#[test]
fn remote_abort_detaches_tube_and_queues_abort_event() {
    let mut table: Table = HashMap::new();
    make_tube_register(&mut table, 2).unwrap();
    let handler = FrameHandler::new(PeerType::Client);

    let frame = Frame::Abort { tube_id: 2, reason: AbortReason::ApplicationError };
    match handler.handle_frame(&mut table, frame).unwrap() {
        FrameHandlerResult::WakeAndDetach(id, tm) => {
            assert_eq!(id, 2);
            assert_eq!(
                tm.completion_state,
                TubeCompletionState::AbortedFromRemote(AbortReason::ApplicationError),
            );
            assert_eq!(tm.pending_events.len(), 1);
        },
        other => panic!("unexpected dispatch result: {:?}", result_name(&other)),
    }
    assert_eq!(table.len(), 0);
}

#[test]
fn payload_ack_resolves_at_most_once() {
    let mut ack_ids = UniqueIdManager::new();
    let mut table: Table = HashMap::new();
    make_tube_register(&mut table, 1).unwrap();
    let handler = FrameHandler::new(PeerType::Client);

    let (ack, _bytes) = send_prepare(&mut ack_ids, &mut table, 1, vec![1], 99).unwrap();

    let frame = Frame::PayloadAck { tube_id: 1, ack_id: ack.val() };
    match handler.handle_frame(&mut table, frame).unwrap() {
        FrameHandlerResult::ResolveAck(id, resolver) => {
            assert_eq!(id, 1);
            assert_eq!(resolver, 99);
        },
        other => panic!("unexpected dispatch result: {:?}", result_name(&other)),
    }

    // The same ack again finds nothing to resolve.
    let frame = Frame::PayloadAck { tube_id: 1, ack_id: ack.val() };
    match handler.handle_frame(&mut table, frame) {
        Err(FrameHandlerError::UntrackedAckId { tube_id, ack_id }) => {
            assert_eq!(tube_id, 1);
            assert_eq!(ack_id, ack.val());
        },
        other => panic!("unexpected dispatch result: {:?}", other.is_ok()),
    }
}

#[test]
fn dispatch_error_cases() {
    let mut table: Table = HashMap::new();
    let server = FrameHandler::new(PeerType::Server);
    let client = FrameHandler::new(PeerType::Client);

    // Unknown tube ids are reported, whatever the frame.
    match server.handle_frame(&mut table, Frame::Payload { tube_id: 9, ack_id: None, data: vec![] })
    {
        Err(FrameHandlerError::UntrackedTubeId(_)) => (),
        other => panic!("unexpected: {:?}", other.is_ok()),
    }

    // A client must not receive a client half-close, nor a new tube.
    match client.handle_frame(&mut table, Frame::ClientHasFinishedSending { tube_id: 1 }) {
        Err(FrameHandlerError::InappropriateHasFinishedSendingFrameFromPeer) => (),
        other => panic!("unexpected: {:?}", other.is_ok()),
    }
    match client.handle_frame(&mut table, Frame::NewTube { tube_id: 2, headers: vec![] }) {
        Err(FrameHandlerError::ServerInitiatedTubesNotImplemented) => (),
        other => panic!("unexpected: {:?}", other.is_ok()),
    }

    // A server must not learn of the same tube twice.
    make_tube_register(&mut table, 4).unwrap();
    match server.handle_frame(&mut table, Frame::NewTube { tube_id: 4, headers: vec![] }) {
        Err(FrameHandlerError::TubeManagerInsertionError { tube_id }) => assert_eq!(tube_id, 4),
        other => panic!("unexpected: {:?}", other.is_ok()),
    }

    // A repeated half-close from the peer is a duplicate.
    server.handle_frame(&mut table, Frame::ClientHasFinishedSending { tube_id: 4 }).unwrap();
    match server.handle_frame(&mut table, Frame::ClientHasFinishedSending { tube_id: 4 }) {
        Err(FrameHandlerError::DuplicateHasFinishedSendingFrame { tube_id }) =>
            assert_eq!(tube_id, 4),
        other => panic!("unexpected: {:?}", other.is_ok()),
    }

    // Half-close after a remote abort, and a duplicate remote abort.
    make_tube_register(&mut table, 5).unwrap();
    make_tube_register(&mut table, 6).unwrap();
    // Put tube 5 into AbortedFromLocal so it stays tracked after a
    // local abort, then observe a duplicate of the remote kind on 6.
    local_abort(&mut table, 5, AbortReason::ApplicationAbort).unwrap();
    match server.handle_frame(&mut table, Frame::ClientHasFinishedSending { tube_id: 5 }) {
        Ok(FrameHandlerResult::FullyHandled) => (),
        other => panic!("unexpected: {:?}", other.is_ok()),
    }
    server
        .handle_frame(
            &mut table,
            Frame::Abort { tube_id: 6, reason: AbortReason::ApplicationError },
        )
        .unwrap();
    // Tube 6 left the table with the abort, so a second abort is untracked.
    match server.handle_frame(
        &mut table,
        Frame::Abort { tube_id: 6, reason: AbortReason::ApplicationError },
    ) {
        Err(FrameHandlerError::UntrackedTubeId(_)) => (),
        other => panic!("unexpected: {:?}", other.is_ok()),
    }
}

#[test]
fn abort_of_locally_aborted_tube_is_detached_silently() {
    let mut table: Table = HashMap::new();
    make_tube_register(&mut table, 8).unwrap();
    let handler = FrameHandler::new(PeerType::Client);
    local_abort(&mut table, 8, AbortReason::ApplicationAbort).unwrap();
    assert_eq!(table.len(), 1);

    match handler
        .handle_frame(&mut table, Frame::Abort { tube_id: 8, reason: AbortReason::Unknown })
        .unwrap()
    {
        FrameHandlerResult::Detach(id, tm) => {
            assert_eq!(id, 8);
            assert_eq!(
                tm.completion_state,
                TubeCompletionState::AbortedFromLocal(AbortReason::ApplicationAbort),
            );
            // Dropped silently: no event was queued for the consumer.
            assert_eq!(tm.pending_events.len(), 0);
        },
        other => panic!("unexpected dispatch result: {:?}", result_name(&other)),
    }
    assert_eq!(table.len(), 0);
}

#[test]
fn two_tubes_interleaved_sends_all_acked() {
    // Two tubes on one channel each send 100 payloads with acks.  Their
    // frames share the one byte stream without interleaving inside a
    // frame: a tapping decoder yields 200 well-formed frames, and every
    // send is resolved exactly once.
    let mut ack_ids_a = UniqueIdManager::new();
    let mut ack_ids_b = UniqueIdManager::new();
    let mut client_table: Table = HashMap::new();
    let mut server_table: Table = HashMap::new();
    make_tube_register(&mut client_table, 1).unwrap();
    make_tube_register(&mut client_table, 3).unwrap();
    make_tube_register(&mut server_table, 1).unwrap();
    make_tube_register(&mut server_table, 3).unwrap();
    let client = FrameHandler::new(PeerType::Client);
    let server = FrameHandler::new(PeerType::Server);

    let mut wire: Vec<u8> = Vec::new();
    let mut ack_handles = Vec::new();
    for i in 0..100u32 {
        let (ack_a, mut bytes_a) =
            send_prepare(&mut ack_ids_a, &mut client_table, 1, vec![i as u8], 2 * i).unwrap();
        let (ack_b, mut bytes_b) =
            send_prepare(&mut ack_ids_b, &mut client_table, 3, vec![i as u8], 2 * i + 1).unwrap();
        wire.append(&mut bytes_a);
        wire.append(&mut bytes_b);
        // The id handles go back to their allocators once the matching
        // acks have resolved below.
        ack_handles.push((ack_a, ack_b));
    }

    // The tapping decoder sees 200 well-formed payload frames.
    let mut tap = Decoder::new();
    let frames = tap.decode(wire.clone()).unwrap();
    assert_eq!(frames.len(), 200);

    // The server acks each payload; the client resolves all 200 sends.
    let mut server_decoder = Decoder::new();
    let mut resolved = Vec::new();
    for frame in server_decoder.decode(wire).unwrap() {
        match server.handle_frame(&mut server_table, frame).unwrap() {
            FrameHandlerResult::TransmitAckThenDeliver { tube_id, ack_frame, data } => {
                assert!(deliver_payload(&mut server_table, tube_id, data));
                let mut client_decoder = Decoder::new();
                let ack = feed_one(&mut client_decoder, ack_frame);
                match client.handle_frame(&mut client_table, ack).unwrap() {
                    FrameHandlerResult::ResolveAck(_, resolver) => resolved.push(resolver),
                    other => panic!("unexpected: {:?}", result_name(&other)),
                }
            },
            other => panic!("unexpected: {:?}", result_name(&other)),
        }
    }
    resolved.sort();
    let expected: Vec<u32> = (0..200).collect();
    assert_eq!(resolved, expected);
    assert_eq!(client_table.get(&1).unwrap().sendacks.len(), 0);
    assert_eq!(client_table.get(&3).unwrap().sendacks.len(), 0);
    for (ack_a, ack_b) in ack_handles {
        ack_ids_a.release(ack_a);
        ack_ids_b.release(ack_b);
    }
}

#[test]
fn make_tube_register_rejects_duplicate_id() {
    let mut table: Table = HashMap::new();
    make_tube_register(&mut table, 1).unwrap();
    match make_tube_register(&mut table, 1) {
        Err(tubez::channel::MakeTubeError::InternalErrorDuplicateTubeId(id)) => assert_eq!(id, 1),
        other => panic!("unexpected: {:?}", other.is_ok()),
    }
}
