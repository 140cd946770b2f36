//! Tubez: a frame-multiplexing transport core.
//!
//! Many logical message streams ("tubes") share one bidirectional byte
//! channel.  This crate holds the verified core of the protocol: the binary
//! frame codec with its streaming decoder, the unique-id allocator used for
//! tube ids and ack ids, the per-tube completion state machine, and the
//! frame dispatcher that drives those state machines from inbound frames.
//! The byte carrier itself (an HTTP/2 request/response pair in the reference
//! deployment) stays outside: the core only produces frame bytes to transmit
//! and consumes frame bytes received.

pub mod frame;
pub mod json_headers;
pub mod encoder;
pub mod decoder;
pub mod codec_laws;
pub mod unique_id_manager;
pub mod inverted_future;
pub mod tube_event;
pub mod tube_manager;
pub mod frame_handler;
pub mod channel;

use vstd::prelude::*;

verus! {

/// Which side of a channel this endpoint plays.  The role decides which
/// half-close frames may be sent and received, and the parity of
/// locally-originated tube ids (clients use odd ids, servers even ids).
#[derive(Copy, Clone, Debug, PartialEq, Eq, Structural)]
pub enum PeerType {
    Client,
    Server,
}

} // verus!
