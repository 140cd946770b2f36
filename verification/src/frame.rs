//! The protocol's frames and their wire encoding, stated mathematically.
//!
//! Every frame starts with a three-byte header: a one-byte frame type and a
//! two-byte big-endian body length.  The body length counts only the body,
//! not the header, and is at most 65535.  `spec_encode` gives the exact byte
//! sequence of each frame; the encoder and decoder are verified against it.

use vstd::prelude::*;
use crate::json_headers::{header_pairs_map, json_bytes_of, json_headers_of, json_str_of};

verus! {

pub const CLIENT_HAS_FINISHED_SENDING_FRAMETYPE: u8 = 0x0;
pub const DRAIN_FRAMETYPE: u8 = 0x1;
pub const NEWTUBE_FRAMETYPE: u8 = 0x2;
pub const PAYLOAD_FRAMETYPE: u8 = 0x3;
pub const PAYLOAD_ACK_FRAMETYPE: u8 = 0x4;
pub const SERVER_HAS_FINISHED_SENDING_FRAMETYPE: u8 = 0x5;
pub const ABORT_FRAMETYPE: u8 = 0x6;

/// Why a tube was aborted.  On the wire this is a single byte; any byte
/// other than the three assigned values decodes to `Unknown`, so that new
/// reasons can be added without breaking old decoders.
#[derive(Copy, Clone, Debug, PartialEq, Eq, Structural)]
pub enum AbortReason {
    ApplicationAbort,
    ApplicationError,
    TransportErrorWhileSynchronizingTubeState,
    Unknown,
}

impl AbortReason {
    /// The byte that encodes this reason.
    pub open spec fn spec_byte(self) -> u8 {
        match self {
            AbortReason::ApplicationAbort => 0x00,
            AbortReason::ApplicationError => 0x01,
            AbortReason::TransportErrorWhileSynchronizingTubeState => 0x02,
            AbortReason::Unknown => 0xFF,
        }
    }

    /// The reason a byte decodes to.
    pub open spec fn spec_of_byte(b: u8) -> AbortReason {
        if b == 0x00 {
            AbortReason::ApplicationAbort
        } else if b == 0x01 {
            AbortReason::ApplicationError
        } else if b == 0x02 {
            AbortReason::TransportErrorWhileSynchronizingTubeState
        } else {
            AbortReason::Unknown
        }
    }

    /// Encode this reason as its wire byte.
    pub fn into_byte(&self) -> (b: u8)
        ensures
            b == self.spec_byte(),
    {
        match self {
            AbortReason::ApplicationAbort => 0x00,
            AbortReason::ApplicationError => 0x01,
            AbortReason::TransportErrorWhileSynchronizingTubeState => 0x02,
            AbortReason::Unknown => 0xFF,
        }
    }

    /// Decode a wire byte into a reason; unassigned bytes give `Unknown`.
    pub fn from_byte(b: u8) -> (r: AbortReason)
        ensures
            r == AbortReason::spec_of_byte(b),
    {
        if b == 0x00 {
            AbortReason::ApplicationAbort
        } else if b == 0x01 {
            AbortReason::ApplicationError
        } else if b == 0x02 {
            AbortReason::TransportErrorWhileSynchronizingTubeState
        } else {
            AbortReason::Unknown
        }
    }
}

/// One protocol data unit.  `NewTube` headers are a list of key/value
/// pairs; on the wire they travel as a UTF-8 JSON object, and two frames
/// whose pair lists denote the same map are the same frame.
#[derive(Clone, Debug, PartialEq)]
pub enum Frame {
    /// The client will send no further `Payload` frames on this tube.
    ClientHasFinishedSending { tube_id: u16 },
    /// Advisory request to drain (gracefully shut down) the whole channel.
    Drain,
    /// A new tube with the given id and headers.
    NewTube { tube_id: u16, headers: Vec<(String, String)> },
    /// Data for a tube.  When `ack_id` is present the receiver must answer
    /// with a `PayloadAck` carrying the same id; ack ids are 15 bits.
    Payload { tube_id: u16, ack_id: Option<u16>, data: Vec<u8> },
    /// Acknowledges receipt of the `Payload` frame that carried `ack_id`.
    PayloadAck { tube_id: u16, ack_id: u16 },
    /// The server will send no further `Payload` frames on this tube.
    ServerHasFinishedSending { tube_id: u16 },
    /// Immediately terminates a tube, independent of half-close state.
    Abort { tube_id: u16, reason: AbortReason },
}

/// The mathematical value of a frame: header pair lists become maps, and
/// payload bytes become sequences.
pub enum FrameModel {
    ClientHasFinishedSending { tube_id: u16 },
    Drain,
    NewTube { tube_id: u16, headers: Map<Seq<char>, Seq<char>> },
    Payload { tube_id: u16, ack_id: Option<u16>, data: Seq<u8> },
    PayloadAck { tube_id: u16, ack_id: u16 },
    ServerHasFinishedSending { tube_id: u16 },
    Abort { tube_id: u16, reason: AbortReason },
}

impl View for Frame {
    type V = FrameModel;

    open spec fn view(&self) -> FrameModel {
        match self {
            Frame::ClientHasFinishedSending { tube_id } =>
                FrameModel::ClientHasFinishedSending { tube_id: *tube_id },
            Frame::Drain => FrameModel::Drain,
            Frame::NewTube { tube_id, headers } =>
                FrameModel::NewTube { tube_id: *tube_id, headers: header_pairs_map(headers@) },
            Frame::Payload { tube_id, ack_id, data } =>
                FrameModel::Payload { tube_id: *tube_id, ack_id: *ack_id, data: data@ },
            Frame::PayloadAck { tube_id, ack_id } =>
                FrameModel::PayloadAck { tube_id: *tube_id, ack_id: *ack_id },
            Frame::ServerHasFinishedSending { tube_id } =>
                FrameModel::ServerHasFinishedSending { tube_id: *tube_id },
            Frame::Abort { tube_id, reason } =>
                FrameModel::Abort { tube_id: *tube_id, reason: *reason },
        }
    }
}

/// The two big-endian bytes of a 16-bit value.
pub open spec fn be16_bytes(x: u16) -> Seq<u8> {
    seq![(x / 256) as u8, (x % 256) as u8]
}

/// The 16-bit value two big-endian bytes denote.
pub open spec fn be16(hi: u8, lo: u8) -> u16 {
    (hi * 256 + lo) as u16
}

/// The two bytes of a `Payload` frame's ack field: bit 15 flags that an
/// ack is requested, bits 14..0 hold the ack id.
pub open spec fn ack_field_bytes(ack_id: Option<u16>) -> Seq<u8> {
    match ack_id {
        Some(a) => seq![(128 + a / 256) as u8, (a % 256) as u8],
        None => seq![0u8, 0u8],
    }
}

/// Headers that the wire can carry: their JSON text fits a frame body
/// (two bytes of which hold the tube id) and parses back to the same map.
/// The second condition holds of every map the serializer produces; it is
/// recorded here so the round trip can be stated of a frame alone.
pub open spec fn headers_wf(h: Map<Seq<char>, Seq<char>>) -> bool {
    &&& json_bytes_of(h).len() <= 65533
    &&& json_headers_of(json_str_of(h)) == Some(h)
}

/// A frame the encoder accepts: payload data fits the body length, ack ids
/// fit 15 bits, and `NewTube` headers are wire-carriable.
pub open spec fn frame_wf(f: FrameModel) -> bool {
    match f {
        FrameModel::NewTube { headers, .. } => headers_wf(headers),
        FrameModel::Payload { ack_id, data, .. } => {
            &&& data.len() <= 65531
            &&& (ack_id matches Some(a) ==> a < 0x8000)
        },
        FrameModel::PayloadAck { ack_id, .. } => ack_id < 0x8000,
        _ => true,
    }
}

/// The body bytes of a frame (everything after the three-byte header).
pub open spec fn spec_encode_body(f: FrameModel) -> Seq<u8> {
    match f {
        FrameModel::ClientHasFinishedSending { tube_id } => be16_bytes(tube_id),
        FrameModel::Drain => seq![],
        FrameModel::NewTube { tube_id, headers } => be16_bytes(tube_id) + json_bytes_of(headers),
        FrameModel::Payload { tube_id, ack_id, data } =>
            be16_bytes(tube_id) + ack_field_bytes(ack_id) + data,
        FrameModel::PayloadAck { tube_id, ack_id } =>
            be16_bytes(tube_id) + be16_bytes(ack_id),
        FrameModel::ServerHasFinishedSending { tube_id } => be16_bytes(tube_id),
        FrameModel::Abort { tube_id, reason } => be16_bytes(tube_id) + seq![reason.spec_byte()],
    }
}

/// The type byte of a frame.
pub open spec fn spec_frame_type(f: FrameModel) -> u8 {
    match f {
        FrameModel::ClientHasFinishedSending { .. } => CLIENT_HAS_FINISHED_SENDING_FRAMETYPE,
        FrameModel::Drain => DRAIN_FRAMETYPE,
        FrameModel::NewTube { .. } => NEWTUBE_FRAMETYPE,
        FrameModel::Payload { .. } => PAYLOAD_FRAMETYPE,
        FrameModel::PayloadAck { .. } => PAYLOAD_ACK_FRAMETYPE,
        FrameModel::ServerHasFinishedSending { .. } => SERVER_HAS_FINISHED_SENDING_FRAMETYPE,
        FrameModel::Abort { .. } => ABORT_FRAMETYPE,
    }
}

/// The full wire bytes of a frame: type byte, big-endian body length, body.
pub open spec fn spec_encode(f: FrameModel) -> Seq<u8> {
    seq![spec_frame_type(f)] + be16_bytes(spec_encode_body(f).len() as u16) + spec_encode_body(f)
}

/// Whether a payload frame's ack id, if any, fits its 15 bits.  Frames
/// from the decoder always do; a caller that builds frames itself can
/// check before handing one to the dispatcher.
pub fn frame_ack_id_in_range(f: &Frame) -> (b: bool)
    ensures
        b == (f@ matches FrameModel::Payload { ack_id: Some(a), .. } ==> a < 0x8000),
{
    match f {
        Frame::Payload { ack_id: Some(a), .. } => *a < 0x8000,
        _ => true,
    }
}

} // verus!
