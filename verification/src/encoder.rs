//! Frame encoders: pure functions from a typed frame to its wire bytes.
//!
//! Each encoder either returns exactly the bytes that `spec_encode` gives
//! for the frame, or rejects the frame: `DataTooLarge` when a body would
//! overflow the two-byte body length, `AckIdTooLarge` when an ack id does
//! not fit 15 bits, and `HeaderJsonEncodeError` when headers cannot be
//! serialized (which never happens for string-to-string headers).

use vstd::prelude::*;
use crate::frame::{
    AbortReason, FrameModel, headers_wf, spec_encode, ABORT_FRAMETYPE,
    CLIENT_HAS_FINISHED_SENDING_FRAMETYPE, DRAIN_FRAMETYPE, NEWTUBE_FRAMETYPE,
    PAYLOAD_ACK_FRAMETYPE, PAYLOAD_FRAMETYPE, SERVER_HAS_FINISHED_SENDING_FRAMETYPE,
};
use crate::json_headers::{header_pairs_map, json_bytes_of, headers_to_json_bytes};

verus! {

#[derive(Debug)]
pub enum FrameEncodeError {
    AckIdTooLarge(u16),
    DataTooLarge(usize),
    HeaderJsonEncodeError,
}

/// Encode an `Abort` frame.
pub fn encode_abort_frame(tube_id: u16, reason: AbortReason) -> (r: Result<
    Vec<u8>,
    FrameEncodeError,
>)
    ensures
        r matches Ok(bytes) && bytes@ == spec_encode(
            FrameModel::Abort { tube_id, reason },
        ),
{
    let bytes = vec![
        ABORT_FRAMETYPE,
        0,
        3,
        (tube_id / 256) as u8,
        (tube_id % 256) as u8,
        reason.into_byte(),
    ];
    proof {
        assert(bytes@ =~= spec_encode(FrameModel::Abort { tube_id, reason }));
    }
    Ok(bytes)
}

/// Encode a `ClientHasFinishedSending` frame.
pub fn encode_client_has_finished_sending_frame(tube_id: u16) -> (r: Result<
    Vec<u8>,
    FrameEncodeError,
>)
    ensures
        r matches Ok(bytes) && bytes@ == spec_encode(
            FrameModel::ClientHasFinishedSending { tube_id },
        ),
{
    let bytes = vec![
        CLIENT_HAS_FINISHED_SENDING_FRAMETYPE,
        0,
        2,
        (tube_id / 256) as u8,
        (tube_id % 256) as u8,
    ];
    proof {
        assert(bytes@ =~= spec_encode(FrameModel::ClientHasFinishedSending { tube_id }));
    }
    Ok(bytes)
}

/// Encode a `Drain` frame.
pub fn encode_drain_frame() -> (r: Result<Vec<u8>, FrameEncodeError>)
    ensures
        r matches Ok(bytes) && bytes@ == spec_encode(FrameModel::Drain),
{
    let bytes = vec![DRAIN_FRAMETYPE, 0, 0];
    proof {
        assert(bytes@ =~= spec_encode(FrameModel::Drain));
    }
    Ok(bytes)
}

/// Encode a `NewTube` frame.  The headers travel as a UTF-8 JSON object;
/// the frame is rejected with `DataTooLarge` when that JSON text does not
/// fit the frame body beside the two-byte tube id.
pub fn encode_newtube_frame(tube_id: u16, headers: Vec<(String, String)>) -> (r: Result<
    Vec<u8>,
    FrameEncodeError,
>)
    ensures
        headers@.len() == 0 ==> r is Ok,
        ({
            let m = header_pairs_map(headers@);
            match r {
                Ok(bytes) => {
                    &&& headers_wf(m)
                    &&& bytes@ == spec_encode(FrameModel::NewTube { tube_id, headers: m })
                },
                Err(FrameEncodeError::DataTooLarge(n)) => {
                    &&& json_bytes_of(m).len() > 65533
                    &&& n == json_bytes_of(m).len()
                },
                Err(_) => false,
            }
        }),
{
    let mut json = match headers_to_json_bytes(&headers) {
        Some(bytes) => bytes,
        None => {
            return Err(FrameEncodeError::HeaderJsonEncodeError);
        },
    };
    if json.len() > 65533 {
        return Err(FrameEncodeError::DataTooLarge(json.len()));
    }
    let body_len: u16 = (json.len() + 2) as u16;
    let mut bytes = vec![
        NEWTUBE_FRAMETYPE,
        (body_len / 256) as u8,
        (body_len % 256) as u8,
        (tube_id / 256) as u8,
        (tube_id % 256) as u8,
    ];
    bytes.append(&mut json);
    proof {
        let m = header_pairs_map(headers@);
        assert(bytes@ =~= spec_encode(FrameModel::NewTube { tube_id, headers: m }));
    }
    Ok(bytes)
}

/// Encode a `Payload` frame.  The two ack bytes hold an ack-requested flag
/// in bit 15 and the 15-bit ack id below it; both bytes are zero when no
/// ack is requested.
pub fn encode_payload_frame(tube_id: u16, ack_id: Option<u16>, data: Vec<u8>) -> (r: Result<
    Vec<u8>,
    FrameEncodeError,
>)
    ensures
        match r {
            Ok(bytes) => {
                &&& data@.len() <= 65531
                &&& (ack_id matches Some(a) ==> a < 0x8000)
                &&& bytes@ == spec_encode(
                    FrameModel::Payload { tube_id, ack_id, data: data@ },
                )
            },
            Err(FrameEncodeError::DataTooLarge(n)) => {
                &&& data@.len() > 65531
                &&& n == data@.len()
            },
            Err(FrameEncodeError::AckIdTooLarge(a)) => {
                &&& data@.len() <= 65531
                &&& ack_id == Some(a)
                &&& a >= 0x8000
            },
            Err(_) => false,
        },
{
    if data.len() > 65531 {
        return Err(FrameEncodeError::DataTooLarge(data.len()));
    }
    let (ack_hi, ack_lo): (u8, u8) = match ack_id {
        Some(a) => {
            if a >= 0x8000 {
                return Err(FrameEncodeError::AckIdTooLarge(a));
            }
            ((128 + a / 256) as u8, (a % 256) as u8)
        },
        None => (0, 0),
    };
    let body_len: u16 = (data.len() + 4) as u16;
    let mut bytes = vec![
        PAYLOAD_FRAMETYPE,
        (body_len / 256) as u8,
        (body_len % 256) as u8,
        (tube_id / 256) as u8,
        (tube_id % 256) as u8,
        ack_hi,
        ack_lo,
    ];
    let mut payload = data;
    bytes.append(&mut payload);
    proof {
        assert(bytes@ =~= spec_encode(FrameModel::Payload { tube_id, ack_id, data: data@ }));
    }
    Ok(bytes)
}

/// Encode a `PayloadAck` frame.  Bit 15 of the ack field is reserved and
/// encodes as zero.
pub fn encode_payload_ack_frame(tube_id: u16, ack_id: u16) -> (r: Result<
    Vec<u8>,
    FrameEncodeError,
>)
    ensures
        match r {
            Ok(bytes) => {
                &&& ack_id < 0x8000
                &&& bytes@ == spec_encode(FrameModel::PayloadAck { tube_id, ack_id })
            },
            Err(FrameEncodeError::AckIdTooLarge(a)) => {
                &&& a == ack_id
                &&& ack_id >= 0x8000
            },
            Err(_) => false,
        },
{
    if ack_id >= 0x8000 {
        return Err(FrameEncodeError::AckIdTooLarge(ack_id));
    }
    let bytes = vec![
        PAYLOAD_ACK_FRAMETYPE,
        0,
        4,
        (tube_id / 256) as u8,
        (tube_id % 256) as u8,
        (ack_id / 256) as u8,
        (ack_id % 256) as u8,
    ];
    proof {
        assert(bytes@ =~= spec_encode(FrameModel::PayloadAck { tube_id, ack_id }));
    }
    Ok(bytes)
}

/// Encode a `ServerHasFinishedSending` frame.
pub fn encode_server_has_finished_sending_frame(tube_id: u16) -> (r: Result<
    Vec<u8>,
    FrameEncodeError,
>)
    ensures
        r matches Ok(bytes) && bytes@ == spec_encode(
            FrameModel::ServerHasFinishedSending { tube_id },
        ),
{
    let bytes = vec![
        SERVER_HAS_FINISHED_SENDING_FRAMETYPE,
        0,
        2,
        (tube_id / 256) as u8,
        (tube_id % 256) as u8,
    ];
    proof {
        assert(bytes@ =~= spec_encode(FrameModel::ServerHasFinishedSending { tube_id }));
    }
    Ok(bytes)
}

} // verus!
