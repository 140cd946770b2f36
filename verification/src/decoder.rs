//! The streaming frame decoder.
//!
//! The decoder buffers incoming bytes and, on each `decode` call, greedily
//! parses every complete frame at the front of the buffer, in order.  A
//! frame is complete once the three header bytes and the body length they
//! announce are buffered; the decoder drains exactly those bytes per frame,
//! so fragmentation of the byte stream is invisible to callers.  A parse
//! error ends the current batch and reports how many frames had already
//! parsed; the remaining buffered bytes stay for the caller to decide.
//!
//! `spec_drain` is the mathematical account of this loop; `decode` is
//! verified to agree with it exactly.

use vstd::prelude::*;
use vstd::utf8::{valid_utf8, decode_utf8};
use std::collections::VecDeque;
use crate::frame::{
    Frame, FrameModel, AbortReason, be16, ABORT_FRAMETYPE, CLIENT_HAS_FINISHED_SENDING_FRAMETYPE,
    DRAIN_FRAMETYPE, NEWTUBE_FRAMETYPE, PAYLOAD_ACK_FRAMETYPE, PAYLOAD_FRAMETYPE,
    SERVER_HAS_FINISHED_SENDING_FRAMETYPE,
};
use crate::json_headers::{json_headers_of, bytes_to_utf8, json_str_to_headers};

verus! {

/// Why a frame failed to parse.
#[derive(Debug)]
pub enum FrameParseError {
    /// A frame body was shorter than its frame type requires.  The frame's
    /// bytes have already been drained, so parsing cannot resume inside
    /// them; this is the defensive error for malformed body lengths.
    InternalByteOffsetLogicError(String),
    /// `NewTube` headers were valid UTF-8 but not a JSON object of strings.
    HeaderJsonDecodeError,
    /// `NewTube` headers were not valid UTF-8; `valid_up_to` is the length
    /// of the longest valid prefix.
    HeaderUtf8Error { valid_up_to: usize },
    /// The frame type byte is not one of the seven assigned values.
    UnknownFrameType(u8),
}

/// The mathematical value of a parse error: the same cases, without the
/// diagnostic payloads.
pub enum ParseErrorModel {
    InternalByteOffsetLogicError,
    HeaderJsonDecodeError,
    HeaderUtf8Error,
    UnknownFrameType(u8),
}

impl View for FrameParseError {
    type V = ParseErrorModel;

    open spec fn view(&self) -> ParseErrorModel {
        match self {
            FrameParseError::InternalByteOffsetLogicError(_) =>
                ParseErrorModel::InternalByteOffsetLogicError,
            FrameParseError::HeaderJsonDecodeError => ParseErrorModel::HeaderJsonDecodeError,
            FrameParseError::HeaderUtf8Error { .. } => ParseErrorModel::HeaderUtf8Error,
            FrameParseError::UnknownFrameType(t) => ParseErrorModel::UnknownFrameType(*t),
        }
    }
}

/// Returned by `Decoder::decode` on failure: the parse error together with
/// how many frames of the batch had already parsed successfully.
#[derive(Debug)]
pub struct FrameDecodeError {
    pub parse_error: FrameParseError,
    pub num_frames_parsed_successfully: usize,
}

/// What parsing a frame body of the given type yields.
pub open spec fn spec_parse_body(frame_type: u8, body: Seq<u8>) -> Result<
    FrameModel,
    ParseErrorModel,
> {
    if frame_type == CLIENT_HAS_FINISHED_SENDING_FRAMETYPE {
        if body.len() >= 2 {
            Ok(FrameModel::ClientHasFinishedSending { tube_id: be16(body[0], body[1]) })
        } else {
            Err(ParseErrorModel::InternalByteOffsetLogicError)
        }
    } else if frame_type == DRAIN_FRAMETYPE {
        Ok(FrameModel::Drain)
    } else if frame_type == NEWTUBE_FRAMETYPE {
        if body.len() < 2 {
            Err(ParseErrorModel::InternalByteOffsetLogicError)
        } else {
            let header_bytes = body.skip(2);
            if !valid_utf8(header_bytes) {
                Err(ParseErrorModel::HeaderUtf8Error)
            } else {
                match json_headers_of(decode_utf8(header_bytes)) {
                    Some(headers) => Ok(
                        FrameModel::NewTube { tube_id: be16(body[0], body[1]), headers },
                    ),
                    None => Err(ParseErrorModel::HeaderJsonDecodeError),
                }
            }
        }
    } else if frame_type == PAYLOAD_FRAMETYPE {
        if body.len() < 4 {
            Err(ParseErrorModel::InternalByteOffsetLogicError)
        } else {
            let ack_id: Option<u16> = if body[2] >= 128 {
                Some((((body[2] - 128) * 256) + body[3]) as u16)
            } else {
                None
            };
            Ok(
                FrameModel::Payload {
                    tube_id: be16(body[0], body[1]),
                    ack_id,
                    data: body.skip(4),
                },
            )
        }
    } else if frame_type == PAYLOAD_ACK_FRAMETYPE {
        if body.len() < 4 {
            Err(ParseErrorModel::InternalByteOffsetLogicError)
        } else {
            Ok(
                FrameModel::PayloadAck {
                    tube_id: be16(body[0], body[1]),
                    ack_id: (((body[2] % 128) * 256) + body[3]) as u16,
                },
            )
        }
    } else if frame_type == SERVER_HAS_FINISHED_SENDING_FRAMETYPE {
        if body.len() >= 2 {
            Ok(FrameModel::ServerHasFinishedSending { tube_id: be16(body[0], body[1]) })
        } else {
            Err(ParseErrorModel::InternalByteOffsetLogicError)
        }
    } else if frame_type == ABORT_FRAMETYPE {
        if body.len() >= 3 {
            Ok(
                FrameModel::Abort {
                    tube_id: be16(body[0], body[1]),
                    reason: AbortReason::spec_of_byte(body[2]),
                },
            )
        } else {
            Err(ParseErrorModel::InternalByteOffsetLogicError)
        }
    } else {
        Err(ParseErrorModel::UnknownFrameType(frame_type))
    }
}

/// What one `decode` call produces from a buffer: the frames parsed in
/// order, the error that ended the batch if one did, and the bytes that
/// remain buffered.
pub struct DecodeOutcome {
    pub frames: Seq<FrameModel>,
    pub error: Option<ParseErrorModel>,
    pub rest: Seq<u8>,
}

/// The buffer holds no complete frame: either the header has not arrived,
/// or the body length it announces has not.
pub open spec fn no_complete_frame(buf: Seq<u8>) -> bool {
    buf.len() < 3 || buf.len() < 3 + be16(buf[1], buf[2])
}

/// Greedily parse every complete frame at the front of `buf`, draining
/// exactly the bytes of each frame, until the bytes run out or a frame
/// fails to parse.
pub open spec fn spec_drain(buf: Seq<u8>) -> DecodeOutcome
    decreases buf.len(),
{
    if buf.len() < 3 {
        DecodeOutcome { frames: seq![], error: None, rest: buf }
    } else {
        let body_len = be16(buf[1], buf[2]) as int;
        if buf.len() < 3 + body_len {
            DecodeOutcome { frames: seq![], error: None, rest: buf }
        } else {
            let body = buf.subrange(3, 3 + body_len);
            let rest = buf.subrange(3 + body_len, buf.len() as int);
            match spec_parse_body(buf[0], body) {
                Ok(f) => {
                    let tail = spec_drain(rest);
                    DecodeOutcome {
                        frames: seq![f] + tail.frames,
                        error: tail.error,
                        rest: tail.rest,
                    }
                },
                Err(e) => DecodeOutcome { frames: seq![], error: Some(e), rest },
            }
        }
    }
}

/// The models of a sequence of frames.
pub open spec fn frame_views(s: Seq<Frame>) -> Seq<FrameModel> {
    s.map_values(|f: Frame| f@)
}

pub(crate) proof fn lemma_frame_views_push(s: Seq<Frame>, f: Frame)
    ensures
        frame_views(s.push(f)) == frame_views(s).push(f@),
{
    assert(frame_views(s.push(f)) =~= frame_views(s).push(f@));
}

/// Join two big-endian bytes into a 16-bit value.
pub(crate) fn double_u8_to_u16(left_byte: u8, right_byte: u8) -> (r: u16)
    ensures
        r == be16(left_byte, right_byte),
{
    (left_byte as u16) * 256 + (right_byte as u16)
}

/// Copy the bytes of `body` from `start` on into a fresh vector.
fn tail_of(body: &Vec<u8>, start: usize) -> (r: Vec<u8>)
    requires
        start <= body@.len(),
    ensures
        r@ == body@.skip(start as int),
{
    let mut r: Vec<u8> = Vec::new();
    let mut i: usize = start;
    while i < body.len()
        invariant
            start <= i <= body@.len(),
            r@ == body@.subrange(start as int, i as int),
        decreases body@.len() - i,
    {
        r.push(body[i]);
        i += 1;
        proof {
            assert(r@ =~= body@.subrange(start as int, i as int));
        }
    }
    proof {
        assert(r@ =~= body@.skip(start as int));
    }
    r
}

/// Parse one frame body that has already been drained from the buffer.
fn parse_frame_body(frame_type: u8, body: Vec<u8>) -> (r: Result<Frame, FrameParseError>)
    ensures
        match r {
            Ok(f) => spec_parse_body(frame_type, body@) == Ok::<FrameModel, ParseErrorModel>(f@),
            Err(e) => spec_parse_body(frame_type, body@) == Err::<FrameModel, ParseErrorModel>(
                e@,
            ),
        },
{
    if frame_type == CLIENT_HAS_FINISHED_SENDING_FRAMETYPE {
        if body.len() < 2 {
            return Err(
                FrameParseError::InternalByteOffsetLogicError(
                    "frame body shorter than its frame type requires".to_owned(),
                ),
            );
        }
        let tube_id = double_u8_to_u16(body[0], body[1]);
        Ok(Frame::ClientHasFinishedSending { tube_id })
    } else if frame_type == DRAIN_FRAMETYPE {
        Ok(Frame::Drain)
    } else if frame_type == NEWTUBE_FRAMETYPE {
        if body.len() < 2 {
            return Err(
                FrameParseError::InternalByteOffsetLogicError(
                    "frame body shorter than its frame type requires".to_owned(),
                ),
            );
        }
        let tube_id = double_u8_to_u16(body[0], body[1]);
        let header_bytes = tail_of(&body, 2);
        let headers_str = match bytes_to_utf8(header_bytes.as_slice()) {
            Ok(s) => s,
            Err(valid_up_to) => {
                return Err(FrameParseError::HeaderUtf8Error { valid_up_to });
            },
        };
        match json_str_to_headers(headers_str) {
            Some(headers) => Ok(Frame::NewTube { tube_id, headers }),
            None => Err(FrameParseError::HeaderJsonDecodeError),
        }
    } else if frame_type == PAYLOAD_FRAMETYPE {
        if body.len() < 4 {
            return Err(
                FrameParseError::InternalByteOffsetLogicError(
                    "frame body shorter than its frame type requires".to_owned(),
                ),
            );
        }
        let tube_id = double_u8_to_u16(body[0], body[1]);
        // Bit 15 of the ack field flags that an ack was requested; the ack
        // id itself is the 15 bits below it.
        let ack_id: Option<u16> = if body[2] >= 128 {
            Some(double_u8_to_u16(body[2] - 128, body[3]))
        } else {
            None
        };
        let data = tail_of(&body, 4);
        Ok(Frame::Payload { tube_id, ack_id, data })
    } else if frame_type == PAYLOAD_ACK_FRAMETYPE {
        if body.len() < 4 {
            return Err(
                FrameParseError::InternalByteOffsetLogicError(
                    "frame body shorter than its frame type requires".to_owned(),
                ),
            );
        }
        let tube_id = double_u8_to_u16(body[0], body[1]);
        // Bit 15 is reserved in a PayloadAck and ignored on decode.
        let ack_id = double_u8_to_u16(body[2] % 128, body[3]);
        Ok(Frame::PayloadAck { tube_id, ack_id })
    } else if frame_type == SERVER_HAS_FINISHED_SENDING_FRAMETYPE {
        if body.len() < 2 {
            return Err(
                FrameParseError::InternalByteOffsetLogicError(
                    "frame body shorter than its frame type requires".to_owned(),
                ),
            );
        }
        let tube_id = double_u8_to_u16(body[0], body[1]);
        Ok(Frame::ServerHasFinishedSending { tube_id })
    } else if frame_type == ABORT_FRAMETYPE {
        if body.len() < 3 {
            return Err(
                FrameParseError::InternalByteOffsetLogicError(
                    "frame body shorter than its frame type requires".to_owned(),
                ),
            );
        }
        let tube_id = double_u8_to_u16(body[0], body[1]);
        let reason = AbortReason::from_byte(body[2]);
        Ok(Frame::Abort { tube_id, reason })
    } else {
        Err(FrameParseError::UnknownFrameType(frame_type))
    }
}

/// The streaming decoder: a buffer of bytes not yet parsed into frames.
pub struct Decoder {
    partial_data: VecDeque<u8>,
}

impl View for Decoder {
    type V = Seq<u8>;

    closed spec fn view(&self) -> Seq<u8> {
        self.partial_data@
    }
}

impl Decoder {
    /// A decoder with an empty buffer.
    pub fn new() -> (d: Decoder)
        ensures
            d@ == Seq::<u8>::empty(),
    {
        Decoder { partial_data: VecDeque::new() }
    }

    /// Append `data` to the buffer, then parse and return every complete
    /// frame at its front, exactly as `spec_drain` describes.  On success
    /// the buffer keeps no complete frame; on a parse error the bad
    /// frame's bytes have been drained and the rest stay buffered.
    pub fn decode(&mut self, data: Vec<u8>) -> (r: Result<VecDeque<Frame>, FrameDecodeError>)
        ensures
            ({
                let outcome = spec_drain(old(self)@ + data@);
                match r {
                    Ok(frames) => {
                        &&& outcome.error is None
                        &&& frame_views(frames@) == outcome.frames
                        &&& final(self)@ == outcome.rest
                        &&& no_complete_frame(final(self)@)
                    },
                    Err(e) => {
                        &&& outcome.error == Some(e.parse_error@)
                        &&& e.num_frames_parsed_successfully == outcome.frames.len()
                        &&& final(self)@ == outcome.rest
                    },
                }
            }),
    {
        let ghost orig = self.partial_data@;
        let mut i: usize = 0;
        while i < data.len()
            invariant
                i <= data@.len(),
                self.partial_data@ == orig + data@.subrange(0, i as int),
            decreases data@.len() - i,
        {
            self.partial_data.push_back(data[i]);
            i += 1;
            proof {
                assert(self.partial_data@ =~= orig + data@.subrange(0, i as int));
            }
        }
        let ghost buf0 = orig + data@;
        proof {
            assert(self.partial_data@ =~= buf0);
        }

        let mut decoded: VecDeque<Frame> = VecDeque::new();
        loop
            invariant
                buf0 == old(self)@ + data@,
                spec_drain(buf0).error == spec_drain(self.partial_data@).error,
                spec_drain(buf0).frames == frame_views(decoded@) + spec_drain(
                    self.partial_data@,
                ).frames,
                spec_drain(buf0).rest == spec_drain(self.partial_data@).rest,
            ensures
                spec_drain(buf0).error == spec_drain(self.partial_data@).error,
                spec_drain(buf0).frames == frame_views(decoded@) + spec_drain(
                    self.partial_data@,
                ).frames,
                spec_drain(buf0).rest == spec_drain(self.partial_data@).rest,
                no_complete_frame(self.partial_data@),
            decreases self.partial_data@.len(),
        {
            let ghost cur = self.partial_data@;
            if self.partial_data.len() < 3 {
                break;
            }
            let body_len_u16 = double_u8_to_u16(self.partial_data[1], self.partial_data[2]);
            let body_len = body_len_u16 as usize;
            if self.partial_data.len() < 3 + body_len {
                break;
            }
            let frame_type = match self.partial_data.pop_front() {
                Some(b) => b,
                None => {
                    return Err(
                        FrameDecodeError {
                            parse_error: FrameParseError::InternalByteOffsetLogicError(
                                "buffer emptied while draining a complete frame".to_owned(),
                            ),
                            num_frames_parsed_successfully: decoded.len(),
                        },
                    );
                },
            };
            let _ = self.partial_data.pop_front();
            let _ = self.partial_data.pop_front();
            proof {
                assert(self.partial_data@ =~= cur.subrange(3, cur.len() as int));
            }
            let mut body: Vec<u8> = Vec::new();
            let mut j: usize = 0;
            while j < body_len
                invariant
                    j <= body_len,
                    3 + body_len <= cur.len(),
                    body@ == cur.subrange(3, 3 + j as int),
                    self.partial_data@ == cur.subrange(3 + j as int, cur.len() as int),
                decreases body_len - j,
            {
                let b = match self.partial_data.pop_front() {
                    Some(b) => b,
                    None => {
                        return Err(
                            FrameDecodeError {
                                parse_error: FrameParseError::InternalByteOffsetLogicError(
                                    "buffer emptied while draining a complete frame".to_owned(),
                                ),
                                num_frames_parsed_successfully: decoded.len(),
                            },
                        );
                    },
                };
                body.push(b);
                j += 1;
                proof {
                    assert(body@ =~= cur.subrange(3, 3 + j as int));
                    assert(self.partial_data@ =~= cur.subrange(3 + j as int, cur.len() as int));
                }
            }
            proof {
                assert(body@ =~= cur.subrange(3, 3 + body_len as int));
                assert(self.partial_data@ =~= cur.subrange(
                    3 + body_len as int,
                    cur.len() as int,
                ));
            }
            match parse_frame_body(frame_type, body) {
                Ok(frame) => {
                    proof {
                        lemma_frame_views_push(decoded@, frame);
                        assert(spec_drain(cur).frames =~= seq![frame@] + spec_drain(
                            self.partial_data@,
                        ).frames);
                        assert(frame_views(decoded@.push(frame)) + spec_drain(
                            self.partial_data@,
                        ).frames =~= frame_views(decoded@) + spec_drain(cur).frames);
                    }
                    decoded.push_back(frame);
                },
                Err(parse_error) => {
                    proof {
                        assert(spec_drain(cur) == DecodeOutcome {
                            frames: seq![],
                            error: Some(parse_error@),
                            rest: self.partial_data@,
                        });
                        assert(frame_views(decoded@) + spec_drain(cur).frames =~= frame_views(
                            decoded@,
                        ));
                    }
                    return Err(
                        FrameDecodeError {
                            parse_error,
                            num_frames_parsed_successfully: decoded.len(),
                        },
                    );
                },
            }
        }
        proof {
            assert(spec_drain(self.partial_data@) == DecodeOutcome {
                frames: seq![],
                error: None,
                rest: self.partial_data@,
            });
            assert(frame_views(decoded@) + spec_drain(self.partial_data@).frames =~= frame_views(
                decoded@,
            ));
        }
        Ok(decoded)
    }
}

} // verus!
