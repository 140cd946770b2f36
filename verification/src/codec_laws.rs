//! The codec's two central laws.
//!
//! First, encoding then decoding is the identity: the wire bytes of any
//! well-formed frame decode to exactly that frame, with nothing left over.
//! Second, fragmentation is transparent: a byte stream made of concatenated
//! frame encodings decodes to the same frame sequence no matter how it is
//! split into chunks, as long as the chunks arrive in order.

use vstd::prelude::*;
use vstd::utf8::{encode_utf8_valid_utf8, encode_utf8_decode_utf8};
use crate::frame::{
    FrameModel, frame_wf, headers_wf, spec_encode, spec_encode_body, spec_frame_type,
};
use crate::decoder::{
    DecodeOutcome, no_complete_frame, spec_drain, spec_parse_body, ParseErrorModel,
};
use crate::json_headers::{json_bytes_of, json_str_of};

verus! {

/// Parsing the body bytes that `spec_encode_body` produces for a
/// well-formed frame yields that frame back.
pub proof fn lemma_parse_encoded_body(f: FrameModel)
    requires
        frame_wf(f),
    ensures
        spec_parse_body(spec_frame_type(f), spec_encode_body(f)) == Ok::<
            FrameModel,
            ParseErrorModel,
        >(f),
{
    let body = spec_encode_body(f);
    match f {
        FrameModel::NewTube { tube_id, headers } => {
            let jb = json_bytes_of(headers);
            assert(body.skip(2) =~= jb);
            encode_utf8_valid_utf8(json_str_of(headers));
            encode_utf8_decode_utf8(json_str_of(headers));
        },
        FrameModel::Payload { tube_id, ack_id, data } => {
            assert(body.skip(4) =~= data);
            match ack_id {
                Some(a) => {
                    assert(body[2] == (128 + a / 256) as u8);
                    assert(body[3] == (a % 256) as u8);
                },
                None => {
                    assert(body[2] == 0u8);
                },
            }
        },
        _ => {},
    }
}

/// Encode-then-decode round trip: for every well-formed frame, decoding
/// its encoding yields exactly that one frame, without error and with an
/// empty buffer left behind.
pub proof fn lemma_encode_decode_round_trip(f: FrameModel)
    requires
        frame_wf(f),
    ensures
        spec_drain(spec_encode(f)) == (DecodeOutcome {
            frames: seq![f],
            error: None::<ParseErrorModel>,
            rest: Seq::<u8>::empty(),
        }),
{
    let enc = spec_encode(f);
    let body = spec_encode_body(f);
    let body_len = body.len() as u16;
    assert(enc[1] == (body_len / 256) as u8);
    assert(enc[2] == (body_len % 256) as u8);
    assert(enc.len() == 3 + body.len());
    assert(enc.subrange(3, 3 + body.len() as int) =~= body);
    assert(enc.subrange(3 + body.len() as int, enc.len() as int) =~= Seq::<u8>::empty());
    lemma_parse_encoded_body(f);
    assert(spec_drain(Seq::<u8>::empty()) == DecodeOutcome {
        frames: Seq::<FrameModel>::empty(),
        error: None::<ParseErrorModel>,
        rest: Seq::<u8>::empty(),
    });
    assert(seq![f] + Seq::<FrameModel>::empty() =~= seq![f]);
}

/// Draining a buffer, then appending more bytes and draining again, gives
/// the same result as draining the whole: whatever was already complete
/// stays parsed the same way, and a parse error stays the same error.
pub proof fn lemma_drain_extend(b: Seq<u8>, d: Seq<u8>)
    ensures
        ({
            let o1 = spec_drain(b);
            let o2 = spec_drain(b + d);
            match o1.error {
                None => {
                    let o3 = spec_drain(o1.rest + d);
                    &&& o2.frames == o1.frames + o3.frames
                    &&& o2.error == o3.error
                    &&& o2.rest == o3.rest
                },
                Some(e) => {
                    &&& o2.frames == o1.frames
                    &&& o2.error == Some(e)
                    &&& o2.rest == o1.rest + d
                },
            }
        }),
    decreases b.len(),
{
    let o1 = spec_drain(b);
    let o2 = spec_drain(b + d);
    if no_complete_frame(b) {
        assert(o1.rest + d =~= b + d);
        assert(o1.frames + spec_drain(b + d).frames =~= spec_drain(b + d).frames);
    } else {
        let bl = crate::frame::be16(b[1], b[2]) as int;
        let body = b.subrange(3, 3 + bl);
        let rest_b = b.subrange(3 + bl, b.len() as int);
        assert((b + d).subrange(3, 3 + bl) =~= body);
        assert((b + d).subrange(3 + bl, (b + d).len() as int) =~= rest_b + d);
        match spec_parse_body(b[0], body) {
            Ok(f) => {
                lemma_drain_extend(rest_b, d);
                let t1 = spec_drain(rest_b);
                let t2 = spec_drain(rest_b + d);
                match t1.error {
                    None => {
                        let o3 = spec_drain(t1.rest + d);
                        assert((seq![f] + t1.frames) + o3.frames =~= seq![f] + (t1.frames
                            + o3.frames));
                    },
                    Some(_) => {
                        assert(seq![f] + t2.frames =~= seq![f] + t1.frames);
                    },
                }
            },
            Err(_) => {},
        }
    }
}

/// After a successful drain, the remaining buffer holds no complete frame.
pub proof fn lemma_drain_rest_incomplete(b: Seq<u8>)
    ensures
        spec_drain(b).error is None ==> no_complete_frame(spec_drain(b).rest),
    decreases b.len(),
{
    if no_complete_frame(b) {
    } else {
        let bl = crate::frame::be16(b[1], b[2]) as int;
        let body = b.subrange(3, 3 + bl);
        let rest_b = b.subrange(3 + bl, b.len() as int);
        match spec_parse_body(b[0], body) {
            Ok(_) => {
                lemma_drain_rest_incomplete(rest_b);
            },
            Err(_) => {},
        }
    }
}

/// The concatenation of the encodings of a sequence of frames.
pub open spec fn concat_encodings(fs: Seq<FrameModel>) -> Seq<u8>
    decreases fs.len(),
{
    if fs.len() == 0 {
        seq![]
    } else {
        spec_encode(fs.first()) + concat_encodings(fs.drop_first())
    }
}

/// Draining a whole stream of concatenated encodings of well-formed frames
/// yields exactly those frames, in order, with no error and nothing left.
pub proof fn lemma_drain_stream(fs: Seq<FrameModel>)
    requires
        forall|i: int| 0 <= i < fs.len() ==> frame_wf(#[trigger] fs[i]),
    ensures
        spec_drain(concat_encodings(fs)) == (DecodeOutcome {
            frames: fs,
            error: None::<ParseErrorModel>,
            rest: Seq::<u8>::empty(),
        }),
    decreases fs.len(),
{
    if fs.len() == 0 {
        assert(concat_encodings(fs) =~= Seq::<u8>::empty());
        assert(fs =~= Seq::<FrameModel>::empty());
    } else {
        let e0 = spec_encode(fs.first());
        let rest_bytes = concat_encodings(fs.drop_first());
        lemma_encode_decode_round_trip(fs.first());
        lemma_drain_extend(e0, rest_bytes);
        assert(Seq::<u8>::empty() + rest_bytes =~= rest_bytes);
        lemma_drain_stream(fs.drop_first());
        assert(seq![fs.first()] + fs.drop_first() =~= fs);
    }
}

/// The concatenation of a sequence of byte chunks.
pub open spec fn concat_chunks(chunks: Seq<Seq<u8>>) -> Seq<u8>
    decreases chunks.len(),
{
    if chunks.len() == 0 {
        seq![]
    } else {
        chunks.first() + concat_chunks(chunks.drop_first())
    }
}

/// The frames a decoder yields when, starting from buffered bytes `buf`,
/// it is fed the chunks one call at a time (stopping at a parse error, as
/// the dispatcher then tears the channel down).
pub open spec fn feed_chunks(buf: Seq<u8>, chunks: Seq<Seq<u8>>) -> Seq<FrameModel>
    decreases chunks.len(),
{
    if chunks.len() == 0 {
        seq![]
    } else {
        let o = spec_drain(buf + chunks.first());
        o.frames + if o.error is None {
            feed_chunks(o.rest, chunks.drop_first())
        } else {
            Seq::<FrameModel>::empty()
        }
    }
}

/// Fragmentation transparency, decoder form: feeding a byte stream chunk
/// by chunk yields the same frames, in the same order, as draining the
/// stream whole — for any split whose whole drains without error.
pub proof fn lemma_fragmentation_transparency(buf: Seq<u8>, chunks: Seq<Seq<u8>>)
    requires
        no_complete_frame(buf),
        spec_drain(buf + concat_chunks(chunks)).error is None,
    ensures
        feed_chunks(buf, chunks) == spec_drain(buf + concat_chunks(chunks)).frames,
    decreases chunks.len(),
{
    if chunks.len() == 0 {
        assert(buf + concat_chunks(chunks) =~= buf);
        assert(spec_drain(buf).frames =~= feed_chunks(buf, chunks));
    } else {
        let c0 = chunks.first();
        let restc = chunks.drop_first();
        let o1 = spec_drain(buf + c0);
        lemma_drain_extend(buf + c0, concat_chunks(restc));
        assert((buf + c0) + concat_chunks(restc) =~= buf + concat_chunks(chunks));
        lemma_drain_rest_incomplete(buf + c0);
        lemma_fragmentation_transparency(o1.rest, restc);
    }
}

/// Fragmentation transparency, stream form: split the concatenated
/// encodings of well-formed frames at any positions; feeding the pieces in
/// order decodes exactly those frames.
pub proof fn lemma_fragmentation_of_encoding_stream(fs: Seq<FrameModel>, chunks: Seq<Seq<u8>>)
    requires
        forall|i: int| 0 <= i < fs.len() ==> frame_wf(#[trigger] fs[i]),
        concat_chunks(chunks) == concat_encodings(fs),
    ensures
        feed_chunks(Seq::<u8>::empty(), chunks) == fs,
{
    lemma_drain_stream(fs);
    assert(Seq::<u8>::empty() + concat_chunks(chunks) =~= concat_encodings(fs));
    lemma_fragmentation_transparency(Seq::<u8>::empty(), chunks);
}

} // verus!
