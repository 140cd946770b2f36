use tubez::frame::{AbortReason, Frame};
use tubez::decoder::{Decoder, FrameDecodeError, FrameParseError};
use tubez::encoder::{
    encode_abort_frame, encode_client_has_finished_sending_frame, encode_drain_frame,
    encode_newtube_frame, encode_payload_ack_frame, encode_payload_frame,
    encode_server_has_finished_sending_frame, FrameEncodeError,
};

fn headers(pairs: &[(&str, &str)]) -> Vec<(String, String)> {
    pairs.iter().map(|(k, v)| (k.to_string(), v.to_string())).collect()
}

#[test]
fn mod_clienthasfinishedsending_frame_encodes_and_decodes() {
    let tube_id = 65000;
    let encoded_bytes = encode_client_has_finished_sending_frame(tube_id).unwrap();

    let mut decoder = Decoder::new();
    let frames = decoder.decode(encoded_bytes).unwrap();
    assert_eq!(frames.len(), 1);
    assert_eq!(frames[0], Frame::ClientHasFinishedSending { tube_id });
}

#[test]
fn mod_drain_frame_encodes_and_decodes() {
    let encoded_bytes = encode_drain_frame().unwrap();

    let mut decoder = Decoder::new();
    let frames = decoder.decode(encoded_bytes).unwrap();
    assert_eq!(frames.len(), 1);
    assert_eq!(frames[0], Frame::Drain);
}

#[test]
fn establishtube_frame_encodes_and_decodes() {
    let tube_id = 65000;
    let encoded_headers = headers(&[("header1", "value1"), ("header2", "value2")]);
    let expected_headers = encoded_headers.clone();

    let encoded_bytes = encode_newtube_frame(tube_id, encoded_headers).unwrap();

    let mut decoder = Decoder::new();
    let frames = decoder.decode(encoded_bytes).unwrap();
    assert_eq!(frames.len(), 1);
    assert_eq!(frames[0], Frame::NewTube { tube_id, headers: expected_headers });
}

#[test]
fn mod_payload_frame_with_ack_encodes_and_decodes() {
    let tube_id = 65000;
    let ack_id = 32000;
    let data = vec![0, 1, 42, 255];
    let expected_data = data.clone();

    let encoded_bytes = encode_payload_frame(tube_id, Some(ack_id), data).unwrap();

    let mut decoder = Decoder::new();
    let frames = decoder.decode(encoded_bytes).unwrap();
    assert_eq!(frames.len(), 1);
    assert_eq!(frames[0], Frame::Payload { tube_id, ack_id: Some(ack_id), data: expected_data });
}

#[test]
fn mod_payload_frame_without_ack_encodes_and_decodes() {
    let tube_id = 65000;
    let data = vec![0, 1, 42, 255];
    let expected_data = data.clone();

    let encoded_bytes = encode_payload_frame(tube_id, None, data).unwrap();

    let mut decoder = Decoder::new();
    let frames = decoder.decode(encoded_bytes).unwrap();
    assert_eq!(frames.len(), 1);
    assert_eq!(frames[0], Frame::Payload { tube_id, ack_id: None, data: expected_data });
}

#[test]
fn mod_payload_ack_frame_encodes_and_decodes() {
    let tube_id = 65000;
    let ack_id: u16 = 32000;

    let encoded_bytes = encode_payload_ack_frame(tube_id, ack_id).unwrap();

    let mut decoder = Decoder::new();
    let frames = decoder.decode(encoded_bytes).unwrap();
    assert_eq!(frames.len(), 1);
    assert_eq!(frames[0], Frame::PayloadAck { tube_id, ack_id });
}

#[test]
fn mod_serverhasfinishedsending_frame_encodes_and_decodes() {
    let tube_id = 65000;
    let encoded_bytes = encode_server_has_finished_sending_frame(tube_id).unwrap();

    let mut decoder = Decoder::new();
    let frames = decoder.decode(encoded_bytes).unwrap();
    assert_eq!(frames.len(), 1);
    assert_eq!(frames[0], Frame::ServerHasFinishedSending { tube_id });
}

#[test]
fn abort_frame_encodes_and_decodes() {
    let tube_id = 7;
    let encoded_bytes = encode_abort_frame(tube_id, AbortReason::ApplicationError).unwrap();
    assert_eq!(encoded_bytes, vec![0x6, 0, 3, 0, 7, 0x01]);

    let mut decoder = Decoder::new();
    let frames = decoder.decode(encoded_bytes).unwrap();
    assert_eq!(frames.len(), 1);
    assert_eq!(frames[0], Frame::Abort { tube_id, reason: AbortReason::ApplicationError });
}

#[test]
fn abort_frame_with_unassigned_reason_byte_decodes_to_unknown() {
    let data = vec![0x6, 0, 3, 0, 9, 0x77];
    let mut decoder = Decoder::new();
    let frames = decoder.decode(data).unwrap();
    assert_eq!(frames.len(), 1);
    assert_eq!(frames[0], Frame::Abort { tube_id: 9, reason: AbortReason::Unknown });
}

#[test]
fn payload_frame_with_largest_ack_id_encodes_and_decodes() {
    let encoded_bytes = encode_payload_frame(1, Some(0x7FFF), vec![9]).unwrap();
    let mut decoder = Decoder::new();
    let frames = decoder.decode(encoded_bytes).unwrap();
    assert_eq!(frames.len(), 1);
    assert_eq!(frames[0], Frame::Payload { tube_id: 1, ack_id: Some(0x7FFF), data: vec![9] });
}

#[test]
fn decoder_empty_data_yields_empty_vec() {
    let mut decoder = Decoder::new();
    let data = vec![];
    let decoded_frames = decoder.decode(data).unwrap();
    assert_eq!(decoded_frames.len(), 0);
}

#[test]
fn decoder_partial_data_yields_empty_vec_until_rest_of_data_provided() {
    let mut decoder = Decoder::new();
    let mut data = encode_client_has_finished_sending_frame(43).unwrap();

    let final_byte = data.pop().unwrap();
    let decoded_frames = &decoder.decode(data).unwrap();
    assert_eq!(decoded_frames.len(), 0);

    let decoded_frames = &decoder.decode(vec![final_byte]).unwrap();
    assert_eq!(decoded_frames.len(), 1);
    assert_eq!(decoded_frames[0], Frame::ClientHasFinishedSending { tube_id: 43 });
}

#[test]
fn decoder_data_for_two_full_frames_yield_two_frames() {
    let mut decoder = Decoder::new();

    let mut data = encode_client_has_finished_sending_frame(43).unwrap();
    data.append(&mut encode_server_has_finished_sending_frame(42).unwrap());

    let decoded_frames = &decoder.decode(data).unwrap();
    assert_eq!(decoded_frames.len(), 2);
    assert_eq!(decoded_frames[0], Frame::ClientHasFinishedSending { tube_id: 43 });
    assert_eq!(decoded_frames[1], Frame::ServerHasFinishedSending { tube_id: 42 });
}

#[test]
fn decoder_full_frame_plus_partial_frame_yields_single_frame_until_rest_of_second_frame_provided()
{
    let mut decoder = Decoder::new();

    let mut data = encode_client_has_finished_sending_frame(43).unwrap();
    data.append(&mut encode_server_has_finished_sending_frame(42).unwrap());
    let final_byte = data.pop().unwrap();

    let decoded_frames = &decoder.decode(data).unwrap();
    assert_eq!(decoded_frames.len(), 1);
    assert_eq!(decoded_frames[0], Frame::ClientHasFinishedSending { tube_id: 43 });

    let decoded_frames = &decoder.decode(vec![final_byte]).unwrap();
    assert_eq!(decoded_frames.len(), 1);
    assert_eq!(decoded_frames[0], Frame::ServerHasFinishedSending { tube_id: 42 });
}

#[test]
fn mod_empty_data_yields_empty_vec() {
    let mut decoder = Decoder::new();
    let data = vec![];
    let decoded_frames = decoder.decode(data).unwrap();
    assert_eq!(decoded_frames.len(), 0);
}

#[test]
fn mod_partial_data_yields_empty_vec_until_rest_of_data_provided() {
    let mut decoder = Decoder::new();
    let mut data = encode_client_has_finished_sending_frame(43).unwrap();

    let final_byte = data.pop().unwrap();
    let decoded_frames = &decoder.decode(data).unwrap();
    assert_eq!(decoded_frames.len(), 0);

    let decoded_frames = &decoder.decode(vec![final_byte]).unwrap();
    assert_eq!(decoded_frames.len(), 1);
    assert_eq!(decoded_frames[0], Frame::ClientHasFinishedSending { tube_id: 43 });
}

#[test]
fn mod_data_for_two_full_frames_yield_two_frames() {
    let mut decoder = Decoder::new();

    let mut data = encode_client_has_finished_sending_frame(43).unwrap();
    data.append(&mut encode_server_has_finished_sending_frame(42).unwrap());

    let decoded_frames = &decoder.decode(data).unwrap();
    assert_eq!(decoded_frames.len(), 2);
    assert_eq!(decoded_frames[0], Frame::ClientHasFinishedSending { tube_id: 43 });
    assert_eq!(decoded_frames[1], Frame::ServerHasFinishedSending { tube_id: 42 });
}

#[test]
fn mod_full_frame_plus_partial_frame_yields_single_frame_until_rest_of_second_frame_provided() {
    let mut decoder = Decoder::new();

    let mut data = encode_client_has_finished_sending_frame(43).unwrap();
    data.append(&mut encode_server_has_finished_sending_frame(42).unwrap());
    let final_byte = data.pop().unwrap();

    let decoded_frames = &decoder.decode(data).unwrap();
    assert_eq!(decoded_frames.len(), 1);
    assert_eq!(decoded_frames[0], Frame::ClientHasFinishedSending { tube_id: 43 });

    let decoded_frames = &decoder.decode(vec![final_byte]).unwrap();
    assert_eq!(decoded_frames.len(), 1);
    assert_eq!(decoded_frames[0], Frame::ServerHasFinishedSending { tube_id: 42 });
}

#[test]
fn errors_if_invalid_utf8_passed_for_newtube_headers() {
    let mut decoder = Decoder::new();

    let hs = headers(&[("header1", "value1"), ("header2", "value2")]);
    let mut data = encode_newtube_frame(42, hs).unwrap();

    // Tweak encoded data to insert an invalid utf8 byte into the encoded
    // headers region of the frame.
    data.pop();
    data.push(159);

    match decoder.decode(data) {
        Ok(_frames) => panic!("decoded a NewTube frame that contains invalid utf8"),
        Err(FrameDecodeError {
            parse_error: FrameParseError::HeaderUtf8Error { valid_up_to },
            ..
        }) => assert_eq!(valid_up_to, 38),
        Err(err) => panic!("unexpected error value: {:?}", err),
    };
}

#[test]
fn errors_if_invalid_json_passed_for_newtube_headers() {
    let mut decoder = Decoder::new();

    let correct_data = encode_newtube_frame(42, vec![]).unwrap();

    // Keep the frame header and tube id, but replace the headers region
    // with bytes that are not valid JSON.
    let mut bad_data = vec![
        correct_data[0],
        correct_data[1],
        correct_data[2],
        correct_data[3],
        correct_data[4],
    ];
    let mut invalid_json_bytes = "{]".to_string().into_bytes();
    bad_data.append(&mut invalid_json_bytes);

    match decoder.decode(bad_data) {
        Ok(_frames) => panic!("decoded a NewTube frame with invalid json headers"),
        Err(FrameDecodeError { parse_error: FrameParseError::HeaderJsonDecodeError, .. }) => (),
        Err(err) => panic!("unexpected error value: {:?}", err),
    };
}

#[test]
fn decoder_errors_if_frametype_value_is_unknown() {
    let mut decoder = Decoder::new();

    let mut data = encode_client_has_finished_sending_frame(43).unwrap();

    // Tweak encoded data to use an invalid FrameType value
    data[0] = 255;

    match decoder.decode(data) {
        Ok(_frames) => panic!("decoded a frame with an invalid FrameType"),
        Err(FrameDecodeError {
            parse_error: FrameParseError::UnknownFrameType(frametype_value),
            num_frames_parsed_successfully,
        }) => {
            assert_eq!(frametype_value, 255);
            assert_eq!(num_frames_parsed_successfully, 0);
        },
        Err(err) => panic!("unexpected error value: {:?}", err),
    };
}

#[test]
fn decoder_errors_on_truncated_body() {
    // A ClientHasFinishedSending frame whose announced body is too short
    // to hold a tube id.
    let data = vec![0x0, 0, 0];
    let mut decoder = Decoder::new();
    match decoder.decode(data) {
        Ok(_frames) => panic!("decoded a frame whose body is too short"),
        Err(FrameDecodeError {
            parse_error: FrameParseError::InternalByteOffsetLogicError(_),
            ..
        }) => (),
        Err(err) => panic!("unexpected error value: {:?}", err),
    };
}

#[test]
fn errors_on_oversized_data() {
    let mut data: Vec<u8> = Vec::with_capacity(66000);
    let mut value: u8 = 0;
    for _i in 0..66000 {
        data.push(value);
        if value == 255 {
            value = 0;
        } else {
            value += 1;
        }
    }

    match encode_payload_frame(42, Some(42), data) {
        Err(FrameEncodeError::DataTooLarge(size)) => assert_eq!(size, 66000),
        Err(err) => panic!("wrong error for oversized data: {:?}", err),
        Ok(_) => panic!("no error for oversized data"),
    }
}

#[test]
fn encoder_errors_on_oversized_ackid() {
    match encode_payload_frame(42, Some(65000), vec![]) {
        Err(FrameEncodeError::AckIdTooLarge(size)) => assert_eq!(size, 65000),
        Err(err) => panic!("wrong error for oversized ack_id: {:?}", err),
        Ok(_) => panic!("no error for oversized ack_id"),
    }
}

#[test]
fn payload_ack_encoder_errors_on_oversized_ackid() {
    match encode_payload_ack_frame(42, 65000) {
        Err(FrameEncodeError::AckIdTooLarge(size)) => assert_eq!(size, 65000),
        Err(err) => panic!("wrong error for oversized ack_id: {:?}", err),
        Ok(_) => panic!("no error for oversized ack_id"),
    }
}

#[test]
fn fragmentation_is_transparent_at_every_split() {
    // One stream of three frames, split at every possible position into
    // two feeds: the decoded frame sequence never changes.
    let mut stream = encode_payload_frame(5, Some(77), vec![1, 2, 3]).unwrap();
    stream.append(&mut encode_drain_frame().unwrap());
    stream.append(&mut encode_abort_frame(6, AbortReason::ApplicationAbort).unwrap());

    let mut whole = Decoder::new();
    let expected: Vec<Frame> = whole.decode(stream.clone()).unwrap().into_iter().collect();
    assert_eq!(expected.len(), 3);

    for split in 0..=stream.len() {
        let mut decoder = Decoder::new();
        let mut got: Vec<Frame> = Vec::new();
        let first = stream[..split].to_vec();
        let second = stream[split..].to_vec();
        got.extend(decoder.decode(first).unwrap());
        got.extend(decoder.decode(second).unwrap());
        assert_eq!(got, expected, "split at {} changed the decoded frames", split);
    }
}

#[test]
fn newtube_frame_with_empty_headers_encodes_and_decodes() {
    let encoded_bytes = encode_newtube_frame(9, vec![]).unwrap();
    let mut decoder = Decoder::new();
    let frames = decoder.decode(encoded_bytes).unwrap();
    assert_eq!(frames.len(), 1);
    assert_eq!(frames[0], Frame::NewTube { tube_id: 9, headers: vec![] });
}

#[test]
fn newtube_frame_with_oversized_headers_is_rejected() {
    let big_value: String = std::iter::repeat('x').take(70000).collect();
    let hs = vec![("key".to_string(), big_value)];
    match encode_newtube_frame(9, hs) {
        Err(FrameEncodeError::DataTooLarge(n)) => assert!(n > 65533),
        Err(err) => panic!("wrong error for oversized headers: {:?}", err),
        Ok(_) => panic!("no error for oversized headers"),
    }
}
