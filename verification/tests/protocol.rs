use opendisplay::protocol::wire_message;
use opendisplay::protocol::{
    decode_frame, encode_frame, FrameError, ASSUMED_WHEN_ABSENT, MAX_PAYLOAD_LEN, MIN_SUPPORTED_PEER,
    PENCIL_WIRE_VERSION, WIRE_PROTOCOL_VERSION,
};

#[test]
fn wire_protocol_version_matches_shared_protocol_swift() {
    assert_eq!(WIRE_PROTOCOL_VERSION, 3);
}

#[test]
fn pencil_wire_version_matches_shared_protocol_swift() {
    assert_eq!(PENCIL_WIRE_VERSION, 3);
}

#[test]
fn min_supported_peer_matches_shared_protocol_swift() {
    assert_eq!(MIN_SUPPORTED_PEER, 1);
}

#[test]
fn assumed_when_absent_matches_shared_protocol_swift() {
    assert_eq!(ASSUMED_WHEN_ABSENT, 1);
}

#[test]
fn wire_message_strings_match_shared_protocol_swift() {
    assert_eq!(wire_message::WELCOME, "welcome");
    assert_eq!(wire_message::UPDATE_REQUIRED, "updateRequired");
    assert_eq!(wire_message::SLEEPING, "sleeping");
    assert_eq!(wire_message::CLOSING, "closing");
}

#[test]
fn touch_and_scroll_wire_strings_match_protocol_md() {
    assert_eq!(wire_message::TOUCH, "touch");
    assert_eq!(wire_message::SCROLL, "scroll");
}

#[test]
fn ping_wire_string_matches_protocol_md() {
    assert_eq!(wire_message::PING, "ping");
}

#[test]
fn pencil_and_proximity_wire_strings_match_protocol_md() {
    assert_eq!(wire_message::PENCIL, "pencil");
    assert_eq!(wire_message::PROXIMITY, "proximity");
}

#[test]
fn encode_decode_round_trips_a_payload() {
    let payload = b"{\"type\":\"hello\"}";
    let framed = encode_frame(payload).expect("valid payload encodes");

    assert_eq!(&framed[0..4], &(payload.len() as u32).to_be_bytes());

    let decoded = decode_frame(&framed).expect("valid frame decodes").expect("frame is complete");
    assert_eq!(decoded.payload, payload);
    assert_eq!(decoded.consumed, framed.len());
}

#[test]
fn decode_returns_none_when_buffer_has_incomplete_header() {
    let buf = [0u8, 0, 0];
    assert_eq!(decode_frame(&buf), Ok(None));
}

#[test]
fn decode_returns_none_when_payload_not_fully_arrived_yet() {
    let payload = b"hello world";
    let framed = encode_frame(payload).expect("valid payload encodes");
    let partial = &framed[..framed.len() - 3];
    assert_eq!(decode_frame(partial), Ok(None));
}

#[test]
fn decode_stops_at_the_first_frame_when_two_are_packed_together() {
    let first = encode_frame(b"first").unwrap();
    let second = encode_frame(b"second").unwrap();
    let mut both = first.clone();
    both.extend_from_slice(&second);

    let decoded = decode_frame(&both).unwrap().unwrap();
    assert_eq!(decoded.payload, b"first");
    assert_eq!(decoded.consumed, first.len());
}

#[test]
fn encode_rejects_a_payload_of_2_pow_20_bytes_or_larger() {
    let oversized = vec![0u8; 1 << 20];
    assert_eq!(encode_frame(&oversized), Err(FrameError::PayloadTooLarge { len: 1 << 20 }));
}

#[test]
fn encode_accepts_the_largest_valid_payload_of_2_pow_20_minus_1_bytes() {
    let max_valid = vec![0u8; MAX_PAYLOAD_LEN];
    assert!(encode_frame(&max_valid).is_ok());
}

#[test]
fn encode_rejects_an_empty_payload() {
    assert_eq!(encode_frame(&[]), Err(FrameError::PayloadEmpty));
}

#[test]
fn decode_rejects_a_header_declaring_a_length_of_2_pow_20_or_larger() {
    let mut buf = ((1u32 << 20).to_be_bytes()).to_vec();
    buf.extend_from_slice(&[0u8; 8]);
    assert_eq!(decode_frame(&buf), Err(FrameError::PayloadTooLarge { len: 1 << 20 }));
}

#[test]
fn a_frame_header_encodes_the_length_big_endian() {
    let payload = vec![7u8; 0x012345];
    let framed = encode_frame(&payload).unwrap();
    assert_eq!(&framed[0..4], &[0x00, 0x01, 0x23, 0x45]);
    assert_eq!(framed.len(), 4 + 0x012345);
}

#[test]
fn every_strict_prefix_of_a_frame_decodes_to_not_yet() {
    let framed = encode_frame(b"abc").unwrap();
    for k in 0..framed.len() {
        assert_eq!(decode_frame(&framed[..k]), Ok(None));
    }
}

#[test]
fn a_header_declaring_length_zero_is_rejected_as_empty() {
    assert_eq!(decode_frame(&[0, 0, 0, 0, 9]), Err(FrameError::PayloadEmpty));
}
