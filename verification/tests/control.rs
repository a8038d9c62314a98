use opendisplay::frame_sender::FrameSendError;
use opendisplay::input::TouchPhase;
use opendisplay::ipc::IpcError;
use opendisplay::protocol::{encode_frame, take_frame, FrameError};
use opendisplay::protocol_session::{control_event, parse_control_message, ControlMessage, HandshakeError};
use opendisplay::session_state::SessionEvent;

fn text(s: &str) -> Option<String> {
    Some(s.to_string())
}

#[test]
fn sleeping_and_closing_raise_their_session_events() {
    let sleeping = parse_control_message(br#"{"type":"sleeping"}"#).unwrap();
    assert_eq!(sleeping, ControlMessage::Sleeping);
    assert_eq!(control_event(&sleeping), Some(SessionEvent::ReceivedSleeping));

    let closing = parse_control_message(br#"{"type":"closing"}"#).unwrap();
    assert_eq!(closing, ControlMessage::Closing);
    assert_eq!(control_event(&closing), Some(SessionEvent::ReceivedClosing));
}

#[test]
fn a_touch_keeps_its_phase_and_coordinate_texts() {
    let m = parse_control_message(br#"{"type":"touch","phase":"began","x":0.25,"y":1}"#).unwrap();
    assert_eq!(m, ControlMessage::Touch { phase: TouchPhase::Began, x: text("0.25"), y: text("1") });
    assert_eq!(control_event(&m), None);

    let moved = parse_control_message(br#"{"type":"touch","phase":"moved","x":0.5,"y":0.5}"#).unwrap();
    assert!(matches!(moved, ControlMessage::Touch { phase: TouchPhase::Moved, .. }));
    let ended = parse_control_message(br#"{"type":"touch","phase":"ended","x":0.5,"y":0.5}"#).unwrap();
    assert!(matches!(ended, ControlMessage::Touch { phase: TouchPhase::Ended, .. }));
}

#[test]
fn an_unknown_touch_phase_counts_as_cancelled() {
    let m = parse_control_message(br#"{"type":"touch","phase":"stationary","x":0.5,"y":0.5}"#).unwrap();
    assert!(matches!(m, ControlMessage::Touch { phase: TouchPhase::Cancelled, .. }));
}

#[test]
fn a_touch_without_a_phase_is_not_a_control_message() {
    assert_eq!(parse_control_message(br#"{"type":"touch","x":0.5,"y":0.5}"#), None);
}

#[test]
fn a_missing_or_non_numeric_coordinate_is_none() {
    let m = parse_control_message(br#"{"type":"scroll","dx":"left"}"#).unwrap();
    assert_eq!(m, ControlMessage::Scroll { dx: None, dy: None });
    let m = parse_control_message(br#"{"type":"scroll","dx":-3,"dy":12.5}"#).unwrap();
    assert_eq!(m, ControlMessage::Scroll { dx: text("-3"), dy: text("12.5") });
    assert_eq!(control_event(&m), None);
}

#[test]
fn pencil_proximity_and_unknown_types_are_accepted_and_ignored() {
    for payload in [&br#"{"type":"pencil","x":0.1}"#[..], br#"{"type":"proximity"}"#, br#"{"type":"stats"}"#] {
        let m = parse_control_message(payload).unwrap();
        assert_eq!(m, ControlMessage::Ignored);
        assert_eq!(control_event(&m), None);
    }
}

#[test]
fn a_payload_without_a_string_type_is_not_a_control_message() {
    assert_eq!(parse_control_message(b"not json"), None);
    assert_eq!(parse_control_message(br#"["closing"]"#), None);
    assert_eq!(parse_control_message(br#"{"type":3}"#), None);
    assert_eq!(parse_control_message(br#"{"kind":"closing"}"#), None);
}

#[test]
fn take_frame_removes_exactly_one_frame_and_keeps_the_rest() {
    let mut buf = encode_frame(br#"{"type":"closing"}"#).unwrap();
    buf.extend_from_slice(&encode_frame(b"xy").unwrap());
    buf.extend_from_slice(&[0, 0]);
    let first = take_frame(&mut buf).unwrap().unwrap();
    assert_eq!(first, br#"{"type":"closing"}"#.to_vec());
    assert_eq!(buf, vec![0, 0, 0, 2, b'x', b'y', 0, 0]);
    assert_eq!(take_frame(&mut buf).unwrap().unwrap(), b"xy".to_vec());
    assert_eq!(buf, vec![0, 0]);
    // Two bytes are not yet a header: nothing taken, nothing removed.
    assert_eq!(take_frame(&mut buf), Ok(None));
    assert_eq!(buf, vec![0, 0]);
}

#[test]
fn take_frame_waits_for_the_rest_of_a_frame() {
    let framed = encode_frame(b"hello").unwrap();
    let mut buf = framed[..6].to_vec();
    assert_eq!(take_frame(&mut buf), Ok(None));
    assert_eq!(buf, framed[..6].to_vec());
    buf.extend_from_slice(&framed[6..]);
    assert_eq!(take_frame(&mut buf), Ok(Some(b"hello".to_vec())));
    assert!(buf.is_empty());
}

#[test]
fn take_frame_reports_a_bad_header_and_keeps_the_bytes() {
    let mut buf = vec![0, 0, 0, 0, 1];
    assert_eq!(take_frame(&mut buf), Err(FrameError::PayloadEmpty));
    assert_eq!(buf, vec![0, 0, 0, 0, 1]);
    let mut buf = vec![0, 0x10, 0, 0];
    assert_eq!(take_frame(&mut buf), Err(FrameError::PayloadTooLarge { len: 1 << 20 }));
}

#[test]
fn framing_errors_describe_the_bound_they_violate() {
    assert_eq!(FrameError::PayloadEmpty.describe(), "frame payload must not be empty");
    assert_eq!(
        FrameError::PayloadTooLarge { len: 1_048_576 }.describe(),
        "frame payload of 1048576 bytes exceeds the 1048575-byte bound"
    );
}

#[test]
fn send_errors_describe_their_cause() {
    assert_eq!(
        FrameSendError::Oversized(FrameError::PayloadEmpty).describe(),
        "frame rejected before sending: frame payload must not be empty"
    );
    let io = FrameSendError::Io(std::io::Error::other("pipe closed"));
    assert_eq!(io.describe(), "frame send I/O error: pipe closed");
}

#[test]
fn handshake_errors_describe_what_went_wrong() {
    assert_eq!(
        HandshakeError::UnexpectedFirstMessage { got: "welcome".to_string() }.describe(),
        r#"expected "hello" as the first message, got "welcome""#
    );
    assert_eq!(
        HandshakeError::UnexpectedFirstMessage { got: "a\"b".to_string() }.describe(),
        r#"expected "hello" as the first message, got "a\"b""#
    );
    assert_eq!(
        HandshakeError::PeerBelowMinSupported { peer_pv: 0 }.describe(),
        "peer pv 0 is below the sender's minimum supported peer"
    );
    assert_eq!(
        HandshakeError::Frame(FrameError::PayloadTooLarge { len: 2_000_000 }).describe(),
        "handshake framing error: frame payload of 2000000 bytes exceeds the 1048575-byte bound"
    );
    assert_eq!(HandshakeError::Io(std::io::Error::other("reset")).describe(), "handshake I/O error: reset");
    assert!(HandshakeError::MalformedHello.describe().starts_with("malformed hello: "));
}

#[test]
fn ipc_errors_describe_why_the_line_was_refused() {
    assert_eq!(IpcError::MalformedJson.describe(), "malformed IPC message: the line is not JSON");
    assert_eq!(
        IpcError::UnexpectedShape.describe(),
        "malformed IPC message: the JSON is not the shape of the expected message"
    );
}
