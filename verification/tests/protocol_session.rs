use opendisplay::protocol::{decode_frame, encode_frame, ASSUMED_WHEN_ABSENT, MIN_SUPPORTED_PEER, WIRE_PROTOCOL_VERSION};
use opendisplay::protocol_session::{build_ping_message, handshake, read_hello, HandshakeError, MemoryStream};
use opendisplay::stream::{ByteRead, ByteWrite, Recorded};

fn hello_frame(json: &str) -> Vec<u8> {
    encode_frame(json.as_bytes()).unwrap()
}

fn decode_all_frames(mut buf: &[u8]) -> Vec<serde_json::Value> {
    let mut out = Vec::new();
    while let Ok(Some(frame)) = decode_frame(buf) {
        out.push(serde_json::from_slice(frame.payload).unwrap());
        buf = &buf[frame.consumed..];
    }
    out
}

fn scale_value(text: &str) -> f32 {
    text.parse::<f32>().unwrap()
}

#[test]
fn successful_handshake_yields_session_with_negotiated_pv_and_panel_dimensions() {
    let hello = hello_frame(
        r#"{"type":"hello","pixelsWide":1668,"pixelsHigh":2388,"scale":2.0,"device":"iPad","id":"00008030-ABC","pv":3}"#,
    );
    let mut stream = MemoryStream::with_incoming(hello);

    let session = handshake(&mut stream).expect("compatible peer completes the handshake");

    assert_eq!(session.peer_pv, 3);
    assert_eq!(session.negotiated_pv, 3.min(WIRE_PROTOCOL_VERSION));
    assert_eq!(session.panel.pixels_wide, 1668);
    assert_eq!(session.panel.pixels_high, 2388);
    assert_eq!(scale_value(&session.panel.scale), 2.0);
    assert_eq!(session.panel.device, Some("iPad".to_string()));
    assert_eq!(session.panel.id, Some("00008030-ABC".to_string()));
}

#[test]
fn hello_with_absent_pv_defaults_to_assumed_when_absent() {
    let hello = hello_frame(r#"{"type":"hello","pixelsWide":750,"pixelsHigh":1334,"scale":2.0}"#);
    let mut stream = MemoryStream::with_incoming(hello);

    let session = handshake(&mut stream).expect("pre-pv-2 peer still completes the handshake");

    assert_eq!(session.peer_pv, ASSUMED_WHEN_ABSENT);
}

#[test]
fn successful_handshake_writes_a_welcome_frame_with_this_senders_pv_and_min() {
    let hello = hello_frame(r#"{"type":"hello","pixelsWide":1668,"pixelsHigh":2388,"scale":2.0,"pv":3}"#);
    let mut stream = MemoryStream::with_incoming(hello);

    handshake(&mut stream).expect("compatible peer completes the handshake");

    let frames = decode_all_frames(stream.outgoing());
    assert_eq!(frames.len(), 1, "only welcome, no updateRequired, for a compatible peer");
    assert_eq!(frames[0]["type"], "welcome");
    assert_eq!(frames[0]["pv"], WIRE_PROTOCOL_VERSION);
    assert_eq!(frames[0]["min"], MIN_SUPPORTED_PEER);
}

#[test]
fn peer_below_min_supported_peer_receives_update_required_and_session_ends_without_streaming() {
    let hello = hello_frame(r#"{"type":"hello","pixelsWide":750,"pixelsHigh":1334,"scale":2.0,"pv":0}"#);
    let mut stream = MemoryStream::with_incoming(hello);

    let result = handshake(&mut stream);

    match result {
        Err(HandshakeError::PeerBelowMinSupported { peer_pv }) => assert_eq!(peer_pv, 0),
        other => panic!("expected PeerBelowMinSupported, got {other:?}"),
    }

    let frames = decode_all_frames(stream.outgoing());
    assert_eq!(frames.len(), 2, "welcome, then updateRequired");
    assert_eq!(frames[0]["type"], "welcome");
    assert_eq!(frames[1]["type"], "updateRequired");
    assert_eq!(frames[1]["target"], "ios");
}

#[test]
fn build_ping_message_produces_the_ping_wire_type() {
    let bytes = build_ping_message();
    let value: serde_json::Value = serde_json::from_slice(&bytes).unwrap();
    assert_eq!(value["type"], "ping");
}

#[test]
fn the_welcome_and_ping_payloads_are_compact_json() {
    let hello = hello_frame(r#"{"type":"hello","pixelsWide":1,"pixelsHigh":1,"scale":1}"#);
    let mut stream = MemoryStream::with_incoming(hello);
    handshake(&mut stream).unwrap();
    let out = stream.outgoing();
    let frame = decode_frame(out).unwrap().unwrap();
    assert_eq!(frame.payload, br#"{"type":"welcome","pv":3,"min":1}"#);
    assert_eq!(build_ping_message(), br#"{"type":"ping"}"#.to_vec());
}

#[test]
fn a_first_message_that_is_not_hello_is_refused_without_a_reply() {
    let mut stream = MemoryStream::with_incoming(hello_frame(r#"{"type":"ping","pixelsWide":1,"pixelsHigh":1,"scale":1}"#));
    match handshake(&mut stream) {
        Err(HandshakeError::UnexpectedFirstMessage { got }) => assert_eq!(got, "ping"),
        other => panic!("expected UnexpectedFirstMessage, got {other:?}"),
    }
    assert!(stream.outgoing().is_empty());
}

#[test]
fn a_hello_missing_a_required_field_or_not_json_is_malformed() {
    let mut stream = MemoryStream::with_incoming(hello_frame(r#"{"type":"hello","pixelsWide":1,"scale":1}"#));
    assert!(matches!(handshake(&mut stream), Err(HandshakeError::MalformedHello)));
    assert!(stream.outgoing().is_empty());

    let mut stream = MemoryStream::with_incoming(hello_frame("not json"));
    assert!(matches!(handshake(&mut stream), Err(HandshakeError::MalformedHello)));

    let mut stream = MemoryStream::with_incoming(hello_frame(r#"{"type":"hello","pixelsWide":1.5,"pixelsHigh":1,"scale":1}"#));
    assert!(matches!(handshake(&mut stream), Err(HandshakeError::MalformedHello)));
}

#[test]
fn a_connection_closed_before_a_full_frame_is_an_io_error() {
    let mut partial = hello_frame(r#"{"type":"hello","pixelsWide":1,"pixelsHigh":1,"scale":1}"#);
    partial.truncate(10);
    let mut stream = MemoryStream::with_incoming(partial);
    match handshake(&mut stream) {
        Err(HandshakeError::Io(e)) => assert_eq!(e.kind(), std::io::ErrorKind::UnexpectedEof),
        other => panic!("expected an I/O error, got {other:?}"),
    }
    assert!(stream.outgoing().is_empty());
}

#[test]
fn an_oversized_hello_header_is_a_framing_error() {
    let mut stream = MemoryStream::with_incoming(vec![0x00, 0x10, 0x00, 0x00, b'{']);
    assert!(matches!(handshake(&mut stream), Err(HandshakeError::Frame(_))));
}

#[test]
fn a_hello_may_be_written_as_an_array_of_its_fields() {
    let hello = read_hello(br#"["hello",10,20,3.0,null,"X",2]"#).unwrap();
    assert_eq!(hello.msg_type, "hello");
    assert_eq!((hello.pixels_wide, hello.pixels_high), (10, 20));
    assert_eq!(hello.device, None);
    assert_eq!(hello.id, Some("X".to_string()));
    assert_eq!(hello.pv, Some(2));
    assert!(matches!(read_hello(br#"["hello",10,20,3.0]"#), Err(HandshakeError::MalformedHello)));
}

#[test]
fn the_negotiated_version_is_the_lower_of_the_two() {
    let hello = hello_frame(r#"{"type":"hello","pixelsWide":1,"pixelsHigh":1,"scale":1,"pv":9}"#);
    let mut stream = MemoryStream::with_incoming(hello);
    let session = handshake(&mut stream).unwrap();
    assert_eq!(session.peer_pv, 9);
    assert_eq!(session.negotiated_pv, WIRE_PROTOCOL_VERSION);
}

struct BrokenStream;

impl ByteRead for BrokenStream {
    fn read_some(&mut self, _max: usize) -> std::io::Result<Vec<u8>> {
        Err(std::io::Error::new(std::io::ErrorKind::ConnectionReset, "reset"))
    }
}

impl ByteWrite for BrokenStream {
    fn write_all(&mut self, _bytes: &[u8]) -> std::io::Result<()> {
        Ok(())
    }
}

#[test]
fn a_connection_that_fails_to_read_ends_the_handshake_with_its_error() {
    let mut stream = Recorded::new(BrokenStream);
    match handshake(&mut stream) {
        Err(HandshakeError::Io(e)) => assert_eq!(e.kind(), std::io::ErrorKind::ConnectionReset),
        other => panic!("expected an I/O error, got {other:?}"),
    }
}

/// Hands out its bytes a few at a time, like a socket.
struct Trickle(Vec<u8>, Vec<u8>);

impl ByteRead for Trickle {
    fn read_some(&mut self, max: usize) -> std::io::Result<Vec<u8>> {
        let n = self.0.len().min(max).min(3);
        Ok(self.0.drain(..n).collect())
    }
}

impl ByteWrite for Trickle {
    fn write_all(&mut self, bytes: &[u8]) -> std::io::Result<()> {
        self.1.extend_from_slice(bytes);
        Ok(())
    }
}

#[test]
fn a_hello_arriving_in_pieces_completes_the_handshake() {
    let hello = hello_frame(r#"{"type":"hello","pixelsWide":8,"pixelsHigh":6,"scale":1.5,"pv":2}"#);
    let mut stream = Recorded::new(Trickle(hello, Vec::new()));
    let session = handshake(&mut stream).unwrap();
    assert_eq!((session.panel.pixels_wide, session.panel.pixels_high), (8, 6));
    assert_eq!(session.negotiated_pv, 2);
    let written = stream.into_inner().1;
    assert_eq!(decode_all_frames(&written).len(), 1);
}
