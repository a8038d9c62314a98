//! The `hello`/`welcome` handshake.
//!
//! This sender waits for the receiver's `hello` (the first message on every
//! new connection), replies with `welcome`, and, when the peer's `pv` is
//! below [`MIN_SUPPORTED_PEER`], also sends `updateRequired` and refuses to
//! stream.
//!
//! Generic over [`Connection`] rather than tied to a socket, so the
//! handshake runs against an in-memory [`MemoryStream`] as well as a live
//! connection.

use vstd::prelude::*;
use crate::ipc::{dec_number_text, dec_opt_string, dec_string, dec_u32, opt_str_view, struct_field};
use crate::ipc::{dec_number_text_of, dec_opt_string_of, dec_string_of, dec_u32_of, struct_field_of};
use crate::json::{decimal_text, json_bytes_parse, json_bytes_render, parse_json_bytes, render_json_bytes, spec_field, Json, JsonValue};
use crate::protocol::{
    decode_frame, encode_frame, frame_bytes, frame_error_text, spec_decode_frame, spec_encode_frame, FrameError, ASSUMED_WHEN_ABSENT,
    MAX_PAYLOAD_LEN, MIN_SUPPORTED_PEER, WIRE_PROTOCOL_VERSION,
};
use crate::protocol::wire_message::{CLOSING, PING, SCROLL, SLEEPING, TOUCH, UPDATE_REQUIRED, WELCOME};
use crate::input::TouchPhase;
use crate::session_state::SessionEvent;
use crate::text::{concat, debug_quoted, str_debug_text, str_equal};
use crate::io_error::io_error_text;

verus! {

/// A two-way byte connection: what has been read from it and what has been
/// written to it so far.
pub trait Connection {
    /// Every byte read from the connection so far, in order.
    spec fn consumed(&self) -> Seq<u8>;

    /// Every byte written to the connection so far, in order.
    spec fn written(&self) -> Seq<u8>;

    /// How many reads and writes have failed so far.
    spec fn failures(&self) -> nat;

    /// Whether a read has reported that the peer closed the connection.
    spec fn closed_seen(&self) -> bool;

    /// Reads whatever is available, at most `max` bytes. An empty result
    /// means the peer closed the connection. On an error nothing was read,
    /// and the error is counted.
    fn read_some(&mut self, max: usize) -> (r: Result<Vec<u8>, std::io::Error>)
        requires
            max > 0,
        ensures
            final(self).written() == old(self).written(),
            match r {
                Ok(bytes) => {
                    &&& bytes@.len() <= max
                    &&& final(self).consumed() == old(self).consumed() + bytes@
                    &&& final(self).failures() == old(self).failures()
                    &&& final(self).closed_seen() == (old(self).closed_seen() || bytes@.len() == 0)
                },
                Err(_) => {
                    &&& final(self).consumed() == old(self).consumed()
                    &&& final(self).failures() > old(self).failures()
                    &&& final(self).closed_seen() == old(self).closed_seen()
                },
            },
    ;

    /// Writes all of `bytes`. On success the connection's output grows by
    /// exactly `bytes`; on an error, which is counted, some prefix of them
    /// may have been written.
    fn write_all(&mut self, bytes: &[u8]) -> (r: Result<(), std::io::Error>)
        ensures
            final(self).consumed() == old(self).consumed(),
            r is Ok ==> final(self).written() == old(self).written() + bytes@,
            r is Ok ==> final(self).failures() == old(self).failures(),
            r is Err ==> final(self).failures() > old(self).failures(),
            final(self).closed_seen() == old(self).closed_seen(),
            old(self).written().is_prefix_of(final(self).written()),
            final(self).written().skip(old(self).written().len() as int).is_prefix_of(bytes@),
    ;
}

/// A connection over memory: reads come from a fixed buffer of incoming
/// bytes, writes collect in an outgoing buffer.
pub struct MemoryStream {
    incoming: Vec<u8>,
    position: usize,
    outgoing: Vec<u8>,
    end_reported: Ghost<bool>,
}

impl MemoryStream {
    /// The bytes the stream was created with.
    pub closed spec fn incoming(&self) -> Seq<u8> {
        self.incoming@
    }

    /// A stream whose reads yield `incoming`, then end.
    pub fn with_incoming(incoming: Vec<u8>) -> (s: Self)
        ensures
            s.incoming() == incoming@,
            s.consumed() == Seq::<u8>::empty(),
            s.written() == Seq::<u8>::empty(),
            !s.closed_seen(),
    {
        let s = MemoryStream { incoming, position: 0, outgoing: Vec::new(), end_reported: Ghost(false) };
        assert(s.incoming@.take(0) =~= Seq::<u8>::empty());
        s
    }

    /// Everything written to the stream so far.
    pub fn outgoing(&self) -> (out: &Vec<u8>)
        ensures
            out@ == self.written(),
    {
        &self.outgoing
    }
}

impl Connection for MemoryStream {
    closed spec fn consumed(&self) -> Seq<u8> {
        if self.position <= self.incoming@.len() {
            self.incoming@.take(self.position as int)
        } else {
            self.incoming@
        }
    }

    closed spec fn written(&self) -> Seq<u8> {
        self.outgoing@
    }

    /// A memory stream never fails.
    closed spec fn failures(&self) -> nat {
        0
    }

    closed spec fn closed_seen(&self) -> bool {
        self.end_reported@
    }

    /// Never fails: yields the next unread incoming bytes, as many as `max`
    /// allows, and none once all of them have been read.
    fn read_some(&mut self, max: usize) -> (r: Result<Vec<u8>, std::io::Error>)
        ensures
            final(self).incoming() == old(self).incoming(),
            r matches Ok(bytes) && bytes@ == old(self).incoming().subrange(
                old(self).consumed().len() as int,
                if old(self).consumed().len() + max <= old(self).incoming().len() {
                    old(self).consumed().len() + max
                } else {
                    old(self).incoming().len() as int
                },
            ),
    {
        let mut bytes: Vec<u8> = Vec::new();
        if self.position >= self.incoming.len() {
            self.end_reported = Ghost(true);
            assert(self.consumed() + bytes@ =~= self.consumed());
            return Ok(bytes);
        }
        let ghost start = self.position as int;
        while bytes.len() < max && self.position < self.incoming.len()
            invariant
                start <= self.position <= self.incoming@.len(),
                self.position - start == bytes@.len(),
                bytes@.len() <= max,
                bytes@ == self.incoming@.subrange(start, self.position as int),
                self.incoming@ == old(self).incoming@,
                self.outgoing@ == old(self).outgoing@,
                self.end_reported == old(self).end_reported,
                start == old(self).position,
            decreases self.incoming@.len() - self.position,
        {
            bytes.push(self.incoming[self.position]);
            self.position = self.position + 1;
            assert(bytes@ =~= self.incoming@.subrange(start, self.position as int));
        }
        assert(self.incoming@.take(self.position as int) =~= self.incoming@.take(start) + bytes@);
        Ok(bytes)
    }

    /// Never fails: every byte is appended to the outgoing buffer.
    fn write_all(&mut self, bytes: &[u8]) -> (r: Result<(), std::io::Error>)
        ensures
            r is Ok,
            final(self).incoming() == old(self).incoming(),
    {
        let mut i: usize = 0;
        while i < bytes.len()
            invariant
                i <= bytes@.len(),
                self.outgoing@ == old(self).outgoing@ + bytes@.subrange(0, i as int),
                self.incoming@ == old(self).incoming@,
                self.position == old(self).position,
                self.end_reported == old(self).end_reported,
            decreases bytes@.len() - i,
        {
            self.outgoing.push(bytes[i]);
            assert(bytes@.subrange(0, i + 1) == bytes@.subrange(0, i as int).push(bytes@[i as int]));
            i = i + 1;
        }
        assert(bytes@.subrange(0, bytes@.len() as int) == bytes@);
        assert(self.outgoing@.skip(old(self).outgoing@.len() as int) =~= bytes@);
        Ok(())
    }
}

/// The receiver's `hello` payload, field for field. `scale` is kept as the
/// JSON number's text.
#[derive(Debug, PartialEq, Eq)]
pub struct Hello {
    pub msg_type: String,
    pub pixels_wide: u32,
    pub pixels_high: u32,
    pub scale: String,
    pub device: Option<String>,
    pub id: Option<String>,
    pub pv: Option<u32>,
}

/// The value of a [`Hello`].
pub ghost struct HelloView {
    pub msg_type: Seq<char>,
    pub pixels_wide: u32,
    pub pixels_high: u32,
    pub scale: Seq<char>,
    pub device: Option<Seq<char>>,
    pub id: Option<Seq<char>>,
    pub pv: Option<u32>,
}

impl View for Hello {
    type V = HelloView;

    open spec fn view(&self) -> HelloView {
        HelloView {
            msg_type: self.msg_type@,
            pixels_wide: self.pixels_wide,
            pixels_high: self.pixels_high,
            scale: self.scale@,
            device: opt_str_view(self.device),
            id: opt_str_view(self.id),
            pv: self.pv,
        }
    }
}

/// The receiver's reported panel, straight from `hello`. `scale` is the UI
/// scale factor's number text (`2.0` for an `@2x` panel).
#[derive(Debug, PartialEq, Eq)]
pub struct PanelReport {
    pub pixels_wide: u32,
    pub pixels_high: u32,
    pub scale: String,
    pub device: Option<String>,
    pub id: Option<String>,
}

/// The value of a [`PanelReport`].
pub ghost struct PanelView {
    pub pixels_wide: u32,
    pub pixels_high: u32,
    pub scale: Seq<char>,
    pub device: Option<Seq<char>>,
    pub id: Option<Seq<char>>,
}

impl View for PanelReport {
    type V = PanelView;

    open spec fn view(&self) -> PanelView {
        PanelView {
            pixels_wide: self.pixels_wide,
            pixels_high: self.pixels_high,
            scale: self.scale@,
            device: opt_str_view(self.device),
            id: opt_str_view(self.id),
        }
    }
}

/// The result of a completed handshake.
#[derive(Debug, PartialEq, Eq)]
pub struct Session {
    /// The peer's `hello.pv`, or [`ASSUMED_WHEN_ABSENT`] when it sent none.
    pub peer_pv: u32,
    /// The lower of the peer's `pv` and [`WIRE_PROTOCOL_VERSION`]: the
    /// version this session speaks.
    pub negotiated_pv: u32,
    pub panel: PanelReport,
}

/// The value of a [`Session`].
pub ghost struct SessionView {
    pub peer_pv: u32,
    pub negotiated_pv: u32,
    pub panel: PanelView,
}

impl View for Session {
    type V = SessionView;

    open spec fn view(&self) -> SessionView {
        SessionView { peer_pv: self.peer_pv, negotiated_pv: self.negotiated_pv, panel: self.panel@ }
    }
}

/// Errors that can occur during the handshake.
#[derive(Debug)]
pub enum HandshakeError {
    Io(std::io::Error),
    /// The first frame is not JSON of the `hello` shape.
    MalformedHello,
    UnexpectedFirstMessage { got: String },
    Frame(FrameError),
    /// The peer's `pv` is below [`MIN_SUPPORTED_PEER`]. `welcome` and
    /// `updateRequired` have already been sent by the time this is returned;
    /// the caller must not stream in this session.
    PeerBelowMinSupported { peer_pv: u32 },
}

impl HandshakeError {
    /// A description of the error: an I/O error's own text follows its
    /// prefix; the others are fixed texts and the values they carry.
    pub fn describe(&self) -> (text: String)
        ensures
            match *self {
                HandshakeError::Io(_) => "handshake I/O error: "@.is_prefix_of(text@),
                HandshakeError::MalformedHello => text@ == "malformed hello: the first frame is not JSON of the hello shape"@,
                HandshakeError::UnexpectedFirstMessage { got } => text@
                    == "expected \"hello\" as the first message, got "@ + str_debug_text(got@),
                HandshakeError::Frame(e) => text@ == "handshake framing error: "@ + frame_error_text(e),
                HandshakeError::PeerBelowMinSupported { peer_pv } => text@ == "peer pv "@ + decimal_text(peer_pv as nat)
                    + " is below the sender's minimum supported peer"@,
            },
    {
        match self {
            HandshakeError::Io(e) => {
                let detail = io_error_text(e);
                concat("handshake I/O error: ", detail.as_str())
            },
            HandshakeError::MalformedHello => String::from_str("malformed hello: the first frame is not JSON of the hello shape"),
            HandshakeError::UnexpectedFirstMessage { got } => {
                let quoted = debug_quoted(got.as_str());
                concat("expected \"hello\" as the first message, got ", quoted.as_str())
            },
            HandshakeError::Frame(e) => {
                let detail = e.describe();
                concat("handshake framing error: ", detail.as_str())
            },
            HandshakeError::PeerBelowMinSupported { peer_pv } => {
                let digits = crate::json::u32_text(*peer_pv);
                let head = concat("peer pv ", digits.as_str());
                concat(head.as_str(), " is below the sender's minimum supported peer")
            },
        }
    }
}

/// Why a first frame's payload is not an acceptable `hello`.
pub ghost enum HelloRejection {
    Malformed,
    UnexpectedFirstMessage { got: Seq<char> },
}

/// An optional `u32` field: absent or `null` is `None`.
pub open spec fn dec_opt_u32(f: Option<Option<Json>>) -> Option<Option<u32>> {
    match f {
        Some(None) | Some(Some(Json::Null)) => Some(None),
        Some(Some(j)) => match dec_u32(Some(Some(j))) {
            Some(n) => Some(Some(n)),
            None => None,
        },
        None => None,
    }
}

/// The `hello` a JSON value holds: an object with the fields by name (others
/// ignored), or an array of exactly the seven fields in order; `device`,
/// `id` and `pv` may be absent or `null`.
pub open spec fn dec_hello(j: Json) -> Option<HelloView> {
    let msg_type = dec_string(struct_field(j, "type"@, 0, 7));
    let pixels_wide = dec_u32(struct_field(j, "pixelsWide"@, 1, 7));
    let pixels_high = dec_u32(struct_field(j, "pixelsHigh"@, 2, 7));
    let scale = dec_number_text(struct_field(j, "scale"@, 3, 7));
    let device = dec_opt_string(struct_field(j, "device"@, 4, 7));
    let id = dec_opt_string(struct_field(j, "id"@, 5, 7));
    let pv = dec_opt_u32(struct_field(j, "pv"@, 6, 7));
    if msg_type is Some && pixels_wide is Some && pixels_high is Some && scale is Some && device is Some
        && id is Some && pv is Some {
        Some(
            HelloView {
                msg_type: msg_type->0,
                pixels_wide: pixels_wide->0,
                pixels_high: pixels_high->0,
                scale: scale->0,
                device: device->0,
                id: id->0,
                pv: pv->0,
            },
        )
    } else {
        None
    }
}

/// What a first frame's payload gives: its `hello`, or why it is refused.
pub open spec fn spec_read_hello(payload: Seq<u8>) -> Result<HelloView, HelloRejection> {
    match json_bytes_parse(payload) {
        None => Err(HelloRejection::Malformed),
        Some(j) => match dec_hello(j) {
            None => Err(HelloRejection::Malformed),
            Some(h) => if h.msg_type == "hello"@ {
                Ok(h)
            } else {
                Err(HelloRejection::UnexpectedFirstMessage { got: h.msg_type })
            },
        },
    }
}

fn dec_opt_u32_of(f: Option<Option<&JsonValue>>) -> (r: Option<Option<u32>>)
    ensures
        r == dec_opt_u32(crate::ipc::opt_opt_json(f)),
{
    match f {
        Some(None) => Some(None),
        Some(Some(JsonValue::Null)) => Some(None),
        Some(Some(j)) => match dec_u32_of(Some(Some(j))) {
            Some(n) => Some(Some(n)),
            None => None,
        },
        None => None,
    }
}

/// Reads the `hello` fields out of a JSON value.
pub fn decode_hello(j: &JsonValue) -> (r: Option<Hello>)
    ensures
        match r {
            Some(h) => dec_hello(j@) == Some(h@),
            None => dec_hello(j@) is None,
        },
{
    let msg_type = dec_string_of(struct_field_of(j, "type", 0, 7));
    let pixels_wide = dec_u32_of(struct_field_of(j, "pixelsWide", 1, 7));
    let pixels_high = dec_u32_of(struct_field_of(j, "pixelsHigh", 2, 7));
    let scale = dec_number_text_of(struct_field_of(j, "scale", 3, 7));
    let device = dec_opt_string_of(struct_field_of(j, "device", 4, 7));
    let id = dec_opt_string_of(struct_field_of(j, "id", 5, 7));
    let pv = dec_opt_u32_of(struct_field_of(j, "pv", 6, 7));
    match (msg_type, pixels_wide, pixels_high, scale, device, id, pv) {
        (Some(msg_type), Some(pixels_wide), Some(pixels_high), Some(scale), Some(device), Some(id), Some(pv)) => {
            Some(Hello { msg_type, pixels_wide, pixels_high, scale, device, id, pv })
        },
        _ => None,
    }
}

/// Reads a first frame's payload as the receiver's `hello`: JSON of the
/// `hello` shape whose `type` is `"hello"`.
pub fn read_hello(payload: &[u8]) -> (r: Result<Hello, HandshakeError>)
    ensures
        match r {
            Ok(h) => spec_read_hello(payload@) == Ok::<HelloView, HelloRejection>(h@),
            Err(HandshakeError::MalformedHello) => spec_read_hello(payload@) == Err::<HelloView, HelloRejection>(HelloRejection::Malformed),
            Err(HandshakeError::UnexpectedFirstMessage { got }) => spec_read_hello(payload@)
                == Err::<HelloView, HelloRejection>(HelloRejection::UnexpectedFirstMessage { got: got@ }),
            Err(_) => false,
        },
{
    let j = match parse_json_bytes(payload) {
        Some(j) => j,
        None => return Err(HandshakeError::MalformedHello),
    };
    let hello = match decode_hello(&j) {
        Some(h) => h,
        None => return Err(HandshakeError::MalformedHello),
    };
    if str_equal(hello.msg_type.as_str(), "hello") {
        Ok(hello)
    } else {
        Err(HandshakeError::UnexpectedFirstMessage { got: hello.msg_type })
    }
}

/// The `pv` a `hello` advertises, or [`ASSUMED_WHEN_ABSENT`] when absent.
pub open spec fn peer_pv_of(h: HelloView) -> u32 {
    match h.pv {
        Some(pv) => pv,
        None => ASSUMED_WHEN_ABSENT,
    }
}

/// The session a compatible peer's `hello` yields.
pub open spec fn session_of(h: HelloView) -> SessionView {
    let peer_pv = peer_pv_of(h);
    SessionView {
        peer_pv,
        negotiated_pv: if peer_pv < WIRE_PROTOCOL_VERSION { peer_pv } else { WIRE_PROTOCOL_VERSION },
        panel: PanelView { pixels_wide: h.pixels_wide, pixels_high: h.pixels_high, scale: h.scale, device: h.device, id: h.id },
    }
}

/// The `welcome` reply: this sender's `pv` and the oldest peer it accepts.
pub open spec fn welcome_json() -> Json {
    Json::Object(
        seq![
            ("type"@, Json::Str("welcome"@)),
            ("pv"@, Json::Number(decimal_text(WIRE_PROTOCOL_VERSION as nat))),
            ("min"@, Json::Number(decimal_text(MIN_SUPPORTED_PEER as nat))),
        ],
    )
}

/// The store page an outdated receiver is pointed to.
pub const UPDATE_STORE_URL: &'static str = "https://apps.apple.com/app/opendisplay";

/// The message an outdated receiver shows.
pub const UPDATE_MESSAGE: &'static str = "Please update the OpenDisplay app on your device.";

/// The `updateRequired` notice sent to a peer below the floor.
pub open spec fn update_required_json() -> Json {
    Json::Object(
        seq![
            ("type"@, Json::Str("updateRequired"@)),
            ("target"@, Json::Str("ios"@)),
            ("store"@, Json::Str(UPDATE_STORE_URL@)),
            ("message"@, Json::Str(UPDATE_MESSAGE@)),
        ],
    )
}

/// The outbound `ping`: only its `type`; every telemetry field is optional.
pub open spec fn ping_json() -> Json {
    Json::Object(seq![("type"@, Json::Str("ping"@))])
}

/// The frame that carries `value`'s JSON bytes, or the bound they violate.
pub open spec fn json_frame(value: Json) -> Result<Seq<u8>, FrameError> {
    spec_encode_frame(json_bytes_render(value))
}

fn welcome_value() -> (v: JsonValue)
    ensures
        v@ == welcome_json(),
{
    let mut es: Vec<(String, JsonValue)> = Vec::new();
    crate::json::push_entry(&mut es, "type", crate::json::json_str(WELCOME));
    crate::json::push_entry(&mut es, "pv", JsonValue::Number(crate::json::u32_text(WIRE_PROTOCOL_VERSION)));
    crate::json::push_entry(&mut es, "min", JsonValue::Number(crate::json::u32_text(MIN_SUPPORTED_PEER)));
    assert(crate::json::object_view(es@) =~= seq![
        ("type"@, Json::Str("welcome"@)),
        ("pv"@, Json::Number(decimal_text(WIRE_PROTOCOL_VERSION as nat))),
        ("min"@, Json::Number(decimal_text(MIN_SUPPORTED_PEER as nat))),
    ]);
    crate::json::json_object(es)
}

fn update_required_value() -> (v: JsonValue)
    ensures
        v@ == update_required_json(),
{
    let mut es: Vec<(String, JsonValue)> = Vec::new();
    crate::json::push_entry(&mut es, "type", crate::json::json_str(UPDATE_REQUIRED));
    crate::json::push_entry(&mut es, "target", crate::json::json_str("ios"));
    crate::json::push_entry(&mut es, "store", crate::json::json_str(UPDATE_STORE_URL));
    crate::json::push_entry(&mut es, "message", crate::json::json_str(UPDATE_MESSAGE));
    assert(crate::json::object_view(es@) =~= seq![
        ("type"@, Json::Str("updateRequired"@)),
        ("target"@, Json::Str("ios"@)),
        ("store"@, Json::Str(UPDATE_STORE_URL@)),
        ("message"@, Json::Str(UPDATE_MESSAGE@)),
    ]);
    crate::json::json_object(es)
}

/// Builds the outbound `ping` payload sent every two seconds while
/// connected. Whether and when to send it is
/// [`crate::session_state::should_send_ping`]'s decision.
pub fn build_ping_message() -> (bytes: Vec<u8>)
    ensures
        bytes@ == json_bytes_render(ping_json()),
{
    let v = crate::json::json_object1("type", crate::json::json_str(PING));
    render_json_bytes(&v)
}

/// The error `std::io::Error::new(ErrorKind::UnexpectedEof, ..)`: the
/// connection closed before a full frame arrived.
#[verifier::external_body]
fn unexpected_eof() -> std::io::Error {
    std::io::Error::new(std::io::ErrorKind::UnexpectedEof, "connection closed before a full frame arrived")
}

/// How many bytes one read asks for.
pub const READ_CHUNK: usize = 4096;

/// The bytes read from `after` on, past what `before` had read.
pub open spec fn read_since(before: Seq<u8>, after: Seq<u8>) -> Seq<u8> {
    after.skip(before.len() as int)
}

proof fn lemma_pending_frame_is_short(buf: Seq<u8>)
    requires
        spec_decode_frame(buf) == Ok::<Option<(Seq<u8>, nat)>, FrameError>(None),
    ensures
        buf.len() < 4 + MAX_PAYLOAD_LEN,
{
}

/// Reads from `stream` until one complete length-prefixed frame has arrived,
/// and returns its payload. Bytes read past the frame are dropped.
fn read_one_frame<S: Connection>(stream: &mut S) -> (r: Result<Vec<u8>, HandshakeError>)
    ensures
        final(stream).written() == old(stream).written(),
        old(stream).consumed().is_prefix_of(final(stream).consumed()),
        old(stream).failures() <= final(stream).failures(),
        r is Ok ==> final(stream).failures() == old(stream).failures(),
        r matches Err(HandshakeError::Frame(_)) ==> final(stream).failures() == old(stream).failures(),
        r matches Err(HandshakeError::Io(_)) ==> final(stream).failures() > old(stream).failures()
            || final(stream).closed_seen(),
        match r {
            Ok(p) => spec_decode_frame(read_since(old(stream).consumed(), final(stream).consumed()))
                matches Ok(Some((q, _))) && q == p@,
            Err(HandshakeError::Frame(e)) => spec_decode_frame(read_since(old(stream).consumed(), final(stream).consumed()))
                == Err::<Option<(Seq<u8>, nat)>, FrameError>(e),
            Err(HandshakeError::Io(_)) => spec_decode_frame(read_since(old(stream).consumed(), final(stream).consumed()))
                == Ok::<Option<(Seq<u8>, nat)>, FrameError>(None),
            Err(_) => false,
        },
{
    let ghost start = stream.consumed();
    let mut buf: Vec<u8> = Vec::new();
    assert(start + buf@ =~= start);
    loop
        invariant
            stream.consumed() == start + buf@,
            stream.written() == old(stream).written(),
            stream.failures() == old(stream).failures(),
            start == old(stream).consumed(),
            buf@.len() < 4 + MAX_PAYLOAD_LEN + READ_CHUNK,
        decreases 4 + MAX_PAYLOAD_LEN + READ_CHUNK - buf@.len(),
    {
        assert(read_since(start, stream.consumed()) =~= buf@);
        match decode_frame(buf.as_slice()) {
            Ok(Some(frame)) => {
                return Ok(vstd::slice::slice_to_vec(frame.payload));
            },
            Ok(None) => {
                proof {
                    lemma_pending_frame_is_short(buf@);
                }
                let chunk = match stream.read_some(READ_CHUNK) {
                    Ok(c) => c,
                    Err(e) => return Err(HandshakeError::Io(e)),
                };
                if chunk.len() == 0 {
                    assert(stream.consumed() =~= start + buf@);
                    return Err(HandshakeError::Io(unexpected_eof()));
                }
                let mut i: usize = 0;
                let ghost before = buf@;
                while i < chunk.len()
                    invariant
                        i <= chunk@.len(),
                        buf@ == before + chunk@.subrange(0, i as int),
                    decreases chunk@.len() - i,
                {
                    buf.push(chunk[i]);
                    assert(chunk@.subrange(0, i + 1) == chunk@.subrange(0, i as int).push(chunk@[i as int]));
                    i = i + 1;
                }
                assert(chunk@.subrange(0, chunk@.len() as int) == chunk@);
                assert(stream.consumed() =~= start + buf@);
            },
            Err(e) => {
                return Err(HandshakeError::Frame(e));
            },
        }
    }
}

/// Encodes `payload` as one frame and writes it to `stream`.
fn write_frame<S: Connection>(stream: &mut S, payload: &[u8]) -> (r: Result<(), HandshakeError>)
    ensures
        final(stream).consumed() == old(stream).consumed(),
        old(stream).written().is_prefix_of(final(stream).written()),
        r is Ok ==> final(stream).failures() == old(stream).failures(),
        r matches Err(HandshakeError::Frame(_)) ==> final(stream).failures() == old(stream).failures(),
        r matches Err(HandshakeError::Io(_)) ==> final(stream).failures() > old(stream).failures(),
        match spec_encode_frame(payload@) {
            Err(e) => r matches Err(HandshakeError::Frame(e2)) && e2 == e && final(stream).written() == old(stream).written(),
            Ok(framed) => match r {
                Ok(()) => final(stream).written() == old(stream).written() + framed,
                Err(HandshakeError::Io(_)) => read_since(old(stream).written(), final(stream).written()).is_prefix_of(framed),
                Err(_) => false,
            },
        },
{
    let framed = match encode_frame(payload) {
        Ok(f) => f,
        Err(e) => {
            assert(old(stream).written().is_prefix_of(stream.written()));
            return Err(HandshakeError::Frame(e));
        },
    };
    match stream.write_all(framed.as_slice()) {
        Ok(()) => {
            assert(old(stream).written().is_prefix_of(stream.written()));
            Ok(())
        },
        Err(e) => Err(HandshakeError::Io(e)),
    }
}

/// What a handshake with a peer whose first frame carries the `hello` `h`
/// sends back and returns: `welcome`, then, for a peer below the floor,
/// `updateRequired` and `PeerBelowMinSupported`; for a compatible peer, its
/// session. Only a failed write (`write_failed`) ends it early, with an I/O
/// error after a prefix of those bytes.
pub open spec fn spec_reply_outcome(
    h: HelloView,
    sent: Seq<u8>,
    write_failed: bool,
    r: Result<Session, HandshakeError>,
) -> bool {
    match json_frame(welcome_json()) {
        Err(e) => r matches Err(HandshakeError::Frame(e2)) && e2 == e && sent.len() == 0,
        Ok(welcome) => if peer_pv_of(h) >= MIN_SUPPORTED_PEER {
            ||| r matches Ok(session) && session@ == session_of(h) && sent == welcome
            ||| write_failed && r is Err && r->Err_0 is Io && sent.is_prefix_of(welcome)
        } else {
            match json_frame(update_required_json()) {
                Err(e) => {
                    ||| r matches Err(HandshakeError::Frame(e2)) && e2 == e && sent == welcome
                    ||| write_failed && r is Err && r->Err_0 is Io && sent.is_prefix_of(welcome)
                },
                Ok(update) => {
                    ||| r matches Err(HandshakeError::PeerBelowMinSupported { peer_pv }) && peer_pv == peer_pv_of(h)
                        && sent == welcome + update
                    ||| write_failed && r is Err && r->Err_0 is Io && sent.is_prefix_of(welcome + update)
                },
            }
        },
    }
}

/// What a handshake that read the bytes `read` and wrote the bytes `sent`
/// returns: a bad frame header, or a stream that failed or reported its end
/// (`ended`) before a full frame, ends it before anything is sent, as does a
/// first frame that is not a `hello`; a `hello` gets its reply, cut short
/// only by a failed write (`failed`: some read or write failed).
pub open spec fn spec_handshake_outcome(
    read: Seq<u8>,
    sent: Seq<u8>,
    failed: bool,
    ended: bool,
    r: Result<Session, HandshakeError>,
) -> bool {
    match spec_decode_frame(read) {
        Err(e) => r matches Err(HandshakeError::Frame(e2)) && e2 == e && sent.len() == 0,
        Ok(None) => (failed || ended) && r is Err && r->Err_0 is Io && sent.len() == 0,
        Ok(Some((payload, _))) => match spec_read_hello(payload) {
            Err(HelloRejection::Malformed) => r matches Err(HandshakeError::MalformedHello) && sent.len() == 0,
            Err(HelloRejection::UnexpectedFirstMessage { got }) => r matches Err(
                HandshakeError::UnexpectedFirstMessage { got: g },
            ) && g@ == got && sent.len() == 0,
            Ok(h) => spec_reply_outcome(h, sent, failed, r),
        },
    }
}

/// Performs the `hello`/`welcome` handshake on an already-connected
/// `stream`.
pub fn handshake<S: Connection>(stream: &mut S) -> (r: Result<Session, HandshakeError>)
    ensures
        old(stream).consumed().is_prefix_of(final(stream).consumed()),
        old(stream).written().is_prefix_of(final(stream).written()),
        old(stream).failures() <= final(stream).failures(),
        r matches Ok(session) ==> {
            &&& session.peer_pv >= MIN_SUPPORTED_PEER
            &&& session.negotiated_pv <= session.peer_pv
            &&& session.negotiated_pv <= WIRE_PROTOCOL_VERSION
            &&& (session.negotiated_pv == session.peer_pv || session.negotiated_pv == WIRE_PROTOCOL_VERSION)
        },
        spec_handshake_outcome(
            read_since(old(stream).consumed(), final(stream).consumed()),
            read_since(old(stream).written(), final(stream).written()),
            final(stream).failures() > old(stream).failures(),
            final(stream).closed_seen(),
            r,
        ),
{
    let hello_bytes = read_one_frame(stream)?;
    let ghost after_read = stream.consumed();
    let ghost read = read_since(old(stream).consumed(), after_read);
    assert(read_since(old(stream).written(), stream.written()) =~= Seq::<u8>::empty());
    let hello = read_hello(hello_bytes.as_slice())?;
    assert(spec_decode_frame(read) matches Ok(Some((q, _))) && spec_read_hello(q) == Ok::<HelloView, HelloRejection>(hello@));
    let peer_pv = match hello.pv {
        Some(pv) => pv,
        None => ASSUMED_WHEN_ABSENT,
    };

    let welcome = render_json_bytes(&welcome_value());
    let ghost before_welcome = stream.written();
    write_frame(stream, welcome.as_slice())?;
    let ghost after_welcome = stream.written();
    assert(read_since(old(stream).written(), after_welcome) =~= read_since(before_welcome, after_welcome));
    proof {
        if let Ok(f) = spec_encode_frame(welcome@) {
            assert(read_since(before_welcome, after_welcome) =~= f);
        }
    }
    assert(json_frame(welcome_json()) == Ok::<Seq<u8>, FrameError>(read_since(before_welcome, after_welcome)));

    if peer_pv < MIN_SUPPORTED_PEER {
        let update_required = render_json_bytes(&update_required_value());
        let r = write_frame(stream, update_required.as_slice());
        proof {
            let sent = read_since(old(stream).written(), stream.written());
            assert(sent =~= read_since(old(stream).written(), after_welcome) + read_since(after_welcome, stream.written()));
            assert(read_since(old(stream).consumed(), stream.consumed()) == read);
            if let Ok(f) = spec_encode_frame(update_required@) {
                if r is Ok {
                    assert(read_since(after_welcome, stream.written()) =~= f);
                }
            }
            if r is Ok {
                assert(spec_reply_outcome(hello@, sent, false, Err(HandshakeError::PeerBelowMinSupported { peer_pv })));
            }
        }
        r?;
        return Err(HandshakeError::PeerBelowMinSupported { peer_pv });
    }

    let negotiated_pv = if peer_pv < WIRE_PROTOCOL_VERSION {
        peer_pv
    } else {
        WIRE_PROTOCOL_VERSION
    };
    let session = Session {
        peer_pv,
        negotiated_pv,
        panel: PanelReport {
            pixels_wide: hello.pixels_wide,
            pixels_high: hello.pixels_high,
            scale: hello.scale,
            device: hello.device,
            id: hello.id,
        },
    };
    proof {
        assert(read_since(old(stream).consumed(), stream.consumed()) == read);
        assert(session@ == session_of(hello@));
    }
    Ok(session)
}

/// A control message from the receiver, as this sender acts on it. Touch and
/// scroll coordinates are kept as their JSON number text; one that is absent
/// or not a number is `None`.
#[derive(Debug, PartialEq, Eq)]
pub enum ControlMessage {
    Sleeping,
    Closing,
    Touch { phase: TouchPhase, x: Option<String>, y: Option<String> },
    Scroll { dx: Option<String>, dy: Option<String> },
    /// Any other `type` (`pencil`, `proximity`, or one this sender does not
    /// know): accepted and ignored.
    Ignored,
}

/// The value of a [`ControlMessage`].
pub ghost enum ControlView {
    Sleeping,
    Closing,
    Touch { phase: TouchPhase, x: Option<Seq<char>>, y: Option<Seq<char>> },
    Scroll { dx: Option<Seq<char>>, dy: Option<Seq<char>> },
    Ignored,
}

impl View for ControlMessage {
    type V = ControlView;

    open spec fn view(&self) -> ControlView {
        match self {
            ControlMessage::Sleeping => ControlView::Sleeping,
            ControlMessage::Closing => ControlView::Closing,
            ControlMessage::Touch { phase, x, y } => ControlView::Touch {
                phase: *phase,
                x: opt_str_view(*x),
                y: opt_str_view(*y),
            },
            ControlMessage::Scroll { dx, dy } => ControlView::Scroll { dx: opt_str_view(*dx), dy: opt_str_view(*dy) },
            ControlMessage::Ignored => ControlView::Ignored,
        }
    }
}

/// The phase a `touch.phase` name denotes; a name this sender does not know
/// counts as `cancelled`, which releases any press.
pub open spec fn touch_phase_named(name: Seq<char>) -> TouchPhase {
    if name == "began"@ {
        TouchPhase::Began
    } else if name == "moved"@ {
        TouchPhase::Moved
    } else if name == "ended"@ {
        TouchPhase::Ended
    } else {
        TouchPhase::Cancelled
    }
}

/// The control message a JSON value holds: an object whose `type` is a
/// string; a `touch` also needs a string `phase`.
pub open spec fn dec_control_message(j: Json) -> Option<ControlView> {
    match j {
        Json::Object(es) => match dec_string(Some(spec_field(es, "type"@))) {
            None => None,
            Some(t) => if t == SLEEPING@ {
                Some(ControlView::Sleeping)
            } else if t == CLOSING@ {
                Some(ControlView::Closing)
            } else if t == TOUCH@ {
                match dec_string(Some(spec_field(es, "phase"@))) {
                    Some(p) => Some(
                        ControlView::Touch {
                            phase: touch_phase_named(p),
                            x: dec_number_text(Some(spec_field(es, "x"@))),
                            y: dec_number_text(Some(spec_field(es, "y"@))),
                        },
                    ),
                    None => None,
                }
            } else if t == SCROLL@ {
                Some(
                    ControlView::Scroll {
                        dx: dec_number_text(Some(spec_field(es, "dx"@))),
                        dy: dec_number_text(Some(spec_field(es, "dy"@))),
                    },
                )
            } else {
                Some(ControlView::Ignored)
            },
        },
        _ => None,
    }
}

/// The control message a frame's payload carries, if it is one.
pub open spec fn spec_parse_control_message(payload: Seq<u8>) -> Option<ControlView> {
    match json_bytes_parse(payload) {
        Some(j) => dec_control_message(j),
        None => None,
    }
}

fn touch_phase_of(name: &str) -> (phase: TouchPhase)
    ensures
        phase == touch_phase_named(name@),
{
    if str_equal(name, "began") {
        TouchPhase::Began
    } else if str_equal(name, "moved") {
        TouchPhase::Moved
    } else if str_equal(name, "ended") {
        TouchPhase::Ended
    } else {
        TouchPhase::Cancelled
    }
}

/// Reads a frame's payload as a control message from the receiver: `None`
/// when it is not JSON of a control message's shape.
pub fn parse_control_message(payload: &[u8]) -> (r: Option<ControlMessage>)
    ensures
        match r {
            Some(m) => spec_parse_control_message(payload@) == Some(m@),
            None => spec_parse_control_message(payload@) is None,
        },
{
    let j = match parse_json_bytes(payload) {
        Some(j) => j,
        None => return None,
    };
    let es = match &j {
        JsonValue::Object(es) => es,
        _ => return None,
    };
    proof {
        crate::json::lemma_object_view(*es);
    }
    let t = match dec_string_of(Some(crate::json::field(es.as_slice(), "type"))) {
        Some(t) => t,
        None => return None,
    };
    if str_equal(t.as_str(), SLEEPING) {
        Some(ControlMessage::Sleeping)
    } else if str_equal(t.as_str(), CLOSING) {
        Some(ControlMessage::Closing)
    } else if str_equal(t.as_str(), TOUCH) {
        let phase = match dec_string_of(Some(crate::json::field(es.as_slice(), "phase"))) {
            Some(p) => touch_phase_of(p.as_str()),
            None => return None,
        };
        let x = dec_number_text_of(Some(crate::json::field(es.as_slice(), "x")));
        let y = dec_number_text_of(Some(crate::json::field(es.as_slice(), "y")));
        Some(ControlMessage::Touch { phase, x, y })
    } else if str_equal(t.as_str(), SCROLL) {
        let dx = dec_number_text_of(Some(crate::json::field(es.as_slice(), "dx")));
        let dy = dec_number_text_of(Some(crate::json::field(es.as_slice(), "dy")));
        Some(ControlMessage::Scroll { dx, dy })
    } else {
        Some(ControlMessage::Ignored)
    }
}

/// The session event a control message raises: `sleeping` pauses the
/// session, `closing` ends it; input and ignored messages raise none.
pub open spec fn spec_control_event(m: ControlView) -> Option<SessionEvent> {
    match m {
        ControlView::Sleeping => Some(SessionEvent::ReceivedSleeping),
        ControlView::Closing => Some(SessionEvent::ReceivedClosing),
        _ => None,
    }
}

/// The session event `message` raises, if any.
pub fn control_event(message: &ControlMessage) -> (e: Option<SessionEvent>)
    ensures
        e == spec_control_event(message@),
{
    match message {
        ControlMessage::Sleeping => Some(SessionEvent::ReceivedSleeping),
        ControlMessage::Closing => Some(SessionEvent::ReceivedClosing),
        _ => None,
    }
}

/// A memory stream's reads and writes never fail.
pub proof fn lemma_memory_stream_never_fails(stream: MemoryStream)
    ensures
        stream.failures() == 0,
{
}

/// On a connection whose reads and writes do not fail, a first frame that
/// carries a `hello` gets exactly its reply: a compatible peer gets one
/// `welcome` frame and its session; a peer below the floor gets `welcome`,
/// then `updateRequired`, and the refusal.
pub proof fn lemma_hello_gets_its_reply(
    read: Seq<u8>,
    sent: Seq<u8>,
    ended: bool,
    r: Result<Session, HandshakeError>,
    h: HelloView,
)
    requires
        spec_decode_frame(read) matches Ok(Some((payload, _))) && spec_read_hello(payload) == Ok::<HelloView, HelloRejection>(h),
        spec_handshake_outcome(read, sent, false, ended, r),
    ensures
        json_frame(welcome_json()) matches Ok(welcome) ==> {
            &&& peer_pv_of(h) >= MIN_SUPPORTED_PEER ==> (r matches Ok(session) && session@ == session_of(h)
                && sent == welcome)
            &&& peer_pv_of(h) < MIN_SUPPORTED_PEER ==> (json_frame(update_required_json()) matches Ok(update) ==> (r
                matches Err(HandshakeError::PeerBelowMinSupported { peer_pv }) && peer_pv == peer_pv_of(h) && sent
                == welcome + update))
        },
{
}

/// The version a session speaks is the lower of the peer's and this
/// sender's: never above either, and equal to one of them. A peer that
/// advertises no `pv` is taken as protocol 1; one that does, as its `pv`.
pub proof fn lemma_negotiated_version_is_the_lower(h: HelloView)
    ensures
        session_of(h).negotiated_pv <= session_of(h).peer_pv,
        session_of(h).negotiated_pv <= WIRE_PROTOCOL_VERSION,
        session_of(h).negotiated_pv == session_of(h).peer_pv || session_of(h).negotiated_pv == WIRE_PROTOCOL_VERSION,
        h.pv is None ==> session_of(h).peer_pv == 1,
        h.pv matches Some(v) ==> session_of(h).peer_pv == v,
{
}

/// Whatever a handshake reads and writes, a session it returns speaks the
/// lower of the peer's version and this sender's, with a peer at or above
/// the supported floor.
pub proof fn lemma_handshake_session_versions(
    read: Seq<u8>,
    sent: Seq<u8>,
    failed: bool,
    ended: bool,
    r: Result<Session, HandshakeError>,
)
    requires
        spec_handshake_outcome(read, sent, failed, ended, r),
    ensures
        r matches Ok(session) ==> {
            &&& session@.peer_pv >= MIN_SUPPORTED_PEER
            &&& session@.negotiated_pv <= session@.peer_pv
            &&& session@.negotiated_pv <= WIRE_PROTOCOL_VERSION
            &&& (session@.negotiated_pv == session@.peer_pv || session@.negotiated_pv == WIRE_PROTOCOL_VERSION)
        },
{
    if let Ok(session) = r {
        if let Ok(Some((payload, _))) = spec_decode_frame(read) {
            if let Ok(h) = spec_read_hello(payload) {
                lemma_negotiated_version_is_the_lower(h);
            }
        }
    }
}

} // verus!
