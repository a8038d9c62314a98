//! Wire-protocol constants and the length-prefixed framing rules.
//!
//! Every wire frame is a 4-byte big-endian payload length followed by the
//! payload. The receiver-direction bound is `1 ..= 2^20 - 1` payload bytes,
//! and this sender applies the same bound to every frame it emits.

pub mod wire_message;

use vstd::prelude::*;
use crate::json::{decimal_text, u64_text};
use crate::text::concat;

verus! {

/// The protocol version this build speaks.
pub const WIRE_PROTOCOL_VERSION: u32 = 3;

/// Protocol version that introduced stylus / proximity wire messages.
pub const PENCIL_WIRE_VERSION: u32 = 3;

/// Oldest peer protocol version this build still supports.
pub const MIN_SUPPORTED_PEER: u32 = 1;

/// A peer that advertises no `pv` is defined as protocol 1.
pub const ASSUMED_WHEN_ABSENT: u32 = 1;

/// Frame length header size in bytes.
pub const LENGTH_PREFIX_BYTES: usize = 4;

/// The largest payload a frame may carry: `2^20 - 1` bytes.
pub const MAX_PAYLOAD_LEN: usize = 1048575;

/// Errors that can occur while framing or unframing a payload.
#[derive(Debug, Clone, Copy, PartialEq, Eq)]
pub enum FrameError {
    /// The payload was empty (length 0).
    PayloadEmpty,
    /// The payload was `2^20` bytes or longer.
    PayloadTooLarge { len: usize },
}

/// The description of a framing error.
pub open spec fn frame_error_text(e: FrameError) -> Seq<char> {
    match e {
        FrameError::PayloadEmpty => "frame payload must not be empty"@,
        FrameError::PayloadTooLarge { len } => "frame payload of "@ + decimal_text(len as nat)
            + " bytes exceeds the 1048575-byte bound"@,
    }
}

impl FrameError {
    /// A description of the error.
    pub fn describe(&self) -> (text: String)
        ensures
            text@ == frame_error_text(*self),
    {
        match self {
            FrameError::PayloadEmpty => String::from_str("frame payload must not be empty"),
            FrameError::PayloadTooLarge { len } => {
                let digits = u64_text(*len as u64);
                let head = concat("frame payload of ", digits.as_str());
                concat(head.as_str(), " bytes exceeds the 1048575-byte bound")
            },
        }
    }
}

/// The error, if any, that a payload length violates.
pub open spec fn payload_len_error(len: usize) -> Option<FrameError> {
    if len == 0 {
        Some(FrameError::PayloadEmpty)
    } else if len > MAX_PAYLOAD_LEN {
        Some(FrameError::PayloadTooLarge { len })
    } else {
        None
    }
}

/// The four big-endian bytes of `n` (for `n < 2^32`).
pub open spec fn be_u32_bytes(n: nat) -> Seq<u8> {
    seq![
        (n / 0x1000000) as u8,
        ((n / 0x10000) % 0x100) as u8,
        ((n / 0x100) % 0x100) as u8,
        (n % 0x100) as u8,
    ]
}

/// The value the first four bytes of `b` denote, read big-endian.
pub open spec fn be_u32_value(b: Seq<u8>) -> nat {
    (b[0] as nat) * 0x1000000 + (b[1] as nat) * 0x10000 + (b[2] as nat) * 0x100 + (b[3] as nat)
}

/// The frame that carries `payload`: its length header, then the payload.
pub open spec fn frame_bytes(payload: Seq<u8>) -> Seq<u8> {
    be_u32_bytes(payload.len()) + payload
}

/// What encoding `payload` gives: the frame, or the bound it violates.
pub open spec fn spec_encode_frame(payload: Seq<u8>) -> Result<Seq<u8>, FrameError> {
    match payload_len_error(payload.len() as usize) {
        Some(e) => Err(e),
        None => Ok(frame_bytes(payload)),
    }
}

/// What decoding the front of `buf` gives: nothing yet, a complete frame's
/// payload and the bytes it spans, or the bound its header violates.
pub open spec fn spec_decode_frame(buf: Seq<u8>) -> Result<Option<(Seq<u8>, nat)>, FrameError> {
    if buf.len() < 4 {
        Ok(None)
    } else {
        let len = be_u32_value(buf);
        match payload_len_error(len as usize) {
            Some(e) => Err(e),
            None => if buf.len() < 4 + len {
                Ok(None)
            } else {
                Ok(Some((buf.subrange(4, 4 + len as int), (4 + len) as nat)))
            },
        }
    }
}

/// Validates a payload length against the frame bound. Shared by encode and
/// decode so both sides of the wire agree on what is valid.
fn validate_payload_len(len: usize) -> (r: Result<(), FrameError>)
    ensures
        r is Ok <==> payload_len_error(len) is None,
        r matches Err(e) ==> payload_len_error(len) == Some(e),
{
    if len == 0 {
        return Err(FrameError::PayloadEmpty);
    }
    if len >= 1048576 {
        return Err(FrameError::PayloadTooLarge { len });
    }
    Ok(())
}

proof fn lemma_be_u32_round_trip(n: nat)
    requires
        n < 0x1_0000_0000,
    ensures
        be_u32_value(be_u32_bytes(n)) == n,
        be_u32_bytes(n).len() == 4,
{
    let b = be_u32_bytes(n);
    assert(b[0] as nat == n / 0x1000000);
    assert(b[1] as nat == (n / 0x10000) % 0x100);
    assert(b[2] as nat == (n / 0x100) % 0x100);
    assert(b[3] as nat == n % 0x100);
    assert(be_u32_value(b) == n) by (nonlinear_arith)
        requires
            b[0] as nat == n / 0x1000000,
            b[1] as nat == (n / 0x10000) % 0x100,
            b[2] as nat == (n / 0x100) % 0x100,
            b[3] as nat == n % 0x100,
            be_u32_value(b) == (b[0] as nat) * 0x1000000 + (b[1] as nat) * 0x10000
                + (b[2] as nat) * 0x100 + (b[3] as nat),
            n < 0x1_0000_0000,
    ;
}

/// Encodes `payload` as a length-prefixed frame: a 4-byte big-endian length
/// followed by the payload bytes. Rejects a payload that violates the length
/// bound rather than emitting it.
pub fn encode_frame(payload: &[u8]) -> (r: Result<Vec<u8>, FrameError>)
    ensures
        r matches Ok(framed) ==> spec_encode_frame(payload@) == Ok::<Seq<u8>, FrameError>(framed@),
        r matches Err(e) ==> spec_encode_frame(payload@) == Err::<Seq<u8>, FrameError>(e),
{
    let len = payload.len();
    validate_payload_len(len)?;
    let n: u32 = len as u32;
    let mut framed: Vec<u8> = Vec::with_capacity(4 + len);
    framed.push((n / 0x1000000) as u8);
    framed.push(((n / 0x10000) % 0x100) as u8);
    framed.push(((n / 0x100) % 0x100) as u8);
    framed.push((n % 0x100) as u8);
    assert(framed@ == be_u32_bytes(payload@.len()));
    let mut i: usize = 0;
    while i < len
        invariant
            len == payload@.len(),
            i <= len,
            framed@ == be_u32_bytes(payload@.len()) + payload@.subrange(0, i as int),
        decreases len - i,
    {
        framed.push(payload[i]);
        assert(payload@.subrange(0, i + 1) == payload@.subrange(0, i as int).push(payload@[i as int]));
        i = i + 1;
    }
    assert(payload@.subrange(0, len as int) == payload@);
    Ok(framed)
}

/// The result of successfully decoding one frame out of a buffer.
#[derive(Debug, Clone, PartialEq, Eq)]
pub struct DecodedFrame<'a> {
    /// The frame's payload (excludes the 4-byte length header).
    pub payload: &'a [u8],
    /// Total bytes consumed from the buffer (header + payload).
    pub consumed: usize,
}

/// Attempts to decode one length-prefixed frame from the front of `buf`.
///
/// This is an incremental parser over whatever bytes have arrived so far:
/// `Ok(None)` means `buf` does not yet hold a complete frame, `Ok(Some(..))`
/// a complete valid frame, and `Err(..)` a header that declares a length
/// outside the frame bound.
pub fn decode_frame<'a>(buf: &'a [u8]) -> (r: Result<Option<DecodedFrame<'a>>, FrameError>)
    ensures
        match r {
            Ok(None) => spec_decode_frame(buf@) == Ok::<Option<(Seq<u8>, nat)>, FrameError>(None),
            Ok(Some(f)) => spec_decode_frame(buf@) == Ok::<Option<(Seq<u8>, nat)>, FrameError>(
                Some((f.payload@, f.consumed as nat)),
            ),
            Err(e) => spec_decode_frame(buf@) == Err::<Option<(Seq<u8>, nat)>, FrameError>(e),
        },
{
    if buf.len() < LENGTH_PREFIX_BYTES {
        return Ok(None);
    }
    let len: usize = (buf[0] as usize) * 0x1000000 + (buf[1] as usize) * 0x10000
        + (buf[2] as usize) * 0x100 + (buf[3] as usize);
    assert(len as nat == be_u32_value(buf@));
    validate_payload_len(len)?;
    let total = LENGTH_PREFIX_BYTES + len;
    if buf.len() < total {
        return Ok(None);
    }
    let payload = vstd::slice::slice_subrange(buf, LENGTH_PREFIX_BYTES, total);
    Ok(Some(DecodedFrame { payload, consumed: total }))
}

/// Takes one complete frame off the front of `buf`, the bytes received so
/// far: its payload, with the frame's bytes removed from `buf`; `Ok(None)`,
/// with `buf` unchanged, while the frame is still incomplete; or the bound
/// its header violates, with `buf` unchanged.
pub fn take_frame(buf: &mut Vec<u8>) -> (r: Result<Option<Vec<u8>>, FrameError>)
    ensures
        match spec_decode_frame(old(buf)@) {
            Err(e) => r == Err::<Option<Vec<u8>>, FrameError>(e) && final(buf)@ == old(buf)@,
            Ok(None) => r matches Ok(None) && final(buf)@ == old(buf)@,
            Ok(Some((payload, consumed))) => r matches Ok(Some(p)) && p@ == payload
                && final(buf)@ == old(buf)@.skip(consumed as int),
        },
{
    let (payload, consumed) = match decode_frame(buf.as_slice()) {
        Ok(Some(frame)) => (vstd::slice::slice_to_vec(frame.payload), frame.consumed),
        Ok(None) => return Ok(None),
        Err(e) => return Err(e),
    };
    let mut rest: Vec<u8> = Vec::new();
    let mut i: usize = consumed;
    while i < buf.len()
        invariant
            consumed <= i <= buf@.len(),
            buf@ == old(buf)@,
            rest@ == buf@.subrange(consumed as int, i as int),
        decreases buf@.len() - i,
    {
        rest.push(buf[i]);
        assert(buf@.subrange(consumed as int, i + 1) == buf@.subrange(consumed as int, i as int).push(buf@[i as int]));
        i = i + 1;
    }
    assert(rest@ =~= old(buf)@.skip(consumed as int));
    *buf = rest;
    Ok(Some(payload))
}

/// Decoding a buffer that starts with an encoded frame gives back exactly that
/// frame's payload and length, whatever bytes follow it.
pub proof fn lemma_decode_of_encoded_frame(payload: Seq<u8>, rest: Seq<u8>)
    requires
        0 < payload.len() <= MAX_PAYLOAD_LEN,
    ensures
        spec_encode_frame(payload) == Ok::<Seq<u8>, FrameError>(frame_bytes(payload)),
        spec_decode_frame(frame_bytes(payload) + rest)
            == Ok::<Option<(Seq<u8>, nat)>, FrameError>(Some((payload, 4 + payload.len()))),
{
    let framed = frame_bytes(payload);
    let buf = framed + rest;
    lemma_be_u32_round_trip(payload.len());
    assert(buf.subrange(0, 4) == be_u32_bytes(payload.len()));
    assert(be_u32_value(buf) == be_u32_value(be_u32_bytes(payload.len())));
    assert(buf.subrange(4, 4 + payload.len() as int) == payload);
}

/// A buffer holding only part of an encoded frame decodes to "not yet":
/// the parser never reports a frame before all of its bytes have arrived.
pub proof fn lemma_decode_of_partial_frame(payload: Seq<u8>, k: int)
    requires
        0 < payload.len() <= MAX_PAYLOAD_LEN,
        0 <= k < 4 + payload.len(),
    ensures
        spec_decode_frame(frame_bytes(payload).subrange(0, k))
            == Ok::<Option<(Seq<u8>, nat)>, FrameError>(None),
{
    let prefix = frame_bytes(payload).subrange(0, k);
    lemma_be_u32_round_trip(payload.len());
    if k >= 4 {
        assert(be_u32_value(prefix) == be_u32_value(be_u32_bytes(payload.len())));
    }
}

} // verus!
