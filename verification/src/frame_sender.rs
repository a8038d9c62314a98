//! Wires encoded frames into length-prefixed wire frames on the session's
//! connection, rejecting any payload that would exceed the frame bound
//! rather than emitting it truncated or split.
//!
//! Generic over [`ByteSink`] rather than tied to a socket, so it runs against
//! an in-memory `Vec<u8>` as well as a live connection.

use vstd::prelude::*;
use crate::protocol::{encode_frame, frame_error_text, spec_encode_frame, FrameError};
use crate::io_error::io_error_text;
use crate::text::concat;

verus! {

/// Somewhere bytes can be written, all or nothing per call, in order.
pub trait ByteSink {
    /// Everything written to the sink so far.
    spec fn written(&self) -> Seq<u8>;

    /// How many writes have failed so far.
    spec fn failures(&self) -> nat;

    /// Writes all of `bytes`. On success the sink's contents grow by exactly
    /// `bytes`, appended at the end; a failure is counted.
    fn write_all(&mut self, bytes: &[u8]) -> (r: Result<(), std::io::Error>)
        ensures
            r is Ok ==> final(self).written() == old(self).written() + bytes@,
            r is Ok ==> final(self).failures() == old(self).failures(),
            r is Err ==> final(self).failures() > old(self).failures(),
    ;
}

impl ByteSink for Vec<u8> {
    open spec fn written(&self) -> Seq<u8> {
        self@
    }

    /// Writing to memory never fails.
    open spec fn failures(&self) -> nat {
        0
    }

    fn write_all(&mut self, bytes: &[u8]) -> (r: Result<(), std::io::Error>)
        ensures
            r is Ok,
            final(self)@ == old(self)@ + bytes@,
    {
        let mut i: usize = 0;
        while i < bytes.len()
            invariant
                i <= bytes@.len(),
                self@ == old(self)@ + bytes@.subrange(0, i as int),
            decreases bytes@.len() - i,
        {
            self.push(bytes[i]);
            assert(bytes@.subrange(0, i + 1) == bytes@.subrange(0, i as int).push(bytes@[i as int]));
            i = i + 1;
        }
        assert(bytes@.subrange(0, bytes@.len() as int) == bytes@);
        Ok(())
    }
}

/// An error from [`FrameSender::send`]. `Oversized` means the payload was
/// rejected before touching the underlying stream at all.
#[derive(Debug)]
pub enum FrameSendError {
    Io(std::io::Error),
    /// The payload violates the `1 ..= 2^20 - 1`-byte frame bound.
    Oversized(FrameError),
}

impl FrameSendError {
    /// A description of the error: the I/O error's own text, or the framing
    /// bound the payload violates.
    pub fn describe(&self) -> (text: String)
        ensures
            match *self {
                FrameSendError::Io(_) => "frame send I/O error: "@.is_prefix_of(text@),
                FrameSendError::Oversized(e) => text@ == "frame rejected before sending: "@ + frame_error_text(e),
            },
    {
        match self {
            FrameSendError::Io(e) => {
                let detail = io_error_text(e);
                concat("frame send I/O error: ", detail.as_str())
            },
            FrameSendError::Oversized(e) => {
                let detail = e.describe();
                concat("frame rejected before sending: ", detail.as_str())
            },
        }
    }
}

/// Sends encoded frames (video or control) on `S` as length-prefixed wire
/// frames.
pub struct FrameSender<S: ByteSink> {
    stream: S,
}

impl<S: ByteSink> FrameSender<S> {
    /// The stream the sender writes to.
    pub closed spec fn inner(&self) -> S {
        self.stream
    }

    pub fn new(stream: S) -> (r: Self)
        ensures
            r.inner() == stream,
    {
        Self { stream }
    }

    /// Encodes `payload` as one length-prefixed frame and writes it to the
    /// underlying stream. A payload outside the frame bound is rejected
    /// without writing anything.
    pub fn send(&mut self, payload: &[u8]) -> (r: Result<(), FrameSendError>)
        ensures
            spec_encode_frame(payload@) matches Err(e) ==> {
                &&& r matches Err(FrameSendError::Oversized(e2)) && e2 == e
                &&& final(self).inner() == old(self).inner()
            },
            spec_encode_frame(payload@) matches Ok(framed) ==> {
                &&& !(r matches Err(FrameSendError::Oversized(_)))
                &&& r is Ok ==> final(self).inner().written() == old(self).inner().written() + framed
                &&& r is Ok ==> final(self).inner().failures() == old(self).inner().failures()
                &&& r matches Err(FrameSendError::Io(_)) ==> final(self).inner().failures() > old(
                    self,
                ).inner().failures()
            },
    {
        let framed = match encode_frame(payload) {
            Ok(f) => f,
            Err(e) => return Err(FrameSendError::Oversized(e)),
        };
        match self.stream.write_all(framed.as_slice()) {
            Ok(()) => Ok(()),
            Err(e) => Err(FrameSendError::Io(e)),
        }
    }

    /// Returns the underlying stream, consuming the sender.
    pub fn into_inner(self) -> (s: S)
        ensures
            s == self.inner(),
    {
        self.stream
    }
}

} // verus!
