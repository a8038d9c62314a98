//! Byte streams from outside the library (sockets, pipes) as the verified
//! sink and connection the framing code writes to and reads from: a
//! [`Recorded`] stream keeps, as ghost state, every byte it has read and
//! every byte whose write succeeded.

use vstd::prelude::*;
use crate::frame_sender::ByteSink;
use crate::protocol_session::Connection;

verus! {

/// "Write all of these bytes".
pub trait ByteWrite {
    fn write_all(&mut self, bytes: &[u8]) -> Result<(), std::io::Error>;
}

/// "Read whatever is available, at most `max` bytes; none means the peer
/// closed the stream".
pub trait ByteRead {
    fn read_some(&mut self, max: usize) -> Result<Vec<u8>, std::io::Error>;
}

/// A stream with the record of what was read from it and written to it.
pub struct Recorded<T> {
    inner: T,
    read: Ghost<Seq<u8>>,
    sent: Ghost<Seq<u8>>,
    failed: Ghost<nat>,
    end_reported: Ghost<bool>,
}

impl<T> Recorded<T> {
    /// The stream underneath.
    pub closed spec fn stream(&self) -> T {
        self.inner
    }

    /// Every byte read so far.
    pub closed spec fn bytes_read(&self) -> Seq<u8> {
        self.read@
    }

    /// Every byte whose write succeeded so far.
    pub closed spec fn bytes_sent(&self) -> Seq<u8> {
        self.sent@
    }

    /// How many reads and writes have failed so far.
    pub closed spec fn failed_calls(&self) -> nat {
        self.failed@
    }

    /// Starts recording `inner`, with nothing read or written yet.
    pub fn new(inner: T) -> (r: Self)
        ensures
            r.stream() == inner,
            r.bytes_read() == Seq::<u8>::empty(),
            r.bytes_sent() == Seq::<u8>::empty(),
            r.failed_calls() == 0,
            !r.end_reported(),
    {
        Recorded {
            inner,
            read: Ghost(Seq::empty()),
            sent: Ghost(Seq::empty()),
            failed: Ghost(0),
            end_reported: Ghost(false),
        }
    }

    /// Whether a read has reported that the peer closed the stream.
    pub closed spec fn end_reported(&self) -> bool {
        self.end_reported@
    }

    /// The stream underneath, ending the record.
    pub fn into_inner(self) -> (inner: T)
        ensures
            inner == self.stream(),
    {
        self.inner
    }
}

impl<T: ByteWrite> ByteSink for Recorded<T> {
    closed spec fn written(&self) -> Seq<u8> {
        self.bytes_sent()
    }

    closed spec fn failures(&self) -> nat {
        self.failed_calls()
    }

    fn write_all(&mut self, bytes: &[u8]) -> (r: Result<(), std::io::Error>) {
        let r = self.inner.write_all(bytes);
        if r.is_ok() {
            self.sent = Ghost(self.sent@ + bytes@);
        } else {
            self.failed = Ghost(self.failed@ + 1);
        }
        r
    }
}

impl<T: ByteRead + ByteWrite> Connection for Recorded<T> {
    closed spec fn consumed(&self) -> Seq<u8> {
        self.bytes_read()
    }

    closed spec fn written(&self) -> Seq<u8> {
        self.bytes_sent()
    }

    closed spec fn failures(&self) -> nat {
        self.failed_calls()
    }

    closed spec fn closed_seen(&self) -> bool {
        self.end_reported()
    }

    fn read_some(&mut self, max: usize) -> (r: Result<Vec<u8>, std::io::Error>) {
        match self.inner.read_some(max) {
            Ok(mut bytes) => {
                if bytes.len() > max {
                    bytes.truncate(max);
                }
                self.read = Ghost(self.read@ + bytes@);
                if bytes.len() == 0 {
                    self.end_reported = Ghost(true);
                }
                Ok(bytes)
            },
            Err(e) => {
                self.failed = Ghost(self.failed@ + 1);
                Err(e)
            },
        }
    }

    fn write_all(&mut self, bytes: &[u8]) -> (r: Result<(), std::io::Error>) {
        let r = self.inner.write_all(bytes);
        if r.is_ok() {
            self.sent = Ghost(self.sent@ + bytes@);
        } else {
            self.failed = Ghost(self.failed@ + 1);
            assert(self.sent@.skip(self.sent@.len() as int) =~= Seq::<u8>::empty());
        }
        r
    }
}

} // verus!
