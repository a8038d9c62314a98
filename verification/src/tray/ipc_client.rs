//! The tray's client for the core's named pipe. A missing or unreadable
//! pipe surfaces as an explicit "core not running" state, never as a picker
//! that silently shows an empty list. Opening the pipe itself sits behind
//! [`PipeConnector`].

use vstd::prelude::*;
use crate::ipc::{from_line, spec_from_line, CoreToTray, CoreToTrayView, IpcError};
use crate::text::{spec_trim_end, trim_end};

verus! {

/// The pipe the core listens on.
pub const PIPE_NAME: &'static str = "\\\\.\\pipe\\opendisplay-core";

/// The outcome of attempting to reach the core over the pipe.
#[derive(Debug)]
pub enum ConnectOutcome<S> {
    /// The pipe connected; `S` is the live stream of the core's messages.
    Connected(S),
    /// The pipe is missing or unreadable: the core is not running, or is
    /// running but not elevated. Never conflated with "no devices".
    CoreNotRunning,
}

/// "Open a connection to the named pipe at `pipe_name`".
pub trait PipeConnector {
    type Stream;

    /// Whether opening the pipe at `pipe_name` may give `r`. A connector
    /// that says no more allows every result.
    closed spec fn may_connect(&self, pipe_name: Seq<char>, r: Result<Self::Stream, std::io::Error>) -> bool {
        true
    }

    /// Whether this connector keeps the record [`PipeConnector::attempts`].
    /// One that does not keeps none.
    closed spec fn keeps_record(&self) -> bool {
        false
    }

    /// Every attempt so far, with the pipe name and its result, in order,
    /// where the record is kept.
    closed spec fn attempts(&self) -> Seq<(Seq<char>, Result<Self::Stream, std::io::Error>)> {
        Seq::empty()
    }

    fn connect(&mut self, pipe_name: &str) -> (r: Result<Self::Stream, std::io::Error>)
        ensures
            old(self).may_connect(pipe_name@, r),
            final(self).keeps_record() == old(self).keeps_record(),
            old(self).keeps_record() ==> final(self).attempts() == old(self).attempts().push((pipe_name@, r)),
    ;
}

/// The outcome an attempt to open the pipe classifies as: connected when it
/// opened, core not running when it failed.
pub open spec fn spec_classify<S>(result: Result<S, std::io::Error>) -> ConnectOutcome<S> {
    match result {
        Ok(stream) => ConnectOutcome::Connected(stream),
        Err(_) => ConnectOutcome::CoreNotRunning,
    }
}

/// Classifies an attempt to open the pipe.
pub fn classify<S>(result: Result<S, std::io::Error>) -> (outcome: ConnectOutcome<S>)
    ensures
        outcome == spec_classify(result),
{
    match result {
        Ok(stream) => ConnectOutcome::Connected(stream),
        Err(_) => ConnectOutcome::CoreNotRunning,
    }
}

/// Attempts, once, to connect to the core's pipe via `connector`: the
/// stream when the pipe opened, else the explicit "core not running" state.
pub fn connect<C: PipeConnector>(connector: &mut C, pipe_name: &str) -> (outcome: ConnectOutcome<C::Stream>)
    ensures
        final(connector).keeps_record() == old(connector).keeps_record(),
        exists|result: Result<C::Stream, std::io::Error>|
            {
                &&& old(connector).may_connect(pipe_name@, result)
                &&& old(connector).keeps_record() ==> final(connector).attempts() == old(connector).attempts().push(
                    (pipe_name@, result),
                )
                &&& outcome == spec_classify(result)
            },
{
    let result = connector.connect(pipe_name);
    let ghost r = result;
    let outcome = classify(result);
    assert(outcome == spec_classify(r));
    outcome
}

/// Reads one line the pipe delivered as a `CoreToTray` message, ignoring
/// trailing white space (the line's newline among it). A malformed line is
/// an error, never a panic.
pub fn message_from_line(line: &str) -> (r: Result<CoreToTray, IpcError>)
    ensures
        match r {
            Ok(m) => spec_from_line::<CoreToTray>(spec_trim_end(line@)) == Ok::<CoreToTrayView, IpcError>(m@),
            Err(e) => spec_from_line::<CoreToTray>(spec_trim_end(line@)) == Err::<CoreToTrayView, IpcError>(e),
        },
{
    let trimmed = trim_end(line);
    from_line::<CoreToTray>(trimmed.as_str())
}

} // verus!
