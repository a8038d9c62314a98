//! The "open logs" action: ask the core to open its log folder when it is
//! reachable, else open the folder directly. Writing to the pipe and opening
//! a folder sit behind [`IpcRequester`] and [`FolderOpener`]; where the log
//! folder is comes from the caller.

use vstd::prelude::*;
use super::ipc_client::ConnectOutcome;

verus! {

/// What "open logs" does.
#[derive(Debug, PartialEq, Eq)]
pub enum OpenLogsAction {
    /// The core is reachable: ask it to open its own log folder.
    RequestViaIpc,
    /// The core is unreachable: open the log folder at this path directly.
    OpenDirectly(String),
}

/// Decides the action from a connection outcome: over IPC when connected,
/// else directly at `log_dir`, the same folder the core would open.
pub fn decide<S>(outcome: &ConnectOutcome<S>, log_dir: String) -> (action: OpenLogsAction)
    ensures
        match outcome {
            ConnectOutcome::Connected(_) => action == OpenLogsAction::RequestViaIpc,
            ConnectOutcome::CoreNotRunning => action == OpenLogsAction::OpenDirectly(log_dir),
        },
{
    match outcome {
        ConnectOutcome::Connected(_) => OpenLogsAction::RequestViaIpc,
        ConnectOutcome::CoreNotRunning => OpenLogsAction::OpenDirectly(log_dir),
    }
}

/// "Send the `OpenLogFolder` request to the core".
pub trait IpcRequester {
    /// Whether sending the request may give `r`. A requester that says no
    /// more allows every result.
    closed spec fn may_request(&self, r: Result<(), std::io::Error>) -> bool {
        true
    }

    /// Whether this requester keeps the record
    /// [`IpcRequester::requests`]. One that does not keeps none.
    closed spec fn keeps_record(&self) -> bool {
        false
    }

    /// The result of every request so far, in order, where the record is
    /// kept.
    closed spec fn requests(&self) -> Seq<Result<(), std::io::Error>> {
        Seq::empty()
    }

    fn request_open_log_folder(&mut self) -> (r: Result<(), std::io::Error>)
        ensures
            old(self).may_request(r),
            final(self).keeps_record() == old(self).keeps_record(),
            old(self).keeps_record() ==> final(self).requests() == old(self).requests().push(r),
    ;
}

/// "Open this folder in the file browser".
pub trait FolderOpener {
    /// Whether opening `path` may give `r`. An opener that says no more
    /// allows every result.
    closed spec fn may_open(&self, path: Seq<char>, r: Result<(), std::io::Error>) -> bool {
        true
    }

    /// Whether this opener keeps the record [`FolderOpener::opened`]. One
    /// that does not keeps none.
    closed spec fn keeps_record(&self) -> bool {
        false
    }

    /// Every folder opened so far, with its result, in order, where the
    /// record is kept.
    closed spec fn opened(&self) -> Seq<(Seq<char>, Result<(), std::io::Error>)> {
        Seq::empty()
    }

    fn open(&mut self, path: &str) -> (r: Result<(), std::io::Error>)
        ensures
            old(self).may_open(path@, r),
            final(self).keeps_record() == old(self).keeps_record(),
            old(self).keeps_record() ==> final(self).opened() == old(self).opened().push((path@, r)),
    ;
}

/// Carries out `action`: the IPC request through `requester`, or the
/// direct open of the action's folder through `opener`, once, and only that
/// one; the other is left untouched.
pub fn perform<R: IpcRequester, O: FolderOpener>(action: &OpenLogsAction, requester: &mut R, opener: &mut O) -> (r: Result<
    (),
    std::io::Error,
>)
    ensures
        match action {
            OpenLogsAction::RequestViaIpc => {
                &&& old(requester).may_request(r)
                &&& final(requester).keeps_record() == old(requester).keeps_record()
                &&& old(requester).keeps_record() ==> final(requester).requests() == old(requester).requests().push(r)
                &&& *final(opener) == *old(opener)
            },
            OpenLogsAction::OpenDirectly(path) => {
                &&& old(opener).may_open(path@, r)
                &&& final(opener).keeps_record() == old(opener).keeps_record()
                &&& old(opener).keeps_record() ==> final(opener).opened() == old(opener).opened().push((path@, r))
                &&& *final(requester) == *old(requester)
            },
        },
{
    match action {
        OpenLogsAction::RequestViaIpc => requester.request_open_log_folder(),
        OpenLogsAction::OpenDirectly(path) => opener.open(path.as_str()),
    }
}

} // verus!
