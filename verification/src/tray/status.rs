//! The tray's status: the pipe-connection outcome and the core's `Status`
//! and `Error` messages, classified into a small set of distinct states.
//! Rendering them on the tray icon is OS work outside this library.

use vstd::prelude::*;
use crate::ipc::{opt_stats_view, opt_str_view, CoreToTray, SessionStats, StatsView, Transport};
use crate::text::{concat, str_equal};
use super::ipc_client::ConnectOutcome;

verus! {

/// The `Error` message text with which the core reports failing its
/// elevation self-check; the IPC schema has no dedicated variant for it.
pub const NOT_ELEVATED_MESSAGE: &'static str = "not elevated";

/// The distinct states the tray renders.
#[derive(Debug, PartialEq, Eq)]
pub enum TrayStatus {
    /// The pipe to the core is missing or unreadable.
    CoreNotRunning,
    /// The core is reachable but failed its elevation self-check.
    NotElevated,
    /// Reachable, elevated, but no active session.
    Disconnected,
    /// An active session, with what the core last reported of it.
    Connected { device: Option<String>, transport: Option<Transport>, stats: Option<SessionStats> },
}

impl Clone for TrayStatus {
    fn clone(&self) -> (r: Self)
        ensures
            r == *self,
    {
        match self {
            TrayStatus::CoreNotRunning => TrayStatus::CoreNotRunning,
            TrayStatus::NotElevated => TrayStatus::NotElevated,
            TrayStatus::Disconnected => TrayStatus::Disconnected,
            TrayStatus::Connected { device, transport, stats } => TrayStatus::Connected {
                device: crate::ipc::clone_opt_string(device),
                transport: *transport,
                stats: match stats {
                    Some(s) => Some(s.clone()),
                    None => None,
                },
            },
        }
    }
}

/// The status a failed connection shows: "core not running" when the pipe
/// could not be reached, none for a live connection (its messages decide).
pub fn status_for_connect_failure<S>(outcome: &ConnectOutcome<S>) -> (r: Option<TrayStatus>)
    ensures
        match outcome {
            ConnectOutcome::CoreNotRunning => r == Some(TrayStatus::CoreNotRunning),
            ConnectOutcome::Connected(_) => r is None,
        },
{
    match outcome {
        ConnectOutcome::CoreNotRunning => Some(TrayStatus::CoreNotRunning),
        ConnectOutcome::Connected(_) => None,
    }
}

/// The status a core message calls for: a `Status` gives connected (with
/// its device, transport and statistics) or disconnected; the not-elevated
/// `Error` gives not elevated; a device list or any other error leaves the
/// status as it was (`None`).
pub fn status_for_message(msg: &CoreToTray) -> (r: Option<TrayStatus>)
    ensures
        match *msg {
            CoreToTray::DeviceList(_) => r is None,
            CoreToTray::Status { device, transport, connected, stats } => if connected {
                r == Some(TrayStatus::Connected { device, transport, stats })
            } else {
                r == Some(TrayStatus::Disconnected)
            },
            CoreToTray::Error { message } => if message@ == NOT_ELEVATED_MESSAGE@ {
                r == Some(TrayStatus::NotElevated)
            } else {
                r is None
            },
        },
{
    match msg {
        CoreToTray::DeviceList(_) => None,
        CoreToTray::Status { device, transport, connected, stats } => {
            if *connected {
                Some(
                    TrayStatus::Connected {
                        device: crate::ipc::clone_opt_string(device),
                        transport: *transport,
                        stats: match stats {
                            Some(s) => Some(s.clone()),
                            None => None,
                        },
                    },
                )
            } else {
                Some(TrayStatus::Disconnected)
            }
        },
        CoreToTray::Error { message } => {
            if str_equal(message.as_str(), NOT_ELEVATED_MESSAGE) {
                Some(TrayStatus::NotElevated)
            } else {
                None
            }
        },
    }
}

/// The tooltip text a status shows.
pub open spec fn spec_tooltip_text(status: TrayStatus) -> Seq<char> {
    match status {
        TrayStatus::CoreNotRunning => "OpenDisplay: core not running"@,
        TrayStatus::NotElevated => "OpenDisplay: not elevated \u{2014} setup incomplete"@,
        TrayStatus::Disconnected => "OpenDisplay: no device connected"@,
        TrayStatus::Connected { device, .. } => match device {
            Some(name) => "OpenDisplay: connected to "@ + name@,
            None => "OpenDisplay: connected"@,
        },
    }
}

/// The tray icon's tooltip text for a status.
pub fn tooltip_text(status: &TrayStatus) -> (text: String)
    ensures
        text@ == spec_tooltip_text(*status),
{
    match status {
        TrayStatus::CoreNotRunning => String::from_str("OpenDisplay: core not running"),
        TrayStatus::NotElevated => String::from_str("OpenDisplay: not elevated \u{2014} setup incomplete"),
        TrayStatus::Disconnected => String::from_str("OpenDisplay: no device connected"),
        TrayStatus::Connected { device, .. } => match device {
            Some(name) => concat("OpenDisplay: connected to ", name.as_str()),
            None => String::from_str("OpenDisplay: connected"),
        },
    }
}

} // verus!
