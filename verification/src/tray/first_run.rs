//! The first-run "driver not installed" flow: the core's driver-missing
//! `Error` turns on a single offer to launch the installer; declining it
//! leaves the tray usable in a "setup incomplete" state for the rest of the
//! session. Nothing persists across launches, so a new launch offers again.

use vstd::prelude::*;
use crate::ipc::CoreToTray;
use crate::text::str_equal;

verus! {

/// The `Error` message text with which the core reports the virtual-display
/// driver missing or failing to load; the IPC schema has no dedicated
/// variant for it.
pub const DRIVER_MISSING_MESSAGE: &'static str = "driver not installed";

/// What the first-run flow shows.
#[derive(Debug, Clone, Copy, PartialEq, Eq, Structural)]
pub enum FirstRunState {
    /// The driver is missing: offer the single "set up virtual display"
    /// action.
    OfferInstall,
    /// The user declined this session; setup remains incomplete.
    SetupIncompleteDeclined,
}

/// Whether the install offer is showing, driven by the core's messages.
#[derive(Debug)]
pub struct FirstRunFlow {
    state: Option<FirstRunState>,
}

impl FirstRunFlow {
    /// The state shown, if any.
    pub closed spec fn shown(&self) -> Option<FirstRunState> {
        self.state
    }

    pub fn new() -> (f: Self)
        ensures
            f.shown() is None,
    {
        FirstRunFlow { state: None }
    }

    /// Applies a core message: only the driver-missing `Error` changes the
    /// state (to the offer); every other message leaves it, so a decline is
    /// never cleared by an unrelated update.
    pub fn apply(&mut self, msg: &CoreToTray)
        ensures
            (match *msg {
                CoreToTray::Error { message } => message@ == DRIVER_MISSING_MESSAGE@,
                _ => false,
            }) ==> final(self).shown() == Some(FirstRunState::OfferInstall),
            !(match *msg {
                CoreToTray::Error { message } => message@ == DRIVER_MISSING_MESSAGE@,
                _ => false,
            }) ==> final(self).shown() == old(self).shown(),
    {
        if let CoreToTray::Error { message } = msg {
            if str_equal(message.as_str(), DRIVER_MISSING_MESSAGE) {
                self.state = Some(FirstRunState::OfferInstall);
            }
        }
    }

    /// The state to show, or `None` when there is nothing to offer.
    pub fn state(&self) -> (s: Option<FirstRunState>)
        ensures
            s == self.shown(),
    {
        self.state
    }

    /// Records that the user declined the offer: a showing offer becomes
    /// "setup incomplete"; otherwise nothing changes.
    pub fn decline(&mut self)
        ensures
            old(self).shown() == Some(FirstRunState::OfferInstall)
                ==> final(self).shown() == Some(FirstRunState::SetupIncompleteDeclined),
            old(self).shown() != Some(FirstRunState::OfferInstall) ==> final(self).shown() == old(self).shown(),
    {
        if self.state == Some(FirstRunState::OfferInstall) {
            self.state = Some(FirstRunState::SetupIncompleteDeclined);
        }
    }
}

impl Default for FirstRunFlow {
    fn default() -> (f: Self)
        ensures
            f.shown() is None,
    {
        FirstRunFlow::new()
    }
}

/// "Launch the installer".
pub trait InstallerLauncher {
    /// Whether launching may give `r`. A launcher that says no more allows
    /// every result.
    closed spec fn may_launch(&self, r: Result<(), std::io::Error>) -> bool {
        true
    }

    /// Whether this launcher keeps the record [`InstallerLauncher::launches`].
    /// One that does not keeps none.
    closed spec fn keeps_record(&self) -> bool {
        false
    }

    /// The result of every launch so far, in order, where the record is kept.
    closed spec fn launches(&self) -> Seq<Result<(), std::io::Error>> {
        Seq::empty()
    }

    fn launch(&mut self) -> (r: Result<(), std::io::Error>)
        ensures
            old(self).may_launch(r),
            final(self).keeps_record() == old(self).keeps_record(),
            old(self).keeps_record() ==> final(self).launches() == old(self).launches().push(r),
    ;
}

/// Accepts the offer: launches the installer via `launcher`, once, with its
/// result.
pub fn accept<L: InstallerLauncher>(launcher: &mut L) -> (r: Result<(), std::io::Error>)
    ensures
        old(launcher).may_launch(r),
        final(launcher).keeps_record() == old(launcher).keeps_record(),
        old(launcher).keeps_record() ==> final(launcher).launches() == old(launcher).launches().push(r),
{
    launcher.launch()
}

} // verus!
