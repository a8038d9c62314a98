//! Per-user autostart of the tray: a value under the current user's `Run`
//! registry key naming the tray's executable. Writing the value sits behind
//! [`AutostartRegistrar`].

use vstd::prelude::*;
use crate::text::concat;

verus! {

/// The `Run` value name the tray is registered under.
pub const AUTOSTART_VALUE_NAME: &'static str = "OpenDisplay Tray";

/// A registration failure.
#[derive(Debug, PartialEq, Eq)]
pub enum AutostartError {
    /// The per-user autostart registry key could not be opened.
    RegistryKeyUnavailable,
    /// The value could not be written.
    WriteFailed { detail: String },
}

impl AutostartError {
    /// A description of the failure for the user.
    pub fn describe(&self) -> (text: String)
        ensures
            text@ == match *self {
                AutostartError::RegistryKeyUnavailable => "could not open the per-user autostart registry key"@,
                AutostartError::WriteFailed { detail } => "failed to write the autostart entry: "@ + detail@,
            },
    {
        match self {
            AutostartError::RegistryKeyUnavailable => String::from_str("could not open the per-user autostart registry key"),
            AutostartError::WriteFailed { detail } => concat("failed to write the autostart entry: ", detail.as_str()),
        }
    }
}

/// "Write the `Run` value `value_name` naming `executable_path`".
pub trait AutostartRegistrar {
    /// Whether writing the value `value_name` naming `executable_path` may
    /// give `r`. A registrar that says no more allows every result.
    closed spec fn may_register(&self, value_name: Seq<char>, executable_path: Seq<char>, r: Result<(), AutostartError>) -> bool {
        true
    }

    /// Whether this registrar keeps the record [`AutostartRegistrar::registrations`]. One that does
    /// not keeps none.
    closed spec fn keeps_record(&self) -> bool {
        false
    }

    /// Every registration so far, with its name, executable path and
    /// result, in order, where the record is kept.
    closed spec fn registrations(&self) -> Seq<(Seq<char>, Seq<char>, Result<(), AutostartError>)> {
        Seq::empty()
    }

    fn register(&mut self, value_name: &str, executable_path: &str) -> (r: Result<(), AutostartError>)
        ensures
            old(self).may_register(value_name@, executable_path@, r),
            final(self).keeps_record() == old(self).keeps_record(),
            old(self).keeps_record() ==> final(self).registrations() == old(self).registrations().push((value_name@, executable_path@, r)),
    ;
}

/// Registers the tray's executable to start at logon, under
/// [`AUTOSTART_VALUE_NAME`], asking the registrar once: the result is its for that value
/// name and `executable_path`.
pub fn register<R: AutostartRegistrar>(registrar: &mut R, executable_path: &str) -> (r: Result<(), AutostartError>)
    ensures
        old(registrar).may_register(AUTOSTART_VALUE_NAME@, executable_path@, r),
        final(registrar).keeps_record() == old(registrar).keeps_record(),
        old(registrar).keeps_record() ==> final(registrar).registrations() == old(registrar).registrations().push((AUTOSTART_VALUE_NAME@, executable_path@, r)),
{
    registrar.register(AUTOSTART_VALUE_NAME, executable_path)
}

} // verus!
