//! Installing the virtual-display driver package, and checking that its
//! device interface came up. Adding the package and looking for the
//! interface sit behind [`DriverPackageInstaller`] and
//! [`DeviceInterfaceCheck`]; whether the package file exists comes from the
//! caller.

use vstd::prelude::*;
use crate::text::concat;
use crate::json::{i32_text, signed_decimal_text};

verus! {

/// A specific installation failure.
#[derive(Debug, PartialEq, Eq)]
pub enum DriverInstallError {
    /// The driver package is not where it should be.
    PackageNotFound { path: String },
    /// The package installer refused it, with this exit code (`-1` when it
    /// could not be run or reported none).
    PnpUtilRejected { exit_code: i32 },
    /// The package installed, but its device interface never appeared.
    DeviceInterfaceNeverAppeared,
}

impl DriverInstallError {
    /// A description of the failure for the user.
    pub fn describe(&self) -> (text: String)
        ensures
            text@ == match *self {
                DriverInstallError::PackageNotFound { path } => "driver package not found at '"@ + path@
                    + "' \u{2014} reinstall the app"@,
                DriverInstallError::PnpUtilRejected { exit_code } => "Windows rejected the driver package (pnputil exit code "@
                    + signed_decimal_text(exit_code as int)
                    + ") \u{2014} it may be corrupt or improperly signed"@,
                DriverInstallError::DeviceInterfaceNeverAppeared =>
                    "the driver package installed but its device interface never became available \u{2014} it may have failed to load"@,
            },
    {
        match self {
            DriverInstallError::PackageNotFound { path } => {
                let head = concat("driver package not found at '", path.as_str());
                concat(head.as_str(), "' \u{2014} reinstall the app")
            },
            DriverInstallError::PnpUtilRejected { exit_code } => {
                let code = i32_text(*exit_code);
                let head = concat("Windows rejected the driver package (pnputil exit code ", code.as_str());
                concat(head.as_str(), ") \u{2014} it may be corrupt or improperly signed")
            },
            DriverInstallError::DeviceInterfaceNeverAppeared => String::from_str(
                "the driver package installed but its device interface never became available \u{2014} it may have failed to load",
            ),
        }
    }
}

/// "Add and install the driver package at `inf_path`", returning the
/// installer's exit code.
pub trait DriverPackageInstaller {
    /// Whether installing the package at `inf_path` may give `r`. An
    /// installer that says no more allows every result.
    closed spec fn may_install(&self, inf_path: Seq<char>, r: Result<i32, std::io::Error>) -> bool {
        true
    }

    /// Whether this installer keeps the record
    /// [`DriverPackageInstaller::installs`]. One that does not keeps none.
    closed spec fn keeps_record(&self) -> bool {
        false
    }

    /// Every install so far, with its package path and result, in order,
    /// where the installer keeps the record.
    closed spec fn installs(&self) -> Seq<(Seq<char>, Result<i32, std::io::Error>)> {
        Seq::empty()
    }

    fn install(&mut self, inf_path: &str) -> (r: Result<i32, std::io::Error>)
        ensures
            old(self).may_install(inf_path@, r),
            final(self).keeps_record() == old(self).keeps_record(),
            old(self).keeps_record() ==> final(self).installs() == old(self).installs().push((inf_path@, r)),
    ;
}

/// "Is the driver's device interface present".
pub trait DeviceInterfaceCheck {
    /// Whether the check may answer `available`. A check that says no more
    /// allows either answer.
    closed spec fn may_answer(&self, available: bool) -> bool {
        true
    }

    /// Whether this check keeps the record [`DeviceInterfaceCheck::answers`].
    /// One that does not keeps none.
    closed spec fn keeps_record(&self) -> bool {
        false
    }

    /// Every answer given so far, in order, where the check keeps the
    /// record.
    closed spec fn answers(&self) -> Seq<bool> {
        Seq::empty()
    }

    fn is_available(&mut self) -> (available: bool)
        ensures
            old(self).may_answer(available),
            final(self).keeps_record() == old(self).keeps_record(),
            old(self).keeps_record() ==> final(self).answers() == old(self).answers().push(available),
    ;
}

/// What an installer run amounts to: success on exit code 0; otherwise the
/// rejection with its code, `-1` when the installer could not be run.
pub open spec fn spec_install_step(exit: Result<i32, std::io::Error>) -> Result<(), DriverInstallError> {
    match exit {
        Err(_) => Err(DriverInstallError::PnpUtilRejected { exit_code: -1i32 }),
        Ok(0) => Ok(()),
        Ok(code) => Err(DriverInstallError::PnpUtilRejected { exit_code: code }),
    }
}

/// Classifies an installer run.
pub fn install_step(exit: Result<i32, std::io::Error>) -> (r: Result<(), DriverInstallError>)
    ensures
        r == spec_install_step(exit),
{
    match exit {
        Err(_) => Err(DriverInstallError::PnpUtilRejected { exit_code: -1 }),
        Ok(code) => {
            if code == 0 {
                Ok(())
            } else {
                Err(DriverInstallError::PnpUtilRejected { exit_code: code })
            }
        },
    }
}

/// What the interface check's answer amounts to after a successful install.
pub open spec fn spec_interface_step(available: bool) -> Result<(), DriverInstallError> {
    if available {
        Ok(())
    } else {
        Err(DriverInstallError::DeviceInterfaceNeverAppeared)
    }
}

/// Classifies the interface check's answer.
pub fn interface_step(available: bool) -> (r: Result<(), DriverInstallError>)
    ensures
        r == spec_interface_step(available),
{
    if available {
        Ok(())
    } else {
        Err(DriverInstallError::DeviceInterfaceNeverAppeared)
    }
}

/// What an install of a package that exists amounts to, from the installer's
/// result and the interface check's answer: the installer's failure first,
/// else the check's.
pub open spec fn spec_install_outcome(exit: Result<i32, std::io::Error>, available: bool) -> Result<(), DriverInstallError> {
    match spec_install_step(exit) {
        Err(e) => Err(e),
        Ok(()) => spec_interface_step(available),
    }
}

/// Installs the driver package at `inf_path`, whose presence on disk is
/// `package_exists`, then verifies its device interface appeared: a missing
/// package fails before anything runs; a refused package fails with the
/// installer's code; an interface that never shows up fails last. The
/// installer runs once, only for a package that exists, and the interface is
/// checked once, only after the installer succeeded; a step that does not
/// run leaves its object untouched.
pub fn install_driver<I: DriverPackageInstaller, C: DeviceInterfaceCheck>(
    inf_path: &str,
    package_exists: bool,
    installer: &mut I,
    interface_check: &mut C,
) -> (r: Result<(), DriverInstallError>)
    ensures
        !package_exists ==> {
            &&& r matches Err(DriverInstallError::PackageNotFound { path }) && path@ == inf_path@
            &&& *final(installer) == *old(installer)
            &&& *final(interface_check) == *old(interface_check)
        },
        package_exists ==> exists|exit: Result<i32, std::io::Error>, available: bool|
            {
                &&& old(installer).may_install(inf_path@, exit)
                &&& final(installer).keeps_record() == old(installer).keeps_record()
                &&& old(installer).keeps_record() ==> final(installer).installs() == old(installer).installs().push(
                    (inf_path@, exit),
                )
                &&& spec_install_step(exit) is Ok ==> {
                    &&& old(interface_check).may_answer(available)
                    &&& final(interface_check).keeps_record() == old(interface_check).keeps_record()
                    &&& old(interface_check).keeps_record() ==> final(interface_check).answers() == old(
                        interface_check,
                    ).answers().push(available)
                }
                &&& spec_install_step(exit) is Err ==> *final(interface_check) == *old(interface_check)
                &&& r == spec_install_outcome(exit, available)
            },
{
    if !package_exists {
        return Err(DriverInstallError::PackageNotFound { path: String::from_str(inf_path) });
    }
    let exit = installer.install(inf_path);
    let ghost exit_seen = exit;
    match install_step(exit) {
        Err(e) => {
            assert(spec_install_outcome(exit_seen, false) == Err::<(), DriverInstallError>(e));
            return Err(e);
        },
        Ok(()) => {},
    }
    let available = interface_check.is_available();
    let r = interface_step(available);
    assert(spec_install_outcome(exit_seen, available) == r);
    r
}

} // verus!
