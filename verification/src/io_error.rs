//! The I/O error type that byte sinks and sources report, declared so that
//! verified code can carry it through unchanged.

use vstd::prelude::*;

verus! {

/// `std::io::Error`, carried through verified code as an opaque value.
#[verifier::external_type_specification]
#[verifier::external_body]
pub struct ExIoError(std::io::Error);

/// `std::io::Error`'s `Display` text. An operating-system error reads as the
/// system's own message for it, which varies by machine and language, so the
/// contract states nothing of the text.
#[verifier::external_body]
pub(crate) fn io_error_text(e: &std::io::Error) -> String {
    e.to_string()
}

} // verus!
