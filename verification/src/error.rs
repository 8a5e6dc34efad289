//! The error type shared by every codec.

use vstd::prelude::*;

verus! {

/// Why a read or a write was refused.
///
/// These are recoverable: they report malformed data, never a misuse of the
/// library. A misuse (a value that does not fit the format it is written
/// through) is ruled out by the `requires` of [`crate::WriteFn::write`].
#[derive(Clone, Copy, Debug, PartialEq, Eq, Structural)]
pub enum BinError {
    /// The bytes read are not valid UTF-8.
    Utf8Conversion,
    /// The code units read are not valid UTF-16.
    Utf16Conversion,
    /// A value read differs from the one the format demands.
    CheckFail,
    /// A value does not fit the type it is converted to.
    CastFail,
    /// The source ended before the value did.
    UnexpectedEof,
}

impl BinError {
    /// A short description of the error, for messages.
    pub fn description(&self) -> (text: &'static str)
        ensures
            text@ == (match *self {
                BinError::Utf8Conversion | BinError::Utf16Conversion =>
                    "Failed string conversion"@,
                BinError::CheckFail => "Check failed"@,
                BinError::CastFail => "Cast failed"@,
                BinError::UnexpectedEof => "Unexpected end of input"@,
            }),
    {
        match *self {
            BinError::Utf8Conversion => "Failed string conversion",
            BinError::Utf16Conversion => "Failed string conversion",
            BinError::CheckFail => "Check failed",
            BinError::CastFail => "Cast failed",
            BinError::UnexpectedEof => "Unexpected end of input",
        }
    }
}

} // verus!
