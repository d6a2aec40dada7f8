//! The error taxonomy of the library.

use vstd::prelude::*;

verus! {

/// Every failure the library can report.
///
/// `InvalidLength` and `InvalidCharacter` come from the hex codec;
/// `PrimitiveFailure` is reserved for a failing block-cipher primitive
/// invocation (the primitive used here is total, so the engine never
/// produces it, but it remains part of the boundary contract).
#[derive(Clone, Copy, Debug, PartialEq, Eq, Structural)]
pub enum Error {
    InvalidLength,
    InvalidCharacter,
    PrimitiveFailure,
}

impl Error {
    /// A short diagnostic text for shells to display.
    pub fn message(&self) -> (r: &'static str)
        ensures
            self is InvalidLength ==> r@ == "hex text does not match the required width"@,
            self is InvalidCharacter ==> r@ == "hex text contains a non-hexadecimal character"@,
            self is PrimitiveFailure ==> r@ == "the block cipher primitive failed"@,
    {
        match self {
            Error::InvalidLength => "hex text does not match the required width",
            Error::InvalidCharacter => "hex text contains a non-hexadecimal character",
            Error::PrimitiveFailure => "the block cipher primitive failed",
        }
    }
}

} // verus!
