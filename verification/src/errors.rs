//! Error taxonomy for the decoder: hard errors abort the current file.

use vstd::prelude::*;

verus! {

/// Why decoding a save file was aborted.
#[derive(Clone, Copy, Debug, PartialEq, Eq, Structural)]
pub enum Sc2Error {
    /// A tag or a declared length does not match what the format requires.
    FormatMismatch,
    /// A chunk or a record overruns the input buffer.
    TruncatedInput,
    /// A building id is absent from the building lookup.
    UnknownLookupId { id: u8 },
}

impl Sc2Error {
    /// A short description of the error.
    pub fn message(&self) -> (r: String)
        ensures
            *self is FormatMismatch ==> r@ == "tag or length does not match the expected kind"@,
            *self is TruncatedInput ==> r@ == "chunk or record overruns the input buffer"@,
            *self is UnknownLookupId ==> r@ == "building id is absent from the building lookup"@,
    {
        match self {
            Sc2Error::FormatMismatch => String::from_str(
                "tag or length does not match the expected kind",
            ),
            Sc2Error::TruncatedInput => String::from_str("chunk or record overruns the input buffer"),
            Sc2Error::UnknownLookupId { .. } => String::from_str(
                "building id is absent from the building lookup",
            ),
        }
    }
}

} // verus!
