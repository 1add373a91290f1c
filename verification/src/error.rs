//! The ways in which a typed read or write can fail.
use vstd::prelude::*;

verus! {

/// Why a decode or encode operation did not complete.
#[derive(Clone, Copy, Debug, PartialEq, Eq)]
pub enum CodecError {
    /// The stream ended before the required number of bytes had been read.
    IncompleteRead,
    /// The stream did not accept all of the bytes handed to it.
    WriteFailure,
    /// The bytes read are not well-formed text although text was asked for.
    InvalidEncoding,
}

} // verus!
