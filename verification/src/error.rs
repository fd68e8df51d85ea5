//! The error cases shared by every encoder.

use vstd::prelude::*;

verus! {

/// The possible errors that can occur during barcode encoding and generation.
#[derive(Debug, Copy, Clone, PartialEq, Eq, Structural)]
pub enum Error {
    /// An invalid character found during encoding.
    Character,
    /// An invalid data length during encoding.
    Length,
    /// An error during barcode generation.
    Generate,
    /// Invalid checksum.
    Checksum,
}

} // verus!
