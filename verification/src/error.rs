use vstd::prelude::*;

verus! {

/// Why a cursor pull, a packet decode, or a positional access failed.
///
/// All variants are recoverable and reported to the caller, except that
/// `OutOfRange` marks a violated indexing contract: the checked accessor
/// reports it, while the unchecked accessor requires the index in range.
#[derive(Clone, Copy, Debug, PartialEq, Eq, Structural)]
pub enum Error {
    /// A pull was requested beyond the available bytes.
    Exhausted,
    /// A whole-byte pull was attempted while mid-byte.
    MisalignedRead,
    /// A sub-byte pull would cross the current byte's remaining bits.
    InsufficientBits,
    /// A multi-byte bit pull was requested with a width over 16.
    InvalidWidth,
    /// The first byte of a candidate packet is not the sync byte.
    BadSyncByte,
    /// A positional access lay beyond the fixed packet size.
    OutOfRange,
}

} // verus!
