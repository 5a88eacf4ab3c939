use vstd::prelude::*;

verus! {

/// Why an operation on a volume failed.
#[derive(Clone, Copy, Debug, PartialEq, Eq, Structural)]
pub enum DvdError {
    /// The medium is unreadable, a read is short or out of range.
    IoError,
    /// The requested path, title or domain does not resolve.
    NotFound,
    /// A UDF or ISO9660 structure is malformed.
    CorruptVolume,
    /// Use of a closed volume, or close with handles still open.
    PreconditionViolation,
}

} // verus!
