//! Hard errors that abort decoding, and warnings that do not.

use vstd::prelude::*;

verus! {

/// A condition that aborts decoding: no inventory is produced.
#[derive(Debug, Clone, Copy, PartialEq, Eq, Structural)]
pub enum ParseError {
    InvalidMagic,
    UnsupportedFormat(u32),
    OutdatedFormat(u32),
    Truncated,
    CorruptOffsets(u64, u64, u64),
    BadStringPointer(u32, u32),
    InvalidUtf8,
    CorruptSentinel,
}

/// A repairable anomaly: decoding goes on.
#[derive(Debug, Clone, Copy, PartialEq, Eq, Structural)]
pub enum Warning {
    /// The package columns did not end where the table header said.
    ColumnOverflow { expected_end: u64, actual_end: u64 },
    /// A package's dependency or resolution slice lies outside its buffer.
    DependencySliceOverflow { package: u32 },
    /// A package's dependency and resolution slices differ in length.
    LengthMismatchDepRes { package: u32, deps: u32, resolved: u32 },
    UnknownIntegrityTag { package: u32, tag: u8 },
    UnknownResolutionTag { package: u32, tag: u8 },
    /// A trailer section ran past the data or pointed backwards.
    TrailerTruncated { position: u64 },
    /// A trailer section began with a tag that is not known.
    TrailerUnknownTag { position: u64, tag: u64 },
}

} // verus!
