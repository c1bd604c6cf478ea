//! Error taxonomy of the container format.
//!
//! Structural errors (magic, version, checksum, truncation) are fatal for a
//! header and recoverable by resynchronization for a block; capacity errors
//! reject a single record; policy violations are advisory reports.

use vstd::prelude::*;
use vstd::string::StringExecFns;

verus! {

/// Result alias used throughout the crate.
pub type GlosResult<T> = Result<T, GlosError>;

/// The ways a GLOS record or stream can be malformed.
#[derive(Debug)]
pub enum GlosError {
    /// The four magic bytes at the start of a header are wrong.
    InvalidMagic(String),
    /// The header's version byte differs from the one supported version.
    UnsupportedVersion { found: u8, expected: u8 },
    /// A stored CRC-32 does not match the one computed over the covered
    /// bytes.
    CrcMismatch { expected: u32, found: u32 },
    /// Damaged or structurally impossible data.
    Corrupted(String),
    /// A framed block would exceed the maximum block size.
    InvalidBlockSize(usize),
    /// A rule of the format is broken in an otherwise well-formed record.
    FormatViolation(String),
}

impl GlosError {
    /// Wraps a description into an `InvalidMagic` error.
    pub fn invalid_magic(s: &str) -> (r: Self)
        ensures
            r is InvalidMagic,
    {
        GlosError::InvalidMagic(String::from_str(s))
    }

    /// Wraps a description into a `Corrupted` error.
    pub fn corrupted(s: &str) -> (r: Self)
        ensures
            r is Corrupted,
    {
        GlosError::Corrupted(String::from_str(s))
    }

    /// Wraps a description into a `FormatViolation` error.
    pub fn format_violation(s: &str) -> (r: Self)
        ensures
            r is FormatViolation,
    {
        GlosError::FormatViolation(String::from_str(s))
    }

    /// A short human-readable description of the error kind.
    pub fn message(&self) -> (r: &'static str)
        ensures
            *self is CrcMismatch ==> r@ == "CRC mismatch"@,
            *self is UnsupportedVersion ==> r@ == "Unsupported version"@,
            *self is InvalidMagic ==> r@ == "Invalid magic"@,
    {
        match self {
            GlosError::InvalidMagic(_) => "Invalid magic",
            GlosError::UnsupportedVersion { .. } => "Unsupported version",
            GlosError::CrcMismatch { .. } => "CRC mismatch",
            GlosError::Corrupted(_) => "Corrupted data",
            GlosError::InvalidBlockSize(_) => "Invalid block size",
            GlosError::FormatViolation(_) => "Format violation",
        }
    }
}

} // verus!
