//! GLOS: a binary container format for timestamped complex (I/Q) radio-sample
//! blocks, together with the streaming machinery around it.
//!
//! The crate covers four pieces:
//! - the container codec: a fixed 128-byte header and variable-length,
//!   checksummed sample blocks, with optional LZ4 compression;
//! - a streaming reader that re-synchronizes past corrupted blocks one byte at
//!   a time, and a writer that finalizes the header in place;
//! - the capture-side bounded buffer and block accumulator with their
//!   drop-on-full backpressure policy;
//! - the replay timing controller and the UDP wire encoding of a block.

use vstd::prelude::*;

pub mod block;
pub mod bytes;
pub mod capture;
pub mod checksum;
pub mod compress;
pub mod config;
pub mod counters;
pub mod error;
pub mod header;
pub mod reader;
pub mod replay;
pub mod types;
pub mod wire;
pub mod writer;

verus! {

/// Magic tag at the start of every GLOS file: the bytes `G`, `L`, `O`, `S`.
pub const GLOS_MAGIC_0: u8 = 71;

/// Second magic byte (`L`).
pub const GLOS_MAGIC_1: u8 = 76;

/// Third magic byte (`O`).
pub const GLOS_MAGIC_2: u8 = 79;

/// Fourth magic byte (`S`).
pub const GLOS_MAGIC_3: u8 = 83;

/// The only format version this crate reads or writes.
pub const GLOS_VERSION: u8 = 1;

/// Size of the fixed header record on the wire.
pub const GLOS_HEADER_SIZE: usize = 128;

/// Declared minimum size of a framed block. The format never actually
/// enforces it anywhere; it is advisory only, kept for documentation.
pub const GLOS_MIN_BLOCK_SIZE: usize = 32;

/// Maximum size of a framed block (1 MiB), enforced when serializing.
pub const GLOS_MAX_BLOCK_SIZE: usize = 1024 * 1024;

} // verus!
