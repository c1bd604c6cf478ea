//! The 32-bit cyclic redundancy check (IEEE 802.3 polynomial) that guards the
//! header and every block.
//!
//! The checksum itself is computed by an outside crate; its value on a given
//! byte sequence is only named here, never written out. Everything the rest of
//! the crate proves about checksums goes through that name: a stored checksum
//! equals the one computed over the same bytes, and nothing else.

use vstd::prelude::*;

verus! {

/// The CRC-32 (IEEE 802.3) of a byte sequence. The value depends on the
/// bytes alone; it is deliberately left without a definition.
pub uninterp spec fn crc32_of(data: Seq<u8>) -> u32;

/// Relies on crc32fast::hash: the CRC-32 (IEEE 802.3) of the bytes, a pure
/// function of its input.
#[verifier::external_body]
pub fn crc32_checksum(data: &[u8]) -> (r: u32)
    ensures
        r == crc32_of(data@),
{
    crc32fast::hash(data)
}

} // verus!
