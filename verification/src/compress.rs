//! LZ4 compression of block payloads.
//!
//! The compressed representation prepends the original length, so the exact
//! payload is recovered on decompression. The encoding is done by an outside
//! crate; its results are only named here. The one fact stated beside the
//! names is the crate's documented contract: decompressing what
//! `compress_prepend_size` produced gives back the input.

use vstd::prelude::*;

verus! {

/// The LZ4 encoding (with prepended length) of a byte sequence. The value
/// depends on the bytes alone; it is deliberately left without a definition.
pub uninterp spec fn lz4_compressed(data: Seq<u8>) -> Seq<u8>;

/// What LZ4 decompression (expecting a prepended length) makes of a byte
/// sequence: the recovered bytes, or nothing when the input is not a valid
/// encoding. The value depends on the bytes alone.
pub uninterp spec fn lz4_decompressed(data: Seq<u8>) -> Option<Seq<u8>>;

/// Relies on lz4_flex::compress_prepend_size: compresses the bytes with the
/// original length prepended, deterministically. Its documentation pairs it
/// with `decompress_size_prepended`, which recovers the input exactly; that
/// round trip is the second clause. The prepended length is a 32-bit field
/// (the source writes `input.len() as u32`), so the round trip is only
/// promised for inputs whose length fits it.
#[verifier::external_body]
pub fn lz4_compress(data: &[u8]) -> (r: Vec<u8>)
    ensures
        r@ == lz4_compressed(data@),
        data@.len() < 0x100000000 ==> lz4_decompressed(r@) == Some(data@),
{
    lz4_flex::compress_prepend_size(data)
}

/// Relies on lz4_flex::decompress_size_prepended: recovers the bytes that
/// were compressed, or fails on input that is not a valid encoding. The
/// outside error only says the input was bad, so it is folded into `None`.
#[verifier::external_body]
pub fn lz4_decompress(data: &[u8]) -> (r: Option<Vec<u8>>)
    ensures
        r matches Some(d) ==> lz4_decompressed(data@) == Some(d@),
        r is None ==> lz4_decompressed(data@) is None,
{
    match lz4_flex::decompress_size_prepended(data) {
        Ok(d) => Some(d),
        Err(_) => None,
    }
}

} // verus!
