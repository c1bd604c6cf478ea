//! Variable-length sample blocks: a content length, a sample count, a
//! nanosecond timestamp, the payload bytes, and a trailing CRC-32.
//!
//! The framing is `content_size (4, big-endian) | sample_count (4) |
//! timestamp (8) | payload | crc (4)`, where `content_size` counts the
//! sample-count and timestamp fields plus the payload, and the checksum
//! covers exactly that content region — the leading length field is outside
//! it. Whether a payload is compressed is never guessed from the bytes: it
//! is dictated by the stream header's compression field.

use vstd::prelude::*;

use crate::bytes::{
    lemma_u32_be_round_trip, lemma_u32_from_be_injective, lemma_u64_be_round_trip, push_u32_be,
    push_u64_be, read_u32_be, read_u64_be, u32_be_bytes, u32_from_be, u64_be_bytes, u64_from_be,
};
use crate::checksum::{crc32_checksum, crc32_of};
use crate::compress::{lz4_compress, lz4_compressed, lz4_decompress, lz4_decompressed};
use crate::error::{GlosError, GlosResult};
use crate::types::{spec_sample_size, Compression, IqFormat};
use crate::GLOS_MAX_BLOCK_SIZE;
use vstd::slice::{slice_subrange, slice_to_vec};

verus! {

/// One block of I/Q data.
#[derive(Debug, Clone)]
pub struct IqBlock {
    /// Timestamp of the block's first sample, in nanoseconds.
    pub timestamp_ns: u64,
    /// Number of I/Q pairs the payload holds (once uncompressed).
    pub sample_count: u32,
    /// Payload bytes; raw samples, or their LZ4 encoding when
    /// `is_compressed` is set.
    pub data: Vec<u8>,
    /// Whether `data` currently holds the compressed representation.
    pub is_compressed: bool,
}

/// The mathematical shadow of a block: the same fields with the payload as a
/// byte sequence.
pub struct BlockModel {
    /// Timestamp of the block's first sample, in nanoseconds.
    pub timestamp_ns: u64,
    /// Number of I/Q pairs the payload holds (once uncompressed).
    pub sample_count: u32,
    /// Payload bytes.
    pub data: Seq<u8>,
    /// Whether `data` holds the compressed representation.
    pub is_compressed: bool,
}

impl View for IqBlock {
    type V = BlockModel;

    open spec fn view(&self) -> BlockModel {
        BlockModel {
            timestamp_ns: self.timestamp_ns,
            sample_count: self.sample_count,
            data: self.data@,
            is_compressed: self.is_compressed,
        }
    }
}

/// The checksum-covered content region of a block: sample count, timestamp,
/// payload.
pub open spec fn block_content_bytes(count: u32, ts: u64, data: Seq<u8>) -> Seq<u8> {
    u32_be_bytes(count) + u64_be_bytes(ts) + data
}

/// The full wire form of a block.
pub open spec fn block_bytes(b: BlockModel) -> Seq<u8> {
    let content = block_content_bytes(b.sample_count, b.timestamp_ns, b.data);
    u32_be_bytes((12 + b.data.len()) as u32) + content + u32_be_bytes(crc32_of(content))
}

/// What one attempt to read a block off the front of a byte window finds.
pub enum BlockParse {
    /// Fewer bytes than the minimum framing; nothing can be read yet.
    TooSmall,
    /// The declared content does not fit in the window; more bytes are
    /// needed before this offset can be judged.
    Incomplete,
    /// The declared content length is below the fixed twelve bytes of
    /// count and timestamp; structurally impossible.
    BadSize,
    /// The framing fits but the stored checksum is not the checksum of the
    /// content region.
    BadCrc,
    /// A well-formed block: its fields and the total bytes it occupies.
    Parsed { count: u32, ts: u64, data: Seq<u8>, consumed: int },
}

/// Reads one block off the front of a byte window, in the order the decoder
/// checks things: minimum framing, declared length against the window,
/// length sanity, checksum.
pub open spec fn parse_block(s: Seq<u8>) -> BlockParse {
    if s.len() < 20 {
        BlockParse::TooSmall
    } else {
        let content_size = u32_from_be(s.subrange(0, 4)) as int;
        if 4 + content_size + 4 > s.len() {
            BlockParse::Incomplete
        } else if content_size < 12 {
            BlockParse::BadSize
        } else {
            let content = s.subrange(4, 4 + content_size);
            let stored = u32_from_be(s.subrange(4 + content_size, 8 + content_size));
            if stored != crc32_of(content) {
                BlockParse::BadCrc
            } else {
                BlockParse::Parsed {
                    count: u32_from_be(s.subrange(4, 8)),
                    ts: u64_from_be(s.subrange(8, 16)),
                    data: s.subrange(16, 4 + content_size),
                    consumed: 8 + content_size,
                }
            }
        }
    }
}

impl IqBlock {
    /// A block of raw (uncompressed) payload bytes.
    pub fn new(timestamp_ns: u64, sample_count: u32, data: Vec<u8>) -> (b: Self)
        ensures
            b@ == (BlockModel { timestamp_ns, sample_count, data: data@, is_compressed: false }),
    {
        IqBlock { timestamp_ns, sample_count, data, is_compressed: false }
    }

    /// A block whose payload is already the compressed representation.
    pub fn new_compressed(timestamp_ns: u64, sample_count: u32, compressed_data: Vec<u8>) -> (b:
        Self)
        ensures
            b@ == (BlockModel {
                timestamp_ns,
                sample_count,
                data: compressed_data@,
                is_compressed: true,
            }),
    {
        IqBlock { timestamp_ns, sample_count, data: compressed_data, is_compressed: true }
    }

    /// Replaces the payload by its LZ4 encoding. Compressing a block that is
    /// already compressed changes nothing at all. Decompression recovers the
    /// payload exactly as long as its length fits the encoding's 32-bit
    /// length prefix — any payload within the block size limit does, with
    /// room to spare.
    pub fn compress(&mut self) -> (r: GlosResult<()>)
        ensures
            r is Ok,
            old(self)@.is_compressed ==> final(self)@ == old(self)@,
            !old(self)@.is_compressed ==> final(self)@ == (BlockModel {
                data: lz4_compressed(old(self)@.data),
                is_compressed: true,
                ..old(self)@
            }),
            !old(self)@.is_compressed && old(self)@.data.len() < 0x100000000 ==> lz4_decompressed(
                final(self)@.data,
            ) == Some(old(self)@.data),
    {
        if self.is_compressed {
            return Ok(());
        }
        self.data = lz4_compress(self.data.as_slice());
        self.is_compressed = true;
        Ok(())
    }

    /// Replaces a compressed payload by the bytes it encodes. Decompressing
    /// a block that is not compressed changes nothing at all; a compressed
    /// payload that is no valid encoding is corruption, and the block is
    /// left as it was.
    pub fn decompress(&mut self) -> (r: GlosResult<()>)
        ensures
            !old(self)@.is_compressed ==> r is Ok && final(self)@ == old(self)@,
            old(self)@.is_compressed ==> (lz4_decompressed(old(self)@.data) matches Some(d) ==> (r
                is Ok && final(self)@ == (BlockModel {
                data: d,
                is_compressed: false,
                ..old(self)@
            }))),
            old(self)@.is_compressed && lz4_decompressed(old(self)@.data) is None ==> ((r matches
                Err(e) && e is Corrupted) && final(self)@ == old(self)@),
    {
        if !self.is_compressed {
            return Ok(());
        }
        match lz4_decompress(self.data.as_slice()) {
            Some(d) => {
                self.data = d;
                self.is_compressed = false;
                Ok(())
            },
            None => Err(GlosError::corrupted("LZ4 decompression failed")),
        }
    }

    /// The raw payload bytes, decompressing a copy if the block is
    /// compressed; the block itself is untouched.
    pub fn get_uncompressed_data(&self) -> (r: GlosResult<Vec<u8>>)
        ensures
            !self@.is_compressed ==> (r matches Ok(d) && d@ == self@.data),
            self@.is_compressed ==> (lz4_decompressed(self@.data) matches Some(u) ==> (r matches
                Ok(d) && d@ == u)),
            self@.is_compressed && lz4_decompressed(self@.data) is None ==> (r matches Err(e) && e
                is Corrupted),
    {
        if self.is_compressed {
            match lz4_decompress(self.data.as_slice()) {
                Some(d) => Ok(d),
                None => Err(GlosError::corrupted("LZ4 decompression failed")),
            }
        } else {
            Ok(slice_to_vec(self.data.as_slice()))
        }
    }

    /// Checks the format's size invariant: an uncompressed payload holds
    /// exactly `sample_count` pairs of `iq_format`'s size. Compressed blocks
    /// are exempt until decompressed.
    pub fn validate_sample_count(&self, iq_format: IqFormat) -> (r: GlosResult<()>)
        ensures
            r is Ok <==> (self@.is_compressed || self@.data.len() == self@.sample_count
                * spec_sample_size(iq_format)),
            r matches Err(e) ==> e is FormatViolation,
    {
        if self.is_compressed {
            return Ok(());
        }
        let count = self.sample_count as u64;
        let pair = iq_format.sample_size() as u64;
        assert(count * pair <= 0xffffffffu64 * 8) by (nonlinear_arith)
            requires
                count <= 0xffffffffu64,
                pair <= 8,
        ;
        let expected: u64 = count * pair;
        if (self.data.len() as u64) != expected {
            return Err(GlosError::format_violation("sample count does not match payload size"));
        }
        Ok(())
    }

    /// Serializes the block into its framed wire form, rejecting blocks
    /// whose framed size would exceed the maximum block size. The rejection
    /// carries the framed size itself (payload plus 20 bytes of framing),
    /// stopped at the top of the pointer range.
    pub fn serialize(&self) -> (r: GlosResult<Vec<u8>>)
        ensures
            r is Ok <==> self@.data.len() + 20 <= GLOS_MAX_BLOCK_SIZE,
            r matches Ok(v) ==> v@ == block_bytes(self@),
            r matches Err(e) ==> (e matches GlosError::InvalidBlockSize(sz) && sz == (if self@
                .data.len() + 20 <= usize::MAX {
                (self@.data.len() + 20) as usize
            } else {
                usize::MAX
            })),
    {
        let len = self.data.len();
        if len > GLOS_MAX_BLOCK_SIZE - 20 {
            if len <= usize::MAX - 20 {
                return Err(GlosError::InvalidBlockSize(len + 20));
            }
            return Err(GlosError::InvalidBlockSize(usize::MAX));
        }
        let content_size: u32 = (12 + len) as u32;
        let mut content: Vec<u8> = Vec::new();
        push_u32_be(&mut content, self.sample_count);
        push_u64_be(&mut content, self.timestamp_ns);
        content.extend_from_slice(self.data.as_slice());
        assert(content@ =~= block_content_bytes(self@.sample_count, self@.timestamp_ns, self@.data));
        let crc = crc32_checksum(content.as_slice());
        let mut v: Vec<u8> = Vec::new();
        push_u32_be(&mut v, content_size);
        v.append(&mut content);
        push_u32_be(&mut v, crc);
        assert(v@ =~= block_bytes(self@));
        Ok(v)
    }

    /// Decodes one block from the front of `buf`.
    ///
    /// Success returns the block and the bytes it occupied; its compressed
    /// flag comes from the stream-level `compression` alone. Too few bytes,
    /// a declared length beyond the window, and an impossible declared
    /// length are all reported as corruption (the first two mean "feed more
    /// bytes" to a caller that has more); a checksum mismatch is reported as
    /// such.
    pub fn deserialize(buf: &[u8], compression: Compression) -> (r: GlosResult<(IqBlock, usize)>)
        ensures
            r is Ok <==> parse_block(buf@) is Parsed,
            r matches Ok((b, n)) ==> (parse_block(buf@) matches BlockParse::Parsed {
                count,
                ts,
                data,
                consumed,
            } && b@.sample_count == count && b@.timestamp_ns == ts && b@.data == data
                && b@.is_compressed == (compression == Compression::Lz4) && n == consumed),
            (parse_block(buf@) is TooSmall || parse_block(buf@) is Incomplete || parse_block(buf@)
                is BadSize) ==> (r matches Err(e) && e is Corrupted),
            parse_block(buf@) is BadCrc ==> (r matches Err(e) && e is CrcMismatch),
    {
        if buf.len() < 20 {
            return Err(GlosError::corrupted("block too small"));
        }
        let content_size_u32 = read_u32_be(buf, 0);
        let content_size = content_size_u32 as usize;
        if (content_size as u64) + 8 > buf.len() as u64 {
            return Err(GlosError::corrupted("incomplete block"));
        }
        if content_size < 12 {
            return Err(GlosError::corrupted("invalid content size"));
        }
        let sample_count = read_u32_be(buf, 4);
        let timestamp_ns = read_u64_be(buf, 8);
        let data_len = content_size - 12;
        let data = slice_to_vec(slice_subrange(buf, 16, 16 + data_len));
        let stored_crc = read_u32_be(buf, 4 + content_size);
        let calculated_crc = crc32_checksum(slice_subrange(buf, 4, 4 + content_size));
        if stored_crc != calculated_crc {
            return Err(GlosError::CrcMismatch { expected: calculated_crc, found: stored_crc });
        }
        let is_compressed = match compression {
            Compression::Lz4 => true,
            Compression::Uncompressed => false,
        };
        let total_bytes = content_size + 8;
        proof {
            assert(buf@.subrange(4, 4 + content_size as int) == buf@.subrange(
                4,
                4 + (u32_from_be(buf@.subrange(0, 4)) as int),
            ));
            assert(data@ =~= buf@.subrange(16, 4 + content_size as int));
        }
        Ok((IqBlock { timestamp_ns, sample_count, data, is_compressed }, total_bytes))
    }
}

/// Round trip: a block whose framed form fits the size limit parses back
/// from its own wire form — same timestamp, count and payload — consuming
/// exactly the bytes that were written.
pub proof fn lemma_block_round_trip(b: BlockModel)
    requires
        b.data.len() + 20 <= GLOS_MAX_BLOCK_SIZE,
    ensures
        block_bytes(b).len() == b.data.len() + 20,
        parse_block(block_bytes(b)) matches BlockParse::Parsed { count, ts, data, consumed }
            && count == b.sample_count && ts == b.timestamp_ns && data == b.data && consumed
            == block_bytes(b).len(),
{
    let content = block_content_bytes(b.sample_count, b.timestamp_ns, b.data);
    let s = block_bytes(b);
    let cs = (12 + b.data.len()) as u32;
    lemma_u32_be_round_trip(cs, seq![0u8, 0u8, 0u8, 0u8]);
    lemma_u32_be_round_trip(b.sample_count, seq![0u8, 0u8, 0u8, 0u8]);
    lemma_u64_be_round_trip(b.timestamp_ns, seq![0u8, 0u8, 0u8, 0u8, 0u8, 0u8, 0u8, 0u8]);
    lemma_u32_be_round_trip(crc32_of(content), seq![0u8, 0u8, 0u8, 0u8]);
    assert(s.subrange(0, 4) =~= u32_be_bytes(cs));
    assert(u32_from_be(s.subrange(0, 4)) == cs);
    assert(s.subrange(4, 4 + cs as int) =~= content);
    assert(s.subrange(4 + cs as int, 8 + cs as int) =~= u32_be_bytes(crc32_of(content)));
    assert(s.subrange(4, 8) =~= u32_be_bytes(b.sample_count));
    assert(s.subrange(8, 16) =~= u64_be_bytes(b.timestamp_ns));
    assert(s.subrange(16, 4 + cs as int) =~= b.data);
}

/// Corruption is caught: flip the last byte of a framed block — the low
/// byte of its stored checksum — and parsing reports a checksum mismatch,
/// with no hypothesis about the checksum function needed, because the
/// content region and its checksum are unchanged while the stored value is
/// now a different 32-bit integer.
/// Parsing looks only at the front: a framed block followed by anything at
/// all still parses to the same fields, consuming exactly its own bytes.
pub proof fn lemma_parse_block_prefix(b: BlockModel, rest: Seq<u8>)
    requires
        b.data.len() + 20 <= GLOS_MAX_BLOCK_SIZE,
    ensures
        parse_block(block_bytes(b) + rest) matches BlockParse::Parsed { count, ts, data, consumed }
            && count == b.sample_count && ts == b.timestamp_ns && data == b.data && consumed
            == block_bytes(b).len(),
{
    lemma_block_round_trip(b);
    let p = block_bytes(b);
    let s = p + rest;
    let cs = (12 + b.data.len()) as u32;
    assert(s.subrange(0, 4) =~= p.subrange(0, 4));
    assert(s.subrange(4, 4 + cs as int) =~= p.subrange(4, 4 + cs as int));
    assert(s.subrange(4 + cs as int, 8 + cs as int) =~= p.subrange(4 + cs as int, 8 + cs as int));
    assert(s.subrange(4, 8) =~= p.subrange(4, 8));
    assert(s.subrange(8, 16) =~= p.subrange(8, 16));
    assert(s.subrange(16, 4 + cs as int) =~= p.subrange(16, 4 + cs as int));
}

/// Corruption is caught at the parse level: take any byte window that parses
/// as exactly one whole block, flip its last byte — the low byte of the
/// stored checksum — and parsing now reports a checksum mismatch: the
/// content region and its checksum are unchanged, while the stored value is
/// a different 32-bit integer.
pub proof fn lemma_parse_last_byte_flip(orig: Seq<u8>, s: Seq<u8>)
    requires
        parse_block(orig) matches BlockParse::Parsed { consumed, .. } && consumed == orig.len(),
        s.len() == orig.len(),
        s[s.len() - 1] != orig[s.len() - 1],
        forall|j: int| 0 <= j < s.len() - 1 ==> s[j] == orig[j],
    ensures
        parse_block(s) is BadCrc,
{
    let n = orig.len() as int;
    let cs = u32_from_be(orig.subrange(0, 4)) as int;
    assert(s.subrange(0, 4) =~= orig.subrange(0, 4));
    assert(8 + cs == n);
    let content_o = orig.subrange(4, 4 + cs);
    let content_s = s.subrange(4, 4 + cs);
    assert(content_s =~= content_o);
    let stored_o = orig.subrange(4 + cs, 8 + cs);
    let stored_s = s.subrange(4 + cs, 8 + cs);
    assert(u32_from_be(stored_o) == crc32_of(content_o));
    assert(stored_s[3] == s[n - 1] && stored_o[3] == orig[n - 1]);
    assert(stored_s != stored_o);
    if u32_from_be(stored_s) == u32_from_be(stored_o) {
        lemma_u32_from_be_injective(stored_s, stored_o);
        assert(false);
    }
}

/// Corruption is caught: flip the last byte of a serialized block — the low
/// byte of its stored checksum — and parsing reports a checksum mismatch.
pub proof fn lemma_block_crc_corruption(b: BlockModel, s: Seq<u8>)
    requires
        b.data.len() + 20 <= GLOS_MAX_BLOCK_SIZE,
        s.len() == block_bytes(b).len(),
        s[s.len() - 1] != block_bytes(b)[s.len() - 1],
        forall|j: int| 0 <= j < s.len() - 1 ==> s[j] == block_bytes(b)[j],
    ensures
        parse_block(s) is BadCrc,
{
    lemma_block_round_trip(b);
    lemma_parse_last_byte_flip(block_bytes(b), s);
}

} // verus!
