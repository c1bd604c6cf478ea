//! Sequential writer for a GLOS stream, accumulating the serialized bytes in
//! memory.
//!
//! The header goes first; blocks are appended behind it, compressed on the
//! way when the header asks for LZ4; `finish` rewrites the header in place
//! with the final totals and hands the whole stream over. The body is never
//! rewritten. A writer abandoned without `finish` leaves `total_samples` and
//! `timestamp_end` zero in the header, which readers treat as an open
//! recording, not an error.

use vstd::prelude::*;

use crate::block::{block_bytes, BlockModel, IqBlock};
use crate::compress::lz4_compressed;
use crate::error::{GlosError, GlosResult};
use crate::header::{header_bytes, GlosHeader};
use crate::types::Compression;
use crate::GLOS_MAX_BLOCK_SIZE;
use vstd::slice::slice_subrange;

verus! {

/// The form a block takes in a stream with compression mode `c`: blocks are
/// compressed on write when the stream wants LZ4 and the block is not yet
/// compressed, and pass through unchanged otherwise.
pub open spec fn written_form(c: Compression, b: BlockModel) -> BlockModel {
    if c is Lz4 && !b.is_compressed {
        BlockModel { data: lz4_compressed(b.data), is_compressed: true, ..b }
    } else {
        b
    }
}

/// In-memory writer for one GLOS stream.
pub struct GlosWriter {
    buf: Vec<u8>,
    header: GlosHeader,
    total_samples: u64,
    block_count: u64,
}

impl GlosWriter {
    /// A writer always holds at least the 128 header bytes. Established by
    /// `new` and kept by every method.
    pub closed spec fn wf(&self) -> bool {
        self.buf@.len() >= 128
    }

    /// The header this writer was opened with.
    pub closed spec fn spec_header(&self) -> GlosHeader {
        self.header
    }

    /// Every byte written so far: the serialized header followed by the
    /// serialized blocks.
    pub closed spec fn spec_bytes(&self) -> Seq<u8> {
        self.buf@
    }

    /// Samples written so far, summed over the blocks.
    pub closed spec fn spec_total_samples(&self) -> u64 {
        self.total_samples
    }

    /// Blocks written so far.
    pub closed spec fn spec_block_count(&self) -> u64 {
        self.block_count
    }

    /// Opens a writer: the header is serialized immediately, so the stream
    /// is well-formed from the first byte.
    pub fn new(header: GlosHeader) -> (w: Self)
        ensures
            w.wf(),
            w.spec_header() == header,
            w.spec_bytes() == header_bytes(header),
            w.spec_total_samples() == 0,
            w.spec_block_count() == 0,
    {
        // header serialization never fails; the match keeps the dead arm
        // visibly dead
        let hdr_bytes = match header.serialize() {
            Ok(b) => b,
            Err(_) => [0u8; 128],
        };
        let mut buf: Vec<u8> = Vec::new();
        buf.extend_from_slice(hdr_bytes.as_slice());
        assert(buf@ =~= header_bytes(header));
        GlosWriter { buf, header, total_samples: 0, block_count: 0 }
    }

    /// Appends one block, compressing it first when the stream-level
    /// compression is LZ4 and the block is not already compressed.
    ///
    /// The counters are advanced before the block is framed, as the stream
    /// totals count what was handed in; a block whose framed size exceeds
    /// the maximum is rejected and contributes no bytes.
    pub fn write_block(&mut self, block: IqBlock) -> (r: GlosResult<()>)
        requires
            old(self).wf(),
            old(self).spec_total_samples() + block@.sample_count <= u64::MAX,
            old(self).spec_block_count() < u64::MAX,
        ensures
            final(self).wf(),
            final(self).spec_header() == old(self).spec_header(),
            final(self).spec_total_samples() == old(self).spec_total_samples()
                + block@.sample_count,
            final(self).spec_block_count() == old(self).spec_block_count() + 1,
            r is Ok <==> written_form(old(self).spec_header().compression, block@).data.len() + 20
                <= GLOS_MAX_BLOCK_SIZE,
            r is Ok ==> final(self).spec_bytes() == old(self).spec_bytes() + block_bytes(
                written_form(old(self).spec_header().compression, block@),
            ),
            r matches Err(e) ==> e is InvalidBlockSize && final(self).spec_bytes() == old(
                self,
            ).spec_bytes(),
    {
        let mut block = block;
        let needs_compression = match self.header.compression {
            Compression::Lz4 => !block.is_compressed,
            Compression::Uncompressed => false,
        };
        if needs_compression {
            let _ = block.compress();
        }
        self.total_samples = self.total_samples + (block.sample_count as u64);
        self.block_count = self.block_count + 1;
        match block.serialize() {
            Ok(mut bytes) => {
                self.buf.append(&mut bytes);
                Ok(())
            },
            Err(e) => Err(e),
        }
    }

    /// Closes the stream: the header is re-serialized with the accumulated
    /// sample total and the given end timestamp, written over the first 128
    /// bytes, and the whole stream is returned. The body bytes are exactly
    /// the ones the blocks produced.
    pub fn finish(self, timestamp_end: u64) -> (r: Vec<u8>)
        requires
            self.wf(),
        ensures
            r@ == header_bytes(
                GlosHeader {
                    total_samples: self.spec_total_samples(),
                    timestamp_end,
                    ..self.spec_header()
                },
            ) + self.spec_bytes().skip(128),
    {
        let final_header = GlosHeader {
            total_samples: self.total_samples,
            timestamp_end,
            ..self.header
        };
        // header serialization never fails
        let hdr_bytes = match final_header.serialize() {
            Ok(b) => b,
            Err(_) => [0u8; 128],
        };
        let mut out: Vec<u8> = Vec::new();
        out.extend_from_slice(hdr_bytes.as_slice());
        if self.buf.len() > 128 {
            out.extend_from_slice(slice_subrange(self.buf.as_slice(), 128, self.buf.len()));
        }
        assert(out@ =~= header_bytes(final_header) + self.buf@.skip(128));
        out
    }

    /// Samples written so far (before `finish`).
    pub fn total_samples(&self) -> (r: u64)
        ensures
            r == self.spec_total_samples(),
    {
        self.total_samples
    }

    /// Blocks written so far.
    pub fn block_count(&self) -> (r: u64)
        ensures
            r == self.spec_block_count(),
    {
        self.block_count
    }

    /// The header this writer was opened with (before finalization).
    pub fn header(&self) -> (r: &GlosHeader)
        ensures
            *r == self.spec_header(),
    {
        &self.header
    }
}

} // verus!
