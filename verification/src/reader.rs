//! Sequential reader for a GLOS stream: validates the header once, then
//! pulls blocks off the front of a growing byte window, resynchronizing past
//! corruption one byte at a time.
//!
//! Each pull attempts to decode a block at the front of the window. A good
//! block is decompressed (when the header says the stream is compressed),
//! checked against the sample-size invariant, counted and returned. A
//! checksum mismatch advances the window by exactly one byte — the declared
//! length of a corrupt block cannot be trusted — and scans again. A block
//! whose declared length runs past the window means more bytes are needed;
//! once the source is exhausted, such a tail is skipped byte by byte and
//! silently discarded. Blocks that decode but fail decompression or the
//! size invariant are counted as corrupted and skipped whole.

use vstd::prelude::*;

use crate::block::{block_bytes, parse_block, BlockModel, BlockParse, IqBlock};
use crate::compress::lz4_decompressed;
use crate::counters::{lemma_sat_add_chain, sat_add, sat_add_u64};
use crate::error::{GlosError, GlosResult};
use crate::header::{header_magic_ok, header_ok, parsed_header, GlosHeader};
use crate::types::{spec_sample_size, Compression, IqFormat};
use crate::GLOS_VERSION;
use vstd::slice::{slice_subrange, slice_to_vec};

verus! {

/// Counters a reader accumulates while pulling blocks. All four only grow,
/// and saturate at the top of their range rather than wrap.
#[derive(Debug, Clone, PartialEq, Eq, Structural)]
pub struct ReadStats {
    /// Structurally valid blocks returned to the caller.
    pub blocks_ok: u64,
    /// Blocks rejected for a bad checksum, failed decompression or a broken
    /// size invariant.
    pub blocks_corrupted: u64,
    /// Sum of `sample_count` over the returned blocks.
    pub samples_recovered: u64,
    /// Bytes consumed by the returned blocks, framing included.
    pub bytes_processed: u64,
}

/// What one pull from a byte window does: the block found (if any), whether
/// the caller must feed more bytes first, the window that remains, and how
/// far each counter moves.
pub struct ScanOutcome {
    /// The decoded, decompressed and validated block, when the scan found
    /// one.
    pub found: Option<BlockModel>,
    /// True when the scan stopped because the window may grow; never set
    /// once the source is exhausted.
    pub need_data: bool,
    /// The window left after the scan.
    pub window: Seq<u8>,
    /// 1 when a block was returned.
    pub ok_delta: int,
    /// Number of blocks rejected along the way.
    pub corrupted_delta: int,
    /// Samples in the returned block.
    pub samples_delta: int,
    /// Bytes the returned block occupied, framing included.
    pub bytes_delta: int,
}

/// One pull from the front of window `w`, under stream compression `comp`
/// and sample format `fmt`; `eof` says the source has no more bytes.
///
/// This is the resynchronization algorithm itself: a checksum mismatch
/// advances one byte and tries again; a block reaching past the window stops
/// for more data, or, at the end of the source, is skipped byte by byte
/// without touching the corruption counter; a decoded block that fails
/// decompression or the size invariant is counted corrupted and skipped
/// whole.
pub open spec fn scan_window(w: Seq<u8>, comp: Compression, fmt: IqFormat, eof: bool) -> ScanOutcome
    decreases w.len(),
{
    if w.len() < 20 {
        ScanOutcome {
            found: None,
            need_data: !eof,
            window: w,
            ok_delta: 0,
            corrupted_delta: 0,
            samples_delta: 0,
            bytes_delta: 0,
        }
    } else {
        match parse_block(w) {
            BlockParse::Parsed { count, ts, data, consumed } => {
                let payload = if comp is Lz4 {
                    lz4_decompressed(data)
                } else {
                    Some(data)
                };
                match payload {
                    Some(d) => {
                        if d.len() == count * spec_sample_size(fmt) {
                            ScanOutcome {
                                found: Some(
                                    BlockModel {
                                        timestamp_ns: ts,
                                        sample_count: count,
                                        data: d,
                                        is_compressed: false,
                                    },
                                ),
                                need_data: false,
                                window: w.skip(consumed),
                                ok_delta: 1,
                                corrupted_delta: 0,
                                samples_delta: count as int,
                                bytes_delta: consumed,
                            }
                        } else {
                            let rest = scan_window(w.skip(consumed), comp, fmt, eof);
                            ScanOutcome { corrupted_delta: 1 + rest.corrupted_delta, ..rest }
                        }
                    },
                    None => {
                        let rest = scan_window(w.skip(consumed), comp, fmt, eof);
                        ScanOutcome { corrupted_delta: 1 + rest.corrupted_delta, ..rest }
                    },
                }
            },
            BlockParse::BadCrc => {
                let rest = scan_window(w.skip(1), comp, fmt, eof);
                ScanOutcome { corrupted_delta: 1 + rest.corrupted_delta, ..rest }
            },
            BlockParse::Incomplete => {
                if eof {
                    scan_window(w.skip(1), comp, fmt, eof)
                } else {
                    ScanOutcome {
                        found: None,
                        need_data: true,
                        window: w,
                        ok_delta: 0,
                        corrupted_delta: 0,
                        samples_delta: 0,
                        bytes_delta: 0,
                    }
                }
            },
            BlockParse::BadSize => {
                if eof {
                    scan_window(w.skip(1), comp, fmt, eof)
                } else {
                    ScanOutcome {
                        found: None,
                        need_data: true,
                        window: w,
                        ok_delta: 0,
                        corrupted_delta: 0,
                        samples_delta: 0,
                        bytes_delta: 0,
                    }
                }
            },
            BlockParse::TooSmall => {
                // not reachable: the window holds at least 20 bytes here
                ScanOutcome {
                    found: None,
                    need_data: !eof,
                    window: w,
                    ok_delta: 0,
                    corrupted_delta: 0,
                    samples_delta: 0,
                    bytes_delta: 0,
                }
            },
        }
    }
}

/// The stats after applying a scan's deltas, each counter saturating.
pub open spec fn stats_after(st: ReadStats, sc: ScanOutcome) -> ReadStats {
    ReadStats {
        blocks_ok: sat_add_u64(st.blocks_ok, sc.ok_delta),
        blocks_corrupted: sat_add_u64(st.blocks_corrupted, sc.corrupted_delta),
        samples_recovered: sat_add_u64(st.samples_recovered, sc.samples_delta),
        bytes_processed: sat_add_u64(st.bytes_processed, sc.bytes_delta),
    }
}

/// Structural facts about a scan: the window never grows, it strictly
/// shrinks when a block is found, the deltas are nonnegative, and an
/// exhausted source never asks for more data.
pub proof fn lemma_scan_facts(w: Seq<u8>, comp: Compression, fmt: IqFormat, eof: bool)
    ensures
        scan_window(w, comp, fmt, eof).window.len() <= w.len(),
        scan_window(w, comp, fmt, eof).found is Some ==> scan_window(
            w,
            comp,
            fmt,
            eof,
        ).window.len() < w.len(),
        scan_window(w, comp, fmt, eof).ok_delta >= 0,
        scan_window(w, comp, fmt, eof).corrupted_delta >= 0,
        scan_window(w, comp, fmt, eof).samples_delta >= 0,
        scan_window(w, comp, fmt, eof).bytes_delta >= 0,
        eof ==> !scan_window(w, comp, fmt, eof).need_data,
    decreases w.len(),
{
    if w.len() < 20 {
    } else {
        match parse_block(w) {
            BlockParse::Parsed { count, ts, data, consumed } => {
                let payload = if comp is Lz4 {
                    lz4_decompressed(data)
                } else {
                    Some(data)
                };
                match payload {
                    Some(d) => {
                        if d.len() == count * spec_sample_size(fmt) {
                        } else {
                            lemma_scan_facts(w.skip(consumed), comp, fmt, eof);
                        }
                    },
                    None => {
                        lemma_scan_facts(w.skip(consumed), comp, fmt, eof);
                    },
                }
            },
            BlockParse::BadCrc => {
                lemma_scan_facts(w.skip(1), comp, fmt, eof);
            },
            BlockParse::Incomplete => {
                if eof {
                    lemma_scan_facts(w.skip(1), comp, fmt, eof);
                }
            },
            BlockParse::BadSize => {
                if eof {
                    lemma_scan_facts(w.skip(1), comp, fmt, eof);
                }
            },
            BlockParse::TooSmall => {
            },
        }
    }
}

/// All the blocks an exhausted window still yields, in order.
pub open spec fn recovered_blocks(w: Seq<u8>, comp: Compression, fmt: IqFormat) -> Seq<BlockModel>
    decreases w.len(),
    via recovered_blocks_decreases
{
    let sc = scan_window(w, comp, fmt, true);
    match sc.found {
        Some(b) => seq![b] + recovered_blocks(sc.window, comp, fmt),
        None => Seq::empty(),
    }
}

#[via_fn]
proof fn recovered_blocks_decreases(w: Seq<u8>, comp: Compression, fmt: IqFormat) {
    lemma_scan_facts(w, comp, fmt, true);
}

/// A block as a well-formed uncompressed stream stores it: within the size
/// limit, its payload matching its declared sample count, and not
/// compressed.
pub open spec fn wf_stream_block(b: BlockModel, fmt: IqFormat) -> bool {
    &&& b.data.len() + 20 <= crate::GLOS_MAX_BLOCK_SIZE
    &&& b.data.len() == b.sample_count * spec_sample_size(fmt)
    &&& !b.is_compressed
}

/// The body of a stream holding the given blocks, in order.
pub open spec fn stream_body_bytes(blocks: Seq<BlockModel>) -> Seq<u8>
    decreases blocks.len(),
{
    if blocks.len() == 0 {
        Seq::<u8>::empty()
    } else {
        block_bytes(blocks[0]) + stream_body_bytes(blocks.skip(1))
    }
}

/// End to end: an uncompressed stream body written as a run of well-formed
/// blocks is recovered exactly — every block, in order, nothing else.
pub proof fn lemma_clean_stream_recovery(blocks: Seq<BlockModel>, fmt: IqFormat)
    requires
        forall|i: int| 0 <= i < blocks.len() ==> wf_stream_block(#[trigger] blocks[i], fmt),
    ensures
        recovered_blocks(stream_body_bytes(blocks), Compression::Uncompressed, fmt) == blocks,
    decreases blocks.len(),
{
    let s = stream_body_bytes(blocks);
    if blocks.len() == 0 {
        assert(recovered_blocks(s, Compression::Uncompressed, fmt) =~= blocks);
    } else {
        let b = blocks[0];
        let rest = stream_body_bytes(blocks.skip(1));
        crate::block::lemma_parse_block_prefix(b, rest);
        crate::block::lemma_block_round_trip(b);
        let sc = scan_window(s, Compression::Uncompressed, fmt, true);
        assert(s.skip(block_bytes(b).len() as int) =~= rest);
        assert(sc.found == Some(b)) by {
            assert(BlockModel {
                timestamp_ns: b.timestamp_ns,
                sample_count: b.sample_count,
                data: b.data,
                is_compressed: false,
            } == b);
        }
        lemma_clean_stream_recovery(blocks.skip(1), fmt);
        assert(seq![b] + blocks.skip(1) =~= blocks);
    }
}

/// What one call to `GlosReader::next_block` reports.
pub enum ReadOutcome {
    /// The next structurally valid block, decompressed.
    Block(IqBlock),
    /// The window is too short to judge; feed more bytes, or declare the
    /// source exhausted.
    NeedData,
    /// The source is exhausted and no block remains; leftover bytes, if
    /// any, are an unparseable tail, discarded without an error.
    Done,
}

/// Streaming reader over a growing byte window.
pub struct GlosReader {
    header: GlosHeader,
    leftover: Vec<u8>,
    stats: ReadStats,
    eof: bool,
}

impl GlosReader {
    /// The header this stream was opened with.
    pub closed spec fn spec_header(&self) -> GlosHeader {
        self.header
    }

    /// The bytes fed but not yet consumed.
    pub closed spec fn window(&self) -> Seq<u8> {
        self.leftover@
    }

    /// The counters accumulated so far.
    pub closed spec fn spec_stats(&self) -> ReadStats {
        self.stats
    }

    /// Whether the source was declared exhausted.
    pub closed spec fn spec_eof(&self) -> bool {
        self.eof
    }

    /// Opens a reader on the first bytes of a stream: at least the 128
    /// header bytes must be there, and they must validate. Any header error
    /// is fatal. The bytes after the header become the initial window.
    pub fn new(data: &[u8]) -> (r: GlosResult<GlosReader>)
        ensures
            r is Ok <==> data@.len() >= 128 && header_ok(data@.subrange(0, 128)),
            r matches Ok(rd) ==> rd.spec_header() == parsed_header(data@.subrange(0, 128))
                && rd.window() == data@.skip(128) && rd.spec_stats() == (ReadStats {
                blocks_ok: 0,
                blocks_corrupted: 0,
                samples_recovered: 0,
                bytes_processed: 0,
            }) && !rd.spec_eof(),
            data@.len() < 128 ==> (r matches Err(e) && e is Corrupted),
            data@.len() >= 128 && !header_magic_ok(data@.subrange(0, 128)) ==> (r matches Err(e)
                && e is InvalidMagic),
            data@.len() >= 128 && header_magic_ok(data@.subrange(0, 128)) && data@[4]
                != GLOS_VERSION ==> (r matches Err(e) && e is UnsupportedVersion),
            data@.len() >= 128 && header_magic_ok(data@.subrange(0, 128)) && data@[4]
                == GLOS_VERSION && (data@[13] >= 3 || data@[14] >= 2) ==> (r matches Err(e) && e
                is FormatViolation),
            data@.len() >= 128 && header_magic_ok(data@.subrange(0, 128)) && data@[4]
                == GLOS_VERSION && data@[13] < 3 && data@[14] < 2 && !header_ok(
                data@.subrange(0, 128),
            ) ==> (r matches Err(e) && e is CrcMismatch),
    {
        if data.len() < 128 {
            return Err(GlosError::corrupted("stream too short for a header"));
        }
        let mut hdr = [0u8; 128];
        let mut i: usize = 0;
        while i < 128
            invariant
                i <= 128,
                data@.len() >= 128,
                hdr@.len() == 128,
                forall|j: int| 0 <= j < i ==> hdr@[j] == data@[j],
            decreases 128 - i,
        {
            hdr[i] = data[i];
            i = i + 1;
        }
        assert(hdr@ =~= data@.subrange(0, 128));
        let header = match GlosHeader::deserialize(&hdr) {
            Ok(h) => h,
            Err(e) => {
                return Err(e);
            },
        };
        let leftover = slice_to_vec(slice_subrange(data, 128, data.len()));
        assert(leftover@ =~= data@.skip(128));
        Ok(
            GlosReader {
                header,
                leftover,
                stats: ReadStats {
                    blocks_ok: 0,
                    blocks_corrupted: 0,
                    samples_recovered: 0,
                    bytes_processed: 0,
                },
                eof: false,
            },
        )
    }

    /// Appends freshly read bytes to the window.
    pub fn feed(&mut self, data: &[u8])
        ensures
            final(self).window() == old(self).window() + data@,
            final(self).spec_header() == old(self).spec_header(),
            final(self).spec_stats() == old(self).spec_stats(),
            final(self).spec_eof() == old(self).spec_eof(),
    {
        self.leftover.extend_from_slice(data);
    }

    /// Declares the source exhausted: no more bytes will ever be fed.
    pub fn finish_input(&mut self)
        ensures
            final(self).spec_eof(),
            final(self).window() == old(self).window(),
            final(self).spec_header() == old(self).spec_header(),
            final(self).spec_stats() == old(self).spec_stats(),
    {
        self.eof = true;
    }

    /// Pulls the next block off the window, resynchronizing past corruption.
    ///
    /// The result, the window that remains and every counter movement are
    /// exactly what one `scan_window` pull over the old window says.
    #[verifier::loop_isolation(false)]
    pub fn next_block(&mut self) -> (r: ReadOutcome)
        ensures
            final(self).spec_header() == old(self).spec_header(),
            final(self).spec_eof() == old(self).spec_eof(),
            final(self).window() == scan_window(
                old(self).window(),
                old(self).spec_header().compression,
                old(self).spec_header().iq_format,
                old(self).spec_eof(),
            ).window,
            final(self).spec_stats() == stats_after(
                old(self).spec_stats(),
                scan_window(
                    old(self).window(),
                    old(self).spec_header().compression,
                    old(self).spec_header().iq_format,
                    old(self).spec_eof(),
                ),
            ),
            ({
                let sc = scan_window(
                    old(self).window(),
                    old(self).spec_header().compression,
                    old(self).spec_header().iq_format,
                    old(self).spec_eof(),
                );
                match r {
                    ReadOutcome::Block(b) => sc.found == Some(b@),
                    ReadOutcome::NeedData => sc.found is None && sc.need_data,
                    ReadOutcome::Done => sc.found is None && !sc.need_data,
                }
            }),
    {
        let ghost w0 = self.leftover@;
        let ghost st0 = self.stats;
        let ghost comp = self.header.compression;
        let ghost fmt = self.header.iq_format;
        let ghost e = self.eof;
        loop
            invariant
                self.header == old(self).header,
                self.eof == old(self).eof,
                comp == self.header.compression,
                fmt == self.header.iq_format,
                e == self.eof,
                ({
                    let sc0 = scan_window(w0, comp, fmt, e);
                    let sc = scan_window(self.leftover@, comp, fmt, e);
                    sc0.found == sc.found && sc0.need_data == sc.need_data && sc0.window
                        == sc.window && stats_after(st0, sc0) == stats_after(self.stats, sc)
                }),
            decreases self.leftover@.len(),
        {
            proof {
                lemma_scan_facts(self.leftover@, comp, fmt, e);
            }
            let ghost w_iter = self.leftover@;
            let ghost st_iter = self.stats;
            if self.leftover.len() >= 20 {
                match IqBlock::deserialize(self.leftover.as_slice(), self.header.compression) {
                    Ok((block, bytes_read)) => {
                        let mut block = block;
                        proof {
                            lemma_scan_facts(w_iter.skip(bytes_read as int), comp, fmt, e);
                        }
                        let decompressed = match block.decompress() {
                            Ok(()) => true,
                            Err(_) => false,
                        };
                        if !decompressed {
                            drain_front(&mut self.leftover, bytes_read);
                            self.stats.blocks_corrupted = sat_add(self.stats.blocks_corrupted, 1);
                            proof {
                                lemma_sat_add_chain(
                                    st_iter.blocks_corrupted,
                                    1,
                                    scan_window(self.leftover@, comp, fmt, e).corrupted_delta,
                                );
                            }
                        } else if block.validate_sample_count(self.header.iq_format).is_err() {
                            drain_front(&mut self.leftover, bytes_read);
                            self.stats.blocks_corrupted = sat_add(self.stats.blocks_corrupted, 1);
                            proof {
                                lemma_sat_add_chain(
                                    st_iter.blocks_corrupted,
                                    1,
                                    scan_window(self.leftover@, comp, fmt, e).corrupted_delta,
                                );
                            }
                        } else {
                            self.stats.blocks_ok = sat_add(self.stats.blocks_ok, 1);
                            self.stats.samples_recovered = sat_add(
                                self.stats.samples_recovered,
                                block.sample_count as u64,
                            );
                            self.stats.bytes_processed = sat_add(
                                self.stats.bytes_processed,
                                bytes_read as u64,
                            );
                            drain_front(&mut self.leftover, bytes_read);
                            return ReadOutcome::Block(block);
                        }
                    },
                    Err(err) => {
                        match err {
                            GlosError::CrcMismatch { .. } => {
                                proof {
                                    lemma_scan_facts(w_iter.skip(1), comp, fmt, e);
                                }
                                drain_front(&mut self.leftover, 1);
                                self.stats.blocks_corrupted = sat_add(
                                    self.stats.blocks_corrupted,
                                    1,
                                );
                                proof {
                                    lemma_sat_add_chain(
                                        st_iter.blocks_corrupted,
                                        1,
                                        scan_window(self.leftover@, comp, fmt, e).corrupted_delta,
                                    );
                                }
                            },
                            _ => {
                                // the declared content runs past the window,
                                // or its length is impossible
                                if self.eof {
                                    drain_front(&mut self.leftover, 1);
                                } else {
                                    return ReadOutcome::NeedData;
                                }
                            },
                        }
                    },
                }
            } else {
                if self.eof {
                    return ReadOutcome::Done;
                } else {
                    return ReadOutcome::NeedData;
                }
            }
        }
    }

    /// Compares the header's declared sample total against the recovered
    /// count. A zero declared total means an unterminated recording and is
    /// accepted; any other mismatch is a format violation, reported but not
    /// fatal — the caller decides whether to trust the data.
    pub fn validate_totals(&self) -> (r: GlosResult<()>)
        ensures
            r is Ok <==> (self.spec_header().total_samples == 0
                || self.spec_stats().samples_recovered == self.spec_header().total_samples),
            r matches Err(e) ==> e is FormatViolation,
    {
        let expected = self.header.total_samples;
        if expected == 0 {
            return Ok(());
        }
        if self.stats.samples_recovered != expected {
            return Err(GlosError::format_violation("declared sample total does not match stream"));
        }
        Ok(())
    }

    /// The validated header of this stream.
    pub fn header(&self) -> (r: &GlosHeader)
        ensures
            *r == self.spec_header(),
    {
        &self.header
    }

    /// The counters accumulated so far.
    pub fn stats(&self) -> (r: &ReadStats)
        ensures
            *r == self.spec_stats(),
    {
        &self.stats
    }
}

/// Pulls every remaining block out of an exhausted reader, skipping
/// corrupted ones; exactly the blocks the scan recovers, in order.
#[verifier::loop_isolation(false)]
pub fn read_all_blocks(reader: &mut GlosReader) -> (r: GlosResult<Vec<IqBlock>>)
    requires
        old(reader).spec_eof(),
    ensures
        r matches Ok(v) && v@.map_values(|b: IqBlock| b@) == recovered_blocks(
            old(reader).window(),
            old(reader).spec_header().compression,
            old(reader).spec_header().iq_format,
        ),
        final(reader).spec_header() == old(reader).spec_header(),
        final(reader).spec_eof(),
{
    let ghost w0 = reader.leftover@;
    let ghost comp = reader.header.compression;
    let ghost fmt = reader.header.iq_format;
    let mut blocks: Vec<IqBlock> = Vec::new();
    loop
        invariant
            reader.spec_eof(),
            reader.header == old(reader).header,
            comp == reader.header.compression,
            fmt == reader.header.iq_format,
            recovered_blocks(w0, comp, fmt) == blocks@.map_values(|b: IqBlock| b@)
                + recovered_blocks(reader.leftover@, comp, fmt),
        decreases reader.leftover@.len(),
    {
        proof {
            lemma_scan_facts(reader.leftover@, comp, fmt, true);
        }
        let ghost w_iter = reader.leftover@;
        let ghost blocks_before = blocks@;
        match reader.next_block() {
            ReadOutcome::Block(b) => {
                blocks.push(b);
                proof {
                    assert(blocks@.map_values(|bl: IqBlock| bl@) =~= blocks_before.map_values(
                        |bl: IqBlock| bl@,
                    ) + seq![b@]);
                    assert(blocks_before.map_values(|bl: IqBlock| bl@) + (seq![b@]
                        + recovered_blocks(reader.leftover@, comp, fmt)) =~= (
                    blocks_before.map_values(|bl: IqBlock| bl@) + seq![b@]) + recovered_blocks(
                        reader.leftover@,
                        comp,
                        fmt,
                    ));
                }
            },
            ReadOutcome::NeedData => {
                // not reachable: an exhausted scan never asks for more data
                return Ok(blocks);
            },
            ReadOutcome::Done => {
                return Ok(blocks);
            },
        }
    }
}

/// Removes the first `n` bytes of a vector, keeping the rest in order.
fn drain_front(v: &mut Vec<u8>, n: usize)
    requires
        n <= old(v)@.len(),
    ensures
        final(v)@ == old(v)@.skip(n as int),
{
    let rest = slice_to_vec(slice_subrange(v.as_slice(), n, v.len()));
    *v = rest;
    assert(final(v)@ =~= old(v)@.skip(n as int));
}

} // verus!
