//! The capture pipeline's verified core: the bounded chunk buffer with its
//! drop-on-full policy, the accumulator that slices incoming chunks into
//! fixed-size blocks, and the writer-side step that turns one received chunk
//! into zero or more written blocks.
//!
//! The producer never blocks on a full buffer: a chunk that does not fit is
//! dropped and counted, favoring live timing over completeness. The consumer
//! accumulates chunks until a block's worth of samples is there, stamps the
//! block with the first chunk's timestamp seen since the last cut, and hands
//! it to the stream writer; write failures are counted and capture goes on.
//! On shutdown the partial remainder is flushed as one final undersized
//! block before the header is finalized.

use vstd::prelude::*;

use crate::block::{block_bytes, BlockModel, IqBlock};
use crate::counters::{lemma_sat_add_chain, sat_add, sat_add_u64};
use crate::error::GlosError;
use crate::header::{header_bytes, GlosHeader};
use crate::types::{spec_sample_size, Compression, IqFormat};
use crate::writer::{written_form, GlosWriter};
use crate::GLOS_MAX_BLOCK_SIZE;
use vstd::arithmetic::div_mod::lemma_fundamental_div_mod_converse;
use vstd::slice::{slice_subrange, slice_to_vec};

verus! {

/// One unframed batch of samples from a device: what travels through the
/// capture buffer before it is cut into blocks.
#[derive(Debug, Clone)]
pub struct IqChunk {
    /// Unix timestamp of the chunk's first sample, in nanoseconds.
    pub timestamp_ns: u64,
    /// Number of I/Q pairs in `data`.
    pub sample_count: u32,
    /// Raw sample bytes.
    pub data: Vec<u8>,
}

/// What a capture session can fail with.
#[derive(Debug)]
pub enum RecorderError {
    /// No device of the requested kind is available.
    DeviceNotFound(String),
    /// The device itself failed.
    DeviceError(String),
    /// The capture buffer overflowed: this many samples were dropped in the
    /// last batch.
    BufferOverflow { dropped: u64 },
    /// The stream being written is bad.
    Glos(GlosError),
    /// The pipeline's own plumbing failed.
    Pipeline(String),
    /// The configured recording duration elapsed.
    DurationElapsed,
}

/// Counters of one capture session. All saturate rather than wrap.
#[derive(Debug, Clone, PartialEq, Eq, Structural)]
pub struct RecorderMetrics {
    /// Samples received from the device.
    pub samples_recorded: u64,
    /// Blocks handed to the stream writer successfully.
    pub blocks_written: u64,
    /// Samples dropped because the capture buffer was full.
    pub dropped_samples: u64,
    /// Blocks the stream writer refused.
    pub write_errors: u64,
    /// Approximate bytes written, framing included.
    pub bytes_written: u64,
}

impl RecorderMetrics {
    /// Fresh counters, all zero.
    pub fn new() -> (m: Self)
        ensures
            m == (RecorderMetrics {
                samples_recorded: 0,
                blocks_written: 0,
                dropped_samples: 0,
                write_errors: 0,
                bytes_written: 0,
            }),
    {
        RecorderMetrics {
            samples_recorded: 0,
            blocks_written: 0,
            dropped_samples: 0,
            write_errors: 0,
            bytes_written: 0,
        }
    }
}

/// The library's bounded capture buffer: a fixed capacity, and a producer
/// that never blocks — a chunk pushed into a full buffer is dropped and its
/// samples counted.
pub struct ChunkQueue {
    items: Vec<IqChunk>,
    capacity: usize,
}

/// Sum of the sample counts of a run of chunks.
pub open spec fn sum_chunk_samples(chunks: Seq<IqChunk>) -> int
    decreases chunks.len(),
{
    if chunks.len() == 0 {
        0
    } else {
        chunks[0].sample_count + sum_chunk_samples(chunks.skip(1))
    }
}

/// How many samples are dropped when a producer pushes `chunks`, in order,
/// into a buffer holding `len` of `cap` slots, with nobody draining it:
/// each chunk takes a free slot while one exists, and is dropped whole
/// otherwise.
pub open spec fn drops_when_producing(len: int, cap: int, chunks: Seq<IqChunk>) -> int
    decreases chunks.len(),
{
    if chunks.len() == 0 {
        0
    } else if len < cap {
        drops_when_producing(len + 1, cap, chunks.skip(1))
    } else {
        chunks[0].sample_count + drops_when_producing(len, cap, chunks.skip(1))
    }
}

/// Backpressure: with nobody draining the buffer, producing more chunks
/// than it has free slots drops exactly the surplus — every chunk beyond
/// the capacity, counted in samples — and none of the ones that fit.
pub proof fn lemma_backpressure(len: int, cap: int, chunks: Seq<IqChunk>)
    requires
        0 <= len <= cap,
    ensures
        drops_when_producing(len, cap, chunks) == if chunks.len() <= cap - len {
            0int
        } else {
            sum_chunk_samples(chunks.skip(cap - len))
        },
    decreases chunks.len(),
{
    if chunks.len() == 0 {
    } else if len < cap {
        lemma_backpressure(len + 1, cap, chunks.skip(1));
        if chunks.len() > cap - len {
            assert(chunks.skip(1).skip(cap - len - 1) =~= chunks.skip(cap - len));
        }
    } else {
        lemma_backpressure(len, cap, chunks.skip(1));
        assert(chunks.skip(0) =~= chunks);
        assert(chunks.skip(1).skip(0) =~= chunks.skip(1));
    }
}

impl ChunkQueue {
    /// The chunks currently buffered, oldest first.
    pub closed spec fn spec_items(&self) -> Seq<IqChunk> {
        self.items@
    }

    /// The fixed number of slots.
    pub closed spec fn spec_capacity(&self) -> usize {
        self.capacity
    }

    /// An empty buffer with the given number of slots.
    pub fn new(capacity: usize) -> (q: Self)
        ensures
            q.spec_items() == Seq::<IqChunk>::empty(),
            q.spec_capacity() == capacity,
    {
        ChunkQueue { items: Vec::new(), capacity }
    }

    /// Chunks currently buffered.
    pub fn len(&self) -> (r: usize)
        ensures
            r == self.spec_items().len(),
    {
        self.items.len()
    }

    /// The fixed number of slots.
    pub fn capacity(&self) -> (r: usize)
        ensures
            r == self.spec_capacity(),
    {
        self.capacity
    }

    /// The producer's push: never blocks. A chunk that finds a free slot is
    /// buffered; one that does not is dropped whole and its samples counted
    /// against the drop counter — one step of `drops_when_producing`.
    pub fn try_push(&mut self, chunk: IqChunk, metrics: &mut RecorderMetrics) -> (pushed: bool)
        ensures
            final(self).spec_capacity() == old(self).spec_capacity(),
            pushed <==> old(self).spec_items().len() < old(self).spec_capacity(),
            pushed ==> final(self).spec_items() == old(self).spec_items().push(chunk)
                && *final(metrics) == *old(metrics),
            !pushed ==> final(self).spec_items() == old(self).spec_items() && *final(metrics) == (
            RecorderMetrics {
                dropped_samples: sat_add_u64(
                    old(metrics).dropped_samples,
                    chunk.sample_count as int,
                ),
                ..*old(metrics)
            }),
    {
        if self.items.len() < self.capacity {
            self.items.push(chunk);
            true
        } else {
            metrics.dropped_samples = sat_add(metrics.dropped_samples, chunk.sample_count as u64);
            false
        }
    }

    /// The consumer's pull: the oldest buffered chunk, if any.
    pub fn pop(&mut self) -> (r: Option<IqChunk>)
        ensures
            final(self).spec_capacity() == old(self).spec_capacity(),
            old(self).spec_items().len() == 0 ==> r is None && final(self).spec_items() == old(
                self,
            ).spec_items(),
            old(self).spec_items().len() > 0 ==> (r matches Some(c) && c == old(
                self,
            ).spec_items()[0] && final(self).spec_items() == old(self).spec_items().skip(1)),
    {
        if self.items.len() == 0 {
            None
        } else {
            let c = self.items.remove(0);
            proof {
                assert(final(self).items@ =~= old(self).items@.skip(1));
            }
            Some(c)
        }
    }
}

/// Slices the incoming stream of chunks into blocks of a fixed number of
/// samples. A block is stamped with the timestamp of the first chunk that
/// arrived since the last cut; when one chunk yields several blocks, only
/// the first carries that stamp and the rest are stamped zero.
pub struct BlockAccumulator {
    acc: Vec<u8>,
    acc_samples: u32,
    block_ts: Option<u64>,
    block_samples: u32,
    sample_size: usize,
}

impl BlockAccumulator {
    /// Buffered bytes not yet cut into a block.
    pub closed spec fn spec_acc(&self) -> Seq<u8> {
        self.acc@
    }

    /// Samples those bytes hold.
    pub closed spec fn spec_acc_samples(&self) -> u32 {
        self.acc_samples
    }

    /// Timestamp of the first chunk since the last cut, if any arrived.
    pub closed spec fn spec_block_ts(&self) -> Option<u64> {
        self.block_ts
    }

    /// The configured samples per block.
    pub closed spec fn spec_block_samples(&self) -> u32 {
        self.block_samples
    }

    /// Bytes of one sample pair.
    pub closed spec fn spec_sample_size(&self) -> usize {
        self.sample_size
    }

    /// The accumulator's invariant: the buffer holds whole samples, fewer
    /// than one block's worth, and the block size is workable.
    pub closed spec fn wf(&self) -> bool {
        &&& self.acc@.len() == self.acc_samples * self.sample_size
        &&& self.acc_samples < self.block_samples
        &&& self.block_samples >= 1
        &&& 1 <= self.sample_size <= 8
    }

    /// An empty accumulator cutting blocks of `block_samples` samples of
    /// `format`.
    pub fn new(block_samples: u32, format: IqFormat) -> (a: Self)
        requires
            block_samples >= 1,
        ensures
            a.wf(),
            a.spec_acc() == Seq::<u8>::empty(),
            a.spec_acc_samples() == 0,
            a.spec_block_ts() is None,
            a.spec_block_samples() == block_samples,
            a.spec_sample_size() == spec_sample_size(format),
    {
        BlockAccumulator {
            acc: Vec::new(),
            acc_samples: 0,
            block_ts: None,
            block_samples,
            sample_size: format.sample_size(),
        }
    }

    /// Buffers one chunk's samples; the first chunk since the last cut
    /// leaves its timestamp for the next block.
    pub fn push_chunk(&mut self, chunk: &IqChunk)
        requires
            old(self).wf() || old(self).spec_acc_samples() >= old(self).spec_block_samples(),
            old(self).spec_acc().len() == old(self).spec_acc_samples() * old(
                self,
            ).spec_sample_size(),
            chunk.data@.len() == chunk.sample_count * old(self).spec_sample_size(),
            old(self).spec_acc_samples() + chunk.sample_count <= u32::MAX,
        ensures
            final(self).spec_acc() == old(self).spec_acc() + chunk.data@,
            final(self).spec_acc_samples() == old(self).spec_acc_samples() + chunk.sample_count,
            final(self).spec_block_ts() == Some(
                match old(self).spec_block_ts() {
                    Some(t) => t,
                    None => chunk.timestamp_ns,
                },
            ),
            final(self).spec_block_samples() == old(self).spec_block_samples(),
            final(self).spec_sample_size() == old(self).spec_sample_size(),
    {
        if self.block_ts.is_none() {
            self.block_ts = Some(chunk.timestamp_ns);
        }
        self.acc.extend_from_slice(chunk.data.as_slice());
        self.acc_samples = self.acc_samples + chunk.sample_count;
    }

    /// Cuts one full block off the front of the buffer, if a block's worth
    /// of samples is there. The first cut since a chunk arrived carries the
    /// pending timestamp and clears it; later cuts are stamped zero.
    pub fn take_full_block(&mut self) -> (r: Option<IqBlock>)
        requires
            old(self).spec_acc().len() == old(self).spec_acc_samples() * old(
                self,
            ).spec_sample_size(),
            old(self).spec_block_samples() >= 1,
            1 <= old(self).spec_sample_size() <= 8,
        ensures
            final(self).spec_block_samples() == old(self).spec_block_samples(),
            final(self).spec_sample_size() == old(self).spec_sample_size(),
            old(self).spec_acc_samples() < old(self).spec_block_samples() ==> r is None
                && *final(self) == *old(self),
            old(self).spec_acc_samples() >= old(self).spec_block_samples() ==> {
                let nb = old(self).spec_block_samples() * old(self).spec_sample_size();
                &&& (r matches Some(b) && b@ == (BlockModel {
                    timestamp_ns: match old(self).spec_block_ts() {
                        Some(t) => t,
                        None => 0,
                    },
                    sample_count: old(self).spec_block_samples(),
                    data: old(self).spec_acc().subrange(0, nb as int),
                    is_compressed: false,
                }))
                &&& final(self).spec_acc() == old(self).spec_acc().skip(nb as int)
                &&& final(self).spec_acc_samples() == old(self).spec_acc_samples() - old(
                    self,
                ).spec_block_samples()
                &&& final(self).spec_block_ts() is None
            },
    {
        if self.acc_samples < self.block_samples {
            return None;
        }
        proof {
            assert(self.block_samples * self.sample_size <= self.acc_samples * self.sample_size)
                by (nonlinear_arith)
                requires
                    self.block_samples <= self.acc_samples,
                    self.sample_size >= 1,
            ;
            assert(self.block_samples * self.sample_size <= self.acc@.len());
        }
        let available = self.acc.len();
        assert(self.block_samples * self.sample_size <= available);
        let n_bytes: usize = (self.block_samples as usize) * self.sample_size;
        let ts = match self.block_ts {
            Some(t) => t,
            None => 0,
        };
        self.block_ts = None;
        let data = slice_to_vec(slice_subrange(self.acc.as_slice(), 0, n_bytes));
        let rest = slice_to_vec(slice_subrange(self.acc.as_slice(), n_bytes, self.acc.len()));
        self.acc = rest;
        self.acc_samples = self.acc_samples - self.block_samples;
        proof {
            assert(final(self).acc@ =~= old(self).acc@.skip(
                (old(self).block_samples * old(self).sample_size) as int,
            ));
            assert(data@ =~= old(self).acc@.subrange(
                0,
                (old(self).block_samples * old(self).sample_size) as int,
            ));
        }
        Some(IqBlock::new(ts, self.block_samples, data))
    }

    /// The configured samples per block.
    pub fn block_samples(&self) -> (r: u32)
        ensures
            r == self.spec_block_samples(),
    {
        self.block_samples
    }

    /// Bytes of one sample pair.
    pub fn sample_size_bytes(&self) -> (r: usize)
        ensures
            r == self.spec_sample_size(),
    {
        self.sample_size
    }

    /// Whether a full block's worth of samples is buffered.
    pub fn has_full_block(&self) -> (r: bool)
        ensures
            r == (self.spec_acc_samples() >= self.spec_block_samples()),
    {
        self.acc_samples >= self.block_samples
    }

    /// Flushes whatever partial block remains at shutdown: the buffered
    /// samples as one final undersized block, or nothing when the buffer is
    /// empty. Either way the accumulator ends empty.
    pub fn flush_partial(&mut self) -> (r: Option<IqBlock>)
        ensures
            final(self).spec_block_samples() == old(self).spec_block_samples(),
            final(self).spec_sample_size() == old(self).spec_sample_size(),
            final(self).spec_acc() == Seq::<u8>::empty(),
            final(self).spec_acc_samples() == 0,
            final(self).spec_block_ts() is None,
            old(self).spec_acc_samples() == 0 ==> r is None,
            old(self).spec_acc_samples() > 0 ==> (r matches Some(b) && b@ == (BlockModel {
                timestamp_ns: match old(self).spec_block_ts() {
                    Some(t) => t,
                    None => 0,
                },
                sample_count: old(self).spec_acc_samples(),
                data: old(self).spec_acc(),
                is_compressed: false,
            })),
    {
        let ts = match self.block_ts {
            Some(t) => t,
            None => 0,
        };
        self.block_ts = None;
        let samples = self.acc_samples;
        self.acc_samples = 0;
        let mut data: Vec<u8> = Vec::new();
        core::mem::swap(&mut data, &mut self.acc);
        if samples > 0 {
            Some(IqBlock::new(ts, samples, data))
        } else {
            None
        }
    }
}

/// The block cut `i` (counting from zero) out of the bytes one chunk left
/// in the accumulator: `nb`-byte slabs in order, the first stamped with the
/// pending timestamp and the rest with zero.
pub open spec fn capture_block_model(
    combined: Seq<u8>,
    first_ts: u64,
    bs: u32,
    nb: int,
    i: int,
) -> BlockModel {
    BlockModel {
        timestamp_ns: if i == 0 {
            first_ts
        } else {
            0
        },
        sample_count: bs,
        data: combined.subrange(i * nb, i * nb + nb),
        is_compressed: false,
    }
}

/// Writing the first `j` blocks cut from `combined` to a stream with
/// compression `comp`: how many are accepted, and the bytes they append.
/// A block is refused exactly when its written form outgrows the maximum
/// block size.
pub open spec fn write_run(
    combined: Seq<u8>,
    first_ts: u64,
    bs: u32,
    nb: int,
    comp: Compression,
    j: int,
) -> (int, Seq<u8>)
    decreases j,
{
    if j <= 0 {
        (0, Seq::<u8>::empty())
    } else {
        let prev = write_run(combined, first_ts, bs, nb, comp, j - 1);
        let eff = written_form(comp, capture_block_model(combined, first_ts, bs, nb, j - 1));
        if eff.data.len() + 20 <= GLOS_MAX_BLOCK_SIZE {
            (prev.0 + 1, prev.1 + block_bytes(eff))
        } else {
            prev
        }
    }
}

/// One consumer step: buffer a received chunk, cut and write every full
/// block that completes, and account it all.
///
/// With `total` the buffered and incoming samples together and `bs` the
/// block size, exactly `total / bs` blocks are cut and handed to the
/// writer; `total % bs` samples stay buffered; the writer's totals grow by
/// the cut samples and blocks whether or not a write is refused, as the
/// stream totals count what was handed in; and the accepted and refused
/// writes are exactly what `write_run` says.
#[verifier::loop_isolation(false)]
pub fn handle_chunk(
    writer: &mut GlosWriter,
    acc: &mut BlockAccumulator,
    metrics: &mut RecorderMetrics,
    chunk: IqChunk,
)
    requires
        old(acc).wf(),
        old(writer).wf(),
        chunk.data@.len() == chunk.sample_count * old(acc).spec_sample_size(),
        old(acc).spec_acc_samples() + chunk.sample_count <= u32::MAX,
        old(writer).spec_total_samples() + old(acc).spec_acc_samples() + chunk.sample_count
            <= u64::MAX,
        old(writer).spec_block_count() + old(acc).spec_acc_samples() + chunk.sample_count
            < u64::MAX,
    ensures
        final(acc).wf(),
        final(writer).wf(),
        final(acc).spec_block_samples() == old(acc).spec_block_samples(),
        final(acc).spec_sample_size() == old(acc).spec_sample_size(),
        final(writer).spec_header() == old(writer).spec_header(),
        ({
            let bs = old(acc).spec_block_samples() as int;
            let nb = old(acc).spec_block_samples() * old(acc).spec_sample_size();
            let combined = old(acc).spec_acc() + chunk.data@;
            let total = old(acc).spec_acc_samples() + chunk.sample_count;
            let k = total / bs;
            let first_ts = match old(acc).spec_block_ts() {
                Some(t) => t,
                None => chunk.timestamp_ns,
            };
            let run = write_run(
                combined,
                first_ts,
                old(acc).spec_block_samples(),
                nb as int,
                old(writer).spec_header().compression,
                k,
            );
            &&& final(acc).spec_acc_samples() == total % bs
            &&& final(acc).spec_acc() == combined.skip(k * nb)
            &&& final(acc).spec_block_ts() == (if k >= 1 {
                None::<u64>
            } else {
                Some(first_ts)
            })
            &&& final(writer).spec_total_samples() == old(writer).spec_total_samples() + k * bs
            &&& final(writer).spec_block_count() == old(writer).spec_block_count() + k
            &&& final(writer).spec_bytes() == old(writer).spec_bytes() + run.1
            &&& *final(metrics) == (RecorderMetrics {
                samples_recorded: sat_add_u64(
                    old(metrics).samples_recorded,
                    chunk.sample_count as int,
                ),
                blocks_written: sat_add_u64(old(metrics).blocks_written, run.0),
                write_errors: sat_add_u64(old(metrics).write_errors, k - run.0),
                bytes_written: sat_add_u64(old(metrics).bytes_written, run.0 * (nb + 20)),
                ..*old(metrics)
            })
        }),
{
    let ghost bs_int = old(acc).spec_block_samples() as int;
    let ghost combined = old(acc).spec_acc() + chunk.data@;
    let ghost total = old(acc).spec_acc_samples() + chunk.sample_count;
    let ghost first_ts: u64 = match old(acc).spec_block_ts() {
        Some(t) => t,
        None => chunk.timestamp_ns,
    };
    let ghost comp = old(writer).spec_header().compression;
    metrics.samples_recorded = sat_add(metrics.samples_recorded, chunk.sample_count as u64);
    acc.push_chunk(&chunk);
    proof {
        let bs_g = old(acc).spec_block_samples();
        let ss_g = old(acc).spec_sample_size();
        assert(bs_g * ss_g <= 0xffffffffu64 * 8) by (nonlinear_arith)
            requires
                bs_g <= 0xffffffffu64,
                ss_g <= 8,
        ;
    }
    let nb_u64: u64 = (acc.block_samples() as u64) * (acc.sample_size_bytes() as u64);
    let ghost nb = old(acc).spec_block_samples() * old(acc).spec_sample_size();
    let ghost k = total / bs_int;
    let ghost mt0 = *metrics;
    proof {
        assert(combined.skip(0) =~= combined);
        assert(writer.spec_bytes() + Seq::<u8>::empty() =~= writer.spec_bytes());
        let s0 = old(acc).spec_acc_samples() as int;
        let cnt = chunk.sample_count as int;
        let ss0 = old(acc).spec_sample_size() as int;
        assert((s0 + cnt) * ss0 == s0 * ss0 + cnt * ss0) by (nonlinear_arith);
    }
    let mut j: u64 = 0;
    while acc.has_full_block()
        invariant
            acc.spec_block_samples() == old(acc).spec_block_samples(),
            acc.spec_sample_size() == old(acc).spec_sample_size(),
            writer.wf(),
            writer.spec_header() == old(writer).spec_header(),
            acc.spec_acc().len() == acc.spec_acc_samples() * acc.spec_sample_size(),
            nb == old(acc).spec_block_samples() * old(acc).spec_sample_size(),
            nb_u64 == nb,
            0 <= j,
            j * bs_int <= total,
            0 <= j * nb,
            j * nb + acc.spec_acc_samples() * old(acc).spec_sample_size() == combined.len(),
            acc.spec_acc_samples() == total - j * bs_int,
            acc.spec_acc() == combined.skip(j * nb),
            acc.spec_block_ts() == (if j >= 1 {
                None::<u64>
            } else {
                Some(first_ts)
            }),
            writer.spec_total_samples() == old(writer).spec_total_samples() + j * bs_int,
            writer.spec_block_count() == old(writer).spec_block_count() + j,
            writer.spec_bytes() == old(writer).spec_bytes() + write_run(
                combined,
                first_ts,
                old(acc).spec_block_samples(),
                nb as int,
                comp,
                j as int,
            ).1,
            *metrics == (RecorderMetrics {
                blocks_written: sat_add_u64(
                    mt0.blocks_written,
                    write_run(
                        combined,
                        first_ts,
                        old(acc).spec_block_samples(),
                        nb as int,
                        comp,
                        j as int,
                    ).0,
                ),
                write_errors: sat_add_u64(
                    mt0.write_errors,
                    j - write_run(
                        combined,
                        first_ts,
                        old(acc).spec_block_samples(),
                        nb as int,
                        comp,
                        j as int,
                    ).0,
                ),
                bytes_written: sat_add_u64(
                    mt0.bytes_written,
                    write_run(
                        combined,
                        first_ts,
                        old(acc).spec_block_samples(),
                        nb as int,
                        comp,
                        j as int,
                    ).0 * (nb + 20),
                ),
                ..mt0
            }),
        decreases acc.spec_acc_samples(),
    {
        let ghost run_j = write_run(
            combined,
            first_ts,
            old(acc).spec_block_samples(),
            nb as int,
            comp,
            j as int,
        );
        let ghost s_before = acc.spec_acc_samples() as int;
        proof {
            lemma_write_run_counts(
                combined,
                first_ts,
                old(acc).spec_block_samples(),
                nb as int,
                comp,
                j as int,
            );
            let bsv = acc.spec_block_samples() as int;
            let ssv = acc.spec_sample_size() as int;
            assert((s_before - bsv) * ssv == s_before * ssv - bsv * ssv) by (nonlinear_arith);
            assert(bsv * ssv <= s_before * ssv) by (nonlinear_arith)
                requires
                    bsv <= s_before,
                    ssv >= 0,
            ;
        }
        match acc.take_full_block() {
            Some(block) => {
                proof {
                    assert((j + 1) * bs_int == j * bs_int + bs_int) by (nonlinear_arith);
                    assert((j + 1) * nb == j * nb + nb) by (nonlinear_arith);
                    assert(j <= j * bs_int) by (nonlinear_arith)
                        requires
                            j >= 0,
                            bs_int >= 1,
                    ;
                    assert(block@ == capture_block_model(
                        combined,
                        first_ts,
                        old(acc).spec_block_samples(),
                        nb as int,
                        j as int,
                    )) by {
                        assert(combined.skip(j * nb).subrange(0, nb as int) =~= combined.subrange(
                            j * nb,
                            j * nb + nb,
                        ));
                    }
                    assert(combined.skip(j * nb).skip(nb as int) =~= combined.skip(j * nb + nb));
                }
                match writer.write_block(block) {
                    Ok(()) => {
                        metrics.blocks_written = sat_add(metrics.blocks_written, 1);
                        metrics.bytes_written = sat_add(metrics.bytes_written, nb_u64 + 20);
                        proof {
                            assert(run_j.0 * (nb + 20) >= 0) by (nonlinear_arith)
                                requires
                                    run_j.0 >= 0,
                                    nb >= 0,
                            ;
                            lemma_sat_add_chain(mt0.blocks_written, run_j.0, 1);
                            lemma_sat_add_chain(mt0.bytes_written, run_j.0 * (nb + 20), nb + 20);
                            assert((run_j.0 + 1) * (nb + 20) == run_j.0 * (nb + 20) + (nb + 20))
                                by (nonlinear_arith);
                        }
                    },
                    Err(_) => {
                        metrics.write_errors = sat_add(metrics.write_errors, 1);
                        proof {
                            lemma_sat_add_chain(mt0.write_errors, j - run_j.0, 1);
                        }
                    },
                }
                j = j + 1;
            },
            None => {
                proof {
                    assert(false);
                }
            },
        }
    }
    proof {
        lemma_fundamental_div_mod_converse(total as int, bs_int, j as int, total - j * bs_int);
    }
}

/// A run of `j` writes accepts between none and all of them.
proof fn lemma_write_run_counts(
    combined: Seq<u8>,
    first_ts: u64,
    bs: u32,
    nb: int,
    comp: Compression,
    j: int,
)
    requires
        j >= 0,
    ensures
        0 <= write_run(combined, first_ts, bs, nb, comp, j).0 <= j,
    decreases j,
{
    if j > 0 {
        lemma_write_run_counts(combined, first_ts, bs, nb, comp, j - 1);
    }
}

/// Shutdown: flush the partial block, if any, then finalize the header and
/// hand the whole stream over. This runs on every exit path of a capture
/// session, however the stop was triggered.
pub fn finish_capture(
    writer: GlosWriter,
    acc: &mut BlockAccumulator,
    metrics: &mut RecorderMetrics,
    timestamp_end: u64,
) -> (r: Vec<u8>)
    requires
        old(acc).wf(),
        writer.wf(),
        writer.spec_total_samples() + old(acc).spec_acc_samples() <= u64::MAX,
        writer.spec_block_count() < u64::MAX,
    ensures
        final(acc).spec_acc_samples() == 0,
        final(acc).spec_acc() == Seq::<u8>::empty(),
        ({
            let pb = BlockModel {
                timestamp_ns: match old(acc).spec_block_ts() {
                    Some(t) => t,
                    None => 0,
                },
                sample_count: old(acc).spec_acc_samples(),
                data: old(acc).spec_acc(),
                is_compressed: false,
            };
            let eff = written_form(writer.spec_header().compression, pb);
            let finalized_total = writer.spec_total_samples() + old(acc).spec_acc_samples();
            if old(acc).spec_acc_samples() == 0 {
                r@ == header_bytes(
                    GlosHeader {
                        total_samples: writer.spec_total_samples(),
                        timestamp_end,
                        ..writer.spec_header()
                    },
                ) + writer.spec_bytes().skip(128) && *final(metrics) == *old(metrics)
            } else if eff.data.len() + 20 <= GLOS_MAX_BLOCK_SIZE {
                r@ == header_bytes(
                    GlosHeader {
                        total_samples: finalized_total as u64,
                        timestamp_end,
                        ..writer.spec_header()
                    },
                ) + (writer.spec_bytes() + block_bytes(eff)).skip(128) && *final(metrics) == (
                RecorderMetrics {
                    blocks_written: sat_add_u64(old(metrics).blocks_written, 1),
                    ..*old(metrics)
                })
            } else {
                r@ == header_bytes(
                    GlosHeader {
                        total_samples: finalized_total as u64,
                        timestamp_end,
                        ..writer.spec_header()
                    },
                ) + writer.spec_bytes().skip(128) && *final(metrics) == (RecorderMetrics {
                    write_errors: sat_add_u64(old(metrics).write_errors, 1),
                    ..*old(metrics)
                })
            }
        }),
{
    let mut writer = writer;
    match acc.flush_partial() {
        Some(block) => {
            match writer.write_block(block) {
                Ok(()) => {
                    metrics.blocks_written = sat_add(metrics.blocks_written, 1);
                },
                Err(_) => {
                    metrics.write_errors = sat_add(metrics.write_errors, 1);
                },
            }
        },
        None => {},
    }
    writer.finish(timestamp_end)
}

/// The capture loop's exit decision: stop when asked to from outside, or
/// when a configured duration has elapsed.
pub fn should_stop(stop_requested: bool, elapsed_secs: u64, duration_limit: Option<u64>) -> (r:
    bool)
    ensures
        r == (stop_requested || (duration_limit matches Some(d) && elapsed_secs >= d)),
{
    if stop_requested {
        return true;
    }
    match duration_limit {
        Some(d) => elapsed_secs >= d,
        None => false,
    }
}

} // verus!
