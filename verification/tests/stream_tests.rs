//! Stream-level tests: writing, reading back, corruption recovery, and the
//! deterministic test vectors.

use glos::block::IqBlock;
use glos::header::GlosHeader;
use glos::reader::{read_all_blocks, GlosReader, ReadOutcome};
use glos::types::{Compression, IqFormat, SdrType};
use glos::writer::GlosWriter;

fn make_header() -> GlosHeader {
    GlosHeader::new(SdrType::HackRf, 2_000_000, 1_602_000_000, 1_704_067_200)
}

fn make_block(ts: u64, count: u32) -> IqBlock {
    let data = vec![0u8; count as usize * 4]; // Int16: 4 bytes per pair
    IqBlock::new(ts, count, data)
}

/// Opens a reader over a complete in-memory stream.
fn open_complete(raw: &[u8]) -> GlosReader {
    let mut reader = GlosReader::new(raw).unwrap();
    reader.finish_input();
    reader
}

/// Drains a reader, returning the recovered blocks.
fn collect_blocks(reader: &mut GlosReader) -> Vec<IqBlock> {
    let mut blocks = Vec::new();
    loop {
        match reader.next_block() {
            ReadOutcome::Block(b) => blocks.push(b),
            ReadOutcome::Done => break,
            ReadOutcome::NeedData => panic!("an exhausted reader never needs data"),
        }
    }
    blocks
}

#[test]
fn test_writer_reader_round_trip() {
    let header = make_header();
    let mut writer = GlosWriter::new(header);

    for i in 0..5u64 {
        writer.write_block(make_block(i * 1_000_000, 1000)).unwrap();
    }
    let total = writer.total_samples();
    assert_eq!(total, 5000);

    let raw = writer.finish(1_704_067_201);
    let mut reader = open_complete(&raw);
    let blocks = collect_blocks(&mut reader);
    assert_eq!(blocks.len(), 5);
    assert_eq!(reader.header().total_samples, 5000);
}

#[test]
fn test_reader_iterates_blocks() {
    let mut raw = Vec::<u8>::new();
    let header = make_header();
    raw.extend_from_slice(&header.serialize().unwrap());

    for i in 0..3u64 {
        let block = make_block(i * 500_000, 500);
        raw.extend_from_slice(&block.serialize().unwrap());
    }

    let mut reader = open_complete(&raw);
    let mut count = 0;
    while let ReadOutcome::Block(_) = reader.next_block() {
        count += 1;
    }

    assert_eq!(count, 3);
    assert_eq!(reader.stats().blocks_ok, 3);
    assert_eq!(reader.stats().blocks_corrupted, 0);
    assert_eq!(reader.stats().samples_recovered, 1500);
}

#[test]
fn test_iterator_impl() {
    let mut raw = Vec::<u8>::new();
    let header = make_header();
    raw.extend_from_slice(&header.serialize().unwrap());
    raw.extend_from_slice(&make_block(0, 100).serialize().unwrap());
    raw.extend_from_slice(&make_block(1, 200).serialize().unwrap());

    let mut reader = open_complete(&raw);
    let blocks = collect_blocks(&mut reader);

    assert_eq!(blocks.len(), 2);
    assert_eq!(blocks[0].sample_count, 100);
    assert_eq!(blocks[1].sample_count, 200);
}

#[test]
fn test_corrupted_block_skipped() {
    let mut raw = Vec::<u8>::new();
    let header = make_header();
    raw.extend_from_slice(&header.serialize().unwrap());

    let b1 = make_block(1, 10).serialize().unwrap();
    let mut b2_corrupt = make_block(2, 10).serialize().unwrap();
    let b3 = make_block(3, 10).serialize().unwrap();

    // damage the second block's checksum
    let last = b2_corrupt.len() - 1;
    b2_corrupt[last] ^= 0xFF;

    raw.extend_from_slice(&b1);
    raw.extend_from_slice(&b2_corrupt);
    raw.extend_from_slice(&b3);

    let mut reader = open_complete(&raw);
    let ok = collect_blocks(&mut reader).len();

    // blocks 1 and 3 come back, block 2 is skipped
    assert_eq!(ok, 2);
    assert!(reader.stats().blocks_corrupted > 0);
}

#[test]
fn test_lz4_auto_compress_decompress() {
    let mut raw = Vec::<u8>::new();
    let mut header = make_header();
    header.compression = Compression::Lz4;
    header.iq_format = IqFormat::Int16;
    raw.extend_from_slice(&header.serialize().unwrap());

    // write an already-compressed block by hand, as the writer would
    let data = vec![42u8; 4000]; // compresses well
    let mut b = IqBlock::new(0, 1000, data.clone());
    b.compress().unwrap();
    let compressed_bytes = b.serialize().unwrap();
    raw.extend_from_slice(&compressed_bytes);

    let mut reader = open_complete(&raw);
    assert_eq!(reader.header().compression, Compression::Lz4);

    let block_out = match reader.next_block() {
        ReadOutcome::Block(b) => b,
        _ => panic!("expected one block"),
    };
    assert_eq!(block_out.data, data);
    assert!(!block_out.is_compressed);
}

#[test]
fn test_read_all_blocks_helper() {
    let mut raw = Vec::<u8>::new();
    raw.extend_from_slice(&make_header().serialize().unwrap());
    for i in 0..4u64 {
        raw.extend_from_slice(&make_block(i, 50).serialize().unwrap());
    }

    let mut reader = open_complete(&raw);
    let blocks = read_all_blocks(&mut reader).unwrap();
    assert_eq!(blocks.len(), 4);
}

// Fewer bytes than a header is corruption, not a silent empty stream.
#[test]
fn test_reader_short_input() {
    let result = GlosReader::new(&[0u8; 64]);
    assert!(result.is_err());
}

#[test]
fn test_header_validated_on_open() {
    let mut raw = vec![0u8; 128]; // garbage
    raw[0..4].copy_from_slice(b"XXXX"); // wrong magic

    let result = GlosReader::new(&raw);
    assert!(result.is_err());
}

#[test]
fn test_writer_block_count() {
    let mut writer = GlosWriter::new(make_header());
    writer.write_block(make_block(0, 100)).unwrap();
    writer.write_block(make_block(1, 200)).unwrap();
    assert_eq!(writer.block_count(), 2);
    assert_eq!(writer.total_samples(), 300);
    let raw = writer.finish(1_704_067_201);

    // after finish the header must carry total_samples = 300
    let mut reader = open_complete(&raw);
    assert_eq!(reader.header().total_samples, 300);

    let blocks = read_all_blocks(&mut reader).unwrap();
    assert_eq!(blocks.len(), 2);
}

#[test]
fn test_empty_file_no_blocks() {
    let mut raw = Vec::<u8>::new();
    raw.extend_from_slice(&make_header().serialize().unwrap());

    let mut reader = open_complete(&raw);
    assert!(matches!(reader.next_block(), ReadOutcome::Done));
    assert_eq!(reader.stats().blocks_ok, 0);
}

// ==========================================================================
// Deterministic test vectors
// ==========================================================================

fn deterministic_header() -> GlosHeader {
    let mut h = make_header();
    h.gain_db_bits = 40.0f32.to_bits();
    h.iq_format = IqFormat::Int16;
    h.compression = Compression::Uncompressed;
    h.timestamp_start = 1_704_067_200; // 2024-01-01 00:00:00 UTC
    h.timestamp_end = 0;
    h.total_samples = 0;
    h
}

fn deterministic_block(ts_ns: u64, count: u32) -> IqBlock {
    let data: Vec<u8> = (0..count as usize)
        .flat_map(|i| {
            let i_val = ((i % 128) as i16) * 256;
            let q_val = -((i % 128) as i16) * 256;
            let mut bytes = [0u8; 4];
            bytes[0..2].copy_from_slice(&i_val.to_be_bytes());
            bytes[2..4].copy_from_slice(&q_val.to_be_bytes());
            bytes
        })
        .collect();
    IqBlock::new(ts_ns, count, data)
}

fn build_test_vector_1() -> Vec<u8> {
    let mut raw = Vec::new();
    let mut header = deterministic_header();
    header.total_samples = 2_000;
    header.timestamp_end = 1_704_067_201;
    raw.extend_from_slice(&header.serialize().unwrap());
    raw.extend_from_slice(
        &deterministic_block(1_704_067_200_000_000_000, 1_000)
            .serialize()
            .unwrap(),
    );
    raw.extend_from_slice(
        &deterministic_block(1_704_067_200_500_000_000, 1_000)
            .serialize()
            .unwrap(),
    );
    raw
}

fn build_test_vector_2() -> Vec<u8> {
    let mut raw = Vec::new();
    let mut header = deterministic_header();
    header.compression = Compression::Lz4;
    header.total_samples = 2_000;
    header.timestamp_end = 1_704_067_201;
    raw.extend_from_slice(&header.serialize().unwrap());

    for i in 0..2u64 {
        let mut block = IqBlock::new(
            1_704_067_200_000_000_000 + i * 500_000_000,
            1_000,
            vec![42u8; 4_000], // repetitive, compresses well
        );
        block.compress().unwrap();
        raw.extend_from_slice(&block.serialize().unwrap());
    }
    raw
}

fn build_test_vector_3() -> Vec<u8> {
    let mut raw = Vec::new();
    let header = deterministic_header();
    raw.extend_from_slice(&header.serialize().unwrap());

    // block 1: good
    raw.extend_from_slice(&deterministic_block(1_000_000_000, 100).serialize().unwrap());

    // block 2: checksum damaged
    let mut b2 = deterministic_block(2_000_000_000, 100).serialize().unwrap();
    let last = b2.len() - 1;
    b2[last] ^= 0xFF;
    raw.extend_from_slice(&b2);

    // block 3: good
    raw.extend_from_slice(&deterministic_block(3_000_000_000, 100).serialize().unwrap());

    raw
}

#[test]
fn test_vector_1_byte_layout() {
    let bytes = build_test_vector_1();

    assert_eq!(&bytes[0..4], b"GLOS", "magic");
    assert_eq!(bytes[4], 1, "version");
    assert_eq!(bytes[5], 0, "flags = big-endian");
    assert_eq!(bytes[12], 0, "sdr_type = HackRF");
    assert_eq!(bytes[13], 1, "iq_format = Int16");
    assert_eq!(bytes[14], 0, "compression = none");
    // sample_rate = 2_000_000 = 0x001E8480
    assert_eq!(&bytes[16..20], &[0x00, 0x1E, 0x84, 0x80], "sample_rate BE");
    // the first block starts right after the 128-byte header
    // content_size = 4 + 8 + 4000 = 4012 = 0x00000FAC
    assert_eq!(&bytes[128..132], &[0x00, 0x00, 0x0F, 0xAC], "content_size bytes");

    let content_size = u32::from_be_bytes([bytes[128], bytes[129], bytes[130], bytes[131]]);
    assert_eq!(content_size, 4_012, "first block's content_size");
    let sample_count = u32::from_be_bytes([bytes[132], bytes[133], bytes[134], bytes[135]]);
    assert_eq!(sample_count, 1_000, "first block's sample_count");
}

#[test]
fn test_vector_1_parse_and_validate() {
    let raw = build_test_vector_1();
    let mut reader = open_complete(&raw);

    let h = reader.header().clone();
    assert_eq!(h.sdr_type, SdrType::HackRf);
    assert_eq!(h.sample_rate, 2_000_000);
    assert_eq!(h.center_freq, 1_602_000_000);
    assert_eq!(f32::from_bits(h.gain_db_bits), 40.0);
    assert_eq!(h.iq_format, IqFormat::Int16);
    assert_eq!(h.compression, Compression::Uncompressed);
    assert_eq!(h.total_samples, 2_000);
    assert_eq!(h.timestamp_start, 1_704_067_200);

    let blocks = read_all_blocks(&mut reader).unwrap();
    assert_eq!(blocks.len(), 2);
    assert_eq!(blocks[0].sample_count, 1_000);
    assert_eq!(blocks[1].sample_count, 1_000);

    for block in &blocks {
        block.validate_sample_count(IqFormat::Int16).unwrap();
    }

    reader.validate_totals().unwrap();
}

#[test]
fn test_vector_1_deterministic_crc() {
    // same input, same bytes, same checksum
    let raw1 = build_test_vector_1();
    let raw2 = build_test_vector_1();
    assert_eq!(raw1, raw2, "the build must be deterministic");
    assert_eq!(raw1[72..76], raw2[72..76], "header CRC must agree");
}

#[test]
fn test_vector_2_compressed_smaller() {
    let uncompressed = build_test_vector_1();
    let compressed = build_test_vector_2();
    assert!(
        compressed.len() < uncompressed.len(),
        "LZ4 must yield the smaller stream ({} < {})",
        compressed.len(),
        uncompressed.len()
    );
}

#[test]
fn test_vector_2_parse_and_decompress() {
    let raw = build_test_vector_2();
    let mut reader = open_complete(&raw);
    assert_eq!(reader.header().compression, Compression::Lz4);

    let blocks = read_all_blocks(&mut reader).unwrap();
    assert_eq!(blocks.len(), 2);
    // the reader hands blocks back decompressed
    assert!(!blocks[0].is_compressed);
    for block in &blocks {
        assert_eq!(block.data, vec![42u8; 4_000], "payload after decompression");
        block.validate_sample_count(IqFormat::Int16).unwrap();
    }
    reader.validate_totals().unwrap();
}

#[test]
fn test_vector_3_partial_recovery() {
    let raw = build_test_vector_3();
    let mut reader = open_complete(&raw);

    let ok_blocks = collect_blocks(&mut reader);

    assert_eq!(ok_blocks.len(), 2, "blocks 1 and 3 must be recovered");
    assert!(reader.stats().blocks_corrupted > 0, "block 2 counts as corrupted");
    assert_eq!(reader.stats().samples_recovered, 200); // 100 + 100
}

// Corrupting only the last checksum byte of the middle block loses exactly
// that block: its neighbors come back whole and the corruption counter
// moves by exactly one.
#[test]
fn test_single_corrupt_block_counts_once() {
    let mut raw = Vec::<u8>::new();
    raw.extend_from_slice(&deterministic_header().serialize().unwrap());

    let b1 = deterministic_block(1_000_000_000, 8).serialize().unwrap();
    let mut b2 = deterministic_block(2_000_000_000, 8).serialize().unwrap();
    let b3 = deterministic_block(3_000_000_000, 8).serialize().unwrap();
    let last = b2.len() - 1;
    b2[last] ^= 0x01;

    raw.extend_from_slice(&b1);
    raw.extend_from_slice(&b2);
    raw.extend_from_slice(&b3);

    let mut reader = open_complete(&raw);
    let blocks = collect_blocks(&mut reader);

    assert_eq!(blocks.len(), 2);
    assert_eq!(blocks[0].timestamp_ns, 1_000_000_000);
    assert_eq!(blocks[1].timestamp_ns, 3_000_000_000);
    assert_eq!(blocks[0].data, deterministic_block(0, 8).data);
    assert_eq!(blocks[1].data, deterministic_block(0, 8).data);
    assert_eq!(reader.stats().blocks_corrupted, 1);
}

// A reader fed piecewise behaves like one fed everything at once: it asks
// for more data at a block boundary and resumes when the rest arrives.
#[test]
fn test_streaming_feed() {
    let mut raw = Vec::<u8>::new();
    raw.extend_from_slice(&make_header().serialize().unwrap());
    raw.extend_from_slice(&make_block(5, 100).serialize().unwrap());
    raw.extend_from_slice(&make_block(6, 100).serialize().unwrap());

    let split = 128 + 50; // mid-first-block
    let mut reader = GlosReader::new(&raw[..split]).unwrap();
    assert!(matches!(reader.next_block(), ReadOutcome::NeedData));
    reader.feed(&raw[split..]);
    let b1 = match reader.next_block() {
        ReadOutcome::Block(b) => b,
        _ => panic!("first block must decode once its bytes are all there"),
    };
    assert_eq!(b1.timestamp_ns, 5);
    reader.finish_input();
    let b2 = match reader.next_block() {
        ReadOutcome::Block(b) => b,
        _ => panic!("second block must decode"),
    };
    assert_eq!(b2.timestamp_ns, 6);
    assert!(matches!(reader.next_block(), ReadOutcome::Done));
}

// A truncated tail after the last whole block is discarded silently.
#[test]
fn test_truncated_tail_discarded() {
    let mut raw = Vec::<u8>::new();
    raw.extend_from_slice(&make_header().serialize().unwrap());
    raw.extend_from_slice(&make_block(1, 50).serialize().unwrap());
    raw.extend_from_slice(&[0x00, 0x00, 0x0F]); // three stray bytes

    let mut reader = open_complete(&raw);
    let blocks = collect_blocks(&mut reader);
    assert_eq!(blocks.len(), 1);
    assert_eq!(reader.stats().blocks_ok, 1);
}

// A declared total that disagrees with what was recovered is reported as a
// violation; a zero total (open recording) is accepted.
#[test]
fn test_validate_totals_mismatch() {
    let mut writer = GlosWriter::new(make_header());
    writer.write_block(make_block(0, 100)).unwrap();
    let raw = writer.finish(1_704_067_201);

    let mut reader = open_complete(&raw);
    let _ = collect_blocks(&mut reader);
    reader.validate_totals().unwrap();

    // an unfinished stream declares zero and passes trivially
    let mut raw2 = Vec::<u8>::new();
    raw2.extend_from_slice(&make_header().serialize().unwrap());
    raw2.extend_from_slice(&make_block(0, 100).serialize().unwrap());
    let mut reader2 = open_complete(&raw2);
    let _ = collect_blocks(&mut reader2);
    reader2.validate_totals().unwrap();

    // a wrong nonzero total is a violation
    let mut h3 = make_header();
    h3.total_samples = 500;
    let mut raw3 = Vec::<u8>::new();
    raw3.extend_from_slice(&h3.serialize().unwrap());
    raw3.extend_from_slice(&make_block(0, 100).serialize().unwrap());
    let mut reader3 = open_complete(&raw3);
    let _ = collect_blocks(&mut reader3);
    assert!(reader3.validate_totals().is_err());
}

// End to end: a HackRF-tagged header at 2 MHz around 1602 MHz with 40 dB
// of gain and two 1000-sample Int16 blocks, finalized, reopens with
// total_samples 2000 and both blocks recoverable.
#[test]
fn test_end_to_end_two_blocks() {
    let mut header = make_header();
    header.gain_db_bits = 40.0f32.to_bits();
    let mut writer = GlosWriter::new(header);
    writer
        .write_block(make_block(1_704_067_200_000_000_000, 1000))
        .unwrap();
    writer
        .write_block(make_block(1_704_067_200_500_000_000, 1000))
        .unwrap();
    let raw = writer.finish(1_704_067_201);

    let mut reader = open_complete(&raw);
    assert_eq!(reader.header().total_samples, 2000);
    assert_eq!(reader.header().sdr_type, SdrType::HackRf);
    assert_eq!(reader.header().sample_rate, 2_000_000);
    assert_eq!(reader.header().center_freq, 1_602_000_000);
    assert_eq!(f32::from_bits(reader.header().gain_db_bits), 40.0);
    let blocks = collect_blocks(&mut reader);
    assert_eq!(blocks.len(), 2);
    assert_eq!(blocks[0].sample_count, 1000);
    assert_eq!(blocks[1].sample_count, 1000);
    reader.validate_totals().unwrap();
}

// The writer compresses on behalf of an LZ4 stream, and the reader undoes
// it transparently.
#[test]
fn test_writer_lz4_auto_compress() {
    let mut header = make_header();
    header.compression = Compression::Lz4;
    let mut writer = GlosWriter::new(header);
    let data = vec![7u8; 2000];
    writer.write_block(IqBlock::new(9, 500, data.clone())).unwrap();
    let raw = writer.finish(1_704_067_201);

    let mut reader = open_complete(&raw);
    let blocks = collect_blocks(&mut reader);
    assert_eq!(blocks.len(), 1);
    assert!(!blocks[0].is_compressed);
    assert_eq!(blocks[0].data, data);
    assert_eq!(reader.stats().blocks_corrupted, 0);
}
