//! Header and block codec tests: round trips, byte layout, checksum
//! validation, compression, and the size invariant.

use glos::block::IqBlock;
use glos::checksum::crc32_checksum;
use glos::error::GlosError;
use glos::header::GlosHeader;
use glos::types::{Compression, IqFormat, SdrType};
use glos::{GLOS_HEADER_SIZE, GLOS_VERSION};

fn make_header() -> GlosHeader {
    GlosHeader::new(SdrType::HackRf, 2_000_000, 1_602_000_000, 1_704_067_200)
}

#[test]
fn test_lybrary_exports() {
    assert_eq!(GLOS_VERSION, 1);
    assert_eq!(GLOS_HEADER_SIZE, 128);
}

#[test]
fn test_header_round_trip() {
    let mut header = make_header();
    header.gain_db_bits = 40.0f32.to_bits();
    header.total_samples = 1_000_000;

    let serialized = header.serialize().unwrap();
    assert_eq!(serialized.len(), GLOS_HEADER_SIZE);

    let deserialized = GlosHeader::deserialize(&serialized).unwrap();
    assert_eq!(deserialized.sdr_type, SdrType::HackRf);
    assert_eq!(deserialized.sample_rate, 2_000_000);
    assert_eq!(deserialized.center_freq, 1_602_000_000);
    assert_eq!(f32::from_bits(deserialized.gain_db_bits), 40.0);
    assert_eq!(deserialized.total_samples, 1_000_000);
}

#[test]
fn test_header_little_endian() {
    let mut header = GlosHeader::new(SdrType::PlutoSdr, 10_000_000, 1_575_000_000, 1_704_067_200);
    header.flags = 0x01;
    header.gain_db_bits = 35.5f32.to_bits();

    let serialized = header.serialize().unwrap();
    let deserialized = GlosHeader::deserialize(&serialized).unwrap();

    assert!(deserialized.is_little_endian());
    assert_eq!(deserialized.sample_rate, 10_000_000);
    assert_eq!(deserialized.center_freq, 1_575_000_000);
    assert_eq!(f32::from_bits(deserialized.gain_db_bits), 35.5);
}

#[test]
fn test_header_corrupted_crc() {
    let header = GlosHeader::new(SdrType::PlutoSdr, 10_000_000, 1_575_000_000, 1_704_067_200);
    let mut serialized = header.serialize().unwrap();

    serialized[72] ^= 0xFF;

    let result = GlosHeader::deserialize(&serialized);
    assert!(result.is_err());
    assert!(result.unwrap_err().message().contains("CRC"));
}

#[test]
fn test_header_byte_layout() {
    let mut header = make_header();
    header.gain_db_bits = 40.0f32.to_bits();
    header.iq_format = IqFormat::Int16;
    header.compression = Compression::Uncompressed;
    header.timestamp_end = 0;
    header.total_samples = 0;

    let bytes = header.serialize().unwrap();

    assert_eq!(&bytes[0..4], b"GLOS", "magic");
    assert_eq!(bytes[4], 1, "version");
    assert_eq!(bytes[5], 0, "flags = big-endian");
    assert_eq!(bytes[12], 0, "sdr_type = HackRf");
    assert_eq!(bytes[13], 1, "iq_format = Int16");
    assert_eq!(bytes[14], 0, "compression = none");
    // sample_rate = 2_000_000 = 0x001E8480
    assert_eq!(&bytes[16..20], &[0x00, 0x1E, 0x84, 0x80], "sample_rate BE");
    let reparsed = GlosHeader::deserialize(&bytes).unwrap();
    assert_eq!(f32::from_bits(reparsed.gain_db_bits), 40.0);
    assert_eq!(reparsed.timestamp_start, 1_704_067_200);
}

#[test]
fn test_header_all_fields() {
    let mut header = GlosHeader::new(SdrType::UsrpB200, 50_000_000, 2_000_000_000, 1_704_067_200);
    header.gain_db_bits = 70.5f32.to_bits();
    header.timestamp_end = 1_234_567_890;
    header.total_samples = 5_000_000_000;
    header.iq_format = IqFormat::Float32;
    header.compression = Compression::Lz4;

    let serialized = header.serialize().unwrap();
    let deserialized = GlosHeader::deserialize(&serialized).unwrap();

    assert_eq!(deserialized.version, GLOS_VERSION);
    assert_eq!(deserialized.sdr_type, SdrType::UsrpB200);
    assert_eq!(deserialized.sample_rate, 50_000_000);
    assert_eq!(deserialized.center_freq, 2_000_000_000);
    assert_eq!(f32::from_bits(deserialized.gain_db_bits), 70.5);
    assert_eq!(deserialized.timestamp_end, 1_234_567_890);
    assert_eq!(deserialized.total_samples, 5_000_000_000);
    assert_eq!(deserialized.iq_format, IqFormat::Float32);
    assert_eq!(deserialized.compression, Compression::Lz4);
}

#[test]
fn test_little_endian_header() {
    let mut header = GlosHeader::new(SdrType::PlutoSdr, 10_000_000, 1_575_000_000, 1_704_067_200);
    header.flags = 0x01;
    header.gain_db_bits = 35.5f32.to_bits();
    header.total_samples = 1_000_000;

    let s = header.serialize().unwrap();
    let d = GlosHeader::deserialize(&s).unwrap();

    assert!(d.is_little_endian());
    assert_eq!(d.sample_rate, 10_000_000);
    assert_eq!(d.center_freq, 1_575_000_000);
    assert_eq!(f32::from_bits(d.gain_db_bits), 35.5);
    assert_eq!(d.total_samples, 1_000_000);
}

#[test]
fn test_crc_validation_header() {
    let header = make_header();
    let mut serialized = header.serialize().unwrap();
    serialized[72] ^= 0x01;

    let result = GlosHeader::deserialize(&serialized);
    assert!(result.is_err());
    assert!(result.unwrap_err().message().contains("CRC"));
}

#[test]
fn test_version_mismatch() {
    let header = make_header();
    let mut serialized = header.serialize().unwrap();
    serialized[4] = 99;

    let result = GlosHeader::deserialize(&serialized);
    assert!(result.is_err());
    assert!(result.unwrap_err().message().contains("Unsupported version"));
}

// Flipping any single byte of the checksum-covered region [0, 72) makes the
// header unreadable; everywhere past the structural fields the failure is
// specifically the checksum mismatch.
#[test]
fn test_header_any_covered_byte_flip_fails() {
    let header = make_header();
    let serialized = header.serialize().unwrap();

    for i in 0..72 {
        let mut corrupted = serialized;
        corrupted[i] ^= 0xFF;
        let result = GlosHeader::deserialize(&corrupted);
        assert!(result.is_err(), "flip at byte {i} must be rejected");
        if i >= 15 || i == 5 || (6..12).contains(&i) {
            // past (or beside) magic, version and the enum bytes, the CRC
            // check is what trips
            assert!(
                matches!(result.unwrap_err(), GlosError::CrcMismatch { .. }),
                "flip at byte {i} must fail the checksum",
            );
        }
    }
}

// A header whose sample-format byte names no format is rejected as a format
// violation even when its checksum is consistent.
#[test]
fn test_header_unknown_format_rejected() {
    let header = make_header();
    let mut bytes = header.serialize().unwrap();
    bytes[13] = 7;
    let crc = crc32_checksum(&bytes[0..72]);
    bytes[72..76].copy_from_slice(&crc.to_be_bytes());

    let result = GlosHeader::deserialize(&bytes);
    assert!(matches!(result.unwrap_err(), GlosError::FormatViolation(_)));
}

#[test]
fn test_iq_block_round_trip_int8() {
    let data = vec![1u8, 2, 3, 4, 5, 6, 7, 8]; // 4 Int8 IQ pairs
    let block = IqBlock::new(123_456_789, 4, data.clone());

    let serialized = block.serialize().unwrap();
    let (deserialized, bytes_read) =
        IqBlock::deserialize(&serialized, Compression::Uncompressed).unwrap();

    assert_eq!(deserialized.timestamp_ns, 123_456_789);
    assert_eq!(deserialized.sample_count, 4);
    assert_eq!(deserialized.data, data);
    assert!(!deserialized.is_compressed);
    assert_eq!(bytes_read, serialized.len());

    deserialized.validate_sample_count(IqFormat::Int8).unwrap();
}

#[test]
fn test_iq_block_round_trip_int16() {
    // 5 Int16 IQ pairs = 20 bytes
    let data = vec![0u8; 20];
    let block = IqBlock::new(0, 5, data);

    let serialized = block.serialize().unwrap();
    let (deserialized, _) = IqBlock::deserialize(&serialized, Compression::Uncompressed).unwrap();

    assert_eq!(deserialized.sample_count, 5);
    deserialized.validate_sample_count(IqFormat::Int16).unwrap();
}

#[test]
fn test_iq_block_corrupted_crc() {
    let data = vec![1u8, 2, 3, 4];
    let block = IqBlock::new(1_234_567_890, 2, data);
    let mut serialized = block.serialize().unwrap();
    serialized[20] ^= 0xFF;

    let result = IqBlock::deserialize(&serialized, Compression::Uncompressed);
    assert!(result.is_err());
}

#[test]
fn test_iq_block_is_compressed_from_header() {
    let data = vec![42u8; 100];
    let block = IqBlock::new(0, 50, data);
    let serialized = block.serialize().unwrap();

    let (parsed_none, _) = IqBlock::deserialize(&serialized, Compression::Uncompressed).unwrap();
    assert!(!parsed_none.is_compressed, "must be false without compression");

    let (parsed_lz4, _) = IqBlock::deserialize(&serialized, Compression::Lz4).unwrap();
    assert!(parsed_lz4.is_compressed, "must be true for LZ4 streams");
}

#[test]
fn test_validate_sample_count() {
    // good: Int16 × 10 = 40 bytes
    let ok = IqBlock::new(0, 10, vec![0u8; 40]);
    ok.validate_sample_count(IqFormat::Int16).unwrap();

    // bad: 10 samples × 4 ≠ 30 bytes
    let bad = IqBlock::new(0, 10, vec![0u8; 30]);
    assert!(bad.validate_sample_count(IqFormat::Int16).is_err());

    // a compressed block is exempt
    let mut compressed = IqBlock::new(0, 10, vec![0u8; 5]);
    compressed.is_compressed = true;
    compressed.validate_sample_count(IqFormat::Int16).unwrap();
}

#[test]
fn test_compression_lz4_round_trip() {
    let data = vec![42u8; 10_000]; // repetitive, compresses well
    let mut block = IqBlock::new(123_456_789, 2_500, data.clone());

    let original_size = block.data.len();
    block.compress().unwrap();
    assert!(block.data.len() < original_size, "LZ4 must shrink this payload");
    assert!(block.is_compressed);

    block.decompress().unwrap();
    assert_eq!(block.data, data);
    assert!(!block.is_compressed);
}

#[test]
fn test_compression_idempotent() {
    let data = vec![0u8; 1000];
    let mut block = IqBlock::new(0, 500, data.clone());

    block.compress().unwrap();
    let size1 = block.data.len();
    block.compress().unwrap(); // no-op
    assert_eq!(block.data.len(), size1);

    block.decompress().unwrap();
    block.decompress().unwrap(); // no-op
    assert_eq!(block.data, data);
}

#[test]
fn test_double_compress_decompress_idempotent() {
    let data = vec![42u8; 1000];
    let mut block = IqBlock::new(0, 500, data.clone());

    block.compress().unwrap();
    let size1 = block.data.len();
    block.compress().unwrap(); // no-op
    assert_eq!(block.data.len(), size1);

    block.decompress().unwrap();
    block.decompress().unwrap(); // no-op
    assert_eq!(block.data, data);
}

#[test]
fn test_lz4_compression_basic() {
    let data = vec![42u8; 10_000];
    let mut block = IqBlock::new(0, 2_500, data.clone());

    let original_size = block.data.len();
    block.compress().unwrap();
    assert!(block.is_compressed);
    assert!(block.data.len() < original_size);

    block.decompress().unwrap();
    assert!(!block.is_compressed);
    assert_eq!(block.data, data);
}

#[test]
fn test_lz4_compression_random_data() {
    // hard-to-compress data must still round-trip exactly
    let data: Vec<u8> = (0..10_000u32)
        .map(|i| {
            let mut h = std::collections::hash_map::DefaultHasher::new();
            std::hash::Hash::hash(&i, &mut h);
            std::hash::Hasher::finish(&h) as u8
        })
        .collect();
    let mut block = IqBlock::new(0, 2_500, data.clone());
    block.compress().unwrap();
    block.decompress().unwrap();
    assert_eq!(block.data, data);
}

#[test]
fn test_compressed_block_serialization() {
    // Int8: 4 samples × 2 = 8 bytes
    let data = vec![1u8, 2, 3, 4, 5, 6, 7, 8];
    let mut block = IqBlock::new(999, 4, data.clone());
    block.compress().unwrap();

    let s = block.serialize().unwrap();
    let (d, _) = IqBlock::deserialize(&s, Compression::Lz4).unwrap();
    assert!(d.is_compressed);

    let uncompressed = d.get_uncompressed_data().unwrap();
    assert_eq!(uncompressed, data);
}

#[test]
fn test_iq_block_with_compression_serialize() {
    let data = vec![1u8, 2, 3, 4, 5, 6, 7, 8];
    let mut block = IqBlock::new(999, 4, data.clone());
    block.compress().unwrap();

    let serialized = block.serialize().unwrap();
    let (deserialized, _) = IqBlock::deserialize(&serialized, Compression::Lz4).unwrap();
    assert!(deserialized.is_compressed);

    let uncompressed = deserialized.get_uncompressed_data().unwrap();
    assert_eq!(uncompressed, data);
}

#[test]
fn test_iq_format_sizes() {
    assert_eq!(IqFormat::Int8.sample_size(), 2);
    assert_eq!(IqFormat::Int16.sample_size(), 4);
    assert_eq!(IqFormat::Float32.sample_size(), 8);
}

#[test]
fn test_crc_validation_block() {
    let block = IqBlock::new(123_456, 2, vec![1, 2, 3, 4, 5, 6, 7, 8]);
    let mut serialized = block.serialize().unwrap();
    serialized[20] ^= 0xFF;

    let result = IqBlock::deserialize(&serialized, Compression::Uncompressed);
    assert!(result.is_err());
}

#[test]
fn test_block_boundary_conditions() {
    // empty block (0 samples)
    let block = IqBlock::new(0, 0, vec![]);
    let s = block.serialize().unwrap();
    let (d, _) = IqBlock::deserialize(&s, Compression::Uncompressed).unwrap();
    assert_eq!(d.sample_count, 0);
    d.validate_sample_count(IqFormat::Int16).unwrap(); // 0 × 4 = 0

    // one Int16 sample
    let block = IqBlock::new(1, 1, vec![1, 2, 3, 4]);
    let s = block.serialize().unwrap();
    let (d, _) = IqBlock::deserialize(&s, Compression::Uncompressed).unwrap();
    assert_eq!(d.sample_count, 1);
    assert_eq!(d.data, vec![1, 2, 3, 4]);
    d.validate_sample_count(IqFormat::Int16).unwrap(); // 1 × 4 = 4

    // a large block, up to the 1 MB limit
    let large_samples = (1024 * 1024 - 20) / 4;
    let large_data = vec![42u8; large_samples * 4];
    let block = IqBlock::new(999, large_samples as u32, large_data);
    let s = block.serialize().unwrap();
    assert!(s.len() <= 1024 * 1024 + 8);
    let (d, _) = IqBlock::deserialize(&s, Compression::Uncompressed).unwrap();
    d.validate_sample_count(IqFormat::Int16).unwrap();
}

#[test]
fn test_timestamp_precision() {
    let now_ns = 1_234_567_890_123_456_789u64;
    let block = IqBlock::new(now_ns, 1, vec![1, 2, 3, 4]); // Int16: 1 × 4 = 4
    let s = block.serialize().unwrap();
    let (d, _) = IqBlock::deserialize(&s, Compression::Uncompressed).unwrap();
    assert_eq!(d.timestamp_ns, now_ns);
}

#[test]
fn test_pre_processed_via_float32() {
    // pre-processed I/Q is stored as normalized float32 samples
    let mut header = make_header();
    header.iq_format = IqFormat::Float32;

    // 5 samples × 8 bytes = 40 bytes
    let data: Vec<u8> = (0..5u32)
        .flat_map(|i| {
            let i_val = (i as f32 / 5.0).to_be_bytes();
            let q_val = -(i as f32 / 5.0);
            let q_val = q_val.to_be_bytes();
            [i_val, q_val].concat()
        })
        .collect();

    let block = IqBlock::new(0, 5, data.clone());
    let s = block.serialize().unwrap();
    let (d, _) = IqBlock::deserialize(&s, Compression::Uncompressed).unwrap();

    d.validate_sample_count(IqFormat::Float32).unwrap(); // 5 × 8 = 40
    assert_eq!(d.data, data);
}

// The standard CRC-32 check value: the checksum of the digits one through
// nine.
#[test]
fn test_crc32_known_vector() {
    assert_eq!(crc32_checksum(b"123456789"), 0xCBF4_3926);
}

// A block whose framed form would outgrow the maximum block size is
// rejected with the size error carrying the framed size, not written.
#[test]
fn test_block_too_large_rejected() {
    let block = IqBlock::new(0, 300_000, vec![0u8; 1024 * 1024]);
    match block.serialize().unwrap_err() {
        GlosError::InvalidBlockSize(sz) => assert_eq!(sz, 1024 * 1024 + 20),
        other => panic!("expected the block-size rejection, got {other:?}"),
    }
}

// A compressed payload that is no valid LZ4 encoding is corruption.
#[test]
fn test_invalid_lz4_payload_is_corruption() {
    // a prepended length of 16 followed by a literal run that promises far
    // more bytes than the input holds
    let bogus = vec![16u8, 0, 0, 0, 0xF0, 0xFF, 0xFF];
    let mut block = IqBlock::new(0, 4, bogus.clone());
    block.is_compressed = true;
    let result = block.get_uncompressed_data();
    assert!(matches!(result.unwrap_err(), GlosError::Corrupted(_)));

    let mut same = IqBlock::new(0, 4, bogus.clone());
    same.is_compressed = true;
    assert!(same.decompress().is_err());
    // the failed decompression leaves the block untouched
    assert!(same.is_compressed);
    assert_eq!(same.data, bogus);
}

// The enum wire bytes map back and forth as the format fixes them.
#[test]
fn test_enum_wire_bytes() {
    assert_eq!(SdrType::from_u8(0), SdrType::HackRf);
    assert_eq!(SdrType::from_u8(1), SdrType::PlutoSdr);
    assert_eq!(SdrType::from_u8(2), SdrType::UsrpB200);
    assert_eq!(SdrType::from_u8(77), SdrType::Unknown);
    assert_eq!(SdrType::Unknown.as_u8(), 255);
    assert_eq!(IqFormat::from_u8(1).unwrap(), IqFormat::Int16);
    assert!(IqFormat::from_u8(3).is_err());
    assert_eq!(Compression::from_u8(1).unwrap(), Compression::Lz4);
    assert!(Compression::from_u8(2).is_err());
}
