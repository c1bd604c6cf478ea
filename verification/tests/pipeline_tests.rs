//! Capture-pipeline, replay-timing, wire-codec and option-parsing tests.

use glos::capture::{
    finish_capture, handle_chunk, should_stop, BlockAccumulator, ChunkQueue, IqChunk,
    RecorderMetrics,
};
use glos::config::{
    parse_compression, parse_device_kind, parse_freq_hz, parse_iq_format, DeviceKind,
    RecorderConfig,
};
use glos::header::GlosHeader;
use glos::reader::{read_all_blocks, GlosReader};
use glos::replay::{ReplayMetrics, TimingController, WaitPlan};
use glos::types::{Compression, IqFormat, SdrType};
use glos::wire::{UdpPacket, UDP_HEADER_SIZE, UDP_MAX_PAYLOAD};
use glos::writer::GlosWriter;

fn make_chunk(ts: u64, count: u32) -> IqChunk {
    IqChunk {
        timestamp_ns: ts,
        sample_count: count,
        data: vec![0u8; count as usize * 4],
    }
}

// ==========================================================================
// Wire codec
// ==========================================================================

#[test]
fn test_udp_packet_encode_decode_roundtrip() {
    let block = glos::block::IqBlock::new(1_704_067_200_000_000_000, 100, vec![42u8; 400]);
    let encoded = UdpPacket::encode(&block).unwrap();

    assert_eq!(encoded.len(), UDP_HEADER_SIZE + 400);

    let (ts, count, data) = UdpPacket::decode(&encoded).unwrap();

    assert_eq!(ts, 1_704_067_200_000_000_000);
    assert_eq!(count, 100);
    assert_eq!(data, vec![42u8; 400]);
}

#[test]
fn test_udp_packet_header_big_endian() {
    let block = glos::block::IqBlock::new(0x0102030405060708, 0x0A0B, vec![0u8; 4]);
    let encoded = UdpPacket::encode(&block).unwrap();

    // timestamp BE
    assert_eq!(&encoded[0..8], &[0x01, 0x02, 0x03, 0x04, 0x05, 0x06, 0x07, 0x08]);

    // sample_count BE (0x0A0B)
    assert_eq!(&encoded[8..10], &[0x0A, 0x0B]);
}

#[test]
fn test_udp_packet_too_large() {
    let block = glos::block::IqBlock::new(0, 1, vec![0u8; UDP_MAX_PAYLOAD]);
    assert!(UdpPacket::encode(&block).is_err());
}

#[test]
fn test_udp_decode_too_short() {
    assert!(UdpPacket::decode(&[0u8; 5]).is_err());
}

// A sample count beyond the 16-bit wire field is refused even when the
// payload fits.
#[test]
fn test_udp_sample_count_overflow() {
    let block = glos::block::IqBlock::new(0, 70_000, vec![0u8; 8]);
    assert!(UdpPacket::encode(&block).is_err());
}

// ==========================================================================
// Timing controller
// ==========================================================================

#[test]
fn test_timing_controller_speed_1x() {
    let mut ctrl = TimingController::new(1000); // speed 1.0

    // the first block binds the origin
    let first = ctrl.plan_wait(1_000_000_000, 0);
    assert_eq!(first, WaitPlan::Behind { lag_ns: 0, underrun: false });

    // the second block sits 50 ms of file time later: the plan is to sleep
    // ~50 ms (exactly, before wall-clock noise)
    let second = ctrl.plan_wait(1_000_000_000 + 50_000_000, 0);
    match second {
        WaitPlan::Sleep { sleep_ns, target_ns } => {
            assert!(sleep_ns >= 30_000_000, "expected a ~50 ms pause, got {sleep_ns} ns");
            assert!(sleep_ns <= 150_000_000, "pause too long: {sleep_ns} ns");
            assert_eq!(sleep_ns, 50_000_000);
            assert_eq!(target_ns, 50_000_000);
        }
        other => panic!("expected a sleep, got {other:?}"),
    }
}

#[test]
fn test_timing_controller_speed_2x() {
    let mut ctrl = TimingController::new(2000); // speed 2.0

    ctrl.plan_wait(0, 0);

    // 100 ms of file time at 2x is ~50 ms of real time
    let plan = ctrl.plan_wait(100_000_000, 0);
    match plan {
        WaitPlan::Sleep { sleep_ns, .. } => {
            assert!(sleep_ns <= 100_000_000, "at 2x the pause should be ≤100 ms, got {sleep_ns} ns");
            assert_eq!(sleep_ns, 50_000_000);
        }
        other => panic!("expected a sleep, got {other:?}"),
    }
}

// Behind schedule: no sleep, the lag is recorded, and more than a
// millisecond of it counts as an underrun.
#[test]
fn test_timing_controller_underrun() {
    let mut ctrl = TimingController::new(1000);
    ctrl.plan_wait(0, 0);

    let slight = ctrl.plan_wait(10_000_000, 10_500_000);
    assert_eq!(slight, WaitPlan::Behind { lag_ns: 500_000, underrun: false });

    let mut ctrl2 = TimingController::new(1000);
    ctrl2.plan_wait(0, 0);
    let late = ctrl2.plan_wait(10_000_000, 12_000_001);
    assert_eq!(late, WaitPlan::Behind { lag_ns: 2_000_001, underrun: true });
}

// Reset forgets the origin, so the next timestamp binds a fresh one.
#[test]
fn test_timing_controller_reset() {
    let mut ctrl = TimingController::new(1000);
    ctrl.plan_wait(5_000_000_000, 0);
    ctrl.reset();
    let plan = ctrl.plan_wait(9_000_000_000, 0);
    assert_eq!(plan, WaitPlan::Behind { lag_ns: 0, underrun: false });
}

#[test]
fn test_replay_metrics_counters() {
    let mut m = ReplayMetrics::new();
    assert_eq!(m.packets_sent, 0);
    assert_eq!(m.underruns, 0);
    m.record_packet(100, 410);
    m.record_packet(50, 210);
    m.record_send_error();
    m.record_timing(500, false);
    m.record_timing(2_000_000, true);
    assert_eq!(m.packets_sent, 2);
    assert_eq!(m.samples_sent, 150);
    assert_eq!(m.bytes_sent, 620);
    assert_eq!(m.send_errors, 1);
    assert_eq!(m.underruns, 1);
    assert_eq!(m.timing_error_ns_total, 2_000_500);
}

// ==========================================================================
// Capture buffer and accumulator
// ==========================================================================

// Backpressure: capacity 1 and nobody draining — everything beyond the
// first chunk is dropped, counted in samples.
#[test]
fn test_chunk_queue_backpressure() {
    let mut q = ChunkQueue::new(1);
    let mut m = RecorderMetrics::new();

    assert!(q.try_push(make_chunk(0, 100), &mut m));
    assert!(!q.try_push(make_chunk(1, 100), &mut m));
    assert!(!q.try_push(make_chunk(2, 100), &mut m));

    assert_eq!(q.len(), 1);
    assert_eq!(m.dropped_samples, 200, "two chunks beyond capacity, 100 samples each");
}

#[test]
fn test_chunk_queue_pop_in_order() {
    let mut q = ChunkQueue::new(4);
    let mut m = RecorderMetrics::new();
    q.try_push(make_chunk(10, 1), &mut m);
    q.try_push(make_chunk(20, 2), &mut m);

    assert_eq!(q.pop().unwrap().timestamp_ns, 10);
    assert_eq!(q.pop().unwrap().timestamp_ns, 20);
    assert!(q.pop().is_none());
    assert_eq!(m.dropped_samples, 0);
}

#[test]
fn test_initial_metrics_zero() {
    let metrics = RecorderMetrics::new();
    assert_eq!(metrics.samples_recorded, 0);
    assert_eq!(metrics.blocks_written, 0);
    assert_eq!(metrics.dropped_samples, 0);
    assert_eq!(metrics.write_errors, 0);
    assert_eq!(metrics.bytes_written, 0);
}

// One chunk can complete several blocks; the block timestamp is the first
// chunk's since the last cut, and only the first block of a burst carries
// it.
#[test]
fn test_accumulator_slices_blocks() {
    let mut acc = BlockAccumulator::new(100, IqFormat::Int16);
    acc.push_chunk(&make_chunk(777, 250));

    let b1 = acc.take_full_block().unwrap();
    assert_eq!(b1.timestamp_ns, 777);
    assert_eq!(b1.sample_count, 100);
    assert_eq!(b1.data.len(), 400);

    let b2 = acc.take_full_block().unwrap();
    assert_eq!(b2.timestamp_ns, 0, "later blocks of the burst carry no stamp");

    assert!(acc.take_full_block().is_none(), "50 samples remain, below a block");

    let partial = acc.flush_partial().unwrap();
    assert_eq!(partial.sample_count, 50);
    assert!(acc.flush_partial().is_none());
}

// The consumer step writes full blocks and the shutdown path flushes the
// partial remainder before finalizing the header.
#[test]
fn test_capture_partial_block_flushed() {
    let header = GlosHeader::new(SdrType::Unknown, 2_000_000, 1_602_000_000, 1_704_067_200);
    let writer = GlosWriter::new(header);
    let mut acc = BlockAccumulator::new(100, IqFormat::Int16);
    let mut metrics = RecorderMetrics::new();

    let mut writer = writer;
    handle_chunk(&mut writer, &mut acc, &mut metrics, make_chunk(5, 250));
    assert_eq!(metrics.samples_recorded, 250);
    assert_eq!(metrics.blocks_written, 2);
    assert_eq!(writer.total_samples(), 200);

    let raw = finish_capture(writer, &mut acc, &mut metrics, 1_704_067_300);
    assert_eq!(metrics.blocks_written, 3, "the 50-sample remainder went out as a block");

    let mut reader = GlosReader::new(&raw).unwrap();
    reader.finish_input();
    let blocks = read_all_blocks(&mut reader).unwrap();
    assert_eq!(blocks.len(), 3);
    assert_eq!(blocks[0].sample_count, 100);
    assert_eq!(blocks[1].sample_count, 100);
    assert_eq!(blocks[2].sample_count, 50);
    assert_eq!(reader.header().total_samples, 250);
    reader.validate_totals().unwrap();
}

#[test]
fn test_should_stop() {
    assert!(should_stop(true, 0, None));
    assert!(!should_stop(false, 100, None));
    assert!(should_stop(false, 10, Some(10)));
    assert!(!should_stop(false, 9, Some(10)));
}

// ==========================================================================
// Option parsing
// ==========================================================================

#[test]
fn test_parse_freq_hz() {
    assert_eq!(parse_freq_hz("1602MHz").unwrap(), 1_602_000_000);
    assert_eq!(parse_freq_hz("1.602GHz").unwrap(), 1_602_000_000);
    assert_eq!(parse_freq_hz("2000kHz").unwrap(), 2_000_000);
    assert_eq!(parse_freq_hz("2000000Hz").unwrap(), 2_000_000);
    assert_eq!(parse_freq_hz("2000000").unwrap(), 2_000_000);
    assert!(parse_freq_hz("abc").is_err());
}

// More of the frequency grammar: case, whitespace, rounding, and the
// rejects.
#[test]
fn test_parse_freq_hz_edges() {
    assert_eq!(parse_freq_hz(" 1.5 kHz ").unwrap(), 1_500);
    assert_eq!(parse_freq_hz("0.5Hz").unwrap(), 1, "rounds half up");
    assert_eq!(parse_freq_hz(".25khz").unwrap(), 250);
    assert_eq!(parse_freq_hz("10.GHZ").unwrap(), 10_000_000_000);
    assert!(parse_freq_hz("").is_err());
    assert!(parse_freq_hz("Hz").is_err());
    assert!(parse_freq_hz("1.2").is_err(), "a bare number must be an integer");
    assert!(parse_freq_hz("1e3MHz").is_err(), "no exponent notation");
}

#[test]
fn test_device_kind_fromstr() {
    assert_eq!("sim".parse::<DeviceKind>().unwrap(), DeviceKind::Simulated);
    assert_eq!("hackrf".parse::<DeviceKind>().unwrap(), DeviceKind::HackRf);
    assert_eq!("pluto".parse::<DeviceKind>().unwrap(), DeviceKind::PlutoSdr);
    assert!("unknown".parse::<DeviceKind>().is_err());
}

#[test]
fn test_parse_device_kind_aliases() {
    assert_eq!(parse_device_kind("SIMULATED").unwrap(), DeviceKind::Simulated);
    assert_eq!(parse_device_kind("hackrf_one").unwrap(), DeviceKind::HackRf);
    assert_eq!(parse_device_kind("ADALM-Pluto").unwrap(), DeviceKind::PlutoSdr);
    assert_eq!(parse_device_kind("plutosdr").unwrap(), DeviceKind::PlutoSdr);
    assert_eq!(DeviceKind::HackRf.as_str(), "hackrf");
}

#[test]
fn test_parse_iq_format_and_compression() {
    assert_eq!(parse_iq_format("int8").unwrap(), IqFormat::Int8);
    assert_eq!(parse_iq_format("I16").unwrap(), IqFormat::Int16);
    assert_eq!(parse_iq_format("float32").unwrap(), IqFormat::Float32);
    assert!(parse_iq_format("int32").is_err());
    assert_eq!(parse_compression("none").unwrap(), Compression::Uncompressed);
    assert_eq!(parse_compression("OFF").unwrap(), Compression::Uncompressed);
    assert_eq!(parse_compression("lz4").unwrap(), Compression::Lz4);
    assert!(parse_compression("zip").is_err());
}

#[test]
fn test_recorder_config_defaults() {
    let c = RecorderConfig::default();
    assert_eq!(c.device, DeviceKind::Simulated);
    assert_eq!(c.center_freq_hz, 1_602_000_000);
    assert_eq!(c.sample_rate_hz, 2_000_000);
    assert_eq!(f32::from_bits(c.gain_db_bits), 40.0);
    assert_eq!(c.block_samples, 50_000);
    assert_eq!(c.sdr_type(), SdrType::Unknown);
}
