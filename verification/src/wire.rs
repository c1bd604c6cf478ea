//! The UDP wire form of a block: one datagram per block, best-effort, no
//! acknowledgment or retransmission.
//!
//! Datagram body, all big-endian: an 8-byte nanosecond timestamp, a 2-byte
//! sample count, then the raw payload bytes.

use vstd::prelude::*;
use vstd::string::StringExecFns;

use crate::block::IqBlock;
use crate::bytes::{
    lemma_u16_be_round_trip, lemma_u64_be_round_trip, push_u16_be, push_u64_be, read_u16_be,
    read_u64_be, u16_be_bytes, u16_from_be, u64_be_bytes, u64_from_be,
};
use vstd::slice::{slice_subrange, slice_to_vec};

verus! {

/// Largest UDP payload over plain IPv4.
pub const UDP_MAX_PAYLOAD: usize = 65507;

/// Bytes of the datagram's timestamp field.
pub const UDP_TIMESTAMP_SIZE: usize = 8;

/// Bytes of the datagram's sample-count field.
pub const UDP_SAMPLE_COUNT_SIZE: usize = 2;

/// Bytes of the datagram header preceding the payload.
pub const UDP_HEADER_SIZE: usize = UDP_TIMESTAMP_SIZE + UDP_SAMPLE_COUNT_SIZE;

/// The wire form of one datagram.
pub open spec fn udp_packet_bytes(ts: u64, count: u16, data: Seq<u8>) -> Seq<u8> {
    u64_be_bytes(ts) + u16_be_bytes(count) + data
}

/// Encoder/decoder for the datagram body of one block.
pub struct UdpPacket;

impl UdpPacket {
    /// Packs a block into a datagram body, rejecting payloads beyond the
    /// transport's ceiling and sample counts beyond the 16-bit field.
    pub fn encode(block: &IqBlock) -> (r: Result<Vec<u8>, String>)
        ensures
            r is Ok <==> (block@.data.len() <= UDP_MAX_PAYLOAD - UDP_HEADER_SIZE
                && block@.sample_count <= u16::MAX),
            r matches Ok(v) ==> v@ == udp_packet_bytes(
                block@.timestamp_ns,
                block@.sample_count as u16,
                block@.data,
            ),
    {
        if block.data.len() > UDP_MAX_PAYLOAD - UDP_HEADER_SIZE {
            return Err(String::from_str("block data exceeds the UDP payload ceiling"));
        }
        if block.sample_count > u16::MAX as u32 {
            return Err(String::from_str("sample count exceeds the 16-bit wire field"));
        }
        let sample_count = block.sample_count as u16;
        let mut buf: Vec<u8> = Vec::new();
        push_u64_be(&mut buf, block.timestamp_ns);
        push_u16_be(&mut buf, sample_count);
        buf.extend_from_slice(block.data.as_slice());
        assert(buf@ =~= udp_packet_bytes(block@.timestamp_ns, sample_count, block@.data));
        Ok(buf)
    }

    /// Unpacks a datagram body into timestamp, sample count and payload,
    /// rejecting bodies shorter than the fixed header.
    pub fn decode(buf: &[u8]) -> (r: Result<(u64, u16, Vec<u8>), String>)
        ensures
            r is Ok <==> buf@.len() >= UDP_HEADER_SIZE,
            r matches Ok((ts, count, data)) ==> ts == u64_from_be(buf@.subrange(0, 8)) && count
                == u16_from_be(buf@.subrange(8, 10)) && data@ == buf@.skip(10),
    {
        if buf.len() < UDP_HEADER_SIZE {
            return Err(String::from_str("packet shorter than the datagram header"));
        }
        let ts = read_u64_be(buf, 0);
        let count = read_u16_be(buf, 8);
        let data = slice_to_vec(slice_subrange(buf, UDP_HEADER_SIZE, buf.len()));
        assert(data@ =~= buf@.skip(10));
        Ok((ts, count, data))
    }
}

/// Round trip: a block that fits the transport decodes from its own
/// datagram body — same timestamp, count and payload.
pub proof fn lemma_udp_round_trip(ts: u64, count: u16, data: Seq<u8>)
    ensures
        ({
            let p = udp_packet_bytes(ts, count, data);
            u64_from_be(p.subrange(0, 8)) == ts && u16_from_be(p.subrange(8, 10)) == count
                && p.skip(10) == data
        }),
{
    let p = udp_packet_bytes(ts, count, data);
    lemma_u64_be_round_trip(ts, seq![0u8, 0u8, 0u8, 0u8, 0u8, 0u8, 0u8, 0u8]);
    lemma_u16_be_round_trip(count, seq![0u8, 0u8]);
    assert(p.subrange(0, 8) =~= u64_be_bytes(ts));
    assert(p.subrange(8, 10) =~= u16_be_bytes(count));
    assert(p.skip(10) =~= data);
}

} // verus!
