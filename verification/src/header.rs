//! The fixed 128-byte header record at the start of every GLOS stream.
//!
//! Layout on the wire: four magic bytes, version, flag byte, six padding
//! bytes, device type, sample format, compression, one padding byte, then
//! sample rate (4), center frequency (8), gain bit pattern (4), session start
//! (8), session end (8) and total sample count (8), sixteen padding bytes, a
//! CRC-32 over everything so far (bytes 0..72), and 52 reserved zero bytes.
//!
//! Bit 0 of the flag byte selects little-endian storage for the multi-byte
//! fields above. The checksum field itself is always big-endian, whatever the
//! flag says.

use vstd::prelude::*;

use crate::bytes::{
    lemma_u32_be_round_trip, lemma_u32_endian_round_trip, lemma_u64_endian_round_trip,
    push_u32_be, push_u32_endian, push_u64_endian, read_u32_be, read_u32_local, read_u64_local,
    u32_be_bytes, u32_bytes_endian, u32_from_be, u32_from_endian, u64_bytes_endian,
    u64_from_endian,
};
use crate::checksum::{crc32_checksum, crc32_of};
use crate::error::{GlosError, GlosResult};
use crate::types::{
    compression_of_u8, compression_u8, iq_format_of_u8, iq_format_u8, sdr_type_of_u8, sdr_type_u8,
    Compression, IqFormat, SdrType,
};
use crate::{GLOS_MAGIC_0, GLOS_MAGIC_1, GLOS_MAGIC_2, GLOS_MAGIC_3, GLOS_VERSION};

verus! {

/// Session metadata at the start of a GLOS stream.
///
/// The receiver gain is carried as the bit pattern of an IEEE-754
/// single-precision value: the codec moves the pattern through the file
/// untouched, and only presentation code ever interprets it as a number.
#[derive(Debug, Clone, PartialEq, Eq, Structural)]
pub struct GlosHeader {
    /// Format version; only `GLOS_VERSION` is ever accepted.
    pub version: u8,
    /// Flag byte; bit 0 set means the header's multi-byte fields are stored
    /// little-endian.
    pub flags: u8,
    /// Kind of SDR receiver the recording came from.
    pub sdr_type: SdrType,
    /// Layout of one I/Q pair in the payload.
    pub iq_format: IqFormat,
    /// Compression applied to block payloads.
    pub compression: Compression,
    /// Sample rate in Hz.
    pub sample_rate: u32,
    /// Center frequency in Hz.
    pub center_freq: u64,
    /// Receiver gain in dB, as the bit pattern of an IEEE-754 single.
    pub gain_db_bits: u32,
    /// Session start, Unix seconds.
    pub timestamp_start: u64,
    /// Session end, Unix seconds; zero while the recording is open.
    pub timestamp_end: u64,
    /// Total I/Q samples in the stream; zero while the recording is open.
    pub total_samples: u64,
}

/// A sequence of `n` zero bytes.
pub open spec fn zero_bytes(n: nat) -> Seq<u8> {
    Seq::new(n, |i: int| 0u8)
}

/// Whether a header's fields are stored little-endian (bit 0 of the flag
/// byte).
pub open spec fn header_is_le(h: GlosHeader) -> bool {
    h.flags & 0x01 != 0
}

/// The 72 checksum-covered bytes of a header: everything before the checksum
/// field.
pub open spec fn header_covered_bytes(h: GlosHeader) -> Seq<u8> {
    let le = header_is_le(h);
    seq![
        GLOS_MAGIC_0,
        GLOS_MAGIC_1,
        GLOS_MAGIC_2,
        GLOS_MAGIC_3,
        h.version,
        h.flags,
        0u8,
        0u8,
        0u8,
        0u8,
        0u8,
        0u8,
        sdr_type_u8(h.sdr_type),
        iq_format_u8(h.iq_format),
        compression_u8(h.compression),
        0u8,
    ] + u32_bytes_endian(h.sample_rate, le) + u64_bytes_endian(h.center_freq, le)
        + u32_bytes_endian(h.gain_db_bits, le) + u64_bytes_endian(h.timestamp_start, le)
        + u64_bytes_endian(h.timestamp_end, le) + u64_bytes_endian(h.total_samples, le)
        + zero_bytes(16)
}

/// The full 128-byte wire form of a header: the covered bytes, the CRC-32
/// over them (always big-endian), and 52 reserved zero bytes.
pub open spec fn header_bytes(h: GlosHeader) -> Seq<u8> {
    header_covered_bytes(h) + u32_be_bytes(crc32_of(header_covered_bytes(h))) + zero_bytes(52)
}

/// Whether the first four bytes are the GLOS magic tag.
pub open spec fn header_magic_ok(s: Seq<u8>) -> bool
    recommends
        s.len() >= 4,
{
    s[0] == GLOS_MAGIC_0 && s[1] == GLOS_MAGIC_1 && s[2] == GLOS_MAGIC_2 && s[3] == GLOS_MAGIC_3
}

/// Whether 128 bytes decode as a header: magic, exact version, known sample
/// format and compression bytes, and a stored checksum equal to the one
/// computed over bytes 0..72.
pub open spec fn header_ok(s: Seq<u8>) -> bool {
    &&& s.len() == 128
    &&& header_magic_ok(s)
    &&& s[4] == GLOS_VERSION
    &&& s[13] < 3
    &&& s[14] < 2
    &&& u32_from_be(s.subrange(72, 76)) == crc32_of(s.subrange(0, 72))
}

/// The header read from 128 bytes; meaningful when `header_ok` holds.
pub open spec fn parsed_header(s: Seq<u8>) -> GlosHeader
    recommends
        s.len() == 128,
{
    let le = s[5] & 0x01 != 0;
    GlosHeader {
        version: s[4],
        flags: s[5],
        sdr_type: sdr_type_of_u8(s[12]),
        iq_format: iq_format_of_u8(s[13]),
        compression: compression_of_u8(s[14]),
        sample_rate: u32_from_endian(s.subrange(16, 20), le),
        center_freq: u64_from_endian(s.subrange(20, 28), le),
        gain_db_bits: u32_from_endian(s.subrange(28, 32), le),
        timestamp_start: u64_from_endian(s.subrange(32, 40), le),
        timestamp_end: u64_from_endian(s.subrange(40, 48), le),
        total_samples: u64_from_endian(s.subrange(48, 56), le),
    }
}

impl GlosHeader {
    /// A fresh header for a recording that is about to start: current
    /// version, big-endian fields, 16-bit samples, no compression, zero gain,
    /// and open-ended session fields.
    pub fn new(sdr_type: SdrType, sample_rate: u32, center_freq: u64, timestamp_start: u64) -> (h:
        Self)
        ensures
            h == (GlosHeader {
                version: GLOS_VERSION,
                flags: 0,
                sdr_type,
                iq_format: IqFormat::Int16,
                compression: Compression::Uncompressed,
                sample_rate,
                center_freq,
                gain_db_bits: 0,
                timestamp_start,
                timestamp_end: 0,
                total_samples: 0,
            }),
    {
        GlosHeader {
            version: GLOS_VERSION,
            flags: 0,
            sdr_type,
            iq_format: IqFormat::Int16,
            compression: Compression::Uncompressed,
            sample_rate,
            center_freq,
            gain_db_bits: 0,
            timestamp_start,
            timestamp_end: 0,
            total_samples: 0,
        }
    }

    /// Whether this header stores its multi-byte fields little-endian.
    pub fn is_little_endian(&self) -> (r: bool)
        ensures
            r == header_is_le(*self),
    {
        (self.flags & 0x01) != 0
    }

    /// Serializes the header into its 128-byte wire form, computing the
    /// checksum over bytes 0..72. Never fails.
    pub fn serialize(&self) -> (r: GlosResult<[u8; 128]>)
        ensures
            r matches Ok(b) && b@ == header_bytes(*self),
    {
        let mut v: Vec<u8> = Vec::new();
        v.push(GLOS_MAGIC_0);
        v.push(GLOS_MAGIC_1);
        v.push(GLOS_MAGIC_2);
        v.push(GLOS_MAGIC_3);
        v.push(self.version);
        v.push(self.flags);
        v.push(0);
        v.push(0);
        v.push(0);
        v.push(0);
        v.push(0);
        v.push(0);
        v.push(self.sdr_type.as_u8());
        v.push(self.iq_format.as_u8());
        v.push(self.compression.as_u8());
        v.push(0);
        let le = self.is_little_endian();
        push_u32_endian(&mut v, self.sample_rate, le);
        push_u64_endian(&mut v, self.center_freq, le);
        push_u32_endian(&mut v, self.gain_db_bits, le);
        push_u64_endian(&mut v, self.timestamp_start, le);
        push_u64_endian(&mut v, self.timestamp_end, le);
        push_u64_endian(&mut v, self.total_samples, le);
        let ghost before_pad = v@;
        let mut k: usize = 0;
        while k < 16
            invariant
                k <= 16,
                v@ == before_pad + zero_bytes(k as nat),
            decreases 16 - k,
        {
            v.push(0);
            k = k + 1;
            assert(v@ =~= before_pad + zero_bytes(k as nat));
        }
        assert(v@ =~= header_covered_bytes(*self));
        let crc = crc32_checksum(v.as_slice());
        push_u32_be(&mut v, crc);
        let ghost before_reserved = v@;
        let mut k2: usize = 0;
        while k2 < 52
            invariant
                k2 <= 52,
                v@ == before_reserved + zero_bytes(k2 as nat),
            decreases 52 - k2,
        {
            v.push(0);
            k2 = k2 + 1;
            assert(v@ =~= before_reserved + zero_bytes(k2 as nat));
        }
        assert(v@ =~= header_bytes(*self));
        let mut buf = [0u8; 128];
        let mut i: usize = 0;
        while i < 128
            invariant
                i <= 128,
                v@ == header_bytes(*self),
                v@.len() == 128,
                buf@.len() == 128,
                forall|j: int| 0 <= j < i ==> buf@[j] == v@[j],
            decreases 128 - i,
        {
            buf[i] = v[i];
            i = i + 1;
        }
        assert(buf@ =~= v@);
        Ok(buf)
    }

    /// Decodes a header from its 128-byte wire form.
    ///
    /// Rejections, in the order they are checked: wrong magic, wrong
    /// version, unknown sample-format or compression byte, and a stored
    /// checksum that differs from the one computed over bytes 0..72.
    /// Succeeds exactly on buffers that `header_ok` accepts, and then
    /// returns exactly the parsed fields.
    pub fn deserialize(buf: &[u8; 128]) -> (r: GlosResult<GlosHeader>)
        ensures
            r is Ok <==> header_ok(buf@),
            r matches Ok(h) ==> h == parsed_header(buf@),
            !header_magic_ok(buf@) ==> (r matches Err(e) && e is InvalidMagic),
            header_magic_ok(buf@) && buf@[4] != GLOS_VERSION ==> (r matches Err(
                GlosError::UnsupportedVersion { found, expected },
            ) && found == buf@[4] && expected == GLOS_VERSION),
            header_magic_ok(buf@) && buf@[4] == GLOS_VERSION && (buf@[13] >= 3 || buf@[14] >= 2)
                ==> (r matches Err(e) && e is FormatViolation),
            header_magic_ok(buf@) && buf@[4] == GLOS_VERSION && buf@[13] < 3 && buf@[14] < 2
                && u32_from_be(buf@.subrange(72, 76)) != crc32_of(buf@.subrange(0, 72)) ==> (r
                matches Err(GlosError::CrcMismatch { expected, found }) && expected == crc32_of(
                buf@.subrange(0, 72),
            ) && found == u32_from_be(buf@.subrange(72, 76))),
    {
        if buf[0] != GLOS_MAGIC_0 || buf[1] != GLOS_MAGIC_1 || buf[2] != GLOS_MAGIC_2 || buf[3]
            != GLOS_MAGIC_3 {
            return Err(GlosError::invalid_magic("invalid GLOS magic number"));
        }
        let version = buf[4];
        if version != GLOS_VERSION {
            return Err(GlosError::UnsupportedVersion { found: version, expected: GLOS_VERSION });
        }
        let flags = buf[5];
        let is_le = (flags & 0x01) != 0;
        let sdr_type = SdrType::from_u8(buf[12]);
        let iq_format = match IqFormat::from_u8(buf[13]) {
            Ok(f) => f,
            Err(e) => {
                return Err(e);
            },
        };
        let compression = match Compression::from_u8(buf[14]) {
            Ok(c) => c,
            Err(e) => {
                return Err(e);
            },
        };
        let mut off: usize = 16;
        let sample_rate = read_u32_local(buf, &mut off, is_le);
        let center_freq = read_u64_local(buf, &mut off, is_le);
        let gain_db_bits = read_u32_local(buf, &mut off, is_le);
        let timestamp_start = read_u64_local(buf, &mut off, is_le);
        let timestamp_end = read_u64_local(buf, &mut off, is_le);
        let total_samples = read_u64_local(buf, &mut off, is_le);
        let slice = buf.as_slice();
        let stored_crc = read_u32_be(slice, 72);
        let calculated_crc = crc32_checksum(&slice[0..72]);
        if stored_crc != calculated_crc {
            return Err(GlosError::CrcMismatch { expected: calculated_crc, found: stored_crc });
        }
        Ok(
            GlosHeader {
                version,
                flags,
                sdr_type,
                iq_format,
                compression,
                sample_rate,
                center_freq,
                gain_db_bits,
                timestamp_start,
                timestamp_end,
                total_samples,
            },
        )
    }
}

/// Round trip: every header of the supported version decodes from its own
/// wire form, field for field, the gain bit pattern included.
pub proof fn lemma_header_round_trip(h: GlosHeader)
    requires
        h.version == GLOS_VERSION,
    ensures
        header_ok(header_bytes(h)),
        parsed_header(header_bytes(h)) == h,
{
    let le = header_is_le(h);
    let c = header_covered_bytes(h);
    let s = header_bytes(h);
    lemma_u32_endian_round_trip(h.sample_rate, le);
    lemma_u64_endian_round_trip(h.center_freq, le);
    lemma_u32_endian_round_trip(h.gain_db_bits, le);
    lemma_u64_endian_round_trip(h.timestamp_start, le);
    lemma_u64_endian_round_trip(h.timestamp_end, le);
    lemma_u64_endian_round_trip(h.total_samples, le);
    lemma_u32_be_round_trip(crc32_of(c), seq![0u8, 0u8, 0u8, 0u8]);
    assert(c.len() == 72);
    assert(s.len() == 128);
    assert(s.subrange(0, 72) =~= c);
    assert(s.subrange(72, 76) =~= u32_be_bytes(crc32_of(c)));
    assert(s.subrange(16, 20) =~= u32_bytes_endian(h.sample_rate, le));
    assert(s.subrange(20, 28) =~= u64_bytes_endian(h.center_freq, le));
    assert(s.subrange(28, 32) =~= u32_bytes_endian(h.gain_db_bits, le));
    assert(s.subrange(32, 40) =~= u64_bytes_endian(h.timestamp_start, le));
    assert(s.subrange(40, 48) =~= u64_bytes_endian(h.timestamp_end, le));
    assert(s.subrange(48, 56) =~= u64_bytes_endian(h.total_samples, le));
}

/// Corruption is caught: change any one byte of a header's checksum-covered
/// region, and as long as the CRC-32 of the covered bytes changes with it —
/// which is a property of CRC-32 itself, outside this model — the buffer no
/// longer decodes as a header, because the stored checksum still belongs to
/// the original bytes.
pub proof fn lemma_header_single_byte_corruption(h: GlosHeader, s: Seq<u8>, i: int)
    requires
        h.version == GLOS_VERSION,
        s.len() == 128,
        0 <= i < 72,
        s[i] != header_bytes(h)[i],
        forall|j: int| 0 <= j < 128 && j != i ==> s[j] == header_bytes(h)[j],
        crc32_of(s.subrange(0, 72)) != crc32_of(header_bytes(h).subrange(0, 72)),
    ensures
        !header_ok(s),
        u32_from_be(s.subrange(72, 76)) != crc32_of(s.subrange(0, 72)),
{
    let c = header_covered_bytes(h);
    let orig = header_bytes(h);
    lemma_header_round_trip(h);
    assert(s.subrange(72, 76) =~= orig.subrange(72, 76));
    assert(orig.subrange(72, 76) =~= u32_be_bytes(crc32_of(c)));
    lemma_u32_be_round_trip(crc32_of(c), seq![0u8, 0u8, 0u8, 0u8]);
    assert(orig.subrange(0, 72) =~= c);
    assert(u32_from_be(s.subrange(72, 76)) == crc32_of(c));
}

} // verus!
