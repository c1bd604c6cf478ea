//! Capture-session configuration: the device choice, the recording
//! parameters, and the small parsers that turn option strings into them.
//!
//! The frequency parser accepts a decimal number with an optional unit
//! suffix (`GHz`, `MHz`, `kHz`, `Hz`, any letter case, surrounding ASCII
//! whitespace allowed): up to twelve integer digits and up to nine
//! fractional digits, rounded half-up to whole hertz and stopped at the top
//! of the 64-bit range. Without a suffix the string must be a plain decimal
//! integer number of hertz.

use vstd::prelude::*;
use vstd::slice::slice_subrange;
use vstd::string::{StringExecFns, StringSliceAdditionalSpecFns};

use crate::types::{Compression, IqFormat, SdrType};

verus! {

/// Kind of SDR device a capture session uses.
#[derive(Debug, Clone, Copy, PartialEq, Eq, Structural)]
pub enum DeviceKind {
    /// The built-in simulator; needs no hardware.
    Simulated,
    /// HackRF One.
    HackRf,
    /// ADALM-PlutoSDR.
    PlutoSdr,
}

/// Everything one capture session is configured with.
#[derive(Debug, Clone)]
pub struct RecorderConfig {
    /// Which device to capture from.
    pub device: DeviceKind,
    /// Center frequency in Hz.
    pub center_freq_hz: u64,
    /// Sample rate in Hz.
    pub sample_rate_hz: u32,
    /// Receiver gain in dB, as the bit pattern of an IEEE-754 single.
    pub gain_db_bits: u32,
    /// Layout of one I/Q pair.
    pub iq_format: IqFormat,
    /// Compression applied to blocks.
    pub compression: Compression,
    /// Where the stream goes.
    pub output_path: String,
    /// Stop after this many seconds; absent means record until stopped.
    pub duration_secs: Option<u64>,
    /// Samples per block.
    pub block_samples: u32,
    /// Slots in the capture buffer.
    pub ring_capacity: usize,
    /// Seconds between progress reports.
    pub stats_interval_secs: u64,
}

impl RecorderConfig {
    /// The device tag the stream header carries for this configuration:
    /// the simulator records as an unknown device.
    pub fn sdr_type(&self) -> (r: SdrType)
        ensures
            r == match self.device {
                DeviceKind::Simulated => SdrType::Unknown,
                DeviceKind::HackRf => SdrType::HackRf,
                DeviceKind::PlutoSdr => SdrType::PlutoSdr,
            },
    {
        match self.device {
            DeviceKind::Simulated => SdrType::Unknown,
            DeviceKind::HackRf => SdrType::HackRf,
            DeviceKind::PlutoSdr => SdrType::PlutoSdr,
        }
    }
}

impl Default for RecorderConfig {
    /// The stock configuration: the simulator at 2 Msps around 1602 MHz,
    /// 40 dB of gain (`0x42200000` is the bit pattern of 40.0), 16-bit
    /// samples, no compression, 50000-sample blocks.
    fn default() -> (c: Self)
        ensures
            c.device == DeviceKind::Simulated,
            c.center_freq_hz == 1602000000u64,
            c.sample_rate_hz == 2000000u32,
            c.gain_db_bits == 0x42200000u32,
            c.iq_format == IqFormat::Int16,
            c.compression == Compression::Uncompressed,
            c.output_path@ == "recording.glos"@,
            c.duration_secs is None,
            c.block_samples == 50000u32,
            c.ring_capacity == 64usize,
            c.stats_interval_secs == 5u64,
    {
        RecorderConfig {
            device: DeviceKind::Simulated,
            center_freq_hz: 1602000000,
            sample_rate_hz: 2000000,
            gain_db_bits: 0x42200000,
            iq_format: IqFormat::Int16,
            compression: Compression::Uncompressed,
            output_path: String::from_str("recording.glos"),
            duration_secs: None,
            block_samples: 50000,
            ring_capacity: 64,
            stats_interval_secs: 5,
        }
    }
}

/// ASCII whitespace, as the parsers here understand it.
pub open spec fn is_space(b: u8) -> bool {
    b == 32 || b == 9 || b == 10 || b == 13
}

/// ASCII lowercasing of one byte.
pub open spec fn lower_byte(b: u8) -> u8 {
    if 65 <= b <= 90 {
        (b + 32) as u8
    } else {
        b
    }
}

/// ASCII lowercasing of a byte string.
pub open spec fn lower_bytes(s: Seq<u8>) -> Seq<u8> {
    s.map_values(|b: u8| lower_byte(b))
}

/// The byte string with leading ASCII whitespace removed.
pub open spec fn trim_start_bytes(s: Seq<u8>) -> Seq<u8>
    decreases s.len(),
{
    if s.len() > 0 && is_space(s[0]) {
        trim_start_bytes(s.skip(1))
    } else {
        s
    }
}

/// The byte string with trailing ASCII whitespace removed.
pub open spec fn trim_end_bytes(s: Seq<u8>) -> Seq<u8>
    decreases s.len(),
{
    if s.len() > 0 && is_space(s[s.len() - 1]) {
        trim_end_bytes(s.drop_last())
    } else {
        s
    }
}

/// The byte string with surrounding ASCII whitespace removed.
pub open spec fn trim_bytes(s: Seq<u8>) -> Seq<u8> {
    trim_end_bytes(trim_start_bytes(s))
}

/// An ASCII decimal digit.
pub open spec fn is_digit(b: u8) -> bool {
    48 <= b <= 57
}

/// Whether every byte is a decimal digit.
pub open spec fn all_digits(s: Seq<u8>) -> bool {
    forall|i: int| 0 <= i < s.len() ==> is_digit(#[trigger] s[i])
}

/// The number a digit string denotes.
pub open spec fn digits_val(s: Seq<u8>) -> int
    decreases s.len(),
{
    if s.len() == 0 {
        0
    } else {
        digits_val(s.drop_last()) * 10 + (s[s.len() - 1] - 48)
    }
}

/// Ten to the `n`.
pub open spec fn pow10(n: nat) -> int
    decreases n,
{
    if n == 0 {
        1
    } else {
        10 * pow10((n - 1) as nat)
    }
}

/// Powers of ten are positive.
pub proof fn lemma_pow10_pos(n: nat)
    ensures
        pow10(n) >= 1,
    decreases n,
{
    if n > 0 {
        lemma_pow10_pos((n - 1) as nat);
    }
}

/// Powers of ten grow with the exponent.
pub proof fn lemma_pow10_mono(a: nat, b: nat)
    requires
        a <= b,
    ensures
        pow10(a) <= pow10(b),
    decreases b,
{
    if a < b {
        lemma_pow10_mono(a, (b - 1) as nat);
        lemma_pow10_pos((b - 1) as nat);
    }
}

/// A digit string of `n` digits denotes a number below ten to the `n`.
pub proof fn lemma_digits_val_bound(s: Seq<u8>)
    requires
        all_digits(s),
    ensures
        0 <= digits_val(s) < pow10(s.len()),
    decreases s.len(),
{
    if s.len() > 0 {
        assert(all_digits(s.drop_last()));
        lemma_digits_val_bound(s.drop_last());
    }
}

/// Index of the first `.` in the byte string, or -1 when there is none.
pub open spec fn find_dot(s: Seq<u8>) -> int
    decreases s.len(),
{
    if s.len() == 0 {
        -1
    } else if s[0] == 46 {
        0
    } else {
        let r = find_dot(s.skip(1));
        if r < 0 {
            -1
        } else {
            1 + r
        }
    }
}

/// When no dot sits before position `i` and position `i` is the end or a
/// dot, `find_dot` says exactly that.
proof fn lemma_find_dot_at(s: Seq<u8>, i: int)
    requires
        0 <= i <= s.len(),
        forall|k: int| 0 <= k < i ==> s[k] != 46,
        i == s.len() || s[i] == 46,
    ensures
        find_dot(s) == if i == s.len() {
            -1int
        } else {
            i
        },
    decreases i,
{
    if i > 0 {
        lemma_find_dot_at(s.skip(1), i - 1);
    } else {
        if s.len() > 0 && s[0] != 46 {
            assert(find_dot(s.skip(1)) >= 0 ==> s.skip(1)[find_dot(s.skip(1))] == 46) by {
                lemma_find_dot_hits(s.skip(1));
            }
        }
    }
}

/// A found dot really is one.
proof fn lemma_find_dot_hits(s: Seq<u8>)
    ensures
        find_dot(s) >= 0 ==> 0 <= find_dot(s) < s.len() && s[find_dot(s)] == 46,
    decreases s.len(),
{
    if s.len() > 0 && s[0] != 46 {
        lemma_find_dot_hits(s.skip(1));
    }
}

/// The number of whole hertz a decimal digit string times a power-of-ten
/// multiplier denotes, rounded half-up and stopped at the top of the
/// 64-bit range — or nothing when the string is not a decimal number of at
/// most twelve integer and nine fractional digits.
pub open spec fn spec_parse_decimal(n: Seq<u8>, mult: int) -> Option<u64> {
    let dot = find_dot(n);
    let int_part = if dot < 0 {
        n
    } else {
        n.take(dot)
    };
    let frac_part = if dot < 0 {
        Seq::<u8>::empty()
    } else {
        n.skip(dot + 1)
    };
    if int_part.len() <= 12 && all_digits(int_part) && frac_part.len() <= 9 && all_digits(
        frac_part,
    ) && int_part.len() + frac_part.len() > 0 {
        let half = if frac_part.len() == 0 {
            0int
        } else {
            pow10(frac_part.len()) / 2
        };
        let v = digits_val(int_part) * mult + (digits_val(frac_part) * mult + half) / pow10(
            frac_part.len(),
        );
        if v > u64::MAX {
            Some(u64::MAX)
        } else {
            Some(v as u64)
        }
    } else {
        None
    }
}

/// What a frequency option string denotes, in whole hertz: a decimal
/// number scaled by its unit suffix, or a plain integer without one.
pub open spec fn spec_parse_freq(bytes: Seq<u8>) -> Option<u64> {
    let l = lower_bytes(trim_bytes(bytes));
    if suffix_is(l, seq![103u8, 104u8, 122u8]) {
        spec_parse_decimal(trim_bytes(l.take(l.len() - 3)), 1000000000)
    } else if suffix_is(l, seq![109u8, 104u8, 122u8]) {
        spec_parse_decimal(trim_bytes(l.take(l.len() - 3)), 1000000)
    } else if suffix_is(l, seq![107u8, 104u8, 122u8]) {
        spec_parse_decimal(trim_bytes(l.take(l.len() - 3)), 1000)
    } else if suffix_is(l, seq![104u8, 122u8]) {
        spec_parse_decimal(trim_bytes(l.take(l.len() - 2)), 1)
    } else {
        if l.len() > 0 && all_digits(l) && digits_val(l) <= u64::MAX {
            Some(digits_val(l) as u64)
        } else {
            None
        }
    }
}

/// Whether the byte string ends in the given suffix.
pub open spec fn suffix_is(s: Seq<u8>, suffix: Seq<u8>) -> bool {
    s.len() >= suffix.len() && s.skip(s.len() - suffix.len()) == suffix
}

/// Byte-for-byte equality of two slices.
fn bytes_eq(a: &[u8], b: &[u8]) -> (r: bool)
    ensures
        r == (a@ == b@),
{
    if a.len() != b.len() {
        return false;
    }
    let mut i: usize = 0;
    while i < a.len()
        invariant
            i <= a.len(),
            a@.len() == b@.len(),
            forall|k: int| 0 <= k < i ==> a@[k] == b@[k],
        decreases a.len() - i,
    {
        if a[i] != b[i] {
            return false;
        }
        i = i + 1;
    }
    proof {
        assert(a@ =~= b@);
    }
    true
}

/// The range of `bytes` left after removing surrounding ASCII whitespace.
fn trim_range(bytes: &[u8]) -> (r: (usize, usize))
    ensures
        r.0 <= r.1 <= bytes@.len(),
        bytes@.subrange(r.0 as int, r.1 as int) == trim_bytes(bytes@),
{
    proof {
        assert(bytes@.skip(0) =~= bytes@);
    }
    let mut i: usize = 0;
    while i < bytes.len() && is_space_exec(bytes[i])
        invariant
            i <= bytes@.len(),
            trim_start_bytes(bytes@) == trim_start_bytes(bytes@.skip(i as int)),
        decreases bytes@.len() - i,
    {
        proof {
            assert(bytes@.skip(i as int).skip(1) =~= bytes@.skip(i + 1));
        }
        i = i + 1;
    }
    proof {
        assert(trim_start_bytes(bytes@) == bytes@.skip(i as int));
        assert(bytes@.skip(i as int) =~= bytes@.subrange(i as int, bytes@.len() as int));
    }
    let mut j: usize = bytes.len();
    while j > i && is_space_exec(bytes[j - 1])
        invariant
            i <= j <= bytes@.len(),
            trim_end_bytes(bytes@.subrange(i as int, bytes@.len() as int)) == trim_end_bytes(
                bytes@.subrange(i as int, j as int),
            ),
        decreases j,
    {
        proof {
            assert(bytes@.subrange(i as int, j as int).drop_last() =~= bytes@.subrange(
                i as int,
                j - 1,
            ));
        }
        j = j - 1;
    }
    proof {
        assert(trim_end_bytes(bytes@.subrange(i as int, j as int)) == bytes@.subrange(
            i as int,
            j as int,
        ));
    }
    (i, j)
}

/// ASCII whitespace test.
fn is_space_exec(b: u8) -> (r: bool)
    ensures
        r == is_space(b),
{
    b == 32 || b == 9 || b == 10 || b == 13
}

/// ASCII lowercasing of a slice.
fn lower_vec(bytes: &[u8]) -> (r: Vec<u8>)
    ensures
        r@ == lower_bytes(bytes@),
{
    let mut out: Vec<u8> = Vec::new();
    let mut i: usize = 0;
    while i < bytes.len()
        invariant
            i <= bytes@.len(),
            out@.len() == i,
            forall|k: int| 0 <= k < i ==> out@[k] == lower_byte(bytes@[k]),
        decreases bytes@.len() - i,
    {
        let b = bytes[i];
        if 65 <= b && b <= 90 {
            out.push(b + 32);
        } else {
            out.push(b);
        }
        i = i + 1;
    }
    proof {
        assert(out@ =~= lower_bytes(bytes@));
    }
    out
}

/// Parses the decimal number part of a frequency string against the given
/// power-of-ten multiplier; exactly `spec_parse_decimal`.
fn parse_decimal(n: &[u8], mult: u64) -> (r: Option<u64>)
    requires
        1 <= mult <= 1000000000,
    ensures
        r == spec_parse_decimal(n@, mult as int),
{
    let len = n.len();
    let mut dot: usize = len;
    let mut i: usize = 0;
    while i < len && n[i] != 46
        invariant
            i <= len,
            len == n@.len(),
            forall|k: int| 0 <= k < i ==> n@[k] != 46,
        decreases len - i,
    {
        i = i + 1;
    }
    proof {
        lemma_find_dot_at(n@, i as int);
    }
    if i < len {
        dot = i;
    }
    let int_end = if i < len {
        i
    } else {
        len
    };
    let frac_start = if i < len {
        i + 1
    } else {
        len
    };
    let ghost int_part = if find_dot(n@) < 0 {
        n@
    } else {
        n@.take(find_dot(n@))
    };
    let ghost frac_part = if find_dot(n@) < 0 {
        Seq::<u8>::empty()
    } else {
        n@.skip(find_dot(n@) + 1)
    };
    proof {
        assert(n@.subrange(0, int_end as int) =~= int_part);
        assert(n@.subrange(frac_start as int, len as int) =~= frac_part);
    }
    let flen = len - frac_start;
    if int_end > 12 || flen > 9 || int_end + flen == 0 {
        return None;
    }
    let int_val = match digits_value(n, 0, int_end) {
        Some(v) => v,
        None => {
            return None;
        },
    };
    let frac_val = match digits_value(n, frac_start, len) {
        Some(v) => v,
        None => {
            return None;
        },
    };
    proof {
        lemma_digits_val_bound(int_part);
        lemma_digits_val_bound(frac_part);
        lemma_pow10_mono(frac_part.len(), 9);
        lemma_pow10_mono(int_part.len(), 12);
        reveal_with_fuel(pow10, 13);
    }
    let mut pow: u64 = 1;
    let mut p: usize = 0;
    while p < flen
        invariant
            p <= flen <= 9,
            pow == pow10(p as nat),
            1 <= pow <= 1000000000,
        decreases flen - p,
    {
        proof {
            lemma_pow10_mono((p + 1) as nat, 9);
            reveal_with_fuel(pow10, 13);
        }
        pow = pow * 10;
        p = p + 1;
    }
    let half: u64 = if flen == 0 {
        0
    } else {
        pow / 2
    };
    proof {
        assert(frac_val * mult <= 999999999u64 * 1000000000u64) by (nonlinear_arith)
            requires
                0 <= frac_val <= 999999999u64,
                0 <= mult <= 1000000000u64,
        ;
    }
    let contribution: u64 = (frac_val * mult + half) / pow;
    proof {
        assert((int_val as int) * (mult as int) <= 999999999999int * 1000000000int)
            by (nonlinear_arith)
            requires
                0 <= int_val as int <= 999999999999int,
                0 <= mult as int <= 1000000000int,
        ;
        assert((int_val as int) * (mult as int) >= 0) by (nonlinear_arith)
            requires
                int_val as int >= 0,
                mult as int >= 0,
        ;
    }
    let total: u128 = (int_val as u128) * (mult as u128) + (contribution as u128);
    if total > u64::MAX as u128 {
        Some(u64::MAX)
    } else {
        Some(total as u64)
    }
}

/// The value of the digit run `bytes[start..end]`, or nothing when a byte
/// there is no digit. The caller bounds the run to twelve digits, so the
/// value fits comfortably.
fn digits_value(bytes: &[u8], start: usize, end: usize) -> (r: Option<u64>)
    requires
        start <= end <= bytes@.len(),
        end - start <= 12,
    ensures
        r is Some <==> all_digits(bytes@.subrange(start as int, end as int)),
        r matches Some(v) ==> v == digits_val(bytes@.subrange(start as int, end as int)) && v
            <= 999999999999u64,
{
    let mut val: u64 = 0;
    let mut i: usize = start;
    while i < end
        invariant
            start <= i <= end <= bytes@.len(),
            end - start <= 12,
            all_digits(bytes@.subrange(start as int, i as int)),
            val == digits_val(bytes@.subrange(start as int, i as int)),
            val < pow10((i - start) as nat),
            val <= 999999999999u64,
        decreases end - i,
    {
        let b = bytes[i];
        if b < 48 || b > 57 {
            proof {
                assert(!all_digits(bytes@.subrange(start as int, end as int))) by {
                    assert(bytes@.subrange(start as int, end as int)[i - start] == b);
                }
            }
            return None;
        }
        proof {
            reveal_with_fuel(pow10, 13);
            lemma_pow10_mono(((i + 1) - start) as nat, 12);
            assert(bytes@.subrange(start as int, i + 1).drop_last() =~= bytes@.subrange(
                start as int,
                i as int,
            ));
            lemma_digits_val_bound(bytes@.subrange(start as int, i + 1));
        }
        val = val * 10 + ((b - 48) as u64);
        i = i + 1;
    }
    proof {
        reveal_with_fuel(pow10, 13);
        lemma_pow10_mono(((end - start)) as nat, 12);
        lemma_digits_val_bound(bytes@.subrange(start as int, end as int));
    }
    Some(val)
}

/// Cuts the suffix off the lowered bytes, trims the number part, and
/// parses it against the multiplier.
fn parse_number_part(l: &[u8], cut: usize, mult: u64) -> (r: Option<u64>)
    requires
        cut <= l@.len(),
        1 <= mult <= 1000000000,
    ensures
        r == spec_parse_decimal(trim_bytes(l@.take(cut as int)), mult as int),
{
    let head = slice_subrange(l, 0, cut);
    let (n0, n1) = trim_range(head);
    parse_decimal(slice_subrange(head, n0, n1), mult)
}

/// Parses a frequency string into whole hertz; exactly `spec_parse_freq`
/// over the string's bytes.
///
/// Accepted: a decimal number (at most twelve integer and nine fractional
/// digits) with a `GHz`, `MHz`, `kHz` or `Hz` suffix in any letter case,
/// or a plain integer number of hertz; ASCII whitespace may surround the
/// number and the suffix.
#[verifier::rlimit(80)]
#[verifier::spinoff_prover]
pub fn parse_freq_hz(s: &str) -> (r: Result<u64, String>)
    ensures
        r is Ok <==> spec_parse_freq(s.spec_bytes()) is Some,
        r matches Ok(v) ==> spec_parse_freq(s.spec_bytes()) == Some(v),
{
    let bytes = s.as_bytes();
    let (t0, t1) = trim_range(bytes);
    let lowered = lower_vec(slice_subrange(bytes, t0, t1));
    let l = lowered.as_slice();
    let llen = l.len();
    let ghost lspec = lower_bytes(trim_bytes(s.spec_bytes()));
    let parsed: Option<u64> = if llen >= 3 && l[llen - 3] == 103 && l[llen - 2] == 104 && l[llen
        - 1] == 122 {
        proof {
            assert(lspec.skip(lspec.len() - 3) =~= seq![103u8, 104u8, 122u8]);
        }
        parse_number_part(l, llen - 3, 1000000000)
    } else if llen >= 3 && l[llen - 3] == 109 && l[llen - 2] == 104 && l[llen - 1] == 122 {
        proof {
            assert(lspec.skip(lspec.len() - 3) =~= seq![109u8, 104u8, 122u8]);
        }
        parse_number_part(l, llen - 3, 1000000)
    } else if llen >= 3 && l[llen - 3] == 107 && l[llen - 2] == 104 && l[llen - 1] == 122 {
        proof {
            assert(lspec.skip(lspec.len() - 3) =~= seq![107u8, 104u8, 122u8]);
        }
        parse_number_part(l, llen - 3, 1000)
    } else if llen >= 2 && l[llen - 2] == 104 && l[llen - 1] == 122 {
        proof {
            assert(lspec.skip(lspec.len() - 2) =~= seq![104u8, 122u8]);
        }
        parse_number_part(l, llen - 2, 1)
    } else {
        proof {
            if llen >= 3 {
                assert(lspec.skip(lspec.len() - 3) =~= seq![
                    lspec[lspec.len() - 3],
                    lspec[lspec.len() - 2],
                    lspec[lspec.len() - 1],
                ]);
            }
            if llen >= 2 {
                assert(lspec.skip(lspec.len() - 2) =~= seq![
                    lspec[lspec.len() - 2],
                    lspec[lspec.len() - 1],
                ]);
            }
        }
        match digits_value_any(l) {
            Some(v) => Some(v),
            None => None,
        }
    };
    match parsed {
        Some(v) => Ok(v),
        None => Err(String::from_str("invalid frequency")),
    }
}

/// The value of a whole digit string of any length, or nothing when a byte
/// is no digit or the value exceeds the 64-bit range.
fn digits_value_any(bytes: &[u8]) -> (r: Option<u64>)
    ensures
        r is Some <==> (bytes@.len() > 0 && all_digits(bytes@) && digits_val(bytes@)
            <= u64::MAX),
        r matches Some(v) ==> v == digits_val(bytes@),
{
    if bytes.len() == 0 {
        return None;
    }
    let mut val: u64 = 0;
    let mut i: usize = 0;
    while i < bytes.len()
        invariant
            i <= bytes@.len(),
            all_digits(bytes@.subrange(0, i as int)),
            val == digits_val(bytes@.subrange(0, i as int)),
        decreases bytes@.len() - i,
    {
        let b = bytes[i];
        if b < 48 || b > 57 {
            proof {
                assert(!all_digits(bytes@)) by {
                    assert(bytes@[i as int] == b);
                }
            }
            return None;
        }
        let d = (b - 48) as u64;
        if val > (u64::MAX - d) / 10 {
            proof {
                assert(bytes@.subrange(0, i + 1).drop_last() =~= bytes@.subrange(0, i as int));
                let w = digits_val(bytes@.subrange(0, i + 1));
                assert(w > u64::MAX) by (nonlinear_arith)
                    requires
                        w == (val as int) * 10 + d,
                        val > (u64::MAX - d) / 10,
                        d <= 9,
                        val <= u64::MAX,
                ;
                if all_digits(bytes@) {
                    lemma_digits_prefix_monotone(bytes@, i + 1);
                }
            }
            return None;
        }
        proof {
            assert(bytes@.subrange(0, i + 1).drop_last() =~= bytes@.subrange(0, i as int));
            assert(val * 10 + d <= u64::MAX) by (nonlinear_arith)
                requires
                    val <= (u64::MAX - d) / 10,
                    d <= 9,
            ;
        }
        val = val * 10 + d;
        i = i + 1;
    }
    proof {
        assert(bytes@.subrange(0, bytes@.len() as int) =~= bytes@);
    }
    Some(val)
}

/// What a sample-format option string denotes, ASCII case ignored.
pub open spec fn spec_parse_iq_format(bytes: Seq<u8>) -> Option<IqFormat> {
    let l = lower_bytes(bytes);
    // "int8" | "i8"
    if l == seq![105u8, 110u8, 116u8, 56u8] || l == seq![105u8, 56u8] {
        Some(IqFormat::Int8)
        // "int16" | "i16"
    } else if l == seq![105u8, 110u8, 116u8, 49u8, 54u8] || l == seq![105u8, 49u8, 54u8] {
        Some(IqFormat::Int16)
        // "float32" | "f32"
    } else if l == seq![102u8, 108u8, 111u8, 97u8, 116u8, 51u8, 50u8] || l == seq![
        102u8,
        51u8,
        50u8,
    ] {
        Some(IqFormat::Float32)
    } else {
        None
    }
}

/// What a compression option string denotes, ASCII case ignored.
pub open spec fn spec_parse_compression(bytes: Seq<u8>) -> Option<Compression> {
    let l = lower_bytes(bytes);
    // "none" | "no" | "off"
    if l == seq![110u8, 111u8, 110u8, 101u8] || l == seq![110u8, 111u8] || l == seq![
        111u8,
        102u8,
        102u8,
    ] {
        Some(Compression::Uncompressed)
        // "lz4"
    } else if l == seq![108u8, 122u8, 52u8] {
        Some(Compression::Lz4)
    } else {
        None
    }
}

/// What a device option string denotes, ASCII case ignored.
pub open spec fn spec_parse_device_kind(bytes: Seq<u8>) -> Option<DeviceKind> {
    let l = lower_bytes(bytes);
    // "sim" | "simulated"
    if l == seq![115u8, 105u8, 109u8] || l == seq![
        115u8,
        105u8,
        109u8,
        117u8,
        108u8,
        97u8,
        116u8,
        101u8,
        100u8,
    ] {
        Some(DeviceKind::Simulated)
        // "hackrf" | "hackrf_one"
    } else if l == seq![104u8, 97u8, 99u8, 107u8, 114u8, 102u8] || l == seq![
        104u8,
        97u8,
        99u8,
        107u8,
        114u8,
        102u8,
        95u8,
        111u8,
        110u8,
        101u8,
    ] {
        Some(DeviceKind::HackRf)
        // "pluto" | "plutosdr" | "adalm-pluto"
    } else if l == seq![112u8, 108u8, 117u8, 116u8, 111u8] || l == seq![
        112u8,
        108u8,
        117u8,
        116u8,
        111u8,
        115u8,
        100u8,
        114u8,
    ] || l == seq![97u8, 100u8, 97u8, 108u8, 109u8, 45u8, 112u8, 108u8, 117u8, 116u8, 111u8] {
        Some(DeviceKind::PlutoSdr)
    } else {
        None
    }
}

/// Compares the ASCII-lowered bytes of `s` against a keyword.
fn lowered_is(lowered: &[u8], kw: &[u8]) -> (r: bool)
    ensures
        r == (lowered@ == kw@),
{
    bytes_eq(lowered, kw)
}

/// Parses a sample-format option: `int8`/`i8`, `int16`/`i16`,
/// `float32`/`f32`, any letter case.
pub fn parse_iq_format(s: &str) -> (r: Result<IqFormat, String>)
    ensures
        r is Ok <==> spec_parse_iq_format(s.spec_bytes()) is Some,
        r matches Ok(f) ==> spec_parse_iq_format(s.spec_bytes()) == Some(f),
{
    let lowered = lower_vec(s.as_bytes());
    let l = lowered.as_slice();
    let kw_int8: [u8; 4] = [105, 110, 116, 56];
    let kw_i8: [u8; 2] = [105, 56];
    let kw_int16: [u8; 5] = [105, 110, 116, 49, 54];
    let kw_i16: [u8; 3] = [105, 49, 54];
    let kw_float32: [u8; 7] = [102, 108, 111, 97, 116, 51, 50];
    let kw_f32: [u8; 3] = [102, 51, 50];
    proof {
        assert(kw_int8@ =~= seq![105u8, 110u8, 116u8, 56u8]);
        assert(kw_i8@ =~= seq![105u8, 56u8]);
        assert(kw_int16@ =~= seq![105u8, 110u8, 116u8, 49u8, 54u8]);
        assert(kw_i16@ =~= seq![105u8, 49u8, 54u8]);
        assert(kw_float32@ =~= seq![102u8, 108u8, 111u8, 97u8, 116u8, 51u8, 50u8]);
        assert(kw_f32@ =~= seq![102u8, 51u8, 50u8]);
    }
    if lowered_is(l, kw_int8.as_slice()) || lowered_is(l, kw_i8.as_slice()) {
        Ok(IqFormat::Int8)
    } else if lowered_is(l, kw_int16.as_slice()) || lowered_is(l, kw_i16.as_slice()) {
        Ok(IqFormat::Int16)
    } else if lowered_is(l, kw_float32.as_slice()) || lowered_is(l, kw_f32.as_slice()) {
        Ok(IqFormat::Float32)
    } else {
        Err(String::from_str("unknown IQ format; use int8, int16 or float32"))
    }
}

/// Parses a compression option: `none`/`no`/`off` or `lz4`, any letter
/// case.
pub fn parse_compression(s: &str) -> (r: Result<Compression, String>)
    ensures
        r is Ok <==> spec_parse_compression(s.spec_bytes()) is Some,
        r matches Ok(c) ==> spec_parse_compression(s.spec_bytes()) == Some(c),
{
    let lowered = lower_vec(s.as_bytes());
    let l = lowered.as_slice();
    let kw_none: [u8; 4] = [110, 111, 110, 101];
    let kw_no: [u8; 2] = [110, 111];
    let kw_off: [u8; 3] = [111, 102, 102];
    let kw_lz4: [u8; 3] = [108, 122, 52];
    proof {
        assert(kw_none@ =~= seq![110u8, 111u8, 110u8, 101u8]);
        assert(kw_no@ =~= seq![110u8, 111u8]);
        assert(kw_off@ =~= seq![111u8, 102u8, 102u8]);
        assert(kw_lz4@ =~= seq![108u8, 122u8, 52u8]);
    }
    if lowered_is(l, kw_none.as_slice()) || lowered_is(l, kw_no.as_slice()) || lowered_is(
        l,
        kw_off.as_slice(),
    ) {
        Ok(Compression::Uncompressed)
    } else if lowered_is(l, kw_lz4.as_slice()) {
        Ok(Compression::Lz4)
    } else {
        Err(String::from_str("unknown compression; use none or lz4"))
    }
}

/// Parses a device option: `sim`/`simulated`, `hackrf`/`hackrf_one`,
/// `pluto`/`plutosdr`/`adalm-pluto`, any letter case.
pub fn parse_device_kind(s: &str) -> (r: Result<DeviceKind, String>)
    ensures
        r is Ok <==> spec_parse_device_kind(s.spec_bytes()) is Some,
        r matches Ok(d) ==> spec_parse_device_kind(s.spec_bytes()) == Some(d),
{
    let lowered = lower_vec(s.as_bytes());
    let l = lowered.as_slice();
    let kw_sim: [u8; 3] = [115, 105, 109];
    let kw_simulated: [u8; 9] = [115, 105, 109, 117, 108, 97, 116, 101, 100];
    let kw_hackrf: [u8; 6] = [104, 97, 99, 107, 114, 102];
    let kw_hackrf_one: [u8; 10] = [104, 97, 99, 107, 114, 102, 95, 111, 110, 101];
    let kw_pluto: [u8; 5] = [112, 108, 117, 116, 111];
    let kw_plutosdr: [u8; 8] = [112, 108, 117, 116, 111, 115, 100, 114];
    let kw_adalm: [u8; 11] = [97, 100, 97, 108, 109, 45, 112, 108, 117, 116, 111];
    proof {
        assert(kw_sim@ =~= seq![115u8, 105u8, 109u8]);
        assert(kw_simulated@ =~= seq![
            115u8,
            105u8,
            109u8,
            117u8,
            108u8,
            97u8,
            116u8,
            101u8,
            100u8,
        ]);
        assert(kw_hackrf@ =~= seq![104u8, 97u8, 99u8, 107u8, 114u8, 102u8]);
        assert(kw_hackrf_one@ =~= seq![
            104u8,
            97u8,
            99u8,
            107u8,
            114u8,
            102u8,
            95u8,
            111u8,
            110u8,
            101u8,
        ]);
        assert(kw_pluto@ =~= seq![112u8, 108u8, 117u8, 116u8, 111u8]);
        assert(kw_plutosdr@ =~= seq![112u8, 108u8, 117u8, 116u8, 111u8, 115u8, 100u8, 114u8]);
        assert(kw_adalm@ =~= seq![
            97u8,
            100u8,
            97u8,
            108u8,
            109u8,
            45u8,
            112u8,
            108u8,
            117u8,
            116u8,
            111u8,
        ]);
    }
    if lowered_is(l, kw_sim.as_slice()) || lowered_is(l, kw_simulated.as_slice()) {
        Ok(DeviceKind::Simulated)
    } else if lowered_is(l, kw_hackrf.as_slice()) || lowered_is(l, kw_hackrf_one.as_slice()) {
        Ok(DeviceKind::HackRf)
    } else if lowered_is(l, kw_pluto.as_slice()) || lowered_is(l, kw_plutosdr.as_slice())
        || lowered_is(l, kw_adalm.as_slice()) {
        Ok(DeviceKind::PlutoSdr)
    } else {
        Err(String::from_str("unknown device; use sim, hackrf or pluto"))
    }
}

impl DeviceKind {
    /// The option keyword naming this device kind.
    pub fn as_str(&self) -> (r: &'static str)
        ensures
            *self is Simulated ==> r@ == "sim"@,
            *self is HackRf ==> r@ == "hackrf"@,
            *self is PlutoSdr ==> r@ == "pluto"@,
    {
        match self {
            DeviceKind::Simulated => "sim",
            DeviceKind::HackRf => "hackrf",
            DeviceKind::PlutoSdr => "pluto",
        }
    }
}

impl core::str::FromStr for DeviceKind {
    type Err = String;

    fn from_str(s: &str) -> Result<Self, Self::Err> {
        parse_device_kind(s)
    }
}

/// A digit string is worth at least any of its prefixes: appending digits
/// never shrinks the value.
proof fn lemma_digits_prefix_monotone(s: Seq<u8>, i: int)
    requires
        0 <= i <= s.len(),
        all_digits(s),
    ensures
        digits_val(s) >= digits_val(s.subrange(0, i)),
    decreases s.len() - i,
{
    if i < s.len() {
        lemma_digits_prefix_monotone(s, i + 1);
        assert(s.subrange(0, i + 1).drop_last() =~= s.subrange(0, i));
        assert(digits_val(s.subrange(0, i + 1)) == digits_val(s.subrange(0, i)) * 10 + (s[i]
            - 48));
        lemma_digits_val_bound(s.subrange(0, i));
        assert(digits_val(s.subrange(0, i)) * 10 >= digits_val(s.subrange(0, i)))
            by (nonlinear_arith)
            requires
                digits_val(s.subrange(0, i)) >= 0,
        ;
    } else {
        assert(s.subrange(0, i) =~= s);
    }
}

} // verus!
