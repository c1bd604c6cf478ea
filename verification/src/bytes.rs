//! Byte-order codecs for the multi-byte integers of the container format.
//!
//! The header stores its integers in the byte order selected by the header's
//! flag byte, while every checksum and the whole wire protocol are fixed
//! big-endian. Both orders are defined here as spec functions over byte
//! sequences, with verified executable readers and writers and round-trip
//! lemmas.

use vstd::prelude::*;

verus! {

/// Big-endian bytes of a 16-bit integer.
pub open spec fn u16_be_bytes(x: u16) -> Seq<u8> {
    seq![((x >> 8) & 0xff) as u8, (x & 0xff) as u8]
}

/// The 16-bit integer read from two big-endian bytes.
pub open spec fn u16_from_be(s: Seq<u8>) -> u16
    recommends
        s.len() == 2,
{
    (((s[0] as u16) << 8) | (s[1] as u16)) as u16
}

/// Big-endian bytes of a 32-bit integer.
pub open spec fn u32_be_bytes(x: u32) -> Seq<u8> {
    seq![
        ((x >> 24) & 0xff) as u8,
        ((x >> 16) & 0xff) as u8,
        ((x >> 8) & 0xff) as u8,
        (x & 0xff) as u8,
    ]
}

/// The 32-bit integer read from four big-endian bytes.
pub open spec fn u32_from_be(s: Seq<u8>) -> u32
    recommends
        s.len() == 4,
{
    (((s[0] as u32) << 24) | ((s[1] as u32) << 16) | ((s[2] as u32) << 8) | (s[3] as u32)) as u32
}

/// Little-endian bytes of a 32-bit integer.
pub open spec fn u32_le_bytes(x: u32) -> Seq<u8> {
    u32_be_bytes(x).reverse()
}

/// The 32-bit integer read from four little-endian bytes.
pub open spec fn u32_from_le(s: Seq<u8>) -> u32
    recommends
        s.len() == 4,
{
    u32_from_be(s.reverse())
}

/// Big-endian bytes of a 64-bit integer.
pub open spec fn u64_be_bytes(x: u64) -> Seq<u8> {
    seq![
        ((x >> 56) & 0xff) as u8,
        ((x >> 48) & 0xff) as u8,
        ((x >> 40) & 0xff) as u8,
        ((x >> 32) & 0xff) as u8,
        ((x >> 24) & 0xff) as u8,
        ((x >> 16) & 0xff) as u8,
        ((x >> 8) & 0xff) as u8,
        (x & 0xff) as u8,
    ]
}

/// The 64-bit integer read from eight big-endian bytes.
pub open spec fn u64_from_be(s: Seq<u8>) -> u64
    recommends
        s.len() == 8,
{
    (((s[0] as u64) << 56) | ((s[1] as u64) << 48) | ((s[2] as u64) << 40) | ((s[3] as u64) << 32)
        | ((s[4] as u64) << 24) | ((s[5] as u64) << 16) | ((s[6] as u64) << 8) | (
    s[7] as u64)) as u64
}

/// Little-endian bytes of a 64-bit integer.
pub open spec fn u64_le_bytes(x: u64) -> Seq<u8> {
    u64_be_bytes(x).reverse()
}

/// The 64-bit integer read from eight little-endian bytes.
pub open spec fn u64_from_le(s: Seq<u8>) -> u64
    recommends
        s.len() == 8,
{
    u64_from_be(s.reverse())
}

/// Bytes of a 32-bit integer in the order selected by `is_le`.
pub open spec fn u32_bytes_endian(x: u32, is_le: bool) -> Seq<u8> {
    if is_le {
        u32_le_bytes(x)
    } else {
        u32_be_bytes(x)
    }
}

/// The 32-bit integer read from four bytes in the order selected by `is_le`.
pub open spec fn u32_from_endian(s: Seq<u8>, is_le: bool) -> u32
    recommends
        s.len() == 4,
{
    if is_le {
        u32_from_le(s)
    } else {
        u32_from_be(s)
    }
}

/// Bytes of a 64-bit integer in the order selected by `is_le`.
pub open spec fn u64_bytes_endian(x: u64, is_le: bool) -> Seq<u8> {
    if is_le {
        u64_le_bytes(x)
    } else {
        u64_be_bytes(x)
    }
}

/// The 64-bit integer read from eight bytes in the order selected by `is_le`.
pub open spec fn u64_from_endian(s: Seq<u8>, is_le: bool) -> u64
    recommends
        s.len() == 8,
{
    if is_le {
        u64_from_le(s)
    } else {
        u64_from_be(s)
    }
}

/// Reading back the two big-endian bytes of a 16-bit integer yields the
/// integer, and writing back the integer read from two bytes yields the bytes.
pub proof fn lemma_u16_be_round_trip(x: u16, s: Seq<u8>)
    requires
        s.len() == 2,
    ensures
        u16_be_bytes(x).len() == 2,
        u16_from_be(u16_be_bytes(x)) == x,
        u16_be_bytes(u16_from_be(s)) == s,
{
    assert(((((x >> 8) & 0xff) as u8) as u16) == ((x >> 8) & 0xff)
        && (((x & 0xff) as u8) as u16) == (x & 0xff)) by (bit_vector);
    assert(((((x >> 8) & 0xff) as u16) << 8) | ((x & 0xff) as u16) == x) by (bit_vector);
    let b0 = s[0];
    let b1 = s[1];
    let y = (((b0 as u16) << 8) | (b1 as u16)) as u16;
    assert(((y >> 8) & 0xff) == b0 && (y & 0xff) == b1) by (bit_vector)
        requires
            y == (((b0 as u16) << 8) | (b1 as u16)) as u16,
    ;
    assert(u16_be_bytes(u16_from_be(s)) =~= s);
}

/// As `lemma_u16_be_round_trip`, for 32-bit integers.
pub proof fn lemma_u32_be_round_trip(x: u32, s: Seq<u8>)
    requires
        s.len() == 4,
    ensures
        u32_be_bytes(x).len() == 4,
        u32_from_be(u32_be_bytes(x)) == x,
        u32_be_bytes(u32_from_be(s)) == s,
{
    assert(((((x >> 24) & 0xff) as u8) as u32) == ((x >> 24) & 0xff)
        && ((((x >> 16) & 0xff) as u8) as u32) == ((x >> 16) & 0xff)
        && ((((x >> 8) & 0xff) as u8) as u32) == ((x >> 8) & 0xff)
        && (((x & 0xff) as u8) as u32) == (x & 0xff)) by (bit_vector);
    assert(((((x >> 24) & 0xff) as u32) << 24) | ((((x >> 16) & 0xff) as u32) << 16)
        | ((((x >> 8) & 0xff) as u32) << 8) | ((x & 0xff) as u32) == x) by (bit_vector);
    let b0 = s[0];
    let b1 = s[1];
    let b2 = s[2];
    let b3 = s[3];
    let y = (((b0 as u32) << 24) | ((b1 as u32) << 16) | ((b2 as u32) << 8) | (b3 as u32)) as u32;
    assert(((y >> 24) & 0xff) == b0 && ((y >> 16) & 0xff) == b1 && ((y >> 8) & 0xff) == b2 && (y
        & 0xff) == b3) by (bit_vector)
        requires
            y == (((b0 as u32) << 24) | ((b1 as u32) << 16) | ((b2 as u32) << 8) | (
            b3 as u32)) as u32,
    ;
    assert(u32_be_bytes(u32_from_be(s)) =~= s);
}

/// As `lemma_u16_be_round_trip`, for 64-bit integers.
pub proof fn lemma_u64_be_round_trip(x: u64, s: Seq<u8>)
    requires
        s.len() == 8,
    ensures
        u64_be_bytes(x).len() == 8,
        u64_from_be(u64_be_bytes(x)) == x,
        u64_be_bytes(u64_from_be(s)) == s,
{
    assert(((((x >> 56) & 0xff) as u8) as u64) == ((x >> 56) & 0xff)
        && ((((x >> 48) & 0xff) as u8) as u64) == ((x >> 48) & 0xff)
        && ((((x >> 40) & 0xff) as u8) as u64) == ((x >> 40) & 0xff)
        && ((((x >> 32) & 0xff) as u8) as u64) == ((x >> 32) & 0xff)
        && ((((x >> 24) & 0xff) as u8) as u64) == ((x >> 24) & 0xff)
        && ((((x >> 16) & 0xff) as u8) as u64) == ((x >> 16) & 0xff)
        && ((((x >> 8) & 0xff) as u8) as u64) == ((x >> 8) & 0xff)
        && (((x & 0xff) as u8) as u64) == (x & 0xff)) by (bit_vector);
    assert(((((x >> 56) & 0xff) as u64) << 56) | ((((x >> 48) & 0xff) as u64) << 48)
        | ((((x >> 40) & 0xff) as u64) << 40) | ((((x >> 32) & 0xff) as u64) << 32)
        | ((((x >> 24) & 0xff) as u64) << 24) | ((((x >> 16) & 0xff) as u64) << 16)
        | ((((x >> 8) & 0xff) as u64) << 8) | ((x & 0xff) as u64) == x) by (bit_vector);
    let b0 = s[0];
    let b1 = s[1];
    let b2 = s[2];
    let b3 = s[3];
    let b4 = s[4];
    let b5 = s[5];
    let b6 = s[6];
    let b7 = s[7];
    let y = (((b0 as u64) << 56) | ((b1 as u64) << 48) | ((b2 as u64) << 40) | ((b3 as u64) << 32)
        | ((b4 as u64) << 24) | ((b5 as u64) << 16) | ((b6 as u64) << 8) | (b7 as u64)) as u64;
    assert(((y >> 56) & 0xff) == b0 && ((y >> 48) & 0xff) == b1 && ((y >> 40) & 0xff) == b2 && ((y
        >> 32) & 0xff) == b3 && ((y >> 24) & 0xff) == b4 && ((y >> 16) & 0xff) == b5 && ((y >> 8)
        & 0xff) == b6 && (y & 0xff) == b7) by (bit_vector)
        requires
            y == (((b0 as u64) << 56) | ((b1 as u64) << 48) | ((b2 as u64) << 40) | ((b3 as u64)
                << 32) | ((b4 as u64) << 24) | ((b5 as u64) << 16) | ((b6 as u64) << 8) | (
            b7 as u64)) as u64,
    ;
    assert(u64_be_bytes(u64_from_be(s)) =~= s);
}

/// Round trip in either byte order, 32 bits.
pub proof fn lemma_u32_endian_round_trip(x: u32, is_le: bool)
    ensures
        u32_bytes_endian(x, is_le).len() == 4,
        u32_from_endian(u32_bytes_endian(x, is_le), is_le) == x,
{
    lemma_u32_be_round_trip(x, seq![0u8, 0u8, 0u8, 0u8]);
    if is_le {
        assert(u32_be_bytes(x).reverse().reverse() =~= u32_be_bytes(x));
    }
}

/// Round trip in either byte order, 64 bits.
pub proof fn lemma_u64_endian_round_trip(x: u64, is_le: bool)
    ensures
        u64_bytes_endian(x, is_le).len() == 8,
        u64_from_endian(u64_bytes_endian(x, is_le), is_le) == x,
{
    lemma_u64_be_round_trip(x, seq![0u8, 0u8, 0u8, 0u8, 0u8, 0u8, 0u8, 0u8]);
    if is_le {
        assert(u64_be_bytes(x).reverse().reverse() =~= u64_be_bytes(x));
    }
}

/// Two four-byte big-endian strings decoding to the same integer are equal.
pub proof fn lemma_u32_from_be_injective(s1: Seq<u8>, s2: Seq<u8>)
    requires
        s1.len() == 4,
        s2.len() == 4,
        u32_from_be(s1) == u32_from_be(s2),
    ensures
        s1 == s2,
{
    lemma_u32_be_round_trip(0, s1);
    lemma_u32_be_round_trip(0, s2);
    assert(s1 =~= s2);
}

/// Appends the two big-endian bytes of `x`.
pub fn push_u16_be(buf: &mut Vec<u8>, x: u16)
    ensures
        final(buf)@ == old(buf)@ + u16_be_bytes(x),
{
    buf.push(((x >> 8) & 0xff) as u8);
    buf.push((x & 0xff) as u8);
    assert(final(buf)@ =~= old(buf)@ + u16_be_bytes(x));
}

/// Appends the four big-endian bytes of `x`.
pub fn push_u32_be(buf: &mut Vec<u8>, x: u32)
    ensures
        final(buf)@ == old(buf)@ + u32_be_bytes(x),
{
    buf.push(((x >> 24) & 0xff) as u8);
    buf.push(((x >> 16) & 0xff) as u8);
    buf.push(((x >> 8) & 0xff) as u8);
    buf.push((x & 0xff) as u8);
    assert(final(buf)@ =~= old(buf)@ + u32_be_bytes(x));
}

/// Appends the eight big-endian bytes of `x`.
pub fn push_u64_be(buf: &mut Vec<u8>, x: u64)
    ensures
        final(buf)@ == old(buf)@ + u64_be_bytes(x),
{
    buf.push(((x >> 56) & 0xff) as u8);
    buf.push(((x >> 48) & 0xff) as u8);
    buf.push(((x >> 40) & 0xff) as u8);
    buf.push(((x >> 32) & 0xff) as u8);
    buf.push(((x >> 24) & 0xff) as u8);
    buf.push(((x >> 16) & 0xff) as u8);
    buf.push(((x >> 8) & 0xff) as u8);
    buf.push((x & 0xff) as u8);
    assert(final(buf)@ =~= old(buf)@ + u64_be_bytes(x));
}

/// Appends the four bytes of `x` in the order selected by `is_le`.
pub fn push_u32_endian(buf: &mut Vec<u8>, x: u32, is_le: bool)
    ensures
        final(buf)@ == old(buf)@ + u32_bytes_endian(x, is_le),
{
    if is_le {
        buf.push((x & 0xff) as u8);
        buf.push(((x >> 8) & 0xff) as u8);
        buf.push(((x >> 16) & 0xff) as u8);
        buf.push(((x >> 24) & 0xff) as u8);
        assert(final(buf)@ =~= old(buf)@ + u32_be_bytes(x).reverse());
    } else {
        push_u32_be(buf, x);
    }
}

/// Appends the eight bytes of `x` in the order selected by `is_le`.
pub fn push_u64_endian(buf: &mut Vec<u8>, x: u64, is_le: bool)
    ensures
        final(buf)@ == old(buf)@ + u64_bytes_endian(x, is_le),
{
    if is_le {
        buf.push((x & 0xff) as u8);
        buf.push(((x >> 8) & 0xff) as u8);
        buf.push(((x >> 16) & 0xff) as u8);
        buf.push(((x >> 24) & 0xff) as u8);
        buf.push(((x >> 32) & 0xff) as u8);
        buf.push(((x >> 40) & 0xff) as u8);
        buf.push(((x >> 48) & 0xff) as u8);
        buf.push(((x >> 56) & 0xff) as u8);
        assert(final(buf)@ =~= old(buf)@ + u64_be_bytes(x).reverse());
    } else {
        push_u64_be(buf, x);
    }
}

/// Reads the big-endian 16-bit integer at `off`.
pub fn read_u16_be(buf: &[u8], off: usize) -> (r: u16)
    requires
        off + 2 <= buf@.len(),
    ensures
        r == u16_from_be(buf@.subrange(off as int, off + 2)),
{
    let r = ((buf[off] as u16) << 8) | (buf[off + 1] as u16);
    proof {
        let s = buf@.subrange(off as int, off + 2);
        assert(s[0] == buf@[off as int] && s[1] == buf@[off + 1]);
    }
    r
}

/// Reads the big-endian 32-bit integer at `off`.
pub fn read_u32_be(buf: &[u8], off: usize) -> (r: u32)
    requires
        off + 4 <= buf@.len(),
    ensures
        r == u32_from_be(buf@.subrange(off as int, off + 4)),
{
    let r = ((buf[off] as u32) << 24) | ((buf[off + 1] as u32) << 16) | ((buf[off + 2] as u32)
        << 8) | (buf[off + 3] as u32);
    proof {
        let s = buf@.subrange(off as int, off + 4);
        assert(s[0] == buf@[off as int] && s[1] == buf@[off + 1] && s[2] == buf@[off + 2] && s[3]
            == buf@[off + 3]);
    }
    r
}

/// Reads the big-endian 64-bit integer at `off`.
pub fn read_u64_be(buf: &[u8], off: usize) -> (r: u64)
    requires
        off + 8 <= buf@.len(),
    ensures
        r == u64_from_be(buf@.subrange(off as int, off + 8)),
{
    let r = ((buf[off] as u64) << 56) | ((buf[off + 1] as u64) << 48) | ((buf[off + 2] as u64)
        << 40) | ((buf[off + 3] as u64) << 32) | ((buf[off + 4] as u64) << 24) | ((buf[off
        + 5] as u64) << 16) | ((buf[off + 6] as u64) << 8) | (buf[off + 7] as u64);
    proof {
        let s = buf@.subrange(off as int, off + 8);
        assert(s[0] == buf@[off as int] && s[1] == buf@[off + 1] && s[2] == buf@[off + 2] && s[3]
            == buf@[off + 3] && s[4] == buf@[off + 4] && s[5] == buf@[off + 5] && s[6] == buf@[off
            + 6] && s[7] == buf@[off + 7]);
    }
    r
}

/// Reads a 32-bit integer from the header buffer at the cursor, honoring the
/// header's byte-order flag, and advances the cursor past it.
pub fn read_u32_local(buf: &[u8; 128], off: &mut usize, is_le: bool) -> (r: u32)
    requires
        *old(off) + 4 <= 128,
    ensures
        *final(off) == *old(off) + 4,
        r == u32_from_endian(buf@.subrange(*old(off) as int, *old(off) + 4), is_le),
{
    let b0 = buf[*off];
    let b1 = buf[*off + 1];
    let b2 = buf[*off + 2];
    let b3 = buf[*off + 3];
    let r = if is_le {
        ((b3 as u32) << 24) | ((b2 as u32) << 16) | ((b1 as u32) << 8) | (b0 as u32)
    } else {
        ((b0 as u32) << 24) | ((b1 as u32) << 16) | ((b2 as u32) << 8) | (b3 as u32)
    };
    proof {
        let s = buf@.subrange(*old(off) as int, *old(off) + 4);
        assert(s[0] == b0 && s[1] == b1 && s[2] == b2 && s[3] == b3);
        if is_le {
            assert(s.reverse()[0] == b3 && s.reverse()[1] == b2 && s.reverse()[2] == b1
                && s.reverse()[3] == b0);
        }
    }
    *off = *off + 4;
    r
}

/// Reads a 64-bit integer from the header buffer at the cursor, honoring the
/// header's byte-order flag, and advances the cursor past it.
pub fn read_u64_local(buf: &[u8; 128], off: &mut usize, is_le: bool) -> (r: u64)
    requires
        *old(off) + 8 <= 128,
    ensures
        *final(off) == *old(off) + 8,
        r == u64_from_endian(buf@.subrange(*old(off) as int, *old(off) + 8), is_le),
{
    let b0 = buf[*off];
    let b1 = buf[*off + 1];
    let b2 = buf[*off + 2];
    let b3 = buf[*off + 3];
    let b4 = buf[*off + 4];
    let b5 = buf[*off + 5];
    let b6 = buf[*off + 6];
    let b7 = buf[*off + 7];
    let r = if is_le {
        ((b7 as u64) << 56) | ((b6 as u64) << 48) | ((b5 as u64) << 40) | ((b4 as u64) << 32) | ((
        b3 as u64) << 24) | ((b2 as u64) << 16) | ((b1 as u64) << 8) | (b0 as u64)
    } else {
        ((b0 as u64) << 56) | ((b1 as u64) << 48) | ((b2 as u64) << 40) | ((b3 as u64) << 32) | ((
        b4 as u64) << 24) | ((b5 as u64) << 16) | ((b6 as u64) << 8) | (b7 as u64)
    };
    proof {
        let s = buf@.subrange(*old(off) as int, *old(off) + 8);
        assert(s[0] == b0 && s[1] == b1 && s[2] == b2 && s[3] == b3 && s[4] == b4 && s[5] == b5
            && s[6] == b6 && s[7] == b7);
        if is_le {
            assert(s.reverse()[0] == b7 && s.reverse()[1] == b6 && s.reverse()[2] == b5
                && s.reverse()[3] == b4 && s.reverse()[4] == b3 && s.reverse()[5] == b2
                && s.reverse()[6] == b1 && s.reverse()[7] == b0);
        }
    }
    *off = *off + 8;
    r
}

/// Writes the four bytes of `val` into the header buffer at the cursor,
/// honoring the header's byte-order flag, and advances the cursor past them.
pub fn write_u32_local(buf: &mut [u8; 128], off: &mut usize, is_le: bool, val: u32)
    requires
        *old(off) + 4 <= 128,
    ensures
        *final(off) == *old(off) + 4,
        final(buf)@ == old(buf)@.subrange(0, *old(off) as int) + u32_bytes_endian(val, is_le)
            + old(buf)@.subrange(*old(off) + 4, 128),
{
    let b = if is_le {
        [(val & 0xff) as u8, ((val >> 8) & 0xff) as u8, ((val >> 16) & 0xff) as u8, ((val >> 24)
            & 0xff) as u8]
    } else {
        [((val >> 24) & 0xff) as u8, ((val >> 16) & 0xff) as u8, ((val >> 8) & 0xff) as u8, (val
            & 0xff) as u8]
    };
    proof {
        if is_le {
            assert(b@ =~= u32_bytes_endian(val, is_le));
        } else {
            assert(b@ =~= u32_bytes_endian(val, is_le));
        }
    }
    buf[*off] = b[0];
    buf[*off + 1] = b[1];
    buf[*off + 2] = b[2];
    buf[*off + 3] = b[3];
    assert(final(buf)@ =~= old(buf)@.subrange(0, *old(off) as int) + b@ + old(buf)@.subrange(
        *old(off) + 4,
        128,
    ));
    *off = *off + 4;
}

/// Writes the eight bytes of `val` into the header buffer at the cursor,
/// honoring the header's byte-order flag, and advances the cursor past them.
pub fn write_u64_local(buf: &mut [u8; 128], off: &mut usize, is_le: bool, val: u64)
    requires
        *old(off) + 8 <= 128,
    ensures
        *final(off) == *old(off) + 8,
        final(buf)@ == old(buf)@.subrange(0, *old(off) as int) + u64_bytes_endian(val, is_le)
            + old(buf)@.subrange(*old(off) + 8, 128),
{
    let b = if is_le {
        [(val & 0xff) as u8, ((val >> 8) & 0xff) as u8, ((val >> 16) & 0xff) as u8, ((val >> 24)
            & 0xff) as u8, ((val >> 32) & 0xff) as u8, ((val >> 40) & 0xff) as u8, ((val >> 48)
            & 0xff) as u8, ((val >> 56) & 0xff) as u8]
    } else {
        [((val >> 56) & 0xff) as u8, ((val >> 48) & 0xff) as u8, ((val >> 40) & 0xff) as u8, ((val
            >> 32) & 0xff) as u8, ((val >> 24) & 0xff) as u8, ((val >> 16) & 0xff) as u8, ((val
            >> 8) & 0xff) as u8, (val & 0xff) as u8]
    };
    proof {
        if is_le {
            assert(b@ =~= u64_bytes_endian(val, is_le));
        } else {
            assert(b@ =~= u64_bytes_endian(val, is_le));
        }
    }
    buf[*off] = b[0];
    buf[*off + 1] = b[1];
    buf[*off + 2] = b[2];
    buf[*off + 3] = b[3];
    buf[*off + 4] = b[4];
    buf[*off + 5] = b[5];
    buf[*off + 6] = b[6];
    buf[*off + 7] = b[7];
    assert(final(buf)@ =~= old(buf)@.subrange(0, *old(off) as int) + b@ + old(buf)@.subrange(
        *old(off) + 8,
        128,
    ));
    *off = *off + 8;
}

} // verus!
