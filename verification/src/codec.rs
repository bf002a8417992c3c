//! Byte-level big-endian codec.
//!
//! Every multi-byte value on the wire is big-endian.  This module gives
//! the specification of those byte layouts (`be2`, `be4`, `be8` and the
//! matching `*_of_be` readers), executable writers that append to a
//! growing buffer, executable readers that consume from a slice through a
//! cursor, and the round-trip lemmas the typed layer builds on.

use vstd::prelude::*;

use crate::error::LcmError;

verus! {

/// The two big-endian bytes of a 16-bit value.
pub open spec fn be2(x: u16) -> Seq<u8> {
    seq![(x >> 8) as u8, x as u8]
}

/// The four big-endian bytes of a 32-bit value.
pub open spec fn be4(x: u32) -> Seq<u8> {
    seq![(x >> 24) as u8, (x >> 16) as u8, (x >> 8) as u8, x as u8]
}

/// The eight big-endian bytes of a 64-bit value.
pub open spec fn be8(x: u64) -> Seq<u8> {
    seq![
        (x >> 56) as u8,
        (x >> 48) as u8,
        (x >> 40) as u8,
        (x >> 32) as u8,
        (x >> 24) as u8,
        (x >> 16) as u8,
        (x >> 8) as u8,
        x as u8,
    ]
}

/// The 16-bit value read big-endian from the first two bytes of `s`.
pub open spec fn u16_of_be(s: Seq<u8>) -> u16
    recommends
        s.len() == 2,
{
    (((s[0] as u16) << 8) | (s[1] as u16))
}

/// The 32-bit value read big-endian from the first four bytes of `s`.
pub open spec fn u32_of_be(s: Seq<u8>) -> u32
    recommends
        s.len() == 4,
{
    (((s[0] as u32) << 24) | ((s[1] as u32) << 16) | ((s[2] as u32) << 8) | (s[3] as u32))
}

/// The 64-bit value read big-endian from the first eight bytes of `s`.
pub open spec fn u64_of_be(s: Seq<u8>) -> u64
    recommends
        s.len() == 8,
{
    (((s[0] as u64) << 56) | ((s[1] as u64) << 48) | ((s[2] as u64) << 40) | ((s[3] as u64)
        << 32) | ((s[4] as u64) << 24) | ((s[5] as u64) << 16) | ((s[6] as u64) << 8) | (s[7]
        as u64))
}

/// Reading back the two big-endian bytes of `x` yields `x`.
pub proof fn lemma_be2_round(x: u16)
    ensures
        u16_of_be(be2(x)) == x,
{
    let b0 = (x >> 8) as u8;
    let b1 = x as u8;
    assert((((b0 as u16) << 8) | (b1 as u16)) == x) by (bit_vector)
        requires
            b0 == (x >> 8) as u8,
            b1 == x as u8,
    ;
}

/// Reading back the four big-endian bytes of `x` yields `x`.
pub proof fn lemma_be4_round(x: u32)
    ensures
        u32_of_be(be4(x)) == x,
{
    let b0 = (x >> 24) as u8;
    let b1 = (x >> 16) as u8;
    let b2 = (x >> 8) as u8;
    let b3 = x as u8;
    assert((((b0 as u32) << 24) | ((b1 as u32) << 16) | ((b2 as u32) << 8) | (b3 as u32))
        == x) by (bit_vector)
        requires
            b0 == (x >> 24) as u8,
            b1 == (x >> 16) as u8,
            b2 == (x >> 8) as u8,
            b3 == x as u8,
    ;
}

/// Reading back the eight big-endian bytes of `x` yields `x`.
pub proof fn lemma_be8_round(x: u64)
    ensures
        u64_of_be(be8(x)) == x,
{
    let b0 = (x >> 56) as u8;
    let b1 = (x >> 48) as u8;
    let b2 = (x >> 40) as u8;
    let b3 = (x >> 32) as u8;
    let b4 = (x >> 24) as u8;
    let b5 = (x >> 16) as u8;
    let b6 = (x >> 8) as u8;
    let b7 = x as u8;
    assert((((b0 as u64) << 56) | ((b1 as u64) << 48) | ((b2 as u64) << 40) | ((b3 as u64)
        << 32) | ((b4 as u64) << 24) | ((b5 as u64) << 16) | ((b6 as u64) << 8) | (b7 as u64))
        == x) by (bit_vector)
        requires
            b0 == (x >> 56) as u8,
            b1 == (x >> 48) as u8,
            b2 == (x >> 40) as u8,
            b3 == (x >> 32) as u8,
            b4 == (x >> 24) as u8,
            b5 == (x >> 16) as u8,
            b6 == (x >> 8) as u8,
            b7 == x as u8,
    ;
}

/// Writing the 16-bit value read from two bytes yields those bytes.
pub proof fn lemma_be2_exact(s: Seq<u8>)
    requires
        s.len() == 2,
    ensures
        be2(u16_of_be(s)) == s,
{
    let x = u16_of_be(s);
    let b0 = s[0];
    let b1 = s[1];
    assert((x >> 8) as u8 == b0 && x as u8 == b1) by (bit_vector)
        requires
            x == (((b0 as u16) << 8) | (b1 as u16)),
    ;
    assert(be2(x) =~= s);
}

/// Writing the 32-bit value read from four bytes yields those bytes.
pub proof fn lemma_be4_exact(s: Seq<u8>)
    requires
        s.len() == 4,
    ensures
        be4(u32_of_be(s)) == s,
{
    let x = u32_of_be(s);
    let b0 = s[0];
    let b1 = s[1];
    let b2 = s[2];
    let b3 = s[3];
    assert((x >> 24) as u8 == b0 && (x >> 16) as u8 == b1 && (x >> 8) as u8 == b2 && x as u8
        == b3) by (bit_vector)
        requires
            x == (((b0 as u32) << 24) | ((b1 as u32) << 16) | ((b2 as u32) << 8) | (b3 as u32)),
    ;
    assert(be4(x) =~= s);
}

/// Writing the 64-bit value read from eight bytes yields those bytes.
pub proof fn lemma_be8_exact(s: Seq<u8>)
    requires
        s.len() == 8,
    ensures
        be8(u64_of_be(s)) == s,
{
    let x = u64_of_be(s);
    let b0 = s[0];
    let b1 = s[1];
    let b2 = s[2];
    let b3 = s[3];
    let b4 = s[4];
    let b5 = s[5];
    let b6 = s[6];
    let b7 = s[7];
    assert((x >> 56) as u8 == b0 && (x >> 48) as u8 == b1 && (x >> 40) as u8 == b2 && (x >> 32)
        as u8 == b3 && (x >> 24) as u8 == b4 && (x >> 16) as u8 == b5 && (x >> 8) as u8 == b6
        && x as u8 == b7) by (bit_vector)
        requires
            x == (((b0 as u64) << 56) | ((b1 as u64) << 48) | ((b2 as u64) << 40) | ((b3
                as u64) << 32) | ((b4 as u64) << 24) | ((b5 as u64) << 16) | ((b6 as u64) << 8)
                | (b7 as u64)),
    ;
    assert(be8(x) =~= s);
}

/// Appends the two big-endian bytes of `x` to `buf`.
pub fn write_u16_be(x: u16, buf: &mut Vec<u8>)
    ensures
        final(buf)@ == old(buf)@ + be2(x),
{
    buf.push((x >> 8) as u8);
    buf.push(x as u8);
    assert(final(buf)@ =~= old(buf)@ + be2(x));
}

/// Appends the four big-endian bytes of `x` to `buf`.
pub fn write_u32_be(x: u32, buf: &mut Vec<u8>)
    ensures
        final(buf)@ == old(buf)@ + be4(x),
{
    buf.push((x >> 24) as u8);
    buf.push((x >> 16) as u8);
    buf.push((x >> 8) as u8);
    buf.push(x as u8);
    assert(final(buf)@ =~= old(buf)@ + be4(x));
}

/// Appends the eight big-endian bytes of `x` to `buf`.
pub fn write_u64_be(x: u64, buf: &mut Vec<u8>)
    ensures
        final(buf)@ == old(buf)@ + be8(x),
{
    buf.push((x >> 56) as u8);
    buf.push((x >> 48) as u8);
    buf.push((x >> 40) as u8);
    buf.push((x >> 32) as u8);
    buf.push((x >> 24) as u8);
    buf.push((x >> 16) as u8);
    buf.push((x >> 8) as u8);
    buf.push(x as u8);
    assert(final(buf)@ =~= old(buf)@ + be8(x));
}

/// Reads one byte at the cursor; fails with `Truncated` when none is left.
pub fn read_u8(buf: &[u8], pos: &mut usize) -> (r: Result<u8, LcmError>)
    requires
        *old(pos) <= buf@.len(),
    ensures
        *old(pos) + 1 <= buf@.len() ==> r == Ok::<u8, LcmError>(buf@[*old(pos) as int])
            && *final(pos) == *old(pos) + 1,
        *old(pos) + 1 > buf@.len() ==> r == Err::<u8, LcmError>(LcmError::Truncated)
            && *final(pos) == *old(pos),
{
    if buf.len() - *pos >= 1 {
        let b = buf[*pos];
        *pos = *pos + 1;
        Ok(b)
    } else {
        Err(LcmError::Truncated)
    }
}

/// Reads two big-endian bytes at the cursor; fails with `Truncated` when
/// fewer are left.
pub fn read_u16_be(buf: &[u8], pos: &mut usize) -> (r: Result<u16, LcmError>)
    requires
        *old(pos) <= buf@.len(),
    ensures
        *old(pos) + 2 <= buf@.len() ==> r == Ok::<u16, LcmError>(u16_of_be(
            buf@.subrange(*old(pos) as int, *old(pos) + 2),
        )) && *final(pos) == *old(pos) + 2,
        *old(pos) + 2 > buf@.len() ==> r == Err::<u16, LcmError>(LcmError::Truncated)
            && *final(pos) == *old(pos),
{
    if buf.len() - *pos >= 2 {
        let b0 = buf[*pos];
        let b1 = buf[*pos + 1];
        *pos = *pos + 2;
        Ok(((b0 as u16) << 8) | (b1 as u16))
    } else {
        Err(LcmError::Truncated)
    }
}

/// Reads four big-endian bytes at the cursor; fails with `Truncated` when
/// fewer are left.
pub fn read_u32_be(buf: &[u8], pos: &mut usize) -> (r: Result<u32, LcmError>)
    requires
        *old(pos) <= buf@.len(),
    ensures
        *old(pos) + 4 <= buf@.len() ==> r == Ok::<u32, LcmError>(u32_of_be(
            buf@.subrange(*old(pos) as int, *old(pos) + 4),
        )) && *final(pos) == *old(pos) + 4,
        *old(pos) + 4 > buf@.len() ==> r == Err::<u32, LcmError>(LcmError::Truncated)
            && *final(pos) == *old(pos),
{
    if buf.len() - *pos >= 4 {
        let b0 = buf[*pos];
        let b1 = buf[*pos + 1];
        let b2 = buf[*pos + 2];
        let b3 = buf[*pos + 3];
        *pos = *pos + 4;
        Ok(((b0 as u32) << 24) | ((b1 as u32) << 16) | ((b2 as u32) << 8) | (b3 as u32))
    } else {
        Err(LcmError::Truncated)
    }
}

/// Reads eight big-endian bytes at the cursor; fails with `Truncated` when
/// fewer are left.
pub fn read_u64_be(buf: &[u8], pos: &mut usize) -> (r: Result<u64, LcmError>)
    requires
        *old(pos) <= buf@.len(),
    ensures
        *old(pos) + 8 <= buf@.len() ==> r == Ok::<u64, LcmError>(u64_of_be(
            buf@.subrange(*old(pos) as int, *old(pos) + 8),
        )) && *final(pos) == *old(pos) + 8,
        *old(pos) + 8 > buf@.len() ==> r == Err::<u64, LcmError>(LcmError::Truncated)
            && *final(pos) == *old(pos),
{
    if buf.len() - *pos >= 8 {
        let b0 = buf[*pos];
        let b1 = buf[*pos + 1];
        let b2 = buf[*pos + 2];
        let b3 = buf[*pos + 3];
        let b4 = buf[*pos + 4];
        let b5 = buf[*pos + 5];
        let b6 = buf[*pos + 6];
        let b7 = buf[*pos + 7];
        *pos = *pos + 8;
        Ok(((b0 as u64) << 56) | ((b1 as u64) << 48) | ((b2 as u64) << 40) | ((b3 as u64)
            << 32) | ((b4 as u64) << 24) | ((b5 as u64) << 16) | ((b6 as u64) << 8) | (b7
            as u64))
    } else {
        Err(LcmError::Truncated)
    }
}

} // verus!
