//! Reading fixed-width integers from bytes.
use vstd::prelude::*;

verus! {

/// The number that `s` encodes with its first byte least significant.
pub open spec fn le_value(s: Seq<u8>) -> nat
    decreases s.len(),
{
    if s.len() == 0 {
        0
    } else {
        (s[0] + 256 * le_value(s.drop_first())) as nat
    }
}

/// The number that `s` encodes with its first byte most significant.
pub open spec fn be_value(s: Seq<u8>) -> nat
    decreases s.len(),
{
    if s.len() == 0 {
        0
    } else {
        (256 * be_value(s.drop_last()) + s.last()) as nat
    }
}

/// The two's complement reading of the unsigned number `v` in a width whose
/// range has `modulus` values.
pub open spec fn signed(v: int, modulus: int) -> int {
    if v >= modulus / 2 {
        v - modulus
    } else {
        v
    }
}

pub open spec fn le2(b: Seq<u8>) -> int {
    b[0] + 256 * b[1]
}

pub open spec fn le4(b: Seq<u8>) -> int {
    b[0] + 256 * b[1] + 65536 * b[2] + 16777216 * b[3]
}

pub open spec fn le8(b: Seq<u8>) -> int {
    b[0] + 256 * b[1] + 65536 * b[2] + 16777216 * b[3] + 4294967296 * b[4] + 1099511627776 * b[5]
        + 281474976710656 * b[6] + 72057594037927936 * b[7]
}

pub proof fn lemma_le2(b: Seq<u8>)
    requires
        b.len() == 2,
    ensures
        le_value(b) == le2(b),
        be_value(b) == le2(b.reverse()),
{
    reveal_with_fuel(le_value, 3);
    reveal_with_fuel(be_value, 3);
    assert(b.drop_first().drop_first() =~= Seq::<u8>::empty());
    assert(b.drop_last().drop_last() =~= Seq::<u8>::empty());
}

pub proof fn lemma_le4(b: Seq<u8>)
    requires
        b.len() == 4,
    ensures
        le_value(b) == le4(b),
        be_value(b) == le4(b.reverse()),
{
    reveal_with_fuel(le_value, 5);
    reveal_with_fuel(be_value, 5);
    assert(b.drop_first().drop_first().drop_first().drop_first() =~= Seq::<u8>::empty());
    assert(b.drop_last().drop_last().drop_last().drop_last() =~= Seq::<u8>::empty());
}

pub proof fn lemma_le8(b: Seq<u8>)
    requires
        b.len() == 8,
    ensures
        le_value(b) == le8(b),
        be_value(b) == le8(b.reverse()),
{
    reveal_with_fuel(le_value, 9);
    reveal_with_fuel(be_value, 9);
    let e = Seq::<u8>::empty();
    assert(b.drop_first().drop_first().drop_first().drop_first().drop_first().drop_first().drop_first().drop_first() =~= e);
    assert(b.drop_last().drop_last().drop_last().drop_last().drop_last().drop_last().drop_last().drop_last() =~= e);
}


/// Reads the first two bytes of `b` as a little-endian number.
pub(crate) fn read_le2(b: &[u8]) -> (r: u16)
    requires
        b@.len() >= 2,
    ensures
        r == le_value(b@.take(2)),
{
    proof { lemma_le2(b@.take(2)); }
    (b[0] as u16) + (b[1] as u16) * 256
}

/// Reads the first two bytes of `b` as a big-endian number.
pub(crate) fn read_be2(b: &[u8]) -> (r: u16)
    requires
        b@.len() >= 2,
    ensures
        r == be_value(b@.take(2)),
{
    proof { lemma_le2(b@.take(2)); }
    (b[1] as u16) + (b[0] as u16) * 256
}

/// Reads the first four bytes of `b` as a little-endian number.
pub(crate) fn read_le4(b: &[u8]) -> (r: u32)
    requires
        b@.len() >= 4,
    ensures
        r == le_value(b@.take(4)),
{
    proof { lemma_le4(b@.take(4)); }
    (b[0] as u32) + (b[1] as u32) * 256 + (b[2] as u32) * 65536 + (b[3] as u32) * 16777216
}

/// Reads the first four bytes of `b` as a big-endian number.
pub(crate) fn read_be4(b: &[u8]) -> (r: u32)
    requires
        b@.len() >= 4,
    ensures
        r == be_value(b@.take(4)),
{
    proof { lemma_le4(b@.take(4)); }
    (b[3] as u32) + (b[2] as u32) * 256 + (b[1] as u32) * 65536 + (b[0] as u32) * 16777216
}

/// Reads the first eight bytes of `b` as a little-endian number.
pub(crate) fn read_le8(b: &[u8]) -> (r: u64)
    requires
        b@.len() >= 8,
    ensures
        r == le_value(b@.take(8)),
{
    proof { lemma_le8(b@.take(8)); }
    (b[0] as u64) + (b[1] as u64) * 256 + (b[2] as u64) * 65536 + (b[3] as u64) * 16777216
        + (b[4] as u64) * 4294967296 + (b[5] as u64) * 1099511627776 + (b[6] as u64)
        * 281474976710656 + (b[7] as u64) * 72057594037927936
}

/// Reads the first eight bytes of `b` as a big-endian number.
pub(crate) fn read_be8(b: &[u8]) -> (r: u64)
    requires
        b@.len() >= 8,
    ensures
        r == be_value(b@.take(8)),
{
    proof { lemma_le8(b@.take(8)); }
    (b[7] as u64) + (b[6] as u64) * 256 + (b[5] as u64) * 65536 + (b[4] as u64) * 16777216
        + (b[3] as u64) * 4294967296 + (b[2] as u64) * 1099511627776 + (b[1] as u64)
        * 281474976710656 + (b[0] as u64) * 72057594037927936
}

/// The two's complement reading of `u`.
pub(crate) fn signed8(u: u8) -> (r: i8)
    ensures
        r == signed(u as int, 0x100),
{
    if u < 0x80 {
        u as i8
    } else {
        ((u - 0x80) as i8) - 0x7f - 1
    }
}

/// The two's complement reading of `u`.
pub(crate) fn signed16(u: u16) -> (r: i16)
    ensures
        r == signed(u as int, 0x1_0000),
{
    if u < 0x8000 {
        u as i16
    } else {
        ((u - 0x8000) as i16) - 0x7fff - 1
    }
}

/// The two's complement reading of `u`.
pub(crate) fn signed32(u: u32) -> (r: i32)
    ensures
        r == signed(u as int, 0x1_0000_0000),
{
    if u < 0x8000_0000 {
        u as i32
    } else {
        ((u - 0x8000_0000) as i32) - 0x7fff_ffff - 1
    }
}

/// The two's complement reading of `u`.
pub(crate) fn signed64(u: u64) -> (r: i64)
    ensures
        r == signed(u as int, 0x1_0000_0000_0000_0000),
{
    if u < 0x8000_0000_0000_0000 {
        u as i64
    } else {
        ((u - 0x8000_0000_0000_0000) as i64) - 0x7fff_ffff_ffff_ffff - 1
    }
}

/// `u16::from_ne_bytes`: the number that the bytes encode in the byte order
/// of the machine, which is either little- or big-endian.
#[verifier::external_body]
pub(crate) fn u16_from_ne_bytes(b: [u8; 2]) -> (r: u16)
    ensures
        r == le_value(b@) || r == be_value(b@),
{
    u16::from_ne_bytes(b)
}

/// `u32::from_ne_bytes`: the number that the bytes encode in the byte order
/// of the machine, which is either little- or big-endian.
#[verifier::external_body]
pub(crate) fn u32_from_ne_bytes(b: [u8; 4]) -> (r: u32)
    ensures
        r == le_value(b@) || r == be_value(b@),
{
    u32::from_ne_bytes(b)
}

/// `u64::from_ne_bytes`: the number that the bytes encode in the byte order
/// of the machine, which is either little- or big-endian.
#[verifier::external_body]
pub(crate) fn u64_from_ne_bytes(b: [u8; 8]) -> (r: u64)
    ensures
        r == le_value(b@) || r == be_value(b@),
{
    u64::from_ne_bytes(b)
}

/// `i16::from_ne_bytes`: the two's complement reading of the number that the
/// bytes encode in the byte order of the machine, either little- or big-endian.
#[verifier::external_body]
pub(crate) fn i16_from_ne_bytes(b: [u8; 2]) -> (r: i16)
    ensures
        r == signed(le_value(b@) as int, 0x1_0000) || r == signed(be_value(b@) as int, 0x1_0000),
{
    i16::from_ne_bytes(b)
}

/// `i32::from_ne_bytes`: the two's complement reading of the number that the
/// bytes encode in the byte order of the machine, either little- or big-endian.
#[verifier::external_body]
pub(crate) fn i32_from_ne_bytes(b: [u8; 4]) -> (r: i32)
    ensures
        r == signed(le_value(b@) as int, 0x1_0000_0000) || r == signed(
            be_value(b@) as int,
            0x1_0000_0000,
        ),
{
    i32::from_ne_bytes(b)
}

/// `i64::from_ne_bytes`: the two's complement reading of the number that the
/// bytes encode in the byte order of the machine, either little- or big-endian.
#[verifier::external_body]
pub(crate) fn i64_from_ne_bytes(b: [u8; 8]) -> (r: i64)
    ensures
        r == signed(le_value(b@) as int, 0x1_0000_0000_0000_0000) || r == signed(
            be_value(b@) as int,
            0x1_0000_0000_0000_0000,
        ),
{
    i64::from_ne_bytes(b)
}

} // verus!
