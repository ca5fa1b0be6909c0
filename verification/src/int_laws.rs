//! What each integer parser reads, stated byte by byte.
use crate::bytes::{lemma_le2, lemma_le4, lemma_le8, signed};
use crate::error::UnexpectedEof;
use crate::ints::{
    I16Be, I16Le, I16Ne, I32Be, I32Le, I32Ne, I64Be, I64Le, I64Ne, I8, U16Be, U16Le, U16Ne, U32Be,
    U32Le, U32Ne, U64Be, U64Le, U64Ne, U8,
};
use crate::parser::Parser;
use vstd::prelude::*;

verus! {

/// `u8()` fails, with `UnexpectedEof`, exactly when the input has fewer than 1
/// byte; otherwise it reads the first byte, and leaves the others.
pub proof fn lemma_u8_reads<'p>(
    p: U8,
    input: Seq<u8>,
    out: Result<(u8, Seq<u8>), UnexpectedEof>,
    after: U8,
)
    requires
        <U8 as Parser<'p>>::parses(&p, input, out, after),
    ensures
        input.len() < 1 ==> out == Err::<(u8, Seq<u8>), UnexpectedEof>(UnexpectedEof),
        input.len() >= 1 ==> (out matches Ok((v, rest)) && v == input[0] && rest =~= input.subrange(1, input.len() as int)),
{
}

/// `u16_le()` fails, with `UnexpectedEof`, exactly when the input has fewer
/// than 2 bytes; otherwise it reads the first 2 bytes, the first least
/// significant, and leaves the others.
pub proof fn lemma_u16_le_reads<'p>(
    p: U16Le,
    input: Seq<u8>,
    out: Result<(u16, Seq<u8>), UnexpectedEof>,
    after: U16Le,
)
    requires
        <U16Le as Parser<'p>>::parses(&p, input, out, after),
    ensures
        input.len() < 2 ==> out == Err::<(u16, Seq<u8>), UnexpectedEof>(UnexpectedEof),
        input.len() >= 2 ==> (out matches Ok((v, rest)) && v == input[0] + 256 * input[1] && rest =~= input.subrange(2, input.len() as int)),
{
    if input.len() >= 2 {
        let b = input.take(2);
        lemma_le2(b);
        assert(b[0] == input[0] && b.reverse()[0] == input[1]);
        assert(b[1] == input[1] && b.reverse()[1] == input[0]);
    }
}

/// `u32_le()` fails, with `UnexpectedEof`, exactly when the input has fewer
/// than 4 bytes; otherwise it reads the first 4 bytes, the first least
/// significant, and leaves the others.
pub proof fn lemma_u32_le_reads<'p>(
    p: U32Le,
    input: Seq<u8>,
    out: Result<(u32, Seq<u8>), UnexpectedEof>,
    after: U32Le,
)
    requires
        <U32Le as Parser<'p>>::parses(&p, input, out, after),
    ensures
        input.len() < 4 ==> out == Err::<(u32, Seq<u8>), UnexpectedEof>(UnexpectedEof),
        input.len() >= 4 ==> (out matches Ok((v, rest)) && v == input[0] + 256 * input[1] + 65536 * input[2] + 16777216 * input[3] && rest =~= input.subrange(4, input.len() as int)),
{
    if input.len() >= 4 {
        let b = input.take(4);
        lemma_le4(b);
        assert(b[0] == input[0] && b.reverse()[0] == input[3]);
        assert(b[1] == input[1] && b.reverse()[1] == input[2]);
        assert(b[2] == input[2] && b.reverse()[2] == input[1]);
        assert(b[3] == input[3] && b.reverse()[3] == input[0]);
    }
}

/// `u64_le()` fails, with `UnexpectedEof`, exactly when the input has fewer
/// than 8 bytes; otherwise it reads the first 8 bytes, the first least
/// significant, and leaves the others.
pub proof fn lemma_u64_le_reads<'p>(
    p: U64Le,
    input: Seq<u8>,
    out: Result<(u64, Seq<u8>), UnexpectedEof>,
    after: U64Le,
)
    requires
        <U64Le as Parser<'p>>::parses(&p, input, out, after),
    ensures
        input.len() < 8 ==> out == Err::<(u64, Seq<u8>), UnexpectedEof>(UnexpectedEof),
        input.len() >= 8 ==> (out matches Ok((v, rest)) && v == input[0] + 256 * input[1] + 65536 * input[2] + 16777216 * input[3] + 4294967296 * input[4] + 1099511627776 * input[5] + 281474976710656 * input[6] + 72057594037927936 * input[7] && rest =~= input.subrange(8, input.len() as int)),
{
    if input.len() >= 8 {
        let b = input.take(8);
        lemma_le8(b);
        assert(b[0] == input[0] && b.reverse()[0] == input[7]);
        assert(b[1] == input[1] && b.reverse()[1] == input[6]);
        assert(b[2] == input[2] && b.reverse()[2] == input[5]);
        assert(b[3] == input[3] && b.reverse()[3] == input[4]);
        assert(b[4] == input[4] && b.reverse()[4] == input[3]);
        assert(b[5] == input[5] && b.reverse()[5] == input[2]);
        assert(b[6] == input[6] && b.reverse()[6] == input[1]);
        assert(b[7] == input[7] && b.reverse()[7] == input[0]);
    }
}

/// `i8()` fails, with `UnexpectedEof`, exactly when the input has fewer than 1
/// byte; otherwise it reads the first byte as a two's complement number, and
/// leaves the others.
pub proof fn lemma_i8_reads<'p>(
    p: I8,
    input: Seq<u8>,
    out: Result<(i8, Seq<u8>), UnexpectedEof>,
    after: I8,
)
    requires
        <I8 as Parser<'p>>::parses(&p, input, out, after),
    ensures
        input.len() < 1 ==> out == Err::<(i8, Seq<u8>), UnexpectedEof>(UnexpectedEof),
        input.len() >= 1 ==> (out matches Ok((v, rest)) && (v as int + 0x100) % 0x100 == input[0] && rest =~= input.subrange(1, input.len() as int)),
{
    if input.len() >= 1 {
        crate::laws::lemma_signed_same_bits(input[0] as int, 0x100);
    }
}

/// `i16_le()` fails, with `UnexpectedEof`, exactly when the input has fewer
/// than 2 bytes; otherwise it reads the first 2 bytes as a two's complement
/// number, the first least significant, and leaves the others.
pub proof fn lemma_i16_le_reads<'p>(
    p: I16Le,
    input: Seq<u8>,
    out: Result<(i16, Seq<u8>), UnexpectedEof>,
    after: I16Le,
)
    requires
        <I16Le as Parser<'p>>::parses(&p, input, out, after),
    ensures
        input.len() < 2 ==> out == Err::<(i16, Seq<u8>), UnexpectedEof>(UnexpectedEof),
        input.len() >= 2 ==> (out matches Ok((v, rest)) && (v as int + 0x1_0000) % 0x1_0000 == input[0] + 256 * input[1] && rest =~= input.subrange(2, input.len() as int)),
{
    if input.len() >= 2 {
        let b = input.take(2);
        lemma_le2(b);
        assert(b[0] == input[0] && b.reverse()[0] == input[1]);
        assert(b[1] == input[1] && b.reverse()[1] == input[0]);
        crate::laws::lemma_signed_same_bits(crate::bytes::le_value(b) as int, 0x1_0000);
        crate::laws::lemma_signed_same_bits(crate::bytes::be_value(b) as int, 0x1_0000);
    }
}

/// `i32_le()` fails, with `UnexpectedEof`, exactly when the input has fewer
/// than 4 bytes; otherwise it reads the first 4 bytes as a two's complement
/// number, the first least significant, and leaves the others.
pub proof fn lemma_i32_le_reads<'p>(
    p: I32Le,
    input: Seq<u8>,
    out: Result<(i32, Seq<u8>), UnexpectedEof>,
    after: I32Le,
)
    requires
        <I32Le as Parser<'p>>::parses(&p, input, out, after),
    ensures
        input.len() < 4 ==> out == Err::<(i32, Seq<u8>), UnexpectedEof>(UnexpectedEof),
        input.len() >= 4 ==> (out matches Ok((v, rest)) && (v as int + 0x1_0000_0000) % 0x1_0000_0000 == input[0] + 256 * input[1] + 65536 * input[2] + 16777216 * input[3] && rest =~= input.subrange(4, input.len() as int)),
{
    if input.len() >= 4 {
        let b = input.take(4);
        lemma_le4(b);
        assert(b[0] == input[0] && b.reverse()[0] == input[3]);
        assert(b[1] == input[1] && b.reverse()[1] == input[2]);
        assert(b[2] == input[2] && b.reverse()[2] == input[1]);
        assert(b[3] == input[3] && b.reverse()[3] == input[0]);
        crate::laws::lemma_signed_same_bits(crate::bytes::le_value(b) as int, 0x1_0000_0000);
        crate::laws::lemma_signed_same_bits(crate::bytes::be_value(b) as int, 0x1_0000_0000);
    }
}

/// `i64_le()` fails, with `UnexpectedEof`, exactly when the input has fewer
/// than 8 bytes; otherwise it reads the first 8 bytes as a two's complement
/// number, the first least significant, and leaves the others.
pub proof fn lemma_i64_le_reads<'p>(
    p: I64Le,
    input: Seq<u8>,
    out: Result<(i64, Seq<u8>), UnexpectedEof>,
    after: I64Le,
)
    requires
        <I64Le as Parser<'p>>::parses(&p, input, out, after),
    ensures
        input.len() < 8 ==> out == Err::<(i64, Seq<u8>), UnexpectedEof>(UnexpectedEof),
        input.len() >= 8 ==> (out matches Ok((v, rest)) && (v as int + 0x1_0000_0000_0000_0000) % 0x1_0000_0000_0000_0000 == input[0] + 256 * input[1] + 65536 * input[2] + 16777216 * input[3] + 4294967296 * input[4] + 1099511627776 * input[5] + 281474976710656 * input[6] + 72057594037927936 * input[7] && rest =~= input.subrange(8, input.len() as int)),
{
    if input.len() >= 8 {
        let b = input.take(8);
        lemma_le8(b);
        assert(b[0] == input[0] && b.reverse()[0] == input[7]);
        assert(b[1] == input[1] && b.reverse()[1] == input[6]);
        assert(b[2] == input[2] && b.reverse()[2] == input[5]);
        assert(b[3] == input[3] && b.reverse()[3] == input[4]);
        assert(b[4] == input[4] && b.reverse()[4] == input[3]);
        assert(b[5] == input[5] && b.reverse()[5] == input[2]);
        assert(b[6] == input[6] && b.reverse()[6] == input[1]);
        assert(b[7] == input[7] && b.reverse()[7] == input[0]);
        crate::laws::lemma_signed_same_bits(crate::bytes::le_value(b) as int, 0x1_0000_0000_0000_0000);
        crate::laws::lemma_signed_same_bits(crate::bytes::be_value(b) as int, 0x1_0000_0000_0000_0000);
    }
}

/// `u16_be()` fails, with `UnexpectedEof`, exactly when the input has fewer
/// than 2 bytes; otherwise it reads the first 2 bytes, the first most
/// significant, and leaves the others.
pub proof fn lemma_u16_be_reads<'p>(
    p: U16Be,
    input: Seq<u8>,
    out: Result<(u16, Seq<u8>), UnexpectedEof>,
    after: U16Be,
)
    requires
        <U16Be as Parser<'p>>::parses(&p, input, out, after),
    ensures
        input.len() < 2 ==> out == Err::<(u16, Seq<u8>), UnexpectedEof>(UnexpectedEof),
        input.len() >= 2 ==> (out matches Ok((v, rest)) && v == input[1] + 256 * input[0] && rest =~= input.subrange(2, input.len() as int)),
{
    if input.len() >= 2 {
        let b = input.take(2);
        lemma_le2(b);
        assert(b[0] == input[0] && b.reverse()[0] == input[1]);
        assert(b[1] == input[1] && b.reverse()[1] == input[0]);
    }
}

/// `u32_be()` fails, with `UnexpectedEof`, exactly when the input has fewer
/// than 4 bytes; otherwise it reads the first 4 bytes, the first most
/// significant, and leaves the others.
pub proof fn lemma_u32_be_reads<'p>(
    p: U32Be,
    input: Seq<u8>,
    out: Result<(u32, Seq<u8>), UnexpectedEof>,
    after: U32Be,
)
    requires
        <U32Be as Parser<'p>>::parses(&p, input, out, after),
    ensures
        input.len() < 4 ==> out == Err::<(u32, Seq<u8>), UnexpectedEof>(UnexpectedEof),
        input.len() >= 4 ==> (out matches Ok((v, rest)) && v == input[3] + 256 * input[2] + 65536 * input[1] + 16777216 * input[0] && rest =~= input.subrange(4, input.len() as int)),
{
    if input.len() >= 4 {
        let b = input.take(4);
        lemma_le4(b);
        assert(b[0] == input[0] && b.reverse()[0] == input[3]);
        assert(b[1] == input[1] && b.reverse()[1] == input[2]);
        assert(b[2] == input[2] && b.reverse()[2] == input[1]);
        assert(b[3] == input[3] && b.reverse()[3] == input[0]);
    }
}

/// `u64_be()` fails, with `UnexpectedEof`, exactly when the input has fewer
/// than 8 bytes; otherwise it reads the first 8 bytes, the first most
/// significant, and leaves the others.
pub proof fn lemma_u64_be_reads<'p>(
    p: U64Be,
    input: Seq<u8>,
    out: Result<(u64, Seq<u8>), UnexpectedEof>,
    after: U64Be,
)
    requires
        <U64Be as Parser<'p>>::parses(&p, input, out, after),
    ensures
        input.len() < 8 ==> out == Err::<(u64, Seq<u8>), UnexpectedEof>(UnexpectedEof),
        input.len() >= 8 ==> (out matches Ok((v, rest)) && v == input[7] + 256 * input[6] + 65536 * input[5] + 16777216 * input[4] + 4294967296 * input[3] + 1099511627776 * input[2] + 281474976710656 * input[1] + 72057594037927936 * input[0] && rest =~= input.subrange(8, input.len() as int)),
{
    if input.len() >= 8 {
        let b = input.take(8);
        lemma_le8(b);
        assert(b[0] == input[0] && b.reverse()[0] == input[7]);
        assert(b[1] == input[1] && b.reverse()[1] == input[6]);
        assert(b[2] == input[2] && b.reverse()[2] == input[5]);
        assert(b[3] == input[3] && b.reverse()[3] == input[4]);
        assert(b[4] == input[4] && b.reverse()[4] == input[3]);
        assert(b[5] == input[5] && b.reverse()[5] == input[2]);
        assert(b[6] == input[6] && b.reverse()[6] == input[1]);
        assert(b[7] == input[7] && b.reverse()[7] == input[0]);
    }
}

/// `i16_be()` fails, with `UnexpectedEof`, exactly when the input has fewer
/// than 2 bytes; otherwise it reads the first 2 bytes as a two's complement
/// number, the first most significant, and leaves the others.
pub proof fn lemma_i16_be_reads<'p>(
    p: I16Be,
    input: Seq<u8>,
    out: Result<(i16, Seq<u8>), UnexpectedEof>,
    after: I16Be,
)
    requires
        <I16Be as Parser<'p>>::parses(&p, input, out, after),
    ensures
        input.len() < 2 ==> out == Err::<(i16, Seq<u8>), UnexpectedEof>(UnexpectedEof),
        input.len() >= 2 ==> (out matches Ok((v, rest)) && (v as int + 0x1_0000) % 0x1_0000 == input[1] + 256 * input[0] && rest =~= input.subrange(2, input.len() as int)),
{
    if input.len() >= 2 {
        let b = input.take(2);
        lemma_le2(b);
        assert(b[0] == input[0] && b.reverse()[0] == input[1]);
        assert(b[1] == input[1] && b.reverse()[1] == input[0]);
        crate::laws::lemma_signed_same_bits(crate::bytes::le_value(b) as int, 0x1_0000);
        crate::laws::lemma_signed_same_bits(crate::bytes::be_value(b) as int, 0x1_0000);
    }
}

/// `i32_be()` fails, with `UnexpectedEof`, exactly when the input has fewer
/// than 4 bytes; otherwise it reads the first 4 bytes as a two's complement
/// number, the first most significant, and leaves the others.
pub proof fn lemma_i32_be_reads<'p>(
    p: I32Be,
    input: Seq<u8>,
    out: Result<(i32, Seq<u8>), UnexpectedEof>,
    after: I32Be,
)
    requires
        <I32Be as Parser<'p>>::parses(&p, input, out, after),
    ensures
        input.len() < 4 ==> out == Err::<(i32, Seq<u8>), UnexpectedEof>(UnexpectedEof),
        input.len() >= 4 ==> (out matches Ok((v, rest)) && (v as int + 0x1_0000_0000) % 0x1_0000_0000 == input[3] + 256 * input[2] + 65536 * input[1] + 16777216 * input[0] && rest =~= input.subrange(4, input.len() as int)),
{
    if input.len() >= 4 {
        let b = input.take(4);
        lemma_le4(b);
        assert(b[0] == input[0] && b.reverse()[0] == input[3]);
        assert(b[1] == input[1] && b.reverse()[1] == input[2]);
        assert(b[2] == input[2] && b.reverse()[2] == input[1]);
        assert(b[3] == input[3] && b.reverse()[3] == input[0]);
        crate::laws::lemma_signed_same_bits(crate::bytes::le_value(b) as int, 0x1_0000_0000);
        crate::laws::lemma_signed_same_bits(crate::bytes::be_value(b) as int, 0x1_0000_0000);
    }
}

/// `i64_be()` fails, with `UnexpectedEof`, exactly when the input has fewer
/// than 8 bytes; otherwise it reads the first 8 bytes as a two's complement
/// number, the first most significant, and leaves the others.
pub proof fn lemma_i64_be_reads<'p>(
    p: I64Be,
    input: Seq<u8>,
    out: Result<(i64, Seq<u8>), UnexpectedEof>,
    after: I64Be,
)
    requires
        <I64Be as Parser<'p>>::parses(&p, input, out, after),
    ensures
        input.len() < 8 ==> out == Err::<(i64, Seq<u8>), UnexpectedEof>(UnexpectedEof),
        input.len() >= 8 ==> (out matches Ok((v, rest)) && (v as int + 0x1_0000_0000_0000_0000) % 0x1_0000_0000_0000_0000 == input[7] + 256 * input[6] + 65536 * input[5] + 16777216 * input[4] + 4294967296 * input[3] + 1099511627776 * input[2] + 281474976710656 * input[1] + 72057594037927936 * input[0] && rest =~= input.subrange(8, input.len() as int)),
{
    if input.len() >= 8 {
        let b = input.take(8);
        lemma_le8(b);
        assert(b[0] == input[0] && b.reverse()[0] == input[7]);
        assert(b[1] == input[1] && b.reverse()[1] == input[6]);
        assert(b[2] == input[2] && b.reverse()[2] == input[5]);
        assert(b[3] == input[3] && b.reverse()[3] == input[4]);
        assert(b[4] == input[4] && b.reverse()[4] == input[3]);
        assert(b[5] == input[5] && b.reverse()[5] == input[2]);
        assert(b[6] == input[6] && b.reverse()[6] == input[1]);
        assert(b[7] == input[7] && b.reverse()[7] == input[0]);
        crate::laws::lemma_signed_same_bits(crate::bytes::le_value(b) as int, 0x1_0000_0000_0000_0000);
        crate::laws::lemma_signed_same_bits(crate::bytes::be_value(b) as int, 0x1_0000_0000_0000_0000);
    }
}

/// `u16_ne()` fails, with `UnexpectedEof`, exactly when the input has fewer
/// than 2 bytes; otherwise it reads the first 2 bytes, in the byte order that
/// the parser holds (little-endian: the first least significant; big-endian:
/// the first most significant), which it keeps for its next parse, and leaves
/// the others.
pub proof fn lemma_u16_ne_reads<'p>(
    p: U16Ne,
    input: Seq<u8>,
    out: Result<(u16, Seq<u8>), UnexpectedEof>,
    after: U16Ne,
)
    requires
        <U16Ne as Parser<'p>>::parses(&p, input, out, after),
    ensures
        after.little_endian() == p.little_endian(),
        input.len() < 2 ==> out == Err::<(u16, Seq<u8>), UnexpectedEof>(UnexpectedEof),
        input.len() >= 2 ==> (out matches Ok((v, rest)) && v == if p.little_endian() { input[0] + 256 * input[1] } else { input[1] + 256 * input[0] } && rest =~= input.subrange(2, input.len() as int)),
{
    if input.len() >= 2 {
        let b = input.take(2);
        lemma_le2(b);
        assert(b[0] == input[0] && b.reverse()[0] == input[1]);
        assert(b[1] == input[1] && b.reverse()[1] == input[0]);
    }
}

/// `u16_ne()` reads in one byte order whatever the input: a second parse, by
/// the parser in the state that the first left, of an input that begins with
/// the same 2 bytes gives the same value.
pub proof fn lemma_u16_ne_one_order<'p>(
    p: U16Ne,
    input1: Seq<u8>,
    out1: Result<(u16, Seq<u8>), UnexpectedEof>,
    p1: U16Ne,
    input2: Seq<u8>,
    out2: Result<(u16, Seq<u8>), UnexpectedEof>,
    p2: U16Ne,
)
    requires
        <U16Ne as Parser<'p>>::parses(&p, input1, out1, p1),
        <U16Ne as Parser<'p>>::parses(&p1, input2, out2, p2),
        input1.len() >= 2,
        input2.len() >= 2,
        forall|i: int| 0 <= i < 2 ==> input1[i] == input2[i],
    ensures
        out1 matches Ok((v1, _)) && out2 matches Ok((v2, _)) && v1 == v2,
        p2.little_endian() == p.little_endian(),
{
    lemma_u16_ne_reads(p, input1, out1, p1);
    lemma_u16_ne_reads(p1, input2, out2, p2);
    assert(input1[0] == input2[0]);
    assert(input1[1] == input2[1]);
}

/// `u32_ne()` fails, with `UnexpectedEof`, exactly when the input has fewer
/// than 4 bytes; otherwise it reads the first 4 bytes, in the byte order that
/// the parser holds (little-endian: the first least significant; big-endian:
/// the first most significant), which it keeps for its next parse, and leaves
/// the others.
pub proof fn lemma_u32_ne_reads<'p>(
    p: U32Ne,
    input: Seq<u8>,
    out: Result<(u32, Seq<u8>), UnexpectedEof>,
    after: U32Ne,
)
    requires
        <U32Ne as Parser<'p>>::parses(&p, input, out, after),
    ensures
        after.little_endian() == p.little_endian(),
        input.len() < 4 ==> out == Err::<(u32, Seq<u8>), UnexpectedEof>(UnexpectedEof),
        input.len() >= 4 ==> (out matches Ok((v, rest)) && v == if p.little_endian() { input[0] + 256 * input[1] + 65536 * input[2] + 16777216 * input[3] } else { input[3] + 256 * input[2] + 65536 * input[1] + 16777216 * input[0] } && rest =~= input.subrange(4, input.len() as int)),
{
    if input.len() >= 4 {
        let b = input.take(4);
        lemma_le4(b);
        assert(b[0] == input[0] && b.reverse()[0] == input[3]);
        assert(b[1] == input[1] && b.reverse()[1] == input[2]);
        assert(b[2] == input[2] && b.reverse()[2] == input[1]);
        assert(b[3] == input[3] && b.reverse()[3] == input[0]);
    }
}

/// `u32_ne()` reads in one byte order whatever the input: a second parse, by
/// the parser in the state that the first left, of an input that begins with
/// the same 4 bytes gives the same value.
pub proof fn lemma_u32_ne_one_order<'p>(
    p: U32Ne,
    input1: Seq<u8>,
    out1: Result<(u32, Seq<u8>), UnexpectedEof>,
    p1: U32Ne,
    input2: Seq<u8>,
    out2: Result<(u32, Seq<u8>), UnexpectedEof>,
    p2: U32Ne,
)
    requires
        <U32Ne as Parser<'p>>::parses(&p, input1, out1, p1),
        <U32Ne as Parser<'p>>::parses(&p1, input2, out2, p2),
        input1.len() >= 4,
        input2.len() >= 4,
        forall|i: int| 0 <= i < 4 ==> input1[i] == input2[i],
    ensures
        out1 matches Ok((v1, _)) && out2 matches Ok((v2, _)) && v1 == v2,
        p2.little_endian() == p.little_endian(),
{
    lemma_u32_ne_reads(p, input1, out1, p1);
    lemma_u32_ne_reads(p1, input2, out2, p2);
    assert(input1[0] == input2[0]);
    assert(input1[1] == input2[1]);
    assert(input1[2] == input2[2]);
    assert(input1[3] == input2[3]);
}

/// `u64_ne()` fails, with `UnexpectedEof`, exactly when the input has fewer
/// than 8 bytes; otherwise it reads the first 8 bytes, in the byte order that
/// the parser holds (little-endian: the first least significant; big-endian:
/// the first most significant), which it keeps for its next parse, and leaves
/// the others.
pub proof fn lemma_u64_ne_reads<'p>(
    p: U64Ne,
    input: Seq<u8>,
    out: Result<(u64, Seq<u8>), UnexpectedEof>,
    after: U64Ne,
)
    requires
        <U64Ne as Parser<'p>>::parses(&p, input, out, after),
    ensures
        after.little_endian() == p.little_endian(),
        input.len() < 8 ==> out == Err::<(u64, Seq<u8>), UnexpectedEof>(UnexpectedEof),
        input.len() >= 8 ==> (out matches Ok((v, rest)) && v == if p.little_endian() { input[0] + 256 * input[1] + 65536 * input[2] + 16777216 * input[3] + 4294967296 * input[4] + 1099511627776 * input[5] + 281474976710656 * input[6] + 72057594037927936 * input[7] } else { input[7] + 256 * input[6] + 65536 * input[5] + 16777216 * input[4] + 4294967296 * input[3] + 1099511627776 * input[2] + 281474976710656 * input[1] + 72057594037927936 * input[0] } && rest =~= input.subrange(8, input.len() as int)),
{
    if input.len() >= 8 {
        let b = input.take(8);
        lemma_le8(b);
        assert(b[0] == input[0] && b.reverse()[0] == input[7]);
        assert(b[1] == input[1] && b.reverse()[1] == input[6]);
        assert(b[2] == input[2] && b.reverse()[2] == input[5]);
        assert(b[3] == input[3] && b.reverse()[3] == input[4]);
        assert(b[4] == input[4] && b.reverse()[4] == input[3]);
        assert(b[5] == input[5] && b.reverse()[5] == input[2]);
        assert(b[6] == input[6] && b.reverse()[6] == input[1]);
        assert(b[7] == input[7] && b.reverse()[7] == input[0]);
    }
}

/// `u64_ne()` reads in one byte order whatever the input: a second parse, by
/// the parser in the state that the first left, of an input that begins with
/// the same 8 bytes gives the same value.
pub proof fn lemma_u64_ne_one_order<'p>(
    p: U64Ne,
    input1: Seq<u8>,
    out1: Result<(u64, Seq<u8>), UnexpectedEof>,
    p1: U64Ne,
    input2: Seq<u8>,
    out2: Result<(u64, Seq<u8>), UnexpectedEof>,
    p2: U64Ne,
)
    requires
        <U64Ne as Parser<'p>>::parses(&p, input1, out1, p1),
        <U64Ne as Parser<'p>>::parses(&p1, input2, out2, p2),
        input1.len() >= 8,
        input2.len() >= 8,
        forall|i: int| 0 <= i < 8 ==> input1[i] == input2[i],
    ensures
        out1 matches Ok((v1, _)) && out2 matches Ok((v2, _)) && v1 == v2,
        p2.little_endian() == p.little_endian(),
{
    lemma_u64_ne_reads(p, input1, out1, p1);
    lemma_u64_ne_reads(p1, input2, out2, p2);
    assert(input1[0] == input2[0]);
    assert(input1[1] == input2[1]);
    assert(input1[2] == input2[2]);
    assert(input1[3] == input2[3]);
    assert(input1[4] == input2[4]);
    assert(input1[5] == input2[5]);
    assert(input1[6] == input2[6]);
    assert(input1[7] == input2[7]);
}

/// `i16_ne()` fails, with `UnexpectedEof`, exactly when the input has fewer
/// than 2 bytes; otherwise it reads the first 2 bytes as a two's complement
/// number, in the byte order that the parser holds (little-endian: the first
/// least significant; big-endian: the first most significant), which it keeps
/// for its next parse, and leaves the others.
pub proof fn lemma_i16_ne_reads<'p>(
    p: I16Ne,
    input: Seq<u8>,
    out: Result<(i16, Seq<u8>), UnexpectedEof>,
    after: I16Ne,
)
    requires
        <I16Ne as Parser<'p>>::parses(&p, input, out, after),
    ensures
        after.little_endian() == p.little_endian(),
        input.len() < 2 ==> out == Err::<(i16, Seq<u8>), UnexpectedEof>(UnexpectedEof),
        input.len() >= 2 ==> (out matches Ok((v, rest)) && (v as int + 0x1_0000) % 0x1_0000 == if p.little_endian() { input[0] + 256 * input[1] } else { input[1] + 256 * input[0] } && rest =~= input.subrange(2, input.len() as int)),
{
    if input.len() >= 2 {
        let b = input.take(2);
        lemma_le2(b);
        assert(b[0] == input[0] && b.reverse()[0] == input[1]);
        assert(b[1] == input[1] && b.reverse()[1] == input[0]);
        crate::laws::lemma_signed_same_bits(crate::bytes::le_value(b) as int, 0x1_0000);
        crate::laws::lemma_signed_same_bits(crate::bytes::be_value(b) as int, 0x1_0000);
    }
}

/// `i16_ne()` reads in one byte order whatever the input: a second parse, by
/// the parser in the state that the first left, of an input that begins with
/// the same 2 bytes gives the same value.
pub proof fn lemma_i16_ne_one_order<'p>(
    p: I16Ne,
    input1: Seq<u8>,
    out1: Result<(i16, Seq<u8>), UnexpectedEof>,
    p1: I16Ne,
    input2: Seq<u8>,
    out2: Result<(i16, Seq<u8>), UnexpectedEof>,
    p2: I16Ne,
)
    requires
        <I16Ne as Parser<'p>>::parses(&p, input1, out1, p1),
        <I16Ne as Parser<'p>>::parses(&p1, input2, out2, p2),
        input1.len() >= 2,
        input2.len() >= 2,
        forall|i: int| 0 <= i < 2 ==> input1[i] == input2[i],
    ensures
        out1 matches Ok((v1, _)) && out2 matches Ok((v2, _)) && v1 == v2,
        p2.little_endian() == p.little_endian(),
{
    lemma_i16_ne_reads(p, input1, out1, p1);
    lemma_i16_ne_reads(p1, input2, out2, p2);
    assert(input1[0] == input2[0]);
    assert(input1[1] == input2[1]);
}

/// `i32_ne()` fails, with `UnexpectedEof`, exactly when the input has fewer
/// than 4 bytes; otherwise it reads the first 4 bytes as a two's complement
/// number, in the byte order that the parser holds (little-endian: the first
/// least significant; big-endian: the first most significant), which it keeps
/// for its next parse, and leaves the others.
pub proof fn lemma_i32_ne_reads<'p>(
    p: I32Ne,
    input: Seq<u8>,
    out: Result<(i32, Seq<u8>), UnexpectedEof>,
    after: I32Ne,
)
    requires
        <I32Ne as Parser<'p>>::parses(&p, input, out, after),
    ensures
        after.little_endian() == p.little_endian(),
        input.len() < 4 ==> out == Err::<(i32, Seq<u8>), UnexpectedEof>(UnexpectedEof),
        input.len() >= 4 ==> (out matches Ok((v, rest)) && (v as int + 0x1_0000_0000) % 0x1_0000_0000 == if p.little_endian() { input[0] + 256 * input[1] + 65536 * input[2] + 16777216 * input[3] } else { input[3] + 256 * input[2] + 65536 * input[1] + 16777216 * input[0] } && rest =~= input.subrange(4, input.len() as int)),
{
    if input.len() >= 4 {
        let b = input.take(4);
        lemma_le4(b);
        assert(b[0] == input[0] && b.reverse()[0] == input[3]);
        assert(b[1] == input[1] && b.reverse()[1] == input[2]);
        assert(b[2] == input[2] && b.reverse()[2] == input[1]);
        assert(b[3] == input[3] && b.reverse()[3] == input[0]);
        crate::laws::lemma_signed_same_bits(crate::bytes::le_value(b) as int, 0x1_0000_0000);
        crate::laws::lemma_signed_same_bits(crate::bytes::be_value(b) as int, 0x1_0000_0000);
    }
}

/// `i32_ne()` reads in one byte order whatever the input: a second parse, by
/// the parser in the state that the first left, of an input that begins with
/// the same 4 bytes gives the same value.
pub proof fn lemma_i32_ne_one_order<'p>(
    p: I32Ne,
    input1: Seq<u8>,
    out1: Result<(i32, Seq<u8>), UnexpectedEof>,
    p1: I32Ne,
    input2: Seq<u8>,
    out2: Result<(i32, Seq<u8>), UnexpectedEof>,
    p2: I32Ne,
)
    requires
        <I32Ne as Parser<'p>>::parses(&p, input1, out1, p1),
        <I32Ne as Parser<'p>>::parses(&p1, input2, out2, p2),
        input1.len() >= 4,
        input2.len() >= 4,
        forall|i: int| 0 <= i < 4 ==> input1[i] == input2[i],
    ensures
        out1 matches Ok((v1, _)) && out2 matches Ok((v2, _)) && v1 == v2,
        p2.little_endian() == p.little_endian(),
{
    lemma_i32_ne_reads(p, input1, out1, p1);
    lemma_i32_ne_reads(p1, input2, out2, p2);
    assert(input1[0] == input2[0]);
    assert(input1[1] == input2[1]);
    assert(input1[2] == input2[2]);
    assert(input1[3] == input2[3]);
}

/// `i64_ne()` fails, with `UnexpectedEof`, exactly when the input has fewer
/// than 8 bytes; otherwise it reads the first 8 bytes as a two's complement
/// number, in the byte order that the parser holds (little-endian: the first
/// least significant; big-endian: the first most significant), which it keeps
/// for its next parse, and leaves the others.
pub proof fn lemma_i64_ne_reads<'p>(
    p: I64Ne,
    input: Seq<u8>,
    out: Result<(i64, Seq<u8>), UnexpectedEof>,
    after: I64Ne,
)
    requires
        <I64Ne as Parser<'p>>::parses(&p, input, out, after),
    ensures
        after.little_endian() == p.little_endian(),
        input.len() < 8 ==> out == Err::<(i64, Seq<u8>), UnexpectedEof>(UnexpectedEof),
        input.len() >= 8 ==> (out matches Ok((v, rest)) && (v as int + 0x1_0000_0000_0000_0000) % 0x1_0000_0000_0000_0000 == if p.little_endian() { input[0] + 256 * input[1] + 65536 * input[2] + 16777216 * input[3] + 4294967296 * input[4] + 1099511627776 * input[5] + 281474976710656 * input[6] + 72057594037927936 * input[7] } else { input[7] + 256 * input[6] + 65536 * input[5] + 16777216 * input[4] + 4294967296 * input[3] + 1099511627776 * input[2] + 281474976710656 * input[1] + 72057594037927936 * input[0] } && rest =~= input.subrange(8, input.len() as int)),
{
    if input.len() >= 8 {
        let b = input.take(8);
        lemma_le8(b);
        assert(b[0] == input[0] && b.reverse()[0] == input[7]);
        assert(b[1] == input[1] && b.reverse()[1] == input[6]);
        assert(b[2] == input[2] && b.reverse()[2] == input[5]);
        assert(b[3] == input[3] && b.reverse()[3] == input[4]);
        assert(b[4] == input[4] && b.reverse()[4] == input[3]);
        assert(b[5] == input[5] && b.reverse()[5] == input[2]);
        assert(b[6] == input[6] && b.reverse()[6] == input[1]);
        assert(b[7] == input[7] && b.reverse()[7] == input[0]);
        crate::laws::lemma_signed_same_bits(crate::bytes::le_value(b) as int, 0x1_0000_0000_0000_0000);
        crate::laws::lemma_signed_same_bits(crate::bytes::be_value(b) as int, 0x1_0000_0000_0000_0000);
    }
}

/// `i64_ne()` reads in one byte order whatever the input: a second parse, by
/// the parser in the state that the first left, of an input that begins with
/// the same 8 bytes gives the same value.
pub proof fn lemma_i64_ne_one_order<'p>(
    p: I64Ne,
    input1: Seq<u8>,
    out1: Result<(i64, Seq<u8>), UnexpectedEof>,
    p1: I64Ne,
    input2: Seq<u8>,
    out2: Result<(i64, Seq<u8>), UnexpectedEof>,
    p2: I64Ne,
)
    requires
        <I64Ne as Parser<'p>>::parses(&p, input1, out1, p1),
        <I64Ne as Parser<'p>>::parses(&p1, input2, out2, p2),
        input1.len() >= 8,
        input2.len() >= 8,
        forall|i: int| 0 <= i < 8 ==> input1[i] == input2[i],
    ensures
        out1 matches Ok((v1, _)) && out2 matches Ok((v2, _)) && v1 == v2,
        p2.little_endian() == p.little_endian(),
{
    lemma_i64_ne_reads(p, input1, out1, p1);
    lemma_i64_ne_reads(p1, input2, out2, p2);
    assert(input1[0] == input2[0]);
    assert(input1[1] == input2[1]);
    assert(input1[2] == input2[2]);
    assert(input1[3] == input2[3]);
    assert(input1[4] == input2[4]);
    assert(input1[5] == input2[5]);
    assert(input1[6] == input2[6]);
    assert(input1[7] == input2[7]);
}

} // verus!
