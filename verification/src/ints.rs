//! Parsers that read fixed-width integers.
use crate::bytes::{
    be_value, i16_from_ne_bytes, i32_from_ne_bytes, i64_from_ne_bytes, le_value, read_be2, read_be4,
    read_be8, read_le2, read_le4, read_le8, signed, signed16, signed32, signed64, signed8,
    u16_from_ne_bytes, u32_from_ne_bytes, u64_from_ne_bytes,
};
use crate::error::UnexpectedEof;
use crate::parser::Parser;
use crate::primitives::split_at;
use vstd::prelude::*;

verus! {

/// Reads one byte as an unsigned integer.
pub struct U8(());

impl<'p> Parser<'p> for U8 {
    type Result = u8;
    type Error = UnexpectedEof;

    open spec fn well_formed(&self) -> bool {
        true
    }

    open spec fn productive(&self) -> bool {
        true
    }

    open spec fn parses(
        &self,
        input: Seq<u8>,
        out: Result<(u8, Seq<u8>), UnexpectedEof>,
        after: Self,
    ) -> bool {
        out == if input.len() < 1 {
            Err(UnexpectedEof)
        } else {
            Ok::<(u8, Seq<u8>), UnexpectedEof>((input[0] as int as u8, input.skip(1)))
        }
    }

    fn parse(&mut self, input: &'p [u8]) -> (res: Result<(u8, &'p [u8]), UnexpectedEof>) {
        if input.is_empty() {
            Err(UnexpectedEof)
        } else {
            let (_, rest) = split_at(input, 1);
            Ok((input[0], rest))
        }
    }
}

/// A parser that reads one byte as an unsigned integer.
pub fn u8() -> (p: U8)
    ensures
        p.well_formed(),
{
    U8(())
}

/// Reads a little-endian u16.
pub struct U16Le(());

impl<'p> Parser<'p> for U16Le {
    type Result = u16;
    type Error = UnexpectedEof;

    open spec fn well_formed(&self) -> bool {
        true
    }

    open spec fn productive(&self) -> bool {
        true
    }

    open spec fn parses(
        &self,
        input: Seq<u8>,
        out: Result<(u16, Seq<u8>), UnexpectedEof>,
        after: Self,
    ) -> bool {
        out == if input.len() < 2 {
            Err(UnexpectedEof)
        } else {
            Ok::<(u16, Seq<u8>), UnexpectedEof>((le_value(input.take(2)) as int as u16, input.skip(2)))
        }
    }

    fn parse(&mut self, input: &'p [u8]) -> (res: Result<(u16, &'p [u8]), UnexpectedEof>) {
        if input.len() < 2 {
            Err(UnexpectedEof)
        } else {
            let (_, rest) = split_at(input, 2);
            Ok((read_le2(input), rest))
        }
    }
}

/// A parser that reads a little-endian u16.
pub fn u16_le() -> (p: U16Le)
    ensures
        p.well_formed(),
{
    U16Le(())
}

/// Reads a little-endian u32.
pub struct U32Le(());

impl<'p> Parser<'p> for U32Le {
    type Result = u32;
    type Error = UnexpectedEof;

    open spec fn well_formed(&self) -> bool {
        true
    }

    open spec fn productive(&self) -> bool {
        true
    }

    open spec fn parses(
        &self,
        input: Seq<u8>,
        out: Result<(u32, Seq<u8>), UnexpectedEof>,
        after: Self,
    ) -> bool {
        out == if input.len() < 4 {
            Err(UnexpectedEof)
        } else {
            Ok::<(u32, Seq<u8>), UnexpectedEof>((le_value(input.take(4)) as int as u32, input.skip(4)))
        }
    }

    fn parse(&mut self, input: &'p [u8]) -> (res: Result<(u32, &'p [u8]), UnexpectedEof>) {
        if input.len() < 4 {
            Err(UnexpectedEof)
        } else {
            let (_, rest) = split_at(input, 4);
            Ok((read_le4(input), rest))
        }
    }
}

/// A parser that reads a little-endian u32.
pub fn u32_le() -> (p: U32Le)
    ensures
        p.well_formed(),
{
    U32Le(())
}

/// Reads a little-endian u64.
pub struct U64Le(());

impl<'p> Parser<'p> for U64Le {
    type Result = u64;
    type Error = UnexpectedEof;

    open spec fn well_formed(&self) -> bool {
        true
    }

    open spec fn productive(&self) -> bool {
        true
    }

    open spec fn parses(
        &self,
        input: Seq<u8>,
        out: Result<(u64, Seq<u8>), UnexpectedEof>,
        after: Self,
    ) -> bool {
        out == if input.len() < 8 {
            Err(UnexpectedEof)
        } else {
            Ok::<(u64, Seq<u8>), UnexpectedEof>((le_value(input.take(8)) as int as u64, input.skip(8)))
        }
    }

    fn parse(&mut self, input: &'p [u8]) -> (res: Result<(u64, &'p [u8]), UnexpectedEof>) {
        if input.len() < 8 {
            Err(UnexpectedEof)
        } else {
            let (_, rest) = split_at(input, 8);
            Ok((read_le8(input), rest))
        }
    }
}

/// A parser that reads a little-endian u64.
pub fn u64_le() -> (p: U64Le)
    ensures
        p.well_formed(),
{
    U64Le(())
}

/// Reads one byte as a signed integer.
pub struct I8(());

impl<'p> Parser<'p> for I8 {
    type Result = i8;
    type Error = UnexpectedEof;

    open spec fn well_formed(&self) -> bool {
        true
    }

    open spec fn productive(&self) -> bool {
        true
    }

    open spec fn parses(
        &self,
        input: Seq<u8>,
        out: Result<(i8, Seq<u8>), UnexpectedEof>,
        after: Self,
    ) -> bool {
        out == if input.len() < 1 {
            Err(UnexpectedEof)
        } else {
            Ok::<(i8, Seq<u8>), UnexpectedEof>((signed(input[0] as int, 0x100) as i8, input.skip(1)))
        }
    }

    fn parse(&mut self, input: &'p [u8]) -> (res: Result<(i8, &'p [u8]), UnexpectedEof>) {
        if input.is_empty() {
            Err(UnexpectedEof)
        } else {
            let (_, rest) = split_at(input, 1);
            Ok((signed8(input[0]), rest))
        }
    }
}

/// A parser that reads one byte as a signed integer.
pub fn i8() -> (p: I8)
    ensures
        p.well_formed(),
{
    I8(())
}

/// Reads a little-endian i16.
pub struct I16Le(());

impl<'p> Parser<'p> for I16Le {
    type Result = i16;
    type Error = UnexpectedEof;

    open spec fn well_formed(&self) -> bool {
        true
    }

    open spec fn productive(&self) -> bool {
        true
    }

    open spec fn parses(
        &self,
        input: Seq<u8>,
        out: Result<(i16, Seq<u8>), UnexpectedEof>,
        after: Self,
    ) -> bool {
        out == if input.len() < 2 {
            Err(UnexpectedEof)
        } else {
            Ok::<(i16, Seq<u8>), UnexpectedEof>((signed(le_value(input.take(2)) as int, 0x1_0000) as i16, input.skip(2)))
        }
    }

    fn parse(&mut self, input: &'p [u8]) -> (res: Result<(i16, &'p [u8]), UnexpectedEof>) {
        if input.len() < 2 {
            Err(UnexpectedEof)
        } else {
            let (_, rest) = split_at(input, 2);
            Ok((signed16(read_le2(input)), rest))
        }
    }
}

/// A parser that reads a little-endian i16.
pub fn i16_le() -> (p: I16Le)
    ensures
        p.well_formed(),
{
    I16Le(())
}

/// Reads a little-endian i32.
pub struct I32Le(());

impl<'p> Parser<'p> for I32Le {
    type Result = i32;
    type Error = UnexpectedEof;

    open spec fn well_formed(&self) -> bool {
        true
    }

    open spec fn productive(&self) -> bool {
        true
    }

    open spec fn parses(
        &self,
        input: Seq<u8>,
        out: Result<(i32, Seq<u8>), UnexpectedEof>,
        after: Self,
    ) -> bool {
        out == if input.len() < 4 {
            Err(UnexpectedEof)
        } else {
            Ok::<(i32, Seq<u8>), UnexpectedEof>((signed(le_value(input.take(4)) as int, 0x1_0000_0000) as i32, input.skip(4)))
        }
    }

    fn parse(&mut self, input: &'p [u8]) -> (res: Result<(i32, &'p [u8]), UnexpectedEof>) {
        if input.len() < 4 {
            Err(UnexpectedEof)
        } else {
            let (_, rest) = split_at(input, 4);
            Ok((signed32(read_le4(input)), rest))
        }
    }
}

/// A parser that reads a little-endian i32.
pub fn i32_le() -> (p: I32Le)
    ensures
        p.well_formed(),
{
    I32Le(())
}

/// Reads a little-endian i64.
pub struct I64Le(());

impl<'p> Parser<'p> for I64Le {
    type Result = i64;
    type Error = UnexpectedEof;

    open spec fn well_formed(&self) -> bool {
        true
    }

    open spec fn productive(&self) -> bool {
        true
    }

    open spec fn parses(
        &self,
        input: Seq<u8>,
        out: Result<(i64, Seq<u8>), UnexpectedEof>,
        after: Self,
    ) -> bool {
        out == if input.len() < 8 {
            Err(UnexpectedEof)
        } else {
            Ok::<(i64, Seq<u8>), UnexpectedEof>((signed(le_value(input.take(8)) as int, 0x1_0000_0000_0000_0000) as i64, input.skip(8)))
        }
    }

    fn parse(&mut self, input: &'p [u8]) -> (res: Result<(i64, &'p [u8]), UnexpectedEof>) {
        if input.len() < 8 {
            Err(UnexpectedEof)
        } else {
            let (_, rest) = split_at(input, 8);
            Ok((signed64(read_le8(input)), rest))
        }
    }
}

/// A parser that reads a little-endian i64.
pub fn i64_le() -> (p: I64Le)
    ensures
        p.well_formed(),
{
    I64Le(())
}

/// Reads a big-endian u16.
pub struct U16Be(());

impl<'p> Parser<'p> for U16Be {
    type Result = u16;
    type Error = UnexpectedEof;

    open spec fn well_formed(&self) -> bool {
        true
    }

    open spec fn productive(&self) -> bool {
        true
    }

    open spec fn parses(
        &self,
        input: Seq<u8>,
        out: Result<(u16, Seq<u8>), UnexpectedEof>,
        after: Self,
    ) -> bool {
        out == if input.len() < 2 {
            Err(UnexpectedEof)
        } else {
            Ok::<(u16, Seq<u8>), UnexpectedEof>((be_value(input.take(2)) as int as u16, input.skip(2)))
        }
    }

    fn parse(&mut self, input: &'p [u8]) -> (res: Result<(u16, &'p [u8]), UnexpectedEof>) {
        if input.len() < 2 {
            Err(UnexpectedEof)
        } else {
            let (_, rest) = split_at(input, 2);
            Ok((read_be2(input), rest))
        }
    }
}

/// A parser that reads a big-endian u16.
pub fn u16_be() -> (p: U16Be)
    ensures
        p.well_formed(),
{
    U16Be(())
}

/// Reads a big-endian u32.
pub struct U32Be(());

impl<'p> Parser<'p> for U32Be {
    type Result = u32;
    type Error = UnexpectedEof;

    open spec fn well_formed(&self) -> bool {
        true
    }

    open spec fn productive(&self) -> bool {
        true
    }

    open spec fn parses(
        &self,
        input: Seq<u8>,
        out: Result<(u32, Seq<u8>), UnexpectedEof>,
        after: Self,
    ) -> bool {
        out == if input.len() < 4 {
            Err(UnexpectedEof)
        } else {
            Ok::<(u32, Seq<u8>), UnexpectedEof>((be_value(input.take(4)) as int as u32, input.skip(4)))
        }
    }

    fn parse(&mut self, input: &'p [u8]) -> (res: Result<(u32, &'p [u8]), UnexpectedEof>) {
        if input.len() < 4 {
            Err(UnexpectedEof)
        } else {
            let (_, rest) = split_at(input, 4);
            Ok((read_be4(input), rest))
        }
    }
}

/// A parser that reads a big-endian u32.
pub fn u32_be() -> (p: U32Be)
    ensures
        p.well_formed(),
{
    U32Be(())
}

/// Reads a big-endian u64.
pub struct U64Be(());

impl<'p> Parser<'p> for U64Be {
    type Result = u64;
    type Error = UnexpectedEof;

    open spec fn well_formed(&self) -> bool {
        true
    }

    open spec fn productive(&self) -> bool {
        true
    }

    open spec fn parses(
        &self,
        input: Seq<u8>,
        out: Result<(u64, Seq<u8>), UnexpectedEof>,
        after: Self,
    ) -> bool {
        out == if input.len() < 8 {
            Err(UnexpectedEof)
        } else {
            Ok::<(u64, Seq<u8>), UnexpectedEof>((be_value(input.take(8)) as int as u64, input.skip(8)))
        }
    }

    fn parse(&mut self, input: &'p [u8]) -> (res: Result<(u64, &'p [u8]), UnexpectedEof>) {
        if input.len() < 8 {
            Err(UnexpectedEof)
        } else {
            let (_, rest) = split_at(input, 8);
            Ok((read_be8(input), rest))
        }
    }
}

/// A parser that reads a big-endian u64.
pub fn u64_be() -> (p: U64Be)
    ensures
        p.well_formed(),
{
    U64Be(())
}

/// Reads a big-endian i16.
pub struct I16Be(());

impl<'p> Parser<'p> for I16Be {
    type Result = i16;
    type Error = UnexpectedEof;

    open spec fn well_formed(&self) -> bool {
        true
    }

    open spec fn productive(&self) -> bool {
        true
    }

    open spec fn parses(
        &self,
        input: Seq<u8>,
        out: Result<(i16, Seq<u8>), UnexpectedEof>,
        after: Self,
    ) -> bool {
        out == if input.len() < 2 {
            Err(UnexpectedEof)
        } else {
            Ok::<(i16, Seq<u8>), UnexpectedEof>((signed(be_value(input.take(2)) as int, 0x1_0000) as i16, input.skip(2)))
        }
    }

    fn parse(&mut self, input: &'p [u8]) -> (res: Result<(i16, &'p [u8]), UnexpectedEof>) {
        if input.len() < 2 {
            Err(UnexpectedEof)
        } else {
            let (_, rest) = split_at(input, 2);
            Ok((signed16(read_be2(input)), rest))
        }
    }
}

/// A parser that reads a big-endian i16.
pub fn i16_be() -> (p: I16Be)
    ensures
        p.well_formed(),
{
    I16Be(())
}

/// Reads a big-endian i32.
pub struct I32Be(());

impl<'p> Parser<'p> for I32Be {
    type Result = i32;
    type Error = UnexpectedEof;

    open spec fn well_formed(&self) -> bool {
        true
    }

    open spec fn productive(&self) -> bool {
        true
    }

    open spec fn parses(
        &self,
        input: Seq<u8>,
        out: Result<(i32, Seq<u8>), UnexpectedEof>,
        after: Self,
    ) -> bool {
        out == if input.len() < 4 {
            Err(UnexpectedEof)
        } else {
            Ok::<(i32, Seq<u8>), UnexpectedEof>((signed(be_value(input.take(4)) as int, 0x1_0000_0000) as i32, input.skip(4)))
        }
    }

    fn parse(&mut self, input: &'p [u8]) -> (res: Result<(i32, &'p [u8]), UnexpectedEof>) {
        if input.len() < 4 {
            Err(UnexpectedEof)
        } else {
            let (_, rest) = split_at(input, 4);
            Ok((signed32(read_be4(input)), rest))
        }
    }
}

/// A parser that reads a big-endian i32.
pub fn i32_be() -> (p: I32Be)
    ensures
        p.well_formed(),
{
    I32Be(())
}

/// Reads a big-endian i64.
pub struct I64Be(());

impl<'p> Parser<'p> for I64Be {
    type Result = i64;
    type Error = UnexpectedEof;

    open spec fn well_formed(&self) -> bool {
        true
    }

    open spec fn productive(&self) -> bool {
        true
    }

    open spec fn parses(
        &self,
        input: Seq<u8>,
        out: Result<(i64, Seq<u8>), UnexpectedEof>,
        after: Self,
    ) -> bool {
        out == if input.len() < 8 {
            Err(UnexpectedEof)
        } else {
            Ok::<(i64, Seq<u8>), UnexpectedEof>((signed(be_value(input.take(8)) as int, 0x1_0000_0000_0000_0000) as i64, input.skip(8)))
        }
    }

    fn parse(&mut self, input: &'p [u8]) -> (res: Result<(i64, &'p [u8]), UnexpectedEof>) {
        if input.len() < 8 {
            Err(UnexpectedEof)
        } else {
            let (_, rest) = split_at(input, 8);
            Ok((signed64(read_be8(input)), rest))
        }
    }
}

/// A parser that reads a big-endian i64.
pub fn i64_be() -> (p: I64Be)
    ensures
        p.well_formed(),
{
    I64Be(())
}

/// Reads a u16 in the byte order of the machine. The parser finds that
/// order out when it is made and reads every input in it.
pub struct U16Ne {
    little: bool,
}

impl U16Ne {
    /// Whether the parser reads little-endian; otherwise it reads big-endian.
    pub closed spec fn little_endian(&self) -> bool {
        self.little
    }
}

impl<'p> Parser<'p> for U16Ne {
    type Result = u16;
    type Error = UnexpectedEof;

    open spec fn well_formed(&self) -> bool {
        true
    }

    open spec fn productive(&self) -> bool {
        true
    }

    open spec fn parses(
        &self,
        input: Seq<u8>,
        out: Result<(u16, Seq<u8>), UnexpectedEof>,
        after: Self,
    ) -> bool {
        &&& after.little_endian() == self.little_endian()
        &&& out == if input.len() < 2 {
            Err(UnexpectedEof)
        } else {
            Ok::<(u16, Seq<u8>), UnexpectedEof>(((if self.little_endian() { le_value(input.take(2)) as int } else { be_value(input.take(2)) as int }) as u16, input.skip(2)))
        }
    }

    fn parse(&mut self, input: &'p [u8]) -> (res: Result<(u16, &'p [u8]), UnexpectedEof>) {
        if input.len() < 2 {
            Err(UnexpectedEof)
        } else {
            let v = if self.little { read_le2(input) } else { read_be2(input) };
            let (_, rest) = split_at(input, 2);
            Ok((v, rest))
        }
    }
}

/// A parser that reads a u16 in the byte order of the machine: the order in
/// which `u16::from_ne_bytes` reads the bytes 1, 0 as 1.
pub fn u16_ne() -> (p: U16Ne)
    ensures
        p.well_formed(),
{
    let little = u16_from_ne_bytes([1, 0]) == 1;
    U16Ne { little }
}

/// Reads a u32 in the byte order of the machine. The parser finds that
/// order out when it is made and reads every input in it.
pub struct U32Ne {
    little: bool,
}

impl U32Ne {
    /// Whether the parser reads little-endian; otherwise it reads big-endian.
    pub closed spec fn little_endian(&self) -> bool {
        self.little
    }
}

impl<'p> Parser<'p> for U32Ne {
    type Result = u32;
    type Error = UnexpectedEof;

    open spec fn well_formed(&self) -> bool {
        true
    }

    open spec fn productive(&self) -> bool {
        true
    }

    open spec fn parses(
        &self,
        input: Seq<u8>,
        out: Result<(u32, Seq<u8>), UnexpectedEof>,
        after: Self,
    ) -> bool {
        &&& after.little_endian() == self.little_endian()
        &&& out == if input.len() < 4 {
            Err(UnexpectedEof)
        } else {
            Ok::<(u32, Seq<u8>), UnexpectedEof>(((if self.little_endian() { le_value(input.take(4)) as int } else { be_value(input.take(4)) as int }) as u32, input.skip(4)))
        }
    }

    fn parse(&mut self, input: &'p [u8]) -> (res: Result<(u32, &'p [u8]), UnexpectedEof>) {
        if input.len() < 4 {
            Err(UnexpectedEof)
        } else {
            let v = if self.little { read_le4(input) } else { read_be4(input) };
            let (_, rest) = split_at(input, 4);
            Ok((v, rest))
        }
    }
}

/// A parser that reads a u32 in the byte order of the machine: the order in
/// which `u32::from_ne_bytes` reads the bytes 1, 0, 0, 0 as 1.
pub fn u32_ne() -> (p: U32Ne)
    ensures
        p.well_formed(),
{
    let little = u32_from_ne_bytes([1, 0, 0, 0]) == 1;
    U32Ne { little }
}

/// Reads a u64 in the byte order of the machine. The parser finds that
/// order out when it is made and reads every input in it.
pub struct U64Ne {
    little: bool,
}

impl U64Ne {
    /// Whether the parser reads little-endian; otherwise it reads big-endian.
    pub closed spec fn little_endian(&self) -> bool {
        self.little
    }
}

impl<'p> Parser<'p> for U64Ne {
    type Result = u64;
    type Error = UnexpectedEof;

    open spec fn well_formed(&self) -> bool {
        true
    }

    open spec fn productive(&self) -> bool {
        true
    }

    open spec fn parses(
        &self,
        input: Seq<u8>,
        out: Result<(u64, Seq<u8>), UnexpectedEof>,
        after: Self,
    ) -> bool {
        &&& after.little_endian() == self.little_endian()
        &&& out == if input.len() < 8 {
            Err(UnexpectedEof)
        } else {
            Ok::<(u64, Seq<u8>), UnexpectedEof>(((if self.little_endian() { le_value(input.take(8)) as int } else { be_value(input.take(8)) as int }) as u64, input.skip(8)))
        }
    }

    fn parse(&mut self, input: &'p [u8]) -> (res: Result<(u64, &'p [u8]), UnexpectedEof>) {
        if input.len() < 8 {
            Err(UnexpectedEof)
        } else {
            let v = if self.little { read_le8(input) } else { read_be8(input) };
            let (_, rest) = split_at(input, 8);
            Ok((v, rest))
        }
    }
}

/// A parser that reads a u64 in the byte order of the machine: the order in
/// which `u64::from_ne_bytes` reads the bytes 1, 0, 0, 0, 0, 0, 0, 0 as 1.
pub fn u64_ne() -> (p: U64Ne)
    ensures
        p.well_formed(),
{
    let little = u64_from_ne_bytes([1, 0, 0, 0, 0, 0, 0, 0]) == 1;
    U64Ne { little }
}

/// Reads a i16 in the byte order of the machine. The parser finds that
/// order out when it is made and reads every input in it.
pub struct I16Ne {
    little: bool,
}

impl I16Ne {
    /// Whether the parser reads little-endian; otherwise it reads big-endian.
    pub closed spec fn little_endian(&self) -> bool {
        self.little
    }
}

impl<'p> Parser<'p> for I16Ne {
    type Result = i16;
    type Error = UnexpectedEof;

    open spec fn well_formed(&self) -> bool {
        true
    }

    open spec fn productive(&self) -> bool {
        true
    }

    open spec fn parses(
        &self,
        input: Seq<u8>,
        out: Result<(i16, Seq<u8>), UnexpectedEof>,
        after: Self,
    ) -> bool {
        &&& after.little_endian() == self.little_endian()
        &&& out == if input.len() < 2 {
            Err(UnexpectedEof)
        } else {
            Ok::<(i16, Seq<u8>), UnexpectedEof>((signed(if self.little_endian() { le_value(input.take(2)) as int } else { be_value(input.take(2)) as int }, 0x1_0000) as i16, input.skip(2)))
        }
    }

    fn parse(&mut self, input: &'p [u8]) -> (res: Result<(i16, &'p [u8]), UnexpectedEof>) {
        if input.len() < 2 {
            Err(UnexpectedEof)
        } else {
            let v = signed16(if self.little { read_le2(input) } else { read_be2(input) });
            let (_, rest) = split_at(input, 2);
            Ok((v, rest))
        }
    }
}

/// A parser that reads a i16 in the byte order of the machine: the order in
/// which `i16::from_ne_bytes` reads the bytes 1, 0 as 1.
pub fn i16_ne() -> (p: I16Ne)
    ensures
        p.well_formed(),
{
    let little = i16_from_ne_bytes([1, 0]) == 1;
    I16Ne { little }
}

/// Reads a i32 in the byte order of the machine. The parser finds that
/// order out when it is made and reads every input in it.
pub struct I32Ne {
    little: bool,
}

impl I32Ne {
    /// Whether the parser reads little-endian; otherwise it reads big-endian.
    pub closed spec fn little_endian(&self) -> bool {
        self.little
    }
}

impl<'p> Parser<'p> for I32Ne {
    type Result = i32;
    type Error = UnexpectedEof;

    open spec fn well_formed(&self) -> bool {
        true
    }

    open spec fn productive(&self) -> bool {
        true
    }

    open spec fn parses(
        &self,
        input: Seq<u8>,
        out: Result<(i32, Seq<u8>), UnexpectedEof>,
        after: Self,
    ) -> bool {
        &&& after.little_endian() == self.little_endian()
        &&& out == if input.len() < 4 {
            Err(UnexpectedEof)
        } else {
            Ok::<(i32, Seq<u8>), UnexpectedEof>((signed(if self.little_endian() { le_value(input.take(4)) as int } else { be_value(input.take(4)) as int }, 0x1_0000_0000) as i32, input.skip(4)))
        }
    }

    fn parse(&mut self, input: &'p [u8]) -> (res: Result<(i32, &'p [u8]), UnexpectedEof>) {
        if input.len() < 4 {
            Err(UnexpectedEof)
        } else {
            let v = signed32(if self.little { read_le4(input) } else { read_be4(input) });
            let (_, rest) = split_at(input, 4);
            Ok((v, rest))
        }
    }
}

/// A parser that reads a i32 in the byte order of the machine: the order in
/// which `i32::from_ne_bytes` reads the bytes 1, 0, 0, 0 as 1.
pub fn i32_ne() -> (p: I32Ne)
    ensures
        p.well_formed(),
{
    let little = i32_from_ne_bytes([1, 0, 0, 0]) == 1;
    I32Ne { little }
}

/// Reads a i64 in the byte order of the machine. The parser finds that
/// order out when it is made and reads every input in it.
pub struct I64Ne {
    little: bool,
}

impl I64Ne {
    /// Whether the parser reads little-endian; otherwise it reads big-endian.
    pub closed spec fn little_endian(&self) -> bool {
        self.little
    }
}

impl<'p> Parser<'p> for I64Ne {
    type Result = i64;
    type Error = UnexpectedEof;

    open spec fn well_formed(&self) -> bool {
        true
    }

    open spec fn productive(&self) -> bool {
        true
    }

    open spec fn parses(
        &self,
        input: Seq<u8>,
        out: Result<(i64, Seq<u8>), UnexpectedEof>,
        after: Self,
    ) -> bool {
        &&& after.little_endian() == self.little_endian()
        &&& out == if input.len() < 8 {
            Err(UnexpectedEof)
        } else {
            Ok::<(i64, Seq<u8>), UnexpectedEof>((signed(if self.little_endian() { le_value(input.take(8)) as int } else { be_value(input.take(8)) as int }, 0x1_0000_0000_0000_0000) as i64, input.skip(8)))
        }
    }

    fn parse(&mut self, input: &'p [u8]) -> (res: Result<(i64, &'p [u8]), UnexpectedEof>) {
        if input.len() < 8 {
            Err(UnexpectedEof)
        } else {
            let v = signed64(if self.little { read_le8(input) } else { read_be8(input) });
            let (_, rest) = split_at(input, 8);
            Ok((v, rest))
        }
    }
}

/// A parser that reads a i64 in the byte order of the machine: the order in
/// which `i64::from_ne_bytes` reads the bytes 1, 0, 0, 0, 0, 0, 0, 0 as 1.
pub fn i64_ne() -> (p: I64Ne)
    ensures
        p.well_formed(),
{
    let little = i64_from_ne_bytes([1, 0, 0, 0, 0, 0, 0, 0]) == 1;
    I64Ne { little }
}

} // verus!
