use binparse::{
    consume, eof, error, i16_be, i16_le, i16_ne, i32_be, i32_le, i32_ne, i64_be, i64_le, i64_ne,
    i8, tag, take, u16_be, u16_le, u16_ne, u32_be, u32_le, u32_ne, u64_be, u64_le, u64_ne, u8,
    Either, ExpectedEof, Parser, ParserExt, TagError, TagMismatch, UnexpectedEof,
};
use core::num::NonZero;

fn non_zero_u16le<'p>() -> impl Parser<'p, Result = Option<NonZero<u16>>, Error = UnexpectedEof> {
    u16_le().map(NonZero::new)
}

#[test]
fn it_works() {
    let res = non_zero_u16le().parse(&[2, 0]);
    assert!(res.is_ok());
    assert_eq!(res.ok().unwrap(), (NonZero::new(2u16), &[][..]));
}

#[test]
fn consume_all() {
    let res = consume().parse(&[2, 0]);
    assert!(res.is_ok());
    assert_eq!(res.ok().unwrap(), (&[2, 0][..], &[][..]));
}

#[test]
fn map_parser() {
    let res = take(2)
        .map_err(|_| ())
        .map_parser(|x| x, (u16_le().map_err(|_| ()), eof().map_err(|_| ())))
        .parse(&[2, 0, 3, 4]);
    assert!(res.is_ok());
    assert_eq!(res.ok().unwrap(), ((2u16, ()), &[3u8, 4][..]));
}

#[test]
fn consume_empty_input() {
    assert_eq!(consume().parse(&[]), Ok((&[][..], &[][..])));
}

#[test]
fn take_splits_input() {
    let input = [1u8, 2, 3, 4, 5];
    let (v, rest) = take(3).parse(&input).unwrap();
    assert_eq!(v, &[1, 2, 3]);
    assert_eq!(rest, &[4, 5]);
    let mut joined = v.to_vec();
    joined.extend_from_slice(rest);
    assert_eq!(joined, input);
}

#[test]
fn take_zero_and_too_many() {
    assert_eq!(take(0).parse(&[7]), Ok((&[][..], &[7u8][..])));
    assert_eq!(take(3).parse(&[1, 2]), Err(UnexpectedEof));
}

#[test]
fn tag_matches_prefix() {
    assert_eq!(tag(b"ab").parse(b"abc"), Ok(((), &b"c"[..])));
    assert_eq!(tag(b"ab").parse(b"ax"), Err(TagError::TagMismatch(TagMismatch)));
    assert_eq!(tag(b"ab").parse(b"a"), Err(TagError::UnexpectedEof(UnexpectedEof)));
    assert_eq!(tag(b"").parse(b"z"), Ok(((), &b"z"[..])));
}

#[test]
fn eof_only_at_end() {
    assert_eq!(eof().parse(&[]), Ok(((), &[][..])));
    assert_eq!(eof().parse(&[0]), Err(ExpectedEof));
}

#[test]
fn error_always_fails() {
    let mut p = error(|| 42u32);
    assert!(matches!(p.parse(&[1, 2, 3]), Err(42)));
    assert!(matches!(p.parse(&[]), Err(42)));
}

#[test]
fn unsigned_little_endian() {
    assert_eq!(u8().parse(&[0xab, 1]), Ok((0xab, &[1u8][..])));
    assert_eq!(u16_le().parse(&[0x34, 0x12, 9]), Ok((0x1234, &[9u8][..])));
    assert_eq!(u32_le().parse(&[0x78, 0x56, 0x34, 0x12]), Ok((0x1234_5678, &[][..])));
    assert_eq!(
        u64_le().parse(&[0xef, 0xcd, 0xab, 0x89, 0x67, 0x45, 0x23, 0x01]),
        Ok((0x0123_4567_89ab_cdef, &[][..]))
    );
    assert_eq!(u64_le().parse(&[0xff; 8]), Ok((u64::MAX, &[][..])));
}

#[test]
fn unsigned_big_endian() {
    assert_eq!(u16_be().parse(&[0x12, 0x34]), Ok((0x1234, &[][..])));
    assert_eq!(u32_be().parse(&[0x12, 0x34, 0x56, 0x78, 0]), Ok((0x1234_5678, &[0u8][..])));
    assert_eq!(
        u64_be().parse(&[0x01, 0x23, 0x45, 0x67, 0x89, 0xab, 0xcd, 0xef]),
        Ok((0x0123_4567_89ab_cdef, &[][..]))
    );
}

#[test]
fn big_endian_is_reversed_little_endian() {
    let bytes = [0x01u8, 0x02, 0x03, 0x04];
    let mut reversed = bytes;
    reversed.reverse();
    assert_eq!(u32_be().parse(&bytes).unwrap().0, u32_le().parse(&reversed).unwrap().0);
}

#[test]
fn signed_readings() {
    assert_eq!(i8().parse(&[0xff]), Ok((-1, &[][..])));
    assert_eq!(i8().parse(&[0x80]), Ok((-128, &[][..])));
    assert_eq!(i8().parse(&[0x7f]), Ok((127, &[][..])));
    assert_eq!(i16_le().parse(&[0x00, 0x80]), Ok((i16::MIN, &[][..])));
    assert_eq!(i16_be().parse(&[0xff, 0xfe]), Ok((-2, &[][..])));
    assert_eq!(i32_le().parse(&[0xff, 0xff, 0xff, 0x7f]), Ok((i32::MAX, &[][..])));
    assert_eq!(i32_be().parse(&[0xff, 0xff, 0xff, 0xff]), Ok((-1, &[][..])));
    assert_eq!(i64_le().parse(&[0, 0, 0, 0, 0, 0, 0, 0x80]), Ok((i64::MIN, &[][..])));
    assert_eq!(i64_be().parse(&[0, 0, 0, 0, 0, 0, 1, 0]), Ok((256, &[][..])));
}

#[test]
fn signed_has_same_bits_as_unsigned() {
    let bytes = [0xfeu8, 0xff];
    let s = i16_le().parse(&bytes).unwrap().0;
    let u = u16_le().parse(&bytes).unwrap().0;
    assert_eq!(s as u16, u);
}

#[test]
fn short_inputs_fail() {
    assert_eq!(u8().parse(&[]), Err(UnexpectedEof));
    assert_eq!(i8().parse(&[]), Err(UnexpectedEof));
    assert_eq!(u16_le().parse(&[1]), Err(UnexpectedEof));
    assert_eq!(u32_be().parse(&[1, 2, 3]), Err(UnexpectedEof));
    assert_eq!(i64_le().parse(&[1, 2, 3, 4, 5, 6, 7]), Err(UnexpectedEof));
    assert_eq!(u16_ne().parse(&[1]), Err(UnexpectedEof));
    assert_eq!(i64_ne().parse(&[0; 7]), Err(UnexpectedEof));
}

#[test]
fn native_endian_is_machine_order() {
    let b2 = [0x12u8, 0x34];
    let b4 = [0x12u8, 0x34, 0x56, 0x78];
    let b8 = [1u8, 2, 3, 4, 5, 6, 7, 8];
    assert_eq!(u16_ne().parse(&b2), Ok((u16::from_ne_bytes(b2), &[][..])));
    assert_eq!(u32_ne().parse(&b4), Ok((u32::from_ne_bytes(b4), &[][..])));
    assert_eq!(u64_ne().parse(&b8), Ok((u64::from_ne_bytes(b8), &[][..])));
    assert_eq!(i16_ne().parse(&[0xff, 0x7f]), Ok((i16::from_ne_bytes([0xff, 0x7f]), &[][..])));
    assert_eq!(i32_ne().parse(&b4), Ok((i32::from_ne_bytes(b4), &[][..])));
    assert_eq!(i64_ne().parse(&b8), Ok((i64::from_ne_bytes(b8), &[][..])));
    let v = u16_ne().parse(&b2).unwrap().0;
    assert!(v == 0x3412 || v == 0x1234);
    assert_ne!(v, 0);
}

#[test]
fn and_is_like_pair() {
    let input = [1u8, 2, 3, 4];
    let a = u8().and(u16_be()).parse(&input);
    let b = (u8(), u16_be()).parse(&input);
    assert_eq!(a, b);
    assert_eq!(a, Ok(((1, 0x0203), &[4u8][..])));
    assert_eq!(u8().and(u16_be()).parse(&[1, 2]), Err(UnexpectedEof));
}

#[test]
fn and_then_uses_first_value() {
    let mut p = u8().and_then(|n| take(n as usize));
    assert_eq!(p.parse(&[2, 9, 8, 7]), Ok((&[9u8, 8][..], &[7u8][..])));
    assert_eq!(p.parse(&[3, 9]), Err(UnexpectedEof));
    assert_eq!(p.parse(&[]), Err(UnexpectedEof));
}

#[test]
fn map_res_can_fail() {
    let mut p = u8().map_res(|x| if x < 10 { Ok(x * 2) } else { Err(UnexpectedEof) });
    assert_eq!(p.parse(&[4, 1]), Ok((8, &[1u8][..])));
    assert_eq!(p.parse(&[40]), Err(UnexpectedEof));
}

#[test]
fn map_err_keeps_success() {
    let mut p = u16_le().map_err(|_| "short");
    assert_eq!(p.parse(&[1, 0, 5]), Ok((1, &[5u8][..])));
    assert_eq!(p.parse(&[1]), Err("short"));
}

#[test]
fn peek_keeps_input() {
    let input = [5u8, 6];
    assert_eq!(u8().peek().parse(&input), Ok((5, &input[..])));
    assert_eq!(u16_le().peek().parse(&[1]), Err(UnexpectedEof));
}

#[test]
fn repeat_folds_values() {
    let mut p = u8().repeat(3, || 0u32, |acc, x| acc + x as u32);
    assert_eq!(p.parse(&[1, 2, 3, 4]), Ok((6, &[4u8][..])));
    assert_eq!(p.parse(&[1, 2]), Err(UnexpectedEof));
}

#[test]
fn repeat_zero_reads_nothing() {
    let mut p = u8().repeat(0, || 7u32, |acc, x| acc + x as u32);
    assert_eq!(p.parse(&[1, 2]), Ok((7, &[1u8, 2][..])));
    assert_eq!(p.parse(&[]), Ok((7, &[][..])));
}

#[test]
fn repeat_until_eof_reads_all() {
    let mut p = u16_le().repeat_until_eof(Vec::new, |mut acc: Vec<u16>, x| {
        acc.push(x);
        acc
    });
    assert_eq!(p.parse(&[1, 0, 2, 0]), Ok((vec![1, 2], &[][..])));
    assert_eq!(p.parse(&[]), Ok((vec![], &[][..])));
    assert_eq!(p.parse(&[1, 0, 2]), Err(UnexpectedEof));
}

#[test]
fn either_runs_its_parser() {
    let mut left: Either<_, binparse::U16Be> = Either::Left(u16_le());
    let mut right: Either<binparse::U16Le, _> = Either::Right(u16_be());
    assert_eq!(left.parse(&[1, 0]), Ok((Either::Left(1), &[][..])));
    assert_eq!(right.parse(&[1, 0]), Ok((Either::Right(256), &[][..])));
    assert_eq!(left.parse(&[1]), Err(UnexpectedEof));
}

#[test]
fn tuples_run_in_order() {
    let input = [1u8, 2, 3, 4, 5, 6, 7];
    assert_eq!((u8(),).parse(&input), Ok(((1,), &input[1..])));
    assert_eq!((u8(), u8(), u8()).parse(&input), Ok(((1, 2, 3), &input[3..])));
    assert_eq!(
        (u8(), u16_le(), u32_be()).parse(&input),
        Ok(((1, 0x0302, 0x0405_0607), &[][..]))
    );
    assert_eq!((u8(), u16_le(), u32_be()).parse(&input[..6]), Err(UnexpectedEof));
}

#[test]
fn long_tuple() {
    let input: Vec<u8> = (0..24).collect();
    let p = (
        u8(), u8(), u8(), u8(), u8(), u8(), u8(), u8(), u8(), u8(), u8(), u8(), u8(), u8(), u8(),
        u8(), u8(), u8(), u8(), u8(), u8(), u8(), u8(), u8(),
    );
    let mut p = p;
    let (v, rest) = p.parse(&input).unwrap();
    assert_eq!(v.0, 0);
    assert_eq!(v.23, 23);
    assert!(rest.is_empty());
}

#[test]
fn error_messages() {
    assert_eq!(UnexpectedEof.message(), "unexpected eof");
    assert_eq!(ExpectedEof.message(), "expected eof");
    assert_eq!(TagMismatch.message(), "tag mismatch");
    assert_eq!(TagError::TagMismatch(TagMismatch).message(), "tag mismatch");
    assert_eq!(TagError::UnexpectedEof(UnexpectedEof).message(), "unexpected eof");
}

#[test]
fn repeat_until_eof_of_and_then() {
    let mut p = take(0)
        .and_then(|_| u8())
        .repeat_until_eof(|| 0u32, |acc, x| acc + x as u32);
    assert_eq!(p.parse(&[1, 2, 3]), Ok((6, &[][..])));
    assert_eq!(p.parse(&[]), Ok((0, &[][..])));
}

#[test]
fn repeat_until_eof_of_failing_peek() {
    let mut p = u8()
        .peek()
        .map_res(|_| Err::<u8, _>(UnexpectedEof))
        .repeat_until_eof(|| 0u32, |acc, x| acc + x as u32);
    assert_eq!(p.parse(&[1, 2]), Err(UnexpectedEof));
    assert_eq!(p.parse(&[]), Ok((0, &[][..])));
}
