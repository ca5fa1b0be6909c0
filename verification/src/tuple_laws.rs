//! How a tuple of parsers parses: its first parser runs on the input, and the
//! tuple of the others on what the first left.
use crate::parser::Parser;
use vstd::prelude::*;

verus! {

/// A tuple of one parser parses exactly as that parser does, with its value
/// in a tuple of one.
pub proof fn lemma_tuple1_runs_in_order<'p, E, P0: Parser<'p, Error = E>>(
    t: (P0,),
    input: Seq<u8>,
    out: Result<((P0::Result,), Seq<u8>), E>,
    after: (P0,),
)
    ensures
        t.parses(input, out, after) <==> match out {
            Ok((v, rest)) => t.0.parses(input, Ok((v.0, rest)), after.0),
            Err(e) => t.0.parses(input, Err(e), after.0),
        },
{
}

/// A tuple of 2 parsers succeeds exactly when its first parser reads a value
/// from the input and the tuple of the other 1 reads their values from
/// what the first left, one after the other; it leaves what the last left.
/// It fails when the first fails, and then the others do not run, or when the
/// others fail on what the first left.
pub proof fn lemma_tuple2_runs_in_order<'p, E, P0: Parser<'p, Error = E>, P1: Parser<'p, Error = E>>(
    t: (P0, P1),
    input: Seq<u8>,
    out: Result<((P0::Result, P1::Result), Seq<u8>), E>,
    after: (P0, P1),
)
    ensures
        t.parses(input, out, after) <==> match out {
            Ok((v, rest)) => exists|m: Seq<u8>|
                t.0.parses(input, Ok((v.0, m)), after.0) && (t.1,).parses(
                    m,
                    Ok(((v.1,), rest)),
                    (after.1,),
                ),
            Err(e) => {
                ||| t.0.parses(input, Err(e), after.0) && (after.1,) == (t.1,)
                ||| exists|v0: P0::Result, m: Seq<u8>|
                    t.0.parses(input, Ok((v0, m)), after.0) && (t.1,).parses(m, Err(e), (after.1,))
            },
        },
{
}

/// A tuple of 3 parsers succeeds exactly when its first parser reads a value
/// from the input and the tuple of the other 2 reads their values from
/// what the first left, one after the other; it leaves what the last left.
/// It fails when the first fails, and then the others do not run, or when the
/// others fail on what the first left.
pub proof fn lemma_tuple3_runs_in_order<'p, E, P0: Parser<'p, Error = E>, P1: Parser<'p, Error = E>, P2: Parser<'p, Error = E>>(
    t: (P0, P1, P2),
    input: Seq<u8>,
    out: Result<((P0::Result, P1::Result, P2::Result), Seq<u8>), E>,
    after: (P0, P1, P2),
)
    ensures
        t.parses(input, out, after) <==> match out {
            Ok((v, rest)) => exists|m: Seq<u8>|
                t.0.parses(input, Ok((v.0, m)), after.0) && (t.1, t.2).parses(
                    m,
                    Ok(((v.1, v.2), rest)),
                    (after.1, after.2),
                ),
            Err(e) => {
                ||| t.0.parses(input, Err(e), after.0) && (after.1, after.2) == (t.1, t.2)
                ||| exists|v0: P0::Result, m: Seq<u8>|
                    t.0.parses(input, Ok((v0, m)), after.0) && (t.1, t.2).parses(m, Err(e), (after.1, after.2))
            },
        },
{
}

/// A tuple of 4 parsers succeeds exactly when its first parser reads a value
/// from the input and the tuple of the other 3 reads their values from
/// what the first left, one after the other; it leaves what the last left.
/// It fails when the first fails, and then the others do not run, or when the
/// others fail on what the first left.
pub proof fn lemma_tuple4_runs_in_order<'p, E, P0: Parser<'p, Error = E>, P1: Parser<'p, Error = E>, P2: Parser<'p, Error = E>, P3: Parser<'p, Error = E>>(
    t: (P0, P1, P2, P3),
    input: Seq<u8>,
    out: Result<((P0::Result, P1::Result, P2::Result, P3::Result), Seq<u8>), E>,
    after: (P0, P1, P2, P3),
)
    ensures
        t.parses(input, out, after) <==> match out {
            Ok((v, rest)) => exists|m: Seq<u8>|
                t.0.parses(input, Ok((v.0, m)), after.0) && (t.1, t.2, t.3).parses(
                    m,
                    Ok(((v.1, v.2, v.3), rest)),
                    (after.1, after.2, after.3),
                ),
            Err(e) => {
                ||| t.0.parses(input, Err(e), after.0) && (after.1, after.2, after.3) == (t.1, t.2, t.3)
                ||| exists|v0: P0::Result, m: Seq<u8>|
                    t.0.parses(input, Ok((v0, m)), after.0) && (t.1, t.2, t.3).parses(m, Err(e), (after.1, after.2, after.3))
            },
        },
{
}

/// A tuple of 5 parsers succeeds exactly when its first parser reads a value
/// from the input and the tuple of the other 4 reads their values from
/// what the first left, one after the other; it leaves what the last left.
/// It fails when the first fails, and then the others do not run, or when the
/// others fail on what the first left.
pub proof fn lemma_tuple5_runs_in_order<'p, E, P0: Parser<'p, Error = E>, P1: Parser<'p, Error = E>, P2: Parser<'p, Error = E>, P3: Parser<'p, Error = E>, P4: Parser<'p, Error = E>>(
    t: (P0, P1, P2, P3, P4),
    input: Seq<u8>,
    out: Result<((P0::Result, P1::Result, P2::Result, P3::Result, P4::Result), Seq<u8>), E>,
    after: (P0, P1, P2, P3, P4),
)
    ensures
        t.parses(input, out, after) <==> match out {
            Ok((v, rest)) => exists|m: Seq<u8>|
                t.0.parses(input, Ok((v.0, m)), after.0) && (t.1, t.2, t.3, t.4).parses(
                    m,
                    Ok(((v.1, v.2, v.3, v.4), rest)),
                    (after.1, after.2, after.3, after.4),
                ),
            Err(e) => {
                ||| t.0.parses(input, Err(e), after.0) && (after.1, after.2, after.3, after.4) == (t.1, t.2, t.3, t.4)
                ||| exists|v0: P0::Result, m: Seq<u8>|
                    t.0.parses(input, Ok((v0, m)), after.0) && (t.1, t.2, t.3, t.4).parses(m, Err(e), (after.1, after.2, after.3, after.4))
            },
        },
{
}

/// A tuple of 6 parsers succeeds exactly when its first parser reads a value
/// from the input and the tuple of the other 5 reads their values from
/// what the first left, one after the other; it leaves what the last left.
/// It fails when the first fails, and then the others do not run, or when the
/// others fail on what the first left.
pub proof fn lemma_tuple6_runs_in_order<'p, E, P0: Parser<'p, Error = E>, P1: Parser<'p, Error = E>, P2: Parser<'p, Error = E>, P3: Parser<'p, Error = E>, P4: Parser<'p, Error = E>, P5: Parser<'p, Error = E>>(
    t: (P0, P1, P2, P3, P4, P5),
    input: Seq<u8>,
    out: Result<((P0::Result, P1::Result, P2::Result, P3::Result, P4::Result, P5::Result), Seq<u8>), E>,
    after: (P0, P1, P2, P3, P4, P5),
)
    ensures
        t.parses(input, out, after) <==> match out {
            Ok((v, rest)) => exists|m: Seq<u8>|
                t.0.parses(input, Ok((v.0, m)), after.0) && (t.1, t.2, t.3, t.4, t.5).parses(
                    m,
                    Ok(((v.1, v.2, v.3, v.4, v.5), rest)),
                    (after.1, after.2, after.3, after.4, after.5),
                ),
            Err(e) => {
                ||| t.0.parses(input, Err(e), after.0) && (after.1, after.2, after.3, after.4, after.5) == (t.1, t.2, t.3, t.4, t.5)
                ||| exists|v0: P0::Result, m: Seq<u8>|
                    t.0.parses(input, Ok((v0, m)), after.0) && (t.1, t.2, t.3, t.4, t.5).parses(m, Err(e), (after.1, after.2, after.3, after.4, after.5))
            },
        },
{
}

/// A tuple of 7 parsers succeeds exactly when its first parser reads a value
/// from the input and the tuple of the other 6 reads their values from
/// what the first left, one after the other; it leaves what the last left.
/// It fails when the first fails, and then the others do not run, or when the
/// others fail on what the first left.
pub proof fn lemma_tuple7_runs_in_order<'p, E, P0: Parser<'p, Error = E>, P1: Parser<'p, Error = E>, P2: Parser<'p, Error = E>, P3: Parser<'p, Error = E>, P4: Parser<'p, Error = E>, P5: Parser<'p, Error = E>, P6: Parser<'p, Error = E>>(
    t: (P0, P1, P2, P3, P4, P5, P6),
    input: Seq<u8>,
    out: Result<((P0::Result, P1::Result, P2::Result, P3::Result, P4::Result, P5::Result, P6::Result), Seq<u8>), E>,
    after: (P0, P1, P2, P3, P4, P5, P6),
)
    ensures
        t.parses(input, out, after) <==> match out {
            Ok((v, rest)) => exists|m: Seq<u8>|
                t.0.parses(input, Ok((v.0, m)), after.0) && (t.1, t.2, t.3, t.4, t.5, t.6).parses(
                    m,
                    Ok(((v.1, v.2, v.3, v.4, v.5, v.6), rest)),
                    (after.1, after.2, after.3, after.4, after.5, after.6),
                ),
            Err(e) => {
                ||| t.0.parses(input, Err(e), after.0) && (after.1, after.2, after.3, after.4, after.5, after.6) == (t.1, t.2, t.3, t.4, t.5, t.6)
                ||| exists|v0: P0::Result, m: Seq<u8>|
                    t.0.parses(input, Ok((v0, m)), after.0) && (t.1, t.2, t.3, t.4, t.5, t.6).parses(m, Err(e), (after.1, after.2, after.3, after.4, after.5, after.6))
            },
        },
{
}

/// A tuple of 8 parsers succeeds exactly when its first parser reads a value
/// from the input and the tuple of the other 7 reads their values from
/// what the first left, one after the other; it leaves what the last left.
/// It fails when the first fails, and then the others do not run, or when the
/// others fail on what the first left.
pub proof fn lemma_tuple8_runs_in_order<'p, E, P0: Parser<'p, Error = E>, P1: Parser<'p, Error = E>, P2: Parser<'p, Error = E>, P3: Parser<'p, Error = E>, P4: Parser<'p, Error = E>, P5: Parser<'p, Error = E>, P6: Parser<'p, Error = E>, P7: Parser<'p, Error = E>>(
    t: (P0, P1, P2, P3, P4, P5, P6, P7),
    input: Seq<u8>,
    out: Result<((P0::Result, P1::Result, P2::Result, P3::Result, P4::Result, P5::Result, P6::Result, P7::Result), Seq<u8>), E>,
    after: (P0, P1, P2, P3, P4, P5, P6, P7),
)
    ensures
        t.parses(input, out, after) <==> match out {
            Ok((v, rest)) => exists|m: Seq<u8>|
                t.0.parses(input, Ok((v.0, m)), after.0) && (t.1, t.2, t.3, t.4, t.5, t.6, t.7).parses(
                    m,
                    Ok(((v.1, v.2, v.3, v.4, v.5, v.6, v.7), rest)),
                    (after.1, after.2, after.3, after.4, after.5, after.6, after.7),
                ),
            Err(e) => {
                ||| t.0.parses(input, Err(e), after.0) && (after.1, after.2, after.3, after.4, after.5, after.6, after.7) == (t.1, t.2, t.3, t.4, t.5, t.6, t.7)
                ||| exists|v0: P0::Result, m: Seq<u8>|
                    t.0.parses(input, Ok((v0, m)), after.0) && (t.1, t.2, t.3, t.4, t.5, t.6, t.7).parses(m, Err(e), (after.1, after.2, after.3, after.4, after.5, after.6, after.7))
            },
        },
{
}

/// A tuple of 9 parsers succeeds exactly when its first parser reads a value
/// from the input and the tuple of the other 8 reads their values from
/// what the first left, one after the other; it leaves what the last left.
/// It fails when the first fails, and then the others do not run, or when the
/// others fail on what the first left.
pub proof fn lemma_tuple9_runs_in_order<'p, E, P0: Parser<'p, Error = E>, P1: Parser<'p, Error = E>, P2: Parser<'p, Error = E>, P3: Parser<'p, Error = E>, P4: Parser<'p, Error = E>, P5: Parser<'p, Error = E>, P6: Parser<'p, Error = E>, P7: Parser<'p, Error = E>, P8: Parser<'p, Error = E>>(
    t: (P0, P1, P2, P3, P4, P5, P6, P7, P8),
    input: Seq<u8>,
    out: Result<((P0::Result, P1::Result, P2::Result, P3::Result, P4::Result, P5::Result, P6::Result, P7::Result, P8::Result), Seq<u8>), E>,
    after: (P0, P1, P2, P3, P4, P5, P6, P7, P8),
)
    ensures
        t.parses(input, out, after) <==> match out {
            Ok((v, rest)) => exists|m: Seq<u8>|
                t.0.parses(input, Ok((v.0, m)), after.0) && (t.1, t.2, t.3, t.4, t.5, t.6, t.7, t.8).parses(
                    m,
                    Ok(((v.1, v.2, v.3, v.4, v.5, v.6, v.7, v.8), rest)),
                    (after.1, after.2, after.3, after.4, after.5, after.6, after.7, after.8),
                ),
            Err(e) => {
                ||| t.0.parses(input, Err(e), after.0) && (after.1, after.2, after.3, after.4, after.5, after.6, after.7, after.8) == (t.1, t.2, t.3, t.4, t.5, t.6, t.7, t.8)
                ||| exists|v0: P0::Result, m: Seq<u8>|
                    t.0.parses(input, Ok((v0, m)), after.0) && (t.1, t.2, t.3, t.4, t.5, t.6, t.7, t.8).parses(m, Err(e), (after.1, after.2, after.3, after.4, after.5, after.6, after.7, after.8))
            },
        },
{
}

/// A tuple of 10 parsers succeeds exactly when its first parser reads a value
/// from the input and the tuple of the other 9 reads their values from
/// what the first left, one after the other; it leaves what the last left.
/// It fails when the first fails, and then the others do not run, or when the
/// others fail on what the first left.
pub proof fn lemma_tuple10_runs_in_order<'p, E, P0: Parser<'p, Error = E>, P1: Parser<'p, Error = E>, P2: Parser<'p, Error = E>, P3: Parser<'p, Error = E>, P4: Parser<'p, Error = E>, P5: Parser<'p, Error = E>, P6: Parser<'p, Error = E>, P7: Parser<'p, Error = E>, P8: Parser<'p, Error = E>, P9: Parser<'p, Error = E>>(
    t: (P0, P1, P2, P3, P4, P5, P6, P7, P8, P9),
    input: Seq<u8>,
    out: Result<((P0::Result, P1::Result, P2::Result, P3::Result, P4::Result, P5::Result, P6::Result, P7::Result, P8::Result, P9::Result), Seq<u8>), E>,
    after: (P0, P1, P2, P3, P4, P5, P6, P7, P8, P9),
)
    ensures
        t.parses(input, out, after) <==> match out {
            Ok((v, rest)) => exists|m: Seq<u8>|
                t.0.parses(input, Ok((v.0, m)), after.0) && (t.1, t.2, t.3, t.4, t.5, t.6, t.7, t.8, t.9).parses(
                    m,
                    Ok(((v.1, v.2, v.3, v.4, v.5, v.6, v.7, v.8, v.9), rest)),
                    (after.1, after.2, after.3, after.4, after.5, after.6, after.7, after.8, after.9),
                ),
            Err(e) => {
                ||| t.0.parses(input, Err(e), after.0) && (after.1, after.2, after.3, after.4, after.5, after.6, after.7, after.8, after.9) == (t.1, t.2, t.3, t.4, t.5, t.6, t.7, t.8, t.9)
                ||| exists|v0: P0::Result, m: Seq<u8>|
                    t.0.parses(input, Ok((v0, m)), after.0) && (t.1, t.2, t.3, t.4, t.5, t.6, t.7, t.8, t.9).parses(m, Err(e), (after.1, after.2, after.3, after.4, after.5, after.6, after.7, after.8, after.9))
            },
        },
{
}

/// A tuple of 11 parsers succeeds exactly when its first parser reads a value
/// from the input and the tuple of the other 10 reads their values from
/// what the first left, one after the other; it leaves what the last left.
/// It fails when the first fails, and then the others do not run, or when the
/// others fail on what the first left.
pub proof fn lemma_tuple11_runs_in_order<'p, E, P0: Parser<'p, Error = E>, P1: Parser<'p, Error = E>, P2: Parser<'p, Error = E>, P3: Parser<'p, Error = E>, P4: Parser<'p, Error = E>, P5: Parser<'p, Error = E>, P6: Parser<'p, Error = E>, P7: Parser<'p, Error = E>, P8: Parser<'p, Error = E>, P9: Parser<'p, Error = E>, P10: Parser<'p, Error = E>>(
    t: (P0, P1, P2, P3, P4, P5, P6, P7, P8, P9, P10),
    input: Seq<u8>,
    out: Result<((P0::Result, P1::Result, P2::Result, P3::Result, P4::Result, P5::Result, P6::Result, P7::Result, P8::Result, P9::Result, P10::Result), Seq<u8>), E>,
    after: (P0, P1, P2, P3, P4, P5, P6, P7, P8, P9, P10),
)
    ensures
        t.parses(input, out, after) <==> match out {
            Ok((v, rest)) => exists|m: Seq<u8>|
                t.0.parses(input, Ok((v.0, m)), after.0) && (t.1, t.2, t.3, t.4, t.5, t.6, t.7, t.8, t.9, t.10).parses(
                    m,
                    Ok(((v.1, v.2, v.3, v.4, v.5, v.6, v.7, v.8, v.9, v.10), rest)),
                    (after.1, after.2, after.3, after.4, after.5, after.6, after.7, after.8, after.9, after.10),
                ),
            Err(e) => {
                ||| t.0.parses(input, Err(e), after.0) && (after.1, after.2, after.3, after.4, after.5, after.6, after.7, after.8, after.9, after.10) == (t.1, t.2, t.3, t.4, t.5, t.6, t.7, t.8, t.9, t.10)
                ||| exists|v0: P0::Result, m: Seq<u8>|
                    t.0.parses(input, Ok((v0, m)), after.0) && (t.1, t.2, t.3, t.4, t.5, t.6, t.7, t.8, t.9, t.10).parses(m, Err(e), (after.1, after.2, after.3, after.4, after.5, after.6, after.7, after.8, after.9, after.10))
            },
        },
{
}

/// A tuple of 12 parsers succeeds exactly when its first parser reads a value
/// from the input and the tuple of the other 11 reads their values from
/// what the first left, one after the other; it leaves what the last left.
/// It fails when the first fails, and then the others do not run, or when the
/// others fail on what the first left.
pub proof fn lemma_tuple12_runs_in_order<'p, E, P0: Parser<'p, Error = E>, P1: Parser<'p, Error = E>, P2: Parser<'p, Error = E>, P3: Parser<'p, Error = E>, P4: Parser<'p, Error = E>, P5: Parser<'p, Error = E>, P6: Parser<'p, Error = E>, P7: Parser<'p, Error = E>, P8: Parser<'p, Error = E>, P9: Parser<'p, Error = E>, P10: Parser<'p, Error = E>, P11: Parser<'p, Error = E>>(
    t: (P0, P1, P2, P3, P4, P5, P6, P7, P8, P9, P10, P11),
    input: Seq<u8>,
    out: Result<((P0::Result, P1::Result, P2::Result, P3::Result, P4::Result, P5::Result, P6::Result, P7::Result, P8::Result, P9::Result, P10::Result, P11::Result), Seq<u8>), E>,
    after: (P0, P1, P2, P3, P4, P5, P6, P7, P8, P9, P10, P11),
)
    ensures
        t.parses(input, out, after) <==> match out {
            Ok((v, rest)) => exists|m: Seq<u8>|
                t.0.parses(input, Ok((v.0, m)), after.0) && (t.1, t.2, t.3, t.4, t.5, t.6, t.7, t.8, t.9, t.10, t.11).parses(
                    m,
                    Ok(((v.1, v.2, v.3, v.4, v.5, v.6, v.7, v.8, v.9, v.10, v.11), rest)),
                    (after.1, after.2, after.3, after.4, after.5, after.6, after.7, after.8, after.9, after.10, after.11),
                ),
            Err(e) => {
                ||| t.0.parses(input, Err(e), after.0) && (after.1, after.2, after.3, after.4, after.5, after.6, after.7, after.8, after.9, after.10, after.11) == (t.1, t.2, t.3, t.4, t.5, t.6, t.7, t.8, t.9, t.10, t.11)
                ||| exists|v0: P0::Result, m: Seq<u8>|
                    t.0.parses(input, Ok((v0, m)), after.0) && (t.1, t.2, t.3, t.4, t.5, t.6, t.7, t.8, t.9, t.10, t.11).parses(m, Err(e), (after.1, after.2, after.3, after.4, after.5, after.6, after.7, after.8, after.9, after.10, after.11))
            },
        },
{
}

/// A tuple of 13 parsers succeeds exactly when its first parser reads a value
/// from the input and the tuple of the other 12 reads their values from
/// what the first left, one after the other; it leaves what the last left.
/// It fails when the first fails, and then the others do not run, or when the
/// others fail on what the first left.
pub proof fn lemma_tuple13_runs_in_order<'p, E, P0: Parser<'p, Error = E>, P1: Parser<'p, Error = E>, P2: Parser<'p, Error = E>, P3: Parser<'p, Error = E>, P4: Parser<'p, Error = E>, P5: Parser<'p, Error = E>, P6: Parser<'p, Error = E>, P7: Parser<'p, Error = E>, P8: Parser<'p, Error = E>, P9: Parser<'p, Error = E>, P10: Parser<'p, Error = E>, P11: Parser<'p, Error = E>, P12: Parser<'p, Error = E>>(
    t: (P0, P1, P2, P3, P4, P5, P6, P7, P8, P9, P10, P11, P12),
    input: Seq<u8>,
    out: Result<((P0::Result, P1::Result, P2::Result, P3::Result, P4::Result, P5::Result, P6::Result, P7::Result, P8::Result, P9::Result, P10::Result, P11::Result, P12::Result), Seq<u8>), E>,
    after: (P0, P1, P2, P3, P4, P5, P6, P7, P8, P9, P10, P11, P12),
)
    ensures
        t.parses(input, out, after) <==> match out {
            Ok((v, rest)) => exists|m: Seq<u8>|
                t.0.parses(input, Ok((v.0, m)), after.0) && (t.1, t.2, t.3, t.4, t.5, t.6, t.7, t.8, t.9, t.10, t.11, t.12).parses(
                    m,
                    Ok(((v.1, v.2, v.3, v.4, v.5, v.6, v.7, v.8, v.9, v.10, v.11, v.12), rest)),
                    (after.1, after.2, after.3, after.4, after.5, after.6, after.7, after.8, after.9, after.10, after.11, after.12),
                ),
            Err(e) => {
                ||| t.0.parses(input, Err(e), after.0) && (after.1, after.2, after.3, after.4, after.5, after.6, after.7, after.8, after.9, after.10, after.11, after.12) == (t.1, t.2, t.3, t.4, t.5, t.6, t.7, t.8, t.9, t.10, t.11, t.12)
                ||| exists|v0: P0::Result, m: Seq<u8>|
                    t.0.parses(input, Ok((v0, m)), after.0) && (t.1, t.2, t.3, t.4, t.5, t.6, t.7, t.8, t.9, t.10, t.11, t.12).parses(m, Err(e), (after.1, after.2, after.3, after.4, after.5, after.6, after.7, after.8, after.9, after.10, after.11, after.12))
            },
        },
{
}

/// A tuple of 14 parsers succeeds exactly when its first parser reads a value
/// from the input and the tuple of the other 13 reads their values from
/// what the first left, one after the other; it leaves what the last left.
/// It fails when the first fails, and then the others do not run, or when the
/// others fail on what the first left.
pub proof fn lemma_tuple14_runs_in_order<'p, E, P0: Parser<'p, Error = E>, P1: Parser<'p, Error = E>, P2: Parser<'p, Error = E>, P3: Parser<'p, Error = E>, P4: Parser<'p, Error = E>, P5: Parser<'p, Error = E>, P6: Parser<'p, Error = E>, P7: Parser<'p, Error = E>, P8: Parser<'p, Error = E>, P9: Parser<'p, Error = E>, P10: Parser<'p, Error = E>, P11: Parser<'p, Error = E>, P12: Parser<'p, Error = E>, P13: Parser<'p, Error = E>>(
    t: (P0, P1, P2, P3, P4, P5, P6, P7, P8, P9, P10, P11, P12, P13),
    input: Seq<u8>,
    out: Result<((P0::Result, P1::Result, P2::Result, P3::Result, P4::Result, P5::Result, P6::Result, P7::Result, P8::Result, P9::Result, P10::Result, P11::Result, P12::Result, P13::Result), Seq<u8>), E>,
    after: (P0, P1, P2, P3, P4, P5, P6, P7, P8, P9, P10, P11, P12, P13),
)
    ensures
        t.parses(input, out, after) <==> match out {
            Ok((v, rest)) => exists|m: Seq<u8>|
                t.0.parses(input, Ok((v.0, m)), after.0) && (t.1, t.2, t.3, t.4, t.5, t.6, t.7, t.8, t.9, t.10, t.11, t.12, t.13).parses(
                    m,
                    Ok(((v.1, v.2, v.3, v.4, v.5, v.6, v.7, v.8, v.9, v.10, v.11, v.12, v.13), rest)),
                    (after.1, after.2, after.3, after.4, after.5, after.6, after.7, after.8, after.9, after.10, after.11, after.12, after.13),
                ),
            Err(e) => {
                ||| t.0.parses(input, Err(e), after.0) && (after.1, after.2, after.3, after.4, after.5, after.6, after.7, after.8, after.9, after.10, after.11, after.12, after.13) == (t.1, t.2, t.3, t.4, t.5, t.6, t.7, t.8, t.9, t.10, t.11, t.12, t.13)
                ||| exists|v0: P0::Result, m: Seq<u8>|
                    t.0.parses(input, Ok((v0, m)), after.0) && (t.1, t.2, t.3, t.4, t.5, t.6, t.7, t.8, t.9, t.10, t.11, t.12, t.13).parses(m, Err(e), (after.1, after.2, after.3, after.4, after.5, after.6, after.7, after.8, after.9, after.10, after.11, after.12, after.13))
            },
        },
{
}

/// A tuple of 15 parsers succeeds exactly when its first parser reads a value
/// from the input and the tuple of the other 14 reads their values from
/// what the first left, one after the other; it leaves what the last left.
/// It fails when the first fails, and then the others do not run, or when the
/// others fail on what the first left.
pub proof fn lemma_tuple15_runs_in_order<'p, E, P0: Parser<'p, Error = E>, P1: Parser<'p, Error = E>, P2: Parser<'p, Error = E>, P3: Parser<'p, Error = E>, P4: Parser<'p, Error = E>, P5: Parser<'p, Error = E>, P6: Parser<'p, Error = E>, P7: Parser<'p, Error = E>, P8: Parser<'p, Error = E>, P9: Parser<'p, Error = E>, P10: Parser<'p, Error = E>, P11: Parser<'p, Error = E>, P12: Parser<'p, Error = E>, P13: Parser<'p, Error = E>, P14: Parser<'p, Error = E>>(
    t: (P0, P1, P2, P3, P4, P5, P6, P7, P8, P9, P10, P11, P12, P13, P14),
    input: Seq<u8>,
    out: Result<((P0::Result, P1::Result, P2::Result, P3::Result, P4::Result, P5::Result, P6::Result, P7::Result, P8::Result, P9::Result, P10::Result, P11::Result, P12::Result, P13::Result, P14::Result), Seq<u8>), E>,
    after: (P0, P1, P2, P3, P4, P5, P6, P7, P8, P9, P10, P11, P12, P13, P14),
)
    ensures
        t.parses(input, out, after) <==> match out {
            Ok((v, rest)) => exists|m: Seq<u8>|
                t.0.parses(input, Ok((v.0, m)), after.0) && (t.1, t.2, t.3, t.4, t.5, t.6, t.7, t.8, t.9, t.10, t.11, t.12, t.13, t.14).parses(
                    m,
                    Ok(((v.1, v.2, v.3, v.4, v.5, v.6, v.7, v.8, v.9, v.10, v.11, v.12, v.13, v.14), rest)),
                    (after.1, after.2, after.3, after.4, after.5, after.6, after.7, after.8, after.9, after.10, after.11, after.12, after.13, after.14),
                ),
            Err(e) => {
                ||| t.0.parses(input, Err(e), after.0) && (after.1, after.2, after.3, after.4, after.5, after.6, after.7, after.8, after.9, after.10, after.11, after.12, after.13, after.14) == (t.1, t.2, t.3, t.4, t.5, t.6, t.7, t.8, t.9, t.10, t.11, t.12, t.13, t.14)
                ||| exists|v0: P0::Result, m: Seq<u8>|
                    t.0.parses(input, Ok((v0, m)), after.0) && (t.1, t.2, t.3, t.4, t.5, t.6, t.7, t.8, t.9, t.10, t.11, t.12, t.13, t.14).parses(m, Err(e), (after.1, after.2, after.3, after.4, after.5, after.6, after.7, after.8, after.9, after.10, after.11, after.12, after.13, after.14))
            },
        },
{
}

/// A tuple of 16 parsers succeeds exactly when its first parser reads a value
/// from the input and the tuple of the other 15 reads their values from
/// what the first left, one after the other; it leaves what the last left.
/// It fails when the first fails, and then the others do not run, or when the
/// others fail on what the first left.
pub proof fn lemma_tuple16_runs_in_order<'p, E, P0: Parser<'p, Error = E>, P1: Parser<'p, Error = E>, P2: Parser<'p, Error = E>, P3: Parser<'p, Error = E>, P4: Parser<'p, Error = E>, P5: Parser<'p, Error = E>, P6: Parser<'p, Error = E>, P7: Parser<'p, Error = E>, P8: Parser<'p, Error = E>, P9: Parser<'p, Error = E>, P10: Parser<'p, Error = E>, P11: Parser<'p, Error = E>, P12: Parser<'p, Error = E>, P13: Parser<'p, Error = E>, P14: Parser<'p, Error = E>, P15: Parser<'p, Error = E>>(
    t: (P0, P1, P2, P3, P4, P5, P6, P7, P8, P9, P10, P11, P12, P13, P14, P15),
    input: Seq<u8>,
    out: Result<((P0::Result, P1::Result, P2::Result, P3::Result, P4::Result, P5::Result, P6::Result, P7::Result, P8::Result, P9::Result, P10::Result, P11::Result, P12::Result, P13::Result, P14::Result, P15::Result), Seq<u8>), E>,
    after: (P0, P1, P2, P3, P4, P5, P6, P7, P8, P9, P10, P11, P12, P13, P14, P15),
)
    ensures
        t.parses(input, out, after) <==> match out {
            Ok((v, rest)) => exists|m: Seq<u8>|
                t.0.parses(input, Ok((v.0, m)), after.0) && (t.1, t.2, t.3, t.4, t.5, t.6, t.7, t.8, t.9, t.10, t.11, t.12, t.13, t.14, t.15).parses(
                    m,
                    Ok(((v.1, v.2, v.3, v.4, v.5, v.6, v.7, v.8, v.9, v.10, v.11, v.12, v.13, v.14, v.15), rest)),
                    (after.1, after.2, after.3, after.4, after.5, after.6, after.7, after.8, after.9, after.10, after.11, after.12, after.13, after.14, after.15),
                ),
            Err(e) => {
                ||| t.0.parses(input, Err(e), after.0) && (after.1, after.2, after.3, after.4, after.5, after.6, after.7, after.8, after.9, after.10, after.11, after.12, after.13, after.14, after.15) == (t.1, t.2, t.3, t.4, t.5, t.6, t.7, t.8, t.9, t.10, t.11, t.12, t.13, t.14, t.15)
                ||| exists|v0: P0::Result, m: Seq<u8>|
                    t.0.parses(input, Ok((v0, m)), after.0) && (t.1, t.2, t.3, t.4, t.5, t.6, t.7, t.8, t.9, t.10, t.11, t.12, t.13, t.14, t.15).parses(m, Err(e), (after.1, after.2, after.3, after.4, after.5, after.6, after.7, after.8, after.9, after.10, after.11, after.12, after.13, after.14, after.15))
            },
        },
{
}

/// A tuple of 17 parsers succeeds exactly when its first parser reads a value
/// from the input and the tuple of the other 16 reads their values from
/// what the first left, one after the other; it leaves what the last left.
/// It fails when the first fails, and then the others do not run, or when the
/// others fail on what the first left.
pub proof fn lemma_tuple17_runs_in_order<'p, E, P0: Parser<'p, Error = E>, P1: Parser<'p, Error = E>, P2: Parser<'p, Error = E>, P3: Parser<'p, Error = E>, P4: Parser<'p, Error = E>, P5: Parser<'p, Error = E>, P6: Parser<'p, Error = E>, P7: Parser<'p, Error = E>, P8: Parser<'p, Error = E>, P9: Parser<'p, Error = E>, P10: Parser<'p, Error = E>, P11: Parser<'p, Error = E>, P12: Parser<'p, Error = E>, P13: Parser<'p, Error = E>, P14: Parser<'p, Error = E>, P15: Parser<'p, Error = E>, P16: Parser<'p, Error = E>>(
    t: (P0, P1, P2, P3, P4, P5, P6, P7, P8, P9, P10, P11, P12, P13, P14, P15, P16),
    input: Seq<u8>,
    out: Result<((P0::Result, P1::Result, P2::Result, P3::Result, P4::Result, P5::Result, P6::Result, P7::Result, P8::Result, P9::Result, P10::Result, P11::Result, P12::Result, P13::Result, P14::Result, P15::Result, P16::Result), Seq<u8>), E>,
    after: (P0, P1, P2, P3, P4, P5, P6, P7, P8, P9, P10, P11, P12, P13, P14, P15, P16),
)
    ensures
        t.parses(input, out, after) <==> match out {
            Ok((v, rest)) => exists|m: Seq<u8>|
                t.0.parses(input, Ok((v.0, m)), after.0) && (t.1, t.2, t.3, t.4, t.5, t.6, t.7, t.8, t.9, t.10, t.11, t.12, t.13, t.14, t.15, t.16).parses(
                    m,
                    Ok(((v.1, v.2, v.3, v.4, v.5, v.6, v.7, v.8, v.9, v.10, v.11, v.12, v.13, v.14, v.15, v.16), rest)),
                    (after.1, after.2, after.3, after.4, after.5, after.6, after.7, after.8, after.9, after.10, after.11, after.12, after.13, after.14, after.15, after.16),
                ),
            Err(e) => {
                ||| t.0.parses(input, Err(e), after.0) && (after.1, after.2, after.3, after.4, after.5, after.6, after.7, after.8, after.9, after.10, after.11, after.12, after.13, after.14, after.15, after.16) == (t.1, t.2, t.3, t.4, t.5, t.6, t.7, t.8, t.9, t.10, t.11, t.12, t.13, t.14, t.15, t.16)
                ||| exists|v0: P0::Result, m: Seq<u8>|
                    t.0.parses(input, Ok((v0, m)), after.0) && (t.1, t.2, t.3, t.4, t.5, t.6, t.7, t.8, t.9, t.10, t.11, t.12, t.13, t.14, t.15, t.16).parses(m, Err(e), (after.1, after.2, after.3, after.4, after.5, after.6, after.7, after.8, after.9, after.10, after.11, after.12, after.13, after.14, after.15, after.16))
            },
        },
{
}

/// A tuple of 18 parsers succeeds exactly when its first parser reads a value
/// from the input and the tuple of the other 17 reads their values from
/// what the first left, one after the other; it leaves what the last left.
/// It fails when the first fails, and then the others do not run, or when the
/// others fail on what the first left.
pub proof fn lemma_tuple18_runs_in_order<'p, E, P0: Parser<'p, Error = E>, P1: Parser<'p, Error = E>, P2: Parser<'p, Error = E>, P3: Parser<'p, Error = E>, P4: Parser<'p, Error = E>, P5: Parser<'p, Error = E>, P6: Parser<'p, Error = E>, P7: Parser<'p, Error = E>, P8: Parser<'p, Error = E>, P9: Parser<'p, Error = E>, P10: Parser<'p, Error = E>, P11: Parser<'p, Error = E>, P12: Parser<'p, Error = E>, P13: Parser<'p, Error = E>, P14: Parser<'p, Error = E>, P15: Parser<'p, Error = E>, P16: Parser<'p, Error = E>, P17: Parser<'p, Error = E>>(
    t: (P0, P1, P2, P3, P4, P5, P6, P7, P8, P9, P10, P11, P12, P13, P14, P15, P16, P17),
    input: Seq<u8>,
    out: Result<((P0::Result, P1::Result, P2::Result, P3::Result, P4::Result, P5::Result, P6::Result, P7::Result, P8::Result, P9::Result, P10::Result, P11::Result, P12::Result, P13::Result, P14::Result, P15::Result, P16::Result, P17::Result), Seq<u8>), E>,
    after: (P0, P1, P2, P3, P4, P5, P6, P7, P8, P9, P10, P11, P12, P13, P14, P15, P16, P17),
)
    ensures
        t.parses(input, out, after) <==> match out {
            Ok((v, rest)) => exists|m: Seq<u8>|
                t.0.parses(input, Ok((v.0, m)), after.0) && (t.1, t.2, t.3, t.4, t.5, t.6, t.7, t.8, t.9, t.10, t.11, t.12, t.13, t.14, t.15, t.16, t.17).parses(
                    m,
                    Ok(((v.1, v.2, v.3, v.4, v.5, v.6, v.7, v.8, v.9, v.10, v.11, v.12, v.13, v.14, v.15, v.16, v.17), rest)),
                    (after.1, after.2, after.3, after.4, after.5, after.6, after.7, after.8, after.9, after.10, after.11, after.12, after.13, after.14, after.15, after.16, after.17),
                ),
            Err(e) => {
                ||| t.0.parses(input, Err(e), after.0) && (after.1, after.2, after.3, after.4, after.5, after.6, after.7, after.8, after.9, after.10, after.11, after.12, after.13, after.14, after.15, after.16, after.17) == (t.1, t.2, t.3, t.4, t.5, t.6, t.7, t.8, t.9, t.10, t.11, t.12, t.13, t.14, t.15, t.16, t.17)
                ||| exists|v0: P0::Result, m: Seq<u8>|
                    t.0.parses(input, Ok((v0, m)), after.0) && (t.1, t.2, t.3, t.4, t.5, t.6, t.7, t.8, t.9, t.10, t.11, t.12, t.13, t.14, t.15, t.16, t.17).parses(m, Err(e), (after.1, after.2, after.3, after.4, after.5, after.6, after.7, after.8, after.9, after.10, after.11, after.12, after.13, after.14, after.15, after.16, after.17))
            },
        },
{
}

/// A tuple of 19 parsers succeeds exactly when its first parser reads a value
/// from the input and the tuple of the other 18 reads their values from
/// what the first left, one after the other; it leaves what the last left.
/// It fails when the first fails, and then the others do not run, or when the
/// others fail on what the first left.
pub proof fn lemma_tuple19_runs_in_order<'p, E, P0: Parser<'p, Error = E>, P1: Parser<'p, Error = E>, P2: Parser<'p, Error = E>, P3: Parser<'p, Error = E>, P4: Parser<'p, Error = E>, P5: Parser<'p, Error = E>, P6: Parser<'p, Error = E>, P7: Parser<'p, Error = E>, P8: Parser<'p, Error = E>, P9: Parser<'p, Error = E>, P10: Parser<'p, Error = E>, P11: Parser<'p, Error = E>, P12: Parser<'p, Error = E>, P13: Parser<'p, Error = E>, P14: Parser<'p, Error = E>, P15: Parser<'p, Error = E>, P16: Parser<'p, Error = E>, P17: Parser<'p, Error = E>, P18: Parser<'p, Error = E>>(
    t: (P0, P1, P2, P3, P4, P5, P6, P7, P8, P9, P10, P11, P12, P13, P14, P15, P16, P17, P18),
    input: Seq<u8>,
    out: Result<((P0::Result, P1::Result, P2::Result, P3::Result, P4::Result, P5::Result, P6::Result, P7::Result, P8::Result, P9::Result, P10::Result, P11::Result, P12::Result, P13::Result, P14::Result, P15::Result, P16::Result, P17::Result, P18::Result), Seq<u8>), E>,
    after: (P0, P1, P2, P3, P4, P5, P6, P7, P8, P9, P10, P11, P12, P13, P14, P15, P16, P17, P18),
)
    ensures
        t.parses(input, out, after) <==> match out {
            Ok((v, rest)) => exists|m: Seq<u8>|
                t.0.parses(input, Ok((v.0, m)), after.0) && (t.1, t.2, t.3, t.4, t.5, t.6, t.7, t.8, t.9, t.10, t.11, t.12, t.13, t.14, t.15, t.16, t.17, t.18).parses(
                    m,
                    Ok(((v.1, v.2, v.3, v.4, v.5, v.6, v.7, v.8, v.9, v.10, v.11, v.12, v.13, v.14, v.15, v.16, v.17, v.18), rest)),
                    (after.1, after.2, after.3, after.4, after.5, after.6, after.7, after.8, after.9, after.10, after.11, after.12, after.13, after.14, after.15, after.16, after.17, after.18),
                ),
            Err(e) => {
                ||| t.0.parses(input, Err(e), after.0) && (after.1, after.2, after.3, after.4, after.5, after.6, after.7, after.8, after.9, after.10, after.11, after.12, after.13, after.14, after.15, after.16, after.17, after.18) == (t.1, t.2, t.3, t.4, t.5, t.6, t.7, t.8, t.9, t.10, t.11, t.12, t.13, t.14, t.15, t.16, t.17, t.18)
                ||| exists|v0: P0::Result, m: Seq<u8>|
                    t.0.parses(input, Ok((v0, m)), after.0) && (t.1, t.2, t.3, t.4, t.5, t.6, t.7, t.8, t.9, t.10, t.11, t.12, t.13, t.14, t.15, t.16, t.17, t.18).parses(m, Err(e), (after.1, after.2, after.3, after.4, after.5, after.6, after.7, after.8, after.9, after.10, after.11, after.12, after.13, after.14, after.15, after.16, after.17, after.18))
            },
        },
{
}

/// A tuple of 20 parsers succeeds exactly when its first parser reads a value
/// from the input and the tuple of the other 19 reads their values from
/// what the first left, one after the other; it leaves what the last left.
/// It fails when the first fails, and then the others do not run, or when the
/// others fail on what the first left.
pub proof fn lemma_tuple20_runs_in_order<'p, E, P0: Parser<'p, Error = E>, P1: Parser<'p, Error = E>, P2: Parser<'p, Error = E>, P3: Parser<'p, Error = E>, P4: Parser<'p, Error = E>, P5: Parser<'p, Error = E>, P6: Parser<'p, Error = E>, P7: Parser<'p, Error = E>, P8: Parser<'p, Error = E>, P9: Parser<'p, Error = E>, P10: Parser<'p, Error = E>, P11: Parser<'p, Error = E>, P12: Parser<'p, Error = E>, P13: Parser<'p, Error = E>, P14: Parser<'p, Error = E>, P15: Parser<'p, Error = E>, P16: Parser<'p, Error = E>, P17: Parser<'p, Error = E>, P18: Parser<'p, Error = E>, P19: Parser<'p, Error = E>>(
    t: (P0, P1, P2, P3, P4, P5, P6, P7, P8, P9, P10, P11, P12, P13, P14, P15, P16, P17, P18, P19),
    input: Seq<u8>,
    out: Result<((P0::Result, P1::Result, P2::Result, P3::Result, P4::Result, P5::Result, P6::Result, P7::Result, P8::Result, P9::Result, P10::Result, P11::Result, P12::Result, P13::Result, P14::Result, P15::Result, P16::Result, P17::Result, P18::Result, P19::Result), Seq<u8>), E>,
    after: (P0, P1, P2, P3, P4, P5, P6, P7, P8, P9, P10, P11, P12, P13, P14, P15, P16, P17, P18, P19),
)
    ensures
        t.parses(input, out, after) <==> match out {
            Ok((v, rest)) => exists|m: Seq<u8>|
                t.0.parses(input, Ok((v.0, m)), after.0) && (t.1, t.2, t.3, t.4, t.5, t.6, t.7, t.8, t.9, t.10, t.11, t.12, t.13, t.14, t.15, t.16, t.17, t.18, t.19).parses(
                    m,
                    Ok(((v.1, v.2, v.3, v.4, v.5, v.6, v.7, v.8, v.9, v.10, v.11, v.12, v.13, v.14, v.15, v.16, v.17, v.18, v.19), rest)),
                    (after.1, after.2, after.3, after.4, after.5, after.6, after.7, after.8, after.9, after.10, after.11, after.12, after.13, after.14, after.15, after.16, after.17, after.18, after.19),
                ),
            Err(e) => {
                ||| t.0.parses(input, Err(e), after.0) && (after.1, after.2, after.3, after.4, after.5, after.6, after.7, after.8, after.9, after.10, after.11, after.12, after.13, after.14, after.15, after.16, after.17, after.18, after.19) == (t.1, t.2, t.3, t.4, t.5, t.6, t.7, t.8, t.9, t.10, t.11, t.12, t.13, t.14, t.15, t.16, t.17, t.18, t.19)
                ||| exists|v0: P0::Result, m: Seq<u8>|
                    t.0.parses(input, Ok((v0, m)), after.0) && (t.1, t.2, t.3, t.4, t.5, t.6, t.7, t.8, t.9, t.10, t.11, t.12, t.13, t.14, t.15, t.16, t.17, t.18, t.19).parses(m, Err(e), (after.1, after.2, after.3, after.4, after.5, after.6, after.7, after.8, after.9, after.10, after.11, after.12, after.13, after.14, after.15, after.16, after.17, after.18, after.19))
            },
        },
{
}

/// A tuple of 21 parsers succeeds exactly when its first parser reads a value
/// from the input and the tuple of the other 20 reads their values from
/// what the first left, one after the other; it leaves what the last left.
/// It fails when the first fails, and then the others do not run, or when the
/// others fail on what the first left.
pub proof fn lemma_tuple21_runs_in_order<'p, E, P0: Parser<'p, Error = E>, P1: Parser<'p, Error = E>, P2: Parser<'p, Error = E>, P3: Parser<'p, Error = E>, P4: Parser<'p, Error = E>, P5: Parser<'p, Error = E>, P6: Parser<'p, Error = E>, P7: Parser<'p, Error = E>, P8: Parser<'p, Error = E>, P9: Parser<'p, Error = E>, P10: Parser<'p, Error = E>, P11: Parser<'p, Error = E>, P12: Parser<'p, Error = E>, P13: Parser<'p, Error = E>, P14: Parser<'p, Error = E>, P15: Parser<'p, Error = E>, P16: Parser<'p, Error = E>, P17: Parser<'p, Error = E>, P18: Parser<'p, Error = E>, P19: Parser<'p, Error = E>, P20: Parser<'p, Error = E>>(
    t: (P0, P1, P2, P3, P4, P5, P6, P7, P8, P9, P10, P11, P12, P13, P14, P15, P16, P17, P18, P19, P20),
    input: Seq<u8>,
    out: Result<((P0::Result, P1::Result, P2::Result, P3::Result, P4::Result, P5::Result, P6::Result, P7::Result, P8::Result, P9::Result, P10::Result, P11::Result, P12::Result, P13::Result, P14::Result, P15::Result, P16::Result, P17::Result, P18::Result, P19::Result, P20::Result), Seq<u8>), E>,
    after: (P0, P1, P2, P3, P4, P5, P6, P7, P8, P9, P10, P11, P12, P13, P14, P15, P16, P17, P18, P19, P20),
)
    ensures
        t.parses(input, out, after) <==> match out {
            Ok((v, rest)) => exists|m: Seq<u8>|
                t.0.parses(input, Ok((v.0, m)), after.0) && (t.1, t.2, t.3, t.4, t.5, t.6, t.7, t.8, t.9, t.10, t.11, t.12, t.13, t.14, t.15, t.16, t.17, t.18, t.19, t.20).parses(
                    m,
                    Ok(((v.1, v.2, v.3, v.4, v.5, v.6, v.7, v.8, v.9, v.10, v.11, v.12, v.13, v.14, v.15, v.16, v.17, v.18, v.19, v.20), rest)),
                    (after.1, after.2, after.3, after.4, after.5, after.6, after.7, after.8, after.9, after.10, after.11, after.12, after.13, after.14, after.15, after.16, after.17, after.18, after.19, after.20),
                ),
            Err(e) => {
                ||| t.0.parses(input, Err(e), after.0) && (after.1, after.2, after.3, after.4, after.5, after.6, after.7, after.8, after.9, after.10, after.11, after.12, after.13, after.14, after.15, after.16, after.17, after.18, after.19, after.20) == (t.1, t.2, t.3, t.4, t.5, t.6, t.7, t.8, t.9, t.10, t.11, t.12, t.13, t.14, t.15, t.16, t.17, t.18, t.19, t.20)
                ||| exists|v0: P0::Result, m: Seq<u8>|
                    t.0.parses(input, Ok((v0, m)), after.0) && (t.1, t.2, t.3, t.4, t.5, t.6, t.7, t.8, t.9, t.10, t.11, t.12, t.13, t.14, t.15, t.16, t.17, t.18, t.19, t.20).parses(m, Err(e), (after.1, after.2, after.3, after.4, after.5, after.6, after.7, after.8, after.9, after.10, after.11, after.12, after.13, after.14, after.15, after.16, after.17, after.18, after.19, after.20))
            },
        },
{
}

/// A tuple of 22 parsers succeeds exactly when its first parser reads a value
/// from the input and the tuple of the other 21 reads their values from
/// what the first left, one after the other; it leaves what the last left.
/// It fails when the first fails, and then the others do not run, or when the
/// others fail on what the first left.
pub proof fn lemma_tuple22_runs_in_order<'p, E, P0: Parser<'p, Error = E>, P1: Parser<'p, Error = E>, P2: Parser<'p, Error = E>, P3: Parser<'p, Error = E>, P4: Parser<'p, Error = E>, P5: Parser<'p, Error = E>, P6: Parser<'p, Error = E>, P7: Parser<'p, Error = E>, P8: Parser<'p, Error = E>, P9: Parser<'p, Error = E>, P10: Parser<'p, Error = E>, P11: Parser<'p, Error = E>, P12: Parser<'p, Error = E>, P13: Parser<'p, Error = E>, P14: Parser<'p, Error = E>, P15: Parser<'p, Error = E>, P16: Parser<'p, Error = E>, P17: Parser<'p, Error = E>, P18: Parser<'p, Error = E>, P19: Parser<'p, Error = E>, P20: Parser<'p, Error = E>, P21: Parser<'p, Error = E>>(
    t: (P0, P1, P2, P3, P4, P5, P6, P7, P8, P9, P10, P11, P12, P13, P14, P15, P16, P17, P18, P19, P20, P21),
    input: Seq<u8>,
    out: Result<((P0::Result, P1::Result, P2::Result, P3::Result, P4::Result, P5::Result, P6::Result, P7::Result, P8::Result, P9::Result, P10::Result, P11::Result, P12::Result, P13::Result, P14::Result, P15::Result, P16::Result, P17::Result, P18::Result, P19::Result, P20::Result, P21::Result), Seq<u8>), E>,
    after: (P0, P1, P2, P3, P4, P5, P6, P7, P8, P9, P10, P11, P12, P13, P14, P15, P16, P17, P18, P19, P20, P21),
)
    ensures
        t.parses(input, out, after) <==> match out {
            Ok((v, rest)) => exists|m: Seq<u8>|
                t.0.parses(input, Ok((v.0, m)), after.0) && (t.1, t.2, t.3, t.4, t.5, t.6, t.7, t.8, t.9, t.10, t.11, t.12, t.13, t.14, t.15, t.16, t.17, t.18, t.19, t.20, t.21).parses(
                    m,
                    Ok(((v.1, v.2, v.3, v.4, v.5, v.6, v.7, v.8, v.9, v.10, v.11, v.12, v.13, v.14, v.15, v.16, v.17, v.18, v.19, v.20, v.21), rest)),
                    (after.1, after.2, after.3, after.4, after.5, after.6, after.7, after.8, after.9, after.10, after.11, after.12, after.13, after.14, after.15, after.16, after.17, after.18, after.19, after.20, after.21),
                ),
            Err(e) => {
                ||| t.0.parses(input, Err(e), after.0) && (after.1, after.2, after.3, after.4, after.5, after.6, after.7, after.8, after.9, after.10, after.11, after.12, after.13, after.14, after.15, after.16, after.17, after.18, after.19, after.20, after.21) == (t.1, t.2, t.3, t.4, t.5, t.6, t.7, t.8, t.9, t.10, t.11, t.12, t.13, t.14, t.15, t.16, t.17, t.18, t.19, t.20, t.21)
                ||| exists|v0: P0::Result, m: Seq<u8>|
                    t.0.parses(input, Ok((v0, m)), after.0) && (t.1, t.2, t.3, t.4, t.5, t.6, t.7, t.8, t.9, t.10, t.11, t.12, t.13, t.14, t.15, t.16, t.17, t.18, t.19, t.20, t.21).parses(m, Err(e), (after.1, after.2, after.3, after.4, after.5, after.6, after.7, after.8, after.9, after.10, after.11, after.12, after.13, after.14, after.15, after.16, after.17, after.18, after.19, after.20, after.21))
            },
        },
{
}

/// A tuple of 23 parsers succeeds exactly when its first parser reads a value
/// from the input and the tuple of the other 22 reads their values from
/// what the first left, one after the other; it leaves what the last left.
/// It fails when the first fails, and then the others do not run, or when the
/// others fail on what the first left.
pub proof fn lemma_tuple23_runs_in_order<'p, E, P0: Parser<'p, Error = E>, P1: Parser<'p, Error = E>, P2: Parser<'p, Error = E>, P3: Parser<'p, Error = E>, P4: Parser<'p, Error = E>, P5: Parser<'p, Error = E>, P6: Parser<'p, Error = E>, P7: Parser<'p, Error = E>, P8: Parser<'p, Error = E>, P9: Parser<'p, Error = E>, P10: Parser<'p, Error = E>, P11: Parser<'p, Error = E>, P12: Parser<'p, Error = E>, P13: Parser<'p, Error = E>, P14: Parser<'p, Error = E>, P15: Parser<'p, Error = E>, P16: Parser<'p, Error = E>, P17: Parser<'p, Error = E>, P18: Parser<'p, Error = E>, P19: Parser<'p, Error = E>, P20: Parser<'p, Error = E>, P21: Parser<'p, Error = E>, P22: Parser<'p, Error = E>>(
    t: (P0, P1, P2, P3, P4, P5, P6, P7, P8, P9, P10, P11, P12, P13, P14, P15, P16, P17, P18, P19, P20, P21, P22),
    input: Seq<u8>,
    out: Result<((P0::Result, P1::Result, P2::Result, P3::Result, P4::Result, P5::Result, P6::Result, P7::Result, P8::Result, P9::Result, P10::Result, P11::Result, P12::Result, P13::Result, P14::Result, P15::Result, P16::Result, P17::Result, P18::Result, P19::Result, P20::Result, P21::Result, P22::Result), Seq<u8>), E>,
    after: (P0, P1, P2, P3, P4, P5, P6, P7, P8, P9, P10, P11, P12, P13, P14, P15, P16, P17, P18, P19, P20, P21, P22),
)
    ensures
        t.parses(input, out, after) <==> match out {
            Ok((v, rest)) => exists|m: Seq<u8>|
                t.0.parses(input, Ok((v.0, m)), after.0) && (t.1, t.2, t.3, t.4, t.5, t.6, t.7, t.8, t.9, t.10, t.11, t.12, t.13, t.14, t.15, t.16, t.17, t.18, t.19, t.20, t.21, t.22).parses(
                    m,
                    Ok(((v.1, v.2, v.3, v.4, v.5, v.6, v.7, v.8, v.9, v.10, v.11, v.12, v.13, v.14, v.15, v.16, v.17, v.18, v.19, v.20, v.21, v.22), rest)),
                    (after.1, after.2, after.3, after.4, after.5, after.6, after.7, after.8, after.9, after.10, after.11, after.12, after.13, after.14, after.15, after.16, after.17, after.18, after.19, after.20, after.21, after.22),
                ),
            Err(e) => {
                ||| t.0.parses(input, Err(e), after.0) && (after.1, after.2, after.3, after.4, after.5, after.6, after.7, after.8, after.9, after.10, after.11, after.12, after.13, after.14, after.15, after.16, after.17, after.18, after.19, after.20, after.21, after.22) == (t.1, t.2, t.3, t.4, t.5, t.6, t.7, t.8, t.9, t.10, t.11, t.12, t.13, t.14, t.15, t.16, t.17, t.18, t.19, t.20, t.21, t.22)
                ||| exists|v0: P0::Result, m: Seq<u8>|
                    t.0.parses(input, Ok((v0, m)), after.0) && (t.1, t.2, t.3, t.4, t.5, t.6, t.7, t.8, t.9, t.10, t.11, t.12, t.13, t.14, t.15, t.16, t.17, t.18, t.19, t.20, t.21, t.22).parses(m, Err(e), (after.1, after.2, after.3, after.4, after.5, after.6, after.7, after.8, after.9, after.10, after.11, after.12, after.13, after.14, after.15, after.16, after.17, after.18, after.19, after.20, after.21, after.22))
            },
        },
{
}

/// A tuple of 24 parsers succeeds exactly when its first parser reads a value
/// from the input and the tuple of the other 23 reads their values from
/// what the first left, one after the other; it leaves what the last left.
/// It fails when the first fails, and then the others do not run, or when the
/// others fail on what the first left.
pub proof fn lemma_tuple24_runs_in_order<'p, E, P0: Parser<'p, Error = E>, P1: Parser<'p, Error = E>, P2: Parser<'p, Error = E>, P3: Parser<'p, Error = E>, P4: Parser<'p, Error = E>, P5: Parser<'p, Error = E>, P6: Parser<'p, Error = E>, P7: Parser<'p, Error = E>, P8: Parser<'p, Error = E>, P9: Parser<'p, Error = E>, P10: Parser<'p, Error = E>, P11: Parser<'p, Error = E>, P12: Parser<'p, Error = E>, P13: Parser<'p, Error = E>, P14: Parser<'p, Error = E>, P15: Parser<'p, Error = E>, P16: Parser<'p, Error = E>, P17: Parser<'p, Error = E>, P18: Parser<'p, Error = E>, P19: Parser<'p, Error = E>, P20: Parser<'p, Error = E>, P21: Parser<'p, Error = E>, P22: Parser<'p, Error = E>, P23: Parser<'p, Error = E>>(
    t: (P0, P1, P2, P3, P4, P5, P6, P7, P8, P9, P10, P11, P12, P13, P14, P15, P16, P17, P18, P19, P20, P21, P22, P23),
    input: Seq<u8>,
    out: Result<((P0::Result, P1::Result, P2::Result, P3::Result, P4::Result, P5::Result, P6::Result, P7::Result, P8::Result, P9::Result, P10::Result, P11::Result, P12::Result, P13::Result, P14::Result, P15::Result, P16::Result, P17::Result, P18::Result, P19::Result, P20::Result, P21::Result, P22::Result, P23::Result), Seq<u8>), E>,
    after: (P0, P1, P2, P3, P4, P5, P6, P7, P8, P9, P10, P11, P12, P13, P14, P15, P16, P17, P18, P19, P20, P21, P22, P23),
)
    ensures
        t.parses(input, out, after) <==> match out {
            Ok((v, rest)) => exists|m: Seq<u8>|
                t.0.parses(input, Ok((v.0, m)), after.0) && (t.1, t.2, t.3, t.4, t.5, t.6, t.7, t.8, t.9, t.10, t.11, t.12, t.13, t.14, t.15, t.16, t.17, t.18, t.19, t.20, t.21, t.22, t.23).parses(
                    m,
                    Ok(((v.1, v.2, v.3, v.4, v.5, v.6, v.7, v.8, v.9, v.10, v.11, v.12, v.13, v.14, v.15, v.16, v.17, v.18, v.19, v.20, v.21, v.22, v.23), rest)),
                    (after.1, after.2, after.3, after.4, after.5, after.6, after.7, after.8, after.9, after.10, after.11, after.12, after.13, after.14, after.15, after.16, after.17, after.18, after.19, after.20, after.21, after.22, after.23),
                ),
            Err(e) => {
                ||| t.0.parses(input, Err(e), after.0) && (after.1, after.2, after.3, after.4, after.5, after.6, after.7, after.8, after.9, after.10, after.11, after.12, after.13, after.14, after.15, after.16, after.17, after.18, after.19, after.20, after.21, after.22, after.23) == (t.1, t.2, t.3, t.4, t.5, t.6, t.7, t.8, t.9, t.10, t.11, t.12, t.13, t.14, t.15, t.16, t.17, t.18, t.19, t.20, t.21, t.22, t.23)
                ||| exists|v0: P0::Result, m: Seq<u8>|
                    t.0.parses(input, Ok((v0, m)), after.0) && (t.1, t.2, t.3, t.4, t.5, t.6, t.7, t.8, t.9, t.10, t.11, t.12, t.13, t.14, t.15, t.16, t.17, t.18, t.19, t.20, t.21, t.22, t.23).parses(m, Err(e), (after.1, after.2, after.3, after.4, after.5, after.6, after.7, after.8, after.9, after.10, after.11, after.12, after.13, after.14, after.15, after.16, after.17, after.18, after.19, after.20, after.21, after.22, after.23))
            },
        },
{
}

} // verus!
