//! A value of one of two types, and the parser that runs whichever of two
//! parsers it holds.
use crate::parser::{run, Parser};
use vstd::prelude::*;

verus! {

/// A value of either the left or the right type.
#[derive(Debug, Clone, Copy, PartialEq, Eq)]
pub enum Either<L, R> {
    Left(L),
    Right(R),
}

impl<'p, E, P: Parser<'p, Error = E>, Q: Parser<'p, Error = E>> Parser<'p> for Either<Q, P> {
    type Result = Either<Q::Result, P::Result>;
    type Error = E;

    open spec fn well_formed(&self) -> bool {
        match self {
            Either::Left(q) => q.well_formed(),
            Either::Right(p) => p.well_formed(),
        }
    }

    open spec fn productive(&self) -> bool {
        match self {
            Either::Left(q) => q.productive(),
            Either::Right(p) => p.productive(),
        }
    }

    open spec fn parses(
        &self,
        input: Seq<u8>,
        out: Result<(Either<Q::Result, P::Result>, Seq<u8>), E>,
        after: Self,
    ) -> bool {
        match (*self, after) {
            (Either::Left(q), Either::Left(q2)) => match out {
                Ok((Either::Left(v), rest)) => q.parses(input, Ok((v, rest)), q2),
                Ok((Either::Right(_), _)) => false,
                Err(e) => q.parses(input, Err(e), q2),
            },
            (Either::Right(p), Either::Right(p2)) => match out {
                Ok((Either::Right(v), rest)) => p.parses(input, Ok((v, rest)), p2),
                Ok((Either::Left(_), _)) => false,
                Err(e) => p.parses(input, Err(e), p2),
            },
            _ => false,
        }
    }

    fn parse(&mut self, input: &'p [u8]) -> (res: Result<(Either<Q::Result, P::Result>, &'p [u8]), E>) {
        match self {
            Either::Left(q) => match run(&mut *q, input) {
                Ok((v, r)) => Ok((Either::Left(v), r)),
                Err(e) => Err(e),
            },
            Either::Right(p) => match run(&mut *p, input) {
                Ok((v, r)) => Ok((Either::Right(v), r)),
                Err(e) => Err(e),
            },
        }
    }
}

} // verus!
