//! Tuples of parsers that share an error type: the parsers run one after the
//! other, each on what the one before it left, and the tuple of their values
//! is the result.
//!
//! A tuple's behaviour is given by its first parser followed by the tuple of
//! the others; `parse_seq` functions run the parsers held by mutable
//! references in the same way.
use crate::parser::{is_suffix, lemma_suffix_trans, outcome, run, Parser};
use vstd::prelude::*;

verus! {

/// Runs `p0` to `p0` one after the other, each on what the one before it left.
fn parse_seq1<'p, E, A: Parser<'p, Error = E>>(p0: &mut A, input: &'p [u8]) -> (res: Result<((A::Result,), &'p [u8]), E>)
    requires
        old(p0).well_formed(),
    ensures
        final(p0).well_formed(),
        (*old(p0),).parses(input@, outcome(res), (*final(p0),)),
        res matches Ok((_, rest)) ==> is_suffix(rest@, input@),
        (*old(p0),).productive() ==> (*final(p0),).productive(),
        (*old(p0),).productive() && input@.len() > 0 ==> (res matches Ok((_, rest)) ==> rest@.len() < input@.len()),
{
    let ghost start = (*p0,);
    match run(&mut *p0, input) {
        Ok((v0, rest)) => {
            let res = Ok(((v0,), rest));
            proof {
                let o = outcome(res);
                assert(start.0.parses(input@, Ok((o->Ok_0.0.0, o->Ok_0.1)), *p0));
            }
            res
        },
        Err(e) => Err(e),
    }
}

impl<'p, E, A: Parser<'p, Error = E>> Parser<'p> for (A,) {
    type Result = (A::Result,);
    type Error = E;

    open spec fn well_formed(&self) -> bool {
        self.0.well_formed()
    }

    open spec fn productive(&self) -> bool {
        self.0.productive()
    }

    open spec fn parses(&self, input: Seq<u8>, out: Result<((A::Result,), Seq<u8>), E>, after: Self) -> bool {
        match out {
            Ok((v, rest)) => self.0.parses(input, Ok((v.0, rest)), after.0),
            Err(e) => self.0.parses(input, Err(e), after.0),
        }
    }

    fn parse(&mut self, input: &'p [u8]) -> (res: Result<((A::Result,), &'p [u8]), E>) {
        parse_seq1(&mut self.0, input)
    }
}

/// Runs `p0` to `p1` one after the other, each on what the one before it left.
fn parse_seq2<'p, E, A: Parser<'p, Error = E>, B: Parser<'p, Error = E>>(p0: &mut A, p1: &mut B, input: &'p [u8]) -> (res: Result<((A::Result, B::Result), &'p [u8]), E>)
    requires
        old(p0).well_formed(),
        old(p1).well_formed(),
    ensures
        final(p0).well_formed(),
        final(p1).well_formed(),
        (*old(p0), *old(p1)).parses(input@, outcome(res), (*final(p0), *final(p1))),
        res matches Ok((_, rest)) ==> is_suffix(rest@, input@),
        (*old(p0), *old(p1)).productive() ==> (*final(p0), *final(p1)).productive(),
        (*old(p0), *old(p1)).productive() && input@.len() > 0 ==> (res matches Ok((_, rest)) ==> rest@.len() < input@.len()),
{
    let ghost start = (*p0, *p1);
    match run(&mut *p0, input) {
        Ok((v0, m)) => {
            match parse_seq1(&mut *p1, m) {
                Ok((vt, rest)) => {
                    let res = Ok(((v0, vt.0), rest));
                    proof {
                        lemma_suffix_trans(rest@, m@, input@);
                        let o = outcome(res);
                        let v = o->Ok_0.0;
                        let a = (*p0, *p1);
                        assert((v.1,) == vt);
                        assert(start.0.parses(input@, Ok((v.0, m@)), a.0));
                        assert((start.1,).parses(m@, Ok(((v.1,), o->Ok_0.1)), (a.1,)));
                    }
                    res
                },
                Err(e) => {
                    let res = Err(e);
                    proof {
                        let o = outcome::<(A::Result, B::Result), E>(res);
                        let a = (*p0, *p1);
                        assert(start.0.parses(input@, Ok((v0, m@)), a.0));
                        assert((start.1,).parses(m@, Err(o->Err_0), (a.1,)));
                    }
                    res
                },
            }
        },
        Err(e) => {
            let res = Err(e);
            proof {
                let o = outcome::<(A::Result, B::Result), E>(res);
                let a = (*p0, *p1);
                assert(start.0.parses(input@, Err(o->Err_0), a.0));
                assert((a.1,) == (start.1,));
            }
            res
        },
    }
}

impl<'p, E, A: Parser<'p, Error = E>, B: Parser<'p, Error = E>> Parser<'p> for (A, B) {
    type Result = (A::Result, B::Result);
    type Error = E;

    open spec fn well_formed(&self) -> bool {
        self.0.well_formed() && (self.1,).well_formed()
    }

    open spec fn productive(&self) -> bool {
        self.0.productive() || (self.1,).productive()
    }

    open spec fn parses(&self, input: Seq<u8>, out: Result<((A::Result, B::Result), Seq<u8>), E>, after: Self) -> bool {
        match out {
            Ok((v, rest)) => exists|m: Seq<u8>|
                self.0.parses(input, Ok((v.0, m)), after.0) && (self.1,).parses(
                    m,
                    Ok(((v.1,), rest)),
                    (after.1,),
                ),
            Err(e) => {
                ||| self.0.parses(input, Err(e), after.0) && (after.1,) == (self.1,)
                ||| exists|v0: A::Result, m: Seq<u8>|
                    self.0.parses(input, Ok((v0, m)), after.0) && (self.1,).parses(m, Err(e), (after.1,))
            },
        }
    }

    fn parse(&mut self, input: &'p [u8]) -> (res: Result<((A::Result, B::Result), &'p [u8]), E>) {
        parse_seq2(&mut self.0, &mut self.1, input)
    }
}

/// Runs `p0` to `p2` one after the other, each on what the one before it left.
fn parse_seq3<'p, E, A: Parser<'p, Error = E>, B: Parser<'p, Error = E>, C: Parser<'p, Error = E>>(p0: &mut A, p1: &mut B, p2: &mut C, input: &'p [u8]) -> (res: Result<((A::Result, B::Result, C::Result), &'p [u8]), E>)
    requires
        old(p0).well_formed(),
        old(p1).well_formed(),
        old(p2).well_formed(),
    ensures
        final(p0).well_formed(),
        final(p1).well_formed(),
        final(p2).well_formed(),
        (*old(p0), *old(p1), *old(p2)).parses(input@, outcome(res), (*final(p0), *final(p1), *final(p2))),
        res matches Ok((_, rest)) ==> is_suffix(rest@, input@),
        (*old(p0), *old(p1), *old(p2)).productive() ==> (*final(p0), *final(p1), *final(p2)).productive(),
        (*old(p0), *old(p1), *old(p2)).productive() && input@.len() > 0 ==> (res matches Ok((_, rest)) ==> rest@.len() < input@.len()),
{
    let ghost start = (*p0, *p1, *p2);
    match run(&mut *p0, input) {
        Ok((v0, m)) => {
            match parse_seq2(&mut *p1, &mut *p2, m) {
                Ok((vt, rest)) => {
                    let res = Ok(((v0, vt.0, vt.1), rest));
                    proof {
                        lemma_suffix_trans(rest@, m@, input@);
                        let o = outcome(res);
                        let v = o->Ok_0.0;
                        let a = (*p0, *p1, *p2);
                        assert((v.1, v.2) == vt);
                        assert(start.0.parses(input@, Ok((v.0, m@)), a.0));
                        assert((start.1, start.2).parses(m@, Ok(((v.1, v.2), o->Ok_0.1)), (a.1, a.2)));
                    }
                    res
                },
                Err(e) => {
                    let res = Err(e);
                    proof {
                        let o = outcome::<(A::Result, B::Result, C::Result), E>(res);
                        let a = (*p0, *p1, *p2);
                        assert(start.0.parses(input@, Ok((v0, m@)), a.0));
                        assert((start.1, start.2).parses(m@, Err(o->Err_0), (a.1, a.2)));
                    }
                    res
                },
            }
        },
        Err(e) => {
            let res = Err(e);
            proof {
                let o = outcome::<(A::Result, B::Result, C::Result), E>(res);
                let a = (*p0, *p1, *p2);
                assert(start.0.parses(input@, Err(o->Err_0), a.0));
                assert((a.1, a.2) == (start.1, start.2));
            }
            res
        },
    }
}

impl<'p, E, A: Parser<'p, Error = E>, B: Parser<'p, Error = E>, C: Parser<'p, Error = E>> Parser<'p> for (A, B, C) {
    type Result = (A::Result, B::Result, C::Result);
    type Error = E;

    open spec fn well_formed(&self) -> bool {
        self.0.well_formed() && (self.1, self.2).well_formed()
    }

    open spec fn productive(&self) -> bool {
        self.0.productive() || (self.1, self.2).productive()
    }

    open spec fn parses(&self, input: Seq<u8>, out: Result<((A::Result, B::Result, C::Result), Seq<u8>), E>, after: Self) -> bool {
        match out {
            Ok((v, rest)) => exists|m: Seq<u8>|
                self.0.parses(input, Ok((v.0, m)), after.0) && (self.1, self.2).parses(
                    m,
                    Ok(((v.1, v.2), rest)),
                    (after.1, after.2),
                ),
            Err(e) => {
                ||| self.0.parses(input, Err(e), after.0) && (after.1, after.2) == (self.1, self.2)
                ||| exists|v0: A::Result, m: Seq<u8>|
                    self.0.parses(input, Ok((v0, m)), after.0) && (self.1, self.2).parses(m, Err(e), (after.1, after.2))
            },
        }
    }

    fn parse(&mut self, input: &'p [u8]) -> (res: Result<((A::Result, B::Result, C::Result), &'p [u8]), E>) {
        parse_seq3(&mut self.0, &mut self.1, &mut self.2, input)
    }
}

/// Runs `p0` to `p3` one after the other, each on what the one before it left.
fn parse_seq4<'p, E, A: Parser<'p, Error = E>, B: Parser<'p, Error = E>, C: Parser<'p, Error = E>, D: Parser<'p, Error = E>>(p0: &mut A, p1: &mut B, p2: &mut C, p3: &mut D, input: &'p [u8]) -> (res: Result<((A::Result, B::Result, C::Result, D::Result), &'p [u8]), E>)
    requires
        old(p0).well_formed(),
        old(p1).well_formed(),
        old(p2).well_formed(),
        old(p3).well_formed(),
    ensures
        final(p0).well_formed(),
        final(p1).well_formed(),
        final(p2).well_formed(),
        final(p3).well_formed(),
        (*old(p0), *old(p1), *old(p2), *old(p3)).parses(input@, outcome(res), (*final(p0), *final(p1), *final(p2), *final(p3))),
        res matches Ok((_, rest)) ==> is_suffix(rest@, input@),
        (*old(p0), *old(p1), *old(p2), *old(p3)).productive() ==> (*final(p0), *final(p1), *final(p2), *final(p3)).productive(),
        (*old(p0), *old(p1), *old(p2), *old(p3)).productive() && input@.len() > 0 ==> (res matches Ok((_, rest)) ==> rest@.len() < input@.len()),
{
    let ghost start = (*p0, *p1, *p2, *p3);
    match run(&mut *p0, input) {
        Ok((v0, m)) => {
            match parse_seq3(&mut *p1, &mut *p2, &mut *p3, m) {
                Ok((vt, rest)) => {
                    let res = Ok(((v0, vt.0, vt.1, vt.2), rest));
                    proof {
                        lemma_suffix_trans(rest@, m@, input@);
                        let o = outcome(res);
                        let v = o->Ok_0.0;
                        let a = (*p0, *p1, *p2, *p3);
                        assert((v.1, v.2, v.3) == vt);
                        assert(start.0.parses(input@, Ok((v.0, m@)), a.0));
                        assert((start.1, start.2, start.3).parses(m@, Ok(((v.1, v.2, v.3), o->Ok_0.1)), (a.1, a.2, a.3)));
                    }
                    res
                },
                Err(e) => {
                    let res = Err(e);
                    proof {
                        let o = outcome::<(A::Result, B::Result, C::Result, D::Result), E>(res);
                        let a = (*p0, *p1, *p2, *p3);
                        assert(start.0.parses(input@, Ok((v0, m@)), a.0));
                        assert((start.1, start.2, start.3).parses(m@, Err(o->Err_0), (a.1, a.2, a.3)));
                    }
                    res
                },
            }
        },
        Err(e) => {
            let res = Err(e);
            proof {
                let o = outcome::<(A::Result, B::Result, C::Result, D::Result), E>(res);
                let a = (*p0, *p1, *p2, *p3);
                assert(start.0.parses(input@, Err(o->Err_0), a.0));
                assert((a.1, a.2, a.3) == (start.1, start.2, start.3));
            }
            res
        },
    }
}

impl<'p, E, A: Parser<'p, Error = E>, B: Parser<'p, Error = E>, C: Parser<'p, Error = E>, D: Parser<'p, Error = E>> Parser<'p> for (A, B, C, D) {
    type Result = (A::Result, B::Result, C::Result, D::Result);
    type Error = E;

    open spec fn well_formed(&self) -> bool {
        self.0.well_formed() && (self.1, self.2, self.3).well_formed()
    }

    open spec fn productive(&self) -> bool {
        self.0.productive() || (self.1, self.2, self.3).productive()
    }

    open spec fn parses(&self, input: Seq<u8>, out: Result<((A::Result, B::Result, C::Result, D::Result), Seq<u8>), E>, after: Self) -> bool {
        match out {
            Ok((v, rest)) => exists|m: Seq<u8>|
                self.0.parses(input, Ok((v.0, m)), after.0) && (self.1, self.2, self.3).parses(
                    m,
                    Ok(((v.1, v.2, v.3), rest)),
                    (after.1, after.2, after.3),
                ),
            Err(e) => {
                ||| self.0.parses(input, Err(e), after.0) && (after.1, after.2, after.3) == (self.1, self.2, self.3)
                ||| exists|v0: A::Result, m: Seq<u8>|
                    self.0.parses(input, Ok((v0, m)), after.0) && (self.1, self.2, self.3).parses(m, Err(e), (after.1, after.2, after.3))
            },
        }
    }

    fn parse(&mut self, input: &'p [u8]) -> (res: Result<((A::Result, B::Result, C::Result, D::Result), &'p [u8]), E>) {
        parse_seq4(&mut self.0, &mut self.1, &mut self.2, &mut self.3, input)
    }
}

/// Runs `p0` to `p4` one after the other, each on what the one before it left.
fn parse_seq5<'p, E, A: Parser<'p, Error = E>, B: Parser<'p, Error = E>, C: Parser<'p, Error = E>, D: Parser<'p, Error = E>, F: Parser<'p, Error = E>>(p0: &mut A, p1: &mut B, p2: &mut C, p3: &mut D, p4: &mut F, input: &'p [u8]) -> (res: Result<((A::Result, B::Result, C::Result, D::Result, F::Result), &'p [u8]), E>)
    requires
        old(p0).well_formed(),
        old(p1).well_formed(),
        old(p2).well_formed(),
        old(p3).well_formed(),
        old(p4).well_formed(),
    ensures
        final(p0).well_formed(),
        final(p1).well_formed(),
        final(p2).well_formed(),
        final(p3).well_formed(),
        final(p4).well_formed(),
        (*old(p0), *old(p1), *old(p2), *old(p3), *old(p4)).parses(input@, outcome(res), (*final(p0), *final(p1), *final(p2), *final(p3), *final(p4))),
        res matches Ok((_, rest)) ==> is_suffix(rest@, input@),
        (*old(p0), *old(p1), *old(p2), *old(p3), *old(p4)).productive() ==> (*final(p0), *final(p1), *final(p2), *final(p3), *final(p4)).productive(),
        (*old(p0), *old(p1), *old(p2), *old(p3), *old(p4)).productive() && input@.len() > 0 ==> (res matches Ok((_, rest)) ==> rest@.len() < input@.len()),
{
    let ghost start = (*p0, *p1, *p2, *p3, *p4);
    match run(&mut *p0, input) {
        Ok((v0, m)) => {
            match parse_seq4(&mut *p1, &mut *p2, &mut *p3, &mut *p4, m) {
                Ok((vt, rest)) => {
                    let res = Ok(((v0, vt.0, vt.1, vt.2, vt.3), rest));
                    proof {
                        lemma_suffix_trans(rest@, m@, input@);
                        let o = outcome(res);
                        let v = o->Ok_0.0;
                        let a = (*p0, *p1, *p2, *p3, *p4);
                        assert((v.1, v.2, v.3, v.4) == vt);
                        assert(start.0.parses(input@, Ok((v.0, m@)), a.0));
                        assert((start.1, start.2, start.3, start.4).parses(m@, Ok(((v.1, v.2, v.3, v.4), o->Ok_0.1)), (a.1, a.2, a.3, a.4)));
                    }
                    res
                },
                Err(e) => {
                    let res = Err(e);
                    proof {
                        let o = outcome::<(A::Result, B::Result, C::Result, D::Result, F::Result), E>(res);
                        let a = (*p0, *p1, *p2, *p3, *p4);
                        assert(start.0.parses(input@, Ok((v0, m@)), a.0));
                        assert((start.1, start.2, start.3, start.4).parses(m@, Err(o->Err_0), (a.1, a.2, a.3, a.4)));
                    }
                    res
                },
            }
        },
        Err(e) => {
            let res = Err(e);
            proof {
                let o = outcome::<(A::Result, B::Result, C::Result, D::Result, F::Result), E>(res);
                let a = (*p0, *p1, *p2, *p3, *p4);
                assert(start.0.parses(input@, Err(o->Err_0), a.0));
                assert((a.1, a.2, a.3, a.4) == (start.1, start.2, start.3, start.4));
            }
            res
        },
    }
}

impl<'p, E, A: Parser<'p, Error = E>, B: Parser<'p, Error = E>, C: Parser<'p, Error = E>, D: Parser<'p, Error = E>, F: Parser<'p, Error = E>> Parser<'p> for (A, B, C, D, F) {
    type Result = (A::Result, B::Result, C::Result, D::Result, F::Result);
    type Error = E;

    open spec fn well_formed(&self) -> bool {
        self.0.well_formed() && (self.1, self.2, self.3, self.4).well_formed()
    }

    open spec fn productive(&self) -> bool {
        self.0.productive() || (self.1, self.2, self.3, self.4).productive()
    }

    open spec fn parses(&self, input: Seq<u8>, out: Result<((A::Result, B::Result, C::Result, D::Result, F::Result), Seq<u8>), E>, after: Self) -> bool {
        match out {
            Ok((v, rest)) => exists|m: Seq<u8>|
                self.0.parses(input, Ok((v.0, m)), after.0) && (self.1, self.2, self.3, self.4).parses(
                    m,
                    Ok(((v.1, v.2, v.3, v.4), rest)),
                    (after.1, after.2, after.3, after.4),
                ),
            Err(e) => {
                ||| self.0.parses(input, Err(e), after.0) && (after.1, after.2, after.3, after.4) == (self.1, self.2, self.3, self.4)
                ||| exists|v0: A::Result, m: Seq<u8>|
                    self.0.parses(input, Ok((v0, m)), after.0) && (self.1, self.2, self.3, self.4).parses(m, Err(e), (after.1, after.2, after.3, after.4))
            },
        }
    }

    fn parse(&mut self, input: &'p [u8]) -> (res: Result<((A::Result, B::Result, C::Result, D::Result, F::Result), &'p [u8]), E>) {
        parse_seq5(&mut self.0, &mut self.1, &mut self.2, &mut self.3, &mut self.4, input)
    }
}

/// Runs `p0` to `p5` one after the other, each on what the one before it left.
fn parse_seq6<'p, E, A: Parser<'p, Error = E>, B: Parser<'p, Error = E>, C: Parser<'p, Error = E>, D: Parser<'p, Error = E>, F: Parser<'p, Error = E>, G: Parser<'p, Error = E>>(p0: &mut A, p1: &mut B, p2: &mut C, p3: &mut D, p4: &mut F, p5: &mut G, input: &'p [u8]) -> (res: Result<((A::Result, B::Result, C::Result, D::Result, F::Result, G::Result), &'p [u8]), E>)
    requires
        old(p0).well_formed(),
        old(p1).well_formed(),
        old(p2).well_formed(),
        old(p3).well_formed(),
        old(p4).well_formed(),
        old(p5).well_formed(),
    ensures
        final(p0).well_formed(),
        final(p1).well_formed(),
        final(p2).well_formed(),
        final(p3).well_formed(),
        final(p4).well_formed(),
        final(p5).well_formed(),
        (*old(p0), *old(p1), *old(p2), *old(p3), *old(p4), *old(p5)).parses(input@, outcome(res), (*final(p0), *final(p1), *final(p2), *final(p3), *final(p4), *final(p5))),
        res matches Ok((_, rest)) ==> is_suffix(rest@, input@),
        (*old(p0), *old(p1), *old(p2), *old(p3), *old(p4), *old(p5)).productive() ==> (*final(p0), *final(p1), *final(p2), *final(p3), *final(p4), *final(p5)).productive(),
        (*old(p0), *old(p1), *old(p2), *old(p3), *old(p4), *old(p5)).productive() && input@.len() > 0 ==> (res matches Ok((_, rest)) ==> rest@.len() < input@.len()),
{
    let ghost start = (*p0, *p1, *p2, *p3, *p4, *p5);
    match run(&mut *p0, input) {
        Ok((v0, m)) => {
            match parse_seq5(&mut *p1, &mut *p2, &mut *p3, &mut *p4, &mut *p5, m) {
                Ok((vt, rest)) => {
                    let res = Ok(((v0, vt.0, vt.1, vt.2, vt.3, vt.4), rest));
                    proof {
                        lemma_suffix_trans(rest@, m@, input@);
                        let o = outcome(res);
                        let v = o->Ok_0.0;
                        let a = (*p0, *p1, *p2, *p3, *p4, *p5);
                        assert((v.1, v.2, v.3, v.4, v.5) == vt);
                        assert(start.0.parses(input@, Ok((v.0, m@)), a.0));
                        assert((start.1, start.2, start.3, start.4, start.5).parses(m@, Ok(((v.1, v.2, v.3, v.4, v.5), o->Ok_0.1)), (a.1, a.2, a.3, a.4, a.5)));
                    }
                    res
                },
                Err(e) => {
                    let res = Err(e);
                    proof {
                        let o = outcome::<(A::Result, B::Result, C::Result, D::Result, F::Result, G::Result), E>(res);
                        let a = (*p0, *p1, *p2, *p3, *p4, *p5);
                        assert(start.0.parses(input@, Ok((v0, m@)), a.0));
                        assert((start.1, start.2, start.3, start.4, start.5).parses(m@, Err(o->Err_0), (a.1, a.2, a.3, a.4, a.5)));
                    }
                    res
                },
            }
        },
        Err(e) => {
            let res = Err(e);
            proof {
                let o = outcome::<(A::Result, B::Result, C::Result, D::Result, F::Result, G::Result), E>(res);
                let a = (*p0, *p1, *p2, *p3, *p4, *p5);
                assert(start.0.parses(input@, Err(o->Err_0), a.0));
                assert((a.1, a.2, a.3, a.4, a.5) == (start.1, start.2, start.3, start.4, start.5));
            }
            res
        },
    }
}

impl<'p, E, A: Parser<'p, Error = E>, B: Parser<'p, Error = E>, C: Parser<'p, Error = E>, D: Parser<'p, Error = E>, F: Parser<'p, Error = E>, G: Parser<'p, Error = E>> Parser<'p> for (A, B, C, D, F, G) {
    type Result = (A::Result, B::Result, C::Result, D::Result, F::Result, G::Result);
    type Error = E;

    open spec fn well_formed(&self) -> bool {
        self.0.well_formed() && (self.1, self.2, self.3, self.4, self.5).well_formed()
    }

    open spec fn productive(&self) -> bool {
        self.0.productive() || (self.1, self.2, self.3, self.4, self.5).productive()
    }

    open spec fn parses(&self, input: Seq<u8>, out: Result<((A::Result, B::Result, C::Result, D::Result, F::Result, G::Result), Seq<u8>), E>, after: Self) -> bool {
        match out {
            Ok((v, rest)) => exists|m: Seq<u8>|
                self.0.parses(input, Ok((v.0, m)), after.0) && (self.1, self.2, self.3, self.4, self.5).parses(
                    m,
                    Ok(((v.1, v.2, v.3, v.4, v.5), rest)),
                    (after.1, after.2, after.3, after.4, after.5),
                ),
            Err(e) => {
                ||| self.0.parses(input, Err(e), after.0) && (after.1, after.2, after.3, after.4, after.5) == (self.1, self.2, self.3, self.4, self.5)
                ||| exists|v0: A::Result, m: Seq<u8>|
                    self.0.parses(input, Ok((v0, m)), after.0) && (self.1, self.2, self.3, self.4, self.5).parses(m, Err(e), (after.1, after.2, after.3, after.4, after.5))
            },
        }
    }

    fn parse(&mut self, input: &'p [u8]) -> (res: Result<((A::Result, B::Result, C::Result, D::Result, F::Result, G::Result), &'p [u8]), E>) {
        parse_seq6(&mut self.0, &mut self.1, &mut self.2, &mut self.3, &mut self.4, &mut self.5, input)
    }
}

/// Runs `p0` to `p6` one after the other, each on what the one before it left.
fn parse_seq7<'p, E, A: Parser<'p, Error = E>, B: Parser<'p, Error = E>, C: Parser<'p, Error = E>, D: Parser<'p, Error = E>, F: Parser<'p, Error = E>, G: Parser<'p, Error = E>, H: Parser<'p, Error = E>>(p0: &mut A, p1: &mut B, p2: &mut C, p3: &mut D, p4: &mut F, p5: &mut G, p6: &mut H, input: &'p [u8]) -> (res: Result<((A::Result, B::Result, C::Result, D::Result, F::Result, G::Result, H::Result), &'p [u8]), E>)
    requires
        old(p0).well_formed(),
        old(p1).well_formed(),
        old(p2).well_formed(),
        old(p3).well_formed(),
        old(p4).well_formed(),
        old(p5).well_formed(),
        old(p6).well_formed(),
    ensures
        final(p0).well_formed(),
        final(p1).well_formed(),
        final(p2).well_formed(),
        final(p3).well_formed(),
        final(p4).well_formed(),
        final(p5).well_formed(),
        final(p6).well_formed(),
        (*old(p0), *old(p1), *old(p2), *old(p3), *old(p4), *old(p5), *old(p6)).parses(input@, outcome(res), (*final(p0), *final(p1), *final(p2), *final(p3), *final(p4), *final(p5), *final(p6))),
        res matches Ok((_, rest)) ==> is_suffix(rest@, input@),
        (*old(p0), *old(p1), *old(p2), *old(p3), *old(p4), *old(p5), *old(p6)).productive() ==> (*final(p0), *final(p1), *final(p2), *final(p3), *final(p4), *final(p5), *final(p6)).productive(),
        (*old(p0), *old(p1), *old(p2), *old(p3), *old(p4), *old(p5), *old(p6)).productive() && input@.len() > 0 ==> (res matches Ok((_, rest)) ==> rest@.len() < input@.len()),
{
    let ghost start = (*p0, *p1, *p2, *p3, *p4, *p5, *p6);
    match run(&mut *p0, input) {
        Ok((v0, m)) => {
            match parse_seq6(&mut *p1, &mut *p2, &mut *p3, &mut *p4, &mut *p5, &mut *p6, m) {
                Ok((vt, rest)) => {
                    let res = Ok(((v0, vt.0, vt.1, vt.2, vt.3, vt.4, vt.5), rest));
                    proof {
                        lemma_suffix_trans(rest@, m@, input@);
                        let o = outcome(res);
                        let v = o->Ok_0.0;
                        let a = (*p0, *p1, *p2, *p3, *p4, *p5, *p6);
                        assert((v.1, v.2, v.3, v.4, v.5, v.6) == vt);
                        assert(start.0.parses(input@, Ok((v.0, m@)), a.0));
                        assert((start.1, start.2, start.3, start.4, start.5, start.6).parses(m@, Ok(((v.1, v.2, v.3, v.4, v.5, v.6), o->Ok_0.1)), (a.1, a.2, a.3, a.4, a.5, a.6)));
                    }
                    res
                },
                Err(e) => {
                    let res = Err(e);
                    proof {
                        let o = outcome::<(A::Result, B::Result, C::Result, D::Result, F::Result, G::Result, H::Result), E>(res);
                        let a = (*p0, *p1, *p2, *p3, *p4, *p5, *p6);
                        assert(start.0.parses(input@, Ok((v0, m@)), a.0));
                        assert((start.1, start.2, start.3, start.4, start.5, start.6).parses(m@, Err(o->Err_0), (a.1, a.2, a.3, a.4, a.5, a.6)));
                    }
                    res
                },
            }
        },
        Err(e) => {
            let res = Err(e);
            proof {
                let o = outcome::<(A::Result, B::Result, C::Result, D::Result, F::Result, G::Result, H::Result), E>(res);
                let a = (*p0, *p1, *p2, *p3, *p4, *p5, *p6);
                assert(start.0.parses(input@, Err(o->Err_0), a.0));
                assert((a.1, a.2, a.3, a.4, a.5, a.6) == (start.1, start.2, start.3, start.4, start.5, start.6));
            }
            res
        },
    }
}

impl<'p, E, A: Parser<'p, Error = E>, B: Parser<'p, Error = E>, C: Parser<'p, Error = E>, D: Parser<'p, Error = E>, F: Parser<'p, Error = E>, G: Parser<'p, Error = E>, H: Parser<'p, Error = E>> Parser<'p> for (A, B, C, D, F, G, H) {
    type Result = (A::Result, B::Result, C::Result, D::Result, F::Result, G::Result, H::Result);
    type Error = E;

    open spec fn well_formed(&self) -> bool {
        self.0.well_formed() && (self.1, self.2, self.3, self.4, self.5, self.6).well_formed()
    }

    open spec fn productive(&self) -> bool {
        self.0.productive() || (self.1, self.2, self.3, self.4, self.5, self.6).productive()
    }

    open spec fn parses(&self, input: Seq<u8>, out: Result<((A::Result, B::Result, C::Result, D::Result, F::Result, G::Result, H::Result), Seq<u8>), E>, after: Self) -> bool {
        match out {
            Ok((v, rest)) => exists|m: Seq<u8>|
                self.0.parses(input, Ok((v.0, m)), after.0) && (self.1, self.2, self.3, self.4, self.5, self.6).parses(
                    m,
                    Ok(((v.1, v.2, v.3, v.4, v.5, v.6), rest)),
                    (after.1, after.2, after.3, after.4, after.5, after.6),
                ),
            Err(e) => {
                ||| self.0.parses(input, Err(e), after.0) && (after.1, after.2, after.3, after.4, after.5, after.6) == (self.1, self.2, self.3, self.4, self.5, self.6)
                ||| exists|v0: A::Result, m: Seq<u8>|
                    self.0.parses(input, Ok((v0, m)), after.0) && (self.1, self.2, self.3, self.4, self.5, self.6).parses(m, Err(e), (after.1, after.2, after.3, after.4, after.5, after.6))
            },
        }
    }

    fn parse(&mut self, input: &'p [u8]) -> (res: Result<((A::Result, B::Result, C::Result, D::Result, F::Result, G::Result, H::Result), &'p [u8]), E>) {
        parse_seq7(&mut self.0, &mut self.1, &mut self.2, &mut self.3, &mut self.4, &mut self.5, &mut self.6, input)
    }
}

/// Runs `p0` to `p7` one after the other, each on what the one before it left.
fn parse_seq8<'p, E, A: Parser<'p, Error = E>, B: Parser<'p, Error = E>, C: Parser<'p, Error = E>, D: Parser<'p, Error = E>, F: Parser<'p, Error = E>, G: Parser<'p, Error = E>, H: Parser<'p, Error = E>, I: Parser<'p, Error = E>>(p0: &mut A, p1: &mut B, p2: &mut C, p3: &mut D, p4: &mut F, p5: &mut G, p6: &mut H, p7: &mut I, input: &'p [u8]) -> (res: Result<((A::Result, B::Result, C::Result, D::Result, F::Result, G::Result, H::Result, I::Result), &'p [u8]), E>)
    requires
        old(p0).well_formed(),
        old(p1).well_formed(),
        old(p2).well_formed(),
        old(p3).well_formed(),
        old(p4).well_formed(),
        old(p5).well_formed(),
        old(p6).well_formed(),
        old(p7).well_formed(),
    ensures
        final(p0).well_formed(),
        final(p1).well_formed(),
        final(p2).well_formed(),
        final(p3).well_formed(),
        final(p4).well_formed(),
        final(p5).well_formed(),
        final(p6).well_formed(),
        final(p7).well_formed(),
        (*old(p0), *old(p1), *old(p2), *old(p3), *old(p4), *old(p5), *old(p6), *old(p7)).parses(input@, outcome(res), (*final(p0), *final(p1), *final(p2), *final(p3), *final(p4), *final(p5), *final(p6), *final(p7))),
        res matches Ok((_, rest)) ==> is_suffix(rest@, input@),
        (*old(p0), *old(p1), *old(p2), *old(p3), *old(p4), *old(p5), *old(p6), *old(p7)).productive() ==> (*final(p0), *final(p1), *final(p2), *final(p3), *final(p4), *final(p5), *final(p6), *final(p7)).productive(),
        (*old(p0), *old(p1), *old(p2), *old(p3), *old(p4), *old(p5), *old(p6), *old(p7)).productive() && input@.len() > 0 ==> (res matches Ok((_, rest)) ==> rest@.len() < input@.len()),
{
    let ghost start = (*p0, *p1, *p2, *p3, *p4, *p5, *p6, *p7);
    match run(&mut *p0, input) {
        Ok((v0, m)) => {
            match parse_seq7(&mut *p1, &mut *p2, &mut *p3, &mut *p4, &mut *p5, &mut *p6, &mut *p7, m) {
                Ok((vt, rest)) => {
                    let res = Ok(((v0, vt.0, vt.1, vt.2, vt.3, vt.4, vt.5, vt.6), rest));
                    proof {
                        lemma_suffix_trans(rest@, m@, input@);
                        let o = outcome(res);
                        let v = o->Ok_0.0;
                        let a = (*p0, *p1, *p2, *p3, *p4, *p5, *p6, *p7);
                        assert((v.1, v.2, v.3, v.4, v.5, v.6, v.7) == vt);
                        assert(start.0.parses(input@, Ok((v.0, m@)), a.0));
                        assert((start.1, start.2, start.3, start.4, start.5, start.6, start.7).parses(m@, Ok(((v.1, v.2, v.3, v.4, v.5, v.6, v.7), o->Ok_0.1)), (a.1, a.2, a.3, a.4, a.5, a.6, a.7)));
                    }
                    res
                },
                Err(e) => {
                    let res = Err(e);
                    proof {
                        let o = outcome::<(A::Result, B::Result, C::Result, D::Result, F::Result, G::Result, H::Result, I::Result), E>(res);
                        let a = (*p0, *p1, *p2, *p3, *p4, *p5, *p6, *p7);
                        assert(start.0.parses(input@, Ok((v0, m@)), a.0));
                        assert((start.1, start.2, start.3, start.4, start.5, start.6, start.7).parses(m@, Err(o->Err_0), (a.1, a.2, a.3, a.4, a.5, a.6, a.7)));
                    }
                    res
                },
            }
        },
        Err(e) => {
            let res = Err(e);
            proof {
                let o = outcome::<(A::Result, B::Result, C::Result, D::Result, F::Result, G::Result, H::Result, I::Result), E>(res);
                let a = (*p0, *p1, *p2, *p3, *p4, *p5, *p6, *p7);
                assert(start.0.parses(input@, Err(o->Err_0), a.0));
                assert((a.1, a.2, a.3, a.4, a.5, a.6, a.7) == (start.1, start.2, start.3, start.4, start.5, start.6, start.7));
            }
            res
        },
    }
}

impl<'p, E, A: Parser<'p, Error = E>, B: Parser<'p, Error = E>, C: Parser<'p, Error = E>, D: Parser<'p, Error = E>, F: Parser<'p, Error = E>, G: Parser<'p, Error = E>, H: Parser<'p, Error = E>, I: Parser<'p, Error = E>> Parser<'p> for (A, B, C, D, F, G, H, I) {
    type Result = (A::Result, B::Result, C::Result, D::Result, F::Result, G::Result, H::Result, I::Result);
    type Error = E;

    open spec fn well_formed(&self) -> bool {
        self.0.well_formed() && (self.1, self.2, self.3, self.4, self.5, self.6, self.7).well_formed()
    }

    open spec fn productive(&self) -> bool {
        self.0.productive() || (self.1, self.2, self.3, self.4, self.5, self.6, self.7).productive()
    }

    open spec fn parses(&self, input: Seq<u8>, out: Result<((A::Result, B::Result, C::Result, D::Result, F::Result, G::Result, H::Result, I::Result), Seq<u8>), E>, after: Self) -> bool {
        match out {
            Ok((v, rest)) => exists|m: Seq<u8>|
                self.0.parses(input, Ok((v.0, m)), after.0) && (self.1, self.2, self.3, self.4, self.5, self.6, self.7).parses(
                    m,
                    Ok(((v.1, v.2, v.3, v.4, v.5, v.6, v.7), rest)),
                    (after.1, after.2, after.3, after.4, after.5, after.6, after.7),
                ),
            Err(e) => {
                ||| self.0.parses(input, Err(e), after.0) && (after.1, after.2, after.3, after.4, after.5, after.6, after.7) == (self.1, self.2, self.3, self.4, self.5, self.6, self.7)
                ||| exists|v0: A::Result, m: Seq<u8>|
                    self.0.parses(input, Ok((v0, m)), after.0) && (self.1, self.2, self.3, self.4, self.5, self.6, self.7).parses(m, Err(e), (after.1, after.2, after.3, after.4, after.5, after.6, after.7))
            },
        }
    }

    fn parse(&mut self, input: &'p [u8]) -> (res: Result<((A::Result, B::Result, C::Result, D::Result, F::Result, G::Result, H::Result, I::Result), &'p [u8]), E>) {
        parse_seq8(&mut self.0, &mut self.1, &mut self.2, &mut self.3, &mut self.4, &mut self.5, &mut self.6, &mut self.7, input)
    }
}

/// Runs `p0` to `p8` one after the other, each on what the one before it left.
fn parse_seq9<'p, E, A: Parser<'p, Error = E>, B: Parser<'p, Error = E>, C: Parser<'p, Error = E>, D: Parser<'p, Error = E>, F: Parser<'p, Error = E>, G: Parser<'p, Error = E>, H: Parser<'p, Error = E>, I: Parser<'p, Error = E>, J: Parser<'p, Error = E>>(p0: &mut A, p1: &mut B, p2: &mut C, p3: &mut D, p4: &mut F, p5: &mut G, p6: &mut H, p7: &mut I, p8: &mut J, input: &'p [u8]) -> (res: Result<((A::Result, B::Result, C::Result, D::Result, F::Result, G::Result, H::Result, I::Result, J::Result), &'p [u8]), E>)
    requires
        old(p0).well_formed(),
        old(p1).well_formed(),
        old(p2).well_formed(),
        old(p3).well_formed(),
        old(p4).well_formed(),
        old(p5).well_formed(),
        old(p6).well_formed(),
        old(p7).well_formed(),
        old(p8).well_formed(),
    ensures
        final(p0).well_formed(),
        final(p1).well_formed(),
        final(p2).well_formed(),
        final(p3).well_formed(),
        final(p4).well_formed(),
        final(p5).well_formed(),
        final(p6).well_formed(),
        final(p7).well_formed(),
        final(p8).well_formed(),
        (*old(p0), *old(p1), *old(p2), *old(p3), *old(p4), *old(p5), *old(p6), *old(p7), *old(p8)).parses(input@, outcome(res), (*final(p0), *final(p1), *final(p2), *final(p3), *final(p4), *final(p5), *final(p6), *final(p7), *final(p8))),
        res matches Ok((_, rest)) ==> is_suffix(rest@, input@),
        (*old(p0), *old(p1), *old(p2), *old(p3), *old(p4), *old(p5), *old(p6), *old(p7), *old(p8)).productive() ==> (*final(p0), *final(p1), *final(p2), *final(p3), *final(p4), *final(p5), *final(p6), *final(p7), *final(p8)).productive(),
        (*old(p0), *old(p1), *old(p2), *old(p3), *old(p4), *old(p5), *old(p6), *old(p7), *old(p8)).productive() && input@.len() > 0 ==> (res matches Ok((_, rest)) ==> rest@.len() < input@.len()),
{
    let ghost start = (*p0, *p1, *p2, *p3, *p4, *p5, *p6, *p7, *p8);
    match run(&mut *p0, input) {
        Ok((v0, m)) => {
            match parse_seq8(&mut *p1, &mut *p2, &mut *p3, &mut *p4, &mut *p5, &mut *p6, &mut *p7, &mut *p8, m) {
                Ok((vt, rest)) => {
                    let res = Ok(((v0, vt.0, vt.1, vt.2, vt.3, vt.4, vt.5, vt.6, vt.7), rest));
                    proof {
                        lemma_suffix_trans(rest@, m@, input@);
                        let o = outcome(res);
                        let v = o->Ok_0.0;
                        let a = (*p0, *p1, *p2, *p3, *p4, *p5, *p6, *p7, *p8);
                        assert((v.1, v.2, v.3, v.4, v.5, v.6, v.7, v.8) == vt);
                        assert(start.0.parses(input@, Ok((v.0, m@)), a.0));
                        assert((start.1, start.2, start.3, start.4, start.5, start.6, start.7, start.8).parses(m@, Ok(((v.1, v.2, v.3, v.4, v.5, v.6, v.7, v.8), o->Ok_0.1)), (a.1, a.2, a.3, a.4, a.5, a.6, a.7, a.8)));
                    }
                    res
                },
                Err(e) => {
                    let res = Err(e);
                    proof {
                        let o = outcome::<(A::Result, B::Result, C::Result, D::Result, F::Result, G::Result, H::Result, I::Result, J::Result), E>(res);
                        let a = (*p0, *p1, *p2, *p3, *p4, *p5, *p6, *p7, *p8);
                        assert(start.0.parses(input@, Ok((v0, m@)), a.0));
                        assert((start.1, start.2, start.3, start.4, start.5, start.6, start.7, start.8).parses(m@, Err(o->Err_0), (a.1, a.2, a.3, a.4, a.5, a.6, a.7, a.8)));
                    }
                    res
                },
            }
        },
        Err(e) => {
            let res = Err(e);
            proof {
                let o = outcome::<(A::Result, B::Result, C::Result, D::Result, F::Result, G::Result, H::Result, I::Result, J::Result), E>(res);
                let a = (*p0, *p1, *p2, *p3, *p4, *p5, *p6, *p7, *p8);
                assert(start.0.parses(input@, Err(o->Err_0), a.0));
                assert((a.1, a.2, a.3, a.4, a.5, a.6, a.7, a.8) == (start.1, start.2, start.3, start.4, start.5, start.6, start.7, start.8));
            }
            res
        },
    }
}

impl<'p, E, A: Parser<'p, Error = E>, B: Parser<'p, Error = E>, C: Parser<'p, Error = E>, D: Parser<'p, Error = E>, F: Parser<'p, Error = E>, G: Parser<'p, Error = E>, H: Parser<'p, Error = E>, I: Parser<'p, Error = E>, J: Parser<'p, Error = E>> Parser<'p> for (A, B, C, D, F, G, H, I, J) {
    type Result = (A::Result, B::Result, C::Result, D::Result, F::Result, G::Result, H::Result, I::Result, J::Result);
    type Error = E;

    open spec fn well_formed(&self) -> bool {
        self.0.well_formed() && (self.1, self.2, self.3, self.4, self.5, self.6, self.7, self.8).well_formed()
    }

    open spec fn productive(&self) -> bool {
        self.0.productive() || (self.1, self.2, self.3, self.4, self.5, self.6, self.7, self.8).productive()
    }

    open spec fn parses(&self, input: Seq<u8>, out: Result<((A::Result, B::Result, C::Result, D::Result, F::Result, G::Result, H::Result, I::Result, J::Result), Seq<u8>), E>, after: Self) -> bool {
        match out {
            Ok((v, rest)) => exists|m: Seq<u8>|
                self.0.parses(input, Ok((v.0, m)), after.0) && (self.1, self.2, self.3, self.4, self.5, self.6, self.7, self.8).parses(
                    m,
                    Ok(((v.1, v.2, v.3, v.4, v.5, v.6, v.7, v.8), rest)),
                    (after.1, after.2, after.3, after.4, after.5, after.6, after.7, after.8),
                ),
            Err(e) => {
                ||| self.0.parses(input, Err(e), after.0) && (after.1, after.2, after.3, after.4, after.5, after.6, after.7, after.8) == (self.1, self.2, self.3, self.4, self.5, self.6, self.7, self.8)
                ||| exists|v0: A::Result, m: Seq<u8>|
                    self.0.parses(input, Ok((v0, m)), after.0) && (self.1, self.2, self.3, self.4, self.5, self.6, self.7, self.8).parses(m, Err(e), (after.1, after.2, after.3, after.4, after.5, after.6, after.7, after.8))
            },
        }
    }

    fn parse(&mut self, input: &'p [u8]) -> (res: Result<((A::Result, B::Result, C::Result, D::Result, F::Result, G::Result, H::Result, I::Result, J::Result), &'p [u8]), E>) {
        parse_seq9(&mut self.0, &mut self.1, &mut self.2, &mut self.3, &mut self.4, &mut self.5, &mut self.6, &mut self.7, &mut self.8, input)
    }
}

/// Runs `p0` to `p9` one after the other, each on what the one before it left.
fn parse_seq10<'p, E, A: Parser<'p, Error = E>, B: Parser<'p, Error = E>, C: Parser<'p, Error = E>, D: Parser<'p, Error = E>, F: Parser<'p, Error = E>, G: Parser<'p, Error = E>, H: Parser<'p, Error = E>, I: Parser<'p, Error = E>, J: Parser<'p, Error = E>, K: Parser<'p, Error = E>>(p0: &mut A, p1: &mut B, p2: &mut C, p3: &mut D, p4: &mut F, p5: &mut G, p6: &mut H, p7: &mut I, p8: &mut J, p9: &mut K, input: &'p [u8]) -> (res: Result<((A::Result, B::Result, C::Result, D::Result, F::Result, G::Result, H::Result, I::Result, J::Result, K::Result), &'p [u8]), E>)
    requires
        old(p0).well_formed(),
        old(p1).well_formed(),
        old(p2).well_formed(),
        old(p3).well_formed(),
        old(p4).well_formed(),
        old(p5).well_formed(),
        old(p6).well_formed(),
        old(p7).well_formed(),
        old(p8).well_formed(),
        old(p9).well_formed(),
    ensures
        final(p0).well_formed(),
        final(p1).well_formed(),
        final(p2).well_formed(),
        final(p3).well_formed(),
        final(p4).well_formed(),
        final(p5).well_formed(),
        final(p6).well_formed(),
        final(p7).well_formed(),
        final(p8).well_formed(),
        final(p9).well_formed(),
        (*old(p0), *old(p1), *old(p2), *old(p3), *old(p4), *old(p5), *old(p6), *old(p7), *old(p8), *old(p9)).parses(input@, outcome(res), (*final(p0), *final(p1), *final(p2), *final(p3), *final(p4), *final(p5), *final(p6), *final(p7), *final(p8), *final(p9))),
        res matches Ok((_, rest)) ==> is_suffix(rest@, input@),
        (*old(p0), *old(p1), *old(p2), *old(p3), *old(p4), *old(p5), *old(p6), *old(p7), *old(p8), *old(p9)).productive() ==> (*final(p0), *final(p1), *final(p2), *final(p3), *final(p4), *final(p5), *final(p6), *final(p7), *final(p8), *final(p9)).productive(),
        (*old(p0), *old(p1), *old(p2), *old(p3), *old(p4), *old(p5), *old(p6), *old(p7), *old(p8), *old(p9)).productive() && input@.len() > 0 ==> (res matches Ok((_, rest)) ==> rest@.len() < input@.len()),
{
    let ghost start = (*p0, *p1, *p2, *p3, *p4, *p5, *p6, *p7, *p8, *p9);
    match run(&mut *p0, input) {
        Ok((v0, m)) => {
            match parse_seq9(&mut *p1, &mut *p2, &mut *p3, &mut *p4, &mut *p5, &mut *p6, &mut *p7, &mut *p8, &mut *p9, m) {
                Ok((vt, rest)) => {
                    let res = Ok(((v0, vt.0, vt.1, vt.2, vt.3, vt.4, vt.5, vt.6, vt.7, vt.8), rest));
                    proof {
                        lemma_suffix_trans(rest@, m@, input@);
                        let o = outcome(res);
                        let v = o->Ok_0.0;
                        let a = (*p0, *p1, *p2, *p3, *p4, *p5, *p6, *p7, *p8, *p9);
                        assert((v.1, v.2, v.3, v.4, v.5, v.6, v.7, v.8, v.9) == vt);
                        assert(start.0.parses(input@, Ok((v.0, m@)), a.0));
                        assert((start.1, start.2, start.3, start.4, start.5, start.6, start.7, start.8, start.9).parses(m@, Ok(((v.1, v.2, v.3, v.4, v.5, v.6, v.7, v.8, v.9), o->Ok_0.1)), (a.1, a.2, a.3, a.4, a.5, a.6, a.7, a.8, a.9)));
                    }
                    res
                },
                Err(e) => {
                    let res = Err(e);
                    proof {
                        let o = outcome::<(A::Result, B::Result, C::Result, D::Result, F::Result, G::Result, H::Result, I::Result, J::Result, K::Result), E>(res);
                        let a = (*p0, *p1, *p2, *p3, *p4, *p5, *p6, *p7, *p8, *p9);
                        assert(start.0.parses(input@, Ok((v0, m@)), a.0));
                        assert((start.1, start.2, start.3, start.4, start.5, start.6, start.7, start.8, start.9).parses(m@, Err(o->Err_0), (a.1, a.2, a.3, a.4, a.5, a.6, a.7, a.8, a.9)));
                    }
                    res
                },
            }
        },
        Err(e) => {
            let res = Err(e);
            proof {
                let o = outcome::<(A::Result, B::Result, C::Result, D::Result, F::Result, G::Result, H::Result, I::Result, J::Result, K::Result), E>(res);
                let a = (*p0, *p1, *p2, *p3, *p4, *p5, *p6, *p7, *p8, *p9);
                assert(start.0.parses(input@, Err(o->Err_0), a.0));
                assert((a.1, a.2, a.3, a.4, a.5, a.6, a.7, a.8, a.9) == (start.1, start.2, start.3, start.4, start.5, start.6, start.7, start.8, start.9));
            }
            res
        },
    }
}

impl<'p, E, A: Parser<'p, Error = E>, B: Parser<'p, Error = E>, C: Parser<'p, Error = E>, D: Parser<'p, Error = E>, F: Parser<'p, Error = E>, G: Parser<'p, Error = E>, H: Parser<'p, Error = E>, I: Parser<'p, Error = E>, J: Parser<'p, Error = E>, K: Parser<'p, Error = E>> Parser<'p> for (A, B, C, D, F, G, H, I, J, K) {
    type Result = (A::Result, B::Result, C::Result, D::Result, F::Result, G::Result, H::Result, I::Result, J::Result, K::Result);
    type Error = E;

    open spec fn well_formed(&self) -> bool {
        self.0.well_formed() && (self.1, self.2, self.3, self.4, self.5, self.6, self.7, self.8, self.9).well_formed()
    }

    open spec fn productive(&self) -> bool {
        self.0.productive() || (self.1, self.2, self.3, self.4, self.5, self.6, self.7, self.8, self.9).productive()
    }

    open spec fn parses(&self, input: Seq<u8>, out: Result<((A::Result, B::Result, C::Result, D::Result, F::Result, G::Result, H::Result, I::Result, J::Result, K::Result), Seq<u8>), E>, after: Self) -> bool {
        match out {
            Ok((v, rest)) => exists|m: Seq<u8>|
                self.0.parses(input, Ok((v.0, m)), after.0) && (self.1, self.2, self.3, self.4, self.5, self.6, self.7, self.8, self.9).parses(
                    m,
                    Ok(((v.1, v.2, v.3, v.4, v.5, v.6, v.7, v.8, v.9), rest)),
                    (after.1, after.2, after.3, after.4, after.5, after.6, after.7, after.8, after.9),
                ),
            Err(e) => {
                ||| self.0.parses(input, Err(e), after.0) && (after.1, after.2, after.3, after.4, after.5, after.6, after.7, after.8, after.9) == (self.1, self.2, self.3, self.4, self.5, self.6, self.7, self.8, self.9)
                ||| exists|v0: A::Result, m: Seq<u8>|
                    self.0.parses(input, Ok((v0, m)), after.0) && (self.1, self.2, self.3, self.4, self.5, self.6, self.7, self.8, self.9).parses(m, Err(e), (after.1, after.2, after.3, after.4, after.5, after.6, after.7, after.8, after.9))
            },
        }
    }

    fn parse(&mut self, input: &'p [u8]) -> (res: Result<((A::Result, B::Result, C::Result, D::Result, F::Result, G::Result, H::Result, I::Result, J::Result, K::Result), &'p [u8]), E>) {
        parse_seq10(&mut self.0, &mut self.1, &mut self.2, &mut self.3, &mut self.4, &mut self.5, &mut self.6, &mut self.7, &mut self.8, &mut self.9, input)
    }
}

/// Runs `p0` to `p10` one after the other, each on what the one before it left.
fn parse_seq11<'p, E, A: Parser<'p, Error = E>, B: Parser<'p, Error = E>, C: Parser<'p, Error = E>, D: Parser<'p, Error = E>, F: Parser<'p, Error = E>, G: Parser<'p, Error = E>, H: Parser<'p, Error = E>, I: Parser<'p, Error = E>, J: Parser<'p, Error = E>, K: Parser<'p, Error = E>, L: Parser<'p, Error = E>>(p0: &mut A, p1: &mut B, p2: &mut C, p3: &mut D, p4: &mut F, p5: &mut G, p6: &mut H, p7: &mut I, p8: &mut J, p9: &mut K, p10: &mut L, input: &'p [u8]) -> (res: Result<((A::Result, B::Result, C::Result, D::Result, F::Result, G::Result, H::Result, I::Result, J::Result, K::Result, L::Result), &'p [u8]), E>)
    requires
        old(p0).well_formed(),
        old(p1).well_formed(),
        old(p2).well_formed(),
        old(p3).well_formed(),
        old(p4).well_formed(),
        old(p5).well_formed(),
        old(p6).well_formed(),
        old(p7).well_formed(),
        old(p8).well_formed(),
        old(p9).well_formed(),
        old(p10).well_formed(),
    ensures
        final(p0).well_formed(),
        final(p1).well_formed(),
        final(p2).well_formed(),
        final(p3).well_formed(),
        final(p4).well_formed(),
        final(p5).well_formed(),
        final(p6).well_formed(),
        final(p7).well_formed(),
        final(p8).well_formed(),
        final(p9).well_formed(),
        final(p10).well_formed(),
        (*old(p0), *old(p1), *old(p2), *old(p3), *old(p4), *old(p5), *old(p6), *old(p7), *old(p8), *old(p9), *old(p10)).parses(input@, outcome(res), (*final(p0), *final(p1), *final(p2), *final(p3), *final(p4), *final(p5), *final(p6), *final(p7), *final(p8), *final(p9), *final(p10))),
        res matches Ok((_, rest)) ==> is_suffix(rest@, input@),
        (*old(p0), *old(p1), *old(p2), *old(p3), *old(p4), *old(p5), *old(p6), *old(p7), *old(p8), *old(p9), *old(p10)).productive() ==> (*final(p0), *final(p1), *final(p2), *final(p3), *final(p4), *final(p5), *final(p6), *final(p7), *final(p8), *final(p9), *final(p10)).productive(),
        (*old(p0), *old(p1), *old(p2), *old(p3), *old(p4), *old(p5), *old(p6), *old(p7), *old(p8), *old(p9), *old(p10)).productive() && input@.len() > 0 ==> (res matches Ok((_, rest)) ==> rest@.len() < input@.len()),
{
    let ghost start = (*p0, *p1, *p2, *p3, *p4, *p5, *p6, *p7, *p8, *p9, *p10);
    match run(&mut *p0, input) {
        Ok((v0, m)) => {
            match parse_seq10(&mut *p1, &mut *p2, &mut *p3, &mut *p4, &mut *p5, &mut *p6, &mut *p7, &mut *p8, &mut *p9, &mut *p10, m) {
                Ok((vt, rest)) => {
                    let res = Ok(((v0, vt.0, vt.1, vt.2, vt.3, vt.4, vt.5, vt.6, vt.7, vt.8, vt.9), rest));
                    proof {
                        lemma_suffix_trans(rest@, m@, input@);
                        let o = outcome(res);
                        let v = o->Ok_0.0;
                        let a = (*p0, *p1, *p2, *p3, *p4, *p5, *p6, *p7, *p8, *p9, *p10);
                        assert((v.1, v.2, v.3, v.4, v.5, v.6, v.7, v.8, v.9, v.10) == vt);
                        assert(start.0.parses(input@, Ok((v.0, m@)), a.0));
                        assert((start.1, start.2, start.3, start.4, start.5, start.6, start.7, start.8, start.9, start.10).parses(m@, Ok(((v.1, v.2, v.3, v.4, v.5, v.6, v.7, v.8, v.9, v.10), o->Ok_0.1)), (a.1, a.2, a.3, a.4, a.5, a.6, a.7, a.8, a.9, a.10)));
                    }
                    res
                },
                Err(e) => {
                    let res = Err(e);
                    proof {
                        let o = outcome::<(A::Result, B::Result, C::Result, D::Result, F::Result, G::Result, H::Result, I::Result, J::Result, K::Result, L::Result), E>(res);
                        let a = (*p0, *p1, *p2, *p3, *p4, *p5, *p6, *p7, *p8, *p9, *p10);
                        assert(start.0.parses(input@, Ok((v0, m@)), a.0));
                        assert((start.1, start.2, start.3, start.4, start.5, start.6, start.7, start.8, start.9, start.10).parses(m@, Err(o->Err_0), (a.1, a.2, a.3, a.4, a.5, a.6, a.7, a.8, a.9, a.10)));
                    }
                    res
                },
            }
        },
        Err(e) => {
            let res = Err(e);
            proof {
                let o = outcome::<(A::Result, B::Result, C::Result, D::Result, F::Result, G::Result, H::Result, I::Result, J::Result, K::Result, L::Result), E>(res);
                let a = (*p0, *p1, *p2, *p3, *p4, *p5, *p6, *p7, *p8, *p9, *p10);
                assert(start.0.parses(input@, Err(o->Err_0), a.0));
                assert((a.1, a.2, a.3, a.4, a.5, a.6, a.7, a.8, a.9, a.10) == (start.1, start.2, start.3, start.4, start.5, start.6, start.7, start.8, start.9, start.10));
            }
            res
        },
    }
}

impl<'p, E, A: Parser<'p, Error = E>, B: Parser<'p, Error = E>, C: Parser<'p, Error = E>, D: Parser<'p, Error = E>, F: Parser<'p, Error = E>, G: Parser<'p, Error = E>, H: Parser<'p, Error = E>, I: Parser<'p, Error = E>, J: Parser<'p, Error = E>, K: Parser<'p, Error = E>, L: Parser<'p, Error = E>> Parser<'p> for (A, B, C, D, F, G, H, I, J, K, L) {
    type Result = (A::Result, B::Result, C::Result, D::Result, F::Result, G::Result, H::Result, I::Result, J::Result, K::Result, L::Result);
    type Error = E;

    open spec fn well_formed(&self) -> bool {
        self.0.well_formed() && (self.1, self.2, self.3, self.4, self.5, self.6, self.7, self.8, self.9, self.10).well_formed()
    }

    open spec fn productive(&self) -> bool {
        self.0.productive() || (self.1, self.2, self.3, self.4, self.5, self.6, self.7, self.8, self.9, self.10).productive()
    }

    open spec fn parses(&self, input: Seq<u8>, out: Result<((A::Result, B::Result, C::Result, D::Result, F::Result, G::Result, H::Result, I::Result, J::Result, K::Result, L::Result), Seq<u8>), E>, after: Self) -> bool {
        match out {
            Ok((v, rest)) => exists|m: Seq<u8>|
                self.0.parses(input, Ok((v.0, m)), after.0) && (self.1, self.2, self.3, self.4, self.5, self.6, self.7, self.8, self.9, self.10).parses(
                    m,
                    Ok(((v.1, v.2, v.3, v.4, v.5, v.6, v.7, v.8, v.9, v.10), rest)),
                    (after.1, after.2, after.3, after.4, after.5, after.6, after.7, after.8, after.9, after.10),
                ),
            Err(e) => {
                ||| self.0.parses(input, Err(e), after.0) && (after.1, after.2, after.3, after.4, after.5, after.6, after.7, after.8, after.9, after.10) == (self.1, self.2, self.3, self.4, self.5, self.6, self.7, self.8, self.9, self.10)
                ||| exists|v0: A::Result, m: Seq<u8>|
                    self.0.parses(input, Ok((v0, m)), after.0) && (self.1, self.2, self.3, self.4, self.5, self.6, self.7, self.8, self.9, self.10).parses(m, Err(e), (after.1, after.2, after.3, after.4, after.5, after.6, after.7, after.8, after.9, after.10))
            },
        }
    }

    fn parse(&mut self, input: &'p [u8]) -> (res: Result<((A::Result, B::Result, C::Result, D::Result, F::Result, G::Result, H::Result, I::Result, J::Result, K::Result, L::Result), &'p [u8]), E>) {
        parse_seq11(&mut self.0, &mut self.1, &mut self.2, &mut self.3, &mut self.4, &mut self.5, &mut self.6, &mut self.7, &mut self.8, &mut self.9, &mut self.10, input)
    }
}

/// Runs `p0` to `p11` one after the other, each on what the one before it left.
fn parse_seq12<'p, E, A: Parser<'p, Error = E>, B: Parser<'p, Error = E>, C: Parser<'p, Error = E>, D: Parser<'p, Error = E>, F: Parser<'p, Error = E>, G: Parser<'p, Error = E>, H: Parser<'p, Error = E>, I: Parser<'p, Error = E>, J: Parser<'p, Error = E>, K: Parser<'p, Error = E>, L: Parser<'p, Error = E>, M: Parser<'p, Error = E>>(p0: &mut A, p1: &mut B, p2: &mut C, p3: &mut D, p4: &mut F, p5: &mut G, p6: &mut H, p7: &mut I, p8: &mut J, p9: &mut K, p10: &mut L, p11: &mut M, input: &'p [u8]) -> (res: Result<((A::Result, B::Result, C::Result, D::Result, F::Result, G::Result, H::Result, I::Result, J::Result, K::Result, L::Result, M::Result), &'p [u8]), E>)
    requires
        old(p0).well_formed(),
        old(p1).well_formed(),
        old(p2).well_formed(),
        old(p3).well_formed(),
        old(p4).well_formed(),
        old(p5).well_formed(),
        old(p6).well_formed(),
        old(p7).well_formed(),
        old(p8).well_formed(),
        old(p9).well_formed(),
        old(p10).well_formed(),
        old(p11).well_formed(),
    ensures
        final(p0).well_formed(),
        final(p1).well_formed(),
        final(p2).well_formed(),
        final(p3).well_formed(),
        final(p4).well_formed(),
        final(p5).well_formed(),
        final(p6).well_formed(),
        final(p7).well_formed(),
        final(p8).well_formed(),
        final(p9).well_formed(),
        final(p10).well_formed(),
        final(p11).well_formed(),
        (*old(p0), *old(p1), *old(p2), *old(p3), *old(p4), *old(p5), *old(p6), *old(p7), *old(p8), *old(p9), *old(p10), *old(p11)).parses(input@, outcome(res), (*final(p0), *final(p1), *final(p2), *final(p3), *final(p4), *final(p5), *final(p6), *final(p7), *final(p8), *final(p9), *final(p10), *final(p11))),
        res matches Ok((_, rest)) ==> is_suffix(rest@, input@),
        (*old(p0), *old(p1), *old(p2), *old(p3), *old(p4), *old(p5), *old(p6), *old(p7), *old(p8), *old(p9), *old(p10), *old(p11)).productive() ==> (*final(p0), *final(p1), *final(p2), *final(p3), *final(p4), *final(p5), *final(p6), *final(p7), *final(p8), *final(p9), *final(p10), *final(p11)).productive(),
        (*old(p0), *old(p1), *old(p2), *old(p3), *old(p4), *old(p5), *old(p6), *old(p7), *old(p8), *old(p9), *old(p10), *old(p11)).productive() && input@.len() > 0 ==> (res matches Ok((_, rest)) ==> rest@.len() < input@.len()),
{
    let ghost start = (*p0, *p1, *p2, *p3, *p4, *p5, *p6, *p7, *p8, *p9, *p10, *p11);
    match run(&mut *p0, input) {
        Ok((v0, m)) => {
            match parse_seq11(&mut *p1, &mut *p2, &mut *p3, &mut *p4, &mut *p5, &mut *p6, &mut *p7, &mut *p8, &mut *p9, &mut *p10, &mut *p11, m) {
                Ok((vt, rest)) => {
                    let res = Ok(((v0, vt.0, vt.1, vt.2, vt.3, vt.4, vt.5, vt.6, vt.7, vt.8, vt.9, vt.10), rest));
                    proof {
                        lemma_suffix_trans(rest@, m@, input@);
                        let o = outcome(res);
                        let v = o->Ok_0.0;
                        let a = (*p0, *p1, *p2, *p3, *p4, *p5, *p6, *p7, *p8, *p9, *p10, *p11);
                        assert((v.1, v.2, v.3, v.4, v.5, v.6, v.7, v.8, v.9, v.10, v.11) == vt);
                        assert(start.0.parses(input@, Ok((v.0, m@)), a.0));
                        assert((start.1, start.2, start.3, start.4, start.5, start.6, start.7, start.8, start.9, start.10, start.11).parses(m@, Ok(((v.1, v.2, v.3, v.4, v.5, v.6, v.7, v.8, v.9, v.10, v.11), o->Ok_0.1)), (a.1, a.2, a.3, a.4, a.5, a.6, a.7, a.8, a.9, a.10, a.11)));
                    }
                    res
                },
                Err(e) => {
                    let res = Err(e);
                    proof {
                        let o = outcome::<(A::Result, B::Result, C::Result, D::Result, F::Result, G::Result, H::Result, I::Result, J::Result, K::Result, L::Result, M::Result), E>(res);
                        let a = (*p0, *p1, *p2, *p3, *p4, *p5, *p6, *p7, *p8, *p9, *p10, *p11);
                        assert(start.0.parses(input@, Ok((v0, m@)), a.0));
                        assert((start.1, start.2, start.3, start.4, start.5, start.6, start.7, start.8, start.9, start.10, start.11).parses(m@, Err(o->Err_0), (a.1, a.2, a.3, a.4, a.5, a.6, a.7, a.8, a.9, a.10, a.11)));
                    }
                    res
                },
            }
        },
        Err(e) => {
            let res = Err(e);
            proof {
                let o = outcome::<(A::Result, B::Result, C::Result, D::Result, F::Result, G::Result, H::Result, I::Result, J::Result, K::Result, L::Result, M::Result), E>(res);
                let a = (*p0, *p1, *p2, *p3, *p4, *p5, *p6, *p7, *p8, *p9, *p10, *p11);
                assert(start.0.parses(input@, Err(o->Err_0), a.0));
                assert((a.1, a.2, a.3, a.4, a.5, a.6, a.7, a.8, a.9, a.10, a.11) == (start.1, start.2, start.3, start.4, start.5, start.6, start.7, start.8, start.9, start.10, start.11));
            }
            res
        },
    }
}

impl<'p, E, A: Parser<'p, Error = E>, B: Parser<'p, Error = E>, C: Parser<'p, Error = E>, D: Parser<'p, Error = E>, F: Parser<'p, Error = E>, G: Parser<'p, Error = E>, H: Parser<'p, Error = E>, I: Parser<'p, Error = E>, J: Parser<'p, Error = E>, K: Parser<'p, Error = E>, L: Parser<'p, Error = E>, M: Parser<'p, Error = E>> Parser<'p> for (A, B, C, D, F, G, H, I, J, K, L, M) {
    type Result = (A::Result, B::Result, C::Result, D::Result, F::Result, G::Result, H::Result, I::Result, J::Result, K::Result, L::Result, M::Result);
    type Error = E;

    open spec fn well_formed(&self) -> bool {
        self.0.well_formed() && (self.1, self.2, self.3, self.4, self.5, self.6, self.7, self.8, self.9, self.10, self.11).well_formed()
    }

    open spec fn productive(&self) -> bool {
        self.0.productive() || (self.1, self.2, self.3, self.4, self.5, self.6, self.7, self.8, self.9, self.10, self.11).productive()
    }

    open spec fn parses(&self, input: Seq<u8>, out: Result<((A::Result, B::Result, C::Result, D::Result, F::Result, G::Result, H::Result, I::Result, J::Result, K::Result, L::Result, M::Result), Seq<u8>), E>, after: Self) -> bool {
        match out {
            Ok((v, rest)) => exists|m: Seq<u8>|
                self.0.parses(input, Ok((v.0, m)), after.0) && (self.1, self.2, self.3, self.4, self.5, self.6, self.7, self.8, self.9, self.10, self.11).parses(
                    m,
                    Ok(((v.1, v.2, v.3, v.4, v.5, v.6, v.7, v.8, v.9, v.10, v.11), rest)),
                    (after.1, after.2, after.3, after.4, after.5, after.6, after.7, after.8, after.9, after.10, after.11),
                ),
            Err(e) => {
                ||| self.0.parses(input, Err(e), after.0) && (after.1, after.2, after.3, after.4, after.5, after.6, after.7, after.8, after.9, after.10, after.11) == (self.1, self.2, self.3, self.4, self.5, self.6, self.7, self.8, self.9, self.10, self.11)
                ||| exists|v0: A::Result, m: Seq<u8>|
                    self.0.parses(input, Ok((v0, m)), after.0) && (self.1, self.2, self.3, self.4, self.5, self.6, self.7, self.8, self.9, self.10, self.11).parses(m, Err(e), (after.1, after.2, after.3, after.4, after.5, after.6, after.7, after.8, after.9, after.10, after.11))
            },
        }
    }

    fn parse(&mut self, input: &'p [u8]) -> (res: Result<((A::Result, B::Result, C::Result, D::Result, F::Result, G::Result, H::Result, I::Result, J::Result, K::Result, L::Result, M::Result), &'p [u8]), E>) {
        parse_seq12(&mut self.0, &mut self.1, &mut self.2, &mut self.3, &mut self.4, &mut self.5, &mut self.6, &mut self.7, &mut self.8, &mut self.9, &mut self.10, &mut self.11, input)
    }
}

/// Runs `p0` to `p12` one after the other, each on what the one before it left.
fn parse_seq13<'p, E, A: Parser<'p, Error = E>, B: Parser<'p, Error = E>, C: Parser<'p, Error = E>, D: Parser<'p, Error = E>, F: Parser<'p, Error = E>, G: Parser<'p, Error = E>, H: Parser<'p, Error = E>, I: Parser<'p, Error = E>, J: Parser<'p, Error = E>, K: Parser<'p, Error = E>, L: Parser<'p, Error = E>, M: Parser<'p, Error = E>, N: Parser<'p, Error = E>>(p0: &mut A, p1: &mut B, p2: &mut C, p3: &mut D, p4: &mut F, p5: &mut G, p6: &mut H, p7: &mut I, p8: &mut J, p9: &mut K, p10: &mut L, p11: &mut M, p12: &mut N, input: &'p [u8]) -> (res: Result<((A::Result, B::Result, C::Result, D::Result, F::Result, G::Result, H::Result, I::Result, J::Result, K::Result, L::Result, M::Result, N::Result), &'p [u8]), E>)
    requires
        old(p0).well_formed(),
        old(p1).well_formed(),
        old(p2).well_formed(),
        old(p3).well_formed(),
        old(p4).well_formed(),
        old(p5).well_formed(),
        old(p6).well_formed(),
        old(p7).well_formed(),
        old(p8).well_formed(),
        old(p9).well_formed(),
        old(p10).well_formed(),
        old(p11).well_formed(),
        old(p12).well_formed(),
    ensures
        final(p0).well_formed(),
        final(p1).well_formed(),
        final(p2).well_formed(),
        final(p3).well_formed(),
        final(p4).well_formed(),
        final(p5).well_formed(),
        final(p6).well_formed(),
        final(p7).well_formed(),
        final(p8).well_formed(),
        final(p9).well_formed(),
        final(p10).well_formed(),
        final(p11).well_formed(),
        final(p12).well_formed(),
        (*old(p0), *old(p1), *old(p2), *old(p3), *old(p4), *old(p5), *old(p6), *old(p7), *old(p8), *old(p9), *old(p10), *old(p11), *old(p12)).parses(input@, outcome(res), (*final(p0), *final(p1), *final(p2), *final(p3), *final(p4), *final(p5), *final(p6), *final(p7), *final(p8), *final(p9), *final(p10), *final(p11), *final(p12))),
        res matches Ok((_, rest)) ==> is_suffix(rest@, input@),
        (*old(p0), *old(p1), *old(p2), *old(p3), *old(p4), *old(p5), *old(p6), *old(p7), *old(p8), *old(p9), *old(p10), *old(p11), *old(p12)).productive() ==> (*final(p0), *final(p1), *final(p2), *final(p3), *final(p4), *final(p5), *final(p6), *final(p7), *final(p8), *final(p9), *final(p10), *final(p11), *final(p12)).productive(),
        (*old(p0), *old(p1), *old(p2), *old(p3), *old(p4), *old(p5), *old(p6), *old(p7), *old(p8), *old(p9), *old(p10), *old(p11), *old(p12)).productive() && input@.len() > 0 ==> (res matches Ok((_, rest)) ==> rest@.len() < input@.len()),
{
    let ghost start = (*p0, *p1, *p2, *p3, *p4, *p5, *p6, *p7, *p8, *p9, *p10, *p11, *p12);
    match run(&mut *p0, input) {
        Ok((v0, m)) => {
            match parse_seq12(&mut *p1, &mut *p2, &mut *p3, &mut *p4, &mut *p5, &mut *p6, &mut *p7, &mut *p8, &mut *p9, &mut *p10, &mut *p11, &mut *p12, m) {
                Ok((vt, rest)) => {
                    let res = Ok(((v0, vt.0, vt.1, vt.2, vt.3, vt.4, vt.5, vt.6, vt.7, vt.8, vt.9, vt.10, vt.11), rest));
                    proof {
                        lemma_suffix_trans(rest@, m@, input@);
                        let o = outcome(res);
                        let v = o->Ok_0.0;
                        let a = (*p0, *p1, *p2, *p3, *p4, *p5, *p6, *p7, *p8, *p9, *p10, *p11, *p12);
                        assert((v.1, v.2, v.3, v.4, v.5, v.6, v.7, v.8, v.9, v.10, v.11, v.12) == vt);
                        assert(start.0.parses(input@, Ok((v.0, m@)), a.0));
                        assert((start.1, start.2, start.3, start.4, start.5, start.6, start.7, start.8, start.9, start.10, start.11, start.12).parses(m@, Ok(((v.1, v.2, v.3, v.4, v.5, v.6, v.7, v.8, v.9, v.10, v.11, v.12), o->Ok_0.1)), (a.1, a.2, a.3, a.4, a.5, a.6, a.7, a.8, a.9, a.10, a.11, a.12)));
                    }
                    res
                },
                Err(e) => {
                    let res = Err(e);
                    proof {
                        let o = outcome::<(A::Result, B::Result, C::Result, D::Result, F::Result, G::Result, H::Result, I::Result, J::Result, K::Result, L::Result, M::Result, N::Result), E>(res);
                        let a = (*p0, *p1, *p2, *p3, *p4, *p5, *p6, *p7, *p8, *p9, *p10, *p11, *p12);
                        assert(start.0.parses(input@, Ok((v0, m@)), a.0));
                        assert((start.1, start.2, start.3, start.4, start.5, start.6, start.7, start.8, start.9, start.10, start.11, start.12).parses(m@, Err(o->Err_0), (a.1, a.2, a.3, a.4, a.5, a.6, a.7, a.8, a.9, a.10, a.11, a.12)));
                    }
                    res
                },
            }
        },
        Err(e) => {
            let res = Err(e);
            proof {
                let o = outcome::<(A::Result, B::Result, C::Result, D::Result, F::Result, G::Result, H::Result, I::Result, J::Result, K::Result, L::Result, M::Result, N::Result), E>(res);
                let a = (*p0, *p1, *p2, *p3, *p4, *p5, *p6, *p7, *p8, *p9, *p10, *p11, *p12);
                assert(start.0.parses(input@, Err(o->Err_0), a.0));
                assert((a.1, a.2, a.3, a.4, a.5, a.6, a.7, a.8, a.9, a.10, a.11, a.12) == (start.1, start.2, start.3, start.4, start.5, start.6, start.7, start.8, start.9, start.10, start.11, start.12));
            }
            res
        },
    }
}

impl<'p, E, A: Parser<'p, Error = E>, B: Parser<'p, Error = E>, C: Parser<'p, Error = E>, D: Parser<'p, Error = E>, F: Parser<'p, Error = E>, G: Parser<'p, Error = E>, H: Parser<'p, Error = E>, I: Parser<'p, Error = E>, J: Parser<'p, Error = E>, K: Parser<'p, Error = E>, L: Parser<'p, Error = E>, M: Parser<'p, Error = E>, N: Parser<'p, Error = E>> Parser<'p> for (A, B, C, D, F, G, H, I, J, K, L, M, N) {
    type Result = (A::Result, B::Result, C::Result, D::Result, F::Result, G::Result, H::Result, I::Result, J::Result, K::Result, L::Result, M::Result, N::Result);
    type Error = E;

    open spec fn well_formed(&self) -> bool {
        self.0.well_formed() && (self.1, self.2, self.3, self.4, self.5, self.6, self.7, self.8, self.9, self.10, self.11, self.12).well_formed()
    }

    open spec fn productive(&self) -> bool {
        self.0.productive() || (self.1, self.2, self.3, self.4, self.5, self.6, self.7, self.8, self.9, self.10, self.11, self.12).productive()
    }

    open spec fn parses(&self, input: Seq<u8>, out: Result<((A::Result, B::Result, C::Result, D::Result, F::Result, G::Result, H::Result, I::Result, J::Result, K::Result, L::Result, M::Result, N::Result), Seq<u8>), E>, after: Self) -> bool {
        match out {
            Ok((v, rest)) => exists|m: Seq<u8>|
                self.0.parses(input, Ok((v.0, m)), after.0) && (self.1, self.2, self.3, self.4, self.5, self.6, self.7, self.8, self.9, self.10, self.11, self.12).parses(
                    m,
                    Ok(((v.1, v.2, v.3, v.4, v.5, v.6, v.7, v.8, v.9, v.10, v.11, v.12), rest)),
                    (after.1, after.2, after.3, after.4, after.5, after.6, after.7, after.8, after.9, after.10, after.11, after.12),
                ),
            Err(e) => {
                ||| self.0.parses(input, Err(e), after.0) && (after.1, after.2, after.3, after.4, after.5, after.6, after.7, after.8, after.9, after.10, after.11, after.12) == (self.1, self.2, self.3, self.4, self.5, self.6, self.7, self.8, self.9, self.10, self.11, self.12)
                ||| exists|v0: A::Result, m: Seq<u8>|
                    self.0.parses(input, Ok((v0, m)), after.0) && (self.1, self.2, self.3, self.4, self.5, self.6, self.7, self.8, self.9, self.10, self.11, self.12).parses(m, Err(e), (after.1, after.2, after.3, after.4, after.5, after.6, after.7, after.8, after.9, after.10, after.11, after.12))
            },
        }
    }

    fn parse(&mut self, input: &'p [u8]) -> (res: Result<((A::Result, B::Result, C::Result, D::Result, F::Result, G::Result, H::Result, I::Result, J::Result, K::Result, L::Result, M::Result, N::Result), &'p [u8]), E>) {
        parse_seq13(&mut self.0, &mut self.1, &mut self.2, &mut self.3, &mut self.4, &mut self.5, &mut self.6, &mut self.7, &mut self.8, &mut self.9, &mut self.10, &mut self.11, &mut self.12, input)
    }
}

/// Runs `p0` to `p13` one after the other, each on what the one before it left.
fn parse_seq14<'p, E, A: Parser<'p, Error = E>, B: Parser<'p, Error = E>, C: Parser<'p, Error = E>, D: Parser<'p, Error = E>, F: Parser<'p, Error = E>, G: Parser<'p, Error = E>, H: Parser<'p, Error = E>, I: Parser<'p, Error = E>, J: Parser<'p, Error = E>, K: Parser<'p, Error = E>, L: Parser<'p, Error = E>, M: Parser<'p, Error = E>, N: Parser<'p, Error = E>, O: Parser<'p, Error = E>>(p0: &mut A, p1: &mut B, p2: &mut C, p3: &mut D, p4: &mut F, p5: &mut G, p6: &mut H, p7: &mut I, p8: &mut J, p9: &mut K, p10: &mut L, p11: &mut M, p12: &mut N, p13: &mut O, input: &'p [u8]) -> (res: Result<((A::Result, B::Result, C::Result, D::Result, F::Result, G::Result, H::Result, I::Result, J::Result, K::Result, L::Result, M::Result, N::Result, O::Result), &'p [u8]), E>)
    requires
        old(p0).well_formed(),
        old(p1).well_formed(),
        old(p2).well_formed(),
        old(p3).well_formed(),
        old(p4).well_formed(),
        old(p5).well_formed(),
        old(p6).well_formed(),
        old(p7).well_formed(),
        old(p8).well_formed(),
        old(p9).well_formed(),
        old(p10).well_formed(),
        old(p11).well_formed(),
        old(p12).well_formed(),
        old(p13).well_formed(),
    ensures
        final(p0).well_formed(),
        final(p1).well_formed(),
        final(p2).well_formed(),
        final(p3).well_formed(),
        final(p4).well_formed(),
        final(p5).well_formed(),
        final(p6).well_formed(),
        final(p7).well_formed(),
        final(p8).well_formed(),
        final(p9).well_formed(),
        final(p10).well_formed(),
        final(p11).well_formed(),
        final(p12).well_formed(),
        final(p13).well_formed(),
        (*old(p0), *old(p1), *old(p2), *old(p3), *old(p4), *old(p5), *old(p6), *old(p7), *old(p8), *old(p9), *old(p10), *old(p11), *old(p12), *old(p13)).parses(input@, outcome(res), (*final(p0), *final(p1), *final(p2), *final(p3), *final(p4), *final(p5), *final(p6), *final(p7), *final(p8), *final(p9), *final(p10), *final(p11), *final(p12), *final(p13))),
        res matches Ok((_, rest)) ==> is_suffix(rest@, input@),
        (*old(p0), *old(p1), *old(p2), *old(p3), *old(p4), *old(p5), *old(p6), *old(p7), *old(p8), *old(p9), *old(p10), *old(p11), *old(p12), *old(p13)).productive() ==> (*final(p0), *final(p1), *final(p2), *final(p3), *final(p4), *final(p5), *final(p6), *final(p7), *final(p8), *final(p9), *final(p10), *final(p11), *final(p12), *final(p13)).productive(),
        (*old(p0), *old(p1), *old(p2), *old(p3), *old(p4), *old(p5), *old(p6), *old(p7), *old(p8), *old(p9), *old(p10), *old(p11), *old(p12), *old(p13)).productive() && input@.len() > 0 ==> (res matches Ok((_, rest)) ==> rest@.len() < input@.len()),
{
    let ghost start = (*p0, *p1, *p2, *p3, *p4, *p5, *p6, *p7, *p8, *p9, *p10, *p11, *p12, *p13);
    match run(&mut *p0, input) {
        Ok((v0, m)) => {
            match parse_seq13(&mut *p1, &mut *p2, &mut *p3, &mut *p4, &mut *p5, &mut *p6, &mut *p7, &mut *p8, &mut *p9, &mut *p10, &mut *p11, &mut *p12, &mut *p13, m) {
                Ok((vt, rest)) => {
                    let res = Ok(((v0, vt.0, vt.1, vt.2, vt.3, vt.4, vt.5, vt.6, vt.7, vt.8, vt.9, vt.10, vt.11, vt.12), rest));
                    proof {
                        lemma_suffix_trans(rest@, m@, input@);
                        let o = outcome(res);
                        let v = o->Ok_0.0;
                        let a = (*p0, *p1, *p2, *p3, *p4, *p5, *p6, *p7, *p8, *p9, *p10, *p11, *p12, *p13);
                        assert((v.1, v.2, v.3, v.4, v.5, v.6, v.7, v.8, v.9, v.10, v.11, v.12, v.13) == vt);
                        assert(start.0.parses(input@, Ok((v.0, m@)), a.0));
                        assert((start.1, start.2, start.3, start.4, start.5, start.6, start.7, start.8, start.9, start.10, start.11, start.12, start.13).parses(m@, Ok(((v.1, v.2, v.3, v.4, v.5, v.6, v.7, v.8, v.9, v.10, v.11, v.12, v.13), o->Ok_0.1)), (a.1, a.2, a.3, a.4, a.5, a.6, a.7, a.8, a.9, a.10, a.11, a.12, a.13)));
                    }
                    res
                },
                Err(e) => {
                    let res = Err(e);
                    proof {
                        let o = outcome::<(A::Result, B::Result, C::Result, D::Result, F::Result, G::Result, H::Result, I::Result, J::Result, K::Result, L::Result, M::Result, N::Result, O::Result), E>(res);
                        let a = (*p0, *p1, *p2, *p3, *p4, *p5, *p6, *p7, *p8, *p9, *p10, *p11, *p12, *p13);
                        assert(start.0.parses(input@, Ok((v0, m@)), a.0));
                        assert((start.1, start.2, start.3, start.4, start.5, start.6, start.7, start.8, start.9, start.10, start.11, start.12, start.13).parses(m@, Err(o->Err_0), (a.1, a.2, a.3, a.4, a.5, a.6, a.7, a.8, a.9, a.10, a.11, a.12, a.13)));
                    }
                    res
                },
            }
        },
        Err(e) => {
            let res = Err(e);
            proof {
                let o = outcome::<(A::Result, B::Result, C::Result, D::Result, F::Result, G::Result, H::Result, I::Result, J::Result, K::Result, L::Result, M::Result, N::Result, O::Result), E>(res);
                let a = (*p0, *p1, *p2, *p3, *p4, *p5, *p6, *p7, *p8, *p9, *p10, *p11, *p12, *p13);
                assert(start.0.parses(input@, Err(o->Err_0), a.0));
                assert((a.1, a.2, a.3, a.4, a.5, a.6, a.7, a.8, a.9, a.10, a.11, a.12, a.13) == (start.1, start.2, start.3, start.4, start.5, start.6, start.7, start.8, start.9, start.10, start.11, start.12, start.13));
            }
            res
        },
    }
}

impl<'p, E, A: Parser<'p, Error = E>, B: Parser<'p, Error = E>, C: Parser<'p, Error = E>, D: Parser<'p, Error = E>, F: Parser<'p, Error = E>, G: Parser<'p, Error = E>, H: Parser<'p, Error = E>, I: Parser<'p, Error = E>, J: Parser<'p, Error = E>, K: Parser<'p, Error = E>, L: Parser<'p, Error = E>, M: Parser<'p, Error = E>, N: Parser<'p, Error = E>, O: Parser<'p, Error = E>> Parser<'p> for (A, B, C, D, F, G, H, I, J, K, L, M, N, O) {
    type Result = (A::Result, B::Result, C::Result, D::Result, F::Result, G::Result, H::Result, I::Result, J::Result, K::Result, L::Result, M::Result, N::Result, O::Result);
    type Error = E;

    open spec fn well_formed(&self) -> bool {
        self.0.well_formed() && (self.1, self.2, self.3, self.4, self.5, self.6, self.7, self.8, self.9, self.10, self.11, self.12, self.13).well_formed()
    }

    open spec fn productive(&self) -> bool {
        self.0.productive() || (self.1, self.2, self.3, self.4, self.5, self.6, self.7, self.8, self.9, self.10, self.11, self.12, self.13).productive()
    }

    open spec fn parses(&self, input: Seq<u8>, out: Result<((A::Result, B::Result, C::Result, D::Result, F::Result, G::Result, H::Result, I::Result, J::Result, K::Result, L::Result, M::Result, N::Result, O::Result), Seq<u8>), E>, after: Self) -> bool {
        match out {
            Ok((v, rest)) => exists|m: Seq<u8>|
                self.0.parses(input, Ok((v.0, m)), after.0) && (self.1, self.2, self.3, self.4, self.5, self.6, self.7, self.8, self.9, self.10, self.11, self.12, self.13).parses(
                    m,
                    Ok(((v.1, v.2, v.3, v.4, v.5, v.6, v.7, v.8, v.9, v.10, v.11, v.12, v.13), rest)),
                    (after.1, after.2, after.3, after.4, after.5, after.6, after.7, after.8, after.9, after.10, after.11, after.12, after.13),
                ),
            Err(e) => {
                ||| self.0.parses(input, Err(e), after.0) && (after.1, after.2, after.3, after.4, after.5, after.6, after.7, after.8, after.9, after.10, after.11, after.12, after.13) == (self.1, self.2, self.3, self.4, self.5, self.6, self.7, self.8, self.9, self.10, self.11, self.12, self.13)
                ||| exists|v0: A::Result, m: Seq<u8>|
                    self.0.parses(input, Ok((v0, m)), after.0) && (self.1, self.2, self.3, self.4, self.5, self.6, self.7, self.8, self.9, self.10, self.11, self.12, self.13).parses(m, Err(e), (after.1, after.2, after.3, after.4, after.5, after.6, after.7, after.8, after.9, after.10, after.11, after.12, after.13))
            },
        }
    }

    fn parse(&mut self, input: &'p [u8]) -> (res: Result<((A::Result, B::Result, C::Result, D::Result, F::Result, G::Result, H::Result, I::Result, J::Result, K::Result, L::Result, M::Result, N::Result, O::Result), &'p [u8]), E>) {
        parse_seq14(&mut self.0, &mut self.1, &mut self.2, &mut self.3, &mut self.4, &mut self.5, &mut self.6, &mut self.7, &mut self.8, &mut self.9, &mut self.10, &mut self.11, &mut self.12, &mut self.13, input)
    }
}

/// Runs `p0` to `p14` one after the other, each on what the one before it left.
fn parse_seq15<'p, E, A: Parser<'p, Error = E>, B: Parser<'p, Error = E>, C: Parser<'p, Error = E>, D: Parser<'p, Error = E>, F: Parser<'p, Error = E>, G: Parser<'p, Error = E>, H: Parser<'p, Error = E>, I: Parser<'p, Error = E>, J: Parser<'p, Error = E>, K: Parser<'p, Error = E>, L: Parser<'p, Error = E>, M: Parser<'p, Error = E>, N: Parser<'p, Error = E>, O: Parser<'p, Error = E>, P: Parser<'p, Error = E>>(p0: &mut A, p1: &mut B, p2: &mut C, p3: &mut D, p4: &mut F, p5: &mut G, p6: &mut H, p7: &mut I, p8: &mut J, p9: &mut K, p10: &mut L, p11: &mut M, p12: &mut N, p13: &mut O, p14: &mut P, input: &'p [u8]) -> (res: Result<((A::Result, B::Result, C::Result, D::Result, F::Result, G::Result, H::Result, I::Result, J::Result, K::Result, L::Result, M::Result, N::Result, O::Result, P::Result), &'p [u8]), E>)
    requires
        old(p0).well_formed(),
        old(p1).well_formed(),
        old(p2).well_formed(),
        old(p3).well_formed(),
        old(p4).well_formed(),
        old(p5).well_formed(),
        old(p6).well_formed(),
        old(p7).well_formed(),
        old(p8).well_formed(),
        old(p9).well_formed(),
        old(p10).well_formed(),
        old(p11).well_formed(),
        old(p12).well_formed(),
        old(p13).well_formed(),
        old(p14).well_formed(),
    ensures
        final(p0).well_formed(),
        final(p1).well_formed(),
        final(p2).well_formed(),
        final(p3).well_formed(),
        final(p4).well_formed(),
        final(p5).well_formed(),
        final(p6).well_formed(),
        final(p7).well_formed(),
        final(p8).well_formed(),
        final(p9).well_formed(),
        final(p10).well_formed(),
        final(p11).well_formed(),
        final(p12).well_formed(),
        final(p13).well_formed(),
        final(p14).well_formed(),
        (*old(p0), *old(p1), *old(p2), *old(p3), *old(p4), *old(p5), *old(p6), *old(p7), *old(p8), *old(p9), *old(p10), *old(p11), *old(p12), *old(p13), *old(p14)).parses(input@, outcome(res), (*final(p0), *final(p1), *final(p2), *final(p3), *final(p4), *final(p5), *final(p6), *final(p7), *final(p8), *final(p9), *final(p10), *final(p11), *final(p12), *final(p13), *final(p14))),
        res matches Ok((_, rest)) ==> is_suffix(rest@, input@),
        (*old(p0), *old(p1), *old(p2), *old(p3), *old(p4), *old(p5), *old(p6), *old(p7), *old(p8), *old(p9), *old(p10), *old(p11), *old(p12), *old(p13), *old(p14)).productive() ==> (*final(p0), *final(p1), *final(p2), *final(p3), *final(p4), *final(p5), *final(p6), *final(p7), *final(p8), *final(p9), *final(p10), *final(p11), *final(p12), *final(p13), *final(p14)).productive(),
        (*old(p0), *old(p1), *old(p2), *old(p3), *old(p4), *old(p5), *old(p6), *old(p7), *old(p8), *old(p9), *old(p10), *old(p11), *old(p12), *old(p13), *old(p14)).productive() && input@.len() > 0 ==> (res matches Ok((_, rest)) ==> rest@.len() < input@.len()),
{
    let ghost start = (*p0, *p1, *p2, *p3, *p4, *p5, *p6, *p7, *p8, *p9, *p10, *p11, *p12, *p13, *p14);
    match run(&mut *p0, input) {
        Ok((v0, m)) => {
            match parse_seq14(&mut *p1, &mut *p2, &mut *p3, &mut *p4, &mut *p5, &mut *p6, &mut *p7, &mut *p8, &mut *p9, &mut *p10, &mut *p11, &mut *p12, &mut *p13, &mut *p14, m) {
                Ok((vt, rest)) => {
                    let res = Ok(((v0, vt.0, vt.1, vt.2, vt.3, vt.4, vt.5, vt.6, vt.7, vt.8, vt.9, vt.10, vt.11, vt.12, vt.13), rest));
                    proof {
                        lemma_suffix_trans(rest@, m@, input@);
                        let o = outcome(res);
                        let v = o->Ok_0.0;
                        let a = (*p0, *p1, *p2, *p3, *p4, *p5, *p6, *p7, *p8, *p9, *p10, *p11, *p12, *p13, *p14);
                        assert((v.1, v.2, v.3, v.4, v.5, v.6, v.7, v.8, v.9, v.10, v.11, v.12, v.13, v.14) == vt);
                        assert(start.0.parses(input@, Ok((v.0, m@)), a.0));
                        assert((start.1, start.2, start.3, start.4, start.5, start.6, start.7, start.8, start.9, start.10, start.11, start.12, start.13, start.14).parses(m@, Ok(((v.1, v.2, v.3, v.4, v.5, v.6, v.7, v.8, v.9, v.10, v.11, v.12, v.13, v.14), o->Ok_0.1)), (a.1, a.2, a.3, a.4, a.5, a.6, a.7, a.8, a.9, a.10, a.11, a.12, a.13, a.14)));
                    }
                    res
                },
                Err(e) => {
                    let res = Err(e);
                    proof {
                        let o = outcome::<(A::Result, B::Result, C::Result, D::Result, F::Result, G::Result, H::Result, I::Result, J::Result, K::Result, L::Result, M::Result, N::Result, O::Result, P::Result), E>(res);
                        let a = (*p0, *p1, *p2, *p3, *p4, *p5, *p6, *p7, *p8, *p9, *p10, *p11, *p12, *p13, *p14);
                        assert(start.0.parses(input@, Ok((v0, m@)), a.0));
                        assert((start.1, start.2, start.3, start.4, start.5, start.6, start.7, start.8, start.9, start.10, start.11, start.12, start.13, start.14).parses(m@, Err(o->Err_0), (a.1, a.2, a.3, a.4, a.5, a.6, a.7, a.8, a.9, a.10, a.11, a.12, a.13, a.14)));
                    }
                    res
                },
            }
        },
        Err(e) => {
            let res = Err(e);
            proof {
                let o = outcome::<(A::Result, B::Result, C::Result, D::Result, F::Result, G::Result, H::Result, I::Result, J::Result, K::Result, L::Result, M::Result, N::Result, O::Result, P::Result), E>(res);
                let a = (*p0, *p1, *p2, *p3, *p4, *p5, *p6, *p7, *p8, *p9, *p10, *p11, *p12, *p13, *p14);
                assert(start.0.parses(input@, Err(o->Err_0), a.0));
                assert((a.1, a.2, a.3, a.4, a.5, a.6, a.7, a.8, a.9, a.10, a.11, a.12, a.13, a.14) == (start.1, start.2, start.3, start.4, start.5, start.6, start.7, start.8, start.9, start.10, start.11, start.12, start.13, start.14));
            }
            res
        },
    }
}

impl<'p, E, A: Parser<'p, Error = E>, B: Parser<'p, Error = E>, C: Parser<'p, Error = E>, D: Parser<'p, Error = E>, F: Parser<'p, Error = E>, G: Parser<'p, Error = E>, H: Parser<'p, Error = E>, I: Parser<'p, Error = E>, J: Parser<'p, Error = E>, K: Parser<'p, Error = E>, L: Parser<'p, Error = E>, M: Parser<'p, Error = E>, N: Parser<'p, Error = E>, O: Parser<'p, Error = E>, P: Parser<'p, Error = E>> Parser<'p> for (A, B, C, D, F, G, H, I, J, K, L, M, N, O, P) {
    type Result = (A::Result, B::Result, C::Result, D::Result, F::Result, G::Result, H::Result, I::Result, J::Result, K::Result, L::Result, M::Result, N::Result, O::Result, P::Result);
    type Error = E;

    open spec fn well_formed(&self) -> bool {
        self.0.well_formed() && (self.1, self.2, self.3, self.4, self.5, self.6, self.7, self.8, self.9, self.10, self.11, self.12, self.13, self.14).well_formed()
    }

    open spec fn productive(&self) -> bool {
        self.0.productive() || (self.1, self.2, self.3, self.4, self.5, self.6, self.7, self.8, self.9, self.10, self.11, self.12, self.13, self.14).productive()
    }

    open spec fn parses(&self, input: Seq<u8>, out: Result<((A::Result, B::Result, C::Result, D::Result, F::Result, G::Result, H::Result, I::Result, J::Result, K::Result, L::Result, M::Result, N::Result, O::Result, P::Result), Seq<u8>), E>, after: Self) -> bool {
        match out {
            Ok((v, rest)) => exists|m: Seq<u8>|
                self.0.parses(input, Ok((v.0, m)), after.0) && (self.1, self.2, self.3, self.4, self.5, self.6, self.7, self.8, self.9, self.10, self.11, self.12, self.13, self.14).parses(
                    m,
                    Ok(((v.1, v.2, v.3, v.4, v.5, v.6, v.7, v.8, v.9, v.10, v.11, v.12, v.13, v.14), rest)),
                    (after.1, after.2, after.3, after.4, after.5, after.6, after.7, after.8, after.9, after.10, after.11, after.12, after.13, after.14),
                ),
            Err(e) => {
                ||| self.0.parses(input, Err(e), after.0) && (after.1, after.2, after.3, after.4, after.5, after.6, after.7, after.8, after.9, after.10, after.11, after.12, after.13, after.14) == (self.1, self.2, self.3, self.4, self.5, self.6, self.7, self.8, self.9, self.10, self.11, self.12, self.13, self.14)
                ||| exists|v0: A::Result, m: Seq<u8>|
                    self.0.parses(input, Ok((v0, m)), after.0) && (self.1, self.2, self.3, self.4, self.5, self.6, self.7, self.8, self.9, self.10, self.11, self.12, self.13, self.14).parses(m, Err(e), (after.1, after.2, after.3, after.4, after.5, after.6, after.7, after.8, after.9, after.10, after.11, after.12, after.13, after.14))
            },
        }
    }

    fn parse(&mut self, input: &'p [u8]) -> (res: Result<((A::Result, B::Result, C::Result, D::Result, F::Result, G::Result, H::Result, I::Result, J::Result, K::Result, L::Result, M::Result, N::Result, O::Result, P::Result), &'p [u8]), E>) {
        parse_seq15(&mut self.0, &mut self.1, &mut self.2, &mut self.3, &mut self.4, &mut self.5, &mut self.6, &mut self.7, &mut self.8, &mut self.9, &mut self.10, &mut self.11, &mut self.12, &mut self.13, &mut self.14, input)
    }
}

/// Runs `p0` to `p15` one after the other, each on what the one before it left.
fn parse_seq16<'p, E, A: Parser<'p, Error = E>, B: Parser<'p, Error = E>, C: Parser<'p, Error = E>, D: Parser<'p, Error = E>, F: Parser<'p, Error = E>, G: Parser<'p, Error = E>, H: Parser<'p, Error = E>, I: Parser<'p, Error = E>, J: Parser<'p, Error = E>, K: Parser<'p, Error = E>, L: Parser<'p, Error = E>, M: Parser<'p, Error = E>, N: Parser<'p, Error = E>, O: Parser<'p, Error = E>, P: Parser<'p, Error = E>, Q: Parser<'p, Error = E>>(p0: &mut A, p1: &mut B, p2: &mut C, p3: &mut D, p4: &mut F, p5: &mut G, p6: &mut H, p7: &mut I, p8: &mut J, p9: &mut K, p10: &mut L, p11: &mut M, p12: &mut N, p13: &mut O, p14: &mut P, p15: &mut Q, input: &'p [u8]) -> (res: Result<((A::Result, B::Result, C::Result, D::Result, F::Result, G::Result, H::Result, I::Result, J::Result, K::Result, L::Result, M::Result, N::Result, O::Result, P::Result, Q::Result), &'p [u8]), E>)
    requires
        old(p0).well_formed(),
        old(p1).well_formed(),
        old(p2).well_formed(),
        old(p3).well_formed(),
        old(p4).well_formed(),
        old(p5).well_formed(),
        old(p6).well_formed(),
        old(p7).well_formed(),
        old(p8).well_formed(),
        old(p9).well_formed(),
        old(p10).well_formed(),
        old(p11).well_formed(),
        old(p12).well_formed(),
        old(p13).well_formed(),
        old(p14).well_formed(),
        old(p15).well_formed(),
    ensures
        final(p0).well_formed(),
        final(p1).well_formed(),
        final(p2).well_formed(),
        final(p3).well_formed(),
        final(p4).well_formed(),
        final(p5).well_formed(),
        final(p6).well_formed(),
        final(p7).well_formed(),
        final(p8).well_formed(),
        final(p9).well_formed(),
        final(p10).well_formed(),
        final(p11).well_formed(),
        final(p12).well_formed(),
        final(p13).well_formed(),
        final(p14).well_formed(),
        final(p15).well_formed(),
        (*old(p0), *old(p1), *old(p2), *old(p3), *old(p4), *old(p5), *old(p6), *old(p7), *old(p8), *old(p9), *old(p10), *old(p11), *old(p12), *old(p13), *old(p14), *old(p15)).parses(input@, outcome(res), (*final(p0), *final(p1), *final(p2), *final(p3), *final(p4), *final(p5), *final(p6), *final(p7), *final(p8), *final(p9), *final(p10), *final(p11), *final(p12), *final(p13), *final(p14), *final(p15))),
        res matches Ok((_, rest)) ==> is_suffix(rest@, input@),
        (*old(p0), *old(p1), *old(p2), *old(p3), *old(p4), *old(p5), *old(p6), *old(p7), *old(p8), *old(p9), *old(p10), *old(p11), *old(p12), *old(p13), *old(p14), *old(p15)).productive() ==> (*final(p0), *final(p1), *final(p2), *final(p3), *final(p4), *final(p5), *final(p6), *final(p7), *final(p8), *final(p9), *final(p10), *final(p11), *final(p12), *final(p13), *final(p14), *final(p15)).productive(),
        (*old(p0), *old(p1), *old(p2), *old(p3), *old(p4), *old(p5), *old(p6), *old(p7), *old(p8), *old(p9), *old(p10), *old(p11), *old(p12), *old(p13), *old(p14), *old(p15)).productive() && input@.len() > 0 ==> (res matches Ok((_, rest)) ==> rest@.len() < input@.len()),
{
    let ghost start = (*p0, *p1, *p2, *p3, *p4, *p5, *p6, *p7, *p8, *p9, *p10, *p11, *p12, *p13, *p14, *p15);
    match run(&mut *p0, input) {
        Ok((v0, m)) => {
            match parse_seq15(&mut *p1, &mut *p2, &mut *p3, &mut *p4, &mut *p5, &mut *p6, &mut *p7, &mut *p8, &mut *p9, &mut *p10, &mut *p11, &mut *p12, &mut *p13, &mut *p14, &mut *p15, m) {
                Ok((vt, rest)) => {
                    let res = Ok(((v0, vt.0, vt.1, vt.2, vt.3, vt.4, vt.5, vt.6, vt.7, vt.8, vt.9, vt.10, vt.11, vt.12, vt.13, vt.14), rest));
                    proof {
                        lemma_suffix_trans(rest@, m@, input@);
                        let o = outcome(res);
                        let v = o->Ok_0.0;
                        let a = (*p0, *p1, *p2, *p3, *p4, *p5, *p6, *p7, *p8, *p9, *p10, *p11, *p12, *p13, *p14, *p15);
                        assert((v.1, v.2, v.3, v.4, v.5, v.6, v.7, v.8, v.9, v.10, v.11, v.12, v.13, v.14, v.15) == vt);
                        assert(start.0.parses(input@, Ok((v.0, m@)), a.0));
                        assert((start.1, start.2, start.3, start.4, start.5, start.6, start.7, start.8, start.9, start.10, start.11, start.12, start.13, start.14, start.15).parses(m@, Ok(((v.1, v.2, v.3, v.4, v.5, v.6, v.7, v.8, v.9, v.10, v.11, v.12, v.13, v.14, v.15), o->Ok_0.1)), (a.1, a.2, a.3, a.4, a.5, a.6, a.7, a.8, a.9, a.10, a.11, a.12, a.13, a.14, a.15)));
                    }
                    res
                },
                Err(e) => {
                    let res = Err(e);
                    proof {
                        let o = outcome::<(A::Result, B::Result, C::Result, D::Result, F::Result, G::Result, H::Result, I::Result, J::Result, K::Result, L::Result, M::Result, N::Result, O::Result, P::Result, Q::Result), E>(res);
                        let a = (*p0, *p1, *p2, *p3, *p4, *p5, *p6, *p7, *p8, *p9, *p10, *p11, *p12, *p13, *p14, *p15);
                        assert(start.0.parses(input@, Ok((v0, m@)), a.0));
                        assert((start.1, start.2, start.3, start.4, start.5, start.6, start.7, start.8, start.9, start.10, start.11, start.12, start.13, start.14, start.15).parses(m@, Err(o->Err_0), (a.1, a.2, a.3, a.4, a.5, a.6, a.7, a.8, a.9, a.10, a.11, a.12, a.13, a.14, a.15)));
                    }
                    res
                },
            }
        },
        Err(e) => {
            let res = Err(e);
            proof {
                let o = outcome::<(A::Result, B::Result, C::Result, D::Result, F::Result, G::Result, H::Result, I::Result, J::Result, K::Result, L::Result, M::Result, N::Result, O::Result, P::Result, Q::Result), E>(res);
                let a = (*p0, *p1, *p2, *p3, *p4, *p5, *p6, *p7, *p8, *p9, *p10, *p11, *p12, *p13, *p14, *p15);
                assert(start.0.parses(input@, Err(o->Err_0), a.0));
                assert((a.1, a.2, a.3, a.4, a.5, a.6, a.7, a.8, a.9, a.10, a.11, a.12, a.13, a.14, a.15) == (start.1, start.2, start.3, start.4, start.5, start.6, start.7, start.8, start.9, start.10, start.11, start.12, start.13, start.14, start.15));
            }
            res
        },
    }
}

impl<'p, E, A: Parser<'p, Error = E>, B: Parser<'p, Error = E>, C: Parser<'p, Error = E>, D: Parser<'p, Error = E>, F: Parser<'p, Error = E>, G: Parser<'p, Error = E>, H: Parser<'p, Error = E>, I: Parser<'p, Error = E>, J: Parser<'p, Error = E>, K: Parser<'p, Error = E>, L: Parser<'p, Error = E>, M: Parser<'p, Error = E>, N: Parser<'p, Error = E>, O: Parser<'p, Error = E>, P: Parser<'p, Error = E>, Q: Parser<'p, Error = E>> Parser<'p> for (A, B, C, D, F, G, H, I, J, K, L, M, N, O, P, Q) {
    type Result = (A::Result, B::Result, C::Result, D::Result, F::Result, G::Result, H::Result, I::Result, J::Result, K::Result, L::Result, M::Result, N::Result, O::Result, P::Result, Q::Result);
    type Error = E;

    open spec fn well_formed(&self) -> bool {
        self.0.well_formed() && (self.1, self.2, self.3, self.4, self.5, self.6, self.7, self.8, self.9, self.10, self.11, self.12, self.13, self.14, self.15).well_formed()
    }

    open spec fn productive(&self) -> bool {
        self.0.productive() || (self.1, self.2, self.3, self.4, self.5, self.6, self.7, self.8, self.9, self.10, self.11, self.12, self.13, self.14, self.15).productive()
    }

    open spec fn parses(&self, input: Seq<u8>, out: Result<((A::Result, B::Result, C::Result, D::Result, F::Result, G::Result, H::Result, I::Result, J::Result, K::Result, L::Result, M::Result, N::Result, O::Result, P::Result, Q::Result), Seq<u8>), E>, after: Self) -> bool {
        match out {
            Ok((v, rest)) => exists|m: Seq<u8>|
                self.0.parses(input, Ok((v.0, m)), after.0) && (self.1, self.2, self.3, self.4, self.5, self.6, self.7, self.8, self.9, self.10, self.11, self.12, self.13, self.14, self.15).parses(
                    m,
                    Ok(((v.1, v.2, v.3, v.4, v.5, v.6, v.7, v.8, v.9, v.10, v.11, v.12, v.13, v.14, v.15), rest)),
                    (after.1, after.2, after.3, after.4, after.5, after.6, after.7, after.8, after.9, after.10, after.11, after.12, after.13, after.14, after.15),
                ),
            Err(e) => {
                ||| self.0.parses(input, Err(e), after.0) && (after.1, after.2, after.3, after.4, after.5, after.6, after.7, after.8, after.9, after.10, after.11, after.12, after.13, after.14, after.15) == (self.1, self.2, self.3, self.4, self.5, self.6, self.7, self.8, self.9, self.10, self.11, self.12, self.13, self.14, self.15)
                ||| exists|v0: A::Result, m: Seq<u8>|
                    self.0.parses(input, Ok((v0, m)), after.0) && (self.1, self.2, self.3, self.4, self.5, self.6, self.7, self.8, self.9, self.10, self.11, self.12, self.13, self.14, self.15).parses(m, Err(e), (after.1, after.2, after.3, after.4, after.5, after.6, after.7, after.8, after.9, after.10, after.11, after.12, after.13, after.14, after.15))
            },
        }
    }

    fn parse(&mut self, input: &'p [u8]) -> (res: Result<((A::Result, B::Result, C::Result, D::Result, F::Result, G::Result, H::Result, I::Result, J::Result, K::Result, L::Result, M::Result, N::Result, O::Result, P::Result, Q::Result), &'p [u8]), E>) {
        parse_seq16(&mut self.0, &mut self.1, &mut self.2, &mut self.3, &mut self.4, &mut self.5, &mut self.6, &mut self.7, &mut self.8, &mut self.9, &mut self.10, &mut self.11, &mut self.12, &mut self.13, &mut self.14, &mut self.15, input)
    }
}

/// Runs `p0` to `p16` one after the other, each on what the one before it left.
fn parse_seq17<'p, E, A: Parser<'p, Error = E>, B: Parser<'p, Error = E>, C: Parser<'p, Error = E>, D: Parser<'p, Error = E>, F: Parser<'p, Error = E>, G: Parser<'p, Error = E>, H: Parser<'p, Error = E>, I: Parser<'p, Error = E>, J: Parser<'p, Error = E>, K: Parser<'p, Error = E>, L: Parser<'p, Error = E>, M: Parser<'p, Error = E>, N: Parser<'p, Error = E>, O: Parser<'p, Error = E>, P: Parser<'p, Error = E>, Q: Parser<'p, Error = E>, R: Parser<'p, Error = E>>(p0: &mut A, p1: &mut B, p2: &mut C, p3: &mut D, p4: &mut F, p5: &mut G, p6: &mut H, p7: &mut I, p8: &mut J, p9: &mut K, p10: &mut L, p11: &mut M, p12: &mut N, p13: &mut O, p14: &mut P, p15: &mut Q, p16: &mut R, input: &'p [u8]) -> (res: Result<((A::Result, B::Result, C::Result, D::Result, F::Result, G::Result, H::Result, I::Result, J::Result, K::Result, L::Result, M::Result, N::Result, O::Result, P::Result, Q::Result, R::Result), &'p [u8]), E>)
    requires
        old(p0).well_formed(),
        old(p1).well_formed(),
        old(p2).well_formed(),
        old(p3).well_formed(),
        old(p4).well_formed(),
        old(p5).well_formed(),
        old(p6).well_formed(),
        old(p7).well_formed(),
        old(p8).well_formed(),
        old(p9).well_formed(),
        old(p10).well_formed(),
        old(p11).well_formed(),
        old(p12).well_formed(),
        old(p13).well_formed(),
        old(p14).well_formed(),
        old(p15).well_formed(),
        old(p16).well_formed(),
    ensures
        final(p0).well_formed(),
        final(p1).well_formed(),
        final(p2).well_formed(),
        final(p3).well_formed(),
        final(p4).well_formed(),
        final(p5).well_formed(),
        final(p6).well_formed(),
        final(p7).well_formed(),
        final(p8).well_formed(),
        final(p9).well_formed(),
        final(p10).well_formed(),
        final(p11).well_formed(),
        final(p12).well_formed(),
        final(p13).well_formed(),
        final(p14).well_formed(),
        final(p15).well_formed(),
        final(p16).well_formed(),
        (*old(p0), *old(p1), *old(p2), *old(p3), *old(p4), *old(p5), *old(p6), *old(p7), *old(p8), *old(p9), *old(p10), *old(p11), *old(p12), *old(p13), *old(p14), *old(p15), *old(p16)).parses(input@, outcome(res), (*final(p0), *final(p1), *final(p2), *final(p3), *final(p4), *final(p5), *final(p6), *final(p7), *final(p8), *final(p9), *final(p10), *final(p11), *final(p12), *final(p13), *final(p14), *final(p15), *final(p16))),
        res matches Ok((_, rest)) ==> is_suffix(rest@, input@),
        (*old(p0), *old(p1), *old(p2), *old(p3), *old(p4), *old(p5), *old(p6), *old(p7), *old(p8), *old(p9), *old(p10), *old(p11), *old(p12), *old(p13), *old(p14), *old(p15), *old(p16)).productive() ==> (*final(p0), *final(p1), *final(p2), *final(p3), *final(p4), *final(p5), *final(p6), *final(p7), *final(p8), *final(p9), *final(p10), *final(p11), *final(p12), *final(p13), *final(p14), *final(p15), *final(p16)).productive(),
        (*old(p0), *old(p1), *old(p2), *old(p3), *old(p4), *old(p5), *old(p6), *old(p7), *old(p8), *old(p9), *old(p10), *old(p11), *old(p12), *old(p13), *old(p14), *old(p15), *old(p16)).productive() && input@.len() > 0 ==> (res matches Ok((_, rest)) ==> rest@.len() < input@.len()),
{
    let ghost start = (*p0, *p1, *p2, *p3, *p4, *p5, *p6, *p7, *p8, *p9, *p10, *p11, *p12, *p13, *p14, *p15, *p16);
    match run(&mut *p0, input) {
        Ok((v0, m)) => {
            match parse_seq16(&mut *p1, &mut *p2, &mut *p3, &mut *p4, &mut *p5, &mut *p6, &mut *p7, &mut *p8, &mut *p9, &mut *p10, &mut *p11, &mut *p12, &mut *p13, &mut *p14, &mut *p15, &mut *p16, m) {
                Ok((vt, rest)) => {
                    let res = Ok(((v0, vt.0, vt.1, vt.2, vt.3, vt.4, vt.5, vt.6, vt.7, vt.8, vt.9, vt.10, vt.11, vt.12, vt.13, vt.14, vt.15), rest));
                    proof {
                        lemma_suffix_trans(rest@, m@, input@);
                        let o = outcome(res);
                        let v = o->Ok_0.0;
                        let a = (*p0, *p1, *p2, *p3, *p4, *p5, *p6, *p7, *p8, *p9, *p10, *p11, *p12, *p13, *p14, *p15, *p16);
                        assert((v.1, v.2, v.3, v.4, v.5, v.6, v.7, v.8, v.9, v.10, v.11, v.12, v.13, v.14, v.15, v.16) == vt);
                        assert(start.0.parses(input@, Ok((v.0, m@)), a.0));
                        assert((start.1, start.2, start.3, start.4, start.5, start.6, start.7, start.8, start.9, start.10, start.11, start.12, start.13, start.14, start.15, start.16).parses(m@, Ok(((v.1, v.2, v.3, v.4, v.5, v.6, v.7, v.8, v.9, v.10, v.11, v.12, v.13, v.14, v.15, v.16), o->Ok_0.1)), (a.1, a.2, a.3, a.4, a.5, a.6, a.7, a.8, a.9, a.10, a.11, a.12, a.13, a.14, a.15, a.16)));
                    }
                    res
                },
                Err(e) => {
                    let res = Err(e);
                    proof {
                        let o = outcome::<(A::Result, B::Result, C::Result, D::Result, F::Result, G::Result, H::Result, I::Result, J::Result, K::Result, L::Result, M::Result, N::Result, O::Result, P::Result, Q::Result, R::Result), E>(res);
                        let a = (*p0, *p1, *p2, *p3, *p4, *p5, *p6, *p7, *p8, *p9, *p10, *p11, *p12, *p13, *p14, *p15, *p16);
                        assert(start.0.parses(input@, Ok((v0, m@)), a.0));
                        assert((start.1, start.2, start.3, start.4, start.5, start.6, start.7, start.8, start.9, start.10, start.11, start.12, start.13, start.14, start.15, start.16).parses(m@, Err(o->Err_0), (a.1, a.2, a.3, a.4, a.5, a.6, a.7, a.8, a.9, a.10, a.11, a.12, a.13, a.14, a.15, a.16)));
                    }
                    res
                },
            }
        },
        Err(e) => {
            let res = Err(e);
            proof {
                let o = outcome::<(A::Result, B::Result, C::Result, D::Result, F::Result, G::Result, H::Result, I::Result, J::Result, K::Result, L::Result, M::Result, N::Result, O::Result, P::Result, Q::Result, R::Result), E>(res);
                let a = (*p0, *p1, *p2, *p3, *p4, *p5, *p6, *p7, *p8, *p9, *p10, *p11, *p12, *p13, *p14, *p15, *p16);
                assert(start.0.parses(input@, Err(o->Err_0), a.0));
                assert((a.1, a.2, a.3, a.4, a.5, a.6, a.7, a.8, a.9, a.10, a.11, a.12, a.13, a.14, a.15, a.16) == (start.1, start.2, start.3, start.4, start.5, start.6, start.7, start.8, start.9, start.10, start.11, start.12, start.13, start.14, start.15, start.16));
            }
            res
        },
    }
}

impl<'p, E, A: Parser<'p, Error = E>, B: Parser<'p, Error = E>, C: Parser<'p, Error = E>, D: Parser<'p, Error = E>, F: Parser<'p, Error = E>, G: Parser<'p, Error = E>, H: Parser<'p, Error = E>, I: Parser<'p, Error = E>, J: Parser<'p, Error = E>, K: Parser<'p, Error = E>, L: Parser<'p, Error = E>, M: Parser<'p, Error = E>, N: Parser<'p, Error = E>, O: Parser<'p, Error = E>, P: Parser<'p, Error = E>, Q: Parser<'p, Error = E>, R: Parser<'p, Error = E>> Parser<'p> for (A, B, C, D, F, G, H, I, J, K, L, M, N, O, P, Q, R) {
    type Result = (A::Result, B::Result, C::Result, D::Result, F::Result, G::Result, H::Result, I::Result, J::Result, K::Result, L::Result, M::Result, N::Result, O::Result, P::Result, Q::Result, R::Result);
    type Error = E;

    open spec fn well_formed(&self) -> bool {
        self.0.well_formed() && (self.1, self.2, self.3, self.4, self.5, self.6, self.7, self.8, self.9, self.10, self.11, self.12, self.13, self.14, self.15, self.16).well_formed()
    }

    open spec fn productive(&self) -> bool {
        self.0.productive() || (self.1, self.2, self.3, self.4, self.5, self.6, self.7, self.8, self.9, self.10, self.11, self.12, self.13, self.14, self.15, self.16).productive()
    }

    open spec fn parses(&self, input: Seq<u8>, out: Result<((A::Result, B::Result, C::Result, D::Result, F::Result, G::Result, H::Result, I::Result, J::Result, K::Result, L::Result, M::Result, N::Result, O::Result, P::Result, Q::Result, R::Result), Seq<u8>), E>, after: Self) -> bool {
        match out {
            Ok((v, rest)) => exists|m: Seq<u8>|
                self.0.parses(input, Ok((v.0, m)), after.0) && (self.1, self.2, self.3, self.4, self.5, self.6, self.7, self.8, self.9, self.10, self.11, self.12, self.13, self.14, self.15, self.16).parses(
                    m,
                    Ok(((v.1, v.2, v.3, v.4, v.5, v.6, v.7, v.8, v.9, v.10, v.11, v.12, v.13, v.14, v.15, v.16), rest)),
                    (after.1, after.2, after.3, after.4, after.5, after.6, after.7, after.8, after.9, after.10, after.11, after.12, after.13, after.14, after.15, after.16),
                ),
            Err(e) => {
                ||| self.0.parses(input, Err(e), after.0) && (after.1, after.2, after.3, after.4, after.5, after.6, after.7, after.8, after.9, after.10, after.11, after.12, after.13, after.14, after.15, after.16) == (self.1, self.2, self.3, self.4, self.5, self.6, self.7, self.8, self.9, self.10, self.11, self.12, self.13, self.14, self.15, self.16)
                ||| exists|v0: A::Result, m: Seq<u8>|
                    self.0.parses(input, Ok((v0, m)), after.0) && (self.1, self.2, self.3, self.4, self.5, self.6, self.7, self.8, self.9, self.10, self.11, self.12, self.13, self.14, self.15, self.16).parses(m, Err(e), (after.1, after.2, after.3, after.4, after.5, after.6, after.7, after.8, after.9, after.10, after.11, after.12, after.13, after.14, after.15, after.16))
            },
        }
    }

    fn parse(&mut self, input: &'p [u8]) -> (res: Result<((A::Result, B::Result, C::Result, D::Result, F::Result, G::Result, H::Result, I::Result, J::Result, K::Result, L::Result, M::Result, N::Result, O::Result, P::Result, Q::Result, R::Result), &'p [u8]), E>) {
        parse_seq17(&mut self.0, &mut self.1, &mut self.2, &mut self.3, &mut self.4, &mut self.5, &mut self.6, &mut self.7, &mut self.8, &mut self.9, &mut self.10, &mut self.11, &mut self.12, &mut self.13, &mut self.14, &mut self.15, &mut self.16, input)
    }
}

/// Runs `p0` to `p17` one after the other, each on what the one before it left.
fn parse_seq18<'p, E, A: Parser<'p, Error = E>, B: Parser<'p, Error = E>, C: Parser<'p, Error = E>, D: Parser<'p, Error = E>, F: Parser<'p, Error = E>, G: Parser<'p, Error = E>, H: Parser<'p, Error = E>, I: Parser<'p, Error = E>, J: Parser<'p, Error = E>, K: Parser<'p, Error = E>, L: Parser<'p, Error = E>, M: Parser<'p, Error = E>, N: Parser<'p, Error = E>, O: Parser<'p, Error = E>, P: Parser<'p, Error = E>, Q: Parser<'p, Error = E>, R: Parser<'p, Error = E>, S: Parser<'p, Error = E>>(p0: &mut A, p1: &mut B, p2: &mut C, p3: &mut D, p4: &mut F, p5: &mut G, p6: &mut H, p7: &mut I, p8: &mut J, p9: &mut K, p10: &mut L, p11: &mut M, p12: &mut N, p13: &mut O, p14: &mut P, p15: &mut Q, p16: &mut R, p17: &mut S, input: &'p [u8]) -> (res: Result<((A::Result, B::Result, C::Result, D::Result, F::Result, G::Result, H::Result, I::Result, J::Result, K::Result, L::Result, M::Result, N::Result, O::Result, P::Result, Q::Result, R::Result, S::Result), &'p [u8]), E>)
    requires
        old(p0).well_formed(),
        old(p1).well_formed(),
        old(p2).well_formed(),
        old(p3).well_formed(),
        old(p4).well_formed(),
        old(p5).well_formed(),
        old(p6).well_formed(),
        old(p7).well_formed(),
        old(p8).well_formed(),
        old(p9).well_formed(),
        old(p10).well_formed(),
        old(p11).well_formed(),
        old(p12).well_formed(),
        old(p13).well_formed(),
        old(p14).well_formed(),
        old(p15).well_formed(),
        old(p16).well_formed(),
        old(p17).well_formed(),
    ensures
        final(p0).well_formed(),
        final(p1).well_formed(),
        final(p2).well_formed(),
        final(p3).well_formed(),
        final(p4).well_formed(),
        final(p5).well_formed(),
        final(p6).well_formed(),
        final(p7).well_formed(),
        final(p8).well_formed(),
        final(p9).well_formed(),
        final(p10).well_formed(),
        final(p11).well_formed(),
        final(p12).well_formed(),
        final(p13).well_formed(),
        final(p14).well_formed(),
        final(p15).well_formed(),
        final(p16).well_formed(),
        final(p17).well_formed(),
        (*old(p0), *old(p1), *old(p2), *old(p3), *old(p4), *old(p5), *old(p6), *old(p7), *old(p8), *old(p9), *old(p10), *old(p11), *old(p12), *old(p13), *old(p14), *old(p15), *old(p16), *old(p17)).parses(input@, outcome(res), (*final(p0), *final(p1), *final(p2), *final(p3), *final(p4), *final(p5), *final(p6), *final(p7), *final(p8), *final(p9), *final(p10), *final(p11), *final(p12), *final(p13), *final(p14), *final(p15), *final(p16), *final(p17))),
        res matches Ok((_, rest)) ==> is_suffix(rest@, input@),
        (*old(p0), *old(p1), *old(p2), *old(p3), *old(p4), *old(p5), *old(p6), *old(p7), *old(p8), *old(p9), *old(p10), *old(p11), *old(p12), *old(p13), *old(p14), *old(p15), *old(p16), *old(p17)).productive() ==> (*final(p0), *final(p1), *final(p2), *final(p3), *final(p4), *final(p5), *final(p6), *final(p7), *final(p8), *final(p9), *final(p10), *final(p11), *final(p12), *final(p13), *final(p14), *final(p15), *final(p16), *final(p17)).productive(),
        (*old(p0), *old(p1), *old(p2), *old(p3), *old(p4), *old(p5), *old(p6), *old(p7), *old(p8), *old(p9), *old(p10), *old(p11), *old(p12), *old(p13), *old(p14), *old(p15), *old(p16), *old(p17)).productive() && input@.len() > 0 ==> (res matches Ok((_, rest)) ==> rest@.len() < input@.len()),
{
    let ghost start = (*p0, *p1, *p2, *p3, *p4, *p5, *p6, *p7, *p8, *p9, *p10, *p11, *p12, *p13, *p14, *p15, *p16, *p17);
    match run(&mut *p0, input) {
        Ok((v0, m)) => {
            match parse_seq17(&mut *p1, &mut *p2, &mut *p3, &mut *p4, &mut *p5, &mut *p6, &mut *p7, &mut *p8, &mut *p9, &mut *p10, &mut *p11, &mut *p12, &mut *p13, &mut *p14, &mut *p15, &mut *p16, &mut *p17, m) {
                Ok((vt, rest)) => {
                    let res = Ok(((v0, vt.0, vt.1, vt.2, vt.3, vt.4, vt.5, vt.6, vt.7, vt.8, vt.9, vt.10, vt.11, vt.12, vt.13, vt.14, vt.15, vt.16), rest));
                    proof {
                        lemma_suffix_trans(rest@, m@, input@);
                        let o = outcome(res);
                        let v = o->Ok_0.0;
                        let a = (*p0, *p1, *p2, *p3, *p4, *p5, *p6, *p7, *p8, *p9, *p10, *p11, *p12, *p13, *p14, *p15, *p16, *p17);
                        assert((v.1, v.2, v.3, v.4, v.5, v.6, v.7, v.8, v.9, v.10, v.11, v.12, v.13, v.14, v.15, v.16, v.17) == vt);
                        assert(start.0.parses(input@, Ok((v.0, m@)), a.0));
                        assert((start.1, start.2, start.3, start.4, start.5, start.6, start.7, start.8, start.9, start.10, start.11, start.12, start.13, start.14, start.15, start.16, start.17).parses(m@, Ok(((v.1, v.2, v.3, v.4, v.5, v.6, v.7, v.8, v.9, v.10, v.11, v.12, v.13, v.14, v.15, v.16, v.17), o->Ok_0.1)), (a.1, a.2, a.3, a.4, a.5, a.6, a.7, a.8, a.9, a.10, a.11, a.12, a.13, a.14, a.15, a.16, a.17)));
                    }
                    res
                },
                Err(e) => {
                    let res = Err(e);
                    proof {
                        let o = outcome::<(A::Result, B::Result, C::Result, D::Result, F::Result, G::Result, H::Result, I::Result, J::Result, K::Result, L::Result, M::Result, N::Result, O::Result, P::Result, Q::Result, R::Result, S::Result), E>(res);
                        let a = (*p0, *p1, *p2, *p3, *p4, *p5, *p6, *p7, *p8, *p9, *p10, *p11, *p12, *p13, *p14, *p15, *p16, *p17);
                        assert(start.0.parses(input@, Ok((v0, m@)), a.0));
                        assert((start.1, start.2, start.3, start.4, start.5, start.6, start.7, start.8, start.9, start.10, start.11, start.12, start.13, start.14, start.15, start.16, start.17).parses(m@, Err(o->Err_0), (a.1, a.2, a.3, a.4, a.5, a.6, a.7, a.8, a.9, a.10, a.11, a.12, a.13, a.14, a.15, a.16, a.17)));
                    }
                    res
                },
            }
        },
        Err(e) => {
            let res = Err(e);
            proof {
                let o = outcome::<(A::Result, B::Result, C::Result, D::Result, F::Result, G::Result, H::Result, I::Result, J::Result, K::Result, L::Result, M::Result, N::Result, O::Result, P::Result, Q::Result, R::Result, S::Result), E>(res);
                let a = (*p0, *p1, *p2, *p3, *p4, *p5, *p6, *p7, *p8, *p9, *p10, *p11, *p12, *p13, *p14, *p15, *p16, *p17);
                assert(start.0.parses(input@, Err(o->Err_0), a.0));
                assert((a.1, a.2, a.3, a.4, a.5, a.6, a.7, a.8, a.9, a.10, a.11, a.12, a.13, a.14, a.15, a.16, a.17) == (start.1, start.2, start.3, start.4, start.5, start.6, start.7, start.8, start.9, start.10, start.11, start.12, start.13, start.14, start.15, start.16, start.17));
            }
            res
        },
    }
}

impl<'p, E, A: Parser<'p, Error = E>, B: Parser<'p, Error = E>, C: Parser<'p, Error = E>, D: Parser<'p, Error = E>, F: Parser<'p, Error = E>, G: Parser<'p, Error = E>, H: Parser<'p, Error = E>, I: Parser<'p, Error = E>, J: Parser<'p, Error = E>, K: Parser<'p, Error = E>, L: Parser<'p, Error = E>, M: Parser<'p, Error = E>, N: Parser<'p, Error = E>, O: Parser<'p, Error = E>, P: Parser<'p, Error = E>, Q: Parser<'p, Error = E>, R: Parser<'p, Error = E>, S: Parser<'p, Error = E>> Parser<'p> for (A, B, C, D, F, G, H, I, J, K, L, M, N, O, P, Q, R, S) {
    type Result = (A::Result, B::Result, C::Result, D::Result, F::Result, G::Result, H::Result, I::Result, J::Result, K::Result, L::Result, M::Result, N::Result, O::Result, P::Result, Q::Result, R::Result, S::Result);
    type Error = E;

    open spec fn well_formed(&self) -> bool {
        self.0.well_formed() && (self.1, self.2, self.3, self.4, self.5, self.6, self.7, self.8, self.9, self.10, self.11, self.12, self.13, self.14, self.15, self.16, self.17).well_formed()
    }

    open spec fn productive(&self) -> bool {
        self.0.productive() || (self.1, self.2, self.3, self.4, self.5, self.6, self.7, self.8, self.9, self.10, self.11, self.12, self.13, self.14, self.15, self.16, self.17).productive()
    }

    open spec fn parses(&self, input: Seq<u8>, out: Result<((A::Result, B::Result, C::Result, D::Result, F::Result, G::Result, H::Result, I::Result, J::Result, K::Result, L::Result, M::Result, N::Result, O::Result, P::Result, Q::Result, R::Result, S::Result), Seq<u8>), E>, after: Self) -> bool {
        match out {
            Ok((v, rest)) => exists|m: Seq<u8>|
                self.0.parses(input, Ok((v.0, m)), after.0) && (self.1, self.2, self.3, self.4, self.5, self.6, self.7, self.8, self.9, self.10, self.11, self.12, self.13, self.14, self.15, self.16, self.17).parses(
                    m,
                    Ok(((v.1, v.2, v.3, v.4, v.5, v.6, v.7, v.8, v.9, v.10, v.11, v.12, v.13, v.14, v.15, v.16, v.17), rest)),
                    (after.1, after.2, after.3, after.4, after.5, after.6, after.7, after.8, after.9, after.10, after.11, after.12, after.13, after.14, after.15, after.16, after.17),
                ),
            Err(e) => {
                ||| self.0.parses(input, Err(e), after.0) && (after.1, after.2, after.3, after.4, after.5, after.6, after.7, after.8, after.9, after.10, after.11, after.12, after.13, after.14, after.15, after.16, after.17) == (self.1, self.2, self.3, self.4, self.5, self.6, self.7, self.8, self.9, self.10, self.11, self.12, self.13, self.14, self.15, self.16, self.17)
                ||| exists|v0: A::Result, m: Seq<u8>|
                    self.0.parses(input, Ok((v0, m)), after.0) && (self.1, self.2, self.3, self.4, self.5, self.6, self.7, self.8, self.9, self.10, self.11, self.12, self.13, self.14, self.15, self.16, self.17).parses(m, Err(e), (after.1, after.2, after.3, after.4, after.5, after.6, after.7, after.8, after.9, after.10, after.11, after.12, after.13, after.14, after.15, after.16, after.17))
            },
        }
    }

    fn parse(&mut self, input: &'p [u8]) -> (res: Result<((A::Result, B::Result, C::Result, D::Result, F::Result, G::Result, H::Result, I::Result, J::Result, K::Result, L::Result, M::Result, N::Result, O::Result, P::Result, Q::Result, R::Result, S::Result), &'p [u8]), E>) {
        parse_seq18(&mut self.0, &mut self.1, &mut self.2, &mut self.3, &mut self.4, &mut self.5, &mut self.6, &mut self.7, &mut self.8, &mut self.9, &mut self.10, &mut self.11, &mut self.12, &mut self.13, &mut self.14, &mut self.15, &mut self.16, &mut self.17, input)
    }
}

/// Runs `p0` to `p18` one after the other, each on what the one before it left.
fn parse_seq19<'p, E, A: Parser<'p, Error = E>, B: Parser<'p, Error = E>, C: Parser<'p, Error = E>, D: Parser<'p, Error = E>, F: Parser<'p, Error = E>, G: Parser<'p, Error = E>, H: Parser<'p, Error = E>, I: Parser<'p, Error = E>, J: Parser<'p, Error = E>, K: Parser<'p, Error = E>, L: Parser<'p, Error = E>, M: Parser<'p, Error = E>, N: Parser<'p, Error = E>, O: Parser<'p, Error = E>, P: Parser<'p, Error = E>, Q: Parser<'p, Error = E>, R: Parser<'p, Error = E>, S: Parser<'p, Error = E>, T: Parser<'p, Error = E>>(p0: &mut A, p1: &mut B, p2: &mut C, p3: &mut D, p4: &mut F, p5: &mut G, p6: &mut H, p7: &mut I, p8: &mut J, p9: &mut K, p10: &mut L, p11: &mut M, p12: &mut N, p13: &mut O, p14: &mut P, p15: &mut Q, p16: &mut R, p17: &mut S, p18: &mut T, input: &'p [u8]) -> (res: Result<((A::Result, B::Result, C::Result, D::Result, F::Result, G::Result, H::Result, I::Result, J::Result, K::Result, L::Result, M::Result, N::Result, O::Result, P::Result, Q::Result, R::Result, S::Result, T::Result), &'p [u8]), E>)
    requires
        old(p0).well_formed(),
        old(p1).well_formed(),
        old(p2).well_formed(),
        old(p3).well_formed(),
        old(p4).well_formed(),
        old(p5).well_formed(),
        old(p6).well_formed(),
        old(p7).well_formed(),
        old(p8).well_formed(),
        old(p9).well_formed(),
        old(p10).well_formed(),
        old(p11).well_formed(),
        old(p12).well_formed(),
        old(p13).well_formed(),
        old(p14).well_formed(),
        old(p15).well_formed(),
        old(p16).well_formed(),
        old(p17).well_formed(),
        old(p18).well_formed(),
    ensures
        final(p0).well_formed(),
        final(p1).well_formed(),
        final(p2).well_formed(),
        final(p3).well_formed(),
        final(p4).well_formed(),
        final(p5).well_formed(),
        final(p6).well_formed(),
        final(p7).well_formed(),
        final(p8).well_formed(),
        final(p9).well_formed(),
        final(p10).well_formed(),
        final(p11).well_formed(),
        final(p12).well_formed(),
        final(p13).well_formed(),
        final(p14).well_formed(),
        final(p15).well_formed(),
        final(p16).well_formed(),
        final(p17).well_formed(),
        final(p18).well_formed(),
        (*old(p0), *old(p1), *old(p2), *old(p3), *old(p4), *old(p5), *old(p6), *old(p7), *old(p8), *old(p9), *old(p10), *old(p11), *old(p12), *old(p13), *old(p14), *old(p15), *old(p16), *old(p17), *old(p18)).parses(input@, outcome(res), (*final(p0), *final(p1), *final(p2), *final(p3), *final(p4), *final(p5), *final(p6), *final(p7), *final(p8), *final(p9), *final(p10), *final(p11), *final(p12), *final(p13), *final(p14), *final(p15), *final(p16), *final(p17), *final(p18))),
        res matches Ok((_, rest)) ==> is_suffix(rest@, input@),
        (*old(p0), *old(p1), *old(p2), *old(p3), *old(p4), *old(p5), *old(p6), *old(p7), *old(p8), *old(p9), *old(p10), *old(p11), *old(p12), *old(p13), *old(p14), *old(p15), *old(p16), *old(p17), *old(p18)).productive() ==> (*final(p0), *final(p1), *final(p2), *final(p3), *final(p4), *final(p5), *final(p6), *final(p7), *final(p8), *final(p9), *final(p10), *final(p11), *final(p12), *final(p13), *final(p14), *final(p15), *final(p16), *final(p17), *final(p18)).productive(),
        (*old(p0), *old(p1), *old(p2), *old(p3), *old(p4), *old(p5), *old(p6), *old(p7), *old(p8), *old(p9), *old(p10), *old(p11), *old(p12), *old(p13), *old(p14), *old(p15), *old(p16), *old(p17), *old(p18)).productive() && input@.len() > 0 ==> (res matches Ok((_, rest)) ==> rest@.len() < input@.len()),
{
    let ghost start = (*p0, *p1, *p2, *p3, *p4, *p5, *p6, *p7, *p8, *p9, *p10, *p11, *p12, *p13, *p14, *p15, *p16, *p17, *p18);
    match run(&mut *p0, input) {
        Ok((v0, m)) => {
            match parse_seq18(&mut *p1, &mut *p2, &mut *p3, &mut *p4, &mut *p5, &mut *p6, &mut *p7, &mut *p8, &mut *p9, &mut *p10, &mut *p11, &mut *p12, &mut *p13, &mut *p14, &mut *p15, &mut *p16, &mut *p17, &mut *p18, m) {
                Ok((vt, rest)) => {
                    let res = Ok(((v0, vt.0, vt.1, vt.2, vt.3, vt.4, vt.5, vt.6, vt.7, vt.8, vt.9, vt.10, vt.11, vt.12, vt.13, vt.14, vt.15, vt.16, vt.17), rest));
                    proof {
                        lemma_suffix_trans(rest@, m@, input@);
                        let o = outcome(res);
                        let v = o->Ok_0.0;
                        let a = (*p0, *p1, *p2, *p3, *p4, *p5, *p6, *p7, *p8, *p9, *p10, *p11, *p12, *p13, *p14, *p15, *p16, *p17, *p18);
                        assert((v.1, v.2, v.3, v.4, v.5, v.6, v.7, v.8, v.9, v.10, v.11, v.12, v.13, v.14, v.15, v.16, v.17, v.18) == vt);
                        assert(start.0.parses(input@, Ok((v.0, m@)), a.0));
                        assert((start.1, start.2, start.3, start.4, start.5, start.6, start.7, start.8, start.9, start.10, start.11, start.12, start.13, start.14, start.15, start.16, start.17, start.18).parses(m@, Ok(((v.1, v.2, v.3, v.4, v.5, v.6, v.7, v.8, v.9, v.10, v.11, v.12, v.13, v.14, v.15, v.16, v.17, v.18), o->Ok_0.1)), (a.1, a.2, a.3, a.4, a.5, a.6, a.7, a.8, a.9, a.10, a.11, a.12, a.13, a.14, a.15, a.16, a.17, a.18)));
                    }
                    res
                },
                Err(e) => {
                    let res = Err(e);
                    proof {
                        let o = outcome::<(A::Result, B::Result, C::Result, D::Result, F::Result, G::Result, H::Result, I::Result, J::Result, K::Result, L::Result, M::Result, N::Result, O::Result, P::Result, Q::Result, R::Result, S::Result, T::Result), E>(res);
                        let a = (*p0, *p1, *p2, *p3, *p4, *p5, *p6, *p7, *p8, *p9, *p10, *p11, *p12, *p13, *p14, *p15, *p16, *p17, *p18);
                        assert(start.0.parses(input@, Ok((v0, m@)), a.0));
                        assert((start.1, start.2, start.3, start.4, start.5, start.6, start.7, start.8, start.9, start.10, start.11, start.12, start.13, start.14, start.15, start.16, start.17, start.18).parses(m@, Err(o->Err_0), (a.1, a.2, a.3, a.4, a.5, a.6, a.7, a.8, a.9, a.10, a.11, a.12, a.13, a.14, a.15, a.16, a.17, a.18)));
                    }
                    res
                },
            }
        },
        Err(e) => {
            let res = Err(e);
            proof {
                let o = outcome::<(A::Result, B::Result, C::Result, D::Result, F::Result, G::Result, H::Result, I::Result, J::Result, K::Result, L::Result, M::Result, N::Result, O::Result, P::Result, Q::Result, R::Result, S::Result, T::Result), E>(res);
                let a = (*p0, *p1, *p2, *p3, *p4, *p5, *p6, *p7, *p8, *p9, *p10, *p11, *p12, *p13, *p14, *p15, *p16, *p17, *p18);
                assert(start.0.parses(input@, Err(o->Err_0), a.0));
                assert((a.1, a.2, a.3, a.4, a.5, a.6, a.7, a.8, a.9, a.10, a.11, a.12, a.13, a.14, a.15, a.16, a.17, a.18) == (start.1, start.2, start.3, start.4, start.5, start.6, start.7, start.8, start.9, start.10, start.11, start.12, start.13, start.14, start.15, start.16, start.17, start.18));
            }
            res
        },
    }
}

impl<'p, E, A: Parser<'p, Error = E>, B: Parser<'p, Error = E>, C: Parser<'p, Error = E>, D: Parser<'p, Error = E>, F: Parser<'p, Error = E>, G: Parser<'p, Error = E>, H: Parser<'p, Error = E>, I: Parser<'p, Error = E>, J: Parser<'p, Error = E>, K: Parser<'p, Error = E>, L: Parser<'p, Error = E>, M: Parser<'p, Error = E>, N: Parser<'p, Error = E>, O: Parser<'p, Error = E>, P: Parser<'p, Error = E>, Q: Parser<'p, Error = E>, R: Parser<'p, Error = E>, S: Parser<'p, Error = E>, T: Parser<'p, Error = E>> Parser<'p> for (A, B, C, D, F, G, H, I, J, K, L, M, N, O, P, Q, R, S, T) {
    type Result = (A::Result, B::Result, C::Result, D::Result, F::Result, G::Result, H::Result, I::Result, J::Result, K::Result, L::Result, M::Result, N::Result, O::Result, P::Result, Q::Result, R::Result, S::Result, T::Result);
    type Error = E;

    open spec fn well_formed(&self) -> bool {
        self.0.well_formed() && (self.1, self.2, self.3, self.4, self.5, self.6, self.7, self.8, self.9, self.10, self.11, self.12, self.13, self.14, self.15, self.16, self.17, self.18).well_formed()
    }

    open spec fn productive(&self) -> bool {
        self.0.productive() || (self.1, self.2, self.3, self.4, self.5, self.6, self.7, self.8, self.9, self.10, self.11, self.12, self.13, self.14, self.15, self.16, self.17, self.18).productive()
    }

    open spec fn parses(&self, input: Seq<u8>, out: Result<((A::Result, B::Result, C::Result, D::Result, F::Result, G::Result, H::Result, I::Result, J::Result, K::Result, L::Result, M::Result, N::Result, O::Result, P::Result, Q::Result, R::Result, S::Result, T::Result), Seq<u8>), E>, after: Self) -> bool {
        match out {
            Ok((v, rest)) => exists|m: Seq<u8>|
                self.0.parses(input, Ok((v.0, m)), after.0) && (self.1, self.2, self.3, self.4, self.5, self.6, self.7, self.8, self.9, self.10, self.11, self.12, self.13, self.14, self.15, self.16, self.17, self.18).parses(
                    m,
                    Ok(((v.1, v.2, v.3, v.4, v.5, v.6, v.7, v.8, v.9, v.10, v.11, v.12, v.13, v.14, v.15, v.16, v.17, v.18), rest)),
                    (after.1, after.2, after.3, after.4, after.5, after.6, after.7, after.8, after.9, after.10, after.11, after.12, after.13, after.14, after.15, after.16, after.17, after.18),
                ),
            Err(e) => {
                ||| self.0.parses(input, Err(e), after.0) && (after.1, after.2, after.3, after.4, after.5, after.6, after.7, after.8, after.9, after.10, after.11, after.12, after.13, after.14, after.15, after.16, after.17, after.18) == (self.1, self.2, self.3, self.4, self.5, self.6, self.7, self.8, self.9, self.10, self.11, self.12, self.13, self.14, self.15, self.16, self.17, self.18)
                ||| exists|v0: A::Result, m: Seq<u8>|
                    self.0.parses(input, Ok((v0, m)), after.0) && (self.1, self.2, self.3, self.4, self.5, self.6, self.7, self.8, self.9, self.10, self.11, self.12, self.13, self.14, self.15, self.16, self.17, self.18).parses(m, Err(e), (after.1, after.2, after.3, after.4, after.5, after.6, after.7, after.8, after.9, after.10, after.11, after.12, after.13, after.14, after.15, after.16, after.17, after.18))
            },
        }
    }

    fn parse(&mut self, input: &'p [u8]) -> (res: Result<((A::Result, B::Result, C::Result, D::Result, F::Result, G::Result, H::Result, I::Result, J::Result, K::Result, L::Result, M::Result, N::Result, O::Result, P::Result, Q::Result, R::Result, S::Result, T::Result), &'p [u8]), E>) {
        parse_seq19(&mut self.0, &mut self.1, &mut self.2, &mut self.3, &mut self.4, &mut self.5, &mut self.6, &mut self.7, &mut self.8, &mut self.9, &mut self.10, &mut self.11, &mut self.12, &mut self.13, &mut self.14, &mut self.15, &mut self.16, &mut self.17, &mut self.18, input)
    }
}

/// Runs `p0` to `p19` one after the other, each on what the one before it left.
fn parse_seq20<'p, E, A: Parser<'p, Error = E>, B: Parser<'p, Error = E>, C: Parser<'p, Error = E>, D: Parser<'p, Error = E>, F: Parser<'p, Error = E>, G: Parser<'p, Error = E>, H: Parser<'p, Error = E>, I: Parser<'p, Error = E>, J: Parser<'p, Error = E>, K: Parser<'p, Error = E>, L: Parser<'p, Error = E>, M: Parser<'p, Error = E>, N: Parser<'p, Error = E>, O: Parser<'p, Error = E>, P: Parser<'p, Error = E>, Q: Parser<'p, Error = E>, R: Parser<'p, Error = E>, S: Parser<'p, Error = E>, T: Parser<'p, Error = E>, U: Parser<'p, Error = E>>(p0: &mut A, p1: &mut B, p2: &mut C, p3: &mut D, p4: &mut F, p5: &mut G, p6: &mut H, p7: &mut I, p8: &mut J, p9: &mut K, p10: &mut L, p11: &mut M, p12: &mut N, p13: &mut O, p14: &mut P, p15: &mut Q, p16: &mut R, p17: &mut S, p18: &mut T, p19: &mut U, input: &'p [u8]) -> (res: Result<((A::Result, B::Result, C::Result, D::Result, F::Result, G::Result, H::Result, I::Result, J::Result, K::Result, L::Result, M::Result, N::Result, O::Result, P::Result, Q::Result, R::Result, S::Result, T::Result, U::Result), &'p [u8]), E>)
    requires
        old(p0).well_formed(),
        old(p1).well_formed(),
        old(p2).well_formed(),
        old(p3).well_formed(),
        old(p4).well_formed(),
        old(p5).well_formed(),
        old(p6).well_formed(),
        old(p7).well_formed(),
        old(p8).well_formed(),
        old(p9).well_formed(),
        old(p10).well_formed(),
        old(p11).well_formed(),
        old(p12).well_formed(),
        old(p13).well_formed(),
        old(p14).well_formed(),
        old(p15).well_formed(),
        old(p16).well_formed(),
        old(p17).well_formed(),
        old(p18).well_formed(),
        old(p19).well_formed(),
    ensures
        final(p0).well_formed(),
        final(p1).well_formed(),
        final(p2).well_formed(),
        final(p3).well_formed(),
        final(p4).well_formed(),
        final(p5).well_formed(),
        final(p6).well_formed(),
        final(p7).well_formed(),
        final(p8).well_formed(),
        final(p9).well_formed(),
        final(p10).well_formed(),
        final(p11).well_formed(),
        final(p12).well_formed(),
        final(p13).well_formed(),
        final(p14).well_formed(),
        final(p15).well_formed(),
        final(p16).well_formed(),
        final(p17).well_formed(),
        final(p18).well_formed(),
        final(p19).well_formed(),
        (*old(p0), *old(p1), *old(p2), *old(p3), *old(p4), *old(p5), *old(p6), *old(p7), *old(p8), *old(p9), *old(p10), *old(p11), *old(p12), *old(p13), *old(p14), *old(p15), *old(p16), *old(p17), *old(p18), *old(p19)).parses(input@, outcome(res), (*final(p0), *final(p1), *final(p2), *final(p3), *final(p4), *final(p5), *final(p6), *final(p7), *final(p8), *final(p9), *final(p10), *final(p11), *final(p12), *final(p13), *final(p14), *final(p15), *final(p16), *final(p17), *final(p18), *final(p19))),
        res matches Ok((_, rest)) ==> is_suffix(rest@, input@),
        (*old(p0), *old(p1), *old(p2), *old(p3), *old(p4), *old(p5), *old(p6), *old(p7), *old(p8), *old(p9), *old(p10), *old(p11), *old(p12), *old(p13), *old(p14), *old(p15), *old(p16), *old(p17), *old(p18), *old(p19)).productive() ==> (*final(p0), *final(p1), *final(p2), *final(p3), *final(p4), *final(p5), *final(p6), *final(p7), *final(p8), *final(p9), *final(p10), *final(p11), *final(p12), *final(p13), *final(p14), *final(p15), *final(p16), *final(p17), *final(p18), *final(p19)).productive(),
        (*old(p0), *old(p1), *old(p2), *old(p3), *old(p4), *old(p5), *old(p6), *old(p7), *old(p8), *old(p9), *old(p10), *old(p11), *old(p12), *old(p13), *old(p14), *old(p15), *old(p16), *old(p17), *old(p18), *old(p19)).productive() && input@.len() > 0 ==> (res matches Ok((_, rest)) ==> rest@.len() < input@.len()),
{
    let ghost start = (*p0, *p1, *p2, *p3, *p4, *p5, *p6, *p7, *p8, *p9, *p10, *p11, *p12, *p13, *p14, *p15, *p16, *p17, *p18, *p19);
    match run(&mut *p0, input) {
        Ok((v0, m)) => {
            match parse_seq19(&mut *p1, &mut *p2, &mut *p3, &mut *p4, &mut *p5, &mut *p6, &mut *p7, &mut *p8, &mut *p9, &mut *p10, &mut *p11, &mut *p12, &mut *p13, &mut *p14, &mut *p15, &mut *p16, &mut *p17, &mut *p18, &mut *p19, m) {
                Ok((vt, rest)) => {
                    let res = Ok(((v0, vt.0, vt.1, vt.2, vt.3, vt.4, vt.5, vt.6, vt.7, vt.8, vt.9, vt.10, vt.11, vt.12, vt.13, vt.14, vt.15, vt.16, vt.17, vt.18), rest));
                    proof {
                        lemma_suffix_trans(rest@, m@, input@);
                        let o = outcome(res);
                        let v = o->Ok_0.0;
                        let a = (*p0, *p1, *p2, *p3, *p4, *p5, *p6, *p7, *p8, *p9, *p10, *p11, *p12, *p13, *p14, *p15, *p16, *p17, *p18, *p19);
                        assert((v.1, v.2, v.3, v.4, v.5, v.6, v.7, v.8, v.9, v.10, v.11, v.12, v.13, v.14, v.15, v.16, v.17, v.18, v.19) == vt);
                        assert(start.0.parses(input@, Ok((v.0, m@)), a.0));
                        assert((start.1, start.2, start.3, start.4, start.5, start.6, start.7, start.8, start.9, start.10, start.11, start.12, start.13, start.14, start.15, start.16, start.17, start.18, start.19).parses(m@, Ok(((v.1, v.2, v.3, v.4, v.5, v.6, v.7, v.8, v.9, v.10, v.11, v.12, v.13, v.14, v.15, v.16, v.17, v.18, v.19), o->Ok_0.1)), (a.1, a.2, a.3, a.4, a.5, a.6, a.7, a.8, a.9, a.10, a.11, a.12, a.13, a.14, a.15, a.16, a.17, a.18, a.19)));
                    }
                    res
                },
                Err(e) => {
                    let res = Err(e);
                    proof {
                        let o = outcome::<(A::Result, B::Result, C::Result, D::Result, F::Result, G::Result, H::Result, I::Result, J::Result, K::Result, L::Result, M::Result, N::Result, O::Result, P::Result, Q::Result, R::Result, S::Result, T::Result, U::Result), E>(res);
                        let a = (*p0, *p1, *p2, *p3, *p4, *p5, *p6, *p7, *p8, *p9, *p10, *p11, *p12, *p13, *p14, *p15, *p16, *p17, *p18, *p19);
                        assert(start.0.parses(input@, Ok((v0, m@)), a.0));
                        assert((start.1, start.2, start.3, start.4, start.5, start.6, start.7, start.8, start.9, start.10, start.11, start.12, start.13, start.14, start.15, start.16, start.17, start.18, start.19).parses(m@, Err(o->Err_0), (a.1, a.2, a.3, a.4, a.5, a.6, a.7, a.8, a.9, a.10, a.11, a.12, a.13, a.14, a.15, a.16, a.17, a.18, a.19)));
                    }
                    res
                },
            }
        },
        Err(e) => {
            let res = Err(e);
            proof {
                let o = outcome::<(A::Result, B::Result, C::Result, D::Result, F::Result, G::Result, H::Result, I::Result, J::Result, K::Result, L::Result, M::Result, N::Result, O::Result, P::Result, Q::Result, R::Result, S::Result, T::Result, U::Result), E>(res);
                let a = (*p0, *p1, *p2, *p3, *p4, *p5, *p6, *p7, *p8, *p9, *p10, *p11, *p12, *p13, *p14, *p15, *p16, *p17, *p18, *p19);
                assert(start.0.parses(input@, Err(o->Err_0), a.0));
                assert((a.1, a.2, a.3, a.4, a.5, a.6, a.7, a.8, a.9, a.10, a.11, a.12, a.13, a.14, a.15, a.16, a.17, a.18, a.19) == (start.1, start.2, start.3, start.4, start.5, start.6, start.7, start.8, start.9, start.10, start.11, start.12, start.13, start.14, start.15, start.16, start.17, start.18, start.19));
            }
            res
        },
    }
}

impl<'p, E, A: Parser<'p, Error = E>, B: Parser<'p, Error = E>, C: Parser<'p, Error = E>, D: Parser<'p, Error = E>, F: Parser<'p, Error = E>, G: Parser<'p, Error = E>, H: Parser<'p, Error = E>, I: Parser<'p, Error = E>, J: Parser<'p, Error = E>, K: Parser<'p, Error = E>, L: Parser<'p, Error = E>, M: Parser<'p, Error = E>, N: Parser<'p, Error = E>, O: Parser<'p, Error = E>, P: Parser<'p, Error = E>, Q: Parser<'p, Error = E>, R: Parser<'p, Error = E>, S: Parser<'p, Error = E>, T: Parser<'p, Error = E>, U: Parser<'p, Error = E>> Parser<'p> for (A, B, C, D, F, G, H, I, J, K, L, M, N, O, P, Q, R, S, T, U) {
    type Result = (A::Result, B::Result, C::Result, D::Result, F::Result, G::Result, H::Result, I::Result, J::Result, K::Result, L::Result, M::Result, N::Result, O::Result, P::Result, Q::Result, R::Result, S::Result, T::Result, U::Result);
    type Error = E;

    open spec fn well_formed(&self) -> bool {
        self.0.well_formed() && (self.1, self.2, self.3, self.4, self.5, self.6, self.7, self.8, self.9, self.10, self.11, self.12, self.13, self.14, self.15, self.16, self.17, self.18, self.19).well_formed()
    }

    open spec fn productive(&self) -> bool {
        self.0.productive() || (self.1, self.2, self.3, self.4, self.5, self.6, self.7, self.8, self.9, self.10, self.11, self.12, self.13, self.14, self.15, self.16, self.17, self.18, self.19).productive()
    }

    open spec fn parses(&self, input: Seq<u8>, out: Result<((A::Result, B::Result, C::Result, D::Result, F::Result, G::Result, H::Result, I::Result, J::Result, K::Result, L::Result, M::Result, N::Result, O::Result, P::Result, Q::Result, R::Result, S::Result, T::Result, U::Result), Seq<u8>), E>, after: Self) -> bool {
        match out {
            Ok((v, rest)) => exists|m: Seq<u8>|
                self.0.parses(input, Ok((v.0, m)), after.0) && (self.1, self.2, self.3, self.4, self.5, self.6, self.7, self.8, self.9, self.10, self.11, self.12, self.13, self.14, self.15, self.16, self.17, self.18, self.19).parses(
                    m,
                    Ok(((v.1, v.2, v.3, v.4, v.5, v.6, v.7, v.8, v.9, v.10, v.11, v.12, v.13, v.14, v.15, v.16, v.17, v.18, v.19), rest)),
                    (after.1, after.2, after.3, after.4, after.5, after.6, after.7, after.8, after.9, after.10, after.11, after.12, after.13, after.14, after.15, after.16, after.17, after.18, after.19),
                ),
            Err(e) => {
                ||| self.0.parses(input, Err(e), after.0) && (after.1, after.2, after.3, after.4, after.5, after.6, after.7, after.8, after.9, after.10, after.11, after.12, after.13, after.14, after.15, after.16, after.17, after.18, after.19) == (self.1, self.2, self.3, self.4, self.5, self.6, self.7, self.8, self.9, self.10, self.11, self.12, self.13, self.14, self.15, self.16, self.17, self.18, self.19)
                ||| exists|v0: A::Result, m: Seq<u8>|
                    self.0.parses(input, Ok((v0, m)), after.0) && (self.1, self.2, self.3, self.4, self.5, self.6, self.7, self.8, self.9, self.10, self.11, self.12, self.13, self.14, self.15, self.16, self.17, self.18, self.19).parses(m, Err(e), (after.1, after.2, after.3, after.4, after.5, after.6, after.7, after.8, after.9, after.10, after.11, after.12, after.13, after.14, after.15, after.16, after.17, after.18, after.19))
            },
        }
    }

    fn parse(&mut self, input: &'p [u8]) -> (res: Result<((A::Result, B::Result, C::Result, D::Result, F::Result, G::Result, H::Result, I::Result, J::Result, K::Result, L::Result, M::Result, N::Result, O::Result, P::Result, Q::Result, R::Result, S::Result, T::Result, U::Result), &'p [u8]), E>) {
        parse_seq20(&mut self.0, &mut self.1, &mut self.2, &mut self.3, &mut self.4, &mut self.5, &mut self.6, &mut self.7, &mut self.8, &mut self.9, &mut self.10, &mut self.11, &mut self.12, &mut self.13, &mut self.14, &mut self.15, &mut self.16, &mut self.17, &mut self.18, &mut self.19, input)
    }
}

/// Runs `p0` to `p20` one after the other, each on what the one before it left.
fn parse_seq21<'p, E, A: Parser<'p, Error = E>, B: Parser<'p, Error = E>, C: Parser<'p, Error = E>, D: Parser<'p, Error = E>, F: Parser<'p, Error = E>, G: Parser<'p, Error = E>, H: Parser<'p, Error = E>, I: Parser<'p, Error = E>, J: Parser<'p, Error = E>, K: Parser<'p, Error = E>, L: Parser<'p, Error = E>, M: Parser<'p, Error = E>, N: Parser<'p, Error = E>, O: Parser<'p, Error = E>, P: Parser<'p, Error = E>, Q: Parser<'p, Error = E>, R: Parser<'p, Error = E>, S: Parser<'p, Error = E>, T: Parser<'p, Error = E>, U: Parser<'p, Error = E>, V: Parser<'p, Error = E>>(p0: &mut A, p1: &mut B, p2: &mut C, p3: &mut D, p4: &mut F, p5: &mut G, p6: &mut H, p7: &mut I, p8: &mut J, p9: &mut K, p10: &mut L, p11: &mut M, p12: &mut N, p13: &mut O, p14: &mut P, p15: &mut Q, p16: &mut R, p17: &mut S, p18: &mut T, p19: &mut U, p20: &mut V, input: &'p [u8]) -> (res: Result<((A::Result, B::Result, C::Result, D::Result, F::Result, G::Result, H::Result, I::Result, J::Result, K::Result, L::Result, M::Result, N::Result, O::Result, P::Result, Q::Result, R::Result, S::Result, T::Result, U::Result, V::Result), &'p [u8]), E>)
    requires
        old(p0).well_formed(),
        old(p1).well_formed(),
        old(p2).well_formed(),
        old(p3).well_formed(),
        old(p4).well_formed(),
        old(p5).well_formed(),
        old(p6).well_formed(),
        old(p7).well_formed(),
        old(p8).well_formed(),
        old(p9).well_formed(),
        old(p10).well_formed(),
        old(p11).well_formed(),
        old(p12).well_formed(),
        old(p13).well_formed(),
        old(p14).well_formed(),
        old(p15).well_formed(),
        old(p16).well_formed(),
        old(p17).well_formed(),
        old(p18).well_formed(),
        old(p19).well_formed(),
        old(p20).well_formed(),
    ensures
        final(p0).well_formed(),
        final(p1).well_formed(),
        final(p2).well_formed(),
        final(p3).well_formed(),
        final(p4).well_formed(),
        final(p5).well_formed(),
        final(p6).well_formed(),
        final(p7).well_formed(),
        final(p8).well_formed(),
        final(p9).well_formed(),
        final(p10).well_formed(),
        final(p11).well_formed(),
        final(p12).well_formed(),
        final(p13).well_formed(),
        final(p14).well_formed(),
        final(p15).well_formed(),
        final(p16).well_formed(),
        final(p17).well_formed(),
        final(p18).well_formed(),
        final(p19).well_formed(),
        final(p20).well_formed(),
        (*old(p0), *old(p1), *old(p2), *old(p3), *old(p4), *old(p5), *old(p6), *old(p7), *old(p8), *old(p9), *old(p10), *old(p11), *old(p12), *old(p13), *old(p14), *old(p15), *old(p16), *old(p17), *old(p18), *old(p19), *old(p20)).parses(input@, outcome(res), (*final(p0), *final(p1), *final(p2), *final(p3), *final(p4), *final(p5), *final(p6), *final(p7), *final(p8), *final(p9), *final(p10), *final(p11), *final(p12), *final(p13), *final(p14), *final(p15), *final(p16), *final(p17), *final(p18), *final(p19), *final(p20))),
        res matches Ok((_, rest)) ==> is_suffix(rest@, input@),
        (*old(p0), *old(p1), *old(p2), *old(p3), *old(p4), *old(p5), *old(p6), *old(p7), *old(p8), *old(p9), *old(p10), *old(p11), *old(p12), *old(p13), *old(p14), *old(p15), *old(p16), *old(p17), *old(p18), *old(p19), *old(p20)).productive() ==> (*final(p0), *final(p1), *final(p2), *final(p3), *final(p4), *final(p5), *final(p6), *final(p7), *final(p8), *final(p9), *final(p10), *final(p11), *final(p12), *final(p13), *final(p14), *final(p15), *final(p16), *final(p17), *final(p18), *final(p19), *final(p20)).productive(),
        (*old(p0), *old(p1), *old(p2), *old(p3), *old(p4), *old(p5), *old(p6), *old(p7), *old(p8), *old(p9), *old(p10), *old(p11), *old(p12), *old(p13), *old(p14), *old(p15), *old(p16), *old(p17), *old(p18), *old(p19), *old(p20)).productive() && input@.len() > 0 ==> (res matches Ok((_, rest)) ==> rest@.len() < input@.len()),
{
    let ghost start = (*p0, *p1, *p2, *p3, *p4, *p5, *p6, *p7, *p8, *p9, *p10, *p11, *p12, *p13, *p14, *p15, *p16, *p17, *p18, *p19, *p20);
    match run(&mut *p0, input) {
        Ok((v0, m)) => {
            match parse_seq20(&mut *p1, &mut *p2, &mut *p3, &mut *p4, &mut *p5, &mut *p6, &mut *p7, &mut *p8, &mut *p9, &mut *p10, &mut *p11, &mut *p12, &mut *p13, &mut *p14, &mut *p15, &mut *p16, &mut *p17, &mut *p18, &mut *p19, &mut *p20, m) {
                Ok((vt, rest)) => {
                    let res = Ok(((v0, vt.0, vt.1, vt.2, vt.3, vt.4, vt.5, vt.6, vt.7, vt.8, vt.9, vt.10, vt.11, vt.12, vt.13, vt.14, vt.15, vt.16, vt.17, vt.18, vt.19), rest));
                    proof {
                        lemma_suffix_trans(rest@, m@, input@);
                        let o = outcome(res);
                        let v = o->Ok_0.0;
                        let a = (*p0, *p1, *p2, *p3, *p4, *p5, *p6, *p7, *p8, *p9, *p10, *p11, *p12, *p13, *p14, *p15, *p16, *p17, *p18, *p19, *p20);
                        assert((v.1, v.2, v.3, v.4, v.5, v.6, v.7, v.8, v.9, v.10, v.11, v.12, v.13, v.14, v.15, v.16, v.17, v.18, v.19, v.20) == vt);
                        assert(start.0.parses(input@, Ok((v.0, m@)), a.0));
                        assert((start.1, start.2, start.3, start.4, start.5, start.6, start.7, start.8, start.9, start.10, start.11, start.12, start.13, start.14, start.15, start.16, start.17, start.18, start.19, start.20).parses(m@, Ok(((v.1, v.2, v.3, v.4, v.5, v.6, v.7, v.8, v.9, v.10, v.11, v.12, v.13, v.14, v.15, v.16, v.17, v.18, v.19, v.20), o->Ok_0.1)), (a.1, a.2, a.3, a.4, a.5, a.6, a.7, a.8, a.9, a.10, a.11, a.12, a.13, a.14, a.15, a.16, a.17, a.18, a.19, a.20)));
                    }
                    res
                },
                Err(e) => {
                    let res = Err(e);
                    proof {
                        let o = outcome::<(A::Result, B::Result, C::Result, D::Result, F::Result, G::Result, H::Result, I::Result, J::Result, K::Result, L::Result, M::Result, N::Result, O::Result, P::Result, Q::Result, R::Result, S::Result, T::Result, U::Result, V::Result), E>(res);
                        let a = (*p0, *p1, *p2, *p3, *p4, *p5, *p6, *p7, *p8, *p9, *p10, *p11, *p12, *p13, *p14, *p15, *p16, *p17, *p18, *p19, *p20);
                        assert(start.0.parses(input@, Ok((v0, m@)), a.0));
                        assert((start.1, start.2, start.3, start.4, start.5, start.6, start.7, start.8, start.9, start.10, start.11, start.12, start.13, start.14, start.15, start.16, start.17, start.18, start.19, start.20).parses(m@, Err(o->Err_0), (a.1, a.2, a.3, a.4, a.5, a.6, a.7, a.8, a.9, a.10, a.11, a.12, a.13, a.14, a.15, a.16, a.17, a.18, a.19, a.20)));
                    }
                    res
                },
            }
        },
        Err(e) => {
            let res = Err(e);
            proof {
                let o = outcome::<(A::Result, B::Result, C::Result, D::Result, F::Result, G::Result, H::Result, I::Result, J::Result, K::Result, L::Result, M::Result, N::Result, O::Result, P::Result, Q::Result, R::Result, S::Result, T::Result, U::Result, V::Result), E>(res);
                let a = (*p0, *p1, *p2, *p3, *p4, *p5, *p6, *p7, *p8, *p9, *p10, *p11, *p12, *p13, *p14, *p15, *p16, *p17, *p18, *p19, *p20);
                assert(start.0.parses(input@, Err(o->Err_0), a.0));
                assert((a.1, a.2, a.3, a.4, a.5, a.6, a.7, a.8, a.9, a.10, a.11, a.12, a.13, a.14, a.15, a.16, a.17, a.18, a.19, a.20) == (start.1, start.2, start.3, start.4, start.5, start.6, start.7, start.8, start.9, start.10, start.11, start.12, start.13, start.14, start.15, start.16, start.17, start.18, start.19, start.20));
            }
            res
        },
    }
}

impl<'p, E, A: Parser<'p, Error = E>, B: Parser<'p, Error = E>, C: Parser<'p, Error = E>, D: Parser<'p, Error = E>, F: Parser<'p, Error = E>, G: Parser<'p, Error = E>, H: Parser<'p, Error = E>, I: Parser<'p, Error = E>, J: Parser<'p, Error = E>, K: Parser<'p, Error = E>, L: Parser<'p, Error = E>, M: Parser<'p, Error = E>, N: Parser<'p, Error = E>, O: Parser<'p, Error = E>, P: Parser<'p, Error = E>, Q: Parser<'p, Error = E>, R: Parser<'p, Error = E>, S: Parser<'p, Error = E>, T: Parser<'p, Error = E>, U: Parser<'p, Error = E>, V: Parser<'p, Error = E>> Parser<'p> for (A, B, C, D, F, G, H, I, J, K, L, M, N, O, P, Q, R, S, T, U, V) {
    type Result = (A::Result, B::Result, C::Result, D::Result, F::Result, G::Result, H::Result, I::Result, J::Result, K::Result, L::Result, M::Result, N::Result, O::Result, P::Result, Q::Result, R::Result, S::Result, T::Result, U::Result, V::Result);
    type Error = E;

    open spec fn well_formed(&self) -> bool {
        self.0.well_formed() && (self.1, self.2, self.3, self.4, self.5, self.6, self.7, self.8, self.9, self.10, self.11, self.12, self.13, self.14, self.15, self.16, self.17, self.18, self.19, self.20).well_formed()
    }

    open spec fn productive(&self) -> bool {
        self.0.productive() || (self.1, self.2, self.3, self.4, self.5, self.6, self.7, self.8, self.9, self.10, self.11, self.12, self.13, self.14, self.15, self.16, self.17, self.18, self.19, self.20).productive()
    }

    open spec fn parses(&self, input: Seq<u8>, out: Result<((A::Result, B::Result, C::Result, D::Result, F::Result, G::Result, H::Result, I::Result, J::Result, K::Result, L::Result, M::Result, N::Result, O::Result, P::Result, Q::Result, R::Result, S::Result, T::Result, U::Result, V::Result), Seq<u8>), E>, after: Self) -> bool {
        match out {
            Ok((v, rest)) => exists|m: Seq<u8>|
                self.0.parses(input, Ok((v.0, m)), after.0) && (self.1, self.2, self.3, self.4, self.5, self.6, self.7, self.8, self.9, self.10, self.11, self.12, self.13, self.14, self.15, self.16, self.17, self.18, self.19, self.20).parses(
                    m,
                    Ok(((v.1, v.2, v.3, v.4, v.5, v.6, v.7, v.8, v.9, v.10, v.11, v.12, v.13, v.14, v.15, v.16, v.17, v.18, v.19, v.20), rest)),
                    (after.1, after.2, after.3, after.4, after.5, after.6, after.7, after.8, after.9, after.10, after.11, after.12, after.13, after.14, after.15, after.16, after.17, after.18, after.19, after.20),
                ),
            Err(e) => {
                ||| self.0.parses(input, Err(e), after.0) && (after.1, after.2, after.3, after.4, after.5, after.6, after.7, after.8, after.9, after.10, after.11, after.12, after.13, after.14, after.15, after.16, after.17, after.18, after.19, after.20) == (self.1, self.2, self.3, self.4, self.5, self.6, self.7, self.8, self.9, self.10, self.11, self.12, self.13, self.14, self.15, self.16, self.17, self.18, self.19, self.20)
                ||| exists|v0: A::Result, m: Seq<u8>|
                    self.0.parses(input, Ok((v0, m)), after.0) && (self.1, self.2, self.3, self.4, self.5, self.6, self.7, self.8, self.9, self.10, self.11, self.12, self.13, self.14, self.15, self.16, self.17, self.18, self.19, self.20).parses(m, Err(e), (after.1, after.2, after.3, after.4, after.5, after.6, after.7, after.8, after.9, after.10, after.11, after.12, after.13, after.14, after.15, after.16, after.17, after.18, after.19, after.20))
            },
        }
    }

    fn parse(&mut self, input: &'p [u8]) -> (res: Result<((A::Result, B::Result, C::Result, D::Result, F::Result, G::Result, H::Result, I::Result, J::Result, K::Result, L::Result, M::Result, N::Result, O::Result, P::Result, Q::Result, R::Result, S::Result, T::Result, U::Result, V::Result), &'p [u8]), E>) {
        parse_seq21(&mut self.0, &mut self.1, &mut self.2, &mut self.3, &mut self.4, &mut self.5, &mut self.6, &mut self.7, &mut self.8, &mut self.9, &mut self.10, &mut self.11, &mut self.12, &mut self.13, &mut self.14, &mut self.15, &mut self.16, &mut self.17, &mut self.18, &mut self.19, &mut self.20, input)
    }
}

/// Runs `p0` to `p21` one after the other, each on what the one before it left.
fn parse_seq22<'p, E, A: Parser<'p, Error = E>, B: Parser<'p, Error = E>, C: Parser<'p, Error = E>, D: Parser<'p, Error = E>, F: Parser<'p, Error = E>, G: Parser<'p, Error = E>, H: Parser<'p, Error = E>, I: Parser<'p, Error = E>, J: Parser<'p, Error = E>, K: Parser<'p, Error = E>, L: Parser<'p, Error = E>, M: Parser<'p, Error = E>, N: Parser<'p, Error = E>, O: Parser<'p, Error = E>, P: Parser<'p, Error = E>, Q: Parser<'p, Error = E>, R: Parser<'p, Error = E>, S: Parser<'p, Error = E>, T: Parser<'p, Error = E>, U: Parser<'p, Error = E>, V: Parser<'p, Error = E>, W: Parser<'p, Error = E>>(p0: &mut A, p1: &mut B, p2: &mut C, p3: &mut D, p4: &mut F, p5: &mut G, p6: &mut H, p7: &mut I, p8: &mut J, p9: &mut K, p10: &mut L, p11: &mut M, p12: &mut N, p13: &mut O, p14: &mut P, p15: &mut Q, p16: &mut R, p17: &mut S, p18: &mut T, p19: &mut U, p20: &mut V, p21: &mut W, input: &'p [u8]) -> (res: Result<((A::Result, B::Result, C::Result, D::Result, F::Result, G::Result, H::Result, I::Result, J::Result, K::Result, L::Result, M::Result, N::Result, O::Result, P::Result, Q::Result, R::Result, S::Result, T::Result, U::Result, V::Result, W::Result), &'p [u8]), E>)
    requires
        old(p0).well_formed(),
        old(p1).well_formed(),
        old(p2).well_formed(),
        old(p3).well_formed(),
        old(p4).well_formed(),
        old(p5).well_formed(),
        old(p6).well_formed(),
        old(p7).well_formed(),
        old(p8).well_formed(),
        old(p9).well_formed(),
        old(p10).well_formed(),
        old(p11).well_formed(),
        old(p12).well_formed(),
        old(p13).well_formed(),
        old(p14).well_formed(),
        old(p15).well_formed(),
        old(p16).well_formed(),
        old(p17).well_formed(),
        old(p18).well_formed(),
        old(p19).well_formed(),
        old(p20).well_formed(),
        old(p21).well_formed(),
    ensures
        final(p0).well_formed(),
        final(p1).well_formed(),
        final(p2).well_formed(),
        final(p3).well_formed(),
        final(p4).well_formed(),
        final(p5).well_formed(),
        final(p6).well_formed(),
        final(p7).well_formed(),
        final(p8).well_formed(),
        final(p9).well_formed(),
        final(p10).well_formed(),
        final(p11).well_formed(),
        final(p12).well_formed(),
        final(p13).well_formed(),
        final(p14).well_formed(),
        final(p15).well_formed(),
        final(p16).well_formed(),
        final(p17).well_formed(),
        final(p18).well_formed(),
        final(p19).well_formed(),
        final(p20).well_formed(),
        final(p21).well_formed(),
        (*old(p0), *old(p1), *old(p2), *old(p3), *old(p4), *old(p5), *old(p6), *old(p7), *old(p8), *old(p9), *old(p10), *old(p11), *old(p12), *old(p13), *old(p14), *old(p15), *old(p16), *old(p17), *old(p18), *old(p19), *old(p20), *old(p21)).parses(input@, outcome(res), (*final(p0), *final(p1), *final(p2), *final(p3), *final(p4), *final(p5), *final(p6), *final(p7), *final(p8), *final(p9), *final(p10), *final(p11), *final(p12), *final(p13), *final(p14), *final(p15), *final(p16), *final(p17), *final(p18), *final(p19), *final(p20), *final(p21))),
        res matches Ok((_, rest)) ==> is_suffix(rest@, input@),
        (*old(p0), *old(p1), *old(p2), *old(p3), *old(p4), *old(p5), *old(p6), *old(p7), *old(p8), *old(p9), *old(p10), *old(p11), *old(p12), *old(p13), *old(p14), *old(p15), *old(p16), *old(p17), *old(p18), *old(p19), *old(p20), *old(p21)).productive() ==> (*final(p0), *final(p1), *final(p2), *final(p3), *final(p4), *final(p5), *final(p6), *final(p7), *final(p8), *final(p9), *final(p10), *final(p11), *final(p12), *final(p13), *final(p14), *final(p15), *final(p16), *final(p17), *final(p18), *final(p19), *final(p20), *final(p21)).productive(),
        (*old(p0), *old(p1), *old(p2), *old(p3), *old(p4), *old(p5), *old(p6), *old(p7), *old(p8), *old(p9), *old(p10), *old(p11), *old(p12), *old(p13), *old(p14), *old(p15), *old(p16), *old(p17), *old(p18), *old(p19), *old(p20), *old(p21)).productive() && input@.len() > 0 ==> (res matches Ok((_, rest)) ==> rest@.len() < input@.len()),
{
    let ghost start = (*p0, *p1, *p2, *p3, *p4, *p5, *p6, *p7, *p8, *p9, *p10, *p11, *p12, *p13, *p14, *p15, *p16, *p17, *p18, *p19, *p20, *p21);
    match run(&mut *p0, input) {
        Ok((v0, m)) => {
            match parse_seq21(&mut *p1, &mut *p2, &mut *p3, &mut *p4, &mut *p5, &mut *p6, &mut *p7, &mut *p8, &mut *p9, &mut *p10, &mut *p11, &mut *p12, &mut *p13, &mut *p14, &mut *p15, &mut *p16, &mut *p17, &mut *p18, &mut *p19, &mut *p20, &mut *p21, m) {
                Ok((vt, rest)) => {
                    let res = Ok(((v0, vt.0, vt.1, vt.2, vt.3, vt.4, vt.5, vt.6, vt.7, vt.8, vt.9, vt.10, vt.11, vt.12, vt.13, vt.14, vt.15, vt.16, vt.17, vt.18, vt.19, vt.20), rest));
                    proof {
                        lemma_suffix_trans(rest@, m@, input@);
                        let o = outcome(res);
                        let v = o->Ok_0.0;
                        let a = (*p0, *p1, *p2, *p3, *p4, *p5, *p6, *p7, *p8, *p9, *p10, *p11, *p12, *p13, *p14, *p15, *p16, *p17, *p18, *p19, *p20, *p21);
                        assert((v.1, v.2, v.3, v.4, v.5, v.6, v.7, v.8, v.9, v.10, v.11, v.12, v.13, v.14, v.15, v.16, v.17, v.18, v.19, v.20, v.21) == vt);
                        assert(start.0.parses(input@, Ok((v.0, m@)), a.0));
                        assert((start.1, start.2, start.3, start.4, start.5, start.6, start.7, start.8, start.9, start.10, start.11, start.12, start.13, start.14, start.15, start.16, start.17, start.18, start.19, start.20, start.21).parses(m@, Ok(((v.1, v.2, v.3, v.4, v.5, v.6, v.7, v.8, v.9, v.10, v.11, v.12, v.13, v.14, v.15, v.16, v.17, v.18, v.19, v.20, v.21), o->Ok_0.1)), (a.1, a.2, a.3, a.4, a.5, a.6, a.7, a.8, a.9, a.10, a.11, a.12, a.13, a.14, a.15, a.16, a.17, a.18, a.19, a.20, a.21)));
                    }
                    res
                },
                Err(e) => {
                    let res = Err(e);
                    proof {
                        let o = outcome::<(A::Result, B::Result, C::Result, D::Result, F::Result, G::Result, H::Result, I::Result, J::Result, K::Result, L::Result, M::Result, N::Result, O::Result, P::Result, Q::Result, R::Result, S::Result, T::Result, U::Result, V::Result, W::Result), E>(res);
                        let a = (*p0, *p1, *p2, *p3, *p4, *p5, *p6, *p7, *p8, *p9, *p10, *p11, *p12, *p13, *p14, *p15, *p16, *p17, *p18, *p19, *p20, *p21);
                        assert(start.0.parses(input@, Ok((v0, m@)), a.0));
                        assert((start.1, start.2, start.3, start.4, start.5, start.6, start.7, start.8, start.9, start.10, start.11, start.12, start.13, start.14, start.15, start.16, start.17, start.18, start.19, start.20, start.21).parses(m@, Err(o->Err_0), (a.1, a.2, a.3, a.4, a.5, a.6, a.7, a.8, a.9, a.10, a.11, a.12, a.13, a.14, a.15, a.16, a.17, a.18, a.19, a.20, a.21)));
                    }
                    res
                },
            }
        },
        Err(e) => {
            let res = Err(e);
            proof {
                let o = outcome::<(A::Result, B::Result, C::Result, D::Result, F::Result, G::Result, H::Result, I::Result, J::Result, K::Result, L::Result, M::Result, N::Result, O::Result, P::Result, Q::Result, R::Result, S::Result, T::Result, U::Result, V::Result, W::Result), E>(res);
                let a = (*p0, *p1, *p2, *p3, *p4, *p5, *p6, *p7, *p8, *p9, *p10, *p11, *p12, *p13, *p14, *p15, *p16, *p17, *p18, *p19, *p20, *p21);
                assert(start.0.parses(input@, Err(o->Err_0), a.0));
                assert((a.1, a.2, a.3, a.4, a.5, a.6, a.7, a.8, a.9, a.10, a.11, a.12, a.13, a.14, a.15, a.16, a.17, a.18, a.19, a.20, a.21) == (start.1, start.2, start.3, start.4, start.5, start.6, start.7, start.8, start.9, start.10, start.11, start.12, start.13, start.14, start.15, start.16, start.17, start.18, start.19, start.20, start.21));
            }
            res
        },
    }
}

impl<'p, E, A: Parser<'p, Error = E>, B: Parser<'p, Error = E>, C: Parser<'p, Error = E>, D: Parser<'p, Error = E>, F: Parser<'p, Error = E>, G: Parser<'p, Error = E>, H: Parser<'p, Error = E>, I: Parser<'p, Error = E>, J: Parser<'p, Error = E>, K: Parser<'p, Error = E>, L: Parser<'p, Error = E>, M: Parser<'p, Error = E>, N: Parser<'p, Error = E>, O: Parser<'p, Error = E>, P: Parser<'p, Error = E>, Q: Parser<'p, Error = E>, R: Parser<'p, Error = E>, S: Parser<'p, Error = E>, T: Parser<'p, Error = E>, U: Parser<'p, Error = E>, V: Parser<'p, Error = E>, W: Parser<'p, Error = E>> Parser<'p> for (A, B, C, D, F, G, H, I, J, K, L, M, N, O, P, Q, R, S, T, U, V, W) {
    type Result = (A::Result, B::Result, C::Result, D::Result, F::Result, G::Result, H::Result, I::Result, J::Result, K::Result, L::Result, M::Result, N::Result, O::Result, P::Result, Q::Result, R::Result, S::Result, T::Result, U::Result, V::Result, W::Result);
    type Error = E;

    open spec fn well_formed(&self) -> bool {
        self.0.well_formed() && (self.1, self.2, self.3, self.4, self.5, self.6, self.7, self.8, self.9, self.10, self.11, self.12, self.13, self.14, self.15, self.16, self.17, self.18, self.19, self.20, self.21).well_formed()
    }

    open spec fn productive(&self) -> bool {
        self.0.productive() || (self.1, self.2, self.3, self.4, self.5, self.6, self.7, self.8, self.9, self.10, self.11, self.12, self.13, self.14, self.15, self.16, self.17, self.18, self.19, self.20, self.21).productive()
    }

    open spec fn parses(&self, input: Seq<u8>, out: Result<((A::Result, B::Result, C::Result, D::Result, F::Result, G::Result, H::Result, I::Result, J::Result, K::Result, L::Result, M::Result, N::Result, O::Result, P::Result, Q::Result, R::Result, S::Result, T::Result, U::Result, V::Result, W::Result), Seq<u8>), E>, after: Self) -> bool {
        match out {
            Ok((v, rest)) => exists|m: Seq<u8>|
                self.0.parses(input, Ok((v.0, m)), after.0) && (self.1, self.2, self.3, self.4, self.5, self.6, self.7, self.8, self.9, self.10, self.11, self.12, self.13, self.14, self.15, self.16, self.17, self.18, self.19, self.20, self.21).parses(
                    m,
                    Ok(((v.1, v.2, v.3, v.4, v.5, v.6, v.7, v.8, v.9, v.10, v.11, v.12, v.13, v.14, v.15, v.16, v.17, v.18, v.19, v.20, v.21), rest)),
                    (after.1, after.2, after.3, after.4, after.5, after.6, after.7, after.8, after.9, after.10, after.11, after.12, after.13, after.14, after.15, after.16, after.17, after.18, after.19, after.20, after.21),
                ),
            Err(e) => {
                ||| self.0.parses(input, Err(e), after.0) && (after.1, after.2, after.3, after.4, after.5, after.6, after.7, after.8, after.9, after.10, after.11, after.12, after.13, after.14, after.15, after.16, after.17, after.18, after.19, after.20, after.21) == (self.1, self.2, self.3, self.4, self.5, self.6, self.7, self.8, self.9, self.10, self.11, self.12, self.13, self.14, self.15, self.16, self.17, self.18, self.19, self.20, self.21)
                ||| exists|v0: A::Result, m: Seq<u8>|
                    self.0.parses(input, Ok((v0, m)), after.0) && (self.1, self.2, self.3, self.4, self.5, self.6, self.7, self.8, self.9, self.10, self.11, self.12, self.13, self.14, self.15, self.16, self.17, self.18, self.19, self.20, self.21).parses(m, Err(e), (after.1, after.2, after.3, after.4, after.5, after.6, after.7, after.8, after.9, after.10, after.11, after.12, after.13, after.14, after.15, after.16, after.17, after.18, after.19, after.20, after.21))
            },
        }
    }

    fn parse(&mut self, input: &'p [u8]) -> (res: Result<((A::Result, B::Result, C::Result, D::Result, F::Result, G::Result, H::Result, I::Result, J::Result, K::Result, L::Result, M::Result, N::Result, O::Result, P::Result, Q::Result, R::Result, S::Result, T::Result, U::Result, V::Result, W::Result), &'p [u8]), E>) {
        parse_seq22(&mut self.0, &mut self.1, &mut self.2, &mut self.3, &mut self.4, &mut self.5, &mut self.6, &mut self.7, &mut self.8, &mut self.9, &mut self.10, &mut self.11, &mut self.12, &mut self.13, &mut self.14, &mut self.15, &mut self.16, &mut self.17, &mut self.18, &mut self.19, &mut self.20, &mut self.21, input)
    }
}

/// Runs `p0` to `p22` one after the other, each on what the one before it left.
fn parse_seq23<'p, E, A: Parser<'p, Error = E>, B: Parser<'p, Error = E>, C: Parser<'p, Error = E>, D: Parser<'p, Error = E>, F: Parser<'p, Error = E>, G: Parser<'p, Error = E>, H: Parser<'p, Error = E>, I: Parser<'p, Error = E>, J: Parser<'p, Error = E>, K: Parser<'p, Error = E>, L: Parser<'p, Error = E>, M: Parser<'p, Error = E>, N: Parser<'p, Error = E>, O: Parser<'p, Error = E>, P: Parser<'p, Error = E>, Q: Parser<'p, Error = E>, R: Parser<'p, Error = E>, S: Parser<'p, Error = E>, T: Parser<'p, Error = E>, U: Parser<'p, Error = E>, V: Parser<'p, Error = E>, W: Parser<'p, Error = E>, X: Parser<'p, Error = E>>(p0: &mut A, p1: &mut B, p2: &mut C, p3: &mut D, p4: &mut F, p5: &mut G, p6: &mut H, p7: &mut I, p8: &mut J, p9: &mut K, p10: &mut L, p11: &mut M, p12: &mut N, p13: &mut O, p14: &mut P, p15: &mut Q, p16: &mut R, p17: &mut S, p18: &mut T, p19: &mut U, p20: &mut V, p21: &mut W, p22: &mut X, input: &'p [u8]) -> (res: Result<((A::Result, B::Result, C::Result, D::Result, F::Result, G::Result, H::Result, I::Result, J::Result, K::Result, L::Result, M::Result, N::Result, O::Result, P::Result, Q::Result, R::Result, S::Result, T::Result, U::Result, V::Result, W::Result, X::Result), &'p [u8]), E>)
    requires
        old(p0).well_formed(),
        old(p1).well_formed(),
        old(p2).well_formed(),
        old(p3).well_formed(),
        old(p4).well_formed(),
        old(p5).well_formed(),
        old(p6).well_formed(),
        old(p7).well_formed(),
        old(p8).well_formed(),
        old(p9).well_formed(),
        old(p10).well_formed(),
        old(p11).well_formed(),
        old(p12).well_formed(),
        old(p13).well_formed(),
        old(p14).well_formed(),
        old(p15).well_formed(),
        old(p16).well_formed(),
        old(p17).well_formed(),
        old(p18).well_formed(),
        old(p19).well_formed(),
        old(p20).well_formed(),
        old(p21).well_formed(),
        old(p22).well_formed(),
    ensures
        final(p0).well_formed(),
        final(p1).well_formed(),
        final(p2).well_formed(),
        final(p3).well_formed(),
        final(p4).well_formed(),
        final(p5).well_formed(),
        final(p6).well_formed(),
        final(p7).well_formed(),
        final(p8).well_formed(),
        final(p9).well_formed(),
        final(p10).well_formed(),
        final(p11).well_formed(),
        final(p12).well_formed(),
        final(p13).well_formed(),
        final(p14).well_formed(),
        final(p15).well_formed(),
        final(p16).well_formed(),
        final(p17).well_formed(),
        final(p18).well_formed(),
        final(p19).well_formed(),
        final(p20).well_formed(),
        final(p21).well_formed(),
        final(p22).well_formed(),
        (*old(p0), *old(p1), *old(p2), *old(p3), *old(p4), *old(p5), *old(p6), *old(p7), *old(p8), *old(p9), *old(p10), *old(p11), *old(p12), *old(p13), *old(p14), *old(p15), *old(p16), *old(p17), *old(p18), *old(p19), *old(p20), *old(p21), *old(p22)).parses(input@, outcome(res), (*final(p0), *final(p1), *final(p2), *final(p3), *final(p4), *final(p5), *final(p6), *final(p7), *final(p8), *final(p9), *final(p10), *final(p11), *final(p12), *final(p13), *final(p14), *final(p15), *final(p16), *final(p17), *final(p18), *final(p19), *final(p20), *final(p21), *final(p22))),
        res matches Ok((_, rest)) ==> is_suffix(rest@, input@),
        (*old(p0), *old(p1), *old(p2), *old(p3), *old(p4), *old(p5), *old(p6), *old(p7), *old(p8), *old(p9), *old(p10), *old(p11), *old(p12), *old(p13), *old(p14), *old(p15), *old(p16), *old(p17), *old(p18), *old(p19), *old(p20), *old(p21), *old(p22)).productive() ==> (*final(p0), *final(p1), *final(p2), *final(p3), *final(p4), *final(p5), *final(p6), *final(p7), *final(p8), *final(p9), *final(p10), *final(p11), *final(p12), *final(p13), *final(p14), *final(p15), *final(p16), *final(p17), *final(p18), *final(p19), *final(p20), *final(p21), *final(p22)).productive(),
        (*old(p0), *old(p1), *old(p2), *old(p3), *old(p4), *old(p5), *old(p6), *old(p7), *old(p8), *old(p9), *old(p10), *old(p11), *old(p12), *old(p13), *old(p14), *old(p15), *old(p16), *old(p17), *old(p18), *old(p19), *old(p20), *old(p21), *old(p22)).productive() && input@.len() > 0 ==> (res matches Ok((_, rest)) ==> rest@.len() < input@.len()),
{
    let ghost start = (*p0, *p1, *p2, *p3, *p4, *p5, *p6, *p7, *p8, *p9, *p10, *p11, *p12, *p13, *p14, *p15, *p16, *p17, *p18, *p19, *p20, *p21, *p22);
    match run(&mut *p0, input) {
        Ok((v0, m)) => {
            match parse_seq22(&mut *p1, &mut *p2, &mut *p3, &mut *p4, &mut *p5, &mut *p6, &mut *p7, &mut *p8, &mut *p9, &mut *p10, &mut *p11, &mut *p12, &mut *p13, &mut *p14, &mut *p15, &mut *p16, &mut *p17, &mut *p18, &mut *p19, &mut *p20, &mut *p21, &mut *p22, m) {
                Ok((vt, rest)) => {
                    let res = Ok(((v0, vt.0, vt.1, vt.2, vt.3, vt.4, vt.5, vt.6, vt.7, vt.8, vt.9, vt.10, vt.11, vt.12, vt.13, vt.14, vt.15, vt.16, vt.17, vt.18, vt.19, vt.20, vt.21), rest));
                    proof {
                        lemma_suffix_trans(rest@, m@, input@);
                        let o = outcome(res);
                        let v = o->Ok_0.0;
                        let a = (*p0, *p1, *p2, *p3, *p4, *p5, *p6, *p7, *p8, *p9, *p10, *p11, *p12, *p13, *p14, *p15, *p16, *p17, *p18, *p19, *p20, *p21, *p22);
                        assert((v.1, v.2, v.3, v.4, v.5, v.6, v.7, v.8, v.9, v.10, v.11, v.12, v.13, v.14, v.15, v.16, v.17, v.18, v.19, v.20, v.21, v.22) == vt);
                        assert(start.0.parses(input@, Ok((v.0, m@)), a.0));
                        assert((start.1, start.2, start.3, start.4, start.5, start.6, start.7, start.8, start.9, start.10, start.11, start.12, start.13, start.14, start.15, start.16, start.17, start.18, start.19, start.20, start.21, start.22).parses(m@, Ok(((v.1, v.2, v.3, v.4, v.5, v.6, v.7, v.8, v.9, v.10, v.11, v.12, v.13, v.14, v.15, v.16, v.17, v.18, v.19, v.20, v.21, v.22), o->Ok_0.1)), (a.1, a.2, a.3, a.4, a.5, a.6, a.7, a.8, a.9, a.10, a.11, a.12, a.13, a.14, a.15, a.16, a.17, a.18, a.19, a.20, a.21, a.22)));
                    }
                    res
                },
                Err(e) => {
                    let res = Err(e);
                    proof {
                        let o = outcome::<(A::Result, B::Result, C::Result, D::Result, F::Result, G::Result, H::Result, I::Result, J::Result, K::Result, L::Result, M::Result, N::Result, O::Result, P::Result, Q::Result, R::Result, S::Result, T::Result, U::Result, V::Result, W::Result, X::Result), E>(res);
                        let a = (*p0, *p1, *p2, *p3, *p4, *p5, *p6, *p7, *p8, *p9, *p10, *p11, *p12, *p13, *p14, *p15, *p16, *p17, *p18, *p19, *p20, *p21, *p22);
                        assert(start.0.parses(input@, Ok((v0, m@)), a.0));
                        assert((start.1, start.2, start.3, start.4, start.5, start.6, start.7, start.8, start.9, start.10, start.11, start.12, start.13, start.14, start.15, start.16, start.17, start.18, start.19, start.20, start.21, start.22).parses(m@, Err(o->Err_0), (a.1, a.2, a.3, a.4, a.5, a.6, a.7, a.8, a.9, a.10, a.11, a.12, a.13, a.14, a.15, a.16, a.17, a.18, a.19, a.20, a.21, a.22)));
                    }
                    res
                },
            }
        },
        Err(e) => {
            let res = Err(e);
            proof {
                let o = outcome::<(A::Result, B::Result, C::Result, D::Result, F::Result, G::Result, H::Result, I::Result, J::Result, K::Result, L::Result, M::Result, N::Result, O::Result, P::Result, Q::Result, R::Result, S::Result, T::Result, U::Result, V::Result, W::Result, X::Result), E>(res);
                let a = (*p0, *p1, *p2, *p3, *p4, *p5, *p6, *p7, *p8, *p9, *p10, *p11, *p12, *p13, *p14, *p15, *p16, *p17, *p18, *p19, *p20, *p21, *p22);
                assert(start.0.parses(input@, Err(o->Err_0), a.0));
                assert((a.1, a.2, a.3, a.4, a.5, a.6, a.7, a.8, a.9, a.10, a.11, a.12, a.13, a.14, a.15, a.16, a.17, a.18, a.19, a.20, a.21, a.22) == (start.1, start.2, start.3, start.4, start.5, start.6, start.7, start.8, start.9, start.10, start.11, start.12, start.13, start.14, start.15, start.16, start.17, start.18, start.19, start.20, start.21, start.22));
            }
            res
        },
    }
}

impl<'p, E, A: Parser<'p, Error = E>, B: Parser<'p, Error = E>, C: Parser<'p, Error = E>, D: Parser<'p, Error = E>, F: Parser<'p, Error = E>, G: Parser<'p, Error = E>, H: Parser<'p, Error = E>, I: Parser<'p, Error = E>, J: Parser<'p, Error = E>, K: Parser<'p, Error = E>, L: Parser<'p, Error = E>, M: Parser<'p, Error = E>, N: Parser<'p, Error = E>, O: Parser<'p, Error = E>, P: Parser<'p, Error = E>, Q: Parser<'p, Error = E>, R: Parser<'p, Error = E>, S: Parser<'p, Error = E>, T: Parser<'p, Error = E>, U: Parser<'p, Error = E>, V: Parser<'p, Error = E>, W: Parser<'p, Error = E>, X: Parser<'p, Error = E>> Parser<'p> for (A, B, C, D, F, G, H, I, J, K, L, M, N, O, P, Q, R, S, T, U, V, W, X) {
    type Result = (A::Result, B::Result, C::Result, D::Result, F::Result, G::Result, H::Result, I::Result, J::Result, K::Result, L::Result, M::Result, N::Result, O::Result, P::Result, Q::Result, R::Result, S::Result, T::Result, U::Result, V::Result, W::Result, X::Result);
    type Error = E;

    open spec fn well_formed(&self) -> bool {
        self.0.well_formed() && (self.1, self.2, self.3, self.4, self.5, self.6, self.7, self.8, self.9, self.10, self.11, self.12, self.13, self.14, self.15, self.16, self.17, self.18, self.19, self.20, self.21, self.22).well_formed()
    }

    open spec fn productive(&self) -> bool {
        self.0.productive() || (self.1, self.2, self.3, self.4, self.5, self.6, self.7, self.8, self.9, self.10, self.11, self.12, self.13, self.14, self.15, self.16, self.17, self.18, self.19, self.20, self.21, self.22).productive()
    }

    open spec fn parses(&self, input: Seq<u8>, out: Result<((A::Result, B::Result, C::Result, D::Result, F::Result, G::Result, H::Result, I::Result, J::Result, K::Result, L::Result, M::Result, N::Result, O::Result, P::Result, Q::Result, R::Result, S::Result, T::Result, U::Result, V::Result, W::Result, X::Result), Seq<u8>), E>, after: Self) -> bool {
        match out {
            Ok((v, rest)) => exists|m: Seq<u8>|
                self.0.parses(input, Ok((v.0, m)), after.0) && (self.1, self.2, self.3, self.4, self.5, self.6, self.7, self.8, self.9, self.10, self.11, self.12, self.13, self.14, self.15, self.16, self.17, self.18, self.19, self.20, self.21, self.22).parses(
                    m,
                    Ok(((v.1, v.2, v.3, v.4, v.5, v.6, v.7, v.8, v.9, v.10, v.11, v.12, v.13, v.14, v.15, v.16, v.17, v.18, v.19, v.20, v.21, v.22), rest)),
                    (after.1, after.2, after.3, after.4, after.5, after.6, after.7, after.8, after.9, after.10, after.11, after.12, after.13, after.14, after.15, after.16, after.17, after.18, after.19, after.20, after.21, after.22),
                ),
            Err(e) => {
                ||| self.0.parses(input, Err(e), after.0) && (after.1, after.2, after.3, after.4, after.5, after.6, after.7, after.8, after.9, after.10, after.11, after.12, after.13, after.14, after.15, after.16, after.17, after.18, after.19, after.20, after.21, after.22) == (self.1, self.2, self.3, self.4, self.5, self.6, self.7, self.8, self.9, self.10, self.11, self.12, self.13, self.14, self.15, self.16, self.17, self.18, self.19, self.20, self.21, self.22)
                ||| exists|v0: A::Result, m: Seq<u8>|
                    self.0.parses(input, Ok((v0, m)), after.0) && (self.1, self.2, self.3, self.4, self.5, self.6, self.7, self.8, self.9, self.10, self.11, self.12, self.13, self.14, self.15, self.16, self.17, self.18, self.19, self.20, self.21, self.22).parses(m, Err(e), (after.1, after.2, after.3, after.4, after.5, after.6, after.7, after.8, after.9, after.10, after.11, after.12, after.13, after.14, after.15, after.16, after.17, after.18, after.19, after.20, after.21, after.22))
            },
        }
    }

    fn parse(&mut self, input: &'p [u8]) -> (res: Result<((A::Result, B::Result, C::Result, D::Result, F::Result, G::Result, H::Result, I::Result, J::Result, K::Result, L::Result, M::Result, N::Result, O::Result, P::Result, Q::Result, R::Result, S::Result, T::Result, U::Result, V::Result, W::Result, X::Result), &'p [u8]), E>) {
        parse_seq23(&mut self.0, &mut self.1, &mut self.2, &mut self.3, &mut self.4, &mut self.5, &mut self.6, &mut self.7, &mut self.8, &mut self.9, &mut self.10, &mut self.11, &mut self.12, &mut self.13, &mut self.14, &mut self.15, &mut self.16, &mut self.17, &mut self.18, &mut self.19, &mut self.20, &mut self.21, &mut self.22, input)
    }
}

/// Runs `p0` to `p23` one after the other, each on what the one before it left.
fn parse_seq24<'p, E, A: Parser<'p, Error = E>, B: Parser<'p, Error = E>, C: Parser<'p, Error = E>, D: Parser<'p, Error = E>, F: Parser<'p, Error = E>, G: Parser<'p, Error = E>, H: Parser<'p, Error = E>, I: Parser<'p, Error = E>, J: Parser<'p, Error = E>, K: Parser<'p, Error = E>, L: Parser<'p, Error = E>, M: Parser<'p, Error = E>, N: Parser<'p, Error = E>, O: Parser<'p, Error = E>, P: Parser<'p, Error = E>, Q: Parser<'p, Error = E>, R: Parser<'p, Error = E>, S: Parser<'p, Error = E>, T: Parser<'p, Error = E>, U: Parser<'p, Error = E>, V: Parser<'p, Error = E>, W: Parser<'p, Error = E>, X: Parser<'p, Error = E>, Y: Parser<'p, Error = E>>(p0: &mut A, p1: &mut B, p2: &mut C, p3: &mut D, p4: &mut F, p5: &mut G, p6: &mut H, p7: &mut I, p8: &mut J, p9: &mut K, p10: &mut L, p11: &mut M, p12: &mut N, p13: &mut O, p14: &mut P, p15: &mut Q, p16: &mut R, p17: &mut S, p18: &mut T, p19: &mut U, p20: &mut V, p21: &mut W, p22: &mut X, p23: &mut Y, input: &'p [u8]) -> (res: Result<((A::Result, B::Result, C::Result, D::Result, F::Result, G::Result, H::Result, I::Result, J::Result, K::Result, L::Result, M::Result, N::Result, O::Result, P::Result, Q::Result, R::Result, S::Result, T::Result, U::Result, V::Result, W::Result, X::Result, Y::Result), &'p [u8]), E>)
    requires
        old(p0).well_formed(),
        old(p1).well_formed(),
        old(p2).well_formed(),
        old(p3).well_formed(),
        old(p4).well_formed(),
        old(p5).well_formed(),
        old(p6).well_formed(),
        old(p7).well_formed(),
        old(p8).well_formed(),
        old(p9).well_formed(),
        old(p10).well_formed(),
        old(p11).well_formed(),
        old(p12).well_formed(),
        old(p13).well_formed(),
        old(p14).well_formed(),
        old(p15).well_formed(),
        old(p16).well_formed(),
        old(p17).well_formed(),
        old(p18).well_formed(),
        old(p19).well_formed(),
        old(p20).well_formed(),
        old(p21).well_formed(),
        old(p22).well_formed(),
        old(p23).well_formed(),
    ensures
        final(p0).well_formed(),
        final(p1).well_formed(),
        final(p2).well_formed(),
        final(p3).well_formed(),
        final(p4).well_formed(),
        final(p5).well_formed(),
        final(p6).well_formed(),
        final(p7).well_formed(),
        final(p8).well_formed(),
        final(p9).well_formed(),
        final(p10).well_formed(),
        final(p11).well_formed(),
        final(p12).well_formed(),
        final(p13).well_formed(),
        final(p14).well_formed(),
        final(p15).well_formed(),
        final(p16).well_formed(),
        final(p17).well_formed(),
        final(p18).well_formed(),
        final(p19).well_formed(),
        final(p20).well_formed(),
        final(p21).well_formed(),
        final(p22).well_formed(),
        final(p23).well_formed(),
        (*old(p0), *old(p1), *old(p2), *old(p3), *old(p4), *old(p5), *old(p6), *old(p7), *old(p8), *old(p9), *old(p10), *old(p11), *old(p12), *old(p13), *old(p14), *old(p15), *old(p16), *old(p17), *old(p18), *old(p19), *old(p20), *old(p21), *old(p22), *old(p23)).parses(input@, outcome(res), (*final(p0), *final(p1), *final(p2), *final(p3), *final(p4), *final(p5), *final(p6), *final(p7), *final(p8), *final(p9), *final(p10), *final(p11), *final(p12), *final(p13), *final(p14), *final(p15), *final(p16), *final(p17), *final(p18), *final(p19), *final(p20), *final(p21), *final(p22), *final(p23))),
        res matches Ok((_, rest)) ==> is_suffix(rest@, input@),
        (*old(p0), *old(p1), *old(p2), *old(p3), *old(p4), *old(p5), *old(p6), *old(p7), *old(p8), *old(p9), *old(p10), *old(p11), *old(p12), *old(p13), *old(p14), *old(p15), *old(p16), *old(p17), *old(p18), *old(p19), *old(p20), *old(p21), *old(p22), *old(p23)).productive() ==> (*final(p0), *final(p1), *final(p2), *final(p3), *final(p4), *final(p5), *final(p6), *final(p7), *final(p8), *final(p9), *final(p10), *final(p11), *final(p12), *final(p13), *final(p14), *final(p15), *final(p16), *final(p17), *final(p18), *final(p19), *final(p20), *final(p21), *final(p22), *final(p23)).productive(),
        (*old(p0), *old(p1), *old(p2), *old(p3), *old(p4), *old(p5), *old(p6), *old(p7), *old(p8), *old(p9), *old(p10), *old(p11), *old(p12), *old(p13), *old(p14), *old(p15), *old(p16), *old(p17), *old(p18), *old(p19), *old(p20), *old(p21), *old(p22), *old(p23)).productive() && input@.len() > 0 ==> (res matches Ok((_, rest)) ==> rest@.len() < input@.len()),
{
    let ghost start = (*p0, *p1, *p2, *p3, *p4, *p5, *p6, *p7, *p8, *p9, *p10, *p11, *p12, *p13, *p14, *p15, *p16, *p17, *p18, *p19, *p20, *p21, *p22, *p23);
    match run(&mut *p0, input) {
        Ok((v0, m)) => {
            match parse_seq23(&mut *p1, &mut *p2, &mut *p3, &mut *p4, &mut *p5, &mut *p6, &mut *p7, &mut *p8, &mut *p9, &mut *p10, &mut *p11, &mut *p12, &mut *p13, &mut *p14, &mut *p15, &mut *p16, &mut *p17, &mut *p18, &mut *p19, &mut *p20, &mut *p21, &mut *p22, &mut *p23, m) {
                Ok((vt, rest)) => {
                    let res = Ok(((v0, vt.0, vt.1, vt.2, vt.3, vt.4, vt.5, vt.6, vt.7, vt.8, vt.9, vt.10, vt.11, vt.12, vt.13, vt.14, vt.15, vt.16, vt.17, vt.18, vt.19, vt.20, vt.21, vt.22), rest));
                    proof {
                        lemma_suffix_trans(rest@, m@, input@);
                        let o = outcome(res);
                        let v = o->Ok_0.0;
                        let a = (*p0, *p1, *p2, *p3, *p4, *p5, *p6, *p7, *p8, *p9, *p10, *p11, *p12, *p13, *p14, *p15, *p16, *p17, *p18, *p19, *p20, *p21, *p22, *p23);
                        assert((v.1, v.2, v.3, v.4, v.5, v.6, v.7, v.8, v.9, v.10, v.11, v.12, v.13, v.14, v.15, v.16, v.17, v.18, v.19, v.20, v.21, v.22, v.23) == vt);
                        assert(start.0.parses(input@, Ok((v.0, m@)), a.0));
                        assert((start.1, start.2, start.3, start.4, start.5, start.6, start.7, start.8, start.9, start.10, start.11, start.12, start.13, start.14, start.15, start.16, start.17, start.18, start.19, start.20, start.21, start.22, start.23).parses(m@, Ok(((v.1, v.2, v.3, v.4, v.5, v.6, v.7, v.8, v.9, v.10, v.11, v.12, v.13, v.14, v.15, v.16, v.17, v.18, v.19, v.20, v.21, v.22, v.23), o->Ok_0.1)), (a.1, a.2, a.3, a.4, a.5, a.6, a.7, a.8, a.9, a.10, a.11, a.12, a.13, a.14, a.15, a.16, a.17, a.18, a.19, a.20, a.21, a.22, a.23)));
                    }
                    res
                },
                Err(e) => {
                    let res = Err(e);
                    proof {
                        let o = outcome::<(A::Result, B::Result, C::Result, D::Result, F::Result, G::Result, H::Result, I::Result, J::Result, K::Result, L::Result, M::Result, N::Result, O::Result, P::Result, Q::Result, R::Result, S::Result, T::Result, U::Result, V::Result, W::Result, X::Result, Y::Result), E>(res);
                        let a = (*p0, *p1, *p2, *p3, *p4, *p5, *p6, *p7, *p8, *p9, *p10, *p11, *p12, *p13, *p14, *p15, *p16, *p17, *p18, *p19, *p20, *p21, *p22, *p23);
                        assert(start.0.parses(input@, Ok((v0, m@)), a.0));
                        assert((start.1, start.2, start.3, start.4, start.5, start.6, start.7, start.8, start.9, start.10, start.11, start.12, start.13, start.14, start.15, start.16, start.17, start.18, start.19, start.20, start.21, start.22, start.23).parses(m@, Err(o->Err_0), (a.1, a.2, a.3, a.4, a.5, a.6, a.7, a.8, a.9, a.10, a.11, a.12, a.13, a.14, a.15, a.16, a.17, a.18, a.19, a.20, a.21, a.22, a.23)));
                    }
                    res
                },
            }
        },
        Err(e) => {
            let res = Err(e);
            proof {
                let o = outcome::<(A::Result, B::Result, C::Result, D::Result, F::Result, G::Result, H::Result, I::Result, J::Result, K::Result, L::Result, M::Result, N::Result, O::Result, P::Result, Q::Result, R::Result, S::Result, T::Result, U::Result, V::Result, W::Result, X::Result, Y::Result), E>(res);
                let a = (*p0, *p1, *p2, *p3, *p4, *p5, *p6, *p7, *p8, *p9, *p10, *p11, *p12, *p13, *p14, *p15, *p16, *p17, *p18, *p19, *p20, *p21, *p22, *p23);
                assert(start.0.parses(input@, Err(o->Err_0), a.0));
                assert((a.1, a.2, a.3, a.4, a.5, a.6, a.7, a.8, a.9, a.10, a.11, a.12, a.13, a.14, a.15, a.16, a.17, a.18, a.19, a.20, a.21, a.22, a.23) == (start.1, start.2, start.3, start.4, start.5, start.6, start.7, start.8, start.9, start.10, start.11, start.12, start.13, start.14, start.15, start.16, start.17, start.18, start.19, start.20, start.21, start.22, start.23));
            }
            res
        },
    }
}

impl<'p, E, A: Parser<'p, Error = E>, B: Parser<'p, Error = E>, C: Parser<'p, Error = E>, D: Parser<'p, Error = E>, F: Parser<'p, Error = E>, G: Parser<'p, Error = E>, H: Parser<'p, Error = E>, I: Parser<'p, Error = E>, J: Parser<'p, Error = E>, K: Parser<'p, Error = E>, L: Parser<'p, Error = E>, M: Parser<'p, Error = E>, N: Parser<'p, Error = E>, O: Parser<'p, Error = E>, P: Parser<'p, Error = E>, Q: Parser<'p, Error = E>, R: Parser<'p, Error = E>, S: Parser<'p, Error = E>, T: Parser<'p, Error = E>, U: Parser<'p, Error = E>, V: Parser<'p, Error = E>, W: Parser<'p, Error = E>, X: Parser<'p, Error = E>, Y: Parser<'p, Error = E>> Parser<'p> for (A, B, C, D, F, G, H, I, J, K, L, M, N, O, P, Q, R, S, T, U, V, W, X, Y) {
    type Result = (A::Result, B::Result, C::Result, D::Result, F::Result, G::Result, H::Result, I::Result, J::Result, K::Result, L::Result, M::Result, N::Result, O::Result, P::Result, Q::Result, R::Result, S::Result, T::Result, U::Result, V::Result, W::Result, X::Result, Y::Result);
    type Error = E;

    open spec fn well_formed(&self) -> bool {
        self.0.well_formed() && (self.1, self.2, self.3, self.4, self.5, self.6, self.7, self.8, self.9, self.10, self.11, self.12, self.13, self.14, self.15, self.16, self.17, self.18, self.19, self.20, self.21, self.22, self.23).well_formed()
    }

    open spec fn productive(&self) -> bool {
        self.0.productive() || (self.1, self.2, self.3, self.4, self.5, self.6, self.7, self.8, self.9, self.10, self.11, self.12, self.13, self.14, self.15, self.16, self.17, self.18, self.19, self.20, self.21, self.22, self.23).productive()
    }

    open spec fn parses(&self, input: Seq<u8>, out: Result<((A::Result, B::Result, C::Result, D::Result, F::Result, G::Result, H::Result, I::Result, J::Result, K::Result, L::Result, M::Result, N::Result, O::Result, P::Result, Q::Result, R::Result, S::Result, T::Result, U::Result, V::Result, W::Result, X::Result, Y::Result), Seq<u8>), E>, after: Self) -> bool {
        match out {
            Ok((v, rest)) => exists|m: Seq<u8>|
                self.0.parses(input, Ok((v.0, m)), after.0) && (self.1, self.2, self.3, self.4, self.5, self.6, self.7, self.8, self.9, self.10, self.11, self.12, self.13, self.14, self.15, self.16, self.17, self.18, self.19, self.20, self.21, self.22, self.23).parses(
                    m,
                    Ok(((v.1, v.2, v.3, v.4, v.5, v.6, v.7, v.8, v.9, v.10, v.11, v.12, v.13, v.14, v.15, v.16, v.17, v.18, v.19, v.20, v.21, v.22, v.23), rest)),
                    (after.1, after.2, after.3, after.4, after.5, after.6, after.7, after.8, after.9, after.10, after.11, after.12, after.13, after.14, after.15, after.16, after.17, after.18, after.19, after.20, after.21, after.22, after.23),
                ),
            Err(e) => {
                ||| self.0.parses(input, Err(e), after.0) && (after.1, after.2, after.3, after.4, after.5, after.6, after.7, after.8, after.9, after.10, after.11, after.12, after.13, after.14, after.15, after.16, after.17, after.18, after.19, after.20, after.21, after.22, after.23) == (self.1, self.2, self.3, self.4, self.5, self.6, self.7, self.8, self.9, self.10, self.11, self.12, self.13, self.14, self.15, self.16, self.17, self.18, self.19, self.20, self.21, self.22, self.23)
                ||| exists|v0: A::Result, m: Seq<u8>|
                    self.0.parses(input, Ok((v0, m)), after.0) && (self.1, self.2, self.3, self.4, self.5, self.6, self.7, self.8, self.9, self.10, self.11, self.12, self.13, self.14, self.15, self.16, self.17, self.18, self.19, self.20, self.21, self.22, self.23).parses(m, Err(e), (after.1, after.2, after.3, after.4, after.5, after.6, after.7, after.8, after.9, after.10, after.11, after.12, after.13, after.14, after.15, after.16, after.17, after.18, after.19, after.20, after.21, after.22, after.23))
            },
        }
    }

    fn parse(&mut self, input: &'p [u8]) -> (res: Result<((A::Result, B::Result, C::Result, D::Result, F::Result, G::Result, H::Result, I::Result, J::Result, K::Result, L::Result, M::Result, N::Result, O::Result, P::Result, Q::Result, R::Result, S::Result, T::Result, U::Result, V::Result, W::Result, X::Result, Y::Result), &'p [u8]), E>) {
        parse_seq24(&mut self.0, &mut self.1, &mut self.2, &mut self.3, &mut self.4, &mut self.5, &mut self.6, &mut self.7, &mut self.8, &mut self.9, &mut self.10, &mut self.11, &mut self.12, &mut self.13, &mut self.14, &mut self.15, &mut self.16, &mut self.17, &mut self.18, &mut self.19, &mut self.20, &mut self.21, &mut self.22, &mut self.23, input)
    }
}

} // verus!
