//! Parsers built from other parsers: mapping results and errors, sequencing,
//! and looking ahead.
use crate::parser::{lemma_suffix_refl, lemma_suffix_trans, outcome, run, Parser};
use core::marker::PhantomData;
use vstd::prelude::*;

verus! {

/// Runs a parser and hands back the input unread.
pub struct Peek<'p, P: Parser<'p>> {
    parser: P,
    phantom: PhantomData<&'p ()>,
}

impl<'p, P: Parser<'p>> Peek<'p, P> {
    /// The parser that looks ahead.
    pub closed spec fn inner(&self) -> P {
        self.parser
    }

    pub(crate) fn new(parser: P) -> (r: Self)
        ensures
            r.inner() == parser,
    {
        Peek { parser, phantom: PhantomData }
    }
}

impl<'p, P: Parser<'p>> Parser<'p> for Peek<'p, P> {
    type Result = P::Result;
    type Error = P::Error;

    open spec fn well_formed(&self) -> bool {
        self.inner().well_formed()
    }

    open spec fn productive(&self) -> bool {
        false
    }

    open spec fn parses(
        &self,
        input: Seq<u8>,
        out: Result<(P::Result, Seq<u8>), P::Error>,
        after: Self,
    ) -> bool {
        match out {
            Ok((t, rest)) => rest == input && exists|r: Seq<u8>|
                self.inner().parses(input, Ok((t, r)), after.inner()),
            Err(e) => self.inner().parses(input, Err(e), after.inner()),
        }
    }

    fn parse(&mut self, input: &'p [u8]) -> (res: Result<(P::Result, &'p [u8]), P::Error>) {
        let ghost s0 = *self;
        match run(&mut self.parser, input) {
            Ok((t, r)) => {
                let res = Ok((t, input));
                proof {
                    lemma_suffix_refl(input@);
                    let o = outcome(res);
                    assert(s0.inner().parses(input@, Ok((o->Ok_0.0, r@)), self.inner()));
                }
                res
            },
            Err(e) => Err(e),
        }
    }
}

/// Maps the value that a parser reads with a closure.
#[verifier::reject_recursive_types(T)]
#[verifier::reject_recursive_types(U)]
pub struct Mapped<'p, T, U, P: Parser<'p, Result = T>, F: FnMut(T) -> U> {
    parser: P,
    map: F,
    phantom: PhantomData<&'p ()>,
}

impl<'p, T, U, P: Parser<'p, Result = T>, F: FnMut(T) -> U> Mapped<'p, T, U, P, F> {
    /// The parser whose value is mapped.
    pub closed spec fn inner(&self) -> P {
        self.parser
    }

    /// The closure that maps the value.
    pub closed spec fn func(&self) -> F {
        self.map
    }

    pub(crate) fn new(parser: P, map: F) -> (r: Self)
        ensures
            r.inner() == parser,
            r.func() == map,
    {
        Mapped { parser, map, phantom: PhantomData }
    }
}

impl<'p, T, U, P: Parser<'p, Result = T>, F: FnMut(T) -> U> Parser<'p> for Mapped<'p, T, U, P, F> {
    type Result = U;
    type Error = P::Error;

    open spec fn well_formed(&self) -> bool {
        &&& self.inner().well_formed()
        &&& forall|t: T| call_requires(self.func(), (t,))
    }

    open spec fn productive(&self) -> bool {
        self.inner().productive()
    }

    open spec fn parses(
        &self,
        input: Seq<u8>,
        out: Result<(U, Seq<u8>), P::Error>,
        after: Self,
    ) -> bool {
        &&& after.func() == self.func()
        &&& match out {
            Ok((u, rest)) => exists|t: T|
                self.inner().parses(input, Ok((t, rest)), after.inner()) && call_ensures(
                    self.func(),
                    (t,),
                    u,
                ),
            Err(e) => self.inner().parses(input, Err(e), after.inner()),
        }
    }

    fn parse(&mut self, input: &'p [u8]) -> (res: Result<(U, &'p [u8]), P::Error>) {
        let ghost s0 = *self;
        let res = match run(&mut self.parser, input) {
            Ok((t, r)) => {
                assert(call_requires(s0.func(), (t,)));
                let u = (self.map)(t);
                let res = Ok((u, r));
                proof {
                    let o = outcome(res);
                    assert(s0.inner().parses(input@, Ok((t, o->Ok_0.1)), self.inner()));
                    assert(call_ensures(s0.func(), (t,), o->Ok_0.0));
                }
                res
            },
            Err(e) => Err(e),
        };
        proof {
            assert forall|x: T| call_requires(self.func(), (x,)) by {
                assert(call_requires(s0.func(), (x,)));
            }
        }
        res
    }
}

/// Maps the value that a parser reads with a closure that may fail.
#[verifier::reject_recursive_types(T)]
#[verifier::reject_recursive_types(U)]
pub struct MapRes<'p, T, U, P: Parser<'p, Result = T>, F: FnMut(T) -> Result<U, P::Error>> {
    parser: P,
    map: F,
    phantom: PhantomData<&'p ()>,
}

impl<'p, T, U, P: Parser<'p, Result = T>, F: FnMut(T) -> Result<U, P::Error>> MapRes<
    'p,
    T,
    U,
    P,
    F,
> {
    /// The parser whose value is mapped.
    pub closed spec fn inner(&self) -> P {
        self.parser
    }

    /// The closure that maps the value.
    pub closed spec fn func(&self) -> F {
        self.map
    }

    pub(crate) fn new(parser: P, map: F) -> (r: Self)
        ensures
            r.inner() == parser,
            r.func() == map,
    {
        MapRes { parser, map, phantom: PhantomData }
    }
}

impl<'p, T, U, P: Parser<'p, Result = T>, F: FnMut(T) -> Result<U, P::Error>> Parser<'p> for MapRes<
    'p,
    T,
    U,
    P,
    F,
> {
    type Result = U;
    type Error = P::Error;

    open spec fn well_formed(&self) -> bool {
        &&& self.inner().well_formed()
        &&& forall|t: T| call_requires(self.func(), (t,))
    }

    open spec fn productive(&self) -> bool {
        self.inner().productive()
    }

    open spec fn parses(
        &self,
        input: Seq<u8>,
        out: Result<(U, Seq<u8>), P::Error>,
        after: Self,
    ) -> bool {
        &&& after.func() == self.func()
        &&& match out {
            Ok((u, rest)) => exists|t: T|
                self.inner().parses(input, Ok((t, rest)), after.inner()) && call_ensures(
                    self.func(),
                    (t,),
                    Ok::<U, P::Error>(u),
                ),
            Err(e) => {
                ||| self.inner().parses(input, Err(e), after.inner())
                ||| exists|t: T, rest: Seq<u8>|
                    self.inner().parses(input, Ok((t, rest)), after.inner()) && call_ensures(
                        self.func(),
                        (t,),
                        Err::<U, P::Error>(e),
                    )
            },
        }
    }

    fn parse(&mut self, input: &'p [u8]) -> (res: Result<(U, &'p [u8]), P::Error>) {
        let ghost s0 = *self;
        let res = match run(&mut self.parser, input) {
            Ok((t, r)) => {
                assert(call_requires(s0.func(), (t,)));
                let m = (self.map)(t);
                match m {
                    Ok(x) => {
                        let res = Ok((x, r));
                        proof {
                            let o = outcome(res);
                            assert(s0.inner().parses(input@, Ok((t, o->Ok_0.1)), self.inner()));
                            assert(call_ensures(s0.func(), (t,), Ok::<U, P::Error>(o->Ok_0.0)));
                        }
                        res
                    },
                    Err(e) => {
                        let res = Err(e);
                        proof {
                            let o = outcome::<U, P::Error>(res);
                            assert(s0.inner().parses(input@, Ok((t, r@)), self.inner()));
                            assert(call_ensures(s0.func(), (t,), Err::<U, P::Error>(o->Err_0)));
                        }
                        res
                    },
                }
            },
            Err(e) => Err(e),
        };
        proof {
            assert forall|x: T| call_requires(self.func(), (x,)) by {
                assert(call_requires(s0.func(), (x,)));
            }
        }
        res
    }
}

/// Maps the error that a parser reports with a closure.
#[verifier::reject_recursive_types(E)]
#[verifier::reject_recursive_types(X)]
pub struct MapErr<'p, E, X, P: Parser<'p, Error = E>, F: FnMut(E) -> X> {
    parser: P,
    map: F,
    phantom: PhantomData<&'p ()>,
}

impl<'p, E, X, P: Parser<'p, Error = E>, F: FnMut(E) -> X> MapErr<'p, E, X, P, F> {
    /// The parser whose error is mapped.
    pub closed spec fn inner(&self) -> P {
        self.parser
    }

    /// The closure that maps the error.
    pub closed spec fn func(&self) -> F {
        self.map
    }

    pub(crate) fn new(parser: P, map: F) -> (r: Self)
        ensures
            r.inner() == parser,
            r.func() == map,
    {
        MapErr { parser, map, phantom: PhantomData }
    }
}

impl<'p, E, X, P: Parser<'p, Error = E>, F: FnMut(E) -> X> Parser<'p> for MapErr<'p, E, X, P, F> {
    type Result = P::Result;
    type Error = X;

    open spec fn well_formed(&self) -> bool {
        &&& self.inner().well_formed()
        &&& forall|e: E| call_requires(self.func(), (e,))
    }

    open spec fn productive(&self) -> bool {
        self.inner().productive()
    }

    open spec fn parses(
        &self,
        input: Seq<u8>,
        out: Result<(P::Result, Seq<u8>), X>,
        after: Self,
    ) -> bool {
        &&& after.func() == self.func()
        &&& match out {
            Ok((t, rest)) => self.inner().parses(input, Ok((t, rest)), after.inner()),
            Err(x) => exists|e: E|
                self.inner().parses(input, Err(e), after.inner()) && call_ensures(
                    self.func(),
                    (e,),
                    x,
                ),
        }
    }

    fn parse(&mut self, input: &'p [u8]) -> (res: Result<(P::Result, &'p [u8]), X>) {
        let ghost s0 = *self;
        let res = match run(&mut self.parser, input) {
            Ok((t, r)) => Ok((t, r)),
            Err(e) => {
                assert(call_requires(s0.func(), (e,)));
                let x = (self.map)(e);
                let res = Err(x);
                proof {
                    let o = outcome::<P::Result, X>(res);
                    assert(s0.inner().parses(input@, Err(e), self.inner()));
                    assert(call_ensures(s0.func(), (e,), o->Err_0));
                }
                res
            },
        };
        proof {
            assert forall|x: E| call_requires(self.func(), (x,)) by {
                assert(call_requires(s0.func(), (x,)));
            }
        }
        res
    }
}

/// Runs two parsers one after the other and pairs their values.
#[verifier::reject_recursive_types(T)]
#[verifier::reject_recursive_types(U)]
#[verifier::reject_recursive_types(E)]
pub struct And<'p, T, U, E, P: Parser<'p, Result = T, Error = E>, Q: Parser<'p, Result = U, Error = E>> {
    parser: P,
    and: Q,
    phantom: PhantomData<&'p ()>,
}

impl<'p, T, U, E, P: Parser<'p, Result = T, Error = E>, Q: Parser<'p, Result = U, Error = E>> And<
    'p,
    T,
    U,
    E,
    P,
    Q,
> {
    /// The parser that runs first.
    pub closed spec fn first(&self) -> P {
        self.parser
    }

    /// The parser that runs second, on what the first left.
    pub closed spec fn second(&self) -> Q {
        self.and
    }

    pub(crate) fn new(parser: P, and: Q) -> (r: Self)
        ensures
            r.first() == parser,
            r.second() == and,
    {
        And { parser, and, phantom: PhantomData }
    }
}

impl<
    'p,
    T,
    U,
    E,
    P: Parser<'p, Result = T, Error = E>,
    Q: Parser<'p, Result = U, Error = E>,
> Parser<'p> for And<'p, T, U, E, P, Q> {
    type Result = (T, U);
    type Error = E;

    open spec fn well_formed(&self) -> bool {
        self.first().well_formed() && self.second().well_formed()
    }

    open spec fn productive(&self) -> bool {
        self.first().productive() || self.second().productive()
    }

    open spec fn parses(&self, input: Seq<u8>, out: Result<((T, U), Seq<u8>), E>, after: Self) -> bool {
        match out {
            Ok((v, rest)) => exists|m: Seq<u8>|
                self.first().parses(input, Ok((v.0, m)), after.first()) && self.second().parses(
                    m,
                    Ok((v.1, rest)),
                    after.second(),
                ),
            Err(e) => {
                ||| self.first().parses(input, Err(e), after.first()) && after.second()
                    == self.second()
                ||| exists|t: T, m: Seq<u8>|
                    self.first().parses(input, Ok((t, m)), after.first()) && self.second().parses(
                        m,
                        Err(e),
                        after.second(),
                    )
            },
        }
    }

    fn parse(&mut self, input: &'p [u8]) -> (res: Result<((T, U), &'p [u8]), E>) {
        let ghost s0 = *self;
        match run(&mut self.parser, input) {
            Ok((t, r)) => {
                let ghost s1 = *self;
                match run(&mut self.and, r) {
                    Ok((x, r2)) => {
                        let res = Ok(((t, x), r2));
                        proof {
                            lemma_suffix_trans(r2@, r@, input@);
                            let o = outcome(res);
                            assert(s0.first().parses(input@, Ok((o->Ok_0.0.0, r@)), self.first()));
                            assert(s0.second().parses(r@, Ok((o->Ok_0.0.1, o->Ok_0.1)), self.second()));
                        }
                        res
                    },
                    Err(e) => {
                        let res = Err(e);
                        proof {
                            let o = outcome::<(T, U), E>(res);
                            assert(s0.first().parses(input@, Ok((t, r@)), self.first()));
                            assert(s0.second().parses(r@, Err(o->Err_0), self.second()));
                        }
                        res
                    },
                }
            },
            Err(e) => Err(e),
        }
    }
}

/// Runs a parser, makes a second parser from its value with a closure, and
/// runs that on what the first left.
#[verifier::reject_recursive_types(T)]
#[verifier::reject_recursive_types(U)]
#[verifier::reject_recursive_types(E)]
#[verifier::reject_recursive_types(Q)]
pub struct AndThen<
    'p,
    T,
    U,
    E,
    P: Parser<'p, Result = T, Error = E>,
    Q: Parser<'p, Result = U, Error = E>,
    F: FnMut(T) -> Q,
> {
    parser: P,
    map: F,
    phantom: PhantomData<&'p ()>,
}

impl<
    'p,
    T,
    U,
    E,
    P: Parser<'p, Result = T, Error = E>,
    Q: Parser<'p, Result = U, Error = E>,
    F: FnMut(T) -> Q,
> AndThen<'p, T, U, E, P, Q, F> {
    /// The parser that runs first.
    pub closed spec fn inner(&self) -> P {
        self.parser
    }

    /// The closure that makes the second parser.
    pub closed spec fn func(&self) -> F {
        self.map
    }

    pub(crate) fn new(parser: P, map: F) -> (r: Self)
        ensures
            r.inner() == parser,
            r.func() == map,
    {
        AndThen { parser, map, phantom: PhantomData }
    }
}

impl<
    'p,
    T,
    U,
    E,
    P: Parser<'p, Result = T, Error = E>,
    Q: Parser<'p, Result = U, Error = E>,
    F: FnMut(T) -> Q,
> Parser<'p> for AndThen<'p, T, U, E, P, Q, F> {
    type Result = U;
    type Error = E;

    open spec fn well_formed(&self) -> bool {
        &&& self.inner().well_formed()
        &&& forall|t: T| call_requires(self.func(), (t,))
        &&& forall|t: T, q: Q| call_ensures(self.func(), (t,), q) ==> q.well_formed()
    }

    open spec fn productive(&self) -> bool {
        ||| self.inner().productive()
        ||| forall|t: T, q: Q| call_ensures(self.func(), (t,), q) ==> q.productive()
    }

    open spec fn parses(&self, input: Seq<u8>, out: Result<(U, Seq<u8>), E>, after: Self) -> bool {
        &&& after.func() == self.func()
        &&& match out {
            Ok((u, rest)) => exists|t: T, m: Seq<u8>, q: Q, q2: Q|
                {
                    &&& self.inner().parses(input, Ok((t, m)), after.inner())
                    &&& call_ensures(self.func(), (t,), q)
                    &&& q.parses(m, Ok((u, rest)), q2)
                },
            Err(e) => {
                ||| self.inner().parses(input, Err(e), after.inner())
                ||| exists|t: T, m: Seq<u8>, q: Q, q2: Q|
                    {
                        &&& self.inner().parses(input, Ok((t, m)), after.inner())
                        &&& call_ensures(self.func(), (t,), q)
                        &&& q.parses(m, Err(e), q2)
                    }
            },
        }
    }

    fn parse(&mut self, input: &'p [u8]) -> (res: Result<(U, &'p [u8]), E>) {
        let ghost s0 = *self;
        let res = match run(&mut self.parser, input) {
            Ok((t, r)) => {
                assert(call_requires(s0.func(), (t,)));
                let mut q = (self.map)(t);
                let ghost q0 = q;
                assert(call_ensures(s0.func(), (t,), q0));
                assert(q0.well_formed());
                assert(!s0.inner().productive() && s0.productive() ==> q0.productive());
                match run(&mut q, r) {
                    Ok((x, r2)) => {
                        let res = Ok((x, r2));
                        proof {
                            lemma_suffix_trans(r2@, r@, input@);
                            let o = outcome(res);
                            assert(s0.inner().parses(input@, Ok((t, r@)), self.inner()));
                            assert(q0.parses(r@, Ok((o->Ok_0.0, o->Ok_0.1)), q));
                        }
                        res
                    },
                    Err(e) => {
                        let res = Err(e);
                        proof {
                            let o = outcome::<U, E>(res);
                            assert(s0.inner().parses(input@, Ok((t, r@)), self.inner()));
                            assert(q0.parses(r@, Err(o->Err_0), q));
                        }
                        res
                    },
                }
            },
            Err(e) => Err(e),
        };
        proof {
            assert forall|x: T| call_requires(self.func(), (x,)) by {
                assert(call_requires(s0.func(), (x,)));
            }
            assert forall|x: T, q: Q| call_ensures(self.func(), (x,), q) implies q.well_formed() by {
                assert(call_ensures(s0.func(), (x,), q));
            }
            if s0.productive() && !s0.inner().productive() {
                assert forall|x: T, q: Q| call_ensures(self.func(), (x,), q) implies q.productive() by {
                    assert(call_ensures(s0.func(), (x,), q));
                }
            }
        }
        res
    }
}

/// Runs a parser, turns its value into a byte slice with a closure, and reads
/// that slice with a second parser. The rest of the input is what the first
/// parser left; whatever the second leaves of the slice is dropped.
#[verifier::reject_recursive_types(T)]
#[verifier::reject_recursive_types(U)]
#[verifier::reject_recursive_types(E)]
pub struct MapParser<
    'p,
    'q,
    T,
    U,
    E,
    P: Parser<'p, Result = T, Error = E>,
    F: FnMut(T) -> &'q [u8],
    Q: Parser<'q, Result = U, Error = E>,
> {
    parser: P,
    map: F,
    next: Q,
    phantom: PhantomData<(&'p (), &'q ())>,
}

impl<
    'p,
    'q,
    T,
    U,
    E,
    P: Parser<'p, Result = T, Error = E>,
    F: FnMut(T) -> &'q [u8],
    Q: Parser<'q, Result = U, Error = E>,
> MapParser<'p, 'q, T, U, E, P, F, Q> {
    /// The parser that reads the outer input.
    pub closed spec fn inner(&self) -> P {
        self.parser
    }

    /// The closure that turns the first value into bytes.
    pub closed spec fn func(&self) -> F {
        self.map
    }

    /// The parser that reads those bytes.
    pub closed spec fn next(&self) -> Q {
        self.next
    }

    pub(crate) fn new(parser: P, map: F, next: Q) -> (r: Self)
        ensures
            r.inner() == parser,
            r.func() == map,
            r.next() == next,
    {
        MapParser { parser, map, next, phantom: PhantomData }
    }
}

impl<
    'p,
    'q,
    T,
    U,
    E,
    P: Parser<'p, Result = T, Error = E>,
    F: FnMut(T) -> &'q [u8],
    Q: Parser<'q, Result = U, Error = E>,
> Parser<'p> for MapParser<'p, 'q, T, U, E, P, F, Q> {
    type Result = U;
    type Error = E;

    open spec fn well_formed(&self) -> bool {
        &&& self.inner().well_formed()
        &&& self.next().well_formed()
        &&& forall|t: T| call_requires(self.func(), (t,))
    }

    open spec fn productive(&self) -> bool {
        self.inner().productive()
    }

    open spec fn parses(&self, input: Seq<u8>, out: Result<(U, Seq<u8>), E>, after: Self) -> bool {
        &&& after.func() == self.func()
        &&& match out {
            Ok((u, rest)) => exists|t: T, b: &'q [u8], r: Seq<u8>|
                {
                    &&& self.inner().parses(input, Ok((t, rest)), after.inner())
                    &&& call_ensures(self.func(), (t,), b)
                    &&& self.next().parses(b@, Ok((u, r)), after.next())
                },
            Err(e) => {
                ||| self.inner().parses(input, Err(e), after.inner()) && after.next() == self.next()
                ||| exists|t: T, m: Seq<u8>, b: &'q [u8]|
                    {
                        &&& self.inner().parses(input, Ok((t, m)), after.inner())
                        &&& call_ensures(self.func(), (t,), b)
                        &&& self.next().parses(b@, Err(e), after.next())
                    }
            },
        }
    }

    fn parse(&mut self, input: &'p [u8]) -> (res: Result<(U, &'p [u8]), E>) {
        let ghost s0 = *self;
        let res = match run(&mut self.parser, input) {
            Ok((t, r)) => {
                assert(call_requires(s0.func(), (t,)));
                let b = (self.map)(t);
                assert(call_ensures(s0.func(), (t,), b));
                let ghost s1 = *self;
                match run(&mut self.next, b) {
                    Ok((x, r2)) => {
                        let res = Ok((x, r));
                        proof {
                            let o = outcome(res);
                            assert(s0.inner().parses(input@, Ok((t, o->Ok_0.1)), self.inner()));
                            assert(s0.next().parses(b@, Ok((o->Ok_0.0, r2@)), self.next()));
                        }
                        res
                    },
                    Err(e) => {
                        let res = Err(e);
                        proof {
                            let o = outcome::<U, E>(res);
                            assert(s0.inner().parses(input@, Ok((t, r@)), self.inner()));
                            assert(s0.next().parses(b@, Err(o->Err_0), self.next()));
                        }
                        res
                    },
                }
            },
            Err(e) => Err(e),
        };
        proof {
            assert forall|x: T| call_requires(self.func(), (x,)) by {
                assert(call_requires(s0.func(), (x,)));
            }
        }
        res
    }
}

} // verus!
