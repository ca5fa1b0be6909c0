//! The `Parser` trait: what every parser promises about its input and output.
use crate::combinators::{And, AndThen, MapErr, MapParser, MapRes, Mapped, Peek};
use crate::repeat::{advances, Repeat, RepeatUntilEof};
use vstd::prelude::*;

verus! {

/// The outcome of a parse with the unparsed rest of the input taken as a sequence of bytes.
pub open spec fn outcome<'a, T, E>(res: Result<(T, &'a [u8]), E>) -> Result<(T, Seq<u8>), E> {
    match res {
        Ok((v, rest)) => Ok((v, rest@)),
        Err(e) => Err(e),
    }
}

/// `rest` is what is left of `input` after a prefix of it has been removed.
pub open spec fn is_suffix(rest: Seq<u8>, input: Seq<u8>) -> bool {
    &&& rest.len() <= input.len()
    &&& rest == input.skip(input.len() - rest.len())
}

/// Being a suffix is transitive: what is left of what is left is left of the whole.
pub proof fn lemma_suffix_trans(a: Seq<u8>, b: Seq<u8>, c: Seq<u8>)
    requires
        is_suffix(a, b),
        is_suffix(b, c),
    ensures
        is_suffix(a, c),
{
    assert(a =~= c.skip(c.len() - a.len()));
}

/// Every sequence is a suffix of itself.
pub proof fn lemma_suffix_refl(a: Seq<u8>)
    ensures
        is_suffix(a, a),
{
    assert(a =~= a.skip(0));
}

/// A parser reads a value from the front of a byte slice and hands back the
/// value together with the bytes that it did not read.
///
/// Its behaviour is described by three spec functions:
/// - `well_formed`: the condition under which it may run (for instance, that
///   the closures it holds accept every argument it may pass them);
/// - `productive`: that every successful parse of a nonempty input reads at
///   least one byte, which lets a loop that repeats the parser until the input
///   is exhausted end;
/// - `parses(input, out, after)`: that a parse of `input` may end with the
///   outcome `out` (the rest of the input taken as a sequence) and leave the
///   parser in the state `after`.
pub trait Parser<'p>: Sized {
    type Result;
    type Error;

    spec fn well_formed(&self) -> bool;

    spec fn productive(&self) -> bool;

    spec fn parses(
        &self,
        input: Seq<u8>,
        out: Result<(Self::Result, Seq<u8>), Self::Error>,
        after: Self,
    ) -> bool;

    /// Parses a value from the front of `input`. On success the rest of the
    /// input is a suffix of it; a productive parser reads at least one byte of
    /// a nonempty input.
    fn parse(&mut self, input: &'p [u8]) -> (res: Result<(Self::Result, &'p [u8]), Self::Error>)
        requires
            old(self).well_formed(),
        ensures
            final(self).well_formed(),
            old(self).parses(input@, outcome(res), *final(self)),
            res matches Ok((_, rest)) ==> is_suffix(rest@, input@),
            old(self).productive() ==> final(self).productive(),
            old(self).productive() && input@.len() > 0 ==> (res matches Ok((_, rest)) ==> rest@.len()
                < input@.len()),
    ;
}

/// Runs `p` on `input`, with the contract of [`Parser::parse`].
///
/// This is how verified code runs a parser of any type, including the
/// combinators and tuples whose types tie together the result or error types
/// of the parsers they hold.
pub fn run<'p, P: Parser<'p>>(p: &mut P, input: &'p [u8]) -> (res: Result<(P::Result, &'p [u8]), P::Error>)
    requires
        old(p).well_formed(),
    ensures
        final(p).well_formed(),
        old(p).parses(input@, outcome(res), *final(p)),
        res matches Ok((_, rest)) ==> is_suffix(rest@, input@),
        old(p).productive() ==> final(p).productive(),
        old(p).productive() && input@.len() > 0 ==> (res matches Ok((_, rest)) ==> rest@.len()
            < input@.len()),
{
    p.parse(input)
}

/// The combinators, for every parser.
///
/// Each method builds a parser out of this one, says what the new parser
/// holds, and when it may run; the contract of its `parse` is that of its own
/// `Parser` implementation.
pub trait ParserExt<'p>: Parser<'p> {
    /// A parser that maps the value this one reads with `f`.
    fn map<U, F: FnMut(Self::Result) -> U>(self, f: F) -> (r: Mapped<'p, Self::Result, U, Self, F>)
        ensures
            r.inner() == self,
            r.func() == f,
            self.well_formed() && (forall|t: Self::Result| call_requires(f, (t,))) ==> r.well_formed(),;

    /// A parser that maps the error this one reports with `f`.
    fn map_err<X, F: FnMut(Self::Error) -> X>(self, f: F) -> (r: MapErr<'p, Self::Error, X, Self, F>)
        ensures
            r.inner() == self,
            r.func() == f,
            self.well_formed() && (forall|e: Self::Error| call_requires(f, (e,))) ==> r.well_formed(),;

    /// A parser that maps the value this one reads with `f`, which may fail.
    fn map_res<U, F: FnMut(Self::Result) -> Result<U, Self::Error>>(self, f: F) -> (r: MapRes<
        'p,
        Self::Result,
        U,
        Self,
        F,
    >)
        ensures
            r.inner() == self,
            r.func() == f,
            self.well_formed() && (forall|t: Self::Result| call_requires(f, (t,))) ==> r.well_formed(),;

    /// A parser that turns the value this one reads into bytes with `f` and
    /// reads those bytes with `next`.
    fn map_parser<'q, U, F: FnMut(Self::Result) -> &'q [u8], Q: Parser<'q, Result = U, Error = Self::Error>>(
        self,
        f: F,
        next: Q,
    ) -> (r: MapParser<'p, 'q, Self::Result, U, Self::Error, Self, F, Q>)
        ensures
            r.inner() == self,
            r.func() == f,
            r.next() == next,
            self.well_formed() && next.well_formed() && (forall|t: Self::Result|
                call_requires(f, (t,))) ==> r.well_formed(),;

    /// A parser that runs this one and then `q`, and pairs their values.
    fn and<U, Q: Parser<'p, Result = U, Error = Self::Error>>(self, q: Q) -> (r: And<
        'p,
        Self::Result,
        U,
        Self::Error,
        Self,
        Q,
    >)
        ensures
            r.first() == self,
            r.second() == q,
            self.well_formed() && q.well_formed() ==> r.well_formed(),;

    /// A parser that runs this one and then the parser that `f` makes from its
    /// value.
    fn and_then<U, Q: Parser<'p, Result = U, Error = Self::Error>, F: FnMut(Self::Result) -> Q>(
        self,
        f: F,
    ) -> (r: AndThen<'p, Self::Result, U, Self::Error, Self, Q, F>)
        ensures
            r.inner() == self,
            r.func() == f,
            self.well_formed() && (forall|t: Self::Result| call_requires(f, (t,))) && (forall|
                t: Self::Result,
                q: Q,
            | call_ensures(f, (t,), q) ==> q.well_formed()) ==> r.well_formed(),;

    /// A parser that runs this one `count` times and folds the values with
    /// `f` into the accumulator that `init` makes.
    fn repeat<A, I: FnMut() -> A, F: FnMut(A, Self::Result) -> A>(
        self,
        count: usize,
        init: I,
        f: F,
    ) -> (r: Repeat<'p, Self::Result, A, Self, I, F>)
        ensures
            r.inner() == self,
            r.count() == count,
            r.init() == init,
            r.func() == f,
            self.well_formed() && call_requires(init, ()) && (forall|a: A, t: Self::Result|
                call_requires(f, (a, t))) ==> r.well_formed(),;

    /// A parser that runs this one until the input is exhausted and folds the
    /// values with `f` into the accumulator that `init` makes.
    fn repeat_until_eof<A, I: FnMut() -> A, F: FnMut(A, Self::Result) -> A>(
        self,
        init: I,
        f: F,
    ) -> (r: RepeatUntilEof<'p, Self::Result, A, Self, I, F>)
        ensures
            r.inner() == self,
            r.init() == init,
            r.func() == f,
            self.well_formed() && (self.productive() || advances(self)) && call_requires(init, ())
                && (forall|a: A, t: Self::Result| call_requires(f, (a, t))) ==> r.well_formed(),;

    /// A parser that runs this one and hands back the input unread.
    fn peek(self) -> (r: Peek<'p, Self>)
        ensures
            r.inner() == self,
            self.well_formed() ==> r.well_formed(),;
}

impl<'p, S: Parser<'p>> ParserExt<'p> for S {
    fn map<U, F: FnMut(Self::Result) -> U>(self, f: F) -> (r: Mapped<'p, Self::Result, U, Self, F>)
    {
        Mapped::new(self, f)
    }

    fn map_err<X, F: FnMut(Self::Error) -> X>(self, f: F) -> (r: MapErr<'p, Self::Error, X, Self, F>)
    {
        MapErr::new(self, f)
    }

    fn map_res<U, F: FnMut(Self::Result) -> Result<U, Self::Error>>(self, f: F) -> (r: MapRes<
        'p,
        Self::Result,
        U,
        Self,
        F,
    >)
    {
        MapRes::new(self, f)
    }

    fn map_parser<'q, U, F: FnMut(Self::Result) -> &'q [u8], Q: Parser<'q, Result = U, Error = Self::Error>>(
        self,
        f: F,
        next: Q,
    ) -> (r: MapParser<'p, 'q, Self::Result, U, Self::Error, Self, F, Q>)
    {
        MapParser::new(self, f, next)
    }

    fn and<U, Q: Parser<'p, Result = U, Error = Self::Error>>(self, q: Q) -> (r: And<
        'p,
        Self::Result,
        U,
        Self::Error,
        Self,
        Q,
    >)
    {
        And::new(self, q)
    }

    fn and_then<U, Q: Parser<'p, Result = U, Error = Self::Error>, F: FnMut(Self::Result) -> Q>(
        self,
        f: F,
    ) -> (r: AndThen<'p, Self::Result, U, Self::Error, Self, Q, F>)
    {
        AndThen::new(self, f)
    }

    fn repeat<A, I: FnMut() -> A, F: FnMut(A, Self::Result) -> A>(
        self,
        count: usize,
        init: I,
        f: F,
    ) -> (r: Repeat<'p, Self::Result, A, Self, I, F>)
    {
        Repeat::new(self, count, init, f)
    }

    fn repeat_until_eof<A, I: FnMut() -> A, F: FnMut(A, Self::Result) -> A>(
        self,
        init: I,
        f: F,
    ) -> (r: RepeatUntilEof<'p, Self::Result, A, Self, I, F>)
    {
        RepeatUntilEof::new(self, init, f)
    }

    fn peek(self) -> (r: Peek<'p, Self>)
    {
        Peek::new(self)
    }
}

} // verus!
