//! Parsers that read raw bytes: the whole input, a fixed count, a tag, the end
//! of the input, or nothing at all.
use crate::error::{ExpectedEof, TagError, TagMismatch, UnexpectedEof};
use crate::parser::{is_suffix, Parser};
use core::convert::Infallible;
use vstd::prelude::*;
use vstd::slice::slice_subrange;

verus! {

/// Splits `input` after its first `n` bytes.
pub(crate) fn split_at<'a>(input: &'a [u8], n: usize) -> (r: (&'a [u8], &'a [u8]))
    requires
        n <= input@.len(),
    ensures
        r.0@ == input@.take(n as int),
        r.1@ == input@.skip(n as int),
        is_suffix(r.1@, input@),
{
    let head = slice_subrange(input, 0, n);
    let rest = slice_subrange(input, n, input.len());
    assert(head@ =~= input@.take(n as int));
    assert(rest@ =~= input@.skip(n as int));
    (head, rest)
}

/// Reads the whole input. It never fails.
pub struct Consume(());

impl<'p> Parser<'p> for Consume {
    type Result = &'p [u8];
    type Error = Infallible;

    open spec fn well_formed(&self) -> bool {
        true
    }

    open spec fn productive(&self) -> bool {
        true
    }

    open spec fn parses(
        &self,
        input: Seq<u8>,
        out: Result<(&'p [u8], Seq<u8>), Infallible>,
        after: Self,
    ) -> bool {
        match out {
            Ok((v, rest)) => v@ == input && rest.len() == 0,
            Err(_) => false,
        }
    }

    fn parse(&mut self, input: &'p [u8]) -> (res: Result<(&'p [u8], &'p [u8]), Infallible>) {
        let (all, rest) = split_at(input, input.len());
        assert(all@ =~= input@);
        Ok((all, rest))
    }
}

/// A parser that reads the whole input.
pub fn consume() -> (p: Consume)
    ensures
        p.well_formed(),
{
    Consume(())
}

/// Reads a fixed number of bytes.
pub struct Take(usize);

impl Take {
    /// How many bytes this parser reads.
    pub closed spec fn count(&self) -> usize {
        self.0
    }
}

impl<'p> Parser<'p> for Take {
    type Result = &'p [u8];
    type Error = UnexpectedEof;

    open spec fn well_formed(&self) -> bool {
        true
    }

    open spec fn productive(&self) -> bool {
        self.count() > 0
    }

    open spec fn parses(
        &self,
        input: Seq<u8>,
        out: Result<(&'p [u8], Seq<u8>), UnexpectedEof>,
        after: Self,
    ) -> bool {
        &&& after.count() == self.count()
        &&& if input.len() < self.count() {
            out == Err::<(&'p [u8], Seq<u8>), UnexpectedEof>(UnexpectedEof)
        } else {
            out matches Ok((v, rest)) && v@ == input.take(self.count() as int) && rest == input.skip(
                self.count() as int,
            )
        }
    }

    fn parse(&mut self, input: &'p [u8]) -> (res: Result<(&'p [u8], &'p [u8]), UnexpectedEof>) {
        if input.len() < self.0 {
            Err(UnexpectedEof)
        } else {
            Ok(split_at(input, self.0))
        }
    }
}

/// A parser that reads the first `n` bytes of the input.
pub fn take(n: usize) -> (p: Take)
    ensures
        p.count() == n,
        p.well_formed(),
{
    Take(n)
}

/// Matches a fixed sequence of bytes at the front of the input.
pub struct Tag<'a>(&'a [u8]);

impl<'a> Tag<'a> {
    /// The bytes that this parser expects.
    pub closed spec fn bytes(&self) -> Seq<u8> {
        self.0@
    }
}

/// The outcome of matching the tag `tag` against the front of `input`.
pub open spec fn tag_outcome(tag: Seq<u8>, input: Seq<u8>) -> Result<((), Seq<u8>), TagError> {
    if input.len() < tag.len() {
        Err(TagError::UnexpectedEof(UnexpectedEof))
    } else if input.take(tag.len() as int) != tag {
        Err(TagError::TagMismatch(TagMismatch))
    } else {
        Ok(((), input.skip(tag.len() as int)))
    }
}

impl<'p, 'a> Parser<'p> for Tag<'a> {
    type Result = ();
    type Error = TagError;

    open spec fn well_formed(&self) -> bool {
        true
    }

    open spec fn productive(&self) -> bool {
        self.bytes().len() > 0
    }

    open spec fn parses(
        &self,
        input: Seq<u8>,
        out: Result<((), Seq<u8>), TagError>,
        after: Self,
    ) -> bool {
        &&& after.bytes() == self.bytes()
        &&& out == tag_outcome(self.bytes(), input)
    }

    fn parse(&mut self, input: &'p [u8]) -> (res: Result<((), &'p [u8]), TagError>) {
        let n = self.0.len();
        if input.len() < n {
            return Err(TagError::UnexpectedEof(UnexpectedEof));
        }
        let mut i: usize = 0;
        while i < n
            invariant
                i <= n,
                n == self.0@.len(),
                n <= input@.len(),
                forall|j: int| 0 <= j < i ==> input@[j] == self.0@[j],
            decreases n - i,
        {
            if input[i] != self.0[i] {
                assert(input@.take(n as int)[i as int] != self.0@[i as int]);
                return Err(TagError::TagMismatch(TagMismatch));
            }
            i = i + 1;
        }
        assert(input@.take(n as int) =~= self.0@);
        let (_, rest) = split_at(input, n);
        Ok(((), rest))
    }
}

/// A parser that expects the input to start with the bytes `x`.
pub fn tag(x: &[u8]) -> (p: Tag<'_>)
    ensures
        p.bytes() == x@,
        p.well_formed(),
{
    Tag(x)
}

/// Succeeds, reading nothing, exactly when the input is empty.
pub struct Eof(());

impl<'p> Parser<'p> for Eof {
    type Result = ();
    type Error = ExpectedEof;

    open spec fn well_formed(&self) -> bool {
        true
    }

    open spec fn productive(&self) -> bool {
        true
    }

    open spec fn parses(
        &self,
        input: Seq<u8>,
        out: Result<((), Seq<u8>), ExpectedEof>,
        after: Self,
    ) -> bool {
        out == if input.len() == 0 {
            Ok::<((), Seq<u8>), ExpectedEof>(((), input))
        } else {
            Err(ExpectedEof)
        }
    }

    fn parse(&mut self, input: &'p [u8]) -> (res: Result<((), &'p [u8]), ExpectedEof>) {
        if !input.is_empty() {
            Err(ExpectedEof)
        } else {
            proof { crate::parser::lemma_suffix_refl(input@); }
            Ok(((), input))
        }
    }
}

/// A parser that succeeds only at the end of the input.
pub fn eof() -> (p: Eof)
    ensures
        p.well_formed(),
{
    Eof(())
}

/// Fails on every input with the error that its closure makes.
#[verifier::reject_recursive_types(E)]
pub struct Error<E, F: FnMut() -> E> {
    err: F,
}

impl<E, F: FnMut() -> E> Error<E, F> {
    /// The closure that makes the error.
    pub closed spec fn func(&self) -> F {
        self.err
    }
}

impl<'p, E, F: FnMut() -> E> Parser<'p> for Error<E, F> {
    type Result = Infallible;
    type Error = E;

    open spec fn well_formed(&self) -> bool {
        call_requires(self.func(), ())
    }

    open spec fn productive(&self) -> bool {
        true
    }

    open spec fn parses(
        &self,
        input: Seq<u8>,
        out: Result<(Infallible, Seq<u8>), E>,
        after: Self,
    ) -> bool {
        &&& after.func() == self.func()
        &&& out matches Err(e) && call_ensures(self.func(), (), e)
    }

    fn parse(&mut self, _input: &'p [u8]) -> (res: Result<(Infallible, &'p [u8]), E>) {
        let ghost s0 = *self;
        let e = (self.err)();
        assert(self.func() == s0.func());
        Err(e)
    }
}

/// A parser that always fails with the error that `f` makes.
pub fn error<E, F: FnMut() -> E>(f: F) -> (p: Error<E, F>)
    ensures
        p.func() == f,
{
    Error { err: f }
}

} // verus!
