//! Parsers that run another parser repeatedly and fold its values.
use crate::parser::{is_suffix, lemma_suffix_refl, lemma_suffix_trans, outcome, run, Parser};
use core::marker::PhantomData;
use vstd::prelude::*;

verus! {

/// `items.len()` successful steps of a repeated parser: step `i` runs the
/// parser in state `states[i]` on `inputs[i]`, reads `items[i]` and leaves
/// `inputs[i + 1]` and the state `states[i + 1]`, and `f` folds the value into
/// the accumulator, from `accs[i]` to `accs[i + 1]`.
pub open spec fn steps<'p, T, A, P: Parser<'p, Result = T>, F: FnMut(A, T) -> A>(
    f: F,
    states: Seq<P>,
    inputs: Seq<Seq<u8>>,
    items: Seq<T>,
    accs: Seq<A>,
) -> bool {
    &&& states.len() == items.len() + 1
    &&& inputs.len() == items.len() + 1
    &&& accs.len() == items.len() + 1
    &&& forall|i: int|
        #![trigger items[i]]
        0 <= i < items.len() ==> {
            &&& states[i].parses(inputs[i], Ok((items[i], inputs[i + 1])), states[i + 1])
            &&& call_ensures(f, (accs[i], items[i]), accs[i + 1])
        }
}

/// Extending a run of steps by one more step.
pub proof fn lemma_steps_push<'p, T, A, P: Parser<'p, Result = T>, F: FnMut(A, T) -> A>(
    f: F,
    states: Seq<P>,
    inputs: Seq<Seq<u8>>,
    items: Seq<T>,
    accs: Seq<A>,
    state: P,
    input: Seq<u8>,
    item: T,
    acc: A,
)
    requires
        steps(f, states, inputs, items, accs),
        states.last().parses(inputs.last(), Ok((item, input)), state),
        call_ensures(f, (accs.last(), item), acc),
    ensures
        steps(f, states.push(state), inputs.push(input), items.push(item), accs.push(acc)),
{
    let (s2, i2, t2, a2) = (states.push(state), inputs.push(input), items.push(item), accs.push(acc));
    assert forall|i: int| 0 <= i < t2.len() implies {
        &&& s2[i].parses(i2[i], Ok((#[trigger] t2[i], i2[i + 1])), s2[i + 1])
        &&& call_ensures(f, (a2[i], t2[i]), a2[i + 1])
    } by {
        if i < items.len() {
            assert(items[i] == t2[i]);
        }
    }
}

/// `q` is a state in which the parser `p` can be after `n` parses, each of
/// them ending in success or in failure.
pub open spec fn reaches<'p, P: Parser<'p>>(p: P, q: P, n: nat) -> bool
    decreases n,
{
    if n == 0 {
        p == q
    } else {
        exists|mid: P, input: Seq<u8>, out: Result<(P::Result, Seq<u8>), P::Error>|
            #[trigger] p.parses(input, out, mid) && reaches(mid, q, (n - 1) as nat)
    }
}

/// In every state that `p` can reach, a parse that succeeds on a nonempty
/// input reads at least one byte of it.
pub open spec fn advances<'p, P: Parser<'p>>(p: P) -> bool {
    forall|q: P, n: nat, input: Seq<u8>, t: P::Result, rest: Seq<u8>, after: P|
        #![trigger reaches(p, q, n), q.parses(input, Ok((t, rest)), after)]
        reaches(p, q, n) && input.len() > 0 && q.parses(input, Ok((t, rest)), after) ==> rest.len()
            < input.len()
}

/// A parser that advances reads at least one byte of a nonempty input on
/// which it succeeds.
pub proof fn lemma_advances_reads<'p, P: Parser<'p>>(
    p: P,
    input: Seq<u8>,
    t: P::Result,
    rest: Seq<u8>,
    after: P,
)
    requires
        advances(p),
        input.len() > 0,
        p.parses(input, Ok((t, rest)), after),
    ensures
        rest.len() < input.len(),
{
    assert(reaches(p, p, 0));
}

/// A parser that advances still advances after a parse, whatever its outcome.
pub proof fn lemma_advances_after<'p, P: Parser<'p>>(
    p: P,
    input: Seq<u8>,
    out: Result<(P::Result, Seq<u8>), P::Error>,
    q: P,
)
    requires
        advances(p),
        p.parses(input, out, q),
    ensures
        advances(q),
{
    assert forall|r: P, n: nat, i: Seq<u8>, t: P::Result, rest: Seq<u8>, after: P|
        #[trigger] reaches(q, r, n) && i.len() > 0 && #[trigger] r.parses(i, Ok((t, rest)), after)
            implies rest.len() < i.len() by {
        assert(reaches(q, r, ((n + 1) - 1) as nat));
        assert(reaches(p, r, n + 1));
    }
}

/// Runs a parser a fixed number of times and folds its values into an
/// accumulator that a closure makes anew for each parse.
#[verifier::reject_recursive_types(T)]
#[verifier::reject_recursive_types(A)]
pub struct Repeat<'p, T, A, P: Parser<'p, Result = T>, I: FnMut() -> A, F: FnMut(A, T) -> A> {
    count: usize,
    parser: P,
    init: I,
    f: F,
    phantom: PhantomData<&'p ()>,
}

impl<'p, T, A, P: Parser<'p, Result = T>, I: FnMut() -> A, F: FnMut(A, T) -> A> Repeat<
    'p,
    T,
    A,
    P,
    I,
    F,
> {
    /// How many times the parser runs.
    pub closed spec fn count(&self) -> usize {
        self.count
    }

    /// The parser that is repeated.
    pub closed spec fn inner(&self) -> P {
        self.parser
    }

    /// The closure that makes the first accumulator.
    pub closed spec fn init(&self) -> I {
        self.init
    }

    /// The closure that folds a value into the accumulator.
    pub closed spec fn func(&self) -> F {
        self.f
    }

    pub(crate) fn new(parser: P, count: usize, init: I, f: F) -> (r: Self)
        ensures
            r.inner() == parser,
            r.count() == count,
            r.init() == init,
            r.func() == f,
    {
        Repeat { count, parser, init, f, phantom: PhantomData }
    }

    /// A parse of `input` that went through the states, inputs, values and
    /// accumulators of the steps it took and ended with `out` in the state
    /// `after`.
    pub open spec fn run_of(
        &self,
        input: Seq<u8>,
        out: Result<(A, Seq<u8>), P::Error>,
        after: Self,
        states: Seq<P>,
        inputs: Seq<Seq<u8>>,
        items: Seq<T>,
        accs: Seq<A>,
    ) -> bool {
        &&& steps(self.func(), states, inputs, items, accs)
        &&& states[0] == self.inner()
        &&& inputs[0] == input
        &&& call_ensures(self.init(), (), accs[0])
        &&& match out {
            Ok((a, rest)) => {
                &&& items.len() == self.count()
                &&& a == accs.last()
                &&& rest == inputs.last()
                &&& after.inner() == states.last()
            },
            Err(e) => {
                &&& items.len() < self.count()
                &&& states.last().parses(inputs.last(), Err(e), after.inner())
            },
        }
    }
}

impl<'p, T, A, P: Parser<'p, Result = T>, I: FnMut() -> A, F: FnMut(A, T) -> A> Parser<'p> for Repeat<
    'p,
    T,
    A,
    P,
    I,
    F,
> {
    type Result = A;
    type Error = P::Error;

    open spec fn well_formed(&self) -> bool {
        &&& self.inner().well_formed()
        &&& call_requires(self.init(), ())
        &&& forall|a: A, t: T| call_requires(self.func(), (a, t))
    }

    open spec fn productive(&self) -> bool {
        self.count() > 0 && self.inner().productive()
    }

    open spec fn parses(
        &self,
        input: Seq<u8>,
        out: Result<(A, Seq<u8>), P::Error>,
        after: Self,
    ) -> bool {
        &&& after.count() == self.count()
        &&& after.init() == self.init()
        &&& after.func() == self.func()
        &&& exists|states: Seq<P>, inputs: Seq<Seq<u8>>, items: Seq<T>, accs: Seq<A>|
            self.run_of(input, out, after, states, inputs, items, accs)
    }

    fn parse(&mut self, input: &'p [u8]) -> (res: Result<(A, &'p [u8]), P::Error>) {
        let ghost s0 = *self;
        let mut acc = (self.init)();
        let ghost mut states: Seq<P> = seq![self.parser];
        let ghost mut inputs: Seq<Seq<u8>> = seq![input@];
        let ghost mut items: Seq<T> = Seq::empty();
        let ghost mut accs: Seq<A> = seq![acc];
        let mut cur = input;
        let mut i: usize = 0;
        proof {
            lemma_suffix_refl(input@);
        }
        while i < self.count
            invariant
                *old(self) == s0,
                s0.well_formed(),
                self.count == s0.count,
                self.init == s0.init,
                self.f == s0.f,
                i <= self.count,
                self.parser.well_formed(),
                items.len() == i,
                states.last() == self.parser,
                inputs.last() == cur@,
                accs.last() == acc,
                states[0] == s0.inner(),
                inputs[0] == input@,
                call_ensures(s0.init(), (), accs[0]),
                steps(s0.func(), states, inputs, items, accs),
                is_suffix(cur@, input@),
                s0.inner().productive() ==> self.parser.productive(),
                s0.inner().productive() && input@.len() > 0 && i > 0 ==> cur@.len() < input@.len(),
            decreases s0.count - i,
        {
            let ghost p0 = self.parser;
            match run(&mut self.parser, cur) {
                Ok((t, r)) => {
                    assert(call_requires(s0.func(), (acc, t)));
                    let ghost acc0 = acc;
                    acc = (self.f)(acc, t);
                    proof {
                        lemma_steps_push(s0.func(), states, inputs, items, accs, self.parser, r@, t, acc);
                        states = states.push(self.parser);
                        inputs = inputs.push(r@);
                        items = items.push(t);
                        accs = accs.push(acc);
                        lemma_suffix_trans(r@, cur@, input@);
                    }
                    cur = r;
                    i = i + 1;
                },
                Err(e) => {
                    let res = Err(e);
                    proof {
                        let o = outcome::<A, P::Error>(res);
                        assert(states.last().parses(inputs.last(), Err(o->Err_0), self.parser));
                        assert(s0.run_of(input@, o, *self, states, inputs, items, accs));
                        assert(forall|a: A, t: T| call_requires(self.func(), (a, t)));
                    }
                    return res;
                },
            }
        }
        let res = Ok((acc, cur));
        proof {
            let o = outcome(res);
            assert(s0.run_of(input@, o, *self, states, inputs, items, accs));
            assert(forall|a: A, t: T| call_requires(self.func(), (a, t)));
        }
        res
    }
}

/// Runs a parser until the input is exhausted and folds its values into an
/// accumulator that a closure makes anew for each parse. The parser must read
/// at least one byte of every nonempty input on which it succeeds (it is
/// productive, or it advances), else the loop would not end.
#[verifier::reject_recursive_types(T)]
#[verifier::reject_recursive_types(A)]
pub struct RepeatUntilEof<'p, T, A, P: Parser<'p, Result = T>, I: FnMut() -> A, F: FnMut(A, T) -> A> {
    parser: P,
    init: I,
    f: F,
    phantom: PhantomData<&'p ()>,
}

impl<'p, T, A, P: Parser<'p, Result = T>, I: FnMut() -> A, F: FnMut(A, T) -> A> RepeatUntilEof<
    'p,
    T,
    A,
    P,
    I,
    F,
> {
    /// The parser that is repeated.
    pub closed spec fn inner(&self) -> P {
        self.parser
    }

    /// The closure that makes the first accumulator.
    pub closed spec fn init(&self) -> I {
        self.init
    }

    /// The closure that folds a value into the accumulator.
    pub closed spec fn func(&self) -> F {
        self.f
    }

    pub(crate) fn new(parser: P, init: I, f: F) -> (r: Self)
        ensures
            r.inner() == parser,
            r.init() == init,
            r.func() == f,
    {
        RepeatUntilEof { parser, init, f, phantom: PhantomData }
    }

    /// A parse of `input` that went through the states, inputs, values and
    /// accumulators of the steps it took and ended with `out` in the state
    /// `after`: every step began on a nonempty input, and the parse ends at
    /// the first empty input or the first failed step.
    pub open spec fn run_of(
        &self,
        input: Seq<u8>,
        out: Result<(A, Seq<u8>), P::Error>,
        after: Self,
        states: Seq<P>,
        inputs: Seq<Seq<u8>>,
        items: Seq<T>,
        accs: Seq<A>,
    ) -> bool {
        &&& steps(self.func(), states, inputs, items, accs)
        &&& forall|i: int| 0 <= i < items.len() ==> #[trigger] inputs[i].len() > 0
        &&& forall|i: int, j: int|
            #![trigger inputs[i], inputs[j]]
            0 <= i < j < inputs.len() ==> inputs[j].len() < inputs[i].len()
        &&& states[0] == self.inner()
        &&& inputs[0] == input
        &&& call_ensures(self.init(), (), accs[0])
        &&& match out {
            Ok((a, rest)) => {
                &&& inputs.last().len() == 0
                &&& a == accs.last()
                &&& rest == inputs.last()
                &&& after.inner() == states.last()
            },
            Err(e) => {
                &&& inputs.last().len() > 0
                &&& states.last().parses(inputs.last(), Err(e), after.inner())
            },
        }
    }
}

impl<'p, T, A, P: Parser<'p, Result = T>, I: FnMut() -> A, F: FnMut(A, T) -> A> Parser<'p> for RepeatUntilEof<
    'p,
    T,
    A,
    P,
    I,
    F,
> {
    type Result = A;
    type Error = P::Error;

    open spec fn well_formed(&self) -> bool {
        &&& self.inner().well_formed()
        &&& (self.inner().productive() || advances(self.inner()))
        &&& call_requires(self.init(), ())
        &&& forall|a: A, t: T| call_requires(self.func(), (a, t))
    }

    open spec fn productive(&self) -> bool {
        true
    }

    open spec fn parses(
        &self,
        input: Seq<u8>,
        out: Result<(A, Seq<u8>), P::Error>,
        after: Self,
    ) -> bool {
        &&& after.init() == self.init()
        &&& after.func() == self.func()
        &&& exists|states: Seq<P>, inputs: Seq<Seq<u8>>, items: Seq<T>, accs: Seq<A>|
            self.run_of(input, out, after, states, inputs, items, accs)
    }

    fn parse(&mut self, input: &'p [u8]) -> (res: Result<(A, &'p [u8]), P::Error>) {
        let ghost s0 = *self;
        let mut acc = (self.init)();
        let ghost mut states: Seq<P> = seq![self.parser];
        let ghost mut inputs: Seq<Seq<u8>> = seq![input@];
        let ghost mut items: Seq<T> = Seq::empty();
        let ghost mut accs: Seq<A> = seq![acc];
        let mut cur = input;
        proof {
            lemma_suffix_refl(input@);
        }
        while !cur.is_empty()
            invariant
                *old(self) == s0,
                s0.well_formed(),
                self.init == s0.init,
                self.f == s0.f,
                self.parser.well_formed(),
                s0.inner().productive() ==> self.parser.productive(),
                advances(s0.inner()) ==> advances(self.parser),
                states.last() == self.parser,
                inputs.last() == cur@,
                accs.last() == acc,
                states[0] == s0.inner(),
                inputs[0] == input@,
                call_ensures(s0.init(), (), accs[0]),
                steps(s0.func(), states, inputs, items, accs),
                forall|i: int| 0 <= i < items.len() ==> #[trigger] inputs[i].len() > 0,
                forall|i: int, j: int|
                    #![trigger inputs[i], inputs[j]]
                    0 <= i < j < inputs.len() ==> inputs[j].len() < inputs[i].len(),
                is_suffix(cur@, input@),
            decreases cur@.len(),
        {
            let ghost p0 = self.parser;
            let step = run(&mut self.parser, cur);
            proof {
                if advances(p0) {
                    lemma_advances_after(p0, cur@, outcome(step), self.parser);
                }
            }
            match step {
                Ok((t, r)) => {
                    proof {
                        if !p0.productive() {
                            lemma_advances_reads(p0, cur@, t, r@, self.parser);
                        }
                    }
                    assert(call_requires(s0.func(), (acc, t)));
                    acc = (self.f)(acc, t);
                    proof {
                        assert(r@.len() < cur@.len());
                        lemma_steps_push(s0.func(), states, inputs, items, accs, self.parser, r@, t, acc);
                        let old_inputs = inputs;
                        states = states.push(self.parser);
                        inputs = inputs.push(r@);
                        items = items.push(t);
                        accs = accs.push(acc);
                        assert forall|i: int| 0 <= i < items.len() implies #[trigger] inputs[i].len() > 0 by {
                            if i < items.len() - 1 {
                                assert(inputs[i] == old_inputs[i]);
                            }
                        }
                        assert forall|i: int, j: int|
                            #![trigger inputs[i], inputs[j]]
                            0 <= i < j < inputs.len() implies inputs[j].len() < inputs[i].len() by {
                            let n = old_inputs.len() - 1;
                            assert(old_inputs[n] == cur@);
                            if j <= n {
                                assert(inputs[i] == old_inputs[i]);
                                assert(inputs[j] == old_inputs[j]);
                            } else {
                                assert(inputs[j] == r@);
                                assert(inputs[i] == old_inputs[i]);
                                if i < n {
                                    assert(old_inputs[n].len() < old_inputs[i].len());
                                }
                            }
                        }
                        lemma_suffix_trans(r@, cur@, input@);
                    }
                    cur = r;
                },
                Err(e) => {
                    let res = Err(e);
                    proof {
                        let o = outcome::<A, P::Error>(res);
                        assert(states.last().parses(inputs.last(), Err(o->Err_0), self.parser));
                        assert(s0.run_of(input@, o, *self, states, inputs, items, accs));
                        assert(forall|a: A, t: T| call_requires(self.func(), (a, t)));
                    }
                    return res;
                },
            }
        }
        let res = Ok((acc, cur));
        proof {
            let o = outcome(res);
            assert(s0.run_of(input@, o, *self, states, inputs, items, accs));
            assert(forall|a: A, t: T| call_requires(self.func(), (a, t)));
        }
        res
    }
}

} // verus!
