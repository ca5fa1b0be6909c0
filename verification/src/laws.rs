//! Properties that relate the parsers of this crate to each other.
use crate::bytes::{be_value, le_value, signed};
use crate::combinators::{And, AndThen, MapErr, MapParser, MapRes, Mapped, Peek};
use crate::parser::Parser;
use crate::either::Either;
use crate::error::{TagError, UnexpectedEof};
use crate::primitives::{tag_outcome, Consume, Eof, Error, Tag, Take};
use crate::repeat::{advances, Repeat, RepeatUntilEof};
use vstd::prelude::*;

verus! {

/// `p.and(q)` parses exactly as the pair `(p, q)` does: the same outcomes,
/// with the same states of the two parsers afterwards.
pub proof fn lemma_and_is_pair<'p, T, U, E, P: Parser<'p, Result = T, Error = E>, Q: Parser<
    'p,
    Result = U,
    Error = E,
>>(
    a: And<'p, T, U, E, P, Q>,
    input: Seq<u8>,
    out: Result<((T, U), Seq<u8>), E>,
    after: And<'p, T, U, E, P, Q>,
)
    ensures
        a.parses(input, out, after) <==> (a.first(), a.second()).parses(
            input,
            out,
            (after.first(), after.second()),
        ),
{
    let pair = (a.first(), a.second());
    let pafter = (after.first(), after.second());
    match out {
        Ok((v, rest)) => {
            if a.parses(input, out, after) {
                let m = choose|m: Seq<u8>|
                    a.first().parses(input, Ok((v.0, m)), after.first()) && a.second().parses(
                        m,
                        Ok((v.1, rest)),
                        after.second(),
                    );
                assert((pair.1,).parses(m, Ok(((v.1,), rest)), (pafter.1,)));
                assert(pair.0.parses(input, Ok((v.0, m)), pafter.0));
            }
            if pair.parses(input, out, pafter) {
                let m = choose|m: Seq<u8>|
                    pair.0.parses(input, Ok((v.0, m)), pafter.0) && (pair.1,).parses(
                        m,
                        Ok(((v.1,), rest)),
                        (pafter.1,),
                    );
                assert(a.second().parses(m, Ok((v.1, rest)), after.second()));
            }
        },
        Err(e) => {
            if a.parses(input, out, after) {
                if !(a.first().parses(input, Err(e), after.first()) && after.second()
                    == a.second()) {
                    let (t, m) = choose|t: T, m: Seq<u8>|
                        a.first().parses(input, Ok((t, m)), after.first()) && a.second().parses(
                            m,
                            Err(e),
                            after.second(),
                        );
                    assert((pair.1,).parses(m, Err(e), (pafter.1,)));
                    assert(pair.0.parses(input, Ok((t, m)), pafter.0));
                }
            }
            if pair.parses(input, out, pafter) {
                if !(pair.0.parses(input, Err(e), pafter.0) && (pafter.1,) == (pair.1,)) {
                    let (t, m) = choose|t: T, m: Seq<u8>|
                        pair.0.parses(input, Ok((t, m)), pafter.0) && (pair.1,).parses(
                            m,
                            Err(e),
                            (pafter.1,),
                        );
                    assert(a.second().parses(m, Err(e), after.second()));
                    assert(a.first().parses(input, Ok((t, m)), after.first()));
                }
            }
        },
    }
}

/// Reading bytes big-endian gives the number that reading them in reverse
/// order little-endian gives.
pub proof fn lemma_be_is_reversed_le(s: Seq<u8>)
    ensures
        be_value(s) == le_value(s.reverse()),
    decreases s.len(),
{
    if s.len() > 0 {
        lemma_be_is_reversed_le(s.drop_last());
        assert(s.reverse().drop_first() =~= s.drop_last().reverse());
    } else {
        assert(s.reverse() =~= s);
    }
}

/// The signed reading of a number of a width lies in the signed range of that
/// width and has the same bits: adding the modulus and reducing gives the
/// number back.
pub proof fn lemma_signed_same_bits(v: int, modulus: int)
    requires
        modulus > 0,
        modulus % 2 == 0,
        0 <= v < modulus,
    ensures
        -(modulus / 2) <= signed(v, modulus) < modulus / 2,
        (signed(v, modulus) + modulus) % modulus == v,
{
    if v >= modulus / 2 {
        assert(v - modulus + modulus == v);
        vstd::arithmetic::div_mod::lemma_small_mod(v as nat, modulus as nat);
    } else {
        vstd::arithmetic::div_mod::lemma_mod_add_multiples_vanish(v, modulus);
        vstd::arithmetic::div_mod::lemma_small_mod(v as nat, modulus as nat);
    }
}

/// What `take(n)` reads, followed by what it leaves, is its input, and it
/// reads exactly `n` bytes.
pub proof fn lemma_take_splits<'p>(
    t: Take,
    input: Seq<u8>,
    v: &'p [u8],
    rest: Seq<u8>,
    after: Take,
)
    requires
        <Take as Parser<'p>>::parses(&t, input, Ok((v, rest)), after),
    ensures
        v@ + rest == input,
        v@.len() == t.count(),
{
    assert(v@ + rest =~= input);
}

/// `consume()` never fails, reads its whole input and leaves nothing.
pub proof fn lemma_consume_reads_all<'p>(
    c: Consume,
    input: Seq<u8>,
    out: Result<(&'p [u8], Seq<u8>), core::convert::Infallible>,
    after: Consume,
)
    requires
        <Consume as Parser<'p>>::parses(&c, input, out, after),
    ensures
        out matches Ok((v, rest)) && v@ == input && rest.len() == 0,
{
}

/// A tag parser succeeds exactly when the input starts with its tag, and then
/// the tag followed by what it leaves is the input.
pub proof fn lemma_tag_splits(tag: Seq<u8>, input: Seq<u8>)
    ensures
        tag_outcome(tag, input) is Ok <==> (tag.len() <= input.len() && input.take(
            tag.len() as int,
        ) == tag),
        tag_outcome(tag, input) matches Ok((_, rest)) ==> tag + rest == input,
{
    if tag_outcome(tag, input) is Ok {
        assert(tag + input.skip(tag.len() as int) =~= input);
    }
}

/// `eof()` succeeds exactly on the empty input, and then leaves it.
pub proof fn lemma_eof_only_at_end<'p>(
    p: Eof,
    input: Seq<u8>,
    out: Result<((), Seq<u8>), crate::error::ExpectedEof>,
    after: Eof,
)
    requires
        <Eof as Parser<'p>>::parses(&p, input, out, after),
    ensures
        out is Ok <==> input.len() == 0,
        out matches Ok((_, rest)) ==> rest == input,
{
}

/// A peeking parser succeeds with what the parser it holds reads, and leaves
/// the input as it was.
pub proof fn lemma_peek_keeps_input<'p, P: Parser<'p>>(
    p: Peek<'p, P>,
    input: Seq<u8>,
    v: P::Result,
    rest: Seq<u8>,
    after: Peek<'p, P>,
)
    requires
        p.parses(input, Ok((v, rest)), after),
    ensures
        rest == input,
        exists|r: Seq<u8>| p.inner().parses(input, Ok((v, r)), after.inner()),
{
}

/// A mapped parser fails exactly with the errors of the parser it maps, and
/// on success leaves what that parser left.
pub proof fn lemma_map_keeps_rest<'p, T, U, P: Parser<'p, Result = T>, F: FnMut(T) -> U>(
    m: Mapped<'p, T, U, P, F>,
    input: Seq<u8>,
    out: Result<(U, Seq<u8>), P::Error>,
    after: Mapped<'p, T, U, P, F>,
)
    requires
        m.parses(input, out, after),
    ensures
        out matches Err(e) ==> m.inner().parses(input, Err(e), after.inner()),
        out matches Ok((u, rest)) ==> exists|t: T|
            m.inner().parses(input, Ok((t, rest)), after.inner()),
{
}

/// Repeating a parser zero times reads nothing and succeeds with the
/// accumulator that the initial closure makes.
pub proof fn lemma_repeat_zero<'p, T, A, P: Parser<'p, Result = T>, I: FnMut() -> A, F: FnMut(
    A,
    T,
) -> A>(
    r: Repeat<'p, T, A, P, I, F>,
    input: Seq<u8>,
    out: Result<(A, Seq<u8>), P::Error>,
    after: Repeat<'p, T, A, P, I, F>,
)
    requires
        r.count() == 0,
        r.parses(input, out, after),
    ensures
        out matches Ok((a, rest)) && rest == input && call_ensures(r.init(), (), a),
        after.inner() == r.inner(),
{
    let (states, inputs, items, accs) = choose|
        states: Seq<P>,
        inputs: Seq<Seq<u8>>,
        items: Seq<T>,
        accs: Seq<A>,
    | r.run_of(input, out, after, states, inputs, items, accs);
    assert(items.len() == 0);
}

/// A parser repeated until the end of the input, when it succeeds, has read
/// the whole input.
pub proof fn lemma_repeat_until_eof_reads_all<'p, T, A, P: Parser<'p, Result = T>, I: FnMut() -> A, F: FnMut(
    A,
    T,
) -> A>(
    r: RepeatUntilEof<'p, T, A, P, I, F>,
    input: Seq<u8>,
    a: A,
    rest: Seq<u8>,
    after: RepeatUntilEof<'p, T, A, P, I, F>,
)
    requires
        r.parses(input, Ok((a, rest)), after),
    ensures
        rest.len() == 0,
{
    let (states, inputs, items, accs) = choose|
        states: Seq<P>,
        inputs: Seq<Seq<u8>>,
        items: Seq<T>,
        accs: Seq<A>,
    | r.run_of(input, Ok((a, rest)), after, states, inputs, items, accs);
}

/// A mapped parser may run when the parser it maps may run and its closure
/// accepts every value.
pub proof fn lemma_mapped_well_formed<'p, T, U, P: Parser<'p, Result = T>, F: FnMut(T) -> U>(
    m: Mapped<'p, T, U, P, F>,
)
    requires
        m.inner().well_formed(),
        forall|t: T| call_requires(m.func(), (t,)),
    ensures
        m.well_formed(),
{
}

/// A parser mapped with a closure that may fail may run when the parser it
/// maps may run and its closure accepts every value.
pub proof fn lemma_map_res_well_formed<'p, T, U, P: Parser<'p, Result = T>, F: FnMut(T) -> Result<
    U,
    P::Error,
>>(m: MapRes<'p, T, U, P, F>)
    requires
        m.inner().well_formed(),
        forall|t: T| call_requires(m.func(), (t,)),
    ensures
        m.well_formed(),
{
}

/// A parser with mapped errors may run when the parser it holds may run and
/// its closure accepts every error.
pub proof fn lemma_map_err_well_formed<'p, E, X, P: Parser<'p, Error = E>, F: FnMut(E) -> X>(
    m: MapErr<'p, E, X, P, F>,
)
    requires
        m.inner().well_formed(),
        forall|e: E| call_requires(m.func(), (e,)),
    ensures
        m.well_formed(),
{
}

/// `p.and_then(f)` may run when `p` may run, `f` accepts every value, and
/// every parser that `f` makes may run.
pub proof fn lemma_and_then_well_formed<
    'p,
    T,
    U,
    E,
    P: Parser<'p, Result = T, Error = E>,
    Q: Parser<'p, Result = U, Error = E>,
    F: FnMut(T) -> Q,
>(a: AndThen<'p, T, U, E, P, Q, F>)
    requires
        a.inner().well_formed(),
        forall|t: T| call_requires(a.func(), (t,)),
        forall|t: T, q: Q| call_ensures(a.func(), (t,), q) ==> q.well_formed(),
    ensures
        a.well_formed(),
{
}

/// `p.map_parser(f, q)` may run when `p` and `q` may run and `f` accepts
/// every value.
pub proof fn lemma_map_parser_well_formed<
    'p,
    'q,
    T,
    U,
    E,
    P: Parser<'p, Result = T, Error = E>,
    F: FnMut(T) -> &'q [u8],
    Q: Parser<'q, Result = U, Error = E>,
>(m: MapParser<'p, 'q, T, U, E, P, F, Q>)
    requires
        m.inner().well_formed(),
        m.next().well_formed(),
        forall|t: T| call_requires(m.func(), (t,)),
    ensures
        m.well_formed(),
{
}

/// A repeated parser may run when the parser it repeats may run, the initial
/// closure may be called, and the folding closure accepts every argument.
pub proof fn lemma_repeat_well_formed<'p, T, A, P: Parser<'p, Result = T>, I: FnMut() -> A, F: FnMut(
    A,
    T,
) -> A>(r: Repeat<'p, T, A, P, I, F>)
    requires
        r.inner().well_formed(),
        call_requires(r.init(), ()),
        forall|a: A, t: T| call_requires(r.func(), (a, t)),
    ensures
        r.well_formed(),
{
}

/// A parser repeated until the end of the input may run when the parser it
/// repeats may run and is productive or advances, the initial closure may be
/// called, and the folding closure accepts every argument.
pub proof fn lemma_repeat_until_eof_well_formed<'p, T, A, P: Parser<'p, Result = T>, I: FnMut() -> A, F: FnMut(
    A,
    T,
) -> A>(r: RepeatUntilEof<'p, T, A, P, I, F>)
    requires
        r.inner().well_formed(),
        r.inner().productive() || advances(r.inner()),
        call_requires(r.init(), ()),
        forall|a: A, t: T| call_requires(r.func(), (a, t)),
    ensures
        r.well_formed(),
{
}

/// `error(f)` may run when `f` may be called.
pub proof fn lemma_error_well_formed<'p, E, F: FnMut() -> E>(p: Error<E, F>)
    requires
        call_requires(p.func(), ()),
    ensures
        <Error<E, F> as Parser<'p>>::well_formed(&p),
{
}

/// `p.repeat(n, init, f)` succeeds exactly when `n` runs of `p`, each on what
/// the one before left, succeed; its value is then `init()` folded with `f`
/// over their values, in order, and it leaves what the last run left. When it
/// fails, its error is that of the first failing run, after fewer than `n`
/// successful ones.
pub proof fn lemma_repeat_folds<'p, T, A, P: Parser<'p, Result = T>, I: FnMut() -> A, F: FnMut(
    A,
    T,
) -> A>(
    r: Repeat<'p, T, A, P, I, F>,
    input: Seq<u8>,
    out: Result<(A, Seq<u8>), P::Error>,
    after: Repeat<'p, T, A, P, I, F>,
)
    requires
        r.parses(input, out, after),
    ensures
        exists|states: Seq<P>, inputs: Seq<Seq<u8>>, items: Seq<T>, accs: Seq<A>|
            {
                &&& states[0] == r.inner()
                &&& inputs[0] == input
                &&& call_ensures(r.init(), (), accs[0])
                &&& states.len() == items.len() + 1
                &&& inputs.len() == items.len() + 1
                &&& accs.len() == items.len() + 1
                &&& forall|i: int|
                    #![trigger items[i]]
                    0 <= i < items.len() ==> {
                        &&& states[i].parses(inputs[i], Ok((items[i], inputs[i + 1])), states[i + 1])
                        &&& call_ensures(r.func(), (accs[i], items[i]), accs[i + 1])
                    }
                &&& match out {
                    Ok((a, rest)) => {
                        &&& items.len() == r.count()
                        &&& a == accs.last()
                        &&& rest == inputs.last()
                        &&& after.inner() == states.last()
                    },
                    Err(e) => {
                        &&& items.len() < r.count()
                        &&& states.last().parses(inputs.last(), Err(e), after.inner())
                    },
                }
            },
{
    let (states, inputs, items, accs) = choose|
        states: Seq<P>,
        inputs: Seq<Seq<u8>>,
        items: Seq<T>,
        accs: Seq<A>,
    | r.run_of(input, out, after, states, inputs, items, accs);
    assert(r.run_of(input, out, after, states, inputs, items, accs));
}

/// `p.repeat_until_eof(init, f)` succeeds exactly when runs of `p`, each on
/// the nonempty rest that the one before left, reach the end of the input;
/// its value is then `init()` folded with `f` over their values, in order.
/// When it fails, its error is that of the first failing run, which was
/// given a nonempty input. Every run reads at least one byte, so there are at
/// most `input.len()` runs.
pub proof fn lemma_repeat_until_eof_folds<'p, T, A, P: Parser<'p, Result = T>, I: FnMut() -> A, F: FnMut(
    A,
    T,
) -> A>(
    r: RepeatUntilEof<'p, T, A, P, I, F>,
    input: Seq<u8>,
    out: Result<(A, Seq<u8>), P::Error>,
    after: RepeatUntilEof<'p, T, A, P, I, F>,
)
    requires
        r.parses(input, out, after),
    ensures
        exists|states: Seq<P>, inputs: Seq<Seq<u8>>, items: Seq<T>, accs: Seq<A>|
            {
                &&& states[0] == r.inner()
                &&& inputs[0] == input
                &&& call_ensures(r.init(), (), accs[0])
                &&& states.len() == items.len() + 1
                &&& inputs.len() == items.len() + 1
                &&& accs.len() == items.len() + 1
                &&& forall|i: int|
                    #![trigger items[i]]
                    0 <= i < items.len() ==> {
                        &&& states[i].parses(inputs[i], Ok((items[i], inputs[i + 1])), states[i + 1])
                        &&& call_ensures(r.func(), (accs[i], items[i]), accs[i + 1])
                    }
                &&& items.len() <= input.len()
                &&& forall|i: int| 0 <= i < items.len() ==> #[trigger] inputs[i].len() > 0
                &&& match out {
                    Ok((a, rest)) => {
                        &&& rest.len() == 0
                        &&& a == accs.last()
                        &&& rest == inputs.last()
                        &&& after.inner() == states.last()
                    },
                    Err(e) => {
                        &&& inputs.last().len() > 0
                        &&& states.last().parses(inputs.last(), Err(e), after.inner())
                    },
                }
            },
{
    let (states, inputs, items, accs) = choose|
        states: Seq<P>,
        inputs: Seq<Seq<u8>>,
        items: Seq<T>,
        accs: Seq<A>,
    | r.run_of(input, out, after, states, inputs, items, accs);
    assert(r.run_of(input, out, after, states, inputs, items, accs));
    lemma_shrinking_bound(inputs);
}

/// Along a sequence of inputs whose lengths strictly decrease, the last input
/// is shorter than the first by at least the number of steps between them, so
/// there are no more steps than the first input has bytes.
pub proof fn lemma_shrinking_bound(inputs: Seq<Seq<u8>>)
    requires
        inputs.len() > 0,
        forall|i: int, j: int|
            #![trigger inputs[i], inputs[j]]
            0 <= i < j < inputs.len() ==> inputs[j].len() < inputs[i].len(),
    ensures
        inputs.last().len() + (inputs.len() - 1) <= inputs[0].len(),
        inputs.len() - 1 <= inputs[0].len(),
    decreases inputs.len(),
{
    if inputs.len() > 1 {
        let front = inputs.drop_last();
        assert forall|i: int, j: int|
            #![trigger front[i], front[j]]
            0 <= i < j < front.len() implies front[j].len() < front[i].len() by {
            assert(inputs[i] == front[i] && inputs[j] == front[j]);
        }
        lemma_shrinking_bound(front);
        let n = inputs.len() - 1;
        assert(inputs[n].len() < inputs[n - 1].len());
        assert(front[0] == inputs[0] && front.last() == inputs[n - 1]);
    }
}


/// `take(n)` fails, with `UnexpectedEof`, exactly when the input has fewer
/// than `n` bytes; on every other input it reads the first `n` bytes and
/// leaves the others. The parser reads `n` bytes again the next time.
pub proof fn lemma_take_reads_exactly<'p>(
    t: Take,
    input: Seq<u8>,
    out: Result<(&'p [u8], Seq<u8>), UnexpectedEof>,
    after: Take,
)
    requires
        <Take as Parser<'p>>::parses(&t, input, out, after),
    ensures
        after.count() == t.count(),
        input.len() < t.count() ==> out == Err::<(&'p [u8], Seq<u8>), UnexpectedEof>(UnexpectedEof),
        input.len() >= t.count() ==> (out matches Ok((v, rest)) && v@.len() == t.count() && (forall|
            i: int,
        | 0 <= i < t.count() ==> v@[i] == input[i]) && rest =~= input.subrange(
            t.count() as int,
            input.len() as int,
        )),
{
}

/// A tag parser succeeds exactly when the input begins with its bytes, and
/// then leaves what follows them. It fails with `UnexpectedEof` when the
/// input is shorter than the tag, and otherwise with `TagMismatch`.
pub proof fn lemma_tag_matches_prefix<'p, 'a>(
    t: Tag<'a>,
    input: Seq<u8>,
    out: Result<((), Seq<u8>), TagError>,
    after: Tag<'a>,
)
    requires
        <Tag<'a> as Parser<'p>>::parses(&t, input, out, after),
    ensures
        after.bytes() == t.bytes(),
        out is Ok <==> (t.bytes().len() <= input.len() && forall|i: int|
            0 <= i < t.bytes().len() ==> input[i] == t.bytes()[i]),
        out matches Ok((_, rest)) ==> t.bytes() + rest =~= input,
        out matches Err(e) ==> (e is UnexpectedEof <==> input.len() < t.bytes().len()),
{
    let n = t.bytes().len();
    if n <= input.len() {
        if forall|i: int| 0 <= i < n ==> input[i] == t.bytes()[i] {
            assert(input.take(n as int) =~= t.bytes());
        } else {
            let i = choose|i: int| 0 <= i < n && input[i] != t.bytes()[i];
            assert(input.take(n as int)[i] == input[i]);
        }
    }
    if out is Ok {
        assert(t.bytes() + input.skip(n as int) =~= input);
        assert forall|i: int| 0 <= i < n implies input[i] == t.bytes()[i] by {
            assert(input.take(n as int)[i] == input[i]);
        }
    }
}

/// `error(f)` fails on every input, with an error that `f` makes.
pub proof fn lemma_error_always_fails<'p, E, F: FnMut() -> E>(
    p: Error<E, F>,
    input: Seq<u8>,
    out: Result<(core::convert::Infallible, Seq<u8>), E>,
    after: Error<E, F>,
)
    requires
        <Error<E, F> as Parser<'p>>::parses(&p, input, out, after),
    ensures
        out matches Err(e) && call_ensures(p.func(), (), e),
        after.func() == p.func(),
{
}

/// `p.peek()` succeeds exactly when `p` succeeds, with the same value, and
/// leaves the whole input unread; it fails exactly when `p` fails, with the
/// same error. Either way `p` ends in the state that its own parse left.
pub proof fn lemma_peek_looks_ahead<'p, P: Parser<'p>>(
    p: Peek<'p, P>,
    input: Seq<u8>,
    out: Result<(P::Result, Seq<u8>), P::Error>,
    after: Peek<'p, P>,
)
    ensures
        p.parses(input, out, after) <==> match out {
            Ok((v, rest)) => rest == input && exists|r: Seq<u8>|
                p.inner().parses(input, Ok((v, r)), after.inner()),
            Err(e) => p.inner().parses(input, Err(e), after.inner()),
        },
{
}

/// `p.map(f)` succeeds exactly when `p` succeeds, with `f` applied to the
/// value of `p` and with the rest that `p` left; it fails exactly when `p`
/// fails, with the same error.
pub proof fn lemma_map_applies<'p, T, U, P: Parser<'p, Result = T>, F: FnMut(T) -> U>(
    m: Mapped<'p, T, U, P, F>,
    input: Seq<u8>,
    out: Result<(U, Seq<u8>), P::Error>,
    after: Mapped<'p, T, U, P, F>,
)
    ensures
        m.parses(input, out, after) <==> after.func() == m.func() && match out {
            Ok((u, rest)) => exists|t: T|
                m.inner().parses(input, Ok((t, rest)), after.inner()) && call_ensures(m.func(), (t,), u),
            Err(e) => m.inner().parses(input, Err(e), after.inner()),
        },
{
}

/// `p.map_res(f)` succeeds exactly when `p` succeeds with a value that `f`
/// turns into `Ok(u)`, with `u` and the rest that `p` left. It fails with `e`
/// exactly when `p` fails with `e`, or `p` succeeds and `f` turns its value
/// into `Err(e)`.
pub proof fn lemma_map_res_applies<'p, T, U, P: Parser<'p, Result = T>, F: FnMut(T) -> Result<
    U,
    P::Error,
>>(
    m: MapRes<'p, T, U, P, F>,
    input: Seq<u8>,
    out: Result<(U, Seq<u8>), P::Error>,
    after: MapRes<'p, T, U, P, F>,
)
    ensures
        m.parses(input, out, after) <==> after.func() == m.func() && match out {
            Ok((u, rest)) => exists|t: T|
                m.inner().parses(input, Ok((t, rest)), after.inner()) && call_ensures(
                    m.func(),
                    (t,),
                    Ok::<U, P::Error>(u),
                ),
            Err(e) => m.inner().parses(input, Err(e), after.inner()) || exists|t: T, r: Seq<u8>|
                m.inner().parses(input, Ok((t, r)), after.inner()) && call_ensures(
                    m.func(),
                    (t,),
                    Err::<U, P::Error>(e),
                ),
        },
{
}

/// `p.map_err(f)` succeeds exactly when `p` succeeds on the same input, with
/// the same value and rest; it fails with `x` exactly when `p` fails with an
/// error `e` that `f` turns into `x`.
pub proof fn lemma_map_err_applies<'p, E, X, P: Parser<'p, Error = E>, F: FnMut(E) -> X>(
    m: MapErr<'p, E, X, P, F>,
    input: Seq<u8>,
    out: Result<(P::Result, Seq<u8>), X>,
    after: MapErr<'p, E, X, P, F>,
)
    ensures
        m.parses(input, out, after) <==> after.func() == m.func() && match out {
            Ok((t, rest)) => m.inner().parses(input, Ok((t, rest)), after.inner()),
            Err(x) => exists|e: E|
                m.inner().parses(input, Err(e), after.inner()) && call_ensures(m.func(), (e,), x),
        },
{
}

/// `p.and(q)` succeeds exactly when `p` reads a value from the input and `q`
/// reads a value from what `p` left; its value is the pair of the two and it
/// leaves what `q` left. It fails when `p` fails (and `q` does not run) or
/// when `q` fails on what `p` left.
pub proof fn lemma_and_runs_in_order<'p, T, U, E, P: Parser<'p, Result = T, Error = E>, Q: Parser<
    'p,
    Result = U,
    Error = E,
>>(
    a: And<'p, T, U, E, P, Q>,
    input: Seq<u8>,
    out: Result<((T, U), Seq<u8>), E>,
    after: And<'p, T, U, E, P, Q>,
)
    ensures
        a.parses(input, out, after) <==> match out {
            Ok((v, rest)) => exists|m: Seq<u8>|
                a.first().parses(input, Ok((v.0, m)), after.first()) && a.second().parses(
                    m,
                    Ok((v.1, rest)),
                    after.second(),
                ),
            Err(e) => {
                ||| a.first().parses(input, Err(e), after.first()) && after.second() == a.second()
                ||| exists|t: T, m: Seq<u8>|
                    a.first().parses(input, Ok((t, m)), after.first()) && a.second().parses(
                        m,
                        Err(e),
                        after.second(),
                    )
            },
        },
{
}

/// `p.and_then(f)` succeeds with `u` leaving `rest` exactly when `p` reads a
/// value `t` leaving `m` and the parser that `f` makes from `t` reads `u`
/// from `m` leaving `rest`. It fails when `p` fails, or when that parser
/// fails on `m`, with that error.
pub proof fn lemma_and_then_chains<
    'p,
    T,
    U,
    E,
    P: Parser<'p, Result = T, Error = E>,
    Q: Parser<'p, Result = U, Error = E>,
    F: FnMut(T) -> Q,
>(
    a: AndThen<'p, T, U, E, P, Q, F>,
    input: Seq<u8>,
    out: Result<(U, Seq<u8>), E>,
    after: AndThen<'p, T, U, E, P, Q, F>,
)
    ensures
        a.parses(input, out, after) <==> after.func() == a.func() && match out {
            Ok((u, rest)) => exists|t: T, m: Seq<u8>, q: Q, q2: Q|
                {
                    &&& a.inner().parses(input, Ok((t, m)), after.inner())
                    &&& call_ensures(a.func(), (t,), q)
                    &&& q.parses(m, Ok((u, rest)), q2)
                },
            Err(e) => {
                ||| a.inner().parses(input, Err(e), after.inner())
                ||| exists|t: T, m: Seq<u8>, q: Q, q2: Q|
                    {
                        &&& a.inner().parses(input, Ok((t, m)), after.inner())
                        &&& call_ensures(a.func(), (t,), q)
                        &&& q.parses(m, Err(e), q2)
                    }
            },
        },
{
}

/// `p.map_parser(f, q)` succeeds exactly when `p` reads a value `t` leaving
/// `rest`, and `q` reads a value `u` from the bytes that `f` makes from `t`;
/// its value is `u` and it leaves `rest`, what `p` left. It fails when `p`
/// fails, or when `q` fails on those bytes, with that error.
pub proof fn lemma_map_parser_reads_made_bytes<
    'p,
    'q,
    T,
    U,
    E,
    P: Parser<'p, Result = T, Error = E>,
    F: FnMut(T) -> &'q [u8],
    Q: Parser<'q, Result = U, Error = E>,
>(
    m: MapParser<'p, 'q, T, U, E, P, F, Q>,
    input: Seq<u8>,
    out: Result<(U, Seq<u8>), E>,
    after: MapParser<'p, 'q, T, U, E, P, F, Q>,
)
    ensures
        m.parses(input, out, after) <==> after.func() == m.func() && match out {
            Ok((u, rest)) => exists|t: T, b: &'q [u8], r: Seq<u8>|
                {
                    &&& m.inner().parses(input, Ok((t, rest)), after.inner())
                    &&& call_ensures(m.func(), (t,), b)
                    &&& m.next().parses(b@, Ok((u, r)), after.next())
                },
            Err(e) => {
                ||| m.inner().parses(input, Err(e), after.inner()) && after.next() == m.next()
                ||| exists|t: T, r: Seq<u8>, b: &'q [u8]|
                    {
                        &&& m.inner().parses(input, Ok((t, r)), after.inner())
                        &&& call_ensures(m.func(), (t,), b)
                        &&& m.next().parses(b@, Err(e), after.next())
                    }
            },
        },
{
}

/// An `Either` parser runs the parser it holds and nothing else: it succeeds
/// exactly when that parser succeeds, with the value on the same side and the
/// same rest, and fails exactly when it fails, with the same error. It stays
/// on its side.
pub proof fn lemma_either_runs_its_side<'p, E, P: Parser<'p, Error = E>, Q: Parser<'p, Error = E>>(
    x: Either<Q, P>,
    input: Seq<u8>,
    out: Result<(Either<Q::Result, P::Result>, Seq<u8>), E>,
    after: Either<Q, P>,
)
    ensures
        x.parses(input, out, after) <==> match (x, after) {
            (Either::Left(q), Either::Left(q2)) => match out {
                Ok((v, rest)) => exists|w: Q::Result|
                    v == Either::<Q::Result, P::Result>::Left(w) && q.parses(input, Ok((w, rest)), q2),
                Err(e) => q.parses(input, Err(e), q2),
            },
            (Either::Right(p), Either::Right(p2)) => match out {
                Ok((v, rest)) => exists|w: P::Result|
                    v == Either::<Q::Result, P::Result>::Right(w) && p.parses(input, Ok((w, rest)), p2),
                Err(e) => p.parses(input, Err(e), p2),
            },
            _ => false,
        },
{
}

} // verus!
