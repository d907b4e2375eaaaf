use vstd::prelude::*;

use core::marker::PhantomData;

use crate::error::Error;
use crate::parser::Just;
use crate::span::Span;
use crate::{
    is_suffix, lemma_suffix_refl, lemma_suffix_trans, result_view, Func, Input, PResult, Parser,
    SeqParser, SpecResult,
};

verus! {

/// Ordered choice: `first`, or where it fails `second` from the same position.
pub struct Or<A, B> {
    pub first: A,
    pub second: B,
}

impl<
    I: Input + Copy,
    O: DeepView,
    S: Span + Copy,
    E: Error<I, S>,
    A: Parser<I, O, S, E>,
    B: Parser<I, O, S, E>,
> Parser<I, O, S, E> for Or<A, B> {
    open spec fn spec_parse(&self, input: Seq<(I, S)>) -> SpecResult<I, O::V, S, E::V> {
        match self.first.spec_parse(input) {
            Ok(v) => Ok(v),
            Err(e1) => match self.second.spec_parse(input) {
                Ok(v) => Ok(v),
                Err(e2) => Err(E::spec_merge(e1, e2)),
            },
        }
    }

    fn parse<'a>(&self, input: &'a [(I, S)]) -> (r: PResult<'a, I, O, S, E>) {
        match self.first.parse(input) {
            Ok(v) => Ok(v),
            Err(e1) => match self.second.parse(input) {
                Ok(v) => Ok(v),
                Err(e2) => Err(e1.merge(e2)),
            },
        }
    }
}

/// Sequencing: `first`, then `second` on what it left. A failure of either
/// is the failure of the whole.
pub struct Then<A, B> {
    pub first: A,
    pub second: B,
}

impl<
    I: Input + Copy,
    O: DeepView,
    O1: DeepView,
    S: Span + Copy,
    E: Error<I, S>,
    A: Parser<I, O, S, E>,
    B: Parser<I, O1, S, E>,
> Parser<I, (O, O1), S, E> for Then<A, B> {
    open spec fn spec_parse(&self, input: Seq<(I, S)>) -> SpecResult<I, (O::V, O1::V), S, E::V> {
        match self.first.spec_parse(input) {
            Err(e) => Err(e),
            Ok((rest, (o, s))) => match self.second.spec_parse(rest) {
                Err(e) => Err(e),
                Ok((rest2, (o1, s1))) => Ok((rest2, ((o, o1), s.spec_merge(s1)))),
            },
        }
    }

    fn parse<'a>(&self, input: &'a [(I, S)]) -> (r: PResult<'a, I, (O, O1), S, E>) {
        match self.first.parse(input) {
            Err(e) => Err(e),
            Ok((rest, (o, s))) => match self.second.parse(rest) {
                Err(e) => Err(e),
                Ok((rest2, (o1, s1))) => {
                    proof {
                        lemma_suffix_trans(input@, rest@, rest2@);
                    }
                    Ok((rest2, ((o, o1), s.merge(s1))))
                },
            },
        }
    }
}

/// `inner` between the tokens `left` and `right`: the same as
/// `just(left, ()).then(inner).then(just(right, ()))` with the brackets'
/// outputs dropped.
pub struct DelimitedBy<P, I> {
    pub inner: P,
    pub left: I,
    pub right: I,
}

impl<
    I: Input + Copy,
    O: DeepView,
    S: Span + Copy,
    E: Error<I, S>,
    P: Parser<I, O, S, E>,
> Parser<I, O, S, E> for DelimitedBy<P, I> {
    open spec fn spec_parse(&self, input: Seq<(I, S)>) -> SpecResult<I, O::V, S, E::V> {
        let open: Just<I, (), S, E> = Just { expect: self.left, give: (), marker: PhantomData };
        let close: Just<I, (), S, E> = Just { expect: self.right, give: (), marker: PhantomData };
        let whole = Then { first: Then { first: open, second: self.inner }, second: close };
        match whole.spec_parse(input) {
            Err(e) => Err(e),
            Ok((rest, ((((), o), ()), s))) => Ok((rest, (o, s))),
        }
    }

    fn parse<'a>(&self, input: &'a [(I, S)]) -> (r: PResult<'a, I, O, S, E>) {
        let open: Just<I, (), S, E> = Just { expect: self.left, give: (), marker: PhantomData };
        let close: Just<I, (), S, E> = Just { expect: self.right, give: (), marker: PhantomData };
        match open.parse(input) {
            Err(e) => Err(e),
            Ok((rest1, ((), s1))) => match self.inner.parse(rest1) {
                Err(e) => Err(e),
                Ok((rest2, (o, s2))) => match close.parse(rest2) {
                    Err(e) => Err(e),
                    Ok((rest3, ((), s3))) => {
                        proof {
                            lemma_suffix_trans(input@, rest1@, rest2@);
                            lemma_suffix_trans(input@, rest2@, rest3@);
                        }
                        Ok((rest3, (o, s1.merge(s2).merge(s3))))
                    },
                },
            },
        }
    }
}

/// Applies `mapper` to the output; the span is kept.
pub struct Mapped<P, F, O> {
    pub inner: P,
    pub mapper: F,
    pub output: PhantomData<O>,
}

impl<
    I: Input + Copy,
    O: DeepView,
    T: DeepView,
    S: Span + Copy,
    E: Error<I, S>,
    P: Parser<I, O, S, E>,
    F: Func<O, T>,
> Parser<I, T, S, E> for Mapped<P, F, O> {
    open spec fn spec_parse(&self, input: Seq<(I, S)>) -> SpecResult<I, T::V, S, E::V> {
        match self.inner.spec_parse(input) {
            Err(e) => Err(e),
            Ok((rest, (o, s))) => Ok((rest, (self.mapper.spec_apply(o), s))),
        }
    }

    fn parse<'a>(&self, input: &'a [(I, S)]) -> (r: PResult<'a, I, T, S, E>) {
        match self.inner.parse(input) {
            Err(e) => Err(e),
            Ok((rest, (o, s))) => Ok((rest, (self.mapper.apply(o), s))),
        }
    }
}

/// Applies `mapper` to the output and its span; the span is kept.
pub struct MapWith<P, F, O> {
    pub inner: P,
    pub mapper: F,
    pub output: PhantomData<O>,
}

impl<
    I: Input + Copy,
    O: DeepView,
    T: DeepView,
    S: Span + Copy,
    E: Error<I, S>,
    P: Parser<I, O, S, E>,
    F: Func<(O, S), T>,
> Parser<I, T, S, E> for MapWith<P, F, O> {
    open spec fn spec_parse(&self, input: Seq<(I, S)>) -> SpecResult<I, T::V, S, E::V> {
        match self.inner.spec_parse(input) {
            Err(e) => Err(e),
            Ok((rest, (o, s))) => Ok((rest, (self.mapper.spec_apply((o, s)), s))),
        }
    }

    fn parse<'a>(&self, input: &'a [(I, S)]) -> (r: PResult<'a, I, T, S, E>) {
        match self.inner.parse(input) {
            Err(e) => Err(e),
            Ok((rest, (o, s))) => {
                proof {
                    S::lemma_deep_view(s);
                }
                Ok((rest, (self.mapper.apply((o, s)), s)))
            },
        }
    }
}

/// The function that keeps the span of an output.
#[derive(PartialEq, Eq, Structural)]
pub struct SpanOf;

impl<O: DeepView, S: Span + Copy> Func<(O, S), S> for SpanOf {
    open spec fn spec_apply(&self, a: (O::V, S)) -> S {
        a.1
    }

    fn apply(&self, a: (O, S)) -> (r: S) {
        proof {
            S::lemma_deep_view(a.1);
        }
        a.1
    }
}

/// `inner` applied zero or more times.
pub struct Repeated<P> {
    pub inner: P,
}

impl<
    I: Input + Copy,
    O: DeepView,
    S: Span + Copy,
    E: Error<I, S>,
    P: Parser<I, O, S, E>,
> SeqParser<I, O, S, E> for Repeated<P> {
    open spec fn spec_step(&self, input: Seq<(I, S)>) -> SpecResult<I, O::V, S, E::V> {
        self.inner.spec_parse(input)
    }

    fn step<'a>(&self, input: &'a [(I, S)]) -> (r: PResult<'a, I, O, S, E>) {
        self.inner.parse(input)
    }
}

/// The greedy repetition of `q` on `input`: what is left, and each match
/// with its span. It stops at the first step that fails, or that succeeds
/// without consuming a token (repeating that one would never end); that
/// step consumes nothing.
pub open spec fn spec_repeat<
    I: Input + Copy,
    O: DeepView,
    S: Span + Copy,
    E: Error<I, S>,
    Q: SeqParser<I, O, S, E>,
>(q: Q, input: Seq<(I, S)>) -> (Seq<(I, S)>, Seq<(O::V, S)>)
    decreases input.len(),
{
    match q.spec_step(input) {
        Ok((rest, item)) => if rest.len() < input.len() {
            let (left, items) = spec_repeat::<I, O, S, E, Q>(q, rest);
            (left, seq![item] + items)
        } else {
            (input, seq![])
        },
        Err(_) => (input, seq![]),
    }
}

/// The span covering a run of matches: empty for none, else the first
/// span merged with the last.
pub open spec fn spec_cover<V, S: Span>(items: Seq<(V, S)>) -> S {
    if items.len() == 0 {
        S::spec_empty()
    } else {
        items[0].1.spec_merge(items.last().1)
    }
}

/// Every match of a repetition, in order, each with its span.
pub struct Collect<Q> {
    pub seq: Q,
}

impl<
    I: Input + Copy,
    O: DeepView,
    S: Span + Copy,
    E: Error<I, S>,
    Q: SeqParser<I, O, S, E>,
> Parser<I, Vec<(O, S)>, S, E> for Collect<Q> {
    open spec fn spec_parse(&self, input: Seq<(I, S)>) -> SpecResult<I, Seq<(O::V, S)>, S, E::V> {
        let (rest, items) = spec_repeat::<I, O, S, E, Q>(self.seq, input);
        Ok((rest, (items, spec_cover(items))))
    }

    fn parse<'a>(&self, input: &'a [(I, S)]) -> (r: PResult<'a, I, Vec<(O, S)>, S, E>) {
        let (rest, items) = repeat_all(&self.seq, input);
        let span = if items.len() == 0 {
            S::empty()
        } else {
            items[0].1.merge(items[items.len() - 1].1)
        };
        proof {
            items_deep_view_spans(items@);
        }
        Ok((rest, (items, span)))
    }
}

/// The model of a list of matches.
pub open spec fn items_view<O: DeepView, S: Span>(items: Seq<(O, S)>) -> Seq<(O::V, S)> {
    Seq::new(items.len(), |i: int| (items[i].0.deep_view(), items[i].1))
}

proof fn items_deep_view_spans<O: DeepView, S: Span>(items: Seq<(O, S)>)
    ensures
        items_view(items) == Seq::new(items.len(), |i: int| items[i].deep_view()),
{
    assert forall|i: int| 0 <= i < items.len() implies #[trigger] items_view(items)[i]
        == items[i].deep_view() by {
        S::lemma_deep_view(items[i].1);
    }
    assert(items_view(items) =~= Seq::new(items.len(), |i: int| items[i].deep_view()));
}

/// Runs the repetition `q` on `input` until it stops, keeping every match.
fn repeat_all<'a, I: Input + Copy, O: DeepView, S: Span + Copy, E: Error<I, S>, Q: SeqParser<I, O, S, E>>(
    q: &Q,
    input: &'a [(I, S)],
) -> (r: (&'a [(I, S)], Vec<(O, S)>))
    ensures
        (r.0@, items_view(r.1@)) == spec_repeat::<I, O, S, E, Q>(*q, input@),
        is_suffix(r.0@, input@),
{
    let mut tokens = input;
    let mut items: Vec<(O, S)> = Vec::new();
    proof {
        lemma_suffix_refl(input@);
    }
    loop
        invariant
            is_suffix(tokens@, input@),
            spec_repeat::<I, O, S, E, Q>(*q, input@) == (
                spec_repeat::<I, O, S, E, Q>(*q, tokens@).0,
                items_view(items@) + spec_repeat::<I, O, S, E, Q>(*q, tokens@).1,
            ),
        ensures
            is_suffix(tokens@, input@),
            spec_repeat::<I, O, S, E, Q>(*q, input@) == (tokens@, items_view(items@)),
        decreases tokens@.len(),
    {
        match q.step(tokens) {
            Ok((rest, item)) => {
                if rest.len() < tokens.len() {
                    proof {
                        lemma_suffix_trans(input@, tokens@, rest@);
                        let (left, more) = spec_repeat::<I, O, S, E, Q>(*q, rest@);
                        let v = (item.0.deep_view(), item.1);
                        assert(items_view(items@.push(item)) =~= items_view(items@).push(v));
                        assert(items_view(items@) + (seq![v] + more) =~= items_view(items@).push(v)
                            + more);
                    }
                    items.push(item);
                    tokens = rest;
                } else {
                    proof {
                        assert(items_view(items@) + seq![] =~= items_view(items@));
                    }
                    break ;
                }
            },
            Err(_) => {
                proof {
                    assert(items_view(items@) + seq![] =~= items_view(items@));
                }
                break ;
            },
        }
    }
    (tokens, items)
}

/// A left fold of the matches `items` onto `acc`.
pub open spec fn spec_fold_left<O: DeepView, B: DeepView, S: Span, F: Func<(O, B), O>>(
    f: F,
    acc: (O::V, S),
    items: Seq<(B::V, S)>,
) -> (O::V, S)
    decreases items.len(),
{
    if items.len() == 0 {
        acc
    } else {
        spec_fold_left::<O, B, S, F>(
            f,
            (f.spec_apply((acc.0, items[0].0)), acc.1.spec_merge(items[0].1)),
            items.drop_first(),
        )
    }
}

/// `first` once, then the repetition `rest` as long as it matches; the
/// outputs are combined from the left by `combine`, and the spans merged.
pub struct Foldl<P, Q, F, B> {
    pub first: P,
    pub rest: Q,
    pub combine: F,
    pub item: PhantomData<B>,
}

impl<
    I: Input + Copy,
    O: DeepView,
    B: DeepView,
    S: Span + Copy,
    E: Error<I, S>,
    P: Parser<I, O, S, E>,
    Q: SeqParser<I, B, S, E>,
    F: Func<(O, B), O>,
> Parser<I, O, S, E> for Foldl<P, Q, F, B> {
    open spec fn spec_parse(&self, input: Seq<(I, S)>) -> SpecResult<I, O::V, S, E::V> {
        match self.first.spec_parse(input) {
            Err(e) => Err(e),
            Ok((rest, first)) => {
                let (left, items) = spec_repeat::<I, B, S, E, Q>(self.rest, rest);
                Ok((left, spec_fold_left::<O, B, S, F>(self.combine, first, items)))
            },
        }
    }

    fn parse<'a>(&self, input: &'a [(I, S)]) -> (r: PResult<'a, I, O, S, E>) {
        let (rest, (first, first_span)) = match self.first.parse(input) {
            Err(e) => return Err(e),
            Ok(v) => v,
        };
        let mut tokens = rest;
        let mut acc = first;
        let mut span = first_span;
        let ghost start = (first.deep_view(), first_span);
        proof {
            lemma_suffix_refl(rest@);
        }
        loop
            invariant
                is_suffix(tokens@, rest@),
                spec_repeat::<I, B, S, E, Q>(self.rest, rest@).0 == spec_repeat::<I, B, S, E, Q>(
                    self.rest,
                    tokens@,
                ).0,
                spec_fold_left::<O, B, S, F>(
                    self.combine,
                    start,
                    spec_repeat::<I, B, S, E, Q>(self.rest, rest@).1,
                ) == spec_fold_left::<O, B, S, F>(
                    self.combine,
                    (acc.deep_view(), span),
                    spec_repeat::<I, B, S, E, Q>(self.rest, tokens@).1,
                ),
            ensures
                is_suffix(tokens@, rest@),
                spec_repeat::<I, B, S, E, Q>(self.rest, rest@).0 == tokens@,
                spec_fold_left::<O, B, S, F>(
                    self.combine,
                    start,
                    spec_repeat::<I, B, S, E, Q>(self.rest, rest@).1,
                ) == (acc.deep_view(), span),
            decreases tokens@.len(),
        {
            match self.rest.step(tokens) {
                Ok((next, (b, b_span))) => {
                    if next.len() < tokens.len() {
                        proof {
                            lemma_suffix_trans(rest@, tokens@, next@);
                            let items = spec_repeat::<I, B, S, E, Q>(self.rest, tokens@).1;
                            assert(items.drop_first() =~= spec_repeat::<I, B, S, E, Q>(
                                self.rest,
                                next@,
                            ).1);
                        }
                        acc = self.combine.apply((acc, b));
                        span = span.merge(b_span);
                        tokens = next;
                    } else {
                        break ;
                    }
                },
                Err(_) => {
                    break ;
                },
            }
        }
        proof {
            lemma_suffix_trans(input@, rest@, tokens@);
        }
        Ok((tokens, (acc, span)))
    }
}

/// The step of an infix chain: `f` on (left operand, (operator, right operand)).
pub struct InfixStep<F> {
    pub f: F,
}

impl<O: DeepView, B: DeepView, F: Func<(O, B, O), O>> Func<(O, (B, O)), O> for InfixStep<F> {
    open spec fn spec_apply(&self, a: (O::V, (B::V, O::V))) -> O::V {
        self.f.spec_apply((a.0, a.1.0, a.1.1))
    }

    fn apply(&self, a: (O, (B, O))) -> (r: O) {
        let (left, (op, right)) = a;
        self.f.apply((left, op, right))
    }
}

/// A right fold of the matches `items` onto `acc`, from the last match back.
pub open spec fn spec_fold_right<O: DeepView, B: DeepView, S: Span, F: Func<(O, B), B>>(
    f: F,
    items: Seq<(O::V, S)>,
    acc: (B::V, S),
) -> (B::V, S)
    decreases items.len(),
{
    if items.len() == 0 {
        acc
    } else {
        let (o, s) = items.last();
        spec_fold_right::<O, B, S, F>(
            f,
            items.drop_last(),
            (f.spec_apply((o, acc.0)), s.spec_merge(acc.1)),
        )
    }
}

/// The repetition `seq` as long as it matches, then `last` once; the outputs
/// are combined from the right by `combine` on (match, accumulated value).
pub struct Foldr<Q, P, F, O> {
    pub seq: Q,
    pub last: P,
    pub combine: F,
    pub item: PhantomData<O>,
}

impl<
    I: Input + Copy,
    O: DeepView,
    B: DeepView,
    S: Span + Copy,
    E: Error<I, S>,
    Q: SeqParser<I, O, S, E>,
    P: Parser<I, B, S, E>,
    F: Func<(O, B), B>,
> Parser<I, B, S, E> for Foldr<Q, P, F, O> {
    open spec fn spec_parse(&self, input: Seq<(I, S)>) -> SpecResult<I, B::V, S, E::V> {
        let (rest, items) = spec_repeat::<I, O, S, E, Q>(self.seq, input);
        match self.last.spec_parse(rest) {
            Err(e) => Err(e),
            Ok((left, last)) => Ok((left, spec_fold_right::<O, B, S, F>(self.combine, items, last))),
        }
    }

    fn parse<'a>(&self, input: &'a [(I, S)]) -> (r: PResult<'a, I, B, S, E>) {
        let (rest, mut items) = repeat_all(&self.seq, input);
        let (left, (last, last_span)) = match self.last.parse(rest) {
            Err(e) => return Err(e),
            Ok(v) => v,
        };
        let mut acc = last;
        let mut span = last_span;
        let ghost all = items_view(items@);
        loop
            invariant
                spec_fold_right::<O, B, S, F>(self.combine, all, (last.deep_view(), last_span))
                    == spec_fold_right::<O, B, S, F>(
                    self.combine,
                    items_view(items@),
                    (acc.deep_view(), span),
                ),
            ensures
                spec_fold_right::<O, B, S, F>(self.combine, all, (last.deep_view(), last_span))
                    == (acc.deep_view(), span),
            decreases items@.len(),
        {
            let ghost before = items@;
            match items.pop() {
                None => {
                    proof {
                        assert(items_view(items@) =~= Seq::<(O::V, S)>::empty());
                    }
                    break ;
                },
                Some((o, s)) => {
                    proof {
                        assert(items_view(items@) =~= items_view(before).drop_last());
                    }
                    acc = self.combine.apply((o, acc));
                    span = s.merge(span);
                },
            }
        }
        proof {
            lemma_suffix_trans(input@, rest@, left@);
        }
        Ok((left, (acc, span)))
    }
}

} // verus!
