use vstd::prelude::*;

use core::marker::PhantomData;

pub mod combinator;
pub mod error;
pub mod laws;
pub mod parser;
pub mod span;

pub use combinator::{
    Collect, DelimitedBy, Foldl, Foldr, InfixStep, Mapped, MapWith, Or, Repeated, SpanOf, Then,
};
pub use error::{Error, Simple, SimpleModel};
pub use parser::{just, Just};
pub use span::{SimpleSpan, Span};

verus! {

/// A token: a value that can be compared. The parsers also ask tokens to be
/// `Copy`; that bound stands where a token is used.
pub trait Input: Sized {
    /// Token equality, as the matcher sees it.
    fn same(&self, other: &Self) -> (r: bool)
        ensures
            r == (*self == *other),
    ;
}

impl Input for () {
    fn same(&self, other: &Self) -> (r: bool) {
        true
    }
}

impl Input for char {
    fn same(&self, other: &Self) -> (r: bool) {
        *self == *other
    }
}

impl Input for u8 {
    fn same(&self, other: &Self) -> (r: bool) {
        *self == *other
    }
}

impl Input for u32 {
    fn same(&self, other: &Self) -> (r: bool) {
        *self == *other
    }
}

impl Input for i64 {
    fn same(&self, other: &Self) -> (r: bool) {
        *self == *other
    }
}

impl Input for u16 {
    fn same(&self, other: &Self) -> (r: bool) {
        *self == *other
    }
}

impl Input for u64 {
    fn same(&self, other: &Self) -> (r: bool) {
        *self == *other
    }
}

impl Input for usize {
    fn same(&self, other: &Self) -> (r: bool) {
        *self == *other
    }
}

impl Input for i32 {
    fn same(&self, other: &Self) -> (r: bool) {
        *self == *other
    }
}

impl Input for bool {
    fn same(&self, other: &Self) -> (r: bool) {
        *self == *other
    }
}

/// A function value that combinators apply to outputs, with its meaning
/// on the outputs' models.
pub trait Func<A: DeepView, B: DeepView>: Sized {
    spec fn spec_apply(&self, a: A::V) -> B::V;

    fn apply(&self, a: A) -> (r: B)
        ensures
            r.deep_view() == self.spec_apply(a.deep_view()),
    ;
}

/// What a parse step returns: the rest of the input, the output and the span
/// of the consumed tokens; or an error.
pub type PResult<'a, I, O, S, E> = Result<(&'a [(I, S)], (O, S)), E>;

/// The model of a token stream.
pub type TokenSeq<I, S> = Seq<(I, S)>;

/// The model of a parse result: the rest of the input as a sequence, and the
/// models of the output and of the error.
pub type SpecResult<I, V, S, EV> = Result<(TokenSeq<I, S>, (V, S)), EV>;

/// The model of what a parse step returned.
pub open spec fn result_view<'a, I, O: DeepView, S, E: DeepView>(
    r: PResult<'a, I, O, S, E>,
) -> SpecResult<I, O::V, S, E::V> {
    match r {
        Ok((rest, (o, s))) => Ok((rest@, (o.deep_view(), s))),
        Err(e) => Err(e.deep_view()),
    }
}

/// `rest` is what remains of `input` after a prefix of it was consumed.
pub open spec fn is_suffix<T>(rest: Seq<T>, input: Seq<T>) -> bool {
    &&& rest.len() <= input.len()
    &&& rest == input.subrange(input.len() - rest.len(), input.len() as int)
}

/// An input is a suffix of itself.
pub proof fn lemma_suffix_refl<T>(s: Seq<T>)
    ensures
        is_suffix(s, s),
{
    assert(s == s.subrange(0, s.len() as int));
}

/// A suffix of a suffix of `a` is a suffix of `a`.
pub proof fn lemma_suffix_trans<T>(a: Seq<T>, b: Seq<T>, c: Seq<T>)
    requires
        is_suffix(b, a),
        is_suffix(c, b),
    ensures
        is_suffix(c, a),
{
    assert(c =~= a.subrange(a.len() - c.len(), a.len() as int));
}

/// A parse step: from the remaining tokens to the tokens left after it, its
/// output and the span it covered; or an error, with nothing consumed.
pub trait Parser<I: Input + Copy, O: DeepView, S: Span + Copy, E: Error<I, S>>: Sized {
    /// The result of parsing `input`.
    spec fn spec_parse(&self, input: TokenSeq<I, S>) -> SpecResult<I, O::V, S, E::V>;

    fn parse<'a>(&self, input: &'a [(I, S)]) -> (r: PResult<'a, I, O, S, E>)
        ensures
            result_view(r) == self.spec_parse(input@),
            r is Ok ==> is_suffix(r->Ok_0.0@, input@),
    ;

    /// Tries `self`; where it fails, `other` from the same position.
    fn or<P>(self, other: P) -> (r: Or<Self, P>)
        ensures
            r == (Or { first: self, second: other }),
    {
        Or { first: self, second: other }
    }

    /// `self`, then `other` on what it left; the outputs paired.
    fn then<P>(self, other: P) -> (r: Then<Self, P>)
        ensures
            r == (Then { first: self, second: other }),
    {
        Then { first: self, second: other }
    }

    /// `self` between the tokens `left` and `right`, whose outputs are dropped.
    fn delimited_by(self, left: I, right: I) -> (r: DelimitedBy<Self, I>)
        ensures
            r == (DelimitedBy { inner: self, left, right }),
    {
        DelimitedBy { inner: self, left, right }
    }

    /// Applies `mapper` to the output.
    fn map<F>(self, mapper: F) -> (r: Mapped<Self, F, O>)
        ensures
            r == (Mapped { inner: self, mapper, output: PhantomData::<O> }),
    {
        Mapped { inner: self, mapper, output: PhantomData }
    }

    /// Applies `mapper` to the output and its span.
    fn map_with<F>(self, mapper: F) -> (r: MapWith<Self, F, O>)
        ensures
            r == (MapWith { inner: self, mapper, output: PhantomData::<O> }),
    {
        MapWith { inner: self, mapper, output: PhantomData }
    }

    /// `self` zero or more times.
    fn repeated(self) -> (r: Repeated<Self>)
        ensures
            r == (Repeated { inner: self }),
    {
        Repeated { inner: self }
    }

    /// The span of what `self` consumed, as the output.
    fn span(self) -> (r: MapWith<Self, SpanOf, O>)
        ensures
            r == (MapWith { inner: self, mapper: SpanOf, output: PhantomData::<O> }),
    {
        self.map_with(SpanOf)
    }

    /// `self` once, then `fold` as often as it matches, combined from the left.
    fn foldl<Q, F, B>(self, fold: Q, f: F) -> (r: Foldl<Self, Q, F, B>)
        ensures
            r == (Foldl { first: self, rest: fold, combine: f, item: PhantomData::<B> }),
    {
        Foldl { first: self, rest: fold, combine: f, item: PhantomData }
    }

    /// Operands of `self` separated by operators of `infix`, combined from the
    /// left by `f` on (left operand, operator, right operand).
    fn infix<'b, P, F, B>(&'b self, infix: P, f: F) -> (r: Foldl<
        &'b Self,
        Repeated<Then<P, &'b Self>>,
        InfixStep<F>,
        (B, O),
    >)
        ensures
            r == (Foldl {
                first: self,
                rest: Repeated { inner: Then { first: infix, second: self } },
                combine: InfixStep { f },
                item: PhantomData::<(B, O)>,
            }),
    {
        Foldl {
            first: self,
            rest: Repeated { inner: Then { first: infix, second: self } },
            combine: InfixStep { f },
            item: PhantomData,
        }
    }
}

/// A parser can be used by reference, so that one grammar rule serves in
/// several places.
impl<'b, I: Input + Copy, O: DeepView, S: Span + Copy, E: Error<I, S>, P: Parser<I, O, S, E>> Parser<
    I,
    O,
    S,
    E,
> for &'b P {
    open spec fn spec_parse(&self, input: Seq<(I, S)>) -> SpecResult<I, O::V, S, E::V> {
        (**self).spec_parse(input)
    }

    fn parse<'a>(&self, input: &'a [(I, S)]) -> (r: PResult<'a, I, O, S, E>) {
        (**self).parse(input)
    }
}

/// A step that is meant to be repeated; each step has the contract of a
/// parse step.
pub trait SeqParser<I: Input + Copy, O: DeepView, S: Span + Copy, E: Error<I, S>>: Sized {
    /// The result of one step on `input`.
    spec fn spec_step(&self, input: TokenSeq<I, S>) -> SpecResult<I, O::V, S, E::V>;

    fn step<'a>(&self, input: &'a [(I, S)]) -> (r: PResult<'a, I, O, S, E>)
        ensures
            result_view(r) == self.spec_step(input@),
            r is Ok ==> is_suffix(r->Ok_0.0@, input@),
    ;

    /// Every match, with its span, in order.
    fn collect(self) -> (r: Collect<Self>)
        ensures
            r == (Collect { seq: self }),
    {
        Collect { seq: self }
    }

    /// The matches of `self`, then `other` once, combined from the right by
    /// `f` on (match, accumulated value).
    fn foldr<P, F>(self, other: P, f: F) -> (r: Foldr<Self, P, F, O>)
        ensures
            r == (Foldr { seq: self, last: other, combine: f, item: PhantomData::<O> }),
    {
        Foldr { seq: self, last: other, combine: f, item: PhantomData }
    }
}

} // verus!
