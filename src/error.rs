use vstd::prelude::*;

use crate::span::Span;

verus! {

/// A parse failure that can be combined with others.
pub trait Error<I, S>: Sized + DeepView {
    spec fn spec_merge(a: Self::V, b: Self::V) -> Self::V;

    spec fn spec_eof(expected: Seq<I>) -> Self::V;

    spec fn spec_unexpected(expected: Seq<I>, found: I, span: S) -> Self::V;

    /// Combines the failures of two alternatives tried at the same position.
    fn merge(self, other: Self) -> (r: Self)
        ensures
            r.deep_view() == Self::spec_merge(self.deep_view(), other.deep_view()),
    ;

    /// The input ended where one of `expected` was required.
    fn eof(expected: Vec<I>) -> (r: Self)
        ensures
            r.deep_view() == Self::spec_eof(expected@),
    ;

    /// `found` was seen at `span` where one of `expected` was required.
    fn unexpected(expected: Vec<I>, found: I, span: S) -> (r: Self)
        ensures
            r.deep_view() == Self::spec_unexpected(expected@, found, span),
    ;
}

impl<I, S> Error<I, S> for () {
    open spec fn spec_merge(a: (), b: ()) -> () {
        ()
    }

    open spec fn spec_eof(expected: Seq<I>) -> () {
        ()
    }

    open spec fn spec_unexpected(expected: Seq<I>, found: I, span: S) -> () {
        ()
    }

    fn merge(self, other: Self) -> (r: Self) {
        ()
    }

    fn eof(expected: Vec<I>) -> (r: Self) {
        ()
    }

    fn unexpected(expected: Vec<I>, found: I, span: S) -> (r: Self) {
        ()
    }
}

/// The failures of a parse: the input ended, a token did not match, or two
/// alternatives both failed.
#[derive(Debug, PartialEq, Eq)]
pub enum Simple<I, S> {
    /// The input ended where one of `expected` was required.
    EndOfInput(Vec<I>),
    /// The token `found` at `span` was seen where one of `expected` was required.
    Unexpected(Vec<I>, I, S),
    /// Two alternatives failed at the same position.
    Merged(Box<Simple<I, S>>, Box<Simple<I, S>>),
}

/// The model of a [`Simple`] error, with the expected tokens as sequences.
pub enum SimpleModel<I, S> {
    EndOfInput(Seq<I>),
    Unexpected(Seq<I>, I, S),
    Merged(Box<SimpleModel<I, S>>, Box<SimpleModel<I, S>>),
}

pub open spec fn simple_model<I, S>(e: &Simple<I, S>) -> SimpleModel<I, S>
    decreases e,
{
    match e {
        Simple::EndOfInput(expected) => SimpleModel::EndOfInput(expected@),
        Simple::Unexpected(expected, found, span) => SimpleModel::Unexpected(
            expected@,
            *found,
            *span,
        ),
        Simple::Merged(a, b) => SimpleModel::Merged(
            Box::new(simple_model(&**a)),
            Box::new(simple_model(&**b)),
        ),
    }
}

impl<I, S> DeepView for Simple<I, S> {
    type V = SimpleModel<I, S>;

    open spec fn deep_view(&self) -> SimpleModel<I, S> {
        simple_model(self)
    }
}

/// Every token that some branch of the failure expected.
pub open spec fn expected_tokens<I, S>(m: SimpleModel<I, S>) -> Set<I>
    decreases m,
{
    match m {
        SimpleModel::EndOfInput(expected) => expected.to_set(),
        SimpleModel::Unexpected(expected, _, _) => expected.to_set(),
        SimpleModel::Merged(a, b) => expected_tokens(*a) + expected_tokens(*b),
    }
}

impl<I, S> Error<I, S> for Simple<I, S> {
    open spec fn spec_merge(a: SimpleModel<I, S>, b: SimpleModel<I, S>) -> SimpleModel<I, S> {
        SimpleModel::Merged(Box::new(a), Box::new(b))
    }

    open spec fn spec_eof(expected: Seq<I>) -> SimpleModel<I, S> {
        SimpleModel::EndOfInput(expected)
    }

    open spec fn spec_unexpected(expected: Seq<I>, found: I, span: S) -> SimpleModel<I, S> {
        SimpleModel::Unexpected(expected, found, span)
    }

    fn merge(self, other: Self) -> (r: Self) {
        Simple::Merged(Box::new(self), Box::new(other))
    }

    fn eof(expected: Vec<I>) -> (r: Self) {
        Simple::EndOfInput(expected)
    }

    fn unexpected(expected: Vec<I>, found: I, span: S) -> (r: Self) {
        Simple::Unexpected(expected, found, span)
    }
}

} // verus!
