use vstd::prelude::*;

verus! {

/// A source range attached to each token.
///
/// Spans form a monoid: `merge` widens a span to cover a later one and
/// `empty` is the span of a parse that consumed nothing. The parsers also
/// ask their spans to be `Copy`; that bound stands where a span is used.
pub trait Span: Sized + DeepView<V = Self> {
    spec fn spec_merge(self, other: Self) -> Self;

    spec fn spec_empty() -> Self;

    fn merge(self, other: Self) -> (r: Self)
        ensures
            r == self.spec_merge(other),
    ;

    fn empty() -> (r: Self)
        ensures
            r == Self::spec_empty(),
    ;

    /// `empty` is a unit of `merge` on both sides.
    proof fn lemma_merge_empty(s: Self)
        ensures
            Self::spec_empty().spec_merge(s) == s,
            s.spec_merge(Self::spec_empty()) == s,
    ;

    /// A span is its own model.
    proof fn lemma_deep_view(s: Self)
        ensures
            s.deep_view() == s,
    ;

    /// `merge` is associative.
    proof fn lemma_merge_assoc(a: Self, b: Self, c: Self)
        ensures
            a.spec_merge(b).spec_merge(c) == a.spec_merge(b.spec_merge(c)),
    ;
}

impl Span for () {
    open spec fn spec_merge(self, other: Self) -> Self {
        ()
    }

    open spec fn spec_empty() -> Self {
        ()
    }

    fn merge(self, other: Self) -> (r: Self) {
        ()
    }

    fn empty() -> (r: Self) {
        ()
    }

    proof fn lemma_merge_empty(s: Self) {
    }

    proof fn lemma_deep_view(s: Self) {
    }

    proof fn lemma_merge_assoc(a: Self, b: Self, c: Self) {
    }
}

/// A half-open range `start..end` of positions in the source.
///
/// Merging takes the smallest range that holds both operands. The empty span
/// is the inverted range `usize::MAX..0`, so that merging with it changes nothing.
#[derive(Clone, Copy, Debug, PartialEq, Eq, Structural)]
pub struct SimpleSpan {
    pub start: usize,
    pub end: usize,
}

impl DeepView for SimpleSpan {
    type V = SimpleSpan;

    open spec fn deep_view(&self) -> SimpleSpan {
        *self
    }
}

impl SimpleSpan {
    pub fn new(start: usize, end: usize) -> (r: SimpleSpan)
        ensures
            r.start == start,
            r.end == end,
    {
        SimpleSpan { start, end }
    }
}

pub open spec fn min_usize(a: usize, b: usize) -> usize {
    if a <= b { a } else { b }
}

pub open spec fn max_usize(a: usize, b: usize) -> usize {
    if a >= b { a } else { b }
}

impl Span for SimpleSpan {
    open spec fn spec_merge(self, other: Self) -> Self {
        SimpleSpan {
            start: min_usize(self.start, other.start),
            end: max_usize(self.end, other.end),
        }
    }

    open spec fn spec_empty() -> Self {
        SimpleSpan { start: usize::MAX, end: 0 }
    }

    fn merge(self, other: Self) -> (r: Self) {
        let start = if self.start <= other.start { self.start } else { other.start };
        let end = if self.end >= other.end { self.end } else { other.end };
        SimpleSpan { start, end }
    }

    fn empty() -> (r: Self) {
        SimpleSpan { start: usize::MAX, end: 0 }
    }

    proof fn lemma_merge_empty(s: Self) {
    }

    proof fn lemma_deep_view(s: Self) {
    }

    proof fn lemma_merge_assoc(a: Self, b: Self, c: Self) {
    }
}

} // verus!
