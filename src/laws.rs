use vstd::prelude::*;

use crate::combinator::{spec_cover, spec_repeat, Collect, Or, Then};
use crate::error::{expected_tokens, Error, Simple, SimpleModel};
use crate::span::Span;
use crate::{Input, Parser, SeqParser};

verus! {

/// The empty span is a unit of `merge`, on either side.
pub proof fn span_identity<S: Span>(s: S)
    ensures
        S::spec_empty().spec_merge(s) == s,
        s.spec_merge(S::spec_empty()) == s,
{
    S::lemma_merge_empty(s);
}

/// Ordered choice: where `a` succeeds, `a.or(b)` gives exactly `a`'s result,
/// whatever `b` would do on the same input.
pub proof fn or_prefers_first<
    I: Input + Copy,
    O: DeepView,
    S: Span + Copy,
    E: Error<I, S>,
    A: Parser<I, O, S, E>,
    B: Parser<I, O, S, E>,
>(a: A, b: B, input: Seq<(I, S)>)
    requires
        a.spec_parse(input) is Ok,
    ensures
        (Or { first: a, second: b }).spec_parse(input) == a.spec_parse(input),
{
}

/// Collecting a repetition never fails, on any input (the empty one
/// included); on the empty input it collects nothing and covers the empty
/// span.
pub proof fn collect_never_fails<
    I: Input + Copy,
    O: DeepView,
    S: Span + Copy,
    E: Error<I, S>,
    Q: SeqParser<I, O, S, E>,
>(q: Q, input: Seq<(I, S)>)
    ensures
        (Collect { seq: q }).spec_parse(input) is Ok,
        input.len() == 0 ==> (Collect { seq: q }).spec_parse(input) == Ok::<_, E::V>(
            (input, (Seq::<(O::V, S)>::empty(), S::spec_empty())),
        ),
{
    let (rest, items) = spec_repeat::<I, O, S, E, Q>(q, input);
    if input.len() == 0 {
        assert(items.len() == 0);
    }
}

/// Collecting keeps every match: where a step matches and consumes tokens,
/// the collection on `input` is that match followed by the collection on
/// what the step left, and ends where that one ends.
pub proof fn collect_accumulates<
    I: Input + Copy,
    O: DeepView,
    S: Span + Copy,
    E: Error<I, S>,
    Q: SeqParser<I, O, S, E>,
>(q: Q, input: Seq<(I, S)>)
    requires
        q.spec_step(input) is Ok,
        q.spec_step(input)->Ok_0.0.len() < input.len(),
    ensures
        ({
            let (rest, item) = q.spec_step(input)->Ok_0;
            let (left, (items, span)) = (Collect { seq: q }).spec_parse(input)->Ok_0;
            let (left2, (items2, _)) = (Collect { seq: q }).spec_parse(rest)->Ok_0;
            &&& left == left2
            &&& items == seq![item] + items2
            &&& span == spec_cover(items)
        }),
{
}

/// Sequencing: where `a` matches and `b` matches what `a` left, `a.then(b)`
/// ends where `b` ended, pairs the two outputs and merges the two spans.
pub proof fn then_consumes_both<
    I: Input + Copy,
    O: DeepView,
    O1: DeepView,
    S: Span + Copy,
    E: Error<I, S>,
    A: Parser<I, O, S, E>,
    B: Parser<I, O1, S, E>,
>(a: A, b: B, input: Seq<(I, S)>)
    requires
        a.spec_parse(input) is Ok,
        b.spec_parse(a.spec_parse(input)->Ok_0.0) is Ok,
    ensures
        ({
            let (rest, (o, s)) = a.spec_parse(input)->Ok_0;
            let (rest2, (o1, s1)) = b.spec_parse(rest)->Ok_0;
            (Then { first: a, second: b }).spec_parse(input) == Ok::<_, E::V>(
                (rest2, ((o, o1), s.spec_merge(s1))),
            )
        }),
{
}

/// Merging two failures of [`Simple`] keeps every expected token of both.
pub proof fn merge_keeps_expected<I, S>(a: SimpleModel<I, S>, b: SimpleModel<I, S>)
    ensures
        expected_tokens(<Simple<I, S> as Error<I, S>>::spec_merge(a, b)) == expected_tokens(a)
            + expected_tokens(b),
{
}

} // verus!
