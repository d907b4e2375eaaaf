use vstd::prelude::*;

use core::marker::PhantomData;

use crate::error::Error;
use crate::span::Span;
use crate::{is_suffix, Input, PResult, Parser, SpecResult};

verus! {

/// Matches one token equal to `expect`, yielding `give`.
///
/// The span and error types are fixed by the matcher's type, so that a
/// grammar built on it has one reading.
pub struct Just<I, O, S, E> {
    pub expect: I,
    pub give: O,
    pub marker: PhantomData<(S, E)>,
}

pub fn just<I, O, S, E>(expect: I, give: O) -> (r: Just<I, O, S, E>)
    ensures
        r.expect == expect,
        r.give == give,
{
    Just { expect, give, marker: PhantomData }
}

impl<I: Input + Copy, O: DeepView + Copy, S: Span + Copy, E: Error<I, S>> Parser<I, O, S, E> for Just<I, O, S, E> {
    open spec fn spec_parse(&self, input: Seq<(I, S)>) -> SpecResult<I, O::V, S, E::V> {
        if input.len() == 0 {
            Err(E::spec_eof(seq![self.expect]))
        } else if input[0].0 == self.expect {
            Ok((input.drop_first(), (self.give.deep_view(), input[0].1)))
        } else {
            Err(E::spec_unexpected(seq![self.expect], input[0].0, input[0].1))
        }
    }

    fn parse<'a>(&self, input: &'a [(I, S)]) -> (r: PResult<'a, I, O, S, E>) {
        if input.len() == 0 {
            let mut expected: Vec<I> = Vec::new();
            expected.push(self.expect);
            proof { assert(expected@ =~= seq![self.expect]); }
            return Err(E::eof(expected));
        }
        let (tok, span) = input[0];
        if tok.same(&self.expect) {
            let rest = vstd::slice::slice_subrange(input, 1, input.len());
            proof {
                assert(rest@ =~= input@.drop_first());
            }
            Ok((rest, (self.give, span)))
        } else {
            let mut expected: Vec<I> = Vec::new();
            expected.push(self.expect);
            proof { assert(expected@ =~= seq![self.expect]); }
            Err(E::unexpected(expected, tok, span))
        }
    }
}

} // verus!
