//! The parser capability.
use vstd::prelude::*;
use crate::input::{ParseResult, Outcome, outcome_of, stays_within};

verus! {

/// Anything that can be run on input text and yields a parse result.
///
/// `spec_parse` is the meaning of the parser as a function of the input
/// characters; `parse` computes exactly that.
pub trait Parser {
    type Output: DeepView;

    spec fn spec_parse(&self, input: Seq<char>) -> Outcome<<Self::Output as DeepView>::V>;

    /// A parser never fabricates text: what it reports is always a suffix of
    /// the input it was given.
    proof fn lemma_stays_within(&self, input: Seq<char>)
        ensures
            stays_within(self.spec_parse(input), input),
    ;

    fn parse<'a>(&self, input: &'a str) -> (r: ParseResult<'a, Self::Output>)
        ensures
            outcome_of(r) == self.spec_parse(input@),
    ;
}

} // verus!
