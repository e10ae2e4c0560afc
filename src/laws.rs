//! Laws of the combinator algebra, proved over the parsers' meanings.
use vstd::prelude::*;
use crate::combinators::{Predicate, one_or_more, pred, zero_or_more};
use crate::parser::Parser;
use crate::primitives::{AnyChar, match_literal, spec_identifier};

verus! {

/// A literal matcher run on its own text succeeds, consumes all of it and
/// yields the unit value.
pub proof fn literal_matches_itself(s: &'static str)
    ensures
        match_literal(s).spec_parse(s@) == Ok::<(Seq<char>, ()), Seq<char>>((Seq::empty(), ())),
{
    assert(s@.subrange(0, s@.len() as int) =~= s@);
    assert(s@.subrange(s@.len() as int, s@.len() as int) =~= Seq::<char>::empty());
}

/// A literal matcher run on a different text of the same length fails at
/// that text, unchanged.
pub proof fn literal_rejects_other(s1: &'static str, s2: Seq<char>)
    requires
        s1@ != s2,
        s1@.len() == s2.len(),
    ensures
        match_literal(s1).spec_parse(s2) == Err::<(Seq<char>, ()), Seq<char>>(s2),
{
    assert(s2.subrange(0, s2.len() as int) =~= s2);
}

/// Repetition of zero or more never fails, whatever the parser and the input.
pub proof fn zero_or_more_never_fails<P: Parser>(p: P, input: Seq<char>)
    ensures
        zero_or_more(p).spec_parse(input) is Ok,
{
}

/// Repetition of one or more fails exactly when the first attempt of the
/// parser fails, and then with that same failure.
pub proof fn one_or_more_fails_iff_first_fails<P: Parser>(p: P, input: Seq<char>)
    ensures
        one_or_more(p).spec_parse(input) is Err <==> p.spec_parse(input) is Err,
        p.spec_parse(input) is Err ==> one_or_more(p).spec_parse(input)->Err_0 == p.spec_parse(input)->Err_0,
{
}

/// A filtered parser fails at the input it was given; run again on that
/// position, it fails there again.
pub proof fn pred_failure_is_stable<P: Parser, F: Predicate<P::Output>>(p: P, f: F, input: Seq<char>)
    ensures
        pred(p, f).spec_parse(input) matches Err(at) ==> pred(p, f).spec_parse(at) == pred(p, f).spec_parse(
            input,
        ),
{
}

/// The literal matcher fails only at its input; run again there, it fails the same way.
pub proof fn literal_failure_is_stable(s: &'static str, input: Seq<char>)
    ensures
        match_literal(s).spec_parse(input) matches Err(at) ==> match_literal(s).spec_parse(at)
            == match_literal(s).spec_parse(input),
{
}

/// The identifier parser fails only at its input; run again there, it fails the same way.
pub proof fn identifier_failure_is_stable(input: Seq<char>)
    ensures
        spec_identifier(input) matches Err(at) ==> spec_identifier(at) == spec_identifier(input),
{
}

/// The single-character parser fails only at its input; run again there, it fails the same way.
pub proof fn any_char_failure_is_stable(input: Seq<char>)
    ensures
        AnyChar.spec_parse(input) matches Err(at) ==> AnyChar.spec_parse(at) == AnyChar.spec_parse(input),
{
}

} // verus!
