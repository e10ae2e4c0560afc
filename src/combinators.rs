//! Combinators: parsers built from other parsers.
use vstd::prelude::*;
use crate::input::{Outcome, ParseResult, stays_within, lemma_suffix_trans, lemma_suffix_refl};
use crate::parser::Parser;

verus! {

/// Runs `first`, then `second` on what `first` left, and yields both values.
pub struct Pair<P1, P2> {
    pub first: P1,
    pub second: P2,
}

/// Sequences two parsers.
#[verifier::allow_in_spec]
pub fn pair<P1: Parser, P2: Parser>(parser1: P1, parser2: P2) -> Pair<P1, P2>
    returns
        (Pair { first: parser1, second: parser2 }),
{
    Pair { first: parser1, second: parser2 }
}

impl<P1: Parser, P2: Parser> Parser for Pair<P1, P2> {
    type Output = (P1::Output, P2::Output);

    open spec fn spec_parse(&self, input: Seq<char>) -> Outcome<<Self::Output as DeepView>::V> {
        match self.first.spec_parse(input) {
            Ok((rest, a)) => match self.second.spec_parse(rest) {
                Ok((rest2, b)) => Ok((rest2, (a, b))),
                Err(at) => Err(at),
            },
            Err(at) => Err(at),
        }
    }

    proof fn lemma_stays_within(&self, input: Seq<char>) {
        self.first.lemma_stays_within(input);
        if let Ok((rest, a)) = self.first.spec_parse(input) {
            self.second.lemma_stays_within(rest);
            match self.second.spec_parse(rest) {
                Ok((rest2, b)) => lemma_suffix_trans(rest2, rest, input),
                Err(at) => lemma_suffix_trans(at, rest, input),
            }
        }
    }

    fn parse<'a>(&self, input: &'a str) -> (r: ParseResult<'a, Self::Output>) {
        match self.first.parse(input) {
            Ok((rest, a)) => match self.second.parse(rest) {
                Ok((rest2, b)) => Ok((rest2, (a, b))),
                Err(at) => Err(at),
            },
            Err(at) => Err(at),
        }
    }
}

/// A function from one parse value to another, with its meaning on views.
pub trait Mapper<A: DeepView> {
    type Out: DeepView;

    spec fn spec_apply(&self, a: A::V) -> <Self::Out as DeepView>::V;

    fn apply(&self, a: A) -> (b: Self::Out)
        ensures
            b.deep_view() == self.spec_apply(a.deep_view()),
    ;
}

/// Runs `parser` and transforms its value with `f`.
pub struct Mapped<P, F> {
    pub parser: P,
    pub f: F,
}

/// Transforms the value of a successful parse; failures pass unchanged.
#[verifier::allow_in_spec]
pub fn map<P: Parser, F: Mapper<P::Output>>(parser: P, map_fn: F) -> Mapped<P, F>
    returns
        (Mapped { parser, f: map_fn }),
{
    Mapped { parser, f: map_fn }
}

impl<P: Parser, F: Mapper<P::Output>> Parser for Mapped<P, F> {
    type Output = F::Out;

    open spec fn spec_parse(&self, input: Seq<char>) -> Outcome<<Self::Output as DeepView>::V> {
        match self.parser.spec_parse(input) {
            Ok((rest, a)) => Ok((rest, self.f.spec_apply(a))),
            Err(at) => Err(at),
        }
    }

    proof fn lemma_stays_within(&self, input: Seq<char>) {
        self.parser.lemma_stays_within(input);
    }

    fn parse<'a>(&self, input: &'a str) -> (r: ParseResult<'a, Self::Output>) {
        match self.parser.parse(input) {
            Ok((rest, a)) => Ok((rest, self.f.apply(a))),
            Err(at) => Err(at),
        }
    }
}

/// Keeps the first component of a pair.
pub struct First;

impl<A: DeepView, B: DeepView> Mapper<(A, B)> for First {
    type Out = A;

    open spec fn spec_apply(&self, v: (A::V, B::V)) -> A::V {
        v.0
    }

    fn apply(&self, v: (A, B)) -> (r: A) {
        v.0
    }
}

/// Keeps the second component of a pair.
pub struct Second;

impl<A: DeepView, B: DeepView> Mapper<(A, B)> for Second {
    type Out = B;

    open spec fn spec_apply(&self, v: (A::V, B::V)) -> B::V {
        v.1
    }

    fn apply(&self, v: (A, B)) -> (r: B) {
        v.1
    }
}

/// A sequence of two parsers that keeps only the first value.
pub type Left<P1, P2> = Mapped<Pair<P1, P2>, First>;

/// A sequence of two parsers that keeps only the second value.
pub type Right<P1, P2> = Mapped<Pair<P1, P2>, Second>;

/// Matches `parser1` then `parser2`, keeping the value of `parser1`.
#[verifier::allow_in_spec]
pub fn left<P1: Parser, P2: Parser>(parser1: P1, parser2: P2) -> Left<P1, P2>
    returns
        map(pair(parser1, parser2), First),
{
    map(pair(parser1, parser2), First)
}

/// Matches `parser1` then `parser2`, keeping the value of `parser2`.
#[verifier::allow_in_spec]
pub fn right<P1: Parser, P2: Parser>(parser1: P1, parser2: P2) -> Right<P1, P2>
    returns
        map(pair(parser1, parser2), Second),
{
    map(pair(parser1, parser2), Second)
}

/// The values and final rest of applying `p` again and again from `s`, until it
/// fails or stops making progress; the attempt that ends the run consumes
/// nothing.
pub open spec fn spec_many<P: Parser>(p: P, s: Seq<char>) -> (Seq<char>, Seq<<P::Output as DeepView>::V>)
    decreases s.len(),
{
    match p.spec_parse(s) {
        Ok((rest, v)) => if rest.len() < s.len() {
            let (last, vs) = spec_many(p, rest);
            (last, seq![v] + vs)
        } else {
            (s, Seq::empty())
        },
        Err(_) => (s, Seq::empty()),
    }
}

/// What a repetition leaves is a suffix of where it started.
pub proof fn lemma_many_within<P: Parser>(p: P, s: Seq<char>)
    ensures
        crate::input::is_suffix(spec_many(p, s).0, s),
    decreases s.len(),
{
    match p.spec_parse(s) {
        Ok((rest, v)) => if rest.len() < s.len() {
            p.lemma_stays_within(s);
            lemma_many_within(p, rest);
            lemma_suffix_trans(spec_many(p, rest).0, rest, s);
        } else {
            lemma_suffix_refl(s);
        },
        Err(_) => lemma_suffix_refl(s),
    }
}

/// Applies a parser as many times as it succeeds; never fails. A success
/// that consumes nothing ends the repetition and is not collected.
pub struct ZeroOrMore<P> {
    pub parser: P,
}

/// Zero or more repetitions of `parser`.
#[verifier::allow_in_spec]
pub fn zero_or_more<P: Parser>(parser: P) -> ZeroOrMore<P>
    returns
        (ZeroOrMore { parser }),
{
    ZeroOrMore { parser }
}

/// Runs `p` repeatedly from `input`, collecting values in order, as
/// `spec_many` describes.
fn repeat<'a, P: Parser>(p: &P, input: &'a str, init: Vec<P::Output>) -> (r: (&'a str, Vec<P::Output>))
    ensures
        r.0@ == spec_many(*p, input@).0,
        r.1.deep_view() == init.deep_view() + spec_many(*p, input@).1,
{
    let mut cur = input;
    let mut vals = init;
    let ghost start = vals.deep_view();
    loop
        invariant
            spec_many(*p, input@).0 == spec_many(*p, cur@).0,
            start + spec_many(*p, input@).1 == vals.deep_view() + spec_many(*p, cur@).1,
        ensures
            spec_many(*p, input@).0 == cur@,
            start + spec_many(*p, input@).1 == vals.deep_view(),
        decreases cur@.len(),
    {
        match p.parse(cur) {
            Ok((rest, v)) => {
                if rest.unicode_len() < cur.unicode_len() {
                    let ghost old_vals = vals.deep_view();
                    let ghost tail = spec_many(*p, rest@).1;
                    vals.push(v);
                    assert(vals.deep_view() =~= old_vals.push(v.deep_view()));
                    assert(old_vals + (seq![v.deep_view()] + tail) =~= old_vals.push(v.deep_view()) + tail);
                    cur = rest;
                } else {
                    assert(vals.deep_view() + spec_many(*p, cur@).1 =~= vals.deep_view());
                    break;
                }
            },
            Err(_) => {
                assert(vals.deep_view() + spec_many(*p, cur@).1 =~= vals.deep_view());
                break;
            },
        }
    }
    (cur, vals)
}

impl<P: Parser> Parser for ZeroOrMore<P> {
    type Output = Vec<P::Output>;

    open spec fn spec_parse(&self, input: Seq<char>) -> Outcome<<Self::Output as DeepView>::V> {
        Ok(spec_many(self.parser, input))
    }

    proof fn lemma_stays_within(&self, input: Seq<char>) {
        lemma_many_within(self.parser, input);
    }

    fn parse<'a>(&self, input: &'a str) -> (r: ParseResult<'a, Self::Output>) {
        let (rest, vals) = repeat(&self.parser, input, Vec::new());
        assert(vals.deep_view() =~= spec_many(self.parser, input@).1);
        Ok((rest, vals))
    }
}

/// Applies a parser as many times as it succeeds, at least once; after the
/// first success it repeats as `ZeroOrMore` does.
pub struct OneOrMore<P> {
    pub parser: P,
}

/// One or more repetitions of `parser`.
#[verifier::allow_in_spec]
pub fn one_or_more<P: Parser>(parser: P) -> OneOrMore<P>
    returns
        (OneOrMore { parser }),
{
    OneOrMore { parser }
}

impl<P: Parser> Parser for OneOrMore<P> {
    type Output = Vec<P::Output>;

    open spec fn spec_parse(&self, input: Seq<char>) -> Outcome<<Self::Output as DeepView>::V> {
        match self.parser.spec_parse(input) {
            Ok((rest, v)) => {
                let (last, vs) = spec_many(self.parser, rest);
                Ok((last, seq![v] + vs))
            },
            Err(at) => Err(at),
        }
    }

    proof fn lemma_stays_within(&self, input: Seq<char>) {
        self.parser.lemma_stays_within(input);
        if let Ok((rest, v)) = self.parser.spec_parse(input) {
            lemma_many_within(self.parser, rest);
            lemma_suffix_trans(spec_many(self.parser, rest).0, rest, input);
        }
    }

    fn parse<'a>(&self, input: &'a str) -> (r: ParseResult<'a, Self::Output>) {
        match self.parser.parse(input) {
            Ok((rest, first)) => {
                let mut vals = Vec::new();
                vals.push(first);
                let (last, vals) = repeat(&self.parser, rest, vals);
                proof {
                    let ghost v = spec_many(self.parser, rest@).1;
                    assert(vals.deep_view() =~= seq![first.deep_view()] + v);
                }
                Ok((last, vals))
            },
            Err(at) => Err(at),
        }
    }
}

/// A test on a parse value, with its meaning on views.
pub trait Predicate<A: DeepView> {
    spec fn spec_test(&self, a: A::V) -> bool;

    fn test(&self, a: &A) -> (r: bool)
        ensures
            r == self.spec_test(a.deep_view()),
    ;
}

/// Runs `parser` and keeps its success only when `f` accepts the value.
pub struct Pred<P, F> {
    pub parser: P,
    pub f: F,
}

/// Filters a parser's successes by a predicate; a rejected value fails at the
/// original input.
#[verifier::allow_in_spec]
pub fn pred<P: Parser, F: Predicate<P::Output>>(parser: P, predicate: F) -> Pred<P, F>
    returns
        (Pred { parser, f: predicate }),
{
    Pred { parser, f: predicate }
}

impl<P: Parser, F: Predicate<P::Output>> Parser for Pred<P, F> {
    type Output = P::Output;

    open spec fn spec_parse(&self, input: Seq<char>) -> Outcome<<Self::Output as DeepView>::V> {
        match self.parser.spec_parse(input) {
            Ok((rest, v)) => if self.f.spec_test(v) {
                Ok((rest, v))
            } else {
                Err(input)
            },
            Err(_) => Err(input),
        }
    }

    proof fn lemma_stays_within(&self, input: Seq<char>) {
        self.parser.lemma_stays_within(input);
        lemma_suffix_refl(input);
    }

    fn parse<'a>(&self, input: &'a str) -> (r: ParseResult<'a, Self::Output>) {
        match self.parser.parse(input) {
            Ok((rest, v)) => if self.f.test(&v) {
                Ok((rest, v))
            } else {
                Err(input)
            },
            Err(_) => Err(input),
        }
    }
}

/// Tries `first`, and `second` on the same input when `first` fails.
pub struct Either<P1, P2> {
    pub first: P1,
    pub second: P2,
}

/// Ordered choice between two parsers of the same value type.
#[verifier::allow_in_spec]
pub fn either<P1: Parser, P2: Parser<Output = P1::Output>>(parser1: P1, parser2: P2) -> Either<P1, P2>
    returns
        (Either { first: parser1, second: parser2 }),
{
    Either { first: parser1, second: parser2 }
}

impl<P1: Parser, P2: Parser<Output = P1::Output>> Parser for Either<P1, P2> {
    type Output = P1::Output;

    open spec fn spec_parse(&self, input: Seq<char>) -> Outcome<<Self::Output as DeepView>::V> {
        match self.first.spec_parse(input) {
            Ok(done) => Ok(done),
            Err(_) => self.second.spec_parse(input),
        }
    }

    proof fn lemma_stays_within(&self, input: Seq<char>) {
        self.first.lemma_stays_within(input);
        self.second.lemma_stays_within(input);
    }

    fn parse<'a>(&self, input: &'a str) -> (r: ParseResult<'a, Self::Output>) {
        match self.first.parse(input) {
            Ok(done) => Ok(done),
            Err(_) => self.second.parse(input),
        }
    }
}

/// Chooses the parser to run next from a parse value.
pub trait Binder<A: DeepView> {
    type Next: Parser;

    /// The meaning of the parser chosen for `a`, run on `input`.
    spec fn spec_then(&self, a: A::V, input: Seq<char>) -> Outcome<<<Self::Next as Parser>::Output as DeepView>::V>;

    proof fn lemma_then_within(&self, a: A::V, input: Seq<char>)
        ensures
            stays_within(self.spec_then(a, input), input),
    ;

    fn bind(&self, a: A) -> (next: Self::Next)
        ensures
            forall|s: Seq<char>| #[trigger] next.spec_parse(s) == self.spec_then(a.deep_view(), s),
    ;
}

/// Runs `parser`, builds the next parser from its value, and runs that on the rest.
pub struct AndThen<P, F> {
    pub parser: P,
    pub f: F,
}

/// Monadic sequencing: the second parser depends on the first one's value.
#[verifier::allow_in_spec]
pub fn and_then<P: Parser, F: Binder<P::Output>>(parser: P, f: F) -> AndThen<P, F>
    returns
        (AndThen { parser, f }),
{
    AndThen { parser, f }
}

impl<P: Parser, F: Binder<P::Output>> Parser for AndThen<P, F> {
    type Output = <F::Next as Parser>::Output;

    open spec fn spec_parse(&self, input: Seq<char>) -> Outcome<<Self::Output as DeepView>::V> {
        match self.parser.spec_parse(input) {
            Ok((rest, v)) => self.f.spec_then(v, rest),
            Err(at) => Err(at),
        }
    }

    proof fn lemma_stays_within(&self, input: Seq<char>) {
        self.parser.lemma_stays_within(input);
        if let Ok((rest, v)) = self.parser.spec_parse(input) {
            self.f.lemma_then_within(v, rest);
            match self.f.spec_then(v, rest) {
                Ok((rest2, b)) => lemma_suffix_trans(rest2, rest, input),
                Err(at) => lemma_suffix_trans(at, rest, input),
            }
        }
    }

    fn parse<'a>(&self, input: &'a str) -> (r: ParseResult<'a, Self::Output>) {
        match self.parser.parse(input) {
            Ok((rest, v)) => {
                let next = self.f.bind(v);
                next.parse(rest)
            },
            Err(at) => Err(at),
        }
    }
}

} // verus!
