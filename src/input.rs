//! The data model of a parse: outcomes, and what it means for one text to be
//! the unconsumed tail of another.
use vstd::prelude::*;

verus! {

/// What a parser hands back: on success the unconsumed rest of the input and
/// the value, on failure the input at the point where matching stopped.
pub type ParseResult<'a, T> = Result<(&'a str, T), &'a str>;

/// The mathematical form of a parse outcome over character sequences.
pub type Outcome<V> = Result<(Seq<char>, V), Seq<char>>;

/// The outcome that an executable parse result stands for.
pub open spec fn outcome_of<'a, T: DeepView>(r: ParseResult<'a, T>) -> Outcome<T::V> {
    match r {
        Ok((rest, value)) => Ok((rest@, value.deep_view())),
        Err(at) => Err(at@),
    }
}

/// `t` is what is left of `s` after some prefix of it was consumed.
pub open spec fn is_suffix(t: Seq<char>, s: Seq<char>) -> bool {
    &&& t.len() <= s.len()
    &&& t == s.subrange(s.len() - t.len(), s.len() as int)
}

/// Every position an outcome reports lies within the input it was computed on.
pub open spec fn stays_within<V>(o: Outcome<V>, s: Seq<char>) -> bool {
    match o {
        Ok((rest, _)) => is_suffix(rest, s),
        Err(at) => is_suffix(at, s),
    }
}

/// A suffix of a suffix is a suffix.
pub proof fn lemma_suffix_trans(a: Seq<char>, b: Seq<char>, c: Seq<char>)
    requires
        is_suffix(a, b),
        is_suffix(b, c),
    ensures
        is_suffix(a, c),
{
    assert(a =~= c.subrange(c.len() - a.len(), c.len() as int));
}

/// Every sequence is a suffix of itself.
pub proof fn lemma_suffix_refl(s: Seq<char>)
    ensures
        is_suffix(s, s),
{
    assert(s =~= s.subrange(0, s.len() as int));
}

/// Dropping the first `n` characters leaves a suffix.
pub proof fn lemma_suffix_drop(s: Seq<char>, n: int)
    requires
        0 <= n <= s.len(),
    ensures
        is_suffix(s.subrange(n, s.len() as int), s),
{
    assert(s.subrange(n, s.len() as int) =~= s.subrange(s.len() - (s.len() - n), s.len() as int));
}

} // verus!
