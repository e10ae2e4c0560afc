//! Primitive parsers: literals, identifiers and single characters.
use vstd::prelude::*;
use crate::input::{Outcome, ParseResult, outcome_of, lemma_suffix_drop, lemma_suffix_refl};
use crate::chars::{alphabetic, alphanumeric, is_alphabetic, is_alphanumeric};
use crate::parser::Parser;

verus! {

/// Matches a fixed text and yields no value.
pub struct MatchLiteral {
    pub expected: &'static str,
}

/// `s` begins with the characters of `e`.
pub open spec fn starts_with(s: Seq<char>, e: Seq<char>) -> bool {
    e.len() <= s.len() && s.subrange(0, e.len() as int) == e
}

/// The meaning of a literal matcher for `e`.
pub open spec fn spec_literal(e: Seq<char>, s: Seq<char>) -> Outcome<()> {
    if starts_with(s, e) {
        Ok((s.subrange(e.len() as int, s.len() as int), ()))
    } else {
        Err(s)
    }
}

/// A parser that succeeds exactly on input that begins with `expected`,
/// consuming it.
#[verifier::allow_in_spec]
pub fn match_literal(expected: &'static str) -> MatchLiteral
    returns
        (MatchLiteral { expected }),
{
    MatchLiteral { expected }
}

fn has_prefix(s: &str, e: &str) -> (r: bool)
    ensures
        r == starts_with(s@, e@),
{
    let n = e.unicode_len();
    let m = s.unicode_len();
    if n > m {
        return false;
    }
    let mut i: usize = 0;
    while i < n
        invariant
            n == e@.len(),
            n <= m == s@.len(),
            i <= n,
            forall|j: int| 0 <= j < i ==> s@[j] == e@[j],
        decreases n - i,
    {
        if s.get_char(i) != e.get_char(i) {
            assert(s@.subrange(0, n as int)[i as int] != e@[i as int]);
            return false;
        }
        i = i + 1;
    }
    assert(s@.subrange(0, n as int) =~= e@);
    true
}

impl Parser for MatchLiteral {
    type Output = ();

    open spec fn spec_parse(&self, input: Seq<char>) -> Outcome<()> {
        spec_literal(self.expected@, input)
    }

    proof fn lemma_stays_within(&self, input: Seq<char>) {
        if starts_with(input, self.expected@) {
            lemma_suffix_drop(input, self.expected@.len() as int);
        } else {
            lemma_suffix_refl(input);
        }
    }

    fn parse<'a>(&self, input: &'a str) -> (r: ParseResult<'a, ()>) {
        if has_prefix(input, self.expected) {
            let n = self.expected.unicode_len();
            let len = input.unicode_len();
            Ok((input.substring_char(n, len), ()))
        } else {
            Err(input)
        }
    }
}


/// The one-letter warm-up parser: accepts a leading `a`.
pub open spec fn spec_the_letter_a(s: Seq<char>) -> Outcome<()> {
    if s.len() > 0 && s[0] == 'a' {
        Ok((s.subrange(1, s.len() as int), ()))
    } else {
        Err(s)
    }
}

/// Consumes a single leading `a`.
pub fn the_letter_a(input: &str) -> (r: ParseResult<()>)
    ensures
        outcome_of(r) == spec_the_letter_a(input@),
{
    let len = input.unicode_len();
    if len > 0 && input.get_char(0) == 'a' {
        Ok((input.substring_char(1, len), ()))
    } else {
        Err(input)
    }
}

/// A character that may follow the first letter of an identifier.
pub open spec fn is_ident_char(c: char) -> bool {
    alphanumeric(c) || c == '-'
}

/// The end of the run of identifier characters that starts at `i`.
pub open spec fn ident_end(s: Seq<char>, i: int) -> int
    decreases s.len() - i,
{
    if 0 <= i < s.len() && is_ident_char(s[i]) {
        ident_end(s, i + 1)
    } else {
        i
    }
}

proof fn lemma_ident_end_bounds(s: Seq<char>, i: int)
    requires
        0 <= i <= s.len(),
    ensures
        i <= ident_end(s, i) <= s.len(),
    decreases s.len() - i,
{
    if i < s.len() && is_ident_char(s[i]) {
        lemma_ident_end_bounds(s, i + 1);
    }
}

/// The meaning of the identifier parser: an alphabetic character followed by
/// the longest run of alphanumeric characters and hyphens.
pub open spec fn spec_identifier(s: Seq<char>) -> Outcome<Seq<char>> {
    if s.len() > 0 && alphabetic(s[0]) {
        let n = ident_end(s, 1);
        Ok((s.subrange(n, s.len() as int), s.subrange(0, n)))
    } else {
        Err(s)
    }
}

/// Parses an identifier and yields it as an owned string.
pub fn identifier(input: &str) -> (r: ParseResult<String>)
    ensures
        outcome_of(r) == spec_identifier(input@),
{
    let len = input.unicode_len();
    if len == 0 || !is_alphabetic(input.get_char(0)) {
        return Err(input);
    }
    let mut i: usize = 1;
    while i < len && (is_alphanumeric(input.get_char(i)) || input.get_char(i) == '-')
        invariant
            1 <= i <= len,
            len == input@.len(),
            ident_end(input@, i as int) == ident_end(input@, 1),
        decreases len - i,
    {
        i = i + 1;
    }
    let name = input.substring_char(0, i).to_owned();
    Ok((input.substring_char(i, len), name))
}

/// The identifier parser as a parser value.
pub struct Identifier;

impl Parser for Identifier {
    type Output = String;

    open spec fn spec_parse(&self, input: Seq<char>) -> Outcome<Seq<char>> {
        spec_identifier(input)
    }

    proof fn lemma_stays_within(&self, input: Seq<char>) {
        if input.len() > 0 && alphabetic(input[0]) {
            lemma_ident_end_bounds(input, 1);
            lemma_suffix_drop(input, ident_end(input, 1));
        } else {
            lemma_suffix_refl(input);
        }
    }

    fn parse<'a>(&self, input: &'a str) -> (r: ParseResult<'a, String>) {
        identifier(input)
    }
}

/// The meaning of the single-character parser.
pub open spec fn spec_any_char(s: Seq<char>) -> Outcome<char> {
    if s.len() > 0 {
        Ok((s.subrange(1, s.len() as int), s[0]))
    } else {
        Err(s)
    }
}

/// Yields the next character, failing only on empty input.
pub fn any_char(input: &str) -> (r: ParseResult<char>)
    ensures
        outcome_of(r) == spec_any_char(input@),
{
    let len = input.unicode_len();
    if len > 0 {
        let c = input.get_char(0);
        Ok((input.substring_char(1, len), c))
    } else {
        Err(input)
    }
}

/// The single-character parser as a parser value.
pub struct AnyChar;

impl Parser for AnyChar {
    type Output = char;

    open spec fn spec_parse(&self, input: Seq<char>) -> Outcome<char> {
        spec_any_char(input)
    }

    proof fn lemma_stays_within(&self, input: Seq<char>) {
        if input.len() > 0 {
            lemma_suffix_drop(input, 1);
        } else {
            lemma_suffix_refl(input);
        }
    }

    fn parse<'a>(&self, input: &'a str) -> (r: ParseResult<'a, char>) {
        any_char(input)
    }
}

} // verus!
