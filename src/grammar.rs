//! A small XML-like markup grammar assembled from the combinators.
use vstd::prelude::*;
use crate::chars::{whitespace, is_whitespace};
use crate::combinators::{
    Binder, Left, Mapped, Mapper, OneOrMore, Pair, Pred, Predicate, Right, ZeroOrMore, either, left,
    one_or_more, pair, pred, right, zero_or_more,
};
use crate::input::{Outcome, lemma_suffix_refl};
use crate::parser::Parser;
use crate::primitives::{AnyChar, Identifier, MatchLiteral, match_literal};

verus! {

/// A markup element: a name, attributes in source order, and child elements.
#[derive(Debug, PartialEq, Eq)]
pub struct Element {
    pub name: String,
    pub attributes: Vec<(String, String)>,
    pub children: Vec<Element>,
}

/// The mathematical form of an element.
pub struct ElementView {
    pub name: Seq<char>,
    pub attributes: Seq<(Seq<char>, Seq<char>)>,
    pub children: Seq<ElementView>,
}

/// The view of an element, children included.
pub open spec fn element_view(e: Element) -> ElementView
    decreases e,
{
    ElementView {
        name: e.name@,
        attributes: e.attributes.deep_view(),
        children: views_of(e.children@),
    }
}

/// The views of a sequence of elements, in order.
pub open spec fn views_of(es: Seq<Element>) -> Seq<ElementView>
    decreases es,
{
    if es.len() == 0 {
        Seq::empty()
    } else {
        views_of(es.drop_last()).push(element_view(es.last()))
    }
}

impl DeepView for Element {
    type V = ElementView;

    open spec fn deep_view(&self) -> ElementView {
        element_view(*self)
    }
}


/// Accepts whitespace characters.
pub struct IsWhitespace;

impl Predicate<char> for IsWhitespace {
    open spec fn spec_test(&self, c: char) -> bool {
        whitespace(c)
    }

    fn test(&self, c: &char) -> (r: bool) {
        is_whitespace(*c)
    }
}

/// Accepts exactly one character.
pub struct IsChar(pub char);

impl Predicate<char> for IsChar {
    open spec fn spec_test(&self, c: char) -> bool {
        c == self.0
    }

    fn test(&self, c: &char) -> (r: bool) {
        *c == self.0
    }
}

/// Accepts every character but one.
pub struct NotChar(pub char);

impl Predicate<char> for NotChar {
    open spec fn spec_test(&self, c: char) -> bool {
        c != self.0
    }

    fn test(&self, c: &char) -> (r: bool) {
        *c != self.0
    }
}

/// Accepts exactly one name, compared case-sensitively.
pub struct NameIs {
    pub expected: String,
}

impl Predicate<String> for NameIs {
    open spec fn spec_test(&self, name: Seq<char>) -> bool {
        name == self.expected@
    }

    fn test(&self, name: &String) -> (r: bool) {
        *name == self.expected
    }
}

/// Relies on `String::push`: appends one character at the end.
#[verifier::external_body]
fn push_char(s: &mut String, c: char)
    ensures
        final(s)@ == old(s)@.push(c),
{
    s.push(c);
}

/// Joins a sequence of characters into a string.
pub struct CharsToString;

impl Mapper<Vec<char>> for CharsToString {
    type Out = String;

    open spec fn spec_apply(&self, chars: Seq<char>) -> Seq<char> {
        chars
    }

    fn apply(&self, chars: Vec<char>) -> (r: String) {
        let mut s = String::new();
        let mut i: usize = 0;
        while i < chars.len()
            invariant
                i <= chars@.len(),
                s@ == chars@.subrange(0, i as int),
            decreases chars@.len() - i,
        {
            push_char(&mut s, chars[i]);
            i = i + 1;
            assert(s@ =~= chars@.subrange(0, i as int));
        }
        assert(chars@.subrange(0, i as int) =~= chars@);
        assert(chars.deep_view() =~= chars@);
        s
    }
}

/// Builds a childless element from a name and its attributes.
pub struct MakeElement;

impl Mapper<(String, Vec<(String, String)>)> for MakeElement {
    type Out = Element;

    open spec fn spec_apply(&self, v: (Seq<char>, Seq<(Seq<char>, Seq<char>)>)) -> ElementView {
        ElementView { name: v.0, attributes: v.1, children: Seq::empty() }
    }

    fn apply(&self, v: (String, Vec<(String, String)>)) -> (r: Element) {
        let e = Element { name: v.0, attributes: v.1, children: Vec::new() };
        assert(views_of(e.children@) =~= Seq::<ElementView>::empty());
        assert(e.deep_view() == element_view(e));
        e
    }
}

// The types of the grammar's rules, as the combinators compose them.

pub type WhitespaceChar = Pred<AnyChar, IsWhitespace>;

pub type Space0 = ZeroOrMore<WhitespaceChar>;

pub type Space1 = OneOrMore<WhitespaceChar>;

pub type QuotedString = Mapped<
    Right<MatchLiteral, Left<ZeroOrMore<Pred<AnyChar, NotChar>>, MatchLiteral>>,
    CharsToString,
>;

pub type AttributePair = Pair<Identifier, Right<MatchLiteral, QuotedString>>;

pub type Attributes = ZeroOrMore<Right<Space1, AttributePair>>;

pub type ElementStart = Right<MatchLiteral, Pair<Identifier, Attributes>>;

/// A tag read into a childless element: self-closing, or an opening tag.
pub type TagElement = Mapped<Left<ElementStart, MatchLiteral>, MakeElement>;

pub type CloseTag = Right<MatchLiteral, Left<Identifier, MatchLiteral>>;

pub type CloseElement = Pred<CloseTag, NameIs>;

pub type WhitespaceWrap<P> = Right<Space0, Left<P, Space0>>;

/// A single whitespace character.
#[verifier::allow_in_spec]
pub fn whitespace_char() -> WhitespaceChar
    returns
        pred(AnyChar, IsWhitespace),
{
    pred(AnyChar, IsWhitespace)
}

/// One or more whitespace characters.
#[verifier::allow_in_spec]
pub fn space1() -> Space1
    returns
        one_or_more(whitespace_char()),
{
    one_or_more(whitespace_char())
}

/// Zero or more whitespace characters.
#[verifier::allow_in_spec]
pub fn space0() -> Space0
    returns
        zero_or_more(whitespace_char()),
{
    zero_or_more(whitespace_char())
}

/// A double-quoted string without escapes; yields the text between the quotes.
#[verifier::allow_in_spec]
pub fn quoted_string() -> QuotedString
    returns
        crate::combinators::map(
            right(match_literal("\""), left(zero_or_more(pred(AnyChar, NotChar('"'))), match_literal("\""))),
            CharsToString,
        ),
{
    crate::combinators::map(
        right(match_literal("\""), left(zero_or_more(pred(AnyChar, NotChar('"'))), match_literal("\""))),
        CharsToString,
    )
}

/// `name="value"`, yielding the name and the value.
#[verifier::allow_in_spec]
pub fn attribute_pair() -> AttributePair
    returns
        pair(Identifier, right(match_literal("="), quoted_string())),
{
    pair(Identifier, right(match_literal("="), quoted_string()))
}

/// Attributes, each preceded by at least one whitespace character, in order.
#[verifier::allow_in_spec]
pub fn attributes() -> Attributes
    returns
        zero_or_more(right(space1(), attribute_pair())),
{
    zero_or_more(right(space1(), attribute_pair()))
}

/// `<`, a name and the attributes: what every opening tag begins with.
#[verifier::allow_in_spec]
pub fn element_start() -> ElementStart
    returns
        right(match_literal("<"), pair(Identifier, attributes())),
{
    right(match_literal("<"), pair(Identifier, attributes()))
}

/// A self-closing tag such as `<br/>`, as a childless element.
#[verifier::allow_in_spec]
pub fn single_element() -> TagElement
    returns
        crate::combinators::map(left(element_start(), match_literal("/>")), MakeElement),
{
    crate::combinators::map(left(element_start(), match_literal("/>")), MakeElement)
}

/// An opening tag, as an element still without children.
#[verifier::allow_in_spec]
pub fn open_element() -> TagElement
    returns
        crate::combinators::map(left(element_start(), match_literal(">")), MakeElement),
{
    crate::combinators::map(left(element_start(), match_literal(">")), MakeElement)
}

/// A closing tag `</name>` whatever its name.
#[verifier::allow_in_spec]
pub fn close_tag() -> CloseTag
    returns
        right(match_literal("</"), left(Identifier, match_literal(">"))),
{
    right(match_literal("</"), left(Identifier, match_literal(">")))
}

/// The closing tag for `expected_name`; any other name fails at the tag.
#[verifier::allow_in_spec]
pub fn close_element(expected_name: String) -> CloseElement
    returns
        pred(close_tag(), NameIs { expected: expected_name }),
{
    pred(close_tag(), NameIs { expected: expected_name })
}

/// The closing tag for `name`.
pub open spec fn spec_close(name: Seq<char>, s: Seq<char>) -> Outcome<Seq<char>> {
    match close_tag().spec_parse(s) {
        Ok((rest, found)) => if found == name {
            Ok((rest, found))
        } else {
            Err(s)
        },
        Err(_) => Err(s),
    }
}

/// Builds, from a tag name just parsed, the parser of its closing tag.
pub struct CloseTagOf;

impl Binder<String> for CloseTagOf {
    type Next = CloseElement;

    open spec fn spec_then(&self, name: Seq<char>, input: Seq<char>) -> Outcome<Seq<char>> {
        spec_close(name, input)
    }

    proof fn lemma_then_within(&self, name: Seq<char>, input: Seq<char>) {
        close_tag().lemma_stays_within(input);
        lemma_suffix_refl(input);
    }

    fn bind(&self, name: String) -> (next: CloseElement) {
        close_element(name)
    }
}

/// Runs `parser` with any whitespace around it skipped.
#[verifier::allow_in_spec]
pub fn whitespace_wrap<P: Parser>(parser: P) -> WhitespaceWrap<P>
    returns
        right(space0(), left(parser, space0())),
{
    right(space0(), left(parser, space0()))
}

} // verus!
