//! The recursive element rule. A parser for elements contains parsers for
//! elements, so its combinator type would be infinite; the recursion is
//! written out here once, under the names `ElementParser` and
//! `ParentElement`, and proved equal to the combinator compositions they
//! stand for.
use vstd::prelude::*;
use crate::combinators::{Binder, and_then, either, pair, zero_or_more};
use crate::grammar::{
    Element, ElementView, attributes, close_element, close_tag, element_view, open_element,
    single_element, space0, spec_close, views_of, whitespace_wrap,
};
use crate::input::{Outcome, ParseResult, is_suffix, lemma_suffix_refl, lemma_suffix_trans};
use crate::parser::Parser;
use crate::primitives::{Identifier, match_literal};

verus! {

/// The meaning of the element parser: whitespace, then a self-closing element
/// or an element with children, then whitespace.
pub open spec fn spec_element(s: Seq<char>) -> Outcome<ElementView>
    decreases s.len(), 2nat,
{
    match space0().spec_parse(s) {
        Ok((s1, _)) => if s1.len() <= s.len() {
            match spec_element_body(s1) {
                Ok((rest, el)) => match space0().spec_parse(rest) {
                    Ok((rest2, _)) => Ok((rest2, el)),
                    Err(at) => Err(at),
                },
                Err(at) => Err(at),
            }
        } else {
            Err(s1)
        },
        Err(at) => Err(at),
    }
}

/// A self-closing element, or failing that an element with children.
pub open spec fn spec_element_body(s: Seq<char>) -> Outcome<ElementView>
    decreases s.len(), 1nat,
{
    match single_element().spec_parse(s) {
        Ok(done) => Ok(done),
        Err(_) => spec_parent(s),
    }
}

/// An opening tag, child elements, and the closing tag of the same name.
/// An opening tag always consumes its `<`, so the second branch is never
/// taken; it keeps the definition well-founded.
pub open spec fn spec_parent(s: Seq<char>) -> Outcome<ElementView>
    decreases s.len(), 0nat,
{
    match open_element().spec_parse(s) {
        Ok((rest, shell)) => if rest.len() < s.len() {
            spec_children_then_close(shell, rest)
        } else {
            Err(s)
        },
        Err(at) => Err(at),
    }
}

/// What follows an opening tag: child elements, then the closing tag of the
/// opening tag's name; yields the element with those children.
pub open spec fn spec_children_then_close(shell: ElementView, s: Seq<char>) -> Outcome<ElementView>
    decreases s.len(), 4nat,
{
    let (rest, kids) = spec_children(s);
    match spec_close(shell.name, rest) {
        Ok((rest2, _)) => Ok(
            (rest2, ElementView { name: shell.name, attributes: shell.attributes, children: kids }),
        ),
        Err(at) => Err(at),
    }
}

/// The elements that follow one another from `s`, and what is left after them.
pub open spec fn spec_children(s: Seq<char>) -> (Seq<char>, Seq<ElementView>)
    decreases s.len(), 3nat,
{
    match spec_element(s) {
        Ok((rest, el)) => if rest.len() < s.len() {
            let (last, els) = spec_children(rest);
            (last, seq![el] + els)
        } else {
            (s, Seq::empty())
        },
        Err(_) => (s, Seq::empty()),
    }
}

proof fn lemma_element_within(s: Seq<char>)
    ensures
        crate::input::stays_within(spec_element(s), s),
    decreases s.len(), 2nat,
{
    space0().lemma_stays_within(s);
    if let Ok((s1, _)) = space0().spec_parse(s) {
        lemma_body_within(s1);
        if let Ok((rest, el)) = spec_element_body(s1) {
            space0().lemma_stays_within(rest);
            if let Ok((rest2, _)) = space0().spec_parse(rest) {
                lemma_suffix_trans(rest, s1, s);
                lemma_suffix_trans(rest2, rest, s);
            }
        } else if let Err(at) = spec_element_body(s1) {
            lemma_suffix_trans(at, s1, s);
        }
    }
}

proof fn lemma_body_within(s: Seq<char>)
    ensures
        crate::input::stays_within(spec_element_body(s), s),
    decreases s.len(), 1nat,
{
    single_element().lemma_stays_within(s);
    lemma_parent_within(s);
}

proof fn lemma_parent_within(s: Seq<char>)
    ensures
        crate::input::stays_within(spec_parent(s), s),
    decreases s.len(), 0nat,
{
    open_element().lemma_stays_within(s);
    lemma_suffix_refl(s);
    if let Ok((rest, shell)) = open_element().spec_parse(s) {
        if rest.len() < s.len() {
            lemma_children_then_close_within(shell, rest);
            match spec_children_then_close(shell, rest) {
                Ok((rest2, _)) => lemma_suffix_trans(rest2, rest, s),
                Err(at) => lemma_suffix_trans(at, rest, s),
            }
        }
    }
}

proof fn lemma_children_then_close_within(shell: ElementView, s: Seq<char>)
    ensures
        crate::input::stays_within(spec_children_then_close(shell, s), s),
    decreases s.len(), 4nat,
{
    lemma_children_within(s);
    let rest = spec_children(s).0;
    close_tag().lemma_stays_within(rest);
    lemma_suffix_refl(rest);
    match spec_close(shell.name, rest) {
        Ok((rest2, _)) => lemma_suffix_trans(rest2, rest, s),
        Err(at) => lemma_suffix_trans(at, rest, s),
    }
}

proof fn lemma_children_within(s: Seq<char>)
    ensures
        is_suffix(spec_children(s).0, s),
    decreases s.len(), 3nat,
{
    lemma_suffix_refl(s);
    lemma_element_within(s);
    if let Ok((rest, el)) = spec_element(s) {
        if rest.len() < s.len() {
            lemma_children_within(rest);
            lemma_suffix_trans(spec_children(rest).0, rest, s);
        }
    }
}

/// An opening tag consumes at least its `<`.
proof fn lemma_open_element_progress(s: Seq<char>)
    ensures
        open_element().spec_parse(s) matches Ok((rest, _)) ==> rest.len() < s.len(),
{
    reveal_strlit("<");
    reveal_strlit(">");
    if open_element().spec_parse(s) is Ok {
        let s1 = s.subrange(1, s.len() as int);
        let inner = pair(Identifier, attributes());
        inner.lemma_stays_within(s1);
        if let Ok((r1, _)) = inner.spec_parse(s1) {
            match_literal(">").lemma_stays_within(r1);
        }
    }
}

/// Runs the element rule on `input`.
fn parse_element<'a>(input: &'a str) -> (r: ParseResult<'a, Element>)
    ensures
        crate::input::outcome_of(r) == spec_element(input@),
    decreases input@.len(), 2nat,
{
    let ws = space0();
    match ws.parse(input) {
        Ok((s1, _)) => {
            proof {
                ws.lemma_stays_within(input@);
            }
            let body = match single_element().parse(s1) {
                Ok(done) => Ok(done),
                Err(_) => parse_parent(s1),
            };
            match body {
                Ok((rest, el)) => match ws.parse(rest) {
                    Ok((rest2, _)) => Ok((rest2, el)),
                    Err(at) => Err(at),
                },
                Err(at) => Err(at),
            }
        },
        Err(at) => Err(at),
    }
}

/// Runs the element-with-children rule on `input`.
fn parse_parent<'a>(input: &'a str) -> (r: ParseResult<'a, Element>)
    ensures
        crate::input::outcome_of(r) == spec_parent(input@),
    decreases input@.len(), 0nat,
{
    proof {
        lemma_open_element_progress(input@);
    }
    and_then(open_element(), ChildrenOf).parse(input)
}

/// A copy of an attribute list.
fn clone_attributes(attrs: &Vec<(String, String)>) -> (r: Vec<(String, String)>)
    ensures
        r.deep_view() == attrs.deep_view(),
{
    let mut out: Vec<(String, String)> = Vec::new();
    let mut i: usize = 0;
    while i < attrs.len()
        invariant
            i <= attrs@.len(),
            out@ == attrs@.subrange(0, i as int),
        decreases attrs@.len() - i,
    {
        let entry = (attrs[i].0.clone(), attrs[i].1.clone());
        out.push(entry);
        i = i + 1;
        assert(out@ =~= attrs@.subrange(0, i as int));
    }
    assert(out@ =~= attrs@);
    out
}

/// Reads the children of `shell` and its closing tag.
fn parse_children_then_close<'a>(shell: &Element, input: &'a str) -> (r: ParseResult<'a, Element>)
    ensures
        crate::input::outcome_of(r) == spec_children_then_close(shell.deep_view(), input@),
    decreases input@.len(), 4nat,
{
    let (rest, kids) = parse_children(input);
    let closing = close_element(shell.name.clone());
    match closing.parse(rest) {
        Ok((rest2, _)) => {
            let el = Element { name: shell.name.clone(), attributes: clone_attributes(&shell.attributes), children: kids };
            proof {
                assert(kids.deep_view() =~= views_of(kids@)) by {
                    lemma_views_of(kids@);
                }
            }
            Ok((rest2, el))
        },
        Err(at) => Err(at),
    }
}

/// Given the element read from an opening tag, builds the parser of its
/// children and closing tag.
pub struct ChildrenOf;

/// The children and closing tag of an element whose opening tag was read.
pub struct ChildrenThenClose {
    pub shell: Element,
}

impl Parser for ChildrenThenClose {
    type Output = Element;

    open spec fn spec_parse(&self, input: Seq<char>) -> Outcome<ElementView> {
        spec_children_then_close(self.shell.deep_view(), input)
    }

    proof fn lemma_stays_within(&self, input: Seq<char>) {
        lemma_children_then_close_within(self.shell.deep_view(), input);
    }

    fn parse<'a>(&self, input: &'a str) -> (r: ParseResult<'a, Element>) {
        parse_children_then_close(&self.shell, input)
    }
}

impl Binder<Element> for ChildrenOf {
    type Next = ChildrenThenClose;

    open spec fn spec_then(&self, shell: ElementView, input: Seq<char>) -> Outcome<ElementView> {
        spec_children_then_close(shell, input)
    }

    proof fn lemma_then_within(&self, shell: ElementView, input: Seq<char>) {
        lemma_children_then_close_within(shell, input);
    }

    fn bind(&self, shell: Element) -> (next: ChildrenThenClose) {
        ChildrenThenClose { shell }
    }
}

/// The views of a sequence are the views of its members.
proof fn lemma_views_of(es: Seq<Element>)
    ensures
        views_of(es).len() == es.len(),
        forall|i: int| 0 <= i < es.len() ==> #[trigger] views_of(es)[i] == element_view(es[i]),
    decreases es.len(),
{
    if es.len() > 0 {
        lemma_views_of(es.drop_last());
    }
}

/// Reads elements one after another for as long as they parse and consume.
fn parse_children<'a>(input: &'a str) -> (r: (&'a str, Vec<Element>))
    ensures
        (r.0@, r.1.deep_view()) == spec_children(input@),
    decreases input@.len(), 3nat,
{
    let mut cur = input;
    let mut kids: Vec<Element> = Vec::new();
    proof {
        lemma_suffix_refl(input@);
    }
    loop
        invariant
            is_suffix(cur@, input@),
            spec_children(input@).0 == spec_children(cur@).0,
            spec_children(input@).1 == kids.deep_view() + spec_children(cur@).1,
        ensures
            spec_children(input@).0 == cur@,
            spec_children(input@).1 == kids.deep_view(),
        decreases cur@.len(),
    {
        match parse_element(cur) {
            Ok((rest, el)) => {
                if rest.unicode_len() < cur.unicode_len() {
                    proof {
                        lemma_element_within(cur@);
                        lemma_suffix_trans(rest@, cur@, input@);
                    }
                    let ghost old_kids = kids.deep_view();
                    let ghost tail = spec_children(rest@).1;
                    kids.push(el);
                    assert(kids.deep_view() =~= old_kids.push(el.deep_view()));
                    assert(old_kids + (seq![el.deep_view()] + tail) =~= old_kids.push(el.deep_view()) + tail);
                    cur = rest;
                } else {
                    assert(kids.deep_view() + spec_children(cur@).1 =~= kids.deep_view());
                    break;
                }
            },
            Err(_) => {
                assert(kids.deep_view() + spec_children(cur@).1 =~= kids.deep_view());
                break;
            },
        }
    }
    (cur, kids)
}

/// The element parser: the recursive entry point of the grammar.
pub struct ElementParser;

/// The element-with-children parser.
pub struct ParentElement;

impl Parser for ElementParser {
    type Output = Element;

    open spec fn spec_parse(&self, input: Seq<char>) -> Outcome<ElementView> {
        spec_element(input)
    }

    proof fn lemma_stays_within(&self, input: Seq<char>) {
        lemma_element_within(input);
    }

    fn parse<'a>(&self, input: &'a str) -> (r: ParseResult<'a, Element>) {
        parse_element(input)
    }
}

impl Parser for ParentElement {
    type Output = Element;

    open spec fn spec_parse(&self, input: Seq<char>) -> Outcome<ElementView> {
        spec_parent(input)
    }

    proof fn lemma_stays_within(&self, input: Seq<char>) {
        lemma_parent_within(input);
    }

    fn parse<'a>(&self, input: &'a str) -> (r: ParseResult<'a, Element>) {
        parse_parent(input)
    }
}

/// An element, self-closing or with children, with surrounding whitespace skipped.
#[verifier::allow_in_spec]
pub fn element() -> ElementParser
    returns
        ElementParser,
{
    ElementParser
}

/// The element parser is the whitespace-wrapped choice between a
/// self-closing element and an element with children.
pub proof fn element_is_wrapped_choice(s: Seq<char>)
    ensures
        element().spec_parse(s) == whitespace_wrap(either(single_element(), parent_element())).spec_parse(s),
{
    space0().lemma_stays_within(s);
}

/// The children of an element are what zero or more element parses yield.
pub proof fn children_are_zero_or_more_elements(s: Seq<char>)
    ensures
        zero_or_more(element()).spec_parse(s) == Ok::<(Seq<char>, Seq<ElementView>), Seq<char>>(
            spec_children(s),
        ),
    decreases s.len(),
{
    if let Ok((rest, el)) = spec_element(s) {
        if rest.len() < s.len() {
            children_are_zero_or_more_elements(rest);
        }
    }
}

/// The element-with-children parser is the opening tag followed, through
/// monadic sequencing, by the children and closing tag that its name selects.
pub proof fn parent_is_open_then_children(s: Seq<char>)
    ensures
        parent_element().spec_parse(s) == and_then(open_element(), ChildrenOf).spec_parse(s),
{
    lemma_open_element_progress(s);
}

/// An element with children, closed by the tag of its own name.
#[verifier::allow_in_spec]
pub fn parent_element() -> ParentElement
    returns
        ParentElement,
{
    ParentElement
}

} // verus!
