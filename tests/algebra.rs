use combinator::combinators::{and_then, either, left, one_or_more, pair, pred, right, zero_or_more};
use combinator::grammar::{
    close_element, open_element, space0, space1, whitespace_wrap, CharsToString, CloseTagOf, IsChar,
    NameIs, NotChar,
};
use combinator::parser::Parser;
use combinator::primitives::{identifier, match_literal, the_letter_a, AnyChar, Identifier};

#[test]
fn literal_matches_its_own_text() {
    for s in ["", "a", "Hello Joe!", "héllo wörld", "</"] {
        assert_eq!(Ok(("", ())), match_literal(s).parse(s));
    }
}

#[test]
fn literal_rejects_other_text_of_same_length() {
    assert_eq!(Err("abd"), match_literal("abc").parse("abd"));
    assert_eq!(Err("xbc"), match_literal("abc").parse("xbc"));
    assert_eq!(Err("é"), match_literal("e").parse("é"));
}

#[test]
fn literal_fails_on_short_input() {
    assert_eq!(Err("Hello"), match_literal("Hello Joe!").parse("Hello"));
    assert_eq!(Err(""), match_literal("<").parse(""));
}

#[test]
fn zero_or_more_never_fails_on_examples() {
    assert_eq!(Ok(("", vec![])), zero_or_more(match_literal("x")).parse(""));
    assert_eq!(Ok(("yyy", vec![])), zero_or_more(match_literal("x")).parse("yyy"));
    assert_eq!(Ok(("y", vec![(), ()])), zero_or_more(match_literal("x")).parse("xxy"));
}

#[test]
fn zero_or_more_stops_when_no_progress() {
    // an inner parser that always succeeds without consuming
    let parser = zero_or_more(zero_or_more(match_literal("x")));
    assert_eq!(Ok(("y", vec![vec![(), ()]])), parser.parse("xxy"));
    assert_eq!(Ok(("y", vec![])), parser.parse("y"));
}

#[test]
fn one_or_more_fails_exactly_when_first_attempt_fails() {
    let parser = one_or_more(match_literal("x"));
    assert_eq!(Err("yx"), parser.parse("yx"));
    assert_eq!(Err("yx"), match_literal("x").parse("yx"));
    assert_eq!(Ok(("y", vec![(), ()])), parser.parse("xxy"));
    assert_eq!(Ok(("y", vec![()])), parser.parse("xy"));
}

#[test]
fn failure_position_is_stable_for_anchored_parsers() {
    let p = pred(AnyChar, IsChar('o'));
    let first = p.parse("lol");
    assert_eq!(Err("lol"), first);
    assert_eq!(first, p.parse(first.unwrap_err()));

    let lit = match_literal("ha");
    let first = lit.parse("ah");
    assert_eq!(first, lit.parse(first.unwrap_err()));

    let first = identifier("9lives");
    assert_eq!(Err("9lives"), first);
    assert_eq!(Err("9lives"), identifier(first.unwrap_err()));
}

#[test]
fn either_tries_second_on_same_input() {
    let p = either(match_literal("a"), match_literal("b"));
    assert_eq!(Ok(("c", ())), p.parse("ac"));
    assert_eq!(Ok(("c", ())), p.parse("bc"));
    assert_eq!(Err("cc"), p.parse("cc"));
}

#[test]
fn either_reports_failure_of_second_alternative() {
    let p = either(right(match_literal("a"), match_literal("b")), match_literal("c"));
    assert_eq!(Err("ax"), p.parse("ax"));
    let q = either(match_literal("c"), right(match_literal("a"), match_literal("b")));
    assert_eq!(Err("x"), q.parse("ax"));
}

#[test]
fn pair_reports_failure_where_second_failed() {
    let p = pair(match_literal("a"), match_literal("b"));
    assert_eq!(Err("a"), p.parse("aa"));
    // run again on that position, the first parser now succeeds and the failure moves on
    assert_eq!(Err(""), p.parse("a"));
}

#[test]
fn left_keeps_first_value() {
    let p = left(Identifier, match_literal(">"));
    assert_eq!(Ok(("rest", "tag".to_owned())), p.parse("tag>rest"));
    assert_eq!(Err(" >"), p.parse("tag >"));
}

#[test]
fn pred_failure_is_anchored_at_input() {
    let p = pred(Identifier, NameIs { expected: "abcd".to_owned() });
    assert_eq!(Ok((" x", "abcd".to_owned())), p.parse("abcd x"));
    assert_eq!(Err("ab x"), p.parse("ab x"));
}

#[test]
fn map_transforms_value() {
    let p = combinator::combinators::map(one_or_more(pred(AnyChar, NotChar(' '))), CharsToString);
    assert_eq!(Ok((" cd", "ab".to_owned())), p.parse("ab cd"));
    assert_eq!(Err(" cd"), p.parse(" cd"));
}

#[test]
fn and_then_builds_parser_from_value() {
    let tag = right(match_literal("<"), left(Identifier, match_literal(">")));
    let p = and_then(tag, CloseTagOf);
    assert_eq!(Ok(("!", "a".to_owned())), p.parse("<a></a>!"));
    assert_eq!(Err("</b>"), p.parse("<a></b>"));
    assert_eq!(Err("!a>"), p.parse("<!a>"));
}

#[test]
fn close_element_checks_name() {
    assert_eq!(Ok(("", "top".to_owned())), close_element("top".to_owned()).parse("</top>"));
    assert_eq!(Err("</Top>"), close_element("top".to_owned()).parse("</Top>"));
    assert_eq!(Err("<top>"), close_element("top".to_owned()).parse("<top>"));
}

#[test]
fn whitespace_parsers() {
    assert_eq!(Ok(("x", vec![' ', '\t', '\n'])), space0().parse(" \t\nx"));
    assert_eq!(Ok(("x", vec![])), space0().parse("x"));
    assert_eq!(Err("x"), space1().parse("x"));
    assert_eq!(Err(""), space1().parse(""));
    assert_eq!(Ok(("y", ())), whitespace_wrap(match_literal("x")).parse("  x \n y"));
}

#[test]
fn identifier_classes() {
    assert_eq!(Ok((" y", "été2-x".to_owned())), identifier("été2-x y"));
    assert_eq!(Ok(("_b", "a".to_owned())), identifier("a_b"));
    assert_eq!(Err("-a"), identifier("-a"));
    assert_eq!(Err(""), identifier(""));
}

#[test]
fn letter_a() {
    assert_eq!(Ok(("bc", ())), the_letter_a("abc"));
    assert_eq!(Err("bac"), the_letter_a("bac"));
    assert_eq!(Err(""), the_letter_a(""));
}

#[test]
fn open_element_has_no_children_yet() {
    let (rest, el) = open_element().parse("<p a=\"1\">text").unwrap();
    assert_eq!("text", rest);
    assert_eq!("p", el.name);
    assert_eq!(vec![("a".to_owned(), "1".to_owned())], el.attributes);
    assert!(el.children.is_empty());
}
