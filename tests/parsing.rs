use combinator::combinators::{one_or_more, pair, pred, right, zero_or_more};
use combinator::element::element;
use combinator::grammar::{attributes, quoted_string, single_element, Element, IsChar};
use combinator::parser::Parser;
use combinator::primitives::{any_char, identifier, match_literal, AnyChar, Identifier};

#[test]
fn literal_parser() {
    let parse_joe = match_literal("Hello Joe!");
    assert_eq!(Ok(("", ())), parse_joe.parse("Hello Joe!"));
    assert_eq!(Ok((" Hello Robert!", ())), parse_joe.parse("Hello Joe! Hello Robert!"));
    assert_eq!(Err("Hello Mike!"), parse_joe.parse("Hello Mike!"));
}

#[test]
fn identifier_parser() {
    assert_eq!(Ok(("", "i-am-an-identifier".to_owned())), identifier("i-am-an-identifier"));
    assert_eq!(
        Ok((" entirely an identifier", "not".to_owned())),
        identifier("not entirely an identifier")
    );
    assert_eq!(Err("!not at all an identifier"), identifier("!not at all an identifier"));
}

#[test]
fn pair_combinator() {
    let tag_opener = pair(match_literal("<"), Identifier);
    assert_eq!(
        Ok(("/>", ((), "my-first-element".to_owned()))),
        tag_opener.parse("<my-first-element/>")
    );
    assert_eq!(Err("oops"), tag_opener.parse("oops"));
    assert_eq!(Err("!oops"), tag_opener.parse("<!oops"));
}

#[test]
fn right_combinator() {
    let tag_opener = right(match_literal("<"), Identifier);
    assert_eq!(Ok(("/>", "my-first-element".to_owned())), tag_opener.parse("<my-first-element/>"));
    assert_eq!(Err("oops"), tag_opener.parse("oops"));
    assert_eq!(Err("!oops"), tag_opener.parse("<!oops"));
}

#[test]
fn one_or_more_combinator() {
    let parser = one_or_more(match_literal("ha"));
    assert_eq!(Ok(("", vec![(), (), ()])), parser.parse(r"hahaha"));
    assert_eq!(Err(r"ahah"), parser.parse(r"ahah"));
    assert_eq!(Err(""), parser.parse(""));
}

#[test]
fn zero_or_more_combinator() {
    let parser = zero_or_more(match_literal("ha"));
    assert_eq!(Ok(("", vec![(), (), ()])), parser.parse(r"hahaha"));
    assert_eq!(Ok((r"ahah", vec![])), parser.parse(r"ahah"));
    assert_eq!(Ok(("", vec![])), parser.parse(""));
}

#[test]
fn predicate_combinator() {
    let parser = pred(AnyChar, IsChar('o'));
    assert_eq!(Ok(("mg", 'o')), parser.parse("omg"));
    assert_eq!(Err("lol"), parser.parse("lol"));
}

#[test]
fn quoted_string_parser() {
    assert_eq!(Ok(("", "Hello Joe!".to_owned())), quoted_string().parse("\"Hello Joe!\""));
}

#[test]
fn attribute_parser() {
    assert_eq!(
        Ok(("", vec![("one".to_owned(), "1".to_owned()), ("two".to_owned(), "2".to_owned())])),
        attributes().parse(" one=\"1\" two=\"2\"")
    );
}

#[test]
fn single_element_parser() {
    assert_eq!(
        Ok((
            "",
            Element {
                name: "div".to_owned(),
                attributes: vec![("class".to_owned(), "float".to_owned())],
                children: vec![]
            }
        )),
        single_element().parse("<div class=\"float\"/>")
    );
}

#[test]
fn xml_parser() {
    let doc = r#"
        <top label="Top">
            <semi-bottom label="Bottom"/>
            <middle>
                <bottom label="Another bottom"/>
            </middle>
        </top>"#;
    let parsed_doc = Element {
        name: "top".to_owned(),
        attributes: vec![("label".to_owned(), "Top".to_owned())],
        children: vec![
            Element {
                name: "semi-bottom".to_string(),
                attributes: vec![("label".to_string(), "Bottom".to_string())],
                children: vec![],
            },
            Element {
                name: "middle".to_string(),
                attributes: vec![],
                children: vec![Element {
                    name: "bottom".to_string(),
                    attributes: vec![("label".to_string(), "Another bottom".to_string())],
                    children: vec![],
                }],
            },
        ],
    };
    assert_eq!(Ok(("", parsed_doc)), element().parse(doc))
}

#[test]
fn mismatched_closing_tag() {
    let doc = r#"
        <top>
            <bottom/>
        </middle>"#;
    assert_eq!(Err("</middle>"), element().parse(doc));
}

#[test]
fn any_char_takes_one_character() {
    assert_eq!(Ok(("bc", 'a')), any_char("abc"));
    assert_eq!(Ok(("x", 'é')), any_char("éx"));
    assert_eq!(Err(""), any_char(""));
}
