use combinator::element::{element, parent_element};
use combinator::grammar::{attribute_pair, quoted_string, Element};
use combinator::parser::Parser;

fn leaf(name: &str, attributes: Vec<(&str, &str)>) -> Element {
    Element {
        name: name.to_owned(),
        attributes: attributes.into_iter().map(|(k, v)| (k.to_owned(), v.to_owned())).collect(),
        children: vec![],
    }
}

#[test]
fn element_round_trip_of_self_closing_tag() {
    assert_eq!(
        Ok(("", leaf("div", vec![("class", "float")]))),
        element().parse("<div class=\"float\"/>")
    );
}

#[test]
fn mismatched_closing_tag_without_whitespace() {
    assert_eq!(Err("</middle>"), element().parse("<top><bottom/></middle>"));
}

#[test]
fn element_keeps_trailing_text() {
    assert_eq!(Ok(("rest", leaf("a", vec![]))), element().parse("  <a/>\n rest"));
}

#[test]
fn parent_with_no_children() {
    assert_eq!(Ok(("", leaf("a", vec![]))), parent_element().parse("<a></a>"));
    assert_eq!(Err("</b>"), parent_element().parse("<a></b>"));
}

#[test]
fn duplicate_attributes_are_kept_in_order() {
    assert_eq!(
        Ok(("", leaf("x", vec![("k", "2"), ("k", "1")]))),
        element().parse("<x k=\"2\" k=\"1\"/>")
    );
}

#[test]
fn unterminated_quoted_string_fails_at_end() {
    assert_eq!(Err(""), quoted_string().parse("\"abc"));
    assert_eq!(Err("abc\""), quoted_string().parse("abc\""));
    assert_eq!(Ok(("x", "".to_owned())), quoted_string().parse("\"\"x"));
    assert_eq!(Ok(("", "a'<b>".to_owned())), quoted_string().parse("\"a'<b>\""));
}

#[test]
fn attribute_pair_needs_quotes() {
    assert_eq!(Ok(("", ("a".to_owned(), "b".to_owned()))), attribute_pair().parse("a=\"b\""));
    assert_eq!(Err("b"), attribute_pair().parse("a=b"));
}

#[test]
fn element_without_name_fails() {
    assert_eq!(Err("/>"), element().parse("</>"));
    assert_eq!(Err(""), element().parse("   "));
}

#[test]
fn nested_children_are_in_order() {
    let parsed = element().parse("<a><b/><c><d/></c><e x=\"1\"/></a>").unwrap();
    assert_eq!("", parsed.0);
    let a = parsed.1;
    let names: Vec<&str> = a.children.iter().map(|c| c.name.as_str()).collect();
    assert_eq!(vec!["b", "c", "e"], names);
    assert_eq!(vec![leaf("d", vec![])], a.children[1].children);
}
