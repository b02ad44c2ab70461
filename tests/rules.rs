use ast::node::Node;
use ast::pattern::{validate, validate_identifier, validate_with};
use ast::ValueParameterDeclaration;

#[test]
fn errors_when_branching_to_an_empty_identifier() {
    assert!(Node::default().branch_to_identifier("", |node| Ok(node)).is_err())
}

#[test]
fn errors_when_branching_to_an_invalid_identifier() {
    assert!(Node::default().branch_to_identifier("", |node| Ok(node)).is_err())
}

#[test]
fn succeeds_when_branching_to_a_valid_identifier() {
    assert!(Node::default().branch_to_identifier("main", |node| Ok(node)).is_ok())
}

#[test]
fn succeeds_when_branching_to_a_newline() {
    assert!(Node::default().branch_to_newline(|node| Ok(node)).is_ok())
}

#[test]
fn succeeds_when_branching_to_a_space() {
    assert!(Node::default().branch_to_space(|node| Ok(node)).is_ok())
}

#[test]
fn branches_to_a_function_declaration() {
    assert!(Node::default()
        .branch_to_function_declaration(
            "main",
            &[ValueParameterDeclaration {
                value_type: "string[]",
                identifier: "args"
            }]
        )
        .is_ok())
}

#[test]
fn empty_identifier_is_reported_as_missing() {
    let error = validate_identifier("").unwrap_err();
    assert_eq!(error.message(), "Expected an identifier.");
}

#[test]
fn valid_identifier_is_returned() {
    assert_eq!(validate_identifier("main").unwrap(), "main");
}

#[test]
fn identifier_without_letters_or_digits_is_reported_as_invalid() {
    let error = validate_identifier("!?").unwrap_err();
    assert_eq!(
        error.message(),
        "!? is invalid. An identifier can only contain letters A\u{2013}Z and digits."
    );
    let error = Node::default().branch_to_identifier("[]", |node| Ok(node)).unwrap_err();
    assert_eq!(
        error.message(),
        "[] is invalid. An identifier can only contain letters A\u{2013}Z and digits."
    );
}

#[test]
fn identifier_holding_a_letter_is_valid() {
    assert_eq!(validate_identifier("string[]").unwrap(), "string[]");
    assert!(validate("Identifier", "x1").is_ok());
}

#[test]
fn each_kind_checks_its_own_pattern() {
    assert!(validate("Spacing", " ").is_ok());
    assert!(validate("Newline", "\n").is_ok());
    assert!(validate("ListSeparator", ", ").is_ok());
    assert!(validate("Operation", "sum").is_ok());
    assert!(validate("func", "func").is_ok());
    assert_eq!(
        validate("Newline", " ").unwrap_err().message(),
        "\" \" does not match \"\n\"."
    );
    assert_eq!(
        validate("ListSeparator", ",").unwrap_err().message(),
        "\",\" does not match \", \"."
    );
    assert_eq!(
        validate("Operation", "+").unwrap_err().message(),
        "\"+\" does not match \"\\w+\"."
    );
    assert_eq!(
        validate("func", "fun").unwrap_err().message(),
        "\"fun\" does not match \"func\"."
    );
}

#[test]
fn single_token_rules_produce_their_kinds() {
    let node = Node::of("a", 1, 0).branch_to_list_separator(|node| node.leaf()).unwrap();
    let child = node.children[0].as_ref().unwrap();
    assert_eq!((child.name, child.text, child.row), ("ListSeparator", ", ", 2));
    let node = Node::of("a", 1, 0).branch_to_operation("value", |node| node.leaf()).unwrap();
    let child = node.children[0].as_ref().unwrap();
    assert_eq!((child.name, child.text, child.row), ("Operation", "value", 5));
    let node = Node::of("a", 1, 0).branch_to_newline(|node| node.leaf()).unwrap();
    let child = node.children[0].as_ref().unwrap();
    assert_eq!((child.name, child.text, child.row), ("Newline", "\n", 1));
    assert!(Node::of("a", 1, 0).branch_to_operation("-", |node| Ok(node)).is_err());
}

#[test]
fn verdict_follows_the_outcome_of_the_search() {
    assert_eq!(validate_with("Identifier", "main", Some(true)).unwrap(), "main");
    assert_eq!(
        validate_with("Identifier", "main", Some(false)).unwrap_err().message(),
        "main is invalid. An identifier can only contain letters A\u{2013}Z and digits."
    );
    assert_eq!(
        validate_with("Identifier", "", Some(true)).unwrap_err().message(),
        "Expected an identifier."
    );
    assert!(validate_with("Operation", "x", None).is_err());
    assert_eq!(validate_with("Operation", "+", Some(true)).unwrap(), "+");
    assert!(validate_with("Spacing", " ", Some(false)).is_ok());
    assert!(validate_with("(", ")", Some(true)).is_err());
}
