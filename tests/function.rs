use ast::node::Node;
use ast::pattern::validate;
use ast::ValueParameterDeclaration;

fn chain(node: &Node) -> Vec<(String, String, bool)> {
    let mut steps = Vec::new();
    let mut current = node;
    loop {
        let ends = current.children.iter().any(|child| child.is_none());
        steps.push((current.name.to_string(), current.text.to_string(), ends));
        match current.children.iter().find_map(|child| child.as_ref()) {
            Some(next) => current = next,
            None => return steps,
        }
    }
}

fn step(name: &str, text: &str, ends: bool) -> (String, String, bool) {
    (name.to_string(), text.to_string(), ends)
}

fn check_tree(node: &Node) {
    assert!(validate(node.name, node.text).is_ok());
    assert!(!node.children.is_empty());
    for child in node.children.iter().flatten() {
        check_tree(child);
    }
}

#[test]
fn zero_parameter_function_chains_its_tokens() {
    let root = Node::default().branch_to_function_declaration("main", &[]).unwrap();
    assert_eq!(root.children.len(), 1);
    let function = root.children[0].as_ref().unwrap();
    assert_eq!(
        chain(function),
        vec![
            step("func", "func", false),
            step("Spacing", " ", false),
            step("Identifier", "main", false),
            step("(", "(", false),
            step(")", ")", false),
            step(":", ":", true),
        ]
    );
    check_tree(function);
}

#[test]
fn one_parameter_function_chains_its_tokens() {
    let parameters = [ValueParameterDeclaration { value_type: "string[]", identifier: "args" }];
    let root = Node::default().branch_to_function_declaration("main", &parameters).unwrap();
    let function = root.children[0].as_ref().unwrap();
    assert_eq!(
        chain(function),
        vec![
            step("func", "func", false),
            step("Spacing", " ", false),
            step("Identifier", "main", false),
            step("(", "(", false),
            step("Identifier", "string[]", false),
            step("Spacing", " ", false),
            step("Identifier", "args", false),
            step(")", ")", false),
            step(":", ":", true),
        ]
    );
    check_tree(function);
}

#[test]
fn parameters_are_separated_by_list_separators() {
    let parameters = [
        ValueParameterDeclaration { value_type: "int", identifier: "a" },
        ValueParameterDeclaration { value_type: "int", identifier: "b" },
    ];
    let root = Node::of("x", 1, 0).branch_to_function_declaration("sum", &parameters).unwrap();
    let function = root.children[0].as_ref().unwrap();
    let texts: Vec<String> = chain(function).into_iter().map(|(_, text, _)| text).collect();
    assert_eq!(texts, vec!["func", " ", "sum", "(", "int", " ", "a", ", ", "int", " ", "b", ")", ":"]);
    check_tree(function);
}

#[test]
fn function_positions_follow_the_consumed_text() {
    let root = Node::of("x", 1, 0).branch_to_function_declaration("main", &[]).unwrap();
    let function = root.children[0].as_ref().unwrap();
    assert_eq!((function.column, function.row), (1, 4));
    let space = function.children[0].as_ref().unwrap();
    assert_eq!(space.row, 5);
    let name = space.children[0].as_ref().unwrap();
    assert_eq!(name.row, 9);
}

#[test]
fn function_with_an_invalid_parameter_fails_on_it() {
    let parameters = [ValueParameterDeclaration { value_type: "int", identifier: "" }];
    let error = Node::default().branch_to_function_declaration("main", &parameters).unwrap_err();
    assert_eq!(error.message(), "Expected an identifier.");
    let error = Node::default().branch_to_function_declaration("%", &parameters).unwrap_err();
    assert_eq!(
        error.message(),
        "% is invalid. An identifier can only contain letters A\u{2013}Z and digits."
    );
}

#[test]
fn renders_a_function_declaration() {
    let root = Node::default().branch_to_function_declaration("main", &[]).unwrap();
    let function = root.children[0].as_ref().unwrap();
    let expected = String::from("\u{251c}\u{2500} func\n")
        + "   \u{251c}\u{2500} Spacing\n"
        + "      \u{251c}\u{2500} Identifier \"main\"\n"
        + "         \u{251c}\u{2500} (\n"
        + "            \u{251c}\u{2500} )\n"
        + "               \u{251c}\u{2500} :\n"
        + "\u{251c}\u{2500}";
    assert_eq!(function.render(), expected);
}

#[test]
fn rendering_stops_at_a_possible_end() {
    let node = Node::of("a", 1, 0)
        .leaf()
        .and_then(|node| node.branch_to("b", |node| Ok(node)))
        .unwrap();
    assert_eq!(node.render(), "\u{251c}\u{2500} a\n\u{251c}\u{2500}");
    assert_eq!(Node::new("Spacing", " ", 0, 0).display_name(), "Spacing");
    assert_eq!(Node::new("Identifier", "main", 0, 0).display_name(), "Identifier \"main\"");
}
