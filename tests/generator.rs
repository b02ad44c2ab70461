use ast::node::Node;
use ast::pattern::validate;
use ast::{generate_ast, generate_ast_with, MaxLeafing};

fn check_tree(node: &Node) {
    assert!(validate(node.name, node.text).is_ok());
    assert!(!node.children.is_empty());
    for child in node.children.iter().flatten() {
        check_tree(child);
    }
}

#[test]
fn generates_ast_of_singly_lined_unparemeterized_empty_bodied_function_declaration() {
    let ast = generate_ast("func main()");
    assert_eq!(
        ast.unwrap_err().message(),
        "\"func main()\" matches no top-level rule."
    );
}

#[test]
fn newline_under_a_zero_cap_fails() {
    let caps = MaxLeafing { function_declaration: usize::MAX, newline: 0 };
    let error = generate_ast_with("\n", &caps).unwrap_err();
    assert_eq!(error.message(), "Newline stands at the top level more often than it may.");
}

#[test]
fn functions_over_their_cap_fail() {
    let caps = MaxLeafing { function_declaration: 1, newline: usize::MAX };
    assert!(generate_ast_with("func a():", &caps).is_ok());
    let error = generate_ast_with("func a():\nfunc b():", &caps).unwrap_err();
    assert_eq!(
        error.message(),
        "FunctionDeclaration stands at the top level more often than it may."
    );
}

#[test]
fn generates_one_root_per_item() {
    let ast = generate_ast("func main(string[] args):\n\nfunc sum(int a, int b):").unwrap();
    let kinds: Vec<(&str, u32, u32)> = ast.iter().map(|root| (root.name, root.column, root.row)).collect();
    assert_eq!(
        kinds,
        vec![("func", 1, 4), ("Newline", 1, 26), ("Newline", 2, 1), ("func", 3, 4)]
    );
    for root in &ast {
        check_tree(root);
    }
}

#[test]
fn unmatched_rest_fails() {
    let error = generate_ast("func main():x").unwrap_err();
    assert_eq!(error.message(), "\"x\" matches no top-level rule.");
    let error = generate_ast("hello").unwrap_err();
    assert_eq!(error.message(), "\"hello\" matches no top-level rule.");
}

#[test]
fn invalid_identifier_in_a_source_fails() {
    let error = generate_ast("func ():").unwrap_err();
    assert_eq!(error.message(), "Expected an identifier.");
}

#[test]
fn declaration_with_its_scope_delimiter_is_one_root() {
    let ast = generate_ast("func main():").unwrap();
    assert_eq!(ast.len(), 1);
    assert_eq!((ast[0].name, ast[0].text), ("func", "func"));
}

#[test]
fn empty_source_has_no_roots() {
    assert!(generate_ast("").unwrap().is_empty());
}
