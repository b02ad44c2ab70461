use ast::node::{Node, UnmatchedPatternError};

#[test]
fn instantiates_node() {
    assert_eq!(
        Node {
            name: "Node",
            text: "a",
            column: 1,
            row: 0,
            children: Vec::new()
        },
        Node::new("Node", "a", 1, 0)
    );
}

#[test]
fn instantiates_node_with_same_name_and_text() {
    assert_eq!(Node::new("a", "a", 1, 0), Node::of("a", 1, 0));
}

#[test]
fn branches_to_another_node() {
    assert_eq!(
        Node {
            name: "Node #1",
            text: "a",
            column: 1,
            row: 0,
            children: vec![Some(Node::new("b", "b", 1, 1))]
        },
        Node::new("Node #1", "a", 1, 0).branch_to("b", |node| Ok(node)).unwrap()
    )
}

#[test]
fn branches_to_another_node_with_the_given_name() {
    assert_eq!(
        Node {
            name: "Node #1",
            text: "a",
            column: 1,
            row: 0,
            children: vec![Some(Node::new("Node #2", "b", 1, 1))]
        },
        Node::new("Node #1", "a", 1, 0).branch_to_named("Node #2", "b", |node| Ok(node)).unwrap()
    )
}

#[test]
fn branches_to_another_node_with_the_given_name_whose_text_matches_the_pattern() {
    assert_eq!(
        Node {
            name: "Node #1",
            text: "a",
            column: 1,
            row: 0,
            children: vec![Some(Node::new("Node #2", "b", 1, 1))]
        },
        Node::new("Node #1", "a", 1, 0)
            .branch_to_named_and_patterned(
                "Node #2",
                r"b",
                || String::from("Not a \"b\"!"),
                "b",
                |node| Ok(node)
            )
            .unwrap()
    )
}

#[test]
fn errors_when_branching_to_another_node_with_the_given_name_whose_text_does_not_match_the_pattern(
) {
    Node::new("Node #1", "a", 1, 0)
        .branch_to_named_and_patterned(
            "Node #2",
            r"b",
            || String::from("Not a \"b\"!"),
            "c",
            |node| Ok(node),
        )
        .expect_err("Not a \"b\"!");
}

#[test]
fn pattern_mismatch_carries_the_given_message() {
    let error = Node::new("Node #1", "a", 1, 0)
        .branch_to_named_and_patterned(
            "Node #2",
            r"b",
            || String::from("Not a \"b\"!"),
            "c",
            |node| Ok(node),
        )
        .unwrap_err();
    assert_eq!(error.message(), "Not a \"b\"!");
}

#[test]
fn refused_pattern_is_an_error() {
    let error = Node::new("Node #1", "a", 1, 0)
        .branch_to_named_and_patterned("Node #2", "(", || String::from("never"), "b", |node| Ok(node))
        .unwrap_err();
    assert_eq!(error.message(), "\"(\" is not a valid pattern.");
}

#[test]
fn branching_keeps_the_failure_of_the_chain() {
    let result = Node::of("a", 1, 0).branch_to("b", |_| {
        Err(UnmatchedPatternError { message: String::from("inner") })
    });
    assert_eq!(result.unwrap_err().message(), "inner");
}

#[test]
fn leaf_marks_a_possible_end_once() {
    let once = Node::of("a", 1, 0).leaf().unwrap();
    assert_eq!(once.children, vec![None]);
    let twice = Node::of("a", 1, 0).leaf().and_then(|node| node.leaf()).unwrap();
    assert_eq!(twice, once);
    assert_eq!(twice.children.iter().filter(|child| child.is_none()).count(), 1);
}

#[test]
fn leaf_keeps_the_continuations_before_it() {
    let node = Node::of("a", 1, 0)
        .branch_to("b", |node| node.leaf())
        .and_then(|node| node.leaf())
        .and_then(|node| node.leaf())
        .unwrap();
    assert_eq!(node.children.len(), 2);
    assert!(node.children[0].is_some());
    assert!(node.children[1].is_none());
}

#[test]
fn row_of_a_successor_grows_by_the_consumed_text() {
    let node = Node::of("a", 2, 10).branch_to("bcd", |node| Ok(node)).unwrap();
    let child = node.children[0].as_ref().unwrap();
    assert_eq!(child.row, 13);
    assert_eq!(child.column, 2);
    assert!(child.row >= node.row);
}

#[test]
fn row_of_a_successor_is_capped() {
    let node = Node::of("a", 2, 98).branch_to("bcd", |node| Ok(node)).unwrap();
    assert_eq!(node.children[0].as_ref().unwrap().row, 100);
    assert_eq!(Node::of("a", 2, 100).next_row("b"), 100);
}

#[test]
fn column_grows_only_where_the_next_row_is_zero() {
    assert_eq!(Node::of("a", 3, 0).next_column(""), 4);
    assert_eq!(Node::of("a", 3, 0).next_column("b"), 3);
    assert_eq!(Node::of("a", 0, 0).next_column(""), 0);
    assert_eq!(Node::of("a", 3, 0).next_row(""), 0);
}

#[test]
fn mismatch_leaves_the_node_unchanged() {
    let mut node = Node::of("a", 1, 0).branch_to("b", |node| node.leaf()).unwrap();
    let before = Node::of("a", 1, 0).branch_to("b", |node| node.leaf()).unwrap();
    let result = node.expect_in_place("Spacing", "x", |node| Ok(node));
    assert_eq!(
        result.unwrap_err().message(),
        "\"x\" does not match \" \"."
    );
    assert_eq!(node, before);
}

#[test]
fn failing_chain_leaves_the_node_unchanged() {
    let mut node = Node::of("a", 1, 0);
    let result = node.expect_in_place("Spacing", " ", |_| {
        Err(UnmatchedPatternError { message: String::from("later") })
    });
    assert!(result.is_err());
    assert_eq!(node, Node::of("a", 1, 0));
}

#[test]
fn expect_in_place_attaches_the_successor() {
    let mut node = Node::of("a", 1, 0);
    node.expect_in_place("Spacing", " ", |node| node.leaf()).unwrap();
    assert_eq!(node.children.len(), 1);
    let child = node.children[0].as_ref().unwrap();
    assert_eq!((child.name, child.text, child.column, child.row), ("Spacing", " ", 1, 1));
}

#[test]
fn keyword_named_after_a_kind_must_match_that_kind() {
    let error = Node::of("a", 1, 0).branch_to("Spacing", |node| Ok(node)).unwrap_err();
    assert_eq!(error.message(), "\"Spacing\" does not match \" \".");
}
