use formula_parser::{TreeNode, AND, IMPLIES, NOT, OR};

#[test]
fn leaf_renders_in_parentheses() {
    assert_eq!(TreeNode::new("A").to_string(), "(A)");
}

#[test]
fn leaf_has_no_children() {
    let leaf = TreeNode::new("q");
    assert_eq!(leaf.name(), "q");
    assert!(leaf.left().is_none());
    assert!(leaf.right().is_none());
}

#[test]
fn leaf_keeps_any_name() {
    assert_eq!(TreeNode::new("xyz").to_string(), "(xyz)");
    assert_eq!(TreeNode::new("").to_string(), "()");
}

#[test]
fn unary_node_renders_name_before_operand() {
    let node = TreeNode::unary(NOT, TreeNode::new("A"));
    assert_eq!(node.to_string(), "(Not (A))");
    assert_eq!(node.name(), "Not");
    assert!(node.left().is_none());
    assert_eq!(node.right().unwrap().name(), "A");
}

#[test]
fn binary_node_renders_name_between_operands() {
    let node = TreeNode::binary(OR, TreeNode::new("A"), TreeNode::new("B"));
    assert_eq!(node.to_string(), "((A) or (B))");
    assert_eq!(node.name(), "or");
    assert_eq!(node.left().unwrap().name(), "A");
    assert_eq!(node.right().unwrap().name(), "B");
}

#[test]
fn operator_names_are_fixed() {
    assert_eq!(NOT, "Not");
    assert_eq!(AND, "and");
    assert_eq!(OR, "or");
    assert_eq!(IMPLIES, "implies");
}

#[test]
fn nested_tree_renders_every_level() {
    let not_a = TreeNode::unary(NOT, TreeNode::new("A"));
    let a_and_c = TreeNode::binary(AND, TreeNode::new("A"), TreeNode::new("C"));
    let b_or = TreeNode::binary(OR, TreeNode::new("B"), a_and_c);
    let top = TreeNode::binary(IMPLIES, not_a, b_or);
    assert_eq!(top.to_string(), "((Not (A)) implies ((B) or ((A) and (C))))");
}

#[test]
fn rendering_twice_gives_the_same_text() {
    let node = TreeNode::binary(AND, TreeNode::new("p"), TreeNode::new("q"));
    assert_eq!(node.to_string(), node.to_string());
}

#[test]
fn rendering_keeps_characters_beyond_ascii() {
    let node = TreeNode::unary(NOT, TreeNode::new("δ"));
    assert_eq!(node.to_string(), "(Not (δ))");
}
