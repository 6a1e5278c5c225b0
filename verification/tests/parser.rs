use formula_parser::{parse, parse_arithmetic, variable, Parser, TreeNode};

/// The tree in short: leaves bare, every operator node in parentheses.
fn shape(node: &TreeNode) -> String {
    match (node.left(), node.right()) {
        (Some(l), Some(r)) => format!("({} {} {})", shape(l), node.name(), shape(r)),
        (Some(l), None) => format!("({} {})", shape(l), node.name()),
        (None, Some(r)) => format!("({} {})", node.name(), shape(r)),
        (None, None) => node.name().to_string(),
    }
}

fn shape_of(input: &str) -> Option<String> {
    parse(input).map(|node| shape(&node))
}

fn text_of(input: &str) -> Option<String> {
    parse(input).map(|node| node.to_string())
}

#[test]
fn single_variable() {
    let node = parse("A").unwrap();
    assert_eq!(node.name(), "A");
    assert!(node.left().is_none());
    assert!(node.right().is_none());
    assert_eq!(node.to_string(), "(A)");
}

#[test]
fn conjunction_binds_tighter_than_disjunction() {
    assert_eq!(shape_of("A | B & C").unwrap(), "(A or (B and C))");
    assert_eq!(text_of("A | B & C").unwrap(), "((A) or ((B) and (C)))");
    assert_eq!(shape_of("A & B | C").unwrap(), "((A and B) or C)");
}

#[test]
fn disjunction_binds_tighter_than_implication() {
    assert_eq!(shape_of("A -> B | C").unwrap(), "(A implies (B or C))");
    assert_eq!(shape_of("A | B -> C").unwrap(), "((A or B) implies C)");
}

#[test]
fn implication_is_right_associative() {
    assert_eq!(shape_of("A -> B -> C").unwrap(), "(A implies (B implies C))");
    assert_eq!(text_of("A -> B -> C").unwrap(), "((A) implies ((B) implies (C)))");
}

#[test]
fn disjunction_is_right_associative() {
    assert_eq!(shape_of("A | B | C").unwrap(), "(A or (B or C))");
    assert_eq!(text_of("A | B | C").unwrap(), "((A) or ((B) or (C)))");
}

#[test]
fn conjunction_is_right_associative() {
    assert_eq!(shape_of("A & B & C").unwrap(), "(A and (B and C))");
    assert_eq!(text_of("A & B & C").unwrap(), "((A) and ((B) and (C)))");
}

#[test]
fn parentheses_override_precedence() {
    assert_eq!(shape_of("(A | B) & C").unwrap(), "((A or B) and C)");
    assert_eq!(text_of("(A | B) & C").unwrap(), "(((A) or (B)) and (C))");
    assert_eq!(shape_of("(A -> B) -> C").unwrap(), "((A implies B) implies C)");
}

#[test]
fn negation_binds_tighter_than_binary_operators() {
    assert_eq!(shape_of("!A & B").unwrap(), "((Not A) and B)");
    assert_eq!(text_of("!A & B").unwrap(), "((Not (A)) and (B))");
    assert_eq!(shape_of("!A | B").unwrap(), "((Not A) or B)");
    assert_eq!(shape_of("!A -> B").unwrap(), "((Not A) implies B)");
    assert_eq!(shape_of("A & !B").unwrap(), "(A and (Not B))");
}

#[test]
fn negation_node_has_a_right_child_only() {
    let node = parse("!A").unwrap();
    assert_eq!(node.name(), "Not");
    assert!(node.left().is_none());
    assert_eq!(node.right().unwrap().name(), "A");
}

#[test]
fn negation_of_a_parenthesised_formula() {
    assert_eq!(shape_of("!(A | B)").unwrap(), "(Not (A or B))");
    assert_eq!(text_of("!(A | B)").unwrap(), "(Not ((A) or (B)))");
}

#[test]
fn end_to_end_without_parentheses() {
    assert_eq!(shape_of("!A -> B | A & C").unwrap(), "((Not A) implies (B or (A and C)))");
    assert_eq!(
        parse_arithmetic("!A -> B | A & C").unwrap(),
        "((Not (A)) implies ((B) or ((A) and (C))))"
    );
}

#[test]
fn end_to_end_with_parentheses() {
    assert_eq!(shape_of("!A -> (B | A) & C").unwrap(), "((Not A) implies ((B or A) and C))");
    assert_eq!(
        parse_arithmetic("!A -> (B | A) & C").unwrap(),
        "((Not (A)) implies (((B) or (A)) and (C)))"
    );
}

#[test]
fn nested_parentheses_add_no_node() {
    assert_eq!(text_of("((A))").unwrap(), "(A)");
    assert_eq!(shape_of("((A) | ((B)))").unwrap(), "(A or B)");
}

#[test]
fn unmatched_closing_parenthesis_fails() {
    assert!(parse(")A(").is_none());
}

#[test]
fn missing_right_operand_fails() {
    assert!(parse("A->").is_none());
    assert!(parse("A|").is_none());
    assert!(parse("A&").is_none());
    assert!(parse("!").is_none());
    assert!(parse("A -> B |").is_none());
}

#[test]
fn empty_input_fails() {
    assert!(parse("").is_none());
    assert!(parse("   ").is_none());
    assert!(parse_arithmetic("").is_none());
}

#[test]
fn dash_without_arrowhead_fails() {
    assert!(parse("A-").is_none());
    assert!(parse("A-B").is_none());
    assert!(parse("A - | B").is_none());
}

#[test]
fn variable_followed_by_uppercase_fails() {
    assert!(parse("AB").is_none());
    assert!(parse("aB").is_none());
    assert!(parse("A B").is_none());
    assert!(parse("A | BC").is_none());
}

#[test]
fn variable_followed_by_lowercase_passes() {
    assert_eq!(text_of("Ab").unwrap(), "(A)");
    assert_eq!(text_of("ab").unwrap(), "(a)");
}

#[test]
fn uppercase_is_meant_as_in_unicode() {
    assert!(parse("a\u{394}").is_none());
    assert_eq!(text_of("a\u{3b4}").unwrap(), "(a)");
    assert_eq!(text_of("\u{394} & \u{3b4}").unwrap(), "((\u{394}) and (\u{3b4}))");
    assert_eq!(text_of("a\u{4e2d}").unwrap(), "(a)");
}

#[test]
fn missing_closing_parenthesis_fails() {
    assert!(parse("(A").is_none());
    assert!(parse("(A | B").is_none());
    assert!(parse("((A)").is_none());
    assert!(parse("()").is_none());
}

#[test]
fn what_follows_the_formula_is_not_read() {
    assert_eq!(text_of("A)").unwrap(), "(A)");
    assert_eq!(text_of("a | b c").unwrap(), "((a) or (b))");
}

#[test]
fn any_character_can_name_a_variable() {
    assert_eq!(text_of("1 & 2").unwrap(), "((1) and (2))");
    assert_eq!(text_of("|a").unwrap(), "(|)");
    assert_eq!(text_of("!!a").unwrap(), "(Not (!))");
    assert_eq!(text_of("\u{0}").unwrap(), "(\u{0})");
}

#[test]
fn failed_left_operand_fails_the_operator() {
    assert!(parse("(A-&B").is_none());
    assert!(parse("(A-|B").is_none());
    assert!(parse("AB&C").is_none());
}

#[test]
fn spaces_inside_the_arrow_do_not_matter() {
    assert_eq!(text_of("A - > B").unwrap(), "((A) implies (B))");
}

#[test]
fn parser_moves_on_with_each_start() {
    let mut parser = Parser::new("a | b c");
    assert_eq!(parser.start().unwrap().to_string(), "((a) or (b))");
    assert_eq!(parser.start().unwrap().to_string(), "(c)");
    assert!(parser.start().is_none());
    assert!(parser.start().is_none());
}

#[test]
fn parser_keeps_what_a_failure_has_read() {
    let mut parser = Parser::new("A-b");
    assert!(parser.start().is_none());
    assert_eq!(parser.start().unwrap().to_string(), "(b)");
}

#[test]
fn parser_start_agrees_with_parse() {
    let input = "!A -> (B | A) & C";
    let by_parser = Parser::new(input).start().unwrap().to_string();
    assert_eq!(by_parser, parse(input).unwrap().to_string());
}

#[test]
fn variable_is_refused_before_uppercase() {
    assert!(variable('A', true).is_none());
    assert!(variable('x', true).is_none());
}

#[test]
fn variable_is_a_leaf_named_by_its_character() {
    let leaf = variable('A', false).unwrap();
    assert_eq!(leaf.name(), "A");
    assert!(leaf.left().is_none());
    assert!(leaf.right().is_none());
    assert_eq!(variable('\u{3b4}', false).unwrap().name(), "\u{3b4}");
}

#[test]
fn parse_arithmetic_renders_the_tree() {
    assert_eq!(parse_arithmetic("A | B").unwrap(), "((A) or (B))");
    assert_eq!(parse_arithmetic("p").unwrap(), "(p)");
}

#[test]
fn parse_arithmetic_gives_nothing_on_malformed_input() {
    assert!(parse_arithmetic("A->").is_none());
    assert!(parse_arithmetic(")A(").is_none());
    assert!(parse_arithmetic("AB").is_none());
}
