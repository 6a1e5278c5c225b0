use formula_parser::lexer;

#[test]
fn lexer_drops_spaces() {
    assert_eq!(lexer("A | B & C"), vec!['A', '|', 'B', '&', 'C']);
}

#[test]
fn lexer_keeps_the_order() {
    assert_eq!(lexer(" c  b a "), vec!['c', 'b', 'a']);
}

#[test]
fn lexer_of_nothing_is_nothing() {
    assert_eq!(lexer(""), Vec::<char>::new());
    assert_eq!(lexer("    "), Vec::<char>::new());
}

#[test]
fn lexer_drops_nothing_but_the_space() {
    assert_eq!(lexer("a\tb\nc"), vec!['a', '\t', 'b', '\n', 'c']);
    assert_eq!(lexer("aB9_$\u{a0}"), vec!['a', 'B', '9', '_', '$', '\u{a0}']);
}

#[test]
fn lexer_changes_nothing_without_spaces() {
    assert_eq!(lexer("!A->(B|A)&C"), "!A->(B|A)&C".chars().collect::<Vec<char>>());
}

#[test]
fn lexing_again_changes_nothing() {
    let once: String = lexer(" ! A -> ( B | A ) & C ").into_iter().collect();
    let twice: String = lexer(&once).into_iter().collect();
    assert_eq!(once, "!A->(B|A)&C");
    assert_eq!(twice, once);
}
