//! The parser: a cursor over the significant characters, and one method for
//! each layer of the grammar.

use vstd::prelude::*;
use crate::grammar::{
    conjunction_at, disjunction_at, implication_at, joined, lemma_implication_sound, literal_at,
    lookahead, negation_at, nesting_bound, parsed, remaining, Outcome, END_OF_INPUT,
};
use crate::lexer::{lexer, significant};
use crate::tree::{render, Tree, TreeNode, AND, IMPLIES, NOT, OR};

verus! {

/// The tree that a parse result stands for.
pub open spec fn tree_of(node: Option<TreeNode>) -> Option<Tree> {
    match node {
        Some(n) => Some(n@),
        None => None,
    }
}

/// A variable named `name`, unless an uppercase character follows it.
pub fn variable(name: char, uppercase_follows: bool) -> (node: Option<TreeNode>)
    ensures
        tree_of(node) == crate::grammar::variable(name, uppercase_follows),
{
    if uppercase_follows {
        None
    } else {
        let mut text = String::new();
        text.push(name);
        Some(TreeNode::new(text.as_str()))
    }
}

/// The node named `name` over both operands, where there are both.
fn join(name: &str, left: Option<TreeNode>, right: Option<TreeNode>) -> (node: Option<TreeNode>)
    ensures
        tree_of(node) == joined(name@, tree_of(left), tree_of(right)),
{
    match (left, right) {
        (Some(l), Some(r)) => Some(TreeNode::binary(name, l, r)),
        _ => None,
    }
}

/// A parser over the significant characters of one input. It reads from left
/// to right and never goes back.
pub struct Parser {
    chars: Vec<char>,
    pos: usize,
}

impl Parser {
    #[verifier::type_invariant]
    spec fn within_input(&self) -> bool {
        self.pos <= self.chars.len()
    }

    /// The significant characters of the input.
    pub closed spec fn input(&self) -> Seq<char> {
        self.chars@
    }

    /// How many of them have been read.
    pub closed spec fn position(&self) -> nat {
        self.pos as nat
    }

    /// The next character to read, or [`END_OF_INPUT`].
    pub open spec fn lookahead(&self) -> char {
        lookahead(self.input(), self.position())
    }

    /// That `self` is `before` after reading what `outcome` consumed.
    pub open spec fn follows(&self, before: &Parser, outcome: Outcome) -> bool {
        &&& self.input() == before.input()
        &&& self.position() == before.position() + outcome.consumed
        &&& self.position() <= self.input().len()
    }

    /// A parser at the start of the significant characters of `s`.
    pub fn new(s: &str) -> (parser: Parser)
        ensures
            parser.input() == significant(s@),
            parser.position() == 0,
    {
        Parser { chars: lexer(s), pos: 0 }
    }

    /// The lookahead.
    fn current(&self) -> (c: char)
        ensures
            c == self.lookahead(),
    {
        proof {
            use_type_invariant(self);
        }
        if self.pos < self.chars.len() {
            self.chars[self.pos]
        } else {
            END_OF_INPUT
        }
    }

    /// Reads the lookahead if it is `c`, and says whether it did. At the end
    /// of the input there is nothing to read, also for [`END_OF_INPUT`].
    fn accept(&mut self, c: char) -> (accepted: bool)
        ensures
            accepted == (old(self).lookahead() == c),
            final(self).input() == old(self).input(),
            final(self).position() == if accepted && old(self).position() < old(self).input().len() {
                old(self).position() + 1
            } else {
                old(self).position()
            },
    {
        proof {
            use_type_invariant(&*self);
        }
        if self.current() == c {
            if self.pos < self.chars.len() {
                self.pos = self.pos + 1;
            }
            true
        } else {
            false
        }
    }

    /// Parses a literal: see [`literal_at`].
    fn literal(&mut self) -> (node: Option<TreeNode>)
        ensures
            final(self).follows(old(self), literal_at(old(self).input(), old(self).position())),
            tree_of(node) == literal_at(old(self).input(), old(self).position()).tree,
        decreases nesting_bound(remaining(old(self).input(), old(self).position()), 0),
    {
        proof {
            use_type_invariant(&*self);
        }
        if self.accept('(') {
            let inner = self.start();
            if self.accept(')') {
                inner
            } else {
                None
            }
        } else if self.pos >= self.chars.len() {
            None
        } else {
            let name = self.current();
            self.pos = self.pos + 1;
            let uppercase_follows = self.current().is_uppercase();
            variable(name, uppercase_follows)
        }
    }

    /// Parses a negation: see [`negation_at`].
    fn negation(&mut self) -> (node: Option<TreeNode>)
        ensures
            final(self).follows(old(self), negation_at(old(self).input(), old(self).position())),
            tree_of(node) == negation_at(old(self).input(), old(self).position()).tree,
        decreases nesting_bound(remaining(old(self).input(), old(self).position()), 1),
    {
        if self.accept('!') {
            match self.literal() {
                Some(operand) => Some(TreeNode::unary(NOT, operand)),
                None => None,
            }
        } else {
            self.literal()
        }
    }

    /// Parses a conjunction: see [`conjunction_at`].
    fn conjunction(&mut self) -> (node: Option<TreeNode>)
        ensures
            final(self).follows(old(self), conjunction_at(old(self).input(), old(self).position())),
            tree_of(node) == conjunction_at(old(self).input(), old(self).position()).tree,
        decreases nesting_bound(remaining(old(self).input(), old(self).position()), 2),
    {
        let left = self.negation();
        if self.accept('&') {
            let right = self.conjunction();
            join(AND, left, right)
        } else {
            left
        }
    }

    /// Parses a disjunction: see [`disjunction_at`].
    fn disjunction(&mut self) -> (node: Option<TreeNode>)
        ensures
            final(self).follows(old(self), disjunction_at(old(self).input(), old(self).position())),
            tree_of(node) == disjunction_at(old(self).input(), old(self).position()).tree,
        decreases nesting_bound(remaining(old(self).input(), old(self).position()), 3),
    {
        let left = self.conjunction();
        if self.accept('|') {
            let right = self.disjunction();
            join(OR, left, right)
        } else {
            left
        }
    }

    /// Parses an implication, the loosest layer of the grammar, at the
    /// parser's position: see [`implication_at`]. The parser moves past what
    /// was read, whether a tree came of it or not, so that a further call goes
    /// on from there. A tree that comes back is a formula.
    pub fn start(&mut self) -> (node: Option<TreeNode>)
        ensures
            final(self).follows(old(self), implication_at(old(self).input(), old(self).position())),
            tree_of(node) == implication_at(old(self).input(), old(self).position()).tree,
            node matches Some(n) ==> n@.is_formula(),
        decreases nesting_bound(remaining(old(self).input(), old(self).position()), 4),
    {
        proof {
            lemma_implication_sound(self.input(), self.position());
        }
        let left = self.disjunction();
        if self.accept('-') {
            if self.accept('>') {
                let right = self.start();
                join(IMPLIES, left, right)
            } else {
                None
            }
        } else {
            left
        }
    }
}

/// Parses `input`: the tree of [`parsed`], or nothing where the input is
/// malformed. A tree that comes back is a formula.
pub fn parse(input: &str) -> (node: Option<TreeNode>)
    ensures
        tree_of(node) == parsed(input@),
        node matches Some(n) ==> n@.is_formula(),
{
    let mut parser = Parser::new(input);
    parser.start()
}

/// Parses `input` and renders the tree: the text of [`render`], or nothing
/// where the input is malformed.
pub fn parse_arithmetic(input: &str) -> (text: Option<String>)
    ensures
        match text {
            Some(t) => parsed(input@) matches Some(tree) && t@ == render(tree),
            None => parsed(input@) is None,
        },
{
    match parse(input) {
        Some(node) => Some(node.to_string()),
        None => None,
    }
}

} // verus!
