//! The grammar, as a function of the significant characters and a position.
//!
//! From the loosest to the tightest layer:
//!
//! ```text
//! implication  =  disjunction [ "->" implication ]
//! disjunction  =  conjunction [ "|" disjunction ]
//! conjunction  =  negation [ "&" conjunction ]
//! negation     =  [ "!" ] literal
//! literal      =  "(" implication ")"  |  any one character
//! ```
//!
//! Each layer reads from left to right with one character of lookahead and
//! never goes back: what a failed layer has read stays read.

use vstd::prelude::*;
use crate::chars::unicode_uppercase;
use crate::lexer::{lemma_significant_idempotent, lemma_significant_push, significant};
use crate::tree::{Tree, AND, IMPLIES, NOT, OR};

verus! {

/// The lookahead at the end of the input.
pub const END_OF_INPUT: char = '\0';

/// The character at `pos`, or [`END_OF_INPUT`] when the input has none there.
pub open spec fn lookahead(input: Seq<char>, pos: nat) -> char {
    if pos < input.len() {
        input[pos as int]
    } else {
        END_OF_INPUT
    }
}

/// What one layer of the grammar makes of the input at a position: the tree,
/// if there is one, and how many characters it read, with or without success.
pub struct Outcome {
    pub tree: Option<Tree>,
    pub consumed: nat,
}

/// A variable named `name`, which is refused when an uppercase character
/// follows it.
pub open spec fn variable(name: char, uppercase_follows: bool) -> Option<Tree> {
    if uppercase_follows {
        None
    } else {
        Some(Tree::leaf(seq![name]))
    }
}

/// The negation of an operand, where there is one.
pub open spec fn negated(operand: Option<Tree>) -> Option<Tree> {
    match operand {
        Some(t) => Some(Tree::unary(NOT@, t)),
        None => None,
    }
}

/// The node named `name` over both operands, where there are both.
pub open spec fn joined(name: Seq<char>, left: Option<Tree>, right: Option<Tree>) -> Option<Tree> {
    match (left, right) {
        (Some(l), Some(r)) => Some(Tree::binary(name, l, r)),
        _ => None,
    }
}

/// How many characters are left at `pos`.
pub open spec fn remaining(input: Seq<char>, pos: nat) -> nat {
    if pos < input.len() {
        (input.len() - pos) as nat
    } else {
        0
    }
}

/// A bound on how deep the calls nest below a layer that starts with
/// `remaining` characters left. The layers count from 0, the literal, to 4,
/// the implication: a layer calls the next tighter one at the same position,
/// and itself or a looser one only after it has read a character. So every
/// call that a layer makes has a smaller bound than the layer's own, and that
/// is how the layers are shown to end, here and in the parser.
pub open spec fn nesting_bound(remaining: nat, layer: nat) -> nat {
    5 * remaining + layer
}

/// A literal at `pos`: a parenthesised implication, which fails without its
/// closing parenthesis, or else the one character there as a variable. At the
/// end of the input there is no literal.
pub open spec fn literal_at(input: Seq<char>, pos: nat) -> Outcome
    decreases nesting_bound(remaining(input, pos), 0),
{
    if lookahead(input, pos) == '(' {
        let inner = implication_at(input, pos + 1);
        let end = pos + 1 + inner.consumed;
        if lookahead(input, end) == ')' {
            Outcome { tree: inner.tree, consumed: 1 + inner.consumed + 1 }
        } else {
            Outcome { tree: None, consumed: 1 + inner.consumed }
        }
    } else if pos >= input.len() {
        Outcome { tree: None, consumed: 0 }
    } else {
        Outcome {
            tree: variable(input[pos as int], unicode_uppercase(lookahead(input, pos + 1))),
            consumed: 1,
        }
    }
}

/// A negation at `pos`: a literal, under a `Not` node when `!` stands before it.
pub open spec fn negation_at(input: Seq<char>, pos: nat) -> Outcome
    decreases nesting_bound(remaining(input, pos), 1),
{
    if lookahead(input, pos) == '!' {
        let operand = literal_at(input, pos + 1);
        Outcome { tree: negated(operand.tree), consumed: 1 + operand.consumed }
    } else {
        literal_at(input, pos)
    }
}

/// A conjunction at `pos`: a negation, and where `&` follows it, a conjunction
/// to its right. Once `&` is read, the conjunction stands or falls with both
/// sides.
pub open spec fn conjunction_at(input: Seq<char>, pos: nat) -> Outcome
    decreases nesting_bound(remaining(input, pos), 2),
{
    let left = negation_at(input, pos);
    if lookahead(input, pos + left.consumed) == '&' {
        let right = conjunction_at(input, pos + left.consumed + 1);
        Outcome {
            tree: joined(AND@, left.tree, right.tree),
            consumed: left.consumed + 1 + right.consumed,
        }
    } else {
        left
    }
}

/// A disjunction at `pos`: a conjunction, and where `|` follows it, a
/// disjunction to its right. Once `|` is read, the disjunction stands or falls
/// with both sides.
pub open spec fn disjunction_at(input: Seq<char>, pos: nat) -> Outcome
    decreases nesting_bound(remaining(input, pos), 3),
{
    let left = conjunction_at(input, pos);
    if lookahead(input, pos + left.consumed) == '|' {
        let right = disjunction_at(input, pos + left.consumed + 1);
        Outcome {
            tree: joined(OR@, left.tree, right.tree),
            consumed: left.consumed + 1 + right.consumed,
        }
    } else {
        left
    }
}

/// An implication at `pos`: a disjunction, and where `->` follows it, an
/// implication to its right. A `-` without `>` behind it fails, whatever
/// stands to its left.
pub open spec fn implication_at(input: Seq<char>, pos: nat) -> Outcome
    decreases nesting_bound(remaining(input, pos), 4),
{
    let left = disjunction_at(input, pos);
    let arrow = pos + left.consumed;
    if lookahead(input, arrow) == '-' {
        if lookahead(input, arrow + 1) == '>' {
            let right = implication_at(input, arrow + 2);
            Outcome {
                tree: joined(IMPLIES@, left.tree, right.tree),
                consumed: left.consumed + 2 + right.consumed,
            }
        } else {
            Outcome { tree: None, consumed: left.consumed + 1 }
        }
    } else {
        left
    }
}

/// The outcome of the layer with the given number: 0 is the literal, 1 the
/// negation, 2 the conjunction, 3 the disjunction and 4 the implication.
pub open spec fn layer_at(layer: nat, input: Seq<char>, pos: nat) -> Outcome {
    if layer == 0 {
        literal_at(input, pos)
    } else if layer == 1 {
        negation_at(input, pos)
    } else if layer == 2 {
        conjunction_at(input, pos)
    } else if layer == 3 {
        disjunction_at(input, pos)
    } else {
        implication_at(input, pos)
    }
}

/// The tree that `text` parses to, if it does: the implication at the start
/// of its significant characters. What follows that implication is not read.
pub open spec fn parsed(text: Seq<char>) -> Option<Tree> {
    implication_at(significant(text), 0).tree
}

/// What holds of every outcome at `pos`: it reads no more than is left, and
/// its tree, if it has one, is a formula.
pub open spec fn sound(outcome: Outcome, input: Seq<char>, pos: nat) -> bool {
    &&& outcome.consumed <= remaining(input, pos)
    &&& outcome.tree matches Some(t) ==> t.is_formula()
}

/// A literal stays within the input and yields a formula or nothing.
pub proof fn lemma_literal_sound(input: Seq<char>, pos: nat)
    ensures
        sound(literal_at(input, pos), input, pos),
    decreases nesting_bound(remaining(input, pos), 0),
{
    if lookahead(input, pos) == '(' {
        lemma_implication_sound(input, pos + 1);
    }
}

/// A negation stays within the input and yields a formula or nothing.
pub proof fn lemma_negation_sound(input: Seq<char>, pos: nat)
    ensures
        sound(negation_at(input, pos), input, pos),
    decreases nesting_bound(remaining(input, pos), 1),
{
    if lookahead(input, pos) == '!' {
        lemma_literal_sound(input, pos + 1);
    } else {
        lemma_literal_sound(input, pos);
    }
}

/// A conjunction stays within the input and yields a formula or nothing.
pub proof fn lemma_conjunction_sound(input: Seq<char>, pos: nat)
    ensures
        sound(conjunction_at(input, pos), input, pos),
    decreases nesting_bound(remaining(input, pos), 2),
{
    lemma_negation_sound(input, pos);
    let left = negation_at(input, pos);
    if lookahead(input, pos + left.consumed) == '&' {
        lemma_conjunction_sound(input, pos + left.consumed + 1);
    }
}

/// A disjunction stays within the input and yields a formula or nothing.
pub proof fn lemma_disjunction_sound(input: Seq<char>, pos: nat)
    ensures
        sound(disjunction_at(input, pos), input, pos),
    decreases nesting_bound(remaining(input, pos), 3),
{
    lemma_conjunction_sound(input, pos);
    let left = conjunction_at(input, pos);
    if lookahead(input, pos + left.consumed) == '|' {
        lemma_disjunction_sound(input, pos + left.consumed + 1);
    }
}

/// An implication stays within the input and yields a formula or nothing.
pub proof fn lemma_implication_sound(input: Seq<char>, pos: nat)
    ensures
        sound(implication_at(input, pos), input, pos),
    decreases nesting_bound(remaining(input, pos), 4),
{
    lemma_disjunction_sound(input, pos);
    let left = disjunction_at(input, pos);
    let arrow = pos + left.consumed;
    if lookahead(input, arrow) == '-' && lookahead(input, arrow + 1) == '>' {
        lemma_implication_sound(input, arrow + 2);
    }
}

/// Spaces do not matter: a text parses to the tree that it parses to with its
/// spaces taken out, or fails as that does.
pub proof fn lemma_parse_ignores_spaces(text: Seq<char>)
    ensures
        parsed(text) == parsed(significant(text)),
{
    lemma_significant_idempotent(text);
}

/// A space put in anywhere changes nothing.
pub proof fn lemma_parse_ignores_inserted_space(before: Seq<char>, after: Seq<char>)
    ensures
        parsed(before + seq![' '] + after) == parsed(before + after),
{
    let keep = |c: char| crate::lexer::is_significant(c);
    let space = seq![' '];
    assert(significant(space) =~= Seq::<char>::empty()) by {
        reveal(Seq::filter);
        assert(space =~= Seq::<char>::empty().push(' '));
        lemma_significant_push(Seq::<char>::empty(), ' ');
    }
    Seq::filter_distributes_over_add(before, space, keep);
    Seq::filter_distributes_over_add(before + space, after, keep);
    Seq::filter_distributes_over_add(before, after, keep);
    assert(significant(before) + Seq::<char>::empty() =~= significant(before));
}

/// The depth of a parse is bounded by the length of the text: the bound at
/// which the loosest layer starts is at most five times that length, and
/// four.
pub proof fn lemma_nesting_within_length(text: Seq<char>)
    ensures
        nesting_bound(remaining(significant(text), 0), 4) <= 5 * text.len() + 4,
{
    text.lemma_filter_len(|c: char| crate::lexer::is_significant(c));
}

} // verus!
