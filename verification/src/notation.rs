//! How a formula is written in the input language, and that the grammar reads
//! it back: the parentheses that precedence and right-associativity make
//! unnecessary are left out, and the parse still finds the same tree.

use vstd::prelude::*;
use crate::chars::unicode_uppercase;
use crate::grammar::{
    conjunction_at, disjunction_at, implication_at, layer_at, literal_at, lookahead, negation_at,
    parsed, Outcome, END_OF_INPUT,
};
use crate::lexer::{is_significant, lemma_significant_push, significant};
use crate::tree::{Tree, AND, IMPLIES, OR};

verus! {

/// The tightest layer of the grammar at which a formula can stand without
/// parentheses: 0 for a variable, 1 for a negation, 2 for a conjunction, 3
/// for a disjunction and 4 for an implication.
pub open spec fn level(t: Tree) -> nat {
    match (t.left, t.right) {
        (None, None) => 0,
        (None, Some(_)) => 1,
        _ => if t.name == AND@ {
            2
        } else if t.name == OR@ {
            3
        } else {
            4
        },
    }
}

/// The operator that stands for a binary node of the given name.
pub open spec fn operator(name: Seq<char>) -> Seq<char> {
    if name == AND@ {
        seq!['&']
    } else if name == OR@ {
        seq!['|']
    } else {
        seq!['-', '>']
    }
}

/// A formula as it is written where the grammar expects the given layer: in
/// parentheses where it binds more loosely than that layer; else a variable
/// by its name, a negation as `!` before its operand, and a binary formula
/// as its operator between its operands, the left one written for the next
/// tighter layer and the right one for the operator's own.
pub open spec fn written(t: Tree, layer: nat) -> Seq<char>
    decreases t, (if level(t) > layer { 1nat } else { 0nat }),
{
    if level(t) > layer {
        seq!['('] + written(t, 4) + seq![')']
    } else {
        match (t.left, t.right) {
            (None, Some(r)) => seq!['!'] + written(*r, 0),
            (Some(l), Some(r)) => written(*l, (level(t) - 1) as nat) + operator(t.name) + written(
                *r,
                level(t),
            ),
            _ => t.name,
        }
    }
}

/// Whether a variable of this name can be written: `(` and `!` would be read
/// as what they mean to the grammar, and a space would not be read at all.
pub open spec fn can_name_variable(c: char) -> bool {
    c != '(' && c != '!' && c != ' '
}

/// Whether a tree can be written: it is a formula, and all its variables can
/// be.
pub open spec fn writable(t: Tree) -> bool
    decreases t,
{
    &&& t.is_formula()
    &&& match (t.left, t.right) {
        (None, None) => can_name_variable(t.name[0]),
        (None, Some(r)) => writable(*r),
        (Some(l), Some(r)) => writable(*l) && writable(*r),
        (Some(_), None) => false,
    }
}

/// That none of the characters which can follow a variable in a written
/// formula counts as uppercase: the three operators' first characters, the
/// closing parenthesis and the mark of the end of the input. Unicode has it
/// so; the verifier is not told.
pub open spec fn marks_are_not_uppercase() -> bool {
    &&& !unicode_uppercase('&')
    &&& !unicode_uppercase('|')
    &&& !unicode_uppercase('-')
    &&& !unicode_uppercase(')')
    &&& !unicode_uppercase(END_OF_INPUT)
}

/// Asks the standard library whether [`marks_are_not_uppercase`] holds.
pub fn check_marks() -> (holds: bool)
    ensures
        holds == marks_are_not_uppercase(),
{
    !'&'.is_uppercase() && !'|'.is_uppercase() && !'-'.is_uppercase() && !')'.is_uppercase()
        && !END_OF_INPUT.is_uppercase()
}

/// Whether `c`, as the lookahead behind what a layer has read, ends that
/// layer: it refuses no variable before it, and it is none of the operators
/// with which the layer, or a tighter one, would go on.
spec fn stops(layer: nat, c: char) -> bool {
    &&& !unicode_uppercase(c)
    &&& layer >= 2 ==> c != '&'
    &&& layer >= 3 ==> c != '|'
    &&& layer >= 4 ==> c != '-'
}

/// Whether `text` stands in `input` from `pos` on.
#[verifier::opaque]
spec fn occurs_at(text: Seq<char>, input: Seq<char>, pos: nat) -> bool {
    &&& pos + text.len() <= input.len()
    &&& forall|i: int| 0 <= i < text.len() ==> input[pos + i] == #[trigger] text[i]
}

/// Where a text stands, its front and its back stand too.
proof fn lemma_occurs_parts(front: Seq<char>, back: Seq<char>, input: Seq<char>, pos: nat)
    requires
        occurs_at(front + back, input, pos),
    ensures
        occurs_at(front, input, pos),
        occurs_at(back, input, pos + front.len()),
{
    reveal(occurs_at);
    let whole = front + back;
    assert forall|i: int| 0 <= i < front.len() implies input[pos + i] == #[trigger] front[i] by {
        assert(whole[i] == front[i]);
    }
    assert forall|i: int| 0 <= i < back.len() implies input[pos + front.len() + i]
        == #[trigger] back[i] by {
        assert(whole[front.len() + i] == back[i]);
    }
}

/// Where a text of one character stands, that character is the lookahead.
proof fn lemma_occurs_one(c: char, input: Seq<char>, pos: nat)
    requires
        occurs_at(seq![c], input, pos),
    ensures
        pos < input.len(),
        lookahead(input, pos) == c,
{
    reveal(occurs_at);
    assert(input[pos + 0int] == seq![c][0]);
}

/// A text stands at the start of itself.
proof fn lemma_occurs_in_itself(text: Seq<char>)
    ensures
        occurs_at(text, text, 0),
{
    reveal(occurs_at);
}

/// A looser layer hands on what a tighter one has read, where the lookahead
/// behind it ends the looser layer too.
proof fn lemma_passes_up(input: Seq<char>, pos: nat, from: nat, to: nat)
    requires
        from <= to <= 4,
        stops(to, lookahead(input, pos + layer_at(from, input, pos).consumed)),
        from == 0 ==> lookahead(input, pos) != '!',
    ensures
        layer_at(to, input, pos) == layer_at(from, input, pos),
    decreases to - from,
{
    if from < to {
        assert(layer_at(from + 1, input, pos) == layer_at(from, input, pos));
        lemma_passes_up(input, pos, from + 1, to);
    }
}

/// A variable is read back.
proof fn lemma_reads_variable(t: Tree, layer: nat, input: Seq<char>, pos: nat)
    requires
        writable(t),
        layer <= 4,
        t.left is None,
        t.right is None,
        occurs_at(t.name, input, pos),
        stops(layer, lookahead(input, pos + 1)),
    ensures
        layer_at(layer, input, pos) == (Outcome { tree: Some(t), consumed: 1 }),
{
    assert(t.name =~= seq![t.name[0]]);
    lemma_occurs_one(t.name[0], input, pos);
    assert(literal_at(input, pos) == (Outcome { tree: Some(t), consumed: 1 }));
    lemma_passes_up(input, pos, 0, layer);
}

/// A formula in parentheses is read back, given that the implication inside
/// them is.
proof fn lemma_reads_parenthesised(t: Tree, inner: nat, layer: nat, input: Seq<char>, pos: nat)
    requires
        layer <= 4,
        marks_are_not_uppercase(),
        lookahead(input, pos) == '(',
        implication_at(input, pos + 1) == (Outcome { tree: Some(t), consumed: inner }),
        lookahead(input, pos + 1 + inner) == ')',
        stops(layer, lookahead(input, pos + inner + 2)),
    ensures
        layer_at(layer, input, pos) == (Outcome { tree: Some(t), consumed: inner + 2 }),
{
    assert(literal_at(input, pos) == (Outcome { tree: Some(t), consumed: inner + 2 }));
    lemma_passes_up(input, pos, 0, layer);
}

/// A negation is read back, given that its operand is.
proof fn lemma_reads_negation(t: Tree, operand: nat, layer: nat, input: Seq<char>, pos: nat)
    requires
        t.is_formula(),
        t.left is None,
        t.right is Some,
        1 <= layer <= 4,
        lookahead(input, pos) == '!',
        literal_at(input, pos + 1) == (Outcome { tree: Some(*t.right->0), consumed: operand }),
        stops(layer, lookahead(input, pos + operand + 1)),
    ensures
        layer_at(layer, input, pos) == (Outcome { tree: Some(t), consumed: operand + 1 }),
{
    assert(negation_at(input, pos) == (Outcome { tree: Some(t), consumed: operand + 1 }));
    lemma_passes_up(input, pos, 1, layer);
}

/// A conjunction is read back, given that both its sides are.
proof fn lemma_reads_conjunction(
    t: Tree,
    left: nat,
    right: nat,
    layer: nat,
    input: Seq<char>,
    pos: nat,
)
    requires
        t.left is Some,
        t.right is Some,
        t.name == AND@,
        2 <= layer <= 4,
        negation_at(input, pos) == (Outcome { tree: Some(*t.left->0), consumed: left }),
        lookahead(input, pos + left) == '&',
        conjunction_at(input, pos + left + 1) == (Outcome {
            tree: Some(*t.right->0),
            consumed: right,
        }),
        stops(layer, lookahead(input, pos + left + 1 + right)),
    ensures
        layer_at(layer, input, pos) == (Outcome { tree: Some(t), consumed: left + 1 + right }),
{
    assert(conjunction_at(input, pos) == (Outcome { tree: Some(t), consumed: left + 1 + right }));
    lemma_passes_up(input, pos, 2, layer);
}

/// A disjunction is read back, given that both its sides are.
proof fn lemma_reads_disjunction(
    t: Tree,
    left: nat,
    right: nat,
    layer: nat,
    input: Seq<char>,
    pos: nat,
)
    requires
        t.left is Some,
        t.right is Some,
        t.name == OR@,
        3 <= layer <= 4,
        conjunction_at(input, pos) == (Outcome { tree: Some(*t.left->0), consumed: left }),
        lookahead(input, pos + left) == '|',
        disjunction_at(input, pos + left + 1) == (Outcome {
            tree: Some(*t.right->0),
            consumed: right,
        }),
        stops(layer, lookahead(input, pos + left + 1 + right)),
    ensures
        layer_at(layer, input, pos) == (Outcome { tree: Some(t), consumed: left + 1 + right }),
{
    assert(disjunction_at(input, pos) == (Outcome { tree: Some(t), consumed: left + 1 + right }));
    lemma_passes_up(input, pos, 3, layer);
}

/// An implication is read back, given that both its sides are.
proof fn lemma_reads_implication(t: Tree, left: nat, right: nat, input: Seq<char>, pos: nat)
    requires
        t.left is Some,
        t.right is Some,
        t.name == IMPLIES@,
        disjunction_at(input, pos) == (Outcome { tree: Some(*t.left->0), consumed: left }),
        lookahead(input, pos + left) == '-',
        lookahead(input, pos + left + 1) == '>',
        implication_at(input, pos + left + 2) == (Outcome {
            tree: Some(*t.right->0),
            consumed: right,
        }),
    ensures
        implication_at(input, pos) == (Outcome { tree: Some(t), consumed: left + 2 + right }),
{
}

/// Where a formula in parentheses stands, so do its parts.
proof fn lemma_parts_parenthesised(t: Tree, layer: nat, input: Seq<char>, pos: nat)
    requires
        level(t) > layer,
        occurs_at(written(t, layer), input, pos),
    ensures
        written(t, layer).len() == written(t, 4).len() + 2,
        lookahead(input, pos) == '(',
        occurs_at(written(t, 4), input, pos + 1),
        lookahead(input, pos + 1 + written(t, 4).len()) == ')',
{
    let inner = written(t, 4);
    lemma_occurs_parts(seq!['('] + inner, seq![')'], input, pos);
    lemma_occurs_parts(seq!['('], inner, input, pos);
    lemma_occurs_one('(', input, pos);
    lemma_occurs_one(')', input, pos + 1 + inner.len());
}

/// Where a negation stands, so do its parts.
proof fn lemma_parts_negation(t: Tree, layer: nat, input: Seq<char>, pos: nat)
    requires
        level(t) <= layer,
        t.left is None,
        t.right is Some,
        occurs_at(written(t, layer), input, pos),
    ensures
        written(t, layer).len() == written(*t.right->0, 0).len() + 1,
        lookahead(input, pos) == '!',
        occurs_at(written(*t.right->0, 0), input, pos + 1),
{
    lemma_occurs_parts(seq!['!'], written(*t.right->0, 0), input, pos);
    lemma_occurs_one('!', input, pos);
}

/// Where a binary formula stands, so do its parts.
proof fn lemma_parts_binary(t: Tree, layer: nat, input: Seq<char>, pos: nat)
    requires
        level(t) <= layer,
        t.left is Some,
        t.right is Some,
        occurs_at(written(t, layer), input, pos),
    ensures
        ({
            let left = written(*t.left->0, (level(t) - 1) as nat);
            let right = written(*t.right->0, level(t));
            let sign = operator(t.name);
            &&& written(t, layer).len() == left.len() + sign.len() + right.len()
            &&& occurs_at(left, input, pos)
            &&& lookahead(input, pos + left.len()) == sign[0]
            &&& sign.len() == 2 ==> lookahead(input, pos + left.len() + 1) == sign[1]
            &&& occurs_at(right, input, pos + left.len() + sign.len())
        }),
{
    let left = written(*t.left->0, (level(t) - 1) as nat);
    let right = written(*t.right->0, level(t));
    let sign = operator(t.name);
    lemma_occurs_parts(left + sign, right, input, pos);
    lemma_occurs_parts(left, sign, input, pos);
    if sign.len() == 2 {
        assert(sign =~= seq![sign[0]] + seq![sign[1]]);
        lemma_occurs_parts(seq![sign[0]], seq![sign[1]], input, pos + left.len());
        lemma_occurs_one(sign[0], input, pos + left.len());
        lemma_occurs_one(sign[1], input, pos + left.len() + 1);
    } else {
        assert(sign =~= seq![sign[0]]);
        lemma_occurs_one(sign[0], input, pos + left.len());
    }
}

/// A binary formula is read back, given that both its sides are.
proof fn lemma_reads_binary(
    t: Tree,
    left: nat,
    right: nat,
    layer: nat,
    input: Seq<char>,
    pos: nat,
)
    requires
        t.is_formula(),
        t.left is Some,
        t.right is Some,
        level(t) <= layer <= 4,
        layer_at((level(t) - 1) as nat, input, pos) == (Outcome {
            tree: Some(*t.left->0),
            consumed: left,
        }),
        lookahead(input, pos + left) == operator(t.name)[0],
        operator(t.name).len() == 2 ==> lookahead(input, pos + left + 1) == operator(t.name)[1],
        layer_at(level(t), input, pos + left + operator(t.name).len()) == (Outcome {
            tree: Some(*t.right->0),
            consumed: right,
        }),
        stops(layer, lookahead(input, pos + left + operator(t.name).len() + right)),
    ensures
        layer_at(layer, input, pos) == (Outcome {
            tree: Some(t),
            consumed: left + operator(t.name).len() + right,
        }),
{
    let sign = operator(t.name);
    if t.name == AND@ {
        assert(level(t) == 2);
        assert(sign.len() == 1 && sign[0] == '&');
        lemma_reads_conjunction(t, left, right, layer, input, pos);
    } else if t.name == OR@ {
        assert(level(t) == 3);
        assert(sign.len() == 1 && sign[0] == '|');
        lemma_reads_disjunction(t, left, right, layer, input, pos);
    } else {
        assert(level(t) == 4);
        assert(t.name == IMPLIES@);
        assert(sign.len() == 2 && sign[0] == '-' && sign[1] == '>');
        lemma_reads_implication(t, left, right, input, pos);
    }
}

/// The first character of a binary formula's operator ends the layer of its
/// left side.
proof fn lemma_operator_stops(t: Tree)
    requires
        marks_are_not_uppercase(),
        level(t) >= 2,
    ensures
        stops((level(t) - 1) as nat, operator(t.name)[0]),
{
}

/// Where a writable formula stands as it is written for a layer, and what
/// follows it ends that layer, the layer reads exactly that formula.
proof fn lemma_reads_back(t: Tree, layer: nat, input: Seq<char>, pos: nat)
    requires
        writable(t),
        layer <= 4,
        marks_are_not_uppercase(),
        occurs_at(written(t, layer), input, pos),
        stops(layer, lookahead(input, pos + written(t, layer).len())),
    ensures
        layer_at(layer, input, pos) == (Outcome {
            tree: Some(t),
            consumed: written(t, layer).len(),
        }),
    decreases t, (if level(t) > layer { 1nat } else { 0nat }),
{
    if level(t) > layer {
        lemma_parts_parenthesised(t, layer, input, pos);
        lemma_reads_back(t, 4, input, pos + 1);
        lemma_reads_parenthesised(t, written(t, 4).len(), layer, input, pos);
    } else if t.left is None && t.right is None {
        lemma_reads_variable(t, layer, input, pos);
    } else if t.left is None {
        let r = *t.right->0;
        lemma_parts_negation(t, layer, input, pos);
        lemma_reads_back(r, 0, input, pos + 1);
        lemma_reads_negation(t, written(r, 0).len(), layer, input, pos);
    } else {
        let l = *t.left->0;
        let r = *t.right->0;
        let tight = (level(t) - 1) as nat;
        let left = written(l, tight);
        let right = written(r, level(t));
        let sign = operator(t.name);
        lemma_parts_binary(t, layer, input, pos);
        lemma_operator_stops(t);
        lemma_reads_back(l, tight, input, pos);
        lemma_reads_back(r, level(t), input, pos + left.len() + sign.len());
        lemma_reads_binary(t, left.len(), right.len(), layer, input, pos);
    }
}

/// Whether the lexer hands `text` on as it is.
spec fn spaceless(text: Seq<char>) -> bool {
    significant(text) == text
}

/// One character that is no space is handed on.
proof fn lemma_one_is_spaceless(c: char)
    requires
        is_significant(c),
    ensures
        spaceless(seq![c]),
{
    reveal(Seq::filter);
    assert(seq![c] =~= Seq::<char>::empty().push(c));
    lemma_significant_push(Seq::<char>::empty(), c);
}

/// Three texts without a space make one without a space.
proof fn lemma_joined_is_spaceless(front: Seq<char>, middle: Seq<char>, back: Seq<char>)
    requires
        spaceless(front),
        spaceless(middle),
        spaceless(back),
    ensures
        spaceless(front + middle + back),
{
    let keep = |c: char| is_significant(c);
    Seq::filter_distributes_over_add(front, middle, keep);
    Seq::filter_distributes_over_add(front + middle, back, keep);
}

/// A written formula holds no space.
proof fn lemma_written_is_spaceless(t: Tree, layer: nat)
    requires
        writable(t),
    ensures
        spaceless(written(t, layer)),
    decreases t, (if level(t) > layer { 1nat } else { 0nat }),
{
    if level(t) > layer {
        lemma_written_is_spaceless(t, 4);
        lemma_one_is_spaceless('(');
        lemma_one_is_spaceless(')');
        lemma_joined_is_spaceless(seq!['('], written(t, 4), seq![')']);
    } else if t.left is None && t.right is None {
        assert(t.name =~= seq![t.name[0]]);
        lemma_one_is_spaceless(t.name[0]);
    } else if t.left is None {
        let r = *t.right->0;
        lemma_written_is_spaceless(r, 0);
        lemma_negation_is_spaceless(t, layer);
    } else {
        let l = *t.left->0;
        let r = *t.right->0;
        lemma_written_is_spaceless(l, (level(t) - 1) as nat);
        lemma_written_is_spaceless(r, level(t));
        lemma_binary_is_spaceless(t, layer);
    }
}

/// A written negation holds no space where its operand holds none.
proof fn lemma_negation_is_spaceless(t: Tree, layer: nat)
    requires
        level(t) <= layer,
        t.left is None,
        t.right is Some,
        spaceless(written(*t.right->0, 0)),
    ensures
        spaceless(written(t, layer)),
{
    assert(spaceless(Seq::<char>::empty())) by {
        reveal(Seq::filter);
    }
    lemma_one_is_spaceless('!');
    lemma_joined_is_spaceless(Seq::empty(), seq!['!'], written(*t.right->0, 0));
    assert(Seq::<char>::empty() + seq!['!'] =~= seq!['!']);
}

/// An operator holds no space.
proof fn lemma_operator_is_spaceless(name: Seq<char>)
    ensures
        spaceless(operator(name)),
{
    if operator(name).len() == 2 {
        assert(spaceless(Seq::<char>::empty())) by {
            reveal(Seq::filter);
        }
        lemma_one_is_spaceless('-');
        lemma_one_is_spaceless('>');
        lemma_joined_is_spaceless(Seq::empty(), seq!['-'], seq!['>']);
        assert(Seq::<char>::empty() + seq!['-'] + seq!['>'] =~= seq!['-', '>']);
    } else {
        lemma_one_is_spaceless(operator(name)[0]);
        assert(operator(name) =~= seq![operator(name)[0]]);
    }
}

/// A written binary formula holds no space where its two sides hold none.
proof fn lemma_binary_is_spaceless(t: Tree, layer: nat)
    requires
        level(t) <= layer,
        t.left is Some,
        t.right is Some,
        spaceless(written(*t.left->0, (level(t) - 1) as nat)),
        spaceless(written(*t.right->0, level(t))),
    ensures
        spaceless(written(t, layer)),
{
    lemma_operator_is_spaceless(t.name);
    lemma_joined_is_spaceless(
        written(*t.left->0, (level(t) - 1) as nat),
        operator(t.name),
        written(*t.right->0, level(t)),
    );
}

/// Writing and parsing agree: a writable formula, written with no more
/// parentheses than precedence and right-associativity ask for, parses to
/// itself. So `&` binds tighter than `|`, and `|` tighter than `->`; each of
/// the three groups to the right; `!` binds tighter than all of them; and
/// parentheses override all of this.
///
/// The law holds given [`marks_are_not_uppercase`], which [`check_marks`]
/// tests.
pub proof fn lemma_written_parses_back(t: Tree)
    requires
        writable(t),
    ensures
        marks_are_not_uppercase() ==> parsed(written(t, 4)) == Some(t),
{
    if marks_are_not_uppercase() {
        let text = written(t, 4);
        lemma_written_is_spaceless(t, 4);
        lemma_occurs_in_itself(text);
        lemma_reads_back(t, 4, text, 0);
    }
}

} // verus!
