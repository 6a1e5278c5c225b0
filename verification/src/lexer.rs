//! The lexer: the input without its spaces.

use vstd::prelude::*;

verus! {

/// Whether the lexer keeps `c`: every character but the space.
pub open spec fn is_significant(c: char) -> bool {
    c != ' '
}

/// The significant characters of `text`, in their order.
pub open spec fn significant(text: Seq<char>) -> Seq<char> {
    text.filter(|c: char| is_significant(c))
}

/// What the lexer does with one more character at the end of the text.
pub proof fn lemma_significant_push(text: Seq<char>, c: char)
    ensures
        significant(text.push(c)) == if is_significant(c) {
            significant(text).push(c)
        } else {
            significant(text)
        },
{
    reveal(Seq::filter);
    assert(text.push(c).drop_last() =~= text);
}

/// Every character that the lexer hands on is significant, so lexing its own
/// output changes nothing.
pub proof fn lemma_significant_idempotent(text: Seq<char>)
    ensures
        significant(significant(text)) == significant(text),
    decreases text.len(),
{
    reveal(Seq::filter);
    if text.len() > 0 {
        let front = text.drop_last();
        lemma_significant_idempotent(front);
        assert(front.push(text.last()) =~= text);
        lemma_significant_push(front, text.last());
        if is_significant(text.last()) {
            lemma_significant_push(significant(front), text.last());
        }
    }
}

/// The significant characters of `s`. Nothing but the space is dropped or
/// changed: letters of either case, digits and punctuation pass through.
pub fn lexer(s: &str) -> (chars: Vec<char>)
    ensures
        chars@ == significant(s@),
{
    let mut chars: Vec<char> = Vec::new();
    proof {
        reveal(Seq::filter);
        assert(s@.take(0) =~= Seq::<char>::empty());
    }
    for c in it: s.chars()
        invariant
            it.seq() == s@,
            chars@ == significant(it.seq().take(it.index())),
    {
        proof {
            let seen = it.seq().take(it.index());
            assert(it.seq().take(it.index() + 1) =~= seen.push(c));
            lemma_significant_push(seen, c);
        }
        if c != ' ' {
            chars.push(c);
        }
    }
    assert(s@.take(s@.len() as int) =~= s@);
    chars
}

} // verus!
