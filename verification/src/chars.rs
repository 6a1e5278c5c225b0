//! What this library takes on trust from the standard library's `char` and
//! `String`.

use vstd::prelude::*;

verus! {

/// Whether `c` has the Unicode `Uppercase` property, as `char::is_uppercase`
/// reports it. The property is a table of the Unicode Character Database, so
/// it has a name here and no definition.
pub uninterp spec fn unicode_uppercase(c: char) -> bool;

/// `char::is_uppercase` depends on the character alone: its result is
/// [`unicode_uppercase`] of it. Nothing else is claimed.
pub assume_specification[ char::is_uppercase ](c: char) -> (upper: bool)
    ensures
        upper == unicode_uppercase(c),
;

/// `String::push` appends the character to the end of the string and leaves
/// the rest as it was.
pub assume_specification[ String::push ](s: &mut String, c: char)
    ensures
        final(s)@ == old(s)@.push(c),
;

} // verus!
