//! Note names for display.
//!
//! A name such as `G♭4` is shown with its octave as a subscript, and names spelled with a
//! flat are the ones to be spelled anew with a sharp.

use vstd::prelude::*;
use vstd::string::*;

verus! {

/// The subscript form of a digit; any other character unchanged.
pub open spec fn subscript(c: char) -> char {
    if c == '0' {
        '₀'
    } else if c == '1' {
        '₁'
    } else if c == '2' {
        '₂'
    } else if c == '3' {
        '₃'
    } else if c == '4' {
        '₄'
    } else if c == '5' {
        '₅'
    } else if c == '6' {
        '₆'
    } else if c == '7' {
        '₇'
    } else if c == '8' {
        '₈'
    } else if c == '9' {
        '₉'
    } else {
        c
    }
}

/// The name with each of its digits as a subscript.
pub open spec fn with_subscripts(name: Seq<char>) -> Seq<char> {
    Seq::new(name.len(), |i: int| subscript(name[i]))
}

fn subscript_char(c: char) -> (r: char)
    ensures
        r == subscript(c),
{
    match c {
        '0' => '₀',
        '1' => '₁',
        '2' => '₂',
        '3' => '₃',
        '4' => '₄',
        '5' => '₅',
        '6' => '₆',
        '7' => '₇',
        '8' => '₈',
        '9' => '₉',
        _ => c,
    }
}

/// Whether a note name is spelled with a flat sign.
pub fn has_flat(name: &str) -> (found: bool)
    ensures
        found == name@.contains('♭'),
{
    broadcast use group_string_axioms;

    let mut found = false;
    for c in it: name.chars()
        invariant
            it.seq() == name@,
            found == exists|j: int| 0 <= j < it.index() && name@[j] == '♭',
    {
        found = found || c == '♭';
    }
    found
}

/// Writes the octave of a note name, and every other digit in it, as a subscript.
pub fn subscript_digits(name: &str) -> (shown: String)
    ensures
        shown@ == with_subscripts(name@),
{
    broadcast use group_string_axioms;

    let mut shown = String::new();
    for c in it: name.chars()
        invariant
            it.seq() == name@,
            shown@.len() == it.index(),
            forall|j: int| 0 <= j < shown@.len() ==> shown@[j] == subscript(name@[j]),
    {
        shown.push(subscript_char(c));
    }
    assert(shown@ =~= with_subscripts(name@));
    shown
}

} // verus!
