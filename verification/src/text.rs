//! What the library takes for granted of the standard string type.

use vstd::prelude::*;

verus! {

/// `String::push` appends the given character to the end of the string and changes
/// nothing else: the characters held before stay, in their order.
pub assume_specification[ String::push ](s: &mut String, c: char)
    ensures
        final(s)@ == old(s)@.push(c),
;

} // verus!
