//! Building text one character at a time.

use vstd::prelude::*;

verus! {

/// `String::push` puts the character at the end of the text and leaves what
/// was there as it was.
pub assume_specification[ String::push ](text: &mut String, c: char)
    ensures
        final(text)@ == old(text)@.push(c),
;

} // verus!
