//! The diagnostic text of keys: codes in decimal and modifiers as three
//! bits, as in `Key { code: 65, modifiers: 0b001 }`.

use vstd::prelude::*;
use crate::grammar::KeyView;

verus! {

/// The character of a digit below ten.
pub open spec fn digit(d: nat) -> char {
    ('0' as nat + d) as char
}

/// A number in decimal, without leading zeros.
pub open spec fn decimal(n: nat) -> Seq<char>
    decreases n,
{
    if n < 10 {
        seq![digit(n)]
    } else {
        decimal(n / 10).push(digit(n % 10))
    }
}

/// A flag as a binary digit.
pub open spec fn bit(flag: bool) -> char {
    if flag {
        '1'
    } else {
        '0'
    }
}

/// The diagnostic text of a key.  Of the three bits the first is Alt, the
/// second Control and the last Shift.
pub open spec fn debug_key(k: KeyView) -> Seq<char> {
    "Key { code: "@ + decimal(k.code as nat) + ", modifiers: 0b"@ + seq![
        bit(k.modifiers.alt),
        bit(k.modifiers.control),
        bit(k.modifiers.shift),
    ] + " }"@
}

/// The diagnostic texts of the keys, with a comma and a space between one
/// and the next.
pub open spec fn debug_list(keys: Seq<KeyView>) -> Seq<char>
    decreases keys.len(),
{
    if keys.len() == 0 {
        Seq::empty()
    } else if keys.len() == 1 {
        debug_key(keys[0])
    } else {
        debug_list(keys.drop_last()) + ", "@ + debug_key(keys.last())
    }
}

/// The diagnostic text of a sequence of keys: the list between square
/// brackets.
pub open spec fn debug_keymap(keys: Seq<KeyView>) -> Seq<char> {
    "["@ + debug_list(keys) + "]"@
}

} // verus!
