//! The symbol table: key codes are ASCII values.

use vstd::prelude::*;

verus! {

/// Code of the backspace key.
pub const BACKSPACE: u8 = 8;

/// Code of the tab key.
pub const TAB: u8 = 9;

/// Code of the enter key.
pub const ENTER: u8 = 13;

/// Code of the escape key.
pub const ESC: u8 = 27;

/// Code of the space bar.
pub const SPACE: u8 = 32;

/// Code of the `<` key, which has a name because a bare `<` opens a token.
pub const LESS_THAN_SIGN: u8 = 60;

/// Code of the delete key.
pub const DELETE: u8 = 127;

/// The symbolic identity of a key: its ASCII value.
///
/// Two key codes are equal exactly when their ASCII values are equal.
#[derive(Clone, Copy, PartialEq, Eq, Structural, Debug)]
pub struct KeyCode {
    ascii: u8,
}

/// The reason why a value has no key code: it lies outside ASCII.
#[derive(Clone, Copy, PartialEq, Eq, Structural, Debug)]
pub struct OutOfRange {
    pub value: u8,
}

impl View for KeyCode {
    type V = u8;

    /// The ASCII value that the code stands for.
    closed spec fn view(&self) -> u8 {
        self.ascii
    }
}

/// The code of an ASCII value, or the value itself where it has none.
pub closed spec fn code_of(ascii: u8) -> Result<KeyCode, OutOfRange> {
    if ascii < 128 {
        Ok(KeyCode { ascii })
    } else {
        Err(OutOfRange { value: ascii })
    }
}

/// The character of a key code.
pub open spec fn ascii_of(code: KeyCode) -> char {
    code@ as char
}

impl KeyCode {
    /// A key code is well formed when its value is an ASCII value.
    pub open spec fn wf(self) -> bool {
        self@ < 128
    }

    /// Looks up the code of an ASCII value; a value of 128 or more has none.
    pub fn from_ascii(ascii: u8) -> (r: Result<KeyCode, OutOfRange>)
        ensures
            r == code_of(ascii),
            r is Ok <==> ascii < 128,
            r is Ok ==> r->Ok_0@ == ascii && r->Ok_0.wf(),
            r is Err ==> r->Err_0.value == ascii,
    {
        if ascii < 128 {
            Ok(KeyCode { ascii })
        } else {
            Err(OutOfRange { value: ascii })
        }
    }

    /// The ASCII character of the code.
    pub fn as_ascii(&self) -> (c: char)
        ensures
            c == ascii_of(*self),
            c as u8 == self@,
    {
        self.ascii as char
    }

    /// The ASCII value of the code.
    pub fn value(&self) -> (b: u8)
        ensures
            b == self@,
    {
        self.ascii
    }
}

/// A key code is determined by its value.
pub proof fn lemma_code_by_value(a: KeyCode, b: KeyCode)
    ensures
        (a@ == b@) == (a == b),
{
}

/// What the lookup gives: a code with the value asked for, for ASCII values only.
pub proof fn lemma_code_of(ascii: u8)
    ensures
        code_of(ascii) is Ok <==> ascii < 128,
        code_of(ascii) is Ok ==> code_of(ascii)->Ok_0@ == ascii,
        code_of(ascii) is Err ==> code_of(ascii)->Err_0.value == ascii,
{
}

/// The character of a well-formed code leads back to that code.
pub proof fn lemma_code_round_trip(code: KeyCode)
    requires
        code.wf(),
    ensures
        code_of(ascii_of(code) as u8) == Ok::<KeyCode, OutOfRange>(code),
{
}

} // verus!
