//! The notation of a single key, as mathematics: what a token means and how
//! a key is written.
//!
//! A token is either one bare character (`a`, `Z`, `;`) or a bracketed form
//! (`<CR>`, `<c-a>`, `<s-Tab>`).  A key is a code together with a set of
//! modifiers.

use vstd::prelude::*;
use vstd::utf8::is_ascii_chars;
use crate::code::{BACKSPACE, DELETE, ENTER, ESC, LESS_THAN_SIGN, SPACE, TAB};
use crate::error::{unsupported_key_format, ErrorView};
use crate::modifier::{KeyModifier, KeyModifiers};

verus! {

/// A key as plain data: its code and its modifiers.
pub struct KeyView {
    pub code: u8,
    pub modifiers: KeyModifiers,
}

/// `A` to `Z`.
pub open spec fn is_upper(c: char) -> bool {
    'A' <= c <= 'Z'
}

/// `a` to `z`.
pub open spec fn is_lower(c: char) -> bool {
    'a' <= c <= 'z'
}

/// `0` to `9`.
pub open spec fn is_decimal(c: char) -> bool {
    '0' <= c <= '9'
}

/// The upper-case form of a letter; any other character is left as it is.
pub open spec fn to_upper(c: char) -> char {
    if is_lower(c) {
        ((c as u8) - 32) as char
    } else {
        c
    }
}

/// The lower-case form of a letter; any other character is left as it is.
pub open spec fn to_lower(c: char) -> char {
    if is_upper(c) {
        ((c as u8) + 32) as char
    } else {
        c
    }
}

/// A text with every letter in lower case.
pub open spec fn lower_text(s: Seq<char>) -> Seq<char> {
    Seq::new(s.len(), |i: int| to_lower(s[i]))
}

/// The punctuation that may stand as a bare token.  `<` is not among it,
/// since it opens a bracketed token, and neither is the space.
pub open spec fn is_symbol(c: char) -> bool {
    ||| c == '!'
    ||| c == '"'
    ||| c == '#'
    ||| c == '$'
    ||| c == '%'
    ||| c == '&'
    ||| c == '\''
    ||| c == '('
    ||| c == ')'
    ||| c == '*'
    ||| c == '+'
    ||| c == '?'
    ||| c == '_'
    ||| c == '`'
    ||| c == '|'
    ||| c == '~'
    ||| c == '{'
    ||| c == '}'
    ||| c == '-'
    ||| c == '['
    ||| c == ']'
    ||| c == ','
    ||| c == '.'
    ||| c == '/'
    ||| c == ':'
    ||| c == ';'
    ||| c == '>'
    ||| c == '='
    ||| c == '@'
    ||| c == '\\'
    ||| c == '^'
}

/// Whether a character may stand as a bare token: in upper case it is a
/// letter, a digit or one of the symbols.
pub open spec fn is_bare(c: char) -> bool {
    let u = to_upper(c);
    is_upper(u) || is_decimal(u) || is_symbol(u)
}

/// The key of a bare character: the code is the upper-case form, and Shift
/// is set exactly for an upper-case letter.
pub open spec fn parse_bare(c: char) -> Option<KeyView> {
    if is_bare(c) {
        Some(
            KeyView {
                code: to_upper(c) as u8,
                modifiers: if is_upper(c) {
                    KeyModifiers::only(KeyModifier::Shift)
                } else {
                    KeyModifiers::none()
                },
            },
        )
    } else {
        None
    }
}

/// The modifier that a letter in front of the dash stands for; a letter
/// that names no modifier stands for none.
pub open spec fn explicit_modifier(c: char) -> KeyModifiers {
    let l = to_lower(c);
    if l == 'a' {
        KeyModifiers::only(KeyModifier::Alt)
    } else if l == 'c' {
        KeyModifiers::only(KeyModifier::Control)
    } else if l == 's' {
        KeyModifiers::only(KeyModifier::Shift)
    } else {
        KeyModifiers::none()
    }
}

/// The code that a name between brackets stands for, whatever its case.
pub open spec fn named_code(name: Seq<char>) -> Option<u8> {
    let l = lower_text(name);
    if l =~= "enter"@ || l =~= "cr"@ {
        Some(ENTER)
    } else if l =~= "tab"@ {
        Some(TAB)
    } else if l =~= "esc"@ {
        Some(ESC)
    } else if l =~= "leader"@ || l =~= "space"@ {
        Some(SPACE)
    } else if l =~= "bs"@ {
        Some(BACKSPACE)
    } else if l =~= "del"@ {
        Some(DELETE)
    } else if l =~= "lt"@ {
        Some(LESS_THAN_SIGN)
    } else {
        None
    }
}

/// Whether a bracketed token has a modifier letter and a dash after `<`.
pub open spec fn is_modded(s: Seq<char>) -> bool {
    s.len() > 2 && s[2] == '-'
}

/// The modifier that a bracketed token states before its base.
pub open spec fn modifier_of(s: Seq<char>) -> KeyModifiers {
    if is_modded(s) {
        explicit_modifier(s[1])
    } else {
        KeyModifiers::none()
    }
}

/// The base of a bracketed token: what stands between the dash, or `<`
/// where there is no dash, and the closing `>`.
pub open spec fn base_of(s: Seq<char>) -> Seq<char> {
    if is_modded(s) {
        s.subrange(3, s.len() - 1)
    } else {
        s.subrange(1, s.len() - 1)
    }
}

/// The failure to parse `text`.
pub open spec fn unsupported(text: Seq<char>) -> Result<KeyView, ErrorView> {
    Err(ErrorView { format: text, cause: unsupported_key_format() })
}

/// Whether a token of two or more characters has the shape `<...>` with
/// something between the brackets.
pub open spec fn is_bracketed(s: Seq<char>) -> bool {
    s.len() > 2 && s.first() == '<' && s.last() == '>'
}

/// What a token means: the key, or the text that is at fault.
///
/// A token that is not ASCII or is empty is refused.  A token of one
/// character is a bare key.  A longer one must be bracketed; its base is
/// either one character, a bare key to which the stated modifier is added,
/// or the name of a key.
pub open spec fn parse_key(s: Seq<char>) -> Result<KeyView, ErrorView> {
    if !is_ascii_chars(s) || s.len() == 0 {
        unsupported(s)
    } else if s.len() == 1 {
        match parse_bare(s[0]) {
            Some(k) => Ok(k),
            None => unsupported(s),
        }
    } else if !is_bracketed(s) {
        unsupported(s)
    } else if base_of(s).len() == 1 {
        match parse_bare(base_of(s)[0]) {
            Some(k) => Ok(KeyView { code: k.code, modifiers: k.modifiers.join(modifier_of(s)) }),
            None => unsupported(base_of(s)),
        }
    } else {
        match named_code(base_of(s)) {
            Some(code) => Ok(KeyView { code, modifiers: modifier_of(s) }),
            None => unsupported(s),
        }
    }
}

/// Whether the code is that of a letter.
pub open spec fn is_letter(code: u8) -> bool {
    is_upper(code as char)
}

/// Whether the code is one of those that are written as a name.
pub open spec fn is_named(code: u8) -> bool {
    ||| code == ENTER
    ||| code == TAB
    ||| code == ESC
    ||| code == SPACE
    ||| code == BACKSPACE
    ||| code == DELETE
    ||| code == LESS_THAN_SIGN
}

/// The name under which a named code is written.
pub open spec fn name_of(code: u8) -> Seq<char> {
    if code == ENTER {
        "CR"@
    } else if code == TAB {
        "TAB"@
    } else if code == ESC {
        "ESC"@
    } else if code == SPACE {
        "SPACE"@
    } else if code == BACKSPACE {
        "BS"@
    } else if code == DELETE {
        "DEL"@
    } else {
        "LT"@
    }
}

/// How the code of a key is written: a named code by its name; a letter in
/// upper case where Shift is the only modifier, else in lower case; any
/// other code as its character.
pub open spec fn glyph(k: KeyView) -> Seq<char> {
    if is_named(k.code) {
        name_of(k.code)
    } else if is_letter(k.code) {
        if k.modifiers.shift && !k.modifiers.alt && !k.modifiers.control {
            seq![k.code as char]
        } else {
            seq![to_lower(k.code as char)]
        }
    } else {
        seq![k.code as char]
    }
}

/// The one prefix that is written: Alt before Control before Shift, and
/// Shift only where the code is no letter.
pub open spec fn prefix(k: KeyView) -> Seq<char> {
    if k.modifiers.alt {
        "a-"@
    } else if k.modifiers.control {
        "c-"@
    } else if k.modifiers.shift && !is_letter(k.code) {
        "s-"@
    } else {
        Seq::<char>::empty()
    }
}

/// Whether the key is written between brackets.
pub open spec fn is_wrapped(k: KeyView) -> bool {
    ||| is_named(k.code)
    ||| k.modifiers.alt
    ||| k.modifiers.control
    ||| (k.modifiers.shift && !is_letter(k.code))
}

/// The canonical token of a key.
pub open spec fn render_key(k: KeyView) -> Seq<char> {
    if is_wrapped(k) {
        seq!['<'] + prefix(k) + glyph(k) + seq!['>']
    } else {
        prefix(k) + glyph(k)
    }
}

/// The keys that tokens can mean.  The code is that of a letter, a digit, a
/// symbol or a named key.  Alt and Control never stand together, and a code
/// that is no letter has at most one modifier.
pub open spec fn is_key(k: KeyView) -> bool {
    &&& is_named(k.code) || is_letter(k.code) || is_decimal(k.code as char) || is_symbol(
        k.code as char,
    )
    &&& !(k.modifiers.alt && k.modifiers.control)
    &&& !is_letter(k.code) ==> k.modifiers.count() <= 1
}

} // verus!
