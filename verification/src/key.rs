//! A single key: parsing a token and writing the canonical token.

use vstd::prelude::*;
use vstd::string::*;
use crate::code::{
    lemma_code_by_value, KeyCode, BACKSPACE, DELETE, ENTER, ESC, LESS_THAN_SIGN, SPACE, TAB,
};
use crate::debug::{bit, debug_key, decimal, digit};
use crate::error::{Error, ErrorView};
use crate::grammar::{
    explicit_modifier, is_decimal, is_key, is_letter, is_named, is_symbol, lower_text, name_of,
    named_code, parse_bare, parse_key, render_key, to_lower, to_upper, KeyView,
};
use crate::laws::law_parsed_is_key;
use crate::modifier::{KeyModifier, KeyModifiers};

verus! {

/// One key press: a key code and the modifiers held with it.
///
/// A key is made by parsing a token, and keeps no trace of how the token was
/// spelled: `A`, `<s-a>` and `<S-A>` give the same key.
#[derive(Clone, Copy, PartialEq, Eq, Structural, Debug)]
pub struct Key {
    code: KeyCode,
    modifiers: KeyModifiers,
}

impl View for Key {
    type V = KeyView;

    closed spec fn view(&self) -> KeyView {
        KeyView { code: self.code@, modifiers: self.modifiers }
    }
}

/// Two keys are equal exactly when their codes and their modifiers are.
pub proof fn lemma_key_by_view(a: Key, b: Key)
    ensures
        (a@ == b@) == (a == b),
{
    lemma_code_by_value(a.code, b.code);
}

/// The lower-case form of a letter, any other character unchanged.
fn lower(c: char) -> (r: char)
    ensures
        r == to_lower(c),
{
    if 'A' <= c && c <= 'Z' {
        ((c as u8) + 32) as char
    } else {
        c
    }
}

/// The upper-case form of a letter, any other character unchanged.
fn upper(c: char) -> (r: char)
    ensures
        r == to_upper(c),
{
    if 'a' <= c && c <= 'z' {
        ((c as u8) - 32) as char
    } else {
        c
    }
}

/// Whether the character is one of the symbols that may stand bare.
fn symbol(c: char) -> (r: bool)
    ensures
        r == is_symbol(c),
{
    ('!' <= c && c <= '/') || (':' <= c && c <= '@' && c != '<') || ('[' <= c && c <= '`') || ('{'
        <= c && c <= '~')
}

/// The key of a bare character.
fn bare_key(c: char) -> (r: Option<Key>)
    ensures
        match r {
            Some(k) => parse_bare(c) == Some(k@),
            None => parse_bare(c) is None,
        },
{
    let u = upper(c);
    let accepted = ('A' <= u && u <= 'Z') || ('0' <= u && u <= '9') || symbol(u);
    if !accepted {
        return None;
    }
    let modifiers = if 'A' <= c && c <= 'Z' {
        KeyModifiers::single(KeyModifier::Shift)
    } else {
        KeyModifiers::empty()
    };
    match KeyCode::from_ascii(u as u8) {
        Ok(code) => Some(Key { code, modifiers }),
        Err(_) => None,
    }
}

/// The key of a token that is the one character `c`.
pub(crate) fn single(c: char) -> (r: Result<Key, Error>)
    ensures
        match r {
            Ok(k) => parse_key(seq![c]) == Ok::<KeyView, ErrorView>(k@),
            Err(e) => parse_key(seq![c]) == Err::<KeyView, ErrorView>(e@),
        },
{
    match bare_key(c) {
        Some(key) => Ok(key),
        None => {
            let mut text = String::new();
            text.push(c);
            assert(text@ =~= seq![c]);
            Err(Error::unsupported(text.as_str()))
        },
    }
}

/// The modifier that a letter before the dash stands for.
fn modifier(c: char) -> (r: KeyModifiers)
    ensures
        r == explicit_modifier(c),
{
    let l = lower(c);
    if l == 'a' {
        KeyModifiers::single(KeyModifier::Alt)
    } else if l == 'c' {
        KeyModifiers::single(KeyModifier::Control)
    } else if l == 's' {
        KeyModifiers::single(KeyModifier::Shift)
    } else {
        KeyModifiers::empty()
    }
}

/// The character at a position of an ASCII text.
fn ascii_at(text: &str, i: usize) -> (c: char)
    requires
        is_ascii(text),
        i < text@.len(),
    ensures
        c == text@[i as int],
{
    text.get_ascii(i) as char
}

/// The number of characters of an ASCII text.
fn ascii_len(text: &str) -> (n: usize)
    requires
        is_ascii(text),
    ensures
        n == text@.len(),
{
    proof {
        is_ascii_spec_bytes(text);
    }
    text.as_bytes().len()
}

/// Whether `text`, with its letters in lower case, is `name`.
fn is_name(text: &str, name: &str) -> (r: bool)
    requires
        is_ascii(text),
        is_ascii(name),
    ensures
        r == (lower_text(text@) =~= name@),
{
    let n = ascii_len(text);
    if n != ascii_len(name) {
        return false;
    }
    let mut i: usize = 0;
    while i < n
        invariant
            is_ascii(text),
            is_ascii(name),
            n == text@.len(),
            n == name@.len(),
            i <= n,
            forall|j: int| 0 <= j < i ==> to_lower(text@[j]) == name@[j],
        decreases n - i,
    {
        if lower(ascii_at(text, i)) != ascii_at(name, i) {
            assert(lower_text(text@)[i as int] != name@[i as int]);
            return false;
        }
        i += 1;
    }
    true
}

/// The code that a name stands for.
fn name_code(name: &str) -> (r: Option<u8>)
    requires
        is_ascii(name),
    ensures
        r == named_code(name@),
{
    proof {
        reveal_strlit("enter");
        reveal_strlit("cr");
        reveal_strlit("tab");
        reveal_strlit("esc");
        reveal_strlit("leader");
        reveal_strlit("space");
        reveal_strlit("bs");
        reveal_strlit("del");
        reveal_strlit("lt");
    }
    if is_name(name, "enter") || is_name(name, "cr") {
        Some(ENTER)
    } else if is_name(name, "tab") {
        Some(TAB)
    } else if is_name(name, "esc") {
        Some(ESC)
    } else if is_name(name, "leader") || is_name(name, "space") {
        Some(SPACE)
    } else if is_name(name, "bs") {
        Some(BACKSPACE)
    } else if is_name(name, "del") {
        Some(DELETE)
    } else if is_name(name, "lt") {
        Some(LESS_THAN_SIGN)
    } else {
        None
    }
}

impl Key {
    /// Whether the key is one that a token can mean.
    pub open spec fn wf(self) -> bool {
        is_key(self@)
    }

    /// Parses one token.
    ///
    /// The result is the key that the token means, or, where it means none,
    /// an error that holds the text at fault and the cause.
    pub fn new(tag: &str) -> (r: Result<Key, Error>)
        ensures
            match r {
                Ok(k) => parse_key(tag@) == Ok::<KeyView, ErrorView>(k@) && k.wf(),
                Err(e) => parse_key(tag@) == Err::<KeyView, ErrorView>(e@),
            },
    {
        proof {
            law_parsed_is_key(tag@);
        }
        if !tag.is_ascii() {
            return Err(Error::unsupported(tag));
        }
        let n = ascii_len(tag);
        if n == 0 {
            return Err(Error::unsupported(tag));
        }
        if n == 1 {
            return match bare_key(ascii_at(tag, 0)) {
                Some(key) => Ok(key),
                None => Err(Error::unsupported(tag)),
            };
        }
        if n == 2 || ascii_at(tag, 0) != '<' || ascii_at(tag, n - 1) != '>' {
            return Err(Error::unsupported(tag));
        }
        let modded = ascii_at(tag, 2) == '-';
        let stated = if modded {
            modifier(ascii_at(tag, 1))
        } else {
            KeyModifiers::empty()
        };
        let base = if modded {
            tag.substring_ascii(3, n - 1)
        } else {
            tag.substring_ascii(1, n - 1)
        };
        if ascii_len(base) == 1 {
            return match bare_key(ascii_at(base, 0)) {
                Some(key) => Ok(Key { code: key.code, modifiers: key.modifiers.union(stated) }),
                None => Err(Error::unsupported(base)),
            };
        }
        match name_code(base) {
            Some(ascii) => match KeyCode::from_ascii(ascii) {
                Ok(code) => Ok(Key { code, modifiers: stated }),
                Err(_) => Err(Error::unsupported(tag)),
            },
            None => Err(Error::unsupported(tag)),
        }
    }

    /// The code of the key.
    pub fn code(&self) -> (code: KeyCode)
        ensures
            code@ == self@.code,
    {
        self.code
    }

    /// The modifiers of the key.
    pub fn modifiers(&self) -> (modifiers: KeyModifiers)
        ensures
            modifiers == self@.modifiers,
    {
        self.modifiers
    }

    /// Whether the key is a letter.
    pub fn is_alpha(&self) -> (r: bool)
        ensures
            r == is_letter(self@.code),
    {
        let c = self.code.as_ascii();
        'A' <= c && c <= 'Z'
    }

    /// Whether the key is one of the digits `0` to `9`.
    pub fn is_digit(&self) -> (r: bool)
        ensures
            r == is_decimal(self@.code as char),
    {
        let c = self.code.as_ascii();
        '0' <= c && c <= '9'
    }

    /// Writes the diagnostic text of the key.
    pub fn debug(&self) -> (s: String)
        ensures
            s@ == debug_key(self@),
    {
        let code = self.code.value();
        let mut out = String::new();
        out.append("Key { code: ");
        push_decimal(&mut out, code);
        out.append(", modifiers: 0b");
        out.push(bit_char(self.modifiers.is_alt()));
        out.push(bit_char(self.modifiers.is_ctrl()));
        out.push(bit_char(self.modifiers.is_shift()));
        out.append(" }");
        assert(out@ =~= debug_key(self@));
        out
    }

    /// Writes the canonical token of the key.
    pub fn to_string(&self) -> (s: String)
        ensures
            s@ == render_key(self@),
    {
        let code = self.code.value();
        let letter = self.is_alpha();
        let named = code == ENTER || code == TAB || code == ESC || code == SPACE || code
            == BACKSPACE || code == DELETE || code == LESS_THAN_SIGN;
        let shift = self.modifiers.is_shift();
        let modded = self.modifiers.is_alt() || self.modifiers.is_ctrl();
        let wrapped = named || modded || (shift && !letter);
        let mut out = String::new();
        if wrapped {
            out.push('<');
        }
        if self.modifiers.is_alt() {
            out.append("a-");
        } else if self.modifiers.is_ctrl() {
            out.append("c-");
        } else if shift && !letter {
            out.append("s-");
        }
        if named {
            out.append(name_text(code));
        } else if letter && !(shift && !modded) {
            out.push(lower(self.code.as_ascii()));
        } else {
            out.push(self.code.as_ascii());
        }
        if wrapped {
            out.push('>');
        }
        out
    }
}

/// A flag as a binary digit.
fn bit_char(flag: bool) -> (c: char)
    ensures
        c == bit(flag),
{
    if flag {
        '1'
    } else {
        '0'
    }
}

/// The character of a digit.
fn digit_char(d: u8) -> (c: char)
    requires
        d < 10,
    ensures
        c == digit(d as nat),
{
    (('0' as u8) + d) as char
}

/// Appends a number in decimal.
fn push_decimal(out: &mut String, n: u8)
    ensures
        final(out)@ == old(out)@ + decimal(n as nat),
{
    reveal_with_fuel(decimal, 3);
    if n >= 100 {
        out.push(digit_char(n / 100));
    }
    if n >= 10 {
        out.push(digit_char((n / 10) % 10));
    }
    out.push(digit_char(n % 10));
    assert(final(out)@ =~= old(out)@ + decimal(n as nat));
}

/// The name under which a named code is written.
fn name_text(code: u8) -> (s: &'static str)
    requires
        is_named(code),
    ensures
        s@ == name_of(code),
{
    if code == ENTER {
        "CR"
    } else if code == TAB {
        "TAB"
    } else if code == ESC {
        "ESC"
    } else if code == SPACE {
        "SPACE"
    } else if code == BACKSPACE {
        "BS"
    } else if code == DELETE {
        "DEL"
    } else {
        "LT"
    }
}

} // verus!
