//! The notation of a sequence of keys, as mathematics.
//!
//! A sequence is read from left to right, token by token.  A `<` opens a
//! bracketed token, which runs up to the first `>` after it; any other
//! character is a bare token by itself.

use vstd::prelude::*;
use crate::error::{invalid_format, ErrorView};
use crate::grammar::{parse_key, render_key, KeyView};

verus! {

/// How far the first `>` at or after position `from` is from there, if
/// there is one.
pub open spec fn closing(s: Seq<char>, from: int) -> Option<nat>
    decreases s.len() - from,
{
    if from < 0 || from >= s.len() {
        None
    } else if s[from] == '>' {
        Some(0)
    } else {
        match closing(s, from + 1) {
            Some(d) => Some(d + 1),
            None => None,
        }
    }
}

/// The length of the token that starts at position `from`: a bracketed
/// token reaches to its `>`, and has no length where that is missing; any
/// other token is one character.
pub open spec fn token_len(s: Seq<char>, from: int) -> Option<nat> {
    if s[from] == '<' {
        match closing(s, from) {
            Some(d) => Some(d + 1),
            None => None,
        }
    } else {
        Some(1)
    }
}

/// The `>` that is found lies in the text, and no `>` stands before it.
pub proof fn lemma_closing(s: Seq<char>, from: int)
    ensures
        match closing(s, from) {
            Some(d) => {
                &&& 0 <= from
                &&& from + d < s.len()
                &&& s[from + d] == '>'
                &&& forall|i: int| from <= i < from + d ==> s[i] != '>'
            },
            None => forall|i: int| 0 <= from <= i < s.len() ==> s[i] != '>',
        },
    decreases s.len() - from,
{
    if 0 <= from < s.len() && s[from] != '>' {
        lemma_closing(s, from + 1);
    }
}

/// A token lies in the text and is not empty.
pub proof fn lemma_token_in_text(s: Seq<char>, from: int)
    requires
        0 <= from < s.len(),
    ensures
        match token_len(s, from) {
            Some(n) => 1 <= n && from + n <= s.len(),
            None => true,
        },
{
    lemma_closing(s, from);
}

/// The failure to parse a sequence that ends inside a bracket.
pub open spec fn unterminated(s: Seq<char>) -> Result<Seq<KeyView>, ErrorView> {
    Err(ErrorView { format: s, cause: invalid_format() })
}

/// The keys of the tokens of `s` from position `from` on, or the first
/// failure met on the way.
pub open spec fn parse_keys_from(s: Seq<char>, from: int) -> Result<Seq<KeyView>, ErrorView>
    decreases s.len() - from,
{
    if from < 0 || from >= s.len() {
        Ok(Seq::empty())
    } else {
        match token_len(s, from) {
            None => unterminated(s),
            Some(n) => match parse_key(s.subrange(from, from + n)) {
                Err(e) => Err(e),
                Ok(k) => {
                    proof {
                        lemma_token_in_text(s, from);
                    }
                    match parse_keys_from(s, from + n) {
                        Err(e) => Err(e),
                        Ok(rest) => Ok(seq![k] + rest),
                    }
                },
            },
        }
    }
}

/// What a text means as a sequence of keys.
pub open spec fn parse_keymap(s: Seq<char>) -> Result<Seq<KeyView>, ErrorView> {
    parse_keys_from(s, 0)
}

/// The canonical text of a sequence of keys: the tokens of the keys, in
/// order and with nothing between them.
pub open spec fn render_keymap(keys: Seq<KeyView>) -> Seq<char>
    decreases keys.len(),
{
    if keys.len() == 0 {
        Seq::empty()
    } else {
        render_keymap(keys.drop_last()) + render_key(keys.last())
    }
}

} // verus!
