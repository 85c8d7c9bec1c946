//! What holds of the notation as a whole.

use vstd::prelude::*;
use vstd::utf8::is_ascii_chars;
use crate::code::{BACKSPACE, DELETE, ENTER, ESC, SPACE, TAB};
use crate::error::ErrorView;
use crate::grammar::{
    base_of, glyph, is_bare, is_key, is_letter, is_lower, is_modded, is_named, is_upper,
    is_wrapped, lower_text, name_of, named_code, parse_bare, parse_key, prefix, render_key,
    to_lower, to_upper, KeyView,
};
use crate::modifier::{KeyModifier, KeyModifiers};
use crate::sequence::{
    closing, lemma_token_in_text, parse_keymap, parse_keys_from, render_keymap, token_len,
};

verus! {

/// The keys whose canonical token means another key: a letter with Shift
/// beside Alt or Control is written in lower case after the prefix, and the
/// token read back has lost the Shift.
pub open spec fn shift_is_dropped(k: KeyView) -> bool {
    is_letter(k.code) && k.modifiers.shift && (k.modifiers.alt || k.modifiers.control)
}

/// An upper-case letter by itself means the same key as the lower-case
/// letter with the Shift prefix.
pub proof fn law_case_is_shift(c: char)
    requires
        is_upper(c) || is_lower(c),
    ensures
        parse_key(seq![to_upper(c)]) == parse_key(seq!['<', 's', '-', to_lower(c), '>']),
        parse_key(seq![to_upper(c)]) == Ok::<KeyView, ErrorView>(
            KeyView {
                code: to_upper(c) as u8,
                modifiers: KeyModifiers::only(KeyModifier::Shift),
            },
        ),
{
    let bare = seq![to_upper(c)];
    let long = seq!['<', 's', '-', to_lower(c), '>'];
    assert(is_ascii_chars(bare));
    assert(is_ascii_chars(long));
    assert(base_of(long) =~= seq![to_lower(c)]);
}

/// Whatever a token means is a key.
pub proof fn law_parsed_is_key(s: Seq<char>)
    ensures
        parse_key(s) matches Ok(k) ==> is_key(k),
{
}

/// The name of a named code is read back as that code.
proof fn lemma_name_round_trip(code: u8)
    requires
        is_named(code),
    ensures
        named_code(name_of(code)) == Some(code),
        name_of(code).len() >= 2,
        name_of(code)[1] != '-',
        is_ascii_chars(name_of(code)),
{
    reveal_strlit("CR");
    reveal_strlit("TAB");
    reveal_strlit("ESC");
    reveal_strlit("SPACE");
    reveal_strlit("BS");
    reveal_strlit("DEL");
    reveal_strlit("LT");
    reveal_strlit("enter");
    reveal_strlit("cr");
    reveal_strlit("tab");
    reveal_strlit("esc");
    reveal_strlit("leader");
    reveal_strlit("space");
    reveal_strlit("bs");
    reveal_strlit("del");
    reveal_strlit("lt");
    let low = lower_text(name_of(code));
    if code == ENTER {
        assert(low =~= "cr"@);
    } else if code == TAB {
        assert(low =~= "tab"@);
    } else if code == ESC {
        assert(low =~= "esc"@);
        assert(low[0] != "tab"@[0]);
    } else if code == SPACE {
        assert(low =~= "space"@);
        assert(low[0] != "enter"@[0]);
    } else if code == BACKSPACE {
        assert(low =~= "bs"@);
        assert(low[0] != "cr"@[0]);
    } else if code == DELETE {
        assert(low =~= "del"@);
        assert(low[0] != "tab"@[0]);
        assert(low[0] != "esc"@[0]);
    } else {
        assert(low =~= "lt"@);
        assert(low[0] != "cr"@[0]);
        assert(low[0] != "bs"@[0]);
    }
}

/// The canonical token of a key means that key.
///
/// This holds of every key but those of `shift_is_dropped`.
pub proof fn law_round_trip(k: KeyView)
    requires
        is_key(k),
        !shift_is_dropped(k),
    ensures
        parse_key(render_key(k)) == Ok::<KeyView, ErrorView>(k),
{
    reveal_strlit("a-");
    reveal_strlit("c-");
    reveal_strlit("s-");
    let text = render_key(k);
    let p = prefix(k);
    let g = glyph(k);
    if is_named(k.code) {
        lemma_name_round_trip(k.code);
    }
    assert(g.len() >= 1);
    assert(is_ascii_chars(g));
    assert(is_ascii_chars(p));
    if is_wrapped(k) {
        assert(text =~= seq!['<'] + p + g + seq!['>']);
        assert(text.len() == p.len() + g.len() + 2);
        assert(text[0] == '<');
        assert(text.last() == '>');
        assert(is_ascii_chars(text));
        if p.len() == 0 {
            assert(text[2] == g[1]);
            assert(!is_modded(text));
            assert(base_of(text) =~= g);
        } else {
            assert(p.len() == 2);
            assert(text[1] == p[0]);
            assert(text[2] == '-');
            assert(is_modded(text));
            assert(base_of(text) =~= g);
        }
    } else {
        assert(text =~= g);
    }
}

/// The key without its Shift.
pub open spec fn without_shift(k: KeyView) -> KeyView {
    KeyView {
        code: k.code,
        modifiers: KeyModifiers {
            shift: false,
            control: k.modifiers.control,
            alt: k.modifiers.alt,
        },
    }
}

/// The canonical token of a letter with Shift beside Alt or Control means
/// the same key without the Shift.
pub proof fn law_shift_is_dropped(k: KeyView)
    requires
        is_key(k),
        shift_is_dropped(k),
    ensures
        parse_key(render_key(k)) == Ok::<KeyView, ErrorView>(without_shift(k)),
{
    reveal_strlit("a-");
    reveal_strlit("c-");
    let text = render_key(k);
    assert(text =~= seq!['<'] + prefix(k) + glyph(k) + seq!['>']);
    assert(text.len() == 5);
    assert(text[2] == '-');
    assert(is_ascii_chars(text));
    assert(base_of(text) =~= glyph(k));
}

/// Every key is what some token means.
pub proof fn law_key_is_parsed(k: KeyView)
    requires
        is_key(k),
    ensures
        exists|s: Seq<char>| parse_key(s) == Ok::<KeyView, ErrorView>(k),
{
    if shift_is_dropped(k) {
        let m = if k.modifiers.alt {
            'a'
        } else {
            'c'
        };
        let text = seq!['<', m, '-', k.code as char, '>'];
        assert(is_ascii_chars(text));
        assert(base_of(text) =~= seq![k.code as char]);
        assert(parse_key(text) == Ok::<KeyView, ErrorView>(k));
    } else {
        law_round_trip(k);
    }
}

/// Whatever a text means from a position on is a sequence of keys.
pub proof fn law_parsed_are_keys(s: Seq<char>, from: int)
    ensures
        parse_keys_from(s, from) matches Ok(keys) ==> forall|i: int|
            0 <= i < keys.len() ==> is_key(#[trigger] keys[i]),
    decreases s.len() - from,
{
    if 0 <= from < s.len() {
        if let Some(n) = token_len(s, from) {
            lemma_token_in_text(s, from);
            law_parsed_is_key(s.subrange(from, from + n));
            law_parsed_are_keys(s, from + n);
        }
    }
}

/// A text without `<` whose characters may all stand bare means one key
/// for each character, in the order of the characters.
pub proof fn law_bare_text(s: Seq<char>, from: int)
    requires
        0 <= from <= s.len(),
        forall|i: int| from <= i < s.len() ==> s[i] != '<' && is_bare(#[trigger] s[i]),
    ensures
        parse_keys_from(s, from) == Ok::<Seq<KeyView>, ErrorView>(
            Seq::new((s.len() - from) as nat, |i: int| parse_bare(s[from + i])->Some_0),
        ),
    decreases s.len() - from,
{
    let keys = Seq::new((s.len() - from) as nat, |i: int| parse_bare(s[from + i])->Some_0);
    if from < s.len() {
        law_bare_text(s, from + 1);
        let rest = Seq::new((s.len() - from - 1) as nat, |i: int| parse_bare(s[from + 1 + i])->Some_0);
        assert(is_bare(s[from]));
        assert(s.subrange(from, from + 1) =~= seq![s[from]]);
        assert(is_ascii_chars(seq![s[from]]));
        assert(seq![parse_bare(s[from])->Some_0] + rest =~= keys);
    } else {
        assert(keys =~= Seq::<KeyView>::empty());
    }
}

/// Where a `>` is found in a text, it is found at the same place when
/// more text follows.
proof fn lemma_closing_in_front(a: Seq<char>, b: Seq<char>, from: int)
    requires
        closing(a, from) is Some,
    ensures
        closing(a + b, from) == closing(a, from),
    decreases a.len() - from,
{
    if a[from] != '>' {
        lemma_closing_in_front(a, b, from + 1);
    }
}

/// The `>` of the text behind is found as far away as in that text alone.
proof fn lemma_closing_behind(a: Seq<char>, b: Seq<char>, from: int)
    requires
        0 <= from,
    ensures
        closing(a + b, a.len() + from) == closing(b, from),
    decreases b.len() - from,
{
    if from < b.len() {
        assert((a + b)[a.len() + from] == b[from]);
        if b[from] != '>' {
            lemma_closing_behind(a, b, from + 1);
        }
    }
}

/// What the text behind means is not changed by the text in front.
proof fn lemma_keys_behind(a: Seq<char>, b: Seq<char>, from: int)
    requires
        0 <= from,
        parse_keys_from(b, from) is Ok,
    ensures
        parse_keys_from(a + b, a.len() + from) == parse_keys_from(b, from),
    decreases b.len() - from,
{
    if from < b.len() {
        assert((a + b)[a.len() + from] == b[from]);
        lemma_closing_behind(a, b, from);
        lemma_token_in_text(b, from);
        let n = token_len(b, from)->Some_0;
        assert((a + b).subrange(a.len() + from, a.len() + from + n) =~= b.subrange(from, from + n));
        lemma_keys_behind(a, b, from + n);
    }
}

/// What a text means from a position on, where another text follows it.
proof fn lemma_keys_in_front(a: Seq<char>, b: Seq<char>, from: int)
    requires
        0 <= from <= a.len(),
        parse_keys_from(a, from) is Ok,
        parse_keymap(b) is Ok,
    ensures
        parse_keys_from(a + b, from) == Ok::<Seq<KeyView>, ErrorView>(
            parse_keys_from(a, from)->Ok_0 + parse_keymap(b)->Ok_0,
        ),
    decreases a.len() - from,
{
    let behind = parse_keymap(b)->Ok_0;
    if from < a.len() {
        assert((a + b)[from] == a[from]);
        lemma_token_in_text(a, from);
        let n = token_len(a, from)->Some_0;
        if a[from] == '<' {
            lemma_closing_in_front(a, b, from);
        }
        assert((a + b).subrange(from, from + n) =~= a.subrange(from, from + n));
        lemma_keys_in_front(a, b, from + n);
        let key = parse_key(a.subrange(from, from + n))->Ok_0;
        let rest = parse_keys_from(a, from + n)->Ok_0;
        assert(seq![key] + (rest + behind) =~= (seq![key] + rest) + behind);
    } else {
        lemma_keys_behind(a, b, 0);
        assert(Seq::<KeyView>::empty() + behind =~= behind);
    }
}

/// Two texts that are sequences of keys are, one after the other, the
/// sequence of the keys of the first followed by the keys of the second.
pub proof fn law_texts_join(a: Seq<char>, b: Seq<char>)
    requires
        parse_keymap(a) is Ok,
        parse_keymap(b) is Ok,
    ensures
        parse_keymap(a + b) == Ok::<Seq<KeyView>, ErrorView>(
            parse_keymap(a)->Ok_0 + parse_keymap(b)->Ok_0,
        ),
{
    lemma_keys_in_front(a, b, 0);
}

/// The canonical text of two sequences of keys, one after the other, is
/// the canonical text of the first followed by that of the second.
pub proof fn law_render_joins(a: Seq<KeyView>, b: Seq<KeyView>)
    ensures
        render_keymap(a + b) == render_keymap(a) + render_keymap(b),
    decreases b.len(),
{
    if b.len() == 0 {
        assert(a + b =~= a);
        assert(render_keymap(a) + render_keymap(b) =~= render_keymap(a));
    } else {
        law_render_joins(a, b.drop_last());
        assert((a + b).drop_last() =~= a + b.drop_last());
        assert((a + b).last() == b.last());
        assert(render_keymap(a + b) =~= render_keymap(a) + render_keymap(b));
    }
}

} // verus!
