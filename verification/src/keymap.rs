//! A sequence of keys: parsing a text and writing the canonical text.

use vstd::prelude::*;
use vstd::std_specs::cmp::PartialEqSpecImpl;
use vstd::string::*;
use crate::debug::{debug_keymap, debug_list};
use crate::error::{Error, ErrorView};
use crate::grammar::{is_key, parse_key, KeyView};
use crate::key::{lemma_key_by_view, single, Key};
use crate::laws::law_parsed_are_keys;
use crate::sequence::{
    lemma_closing, parse_keymap, parse_keys_from, render_keymap, token_len, unterminated,
};

verus! {

/// The keys of a sequence as plain data.
pub open spec fn views(keys: Seq<Key>) -> Seq<KeyView> {
    Seq::new(keys.len(), |i: int| keys[i]@)
}

/// An ordered sequence of keys, in the order in which they are pressed.
#[derive(Debug)]
pub struct Keymap {
    keys: Vec<Key>,
}

impl View for Keymap {
    type V = Seq<KeyView>;

    closed spec fn view(&self) -> Seq<KeyView> {
        views(self.keys@)
    }
}

/// The keys read so far, followed by what the rest of the text gives.
spec fn followed_by(
    done: Seq<KeyView>,
    rest: Result<Seq<KeyView>, ErrorView>,
) -> Result<Seq<KeyView>, ErrorView> {
    match rest {
        Ok(keys) => Ok(done + keys),
        Err(e) => Err(e),
    }
}

/// A bracket that has met its `>` is a token that ends there.
proof fn lemma_bracket_closed(s: Seq<char>, start: int, end: int)
    requires
        0 <= start < end < s.len(),
        s[start] == '<',
        s[end] == '>',
        forall|j: int| start <= j < end ==> s[j] != '>',
    ensures
        token_len(s, start) == Some((end + 1 - start) as nat),
{
    lemma_closing(s, start);
}

/// A bracket that meets no `>` fails the text.
proof fn lemma_bracket_open(s: Seq<char>, start: int)
    requires
        0 <= start < s.len(),
        s[start] == '<',
        forall|j: int| start <= j < s.len() ==> s[j] != '>',
    ensures
        parse_keys_from(s, start) == unterminated(s),
{
    lemma_closing(s, start);
}

/// A token that means no key fails the text with its own failure.
proof fn lemma_token_fails(s: Seq<char>, done: Seq<KeyView>, from: int, n: nat, e: ErrorView)
    requires
        0 <= from < s.len(),
        token_len(s, from) == Some(n),
        parse_key(s.subrange(from, from + n)) == Err::<KeyView, ErrorView>(e),
    ensures
        followed_by(done, parse_keys_from(s, from)) == Err::<Seq<KeyView>, ErrorView>(e),
{
}

/// Reading one more token moves its key from the rest to the keys read.
proof fn lemma_token_read(s: Seq<char>, done: Seq<KeyView>, from: int, n: nat, key: KeyView)
    requires
        0 <= from < s.len(),
        token_len(s, from) == Some(n),
        parse_key(s.subrange(from, from + n)) == Ok::<KeyView, ErrorView>(key),
    ensures
        followed_by(done, parse_keys_from(s, from)) == followed_by(
            done.push(key),
            parse_keys_from(s, from + n),
        ),
{
    match parse_keys_from(s, from + n) {
        Ok(rest) => {
            assert(done + (seq![key] + rest) =~= done.push(key) + rest);
        },
        Err(_) => {},
    }
}

/// The views of a sequence with one more key.
proof fn lemma_views_push(keys: Seq<Key>, key: Key)
    ensures
        views(keys.push(key)) == views(keys).push(key@),
{
    assert(views(keys.push(key)) =~= views(keys).push(key@));
}

impl Keymap {
    /// Whether every key of the sequence is one that a token can mean.
    pub open spec fn wf(self) -> bool {
        forall|i: int| 0 <= i < self@.len() ==> is_key(#[trigger] self@[i])
    }

    /// Parses a text as a sequence of tokens, from left to right.
    ///
    /// The result holds the keys of the tokens in their order, or, where a
    /// token means no key or the text ends inside a bracket, the first such
    /// failure.
    pub fn new(s: &str) -> (r: Result<Keymap, Error>)
        ensures
            match r {
                Ok(m) => parse_keymap(s@) == Ok::<Seq<KeyView>, ErrorView>(m@) && m.wf(),
                Err(e) => parse_keymap(s@) == Err::<Seq<KeyView>, ErrorView>(e@),
            },
    {
        proof {
            law_parsed_are_keys(s@, 0);
        }
        let mut in_tag = false;
        let mut buf = String::new();
        let mut keys: Vec<Key> = Vec::new();
        let ghost text = s@;
        let ghost mut done: Seq<KeyView> = Seq::empty();
        let ghost mut i: int = 0;
        let ghost mut start: int = 0;
        assert(views(keys@) =~= done);
        assert(followed_by(done, parse_keys_from(text, 0)) == parse_keymap(text)) by {
            assert(forall|rest: Seq<KeyView>| done + rest =~= rest);
        }
        for c in it: s.chars()
            invariant
                it.seq() == text,
                text == s@,
                i == it.index(),
                0 <= start <= i <= text.len(),
                done == views(keys@),
                parse_keymap(text) == followed_by(done, parse_keys_from(text, start)),
                in_tag ==> start < i && text[start] == '<' && buf@ == text.subrange(start, i),
                in_tag ==> forall|j: int| start <= j < i ==> text[j] != '>',
                !in_tag ==> start == i && buf@.len() == 0,
        {
            if c == '<' {
                in_tag = true;
            }
            if in_tag {
                buf.push(c);
                assert(buf@ =~= text.subrange(start, i + 1));
                if c == '>' {
                    proof {
                        lemma_bracket_closed(text, start, i);
                    }
                    match Key::new(buf.as_str()) {
                        Ok(key) => {
                            proof {
                                lemma_token_read(text, done, start, (i + 1 - start) as nat, key@);
                                lemma_views_push(keys@, key);
                                done = done.push(key@);
                                start = i + 1;
                            }
                            keys.push(key);
                        },
                        Err(e) => {
                            proof {
                                lemma_token_fails(text, done, start, (i + 1 - start) as nat, e@);
                            }
                            return Err(e);
                        },
                    }
                    buf = String::new();
                    in_tag = false;
                }
            } else {
                assert(text.subrange(i, i + 1) =~= seq![c]);
                match single(c) {
                    Ok(key) => {
                        proof {
                            lemma_token_read(text, done, start, 1, key@);
                            lemma_views_push(keys@, key);
                            done = done.push(key@);
                            start = i + 1;
                        }
                        keys.push(key);
                    },
                    Err(e) => {
                        proof {
                            lemma_token_fails(text, done, start, 1, e@);
                        }
                        return Err(e);
                    },
                }
            }
            proof {
                i = i + 1;
            }
        }
        if in_tag {
            proof {
                lemma_bracket_open(text, start);
            }
            return Err(Error::unterminated(s));
        }
        assert(done + Seq::<KeyView>::empty() =~= done);
        Ok(Keymap { keys })
    }

    /// The keys of the sequence, in order.
    pub fn as_vec(&self) -> (keys: &Vec<Key>)
        ensures
            views(keys@) == self@,
    {
        &self.keys
    }

    /// Writes the canonical text of the sequence: the tokens of its keys
    /// one after the other.
    pub fn to_string(&self) -> (s: String)
        ensures
            s@ == render_keymap(self@),
    {
        let mut out = String::new();
        let n = self.keys.len();
        let mut i: usize = 0;
        while i < n
            invariant
                n == self.keys@.len(),
                i <= n,
                out@ == render_keymap(self@.take(i as int)),
            decreases n - i,
        {
            let token = self.keys[i].to_string();
            out.append(token.as_str());
            assert(self@.take(i + 1).drop_last() =~= self@.take(i as int));
            i += 1;
        }
        assert(self@.take(n as int) =~= self@);
        out
    }

    /// Writes the diagnostic text of the sequence.
    pub fn debug(&self) -> (s: String)
        ensures
            s@ == debug_keymap(self@),
    {
        let mut out = String::new();
        out.push('[');
        let ghost opening = out@;
        let n = self.keys.len();
        let mut i: usize = 0;
        while i < n
            invariant
                n == self.keys@.len(),
                i <= n,
                out@ == opening + debug_list(self@.take(i as int)),
            decreases n - i,
        {
            if i > 0 {
                out.append(", ");
            }
            let text = self.keys[i].debug();
            out.append(text.as_str());
            proof {
                let head = self@.take(i + 1);
                assert(head.drop_last() =~= self@.take(i as int));
                assert(head.last() == self.keys@[i as int]@);
                assert(out@ =~= opening + debug_list(head));
            }
            i += 1;
        }
        assert(self@.take(n as int) =~= self@);
        out.push(']');
        proof {
            reveal_strlit("[");
            reveal_strlit("]");
            assert(out@ =~= debug_keymap(self@));
        }
        out
    }
}

impl Clone for Keymap {
    /// A sequence of the same keys in the same order.
    fn clone(&self) -> (r: Keymap)
        ensures
            r@ == self@,
    {
        let keys = self.keys.clone();
        assert(keys@ =~= self.keys@);
        Keymap { keys }
    }
}

impl PartialEq for Keymap {
    /// Whether the two sequences hold equal keys in the same order.
    fn eq(&self, other: &Keymap) -> (r: bool) {
        let n = self.keys.len();
        if n != other.keys.len() {
            assert(self@.len() != other@.len());
            return false;
        }
        let mut i: usize = 0;
        while i < n
            invariant
                n == self.keys@.len(),
                n == other.keys@.len(),
                i <= n,
                forall|j: int| 0 <= j < i ==> self@[j] == other@[j],
            decreases n - i,
        {
            if !(self.keys[i] == other.keys[i]) {
                proof {
                    lemma_key_by_view(self.keys@[i as int], other.keys@[i as int]);
                    assert(self@[i as int] != other@[i as int]);
                }
                return false;
            }
            i += 1;
        }
        assert(self@ =~= other@);
        true
    }
}

impl PartialEqSpecImpl for Keymap {
    open spec fn obeys_eq_spec() -> bool {
        true
    }

    open spec fn eq_spec(&self, other: &Keymap) -> bool {
        self@ == other@
    }
}

impl From<Vec<Key>> for Keymap {
    /// Takes the keys as they are, in their order.
    fn from(value: Vec<Key>) -> (r: Keymap)
        ensures
            r@ == views(value@),
    {
        Keymap { keys: value }
    }
}

impl vstd::std_specs::convert::FromSpecImpl<Vec<Key>> for Keymap {
    open spec fn obeys_from_spec() -> bool {
        true
    }

    closed spec fn from_spec(value: Vec<Key>) -> Keymap {
        Keymap { keys: value }
    }
}

} // verus!
