//! The set of modifier keys that may qualify a key press.

use vstd::prelude::*;

verus! {

/// One modifier key.
#[derive(Clone, Copy, PartialEq, Eq, Structural, Debug)]
pub enum KeyModifier {
    Shift,
    Control,
    Alt,
}

/// A set of modifier keys: one independent flag for each of them.
///
/// Every combination of flags is a value of its own, the empty set included,
/// and two sets are equal exactly when they hold the same flags.
#[derive(Clone, Copy, PartialEq, Eq, Structural, Debug)]
pub struct KeyModifiers {
    pub shift: bool,
    pub control: bool,
    pub alt: bool,
}

impl KeyModifiers {
    /// Whether `flag` is a member of the set.
    pub open spec fn has(self, flag: KeyModifier) -> bool {
        match flag {
            KeyModifier::Shift => self.shift,
            KeyModifier::Control => self.control,
            KeyModifier::Alt => self.alt,
        }
    }

    /// The set without any flag.
    pub open spec fn none() -> KeyModifiers {
        KeyModifiers { shift: false, control: false, alt: false }
    }

    /// The set that holds `flag` and nothing else.
    pub open spec fn only(flag: KeyModifier) -> KeyModifiers {
        KeyModifiers {
            shift: flag == KeyModifier::Shift,
            control: flag == KeyModifier::Control,
            alt: flag == KeyModifier::Alt,
        }
    }

    /// The set of the flags that are in `self`, in `other`, or in both.
    pub open spec fn join(self, other: KeyModifiers) -> KeyModifiers {
        KeyModifiers {
            shift: self.shift || other.shift,
            control: self.control || other.control,
            alt: self.alt || other.alt,
        }
    }

    /// How many flags the set holds.
    pub open spec fn count(self) -> nat {
        (if self.shift { 1nat } else { 0nat })
            + (if self.control { 1nat } else { 0nat })
            + (if self.alt { 1nat } else { 0nat })
    }

    /// Makes the empty set.
    pub fn empty() -> (r: KeyModifiers)
        ensures
            r == KeyModifiers::none(),
            forall|f: KeyModifier| !r.has(f),
    {
        KeyModifiers { shift: false, control: false, alt: false }
    }

    /// Makes the set that holds exactly `flag`.
    pub fn single(flag: KeyModifier) -> (r: KeyModifiers)
        ensures
            r == KeyModifiers::only(flag),
            forall|f: KeyModifier| r.has(f) == (f == flag),
    {
        match flag {
            KeyModifier::Shift => KeyModifiers { shift: true, control: false, alt: false },
            KeyModifier::Control => KeyModifiers { shift: false, control: true, alt: false },
            KeyModifier::Alt => KeyModifiers { shift: false, control: false, alt: true },
        }
    }

    /// Union of two sets.
    pub fn union(self, other: KeyModifiers) -> (r: KeyModifiers)
        ensures
            r == self.join(other),
            forall|f: KeyModifier| r.has(f) == (self.has(f) || other.has(f)),
    {
        KeyModifiers {
            shift: self.shift || other.shift,
            control: self.control || other.control,
            alt: self.alt || other.alt,
        }
    }

    /// Whether exactly this flag is set; the other flags play no part.
    pub fn contains(&self, flag: KeyModifier) -> (r: bool)
        ensures
            r == self.has(flag),
    {
        match flag {
            KeyModifier::Shift => self.shift,
            KeyModifier::Control => self.control,
            KeyModifier::Alt => self.alt,
        }
    }

    /// Whether Shift is set.
    pub fn is_shift(&self) -> (r: bool)
        ensures
            r == self.has(KeyModifier::Shift),
    {
        self.shift
    }

    /// Whether Control is set.
    pub fn is_ctrl(&self) -> (r: bool)
        ensures
            r == self.has(KeyModifier::Control),
    {
        self.control
    }

    /// Whether Alt is set.
    pub fn is_alt(&self) -> (r: bool)
        ensures
            r == self.has(KeyModifier::Alt),
    {
        self.alt
    }
}

/// Two sets with the same members are the same set.
pub proof fn lemma_modifiers_extensional(a: KeyModifiers, b: KeyModifiers)
    requires
        forall|f: KeyModifier| a.has(f) == b.has(f),
    ensures
        a == b,
{
    assert(a.has(KeyModifier::Shift) == b.has(KeyModifier::Shift));
    assert(a.has(KeyModifier::Control) == b.has(KeyModifier::Control));
    assert(a.has(KeyModifier::Alt) == b.has(KeyModifier::Alt));
}

/// Union is commutative, associative and idempotent, and the empty set is
/// its neutral element.
pub proof fn lemma_union_laws(a: KeyModifiers, b: KeyModifiers, c: KeyModifiers)
    ensures
        a.join(b) == b.join(a),
        a.join(b).join(c) == a.join(b.join(c)),
        a.join(a) == a,
        a.join(KeyModifiers::none()) == a,
{
}

} // verus!
