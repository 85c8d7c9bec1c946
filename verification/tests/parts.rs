use viks::{Error, KeyCode, KeyModifier, KeyModifiers, OutOfRange};

#[test]
fn code_of_every_ascii_value() {
    for b in 0u8..128 {
        let code = KeyCode::from_ascii(b).unwrap();
        assert_eq!(code.value(), b);
        assert_eq!(code.as_ascii(), b as char);
        assert_eq!(KeyCode::from_ascii(code.as_ascii() as u8), Ok(code));
    }
}

#[test]
fn no_code_outside_ascii() {
    for b in 128u8..=255 {
        assert_eq!(KeyCode::from_ascii(b), Err(OutOfRange { value: b }));
    }
}

#[test]
fn codes_are_equal_by_value() {
    assert_eq!(KeyCode::from_ascii(65).unwrap(), KeyCode::from_ascii(b'A').unwrap());
    assert_ne!(KeyCode::from_ascii(65).unwrap(), KeyCode::from_ascii(97).unwrap());
}

#[test]
fn named_codes() {
    assert_eq!(viks::code::BACKSPACE, 8);
    assert_eq!(viks::code::TAB, 9);
    assert_eq!(viks::code::ENTER, 13);
    assert_eq!(viks::code::ESC, 27);
    assert_eq!(viks::code::SPACE, 32);
    assert_eq!(viks::code::LESS_THAN_SIGN, 60);
    assert_eq!(viks::code::DELETE, 127);
}

#[test]
fn empty_modifiers_hold_nothing() {
    let none = KeyModifiers::empty();
    assert!(!none.is_shift());
    assert!(!none.is_ctrl());
    assert!(!none.is_alt());
    assert_eq!(none, KeyModifiers::empty());
    assert_ne!(none, KeyModifiers::single(KeyModifier::Shift));
}

#[test]
fn single_modifier_holds_itself_only() {
    let flags = [KeyModifier::Shift, KeyModifier::Control, KeyModifier::Alt];
    for flag in flags {
        let set = KeyModifiers::single(flag);
        for other in flags {
            assert_eq!(set.contains(other), other == flag);
        }
    }
    assert!(KeyModifiers::single(KeyModifier::Shift).is_shift());
    assert!(KeyModifiers::single(KeyModifier::Control).is_ctrl());
    assert!(KeyModifiers::single(KeyModifier::Alt).is_alt());
}

#[test]
fn union_holds_the_flags_of_both() {
    let shift = KeyModifiers::single(KeyModifier::Shift);
    let alt = KeyModifiers::single(KeyModifier::Alt);
    let both = shift.union(alt);
    assert!(both.is_shift());
    assert!(both.is_alt());
    assert!(!both.is_ctrl());
    assert_eq!(both, alt.union(shift));
    assert_eq!(both.union(both), both);
    assert_eq!(shift.union(KeyModifiers::empty()), shift);
    assert_ne!(both, shift);
    assert_eq!(both, KeyModifiers { shift: true, control: false, alt: true });
}

#[test]
fn containment_is_of_one_flag() {
    let set = KeyModifiers::single(KeyModifier::Control).union(KeyModifiers::single(KeyModifier::Alt));
    assert!(set.contains(KeyModifier::Control));
    assert!(set.contains(KeyModifier::Alt));
    assert!(!set.contains(KeyModifier::Shift));
}

#[test]
fn error_keeps_what_it_was_given() {
    let err = Error::new("<nope>", "unsupported key format");
    assert_eq!(err.format(), "<nope>");
    assert_eq!(err.cause(), "unsupported key format");
}
