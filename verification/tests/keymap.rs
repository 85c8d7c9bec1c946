use viks::{Key, Keymap};

#[test]
fn new_keymap() {
    let keys1 = Keymap::new("NewYonk");
    let keys2 = Keymap::new("<s-Z>Z");
    let keys3 = Keymap::new("<lt>HappyNewYear>");
    let keys4 = Keymap::new("<a-~><c-#><s-&>");
    let keys5 = Keymap::new("<leader><cr>");

    assert!(keys1.is_ok());
    assert!(keys2.is_ok());
    assert!(keys3.is_ok());
    assert!(keys4.is_ok());
    assert!(keys5.is_ok());
}

#[test]
fn eq_keymaps() {
    let keys1 = Keymap::new("<cr>HiWorld<enter>").unwrap();
    let keys2 = Keymap::new("<enter>HiWorld<cr>").unwrap();

    assert_eq!(keys1, keys2);
}

#[test]
fn invalid_keymap() {
    let keymap = Keymap::new("<leader");

    assert!(keymap.is_err());
}

#[test]
fn display_keymap() {
    let keys1 = Keymap::new("<leader><CR>").unwrap();
    let keys2 = Keymap::new("<lt>abAs<s-b>").unwrap();

    assert_eq!(keys1.to_string(), "<SPACE><CR>");
    assert_eq!(keys2.to_string(), "<LT>abAsB");
}

#[test]
fn debug_keymap() {
    let keys1 = Keymap::new("aa").unwrap();
    let keys2 = Keymap::new("<lt>>").unwrap();
    let keys3 = Keymap::new("<cr>,").unwrap();

    assert_eq!(
        keys1.debug(),
        "[Key { code: 65, modifiers: 0b000 }, Key { code: 65, modifiers: 0b000 }]".to_string()
    );
    assert_eq!(
        keys2.debug(),
        "[Key { code: 60, modifiers: 0b000 }, Key { code: 62, modifiers: 0b000 }]".to_string()
    );
    assert_eq!(
        keys3.debug(),
        "[Key { code: 13, modifiers: 0b000 }, Key { code: 44, modifiers: 0b000 }]".to_string()
    );
}

#[test]
fn empty_text_is_the_empty_sequence() {
    let keymap = Keymap::new("").unwrap();
    assert!(keymap.as_vec().is_empty());
    assert_eq!(keymap.to_string(), "");
    assert_eq!(keymap.debug(), "[]");
    assert_eq!(keymap, Keymap::from(Vec::new()));
}

#[test]
fn keys_come_in_the_order_of_the_text() {
    let keymap = Keymap::new("ZZ").unwrap();
    let shift_z = Key::new("<s-z>").unwrap();
    assert_eq!(keymap.as_vec().len(), 2);
    assert_eq!(keymap.as_vec()[0], shift_z);
    assert_eq!(keymap.as_vec()[1], shift_z);

    let keymap = Keymap::new("a<c-b>C<esc>").unwrap();
    let expected = vec![
        Key::new("a").unwrap(),
        Key::new("<c-b>").unwrap(),
        Key::new("C").unwrap(),
        Key::new("<esc>").unwrap(),
    ];
    assert_eq!(keymap.as_vec(), &expected);
    assert_ne!(keymap, Keymap::new("<c-b>aC<esc>").unwrap());
}

#[test]
fn spelling_plays_no_part_in_a_sequence() {
    assert_eq!(Keymap::new("ZZ").unwrap(), Keymap::new("<s-z>Z").unwrap());
    assert_eq!(Keymap::new("<leader>x").unwrap(), Keymap::new("<SPACE><x>").unwrap());
    assert_ne!(Keymap::new("zz").unwrap(), Keymap::new("ZZ").unwrap());
    assert_ne!(Keymap::new("Z").unwrap(), Keymap::new("ZZ").unwrap());
}

#[test]
fn stray_closing_bracket_is_a_key() {
    let keymap = Keymap::new("<lt>HappyNewYear>").unwrap();
    assert_eq!(keymap.as_vec().len(), 14);
    assert_eq!(keymap.as_vec()[0], Key::new("<lt>").unwrap());
    assert_eq!(keymap.as_vec()[1], Key::new("H").unwrap());
    assert_eq!(keymap.as_vec()[13], Key::new(">").unwrap());
    assert_eq!(keymap.to_string(), "<LT>HappyNewYear>");
}

#[test]
fn bracket_runs_to_the_first_closing_bracket() {
    let keymap = Keymap::new("<a-->>").unwrap();
    assert_eq!(keymap.as_vec().len(), 2);
    assert_eq!(keymap.as_vec()[0], Key::new("<a-->").unwrap());
    assert_eq!(keymap.as_vec()[1], Key::new(">").unwrap());

    let err = Keymap::new("<a->>").unwrap_err();
    assert_eq!(err.format(), "<a->");
    assert_eq!(err.cause(), "unsupported key format");

    let err = Keymap::new("<<a>").unwrap_err();
    assert_eq!(err.format(), "<<a>");
    assert_eq!(err.cause(), "unsupported key format");
}

#[test]
fn unterminated_bracket_holds_the_whole_text() {
    let err = Keymap::new("<leader").unwrap_err();
    assert_eq!(err.format(), "<leader");
    assert_eq!(err.cause(), "invalid format");

    let err = Keymap::new("ab<c-x").unwrap_err();
    assert_eq!(err.format(), "ab<c-x");
    assert_eq!(err.cause(), "invalid format");

    let err = Keymap::new("<").unwrap_err();
    assert_eq!(err.format(), "<");
    assert_eq!(err.cause(), "invalid format");

    let err = Keymap::new("<cr><é").unwrap_err();
    assert_eq!(err.format(), "<cr><é");
    assert_eq!(err.cause(), "invalid format");
}

#[test]
fn first_token_at_fault_fails_the_sequence() {
    let err = Keymap::new("a b").unwrap_err();
    assert_eq!(err.format(), " ");
    assert_eq!(err.cause(), "unsupported key format");

    let err = Keymap::new("ab<BOO>cd<x").unwrap_err();
    assert_eq!(err.format(), "<BOO>");
    assert_eq!(err.cause(), "unsupported key format");

    let err = Keymap::new("aéb").unwrap_err();
    assert_eq!(err.format(), "é");
    assert_eq!(err.cause(), "unsupported key format");

    let err = Keymap::new("<é>").unwrap_err();
    assert_eq!(err.format(), "<é>");
    assert_eq!(err.cause(), "unsupported key format");

    let err = Keymap::new("x< >y").unwrap_err();
    assert_eq!(err.format(), " ");
    assert_eq!(err.cause(), "unsupported key format");

    let err = Keymap::new("<>").unwrap_err();
    assert_eq!(err.format(), "<>");
    assert_eq!(err.cause(), "unsupported key format");
}

#[test]
fn canonical_text_of_sequences() {
    assert_eq!(Keymap::new("NewYonk").unwrap().to_string(), "NewYonk");
    assert_eq!(Keymap::new("<s-Z>Z").unwrap().to_string(), "ZZ");
    assert_eq!(Keymap::new("<a-~><c-#><s-&>").unwrap().to_string(), "<a-~><c-#><s-&>");
    assert_eq!(Keymap::new("<leader><cr>").unwrap().to_string(), "<SPACE><CR>");
    assert_eq!(Keymap::new("<C-w>j<Tab>").unwrap().to_string(), "<c-w>j<TAB>");
}

#[test]
fn sequence_from_keys_is_taken_as_it_is() {
    let keys = vec![Key::new("<c-w>").unwrap(), Key::new("J").unwrap(), Key::new("<cr>").unwrap()];
    let keymap = Keymap::from(keys.clone());
    assert_eq!(keymap.as_vec(), &keys);
    assert_eq!(keymap, Keymap::new("<c-w>J<enter>").unwrap());
    assert_eq!(keymap.to_string(), "<c-w>J<CR>");
    assert_eq!(
        keymap.debug(),
        "[Key { code: 87, modifiers: 0b010 }, Key { code: 74, modifiers: 0b001 }, Key { code: 13, modifiers: 0b000 }]"
    );
    let other: Keymap = keys.into();
    assert_eq!(other, keymap);
}

#[test]
fn diagnostic_text_of_one_key_has_no_comma() {
    assert_eq!(Keymap::new("<a-lt>").unwrap().debug(), "[Key { code: 60, modifiers: 0b100 }]");
}

#[test]
fn texts_one_after_the_other_give_the_keys_of_both() {
    let pairs = [("ab", "<cr>c"), ("", "ZZ"), ("<c-w>", ""), ("<lt>", ">"), ("x<a-y>", "<s-1>z")];
    for (front, behind) in pairs {
        let mut keys = Keymap::new(front).unwrap().as_vec().clone();
        keys.extend(Keymap::new(behind).unwrap().as_vec().iter().copied());
        let whole = Keymap::new(&format!("{front}{behind}")).unwrap();
        assert_eq!(whole.as_vec(), &keys);
        assert_eq!(
            whole.to_string(),
            format!("{}{}", Keymap::new(front).unwrap().to_string(), Keymap::new(behind).unwrap().to_string())
        );
    }
}

#[test]
fn copy_of_a_sequence_is_equal_to_it() {
    let keymap = Keymap::new("<c-w>J<cr>").unwrap();
    let copy = keymap.clone();
    assert_eq!(copy, keymap);
    assert_eq!(copy.as_vec(), keymap.as_vec());
    assert!(keymap != Keymap::new("<c-w>J").unwrap());
    assert!(keymap != Keymap::new("<c-w>j<cr>").unwrap());
}
