//! Keybinding parsing.

use shrs::keybinding::{
    parse_keybinding, parse_keycode, parse_modifier, BindingFromStrError, KeyCode, KeyModifiers,
};

#[test]
fn keybinding_parse() {
    assert_eq!(
        parse_keybinding(&"<space>".to_string()),
        Ok((KeyCode::Char(' '), KeyModifiers::none()))
    );
    assert_eq!(
        parse_keybinding(&"<esc>".to_string()),
        Ok((KeyCode::Esc, KeyModifiers::none()))
    );
    assert_eq!(
        parse_keybinding(&"c".to_string()),
        Ok((KeyCode::Char('c'), KeyModifiers::none()))
    );
    assert_eq!(
        parse_keybinding(&"C".to_string()),
        Ok((KeyCode::Char('C'), KeyModifiers::none()))
    );
    assert_eq!(
        parse_keybinding(&"C-c".to_string()),
        Ok((KeyCode::Char('c'), KeyModifiers::control()))
    );
    assert_eq!(
        parse_keybinding(&"Ctrl-c".to_string()),
        Ok((KeyCode::Char('c'), KeyModifiers::control()))
    );
    assert_eq!(
        parse_keybinding(&"C-S-c".to_string()),
        Ok((KeyCode::Char('c'), KeyModifiers::control().union(KeyModifiers::shift())))
    );
    assert_eq!(
        parse_keybinding(&"Ctrl-Shift-c".to_string()),
        Ok((KeyCode::Char('c'), KeyModifiers::control().union(KeyModifiers::shift())))
    );
}

#[test]
fn keycode_words() {
    assert_eq!(parse_keycode(&"<tab>".to_string()), Ok(KeyCode::Tab));
    assert_eq!(parse_keycode(&"<enter>".to_string()), Ok(KeyCode::Enter));
    assert_eq!(parse_keycode(&"<up>".to_string()), Ok(KeyCode::Up));
    assert_eq!(
        parse_keycode(&"<bogus>".to_string()),
        Err(BindingFromStrError::UnknownKey("<bogus>".to_string()))
    );
}

#[test]
fn modifier_words() {
    assert_eq!(parse_modifier(&"SHIFT".to_string()), Ok(KeyModifiers::shift()));
    assert_eq!(parse_modifier(&"m".to_string()), Ok(KeyModifiers::meta()));
    assert_eq!(parse_modifier(&"super".to_string()), Ok(KeyModifiers::superkey()));
    assert_eq!(parse_modifier(&"a".to_string()), Ok(KeyModifiers::alt()));
    assert_eq!(
        parse_modifier(&"hyper".to_string()),
        Err(BindingFromStrError::UnknownMod("hyper".to_string()))
    );
}

#[test]
fn unknown_modifier_in_binding() {
    assert_eq!(
        parse_keybinding(&"Hyper-c".to_string()),
        Err(BindingFromStrError::UnknownMod("Hyper".to_string()))
    );
    assert_eq!(
        parse_keybinding(&"C-<bogus>".to_string()),
        Err(BindingFromStrError::UnknownKey("<bogus>".to_string()))
    );
}
