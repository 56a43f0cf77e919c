//! The line-editing helpers: menu, snippets, suggestions and cursor
//! locations.

use shrs::cursor_buffer::{to_absolute, CursorBuffer, Error, Location};
use shrs::keybinding::{KeyCode, KeyEvent, KeyModifiers};
use shrs::menu::DefaultMenu;
use shrs::snippet::{ExpandSnippet, Position, SnippetInfo, Snippets};
use shrs::suggester::DefaultSuggester;
use shrs::completion::default_format;
use shrs::simple_error;

#[test]
fn menu_cursor_wraps() {
    let mut menu = DefaultMenu::new();
    assert!(!menu.is_active());
    let items = default_format(vec!["a".to_string(), "b".to_string(), "c".to_string()])
        .into_iter()
        .map(|c| (c.completion.clone(), c))
        .collect();
    menu.set_items(items);
    menu.activate();
    assert!(menu.is_active());
    assert_eq!(menu.cursor(), 0);
    menu.next();
    assert_eq!(menu.cursor(), 1);
    menu.next();
    assert_eq!(menu.cursor(), 2);
    menu.next();
    assert_eq!(menu.cursor(), 0);
    menu.previous();
    assert_eq!(menu.cursor(), 2);
    let accepted = menu.accept().unwrap().completion.clone();
    assert_eq!(accepted, "c");
    assert!(!menu.is_active());
}

#[test]
fn empty_menu_stays_inactive() {
    let mut menu = DefaultMenu::new();
    menu.activate();
    assert!(!menu.is_active());
    assert!(menu.current_selection().is_none());
    assert_eq!(menu.required_lines(), 1);
}

#[test]
fn snippets_expand_on_their_trigger() {
    let mut snips = Snippets::new(ExpandSnippet::OnSpace);
    snips.add(
        "gc".to_string(),
        SnippetInfo::new("git commit".to_string(), Position::Command),
    );
    let space = KeyEvent::plain(KeyCode::Char(' '));
    let tab = KeyEvent::plain(KeyCode::Tab);
    assert!(snips.should_expand(&space));
    assert!(!snips.should_expand(&tab));
    snips.disable();
    assert!(!snips.should_expand(&space));
    snips.enable();
    assert!(snips.should_expand(&space));
    assert!(snips.get(&"gc".to_string()).is_some());
    assert!(snips.get(&"nope".to_string()).is_none());
    assert_eq!(snips.get(&"gc".to_string()).unwrap().value, "git commit");
}

#[test]
fn snippets_on_chosen_key() {
    let trigger = KeyEvent::new(KeyCode::Char('j'), KeyModifiers::control());
    let snips = Snippets::new(ExpandSnippet::OnKey(trigger));
    assert!(snips.should_expand(&trigger));
    assert!(!snips.should_expand(&KeyEvent::plain(KeyCode::Char('j'))));
    let never = Snippets::new(ExpandSnippet::Never);
    assert!(!never.should_expand(&KeyEvent::plain(KeyCode::Char(' '))));
}

#[test]
fn suggester_finds_first_prefix_match() {
    let history = vec![
        "git status".to_string(),
        "cargo build".to_string(),
        "git commit".to_string(),
    ];
    let r = DefaultSuggester::suggest_first(&history, &"git".to_string());
    assert_eq!(r, Some("git status".to_string()));
    let r = DefaultSuggester::suggest_first(&history, &"cargo".to_string());
    assert_eq!(r, Some("cargo build".to_string()));
    assert!(DefaultSuggester::suggest_first(&history, &"ls".to_string()).is_none());
    // An empty line suggests nothing.
    assert!(DefaultSuggester::suggest_first(&history, &"".to_string()).is_none());
}

#[test]
fn locations_resolve_against_cursor() {
    // Buffer of length 5 with the cursor at 2.
    assert_eq!(to_absolute(Location::Cursor(), 2, 5), Ok(2));
    assert_eq!(to_absolute(Location::Before(), 2, 5), Ok(1));
    assert_eq!(to_absolute(Location::After(), 2, 5), Ok(3));
    assert_eq!(to_absolute(Location::Front(), 2, 5), Ok(0));
    assert_eq!(to_absolute(Location::Abs(5), 2, 5), Ok(5));
    assert_eq!(
        to_absolute(Location::Abs(6), 2, 5),
        Err(Error::InvalidAbsoluteLocation(6))
    );
    assert_eq!(
        to_absolute(Location::Rel(-3), 2, 5),
        Err(Error::InvalidRelativeLocation(-3))
    );
    assert_eq!(
        to_absolute(Location::Rel(4), 2, 5),
        Err(Error::InvalidRelativeLocation(4))
    );
    assert_eq!(Location::default(), Location::Cursor());
}

#[test]
fn error_formatter_is_silent() {
    simple_error();
}

#[test]
fn buffer_insert_and_delete() {
    let mut cb = CursorBuffer::new();
    cb.insert(Location::Cursor(), &"hello world".to_string()).unwrap();
    assert_eq!(cb.to_text(), "hello world");
    assert_eq!(cb.cursor(), 11);
    cb.delete(Location::Front(), Location::Abs(6)).unwrap();
    assert_eq!(cb.to_text(), "world");
    assert_eq!(cb.cursor(), 0);
}

#[test]
fn buffer_locations_and_errors() {
    let mut cb = CursorBuffer::from_str(&"hello".to_string());
    assert_eq!(cb.len(), 5);
    assert_eq!(cb.char_at(Location::Cursor()), Some('h'));
    assert!(cb.move_cursor(Location::Abs(9)).is_err());
    assert_eq!(cb.cursor(), 0);
    cb.move_cursor(Location::Abs(5)).unwrap();
    assert_eq!(cb.char_at(Location::Cursor()), None);
    assert_eq!(cb.char_at(Location::Before()), Some('o'));
    cb.insert(Location::Cursor(), &"!".to_string()).unwrap();
    assert_eq!(cb.to_text(), "hello!");
    // Deleting between swapped locations works in either order.
    cb.delete(Location::Cursor(), Location::Abs(6)).unwrap();
    assert_eq!(cb.to_text(), "hello!");
    cb.set_string(&"x".to_string());
    assert_eq!(cb.to_text(), "x");
    cb.clear();
    assert_eq!(cb.len(), 0);
}
