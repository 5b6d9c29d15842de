use ridgeback::pty_keys::{pty_key_action, PtyKeyAction};
use ridgeback::keybindings::{KeyBindings, ShortcutAction};
use ridgeback::shortcuts::{parse_key_combo, KeyCode, KeyCombo, ShortcutManager};

fn combo(key: KeyCode, command: bool, shift: bool, alt: bool) -> KeyCombo {
    KeyCombo { key, command, shift, alt }
}

#[test]
fn parses_modifiers_and_letter() {
    assert_eq!(parse_key_combo("Ctrl+Shift+T"), Some(combo(KeyCode::T, true, true, false)));
    assert_eq!(parse_key_combo("cmd+w"), Some(combo(KeyCode::W, true, false, false)));
    assert_eq!(parse_key_combo("Alt+7"), Some(combo(KeyCode::Num7, false, false, true)));
}

#[test]
fn parts_are_trimmed_and_case_insensitive() {
    assert_eq!(
        parse_key_combo(" CTRL + Alt + Right "),
        Some(combo(KeyCode::ArrowRight, true, false, true))
    );
    assert_eq!(parse_key_combo("Shift+PageDown"), Some(combo(KeyCode::PageDown, false, true, false)));
    assert_eq!(parse_key_combo("Esc"), Some(combo(KeyCode::Escape, false, false, false)));
    assert_eq!(parse_key_combo("Ctrl+Del"), Some(combo(KeyCode::Delete, true, false, false)));
}

#[test]
fn punctuation_keys() {
    assert_eq!(parse_key_combo("Ctrl+,"), Some(combo(KeyCode::Comma, true, false, false)));
    assert_eq!(parse_key_combo("Ctrl+/"), Some(combo(KeyCode::Slash, true, false, false)));
    assert_eq!(parse_key_combo("Ctrl+."), Some(combo(KeyCode::Period, true, false, false)));
}

#[test]
fn combos_without_a_key_are_rejected() {
    assert_eq!(parse_key_combo("Ctrl+Shift"), None);
    assert_eq!(parse_key_combo(""), None);
    // A `+` on its own splits into two empty parts, neither a key.
    assert_eq!(parse_key_combo("Ctrl++"), None);
    // An unknown single character names no key.
    assert_eq!(parse_key_combo("Ctrl+-"), None);
    // Unknown words are ignored.
    assert_eq!(parse_key_combo("Hyper+F"), Some(combo(KeyCode::F, false, false, false)));
}

#[test]
fn the_last_key_wins() {
    assert_eq!(parse_key_combo("A+B"), Some(combo(KeyCode::B, false, false, false)));
    // A later unknown single character clears the key.
    assert_eq!(parse_key_combo("A+-"), None);
}

#[test]
fn default_bindings_dispatch() {
    let m = ShortcutManager::from_config(&KeyBindings::default());
    assert_eq!(m.check(true, false, false, &[KeyCode::T]), Some(ShortcutAction::NewTab));
    assert_eq!(m.check(true, true, false, &[KeyCode::Tab]), Some(ShortcutAction::PrevTab));
    assert_eq!(m.check(true, false, false, &[KeyCode::Tab]), Some(ShortcutAction::NextTab));
    assert_eq!(m.check(true, false, false, &[KeyCode::Comma]), Some(ShortcutAction::OpenSettings));
    assert_eq!(m.check(true, false, false, &[KeyCode::Slash]), Some(ShortcutAction::AiCommandQuery));
    assert_eq!(
        m.check(true, true, true, &[KeyCode::ArrowLeft]),
        Some(ShortcutAction::MoveTabPrevGroup)
    );
    assert_eq!(
        m.check(true, false, true, &[KeyCode::ArrowRight]),
        Some(ShortcutAction::FocusNextGroup)
    );
    // Modifiers must match exactly.
    assert_eq!(m.check(true, true, false, &[KeyCode::T]), None);
    assert_eq!(m.check(false, false, false, &[KeyCode::T]), None);
    assert_eq!(m.check(true, false, false, &[]), None);
}

#[test]
fn first_matching_binding_wins() {
    let mut kb = KeyBindings::default();
    kb.close_tab = "Ctrl+T".to_string();
    kb.save_session = "not a key".to_string();
    let m = ShortcutManager::from_config(&kb);
    assert_eq!(m.check(true, false, false, &[KeyCode::T]), Some(ShortcutAction::NewTab));
    assert_eq!(m.check(true, false, false, &[KeyCode::W]), None);
    assert_eq!(m.check(true, false, false, &[KeyCode::S]), None);
    assert_eq!(
        m.check(true, false, false, &[KeyCode::W, KeyCode::F]),
        Some(ShortcutAction::FindInSession)
    );
}

#[test]
fn pty_key_sequences() {
    assert_eq!(pty_key_action(KeyCode::Enter, false, false), PtyKeyAction::Send(b"\r".to_vec()));
    assert_eq!(pty_key_action(KeyCode::ArrowUp, true, true), PtyKeyAction::Send(b"\x1b[A".to_vec()));
    assert_eq!(pty_key_action(KeyCode::Delete, false, false), PtyKeyAction::Send(b"\x1b[3~".to_vec()));
    assert_eq!(pty_key_action(KeyCode::PageDown, false, false), PtyKeyAction::Send(b"\x1b[6~".to_vec()));
    assert_eq!(pty_key_action(KeyCode::Tab, false, false), PtyKeyAction::Send(b"\t".to_vec()));
    assert_eq!(pty_key_action(KeyCode::Tab, false, true), PtyKeyAction::Send(b"\x1b[Z".to_vec()));
    assert_eq!(pty_key_action(KeyCode::C, true, false), PtyKeyAction::Send(b"\x03".to_vec()));
    assert_eq!(pty_key_action(KeyCode::C, true, true), PtyKeyAction::CopyScreen);
    assert_eq!(pty_key_action(KeyCode::C, false, false), PtyKeyAction::Ignore);
    assert_eq!(pty_key_action(KeyCode::W, true, false), PtyKeyAction::Send(b"\x17".to_vec()));
    assert_eq!(pty_key_action(KeyCode::V, true, false), PtyKeyAction::Paste);
    assert_eq!(pty_key_action(KeyCode::Z, true, false), PtyKeyAction::Ignore);
}
