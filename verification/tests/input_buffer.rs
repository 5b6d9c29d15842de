use ridgeback::input_buffer::{InputAction, InputBuffer};

#[test]
fn test_insert_and_cursor() {
    let mut buf = InputBuffer::new();
    buf.insert_char('h');
    buf.insert_char('e');
    buf.insert_char('l');
    buf.insert_char('l');
    buf.insert_char('o');
    assert_eq!(buf.text(), "hello");
    assert_eq!(buf.cursor(), 5);
}

#[test]
fn test_backspace() {
    let mut buf = InputBuffer::new();
    buf.insert_text("hello");
    buf.delete_back();
    assert_eq!(buf.text(), "hell");
    assert_eq!(buf.cursor(), 4);
}

#[test]
fn input_buffer_test_cursor_movement() {
    let mut buf = InputBuffer::new();
    buf.insert_text("hello world");
    buf.move_home();
    assert_eq!(buf.cursor(), 0);
    buf.move_end();
    assert_eq!(buf.cursor(), 11);
    buf.move_left();
    assert_eq!(buf.cursor(), 10);
    buf.move_right();
    assert_eq!(buf.cursor(), 11);
}

#[test]
fn test_word_movement() {
    let mut buf = InputBuffer::new();
    buf.insert_text("hello world foo");
    buf.move_home();
    buf.move_word_right();
    // Should be at position after "hello" + space = 6
    assert!(buf.cursor() >= 5);
}

#[test]
fn test_selection() {
    let mut buf = InputBuffer::new();
    buf.insert_text("hello");
    buf.move_home();
    buf.select_right();
    buf.select_right();
    buf.select_right();
    assert_eq!(buf.selected_text(), Some("hel"));
}

#[test]
fn test_select_all_and_replace() {
    let mut buf = InputBuffer::new();
    buf.insert_text("hello");
    buf.select_all();
    buf.insert_text("world");
    assert_eq!(buf.text(), "world");
}

#[test]
fn test_undo_redo() {
    let mut buf = InputBuffer::new();
    buf.insert_text("hello");
    buf.insert_text(" world");
    assert_eq!(buf.text(), "hello world");
    buf.undo();
    assert_eq!(buf.text(), "hello");
    buf.redo();
    assert_eq!(buf.text(), "hello world");
}

#[test]
fn test_history() {
    let mut buf = InputBuffer::new();
    buf.insert_text("first");
    buf.submit();
    buf.insert_text("second");
    buf.submit();

    buf.history_prev();
    assert_eq!(buf.text(), "second");
    buf.history_prev();
    assert_eq!(buf.text(), "first");
    buf.history_next();
    assert_eq!(buf.text(), "second");
    buf.history_next();
    assert_eq!(buf.text(), ""); // Back to draft
}

#[test]
fn test_ghost_text_accept() {
    let mut buf = InputBuffer::new();
    buf.insert_text("git ch");
    buf.ghost_text = Some("eckout main".to_string());
    buf.accept_ghost_text();
    assert_eq!(buf.text(), "git checkout main");
    assert!(buf.ghost_text.is_none());
}

#[test]
fn test_ghost_text_word_accept() {
    let mut buf = InputBuffer::new();
    buf.insert_text("git ");
    buf.ghost_text = Some("checkout main".to_string());
    buf.move_word_right();
    assert_eq!(buf.text(), "git checkout ");
    assert_eq!(buf.ghost_text.as_deref(), Some("main"));
}

#[test]
fn test_copy_empty_is_interrupt() {
    let buf = InputBuffer::new();
    assert_eq!(buf.copy(), InputAction::Interrupt);
}

#[test]
fn test_cut() {
    let mut buf = InputBuffer::new();
    buf.insert_text("hello world");
    buf.move_home();
    for _ in 0..5 {
        buf.select_right();
    }
    let action = buf.cut();
    assert!(matches!(action, InputAction::Cut(ref s) if s == "hello"));
    assert_eq!(buf.text(), " world");
}

#[test]
fn test_word_select() {
    let mut buf = InputBuffer::new();
    buf.insert_text("hello world");
    buf.select_word_at(2); // double-click on "hello"
    assert_eq!(buf.selected_text(), Some("hello"));
}

#[test]
fn test_delete_word_back() {
    let mut buf = InputBuffer::new();
    buf.insert_text("hello world");
    buf.delete_word_back();
    assert_eq!(buf.text(), "hello ");
}

#[test]
fn test_insert_at_cursor_middle() {
    let mut buf = InputBuffer::new();
    buf.insert_text("helo");
    buf.move_left(); // cursor after "hel"
    buf.move_left();
    buf.insert_char('l');
    assert_eq!(buf.text(), "hello");
}

// ── Further cases ──────────────────────────────────────────────────────

#[test]
fn undo_after_each_edit_restores_previous_text() {
    let mut buf = InputBuffer::new();
    buf.insert_text("alpha beta");
    buf.delete_word_back();
    assert_eq!(buf.text(), "alpha ");
    buf.undo();
    assert_eq!(buf.text(), "alpha beta");
    assert_eq!(buf.cursor(), 10);
    buf.move_home();
    buf.delete_forward();
    assert_eq!(buf.text(), "lpha beta");
    buf.undo();
    assert_eq!(buf.text(), "alpha beta");
    assert_eq!(buf.cursor(), 0);
    buf.delete_word_forward();
    assert_eq!(buf.text(), "beta");
    buf.undo();
    buf.redo();
    assert_eq!(buf.text(), "beta");
}

#[test]
fn undo_on_empty_stack_is_unchanged() {
    let mut buf = InputBuffer::new();
    assert_eq!(buf.undo(), InputAction::Unchanged);
    assert_eq!(buf.redo(), InputAction::Unchanged);
}

#[test]
fn blank_submission_is_not_recorded() {
    let mut buf = InputBuffer::new();
    buf.insert_text("   ");
    assert_eq!(buf.submit(), InputAction::Submit("   ".to_string()));
    assert_eq!(buf.history_prev(), InputAction::Unchanged);
    assert_eq!(buf.text(), "");
}

#[test]
fn tab_without_ghost_goes_to_pty() {
    let mut buf = InputBuffer::new();
    assert_eq!(buf.accept_ghost_text(), InputAction::SendToPty(vec![9]));
}

#[test]
fn copy_selection_and_paste() {
    let mut buf = InputBuffer::new();
    buf.insert_text("ab cd");
    buf.select_home();
    assert_eq!(buf.copy(), InputAction::Copy("ab cd".to_string()));
    buf.move_end();
    assert_eq!(buf.copy(), InputAction::Unchanged);
    assert_eq!(buf.paste("!"), InputAction::Changed);
    assert_eq!(buf.text(), "ab cd!");
    assert_eq!(buf.paste(""), InputAction::Unchanged);
}

#[test]
fn word_movement_and_selection() {
    let mut buf = InputBuffer::new();
    buf.insert_text("foo-bar baz");
    buf.move_word_left();
    assert_eq!(buf.cursor(), 8);
    buf.move_word_left();
    assert_eq!(buf.cursor(), 0);
    buf.select_word_right();
    assert_eq!(buf.selected_text(), Some("foo-bar "));
    buf.move_right();
    assert_eq!(buf.cursor(), 8);
    buf.select_word_left();
    assert_eq!(buf.selection_range(), Some((0, 8)));
    buf.set_cursor_at(100);
    assert_eq!(buf.cursor(), 11);
    buf.select_to(4);
    assert_eq!(buf.selected_text(), Some("bar baz"));
    buf.select_left();
    assert_eq!(buf.selected_text(), Some("-bar baz"));
    buf.select_end();
    assert_eq!(buf.selected_text(), Some(""));
}

#[test]
fn unicode_positions_are_characters() {
    let mut buf = InputBuffer::new();
    buf.insert_text("héllo");
    assert_eq!(buf.char_count(), 5);
    buf.move_left();
    buf.delete_back();
    assert_eq!(buf.text(), "hélo");
    buf.set_text("über");
    assert_eq!(buf.cursor(), 4);
    assert!(!buf.is_empty());
}

#[test]
fn noop_delete_keeps_redo() {
    let mut b = InputBuffer::new();
    b.insert_text("a");
    b.undo();
    assert_eq!(b.delete_forward(), InputAction::Unchanged);
    assert_eq!(b.delete_back(), InputAction::Unchanged);
    assert_eq!(b.delete_word_back(), InputAction::Unchanged);
    assert_eq!(b.delete_word_forward(), InputAction::Unchanged);
    assert_eq!(b.redo(), InputAction::Changed);
    assert_eq!(b.text(), "a");
}

#[test]
fn set_ghost_text_then_accept() {
    let mut b = InputBuffer::new();
    b.insert_text("git ch");
    b.set_ghost_text(Some("eckout main".to_string()));
    assert_eq!(b.accept_ghost_text(), InputAction::Changed);
    assert_eq!(b.text(), "git checkout main");
    assert_eq!(b.cursor(), 17);
    assert!(b.ghost_text.is_none());
    assert_eq!(b.accept_ghost_text(), InputAction::SendToPty(b"\t".to_vec()));
    assert_eq!(b.text(), "git checkout main");
}

#[test]
fn set_ghost_text_word_accept() {
    let mut c = InputBuffer::new();
    c.insert_text("git ");
    c.set_ghost_text(Some("checkout main".to_string()));
    assert_eq!(c.move_word_right(), InputAction::Changed);
    assert_eq!(c.text(), "git checkout ");
    assert_eq!(c.ghost_text.as_deref(), Some("main"));
    assert_eq!(c.cursor(), 13);
}
