use ridgeback::profile::{CursorStyle, ShellType};
use ridgeback::search::SearchOptions;
use ridgeback::terminal::{Terminal, TerminalError};

fn session() -> Terminal {
    Terminal::new("bash", ShellType::Bash, CursorStyle::Bar, 100, 3, 10)
}

fn type_line(t: &mut Terminal, s: &str) {
    for c in s.chars() {
        t.vt.print(c);
    }
    t.vt.execute(b'\r');
    t.vt.execute(b'\n');
}

#[test]
fn new_session_state() {
    let t = session();
    assert_eq!(t.vt.rows(), 3);
    assert_eq!(t.vt.cols(), 10);
    assert_eq!(t.vt.cursor_style, CursorStyle::Bar);
    assert_eq!(t.profile_name, "bash");
    assert!(!t.exited);
    assert_eq!(t.title(), None);
    assert_eq!(t.tab_title(), "bash");
    assert_eq!(t.visible_lines(), vec!["", "", ""]);
}

#[test]
fn titles_come_from_the_shell() {
    let mut t = session();
    t.vt.osc_dispatch(&[b"0".to_vec(), b"vim main.rs".to_vec()], true);
    assert_eq!(t.title(), Some("vim main.rs"));
    assert_eq!(t.tab_title(), "vim main.rs");
}

#[test]
fn submit_input_sends_the_line() {
    let mut t = session();
    t.input.insert_text("ls -é");
    assert_eq!(t.submit_input(), Ok(b"ls -\xc3\xa9\r".to_vec()));
    assert_eq!(t.input.text(), "");
    assert_eq!(t.send_interrupt(), Ok(vec![3u8]));
    t.input.insert_text("pwd");
    t.mark_exited();
    assert_eq!(t.submit_input(), Err(TerminalError::Exited));
    assert_eq!(t.input.text(), "");
    assert_eq!(t.send_interrupt(), Err(TerminalError::Exited));
}

#[test]
fn full_log_joins_scrollback_and_screen() {
    let mut t = session();
    type_line(&mut t, "one");
    type_line(&mut t, "two");
    type_line(&mut t, "three");
    t.vt.print('4');
    assert_eq!(t.last_n_lines(5), vec!["one"]);
    assert_eq!(t.visible_lines(), vec!["two", "three", "4"]);
    assert_eq!(t.full_log(), "one\ntwo\nthree\n4");
    let hits = t.search(&SearchOptions {
        pattern: "t".to_string(),
        use_regex: false,
        ignore_case: false,
    });
    let at: Vec<(usize, usize)> = hits.iter().map(|m| (m.line, m.col)).collect();
    assert_eq!(at, vec![(1, 0), (2, 0)]);
}

#[test]
fn resize_keeps_the_cursor_on_screen() {
    let mut t = session();
    for c in "abcdefgh".chars() {
        t.vt.print(c);
    }
    t.resize(2, 4);
    assert_eq!(t.vt.rows(), 2);
    assert_eq!(t.vt.cols(), 4);
    assert_eq!(t.vt.cursor_col, 3);
}
