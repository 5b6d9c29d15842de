use ridgeback::cell::Color;
use ridgeback::vt_handler::VtHandler;

/// Hands what the VT parser recognizes to the handler.
struct Screen<'a>(&'a mut VtHandler);

impl vte::Perform for Screen<'_> {
    fn print(&mut self, c: char) {
        self.0.print(c);
    }

    fn execute(&mut self, byte: u8) {
        self.0.execute(byte);
    }

    fn hook(&mut self, params: &vte::Params, intermediates: &[u8], ignore: bool, action: char) {
        let ps: Vec<Vec<u16>> = params.iter().map(|p| p.to_vec()).collect();
        self.0.hook(&ps, intermediates, ignore, action);
    }

    fn put(&mut self, byte: u8) {
        assert!(self.0.can_put(byte));
        self.0.put(byte);
    }

    fn unhook(&mut self) {
        self.0.unhook();
    }

    fn osc_dispatch(&mut self, params: &[&[u8]], bell_terminated: bool) {
        let ps: Vec<Vec<u8>> = params.iter().map(|p| p.to_vec()).collect();
        self.0.osc_dispatch(&ps, bell_terminated);
    }

    fn csi_dispatch(
        &mut self,
        params: &vte::Params,
        intermediates: &[u8],
        ignore: bool,
        action: char,
    ) {
        let ps: Vec<Vec<u16>> = params.iter().map(|p| p.to_vec()).collect();
        self.0.csi_dispatch(&ps, intermediates, ignore, action);
    }

    fn esc_dispatch(&mut self, intermediates: &[u8], ignore: bool, byte: u8) {
        self.0.esc_dispatch(intermediates, ignore, byte);
    }
}

fn process_bytes(handler: &mut VtHandler, bytes: &[u8]) {
    let mut parser = vte::Parser::new();
    let mut screen = Screen(handler);
    for &byte in bytes {
        parser.advance(&mut screen, byte);
    }
}

#[test]
fn test_basic_print() {
    let mut handler = VtHandler::new(24, 80, 1000);
    process_bytes(&mut handler, b"Hello");
    assert_eq!(handler.grid.row_to_string(0), "Hello");
    assert_eq!(handler.cursor_col, 5);
}

#[test]
fn vt_handler_test_cursor_movement() {
    let mut handler = VtHandler::new(24, 80, 1000);
    process_bytes(&mut handler, b"Hello\x1b[5DWorld");
    assert_eq!(handler.grid.row_to_string(0), "World");
}

#[test]
fn test_newline() {
    let mut handler = VtHandler::new(24, 80, 1000);
    process_bytes(&mut handler, b"Line1\r\nLine2");
    assert_eq!(handler.grid.row_to_string(0), "Line1");
    assert_eq!(handler.grid.row_to_string(1), "Line2");
}

#[test]
fn test_ansi_color() {
    let mut handler = VtHandler::new(24, 80, 1000);
    process_bytes(&mut handler, b"\x1b[31mRed\x1b[0m");
    let cell = handler.grid.cell(0, 0).unwrap();
    assert_eq!(cell.ch, 'R');
    assert_eq!(cell.attrs.fg, Color::Indexed(1));
}

#[test]
fn test_erase_in_display() {
    let mut handler = VtHandler::new(24, 80, 1000);
    process_bytes(&mut handler, b"Hello World");
    process_bytes(&mut handler, b"\x1b[2J");
    assert_eq!(handler.grid.row_to_string(0), "");
}

#[test]
fn test_scroll() {
    let mut handler = VtHandler::new(3, 80, 1000);
    process_bytes(&mut handler, b"Line1\r\nLine2\r\nLine3\r\nLine4");
    assert_eq!(handler.scrollback.len(), 1);
    assert_eq!(handler.grid.row_to_string(0), "Line2");
    assert_eq!(handler.grid.row_to_string(1), "Line3");
    assert_eq!(handler.grid.row_to_string(2), "Line4");
}

#[test]
fn vt_print_writes_attributes_and_marks_dirty() {
    let mut handler = VtHandler::new(4, 10, 10);
    process_bytes(&mut handler, b"\x1b[1;4mAb");
    let cell = handler.grid.cell(0, 1).unwrap();
    assert_eq!(cell.ch, 'b');
    assert!(cell.attrs.bold && cell.attrs.underline);
    assert!(handler.dirty);
    assert!(handler.dirty_lines.contains(&0));
    assert_eq!(handler.hot_cells, vec![(0, 0), (0, 1)]);
    handler.clear_dirty();
    assert!(!handler.dirty);
    assert!(handler.dirty_lines.is_empty());
    assert!(handler.hot_cells.is_empty());
}

#[test]
fn vt_autowrap_at_the_right_edge() {
    let mut handler = VtHandler::new(3, 4, 10);
    process_bytes(&mut handler, b"abcdef");
    assert_eq!(handler.grid.row_to_string(0), "abcd");
    assert_eq!(handler.grid.row_to_string(1), "ef");
    assert_eq!((handler.cursor_row, handler.cursor_col), (1, 2));
}

#[test]
fn vt_extended_colors() {
    let mut handler = VtHandler::new(2, 10, 10);
    process_bytes(&mut handler, b"\x1b[38;5;200;48;2;1;2;3mX\x1b[39;49mY");
    let x = handler.grid.cell(0, 0).unwrap();
    assert_eq!(x.attrs.fg, Color::Indexed(200));
    assert_eq!(x.attrs.bg, Color::Rgb(1, 2, 3));
    let y = handler.grid.cell(0, 1).unwrap();
    assert_eq!(y.attrs.fg, Color::Default);
    assert_eq!(y.attrs.bg, Color::Default);
}

#[test]
fn vt_bright_colors_and_attribute_resets() {
    let mut handler = VtHandler::new(2, 10, 10);
    process_bytes(&mut handler, b"\x1b[91;104;1;2;3;7mA\x1b[22;23;27mB");
    let a = handler.grid.cell(0, 0).unwrap();
    assert_eq!(a.attrs.fg, Color::Indexed(9));
    assert_eq!(a.attrs.bg, Color::Indexed(12));
    assert!(a.attrs.bold && a.attrs.dim && a.attrs.italic && a.attrs.inverse);
    let b = handler.grid.cell(0, 1).unwrap();
    assert!(!b.attrs.bold && !b.attrs.dim && !b.attrs.italic && !b.attrs.inverse);
    assert_eq!(b.attrs.fg, Color::Indexed(9));
}

#[test]
fn vt_cursor_position_is_clamped() {
    let mut handler = VtHandler::new(5, 10, 10);
    process_bytes(&mut handler, b"\x1b[3;4H");
    assert_eq!((handler.cursor_row, handler.cursor_col), (2, 3));
    process_bytes(&mut handler, b"\x1b[99;99H");
    assert_eq!((handler.cursor_row, handler.cursor_col), (4, 9));
    process_bytes(&mut handler, b"\x1b[10A\x1b[100D");
    assert_eq!((handler.cursor_row, handler.cursor_col), (0, 0));
    process_bytes(&mut handler, b"\x1b[2B\x1b[3C");
    assert_eq!((handler.cursor_row, handler.cursor_col), (2, 3));
    process_bytes(&mut handler, b"\x1b[E");
    assert_eq!((handler.cursor_row, handler.cursor_col), (3, 0));
    process_bytes(&mut handler, b"\x1b[7G\x1b[2F");
    assert_eq!((handler.cursor_row, handler.cursor_col), (1, 0));
}

#[test]
fn vt_erase_in_line_modes() {
    let mut handler = VtHandler::new(2, 10, 10);
    process_bytes(&mut handler, b"abcdefgh\x1b[1;4H\x1b[K");
    assert_eq!(handler.grid.row_to_string(0), "abc");
    process_bytes(&mut handler, b"\x1b[2;1Habcdefgh\x1b[2;4H\x1b[1K");
    assert_eq!(handler.grid.row_to_string(1), "    efgh");
    process_bytes(&mut handler, b"\x1b[2K");
    assert_eq!(handler.grid.row_to_string(1), "");
}

#[test]
fn vt_erase_below_and_above() {
    let mut handler = VtHandler::new(3, 5, 10);
    process_bytes(&mut handler, b"aaaaa\r\nbbbbb\r\nccccc\x1b[2;3H\x1b[J");
    assert_eq!(handler.visible_lines(), vec!["aaaaa", "bb", ""]);
    process_bytes(&mut handler, b"\x1b[1;1Haaaaa\x1b[2;1Hbbbbb\x1b[3;1Hccccc\x1b[2;3H\x1b[1J");
    assert_eq!(handler.visible_lines(), vec!["", "   bb", "ccccc"]);
}

#[test]
fn vt_insert_and_delete_characters() {
    let mut handler = VtHandler::new(1, 6, 10);
    process_bytes(&mut handler, b"abcdef\x1b[1;2H\x1b[2@");
    assert_eq!(handler.grid.row_to_string(0), "a  bcd");
    process_bytes(&mut handler, b"\x1b[3P");
    assert_eq!(handler.grid.row_to_string(0), "acd");
}

#[test]
fn vt_insert_and_delete_lines_in_region() {
    let mut handler = VtHandler::new(4, 4, 10);
    process_bytes(&mut handler, b"1\r\n2\r\n3\r\n4\x1b[2;3r");
    assert_eq!((handler.scroll_top, handler.scroll_bottom), (1, 2));
    assert_eq!((handler.cursor_row, handler.cursor_col), (0, 0));
    process_bytes(&mut handler, b"\x1b[L");
    assert_eq!(handler.visible_lines(), vec!["1", "", "2", "4"]);
    process_bytes(&mut handler, b"\x1b[2M");
    assert_eq!(handler.visible_lines(), vec!["1", "", "", "4"]);
    assert_eq!(handler.scrollback.len(), 0);
}

#[test]
fn vt_scroll_up_and_down_commands() {
    let mut handler = VtHandler::new(3, 4, 10);
    process_bytes(&mut handler, b"a\r\nb\r\nc\x1b[S");
    assert_eq!(handler.visible_lines(), vec!["b", "c", ""]);
    assert_eq!(handler.scrollback.len(), 1);
    process_bytes(&mut handler, b"\x1b[2T");
    assert_eq!(handler.visible_lines(), vec!["", "", "b"]);
}

#[test]
fn vt_save_and_restore_cursor() {
    let mut handler = VtHandler::new(5, 10, 10);
    process_bytes(&mut handler, b"\x1b[2;3H\x1b7\x1b[5;9H\x1b8");
    assert_eq!((handler.cursor_row, handler.cursor_col), (1, 2));
    process_bytes(&mut handler, b"\x1b[4;4H\x1b[s\x1b[1;1H\x1b[u");
    assert_eq!((handler.cursor_row, handler.cursor_col), (3, 3));
}

#[test]
fn vt_reverse_index_and_next_line() {
    let mut handler = VtHandler::new(3, 4, 10);
    process_bytes(&mut handler, b"top\x1bM");
    assert_eq!(handler.visible_lines(), vec!["", "top", ""]);
    process_bytes(&mut handler, b"\x1b[2;3H\x1bE");
    assert_eq!((handler.cursor_row, handler.cursor_col), (2, 0));
    process_bytes(&mut handler, b"\x1bM");
    assert_eq!(handler.cursor_row, 1);
    process_bytes(&mut handler, b"\x1bD");
    assert_eq!(handler.cursor_row, 2);
}

#[test]
fn vt_tab_backspace_and_carriage_return() {
    let mut handler = VtHandler::new(2, 20, 10);
    process_bytes(&mut handler, b"ab\tc");
    assert_eq!(handler.grid.cell(0, 8).unwrap().ch, 'c');
    process_bytes(&mut handler, b"\t\t\t");
    assert_eq!(handler.cursor_col, 19);
    process_bytes(&mut handler, b"\x08\x08");
    assert_eq!(handler.cursor_col, 17);
    process_bytes(&mut handler, b"\r");
    assert_eq!(handler.cursor_col, 0);
}

#[test]
fn vt_window_title() {
    let mut handler = VtHandler::new(2, 10, 10);
    process_bytes(&mut handler, b"\x1b]0;my title\x07");
    assert_eq!(handler.title.as_deref(), Some("my title"));
    process_bytes(&mut handler, b"\x1b]2;other\x1b\\");
    assert_eq!(handler.title.as_deref(), Some("other"));
    process_bytes(&mut handler, b"\x1b]1;ignored\x07");
    assert_eq!(handler.title.as_deref(), Some("other"));
}

#[test]
fn vt_sixel_image_becomes_pending() {
    let mut handler = VtHandler::new(2, 10, 10);
    process_bytes(&mut handler, b"\x1bPq#1~~-~\x1b\\");
    assert_eq!(handler.pending_images.len(), 1);
    let image = &handler.pending_images[0];
    assert_eq!((image.width, image.height), (2, 12));
    assert_eq!(&image.pixels[0..4], &[128, 0, 0, 255]);
    assert!(handler.dirty);
}

#[test]
fn vt_empty_sixel_gives_no_image() {
    let mut handler = VtHandler::new(2, 10, 10);
    process_bytes(&mut handler, b"\x1bPq#1\x1b\\");
    assert!(handler.pending_images.is_empty());
}

#[test]
fn vt_full_reset() {
    let mut handler = VtHandler::new(3, 6, 7);
    process_bytes(&mut handler, b"\x1b[31mabc\x1b]0;t\x07\x1bc");
    assert_eq!(handler.grid.row_to_string(0), "");
    assert_eq!((handler.cursor_row, handler.cursor_col), (0, 0));
    assert!(handler.title.is_none());
    assert_eq!(handler.scrollback.capacity(), 7);
    assert_eq!((handler.rows(), handler.cols()), (3, 6));
}

#[test]
fn vt_resize_clamps_cursor() {
    let mut handler = VtHandler::new(10, 20, 10);
    process_bytes(&mut handler, b"\x1b[9;19Hx");
    handler.resize(4, 5);
    assert_eq!((handler.rows(), handler.cols()), (4, 5));
    assert_eq!((handler.cursor_row, handler.cursor_col), (3, 4));
    assert_eq!(handler.scroll_bottom, 3);
    assert!(handler.dirty);
    assert_eq!(handler.visible_cells().len(), 4);
}
