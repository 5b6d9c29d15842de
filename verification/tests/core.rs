use ridgeback::buffer::ScrollbackBuffer;
use ridgeback::cell::{Cell, CellAttributes, Color};
use ridgeback::grid::Grid;

fn line_of(text: &str) -> Vec<Cell> {
    text.chars().map(Cell::new).collect()
}

#[test]
fn cell_defaults_and_clear() {
    let mut cell = Cell::with_attrs('x', CellAttributes { bold: true, ..CellAttributes::default() });
    assert!(!cell.is_empty());
    cell.clear();
    assert!(cell.is_empty());
    assert_eq!(cell, Cell::default());
    assert_eq!(Cell::new('a').attrs, CellAttributes::default());
}

#[test]
fn ansi_color_codes() {
    assert_eq!(Color::from_ansi_fg(31), Some(Color::Indexed(1)));
    assert_eq!(Color::from_ansi_fg(97), Some(Color::Indexed(15)));
    assert_eq!(Color::from_ansi_fg(39), Some(Color::Default));
    assert_eq!(Color::from_ansi_fg(40), None);
    assert_eq!(Color::from_ansi_bg(44), Some(Color::Indexed(4)));
    assert_eq!(Color::from_ansi_bg(100), Some(Color::Indexed(8)));
    assert_eq!(Color::from_ansi_bg(49), Some(Color::Default));
    assert_eq!(Color::from_ansi_bg(30), None);
}

#[test]
fn grid_cells_rows_and_strings() {
    let mut grid = Grid::new(3, 4);
    assert_eq!((grid.rows(), grid.cols()), (3, 4));
    *grid.cell_mut(1, 2).unwrap() = Cell::new('z');
    assert_eq!(grid.cell(1, 2).unwrap().ch, 'z');
    assert!(grid.cell(3, 0).is_none());
    assert!(grid.cell(0, 4).is_none());
    assert_eq!(grid.row_to_string(1), "  z");
    assert_eq!(grid.row_to_string(7), "");
    assert_eq!(grid.row(1).unwrap().len(), 4);
    grid.row_mut(0).unwrap()[0] = Cell::new('a');
    assert_eq!(grid.row_to_string(0), "a");
    grid.clear_row(1);
    assert_eq!(grid.row_to_string(1), "");
    grid.clear();
    assert_eq!(grid.row_to_string(0), "");
}

#[test]
fn grid_scrolling() {
    let mut grid = Grid::new(3, 2);
    for (r, ch) in ['a', 'b', 'c'].iter().enumerate() {
        *grid.cell_mut(r, 0).unwrap() = Cell::new(*ch);
    }
    let removed = grid.scroll_up();
    assert_eq!(removed[0].ch, 'a');
    assert_eq!(grid.visible_rows().len(), 3);
    assert_eq!(grid.row_to_string(0), "b");
    assert_eq!(grid.row_to_string(2), "");
    grid.scroll_region_down(0, 2);
    assert_eq!(grid.row_to_string(0), "");
    assert_eq!(grid.row_to_string(1), "b");
    grid.scroll_region_up(1, 2);
    assert_eq!(grid.row_to_string(1), "c");
    grid.scroll_region_up(2, 1);
    assert_eq!(grid.row_to_string(1), "c");
}

#[test]
fn grid_erasing_and_editing() {
    let mut grid = Grid::new(2, 5);
    for c in 0..5 {
        *grid.cell_mut(0, c).unwrap() = Cell::new((b'a' + c as u8) as char);
        *grid.cell_mut(1, c).unwrap() = Cell::new((b'f' + c as u8) as char);
    }
    grid.erase_to_eol(0, 3);
    assert_eq!(grid.row_to_string(0), "abc");
    grid.erase_from_bol(1, 1);
    assert_eq!(grid.row_to_string(1), "  hij");
    grid.insert_chars(1, 0, 2);
    assert_eq!(grid.row_to_string(1), "    h");
    grid.delete_chars(1, 0, 4);
    assert_eq!(grid.row_to_string(1), "h");
    grid.erase_line(0);
    assert_eq!(grid.row_to_string(0), "");
    grid.erase_below(0, 0);
    assert_eq!(grid.row_to_string(1), "");
    *grid.cell_mut(1, 4).unwrap() = Cell::new('q');
    grid.erase_above(1, 3);
    assert_eq!(grid.row_to_string(1), "    q");
}

#[test]
fn grid_resize_keeps_top_left() {
    let mut grid = Grid::new(2, 3);
    *grid.cell_mut(0, 2).unwrap() = Cell::new('x');
    *grid.cell_mut(1, 0).unwrap() = Cell::new('y');
    grid.resize(3, 2);
    assert_eq!((grid.rows(), grid.cols()), (3, 2));
    assert_eq!(grid.row_to_string(0), "");
    assert_eq!(grid.row_to_string(1), "y");
    grid.resize(1, 4);
    assert_eq!(grid.row(0).unwrap().len(), 4);
}

#[test]
fn scrollback_keeps_the_most_recent_lines() {
    let mut sb = ScrollbackBuffer::new(2);
    assert!(sb.is_empty());
    sb.push(line_of("one"));
    sb.push(line_of("two  "));
    sb.push(line_of("three"));
    assert_eq!(sb.len(), 2);
    assert_eq!(sb.capacity(), 2);
    assert_eq!(sb.all_lines_as_strings(), vec!["two", "three"]);
    assert_eq!(sb.last_n_lines(1), vec!["three"]);
    assert_eq!(sb.last_n_lines(5), vec!["two", "three"]);
    assert_eq!(sb.full_log(), "two\nthree");
    assert_eq!(sb.line(0).unwrap()[0].ch, 't');
    assert!(sb.line(2).is_none());
    assert_eq!(sb.iter().count(), 2);
    let last = sb.pop().unwrap();
    assert_eq!(last[0].ch, 't');
    assert_eq!(sb.len(), 1);
}

#[test]
fn scrollback_capacity_changes_and_clear() {
    let mut sb = ScrollbackBuffer::new(5);
    for t in ["a", "b", "c", "d"] {
        sb.push(line_of(t));
    }
    sb.set_capacity(2);
    assert_eq!(sb.all_lines_as_strings(), vec!["c", "d"]);
    sb.clear();
    assert!(sb.is_empty());
    assert_eq!(sb.full_log(), "");
    let mut zero = ScrollbackBuffer::new(0);
    zero.push(line_of("kept"));
    assert_eq!(zero.len(), 1);
}
