use ridgeback::buffer::ScrollbackBuffer;
use ridgeback::cell::Cell;
use ridgeback::grid::Grid;
use ridgeback::search::{push_line_matches, search, SearchMatch, SearchOptions};

fn line_of(text: &str) -> Vec<Cell> {
    text.chars().map(Cell::new).collect()
}

#[test]
fn test_basic_search() {
    let mut scrollback = ScrollbackBuffer::new(1000);
    scrollback.push(line_of("hello world"));
    let grid = Grid::new(24, 80);

    let opts = SearchOptions {
        pattern: "world".to_string(),
        use_regex: false,
        ignore_case: false,
    };

    let results = search(&scrollback, &grid, &opts);
    assert_eq!(results.len(), 1);
    assert_eq!(results[0].col, 6);
    assert_eq!(results[0].text, "world");
}

#[test]
fn test_case_insensitive_search() {
    let mut scrollback = ScrollbackBuffer::new(1000);
    scrollback.push(line_of("Hello World"));
    let grid = Grid::new(24, 80);

    let opts = SearchOptions {
        pattern: "hello".to_string(),
        use_regex: false,
        ignore_case: true,
    };

    let results = search(&scrollback, &grid, &opts);
    assert_eq!(results.len(), 1);
}

#[test]
fn test_regex_search() {
    let mut scrollback = ScrollbackBuffer::new(1000);
    scrollback.push(line_of("error: file not found"));
    let grid = Grid::new(24, 80);

    let opts = SearchOptions {
        pattern: r"error:\s+\w+".to_string(),
        use_regex: true,
        ignore_case: false,
    };

    let results = search(&scrollback, &grid, &opts);
    assert_eq!(results.len(), 1);
    assert_eq!(results[0].text, "error: file");
}

#[test]
fn search_literal_pattern_is_escaped() {
    let mut scrollback = ScrollbackBuffer::new(10);
    scrollback.push(line_of("a.b axb a.b"));
    let grid = Grid::new(2, 10);
    let opts = SearchOptions { pattern: "a.b".to_string(), use_regex: false, ignore_case: false };
    let results = search(&scrollback, &grid, &opts);
    assert_eq!(results.len(), 2);
    assert_eq!((results[0].col, results[1].col), (0, 8));
}

#[test]
fn search_numbers_screen_rows_after_scrollback() {
    let mut scrollback = ScrollbackBuffer::new(10);
    scrollback.push(line_of("one"));
    scrollback.push(line_of("two"));
    let mut grid = Grid::new(3, 10);
    *grid.cell_mut(1, 2).unwrap() = Cell::new('o');
    let opts = SearchOptions { pattern: "o".to_string(), ..SearchOptions::default() };
    let results = search(&scrollback, &grid, &opts);
    let lines: Vec<(usize, usize)> = results.iter().map(|m| (m.line, m.col)).collect();
    assert_eq!(lines, vec![(0, 0), (1, 2), (3, 2)]);
    assert_eq!(results[2].len, 1);
}

#[test]
fn search_empty_pattern_or_bad_regex_finds_nothing() {
    let mut scrollback = ScrollbackBuffer::new(10);
    scrollback.push(line_of("anything"));
    let grid = Grid::new(2, 10);
    let empty = SearchOptions::default();
    assert!(empty.ignore_case && !empty.use_regex);
    assert!(search(&scrollback, &grid, &empty).is_empty());
    let bad = SearchOptions { pattern: "(".to_string(), use_regex: true, ignore_case: false };
    assert!(search(&scrollback, &grid, &bad).is_empty());
    let literal = SearchOptions { pattern: "(".to_string(), use_regex: false, ignore_case: false };
    assert!(search(&scrollback, &grid, &literal).is_empty());
}

#[test]
fn search_offsets_are_in_characters() {
    let mut scrollback = ScrollbackBuffer::new(10);
    scrollback.push(line_of("héllo wörld"));
    let grid = Grid::new(1, 4);
    let opts = SearchOptions { pattern: "wörld".to_string(), use_regex: false, ignore_case: false };
    let results = search(&scrollback, &grid, &opts);
    assert_eq!(results.len(), 1);
    assert_eq!((results[0].col, results[0].len), (6, 5));
}

#[test]
fn push_line_matches_keeps_order() {
    let mut results = vec![SearchMatch { line: 0, col: 1, len: 1, text: "x".to_string() }];
    push_line_matches(
        &mut results,
        4,
        "éab c",
        vec![(2, 2, "ab".to_string()), (5, 1, "c".to_string())],
    );
    assert_eq!(results.len(), 3);
    assert_eq!(results[1], SearchMatch { line: 4, col: 1, len: 2, text: "ab".to_string() });
    assert_eq!(results[2], SearchMatch { line: 4, col: 4, len: 1, text: "c".to_string() });
}

#[test]
fn literal_search_escapes_meta_characters() {
    let mut scrollback = ScrollbackBuffer::new(1000);
    scrollback.push(line_of("axb a.b (x)"));
    let grid = Grid::new(2, 10);
    let opts = SearchOptions { pattern: "a.b".to_string(), use_regex: false, ignore_case: false };
    let results = search(&scrollback, &grid, &opts);
    assert_eq!(results.len(), 1);
    assert_eq!(results[0].col, 4);
    let opts = SearchOptions { pattern: "(x)".to_string(), use_regex: false, ignore_case: true };
    let results = search(&scrollback, &grid, &opts);
    assert_eq!(results.len(), 1);
    assert_eq!(results[0].col, 8);
    let opts = SearchOptions { pattern: "a.b".to_string(), use_regex: true, ignore_case: false };
    assert_eq!(search(&scrollback, &grid, &opts).len(), 2);
}
