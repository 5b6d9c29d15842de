use vstd::prelude::*;

use crate::cell::{blank_cell, Cell};
use crate::text::{trim_end, trimmed_string};

verus! {

/// `n` blank cells.
pub open spec fn blanks(n: nat) -> Seq<Cell> {
    Seq::new(n, |i: int| blank_cell())
}

/// The characters of a row of cells.
pub open spec fn row_chars(r: Seq<Cell>) -> Seq<char> {
    r.map_values(|c: Cell| c.ch)
}

/// The abstract grid: its rows of cells and its declared size.
pub struct GridModel {
    pub cells: Seq<Seq<Cell>>,
    pub rows: nat,
    pub cols: nat,
}

impl GridModel {
    pub open spec fn wf(self) -> bool {
        &&& self.cells.len() == self.rows
        &&& forall|r: int| 0 <= r < self.rows ==> (#[trigger] self.cells[r]).len() == self.cols
    }

    /// The grid with row `r` replaced by `row` (no change when `r` is out of range).
    pub open spec fn with_row(self, r: int, row: Seq<Cell>) -> GridModel {
        if 0 <= r < self.cells.len() {
            GridModel { cells: self.cells.update(r, row), ..self }
        } else {
            self
        }
    }

    /// The grid with cells `[from, to)` of row `r` blanked.
    pub open spec fn blank_span(self, r: int, from: int, to: int) -> GridModel {
        if 0 <= r < self.cells.len() {
            self.with_row(
                r,
                Seq::new(
                    self.cells[r].len(),
                    |c: int|
                        if from <= c < to {
                            blank_cell()
                        } else {
                            self.cells[r][c]
                        },
                ),
            )
        } else {
            self
        }
    }

    /// The grid with rows `[from, to)` blanked.
    pub open spec fn blank_rows(self, from: int, to: int) -> GridModel {
        GridModel {
            cells: Seq::new(
                self.cells.len(),
                |r: int|
                    if from <= r < to {
                        blanks(self.cells[r].len())
                    } else {
                        self.cells[r]
                    },
            ),
            ..self
        }
    }

    /// Row `r` after `count` blank cells are inserted at `col` (cells pushed past the
    /// right edge are lost).
    pub open spec fn inserted_row(self, r: int, col: int, count: nat) -> Seq<Cell> {
        let row = self.cells[r];
        let k = if count < row.len() - col {
            count as int
        } else {
            row.len() - col
        };
        row.subrange(0, col) + blanks(k as nat) + row.subrange(col, row.len() - k)
    }

    /// Row `r` after `count` cells are deleted at `col` (blank cells fill in at the
    /// right edge).
    pub open spec fn deleted_row(self, r: int, col: int, count: nat) -> Seq<Cell> {
        let row = self.cells[r];
        let k = if count < row.len() - col {
            count as int
        } else {
            row.len() - col
        };
        row.subrange(0, col) + row.subrange(col + k, row.len() as int) + blanks(k as nat)
    }

    /// The region `[top, bottom]` scrolled up one line: its top row is dropped and a
    /// blank row appears at its bottom.
    pub open spec fn region_up(self, top: int, bottom: int) -> GridModel {
        if top < bottom && bottom < self.rows {
            GridModel {
                cells: self.cells.subrange(0, top) + self.cells.subrange(top + 1, bottom + 1)
                    + seq![blanks(self.cols)] + self.cells.subrange(
                    bottom + 1,
                    self.cells.len() as int,
                ),
                ..self
            }
        } else {
            self
        }
    }

    /// The region `[top, bottom]` scrolled down one line: its bottom row is dropped and
    /// a blank row appears at its top.
    pub open spec fn region_down(self, top: int, bottom: int) -> GridModel {
        if top < bottom && bottom < self.rows {
            GridModel {
                cells: self.cells.subrange(0, top) + seq![blanks(self.cols)]
                    + self.cells.subrange(top, bottom) + self.cells.subrange(
                    bottom + 1,
                    self.cells.len() as int,
                ),
                ..self
            }
        } else {
            self
        }
    }

    /// The grid resized, keeping the top-left content and filling with blank cells.
    pub open spec fn resized(self, new_rows: nat, new_cols: nat) -> GridModel {
        GridModel {
            cells: Seq::new(
                new_rows,
                |r: int|
                    if r < self.cells.len() {
                        Seq::new(
                            new_cols,
                            |c: int|
                                if c < self.cells[r].len() {
                                    self.cells[r][c]
                                } else {
                                    blank_cell()
                                },
                        )
                    } else {
                        blanks(new_cols)
                    },
            ),
            rows: new_rows,
            cols: new_cols,
        }
    }
}

/// The cell sequences of a vector of rows.
pub open spec fn row_views(v: Seq<Vec<Cell>>) -> Seq<Seq<Cell>> {
    v.map_values(|r: Vec<Cell>| r@)
}

proof fn lemma_row_views_push(v: Seq<Vec<Cell>>, x: Vec<Cell>)
    ensures
        row_views(v.push(x)) == row_views(v).push(x@),
{
    assert(row_views(v.push(x)) =~= row_views(v).push(x@));
}

/// `n` blank cells.
fn blank_row(n: usize) -> (v: Vec<Cell>)
    ensures
        v@ == blanks(n as nat),
{
    let mut v: Vec<Cell> = Vec::new();
    let mut i: usize = 0;
    while i < n
        invariant
            i <= n,
            v@ == blanks(i as nat),
        decreases n - i,
    {
        v.push(Cell::default());
        i += 1;
        assert(v@ =~= blanks(i as nat));
    }
    v
}

/// Blanks `row[from..to)`.
fn blank_cells(row: &mut Vec<Cell>, from: usize, to: usize)
    requires
        to <= old(row)@.len(),
    ensures
        final(row)@ == Seq::new(
            old(row)@.len(),
            |c: int|
                if from <= c < to {
                    blank_cell()
                } else {
                    old(row)@[c]
                },
        ),
{
    let ghost orig = row@;
    let mut c = from;
    while c < to
        invariant
            to <= orig.len(),
            row@.len() == orig.len(),
            from <= c,
            from < to ==> c <= to,
            from >= to ==> c == from,
            forall|i: int|
                0 <= i < orig.len() ==> #[trigger] row@[i] == (if from <= i < c {
                    blank_cell()
                } else {
                    orig[i]
                }),
        decreases to - c,
    {
        row.set(c, Cell::default());
        c += 1;
    }
    assert(row@ =~= Seq::new(
        orig.len(),
        |i: int|
            if from <= i < to {
                blank_cell()
            } else {
                orig[i]
            },
    ));
}

/// A fixed-size grid of terminal cells representing the visible area.
#[derive(Debug, Clone)]
pub struct Grid {
    cells: Vec<Vec<Cell>>,
    rows: usize,
    cols: usize,
}

impl View for Grid {
    type V = GridModel;

    closed spec fn view(&self) -> GridModel {
        GridModel {
            cells: row_views(self.cells@),
            rows: self.rows as nat,
            cols: self.cols as nat,
        }
    }
}

impl Grid {
    /// Moves row `row` out, leaving an empty row in its place.
    fn take_row(&mut self, row: usize) -> (r: Vec<Cell>)
        requires
            row < old(self).cells@.len(),
        ensures
            r == old(self).cells@[row as int],
            final(self).cells@.len() == old(self).cells@.len(),
            forall|i: int| 0 <= i < old(self).cells@.len() && i != row ==> final(self).cells@[i] == old(self).cells@[i],
            final(self).rows == old(self).rows,
            final(self).cols == old(self).cols,
    {
        let mut r: Vec<Cell> = Vec::new();
        let mut cells = Vec::new();
        std::mem::swap(&mut cells, &mut self.cells);
        let ghost c0 = cells@;
        std::mem::swap(&mut r, &mut cells[row]);
        std::mem::swap(&mut cells, &mut self.cells);
        r
    }

    pub open spec fn wf(&self) -> bool {
        self@.wf()
    }

    pub fn new(rows: usize, cols: usize) -> (g: Self)
        ensures
            g.wf(),
            g@.rows == rows,
            g@.cols == cols,
            g@.cells == Seq::new(rows as nat, |r: int| blanks(cols as nat)),
    {
        let mut cells: Vec<Vec<Cell>> = Vec::new();
        let mut i: usize = 0;
        while i < rows
            invariant
                i <= rows,
                row_views(cells@) == Seq::new(
                    i as nat,
                    |r: int| blanks(cols as nat),
                ),
            decreases rows - i,
        {
            let row = blank_row(cols);
            proof {
                lemma_row_views_push(cells@, row);
            }
            cells.push(row);
            i += 1;
            assert(row_views(cells@) =~= Seq::new(
                i as nat,
                |r: int| blanks(cols as nat),
            ));
        }
        Grid { cells, rows, cols }
    }

    pub fn rows(&self) -> (r: usize)
        ensures
            r == self@.rows,
    {
        self.rows
    }

    pub fn cols(&self) -> (r: usize)
        ensures
            r == self@.cols,
    {
        self.cols
    }

    /// Get a reference to a cell at (row, col).
    pub fn cell(&self, row: usize, col: usize) -> (r: Option<&Cell>)
        requires
            self.wf(),
        ensures
            r is Some <==> row < self@.rows && col < self@.cols,
            r matches Some(c) ==> *c == self@.cells[row as int][col as int],
    {
        if row < self.cells.len() && col < self.cells[row].len() {
            Some(&self.cells[row][col])
        } else {
            None
        }
    }

    /// Get a mutable reference to a cell at (row, col).
    pub fn cell_mut(&mut self, row: usize, col: usize) -> (r: Option<&mut Cell>)
        requires
            old(self).wf(),
        ensures
            r is Some <==> row < old(self)@.rows && col < old(self)@.cols,
            r matches Some(c) ==> *c == old(self)@.cells[row as int][col as int],
            r matches Some(c) ==> final(self)@ == old(self)@.with_row(
                row as int,
                old(self)@.cells[row as int].update(col as int, *final(c)),
            ),
            r is None ==> final(self)@ == old(self)@,
    {
        let ghost m = self@;
        let ghost m_cells = self.cells@;
        if row < self.cells.len() {
            assert(m.cells[row as int] == self.cells@[row as int]@);
            if col < self.cells[row].len() {
                let c = &mut self.cells[row][col];
                proof {
                    assert(row_views(after_borrow(self.cells)@) =~= row_views(m_cells).update(
                        row as int,
                        m_cells[row as int]@.update(col as int, *final(c)),
                    ));
                }
                return Some(c);
            }
        }
        None
    }

    /// Get an entire row.
    pub fn row(&self, row: usize) -> (r: Option<&[Cell]>)
        requires
            self.wf(),
        ensures
            r is Some <==> row < self@.rows,
            r matches Some(s) ==> s@ == self@.cells[row as int],
    {
        if row < self.cells.len() {
            Some(self.cells[row].as_slice())
        } else {
            None
        }
    }

    /// Get a mutable reference to an entire row. Whatever is written through it
    /// becomes that row; the grid stays well-formed only if the row keeps its length.
    pub fn row_mut(&mut self, row: usize) -> (r: Option<&mut Vec<Cell>>)
        requires
            old(self).wf(),
        ensures
            r is Some <==> row < old(self)@.rows,
            r matches Some(v) ==> v@ == old(self)@.cells[row as int],
            r matches Some(v) ==> final(self)@ == old(self)@.with_row(row as int, final(v)@),
            r is None ==> final(self)@ == old(self)@,
    {
        let ghost m_cells = self.cells@;
        if row < self.cells.len() {
            let v = &mut self.cells[row];
            proof {
                assert(row_views(after_borrow(self.cells)@) =~= row_views(m_cells).update(
                    row as int,
                    final(v)@,
                ));
            }
            return Some(v);
        }
        None
    }

    /// Convert a row to a string, trimming trailing spaces.
    pub fn row_to_string(&self, row: usize) -> (s: String)
        requires
            self.wf(),
        ensures
            row < self@.rows ==> s@ == trim_end(row_chars(self@.cells[row as int])),
            row >= self@.rows ==> s@.len() == 0,
    {
        if row < self.cells.len() {
            let r = &self.cells[row];
            let mut chars: Vec<char> = Vec::new();
            let mut i: usize = 0;
            while i < r.len()
                invariant
                    i <= r@.len(),
                    chars@ == row_chars(r@).subrange(0, i as int),
                decreases r@.len() - i,
            {
                chars.push(r[i].ch);
                i += 1;
                assert(chars@ =~= row_chars(r@).subrange(0, i as int));
            }
            assert(chars@ =~= row_chars(r@));
            trimmed_string(chars.as_slice())
        } else {
            String::new()
        }
    }

    /// Clear the entire grid.
    pub fn clear(&mut self)
        requires
            old(self).wf(),
        ensures
            final(self).wf(),
            final(self)@ == old(self)@.blank_rows(0, old(self)@.rows as int),
    {
        assert(self@.cells =~= self@.blank_rows(0, 0).cells);
        let mut r: usize = 0;
        while r < self.rows
            invariant
                self.wf(),
                r <= self.rows,
                self@.rows == old(self)@.rows,
                self@.cols == old(self)@.cols,
                self@ == old(self)@.blank_rows(0, r as int),
            decreases self.rows - r,
        {
            self.clear_row(r);
            r += 1;
            assert(self@.cells =~= old(self)@.blank_rows(0, r as int).cells);
        }
    }

    /// Clear a specific row.
    pub fn clear_row(&mut self, row: usize)
        requires
            old(self).wf(),
        ensures
            final(self).wf(),
            final(self)@ == old(self)@.blank_rows(row as int, row + 1),
    {
        if row < self.cells.len() {
            let ghost m = self@;
            let len = self.cells[row].len();
            let r = blank_row(len);
            self.cells.set(row, r);
            assert(self@.cells =~= m.blank_rows(row as int, row + 1).cells);
        } else {
            assert(self@.cells =~= old(self)@.blank_rows(row as int, row + 1).cells);
        }
    }

    /// Scroll up by one line: removes the top row and adds a blank row at the bottom.
    /// Returns the removed top row.
    pub fn scroll_up(&mut self) -> (removed: Vec<Cell>)
        requires
            old(self).wf(),
            old(self)@.rows > 0,
        ensures
            final(self).wf(),
            removed@ == old(self)@.cells[0],
            final(self)@ == (GridModel {
                cells: old(self)@.cells.drop_first().push(blanks(old(self)@.cols)),
                ..old(self)@
            }),
    {
        let ghost m = self@;
        let removed = self.cells.remove(0);
        let row = blank_row(self.cols);
        self.cells.push(row);
        assert(self@.cells =~= m.cells.drop_first().push(blanks(m.cols)));
        removed
    }

    /// Scroll a region up by one line within [top, bottom] inclusive.
    pub fn scroll_region_up(&mut self, top: usize, bottom: usize)
        requires
            old(self).wf(),
        ensures
            final(self).wf(),
            final(self)@ == old(self)@.region_up(top as int, bottom as int),
    {
        if top < bottom && bottom < self.rows {
            let ghost m = self@;
            let _removed = self.cells.remove(top);
            let row = blank_row(self.cols);
            self.cells.insert(bottom, row);
            assert(self@.cells =~= m.region_up(top as int, bottom as int).cells);
        }
    }

    /// Scroll a region down by one line within [top, bottom] inclusive.
    pub fn scroll_region_down(&mut self, top: usize, bottom: usize)
        requires
            old(self).wf(),
        ensures
            final(self).wf(),
            final(self)@ == old(self)@.region_down(top as int, bottom as int),
    {
        if top < bottom && bottom < self.rows {
            let ghost m = self@;
            let _removed = self.cells.remove(bottom);
            let row = blank_row(self.cols);
            self.cells.insert(top, row);
            assert(self@.cells =~= m.region_down(top as int, bottom as int).cells);
        }
    }

    /// Resize the grid, preserving content where possible.
    pub fn resize(&mut self, new_rows: usize, new_cols: usize)
        requires
            old(self).wf(),
        ensures
            final(self).wf(),
            final(self)@ == old(self)@.resized(new_rows as nat, new_cols as nat),
    {
        let ghost m = self@;
        let ghost target = m.resized(new_rows as nat, new_cols as nat);
        let old_rows = self.cells.len();
        let mut cells: Vec<Vec<Cell>> = Vec::new();
        let mut r: usize = 0;
        while r < new_rows
            invariant
                r <= new_rows,
                old_rows == m.cells.len(),
                self@ == m,
                target == m.resized(new_rows as nat, new_cols as nat),
                row_views(cells@) == target.cells.subrange(0, r as int),
            decreases new_rows - r,
        {
            let mut row = blank_row(new_cols);
            if r < old_rows {
                let src = &self.cells[r];
                let n = if src.len() < new_cols {
                    src.len()
                } else {
                    new_cols
                };
                let mut c: usize = 0;
                while c < n
                    invariant
                        c <= n <= new_cols,
                        n <= src@.len(),
                        src@ == m.cells[r as int],
                        row@.len() == new_cols,
                        forall|i: int|
                            0 <= i < new_cols ==> #[trigger] row@[i] == (if i < c {
                                src@[i]
                            } else {
                                blank_cell()
                            }),
                    decreases n - c,
                {
                    row.set(c, src[c]);
                    c += 1;
                }
                assert(row@ =~= target.cells[r as int]);
            } else {
                assert(row@ =~= target.cells[r as int]);
            }
            proof {
                lemma_row_views_push(cells@, row);
            }
            cells.push(row);
            r += 1;
            assert(row_views(cells@) =~= target.cells.subrange(0, r as int));
        }
        self.cells = cells;
        self.rows = new_rows;
        self.cols = new_cols;
        assert(self@.cells =~= target.cells);
    }

    /// Get all visible rows.
    pub fn visible_rows(&self) -> (r: &[Vec<Cell>])
        ensures
            row_views(r@) == self@.cells,
    {
        self.cells.as_slice()
    }

    /// Erase from cursor position to end of line.
    pub fn erase_to_eol(&mut self, row: usize, col: usize)
        requires
            old(self).wf(),
        ensures
            final(self).wf(),
            final(self)@ == old(self)@.blank_span(row as int, col as int, old(self)@.cols as int),
    {
        if row < self.cells.len() {
            let ghost m = self@;
            let mut r = self.take_row(row);
            let len = r.len();
            blank_cells(&mut r, col, len);
            self.cells.set(row, r);
            assert(self@.cells =~= m.blank_span(row as int, col as int, m.cols as int).cells);
        }
    }

    /// Erase from beginning of line to cursor position.
    pub fn erase_from_bol(&mut self, row: usize, col: usize)
        requires
            old(self).wf(),
            row < old(self)@.rows ==> old(self)@.cols > 0,
        ensures
            final(self).wf(),
            final(self)@ == old(self)@.blank_span(row as int, 0, col + 1),
    {
        if row < self.cells.len() {
            let ghost m = self@;
            let mut r = self.take_row(row);
            let len = r.len();
            assert(r@ == m.cells[row as int]);
            let last = if col < len - 1 {
                col
            } else {
                len - 1
            };
            blank_cells(&mut r, 0, last + 1);
            assert(r@ =~= m.blank_span(row as int, 0, col + 1).cells[row as int]);
            self.cells.set(row, r);
            assert(self@.cells =~= m.blank_span(row as int, 0, col + 1).cells);
        }
    }

    /// Erase an entire line.
    pub fn erase_line(&mut self, row: usize)
        requires
            old(self).wf(),
        ensures
            final(self).wf(),
            final(self)@ == old(self)@.blank_rows(row as int, row + 1),
    {
        self.clear_row(row);
    }

    /// Erase from cursor to end of screen.
    pub fn erase_below(&mut self, row: usize, col: usize)
        requires
            old(self).wf(),
            row < usize::MAX,
        ensures
            final(self).wf(),
            final(self)@ == old(self)@.blank_span(row as int, col as int, old(self)@.cols as int).blank_rows(
                row + 1,
                old(self)@.rows as int,
            ),
    {
        self.erase_to_eol(row, col);
        let ghost m1 = self@;
        assert(self@.cells =~= m1.blank_rows(row + 1, row + 1).cells);
        let mut r = row + 1;
        while r < self.rows
            invariant
                self.wf(),
                row + 1 <= r || self.rows <= r,
                self@.rows == m1.rows,
                self@ == m1.blank_rows(row + 1, r as int),
            decreases self.rows - r,
        {
            self.clear_row(r);
            r += 1;
            assert(self@.cells =~= m1.blank_rows(row + 1, r as int).cells);
        }
        assert(self@.cells =~= m1.blank_rows(row + 1, m1.rows as int).cells);
    }

    /// Erase from beginning of screen to cursor.
    pub fn erase_above(&mut self, row: usize, col: usize)
        requires
            old(self).wf(),
            row < old(self)@.rows ==> old(self)@.cols > 0,
        ensures
            final(self).wf(),
            final(self)@ == old(self)@.blank_rows(0, row as int).blank_span(row as int, 0, col + 1),
    {
        assert(self@.cells =~= self@.blank_rows(0, 0).cells);
        let mut r: usize = 0;
        while r < row
            invariant
                self.wf(),
                r <= row,
                self@.rows == old(self)@.rows,
                self@.cols == old(self)@.cols,
                self@ == old(self)@.blank_rows(0, r as int),
            decreases row - r,
        {
            self.clear_row(r);
            r += 1;
            assert(self@.cells =~= old(self)@.blank_rows(0, r as int).cells);
        }
        self.erase_from_bol(row, col);
    }

    /// Insert blank characters at position, shifting existing chars right.
    pub fn insert_chars(&mut self, row: usize, col: usize, count: usize)
        requires
            old(self).wf(),
        ensures
            final(self).wf(),
            final(self)@ == (if row < old(self)@.rows && col < old(self)@.cols {
                old(self)@.with_row(row as int, old(self)@.inserted_row(row as int, col as int, count as nat))
            } else {
                old(self)@
            }),
    {
        if row < self.cells.len() {
            let ghost m = self@;
            let ghost orig = m.cells[row as int];
            let mut r = self.take_row(row);
            let mut i: usize = 0;
            while i < count
                invariant
                    orig.len() == self.cols,
                    i <= count,
                    col < orig.len() ==> r@ == m.inserted_row(row as int, col as int, i as nat),
                    col >= orig.len() ==> r@ == orig,
                    orig == m.cells[row as int],
                    row < m.cells.len(),
                decreases count - i,
            {
                if col < r.len() {
                    let ghost before = r@;
                    r.insert(col, Cell::default());
                    r.truncate(self.cols);
                    proof {
                        let k = if (i as int) < orig.len() - col {
                            i as int
                        } else {
                            orig.len() - col
                        };
                        let k1 = if (i + 1) < orig.len() - col {
                            i + 1
                        } else {
                            orig.len() - col
                        };
                        assert(r@ =~= m.inserted_row(row as int, col as int, (i + 1) as nat));
                    }
                }
                i += 1;
            }
            proof {
                if col >= orig.len() {
                    assert(r@ =~= orig);
                }
            }
            self.cells.set(row, r);
            assert(self@.cells =~= (if col < m.cols {
                m.with_row(row as int, m.inserted_row(row as int, col as int, count as nat))
            } else {
                m
            }).cells);
        }
    }

    /// Delete characters at position, shifting remaining chars left.
    pub fn delete_chars(&mut self, row: usize, col: usize, count: usize)
        requires
            old(self).wf(),
        ensures
            final(self).wf(),
            final(self)@ == (if row < old(self)@.rows && col < old(self)@.cols {
                old(self)@.with_row(row as int, old(self)@.deleted_row(row as int, col as int, count as nat))
            } else {
                old(self)@
            }),
    {
        if row < self.cells.len() {
            let ghost m = self@;
            let ghost orig = m.cells[row as int];
            let mut r = self.take_row(row);
            let mut i: usize = 0;
            while i < count
                invariant
                    orig.len() == self.cols,
                    i <= count,
                    col < orig.len() ==> r@ == m.deleted_row(row as int, col as int, i as nat),
                    col >= orig.len() ==> r@ == orig,
                    orig == m.cells[row as int],
                    row < m.cells.len(),
                decreases count - i,
            {
                if col < r.len() {
                    let _gone = r.remove(col);
                    r.push(Cell::default());
                    assert(r@ =~= m.deleted_row(row as int, col as int, (i + 1) as nat));
                }
                i += 1;
            }
            proof {
                if col >= orig.len() {
                    assert(r@ =~= orig);
                }
            }
            self.cells.set(row, r);
            assert(self@.cells =~= (if col < m.cols {
                m.with_row(row as int, m.deleted_row(row as int, col as int, count as nat))
            } else {
                m
            }).cells);
        }
    }
}

} // verus!
