//! The VT state machine: what each parsed control function does to the screen.
//!
//! A VT parser hands the handler printable characters, C0 controls, and
//! CSI / ESC / OSC / DCS sequences with their numeric parameters; the handler
//! updates the grid, the cursor, the scrollback and the attributes of what is
//! printed next.

use vstd::prelude::*;

use std::collections::HashSet;

use crate::buffer::{ScrollbackBuffer, ScrollbackModel};
use crate::cell::{default_attrs, spec_ansi_bg, spec_ansi_fg, Cell, CellAttributes, Color};
use crate::grid::{blanks, Grid, GridModel};
use crate::profile::CursorStyle;
use crate::sixel::{initial_decoder, ImageLayer, ImageLayerModel, SixelDecoder, SixelImage, SixelModel};

verus! {

broadcast use vstd::std_specs::hash::group_hash_axioms;

/// The abstract state of the VT handler.
pub struct VtModel {
    pub grid: GridModel,
    pub scrollback: ScrollbackModel,
    pub cursor_row: usize,
    pub cursor_col: usize,
    pub saved_row: usize,
    pub saved_col: usize,
    pub attrs: CellAttributes,
    pub scroll_top: usize,
    pub scroll_bottom: usize,
    pub dirty: bool,
    pub dirty_lines: Set<usize>,
    pub hot_cells: Seq<(usize, usize)>,
    pub title: Option<Seq<char>>,
    pub cursor_style: CursorStyle,
    pub decoder: Option<SixelModel>,
    pub images: ImageLayerModel,
    /// Decoded images not yet taken by the renderer: pixels, width, height.
    pub pending: Seq<(Seq<u8>, u32, u32)>,
}

/// The rows `top..=bottom`.
pub open spec fn row_span(top: int, bottom: int) -> Set<usize> {
    Set::new(|r: usize| top <= r <= bottom)
}

/// A handler of the given size, as created.
pub open spec fn fresh_handler(rows: usize, cols: usize, capacity: usize) -> VtModel {
    VtModel {
        grid: GridModel {
            cells: Seq::new(rows as nat, |r: int| blanks(cols as nat)),
            rows: rows as nat,
            cols: cols as nat,
        },
        scrollback: ScrollbackModel { lines: Seq::empty(), capacity: capacity as nat },
        cursor_row: 0,
        cursor_col: 0,
        saved_row: 0,
        saved_col: 0,
        attrs: default_attrs(),
        scroll_top: 0,
        scroll_bottom: if rows > 0 {
            (rows - 1) as usize
        } else {
            0
        },
        dirty: false,
        dirty_lines: Set::empty(),
        hot_cells: Seq::empty(),
        title: None,
        cursor_style: CursorStyle::Block,
        decoder: None,
        images: ImageLayerModel { images: Seq::empty(), next_id: 1 },
        pending: Seq::empty(),
    }
}

impl VtModel {
    /// The state after the screen is resized: the grid resized, the scroll region
    /// reset to the whole screen, the cursor moved back onto it, and all redrawn.
    pub open spec fn resized(self, rows: usize, cols: usize) -> VtModel {
        VtModel {
            grid: self.grid.resized(rows as nat, cols as nat),
            scroll_bottom: if rows > 0 {
                (rows - 1) as usize
            } else {
                0
            },
            cursor_row: if self.cursor_row >= rows {
                if rows > 0 {
                    (rows - 1) as usize
                } else {
                    0
                }
            } else {
                self.cursor_row
            },
            cursor_col: if self.cursor_col >= cols {
                if cols > 0 {
                    (cols - 1) as usize
                } else {
                    0
                }
            } else {
                self.cursor_col
            },
            dirty: true,
            ..self
        }
    }

    pub open spec fn wf(self) -> bool {
        &&& self.grid.wf()
        &&& self.grid.rows <= usize::MAX
        &&& self.grid.cols <= usize::MAX
        &&& self.scrollback.wf()
        &&& self.images.wf()
        &&& self.cursor_row < usize::MAX
        &&& self.saved_row < usize::MAX
        &&& self.decoder matches Some(d) ==> d.wf()
    }

    pub open spec fn rows(self) -> nat {
        self.grid.rows
    }

    pub open spec fn cols(self) -> nat {
        self.grid.cols
    }

    /// Row `row` marked as needing a repaint.
    pub open spec fn mark_dirty(self, row: usize) -> VtModel {
        VtModel { dirty: true, dirty_lines: self.dirty_lines.insert(row), ..self }
    }

    /// The scroll region scrolled up one line; when the region starts at the top of
    /// the screen its top line goes to the scrollback.
    pub open spec fn region_up_one(self) -> VtModel {
        VtModel {
            scrollback: if self.scroll_top == 0 && self.rows() > 0 {
                self.scrollback.pushed(self.grid.cells[0])
            } else {
                self.scrollback
            },
            grid: self.grid.region_up(self.scroll_top as int, self.scroll_bottom as int),
            dirty: true,
            dirty_lines: self.dirty_lines.union(
                row_span(self.scroll_top as int, self.scroll_bottom as int),
            ),
            ..self
        }
    }

    /// The scroll region scrolled down one line.
    pub open spec fn region_down_one(self) -> VtModel {
        VtModel {
            grid: self.grid.region_down(self.scroll_top as int, self.scroll_bottom as int),
            dirty: true,
            dirty_lines: self.dirty_lines.union(
                row_span(self.scroll_top as int, self.scroll_bottom as int),
            ),
            ..self
        }
    }

    pub open spec fn region_up_n(self, n: nat) -> VtModel
        decreases n,
    {
        if n == 0 {
            self
        } else {
            self.region_up_one().region_up_n((n - 1) as nat)
        }
    }

    pub open spec fn region_down_n(self, n: nat) -> VtModel
        decreases n,
    {
        if n == 0 {
            self
        } else {
            self.region_down_one().region_down_n((n - 1) as nat)
        }
    }

    /// Line feed: at the bottom of the scroll region the region scrolls up, else the
    /// cursor moves down a row unless it is on the last one.
    pub open spec fn linefeed(self) -> VtModel {
        if self.cursor_row == self.scroll_bottom {
            self.region_up_one()
        } else if self.cursor_row + 1 < self.rows() {
            VtModel { cursor_row: (self.cursor_row + 1) as usize, ..self }
        } else {
            self
        }
    }

    /// A line feed is defined: it only asks for the last row when it does not scroll.
    pub open spec fn linefeed_ok(self) -> bool {
        self.cursor_row == self.scroll_bottom || self.rows() > 0
    }

    pub open spec fn with_cursor(self, row: usize, col: usize) -> VtModel {
        VtModel { cursor_row: row, cursor_col: col, ..self }
    }

    /// A printable character: wrap first when the cursor is past the last column,
    /// then write the character with the current attributes and advance.
    pub open spec fn print(self, ch: char) -> VtModel {
        let m = if self.cursor_col >= self.cols() {
            self.with_cursor(self.cursor_row, 0).linefeed()
        } else {
            self
        };
        let row = m.cursor_row;
        let col = m.cursor_col;
        let g = if row < m.rows() && col < m.cols() {
            m.grid.with_row(row as int, m.grid.cells[row as int].update(col as int, Cell { ch, attrs: m.attrs }))
        } else {
            m.grid
        };
        VtModel {
            grid: g,
            hot_cells: m.hot_cells.push((row, col)),
            cursor_col: (col + 1) as usize,
            ..m.mark_dirty(row)
        }
    }

    pub open spec fn print_ok(self) -> bool {
        self.cursor_col >= self.cols() ==> self.with_cursor(self.cursor_row, 0).linefeed_ok()
    }

    /// The next tab stop: the next multiple of eight, kept on the screen.
    pub open spec fn tab_col(self) -> usize {
        let next = (self.cursor_col / 8 + 1) * 8;
        let next = if next > usize::MAX {
            usize::MAX
        } else {
            next as usize
        };
        if next < self.cols() - 1 {
            next
        } else {
            (self.cols() - 1) as usize
        }
    }

    /// A C0 control character.
    pub open spec fn execute(self, byte: u8) -> VtModel {
        if byte == 0x08 {
            if self.cursor_col > 0 {
                VtModel { cursor_col: (self.cursor_col - 1) as usize, ..self }
            } else {
                self
            }
        } else if byte == 0x09 {
            VtModel { cursor_col: self.tab_col(), ..self }
        } else if byte == 0x0A || byte == 0x0B || byte == 0x0C {
            self.linefeed()
        } else if byte == 0x0D {
            VtModel { cursor_col: 0, ..self }
        } else {
            self
        }
    }

    pub open spec fn execute_ok(self, byte: u8) -> bool {
        &&& byte == 0x09 ==> self.cols() > 0
        &&& (byte == 0x0A || byte == 0x0B || byte == 0x0C) ==> self.linefeed_ok()
    }

    /// Erase in display, by mode.
    pub open spec fn erase_display(self, mode: usize) -> VtModel {
        let row = self.cursor_row as int;
        let col = self.cursor_col as int;
        let m = if mode == 0 {
            VtModel {
                grid: self.grid.blank_span(row, col, self.cols() as int).blank_rows(
                    row + 1,
                    self.rows() as int,
                ),
                ..self
            }
        } else if mode == 1 {
            VtModel {
                grid: self.grid.blank_rows(0, row).blank_span(row, 0, col + 1),
                ..self
            }
        } else if mode == 2 || mode == 3 {
            VtModel {
                grid: self.grid.blank_rows(0, self.rows() as int),
                cursor_row: 0,
                cursor_col: 0,
                ..self
            }
        } else {
            self
        };
        VtModel {
            dirty: true,
            dirty_lines: m.dirty_lines.union(row_span(0, self.rows() - 1)),
            ..m
        }
    }

    /// Erase in line, by mode.
    pub open spec fn erase_line(self, mode: usize) -> VtModel {
        let row = self.cursor_row as int;
        let col = self.cursor_col as int;
        let g = if mode == 0 {
            self.grid.blank_span(row, col, self.cols() as int)
        } else if mode == 1 {
            self.grid.blank_span(row, 0, col + 1)
        } else if mode == 2 {
            self.grid.blank_rows(row, row + 1)
        } else {
            self.grid
        };
        VtModel { grid: g, ..self }.mark_dirty(self.cursor_row)
    }

    /// The cursor's row after `f` is applied to its cells (no change off the grid).
    pub open spec fn edit_cursor_row(self, row: Seq<Cell>) -> VtModel {
        if self.cursor_row < self.rows() && self.cursor_col < self.cols() {
            VtModel { grid: self.grid.with_row(self.cursor_row as int, row), ..self }
        } else {
            self
        }
    }

    /// A CSI sequence with the given parameters, intermediates and final character.
    pub open spec fn csi(self, ps: Seq<Seq<u16>>, inter: Seq<u8>, action: char) -> VtModel {
        let rows = self.rows();
        let cols = self.cols();
        let n = csi_param(ps, 0, 1);
        if inter.len() != 0 {
            self
        } else if action == 'A' {
            VtModel { cursor_row: sat_sub(self.cursor_row, n), ..self }
        } else if action == 'B' {
            VtModel { cursor_row: clamp_last(sat_add(self.cursor_row, n), rows), ..self }
        } else if action == 'C' {
            VtModel { cursor_col: clamp_last(sat_add(self.cursor_col, n), cols), ..self }
        } else if action == 'D' {
            VtModel { cursor_col: sat_sub(self.cursor_col, n), ..self }
        } else if action == 'E' {
            self.with_cursor(clamp_last(sat_add(self.cursor_row, n), rows), 0)
        } else if action == 'F' {
            self.with_cursor(sat_sub(self.cursor_row, n), 0)
        } else if action == 'G' {
            VtModel { cursor_col: clamp_last(sat_sub(n, 1), cols), ..self }
        } else if action == 'H' || action == 'f' {
            self.with_cursor(
                clamp_last(sat_sub(n, 1), rows),
                clamp_last(sat_sub(csi_param(ps, 1, 1), 1), cols),
            )
        } else if action == 'J' {
            self.erase_display(csi_param(ps, 0, 0))
        } else if action == 'K' {
            self.erase_line(csi_param(ps, 0, 0))
        } else if action == 'L' || action == 'T' {
            self.region_down_n(n as nat)
        } else if action == 'M' || action == 'S' {
            self.region_up_n(n as nat)
        } else if action == 'P' {
            self.edit_cursor_row(
                self.grid.deleted_row(self.cursor_row as int, self.cursor_col as int, n as nat),
            ).mark_dirty(self.cursor_row)
        } else if action == '@' {
            self.edit_cursor_row(
                self.grid.inserted_row(self.cursor_row as int, self.cursor_col as int, n as nat),
            ).mark_dirty(self.cursor_row)
        } else if action == 'm' {
            VtModel {
                attrs: if ps.len() == 0 {
                    default_attrs()
                } else {
                    sgr(self.attrs, ps, 0)
                },
                ..self
            }
        } else if action == 'r' {
            VtModel {
                scroll_top: clamp_last(sat_sub(n, 1), rows),
                scroll_bottom: clamp_last(sat_sub(csi_param(ps, 1, rows as usize), 1), rows),
                cursor_row: 0,
                cursor_col: 0,
                ..self
            }
        } else if action == 's' {
            VtModel { saved_row: self.cursor_row, saved_col: self.cursor_col, ..self }
        } else if action == 'u' {
            self.with_cursor(self.saved_row, self.saved_col)
        } else {
            self
        }
    }

    /// The CSI sequence is defined here: the actions that clamp to the last row or
    /// column need one, and erasing up to the cursor needs a column.
    pub open spec fn csi_ok(self, ps: Seq<Seq<u16>>, inter: Seq<u8>, action: char) -> bool {
        inter.len() == 0 ==> {
            &&& (action == 'B' || action == 'E' || action == 'H' || action == 'f' || action == 'r')
                ==> self.rows() > 0
            &&& (action == 'C' || action == 'G' || action == 'H' || action == 'f') ==> self.cols()
                > 0
            &&& ((action == 'J' || action == 'K') && csi_param(ps, 0, 0) == 1 && self.cursor_row
                < self.rows()) ==> self.cols() > 0
        }
    }

    /// An ESC sequence.
    pub open spec fn esc(self, inter: Seq<u8>, byte: u8) -> VtModel {
        if inter.len() != 0 {
            self
        } else if byte == 0x37 {
            VtModel { saved_row: self.cursor_row, saved_col: self.cursor_col, ..self }
        } else if byte == 0x38 {
            self.with_cursor(self.saved_row, self.saved_col)
        } else if byte == 0x4D {
            if self.cursor_row == self.scroll_top {
                self.region_down_one()
            } else if self.cursor_row > 0 {
                VtModel { cursor_row: (self.cursor_row - 1) as usize, ..self }
            } else {
                self
            }
        } else if byte == 0x44 {
            self.linefeed()
        } else if byte == 0x45 {
            VtModel { cursor_col: 0, ..self }.linefeed()
        } else if byte == 0x63 {
            fresh_handler(
                self.rows() as usize,
                self.cols() as usize,
                self.scrollback.capacity as usize,
            )
        } else {
            self
        }
    }

    pub open spec fn esc_ok(self, inter: Seq<u8>, byte: u8) -> bool {
        (inter.len() == 0 && (byte == 0x44 || byte == 0x45)) ==> self.linefeed_ok()
    }

    /// An OSC sequence: `0` and `2` set the title from valid UTF-8.
    pub open spec fn osc(self, ps: Seq<Seq<u8>>) -> VtModel {
        if ps.len() >= 2 && (ps[0] == seq![0x30u8] || ps[0] == seq![0x32u8])
            && vstd::utf8::valid_utf8(ps[1]) {
            VtModel { title: Some(vstd::utf8::decode_utf8(ps[1])), ..self }
        } else {
            self
        }
    }

    /// A DCS sequence starts: `q` starts a Sixel image.
    pub open spec fn hook(self, action: char) -> VtModel {
        if action == 'q' {
            VtModel { decoder: Some(initial_decoder()), ..self }
        } else {
            self
        }
    }

    /// A byte of a DCS sequence: it goes to the Sixel decoder, if one is running.
    pub open spec fn put(self, byte: u8) -> VtModel {
        match self.decoder {
            Some(d) => VtModel { decoder: Some(d.feed(byte)), ..self },
            None => self,
        }
    }

    pub open spec fn put_ok(self, byte: u8) -> bool {
        self.decoder matches Some(d) ==> d.feed_ok(byte)
    }

    /// The DCS sequence ends: a decoded Sixel image joins the pending images.
    pub open spec fn unhook(self) -> VtModel {
        match self.decoder {
            Some(d) => match d.image() {
                Some(img) => VtModel {
                    decoder: None,
                    pending: self.pending.push(img),
                    dirty: true,
                    ..self
                },
                None => VtModel { decoder: None, ..self },
            },
            None => self,
        }
    }
}

/// The first value of a parameter, or `d` when it has none.
pub open spec fn first_or(p: Seq<u16>, d: u16) -> u16 {
    if p.len() > 0 {
        p[0]
    } else {
        d
    }
}

/// CSI parameter `idx`, with `default` standing in for a missing or zero value.
pub open spec fn csi_param(ps: Seq<Seq<u16>>, idx: int, default: usize) -> usize {
    if 0 <= idx < ps.len() && ps[idx].len() > 0 && ps[idx][0] != 0 {
        ps[idx][0] as usize
    } else {
        default
    }
}

pub open spec fn sat_add(a: usize, b: usize) -> usize {
    if a + b > usize::MAX {
        usize::MAX
    } else {
        (a + b) as usize
    }
}

pub open spec fn sat_sub(a: usize, b: usize) -> usize {
    if a >= b {
        (a - b) as usize
    } else {
        0
    }
}

/// The smaller of `a` and the last index below `n` (`n` is not zero).
pub open spec fn clamp_last(a: usize, n: nat) -> usize {
    if a < n - 1 {
        a
    } else {
        (n - 1) as usize
    }
}

/// The attributes after one SGR code other than an extended color.
pub open spec fn sgr_code(a: CellAttributes, code: u16) -> CellAttributes {
    if code == 0 {
        default_attrs()
    } else if code == 1 {
        CellAttributes { bold: true, ..a }
    } else if code == 2 {
        CellAttributes { dim: true, ..a }
    } else if code == 3 {
        CellAttributes { italic: true, ..a }
    } else if code == 4 {
        CellAttributes { underline: true, ..a }
    } else if code == 5 || code == 6 {
        CellAttributes { blink: true, ..a }
    } else if code == 7 {
        CellAttributes { inverse: true, ..a }
    } else if code == 8 {
        CellAttributes { hidden: true, ..a }
    } else if code == 9 {
        CellAttributes { strikethrough: true, ..a }
    } else if code == 22 {
        CellAttributes { bold: false, dim: false, ..a }
    } else if code == 23 {
        CellAttributes { italic: false, ..a }
    } else if code == 24 {
        CellAttributes { underline: false, ..a }
    } else if code == 25 {
        CellAttributes { blink: false, ..a }
    } else if code == 27 {
        CellAttributes { inverse: false, ..a }
    } else if code == 28 {
        CellAttributes { hidden: false, ..a }
    } else if code == 29 {
        CellAttributes { strikethrough: false, ..a }
    } else if (30 <= code <= 37) || (90 <= code <= 97) {
        match spec_ansi_fg(code) {
            Some(c) => CellAttributes { fg: c, ..a },
            None => a,
        }
    } else if code == 39 {
        CellAttributes { fg: Color::Default, ..a }
    } else if (40 <= code <= 47) || (100 <= code <= 107) {
        match spec_ansi_bg(code) {
            Some(c) => CellAttributes { bg: c, ..a },
            None => a,
        }
    } else if code == 49 {
        CellAttributes { bg: Color::Default, ..a }
    } else {
        a
    }
}

/// The count a cursor movement's parameter asks for: the parameter, 1 when it is
/// missing or 0.
pub open spec fn move_count(ps: Seq<Seq<u16>>) -> int {
    if ps.len() > 0 && ps[0].len() > 0 && ps[0][0] != 0 {
        ps[0][0] as int
    } else {
        1
    }
}

/// CSI A, B, C and D move the cursor up, down, right and left by the count (1 by
/// default), stopping at the edges of the screen and keeping the other coordinate;
/// CSI H (and f) puts it at the 1-based row and column given (1 by default),
/// clamped to the screen; E and F move to the start of a line below or above.
pub proof fn lemma_csi_cursor_moves(m: VtModel, ps: Seq<Seq<u16>>)
    requires
        m.rows() > 0,
        m.cols() > 0,
        m.rows() <= usize::MAX,
        m.cols() <= usize::MAX,
    ensures
        ({
            let k = move_count(ps);
            let r = m.cursor_row as int;
            let c = m.cursor_col as int;
            let last_row = m.rows() - 1;
            let last_col = m.cols() - 1;
            let up = m.csi(ps, Seq::empty(), 'A');
            let down = m.csi(ps, Seq::empty(), 'B');
            let right = m.csi(ps, Seq::empty(), 'C');
            let left = m.csi(ps, Seq::empty(), 'D');
            &&& up.cursor_row == (if r >= k { r - k } else { 0 }) && up.cursor_col == c
            &&& down.cursor_row == (if r + k < last_row { r + k } else { last_row })
                && down.cursor_col == c
            &&& right.cursor_col == (if c + k < last_col { c + k } else { last_col })
                && right.cursor_row == r
            &&& left.cursor_col == (if c >= k { c - k } else { 0 }) && left.cursor_row == r
            &&& m.csi(ps, Seq::empty(), 'E').cursor_col == 0
            &&& m.csi(ps, Seq::empty(), 'E').cursor_row == down.cursor_row
            &&& m.csi(ps, Seq::empty(), 'F').cursor_col == 0
            &&& m.csi(ps, Seq::empty(), 'F').cursor_row == up.cursor_row
            &&& up.grid == m.grid && down.grid == m.grid && right.grid == m.grid && left.grid
                == m.grid
        }),
        ({
            let h = m.csi(ps, Seq::empty(), 'H');
            let want_row = csi_param(ps, 0, 1) - 1;
            let want_col = csi_param(ps, 1, 1) - 1;
            &&& h.cursor_row == (if want_row < m.rows() - 1 { want_row } else { m.rows() - 1 })
            &&& h.cursor_col == (if want_col < m.cols() - 1 { want_col } else { m.cols() - 1 })
            &&& m.csi(ps, Seq::empty(), 'f') == h
        }),
{
}

/// Erase in line (CSI K) blanks, on the cursor's row, the cells from the cursor to
/// the end (mode 0), from the start through the cursor (mode 1) or all of them
/// (mode 2), and erase in display (CSI J) does the same over the screen: from the
/// cursor to the end (0), from the start through the cursor (1), or all of it (2,
/// which also homes the cursor). Every other cell stays as it was.
pub proof fn lemma_erase(m: VtModel, r: int, c: int)
    requires
        m.grid.wf(),
        m.cursor_row < m.rows(),
        m.cursor_col < m.cols(),
        0 <= r < m.rows(),
        0 <= c < m.cols(),
    ensures
        ({
            let cr = m.cursor_row as int;
            let cc = m.cursor_col as int;
            let old = m.grid.cells[r][c];
            &&& m.erase_line(0).grid.cells[r][c] == (if r == cr && c >= cc {
                crate::cell::blank_cell()
            } else {
                old
            })
            &&& m.erase_line(1).grid.cells[r][c] == (if r == cr && c <= cc {
                crate::cell::blank_cell()
            } else {
                old
            })
            &&& m.erase_line(2).grid.cells[r][c] == (if r == cr {
                crate::cell::blank_cell()
            } else {
                old
            })
            &&& m.erase_display(0).grid.cells[r][c] == (if r > cr || (r == cr && c >= cc) {
                crate::cell::blank_cell()
            } else {
                old
            })
            &&& m.erase_display(1).grid.cells[r][c] == (if r < cr || (r == cr && c <= cc) {
                crate::cell::blank_cell()
            } else {
                old
            })
            &&& m.erase_display(2).grid.cells[r][c] == crate::cell::blank_cell()
            &&& m.erase_display(2).cursor_row == 0 && m.erase_display(2).cursor_col == 0
            &&& m.erase_line(0).cursor_col == cc && m.erase_display(0).cursor_col == cc
            &&& m.erase_display(0).cursor_row == cr
        }),
{
}

/// Saving the cursor (ESC 7 or CSI s) and restoring it later (ESC 8 or CSI u)
/// brings it back to where it was saved, wherever it went in between; restoring
/// changes nothing on the screen. ESC M moves up a row (scrolling the region down
/// at its top), ESC D is a line feed and ESC E a new line at the first column.
pub proof fn lemma_save_restore_cursor(m: VtModel, row: usize, col: usize)
    ensures
        m.esc(Seq::empty(), 0x37).with_cursor(row, col).esc(Seq::empty(), 0x38).cursor_row
            == m.cursor_row,
        m.esc(Seq::empty(), 0x37).with_cursor(row, col).esc(Seq::empty(), 0x38).cursor_col
            == m.cursor_col,
        m.csi(Seq::empty(), Seq::empty(), 's').with_cursor(row, col).csi(
            Seq::empty(),
            Seq::empty(),
            'u',
        ).cursor_row == m.cursor_row,
        m.csi(Seq::empty(), Seq::empty(), 's').with_cursor(row, col).csi(
            Seq::empty(),
            Seq::empty(),
            'u',
        ).cursor_col == m.cursor_col,
        m.esc(Seq::empty(), 0x38).grid == m.grid,
        m.cursor_row != m.scroll_top && m.cursor_row > 0 ==> m.esc(Seq::empty(), 0x4D).cursor_row
            == m.cursor_row - 1 && m.esc(Seq::empty(), 0x4D).grid == m.grid,
        m.esc(Seq::empty(), 0x44) == m.linefeed(),
        m.esc(Seq::empty(), 0x45) == (VtModel { cursor_col: 0, ..m }).linefeed(),
{
}

/// CSI P deletes `k` characters at the cursor (the count, at most what is left of
/// the row): the rest of the row moves left and blanks fill in at its end. CSI @
/// inserts `k` blanks at the cursor, pushing the rest right and off the edge.
/// Cells left of the cursor and other rows stay.
pub proof fn lemma_delete_insert_chars(m: VtModel, ps: Seq<Seq<u16>>, j: int)
    requires
        m.grid.wf(),
        m.cursor_row < m.rows(),
        m.cursor_col < m.cols(),
        0 <= j < m.cols(),
    ensures
        ({
            let r = m.cursor_row as int;
            let c = m.cursor_col as int;
            let n = csi_param(ps, 0, 1) as int;
            let k = if n < m.cols() - c { n } else { m.cols() - c };
            let row = m.grid.cells[r];
            let del = m.csi(ps, Seq::empty(), 'P').grid.cells[r];
            let ins = m.csi(ps, Seq::empty(), '@').grid.cells[r];
            &&& del.len() == m.cols() && ins.len() == m.cols()
            &&& del[j] == (if j < c {
                row[j]
            } else if j < m.cols() - k {
                row[j + k]
            } else {
                crate::cell::blank_cell()
            })
            &&& ins[j] == (if j < c {
                row[j]
            } else if j < c + k {
                crate::cell::blank_cell()
            } else {
                row[j - k]
            })
        }),
{
}

/// A line feed on the bottom row of the scroll region scrolls the region up: each
/// of its rows takes the content of the row below, its bottom row comes up blank,
/// rows outside it stay, and the cursor stays; when the region starts at the top of
/// the screen the row scrolled off goes to the scrollback.
pub proof fn lemma_linefeed_scrolls_region(m: VtModel, r: int)
    requires
        m.grid.wf(),
        m.cursor_row == m.scroll_bottom,
        m.scroll_top < m.scroll_bottom < m.rows(),
        0 <= r < m.rows(),
    ensures
        ({
            let after = m.linefeed();
            let top = m.scroll_top as int;
            let bottom = m.scroll_bottom as int;
            &&& after.grid.cells[r] == (if top <= r < bottom {
                m.grid.cells[r + 1]
            } else if r == bottom {
                crate::grid::blanks(m.cols())
            } else {
                m.grid.cells[r]
            })
            &&& after.cursor_row == m.cursor_row && after.cursor_col == m.cursor_col
            &&& top == 0 ==> after.scrollback == m.scrollback.pushed(m.grid.cells[0])
            &&& top > 0 ==> after.scrollback == m.scrollback
        }),
{
}

/// OSC 0 and OSC 2 set the window title to the text given, when it is valid
/// UTF-8; any other OSC leaves the title alone.
pub proof fn lemma_osc_title(m: VtModel, code: Seq<u8>, text: Seq<char>)
    ensures
        m.osc(seq![seq![0x30u8], vstd::utf8::encode_utf8(text)]).title == Some(text),
        m.osc(seq![seq![0x32u8], vstd::utf8::encode_utf8(text)]).title == Some(text),
        code != seq![0x30u8] && code != seq![0x32u8] ==> m.osc(
            seq![code, vstd::utf8::encode_utf8(text)],
        ).title == m.title,
{
    broadcast use vstd::utf8::encode_utf8_valid_utf8, vstd::utf8::encode_utf8_decode_utf8;

}

/// Backspace moves the cursor one column left (not past the first), carriage
/// return to the first column, and tab to the next multiple of eight, kept on the
/// screen; a line feed moves down a row, scrolling the region up at its bottom.
/// None of them changes the cells.
pub proof fn lemma_c0_controls(m: VtModel)
    requires
        m.cols() > 0,
        m.rows() <= usize::MAX,
        m.cols() <= usize::MAX,
    ensures
        m.execute(0x08).cursor_col == (if m.cursor_col > 0 {
            m.cursor_col - 1
        } else {
            0
        }),
        m.execute(0x08).cursor_row == m.cursor_row,
        m.execute(0x0D).cursor_col == 0,
        m.execute(0x0D).cursor_row == m.cursor_row,
        m.execute(0x09).cursor_row == m.cursor_row,
        m.execute(0x09).cursor_col <= m.cols() - 1,
        m.execute(0x09).cursor_col < m.cols() - 1 ==> m.execute(0x09).cursor_col % 8 == 0
            && m.execute(0x09).cursor_col > m.cursor_col,
        m.cursor_row != m.scroll_bottom && m.cursor_row + 1 < m.rows() ==> m.execute(
            0x0A,
        ).cursor_row == m.cursor_row + 1 && m.execute(0x0A).cursor_col == m.cursor_col
            && m.execute(0x0A).grid == m.grid,
        m.execute(0x08).grid == m.grid && m.execute(0x0D).grid == m.grid && m.execute(
            0x09,
        ).grid == m.grid,
{
    let next = (m.cursor_col / 8 + 1) * 8;
    assert(next % 8 == 0) by (nonlinear_arith)
        requires
            next == (m.cursor_col / 8 + 1) * 8,
    ;
    assert(next > m.cursor_col) by (nonlinear_arith)
        requires
            next == (m.cursor_col / 8 + 1) * 8,
    ;
}

/// A printed character lands at the cursor with the current attributes and the
/// cursor moves one column right; nothing else on the screen changes.
pub proof fn lemma_print_writes_at_cursor(m: VtModel, ch: char)
    requires
        m.grid.wf(),
        m.cursor_row < m.rows(),
        m.cursor_col < m.cols(),
        m.cols() <= usize::MAX,
    ensures
        m.print(ch).grid.cells[m.cursor_row as int][m.cursor_col as int] == (Cell {
            ch,
            attrs: m.attrs,
        }),
        m.print(ch).cursor_col == m.cursor_col + 1,
        m.print(ch).cursor_row == m.cursor_row,
        forall|r: int, c: int|
            0 <= r < m.rows() && 0 <= c < m.cols() && (r != m.cursor_row || c != m.cursor_col)
                ==> m.print(ch).grid.cells[r][c] == m.grid.cells[r][c],
{
}

/// What each SGR attribute code does: 0 resets everything; 1-9 turn one
/// attribute on (5 and 6 both blink); 22-29 turn it off again (22 both bold and
/// dim); 39 and 49 give back the default colors; 30-37 and 90-97 pick a foreground,
/// 40-47 and 100-107 a background, from the sixteen basic colors (the bright ones
/// from 8 on). Each code leaves the colors and every other attribute as they were.
pub proof fn lemma_sgr_attribute_codes(a: CellAttributes, k: u16)
    ensures
        sgr_code(a, 0) == default_attrs(),
        sgr_code(a, 1) == (CellAttributes { bold: true, ..a }),
        sgr_code(a, 2) == (CellAttributes { dim: true, ..a }),
        sgr_code(a, 3) == (CellAttributes { italic: true, ..a }),
        sgr_code(a, 4) == (CellAttributes { underline: true, ..a }),
        sgr_code(a, 5) == (CellAttributes { blink: true, ..a }),
        sgr_code(a, 6) == (CellAttributes { blink: true, ..a }),
        sgr_code(a, 7) == (CellAttributes { inverse: true, ..a }),
        sgr_code(a, 8) == (CellAttributes { hidden: true, ..a }),
        sgr_code(a, 9) == (CellAttributes { strikethrough: true, ..a }),
        sgr_code(a, 22) == (CellAttributes { bold: false, dim: false, ..a }),
        sgr_code(a, 23) == (CellAttributes { italic: false, ..a }),
        sgr_code(a, 24) == (CellAttributes { underline: false, ..a }),
        sgr_code(a, 25) == (CellAttributes { blink: false, ..a }),
        sgr_code(a, 27) == (CellAttributes { inverse: false, ..a }),
        sgr_code(a, 28) == (CellAttributes { hidden: false, ..a }),
        sgr_code(a, 29) == (CellAttributes { strikethrough: false, ..a }),
        sgr_code(a, 39) == (CellAttributes { fg: Color::Default, ..a }),
        sgr_code(a, 49) == (CellAttributes { bg: Color::Default, ..a }),
        30 <= k <= 37 ==> sgr_code(a, k) == (CellAttributes {
            fg: Color::Indexed((k - 30) as u8),
            ..a
        }),
        90 <= k <= 97 ==> sgr_code(a, k) == (CellAttributes {
            fg: Color::Indexed((k - 82) as u8),
            ..a
        }),
        40 <= k <= 47 ==> sgr_code(a, k) == (CellAttributes {
            bg: Color::Indexed((k - 40) as u8),
            ..a
        }),
        100 <= k <= 107 ==> sgr_code(a, k) == (CellAttributes {
            bg: Color::Indexed((k - 92) as u8),
            ..a
        }),
{
}

/// Turning an attribute off right after turning it on gives back the attributes
/// as they were when it was off: SGR 4 then 24 leaves the text not underlined and
/// nothing else changed, and likewise for the other pairs.
pub proof fn lemma_sgr_off_undoes_on(a: CellAttributes)
    ensures
        !a.underline ==> sgr_code(sgr_code(a, 4), 24) == a,
        !a.italic ==> sgr_code(sgr_code(a, 3), 23) == a,
        !a.bold && !a.dim ==> sgr_code(sgr_code(a, 1), 22) == a,
        !a.bold && !a.dim ==> sgr_code(sgr_code(a, 2), 22) == a,
        !a.blink ==> sgr_code(sgr_code(a, 5), 25) == a,
        !a.inverse ==> sgr_code(sgr_code(a, 7), 27) == a,
        !a.hidden ==> sgr_code(sgr_code(a, 8), 28) == a,
        !a.strikethrough ==> sgr_code(sgr_code(a, 9), 29) == a,
        !sgr_code(a, 24).underline && sgr_code(a, 4).underline,
{
}

/// The extended color (`5;n` or `2;r;g;b`) whose mode parameter is at index `k`,
/// and the index of the parameter after it; a color cut short by the end of the
/// parameters ends them.
pub open spec fn ext_color(ps: Seq<Seq<u16>>, k: int) -> (Option<Color>, int) {
    if k >= ps.len() {
        (None, ps.len() as int)
    } else {
        let mode = first_or(ps[k], 0);
        if mode == 5 {
            if k + 1 >= ps.len() {
                (None, ps.len() as int)
            } else {
                (Some(Color::Indexed(first_or(ps[k + 1], 0) as u8)), k + 2)
            }
        } else if mode == 2 {
            if k + 3 >= ps.len() {
                (None, ps.len() as int)
            } else {
                (
                    Some(
                        Color::Rgb(
                            first_or(ps[k + 1], 0) as u8,
                            first_or(ps[k + 2], 0) as u8,
                            first_or(ps[k + 3], 0) as u8,
                        ),
                    ),
                    k + 4,
                )
            }
        } else {
            (None, k + 1)
        }
    }
}

/// The attributes after the SGR parameters from index `i` on.
pub open spec fn sgr(a: CellAttributes, ps: Seq<Seq<u16>>, i: int) -> CellAttributes
    decreases ps.len() - i,
{
    if i < 0 || i >= ps.len() {
        a
    } else {
        let code = first_or(ps[i], 0);
        if code == 38 || code == 48 {
            let (c, j) = ext_color(ps, i + 1);
            let a2 = match c {
                Some(col) => if code == 38 {
                    CellAttributes { fg: col, ..a }
                } else {
                    CellAttributes { bg: col, ..a }
                },
                None => a,
            };
            sgr(a2, ps, j)
        } else {
            sgr(sgr_code(a, code), ps, i + 1)
        }
    }
}

pub open spec fn param_views(v: Seq<Vec<u16>>) -> Seq<Seq<u16>> {
    v.map_values(|p: Vec<u16>| p@)
}

pub open spec fn byte_views(v: Seq<Vec<u8>>) -> Seq<Seq<u8>> {
    v.map_values(|p: Vec<u8>| p@)
}

/// VT sequence handler: applies parsed control functions to the terminal state.
pub struct VtHandler {
    pub grid: Grid,
    pub scrollback: ScrollbackBuffer,
    pub cursor_row: usize,
    pub cursor_col: usize,
    pub saved_cursor_row: usize,
    pub saved_cursor_col: usize,
    pub current_attrs: CellAttributes,
    pub scroll_top: usize,
    pub scroll_bottom: usize,
    pub dirty: bool,
    pub dirty_lines: HashSet<usize>,
    pub hot_cells: Vec<(usize, usize)>,
    pub title: Option<String>,
    /// Cursor style from profile (Block / Bar / Underline).
    pub cursor_style: CursorStyle,
    osc_string: String,
    sixel_decoder: Option<SixelDecoder>,
    pub image_layer: ImageLayer,
    pub pending_images: Vec<SixelImage>,
}

/// The pixels and size of each image.
pub open spec fn image_views(v: Seq<SixelImage>) -> Seq<(Seq<u8>, u32, u32)> {
    v.map_values(|img: SixelImage| (img.pixels@, img.width, img.height))
}

pub open spec fn decoder_view(d: Option<SixelDecoder>) -> Option<SixelModel> {
    match d {
        Some(dec) => Some(dec@),
        None => None,
    }
}

impl View for VtHandler {
    type V = VtModel;

    closed spec fn view(&self) -> VtModel {
        VtModel {
            grid: self.grid@,
            scrollback: self.scrollback@,
            cursor_row: self.cursor_row,
            cursor_col: self.cursor_col,
            saved_row: self.saved_cursor_row,
            saved_col: self.saved_cursor_col,
            attrs: self.current_attrs,
            scroll_top: self.scroll_top,
            scroll_bottom: self.scroll_bottom,
            dirty: self.dirty,
            dirty_lines: self.dirty_lines@,
            hot_cells: self.hot_cells@,
            title: match self.title {
                Some(s) => Some(s@),
                None => None,
            },
            cursor_style: self.cursor_style,
            decoder: decoder_view(self.sixel_decoder),
            images: self.image_layer@,
            pending: image_views(self.pending_images@),
        }
    }
}

impl VtHandler {
    pub open spec fn wf(&self) -> bool {
        self@.wf()
    }

    pub fn new(rows: usize, cols: usize, scrollback_capacity: usize) -> (r: Self)
        ensures
            r.wf(),
            r@ == fresh_handler(rows, cols, scrollback_capacity),
    {
        let r = VtHandler {
            scroll_bottom: rows.saturating_sub(1),
            grid: Grid::new(rows, cols),
            scrollback: ScrollbackBuffer::new(scrollback_capacity),
            cursor_row: 0,
            cursor_col: 0,
            saved_cursor_row: 0,
            saved_cursor_col: 0,
            current_attrs: CellAttributes::default(),
            scroll_top: 0,
            dirty: false,
            dirty_lines: HashSet::new(),
            hot_cells: Vec::new(),
            title: None,
            cursor_style: CursorStyle::Block,
            osc_string: String::new(),
            sixel_decoder: None,
            image_layer: ImageLayer::new(),
            pending_images: Vec::new(),
        };
        assert(r@.scrollback.lines =~= Seq::empty());
        assert(r@.hot_cells =~= Seq::empty());
        assert(r@.pending =~= Seq::empty());
        assert(r@.images.images =~= Seq::empty());
        r
    }

    /// Use the cursor style a profile asks for.
    pub fn set_cursor_style(&mut self, style: CursorStyle)
        requires
            old(self).wf(),
        ensures
            final(self).wf(),
            final(self)@ == (VtModel { cursor_style: style, ..old(self)@ }),
    {
        self.cursor_style = style;
    }

    /// The title the shell set via OSC, if any.
    pub fn title_text(&self) -> (r: Option<&String>)
        ensures
            r matches Some(t) ==> self@.title == Some(t@),
            r is None ==> self@.title is None,
    {
        match &self.title {
            Some(t) => Some(t),
            None => None,
        }
    }

    /// The lines scrolled off the top.
    pub fn scrollback_ref(&self) -> (r: &ScrollbackBuffer)
        ensures
            r@ == self@.scrollback,
    {
        &self.scrollback
    }

    /// The screen.
    pub fn grid_ref(&self) -> (r: &Grid)
        ensures
            r@ == self@.grid,
            self.wf() ==> r.wf(),
    {
        &self.grid
    }

    pub fn rows(&self) -> (r: usize)
        ensures
            r == self@.rows(),
    {
        self.grid.rows()
    }

    pub fn cols(&self) -> (r: usize)
        ensures
            r == self@.cols(),
    {
        self.grid.cols()
    }

    pub fn resize(&mut self, rows: usize, cols: usize)
        requires
            old(self).wf(),
        ensures
            final(self).wf(),
            final(self)@ == old(self)@.resized(rows, cols),
    {
        self.grid.resize(rows, cols);
        self.scroll_bottom = rows.saturating_sub(1);
        if self.cursor_row >= rows {
            self.cursor_row = rows.saturating_sub(1);
        }
        if self.cursor_col >= cols {
            self.cursor_col = cols.saturating_sub(1);
        }
        self.dirty = true;
    }

    /// Clear dirty state for the next frame.
    pub fn clear_dirty(&mut self)
        requires
            old(self).wf(),
        ensures
            final(self).wf(),
            final(self)@ == (VtModel {
                dirty: false,
                dirty_lines: Set::empty(),
                hot_cells: Seq::empty(),
                ..old(self)@
            }),
    {
        self.dirty = false;
        self.dirty_lines.clear();
        self.hot_cells.clear();
        assert(self@.hot_cells =~= Seq::empty());
    }

    fn mark_dirty(&mut self, row: usize)
        requires
            old(self).wf(),
        ensures
            final(self).wf(),
            final(self)@ == old(self)@.mark_dirty(row),
    {
        self.dirty = true;
        self.dirty_lines.insert(row);
    }

    /// Marks the rows `top..=bottom` as needing a repaint.
    fn mark_span_dirty(&mut self, top: usize, bottom: usize)
        requires
            old(self).wf(),
        ensures
            final(self).wf(),
            final(self)@ == (VtModel {
                dirty: true,
                dirty_lines: old(self)@.dirty_lines.union(row_span(top as int, bottom as int)),
                ..old(self)@
            }),
    {
        self.dirty = true;
        insert_span(&mut self.dirty_lines, top, bottom);
    }

    /// Scrolls the whole screen up one line into the scrollback.
    fn scroll_up_one(&mut self)
        requires
            old(self).wf(),
            old(self)@.rows() > 0,
        ensures
            final(self).wf(),
            final(self)@ == (VtModel {
                grid: GridModel {
                    cells: old(self)@.grid.cells.drop_first().push(blanks(old(self)@.cols())),
                    ..old(self)@.grid
                },
                scrollback: old(self)@.scrollback.pushed(old(self)@.grid.cells[0]),
                dirty: true,
                dirty_lines: old(self)@.dirty_lines.union(
                    row_span(0, old(self)@.rows() - 1),
                ),
                ..old(self)@
            }),
    {
        let removed = self.grid.scroll_up();
        self.scrollback.push(removed);
        let last = self.grid.rows() - 1;
        self.mark_span_dirty(0, last);
    }

    fn scroll_region_up_one(&mut self)
        requires
            old(self).wf(),
        ensures
            final(self).wf(),
            final(self)@ == old(self)@.region_up_one(),
    {
        if self.scroll_top == 0 {
            if let Some(row) = self.grid.row(0) {
                let line = vstd::slice::slice_to_vec(row);
                self.scrollback.push(line);
            }
        }
        let top = self.scroll_top;
        let bottom = self.scroll_bottom;
        self.grid.scroll_region_up(top, bottom);
        self.mark_span_dirty(top, bottom);
    }

    fn scroll_region_down_one(&mut self)
        requires
            old(self).wf(),
        ensures
            final(self).wf(),
            final(self)@ == old(self)@.region_down_one(),
    {
        let top = self.scroll_top;
        let bottom = self.scroll_bottom;
        self.grid.scroll_region_down(top, bottom);
        self.mark_span_dirty(top, bottom);
    }

    fn scroll_region_up_n(&mut self, n: usize)
        requires
            old(self).wf(),
        ensures
            final(self).wf(),
            final(self)@ == old(self)@.region_up_n(n as nat),
    {
        let ghost m = self@;
        let mut i: usize = 0;
        while i < n
            invariant
                self.wf(),
                i <= n,
                self@.region_up_n((n - i) as nat) == m.region_up_n(n as nat),
            decreases n - i,
        {
            self.scroll_region_up_one();
            i += 1;
        }
    }

    fn scroll_region_down_n(&mut self, n: usize)
        requires
            old(self).wf(),
        ensures
            final(self).wf(),
            final(self)@ == old(self)@.region_down_n(n as nat),
    {
        let ghost m = self@;
        let mut i: usize = 0;
        while i < n
            invariant
                self.wf(),
                i <= n,
                self@.region_down_n((n - i) as nat) == m.region_down_n(n as nat),
            decreases n - i,
        {
            self.scroll_region_down_one();
            i += 1;
        }
    }

    fn linefeed(&mut self)
        requires
            old(self).wf(),
            old(self)@.linefeed_ok(),
        ensures
            final(self).wf(),
            final(self)@ == old(self)@.linefeed(),
    {
        if self.cursor_row == self.scroll_bottom {
            self.scroll_region_up_one();
        } else if self.cursor_row < self.grid.rows() - 1 {
            self.cursor_row += 1;
        }
    }

    /// Get visible lines including grid content converted to strings (for simple rendering).
    pub fn visible_lines(&self) -> (r: Vec<String>)
        requires
            self.wf(),
        ensures
            r@.len() == self@.rows(),
            forall|i: int|
                0 <= i < self@.rows() ==> (#[trigger] r@[i])@ == crate::text::trim_end(
                    crate::grid::row_chars(self@.grid.cells[i]),
                ),
    {
        let mut out: Vec<String> = Vec::new();
        let n = self.grid.rows();
        let mut r: usize = 0;
        while r < n
            invariant
                self.wf(),
                n == self@.rows(),
                r <= n,
                out@.len() == r,
                forall|i: int|
                    0 <= i < r ==> (#[trigger] out@[i])@ == crate::text::trim_end(
                        crate::grid::row_chars(self@.grid.cells[i]),
                    ),
            decreases n - r,
        {
            out.push(self.grid.row_to_string(r));
            r += 1;
        }
        out
    }

    /// Get visible rows as cell references (for GPU rendering).
    pub fn visible_cells(&self) -> (r: &[Vec<Cell>])
        ensures
            crate::grid::row_views(r@) == self@.grid.cells,
    {
        self.grid.visible_rows()
    }

    /// A printable character: wrap first when the cursor is past the last column,
    /// then write the character with the current attributes and advance.
    pub fn print(&mut self, ch: char)
        requires
            old(self).wf(),
            old(self)@.print_ok(),
        ensures
            final(self).wf(),
            final(self)@ == old(self)@.print(ch),
    {
        if self.cursor_col >= self.grid.cols() {
            self.cursor_col = 0;
            self.linefeed();
        }
        let attrs = self.current_attrs;
        let ghost m = self@;
        if let Some(cell) = self.grid.cell_mut(self.cursor_row, self.cursor_col) {
            cell.ch = ch;
            cell.attrs = attrs;
        }
        proof {
            if self.cursor_row < m.rows() && self.cursor_col < m.cols() {
                assert(self.grid@.cells[self.cursor_row as int].len() == m.cols());
            }
        }
        self.hot_cells.push((self.cursor_row, self.cursor_col));
        let row = self.cursor_row;
        self.mark_dirty(row);
        self.cursor_col += 1;
    }

    /// A C0 control character.
    pub fn execute(&mut self, byte: u8)
        requires
            old(self).wf(),
            old(self)@.execute_ok(byte),
        ensures
            final(self).wf(),
            final(self)@ == old(self)@.execute(byte),
    {
        if byte == 0x07 {
        } else if byte == 0x08 {
            if self.cursor_col > 0 {
                self.cursor_col -= 1;
            }
        } else if byte == 0x09 {
            let stop = self.cursor_col / 8 + 1;
            let next_tab = if stop <= usize::MAX / 8 {
                stop * 8
            } else {
                usize::MAX
            };
            let last = self.grid.cols() - 1;
            self.cursor_col = if next_tab < last {
                next_tab
            } else {
                last
            };
        } else if byte == 0x0A || byte == 0x0B || byte == 0x0C {
            self.linefeed();
        } else if byte == 0x0D {
            self.cursor_col = 0;
        }
    }

    /// The extended color whose mode parameter is at index `k`, and the index of
    /// the parameter after it.
    fn parse_extended_color(&self, params: &[Vec<u16>], k: usize) -> (r: (Option<Color>, usize))
        ensures
            (r.0, r.1 as int) == ext_color(param_views(params@), k as int),
    {
        let ghost ps = param_views(params@);
        let len = params.len();
        if k >= len {
            return (None, len);
        }
        let mode = first_value(&params[k]);
        if mode == 5 {
            if len - k <= 1 {
                return (None, len);
            }
            let idx = first_value(&params[k + 1]);
            (Some(Color::Indexed(idx as u8)), k + 2)
        } else if mode == 2 {
            if len - k <= 3 {
                return (None, len);
            }
            let r = first_value(&params[k + 1]) as u8;
            let g = first_value(&params[k + 2]) as u8;
            let b = first_value(&params[k + 3]) as u8;
            (Some(Color::Rgb(r, g, b)), k + 4)
        } else {
            (None, k + 1)
        }
    }

    /// Apply SGR (Select Graphic Rendition) parameters to the current attributes.
    fn apply_sgr(&mut self, params: &[Vec<u16>])
        requires
            old(self).wf(),
        ensures
            final(self).wf(),
            final(self)@ == (VtModel {
                attrs: sgr(old(self)@.attrs, param_views(params@), 0),
                ..old(self)@
            }),
    {
        let ghost ps = param_views(params@);
        let ghost a0 = self.current_attrs;
        let mut a = self.current_attrs;
        let mut i: usize = 0;
        while i < params.len()
            invariant
                i <= params@.len(),
                ps == param_views(params@),
                sgr(a, ps, i as int) == sgr(a0, ps, 0),
            decreases params@.len() - i,
        {
            let code = first_value(&params[i]);
            if code == 38 || code == 48 {
                let (c, j) = self.parse_extended_color(params, i + 1);
                if let Some(color) = c {
                    if code == 38 {
                        a.fg = color;
                    } else {
                        a.bg = color;
                    }
                }
                i = j;
            } else {
                a = sgr_apply_code(a, code);
                i += 1;
            }
        }
        self.current_attrs = a;
    }

    /// CSI parameter `idx`, with `default` standing in for a missing or zero value.
    fn param(params: &[Vec<u16>], idx: usize, default: usize) -> (r: usize)
        ensures
            r == csi_param(param_views(params@), idx as int, default),
    {
        if idx < params.len() && params[idx].len() > 0 {
            let v = params[idx][0];
            if v == 0 {
                default
            } else {
                v as usize
            }
        } else {
            default
        }
    }

    /// Cursor movement: CUU, CUD, CUF, CUB, CNL, CPL, CHA and CUP.
    fn csi_move(&mut self, params: &[Vec<u16>], action: char)
        requires
            old(self).wf(),
            action == 'A' || action == 'B' || action == 'C' || action == 'D' || action == 'E'
                || action == 'F' || action == 'G' || action == 'H' || action == 'f',
            old(self)@.csi_ok(param_views(params@), Seq::empty(), action),
        ensures
            final(self).wf(),
            final(self)@ == old(self)@.csi(param_views(params@), Seq::empty(), action),
    {
        if action == 'A' {
            let n = Self::param(params, 0, 1);
            self.cursor_row = self.cursor_row.saturating_sub(n);
        } else if action == 'B' {
            let n = Self::param(params, 0, 1);
            let last = self.grid.rows() - 1;
            let target = self.cursor_row.saturating_add(n);
            self.cursor_row = if target < last {
                target
            } else {
                last
            };
        } else if action == 'C' {
            let n = Self::param(params, 0, 1);
            let last = self.grid.cols() - 1;
            let target = self.cursor_col.saturating_add(n);
            self.cursor_col = if target < last {
                target
            } else {
                last
            };
        } else if action == 'D' {
            let n = Self::param(params, 0, 1);
            self.cursor_col = self.cursor_col.saturating_sub(n);
        } else if action == 'E' {
            let n = Self::param(params, 0, 1);
            let last = self.grid.rows() - 1;
            let target = self.cursor_row.saturating_add(n);
            self.cursor_row = if target < last {
                target
            } else {
                last
            };
            self.cursor_col = 0;
        } else if action == 'F' {
            let n = Self::param(params, 0, 1);
            self.cursor_row = self.cursor_row.saturating_sub(n);
            self.cursor_col = 0;
        } else if action == 'G' {
            let col = Self::param(params, 0, 1).saturating_sub(1);
            let last = self.grid.cols() - 1;
            self.cursor_col = if col < last {
                col
            } else {
                last
            };
        } else if action == 'H' || action == 'f' {
            let row = Self::param(params, 0, 1).saturating_sub(1);
            let col = Self::param(params, 1, 1).saturating_sub(1);
            let last_row = self.grid.rows() - 1;
            let last_col = self.grid.cols() - 1;
            self.cursor_row = if row < last_row {
                row
            } else {
                last_row
            };
            self.cursor_col = if col < last_col {
                col
            } else {
                last_col
            };
        }
    }

    /// Erase in display and erase in line.
    fn csi_erase(&mut self, params: &[Vec<u16>], action: char)
        requires
            old(self).wf(),
            action == 'J' || action == 'K',
            old(self)@.csi_ok(param_views(params@), Seq::empty(), action),
        ensures
            final(self).wf(),
            final(self)@ == old(self)@.csi(param_views(params@), Seq::empty(), action),
    {
        if action == 'J' {
            let mode = Self::param(params, 0, 0);
            if mode == 0 {
                self.grid.erase_below(self.cursor_row, self.cursor_col);
            } else if mode == 1 {
                self.grid.erase_above(self.cursor_row, self.cursor_col);
            } else if mode == 2 || mode == 3 {
                self.grid.clear();
                self.cursor_row = 0;
                self.cursor_col = 0;
            }
            let rows = self.grid.rows();
            if rows > 0 {
                self.mark_span_dirty(0, rows - 1);
            } else {
                self.dirty = true;
                assert(self.dirty_lines@ =~= self.dirty_lines@.union(row_span(0, -1)));
            }
        } else if action == 'K' {
            let mode = Self::param(params, 0, 0);
            if mode == 0 {
                self.grid.erase_to_eol(self.cursor_row, self.cursor_col);
            } else if mode == 1 {
                self.grid.erase_from_bol(self.cursor_row, self.cursor_col);
            } else if mode == 2 {
                self.grid.erase_line(self.cursor_row);
            }
            let row = self.cursor_row;
            self.mark_dirty(row);
        }
    }

    /// Line and character insertion, deletion and scrolling.
    fn csi_edit(&mut self, params: &[Vec<u16>], action: char)
        requires
            old(self).wf(),
            action == 'L' || action == 'T' || action == 'M' || action == 'S' || action == 'P'
                || action == '@',
            old(self)@.csi_ok(param_views(params@), Seq::empty(), action),
        ensures
            final(self).wf(),
            final(self)@ == old(self)@.csi(param_views(params@), Seq::empty(), action),
    {
        if action == 'L' || action == 'T' {
            let n = Self::param(params, 0, 1);
            self.scroll_region_down_n(n);
        } else if action == 'M' || action == 'S' {
            let n = Self::param(params, 0, 1);
            self.scroll_region_up_n(n);
        } else if action == 'P' {
            let n = Self::param(params, 0, 1);
            self.grid.delete_chars(self.cursor_row, self.cursor_col, n);
            let row = self.cursor_row;
            self.mark_dirty(row);
        } else if action == '@' {
            let n = Self::param(params, 0, 1);
            self.grid.insert_chars(self.cursor_row, self.cursor_col, n);
            let row = self.cursor_row;
            self.mark_dirty(row);
        }
    }

    /// Attributes, scroll region, and saving and restoring the cursor.
    fn csi_state(&mut self, params: &[Vec<u16>], action: char)
        requires
            old(self).wf(),
            action == 'm' || action == 'r' || action == 's' || action == 'u',
            old(self)@.csi_ok(param_views(params@), Seq::empty(), action),
        ensures
            final(self).wf(),
            final(self)@ == old(self)@.csi(param_views(params@), Seq::empty(), action),
    {
        if action == 'm' {
            if params.len() == 0 {
                self.current_attrs = CellAttributes::default();
            } else {
                self.apply_sgr(params);
            }
        } else if action == 'r' {
            let top = Self::param(params, 0, 1).saturating_sub(1);
            let rows = self.grid.rows();
            let bottom = Self::param(params, 1, rows).saturating_sub(1);
            let last = rows - 1;
            self.scroll_top = if top < last {
                top
            } else {
                last
            };
            self.scroll_bottom = if bottom < last {
                bottom
            } else {
                last
            };
            self.cursor_row = 0;
            self.cursor_col = 0;
        } else if action == 's' {
            self.saved_cursor_row = self.cursor_row;
            self.saved_cursor_col = self.cursor_col;
        } else if action == 'u' {
            self.cursor_row = self.saved_cursor_row;
            self.cursor_col = self.saved_cursor_col;
        }
    }

    /// A CSI sequence with the given parameters, intermediates and final character.
    pub fn csi_dispatch(
        &mut self,
        params: &[Vec<u16>],
        intermediates: &[u8],
        ignore: bool,
        action: char,
    )
        requires
            old(self).wf(),
            old(self)@.csi_ok(param_views(params@), intermediates@, action),
        ensures
            final(self).wf(),
            final(self)@ == old(self)@.csi(param_views(params@), intermediates@, action),
    {
        if intermediates.len() != 0 {
            // Private modes (`?h` / `?l`) and other intermediates are not handled.
            return;
        }
        assert(intermediates@ =~= Seq::<u8>::empty());
        if action == 'A' || action == 'B' || action == 'C' || action == 'D' || action == 'E'
            || action == 'F' || action == 'G' || action == 'H' || action == 'f' {
            self.csi_move(params, action);
        } else if action == 'J' || action == 'K' {
            self.csi_erase(params, action);
        } else if action == 'L' || action == 'T' || action == 'M' || action == 'S' || action
            == 'P' || action == '@' {
            self.csi_edit(params, action);
        } else if action == 'm' || action == 'r' || action == 's' || action == 'u' {
            self.csi_state(params, action);
        }
    }

    /// An ESC sequence with the given intermediates and final byte.
    pub fn esc_dispatch(&mut self, intermediates: &[u8], ignore: bool, byte: u8)
        requires
            old(self).wf(),
            old(self)@.esc_ok(intermediates@, byte),
        ensures
            final(self).wf(),
            final(self)@ == old(self)@.esc(intermediates@, byte),
    {
        if intermediates.len() != 0 {
            return;
        }
        if byte == 0x37 {
            self.saved_cursor_row = self.cursor_row;
            self.saved_cursor_col = self.cursor_col;
        } else if byte == 0x38 {
            self.cursor_row = self.saved_cursor_row;
            self.cursor_col = self.saved_cursor_col;
        } else if byte == 0x4D {
            if self.cursor_row == self.scroll_top {
                self.scroll_region_down_one();
            } else if self.cursor_row > 0 {
                self.cursor_row -= 1;
            }
        } else if byte == 0x44 {
            self.linefeed();
        } else if byte == 0x45 {
            self.cursor_col = 0;
            self.linefeed();
        } else if byte == 0x63 {
            let rows = self.grid.rows();
            let cols = self.grid.cols();
            let cap = self.scrollback.capacity();
            *self = Self::new(rows, cols, cap);
        }
    }

    /// An OSC sequence: `0` and `2` set the window title; `1337` carries an
    /// inline image.
    pub fn osc_dispatch(&mut self, params: &[Vec<u8>], bell_terminated: bool)
        requires
            old(self).wf(),
        ensures
            final(self).wf(),
            final(self)@ == old(self)@.osc(byte_views(params@)),
    {
        let ghost ps = byte_views(params@);
        if params.len() >= 2 {
            let cmd = &params[0];
            let is_title = cmd.len() == 1 && (cmd[0] == 0x30 || cmd[0] == 0x32);
            proof {
                assert(ps[0] == params@[0]@);
                if cmd@.len() == 1 && cmd@[0] == 0x30 {
                    assert(cmd@ =~= seq![0x30u8]);
                }
                if cmd@.len() == 1 && cmd@[0] == 0x32 {
                    assert(cmd@ =~= seq![0x32u8]);
                }
            }
            if is_title {
                if let Some(title) = crate::text::string_from_utf8(params[1].clone()) {
                    self.title = Some(title);
                }
            } else if cmd.len() == 4 && cmd[0] == 0x31 && cmd[1] == 0x33 && cmd[2] == 0x33
                && cmd[3] == 0x37 {
                if let Some(payload) = crate::text::string_from_utf8(params[1].clone()) {
                    let chars = crate::text::chars_of(payload.as_str());
                    if chars.len() >= 5 && chars[0] == 'F' && chars[1] == 'i' && chars[2] == 'l'
                        && chars[3] == 'e' && chars[4] == '=' {
                        let rest = crate::text::string_from_chars(
                            vstd::slice::slice_subrange(chars.as_slice(), 5, chars.len()),
                        );
                        if let Some(image) = crate::sixel::decode_iterm2_image(rest.as_str()) {
                            self.pending_images.push(image);
                            self.dirty = true;
                        }
                    }
                }
            }
        }
    }

    /// A DCS sequence starts; `q` starts a Sixel image.
    pub fn hook(&mut self, params: &[Vec<u16>], intermediates: &[u8], ignore: bool, action: char)
        requires
            old(self).wf(),
        ensures
            final(self).wf(),
            final(self)@ == old(self)@.hook(action),
    {
        if action == 'q' {
            self.sixel_decoder = Some(SixelDecoder::new());
        }
    }

    /// Whether the running Sixel decoder, if any, can take the byte.
    pub fn can_put(&self, byte: u8) -> (r: bool)
        requires
            self.wf(),
        ensures
            r == self@.put_ok(byte),
    {
        match &self.sixel_decoder {
            Some(decoder) => decoder.can_feed(byte),
            None => true,
        }
    }

    /// A byte of a DCS sequence.
    pub fn put(&mut self, byte: u8)
        requires
            old(self).wf(),
            old(self)@.put_ok(byte),
        ensures
            final(self).wf(),
            final(self)@ == old(self)@.put(byte),
    {
        let decoder = self.sixel_decoder.take();
        if let Some(mut d) = decoder {
            d.feed(byte);
            self.sixel_decoder = Some(d);
        }
    }

    /// The DCS sequence ends.
    pub fn unhook(&mut self)
        requires
            old(self).wf(),
        ensures
            final(self).wf(),
            final(self)@ == old(self)@.unhook(),
    {
        let ghost m = self@;
        if let Some(decoder) = self.sixel_decoder.take() {
            if let Some(image) = decoder.finish() {
                self.pending_images.push(image);
                self.dirty = true;
                assert(self@.pending =~= m.pending.push((image.pixels@, image.width, image.height)));
            }
        }
    }
}

/// The first value of a parameter, or zero when it has none.
fn first_value(p: &Vec<u16>) -> (r: u16)
    ensures
        r == first_or(p@, 0),
{
    if p.len() > 0 {
        p[0]
    } else {
        0
    }
}

/// The attributes after one SGR code other than an extended color.
fn sgr_apply_code(a: CellAttributes, code: u16) -> (r: CellAttributes)
    ensures
        r == sgr_code(a, code),
{
    let mut a = a;
    if code == 0 {
        a = CellAttributes::default();
    } else if code == 1 {
        a.bold = true;
    } else if code == 2 {
        a.dim = true;
    } else if code == 3 {
        a.italic = true;
    } else if code == 4 {
        a.underline = true;
    } else if code == 5 || code == 6 {
        a.blink = true;
    } else if code == 7 {
        a.inverse = true;
    } else if code == 8 {
        a.hidden = true;
    } else if code == 9 {
        a.strikethrough = true;
    } else if code == 22 {
        a.bold = false;
        a.dim = false;
    } else if code == 23 {
        a.italic = false;
    } else if code == 24 {
        a.underline = false;
    } else if code == 25 {
        a.blink = false;
    } else if code == 27 {
        a.inverse = false;
    } else if code == 28 {
        a.hidden = false;
    } else if code == 29 {
        a.strikethrough = false;
    } else if (30 <= code && code <= 37) || (90 <= code && code <= 97) {
        if let Some(c) = Color::from_ansi_fg(code) {
            a.fg = c;
        }
    } else if code == 39 {
        a.fg = Color::Default;
    } else if (40 <= code && code <= 47) || (100 <= code && code <= 107) {
        if let Some(c) = Color::from_ansi_bg(code) {
            a.bg = c;
        }
    } else if code == 49 {
        a.bg = Color::Default;
    }
    a
}

/// Adds the rows `top..=bottom` to the set.
fn insert_span(set: &mut HashSet<usize>, top: usize, bottom: usize)
    ensures
        final(set)@ == old(set)@.union(row_span(top as int, bottom as int)),
{
    let ghost s0 = set@;
    if top <= bottom {
        let mut r = top;
        while r < bottom
            invariant
                top <= r <= bottom,
                set@ == s0.union(row_span(top as int, r - 1)),
            decreases bottom - r,
        {
            set.insert(r);
            r += 1;
            assert(set@ =~= s0.union(row_span(top as int, r - 1)));
        }
        set.insert(bottom);
    }
    assert(set@ =~= s0.union(row_span(top as int, bottom as int)));
}

// ── Laws ───────────────────────────────────────────────────────────────

/// Scrolling a region up or down any number of lines keeps the screen's size and
/// well-formedness.
pub proof fn lemma_region_scroll_keeps_size(m: VtModel, n: nat)
    requires
        m.wf(),
    ensures
        m.region_up_n(n).wf(),
        m.region_up_n(n).grid.rows == m.grid.rows,
        m.region_up_n(n).grid.cols == m.grid.cols,
        m.region_down_n(n).wf(),
        m.region_down_n(n).grid.rows == m.grid.rows,
        m.region_down_n(n).grid.cols == m.grid.cols,
    decreases n,
{
    if n > 0 {
        lemma_region_up_one_wf(m);
        lemma_region_down_one_wf(m);
        lemma_region_scroll_keeps_size(m.region_up_one(), (n - 1) as nat);
        lemma_region_scroll_keeps_size(m.region_down_one(), (n - 1) as nat);
    }
}

proof fn lemma_region_up_one_wf(m: VtModel)
    requires
        m.wf(),
    ensures
        m.region_up_one().wf(),
        m.region_up_one().grid.rows == m.grid.rows,
        m.region_up_one().grid.cols == m.grid.cols,
{
    let top = m.scroll_top as int;
    let bottom = m.scroll_bottom as int;
    if top < bottom && bottom < m.grid.rows {
        let g = m.region_up_one().grid;
        assert forall|r: int| 0 <= r < g.rows implies (#[trigger] g.cells[r]).len() == g.cols by {
            if r < top {
                assert(g.cells[r] == m.grid.cells[r]);
            } else if r < bottom {
                assert(g.cells[r] == m.grid.cells[r + 1]);
            } else if r == bottom {
                assert(g.cells[r] == blanks(m.grid.cols));
            } else {
                assert(g.cells[r] == m.grid.cells[r]);
            }
        }
    }
}

proof fn lemma_region_down_one_wf(m: VtModel)
    requires
        m.wf(),
    ensures
        m.region_down_one().wf(),
        m.region_down_one().grid.rows == m.grid.rows,
        m.region_down_one().grid.cols == m.grid.cols,
{
    let top = m.scroll_top as int;
    let bottom = m.scroll_bottom as int;
    if top < bottom && bottom < m.grid.rows {
        let g = m.region_down_one().grid;
        assert forall|r: int| 0 <= r < g.rows implies (#[trigger] g.cells[r]).len() == g.cols by {
            if r < top {
                assert(g.cells[r] == m.grid.cells[r]);
            } else if r == top {
                assert(g.cells[r] == blanks(m.grid.cols));
            } else if r <= bottom {
                assert(g.cells[r] == m.grid.cells[r - 1]);
            } else {
                assert(g.cells[r] == m.grid.cells[r]);
            }
        }
    }
}

/// Printing a character with the cursor on the screen writes it, with the current
/// attributes, at the cursor, leaves every other cell as it was, and moves the
/// cursor one column right.
pub proof fn lemma_print_writes_cell(m: VtModel, ch: char, r: int, c: int)
    requires
        m.wf(),
        m.cursor_row < m.rows(),
        m.cursor_col < m.cols(),
        0 <= r < m.rows(),
        0 <= c < m.cols(),
    ensures
        m.print(ch).grid.cells[m.cursor_row as int][m.cursor_col as int] == (Cell {
            ch,
            attrs: m.attrs,
        }),
        (r != m.cursor_row || c != m.cursor_col) ==> m.print(ch).grid.cells[r][c]
            == m.grid.cells[r][c],
        m.print(ch).cursor_row == m.cursor_row,
        m.print(ch).cursor_col == m.cursor_col + 1,
        m.print(ch).dirty_lines.contains(m.cursor_row),
{
}

/// A line feed on the bottom line of a scroll region that covers the whole screen
/// moves the top line into the scrollback and adds a blank line at the bottom; the
/// cursor stays on the bottom line.
pub proof fn lemma_linefeed_at_bottom_scrolls(m: VtModel)
    requires
        m.wf(),
        m.rows() >= 2,
        m.scroll_top == 0,
        m.scroll_bottom == m.rows() - 1,
        m.cursor_row == m.scroll_bottom,
    ensures
        m.linefeed().scrollback == m.scrollback.pushed(m.grid.cells[0]),
        m.linefeed().grid.cells == m.grid.cells.drop_first().push(blanks(m.cols())),
        m.linefeed().cursor_row == m.cursor_row,
{
    assert(m.grid.cells.subrange(0, 0) + m.grid.cells.subrange(1, m.rows() as int) + seq![
        blanks(m.cols()),
    ] + m.grid.cells.subrange(m.rows() as int, m.grid.cells.len() as int)
        =~= m.grid.cells.drop_first().push(blanks(m.cols())));
}

/// Saving the cursor, moving it anywhere with CUP, and restoring it brings it back
/// to where it was saved.
pub proof fn lemma_save_move_restore(m: VtModel, ps: Seq<Seq<u16>>)
    requires
        m.wf(),
        m.rows() > 0,
        m.cols() > 0,
    ensures
        ({
            let back = m.esc(Seq::empty(), 0x37).csi(ps, Seq::empty(), 'H').esc(
                Seq::empty(),
                0x38,
            );
            back.cursor_row == m.cursor_row && back.cursor_col == m.cursor_col
        }),
{
}

/// CUP always leaves the cursor on the screen.
pub proof fn lemma_cup_stays_on_screen(m: VtModel, ps: Seq<Seq<u16>>)
    requires
        m.wf(),
        m.rows() > 0,
        m.cols() > 0,
    ensures
        m.csi(ps, Seq::empty(), 'H').cursor_row < m.rows(),
        m.csi(ps, Seq::empty(), 'H').cursor_col < m.cols(),
{
}

/// Erasing the whole display blanks every cell and homes the cursor.
pub proof fn lemma_erase_display_blanks(m: VtModel)
    requires
        m.wf(),
    ensures
        forall|r: int|
            0 <= r < m.rows() ==> #[trigger] m.csi(seq![seq![2u16]], Seq::empty(), 'J').grid.cells[r]
                == blanks(m.cols()),
        m.csi(seq![seq![2u16]], Seq::empty(), 'J').cursor_row == 0,
        m.csi(seq![seq![2u16]], Seq::empty(), 'J').cursor_col == 0,
{
    assert(csi_param(seq![seq![2u16]], 0, 0) == 2);
}

/// SGR 0 restores the default attributes, whatever came before.
pub proof fn lemma_sgr_reset(m: VtModel)
    ensures
        m.csi(seq![seq![0u16]], Seq::empty(), 'm').attrs == default_attrs(),
{
    let ps = seq![seq![0u16]];
    assert(sgr(m.attrs, ps, 0) == sgr(default_attrs(), ps, 1));
}

/// A full reset gives back a freshly created handler of the same size and
/// scrollback capacity.
pub proof fn lemma_reset_is_fresh(m: VtModel)
    requires
        m.wf(),
    ensures
        m.esc(Seq::empty(), 0x63) == fresh_handler(
            m.rows() as usize,
            m.cols() as usize,
            m.scrollback.capacity as usize,
        ),
{
}

} // verus!
