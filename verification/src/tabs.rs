//! Terminal tabs: mouse selection of terminal text across the scrollback and the
//! screen, and the tab groups that share the split layout.

use vstd::prelude::*;

use crate::cell::Cell;
use crate::text::{chars_of, push_char, string_from_chars, trim_end, trimmed_len};

verus! {

/// A selection range across the terminal grid (rows are absolute: scrollback + visible).
#[derive(Debug, Clone, Copy, PartialEq, Eq, Structural)]
pub struct TerminalSelection {
    /// Anchor point (where mouse-down happened).
    pub anchor_row: usize,
    pub anchor_col: usize,
    /// Head point (where mouse currently is / was released).
    pub head_row: usize,
    pub head_col: usize,
}

/// The two ends of a selection, earlier first (by row, then column).
pub open spec fn sorted_ends(s: TerminalSelection) -> (usize, usize, usize, usize) {
    if s.anchor_row < s.head_row || (s.anchor_row == s.head_row && s.anchor_col <= s.head_col) {
        (s.anchor_row, s.anchor_col, s.head_row, s.head_col)
    } else {
        (s.head_row, s.head_col, s.anchor_row, s.anchor_col)
    }
}

/// Whether the cell at `(row, col)` is selected: from the start position up to,
/// not including, the end position.
pub open spec fn selection_contains(s: TerminalSelection, row: usize, col: usize) -> bool {
    let (sr, sc, er, ec) = sorted_ends(s);
    if row < sr || row > er {
        false
    } else if sr == er {
        sc <= col < ec
    } else if row == sr {
        col >= sc
    } else if row == er {
        col < ec
    } else {
        true
    }
}

/// The text of a screen row: its characters, NUL shown as a space.
pub open spec fn screen_row_text(r: Seq<Cell>) -> Seq<char> {
    r.map_values(|c: Cell| if c.ch == '\0' { ' ' } else { c.ch })
}

/// The text of absolute row `row`: a scrollback line, else a screen row, else none.
pub open spec fn absolute_line(sb: Seq<Seq<char>>, vis: Seq<Seq<Cell>>, row: int) -> Option<Seq<char>> {
    if row < sb.len() {
        Some(sb[row])
    } else if row - sb.len() < vis.len() {
        Some(screen_row_text(vis[row - sb.len()]))
    } else {
        None
    }
}

/// What row `row` of the selection contributes: its selected characters with
/// trailing whitespace removed, then a line break unless it is the last row. A row
/// that does not exist contributes nothing.
pub open spec fn row_part(
    s: TerminalSelection,
    sb: Seq<Seq<char>>,
    vis: Seq<Seq<Cell>>,
    row: int,
) -> Seq<char> {
    let (sr, sc, er, ec) = sorted_ends(s);
    match absolute_line(sb, vis, row) {
        None => Seq::empty(),
        Some(line) => {
            let n = line.len() as int;
            let from = if row == sr {
                if sc < n {
                    sc as int
                } else {
                    n
                }
            } else {
                0
            };
            let to = if row == er {
                if ec < n {
                    ec as int
                } else {
                    n
                }
            } else {
                n
            };
            let piece = if from < to {
                trim_end(line.subrange(from, to))
            } else {
                Seq::empty()
            };
            if row < er {
                piece.push('\n')
            } else {
                piece
            }
        },
    }
}

/// The selected text of the rows from the selection's start row up to `row`.
pub open spec fn selected_upto(
    s: TerminalSelection,
    sb: Seq<Seq<char>>,
    vis: Seq<Seq<Cell>>,
    row: int,
) -> Seq<char>
    decreases row + 1 - sorted_ends(s).0,
{
    if row < sorted_ends(s).0 {
        Seq::empty()
    } else {
        selected_upto(s, sb, vis, row - 1) + row_part(s, sb, vis, row)
    }
}

pub open spec fn string_seqs(v: Seq<String>) -> Seq<Seq<char>> {
    v.map_values(|s: String| s@)
}

pub open spec fn cell_rows(v: Seq<Vec<Cell>>) -> Seq<Seq<Cell>> {
    v.map_values(|r: Vec<Cell>| r@)
}

/// Appends `line[from..to]` with trailing whitespace removed.
fn push_trimmed(out: &mut String, line: &Vec<char>, from: usize, to: usize)
    requires
        from <= to <= line@.len(),
    ensures
        final(out)@ == old(out)@ + trim_end(line@.subrange(from as int, to as int)),
{
    let piece = vstd::slice::slice_subrange(line.as_slice(), from, to);
    let n = trimmed_len(piece);
    proof {
        crate::text::lemma_trim_end_prefix(piece@);
    }
    let ghost o = out@;
    let mut i: usize = 0;
    while i < n
        invariant
            n == trim_end(piece@).len(),
            trim_end(piece@) == piece@.subrange(0, n as int),
            n <= piece@.len(),
            i <= n,
            out@ == o + piece@.subrange(0, i as int),
        decreases n - i,
    {
        push_char(out, piece[i]);
        i += 1;
        assert(out@ =~= o + piece@.subrange(0, i as int));
    }
}

impl TerminalSelection {
    /// Returns (start_row, start_col, end_row, end_col) in sorted order.
    pub fn sorted(&self) -> (r: (usize, usize, usize, usize))
        ensures
            r == sorted_ends(*self),
    {
        if self.anchor_row < self.head_row || (self.anchor_row == self.head_row && self.anchor_col
            <= self.head_col) {
            (self.anchor_row, self.anchor_col, self.head_row, self.head_col)
        } else {
            (self.head_row, self.head_col, self.anchor_row, self.anchor_col)
        }
    }

    /// Check if a given (row, col) is inside the selection.
    pub fn contains(&self, row: usize, col: usize) -> (r: bool)
        ensures
            r == selection_contains(*self, row, col),
    {
        let (sr, sc, er, ec) = self.sorted();
        if row < sr || row > er {
            return false;
        }
        if sr == er {
            col >= sc && col < ec
        } else if row == sr {
            col >= sc
        } else if row == er {
            col < ec
        } else {
            true
        }
    }

    /// Extract selected text from scrollback lines + visible grid rows.
    pub fn selected_text(&self, scrollback_lines: &[String], visible_rows: &[Vec<Cell>]) -> (r:
        String)
        ensures
            r@ == selected_upto(
                *self,
                string_seqs(scrollback_lines@),
                cell_rows(visible_rows@),
                sorted_ends(*self).2 as int,
            ),
    {
        let ghost sb = string_seqs(scrollback_lines@);
        let ghost vis = cell_rows(visible_rows@);
        let (sr, sc, er, ec) = self.sorted();
        let mut result = String::new();
        let scrollback_count = scrollback_lines.len();
        let mut row = sr;
        let mut done = false;
        while !done
            invariant
                (sr, sc, er, ec) == sorted_ends(*self),
                sr <= row <= er,
                done ==> row == er,
                scrollback_count == scrollback_lines@.len(),
                sb == string_seqs(scrollback_lines@),
                vis == cell_rows(visible_rows@),
                result@ == selected_upto(*self, sb, vis, if done {
                    row as int
                } else {
                    row - 1
                }),
            decreases er - row + if done {
                0int
            } else {
                1int
            },
        {
            let ghost before = result@;
            let line: Option<Vec<char>> = if row < scrollback_count {
                Some(crate::text::chars_of(scrollback_lines[row].as_str()))
            } else {
                let grid_row = row - scrollback_count;
                if grid_row < visible_rows.len() {
                    let cells = &visible_rows[grid_row];
                    let mut chars: Vec<char> = Vec::new();
                    let mut k: usize = 0;
                    while k < cells.len()
                        invariant
                            k <= cells@.len(),
                            chars@ == screen_row_text(cells@).subrange(0, k as int),
                        decreases cells@.len() - k,
                    {
                        let c = cells[k].ch;
                        chars.push(
                            if c == '\0' {
                                ' '
                            } else {
                                c
                            },
                        );
                        k += 1;
                        assert(chars@ =~= screen_row_text(cells@).subrange(0, k as int));
                    }
                    assert(chars@ =~= screen_row_text(cells@));
                    Some(chars)
                } else {
                    None
                }
            };
            proof {
                if row < scrollback_count {
                    assert(sb[row as int] == scrollback_lines@[row as int]@);
                } else if row - scrollback_count < visible_rows@.len() {
                    assert(vis[row - scrollback_count] == visible_rows@[row - scrollback_count]@);
                }
            }
            if let Some(chars) = line {
                assert(absolute_line(sb, vis, row as int) == Some(chars@));
                let n = chars.len();
                let start_col = if row == sr {
                    if sc < n {
                        sc
                    } else {
                        n
                    }
                } else {
                    0
                };
                let end_col = if row == er {
                    if ec < n {
                        ec
                    } else {
                        n
                    }
                } else {
                    n
                };
                if start_col < end_col {
                    push_trimmed(&mut result, &chars, start_col, end_col);
                }
                if row < er {
                    push_char(&mut result, '\n');
                }
            }
            assert(result@ =~= before + row_part(*self, sb, vis, row as int));
            if row == er {
                done = true;
            } else {
                row += 1;
            }
        }
        result
    }
}

/// The selection does not depend on which end the drag started from.
pub proof fn lemma_selection_symmetric(s: TerminalSelection, row: usize, col: usize)
    ensures
        ({
            let t = TerminalSelection {
                anchor_row: s.head_row,
                anchor_col: s.head_col,
                head_row: s.anchor_row,
                head_col: s.anchor_col,
            };
            sorted_ends(t) == sorted_ends(s) && selection_contains(t, row, col)
                == selection_contains(s, row, col)
        }),
{
}

/// A one-row selection covers exactly the columns from its start up to its end.
pub proof fn lemma_single_row_span(s: TerminalSelection, col: usize)
    requires
        s.anchor_row == s.head_row,
    ensures
        selection_contains(s, s.anchor_row, col) <==> (if s.anchor_col <= s.head_col {
            s.anchor_col <= col < s.head_col
        } else {
            s.head_col <= col < s.anchor_col
        }),
{
}


/// The character of a decimal digit.
pub open spec fn digit_char(d: int) -> char {
    if d == 0 {
        '0'
    } else if d == 1 {
        '1'
    } else if d == 2 {
        '2'
    } else if d == 3 {
        '3'
    } else if d == 4 {
        '4'
    } else if d == 5 {
        '5'
    } else if d == 6 {
        '6'
    } else if d == 7 {
        '7'
    } else if d == 8 {
        '8'
    } else {
        '9'
    }
}

/// The character of a decimal digit.
fn digit(d: usize) -> (c: char)
    requires
        d < 10,
    ensures
        c == digit_char(d as int),
{
    match d {
        0 => '0',
        1 => '1',
        2 => '2',
        3 => '3',
        4 => '4',
        5 => '5',
        6 => '6',
        7 => '7',
        8 => '8',
        _ => '9',
    }
}

/// The decimal digits of `n`, most significant first.
pub open spec fn decimal(n: nat) -> Seq<char>
    decreases n,
{
    if n < 10 {
        seq![digit_char(n as int)]
    } else {
        decimal(n / 10).push(digit_char((n % 10) as int))
    }
}

/// The decimal digits of `n`, most significant first.
pub(crate) fn decimal_chars(n: usize) -> (v: Vec<char>)
    ensures
        v@ == decimal(n as nat),
    decreases n,
{
    let c = digit(n % 10);
    if n < 10 {
        vec![c]
    } else {
        let mut v = decimal_chars(n / 10);
        v.push(c);
        v
    }
}

/// One tab of a group: what the tab list reads (the profile it was opened with,
/// its title, whether it is closing) and the rest of the tab's state.
pub struct TabEntry<T> {
    /// Unique ID for this terminal instance.
    pub terminal_id: u64,
    /// The profile the tab's terminal was started with.
    pub profile_name: String,
    /// Display title shown in the tab bar.
    pub tab_title: String,
    /// True once close has been requested.
    pub closing: bool,
    /// Everything else the tab holds.
    pub state: T,
}

/// How many of the tabs were opened with the profile.
pub open spec fn profile_count<T>(tabs: Seq<TabEntry<T>>, name: Seq<char>) -> nat
    decreases tabs.len(),
{
    if tabs.len() == 0 {
        0
    } else {
        profile_count(tabs.drop_last(), name) + if tabs.last().profile_name@ == name {
            1nat
        } else {
            0nat
        }
    }
}

/// The title of a new tab: the profile's name, numbered from 2 on when tabs of
/// that profile are already open.
pub open spec fn numbered_title(base: Seq<char>, existing: nat) -> Seq<char> {
    if existing == 0 {
        base
    } else {
        base + seq![' '] + decimal(existing + 1)
    }
}

/// A tab just opened: with the profile's name, the title, the terminal's ID and
/// the state it was given, and not closing.
pub open spec fn is_new_tab<T>(
    e: TabEntry<T>,
    profile_name: Seq<char>,
    title: Seq<char>,
    terminal_id: u64,
    state: T,
) -> bool {
    &&& e.terminal_id == terminal_id
    &&& e.profile_name@ == profile_name
    &&& e.tab_title@ == title
    &&& !e.closing
    &&& e.state == state
}

/// The tabs with those at `a` and `b` swapped.
pub open spec fn swapped<T>(tabs: Seq<TabEntry<T>>, a: int, b: int) -> Seq<TabEntry<T>> {
    tabs.update(a, tabs[b]).update(b, tabs[a])
}

/// Where the active tab is after the tabs at `a` and `b` swapped: it moves with
/// its tab.
pub open spec fn swapped_active(active: int, a: int, b: int) -> int {
    if active == a {
        b
    } else if active == b {
        a
    } else {
        active
    }
}

/// The position after `p` among `n`, wrapping around to the first.
pub open spec fn next_pos(p: int, n: int) -> int {
    (p + 1) % n
}

/// The position before `p` among `n`, wrapping around to the last.
pub open spec fn prev_pos(p: int, n: int) -> int {
    if p == 0 {
        n - 1
    } else {
        p - 1
    }
}

/// Where the active tab is after the tab list shrank to `len` tabs: it stays, unless
/// it ran off the end of a list that is not empty.
pub open spec fn clamp_active(active: int, len: int) -> int {
    if active >= len && len > 0 {
        len - 1
    } else {
        active
    }
}

/// The tab with its close requested.
pub open spec fn marked_closing<T>(e: TabEntry<T>) -> TabEntry<T> {
    TabEntry { closing: true, ..e }
}

/// The tabs, those at the positions `pick` holds of marked closing.
pub open spec fn closing_where<T>(tabs: Seq<TabEntry<T>>, pick: spec_fn(int) -> bool) -> Seq<
    TabEntry<T>,
> {
    tabs.map(|i: int, e: TabEntry<T>| if pick(i) { marked_closing(e) } else { e })
}

/// Which tabs a bulk close takes.
enum CloseRange {
    Except(usize),
    After(usize),
    All,
}

spec fn in_range(r: CloseRange, i: int) -> bool {
    match r {
        CloseRange::Except(keep) => i != keep,
        CloseRange::After(index) => i > index,
        CloseRange::All => true,
    }
}

/// A group of tabs sharing a single pane in the split layout. Each group has its
/// own tab bar header and active tab selection.
pub struct TabGroup<T> {
    /// Unique stable identifier (never renumbered).
    pub id: usize,
    tabs: Vec<TabEntry<T>>,
    active: usize,
}

impl<T> TabGroup<T> {
    /// The tabs, in tab-bar order.
    pub closed spec fn entries(&self) -> Seq<TabEntry<T>> {
        self.tabs@
    }

    /// The group's identifier.
    pub closed spec fn group_id(&self) -> usize {
        self.id
    }

    /// The index of the active tab.
    pub closed spec fn active_pos(&self) -> int {
        self.active as int
    }

    /// The active index points at a tab, or is 0 when there is none.
    pub open spec fn wf(&self) -> bool {
        &&& self.entries().len() == 0 ==> self.active_pos() == 0
        &&& self.entries().len() > 0 ==> 0 <= self.active_pos() < self.entries().len()
    }

    pub fn new(id: usize) -> (r: Self)
        ensures
            r.group_id() == id,
            r.entries().len() == 0,
            r.active_pos() == 0,
            r.wf(),
    {
        TabGroup { id, tabs: Vec::new(), active: 0 }
    }

    /// Open a tab for a terminal just started with the profile: it is titled
    /// after the profile (numbered when the profile already has tabs here), added
    /// at the end and made active.
    pub fn open_tab(&mut self, profile_name: &str, base_name: &str, terminal_id: u64, state: T)
        requires
            old(self).entries().len() < usize::MAX,
        ensures
            final(self).group_id() == old(self).group_id(),
            final(self).entries().len() == old(self).entries().len() + 1,
            final(self).entries().drop_last() == old(self).entries(),
            is_new_tab(
                final(self).entries().last(),
                profile_name@,
                numbered_title(base_name@, profile_count(old(self).entries(), profile_name@)),
                terminal_id,
                state,
            ),
            final(self).active_pos() == old(self).entries().len(),
            final(self).wf(),
    {
        let pn = chars_of(profile_name);
        let pname = string_from_chars(pn.as_slice());
        let mut existing: usize = 0;
        let mut i: usize = 0;
        while i < self.tabs.len()
            invariant
                pname@ == profile_name@,
                i <= self.tabs@.len() < usize::MAX,
                existing <= i,
                existing == profile_count(self.tabs@.subrange(0, i as int), profile_name@),
            decreases self.tabs@.len() - i,
        {
            assert(self.tabs@.subrange(0, i + 1).drop_last() =~= self.tabs@.subrange(0, i as int));
            if self.tabs[i].profile_name == pname {
                existing += 1;
            }
            i += 1;
        }
        assert(self.tabs@.subrange(0, i as int) =~= self.tabs@);
        let tab_title = if existing == 0 {
            let t = chars_of(base_name);
            string_from_chars(t.as_slice())
        } else {
            let mut t = chars_of(base_name);
            t.push(' ');
            let mut digits = decimal_chars(existing + 1);
            t.append(&mut digits);
            string_from_chars(t.as_slice())
        };
        let tab = TabEntry {
            terminal_id,
            profile_name: pname,
            tab_title,
            closing: false,
            state,
        };
        let ghost title = numbered_title(base_name@, profile_count(old(self).tabs@, profile_name@));
        assert(tab.tab_title@ =~= title);
        self.tabs.push(tab);
        self.active = self.tabs.len() - 1;
        assert(self.tabs@.drop_last() =~= old(self).tabs@);
    }

    /// Remove a tab immediately (used after its close animation finishes). An
    /// index past the end changes nothing.
    pub fn remove_tab(&mut self, index: usize)
        requires
            old(self).wf(),
        ensures
            final(self).group_id() == old(self).group_id(),
            index < old(self).entries().len() ==> final(self).entries() == old(
                self,
            ).entries().remove(index as int) && final(self).active_pos() == clamp_active(
                old(self).active_pos(),
                old(self).entries().len() - 1,
            ),
            index >= old(self).entries().len() ==> final(self).entries() == old(self).entries()
                && final(self).active_pos() == old(self).active_pos(),
            final(self).wf(),
    {
        if index < self.tabs.len() {
            self.tabs.remove(index);
            if self.active >= self.tabs.len() && self.tabs.len() > 0 {
                self.active = self.tabs.len() - 1;
            }
        }
    }

    /// Begin the close animation for a tab. An index past the end changes nothing.
    pub fn close_tab(&mut self, index: usize)
        requires
            old(self).wf(),
        ensures
            final(self).group_id() == old(self).group_id(),
            final(self).active_pos() == old(self).active_pos(),
            final(self).entries() == closing_where(old(self).entries(), |i: int| i == index),
            final(self).wf(),
    {
        if index < self.tabs.len() {
            let tab = &mut self.tabs[index];
            tab.closing = true;
        }
        assert(self.tabs@ =~= closing_where(old(self).tabs@, |i: int| i == index));
    }

    /// Mark closing every tab in the range.
    fn close_where(&mut self, range: CloseRange)
        requires
            old(self).wf(),
        ensures
            final(self).group_id() == old(self).group_id(),
            final(self).active_pos() == old(self).active_pos(),
            final(self).entries() == closing_where(old(self).entries(), |i: int| in_range(range, i)),
            final(self).wf(),
    {
        let ghost p = |i: int| in_range(range, i);
        let mut i: usize = 0;
        while i < self.tabs.len()
            invariant
                i <= self.tabs@.len() == old(self).tabs@.len(),
                self.id == old(self).id,
                self.active == old(self).active,
                p == (|i: int| in_range(range, i)),
                forall|k: int|
                    0 <= k < i ==> self.tabs@[k] == (if p(k) {
                        marked_closing(old(self).tabs@[k])
                    } else {
                        old(self).tabs@[k]
                    }),
                forall|k: int| i <= k < self.tabs@.len() ==> self.tabs@[k] == old(self).tabs@[k],
            decreases self.tabs@.len() - i,
        {
            let picked = match range {
                CloseRange::Except(keep) => i != keep,
                CloseRange::After(index) => i > index,
                CloseRange::All => true,
            };
            if picked && !self.tabs[i].closing {
                let tab = &mut self.tabs[i];
                tab.closing = true;
            }
            proof {
                if p(i as int) && old(self).tabs@[i as int].closing {
                    assert(marked_closing(old(self).tabs@[i as int]) == old(self).tabs@[i as int]);
                }
            }
            i += 1;
        }
        assert(self.tabs@ =~= closing_where(old(self).tabs@, p));
    }

    pub fn close_active_tab(&mut self)
        requires
            old(self).wf(),
        ensures
            final(self).group_id() == old(self).group_id(),
            final(self).active_pos() == old(self).active_pos(),
            final(self).entries() == closing_where(
                old(self).entries(),
                |i: int| i == old(self).active_pos(),
            ),
            final(self).wf(),
    {
        if self.tabs.len() > 0 {
            let a = self.active;
            self.close_tab(a);
        } else {
            assert(self.tabs@ =~= closing_where(self.tabs@, |i: int| i == self.active as int));
        }
    }

    /// Swap two tabs by index (drag-to-reorder); the active tab stays active.
    /// Indices past the end, or equal, change nothing.
    pub fn swap_tabs(&mut self, a: usize, b: usize)
        requires
            old(self).wf(),
        ensures
            final(self).group_id() == old(self).group_id(),
            ({
                let old_tabs = old(self).entries();
                let act = old(self).active_pos();
                if a < old_tabs.len() && b < old_tabs.len() && a != b {
                    &&& final(self).entries() == swapped(old_tabs, a as int, b as int)
                    &&& final(self).active_pos() == swapped_active(act, a as int, b as int)
                } else {
                    final(self).entries() == old_tabs && final(self).active_pos() == act
                }
            }),
            final(self).wf(),
    {
        let len = self.tabs.len();
        if a < len && b < len && a != b {
            let (lo, hi) = if a < b {
                (a, b)
            } else {
                (b, a)
            };
            let high = self.tabs.remove(hi);
            let low = self.tabs.remove(lo);
            self.tabs.insert(lo, high);
            self.tabs.insert(hi, low);
            assert(self.tabs@ =~= old(self).tabs@.update(a as int, old(self).tabs@[b as int]).update(
                b as int,
                old(self).tabs@[a as int],
            ));
            if self.active == a {
                self.active = b;
            } else if self.active == b {
                self.active = a;
            }
        }
    }

    /// Remove and return a tab by index (for moving between groups); none for an
    /// index past the end.
    pub fn take_tab(&mut self, index: usize) -> (r: Option<TabEntry<T>>)
        requires
            old(self).wf(),
        ensures
            final(self).group_id() == old(self).group_id(),
            index < old(self).entries().len() ==> r == Some(old(self).entries()[index as int])
                && final(self).entries() == old(self).entries().remove(index as int)
                && final(self).active_pos() == clamp_active(
                old(self).active_pos(),
                old(self).entries().len() - 1,
            ),
            index >= old(self).entries().len() ==> r is None && final(self).entries() == old(
                self,
            ).entries() && final(self).active_pos() == old(self).active_pos(),
            final(self).wf(),
    {
        if index >= self.tabs.len() {
            return None;
        }
        let tab = self.tabs.remove(index);
        if self.active >= self.tabs.len() && self.tabs.len() > 0 {
            self.active = self.tabs.len() - 1;
        }
        Some(tab)
    }

    /// Insert a tab at a specific index (at the end when past it) and make it
    /// active.
    pub fn insert_tab(&mut self, index: usize, tab: TabEntry<T>)
        requires
            old(self).wf(),
        ensures
            ({
                let idx = if index < old(self).entries().len() {
                    index as int
                } else {
                    old(self).entries().len() as int
                };
                &&& final(self).entries() == old(self).entries().insert(idx, tab)
                &&& final(self).active_pos() == idx
            }),
            final(self).group_id() == old(self).group_id(),
            final(self).wf(),
    {
        let idx = if index < self.tabs.len() {
            index
        } else {
            self.tabs.len()
        };
        self.tabs.insert(idx, tab);
        self.active = idx;
    }

    /// The group's identifier.
    pub fn id(&self) -> (r: usize)
        ensures
            r == self.group_id(),
    {
        self.id
    }

    pub fn active_index(&self) -> (r: usize)
        ensures
            r == self.active_pos(),
    {
        self.active
    }

    /// Make the tab at `index` active; an index past the end changes nothing.
    pub fn set_active(&mut self, index: usize)
        requires
            old(self).wf(),
        ensures
            final(self).group_id() == old(self).group_id(),
            final(self).entries() == old(self).entries(),
            final(self).active_pos() == (if index < old(self).entries().len() {
                index as int
            } else {
                old(self).active_pos()
            }),
            final(self).wf(),
    {
        if index < self.tabs.len() {
            self.active = index;
        }
    }

    /// Activate the next tab, wrapping around to the first.
    pub fn next_tab(&mut self)
        requires
            old(self).wf(),
        ensures
            final(self).group_id() == old(self).group_id(),
            final(self).entries() == old(self).entries(),
            final(self).active_pos() == (if old(self).entries().len() > 0 {
                next_pos(old(self).active_pos(), old(self).entries().len() as int)
            } else {
                old(self).active_pos()
            }),
            final(self).wf(),
    {
        if self.tabs.len() > 0 {
            self.active = (self.active + 1) % self.tabs.len();
        }
    }

    /// Activate the previous tab, wrapping around to the last.
    pub fn prev_tab(&mut self)
        requires
            old(self).wf(),
        ensures
            final(self).group_id() == old(self).group_id(),
            final(self).entries() == old(self).entries(),
            final(self).active_pos() == (if old(self).entries().len() == 0 {
                old(self).active_pos()
            } else {
                prev_pos(old(self).active_pos(), old(self).entries().len() as int)
            }),
            final(self).wf(),
    {
        if self.tabs.len() > 0 {
            self.active = if self.active == 0 {
                self.tabs.len() - 1
            } else {
                self.active - 1
            };
        }
    }

    pub fn count(&self) -> (r: usize)
        ensures
            r == self.entries().len(),
    {
        self.tabs.len()
    }

    pub fn is_empty(&self) -> (r: bool)
        ensures
            r == (self.entries().len() == 0),
    {
        self.tabs.len() == 0
    }

    pub fn any_active(&self) -> (r: bool)
        ensures
            r == (self.entries().len() > 0),
    {
        self.tabs.len() > 0
    }

    /// The tabs, in tab-bar order.
    pub fn tabs_ref(&self) -> (r: &[TabEntry<T>])
        ensures
            r@ == self.entries(),
    {
        self.tabs.as_slice()
    }

    pub fn active_tab(&self) -> (r: Option<&TabEntry<T>>)
        ensures
            r == (if 0 <= self.active_pos() < self.entries().len() {
                Some(&self.entries()[self.active_pos()])
            } else {
                None
            }),
    {
        if self.active < self.tabs.len() {
            Some(&self.tabs[self.active])
        } else {
            None
        }
    }

    pub fn tab(&self, index: usize) -> (r: Option<&TabEntry<T>>)
        ensures
            r == (if index < self.entries().len() {
                Some(&self.entries()[index as int])
            } else {
                None
            }),
    {
        if index < self.tabs.len() {
            Some(&self.tabs[index])
        } else {
            None
        }
    }

    /// The tab at `index`, to change in place; none for an index past the end.
    pub fn tab_mut(&mut self, index: usize) -> (r: Option<&mut TabEntry<T>>)
        requires
            old(self).wf(),
        ensures
            final(self).group_id() == old(self).group_id(),
            final(self).active_pos() == old(self).active_pos(),
            index < old(self).entries().len() ==> r is Some && *r.unwrap() == old(
                self,
            ).entries()[index as int] && final(self).entries() == old(self).entries().update(
                index as int,
                *final(r.unwrap()),
            ),
            index >= old(self).entries().len() ==> r is None && final(self).entries() == old(
                self,
            ).entries(),
            final(self).wf(),
    {
        if index < self.tabs.len() {
            Some(&mut self.tabs[index])
        } else {
            None
        }
    }

    /// The active tab, to change in place; none when the group is empty.
    pub fn active_tab_mut(&mut self) -> (r: Option<&mut TabEntry<T>>)
        requires
            old(self).wf(),
        ensures
            final(self).group_id() == old(self).group_id(),
            final(self).active_pos() == old(self).active_pos(),
            old(self).entries().len() > 0 ==> r is Some && *r.unwrap() == old(
                self,
            ).entries()[old(self).active_pos()] && final(self).entries() == old(
                self,
            ).entries().update(old(self).active_pos(), *final(r.unwrap())),
            old(self).entries().len() == 0 ==> r is None && final(self).entries() == old(
                self,
            ).entries(),
            final(self).wf(),
    {
        let a = self.active;
        self.tab_mut(a)
    }

    /// The tabs, to change in place.
    pub fn tabs_mut(&mut self) -> (r: &mut [TabEntry<T>])
        requires
            old(self).wf(),
        ensures
            r@ == old(self).entries(),
            final(self).entries() == final(r)@,
            final(self).group_id() == old(self).group_id(),
            final(self).active_pos() == old(self).active_pos(),
    {
        self.tabs.as_mut_slice()
    }

    /// Close all tabs except the one at `keep_index`.
    pub fn close_other_tabs(&mut self, keep_index: usize)
        requires
            old(self).wf(),
        ensures
            final(self).group_id() == old(self).group_id(),
            final(self).active_pos() == old(self).active_pos(),
            final(self).entries() == closing_where(old(self).entries(), |i: int| i != keep_index),
            final(self).wf(),
    {
        self.close_where(CloseRange::Except(keep_index));
    }

    /// Close all tabs to the right of `index`.
    pub fn close_tabs_to_right(&mut self, index: usize)
        requires
            old(self).wf(),
        ensures
            final(self).group_id() == old(self).group_id(),
            final(self).active_pos() == old(self).active_pos(),
            final(self).entries() == closing_where(old(self).entries(), |i: int| i > index),
            final(self).wf(),
    {
        self.close_where(CloseRange::After(index));
    }

    /// Close all tabs in this group (start their close animations).
    pub fn close_all_tabs(&mut self)
        requires
            old(self).wf(),
        ensures
            final(self).group_id() == old(self).group_id(),
            final(self).active_pos() == old(self).active_pos(),
            final(self).entries() == closing_where(old(self).entries(), |i: int| true),
            final(self).wf(),
    {
        self.close_where(CloseRange::All);
    }
}


/// Whether one of the groups has the identifier.
pub open spec fn has_group<T>(gs: Seq<TabGroup<T>>, id: usize) -> bool {
    exists|i: int| 0 <= i < gs.len() && (#[trigger] gs[i]).group_id() == id
}

/// The position of the group with the identifier (identifiers are distinct).
pub open spec fn group_index<T>(gs: Seq<TabGroup<T>>, id: usize) -> int {
    choose|i: int| 0 <= i < gs.len() && (#[trigger] gs[i]).group_id() == id
}

/// The groups' identifiers, in layout order.
pub open spec fn group_ids<T>(gs: Seq<TabGroup<T>>) -> Seq<usize> {
    gs.map_values(|g: TabGroup<T>| g.group_id())
}

/// The identifier of the group after the one with `id`, wrapping around; none
/// with fewer than two groups or when no group has the identifier.
pub open spec fn next_group_after<T>(gs: Seq<TabGroup<T>>, id: usize) -> Option<usize> {
    if gs.len() <= 1 || !has_group(gs, id) {
        None
    } else {
        Some(gs[next_pos(group_index(gs, id), gs.len() as int)].group_id())
    }
}

/// The identifier of the group before the one with `id`, wrapping around; none
/// with fewer than two groups or when no group has the identifier.
pub open spec fn prev_group_before<T>(gs: Seq<TabGroup<T>>, id: usize) -> Option<usize> {
    if gs.len() <= 1 || !has_group(gs, id) {
        None
    } else {
        Some(gs[prev_pos(group_index(gs, id), gs.len() as int)].group_id())
    }
}

/// Every tab of every group, group by group in layout order.
pub open spec fn all_entries<T>(gs: Seq<TabGroup<T>>) -> Seq<TabEntry<T>>
    decreases gs.len(),
{
    if gs.len() == 0 {
        Seq::empty()
    } else {
        all_entries(gs.drop_last()) + gs.last().entries()
    }
}

/// The positions of the tabs opened with the profile, in order.
pub open spec fn profile_positions<T>(es: Seq<TabEntry<T>>, key: Seq<char>) -> Seq<usize>
    decreases es.len(),
{
    if es.len() == 0 {
        Seq::empty()
    } else {
        profile_positions(es.drop_last(), key) + if es.last().profile_name@ == key {
            seq![(es.len() - 1) as usize]
        } else {
            Seq::empty()
        }
    }
}

/// The notice after a profile's settings were saved: whether open tabs took them.
pub open spec fn profile_saved_message(name: Seq<char>, applied: bool) -> Seq<char> {
    if applied {
        seq!['"'] + name + "\" — settings applied to open tabs."@
    } else {
        seq!['"'] + name + "\" profile saved."@
    }
}

/// The notice after a profile's settings were saved: whether open tabs took them.
pub fn profile_saved_notice(name: &str, applied: bool) -> (r: String)
    ensures
        r@ == profile_saved_message(name@, applied),
{
    let mut out = String::new();
    crate::text::push_char(&mut out, '"');
    out.append(name);
    if applied {
        out.append("\" — settings applied to open tabs.");
    } else {
        out.append("\" profile saved.");
    }
    assert(out@ =~= profile_saved_message(name@, applied));
    out
}

/// Manages all tab groups. Each group is a pane in the split layout.
pub struct TabManager<T> {
    groups: Vec<TabGroup<T>>,
    focused_group_id: usize,
    next_group_id: usize,
}

impl<T> TabManager<T> {
    /// The groups, in layout order.
    pub closed spec fn groups_view(&self) -> Seq<TabGroup<T>> {
        self.groups@
    }

    /// The identifier of the focused group.
    pub closed spec fn focused_id(&self) -> usize {
        self.focused_group_id
    }

    /// The identifier the next new group gets.
    pub closed spec fn next_id(&self) -> usize {
        self.next_group_id
    }

    /// Every group is well formed, no two share an identifier, and every identifier
    /// is below the next one to be handed out.
    pub open spec fn wf(&self) -> bool {
        let gs = self.groups_view();
        &&& forall|i: int| 0 <= i < gs.len() ==> (#[trigger] gs[i]).wf()
        &&& forall|i: int, j: int|
            0 <= i < gs.len() && 0 <= j < gs.len() && i != j ==> (#[trigger] gs[i]).group_id()
                != (#[trigger] gs[j]).group_id()
        &&& forall|i: int| 0 <= i < gs.len() ==> (#[trigger] gs[i]).group_id() < self.next_id()
    }

    /// The position of the group with the identifier, if there is one.
    fn find(&self, id: usize) -> (r: Option<usize>)
        requires
            self.wf(),
        ensures
            r is None <==> !has_group(self.groups_view(), id),
            r matches Some(i) ==> i == group_index(self.groups_view(), id) && i < self.groups_view().len()
                && self.groups_view()[i as int].group_id() == id,
    {
        let mut i: usize = 0;
        while i < self.groups.len()
            invariant
                self.wf(),
                i <= self.groups@.len(),
                forall|k: int| 0 <= k < i ==> (#[trigger] self.groups@[k]).group_id() != id,
            decreases self.groups@.len() - i,
        {
            if self.groups[i].id == id {
                let ghost gs = self.groups@;
                assert(has_group(gs, id)) by {
                    assert(gs[i as int].group_id() == id);
                }
                let ghost j = group_index(gs, id);
                assert(gs[j].group_id() == id);
                assert(j == i);
                return Some(i);
            }
            i += 1;
        }
        None
    }

    pub fn new() -> (r: Self)
        ensures
            r.groups_view().len() == 0,
            r.focused_id() == 0,
            r.next_id() == 0,
            r.wf(),
    {
        TabManager { groups: Vec::new(), focused_group_id: 0, next_group_id: 0 }
    }

    /// Create a new empty group at the end of the layout and return its identifier.
    pub fn new_group(&mut self) -> (r: usize)
        requires
            old(self).wf(),
            old(self).next_id() < usize::MAX,
        ensures
            r == old(self).next_id(),
            final(self).next_id() == old(self).next_id() + 1,
            final(self).focused_id() == old(self).focused_id(),
            final(self).groups_view().drop_last() == old(self).groups_view(),
            final(self).groups_view().len() == old(self).groups_view().len() + 1,
            final(self).groups_view().last().group_id() == r,
            final(self).groups_view().last().entries().len() == 0,
            final(self).groups_view().last().active_pos() == 0,
            final(self).wf(),
    {
        let id = self.next_group_id;
        self.next_group_id = self.next_group_id + 1;
        self.groups.push(TabGroup::new(id));
        assert(self.groups@.drop_last() =~= old(self).groups@);
        id
    }

    /// Create a new group with a tab already opened for a terminal just started
    /// with the profile, and return the group's identifier.
    pub fn new_group_with_tab(
        &mut self,
        profile_name: &str,
        base_name: &str,
        terminal_id: u64,
        state: T,
    ) -> (r: usize)
        requires
            old(self).wf(),
            old(self).next_id() < usize::MAX,
        ensures
            r == old(self).next_id(),
            final(self).next_id() == old(self).next_id() + 1,
            final(self).focused_id() == old(self).focused_id(),
            final(self).groups_view().drop_last() == old(self).groups_view(),
            final(self).groups_view().len() == old(self).groups_view().len() + 1,
            final(self).groups_view().last().group_id() == r,
            final(self).groups_view().last().entries().len() == 1,
            is_new_tab(
                final(self).groups_view().last().entries()[0],
                profile_name@,
                base_name@,
                terminal_id,
                state,
            ),
            final(self).groups_view().last().active_pos() == 0,
            final(self).wf(),
    {
        let id = self.next_group_id;
        let mut g = TabGroup::new(id);
        g.open_tab(profile_name, base_name, terminal_id, state);
        assert(g.entries()[0] == g.entries().last());
        self.next_group_id = self.next_group_id + 1;
        self.groups.push(g);
        assert(self.groups@.drop_last() =~= old(self).groups@);
        id
    }

    pub fn focused_group_id(&self) -> (r: usize)
        ensures
            r == self.focused_id(),
    {
        self.focused_group_id
    }

    /// Focus the group with the identifier; an unknown identifier changes nothing.
    pub fn set_focused_group(&mut self, id: usize)
        requires
            old(self).wf(),
        ensures
            final(self).groups_view() == old(self).groups_view(),
            final(self).next_id() == old(self).next_id(),
            final(self).focused_id() == (if has_group(old(self).groups_view(), id) {
                id
            } else {
                old(self).focused_id()
            }),
            final(self).wf(),
    {
        if self.find(id).is_some() {
            self.focused_group_id = id;
        }
    }

    /// The group with the identifier, if there is one.
    pub fn group_by_id(&self, id: usize) -> (r: Option<&TabGroup<T>>)
        requires
            self.wf(),
        ensures
            r == (if has_group(self.groups_view(), id) {
                Some(&self.groups_view()[group_index(self.groups_view(), id)])
            } else {
                None
            }),
    {
        match self.find(id) {
            Some(i) => Some(&self.groups[i]),
            None => None,
        }
    }

    /// The focused group, if it exists.
    pub fn focused_group(&self) -> (r: Option<&TabGroup<T>>)
        requires
            self.wf(),
        ensures
            r == (if has_group(self.groups_view(), self.focused_id()) {
                Some(&self.groups_view()[group_index(self.groups_view(), self.focused_id())])
            } else {
                None
            }),
    {
        self.group_by_id(self.focused_group_id)
    }

    /// The group with the identifier, to change in place. The manager stays well
    /// formed when the group keeps its identifier and stays well formed itself.
    pub fn group_by_id_mut(&mut self, id: usize) -> (r: Option<&mut TabGroup<T>>)
        requires
            old(self).wf(),
        ensures
            final(self).focused_id() == old(self).focused_id(),
            final(self).next_id() == old(self).next_id(),
            has_group(old(self).groups_view(), id) ==> r is Some && *r.unwrap() == old(
                self,
            ).groups_view()[group_index(old(self).groups_view(), id)] && final(self).groups_view()
                == old(self).groups_view().update(
                group_index(old(self).groups_view(), id),
                *final(r.unwrap()),
            ) && (final(r.unwrap()).group_id() == id && final(r.unwrap()).wf()
                ==> final(self).wf()),
            !has_group(old(self).groups_view(), id) ==> r is None && final(self).groups_view()
                == old(self).groups_view() && final(self).wf(),
    {
        match self.find(id) {
            Some(i) => Some(&mut self.groups[i]),
            None => None,
        }
    }

    /// The focused group, to change in place (see `group_by_id_mut`).
    pub fn focused_group_mut(&mut self) -> (r: Option<&mut TabGroup<T>>)
        requires
            old(self).wf(),
        ensures
            final(self).focused_id() == old(self).focused_id(),
            final(self).next_id() == old(self).next_id(),
            has_group(old(self).groups_view(), old(self).focused_id()) ==> r is Some && *r.unwrap()
                == old(self).groups_view()[group_index(
                old(self).groups_view(),
                old(self).focused_id(),
            )] && final(self).groups_view() == old(self).groups_view().update(
                group_index(old(self).groups_view(), old(self).focused_id()),
                *final(r.unwrap()),
            ) && (final(r.unwrap()).group_id() == old(self).focused_id()
                && final(r.unwrap()).wf() ==> final(self).wf()),
            !has_group(old(self).groups_view(), old(self).focused_id()) ==> r is None && final(self).groups_view() == old(self).groups_view() && final(self).wf(),
    {
        let id = self.focused_group_id;
        self.group_by_id_mut(id)
    }

    /// Remove a group by identifier; true when it was there. When the focused
    /// group goes, the first remaining group is focused (identifier 0 when none is
    /// left).
    pub fn remove_group(&mut self, id: usize) -> (r: bool)
        requires
            old(self).wf(),
        ensures
            r == has_group(old(self).groups_view(), id),
            final(self).next_id() == old(self).next_id(),
            r ==> final(self).groups_view() == old(self).groups_view().remove(
                group_index(old(self).groups_view(), id),
            ),
            !r ==> final(self).groups_view() == old(self).groups_view(),
            final(self).focused_id() == (if r && old(self).focused_id() == id {
                if final(self).groups_view().len() > 0 {
                    final(self).groups_view()[0].group_id()
                } else {
                    0
                }
            } else {
                old(self).focused_id()
            }),
            final(self).wf(),
    {
        match self.find(id) {
            Some(idx) => {
                self.groups.remove(idx);
                if self.focused_group_id == id {
                    self.focused_group_id = if self.groups.len() > 0 {
                        self.groups[0].id
                    } else {
                        0
                    };
                }
                proof {
                    assert forall|i: int, j: int|
                        0 <= i < self.groups@.len() && 0 <= j < self.groups@.len() && i != j
                            implies (#[trigger] self.groups@[i]).group_id()
                        != (#[trigger] self.groups@[j]).group_id() by {
                        let oi = if i < idx { i } else { i + 1 };
                        let oj = if j < idx { j } else { j + 1 };
                        assert(self.groups@[i] == old(self).groups@[oi]);
                        assert(self.groups@[j] == old(self).groups@[oj]);
                    }
                }
                true
            },
            None => false,
        }
    }

    /// The groups' identifiers, in layout order.
    pub fn group_ids_ordered(&self) -> (r: Vec<usize>)
        ensures
            r@ == group_ids(self.groups_view()),
    {
        let mut ids: Vec<usize> = Vec::new();
        let mut i: usize = 0;
        while i < self.groups.len()
            invariant
                i <= self.groups@.len(),
                ids@ == group_ids(self.groups@.subrange(0, i as int)),
            decreases self.groups@.len() - i,
        {
            ids.push(self.groups[i].id);
            i += 1;
            assert(ids@ =~= group_ids(self.groups@.subrange(0, i as int)));
        }
        assert(self.groups@.subrange(0, i as int) =~= self.groups@);
        ids
    }

    /// Number of groups.
    pub fn group_count(&self) -> (r: usize)
        ensures
            r == self.groups_view().len(),
    {
        self.groups.len()
    }

    /// True if any group has any tab.
    pub fn any_active(&self) -> (r: bool)
        ensures
            r == exists|i: int|
                0 <= i < self.groups_view().len() && (#[trigger] self.groups_view()[i]).entries().len()
                    > 0,
    {
        let mut i: usize = 0;
        while i < self.groups.len()
            invariant
                i <= self.groups@.len(),
                forall|k: int| 0 <= k < i ==> (#[trigger] self.groups@[k]).entries().len() == 0,
            decreases self.groups@.len() - i,
        {
            if !self.groups[i].is_empty() {
                assert(self.groups_view()[i as int].entries().len() > 0);
                return true;
            }
            i += 1;
        }
        false
    }

    /// Whether the group with the identifier is missing or has no tabs.
    pub fn is_group_empty(&self, id: usize) -> (r: bool)
        requires
            self.wf(),
        ensures
            r == (!has_group(self.groups_view(), id) || self.groups_view()[group_index(
                self.groups_view(),
                id,
            )].entries().len() == 0),
    {
        match self.find(id) {
            Some(i) => self.groups[i].is_empty(),
            None => true,
        }
    }

    /// Iterate groups immutably.
    pub fn groups_ref(&self) -> (r: &[TabGroup<T>])
        ensures
            r@ == self.groups_view(),
    {
        self.groups.as_slice()
    }

    /// Iterate groups mutably.
    pub fn groups_mut(&mut self) -> (r: &mut [TabGroup<T>])
        ensures
            r@ == old(self).groups_view(),
            final(self).groups_view() == final(r)@,
            final(self).focused_id() == old(self).focused_id(),
            final(self).next_id() == old(self).next_id(),
    {
        self.groups.as_mut_slice()
    }

    /// The identifier of the group after the focused one, wrapping around; none
    /// with fewer than two groups or no focused group.
    pub fn next_group_id_from_focused(&self) -> (r: Option<usize>)
        requires
            self.wf(),
        ensures
            r == next_group_after(self.groups_view(), self.focused_id()),
    {
        let n = self.groups.len();
        if n <= 1 {
            return None;
        }
        match self.find(self.focused_group_id) {
            Some(pos) => Some(self.groups[(pos + 1) % n].id),
            None => None,
        }
    }

    /// The identifier of the group before the focused one, wrapping around; none
    /// with fewer than two groups or no focused group.
    pub fn prev_group_id_from_focused(&self) -> (r: Option<usize>)
        requires
            self.wf(),
        ensures
            r == prev_group_before(self.groups_view(), self.focused_id()),
    {
        let n = self.groups.len();
        if n <= 1 {
            return None;
        }
        match self.find(self.focused_group_id) {
            Some(pos) => Some(
                self.groups[if pos == 0 {
                    n - 1
                } else {
                    pos - 1
                }].id,
            ),
            None => None,
        }
    }

    /// Open a tab for a terminal just started with the profile in the focused
    /// group; false, and nothing changes, when no group is focused.
    pub fn open_tab_in_focused(
        &mut self,
        profile_name: &str,
        base_name: &str,
        terminal_id: u64,
        state: T,
    ) -> (r: bool)
        requires
            old(self).wf(),
            has_group(old(self).groups_view(), old(self).focused_id()) ==> old(
                self,
            ).groups_view()[group_index(
                old(self).groups_view(),
                old(self).focused_id(),
            )].entries().len() < usize::MAX,
        ensures
            r == has_group(old(self).groups_view(), old(self).focused_id()),
            final(self).focused_id() == old(self).focused_id(),
            final(self).next_id() == old(self).next_id(),
            final(self).groups_view().len() == old(self).groups_view().len(),
            !r ==> final(self).groups_view() == old(self).groups_view(),
            r ==> ({
                let gs = old(self).groups_view();
                let i = group_index(gs, old(self).focused_id());
                let g = final(self).groups_view()[i];
                &&& forall|j: int|
                    0 <= j < gs.len() && j != i ==> final(self).groups_view()[j] == gs[j]
                &&& g.group_id() == gs[i].group_id()
                &&& g.entries().drop_last() == gs[i].entries()
                &&& g.entries().len() == gs[i].entries().len() + 1
                &&& is_new_tab(
                    g.entries().last(),
                    profile_name@,
                    numbered_title(base_name@, profile_count(gs[i].entries(), profile_name@)),
                    terminal_id,
                    state,
                )
                &&& g.active_pos() == gs[i].entries().len()
            }),
            final(self).wf(),
    {
        match self.find(self.focused_group_id) {
            Some(i) => {
                self.groups[i].open_tab(profile_name, base_name, terminal_id, state);
                proof {
                    assert forall|a: int, b: int|
                        0 <= a < self.groups@.len() && 0 <= b < self.groups@.len() && a != b
                            implies (#[trigger] self.groups@[a]).group_id()
                        != (#[trigger] self.groups@[b]).group_id() by {
                        assert(old(self).groups@[a].group_id() != old(self).groups@[b].group_id());
                    }
                }
                true
            },
            None => false,
        }
    }

    /// The active tab of the focused group.
    pub fn active_tab(&self) -> (r: Option<&TabEntry<T>>)
        requires
            self.wf(),
        ensures
            r == (if has_group(self.groups_view(), self.focused_id()) {
                let g = self.groups_view()[group_index(self.groups_view(), self.focused_id())];
                if g.entries().len() > 0 {
                    Some(&g.entries()[g.active_pos()])
                } else {
                    None
                }
            } else {
                None
            }),
    {
        match self.find(self.focused_group_id) {
            Some(i) => self.groups[i].active_tab(),
            None => None,
        }
    }

    /// Move a tab from one group to the end of another, where it becomes active.
    /// Returns true if the source group is now empty (or missing). Nothing moves
    /// between a group and itself, or out of a missing group or past its last tab;
    /// a tab taken for a missing destination is dropped.
    pub fn move_tab(&mut self, from_group_id: usize, tab_idx: usize, to_group_id: usize) -> (r:
        bool)
        requires
            old(self).wf(),
        ensures
            final(self).focused_id() == old(self).focused_id(),
            final(self).next_id() == old(self).next_id(),
            final(self).wf(),
            from_group_id == to_group_id ==> !r && final(self).groups_view() == old(
                self,
            ).groups_view(),
            from_group_id != to_group_id ==> ({
                let gs = old(self).groups_view();
                let ns = final(self).groups_view();
                let has_from = has_group(gs, from_group_id);
                let has_to = has_group(gs, to_group_id);
                let fi = group_index(gs, from_group_id);
                let ti = group_index(gs, to_group_id);
                let moved = has_from && tab_idx < gs[fi].entries().len();
                &&& ns.len() == gs.len()
                &&& forall|j: int|
                    0 <= j < gs.len() && !(has_from && j == fi) && !(has_to && j == ti)
                        ==> ns[j] == gs[j]
                &&& has_from ==> ns[fi].group_id() == from_group_id
                &&& moved ==> ns[fi].entries() == gs[fi].entries().remove(tab_idx as int)
                    && ns[fi].active_pos() == clamp_active(
                    gs[fi].active_pos(),
                    gs[fi].entries().len() - 1,
                )
                &&& has_from && !moved ==> ns[fi].entries() == gs[fi].entries()
                    && ns[fi].active_pos() == gs[fi].active_pos()
                &&& has_to ==> ns[ti].group_id() == to_group_id
                &&& moved && has_to ==> ns[ti].entries() == gs[ti].entries().push(
                    gs[fi].entries()[tab_idx as int],
                ) && ns[ti].active_pos() == gs[ti].entries().len()
                &&& has_to && !moved ==> ns[ti] == gs[ti]
                &&& r == (!has_from || ns[fi].entries().len() == 0)
                &&& has_to ==> all_entries(ns).len() == all_entries(gs).len()
            }),
    {
        if from_group_id == to_group_id {
            return false;
        }
        let ghost gs = self.groups@;
        let src = self.find(from_group_id);
        let dst = self.find(to_group_id);
        let tab = match src {
            Some(fi) => self.groups[fi].take_tab(tab_idx),
            None => None,
        };
        proof {
            assert forall|a: int, b: int|
                0 <= a < self.groups@.len() && 0 <= b < self.groups@.len() && a != b
                    implies (#[trigger] self.groups@[a]).group_id()
                != (#[trigger] self.groups@[b]).group_id() by {
                assert(gs[a].group_id() != gs[b].group_id());
            }
        }
        let ghost mid = self.groups@;
        proof {
            if src is Some {
                assert(mid =~= gs.update(src.unwrap() as int, mid[src.unwrap() as int]));
                lemma_all_entries_update(gs, src.unwrap() as int, mid[src.unwrap() as int]);
            } else {
                assert(mid =~= gs);
            }
        }
        if let Some(tab) = tab {
            if let Some(ti) = dst {
                let n = self.groups[ti].count();
                self.groups[ti].insert_tab(n, tab);
                proof {
                    assert forall|a: int, b: int|
                        0 <= a < self.groups@.len() && 0 <= b < self.groups@.len() && a != b
                            implies (#[trigger] self.groups@[a]).group_id()
                        != (#[trigger] self.groups@[b]).group_id() by {
                        assert(mid[a].group_id() != mid[b].group_id());
                    }
                    assert(gs[ti as int].entries().insert(
                        gs[ti as int].entries().len() as int,
                        gs[src.unwrap() as int].entries()[tab_idx as int],
                    ) =~= gs[ti as int].entries().push(gs[src.unwrap() as int].entries()[tab_idx as int]));
                    assert(self.groups@ =~= mid.update(ti as int, self.groups@[ti as int]));
                    lemma_all_entries_update(mid, ti as int, self.groups@[ti as int]);
                }
            }
        }
        match src {
            Some(fi) => self.groups[fi].is_empty(),
            None => true,
        }
    }

    /// The active tab of the focused group, to change in place.
    pub fn active_tab_mut(&mut self) -> (r: Option<&mut TabEntry<T>>)
        requires
            old(self).wf(),
        ensures
            final(self).focused_id() == old(self).focused_id(),
            final(self).next_id() == old(self).next_id(),
            final(self).wf(),
            ({
                let gs = old(self).groups_view();
                let ns = final(self).groups_view();
                let i = group_index(gs, old(self).focused_id());
                let found = has_group(gs, old(self).focused_id()) && gs[i].entries().len() > 0;
                &&& ns.len() == gs.len()
                &&& forall|j: int|
                    0 <= j < gs.len() ==> (#[trigger] ns[j]).group_id() == gs[j].group_id()
                        && ns[j].active_pos() == gs[j].active_pos()
                &&& forall|j: int|
                    0 <= j < gs.len() && !(found && j == i) ==> (#[trigger] ns[j]).entries()
                        == gs[j].entries()
                &&& found ==> r is Some && *r.unwrap() == gs[i].entries()[gs[i].active_pos()]
                    && ns[i].entries() == gs[i].entries().update(
                    gs[i].active_pos(),
                    *final(r.unwrap()),
                )
                &&& !found ==> r is None
            }),
    {
        match self.find(self.focused_group_id) {
            Some(i) => self.groups[i].active_tab_mut(),
            None => None,
        }
    }

    /// The positions, among all tabs group by group, of the tabs opened with the
    /// profile: those whose appearance follows it when its settings are saved.
    pub fn tabs_with_profile(&self, profile_key: &str) -> (r: Vec<usize>)
        ensures
            r@ == profile_positions(all_entries(self.groups_view()), profile_key@),
    {
        let all = self.all_tabs_ref();
        let ghost es = all_entries(self.groups_view());
        let key = String::from_str(profile_key);
        let mut out: Vec<usize> = Vec::new();
        let mut i: usize = 0;
        while i < all.len()
            invariant
                i <= all@.len(),
                all@.map_values(|e: &TabEntry<T>| *e) == es,
                key@ == profile_key@,
                out@ == profile_positions(es.subrange(0, i as int), profile_key@),
            decreases all@.len() - i,
        {
            assert(es[i as int] == *all@[i as int]);
            assert(es.subrange(0, i + 1).drop_last() =~= es.subrange(0, i as int));
            if all[i].profile_name == key {
                out.push(i);
            }
            i += 1;
            assert(out@ =~= profile_positions(es.subrange(0, i as int), profile_key@));
        }
        assert(es.subrange(0, i as int) =~= es);
        out
    }

    /// Every tab of every group, group by group in layout order.
    pub fn all_tabs_ref(&self) -> (r: Vec<&TabEntry<T>>)
        ensures
            r@.map_values(|e: &TabEntry<T>| *e) == all_entries(self.groups_view()),
    {
        let mut out: Vec<&TabEntry<T>> = Vec::new();
        let mut i: usize = 0;
        while i < self.groups.len()
            invariant
                i <= self.groups@.len(),
                out@.map_values(|e: &TabEntry<T>| *e) == all_entries(
                    self.groups@.subrange(0, i as int),
                ),
            decreases self.groups@.len() - i,
        {
            let tabs = self.groups[i].tabs_ref();
            let ghost before = out@.map_values(|e: &TabEntry<T>| *e);
            let mut j: usize = 0;
            while j < tabs.len()
                invariant
                    j <= tabs@.len(),
                    out@.map_values(|e: &TabEntry<T>| *e) == before + tabs@.subrange(0, j as int),
                decreases tabs@.len() - j,
            {
                let ghost prev = out@;
                let t = &tabs[j];
                out.push(t);
                assert(out@ == prev.push(t));
                assert(out@.map_values(|e: &TabEntry<T>| *e) =~= prev.map_values(
                    |e: &TabEntry<T>| *e,
                ).push(tabs@[j as int]));
                j += 1;
                assert(out@.map_values(|e: &TabEntry<T>| *e) =~= before + tabs@.subrange(
                    0,
                    j as int,
                ));
            }
            assert(tabs@.subrange(0, j as int) =~= tabs@);
            assert(self.groups@.subrange(0, i + 1).drop_last() =~= self.groups@.subrange(
                0,
                i as int,
            ));
            i += 1;
        }
        assert(self.groups@.subrange(0, i as int) =~= self.groups@);
        out
    }
}

/// Replacing one group changes the number of tabs by the difference in its tabs.
proof fn lemma_all_entries_update<T>(gs: Seq<TabGroup<T>>, k: int, g: TabGroup<T>)
    requires
        0 <= k < gs.len(),
    ensures
        all_entries(gs.update(k, g)).len() == all_entries(gs).len() - gs[k].entries().len()
            + g.entries().len(),
    decreases gs.len(),
{
    if k < gs.len() - 1 {
        assert(gs.update(k, g).drop_last() =~= gs.drop_last().update(k, g));
        lemma_all_entries_update(gs.drop_last(), k, g);
    } else {
        assert(gs.update(k, g).drop_last() =~= gs.drop_last());
    }
}

/// Swapping two tabs keeps the same tab active.
pub proof fn lemma_swap_keeps_active_tab<T>(tabs: Seq<TabEntry<T>>, active: int, a: int, b: int)
    requires
        0 <= a < tabs.len(),
        0 <= b < tabs.len(),
        0 <= active < tabs.len(),
    ensures
        swapped(tabs, a, b)[swapped_active(active, a, b)] == tabs[active],
{
}

/// Taking a tab out and inserting it back where it was gives the same tabs.
pub proof fn lemma_take_insert_round_trip<T>(tabs: Seq<TabEntry<T>>, i: int)
    requires
        0 <= i < tabs.len(),
    ensures
        tabs.remove(i).insert(i, tabs[i]) == tabs,
{
    assert(tabs.remove(i).insert(i, tabs[i]) =~= tabs);
}

/// Activating the next tab and then the previous one returns to the same tab.
pub proof fn lemma_next_prev_tab_inverse(p: int, n: int)
    requires
        0 <= p < n,
    ensures
        0 <= next_pos(p, n) < n,
        prev_pos(next_pos(p, n), n) == p,
        next_pos(prev_pos(p, n), n) == p,
{
    lemma_wrap(p, n);
    lemma_wrap(prev_pos(p, n), n);
}

/// The next tab is the one to the right, the first after the last; the previous
/// is the one to the left, the last before the first. When tabs close, the active
/// position stays unless it is past the last remaining tab, which it then becomes.
pub proof fn lemma_tab_order(p: int, n: int, len: int)
    requires
        0 <= p < n,
        len >= 0,
    ensures
        next_pos(p, n) == (if p + 1 < n { p + 1 } else { 0 }),
        prev_pos(p, n) == (if p > 0 { p - 1 } else { n - 1 }),
        p < len ==> clamp_active(p, len) == p,
        p >= len && len > 0 ==> clamp_active(p, len) == len - 1,
{
    lemma_wrap(p, n);
}

pub(crate) proof fn lemma_wrap(p: int, n: int)
    requires
        0 <= p < n,
    ensures
        next_pos(p, n) == (if p + 1 < n {
            p + 1
        } else {
            0
        }),
{
    if p + 1 < n {
        assert((p + 1) % n == p + 1) by (nonlinear_arith)
            requires
                0 <= p + 1 < n,
        ;
    } else {
        assert((p + 1) % n == 0) by (nonlinear_arith)
            requires
                p + 1 == n,
                n > 0,
        ;
    }
}

/// The group before the one after a group is that group again, when the groups'
/// identifiers are distinct.
pub proof fn lemma_next_prev_group_inverse<T>(gs: Seq<TabGroup<T>>, id: usize)
    requires
        forall|i: int, j: int|
            0 <= i < gs.len() && 0 <= j < gs.len() && i != j ==> (#[trigger] gs[i]).group_id()
                != (#[trigger] gs[j]).group_id(),
        has_group(gs, id),
        gs.len() > 1,
    ensures
        next_group_after(gs, id) matches Some(n) && prev_group_before(gs, n) == Some(id),
        prev_group_before(gs, id) matches Some(p) && next_group_after(gs, p) == Some(id),
{
    let n = gs.len() as int;
    let i = group_index(gs, id);
    let ni = next_pos(i, n);
    let pi = prev_pos(i, n);
    let nid = gs[ni].group_id();
    let pid = gs[pi].group_id();
    assert(has_group(gs, nid));
    assert(has_group(gs, pid));
    lemma_wrap(i, n);
    lemma_wrap(pi, n);
    let gn = group_index(gs, nid);
    let gp = group_index(gs, pid);
    assert(gs[gn].group_id() == nid);
    assert(gn == ni);
    assert(gp == pi);
}
} // verus!
