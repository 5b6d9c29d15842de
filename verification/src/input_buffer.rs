//! A fully-editable input buffer for the terminal input line.
//!
//! Supports cursor movement, selection, undo/redo, clipboard operations,
//! command history, and ghost-text (AI autocomplete suggestions).
//! Positions are counted in characters.
use vstd::prelude::*;

use crate::text::{
    all_ws, char_is_alphanumeric, chars_of, is_blank, push_char, unicode_alphanumeric,
};

verus! {

/// A selection range in the input buffer.
#[derive(Debug, Clone, Copy, PartialEq, Eq, Structural)]
pub struct Selection {
    /// Where the selection started (anchor).
    pub anchor: usize,
    /// Where the selection currently extends to (head/cursor end).
    pub head: usize,
}

/// An undo/redo entry capturing a snapshot.
#[derive(Debug, Clone)]
struct UndoEntry {
    text: String,
    cursor: usize,
    selection: Option<Selection>,
}

/// Result of an input buffer operation.
#[derive(Debug, Clone, PartialEq, Eq)]
pub enum InputAction {
    /// Nothing changed.
    Unchanged,
    /// The buffer content or cursor changed — request a repaint.
    Changed,
    /// The user submitted the input line — send it to the PTY.
    Submit(String),
    /// Text to copy to the clipboard.
    Copy(String),
    /// Text to cut to the clipboard.
    Cut(String),
    /// Send raw bytes to the PTY (e.g., tab for path completion).
    SendToPty(Vec<u8>),
    /// Send SIGINT (Ctrl+C with no selection and empty input).
    Interrupt,
}

/// The editable part of the state, as an undo entry records it.
pub struct Snapshot {
    pub text: Seq<char>,
    pub cursor: nat,
    pub selection: Option<Selection>,
}

/// The abstract state of an input buffer.
pub struct InputModel {
    pub text: Seq<char>,
    pub cursor: nat,
    pub selection: Option<Selection>,
    pub history: Seq<Seq<char>>,
    pub history_index: Option<nat>,
    /// Text being composed before history navigation.
    pub draft: Seq<char>,
    pub undo: Seq<Snapshot>,
    pub redo: Seq<Snapshot>,
    /// Ghost text shown as dimmed suggestion (not part of `text`).
    pub suggestion: Option<Seq<char>>,
}

/// The most undo entries kept; the oldest is dropped beyond that.
pub const UNDO_LIMIT: usize = 100;

/// The selected range in sorted order.
pub open spec fn sel_range(sel: Option<Selection>) -> Option<(usize, usize)> {
    match sel {
        Some(s) => Some(
            (
                if s.anchor <= s.head {
                    s.anchor
                } else {
                    s.head
                },
                if s.anchor <= s.head {
                    s.head
                } else {
                    s.anchor
                },
            ),
        ),
        None => None,
    }
}

pub open spec fn sel_ok(sel: Option<Selection>, len: nat) -> bool {
    match sel {
        Some(s) => s.anchor <= len && s.head <= len,
        None => true,
    }
}

pub open spec fn snap_ok(s: Snapshot) -> bool {
    s.cursor <= s.text.len() && sel_ok(s.selection, s.text.len())
}

/// `t` with the characters in `[a, b)` replaced by `ins`.
pub open spec fn splice(t: Seq<char>, a: int, b: int, ins: Seq<char>) -> Seq<char> {
    t.subrange(0, a) + ins + t.subrange(b, t.len() as int)
}

/// Pushes an undo entry, dropping the oldest once there are more than `UNDO_LIMIT`.
pub open spec fn push_limited(u: Seq<Snapshot>, s: Snapshot) -> Seq<Snapshot> {
    if u.len() + 1 > UNDO_LIMIT {
        u.push(s).drop_first()
    } else {
        u.push(s)
    }
}

pub open spec fn is_word(c: char) -> bool {
    unicode_alphanumeric(c) || c == '_' || c == '-'
}

pub open spec fn skip_nonword_left(t: Seq<char>, pos: int) -> int
    decreases pos,
{
    if pos > 0 && !is_word(t[pos]) {
        skip_nonword_left(t, pos - 1)
    } else {
        pos
    }
}

pub open spec fn skip_word_left(t: Seq<char>, pos: int) -> int
    decreases pos,
{
    if pos > 0 && is_word(t[pos - 1]) {
        skip_word_left(t, pos - 1)
    } else {
        pos
    }
}

pub open spec fn skip_word_right(t: Seq<char>, pos: int) -> int
    decreases t.len() - pos,
{
    if 0 <= pos < t.len() && is_word(t[pos]) {
        skip_word_right(t, pos + 1)
    } else {
        pos
    }
}

pub open spec fn skip_nonword_right(t: Seq<char>, pos: int) -> int
    decreases t.len() - pos,
{
    if 0 <= pos < t.len() && !is_word(t[pos]) {
        skip_nonword_right(t, pos + 1)
    } else {
        pos
    }
}

pub open spec fn skip_spaces(t: Seq<char>, pos: int) -> int
    decreases t.len() - pos,
{
    if 0 <= pos < t.len() && t[pos] == ' ' {
        skip_spaces(t, pos + 1)
    } else {
        pos
    }
}

/// The word boundary left of `from`: back over non-word characters, then over the word.
pub open spec fn word_left(t: Seq<char>, from: int) -> int {
    if from <= 0 {
        0
    } else {
        let p = skip_word_left(t, skip_nonword_left(t, from - 1));
        if !is_word(t[p]) && p < from - 1 {
            p + 1
        } else {
            p
        }
    }
}

/// The word boundary right of `from`: over the word, then over non-word characters.
pub open spec fn word_right(t: Seq<char>, from: int) -> int {
    if from >= t.len() {
        t.len() as int
    } else {
        skip_nonword_right(t, skip_word_right(t, from))
    }
}

pub open spec fn word_start_at(t: Seq<char>, at: int) -> int {
    if at >= t.len() {
        at
    } else {
        skip_word_left(t, at)
    }
}

pub open spec fn word_end_at(t: Seq<char>, at: int) -> int {
    if at >= t.len() {
        t.len() as int
    } else {
        skip_word_right(t, at)
    }
}

/// How many characters of ghost text one word-accept takes: the first word and the
/// spaces after it, or one character when there is no word.
pub open spec fn ghost_word_len(g: Seq<char>) -> int {
    let e = skip_spaces(g, skip_word_right(g, 0));
    if e == 0 {
        if g.len() >= 1 {
            1
        } else {
            0
        }
    } else {
        e
    }
}

impl InputModel {
    pub open spec fn wf(self) -> bool {
        &&& self.cursor <= self.text.len()
        &&& sel_ok(self.selection, self.text.len())
        &&& (self.history_index matches Some(i) ==> i < self.history.len())
        &&& forall|i: int| 0 <= i < self.undo.len() ==> snap_ok(#[trigger] self.undo[i])
        &&& forall|i: int| 0 <= i < self.redo.len() ==> snap_ok(#[trigger] self.redo[i])
    }

    pub open spec fn snap(self) -> Snapshot {
        Snapshot { text: self.text, cursor: self.cursor, selection: self.selection }
    }

    /// The text, cursor and selection restored from a snapshot.
    pub open spec fn restore(self, s: Snapshot) -> InputModel {
        InputModel { text: s.text, cursor: s.cursor, selection: s.selection, ..self }
    }

    /// The state with the current snapshot pushed for undo, and nothing left to redo.
    pub open spec fn saved(self) -> InputModel {
        InputModel { undo: push_limited(self.undo, self.snap()), redo: Seq::empty(), ..self }
    }

    pub open spec fn selected(self) -> Option<Seq<char>> {
        match sel_range(self.selection) {
            Some((s, e)) => Some(self.text.subrange(s as int, e as int)),
            None => None,
        }
    }

    pub open spec fn delete_selection(self) -> InputModel {
        match sel_range(self.selection) {
            Some((s, e)) => InputModel {
                text: splice(self.text, s as int, e as int, Seq::empty()),
                cursor: s as nat,
                selection: None,
                ..self
            },
            None => self,
        }
    }

    pub open spec fn extend_selection(self, new_head: nat) -> InputModel {
        InputModel {
            selection: match self.selection {
                Some(s) => Some(Selection { head: new_head as usize, ..s }),
                None => Some(Selection { anchor: self.cursor as usize, head: new_head as usize }),
            },
            cursor: new_head,
            ..self
        }
    }

    /// Inserts `s` at the cursor, replacing the selection.
    pub open spec fn insert(self, s: Seq<char>) -> InputModel {
        let m = self.saved().delete_selection();
        InputModel {
            text: splice(m.text, m.cursor as int, m.cursor as int, s),
            cursor: m.cursor + s.len(),
            selection: None,
            suggestion: None,
            history_index: None,
            ..m
        }
    }

    pub open spec fn set_text(self, s: Seq<char>) -> InputModel {
        InputModel {
            text: s,
            cursor: s.len(),
            selection: None,
            suggestion: None,
            history_index: None,
            ..self.saved()
        }
    }

    /// Removes `[a, b)` of the text, leaving the cursor at `a`.
    pub open spec fn remove_range(self, a: int, b: int) -> InputModel {
        InputModel {
            text: splice(self.text, a, b, Seq::empty()),
            cursor: a as nat,
            suggestion: None,
            ..self
        }
    }

    pub open spec fn delete_back(self) -> InputModel {
        if self.selection is Some {
            InputModel { suggestion: None, ..self.saved().delete_selection() }
        } else if self.cursor == 0 {
            self
        } else {
            self.saved().remove_range(self.cursor - 1, self.cursor as int)
        }
    }

    pub open spec fn delete_forward(self) -> InputModel {
        if self.selection is Some {
            InputModel { suggestion: None, ..self.saved().delete_selection() }
        } else if self.cursor >= self.text.len() {
            self
        } else {
            self.saved().remove_range(self.cursor as int, self.cursor + 1 as int)
        }
    }

    pub open spec fn delete_word_back(self) -> InputModel {
        let target = word_left(self.text, self.cursor as int);
        if self.selection is Some {
            InputModel { suggestion: None, ..self.saved().delete_selection() }
        } else if target == self.cursor {
            self
        } else {
            self.saved().remove_range(target, self.cursor as int)
        }
    }

    pub open spec fn delete_word_forward(self) -> InputModel {
        let target = word_right(self.text, self.cursor as int);
        if self.selection is Some {
            InputModel { suggestion: None, ..self.saved().delete_selection() }
        } else if target == self.cursor {
            self
        } else {
            InputModel { cursor: self.cursor, ..self.saved().remove_range(self.cursor as int, target) }
        }
    }

    pub open spec fn cut(self) -> InputModel {
        if self.selection is Some {
            InputModel { suggestion: None, ..self.saved().delete_selection() }
        } else {
            self
        }
    }

    pub open spec fn accept_ghost(self) -> InputModel {
        match self.suggestion {
            Some(g) => {
                let m = InputModel { suggestion: None, ..self }.saved();
                InputModel {
                    text: m.text + g,
                    cursor: (m.text + g).len(),
                    selection: None,
                    ..m
                }
            },
            None => self,
        }
    }

    pub open spec fn undo_step(self) -> InputModel {
        if self.undo.len() > 0 {
            InputModel {
                undo: self.undo.drop_last(),
                redo: self.redo.push(self.snap()),
                suggestion: None,
                ..self.restore(self.undo.last())
            }
        } else {
            self
        }
    }

    pub open spec fn redo_step(self) -> InputModel {
        if self.redo.len() > 0 {
            InputModel {
                redo: self.redo.drop_last(),
                undo: self.undo.push(self.snap()),
                suggestion: None,
                ..self.restore(self.redo.last())
            }
        } else {
            self
        }
    }

    pub open spec fn submit(self) -> InputModel {
        InputModel {
            text: Seq::empty(),
            cursor: 0,
            selection: None,
            history: if all_ws(self.text) {
                self.history
            } else {
                self.history.push(self.text)
            },
            history_index: None,
            suggestion: None,
            undo: Seq::empty(),
            redo: Seq::empty(),
            ..self
        }
    }

    /// Shows history entry `i` with the cursor at its end.
    pub open spec fn show_history(self, i: nat, text: Seq<char>) -> InputModel {
        InputModel {
            history_index: if i < self.history.len() {
                Some(i)
            } else {
                None
            },
            text: text,
            cursor: text.len(),
            selection: None,
            suggestion: None,
            ..self
        }
    }

    pub open spec fn history_prev(self) -> InputModel {
        if self.history.len() == 0 {
            self
        } else {
            match self.history_index {
                None => {
                    let i = (self.history.len() - 1) as nat;
                    InputModel { draft: self.text, ..self }.show_history(i, self.history[i as int])
                },
                Some(i) => if i > 0 {
                    self.show_history((i - 1) as nat, self.history[i - 1])
                } else {
                    self
                },
            }
        }
    }

    pub open spec fn history_next(self) -> InputModel {
        match self.history_index {
            Some(i) => if i + 1 < self.history.len() {
                self.show_history(i + 1, self.history[i + 1 as int])
            } else {
                self.show_history(self.history.len(), self.draft)
            },
            None => self,
        }
    }

    pub open spec fn move_left(self) -> InputModel {
        match sel_range(self.selection) {
            Some((s, _)) => InputModel { cursor: s as nat, selection: None, ..self },
            None => if self.cursor > 0 {
                InputModel { cursor: (self.cursor - 1) as nat, ..self }
            } else {
                self
            },
        }
    }

    pub open spec fn move_right(self) -> InputModel {
        match sel_range(self.selection) {
            Some((_, e)) => InputModel { cursor: e as nat, selection: None, ..self },
            None => if self.cursor < self.text.len() {
                InputModel { cursor: self.cursor + 1, ..self }
            } else {
                self
            },
        }
    }

    pub open spec fn move_word_left(self) -> InputModel {
        InputModel {
            cursor: word_left(self.text, self.cursor as int) as nat,
            selection: None,
            ..self
        }
    }

    /// Whether a word-right move takes a word of ghost text instead of moving.
    pub open spec fn takes_ghost_word(self) -> bool {
        self.cursor >= self.text.len() && self.suggestion is Some
    }

    pub open spec fn move_word_right(self) -> InputModel {
        if self.takes_ghost_word() {
            let g = self.suggestion->0;
            let k = ghost_word_len(g);
            InputModel {
                text: self.text + g.subrange(0, k),
                cursor: self.cursor + k as nat,
                suggestion: if k < g.len() {
                    Some(g.subrange(k, g.len() as int))
                } else {
                    None
                },
                selection: None,
                ..self
            }
        } else {
            InputModel {
                cursor: word_right(self.text, self.cursor as int) as nat,
                selection: None,
                ..self
            }
        }
    }

    pub open spec fn move_to(self, pos: nat) -> InputModel {
        InputModel { cursor: pos, selection: None, ..self }
    }

    pub open spec fn select_all(self) -> InputModel {
        if self.text.len() == 0 {
            self
        } else {
            InputModel {
                selection: Some(Selection { anchor: 0, head: self.text.len() as usize }),
                cursor: self.text.len(),
                ..self
            }
        }
    }

    /// The character index a double-click at `col` looks at.
    pub open spec fn click_index(self, col: nat) -> int {
        if col < self.text.len() - 1 {
            col as int
        } else if self.text.len() >= 1 {
            self.text.len() - 1
        } else {
            0
        }
    }

    /// Whether a double-click at `col` lands on a word.
    pub open spec fn selects_word(self, col: nat) -> bool {
        word_start_at(self.text, self.click_index(col)) < word_end_at(
            self.text,
            self.click_index(col),
        )
    }

    pub open spec fn select_word_at(self, col: nat) -> InputModel {
        let at = self.click_index(col);
        let start = word_start_at(self.text, at);
        let end = word_end_at(self.text, at);
        if start < end {
            InputModel {
                selection: Some(Selection { anchor: start as usize, head: end as usize }),
                cursor: end as nat,
                ..self
            }
        } else {
            self
        }
    }
}

/// The editing operations that record an undo entry.
pub enum Edit {
    InsertChar(char),
    InsertText(Seq<char>),
    SetText(Seq<char>),
    DeleteBack,
    DeleteForward,
    DeleteWordBack,
    DeleteWordForward,
    Cut,
    AcceptGhost,
}

pub open spec fn apply_edit(m: InputModel, e: Edit) -> InputModel {
    match e {
        Edit::InsertChar(c) => m.insert(seq![c]),
        Edit::InsertText(s) => if s.len() == 0 {
            m
        } else {
            m.insert(s)
        },
        Edit::SetText(s) => m.set_text(s),
        Edit::DeleteBack => m.delete_back(),
        Edit::DeleteForward => m.delete_forward(),
        Edit::DeleteWordBack => m.delete_word_back(),
        Edit::DeleteWordForward => m.delete_word_forward(),
        Edit::Cut => m.cut(),
        Edit::AcceptGhost => m.accept_ghost(),
    }
}

/// Whether the edit does anything at all (and so records an undo entry).
pub open spec fn edit_applies(m: InputModel, e: Edit) -> bool {
    match e {
        Edit::InsertText(s) => s.len() > 0,
        Edit::DeleteBack => m.selection is Some || m.cursor > 0,
        Edit::DeleteForward => m.selection is Some || m.cursor < m.text.len(),
        Edit::DeleteWordBack => m.selection is Some || word_left(m.text, m.cursor as int)
            != m.cursor,
        Edit::DeleteWordForward => m.selection is Some || word_right(m.text, m.cursor as int)
            != m.cursor,
        Edit::Cut => m.selection is Some,
        Edit::AcceptGhost => m.suggestion is Some,
        _ => true,
    }
}

// ── Lemmas on the word scanning functions ──────────────────────────────

pub proof fn lemma_skip_left_bounds(t: Seq<char>, pos: int)
    requires
        0 <= pos,
    ensures
        0 <= skip_nonword_left(t, pos) <= pos,
        0 <= skip_word_left(t, pos) <= pos,
    decreases pos,
{
    if pos > 0 {
        lemma_skip_left_bounds(t, pos - 1);
    }
}

pub proof fn lemma_skip_right_bounds(t: Seq<char>, pos: int)
    requires
        0 <= pos <= t.len(),
    ensures
        pos <= skip_word_right(t, pos) <= t.len(),
        pos <= skip_nonword_right(t, pos) <= t.len(),
        pos <= skip_spaces(t, pos) <= t.len(),
    decreases t.len() - pos,
{
    if pos < t.len() {
        lemma_skip_right_bounds(t, pos + 1);
    }
}

pub proof fn lemma_word_bounds(t: Seq<char>, from: int)
    requires
        0 <= from <= t.len(),
    ensures
        0 <= word_left(t, from) <= from,
        from > 0 ==> word_left(t, from) < from,
        from <= word_right(t, from) <= t.len(),
        from < t.len() ==> 0 <= word_start_at(t, from) <= from,
        from < t.len() ==> from <= word_end_at(t, from) <= t.len(),
{
    if from > 0 {
        lemma_skip_left_bounds(t, from - 1);
        lemma_skip_left_bounds(t, skip_nonword_left(t, from - 1));
    }
    if from < t.len() {
        lemma_skip_right_bounds(t, from);
        lemma_skip_right_bounds(t, skip_word_right(t, from));
        lemma_skip_left_bounds(t, from);
    }
}

pub proof fn lemma_ghost_word_len(g: Seq<char>)
    ensures
        0 <= ghost_word_len(g) <= g.len(),
        g.len() > 0 ==> ghost_word_len(g) > 0,
{
    lemma_skip_right_bounds(g, 0);
    lemma_skip_right_bounds(g, skip_word_right(g, 0));
}

// ── Laws ───────────────────────────────────────────────────────────────

proof fn lemma_splice_len(t: Seq<char>, a: int, b: int, ins: Seq<char>)
    requires
        0 <= a <= b <= t.len(),
    ensures
        splice(t, a, b, ins).len() == t.len() - (b - a) + ins.len(),
{
}

proof fn lemma_saved_wf(m: InputModel)
    requires
        m.wf(),
    ensures
        m.saved().wf(),
        m.saved().undo.len() > 0,
        m.saved().undo.last() == m.snap(),
{
    let u = m.undo.push(m.snap());
    assert forall|i: int| 0 <= i < m.saved().undo.len() implies snap_ok(
        #[trigger] m.saved().undo[i],
    ) by {
        if m.undo.len() + 1 > UNDO_LIMIT {
            assert(m.saved().undo[i] == u[i + 1]);
        } else {
            assert(m.saved().undo[i] == u[i]);
        }
    }
}

proof fn lemma_delete_selection_wf(m: InputModel)
    requires
        m.wf(),
    ensures
        m.delete_selection().wf(),
        m.delete_selection().undo == m.undo,
        m.delete_selection().redo == m.redo,
        m.delete_selection().text.len() <= m.text.len(),
{
    if let Some((s, e)) = sel_range(m.selection) {
        lemma_splice_len(m.text, s as int, e as int, Seq::empty());
    }
}

/// Every editing operation keeps the buffer well-formed: the cursor and selection
/// stay within the text and every undo/redo entry is a valid state.
pub proof fn lemma_edit_wf(m: InputModel, e: Edit)
    requires
        m.wf(),
    ensures
        apply_edit(m, e).wf(),
{
    lemma_saved_wf(m);
    lemma_delete_selection_wf(m.saved());
    let s = m.saved();
    let d = s.delete_selection();
    match e {
        Edit::InsertChar(c) => {
            lemma_splice_len(d.text, d.cursor as int, d.cursor as int, seq![c]);
        },
        Edit::InsertText(t) => {
            lemma_splice_len(d.text, d.cursor as int, d.cursor as int, t);
        },
        Edit::SetText(_) => {},
        Edit::DeleteBack => {
            if s.selection is None && s.cursor > 0 {
                lemma_splice_len(s.text, s.cursor - 1, s.cursor as int, Seq::empty());
            }
        },
        Edit::DeleteForward => {
            if s.selection is None && s.cursor < s.text.len() {
                lemma_splice_len(s.text, s.cursor as int, s.cursor + 1 as int, Seq::empty());
            }
        },
        Edit::DeleteWordBack => {
            lemma_word_bounds(s.text, s.cursor as int);
            if s.selection is None {
                let t = word_left(s.text, s.cursor as int);
                lemma_splice_len(s.text, t, s.cursor as int, Seq::empty());
            }
        },
        Edit::DeleteWordForward => {
            lemma_word_bounds(s.text, s.cursor as int);
            if s.selection is None {
                let t = word_right(s.text, s.cursor as int);
                lemma_splice_len(s.text, s.cursor as int, t, Seq::empty());
            }
        },
        Edit::Cut => {},
        Edit::AcceptGhost => {
            if m.suggestion is Some {
                lemma_saved_wf(InputModel { suggestion: None, ..m });
            }
        },
    }
}

/// Undo right after an edit brings back the text, cursor and selection from before it.
pub proof fn lemma_undo_reverts_edit(m: InputModel, e: Edit)
    requires
        m.wf(),
        edit_applies(m, e),
    ensures
        apply_edit(m, e).undo_step().snap() == m.snap(),
        apply_edit(m, e).undo_step().suggestion is None,
        apply_edit(m, e).undo_step().redo.len() == 1,
{
    lemma_saved_wf(m);
    if e is AcceptGhost {
        lemma_saved_wf(InputModel { suggestion: None, ..m });
    }
}

/// An edit that finds nothing to do leaves the buffer as it was, its undo and redo
/// history included.
pub proof fn lemma_noop_edit_unchanged(m: InputModel, e: Edit)
    requires
        m.wf(),
        !edit_applies(m, e),
    ensures
        apply_edit(m, e) == m,
{
}

/// Undo with nothing to undo leaves the buffer as it was.
pub proof fn lemma_undo_without_history(m: InputModel)
    requires
        m.undo.len() == 0,
    ensures
        m.undo_step() == m,
{
}

/// Typing inserts at the cursor, or in place of the selection, and leaves the
/// cursor after what was inserted; Backspace removes the character before the
/// cursor and Delete the one at it, or either removes the selection, the cursor
/// then at the start of what was removed. Home and End put the cursor at the
/// start and the end of the text.
pub proof fn lemma_editing_text(m: InputModel, x: Seq<char>)
    requires
        m.wf(),
    ensures
        ({
            let t = m.text;
            let c = m.cursor as int;
            &&& m.selection is None ==> {
                &&& m.insert(x).text == t.subrange(0, c) + x + t.subrange(c, t.len() as int)
                &&& m.insert(x).cursor == c + x.len()
                &&& c > 0 ==> m.delete_back().text == t.subrange(0, c - 1) + t.subrange(
                    c,
                    t.len() as int,
                ) && m.delete_back().cursor == c - 1
                &&& c < t.len() ==> m.delete_forward().text == t.subrange(0, c) + t.subrange(
                    c + 1,
                    t.len() as int,
                ) && m.delete_forward().cursor == c
            }
            &&& (m.selection matches Some(sel) ==> {
                let lo = (if sel.anchor <= sel.head { sel.anchor } else { sel.head }) as int;
                let hi = (if sel.anchor <= sel.head { sel.head } else { sel.anchor }) as int;
                &&& m.insert(x).text == t.subrange(0, lo) + x + t.subrange(hi, t.len() as int)
                &&& m.insert(x).cursor == lo + x.len()
                &&& m.delete_back().text == t.subrange(0, lo) + t.subrange(hi, t.len() as int)
                &&& m.delete_back().cursor == lo
                &&& m.delete_forward().text == t.subrange(0, lo) + t.subrange(
                    hi,
                    t.len() as int,
                )
                &&& m.delete_forward().cursor == lo
                &&& m.insert(x).selection is None && m.delete_back().selection is None
            })
            &&& m.move_to(0).cursor == 0
            &&& m.move_to(t.len()).cursor == t.len()
            &&& m.move_to(0).text == t
        }),
{
    let t = m.text;
    let c = m.cursor as int;
    if m.selection is None {
        assert(m.insert(x).text =~= t.subrange(0, c) + x + t.subrange(c, t.len() as int));
    }
}

/// History: Up from the line being typed shows the newest entry and keeps the typed
/// text aside; Up again shows older entries, stopping at the oldest; Down shows newer
/// ones and, past the newest, brings the typed text back. Up then Down from the
/// line being typed gives the same text back. The cursor goes to the end of the
/// text shown.
pub proof fn lemma_history_navigation(m: InputModel)
    requires
        m.wf(),
    ensures
        m.history.len() > 0 && m.history_index is None ==> {
            &&& m.history_prev().text == m.history.last()
            &&& m.history_prev().cursor == m.history.last().len()
            &&& m.history_prev().draft == m.text
            &&& m.history_prev().history_next().text == m.text
            &&& m.history_prev().history_next().history_index is None
        },
        (m.history_index matches Some(i) ==> {
            &&& i > 0 ==> m.history_prev().text == m.history[i - 1]
                && m.history_prev().history_index == Some((i - 1) as nat)
            &&& i == 0 ==> m.history_prev() == m
            &&& i + 1 < m.history.len() ==> m.history_next().text == m.history[i + 1int]
                && m.history_next().history_index == Some(i + 1)
            &&& i + 1 == m.history.len() ==> m.history_next().text == m.draft
                && m.history_next().history_index is None
        }),
        m.history_index is None ==> m.history_next() == m,
        m.history_prev().history == m.history && m.history_next().history == m.history,
{
}

/// Select-all selects the whole text, from its start to its end, with the cursor
/// at the end; on an empty text it changes nothing. Either way the text stays.
pub proof fn lemma_select_all(m: InputModel)
    requires
        m.text.len() <= usize::MAX,
    ensures
        m.select_all().text == m.text,
        m.text.len() > 0 ==> m.select_all().selected() == Some(m.text),
        m.text.len() > 0 ==> m.select_all().cursor == m.text.len(),
        m.text.len() == 0 ==> m.select_all() == m,
{
    assert(m.text.subrange(0, m.text.len() as int) =~= m.text);
}

proof fn lemma_skip_right_chars(t: Seq<char>, pos: int)
    requires
        0 <= pos <= t.len(),
    ensures
        forall|k: int| pos <= k < skip_word_right(t, pos) ==> is_word(#[trigger] t[k]),
        skip_word_right(t, pos) < t.len() ==> !is_word(t[skip_word_right(t, pos)]),
        forall|k: int| pos <= k < skip_nonword_right(t, pos) ==> !is_word(#[trigger] t[k]),
        skip_nonword_right(t, pos) < t.len() ==> is_word(t[skip_nonword_right(t, pos)]),
    decreases t.len() - pos,
{
    if pos < t.len() {
        lemma_skip_right_chars(t, pos + 1);
    }
}

/// Word-right (Ctrl+Right) from inside the text goes past the rest of the word at
/// the cursor, then past the non-word characters after it: it stops at the start
/// of the next word, or at the end of the text.
pub proof fn lemma_word_right_stops(t: Seq<char>, from: int)
    requires
        0 <= from < t.len(),
    ensures
        ({
            let p = word_right(t, from);
            let w = skip_word_right(t, from);
            &&& from <= w <= p <= t.len()
            &&& forall|k: int| from <= k < w ==> is_word(#[trigger] t[k])
            &&& forall|k: int| w <= k < p ==> !is_word(#[trigger] t[k])
            &&& p < t.len() ==> is_word(t[p])
        }),
{
    lemma_skip_right_bounds(t, from);
    lemma_skip_right_chars(t, from);
    lemma_skip_right_bounds(t, skip_word_right(t, from));
    lemma_skip_right_chars(t, skip_word_right(t, from));
}

/// Left and Right with a selection collapse it, Left to the selection's start
/// (the smaller of anchor and head) and Right to its end; without a selection they
/// move the cursor one character, stopping at the ends of the text. The text, the
/// history and the undo and redo entries stay as they were.
pub proof fn lemma_left_right(m: InputModel)
    ensures
        (m.selection matches Some(s) ==> {
            &&& m.move_left().cursor <= s.anchor
            &&& m.move_left().cursor <= s.head
            &&& (m.move_left().cursor == s.anchor || m.move_left().cursor == s.head)
            &&& m.move_right().cursor >= s.anchor
            &&& m.move_right().cursor >= s.head
            &&& (m.move_right().cursor == s.anchor || m.move_right().cursor == s.head)
            &&& m.move_left().selection is None
            &&& m.move_right().selection is None
        }),
        m.selection is None ==> m.move_left().cursor == (if m.cursor > 0 {
            m.cursor - 1
        } else {
            0
        }) && m.move_left().selection is None,
        m.selection is None ==> m.move_right().cursor == (if m.cursor < m.text.len() {
            m.cursor + 1
        } else {
            m.cursor
        }) && m.move_right().selection is None,
        m.move_left().text == m.text && m.move_right().text == m.text,
        m.move_left().undo == m.undo && m.move_right().undo == m.undo,
        m.move_left().redo == m.redo && m.move_right().redo == m.redo,
        m.move_left().history == m.history && m.move_right().history == m.history,
{
}

/// Redo right after undo brings the whole state back, except that ghost text is dropped.
pub proof fn lemma_redo_after_undo(m: InputModel)
    requires
        m.undo.len() > 0,
    ensures
        m.undo_step().redo_step() == (InputModel { suggestion: None, ..m }),
{
    let r = m.undo_step().redo_step();
    assert(r.undo =~= m.undo);
    assert(r.redo =~= m.redo);
}

/// Undo right after redo brings the whole state back, except that ghost text is dropped.
pub proof fn lemma_undo_after_redo(m: InputModel)
    requires
        m.redo.len() > 0,
    ensures
        m.redo_step().undo_step() == (InputModel { suggestion: None, ..m }),
{
    let r = m.redo_step().undo_step();
    assert(r.undo =~= m.undo);
    assert(r.redo =~= m.redo);
}

/// Stepping back into the history and forward again brings back the text that was
/// being composed.
pub proof fn lemma_history_round_trip(m: InputModel)
    requires
        m.wf(),
        m.history.len() > 0,
        m.history_index is None,
    ensures
        m.history_prev().history_next().text == m.text,
        m.history_prev().history_next().history_index is None,
{
}

/// Accepting ghost text word by word never loses any of it: the text followed by the
/// remaining ghost text is unchanged.
pub proof fn lemma_ghost_word_preserves_suggestion(m: InputModel)
    requires
        m.wf(),
        m.takes_ghost_word(),
    ensures
        m.move_word_right().text + (match m.move_word_right().suggestion {
            Some(g) => g,
            None => Seq::empty(),
        }) == m.text + m.suggestion->0,
        m.move_word_right().text.len() > m.text.len() || m.suggestion->0.len() == 0,
{
    let g = m.suggestion->0;
    lemma_ghost_word_len(g);
    let k = ghost_word_len(g);
    assert(g.subrange(0, k) + g.subrange(k, g.len() as int) =~= g);
    assert(m.text + g.subrange(0, k) + g.subrange(k, g.len() as int) =~= m.text + g);
    if k == g.len() {
        assert(m.text + g.subrange(0, k) + Seq::empty() =~= m.text + g.subrange(0, k));
    }
}

/// A submitted line is recorded in the history unless it is blank.
pub proof fn lemma_submit_records_history(m: InputModel)
    ensures
        !all_ws(m.text) ==> m.submit().history == m.history.push(m.text),
        all_ws(m.text) ==> m.submit().history == m.history,
        m.submit().text.len() == 0,
{
}

// ── Executable word scanning ───────────────────────────────────────────

fn is_word_char(c: char) -> (r: bool)
    ensures
        r == is_word(c),
{
    char_is_alphanumeric(c) || c == '_' || c == '-'
}

fn find_word_boundary_left(chars: &Vec<char>, from: usize) -> (r: usize)
    requires
        from <= chars@.len(),
    ensures
        r == word_left(chars@, from as int),
{
    if from == 0 {
        return 0;
    }
    let ghost t = chars@;
    let mut pos = from - 1;
    while pos > 0 && !is_word_char(chars[pos])
        invariant
            t == chars@,
            pos < t.len(),
            skip_nonword_left(t, pos as int) == skip_nonword_left(t, from - 1),
        decreases pos,
    {
        pos -= 1;
    }
    let ghost p1 = pos;
    while pos > 0 && is_word_char(chars[pos - 1])
        invariant
            t == chars@,
            pos < t.len(),
            skip_word_left(t, pos as int) == skip_word_left(t, p1 as int),
        decreases pos,
    {
        pos -= 1;
    }
    if !is_word_char(chars[pos]) && pos < from - 1 {
        pos + 1
    } else {
        pos
    }
}

fn find_word_boundary_right(chars: &Vec<char>, from: usize) -> (r: usize)
    ensures
        r == word_right(chars@, from as int),
{
    let len = chars.len();
    if from >= len {
        return len;
    }
    let ghost t = chars@;
    let mut pos = from;
    while pos < len && is_word_char(chars[pos])
        invariant
            t == chars@,
            len == t.len(),
            from <= pos <= len,
            skip_word_right(t, pos as int) == skip_word_right(t, from as int),
        decreases len - pos,
    {
        pos += 1;
    }
    let ghost p1 = pos;
    while pos < len && !is_word_char(chars[pos])
        invariant
            t == chars@,
            len == t.len(),
            p1 <= pos <= len,
            skip_nonword_right(t, pos as int) == skip_nonword_right(t, p1 as int),
        decreases len - pos,
    {
        pos += 1;
    }
    pos
}

fn find_word_start_at(chars: &Vec<char>, at: usize) -> (r: usize)
    ensures
        r == word_start_at(chars@, at as int),
{
    if at >= chars.len() {
        return at;
    }
    let ghost t = chars@;
    let mut start = at;
    while start > 0 && is_word_char(chars[start - 1])
        invariant
            t == chars@,
            start <= at < t.len(),
            skip_word_left(t, start as int) == skip_word_left(t, at as int),
        decreases start,
    {
        start -= 1;
    }
    start
}

fn find_word_end_at(chars: &Vec<char>, at: usize) -> (r: usize)
    ensures
        r == word_end_at(chars@, at as int),
{
    let len = chars.len();
    if at >= len {
        return len;
    }
    let ghost t = chars@;
    let mut end = at;
    while end < len && is_word_char(chars[end])
        invariant
            t == chars@,
            len == t.len(),
            at <= end <= len,
            skip_word_right(t, end as int) == skip_word_right(t, at as int),
        decreases len - end,
    {
        end += 1;
    }
    end
}

// ── Executable string surgery ──────────────────────────────────────────

/// `t` with `[a, b)` replaced by `ins`.
fn splice_string(t: &String, a: usize, b: usize, ins: &str) -> (r: String)
    requires
        a <= b <= t@.len(),
    ensures
        r@ == splice(t@, a as int, b as int, ins@),
{
    let len = t.as_str().unicode_len();
    let mut r = String::from_str(t.as_str().substring_char(0, a));
    r.append(ins);
    r.append(t.as_str().substring_char(b, len));
    r
}

/// `t` with `c` inserted at `a`.
fn insert_char_string(t: &String, a: usize, c: char) -> (r: String)
    requires
        a <= t@.len(),
    ensures
        r@ == splice(t@, a as int, a as int, seq![c]),
{
    let len = t.as_str().unicode_len();
    let mut r = String::from_str(t.as_str().substring_char(0, a));
    push_char(&mut r, c);
    r.append(t.as_str().substring_char(a, len));
    r
}

/// A string made of `v[a..b]`.
fn string_from_range(v: &Vec<char>, a: usize, b: usize) -> (s: String)
    requires
        a <= b <= v@.len(),
    ensures
        s@ == v@.subrange(a as int, b as int),
{
    let mut s = String::new();
    let mut i = a;
    while i < b
        invariant
            a <= i <= b <= v@.len(),
            s@ == v@.subrange(a as int, i as int),
        decreases b - i,
    {
        push_char(&mut s, v[i]);
        i += 1;
        assert(s@ =~= v@.subrange(a as int, i as int));
    }
    s
}

impl UndoEntry {
    spec fn view(&self) -> Snapshot {
        Snapshot { text: self.text@, cursor: self.cursor as nat, selection: self.selection }
    }
}

spec fn snaps(v: Seq<UndoEntry>) -> Seq<Snapshot> {
    v.map_values(|e: UndoEntry| e.view())
}

/// A fully-editable input buffer for the terminal input line.
///
/// Supports cursor movement, selection, undo/redo, clipboard operations,
/// command history, and ghost-text (AI autocomplete suggestions).
#[derive(Debug, Clone)]
pub struct InputBuffer {
    text: String,
    cursor: usize,
    selection: Option<Selection>,
    history: Vec<String>,
    history_index: Option<usize>,
    /// Text being composed before history navigation.
    draft: String,
    undo_stack: Vec<UndoEntry>,
    redo_stack: Vec<UndoEntry>,
    /// Ghost text shown as dimmed suggestion (not part of `text`).
    pub ghost_text: Option<String>,
}

impl View for InputBuffer {
    type V = InputModel;

    closed spec fn view(&self) -> InputModel {
        InputModel {
            text: self.text@,
            cursor: self.cursor as nat,
            selection: self.selection,
            history: self.history@.map_values(|s: String| s@),
            history_index: match self.history_index {
                Some(i) => Some(i as nat),
                None => None,
            },
            draft: self.draft@,
            undo: snaps(self.undo_stack@),
            redo: snaps(self.redo_stack@),
            suggestion: match self.ghost_text {
                Some(g) => Some(g@),
                None => None,
            },
        }
    }
}

impl InputBuffer {
    pub open spec fn wf(&self) -> bool {
        self@.wf()
    }

    pub fn new() -> (r: Self)
        ensures
            r.wf(),
            r@.text.len() == 0,
            r@.cursor == 0,
            r@.selection is None,
            r@.history.len() == 0,
            r@.history_index is None,
            r@.draft.len() == 0,
            r@.undo.len() == 0,
            r@.redo.len() == 0,
            r@.suggestion is None,
    {
        let r = InputBuffer {
            text: String::new(),
            cursor: 0,
            selection: None,
            history: Vec::new(),
            history_index: None,
            draft: String::new(),
            undo_stack: Vec::new(),
            redo_stack: Vec::new(),
            ghost_text: None,
        };
        assert(r@.history =~= Seq::empty());
        assert(r@.undo =~= Seq::empty());
        assert(r@.redo =~= Seq::empty());
        r
    }

    // ── Accessors ──────────────────────────────────────────────────────
    pub fn text(&self) -> (r: &str)
        ensures
            r@ == self@.text,
    {
        self.text.as_str()
    }

    /// Cursor position as a char offset.
    pub fn cursor(&self) -> (r: usize)
        ensures
            r == self@.cursor,
    {
        self.cursor
    }

    pub fn selection(&self) -> (r: Option<Selection>)
        ensures
            r == self@.selection,
    {
        self.selection
    }

    /// Get the selected text range (start, end) in sorted order.
    pub fn selection_range(&self) -> (r: Option<(usize, usize)>)
        ensures
            r == sel_range(self@.selection),
    {
        match self.selection {
            Some(s) => {
                let start = if s.anchor <= s.head {
                    s.anchor
                } else {
                    s.head
                };
                let end = if s.anchor <= s.head {
                    s.head
                } else {
                    s.anchor
                };
                Some((start, end))
            },
            None => None,
        }
    }

    /// Get the selected text.
    pub fn selected_text(&self) -> (r: Option<&str>)
        requires
            self.wf(),
        ensures
            r is Some <==> self@.selected() is Some,
            r matches Some(t) ==> t@ == self@.selected()->0,
    {
        match self.selection_range() {
            Some((start, end)) => Some(self.text.as_str().substring_char(start, end)),
            None => None,
        }
    }

    pub fn is_empty(&self) -> (r: bool)
        ensures
            r == (self@.text.len() == 0),
    {
        self.text.as_str().is_empty()
    }

    pub fn char_count(&self) -> (r: usize)
        ensures
            r == self@.text.len(),
    {
        self.text.as_str().unicode_len()
    }

    // ── Private helpers ────────────────────────────────────────────────
    fn entry(&self) -> (e: UndoEntry)
        ensures
            e.view() == self@.snap(),
    {
        UndoEntry { text: self.text.clone(), cursor: self.cursor, selection: self.selection }
    }

    fn save_undo(&mut self)
        requires
            old(self).wf(),
        ensures
            final(self)@ == old(self)@.saved(),
            final(self).ghost_text == old(self).ghost_text,
    {
        let ghost m = self@;
        let e = self.entry();
        self.undo_stack.push(e);
        self.redo_stack.clear();
        assert(snaps(self.undo_stack@) =~= m.undo.push(m.snap()));
        if self.undo_stack.len() > UNDO_LIMIT {
            self.undo_stack.remove(0);
            assert(snaps(self.undo_stack@) =~= m.undo.push(m.snap()).drop_first());
        }
        assert(snaps(self.redo_stack@) =~= Seq::empty());
        assert(self@ =~= m.saved());
    }

    fn delete_selection_inner(&mut self) -> (r: bool)
        requires
            old(self).wf(),
        ensures
            final(self)@ == old(self)@.delete_selection(),
            r == old(self)@.selection is Some,
    {
        if let Some((start, end)) = self.selection_range() {
            self.text = splice_string(&self.text, start, end, "");
            proof {
                reveal_strlit("");
            }
            self.cursor = start;
            self.selection = None;
            true
        } else {
            false
        }
    }

    fn clear_ghost(&mut self)
        ensures
            final(self)@ == (InputModel { suggestion: None, ..old(self)@ }),
    {
        self.ghost_text = None;
    }

    fn chars(&self) -> (v: Vec<char>)
        ensures
            v@ == self@.text,
    {
        chars_of(self.text.as_str())
    }

    /// Removes `[a, b)`, leaving the cursor at `a` and dropping the ghost text.
    fn remove_range(&mut self, a: usize, b: usize)
        requires
            a <= b <= old(self)@.text.len(),
        ensures
            final(self)@ == old(self)@.remove_range(a as int, b as int),
    {
        self.text = splice_string(&self.text, a, b, "");
        proof {
            reveal_strlit("");
        }
        self.cursor = a;
        self.ghost_text = None;
    }

    // ── Editing ────────────────────────────────────────────────────────
    /// Insert a single character at the cursor position.
    pub fn insert_char(&mut self, ch: char) -> (r: InputAction)
        requires
            old(self).wf(),
            old(self)@.text.len() < usize::MAX,
        ensures
            final(self).wf(),
            final(self)@ == apply_edit(old(self)@, Edit::InsertChar(ch)),
            r == InputAction::Changed,
    {
        proof {
            lemma_edit_wf(self@, Edit::InsertChar(ch));
            lemma_saved_wf(self@);
            lemma_delete_selection_wf(self@.saved());
        }
        self.save_undo();
        self.delete_selection_inner();
        let c = self.cursor;
        self.text = insert_char_string(&self.text, c, ch);
        self.cursor = c + 1;
        self.selection = None;
        self.clear_ghost();
        self.history_index = None;
        InputAction::Changed
    }

    /// Insert a string at the cursor position (paste, AI suggestion).
    pub fn insert_text(&mut self, s: &str) -> (r: InputAction)
        requires
            old(self).wf(),
            old(self)@.text.len() + s@.len() <= usize::MAX,
        ensures
            final(self).wf(),
            final(self)@ == apply_edit(old(self)@, Edit::InsertText(s@)),
            r == (if s@.len() == 0 {
                InputAction::Unchanged
            } else {
                InputAction::Changed
            }),
    {
        proof {
            lemma_edit_wf(self@, Edit::InsertText(s@));
            lemma_saved_wf(self@);
            lemma_delete_selection_wf(self@.saved());
        }
        if s.is_empty() {
            return InputAction::Unchanged;
        }
        self.save_undo();
        self.delete_selection_inner();
        let c = self.cursor;
        self.text = splice_string(&self.text, c, c, s);
        self.cursor = c + s.unicode_len();
        self.selection = None;
        self.clear_ghost();
        self.history_index = None;
        InputAction::Changed
    }

    /// Replace the entire input buffer with new text, cursor at end.
    pub fn set_text(&mut self, s: &str)
        requires
            old(self).wf(),
        ensures
            final(self).wf(),
            final(self)@ == apply_edit(old(self)@, Edit::SetText(s@)),
    {
        proof {
            lemma_edit_wf(self@, Edit::SetText(s@));
        }
        self.save_undo();
        self.text = String::from_str(s);
        self.cursor = s.unicode_len();
        self.selection = None;
        self.clear_ghost();
        self.history_index = None;
    }

    /// Delete character before cursor (Backspace).
    pub fn delete_back(&mut self) -> (r: InputAction)
        requires
            old(self).wf(),
        ensures
            final(self).wf(),
            final(self)@ == apply_edit(old(self)@, Edit::DeleteBack),
            r == (if old(self)@.selection is None && old(self)@.cursor == 0 {
                InputAction::Unchanged
            } else {
                InputAction::Changed
            }),
    {
        proof {
            lemma_edit_wf(self@, Edit::DeleteBack);
            lemma_saved_wf(self@);
        }
        if self.selection.is_some() {
            self.save_undo();
            self.delete_selection_inner();
            self.clear_ghost();
            return InputAction::Changed;
        }
        if self.cursor == 0 {
            return InputAction::Unchanged;
        }
        self.save_undo();
        let c = self.cursor - 1;
        self.remove_range(c, c + 1);
        InputAction::Changed
    }

    /// Delete character after cursor (Delete key).
    pub fn delete_forward(&mut self) -> (r: InputAction)
        requires
            old(self).wf(),
        ensures
            final(self).wf(),
            final(self)@ == apply_edit(old(self)@, Edit::DeleteForward),
            r == (if old(self)@.selection is None && old(self)@.cursor >= old(self)@.text.len() {
                InputAction::Unchanged
            } else {
                InputAction::Changed
            }),
    {
        proof {
            lemma_edit_wf(self@, Edit::DeleteForward);
            lemma_saved_wf(self@);
        }
        if self.selection.is_some() {
            self.save_undo();
            self.delete_selection_inner();
            self.clear_ghost();
            return InputAction::Changed;
        }
        if self.cursor >= self.char_count() {
            return InputAction::Unchanged;
        }
        self.save_undo();
        let c = self.cursor;
        self.remove_range(c, c + 1);
        self.cursor = c;
        InputAction::Changed
    }

    /// Delete word before cursor (Ctrl+Backspace).
    pub fn delete_word_back(&mut self) -> (r: InputAction)
        requires
            old(self).wf(),
        ensures
            final(self).wf(),
            final(self)@ == apply_edit(old(self)@, Edit::DeleteWordBack),
            r == (if old(self)@.selection is None && old(self)@.cursor == 0 {
                InputAction::Unchanged
            } else {
                InputAction::Changed
            }),
    {
        proof {
            lemma_edit_wf(self@, Edit::DeleteWordBack);
            lemma_saved_wf(self@);
            lemma_word_bounds(self@.text, self@.cursor as int);
        }
        if self.selection.is_some() {
            self.save_undo();
            self.delete_selection_inner();
            self.clear_ghost();
            return InputAction::Changed;
        }
        let chars = self.chars();
        let target = find_word_boundary_left(&chars, self.cursor);
        if target == self.cursor {
            return InputAction::Unchanged;
        }
        self.save_undo();
        let c = self.cursor;
        self.remove_range(target, c);
        InputAction::Changed
    }

    /// Delete word after cursor (Ctrl+Delete).
    pub fn delete_word_forward(&mut self) -> (r: InputAction)
        requires
            old(self).wf(),
        ensures
            final(self).wf(),
            final(self)@ == apply_edit(old(self)@, Edit::DeleteWordForward),
            r == (if old(self)@.selection is None && word_right(
                old(self)@.text,
                old(self)@.cursor as int,
            ) == old(self)@.cursor {
                InputAction::Unchanged
            } else {
                InputAction::Changed
            }),
    {
        proof {
            lemma_edit_wf(self@, Edit::DeleteWordForward);
            lemma_saved_wf(self@);
            lemma_word_bounds(self@.text, self@.cursor as int);
        }
        if self.selection.is_some() {
            self.save_undo();
            self.delete_selection_inner();
            self.clear_ghost();
            return InputAction::Changed;
        }
        let chars = self.chars();
        let target = find_word_boundary_right(&chars, self.cursor);
        if target == self.cursor {
            return InputAction::Unchanged;
        }
        self.save_undo();
        let c = self.cursor;
        self.remove_range(c, target);
        self.cursor = c;
        InputAction::Changed
    }

    // ── Cursor movement ────────────────────────────────────────────────
    /// Move cursor left one character.
    pub fn move_left(&mut self) -> (r: InputAction)
        requires
            old(self).wf(),
        ensures
            final(self).wf(),
            final(self)@ == old(self)@.move_left(),
            r == (if old(self)@.selection is None && old(self)@.cursor == 0 {
                InputAction::Unchanged
            } else {
                InputAction::Changed
            }),
    {
        if let Some((start, _)) = self.selection_range() {
            self.cursor = start;
            self.selection = None;
            return InputAction::Changed;
        }
        if self.cursor > 0 {
            self.cursor -= 1;
            InputAction::Changed
        } else {
            InputAction::Unchanged
        }
    }

    /// Move cursor right one character.
    pub fn move_right(&mut self) -> (r: InputAction)
        requires
            old(self).wf(),
        ensures
            final(self).wf(),
            final(self)@ == old(self)@.move_right(),
            r == (if old(self)@.selection is None && old(self)@.cursor >= old(self)@.text.len() {
                InputAction::Unchanged
            } else {
                InputAction::Changed
            }),
    {
        if let Some((_, end)) = self.selection_range() {
            self.cursor = end;
            self.selection = None;
            return InputAction::Changed;
        }
        if self.cursor < self.char_count() {
            self.cursor += 1;
            InputAction::Changed
        } else {
            InputAction::Unchanged
        }
    }

    /// Move cursor left one word (Ctrl+Left).
    pub fn move_word_left(&mut self) -> (r: InputAction)
        requires
            old(self).wf(),
        ensures
            final(self).wf(),
            final(self)@ == old(self)@.move_word_left(),
            r == (if old(self)@.cursor == 0 {
                InputAction::Unchanged
            } else {
                InputAction::Changed
            }),
    {
        proof {
            lemma_word_bounds(self@.text, self@.cursor as int);
        }
        self.selection = None;
        let chars = self.chars();
        let target = find_word_boundary_left(&chars, self.cursor);
        if target != self.cursor {
            self.cursor = target;
            InputAction::Changed
        } else {
            InputAction::Unchanged
        }
    }

    /// Move cursor right one word (Ctrl+Right).
    /// If ghost text is present and cursor is at end, accepts one word of ghost text.
    pub fn move_word_right(&mut self) -> (r: InputAction)
        requires
            old(self).wf(),
            old(self)@.suggestion matches Some(g) ==> old(self)@.text.len() + g.len() <= usize::MAX,
        ensures
            final(self).wf(),
            final(self)@ == old(self)@.move_word_right(),
            r == (if !old(self)@.takes_ghost_word() && word_right(
                old(self)@.text,
                old(self)@.cursor as int,
            ) == old(self)@.cursor {
                InputAction::Unchanged
            } else {
                InputAction::Changed
            }),
    {
        proof {
            lemma_word_bounds(self@.text, self@.cursor as int);
        }
        self.selection = None;
        if self.cursor >= self.char_count() && self.ghost_text.is_some() {
            let ghost_text = self.ghost_text.take();
            let gtext = ghost_text.unwrap();
            let chars = chars_of(gtext.as_str());
            proof {
                lemma_ghost_word_len(chars@);
                lemma_skip_right_bounds(chars@, 0);
            }
            let len = chars.len();
            let mut end: usize = 0;
            while end < len && is_word_char(chars[end])
                invariant
                    len == chars@.len(),
                    end <= len,
                    skip_word_right(chars@, end as int) == skip_word_right(chars@, 0),
                decreases len - end,
            {
                end += 1;
            }
            let ghost e1 = end;
            proof {
                lemma_skip_right_bounds(chars@, e1 as int);
            }
            while end < len && chars[end] == ' '
                invariant
                    len == chars@.len(),
                    e1 <= end <= len,
                    skip_spaces(chars@, end as int) == skip_spaces(chars@, e1 as int),
                decreases len - end,
            {
                end += 1;
            }
            if end == 0 {
                end = if len >= 1 {
                    1
                } else {
                    0
                };
            }
            let accepted = string_from_range(&chars, 0, end);
            let remaining = string_from_range(&chars, end, len);
            self.text.append(accepted.as_str());
            self.cursor = self.cursor + end;
            if end < len {
                self.ghost_text = Some(remaining);
            }
            return InputAction::Changed;
        }
        let chars = self.chars();
        let target = find_word_boundary_right(&chars, self.cursor);
        if target != self.cursor {
            self.cursor = target;
            InputAction::Changed
        } else {
            InputAction::Unchanged
        }
    }

    /// Move cursor to beginning of input (Home).
    pub fn move_home(&mut self) -> (r: InputAction)
        requires
            old(self).wf(),
        ensures
            final(self).wf(),
            final(self)@ == old(self)@.move_to(0),
            r == (if old(self)@.cursor == 0 {
                InputAction::Unchanged
            } else {
                InputAction::Changed
            }),
    {
        self.selection = None;
        if self.cursor != 0 {
            self.cursor = 0;
            InputAction::Changed
        } else {
            InputAction::Unchanged
        }
    }

    /// Move cursor to end of input (End).
    pub fn move_end(&mut self) -> (r: InputAction)
        requires
            old(self).wf(),
        ensures
            final(self).wf(),
            final(self)@ == old(self)@.move_to(old(self)@.text.len()),
            r == (if old(self)@.cursor == old(self)@.text.len() {
                InputAction::Unchanged
            } else {
                InputAction::Changed
            }),
    {
        self.selection = None;
        let end = self.char_count();
        if self.cursor != end {
            self.cursor = end;
            InputAction::Changed
        } else {
            InputAction::Unchanged
        }
    }

    // ── Selection ──────────────────────────────────────────────────────
    fn extend_selection(&mut self, new_head: usize)
        requires
            old(self).wf(),
            new_head <= old(self)@.text.len(),
        ensures
            final(self).wf(),
            final(self)@ == old(self)@.extend_selection(new_head as nat),
    {
        match self.selection {
            Some(sel) => {
                self.selection = Some(Selection { anchor: sel.anchor, head: new_head });
            },
            None => {
                self.selection = Some(Selection { anchor: self.cursor, head: new_head });
            },
        }
        self.cursor = new_head;
    }

    /// Extend selection one char left (Shift+Left).
    pub fn select_left(&mut self) -> (r: InputAction)
        requires
            old(self).wf(),
        ensures
            final(self).wf(),
            old(self)@.cursor > 0 ==> final(self)@ == old(self)@.extend_selection(
                (old(self)@.cursor - 1) as nat,
            ) && r == InputAction::Changed,
            old(self)@.cursor == 0 ==> final(self)@ == old(self)@ && r == InputAction::Unchanged,
    {
        if self.cursor > 0 {
            let new_head = self.cursor - 1;
            self.extend_selection(new_head);
            InputAction::Changed
        } else {
            InputAction::Unchanged
        }
    }

    /// Extend selection one char right (Shift+Right).
    pub fn select_right(&mut self) -> (r: InputAction)
        requires
            old(self).wf(),
        ensures
            final(self).wf(),
            old(self)@.cursor < old(self)@.text.len() ==> final(self)@
                == old(self)@.extend_selection(old(self)@.cursor + 1) && r == InputAction::Changed,
            old(self)@.cursor >= old(self)@.text.len() ==> final(self)@ == old(self)@ && r
                == InputAction::Unchanged,
    {
        if self.cursor < self.char_count() {
            let new_head = self.cursor + 1;
            self.extend_selection(new_head);
            InputAction::Changed
        } else {
            InputAction::Unchanged
        }
    }

    /// Extend selection one word left (Ctrl+Shift+Left).
    pub fn select_word_left(&mut self) -> (r: InputAction)
        requires
            old(self).wf(),
        ensures
            final(self).wf(),
            ({
                let t = word_left(old(self)@.text, old(self)@.cursor as int);
                &&& t != old(self)@.cursor ==> final(self)@ == old(self)@.extend_selection(
                    t as nat,
                ) && r == InputAction::Changed
                &&& t == old(self)@.cursor ==> final(self)@ == old(self)@ && r
                    == InputAction::Unchanged
            }),
    {
        proof {
            lemma_word_bounds(self@.text, self@.cursor as int);
        }
        let chars = self.chars();
        let target = find_word_boundary_left(&chars, self.cursor);
        if target != self.cursor {
            self.extend_selection(target);
            InputAction::Changed
        } else {
            InputAction::Unchanged
        }
    }

    /// Extend selection one word right (Ctrl+Shift+Right).
    pub fn select_word_right(&mut self) -> (r: InputAction)
        requires
            old(self).wf(),
        ensures
            final(self).wf(),
            ({
                let t = word_right(old(self)@.text, old(self)@.cursor as int);
                &&& t != old(self)@.cursor ==> final(self)@ == old(self)@.extend_selection(
                    t as nat,
                ) && r == InputAction::Changed
                &&& t == old(self)@.cursor ==> final(self)@ == old(self)@ && r
                    == InputAction::Unchanged
            }),
    {
        proof {
            lemma_word_bounds(self@.text, self@.cursor as int);
        }
        let chars = self.chars();
        let target = find_word_boundary_right(&chars, self.cursor);
        if target != self.cursor {
            self.extend_selection(target);
            InputAction::Changed
        } else {
            InputAction::Unchanged
        }
    }

    /// Extend selection to beginning (Shift+Home).
    pub fn select_home(&mut self) -> (r: InputAction)
        requires
            old(self).wf(),
        ensures
            final(self).wf(),
            old(self)@.cursor > 0 ==> final(self)@ == old(self)@.extend_selection(0) && r
                == InputAction::Changed,
            old(self)@.cursor == 0 ==> final(self)@ == old(self)@ && r == InputAction::Unchanged,
    {
        if self.cursor > 0 {
            self.extend_selection(0);
            InputAction::Changed
        } else {
            InputAction::Unchanged
        }
    }

    /// Extend selection to end (Shift+End).
    pub fn select_end(&mut self) -> (r: InputAction)
        requires
            old(self).wf(),
        ensures
            final(self).wf(),
            old(self)@.cursor < old(self)@.text.len() ==> final(self)@
                == old(self)@.extend_selection(old(self)@.text.len()) && r == InputAction::Changed,
            old(self)@.cursor >= old(self)@.text.len() ==> final(self)@ == old(self)@ && r
                == InputAction::Unchanged,
    {
        let end = self.char_count();
        if self.cursor < end {
            self.extend_selection(end);
            InputAction::Changed
        } else {
            InputAction::Unchanged
        }
    }

    /// Select all input text (Ctrl+A).
    pub fn select_all(&mut self) -> (r: InputAction)
        requires
            old(self).wf(),
        ensures
            final(self).wf(),
            final(self)@ == old(self)@.select_all(),
            r == (if old(self)@.text.len() == 0 {
                InputAction::Unchanged
            } else {
                InputAction::Changed
            }),
    {
        let len = self.char_count();
        if len == 0 {
            return InputAction::Unchanged;
        }
        self.selection = Some(Selection { anchor: 0, head: len });
        self.cursor = len;
        InputAction::Changed
    }

    /// Set cursor at a specific column (mouse click).
    pub fn set_cursor_at(&mut self, col: usize) -> (r: InputAction)
        requires
            old(self).wf(),
        ensures
            final(self).wf(),
            final(self)@ == old(self)@.move_to(
                if col <= old(self)@.text.len() {
                    col as nat
                } else {
                    old(self)@.text.len()
                },
            ),
            r == InputAction::Changed,
    {
        let len = self.char_count();
        let target = if col <= len {
            col
        } else {
            len
        };
        self.cursor = target;
        self.selection = None;
        InputAction::Changed
    }

    /// Extend selection to a column (mouse drag).
    pub fn select_to(&mut self, col: usize) -> (r: InputAction)
        requires
            old(self).wf(),
        ensures
            final(self).wf(),
            final(self)@ == old(self)@.extend_selection(
                if col <= old(self)@.text.len() {
                    col as nat
                } else {
                    old(self)@.text.len()
                },
            ),
            r == InputAction::Changed,
    {
        let len = self.char_count();
        let target = if col <= len {
            col
        } else {
            len
        };
        self.extend_selection(target);
        InputAction::Changed
    }

    /// Select the word at a column (double-click).
    pub fn select_word_at(&mut self, col: usize) -> (r: InputAction)
        requires
            old(self).wf(),
        ensures
            final(self).wf(),
            final(self)@ == old(self)@.select_word_at(col as nat),
            r == (if old(self)@.selects_word(col as nat) {
                InputAction::Changed
            } else {
                InputAction::Unchanged
            }),
    {
        let len = self.char_count();
        let last = if len >= 1 {
            len - 1
        } else {
            0
        };
        let at = if col < last {
            col
        } else {
            last
        };
        let chars = self.chars();
        proof {
            if at < len {
                lemma_word_bounds(self@.text, at as int);
            }
        }
        let start = find_word_start_at(&chars, at);
        let end = find_word_end_at(&chars, at);
        if start < end {
            self.selection = Some(Selection { anchor: start, head: end });
            self.cursor = end;
            InputAction::Changed
        } else {
            InputAction::Unchanged
        }
    }

    /// Select entire input (triple-click).
    pub fn select_all_by_click(&mut self) -> (r: InputAction)
        requires
            old(self).wf(),
        ensures
            final(self).wf(),
            final(self)@ == old(self)@.select_all(),
            r == (if old(self)@.text.len() == 0 {
                InputAction::Unchanged
            } else {
                InputAction::Changed
            }),
    {
        self.select_all()
    }

    // ── Clipboard ──────────────────────────────────────────────────────
    /// Copy selected text. If no selection and input is empty, send SIGINT.
    pub fn copy(&self) -> (r: InputAction)
        requires
            self.wf(),
        ensures
            self@.selected() matches Some(t) ==> (r matches InputAction::Copy(s) && s@ == t),
            self@.selected() is None && self@.text.len() == 0 ==> r == InputAction::Interrupt,
            self@.selected() is None && self@.text.len() > 0 ==> r == InputAction::Unchanged,
    {
        if let Some(text) = self.selected_text() {
            InputAction::Copy(String::from_str(text))
        } else if self.text.as_str().is_empty() {
            InputAction::Interrupt
        } else {
            InputAction::Unchanged
        }
    }

    /// Cut selected text.
    pub fn cut(&mut self) -> (r: InputAction)
        requires
            old(self).wf(),
        ensures
            final(self).wf(),
            final(self)@ == apply_edit(old(self)@, Edit::Cut),
            old(self)@.selected() matches Some(t) ==> (r matches InputAction::Cut(s) && s@ == t),
            old(self)@.selected() is None ==> r == InputAction::Unchanged,
    {
        proof {
            lemma_edit_wf(self@, Edit::Cut);
            lemma_saved_wf(self@);
        }
        let selected = match self.selected_text() {
            Some(s) => Some(String::from_str(s)),
            None => None,
        };
        if let Some(text) = selected {
            self.save_undo();
            self.delete_selection_inner();
            self.clear_ghost();
            InputAction::Cut(text)
        } else {
            InputAction::Unchanged
        }
    }

    /// Paste text from clipboard.
    pub fn paste(&mut self, text: &str) -> (r: InputAction)
        requires
            old(self).wf(),
            old(self)@.text.len() + text@.len() <= usize::MAX,
        ensures
            final(self).wf(),
            final(self)@ == apply_edit(old(self)@, Edit::InsertText(text@)),
            r == (if text@.len() == 0 {
                InputAction::Unchanged
            } else {
                InputAction::Changed
            }),
    {
        self.insert_text(text)
    }

    // ── Undo / Redo ────────────────────────────────────────────────────
    /// Undo the last edit operation (Ctrl+Z).
    pub fn undo(&mut self) -> (r: InputAction)
        requires
            old(self).wf(),
        ensures
            final(self).wf(),
            final(self)@ == old(self)@.undo_step(),
            r == (if old(self)@.undo.len() > 0 {
                InputAction::Changed
            } else {
                InputAction::Unchanged
            }),
    {
        let ghost m = self@;
        let cur = self.entry();
        if let Some(entry) = self.undo_stack.pop() {
            self.redo_stack.push(cur);
            assert(snaps(self.redo_stack@) =~= m.redo.push(m.snap()));
            assert(snaps(self.undo_stack@) =~= m.undo.drop_last());
            assert(entry.view() == m.undo.last());
            self.text = entry.text;
            self.cursor = entry.cursor;
            self.selection = entry.selection;
            self.clear_ghost();
            proof {
                assert(self@ =~= m.undo_step());
                assert forall|i: int| 0 <= i < self@.redo.len() implies snap_ok(
                    #[trigger] self@.redo[i],
                ) by {
                    if i < m.redo.len() {
                        assert(self@.redo[i] == m.redo[i]);
                    }
                }
                assert forall|i: int| 0 <= i < self@.undo.len() implies snap_ok(
                    #[trigger] self@.undo[i],
                ) by {
                    assert(self@.undo[i] == m.undo[i]);
                }
                assert(snap_ok(m.undo[m.undo.len() - 1]));
            }
            InputAction::Changed
        } else {
            InputAction::Unchanged
        }
    }

    /// Redo the last undone operation (Ctrl+Y / Ctrl+Shift+Z).
    pub fn redo(&mut self) -> (r: InputAction)
        requires
            old(self).wf(),
        ensures
            final(self).wf(),
            final(self)@ == old(self)@.redo_step(),
            r == (if old(self)@.redo.len() > 0 {
                InputAction::Changed
            } else {
                InputAction::Unchanged
            }),
    {
        let ghost m = self@;
        let cur = self.entry();
        if let Some(entry) = self.redo_stack.pop() {
            self.undo_stack.push(cur);
            assert(snaps(self.undo_stack@) =~= m.undo.push(m.snap()));
            assert(snaps(self.redo_stack@) =~= m.redo.drop_last());
            assert(entry.view() == m.redo.last());
            self.text = entry.text;
            self.cursor = entry.cursor;
            self.selection = entry.selection;
            self.clear_ghost();
            proof {
                assert(self@ =~= m.redo_step());
                assert forall|i: int| 0 <= i < self@.undo.len() implies snap_ok(
                    #[trigger] self@.undo[i],
                ) by {
                    if i < m.undo.len() {
                        assert(self@.undo[i] == m.undo[i]);
                    }
                }
                assert forall|i: int| 0 <= i < self@.redo.len() implies snap_ok(
                    #[trigger] self@.redo[i],
                ) by {
                    assert(self@.redo[i] == m.redo[i]);
                }
                assert(snap_ok(m.redo[m.redo.len() - 1]));
            }
            InputAction::Changed
        } else {
            InputAction::Unchanged
        }
    }

    // ── Submit / History ───────────────────────────────────────────────
    /// Submit the current input (Enter key). Returns the text to send to PTY.
    pub fn submit(&mut self) -> (r: InputAction)
        requires
            old(self).wf(),
        ensures
            final(self).wf(),
            final(self)@ == old(self)@.submit(),
            r matches InputAction::Submit(s) && s@ == old(self)@.text,
    {
        let ghost m = self@;
        let text = self.text.clone();
        let cs = chars_of(text.as_str());
        if !is_blank(cs.as_slice()) {
            self.history.push(text.clone());
            assert(self@.history =~= m.history.push(m.text));
        }
        self.text = String::new();
        self.cursor = 0;
        self.selection = None;
        self.history_index = None;
        self.ghost_text = None;
        self.undo_stack.clear();
        self.redo_stack.clear();
        assert(self@.undo =~= Seq::empty());
        assert(self@.redo =~= Seq::empty());
        assert(self@ =~= m.submit());
        InputAction::Submit(text)
    }

    /// Navigate to previous command in history (Up arrow).
    pub fn history_prev(&mut self) -> (r: InputAction)
        requires
            old(self).wf(),
        ensures
            final(self).wf(),
            final(self)@ == old(self)@.history_prev(),
            r == (if final(self)@ == old(self)@ && !(old(self)@.history.len() > 0
                && old(self)@.history_index is None) && !(old(self)@.history_index matches Some(
                i,
            ) && i > 0) {
                InputAction::Unchanged
            } else {
                InputAction::Changed
            }),
    {
        let ghost m = self@;
        if self.history.len() == 0 {
            return InputAction::Unchanged;
        }
        match self.history_index {
            None => {
                self.draft = self.text.clone();
                let idx = self.history.len() - 1;
                self.history_index = Some(idx);
                self.text = self.history[idx].clone();
            },
            Some(idx) => {
                if idx > 0 {
                    let new_idx = idx - 1;
                    self.history_index = Some(new_idx);
                    self.text = self.history[new_idx].clone();
                } else {
                    return InputAction::Unchanged;
                }
            },
        }
        self.cursor = self.char_count();
        self.selection = None;
        self.clear_ghost();
        assert(self@ =~= m.history_prev());
        InputAction::Changed
    }

    /// Navigate to next command in history (Down arrow).
    pub fn history_next(&mut self) -> (r: InputAction)
        requires
            old(self).wf(),
        ensures
            final(self).wf(),
            final(self)@ == old(self)@.history_next(),
            r == (if old(self)@.history_index is Some {
                InputAction::Changed
            } else {
                InputAction::Unchanged
            }),
    {
        let ghost m = self@;
        match self.history_index {
            Some(idx) => {
                if idx < self.history.len() - 1 {
                    let new_idx = idx + 1;
                    self.history_index = Some(new_idx);
                    self.text = self.history[new_idx].clone();
                } else {
                    self.history_index = None;
                    self.text = self.draft.clone();
                }
                self.cursor = self.char_count();
                self.selection = None;
                self.clear_ghost();
                assert(self@ =~= m.history_next());
                InputAction::Changed
            },
            None => InputAction::Unchanged,
        }
    }

    // ── Ghost text (AI autocomplete) ───────────────────────────────────
    /// Accept the full ghost text (Tab key).
    pub fn accept_ghost_text(&mut self) -> (r: InputAction)
        requires
            old(self).wf(),
            old(self)@.suggestion matches Some(g) ==> old(self)@.text.len() + g.len() <= usize::MAX,
        ensures
            final(self).wf(),
            final(self)@ == apply_edit(old(self)@, Edit::AcceptGhost),
            old(self)@.suggestion is Some ==> r == InputAction::Changed,
            old(self)@.suggestion is None ==> (r matches InputAction::SendToPty(b) && b@ == seq![
                9u8,
            ]),
    {
        proof {
            lemma_edit_wf(self@, Edit::AcceptGhost);
        }
        if let Some(g) = self.ghost_text.take() {
            proof {
                lemma_saved_wf(self@);
            }
            self.save_undo();
            self.text.append(g.as_str());
            self.cursor = self.char_count();
            self.selection = None;
            InputAction::Changed
        } else {
            InputAction::SendToPty(vec![9u8])
        }
    }

    /// Shows `g` as the suggestion (or none), leaving the rest of the buffer alone.
    pub fn set_ghost_text(&mut self, g: Option<String>)
        requires
            old(self).wf(),
        ensures
            final(self).wf(),
            final(self)@ == (InputModel {
                suggestion: match g {
                    Some(s) => Some(s@),
                    None => None,
                },
                ..old(self)@
            }),
    {
        self.ghost_text = g;
    }
}

impl Default for InputBuffer {
    fn default() -> (r: Self)
        ensures
            r.wf(),
            r@.text.len() == 0,
            r@.history.len() == 0,
            r@.undo.len() == 0,
            r@.redo.len() == 0,
    {
        Self::new()
    }
}

} // verus!
