use vstd::prelude::*;

use std::collections::VecDeque;

use crate::cell::Cell;
use vstd::std_specs::iter::IteratorSpec;
use crate::grid::row_chars;
use crate::text::{lemma_string_views_push, string_views, trim_end, trimmed_string};

verus! {

broadcast use vstd::std_specs::vecdeque::group_vec_dequeue_axioms;

/// The abstract scrollback: its lines, oldest first, and its capacity.
pub struct ScrollbackModel {
    pub lines: Seq<Seq<Cell>>,
    pub capacity: nat,
}

/// A line of cells as text with trailing whitespace removed.
pub open spec fn line_text(l: Seq<Cell>) -> Seq<char> {
    trim_end(row_chars(l))
}

/// Lines joined with `\n` between them.
pub open spec fn join_lines(ls: Seq<Seq<char>>) -> Seq<char>
    decreases ls.len(),
{
    if ls.len() == 0 {
        Seq::empty()
    } else if ls.len() == 1 {
        ls[0]
    } else {
        join_lines(ls.drop_last()) + seq!['\n'] + ls.last()
    }
}

impl ScrollbackModel {
    /// At most `capacity` lines are kept, except that a push always keeps the line
    /// it pushed.
    pub open spec fn wf(self) -> bool {
        self.lines.len() <= self.capacity || self.lines.len() <= 1
    }

    pub open spec fn pushed(self, line: Seq<Cell>) -> ScrollbackModel {
        ScrollbackModel {
            lines: if self.lines.len() >= self.capacity && self.lines.len() > 0 {
                self.lines.drop_first().push(line)
            } else {
                self.lines.push(line)
            },
            ..self
        }
    }

    /// The lines as text, with trailing whitespace removed.
    pub open spec fn texts(self) -> Seq<Seq<char>> {
        self.lines.map_values(|l: Seq<Cell>| line_text(l))
    }

    /// The lines that remain once the oldest are dropped to fit `cap`.
    pub open spec fn fitted(self, cap: nat) -> ScrollbackModel {
        ScrollbackModel {
            lines: if self.lines.len() > cap {
                self.lines.subrange(self.lines.len() - cap, self.lines.len() as int)
            } else {
                self.lines
            },
            capacity: cap,
        }
    }
}

/// Ring buffer for scrollback history.
#[derive(Debug, Clone)]
pub struct ScrollbackBuffer {
    lines: VecDeque<Vec<Cell>>,
    capacity: usize,
}

pub open spec fn line_views(v: Seq<Vec<Cell>>) -> Seq<Seq<Cell>> {
    v.map_values(|l: Vec<Cell>| l@)
}

impl View for ScrollbackBuffer {
    type V = ScrollbackModel;

    closed spec fn view(&self) -> ScrollbackModel {
        ScrollbackModel { lines: line_views(self.lines@), capacity: self.capacity as nat }
    }
}

/// The text of one line of cells, trailing whitespace removed.
fn line_to_string(line: &Vec<Cell>) -> (s: String)
    ensures
        s@ == line_text(line@),
{
    let mut chars: Vec<char> = Vec::new();
    let mut i: usize = 0;
    while i < line.len()
        invariant
            i <= line@.len(),
            chars@ == row_chars(line@).subrange(0, i as int),
        decreases line@.len() - i,
    {
        chars.push(line[i].ch);
        i += 1;
        assert(chars@ =~= row_chars(line@).subrange(0, i as int));
    }
    assert(chars@ =~= row_chars(line@));
    trimmed_string(chars.as_slice())
}

impl ScrollbackBuffer {
    pub fn new(capacity: usize) -> (r: Self)
        ensures
            r@.lines.len() == 0,
            r@.capacity == capacity,
    {
        let r = ScrollbackBuffer { lines: VecDeque::new(), capacity };
        assert(r@.lines =~= Seq::empty());
        r
    }

    /// Push a line into the scrollback. Drops oldest if at capacity.
    pub fn push(&mut self, line: Vec<Cell>)
        ensures
            final(self)@ == old(self)@.pushed(line@),
            old(self)@.wf() ==> final(self)@.wf(),
    {
        let ghost m = self@;
        if self.lines.len() >= self.capacity {
            let _ = self.lines.pop_front();
        }
        self.lines.push_back(line);
        proof {
            if m.lines.len() >= m.capacity && m.lines.len() > 0 {
                assert(self@.lines =~= m.lines.drop_first().push(line@));
            } else {
                assert(self@.lines =~= m.lines.push(line@));
            }
        }
    }

    /// Pop the most recent line (used if scrolling back down).
    pub fn pop(&mut self) -> (r: Option<Vec<Cell>>)
        ensures
            old(self)@.lines.len() == 0 ==> r is None && final(self)@ == old(self)@,
            old(self)@.lines.len() > 0 ==> (r matches Some(l) && l@ == old(self)@.lines.last())
                && final(self)@ == (ScrollbackModel {
                lines: old(self)@.lines.drop_last(),
                ..old(self)@
            }),
            old(self)@.wf() ==> final(self)@.wf(),
    {
        let ghost m = self@;
        let r = self.lines.pop_back();
        assert(self@.lines =~= (if m.lines.len() > 0 {
            m.lines.drop_last()
        } else {
            m.lines
        }));
        r
    }

    /// Number of lines in scrollback.
    pub fn len(&self) -> (r: usize)
        ensures
            r == self@.lines.len(),
    {
        self.lines.len()
    }

    pub fn is_empty(&self) -> (r: bool)
        ensures
            r == (self@.lines.len() == 0),
    {
        self.lines.len() == 0
    }

    pub fn capacity(&self) -> (r: usize)
        ensures
            r == self@.capacity,
    {
        self.capacity
    }

    /// Get a line by index (0 = oldest).
    pub fn line(&self, index: usize) -> (r: Option<&Vec<Cell>>)
        ensures
            r is Some <==> index < self@.lines.len(),
            r matches Some(l) ==> l@ == self@.lines[index as int],
    {
        if index < self.lines.len() {
            Some(&self.lines[index])
        } else {
            None
        }
    }

    /// The text of lines `[from, len)`.
    fn texts_from(&self, from: usize) -> (r: Vec<String>)
        requires
            from <= self@.lines.len(),
        ensures
            string_views(r@) == self@.texts().subrange(
                from as int,
                self@.lines.len() as int,
            ),
    {
        let len = self.lines.len();
        let mut out: Vec<String> = Vec::new();
        let mut i = from;
        while i < len
            invariant
                from <= i <= len,
                len == self@.lines.len(),
                string_views(out@) == self@.texts().subrange(from as int, i as int),
            decreases len - i,
        {
            let s = line_to_string(&self.lines[i]);
            assert(self.lines@[i as int]@ == self@.lines[i as int]);
            proof {
                lemma_string_views_push(out@, s);
            }
            out.push(s);
            i += 1;
            assert(string_views(out@) =~= self@.texts().subrange(
                from as int,
                i as int,
            ));
        }
        out
    }

    /// Get the last N lines (most recent).
    pub fn last_n_lines(&self, n: usize) -> (r: Vec<String>)
        ensures
            string_views(r@) == self@.texts().subrange(
                if n < self@.lines.len() {
                    self@.lines.len() - n
                } else {
                    0
                },
                self@.lines.len() as int,
            ),
    {
        let len = self.lines.len();
        let skip = if n < len {
            len - n
        } else {
            0
        };
        self.texts_from(skip)
    }

    /// Get all lines as strings.
    pub fn all_lines_as_strings(&self) -> (r: Vec<String>)
        ensures
            string_views(r@) == self@.texts(),
    {
        let r = self.texts_from(0);
        assert(self@.texts().subrange(0, self@.lines.len() as int) =~= self@.texts());
        r
    }

    /// Get full log as a single string.
    pub fn full_log(&self) -> (s: String)
        ensures
            s@ == join_lines(self@.texts()),
    {
        let lines = self.all_lines_as_strings();
        let ghost ls = self@.texts();
        let mut s = String::new();
        let mut i: usize = 0;
        while i < lines.len()
            invariant
                i <= lines@.len(),
                string_views(lines@) == ls,
                s@ == join_lines(ls.subrange(0, i as int)),
            decreases lines@.len() - i,
        {
            assert(ls.subrange(0, i + 1).drop_last() =~= ls.subrange(0, i as int));
            assert(lines@[i as int]@ == ls[i as int]);
            if i > 0 {
                s.append("\n");
                proof {
                    reveal_strlit("\n");
                }
            }
            s.append(lines[i].as_str());
            i += 1;
            proof {
                if i == 1 {
                    assert(s@ =~= ls.subrange(0, 1)[0]);
                } else {
                    assert(s@ =~= join_lines(ls.subrange(0, i - 1)) + seq!['\n'] + ls.subrange(
                        0,
                        i as int,
                    ).last());
                }
            }
        }
        assert(ls.subrange(0, lines@.len() as int) =~= ls);
        s
    }

    /// Clear all scrollback.
    pub fn clear(&mut self)
        ensures
            final(self)@ == (ScrollbackModel { lines: Seq::empty(), ..old(self)@ }),
    {
        self.lines.clear();
        assert(self@.lines =~= Seq::empty());
    }

    /// Resize the capacity, dropping oldest lines if needed.
    pub fn set_capacity(&mut self, new_capacity: usize)
        ensures
            final(self)@ == old(self)@.fitted(new_capacity as nat),
            final(self)@.wf(),
    {
        let ghost m = self@;
        assert(m.lines.subrange(0, m.lines.len() as int) =~= m.lines);
        self.capacity = new_capacity;
        while self.lines.len() > self.capacity
            invariant
                self.capacity == new_capacity,
                line_views(self.lines@) == m.lines.subrange(
                    m.lines.len() - self.lines@.len(),
                    m.lines.len() as int,
                ),
                m.lines.len() >= self.lines@.len(),
                self.lines@.len() >= new_capacity || self.lines@.len() == m.lines.len(),
            decreases self.lines@.len(),
        {
            let ghost before = self.lines@;
            let _ = self.lines.pop_front();
            assert(self.lines@ == before.subrange(1, before.len() as int));
            assert forall|i: int| 0 <= i < self.lines@.len() implies #[trigger] line_views(
                self.lines@,
            )[i] == m.lines[m.lines.len() - self.lines@.len() + i] by {
                assert(line_views(self.lines@)[i] == self.lines@[i]@);
                assert(self.lines@[i] == before[i + 1]);
                assert(line_views(before)[i + 1] == before[i + 1]@);
            }
            assert(line_views(self.lines@) =~= m.lines.subrange(
                m.lines.len() - self.lines@.len(),
                m.lines.len() as int,
            ));
        }
        assert(self@ =~= m.fitted(new_capacity as nat));
    }

    /// Iterator over all lines.
    pub fn iter(&self) -> (r: std::collections::vec_deque::Iter<'_, Vec<Cell>>)
        ensures
            line_views(r.remaining().map_values(|l: &Vec<Cell>| *l)) == self@.lines,
    {
        let r = self.lines.iter();
        assert(line_views(r.remaining().map_values(|l: &Vec<Cell>| *l)) =~= self@.lines);
        r
    }
}

/// Pushing a line keeps the most recent lines, with the new one last, and never
/// lets the scrollback grow past its capacity (or one line, for capacity zero).
pub proof fn lemma_push_keeps_recent(m: ScrollbackModel, line: Seq<Cell>)
    requires
        m.wf(),
    ensures
        m.pushed(line).wf(),
        m.pushed(line).lines.last() == line,
        m.pushed(line).lines.len() <= if m.capacity > 0 {
            m.capacity
        } else {
            1
        },
        m.pushed(line).lines.drop_last() == m.lines.subrange(
            m.lines.len() + 1 - m.pushed(line).lines.len(),
            m.lines.len() as int,
        ),
{
    let p = m.pushed(line);
    assert(p.lines.drop_last() =~= m.lines.subrange(
        m.lines.len() + 1 - p.lines.len(),
        m.lines.len() as int,
    ));
}

} // verus!
