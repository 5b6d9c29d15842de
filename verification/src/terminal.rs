//! A terminal session's state: the VT screen, the input line, the profile it was
//! started with, and whether its shell has exited. The pseudo-terminal the shell
//! runs in, and the byte stream from it, are the application's.

use vstd::prelude::*;
use vstd::utf8::encode_utf8;

use crate::buffer::join_lines;
use crate::grid::row_chars;
use crate::input_buffer::{InputAction, InputBuffer};
use crate::profile::{CursorStyle, ShellType};
use crate::search::{search, search_result, SearchMatch, SearchOptions};
use crate::text::{chars_of, push_char, string_from_chars, string_views, trim_end};
use crate::vt_handler::{fresh_handler, VtHandler, VtModel};

verus! {

/// Events emitted by a terminal session to the UI layer.
#[derive(Debug)]
pub enum TerminalEvent {
    /// Terminal content changed — repaint needed.
    ContentChanged,
    /// Title changed via OSC sequence.
    TitleChanged(String),
    /// The shell process has exited.
    ProcessExited,
}

/// Why nothing can be written to a session.
#[derive(Debug, Clone, Copy, PartialEq, Eq, Structural)]
pub enum TerminalError {
    /// The shell process has exited.
    Exited,
}

/// The text of each screen row, trailing whitespace removed.
pub open spec fn screen_texts(m: VtModel) -> Seq<Seq<char>> {
    Seq::new(m.grid.rows, |i: int| trim_end(row_chars(m.grid.cells[i])))
}

/// A full terminal session: VT state + input buffer.
pub struct Terminal {
    pub vt: VtHandler,
    pub input: InputBuffer,
    pub profile_name: String,
    pub shell_type: ShellType,
    pub exited: bool,
}

impl Terminal {
    pub open spec fn wf(&self) -> bool {
        self.vt.wf() && self.input.wf()
    }

    /// The state of a session just started with a profile: an empty screen of
    /// the size asked for, with the profile's cursor style and scrollback limit,
    /// and an empty input line.
    pub fn new(
        profile_name: &str,
        shell_type: ShellType,
        cursor_style: CursorStyle,
        scrollback_limit: usize,
        rows: u16,
        cols: u16,
    ) -> (r: Self)
        ensures
            r.wf(),
            r.vt@ == (VtModel {
                cursor_style,
                ..fresh_handler(rows as usize, cols as usize, scrollback_limit)
            }),
            r.input@.text.len() == 0,
            r.input@.history.len() == 0,
            r.profile_name@ == profile_name@,
            r.shell_type == shell_type,
            !r.exited,
    {
        let mut vt = VtHandler::new(rows as usize, cols as usize, scrollback_limit);
        vt.set_cursor_style(cursor_style);
        Terminal {
            vt,
            input: InputBuffer::new(),
            profile_name: string_from_chars(chars_of(profile_name).as_slice()),
            shell_type,
            exited: false,
        }
    }

    /// The shell process has exited (or its output could not be read).
    pub fn mark_exited(&mut self)
        ensures
            final(self).exited,
            final(self).vt == old(self).vt,
            final(self).input == old(self).input,
            final(self).profile_name == old(self).profile_name,
            final(self).shell_type == old(self).shell_type,
    {
        self.exited = true;
    }

    /// Submit the input line (Enter key): the bytes to write to the shell, its
    /// text then a carriage return. The line is submitted either way; nothing can
    /// be written once the shell has exited.
    pub fn submit_input(&mut self) -> (r: Result<Vec<u8>, TerminalError>)
        requires
            old(self).input.wf(),
        ensures
            final(self).input.wf(),
            final(self).input@ == old(self).input@.submit(),
            final(self).vt == old(self).vt,
            final(self).exited == old(self).exited,
            final(self).profile_name == old(self).profile_name,
            final(self).shell_type == old(self).shell_type,
            old(self).exited ==> r == Err::<Vec<u8>, TerminalError>(TerminalError::Exited),
            !old(self).exited ==> (r matches Ok(b) && b@ == encode_utf8(old(self).input@.text).push(
                13u8,
            )),
    {
        let text = match self.input.submit() {
            InputAction::Submit(text) => text,
            _ => String::new(),
        };
        if self.exited {
            return Err(TerminalError::Exited);
        }
        let mut bytes = vstd::slice::slice_to_vec(text.as_str().as_bytes());
        bytes.push(13u8);
        Ok(bytes)
    }

    /// The bytes that send Ctrl+C (SIGINT) to the shell; none once it has exited.
    pub fn send_interrupt(&self) -> (r: Result<Vec<u8>, TerminalError>)
        ensures
            self.exited ==> r == Err::<Vec<u8>, TerminalError>(TerminalError::Exited),
            !self.exited ==> (r matches Ok(b) && b@ == seq![3u8]),
    {
        if self.exited {
            return Err(TerminalError::Exited);
        }
        let mut bytes: Vec<u8> = Vec::new();
        bytes.push(3u8);
        Ok(bytes)
    }

    /// Get visible lines as strings (for simple text rendering).
    pub fn visible_lines(&self) -> (r: Vec<String>)
        requires
            self.vt.wf(),
        ensures
            string_views(r@) == screen_texts(self.vt@),
    {
        let r = self.vt.visible_lines();
        assert(string_views(r@) =~= screen_texts(self.vt@));
        r
    }

    /// The terminal title set by the shell via OSC, if any.
    pub fn title(&self) -> (r: Option<&str>)
        ensures
            r matches Some(t) ==> self.vt@.title == Some(t@),
            r is None ==> self.vt@.title is None,
    {
        match self.vt.title_text() {
            Some(t) => Some(t.as_str()),
            None => None,
        }
    }

    /// The display title for the tab: the shell's title, else the profile's name.
    pub fn tab_title(&self) -> (r: String)
        ensures
            r@ == match self.vt@.title {
                Some(t) => t,
                None => self.profile_name@,
            },
    {
        match self.vt.title_text() {
            Some(t) => t.clone(),
            None => self.profile_name.clone(),
        }
    }

    /// Resize the screen.
    pub fn resize(&mut self, rows: u16, cols: u16)
        requires
            old(self).vt.wf(),
        ensures
            final(self).vt.wf(),
            final(self).vt@ == old(self).vt@.resized(rows as usize, cols as usize),
            final(self).input == old(self).input,
            final(self).exited == old(self).exited,
            final(self).profile_name == old(self).profile_name,
            final(self).shell_type == old(self).shell_type,
    {
        self.vt.resize(rows as usize, cols as usize);
    }

    /// The last `n` lines of the scrollback (all of them when there are fewer).
    pub fn last_n_lines(&self, n: usize) -> (r: Vec<String>)
        ensures
            string_views(r@) == self.vt@.scrollback.texts().subrange(
                if n < self.vt@.scrollback.lines.len() {
                    self.vt@.scrollback.lines.len() - n
                } else {
                    0
                },
                self.vt@.scrollback.lines.len() as int,
            ),
    {
        self.vt.scrollback_ref().last_n_lines(n)
    }

    /// The full log: every scrollback line, then every screen row, one per line.
    pub fn full_log(&self) -> (r: String)
        requires
            self.vt.wf(),
        ensures
            r@ == join_lines(self.vt@.scrollback.texts() + screen_texts(self.vt@)),
    {
        let mut lines = self.vt.scrollback_ref().all_lines_as_strings();
        let mut screen = self.visible_lines();
        let ghost a = lines@;
        let ghost b = screen@;
        lines.append(&mut screen);
        let ghost ls = string_views(lines@);
        assert(ls =~= self.vt@.scrollback.texts() + screen_texts(self.vt@)) by {
            assert(lines@ == a + b);
            assert(string_views(a + b) =~= string_views(a) + string_views(b));
        }
        let mut s = String::new();
        let mut i: usize = 0;
        while i < lines.len()
            invariant
                i <= lines@.len(),
                ls == string_views(lines@),
                s@ == join_lines(ls.subrange(0, i as int)),
            decreases lines@.len() - i,
        {
            assert(ls.subrange(0, i + 1).drop_last() =~= ls.subrange(0, i as int));
            if i > 0 {
                push_char(&mut s, '\n');
            }
            let cs = chars_of(lines[i].as_str());
            let mut k: usize = 0;
            let ghost before = s@;
            while k < cs.len()
                invariant
                    k <= cs@.len(),
                    s@ == before + cs@.subrange(0, k as int),
                decreases cs@.len() - k,
            {
                push_char(&mut s, cs[k]);
                k += 1;
                assert(s@ =~= before + cs@.subrange(0, k as int));
            }
            assert(cs@.subrange(0, k as int) =~= ls[i as int]);
            i += 1;
            assert(s@ =~= join_lines(ls.subrange(0, i as int)));
        }
        assert(ls.subrange(0, i as int) =~= ls);
        s
    }

    /// Search the scrollback and the screen.
    pub fn search(&self, options: &SearchOptions) -> (r: Vec<SearchMatch>)
        requires
            self.vt.wf(),
            self.vt@.scrollback.lines.len() + self.vt@.grid.rows <= usize::MAX,
        ensures
            search_result(self.vt@.scrollback.lines, self.vt@.grid.cells, *options, r@),
    {
        search(self.vt.scrollback_ref(), self.vt.grid_ref(), options)
    }
}

} // verus!
