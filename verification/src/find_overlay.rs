//! The Find in Session overlay's state (Ctrl+F).

use vstd::prelude::*;

use crate::search::{
    all_hits, match_views, search, search_regex_source, searched_lines, SearchMatch,
    SearchOptions,
};
use crate::buffer::ScrollbackBuffer;
use crate::grid::Grid;

verus! {

/// The Find in Session overlay (Ctrl+F).
pub struct FindOverlay {
    pub is_open: bool,
    pub query: String,
    pub use_regex: bool,
    pub ignore_case: bool,
    pub matches: Vec<SearchMatch>,
    pub current_match: usize,
}

impl FindOverlay {
    pub fn new() -> (r: Self)
        ensures
            !r.is_open,
            r.query@.len() == 0,
            !r.use_regex,
            r.ignore_case,
            r.matches@.len() == 0,
            r.current_match == 0,
    {
        FindOverlay {
            is_open: false,
            query: String::new(),
            use_regex: false,
            ignore_case: true,
            matches: Vec::new(),
            current_match: 0,
        }
    }

    /// Opens or closes the overlay; closing drops the matches.
    pub fn toggle(&mut self)
        ensures
            final(self).is_open == !old(self).is_open,
            final(self).is_open ==> final(self).matches@ == old(self).matches@,
            !final(self).is_open ==> final(self).matches@.len() == 0,
            final(self).query@ == old(self).query@,
            final(self).use_regex == old(self).use_regex,
            final(self).ignore_case == old(self).ignore_case,
            final(self).current_match == old(self).current_match,
    {
        self.is_open = !self.is_open;
        if !self.is_open {
            self.matches.clear();
        }
    }

    /// Searches the terminal's scrollback and screen for the query with the
    /// overlay's options; the first match becomes the current one.
    pub fn perform_search(&mut self, scrollback: &ScrollbackBuffer, grid: &Grid)
        requires
            grid.wf(),
        ensures
            final(self).current_match == 0,
            final(self).query@ == old(self).query@,
            final(self).use_regex == old(self).use_regex,
            final(self).ignore_case == old(self).ignore_case,
            final(self).is_open == old(self).is_open,
            old(self).query@.len() == 0 ==> final(self).matches@.len() == 0,
            scrollback@.lines.len() + grid@.rows <= usize::MAX && old(self).query@.len() > 0
                && query_compiles(old(self).query@, old(self).use_regex, old(self).ignore_case) ==> match_views(final(self).matches@) == all_hits(
                search_regex_source(old(self).query@, old(self).use_regex, old(self).ignore_case),
                searched_lines(scrollback@.lines, grid@.cells),
            ),
            !(scrollback@.lines.len() + grid@.rows <= usize::MAX && query_compiles(old(self).query@, old(self).use_regex, old(self).ignore_case))
                ==> final(self).matches@.len() == 0,
    {
        let options = SearchOptions {
            pattern: self.query.clone(),
            use_regex: self.use_regex,
            ignore_case: self.ignore_case,
        };
        if scrollback.len() <= usize::MAX - grid.rows() {
            self.matches = search(scrollback, grid, &options);
        } else {
            self.matches = Vec::new();
        }
        self.current_match = 0;
    }

    /// Moves to the next match, wrapping around after the last.
    pub fn next_match(&mut self)
        requires
            old(self).current_match < usize::MAX,
        ensures
            final(self).matches@ == old(self).matches@,
            final(self).current_match == (if old(self).matches@.len() == 0 {
                old(self).current_match as int
            } else {
                (old(self).current_match + 1) % (old(self).matches@.len() as int)
            }),
    {
        if self.matches.len() > 0 {
            self.current_match = (self.current_match + 1) % self.matches.len();
        }
    }

    /// Moves to the previous match, wrapping around before the first.
    pub fn previous_match(&mut self)
        ensures
            final(self).matches@ == old(self).matches@,
            final(self).current_match == (if old(self).matches@.len() == 0 {
                old(self).current_match as int
            } else if old(self).current_match == 0 {
                old(self).matches@.len() - 1
            } else {
                old(self).current_match - 1
            }),
    {
        if self.matches.len() > 0 {
            self.current_match = if self.current_match == 0 {
                self.matches.len() - 1
            } else {
                self.current_match - 1
            };
        }
    }
}

/// Whether the regex a search for the query compiles is accepted.
pub open spec fn query_compiles(query: Seq<char>, use_regex: bool, ignore_case: bool) -> bool {
    crate::compiled_regex::regex_compiles(search_regex_source(query, use_regex, ignore_case))
}

} // verus!
