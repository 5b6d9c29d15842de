//! The AI command query overlay's state (Ctrl+/).
//!
//! The query runs on a background thread that sends its outcome over a channel;
//! the overlay polls the channel once a frame.

use vstd::prelude::*;

use std::sync::mpsc::Receiver;

use crate::text::{chars_of, push_char};

verus! {

#[verifier::external_type_specification]
#[verifier::external_body]
#[verifier::reject_recursive_types(T)]
pub struct ExReceiver<T>(Receiver<T>);

/// Result from background AI query thread.
pub enum QueryResult {
    Suggestions(Vec<String>),
    Error(String),
}

/// What polling the channel gave.
pub enum QueryPoll {
    /// The query's outcome arrived.
    Received(QueryResult),
    /// The query is still running.
    Pending,
    /// The sending side is gone without an outcome.
    Disconnected,
}

/// `Receiver::try_recv`, its error told apart by variant. What comes back depends
/// on the other thread, so nothing is claimed of it.
#[verifier::external_body]
fn try_receive(rx: &Receiver<QueryResult>) -> QueryPoll {
    match rx.try_recv() {
        Ok(r) => QueryPoll::Received(r),
        Err(std::sync::mpsc::TryRecvError::Empty) => QueryPoll::Pending,
        Err(std::sync::mpsc::TryRecvError::Disconnected) => QueryPoll::Disconnected,
    }
}

/// What pressing Enter in the overlay led to.
#[derive(Debug, PartialEq, Eq)]
pub enum EnterOutcome {
    /// A query is to be started in the background; its channel goes to
    /// `attach_receiver`.
    StartQuery,
    /// The suggestion was accepted and the overlay closed.
    Accept(String),
    /// Nothing is to be done.
    Nothing,
}

/// The AI command query overlay (Ctrl+/).
pub struct CommandQueryOverlay {
    pub is_open: bool,
    pub query: String,
    pub suggestions: Vec<String>,
    pub selected_index: usize,
    pub is_loading: bool,
    pub error_message: Option<String>,
    /// Channel to receive AI results from background thread.
    result_rx: Option<Receiver<QueryResult>>,
    /// True on first frame after opening — used to request focus exactly once.
    just_opened: bool,
}

pub open spec fn string_views(v: Seq<String>) -> Seq<Seq<char>> {
    v.map_values(|s: String| s@)
}

pub open spec fn opt_view(o: Option<String>) -> Option<Seq<char>> {
    match o {
        Some(s) => Some(s@),
        None => None,
    }
}

/// The message shown when the AI answered with no suggestion.
pub open spec fn no_suggestions_message() -> Seq<char> {
    "No suggestions — check LM Studio is running at localhost:1234"@
}

/// The message shown when no AI backend is reachable.
pub open spec fn not_running_message() -> Seq<char> {
    "LM Studio not running — showing placeholder commands"@
}

/// The suggestions offered when no AI backend is reachable.
pub open spec fn placeholder_suggestions(query: Seq<char>) -> Seq<Seq<char>> {
    seq!["echo \""@ + query + "\""@, "# AI not connected — start LM Studio at localhost:1234"@]
}

/// `prefix` followed by the characters of `s`.
fn joined(prefix: &str, s: &str) -> (r: String)
    ensures
        r@ == prefix@ + s@,
{
    let mut out = prefix.to_owned();
    let cs = chars_of(s);
    let mut i: usize = 0;
    while i < cs.len()
        invariant
            i <= cs@.len(),
            cs@ == s@,
            out@ == prefix@ + s@.subrange(0, i as int),
        decreases cs@.len() - i,
    {
        push_char(&mut out, cs[i]);
        i += 1;
        assert(out@ =~= prefix@ + s@.subrange(0, i as int));
    }
    assert(s@.subrange(0, s@.len() as int) =~= s@);
    out
}

/// The overlay's state: what it shows and whether it awaits an outcome.
pub struct QueryOverlayModel {
    pub is_open: bool,
    pub query: Seq<char>,
    pub suggestions: Seq<Seq<char>>,
    pub selected_index: usize,
    pub is_loading: bool,
    pub error_message: Option<Seq<char>>,
    /// A query's outcome is awaited on the channel.
    pub waiting: bool,
    /// The input is still to take the keyboard focus after the overlay opened.
    pub focus_requested: bool,
}

/// `after` is `before` with what polling the channel gave applied to it.
pub open spec fn poll_applied(
    before: QueryOverlayModel,
    after: QueryOverlayModel,
    polled: QueryPoll,
) -> bool {
    &&& after.is_open == before.is_open
    &&& after.query == before.query
    &&& after.focus_requested == before.focus_requested
    &&& match polled {
        QueryPoll::Received(QueryResult::Suggestions(s)) => {
            &&& !after.is_loading
            &&& !after.waiting
            &&& s@.len() == 0 ==> {
                &&& after.error_message == Some(no_suggestions_message())
                &&& after.suggestions == before.suggestions
                &&& after.selected_index == before.selected_index
            }
            &&& s@.len() > 0 ==> {
                &&& after.error_message is None
                &&& after.suggestions == string_views(s@)
                &&& after.selected_index == 0
            }
        },
        QueryPoll::Received(QueryResult::Error(e)) => {
            &&& !after.is_loading
            &&& !after.waiting
            &&& after.error_message == Some("AI error: "@ + e@)
            &&& after.suggestions == before.suggestions
            &&& after.selected_index == before.selected_index
        },
        QueryPoll::Pending => {
            &&& after.is_loading == before.is_loading
            &&& after.waiting == before.waiting
            &&& after.error_message == before.error_message
            &&& after.suggestions == before.suggestions
            &&& after.selected_index == before.selected_index
        },
        QueryPoll::Disconnected => {
            &&& !after.is_loading
            &&& !after.waiting
            &&& after.error_message == before.error_message
            &&& after.suggestions == before.suggestions
            &&& after.selected_index == before.selected_index
        },
    }
}

impl View for CommandQueryOverlay {
    type V = QueryOverlayModel;

    closed spec fn view(&self) -> QueryOverlayModel {
        QueryOverlayModel {
            is_open: self.is_open,
            query: self.query@,
            suggestions: string_views(self.suggestions@),
            selected_index: self.selected_index,
            is_loading: self.is_loading,
            error_message: opt_view(self.error_message),
            waiting: self.result_rx is Some,
            focus_requested: self.just_opened,
        }
    }
}

impl CommandQueryOverlay {
    pub fn new() -> (r: Self)
        ensures
            !r@.is_open,
            r@.query.len() == 0,
            r@.suggestions.len() == 0,
            r@.selected_index == 0,
            !r@.is_loading,
            r@.error_message is None,
            !r@.waiting,
            !r@.focus_requested,
    {
        CommandQueryOverlay {
            is_open: false,
            query: String::new(),
            suggestions: Vec::new(),
            selected_index: 0,
            is_loading: false,
            error_message: None,
            result_rx: None,
            just_opened: false,
        }
    }

    /// Opens or closes the overlay; opening starts afresh.
    pub fn toggle(&mut self)
        ensures
            final(self)@.is_open == !old(self)@.is_open,
            final(self)@.is_open ==> {
                &&& final(self)@.query.len() == 0
                &&& final(self)@.suggestions.len() == 0
                &&& final(self)@.selected_index == 0
                &&& final(self)@.error_message is None
                &&& !final(self)@.is_loading
                &&& !final(self)@.waiting
                &&& final(self)@.focus_requested
            },
            !final(self)@.is_open ==> {
                &&& final(self)@.query == old(self)@.query
                &&& final(self)@.suggestions == old(self)@.suggestions
                &&& final(self)@.selected_index == old(self)@.selected_index
                &&& final(self)@.is_loading == old(self)@.is_loading
                &&& final(self)@.error_message == old(self)@.error_message
                &&& final(self)@.waiting == old(self)@.waiting
                &&& final(self)@.focus_requested == old(self)@.focus_requested
            },
    {
        self.is_open = !self.is_open;
        if self.is_open {
            self.query = String::new();
            self.suggestions.clear();
            self.selected_index = 0;
            self.error_message = None;
            self.is_loading = false;
            self.result_rx = None;
            self.just_opened = true;
        }
    }

    /// Applies what polling the channel gave.
    pub fn receive(&mut self, polled: QueryPoll)
        ensures
            poll_applied(old(self)@, final(self)@, polled),
    {
        match polled {
            QueryPoll::Received(QueryResult::Suggestions(suggestions)) => {
                self.is_loading = false;
                if suggestions.len() == 0 {
                    self.error_message = Some(
                        "No suggestions — check LM Studio is running at localhost:1234".to_owned(),
                    );
                } else {
                    self.suggestions = suggestions;
                    self.selected_index = 0;
                    self.error_message = None;
                }
                self.result_rx = None;
            },
            QueryPoll::Received(QueryResult::Error(e)) => {
                self.is_loading = false;
                self.error_message = Some(joined("AI error: ", e.as_str()));
                self.result_rx = None;
            },
            QueryPoll::Pending => {},
            QueryPoll::Disconnected => {
                self.is_loading = false;
                self.result_rx = None;
            },
        }
    }

    /// Poll for AI results from background thread. Call each frame.
    ///
    /// Without a query awaited nothing changes. Otherwise what the channel gives
    /// depends on the query's thread: the overlay then stands as `receive` leaves
    /// it for one of the outcomes of a poll.
    pub fn poll_results(&mut self)
        ensures
            !old(self)@.waiting ==> final(self)@ == old(self)@,
            old(self)@.waiting ==> exists|polled: QueryPoll|
                #[trigger] poll_applied(old(self)@, final(self)@, polled),
    {
        let polled = match &self.result_rx {
            Some(rx) => try_receive(rx),
            None => return,
        };
        self.receive(polled);
    }

    /// Starts a query: nothing happens for an empty query or while one runs. When
    /// no AI backend is available, placeholder commands are offered at once;
    /// otherwise the overlay waits for an outcome, and `true` tells the caller to
    /// start the background query and hand its channel to `attach_receiver`.
    pub fn begin_query(&mut self, ai_available: bool) -> (start: bool)
        ensures
            start == (old(self)@.query.len() > 0 && !old(self)@.is_loading && ai_available),
            final(self)@.query == old(self)@.query,
            final(self)@.is_open == old(self)@.is_open,
            (old(self)@.query.len() == 0 || old(self)@.is_loading) ==> {
                &&& final(self)@.is_loading == old(self)@.is_loading
                &&& final(self)@.suggestions == old(self)@.suggestions
                &&& final(self)@.error_message == old(self)@.error_message
                &&& final(self)@.waiting == old(self)@.waiting
            },
            (old(self)@.query.len() > 0 && !old(self)@.is_loading && !ai_available) ==> {
                &&& !final(self)@.is_loading
                &&& final(self)@.suggestions == placeholder_suggestions(
                    old(self)@.query,
                )
                &&& final(self)@.error_message == Some(not_running_message())
                &&& !final(self)@.waiting
            },
            start ==> {
                &&& final(self)@.is_loading
                &&& final(self)@.suggestions.len() == 0
                &&& final(self)@.error_message is None
            },
    {
        if self.query.as_str().unicode_len() == 0 || self.is_loading {
            return false;
        }
        self.suggestions.clear();
        self.error_message = None;
        self.is_loading = true;
        if !ai_available {
            self.is_loading = false;
            let echo = joined("echo \"", self.query.as_str());
            let echo = joined(echo.as_str(), "\"");
            let mut placeholders: Vec<String> = Vec::new();
            placeholders.push(echo);
            placeholders.push("# AI not connected — start LM Studio at localhost:1234".to_owned());
            assert(string_views(placeholders@) =~= placeholder_suggestions(self.query@));
            self.suggestions = placeholders;
            self.error_message = Some(
                "LM Studio not running — showing placeholder commands".to_owned(),
            );
            self.result_rx = None;
            return false;
        }
        true
    }

    /// Hands over the channel on which the started query will answer.
    pub fn attach_receiver(&mut self, rx: Receiver<QueryResult>)
        ensures
            final(self)@.waiting,
            final(self)@.is_open == old(self)@.is_open,
            final(self)@.query == old(self)@.query,
            final(self)@.is_loading == old(self)@.is_loading,
            final(self)@.suggestions == old(self)@.suggestions,
            final(self)@.error_message == old(self)@.error_message,
    {
        self.result_rx = Some(rx);
    }

    /// Whether the input should take the keyboard focus: true once, on the first
    /// frame after the overlay opened.
    pub fn take_focus_request(&mut self) -> (r: bool)
        ensures
            r == old(self)@.focus_requested,
            !final(self)@.focus_requested,
            final(self)@.error_message == old(self)@.error_message,
            final(self)@.is_open == old(self)@.is_open,
            final(self)@.query == old(self)@.query,
            final(self)@.is_loading == old(self)@.is_loading,
            final(self)@.waiting == old(self)@.waiting,
            final(self)@.suggestions == old(self)@.suggestions,
            final(self)@.selected_index == old(self)@.selected_index,
    {
        let r = self.just_opened;
        self.just_opened = false;
        r
    }

    /// Enter: with a query typed and nothing shown or running, starts the query as
    /// `begin_query` does (`StartQuery` tells the caller to start the background
    /// query); with suggestions shown, accepts the selected one and closes.
    pub fn press_enter(&mut self, ai_available: bool) -> (r: EnterOutcome)
        requires
            old(self)@.suggestions.len() > 0 ==> old(self)@.selected_index
                < old(self)@.suggestions.len(),
        ensures
            final(self)@.query == old(self)@.query,
            ({
                let o = old(self)@;
                let f = final(self)@;
                &&& (o.query.len() > 0 && o.suggestions.len() == 0 && !o.is_loading) ==> {
                    &&& (r == EnterOutcome::StartQuery) == ai_available
                    &&& !ai_available ==> r == EnterOutcome::Nothing
                    &&& f.is_open == o.is_open
                    &&& ai_available ==> {
                        &&& f.is_loading
                        &&& f.suggestions.len() == 0
                        &&& f.error_message is None
                    }
                    &&& !ai_available ==> {
                        &&& !f.is_loading
                        &&& f.suggestions == placeholder_suggestions(o.query)
                        &&& f.error_message == Some(not_running_message())
                        &&& !f.waiting
                    }
                }
                &&& o.suggestions.len() > 0 ==> {
                    &&& r matches EnterOutcome::Accept(s) && s@ == o.suggestions[o.selected_index as int]
                    &&& f == (QueryOverlayModel { is_open: false, ..o })
                }
                &&& (o.suggestions.len() == 0 && (o.query.len() == 0 || o.is_loading)) ==> {
                    &&& r == EnterOutcome::Nothing
                    &&& f == o
                }
            }),
    {
        if self.suggestions.len() == 0 {
            if self.query.as_str().unicode_len() > 0 && !self.is_loading {
                if self.begin_query(ai_available) {
                    return EnterOutcome::StartQuery;
                }
            }
            return EnterOutcome::Nothing;
        }
        let selected = self.suggestions[self.selected_index].clone();
        self.is_open = false;
        EnterOutcome::Accept(selected)
    }

    /// Escape: closes the overlay, keeping the rest as it is.
    pub fn press_escape(&mut self)
        ensures
            final(self)@ == (QueryOverlayModel { is_open: false, ..old(self)@ }),
    {
        self.is_open = false;
    }

    /// Arrow down: the next suggestion, wrapping around.
    pub fn select_next(&mut self)
        requires
            old(self)@.selected_index < usize::MAX,
        ensures
            final(self)@.suggestions == old(self)@.suggestions,
            final(self)@.selected_index == (if old(self)@.suggestions.len() == 0 {
                old(self)@.selected_index as int
            } else {
                (old(self)@.selected_index + 1) % (old(self)@.suggestions.len() as int)
            }),
    {
        if self.suggestions.len() > 0 {
            self.selected_index = (self.selected_index + 1) % self.suggestions.len();
        }
    }

    /// Arrow up: the previous suggestion, wrapping around.
    pub fn select_previous(&mut self)
        ensures
            final(self)@.suggestions == old(self)@.suggestions,
            final(self)@.selected_index == (if old(self)@.suggestions.len() == 0 {
                old(self)@.selected_index as int
            } else if old(self)@.selected_index == 0 {
                old(self)@.suggestions.len() - 1
            } else {
                old(self)@.selected_index - 1
            }),
    {
        if self.suggestions.len() > 0 {
            self.selected_index = if self.selected_index == 0 {
                self.suggestions.len() - 1
            } else {
                self.selected_index - 1
            };
        }
    }
}

} // verus!
