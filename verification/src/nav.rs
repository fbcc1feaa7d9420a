//! The navigation state machine: the browsed directory, its listing, the
//! two cursors and the query, and how a key event changes them.
//!
//! The machine performs no input or output. A step answers with an
//! [`Action`] for the caller to carry out; after trying to list a
//! directory the caller reports the outcome through
//! [`Navigator::entered`] or [`Navigator::ascended`]. A failed listing
//! leaves the state as it was.

use vstd::prelude::*;
use crate::entry::{is_sorted, sort_entries, Entry, ListError};
use crate::select::{
    is_best, is_candidate, lemma_best_exists, lemma_best_is_unique, score_listing, scored_by, select,
};

verus! {

/// `String::push` appends one character to the text.
pub assume_specification[ String::push ](s: &mut String, ch: char)
    ensures
        final(s)@ == old(s)@.push(ch),
;

/// A key event, by meaning. `TypeCharacter` carries the typed character
/// and, for each entry of the listing, the score that the fuzzy scorer
/// gave the entry's candidate name for the query with that character
/// appended.
#[derive(Clone, Debug, PartialEq, Eq)]
pub enum Event {
    MoveUp,
    MoveDown,
    DescendIfDir,
    Ascend,
    ConfirmAndDescend,
    ConfirmCurrent,
    TypeCharacter(char, Vec<Option<u32>>),
    ClearQuery,
    Cancel,
    Other,
}

/// What the caller does after a step.
#[derive(Clone, Debug, PartialEq, Eq)]
pub enum Action {
    /// Draw the state again.
    Redraw,
    /// List the directory at this path and report it with `entered`.
    Descend(String),
    /// List the parent of the browsed directory and report it with
    /// `ascended`.
    Ascend,
    /// Write this path to the output channel and end the session.
    Emit(String),
    /// End the session and write nothing.
    Quit,
}

/// The state of one session.
#[derive(Clone, Debug, PartialEq, Eq)]
pub struct Navigator {
    current_path: String,
    entries: Vec<Entry>,
    movement_cursor: usize,
    query_cursor: usize,
    query: String,
}

/// The state as mathematics.
pub struct NavigatorView {
    pub path: Seq<char>,
    pub entries: Seq<Entry>,
    pub movement_cursor: nat,
    pub query_cursor: nat,
    pub query: Seq<char>,
}

impl NavigatorView {
    /// The cursor that is drawn and acted on: the movement cursor while
    /// the query is empty, the query cursor otherwise.
    pub open spec fn effective_cursor(self) -> nat {
        if self.query.len() == 0 {
            self.movement_cursor
        } else {
            self.query_cursor
        }
    }

    /// A query is being typed: the session is filtering. Otherwise it is
    /// browsing.
    pub open spec fn is_filtering(self) -> bool {
        self.query.len() > 0
    }

    /// The listing is sorted and both cursors point into it (at 0 where
    /// it is empty).
    pub open spec fn wf(self) -> bool {
        &&& is_sorted(self.entries)
        &&& self.entries.len() == 0 ==> self.movement_cursor == 0 && self.query_cursor == 0
        &&& self.entries.len() > 0 ==> self.movement_cursor < self.entries.len()
            && self.query_cursor < self.entries.len()
    }

    /// The path of the entry under the effective cursor, where that entry
    /// exists and is a directory.
    pub open spec fn selected_dir(self) -> Option<Seq<char>> {
        let c = self.effective_cursor() as int;
        if c < self.entries.len() && self.entries[c].is_dir {
            Some(self.entries[c].path@)
        } else {
            None
        }
    }

    /// The state after a movement to `cursor`: browsing again.
    pub open spec fn browsing_at(self, cursor: nat) -> NavigatorView {
        NavigatorView {
            path: self.path,
            entries: self.entries,
            movement_cursor: cursor,
            query_cursor: 0,
            query: Seq::empty(),
        }
    }

    /// The state after Move-Up.
    pub open spec fn moved_up(self) -> NavigatorView {
        let c = self.effective_cursor();
        self.browsing_at(if c > 0 { (c - 1) as nat } else { 0 })
    }

    /// The state after Move-Down.
    pub open spec fn moved_down(self) -> NavigatorView {
        let c = self.effective_cursor();
        let last: nat = if self.entries.len() > 0 { (self.entries.len() - 1) as nat } else { 0 };
        self.browsing_at(if c + 1 < last { c + 1 } else { last })
    }

    /// The state after Clear-Query.
    pub open spec fn cleared(self) -> NavigatorView {
        NavigatorView {
            path: self.path,
            entries: self.entries,
            movement_cursor: self.movement_cursor,
            query_cursor: 0,
            query: Seq::empty(),
        }
    }

    /// `post` is the state after typing `c`, the scorer having answered
    /// with `scores`: the query has grown by `c`, the query cursor stands
    /// at the selected entry, and where nothing is selected it stands
    /// where it stood.
    pub open spec fn typed(self, c: char, scores: Seq<Option<u32>>, post: NavigatorView) -> bool {
        &&& post.path == self.path
        &&& post.entries == self.entries
        &&& post.movement_cursor == self.movement_cursor
        &&& post.query == self.query.push(c)
        &&& forall|i: int| #[trigger] is_best(self.entries, scores, i) ==> post.query_cursor == i
        &&& (forall|i: int| !is_candidate(self.entries, scores, i)) ==> post.query_cursor
            == self.query_cursor
    }

    /// `post` is the state after `event`.
    pub open spec fn steps_to(self, event: Event, post: NavigatorView) -> bool {
        match event {
            Event::MoveUp => post == self.moved_up(),
            Event::MoveDown => post == self.moved_down(),
            Event::TypeCharacter(c, scores) => self.typed(c, scores@, post),
            Event::ClearQuery => post == self.cleared(),
            _ => post == self,
        }
    }

    /// `action` is what `event` asks of the caller in this state.
    pub open spec fn asks(self, event: Event, action: Action) -> bool {
        match event {
            Event::DescendIfDir => match self.selected_dir() {
                Some(p) => match action {
                    Action::Descend(q) => q@ == p,
                    _ => false,
                },
                None => action is Redraw,
            },
            Event::Ascend => action is Ascend,
            Event::ConfirmAndDescend => match self.selected_dir() {
                Some(p) => match action {
                    Action::Emit(q) => q@ == p,
                    _ => false,
                },
                None => action is Redraw,
            },
            Event::ConfirmCurrent => match action {
                Action::Emit(q) => q@ == self.path,
                _ => false,
            },
            Event::Cancel => action is Quit,
            _ => action is Redraw,
        }
    }

    /// This state shows `listing`, freshly read from the directory at
    /// `path`: the same entries in listing order, no query, and the
    /// movement cursor at `cursor`.
    pub open spec fn shows(self, path: Seq<char>, listing: Seq<Entry>, cursor: nat) -> bool {
        &&& self.path == path
        &&& is_sorted(self.entries)
        &&& self.entries.to_multiset() == listing.to_multiset()
        &&& self.entries.len() == listing.len()
        &&& self.movement_cursor == cursor
        &&& self.query_cursor == 0
        &&& self.query == Seq::<char>::empty()
    }
}

/// `r` is the place of `path` in `entries`: the index of the first entry
/// with that path, and 0 where there is none.
pub open spec fn is_position(entries: Seq<Entry>, path: Seq<char>, r: nat) -> bool {
    if exists|k: int| 0 <= k < entries.len() && (#[trigger] entries[k]).path@ == path {
        &&& r < entries.len()
        &&& entries[r as int].path@ == path
        &&& forall|k: int| 0 <= k < r ==> (#[trigger] entries[k]).path@ != path
    } else {
        r == 0
    }
}

/// Finds the place of `path` in `entries`.
pub fn position(entries: &Vec<Entry>, path: &String) -> (r: usize)
    ensures
        is_position(entries@, path@, r as nat),
{
    let mut i: usize = 0;
    while i < entries.len()
        invariant
            i <= entries@.len(),
            forall|k: int| 0 <= k < i ==> (#[trigger] entries@[k]).path@ != path@,
        decreases entries@.len() - i,
    {
        if entries[i].path == *path {
            return i;
        }
        i += 1;
    }
    0
}

impl View for Navigator {
    type V = NavigatorView;

    closed spec fn view(&self) -> NavigatorView {
        NavigatorView {
            path: self.current_path@,
            entries: self.entries@,
            movement_cursor: self.movement_cursor as nat,
            query_cursor: self.query_cursor as nat,
            query: self.query@,
        }
    }
}

impl Navigator {
    /// Starts a session in the directory at `path`, whose children are
    /// `listing` in any order.
    pub fn new(path: String, listing: Vec<Entry>) -> (r: Navigator)
        ensures
            r@.shows(path@, listing@, 0),
            r@.wf(),
    {
        Navigator {
            current_path: path,
            entries: sort_entries(listing),
            movement_cursor: 0,
            query_cursor: 0,
            query: String::new(),
        }
    }

    /// The browsed directory.
    pub fn current_path(&self) -> (r: &String)
        ensures
            r@ == self@.path,
    {
        &self.current_path
    }

    /// The listing of the browsed directory.
    pub fn entries(&self) -> (r: &Vec<Entry>)
        ensures
            r@ == self@.entries,
    {
        &self.entries
    }

    /// The movement cursor.
    pub fn movement_cursor(&self) -> (r: usize)
        ensures
            r == self@.movement_cursor,
    {
        self.movement_cursor
    }

    /// The query cursor.
    pub fn query_cursor(&self) -> (r: usize)
        ensures
            r == self@.query_cursor,
    {
        self.query_cursor
    }

    /// The query.
    pub fn query(&self) -> (r: &String)
        ensures
            r@ == self@.query,
    {
        &self.query
    }

    /// The cursor that is drawn and acted on.
    pub fn effective_cursor(&self) -> (r: usize)
        ensures
            r == self@.effective_cursor(),
    {
        if self.query.as_str().is_empty() {
            self.movement_cursor
        } else {
            self.query_cursor
        }
    }

    /// Whether a query is being typed.
    pub fn is_filtering(&self) -> (r: bool)
        ensures
            r == self@.is_filtering(),
    {
        !self.query.as_str().is_empty()
    }

    /// The query as it will read once `c` is typed: the text to hand to
    /// the scorer before the step.
    pub fn query_after(&self, c: char) -> (r: String)
        ensures
            r@ == self@.query.push(c),
    {
        let mut q = self.query.clone();
        q.push(c);
        q
    }

    /// The path of the directory under the effective cursor, if a
    /// directory stands there.
    pub fn selected_dir(&self) -> (r: Option<String>)
        ensures
            match self@.selected_dir() {
                Some(p) => r is Some && r.unwrap()@ == p,
                None => r is None,
            },
    {
        let c: usize = self.effective_cursor();
        if c < self.entries.len() && self.entries[c].is_dir {
            Some(self.entries[c].path.clone())
        } else {
            None
        }
    }

    /// Takes one key event: changes the state as the event says and
    /// answers what the caller is to do.
    pub fn step(&mut self, event: Event) -> (action: Action)
        ensures
            old(self)@.steps_to(event, final(self)@),
            old(self)@.asks(event, action),
            old(self)@.wf() ==> final(self)@.wf(),
    {
        match event {
            Event::MoveUp => {
                let c: usize = self.effective_cursor();
                self.movement_cursor = if c > 0 { c - 1 } else { 0 };
                self.query_cursor = 0;
                self.query = String::new();
                Action::Redraw
            },
            Event::MoveDown => {
                let c: usize = self.effective_cursor();
                let n: usize = self.entries.len();
                let last: usize = if n > 0 { n - 1 } else { 0 };
                self.movement_cursor = if c < last { c + 1 } else { last };
                self.query_cursor = 0;
                self.query = String::new();
                Action::Redraw
            },
            Event::DescendIfDir => {
                match self.selected_dir() {
                    Some(p) => Action::Descend(p),
                    None => Action::Redraw,
                }
            },
            Event::Ascend => Action::Ascend,
            Event::ConfirmAndDescend => {
                match self.selected_dir() {
                    Some(p) => Action::Emit(p),
                    None => Action::Redraw,
                }
            },
            Event::ConfirmCurrent => Action::Emit(self.current_path.clone()),
            Event::TypeCharacter(c, scores) => {
                self.query.push(c);
                match select(&self.entries, &scores) {
                    Some(i) => {
                        self.query_cursor = i;
                        proof {
                            assert forall|j: int| #[trigger]
                                is_best(self.entries@, scores@, j) implies i == j by {
                                lemma_best_is_unique(self.entries@, scores@, i as int, j);
                            }
                        }
                    },
                    None => {
                        assert forall|j: int| #[trigger]
                            is_best(self.entries@, scores@, j) implies false by {
                            assert(is_candidate(self.entries@, scores@, j));
                        }
                    },
                }
                Action::Redraw
            },
            Event::ClearQuery => {
                self.query = String::new();
                self.query_cursor = 0;
                Action::Redraw
            },
            Event::Cancel => Action::Quit,
            Event::Other => Action::Redraw,
        }
    }

    /// Takes a typed character with `scorer` as the fuzzy scorer: asks it
    /// about every directory of the listing for the query with `c`
    /// appended, and steps with its answers.
    pub fn type_character<F: Fn(&str, &str) -> Option<u32>>(
        &mut self,
        c: char,
        scorer: &F,
    ) -> (action: Action)
        requires
            forall|q: &str, name: &str| call_requires(*scorer, (q, name)),
        ensures
            exists|scores: Seq<Option<u32>>| #[trigger]
                scored_by(*scorer, old(self)@.query.push(c), old(self)@.entries, scores)
                    && old(self)@.typed(c, scores, final(self)@),
            action is Redraw,
            old(self)@.wf() ==> final(self)@.wf(),
    {
        let query = self.query_after(c);
        let scores = score_listing(query.as_str(), &self.entries, scorer);
        let ghost answers = scores@;
        let action = self.step(Event::TypeCharacter(c, scores));
        assert(scored_by(*scorer, old(self)@.query.push(c), old(self)@.entries, answers));
        action
    }

    /// Reports how the listing of the directory at `path`, asked for by a
    /// `Descend` action, went. Listed, it becomes the browsed directory,
    /// with both cursors at the top and no query. Not listed, nothing
    /// changes and the error is handed back.
    pub fn entered(
        &mut self,
        path: String,
        outcome: Result<Vec<Entry>, ListError>,
    ) -> (r: Result<(), ListError>)
        ensures
            match outcome {
                Ok(listing) => r is Ok && final(self)@.shows(path@, listing@, 0),
                Err(e) => r == Err::<(), ListError>(e) && final(self)@ == old(self)@,
            },
            old(self)@.wf() ==> final(self)@.wf(),
    {
        match outcome {
            Ok(listing) => {
                self.current_path = path;
                self.entries = sort_entries(listing);
                self.movement_cursor = 0;
                self.query_cursor = 0;
                self.query = String::new();
                Ok(())
            },
            Err(e) => Err(e),
        }
    }

    /// Reports how the listing of the parent of the browsed directory,
    /// asked for by an `Ascend` action, went; `parent` is the parent's
    /// path, or at a root the browsed path itself. Listed, the parent
    /// becomes the browsed directory, with the movement cursor on the
    /// directory that was left where the listing holds it, and at the top
    /// where it does not. Not listed, nothing changes and the error is
    /// handed back.
    pub fn ascended(
        &mut self,
        parent: String,
        outcome: Result<Vec<Entry>, ListError>,
    ) -> (r: Result<(), ListError>)
        ensures
            match outcome {
                Ok(listing) => {
                    &&& r is Ok
                    &&& final(self)@.shows(parent@, listing@, final(self)@.movement_cursor)
                    &&& is_position(
                        final(self)@.entries,
                        old(self)@.path,
                        final(self)@.movement_cursor,
                    )
                },
                Err(e) => r == Err::<(), ListError>(e) && final(self)@ == old(self)@,
            },
            old(self)@.wf() ==> final(self)@.wf(),
    {
        match outcome {
            Ok(listing) => {
                let sorted = sort_entries(listing);
                let cursor: usize = position(&sorted, &self.current_path);
                self.current_path = parent;
                self.entries = sorted;
                self.movement_cursor = cursor;
                self.query_cursor = 0;
                self.query = String::new();
                Ok(())
            },
            Err(e) => Err(e),
        }
    }
}

/// The place of a path in a listing is one number.
pub proof fn lemma_position_is_unique(entries: Seq<Entry>, path: Seq<char>, a: nat, b: nat)
    requires
        is_position(entries, path, a),
        is_position(entries, path, b),
    ensures
        a == b,
{
}

/// Typing a character leads to one state: two states that both follow
/// from the same state, character and scores are equal.
pub proof fn lemma_typed_is_determinate(
    pre: NavigatorView,
    c: char,
    scores: Seq<Option<u32>>,
    first: NavigatorView,
    second: NavigatorView,
)
    requires
        pre.typed(c, scores, first),
        pre.typed(c, scores, second),
    ensures
        first == second,
{
    lemma_best_exists(pre.entries, scores);
    if exists|i: int| is_candidate(pre.entries, scores, i) {
        let b = choose|i: int| is_best(pre.entries, scores, i);
        assert(is_best(pre.entries, scores, b));
        assert(first.query_cursor == b && second.query_cursor == b);
    }
}

/// Movement and Clear-Query lead to browsing and a typed character to
/// filtering; every other event leaves the mode as it is.
pub proof fn lemma_event_sets_mode(pre: NavigatorView, event: Event, post: NavigatorView)
    requires
        pre.steps_to(event, post),
    ensures
        match event {
            Event::MoveUp | Event::MoveDown | Event::ClearQuery => !post.is_filtering(),
            Event::TypeCharacter(_, _) => post.is_filtering(),
            _ => post.is_filtering() == pre.is_filtering(),
        },
{
}

/// Clear-Query is idempotent: a second one changes nothing, and after
/// either the query is empty and the query cursor is 0.
pub proof fn lemma_clear_query_idempotent(
    pre: NavigatorView,
    once: NavigatorView,
    twice: NavigatorView,
)
    requires
        pre.steps_to(Event::ClearQuery, once),
        once.steps_to(Event::ClearQuery, twice),
    ensures
        twice == once,
        once.query.len() == 0,
        once.query_cursor == 0,
        once.movement_cursor == pre.movement_cursor,
        once.entries == pre.entries,
        once.path == pre.path,
{
}

/// A typed character that selects no entry leaves the query cursor where
/// it stood, whatever the movement cursor is.
pub proof fn lemma_unmatched_query_keeps_cursor(
    pre: NavigatorView,
    c: char,
    scores: Seq<Option<u32>>,
    post: NavigatorView,
)
    requires
        pre.typed(c, scores, post),
        forall|i: int| !is_candidate(pre.entries, scores, i),
    ensures
        post.query_cursor == pre.query_cursor,
        post.movement_cursor == pre.movement_cursor,
{
}

} // verus!
