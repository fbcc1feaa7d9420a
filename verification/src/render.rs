//! The renderer's data: the draw instructions of one frame.
//!
//! A frame clears the screen, shows the browsed path and the query, and
//! then one row for each entry inside the window round the effective
//! cursor. No entry outside the window is touched.

use vstd::prelude::*;
use crate::entry::Entry;
use crate::nav::{Navigator, NavigatorView};
use crate::window::{window, window_skip, window_take, VISIBLE_ROWS};

verus! {

/// One draw instruction.
#[derive(Clone, Debug, PartialEq, Eq)]
pub enum Draw {
    /// Clear the screen and go to its origin.
    Clear,
    /// The line of the browsed path.
    PathLine(String),
    /// The line of the query, behind its prompt.
    QueryLine(String),
    /// One entry: its file name, whether it is styled as a directory, and
    /// whether it is highlighted as the selection.
    Row { name: String, is_dir: bool, selected: bool },
}

/// `d` is the row of entry `e`, highlighted or not.
pub open spec fn is_row(d: Draw, e: Entry, selected: bool) -> bool {
    match d {
        Draw::Row { name, is_dir, selected: s } => name@ == e.name@ && is_dir == e.is_dir && s
            == selected,
        _ => false,
    }
}

/// `rows` are the rows of the window of `capacity` rows round `cursor`:
/// one for each entry of the window, in order, the one at `cursor`
/// highlighted.
pub open spec fn are_rows(entries: Seq<Entry>, cursor: int, capacity: int, rows: Seq<Draw>) -> bool {
    let skip = window_skip(entries.len() as int, cursor, capacity);
    let take = window_take(entries.len() as int, capacity);
    &&& rows.len() == take
    &&& forall|k: int|
        0 <= k < take ==> is_row(#[trigger] rows[k], entries[skip + k], skip + k == cursor)
}

/// `f` is the frame of state `v` on a screen of `capacity` rows.
pub open spec fn is_frame(v: NavigatorView, capacity: int, f: Seq<Draw>) -> bool {
    &&& f.len() >= 3
    &&& f[0] is Clear
    &&& match f[1] {
        Draw::PathLine(p) => p@ == v.path,
        _ => false,
    }
    &&& match f[2] {
        Draw::QueryLine(q) => q@ == v.query,
        _ => false,
    }
    &&& are_rows(v.entries, v.effective_cursor() as int, capacity, f.skip(3))
}

/// Shapes the visible rows of a listing.
pub fn rows(entries: &Vec<Entry>, cursor: usize, capacity: usize) -> (r: Vec<Draw>)
    ensures
        are_rows(entries@, cursor as int, capacity as int, r@),
{
    let (skip, take) = window(entries.len(), cursor, capacity);
    let mut out: Vec<Draw> = Vec::new();
    let mut k: usize = 0;
    while k < take
        invariant
            k <= take,
            skip + take <= entries@.len() <= usize::MAX,
            out@.len() == k,
            forall|j: int|
                0 <= j < k ==> is_row(#[trigger] out@[j], entries@[skip + j], skip + j == cursor),
        decreases take - k,
    {
        let e = &entries[skip + k];
        out.push(Draw::Row { name: e.name.clone(), is_dir: e.is_dir, selected: skip + k == cursor });
        k += 1;
    }
    out
}

/// Shapes one frame of the session.
pub fn frame(nav: &Navigator) -> (r: Vec<Draw>)
    ensures
        is_frame(nav@, VISIBLE_ROWS as int, r@),
{
    let mut out: Vec<Draw> = Vec::new();
    out.push(Draw::Clear);
    out.push(Draw::PathLine(nav.current_path().clone()));
    out.push(Draw::QueryLine(nav.query().clone()));
    let mut body = rows(nav.entries(), nav.effective_cursor(), VISIBLE_ROWS);
    let ghost tail = body@;
    out.append(&mut body);
    assert(out@.skip(3) =~= tail);
    out
}

} // verus!
