//! The viewport: which contiguous run of rows of a listing is visible.

use vstd::prelude::*;

verus! {

/// The number of rows a frame shows.
pub const VISIBLE_ROWS: usize = 30;

/// The first visible index: half a screen above the selection, but never
/// below zero and never so far that the last screenful is cut short.
pub open spec fn window_skip(total: int, selected: int, capacity: int) -> int {
    let wanted = if selected - capacity / 2 > 0 { selected - capacity / 2 } else { 0 };
    let last = if total - capacity > 0 { total - capacity } else { 0 };
    if wanted < last { wanted } else { last }
}

/// The number of visible rows.
pub open spec fn window_take(total: int, capacity: int) -> int {
    if capacity < total { capacity } else { total }
}

/// Computes the visible slice `[skip, skip + take)` of a listing of
/// `total` rows with the row `selected` chosen and `capacity` rows on
/// screen.
pub fn window(total: usize, selected: usize, capacity: usize) -> (r: (usize, usize))
    ensures
        r.0 == window_skip(total as int, selected as int, capacity as int),
        r.1 == window_take(total as int, capacity as int),
        r.0 + r.1 <= total,
        selected < total && capacity >= 1 ==> r.0 <= selected < r.0 + r.1,
{
    let half: usize = capacity / 2;
    let wanted: usize = if selected > half { selected - half } else { 0 };
    let last: usize = if total > capacity { total - capacity } else { 0 };
    let skip: usize = if wanted < last { wanted } else { last };
    let take: usize = if capacity < total { capacity } else { total };
    (skip, take)
}

/// On a listing that fills the screen, the window is exactly one screen
/// long, lies inside the listing and holds the selected row.
pub proof fn lemma_window_holds_selection(total: int, selected: int, capacity: int)
    requires
        1 <= capacity <= total,
        0 <= selected < total,
    ensures
        window_take(total, capacity) == capacity,
        0 <= window_skip(total, selected, capacity),
        window_skip(total, selected, capacity) + window_take(total, capacity) <= total,
        window_skip(total, selected, capacity) <= selected,
        selected < window_skip(total, selected, capacity) + window_take(total, capacity),
{
}

/// On a listing that fills the screen, the window ends at row `capacity`
/// exactly when it starts at the top, which is when the selection lies
/// within half a screen of the top or the listing is one screen long.
pub proof fn lemma_window_at_top(total: int, selected: int, capacity: int)
    requires
        0 <= capacity <= total,
        0 <= selected,
    ensures
        window_skip(total, selected, capacity) + window_take(total, capacity) == capacity
            <==> (selected <= capacity / 2 || total == capacity),
{
}

/// Away from both ends of the listing the selected row stands half a
/// screen below the top of the window.
pub proof fn lemma_window_centred(total: int, selected: int, capacity: int)
    requires
        0 <= capacity <= total,
        capacity / 2 <= selected,
        selected - capacity / 2 <= total - capacity,
    ensures
        window_skip(total, selected, capacity) == selected - capacity / 2,
{
}

} // verus!
