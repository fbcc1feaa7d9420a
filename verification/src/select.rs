//! The match selector: which entry of a listing a typed query picks.
//!
//! Only directories can be picked. Each directory is offered to the fuzzy
//! scorer under its lower-cased file name; among those that the scorer
//! accepts the lowest score wins, then the shorter lower-cased name, then
//! the earlier place in the listing.

use vstd::prelude::*;
use vstd::utf8::encode_utf8;
use crate::entry::Entry;

verus! {

/// The lower-cased form of a text, as `str::to_lowercase` gives it.
pub uninterp spec fn lowercase_of(s: Seq<char>) -> Seq<char>;

/// Calls `str::to_lowercase`. The result depends on the text alone; it is
/// named, and nothing more is claimed of it.
#[verifier::external_body]
pub(crate) fn lowercase(s: &str) -> (r: String)
    ensures
        r@ == lowercase_of(s@),
{
    s.to_lowercase()
}

/// The score handed in for entry `i`; none where the scores run short.
pub open spec fn score_at(scores: Seq<Option<u32>>, i: int) -> Option<u32> {
    if 0 <= i < scores.len() {
        scores[i]
    } else {
        None
    }
}

/// The length in bytes of an entry's lower-cased file name.
pub open spec fn name_weight(e: Entry) -> nat {
    encode_utf8(lowercase_of(e.name@)).len()
}

/// Entry `i` takes part in the selection: it is a directory and the
/// scorer accepted it.
pub open spec fn is_candidate(entries: Seq<Entry>, scores: Seq<Option<u32>>, i: int) -> bool {
    &&& 0 <= i < entries.len()
    &&& entries[i].is_dir
    &&& score_at(scores, i) is Some
}

/// Candidate `i` ranks strictly before candidate `j`: a lower score, or
/// the same score and a shorter name.
pub open spec fn ranks_before(
    entries: Seq<Entry>,
    scores: Seq<Option<u32>>,
    i: int,
    j: int,
) -> bool {
    let si = score_at(scores, i).unwrap();
    let sj = score_at(scores, j).unwrap();
    si < sj || (si == sj && name_weight(entries[i]) < name_weight(entries[j]))
}

/// Candidate `i` is the one selected: no candidate ranks before it, and
/// it ranks before every candidate listed earlier.
pub open spec fn is_best(entries: Seq<Entry>, scores: Seq<Option<u32>>, i: int) -> bool {
    &&& is_candidate(entries, scores, i)
    &&& forall|j: int| #[trigger]
        is_candidate(entries, scores, j) ==> !ranks_before(entries, scores, j, i)
    &&& forall|j: int|
        j < i && #[trigger] is_candidate(entries, scores, j) ==> ranks_before(
            entries,
            scores,
            i,
            j,
        )
}

/// At most one entry is selected.
pub proof fn lemma_best_is_unique(entries: Seq<Entry>, scores: Seq<Option<u32>>, i: int, j: int)
    requires
        is_best(entries, scores, i),
        is_best(entries, scores, j),
    ensures
        i == j,
{
    if i < j {
        assert(is_candidate(entries, scores, i));
        assert(ranks_before(entries, scores, j, i));
        assert(!ranks_before(entries, scores, j, i));
    } else if j < i {
        assert(is_candidate(entries, scores, j));
        assert(ranks_before(entries, scores, i, j));
        assert(!ranks_before(entries, scores, i, j));
    }
}

/// Among the candidates below `upto` one ranks first.
proof fn lemma_best_below(entries: Seq<Entry>, scores: Seq<Option<u32>>, upto: int) -> (b: int)
    requires
        exists|i: int| i < upto && is_candidate(entries, scores, i),
    ensures
        is_candidate(entries, scores, b),
        b < upto,
        forall|j: int|
            j < upto && #[trigger] is_candidate(entries, scores, j) ==> !ranks_before(
                entries,
                scores,
                j,
                b,
            ),
        forall|j: int|
            j < b && #[trigger] is_candidate(entries, scores, j) ==> ranks_before(
                entries,
                scores,
                b,
                j,
            ),
    decreases upto,
{
    let last = upto - 1;
    if exists|i: int| i < last && is_candidate(entries, scores, i) {
        let prev = lemma_best_below(entries, scores, last);
        if is_candidate(entries, scores, last) && ranks_before(entries, scores, last, prev) {
            last
        } else {
            prev
        }
    } else {
        let w = choose|i: int| i < upto && is_candidate(entries, scores, i);
        assert(w == last);
        last
    }
}

/// An entry is selected exactly where some entry is a candidate.
pub proof fn lemma_best_exists(entries: Seq<Entry>, scores: Seq<Option<u32>>)
    ensures
        (exists|i: int| is_best(entries, scores, i)) <==> (exists|i: int|
            is_candidate(entries, scores, i)),
{
    if exists|i: int| is_candidate(entries, scores, i) {
        let w = choose|i: int| is_candidate(entries, scores, i);
        assert(w < entries.len() && is_candidate(entries, scores, w));
        let b = lemma_best_below(entries, scores, entries.len() as int);
        assert(is_best(entries, scores, b));
    }
    if exists|i: int| is_best(entries, scores, i) {
        let b = choose|i: int| is_best(entries, scores, i);
        assert(is_candidate(entries, scores, b));
    }
}

/// The lower-cased file name under which an entry is offered to the
/// scorer; none for a file, which is never offered.
pub fn candidate_name(e: &Entry) -> (r: Option<String>)
    ensures
        e.is_dir ==> r is Some && r.unwrap()@ == lowercase_of(e.name@),
        !e.is_dir ==> r is None,
{
    if e.is_dir {
        Some(lowercase(e.name.as_str()))
    } else {
        None
    }
}

/// The candidate names of a whole listing, entry by entry.
pub fn candidates(entries: &Vec<Entry>) -> (r: Vec<Option<String>>)
    ensures
        r@.len() == entries@.len(),
        forall|i: int|
            0 <= i < entries@.len() && entries@[i].is_dir ==> (#[trigger] r@[i]) is Some
                && r@[i].unwrap()@ == lowercase_of(entries@[i].name@),
        forall|i: int| 0 <= i < entries@.len() && !entries@[i].is_dir ==> (#[trigger] r@[i]) is None,
{
    let mut out: Vec<Option<String>> = Vec::new();
    let mut i: usize = 0;
    while i < entries.len()
        invariant
            i <= entries@.len(),
            out@.len() == i,
            forall|k: int|
                0 <= k < i && entries@[k].is_dir ==> (#[trigger] out@[k]) is Some
                    && out@[k].unwrap()@ == lowercase_of(entries@[k].name@),
            forall|k: int| 0 <= k < i && !entries@[k].is_dir ==> (#[trigger] out@[k]) is None,
        decreases entries@.len() - i,
    {
        out.push(candidate_name(&entries[i]));
        i += 1;
    }
    out
}

/// Picks the entry that a query selects, given for each entry the score
/// that the scorer gave its candidate name (`None`: no match). Scores at
/// files are ignored, and entries beyond the end of `scores` count as
/// unmatched.
pub fn select(entries: &Vec<Entry>, scores: &Vec<Option<u32>>) -> (r: Option<usize>)
    ensures
        match r {
            Some(i) => is_best(entries@, scores@, i as int),
            None => forall|i: int| !is_candidate(entries@, scores@, i),
        },
        r is Some ==> r.unwrap() < entries@.len() && entries@[r.unwrap() as int].is_dir,
{
    let mut best: Option<(usize, u32, usize)> = None;
    let mut i: usize = 0;
    while i < entries.len()
        invariant
            i <= entries@.len(),
            match best {
                Some((b, s, w)) => {
                    &&& b < i
                    &&& is_candidate(entries@, scores@, b as int)
                    &&& score_at(scores@, b as int) == Some(s)
                    &&& w == name_weight(entries@[b as int])
                    &&& forall|j: int|
                        j < i && #[trigger] is_candidate(entries@, scores@, j) ==> !ranks_before(
                            entries@,
                            scores@,
                            j,
                            b as int,
                        )
                    &&& forall|j: int|
                        j < b && #[trigger] is_candidate(entries@, scores@, j) ==> ranks_before(
                            entries@,
                            scores@,
                            b as int,
                            j,
                        )
                },
                None => forall|j: int| j < i ==> !is_candidate(entries@, scores@, j),
            },
        decreases entries@.len() - i,
    {
        if entries[i].is_dir && i < scores.len() {
            if let Some(s) = scores[i] {
                let lowered = lowercase(entries[i].name.as_str());
                let w: usize = lowered.as_str().as_bytes().len();
                let wins = match best {
                    Some((_, bs, bw)) => s < bs || (s == bs && w < bw),
                    None => true,
                };
                if wins {
                    best = Some((i, s, w));
                }
            }
        }
        i += 1;
    }
    match best {
        Some((b, _, _)) => Some(b),
        None => None,
    }
}

/// `score` is a result that `scorer` may give for the two texts.
pub open spec fn may_answer<F: Fn(&str, &str) -> Option<u32>>(
    scorer: F,
    query: Seq<char>,
    candidate: Seq<char>,
    score: Option<u32>,
) -> bool {
    exists|q: &str, name: &str|
        q@ == query && name@ == candidate && #[trigger] call_ensures(scorer, (q, name), score)
}

/// `scores` is an answer that `scorer` may give for a listing: for each
/// directory a result of the scorer on the query and the directory's
/// candidate name, and nothing for a file.
pub open spec fn scored_by<F: Fn(&str, &str) -> Option<u32>>(
    scorer: F,
    query: Seq<char>,
    entries: Seq<Entry>,
    scores: Seq<Option<u32>>,
) -> bool {
    &&& scores.len() == entries.len()
    &&& forall|i: int|
        0 <= i < entries.len() ==> if entries[i].is_dir {
            may_answer(scorer, query, lowercase_of(entries[i].name@), #[trigger] scores[i])
        } else {
            scores[i] is None
        }
}

/// Asks `scorer` about every directory of the listing, under its
/// candidate name. Files are not shown to the scorer.
pub fn score_listing<F: Fn(&str, &str) -> Option<u32>>(
    query: &str,
    entries: &Vec<Entry>,
    scorer: &F,
) -> (r: Vec<Option<u32>>)
    requires
        forall|q: &str, name: &str| call_requires(*scorer, (q, name)),
    ensures
        scored_by(*scorer, query@, entries@, r@),
{
    let mut out: Vec<Option<u32>> = Vec::new();
    let mut i: usize = 0;
    while i < entries.len()
        invariant
            i <= entries@.len(),
            out@.len() == i,
            forall|q: &str, name: &str| call_requires(*scorer, (q, name)),
            forall|k: int|
                0 <= k < i ==> if entries@[k].is_dir {
                    may_answer(*scorer, query@, lowercase_of(entries@[k].name@), #[trigger] out@[k])
                } else {
                    out@[k] is None
                },
        decreases entries@.len() - i,
    {
        if entries[i].is_dir {
            let lowered = lowercase(entries[i].name.as_str());
            let name: &str = lowered.as_str();
            let s = scorer(query, name);
            assert(call_ensures(*scorer, (query, name), s));
            assert(may_answer(*scorer, query@, lowercase_of(entries@[i as int].name@), s));
            out.push(s);
        } else {
            out.push(None);
        }
        i += 1;
    }
    out
}

/// Picks the entry that `query` selects, with `scorer` as the judge of
/// each directory's candidate name.
pub fn select_by<F: Fn(&str, &str) -> Option<u32>>(
    query: &str,
    entries: &Vec<Entry>,
    scorer: &F,
) -> (r: Option<usize>)
    requires
        forall|q: &str, name: &str| call_requires(*scorer, (q, name)),
    ensures
        exists|scores: Seq<Option<u32>>| #[trigger]
            scored_by(*scorer, query@, entries@, scores) && match r {
                Some(i) => is_best(entries@, scores, i as int),
                None => forall|i: int| !is_candidate(entries@, scores, i),
            },
        r is Some ==> r.unwrap() < entries@.len() && entries@[r.unwrap() as int].is_dir,
{
    let scores = score_listing(query, entries, scorer);
    select(entries, &scores)
}

} // verus!
