//! Directory entries and the order in which a listing shows them.

use vstd::prelude::*;
use vstd::multiset::*;
use vstd::seq_lib::*;
use vstd::utf8::encode_utf8;

verus! {

/// One child of the browsed directory: its full path, its file name and
/// whether it is itself a directory.
#[derive(Clone, Debug, PartialEq, Eq)]
pub struct Entry {
    pub path: String,
    pub name: String,
    pub is_dir: bool,
}

/// Why a directory could not be listed.
#[derive(Clone, Copy, Debug, PartialEq, Eq)]
pub enum ListError {
    /// The directory is no longer there.
    NotFound,
    /// The directory may not be read.
    PermissionDenied,
    /// The path does not name a directory.
    NotADirectory,
    /// Any other failure to read it.
    Other,
}

/// Lexicographic order on byte strings, read from position `from` on: the
/// first differing byte decides, and a prefix comes before its extensions.
pub open spec fn bytes_le(a: Seq<u8>, b: Seq<u8>, from: int) -> bool
    decreases a.len() - from,
{
    if from < 0 || from >= a.len() {
        true
    } else if from >= b.len() {
        false
    } else if a[from] != b[from] {
        a[from] < b[from]
    } else {
        bytes_le(a, b, from + 1)
    }
}

/// Path order: the order of the paths' UTF-8 bytes.
pub open spec fn path_le(a: Seq<char>, b: Seq<char>) -> bool {
    bytes_le(encode_utf8(a), encode_utf8(b), 0)
}

/// Listing order: directories before files, and by path within each group.
pub open spec fn entry_le(a: Entry, b: Entry) -> bool {
    if a.is_dir != b.is_dir {
        a.is_dir
    } else {
        path_le(a.path@, b.path@)
    }
}

/// A listing is sorted when every entry precedes all that follow it.
pub open spec fn is_sorted(s: Seq<Entry>) -> bool {
    forall|i: int, j: int| 0 <= i < j < s.len() ==> entry_le(#[trigger] s[i], #[trigger] s[j])
}

/// Of two byte strings one precedes the other.
pub proof fn lemma_bytes_le_total(a: Seq<u8>, b: Seq<u8>, from: int)
    ensures
        bytes_le(a, b, from) || bytes_le(b, a, from),
    decreases a.len() - from,
{
    if 0 <= from < a.len() && from < b.len() && a[from] == b[from] {
        lemma_bytes_le_total(a, b, from + 1);
    }
}

/// The byte order is transitive.
pub proof fn lemma_bytes_le_transitive(a: Seq<u8>, b: Seq<u8>, c: Seq<u8>, from: int)
    requires
        bytes_le(a, b, from),
        bytes_le(b, c, from),
    ensures
        bytes_le(a, c, from),
    decreases a.len() - from,
{
    if 0 <= from < a.len() {
        if a[from] == b[from] && b[from] == c[from] {
            lemma_bytes_le_transitive(a, b, c, from + 1);
        }
    }
}

/// Of two entries one precedes the other.
pub proof fn lemma_entry_le_total(a: Entry, b: Entry)
    ensures
        entry_le(a, b) || entry_le(b, a),
{
    lemma_bytes_le_total(encode_utf8(a.path@), encode_utf8(b.path@), 0);
}

/// The listing order is transitive.
pub proof fn lemma_entry_le_transitive(a: Entry, b: Entry, c: Entry)
    requires
        entry_le(a, b),
        entry_le(b, c),
    ensures
        entry_le(a, c),
{
    if a.is_dir == b.is_dir && b.is_dir == c.is_dir {
        lemma_bytes_le_transitive(
            encode_utf8(a.path@),
            encode_utf8(b.path@),
            encode_utf8(c.path@),
            0,
        );
    }
}

/// In a sorted listing no file stands before a directory, and paths do
/// not decrease among the directories nor among the files.
pub proof fn lemma_sorted_groups(s: Seq<Entry>, i: int, j: int)
    requires
        is_sorted(s),
        0 <= i < j < s.len(),
    ensures
        s[j].is_dir ==> s[i].is_dir,
        s[i].is_dir == s[j].is_dir ==> path_le(s[i].path@, s[j].path@),
{
    assert(entry_le(s[i], s[j]));
}

/// Decides the byte order.
pub fn bytes_precede(a: &[u8], b: &[u8]) -> (r: bool)
    ensures
        r == bytes_le(a@, b@, 0),
{
    let mut i: usize = 0;
    while i < a.len() && i < b.len() && a[i] == b[i]
        invariant
            i <= a.len(),
            i <= b.len(),
            bytes_le(a@, b@, 0) == bytes_le(a@, b@, i as int),
        decreases a.len() - i,
    {
        i += 1;
    }
    if i >= a.len() {
        true
    } else if i >= b.len() {
        false
    } else {
        a[i] < b[i]
    }
}

/// Decides the listing order.
pub fn entry_precedes(a: &Entry, b: &Entry) -> (r: bool)
    ensures
        r == entry_le(*a, *b),
{
    if a.is_dir != b.is_dir {
        a.is_dir
    } else {
        bytes_precede(a.path.as_str().as_bytes(), b.path.as_str().as_bytes())
    }
}

/// Puts the children of a directory into listing order. The result holds
/// the same entries, each as often as `raw` does.
pub fn sort_entries(raw: Vec<Entry>) -> (r: Vec<Entry>)
    ensures
        is_sorted(r@),
        r@.to_multiset() == raw@.to_multiset(),
        r@.len() == raw@.len(),
{
    broadcast use group_multiset_axioms;

    let ghost all = raw@.to_multiset();
    let mut rest = raw;
    let mut out: Vec<Entry> = Vec::new();
    assert(out@.to_multiset() =~= Multiset::<Entry>::empty()) by {
        out@.to_multiset_ensures();
    }
    while rest.len() > 0
        invariant
            is_sorted(out@),
            rest@.to_multiset().add(out@.to_multiset()) == all,
        decreases rest.len(),
    {
        let ghost before = rest@;
        let ghost placed = out@;
        let e = rest.pop().unwrap();
        proof {
            assert(before =~= rest@.push(e));
            to_multiset_build(rest@, e);
        }
        let mut p: usize = 0;
        while p < out.len() && !entry_precedes(&e, &out[p])
            invariant
                p <= out.len(),
                out@ == placed,
                forall|k: int| 0 <= k < p ==> entry_le(#[trigger] out@[k], e),
            decreases out.len() - p,
        {
            proof {
                lemma_entry_le_total(e, out@[p as int]);
            }
            p += 1;
        }
        out.insert(p, e);
        proof {
            to_multiset_insert(placed, p as int, e);
            assert(rest@.to_multiset().add(out@.to_multiset()) =~= all);
            assert forall|i: int, j: int| 0 <= i < j < out@.len() implies entry_le(
                #[trigger] out@[i],
                #[trigger] out@[j],
            ) by {
                if j == p {
                    assert(out@[i] == placed[i]);
                } else if i == p {
                    assert(out@[j] == placed[j - 1]);
                    if j - 1 > p {
                        assert(entry_le(placed[p as int], placed[j - 1]));
                        lemma_entry_le_transitive(e, placed[p as int], placed[j - 1]);
                    }
                } else {
                    let oi = if i < p { i } else { i - 1 };
                    let oj = if j < p { j } else { j - 1 };
                    assert(out@[i] == placed[oi]);
                    assert(out@[j] == placed[oj]);
                    assert(entry_le(placed[oi], placed[oj]));
                }
            }
        }
    }
    proof {
        assert(rest@.to_multiset() =~= Multiset::<Entry>::empty()) by {
            rest@.to_multiset_ensures();
            assert(rest@ =~= Seq::<Entry>::empty());
        }
        assert(out@.to_multiset() =~= all);
        to_multiset_len(out@);
        to_multiset_len(raw@);
    }
    out
}

} // verus!
