use dir_picker::entry::{bytes_precede, entry_precedes, sort_entries, Entry};

fn entry(path: &str, is_dir: bool) -> Entry {
    let name = path.rsplit('/').next().unwrap_or(path).to_string();
    Entry { path: path.to_string(), name, is_dir }
}

fn paths(entries: &[Entry]) -> Vec<&str> {
    entries.iter().map(|e| e.path.as_str()).collect()
}

#[test]
fn listing_puts_directories_first_then_sorts_by_path() {
    let raw = vec![entry("/a/beta", true), entry("/a/readme.txt", false), entry("/a/alpha", true)];
    let sorted = sort_entries(raw);
    assert_eq!(paths(&sorted), vec!["/a/alpha", "/a/beta", "/a/readme.txt"]);
    assert_eq!(sorted[0].name, "alpha");
    assert!(sorted[0].is_dir && sorted[1].is_dir && !sorted[2].is_dir);
}

#[test]
fn listing_keeps_files_after_directories_whatever_their_paths() {
    let raw = vec![entry("/a/aaa", false), entry("/a/zzz", true), entry("/a/mmm", false), entry("/a/bbb", true)];
    let sorted = sort_entries(raw);
    assert_eq!(paths(&sorted), vec!["/a/bbb", "/a/zzz", "/a/aaa", "/a/mmm"]);
}

#[test]
fn listing_orders_paths_by_bytes() {
    let raw = vec![entry("/a/b", true), entry("/a/B", true), entry("/a/abc", true), entry("/a/ab", true), entry("/a/\u{e9}", true)];
    let sorted = sort_entries(raw);
    assert_eq!(paths(&sorted), vec!["/a/B", "/a/ab", "/a/abc", "/a/b", "/a/\u{e9}"]);
}

#[test]
fn listing_of_nothing_is_empty() {
    assert!(sort_entries(Vec::new()).is_empty());
}

#[test]
fn listing_keeps_every_entry() {
    let raw = vec![entry("/d/x", false), entry("/d/x", false), entry("/d/a", true), entry("/d/x", true)];
    let sorted = sort_entries(raw.clone());
    assert_eq!(sorted.len(), raw.len());
    for e in &raw {
        let before = raw.iter().filter(|o| *o == e).count();
        let after = sorted.iter().filter(|o| *o == e).count();
        assert_eq!(before, after);
    }
    assert_eq!(paths(&sorted), vec!["/d/a", "/d/x", "/d/x", "/d/x"]);
}

#[test]
fn listing_is_sorted_for_many_inputs() {
    let mut seed: u32 = 12345;
    for round in 0..50 {
        let mut raw = Vec::new();
        for _ in 0..(round % 17) {
            seed = seed.wrapping_mul(1664525).wrapping_add(1013904223);
            let name = format!("/r/{}", (seed >> 20) % 50);
            raw.push(entry(&name, (seed >> 8) % 2 == 0));
        }
        let sorted = sort_entries(raw.clone());
        let mut expected = raw.clone();
        expected.sort_by(|a, b| b.is_dir.cmp(&a.is_dir).then(a.path.cmp(&b.path)));
        assert_eq!(sorted, expected);
        for w in sorted.windows(2) {
            assert!(entry_precedes(&w[0], &w[1]));
        }
    }
}

#[test]
fn byte_order_is_lexicographic() {
    assert!(bytes_precede(b"", b""));
    assert!(bytes_precede(b"", b"a"));
    assert!(!bytes_precede(b"a", b""));
    assert!(bytes_precede(b"abc", b"abd"));
    assert!(!bytes_precede(b"abd", b"abc"));
    assert!(bytes_precede(b"ab", b"abc"));
    assert!(!bytes_precede(b"abc", b"ab"));
    assert!(bytes_precede(b"abc", b"abc"));
    assert!(bytes_precede(b"Z", b"a"));
}

#[test]
fn entry_order_prefers_directories() {
    assert!(entry_precedes(&entry("/z", true), &entry("/a", false)));
    assert!(!entry_precedes(&entry("/a", false), &entry("/z", true)));
    assert!(entry_precedes(&entry("/a", false), &entry("/b", false)));
    assert!(entry_precedes(&entry("/a", true), &entry("/a", true)));
}
