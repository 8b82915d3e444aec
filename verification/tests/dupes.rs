use klinit::dupes::{dupe_search, prefix_stage};
use klinit::large::Candidate;

fn cand(path: &str, size: u64) -> Candidate {
    Candidate { path: path.to_string(), size, modified: 0, age_days: 0 }
}

fn d(b: u8) -> Option<Vec<u8>> {
    Some(vec![b; 32])
}

#[test]
fn copies_are_found_through_all_three_stages() {
    // a, b, c and e share a size; d is alone; f is too small.
    let files = vec![cand("/a", 10), cand("/b", 10), cand("/c", 10), cand("/d", 20), cand("/e", 10), cand("/f", 1)];
    let prefix = vec![d(1), d(1), d(1), None, d(2), None];
    assert_eq!(prefix_stage(&files, 5, &prefix), vec![vec![0, 1, 2]]);
    // c differs from a and b only past the prefix.
    let full = vec![d(7), d(7), d(8), None, None, None];
    assert_eq!(dupe_search(&files, 5, &prefix, &full), vec![vec![0, 1]]);
}

#[test]
fn unreadable_files_join_no_set() {
    let files = vec![cand("/a", 10), cand("/b", 10), cand("/c", 10)];
    let prefix = vec![d(1), None, d(1)];
    let full = vec![d(3), d(3), d(3)];
    assert_eq!(dupe_search(&files, 1, &prefix, &full), vec![vec![0, 2]]);
    assert!(dupe_search(&files, 1, &prefix, &vec![d(3), d(3), None]).is_empty());
}

#[test]
fn each_size_makes_its_own_sets() {
    let files = vec![cand("/a", 10), cand("/b", 20), cand("/c", 10), cand("/d", 20)];
    let same = vec![d(1), d(1), d(1), d(1)];
    assert_eq!(dupe_search(&files, 1, &same, &same), vec![vec![0, 2], vec![1, 3]]);
}
