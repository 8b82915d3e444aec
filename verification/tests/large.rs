use klinit::large::{
    age_days, dupe_group, extras_plan, refine, find_large, hash_file, keep_entry, large_plan, largest_first_pairs, order_groups,
    same_hash_groups, same_size_groups, Candidate, FileInfo,
};
use klinit::plan::Category;

fn file(path: &str, size: u64, age_days: u64) -> FileInfo {
    FileInfo { path: path.to_string(), size, age_days }
}

fn copy(c: &Candidate) -> Candidate {
    Candidate { path: c.path.clone(), size: c.size, modified: c.modified, age_days: c.age_days }
}

fn cand(path: &str, size: u64, modified: i128) -> Candidate {
    Candidate { path: path.to_string(), size, modified, age_days: 0 }
}

#[test]
fn large_respects_threshold_and_skips_library() {
    assert!(!keep_entry("Library", 1, true));
    assert!(keep_entry("Library", 2, true));
    assert!(!keep_entry("Photos.photoslibrary", 3, true));
    assert!(keep_entry("big.bin", 1, false));
    let files = vec![file("/r/big.bin", 500, 0), file("/r/small.bin", 5, 0)];
    let found = find_large(files.clone(), 100, 0);
    assert_eq!(found.len(), 1);
    assert!(found[0].path.ends_with("big.bin"));
    assert!(find_large(files, 100, 30).is_empty());
}

#[test]
fn large_files_come_largest_first_with_their_age() {
    let files = vec![file("/r/a", 200, 3), file("/r/b", 900, 40), file("/r/c", 200, 1)];
    let found = find_large(files, 100, 0);
    let paths: Vec<&str> = found.iter().map(|f| f.path.as_str()).collect();
    assert_eq!(paths, ["/r/b", "/r/a", "/r/c"]);
    let plan = large_plan(found);
    assert_eq!(plan.items[0].reason, "40 days since modified");
    assert_eq!(plan.items[0].category, Category::Large);
    assert_eq!(age_days(Some(86_400 * 2 + 5)), 2);
    assert_eq!(age_days(None), 0);
}

#[test]
fn dupes_need_identical_content_not_just_size() {
    let one = vec![1u8; 10_000];
    let two = vec![1u8; 10_000];
    let three = vec![2u8; 10_000];
    let mut four = vec![1u8; 10_000];
    four[9_999] = 9; // same size and same 4 KB prefix, different tail
    let cands = vec![cand("/r/a/one", 10_000, 3), cand("/r/b/two", 10_000, 1), cand("/r/c/three", 10_000, 2), cand("/r/d/four", 10_000, 4)];
    let contents = [&one, &two, &three, &four];
    let by_size = same_size_groups(&cands, 0);
    assert_eq!(by_size, vec![vec![0, 1, 2, 3]]);
    let prefix: Vec<Option<Vec<u8>>> = by_size[0].iter().map(|&i| Some(hash_file(contents[i], Some(4096)))).collect();
    let by_prefix = same_hash_groups(&prefix);
    assert_eq!(by_prefix, vec![vec![0, 1, 3]]);
    let members: Vec<usize> = by_prefix[0].iter().map(|&k| by_size[0][k]).collect();
    let full: Vec<Option<Vec<u8>>> = members.iter().map(|&i| Some(hash_file(contents[i], None))).collect();
    let by_content = same_hash_groups(&full);
    assert_eq!(by_content, vec![vec![0, 1]]);
    let group: Vec<Candidate> = by_content[0].iter().map(|&k| copy(&cands[members[k]])).collect();
    let g = dupe_group(10_000, group);
    assert_eq!(g.files.len(), 2);
    assert_eq!(g.files[0].path, "/r/b/two");
    assert_eq!(g.wasted(), 10_000);
}

#[test]
fn hashing_a_prefix_differs_from_hashing_the_whole() {
    let data = vec![5u8; 100];
    assert_eq!(hash_file(&data, Some(10)), hash_file(&data[..10], None));
    assert_ne!(hash_file(&data, Some(10)), hash_file(&data, None));
    assert_eq!(hash_file(&data, Some(1000)), hash_file(&data, None));
    assert_eq!(hash_file(&data, None).len(), 32);
    assert_ne!(hash_file(&data, None), data[..32].to_vec());
}

#[test]
fn extras_plan_keeps_one_copy() {
    let g = dupe_group(50, vec![cand("/r/x", 50, 2), cand("/r/y", 50, 1), cand("/r/z", 50, 3)]);
    let groups = vec![g];
    let plan = extras_plan(&groups);
    assert_eq!(plan.items.len(), 2);
    assert!(!plan.items.iter().any(|i| i.path == groups[0].files[0].path));
    assert_eq!(plan.items[0].reason, "duplicate of /r/y");
}

#[test]
fn groups_are_ordered_by_waste() {
    let small = dupe_group(10, vec![cand("/a", 10, 0), cand("/b", 10, 0)]);
    let big = dupe_group(100, vec![cand("/c", 100, 0), cand("/d", 100, 0)]);
    let ordered = order_groups(vec![small, big]);
    assert_eq!(ordered[0].size, 100);
}

#[test]
fn small_and_empty_files_have_no_size_group() {
    let cands = vec![cand("/a", 0, 0), cand("/b", 0, 0), cand("/c", 5, 0), cand("/d", 5, 0), cand("/e", 7, 0)];
    assert_eq!(same_size_groups(&cands, 0), vec![vec![2, 3]]);
    assert!(same_size_groups(&cands, 6).is_empty());
}

#[test]
fn children_sorted_largest_first() {
    let sizes = largest_first_pairs(vec![("/d/small".to_string(), 1), ("/d/big".to_string(), 10)]);
    assert_eq!(sizes[0].1, 10);
}

#[test]
fn refining_keeps_positions_of_equal_digests() {
    let members = vec![4usize, 7, 9, 12];
    let a = Some(vec![1u8; 32]);
    let b = Some(vec![2u8; 32]);
    let hashes = vec![a.clone(), b.clone(), a.clone(), None];
    assert_eq!(refine(&members, &hashes), vec![vec![4, 9]]);
    assert_eq!(refine(&members, &vec![b.clone(), b.clone(), a.clone(), a.clone()]), vec![vec![4, 7], vec![9, 12]]);
    assert!(refine(&members, &vec![None, None, a, b]).is_empty());
}

#[test]
fn copies_a_fraction_of_a_second_apart_keep_the_older() {
    let g = dupe_group(50, vec![cand("/r/late", 50, 1_500_000_000), cand("/r/early", 50, 1_200_000_000)]);
    assert_eq!(g.files[0].path, "/r/early");
    let plan = extras_plan(&vec![g]);
    assert_eq!(plan.items.len(), 1);
    assert_eq!(plan.items[0].path, "/r/late");
}
