//! Large/old file finder and duplicate finder. Both are read-only; removal is always opt-in.

use vstd::prelude::*;
use vstd::slice::slice_subrange;
use crate::group::{group_positions, group_views, key_views, lemma_groups_in_range, repeated_groups};
use crate::plan::{item_views, Category, Item, ItemView, Plan};
use crate::sort::{sort_stable, sorted_by, stable_sort, stable_sort_is_sorted, stable_sort_permutes};
use crate::text::{concat, ends_with_str, str_eq};

verus! {

/// A regular file found under the scanned root.
pub struct FileInfo {
    pub path: String,
    pub size: u64,
    /// Days since last modification.
    pub age_days: u64,
}

impl Clone for FileInfo {
    fn clone(&self) -> (r: Self)
        ensures
            r == *self,
    {
        FileInfo { path: self.path.clone(), size: self.size, age_days: self.age_days }
    }
}

/// Whether the walk descends into (or reports) an entry: `Library` and the Trash at the top
/// level, and app/photo-library packages anywhere, are skipped because their contents are not
/// user files.
pub open spec fn walked(name: Seq<char>, depth: nat, is_dir: bool) -> bool {
    &&& !(depth == 1 && (name == "Library"@ || name == ".Trash"@))
    &&& !(is_dir && (".app"@.is_suffix_of(name) || ".photoslibrary"@.is_suffix_of(name)
        || ".imovielibrary"@.is_suffix_of(name)))
}

/// App bundles, Photos libraries and iMovie libraries are packages, not folders of user files:
/// a directory whose name ends in `.app`, `.photoslibrary` or `.imovielibrary` is never entered
/// nor reported, at any depth.
pub proof fn packages_are_not_walked(name: Seq<char>, depth: nat)
    requires
        ".app"@.is_suffix_of(name) || ".photoslibrary"@.is_suffix_of(name) || ".imovielibrary"@.is_suffix_of(name),
    ensures
        !walked(name, depth, true),
{
}

/// Only `Library` and the Trash are skipped at the top; any other entry that is not a
/// package directory is walked.
pub proof fn other_entries_are_walked(name: Seq<char>, depth: nat, is_dir: bool)
    requires
        depth != 1 || (name != "Library"@ && name != ".Trash"@),
        !is_dir || !(".app"@.is_suffix_of(name) || ".photoslibrary"@.is_suffix_of(name) || ".imovielibrary"@.is_suffix_of(name)),
    ensures
        walked(name, depth, is_dir),
{
}

/// The walk's filter on an entry with file name `name` at `depth` below the root.
pub fn keep_entry(name: &str, depth: usize, is_dir: bool) -> (r: bool)
    ensures
        r == walked(name@, depth as nat, is_dir),
{
    let top_level = depth == 1;
    !(top_level && (str_eq(name, "Library") || str_eq(name, ".Trash"))) && !(is_dir && (ends_with_str(name, ".app")
        || ends_with_str(name, ".photoslibrary") || ends_with_str(name, ".imovielibrary")))
}

/// Whole days in `elapsed_secs` seconds since the last modification (0 when unknown or in the future).
pub fn age_days(elapsed_secs: Option<u64>) -> (r: u64)
    ensures
        r == match elapsed_secs {
            Some(s) => s / 86_400,
            None => 0,
        },
{
    match elapsed_secs {
        Some(s) => s / 86_400,
        None => 0,
    }
}

/// Larger files first.
pub open spec fn file_larger(a: FileInfo, b: FileInfo) -> bool {
    a.size >= b.size
}

fn file_larger_exec(a: &FileInfo, b: &FileInfo) -> (r: bool)
    ensures
        r == file_larger(*a, *b),
{
    a.size >= b.size
}

/// Big enough and old enough.
pub open spec fn large_and_old(f: FileInfo, min_size: u64, older_than_days: u64) -> bool {
    f.size >= min_size && f.age_days >= older_than_days
}

/// Files of at least `min_size` bytes and at least `older_than_days` old, largest first
/// (equal sizes keep walk order).
pub fn find_large(files: Vec<FileInfo>, min_size: u64, older_than_days: u64) -> (r: Vec<FileInfo>)
    ensures
        r@ == stable_sort(
            files@.filter(|f: FileInfo| large_and_old(f, min_size, older_than_days)),
            |a: FileInfo, b: FileInfo| file_larger(a, b),
        ),
{
    let ghost pred = |f: FileInfo| large_and_old(f, min_size, older_than_days);
    let mut kept: Vec<FileInfo> = Vec::new();
    let mut rest = files;
    let ghost all = rest@;
    let mut pending: Vec<FileInfo> = Vec::new();
    let n = rest.len();
    while rest.len() > 0
        invariant
            pending@.len() + rest@.len() == n,
            n == all.len(),
            forall|k: int| 0 <= k < pending@.len() ==> pending@[k] == all[n - 1 - k],
            rest@ == all.take(rest@.len() as int),
        decreases rest@.len(),
    {
        let x = rest.pop().unwrap();
        pending.push(x);
        proof {
            assert(rest@ =~= all.take(rest@.len() as int));
        }
    }
    let mut done: usize = 0;
    proof {
        assert(all.take(0).filter(pred) =~= Seq::<FileInfo>::empty());
    }
    while pending.len() > 0
        invariant
            pending@.len() + done == n,
            n == all.len(),
            pred == (|f: FileInfo| large_and_old(f, min_size, older_than_days)),
            forall|k: int| 0 <= k < pending@.len() ==> pending@[k] == all[n - 1 - k],
            kept@ == all.take(done as int).filter(pred),
        decreases pending@.len(),
    {
        let x = pending.pop().unwrap();
        proof {
            assert(all.take(done + 1) =~= all.take(done as int).push(x));
            all.take(done as int).lemma_filter_push(x, pred);
        }
        if x.size >= min_size && x.age_days >= older_than_days {
            kept.push(x);
        }
        done = done + 1;
    }
    proof {
        assert(all.take(n as int) =~= all);
    }
    sort_stable(kept, file_larger_exec, Ghost(|a: FileInfo, b: FileInfo| file_larger(a, b)))
}

/// Byte-identical files of one size.
pub struct DupeGroup {
    pub size: u64,
    /// Oldest first: index 0 is the copy that is kept when extras are removed.
    pub files: Vec<FileInfo>,
}

impl DupeGroup {
    /// Bytes taken by all copies but one.
    pub open spec fn wasted_spec(&self) -> int {
        self.size * (self.files@.len() - 1)
    }

    /// Whether `wasted` can be computed: the group has a file and the bytes fit `u64`.
    pub fn wasted_fits(&self) -> (r: bool)
        ensures
            r == (self.files@.len() >= 1 && self.size * (self.files@.len() - 1) <= u64::MAX),
    {
        if self.files.len() == 0 {
            return false;
        }
        let extra = self.files.len() as u64 - 1;
        proof {
            assert(extra == self.files@.len() - 1);
        }
        self.size.checked_mul(extra).is_some()
    }

    pub fn wasted(&self) -> (r: u64)
        requires
            self.files@.len() >= 1,
            self.size * (self.files@.len() - 1) <= u64::MAX,
        ensures
            r == self.wasted_spec(),
    {
        let extra = self.files.len() as u64 - 1;
        proof {
            assert(extra == self.files@.len() - 1);
        }
        self.size * extra
    }
}

/// A file that may have copies: where it is, its size, when it was modified (nanoseconds
/// since the Unix epoch, negative before it, 0 when unknown) and its age in days.
pub struct Candidate {
    pub path: String,
    pub size: u64,
    pub modified: i128,
    pub age_days: u64,
}

/// The size key of a candidate: files smaller than `min_size` (and empty files) have none.
pub open spec fn size_key(f: Candidate, min_size: u64) -> Option<u64> {
    let threshold: u64 = if min_size > 1 { min_size } else { 1 };
    if f.size >= threshold {
        Some(f.size)
    } else {
        None
    }
}

fn u64_eq(a: &u64, b: &u64) -> (r: bool)
    ensures
        r == (a@ == b@),
{
    *a == *b
}

/// Positions of the candidates grouped by size (two or more per group, sizes in order of first
/// appearance), leaving out files smaller than `min_size` and empty files.
pub fn same_size_groups(files: &Vec<Candidate>, min_size: u64) -> (r: Vec<Vec<usize>>)
    ensures
        group_views(r@) == repeated_groups(files@.map_values(|f: Candidate| size_key(f, min_size))),
{
    let threshold: u64 = if min_size > 1 { min_size } else { 1 };
    let mut keys: Vec<Option<u64>> = Vec::new();
    let mut i: usize = 0;
    while i < files.len()
        invariant
            i <= files@.len(),
            threshold == (if min_size > 1 { min_size } else { 1 }),
            keys@ == files@.take(i as int).map_values(|f: Candidate| size_key(f, min_size)),
        decreases files@.len() - i,
    {
        let s = files[i].size;
        let k = if s >= threshold { Some(s) } else { None };
        keys.push(k);
        proof {
            assert(files@.take(i + 1).map_values(|f: Candidate| size_key(f, min_size)) =~= files@.take(
                i as int,
            ).map_values(|f: Candidate| size_key(f, min_size)).push(k));
        }
        i = i + 1;
    }
    proof {
        assert(files@.take(files@.len() as int) =~= files@);
        assert(key_views(keys@) =~= keys@);
    }
    group_positions(&keys, u64_eq)
}

/// What the BLAKE3 hash function returns for `data`.
pub uninterp spec fn blake3_digest(data: Seq<u8>) -> Seq<u8>;

/// `blake3::hash`: the 32-byte BLAKE3 digest of `data`, a function of the bytes alone.
#[verifier::external_body]
fn blake3_hash(data: &[u8]) -> (r: Vec<u8>)
    ensures
        r@ == blake3_digest(data@),
        r@.len() == 32,
{
    blake3::hash(data).as_bytes().to_vec()
}

/// The digest of a file's content `data`, or of its first `limit` bytes.
pub fn hash_file(data: &[u8], limit: Option<usize>) -> (r: Vec<u8>)
    ensures
        r@ == blake3_digest(
            match limit {
                Some(n) => if n < data@.len() {
                    data@.take(n as int)
                } else {
                    data@
                },
                None => data@,
            },
        ),
        r@.len() == 32,
{
    let n = data.len();
    match limit {
        Some(l) if l < n => {
            let prefix = slice_subrange(data, 0, l);
            assert(prefix@ =~= data@.take(l as int));
            blake3_hash(prefix)
        },
        _ => blake3_hash(data),
    }
}

fn bytes_eq(a: &Vec<u8>, b: &Vec<u8>) -> (r: bool)
    ensures
        r == (a@ == b@),
{
    if a.len() != b.len() {
        return false;
    }
    let mut i: usize = 0;
    while i < a.len()
        invariant
            a@.len() == b@.len(),
            i <= a@.len(),
            forall|k: int| 0 <= k < i ==> a@[k] == b@[k],
        decreases a@.len() - i,
    {
        if a[i] != b[i] {
            return false;
        }
        i = i + 1;
    }
    assert(a@ =~= b@);
    true
}

/// Positions grouped by equal digest (two or more per group, digests in order of first
/// appearance); files whose digest is unknown (`None`: unreadable) are left out.
pub fn same_hash_groups(hashes: &Vec<Option<Vec<u8>>>) -> (r: Vec<Vec<usize>>)
    ensures
        group_views(r@) == repeated_groups(key_views(hashes@)),
{
    group_positions(hashes, bytes_eq)
}

/// The groups that `hashes` (the digests of the files at positions `members`, in order)
/// split `members` into, as positions of the files: two or more per group, digests in order
/// of first appearance, files of unknown digest left out.
pub open spec fn refined(members: Seq<usize>, hashes: Seq<Option<Seq<u8>>>) -> Seq<Seq<int>> {
    repeated_groups(hashes).map_values(|g: Seq<int>| g.map_values(|k: int| members[k] as int))
}

/// Splits a group of files (`members`, positions in the list of candidates) by the digests
/// of its members, `hashes[k]` being that of `members[k]`.
pub fn refine(members: &Vec<usize>, hashes: &Vec<Option<Vec<u8>>>) -> (r: Vec<Vec<usize>>)
    requires
        members@.len() == hashes@.len(),
    ensures
        group_views(r@) == refined(members@, key_views(hashes@)),
{
    let groups = same_hash_groups(hashes);
    let ghost ks = key_views(hashes@);
    let ghost target = refined(members@, ks);
    let mut out: Vec<Vec<usize>> = Vec::new();
    let mut i: usize = 0;
    while i < groups.len()
        invariant
            i <= groups@.len(),
            members@.len() == hashes@.len(),
            ks == key_views(hashes@),
            ks.len() == hashes@.len(),
            target == refined(members@, ks),
            group_views(groups@) == repeated_groups(ks),
            group_views(out@) == target.take(i as int),
        decreases groups@.len() - i,
    {
        let g = &groups[i];
        let ghost gi = group_views(groups@)[i as int];
        assert(gi == g@.map_values(|x: usize| x as int));
        let mut mapped: Vec<usize> = Vec::new();
        let mut j: usize = 0;
        while j < g.len()
            invariant
                j <= g@.len(),
                i < groups@.len(),
                members@.len() == hashes@.len(),
                ks.len() == hashes@.len(),
                group_views(groups@) == repeated_groups(ks),
                gi == group_views(groups@)[i as int],
                gi == g@.map_values(|x: usize| x as int),
                mapped@.map_values(|x: usize| x as int) == gi.take(j as int).map_values(|k: int| members@[k] as int),
            decreases g@.len() - j,
        {
            proof {
                lemma_groups_in_range(ks, i as int, j as int);
                assert(gi[j as int] == g@[j as int] as int);
            }
            let k = g[j];
            let ghost prev = mapped@;
            mapped.push(members[k]);
            proof {
                assert(gi.take(j + 1) =~= gi.take(j as int).push(gi[j as int]));
                assert(mapped@.map_values(|x: usize| x as int) =~= prev.map_values(|x: usize| x as int).push(
                    members@[k as int] as int,
                ));
                assert(gi.take(j + 1).map_values(|k: int| members@[k] as int) =~= gi.take(j as int).map_values(
                    |k: int| members@[k] as int,
                ).push(members@[gi[j as int]] as int));
            }
            j = j + 1;
        }
        let ghost before = out@;
        proof {
            assert(gi.take(g@.len() as int) =~= gi);
            assert(target[i as int] == gi.map_values(|k: int| members@[k] as int));
        }
        out.push(mapped);
        proof {
            assert(group_views(out@) =~= group_views(before).push(target[i as int]));
            assert(target.take(i + 1) =~= target.take(i as int).push(target[i as int]));
        }
        i = i + 1;
    }
    proof {
        assert(target.len() == groups@.len());
        assert(target.take(groups@.len() as int) =~= target);
    }
    out
}

/// Older files first.
pub open spec fn older_first(a: Candidate, b: Candidate) -> bool {
    a.modified <= b.modified
}

fn older_first_exec(a: &Candidate, b: &Candidate) -> (r: bool)
    ensures
        r == older_first(*a, *b),
{
    a.modified <= b.modified
}

/// Removing the extras keeps the oldest copy: the copy a group puts first, the one its removal
/// plan spares, was modified no later than any other member.
pub proof fn oldest_copy_is_kept(files: Seq<Candidate>, k: int)
    requires
        0 <= k < files.len(),
    ensures
        ({
            let sorted = stable_sort(files, |a: Candidate, b: Candidate| older_first(a, b));
            &&& sorted.len() == files.len()
            &&& sorted[0].modified <= files[k].modified
        }),
{
    broadcast use vstd::seq_lib::group_to_multiset_ensures, vstd::multiset::group_multiset_axioms;

    let le = |a: Candidate, b: Candidate| older_first(a, b);
    let sorted = stable_sort(files, le);
    stable_sort_permutes(files, le);
    stable_sort_is_sorted(files, le);
    assert(files.contains(files[k]));
    assert(files.to_multiset().count(files[k]) > 0);
    assert(sorted.to_multiset().count(files[k]) > 0);
    assert(sorted.contains(files[k]));
    let j = choose|j: int| 0 <= j < sorted.len() && sorted[j] == files[k];
    if j > 0 {
        assert(sorted_by(sorted, le));
        assert(le(sorted[0], sorted[j]));
    }
}

/// The file record of a candidate in a group of files of `size` bytes.
pub open spec fn as_file(c: Candidate, size: u64) -> (Seq<char>, u64, u64) {
    (c.path@, size, c.age_days)
}

/// The views of file records.
pub open spec fn file_views(s: Seq<FileInfo>) -> Seq<(Seq<char>, u64, u64)> {
    s.map_values(|f: FileInfo| (f.path@, f.size, f.age_days))
}

/// A group of identical files of `size` bytes, oldest first (equal times keep their order).
pub fn dupe_group(size: u64, files: Vec<Candidate>) -> (r: DupeGroup)
    ensures
        r.size == size,
        file_views(r.files@) == stable_sort(files@, |a: Candidate, b: Candidate| older_first(a, b)).map_values(
            |c: Candidate| as_file(c, size),
        ),
{
    let sorted = sort_stable(files, older_first_exec, Ghost(|a: Candidate, b: Candidate| older_first(a, b)));
    let mut out: Vec<FileInfo> = Vec::new();
    let mut i: usize = 0;
    while i < sorted.len()
        invariant
            i <= sorted@.len(),
            file_views(out@) == sorted@.take(i as int).map_values(|c: Candidate| as_file(c, size)),
        decreases sorted@.len() - i,
    {
        let c = &sorted[i];
        let ghost before = out@;
        out.push(FileInfo { path: c.path.clone(), size, age_days: c.age_days });
        proof {
            assert(file_views(out@) =~= file_views(before).push(as_file(*c, size)));
            assert(sorted@.take(i + 1).map_values(|c: Candidate| as_file(c, size)) =~= sorted@.take(
                i as int,
            ).map_values(|c: Candidate| as_file(c, size)).push(as_file(*c, size)));
        }
        i = i + 1;
    }
    proof {
        assert(sorted@.take(sorted@.len() as int) =~= sorted@);
    }
    DupeGroup { size, files: out }
}

/// Groups that waste more first.
pub open spec fn wastes_more(a: DupeGroup, b: DupeGroup) -> bool {
    a.wasted_spec() >= b.wasted_spec()
}

fn wastes_more_exec(a: &DupeGroup, b: &DupeGroup) -> (r: bool)
    ensures
        r == wastes_more(*a, *b),
{
    let sa = a.size as u128;
    let la = a.files.len() as u128;
    let sb = b.size as u128;
    let lb = b.files.len() as u128;
    proof {
        assert(sa * la <= 0xffff_ffff_ffff_ffffu128 * 0xffff_ffff_ffff_ffffu128) by (nonlinear_arith)
            requires
                sa <= 0xffff_ffff_ffff_ffffu128,
                la <= 0xffff_ffff_ffff_ffffu128,
        ;
        assert(sb * lb <= 0xffff_ffff_ffff_ffffu128 * 0xffff_ffff_ffff_ffffu128) by (nonlinear_arith)
            requires
                sb <= 0xffff_ffff_ffff_ffffu128,
                lb <= 0xffff_ffff_ffff_ffffu128,
        ;
        assert(a.wasted_spec() == sa * la - sa) by (nonlinear_arith)
            requires
                sa == a.size,
                la == a.files@.len(),
        ;
        assert(b.wasted_spec() == sb * lb - sb) by (nonlinear_arith)
            requires
                sb == b.size,
                lb == b.files@.len(),
        ;
    }
    sa * la + sb >= sb * lb + sa
}

/// Orders groups by wasted bytes, largest first; equal waste keeps their order.
pub fn order_groups(groups: Vec<DupeGroup>) -> (r: Vec<DupeGroup>)
    ensures
        r@ == stable_sort(groups@, |a: DupeGroup, b: DupeGroup| wastes_more(a, b)),
{
    sort_stable(groups, wastes_more_exec, Ghost(|a: DupeGroup, b: DupeGroup| wastes_more(a, b)))
}

/// The items that remove every copy but the first (oldest) of each group.
pub open spec fn extras(groups: Seq<DupeGroup>) -> Seq<ItemView>
    decreases groups.len(),
{
    if groups.len() == 0 {
        Seq::empty()
    } else {
        let g = groups.last();
        extras(groups.drop_last()) + g.files@.skip(1).map_values(
            |f: FileInfo| (f.path@, f.size, Category::Dupes, "duplicate of "@ + g.files@[0].path@),
        )
    }
}

/// Plan that removes every copy except the oldest in each group. Only built on explicit request.
pub fn extras_plan(groups: &Vec<DupeGroup>) -> (r: Plan)
    requires
        forall|i: int| 0 <= i < groups@.len() ==> (#[trigger] groups@[i]).files@.len() >= 1,
    ensures
        item_views(r.items@) == extras(groups@),
        r.warnings@.len() == 0,
{
    let mut items: Vec<Item> = Vec::new();
    let mut gi: usize = 0;
    proof {
        assert(groups@.take(0) =~= Seq::<DupeGroup>::empty());
        assert(item_views(items@) =~= Seq::<ItemView>::empty());
    }
    while gi < groups.len()
        invariant
            gi <= groups@.len(),
            forall|i: int| 0 <= i < groups@.len() ==> (#[trigger] groups@[i]).files@.len() >= 1,
            item_views(items@) == extras(groups@.take(gi as int)),
        decreases groups@.len() - gi,
    {
        let g = &groups[gi];
        assert(g.files@.len() >= 1);
        let reason = concat("duplicate of ", g.files[0].path.as_str());
        let ghost start = item_views(items@);
        let ghost f = |f: FileInfo| (f.path@, f.size, Category::Dupes, "duplicate of "@ + g.files@[0].path@);
        let mut j: usize = 1;
        proof {
            assert(g.files@.skip(1).take(0).map_values(f) =~= Seq::<ItemView>::empty());
            assert(item_views(items@) =~= start + g.files@.skip(1).take(0).map_values(f));
        }
        while j < g.files.len()
            invariant
                1 <= j <= g.files@.len(),
                reason@ == "duplicate of "@ + g.files@[0].path@,
                f == (|f: FileInfo| (f.path@, f.size, Category::Dupes, "duplicate of "@ + g.files@[0].path@)),
                item_views(items@) == start + g.files@.skip(1).take(j - 1).map_values(f),
            decreases g.files@.len() - j,
        {
            let x = &g.files[j];
            let ghost before = items@;
            items.push(Item { path: x.path.clone(), size: x.size, category: Category::Dupes, reason: reason.clone() });
            proof {
                assert(g.files@.skip(1).take(j as int) =~= g.files@.skip(1).take(j - 1).push(*x));
                assert(item_views(items@) =~= item_views(before).push(f(*x)));
                assert(g.files@.skip(1).take(j as int).map_values(f) =~= g.files@.skip(1).take(j - 1).map_values(f).push(f(*x)));
            }
            j = j + 1;
        }
        proof {
            assert(g.files@.skip(1).take(g.files@.len() - 1) =~= g.files@.skip(1));
            assert(groups@.take(gi + 1).drop_last() =~= groups@.take(gi as int));
            assert(groups@.take(gi + 1).last() == *g);
        }
        gi = gi + 1;
    }
    proof {
        assert(groups@.take(groups@.len() as int) =~= groups@);
    }
    Plan { items, warnings: Vec::new() }
}

} // verus!

verus! {

/// How many large files the interface lists at most.
pub const LARGE_LIMIT: usize = 500;

/// The reason shown for a large file.
pub open spec fn age_reason(age_days: u64) -> Seq<char> {
    crate::text::decimal_spec(age_days as nat) + " days since modified"@
}

/// The item a large file becomes.
pub open spec fn large_item(f: FileInfo) -> ItemView {
    (f.path@, f.size, Category::Large, age_reason(f.age_days))
}

/// A plan of the first `LARGE_LIMIT` large files (in the order given), each with its age as
/// the reason, and no warnings.
pub fn large_plan(files: Vec<FileInfo>) -> (r: Plan)
    ensures
        item_views(r.items@) == files@.take(if files@.len() < LARGE_LIMIT { files@.len() as int } else {
            LARGE_LIMIT as int
        }).map_values(|f: FileInfo| large_item(f)),
        r.warnings@.len() == 0,
{
    let n: usize = if files.len() < LARGE_LIMIT { files.len() } else { LARGE_LIMIT };
    let mut items: Vec<Item> = Vec::new();
    let mut i: usize = 0;
    while i < n
        invariant
            i <= n,
            n <= files@.len(),
            item_views(items@) == files@.take(i as int).map_values(|f: FileInfo| large_item(f)),
        decreases n - i,
    {
        let f = &files[i];
        let mut reason = crate::text::decimal(f.age_days);
        reason.append(" days since modified");
        let ghost before = items@;
        items.push(Item { path: f.path.clone(), size: f.size, category: Category::Large, reason });
        proof {
            assert(files@.take(i + 1) =~= files@.take(i as int).push(files@[i as int]));
            assert(item_views(items@) =~= item_views(before).push(large_item(files@[i as int])));
            assert(files@.take(i + 1).map_values(|f: FileInfo| large_item(f)) =~= files@.take(i as int).map_values(
                |f: FileInfo| large_item(f),
            ).push(large_item(files@[i as int])));
        }
        i = i + 1;
    }
    Plan { items, warnings: Vec::new() }
}

/// Larger first, on (path, size) pairs.
pub open spec fn pair_larger(a: (String, u64), b: (String, u64)) -> bool {
    a.1 >= b.1
}

fn pair_larger_exec(a: &(String, u64), b: &(String, u64)) -> (r: bool)
    ensures
        r == pair_larger(*a, *b),
{
    a.1 >= b.1
}

/// Sorts (path, size) pairs largest first; equal sizes keep their order.
pub fn largest_first_pairs(sizes: Vec<(String, u64)>) -> (r: Vec<(String, u64)>)
    ensures
        r@ == stable_sort(sizes@, |a: (String, u64), b: (String, u64)| pair_larger(a, b)),
{
    sort_stable(sizes, pair_larger_exec, Ghost(|a: (String, u64), b: (String, u64)| pair_larger(a, b)))
}

} // verus!
