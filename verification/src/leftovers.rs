//! Orphaned support files: reverse-DNS named entries whose app is no longer installed.
//! Lower confidence than `uninstall`, so it only reports unless the caller opts in.

use vstd::prelude::*;
use crate::plan::{item_views, largest_first, larger_first_view, Category, Item, ItemView};
use crate::sort::stable_sort;
use crate::text::{concat, contains_char, lemma_pieces_nonempty, lemma_pieces_step, pieces, starts_with_str, str_eq, strip_suffix};

verus! {

/// The per-user locations searched, with the suffix their entries carry.
pub open spec fn location_rows() -> Seq<(Seq<char>, Seq<char>)> {
    seq![
        ("Library/Application Support"@, ""@),
        ("Library/Caches"@, ""@),
        ("Library/Preferences"@, ".plist"@),
        ("Library/Saved Application State"@, ".savedState"@),
        ("Library/Containers"@, ""@),
        ("Library/HTTPStorages"@, ""@),
        ("Library/WebKit"@, ""@),
    ]
}

/// The orphan search covers the places where apps keep per-app data named by bundle ID:
/// Application Support, Caches, Preferences (`.plist`), Saved Application State
/// (`.savedState`), Containers, HTTPStorages and WebKit, and no others.
pub proof fn orphan_search_places()
    ensures
        location_rows().len() == 7,
        location_rows().contains(("Library/Application Support"@, ""@)),
        location_rows().contains(("Library/Caches"@, ""@)),
        location_rows().contains(("Library/Preferences"@, ".plist"@)),
        location_rows().contains(("Library/Saved Application State"@, ".savedState"@)),
        location_rows().contains(("Library/Containers"@, ""@)),
        location_rows().contains(("Library/HTTPStorages"@, ""@)),
        location_rows().contains(("Library/WebKit"@, ""@)),
{
    let r = location_rows();
    assert(r[0] == ("Library/Application Support"@, ""@));
    assert(r[1] == ("Library/Caches"@, ""@));
    assert(r[2] == ("Library/Preferences"@, ".plist"@));
    assert(r[3] == ("Library/Saved Application State"@, ".savedState"@));
    assert(r[4] == ("Library/Containers"@, ""@));
    assert(r[5] == ("Library/HTTPStorages"@, ""@));
    assert(r[6] == ("Library/WebKit"@, ""@));
}

/// The locations searched for orphans: directory under home, and file-name suffix.
pub fn locations() -> (r: Vec<(&'static str, &'static str)>)
    ensures
        r@.map_values(|l: (&str, &str)| (l.0@, l.1@)) == location_rows(),
{
    let r = vec![
        ("Library/Application Support", ""),
        ("Library/Caches", ""),
        ("Library/Preferences", ".plist"),
        ("Library/Saved Application State", ".savedState"),
        ("Library/Containers", ""),
        ("Library/HTTPStorages", ""),
        ("Library/WebKit", ""),
    ];
    assert(r@.map_values(|l: (&str, &str)| (l.0@, l.1@)) =~= location_rows());
    r
}

/// Looks like a bundle ID: at least three dot-separated parts, none empty, no spaces.
pub open spec fn bundle_id_like(s: Seq<char>) -> bool {
    &&& !s.contains(' ')
    &&& pieces(s, '.').len() >= 3
    &&& forall|i: int| 0 <= i < pieces(s, '.').len() ==> (#[trigger] pieces(s, '.')[i]).len() > 0
}

/// Looks like a bundle ID: at least three dot-separated parts, no spaces.
pub fn looks_like_bundle_id(s: &str) -> (r: bool)
    ensures
        r == bundle_id_like(s@),
{
    let n = s.unicode_len();
    let mut count: usize = 1;
    let mut cur_len: usize = 0;
    let mut earlier_nonempty = true;
    let mut i: usize = 0;
    proof {
        assert(s@.take(0) =~= Seq::<char>::empty());
    }
    while i < n
        invariant
            n == s@.len(),
            i <= n,
            count == if pieces(s@.take(i as int), '.').len() < 3 {
                pieces(s@.take(i as int), '.').len()
            } else {
                3
            },
            count >= 1,
            cur_len == pieces(s@.take(i as int), '.').last().len(),
            cur_len <= i,
            earlier_nonempty == forall|k: int|
                0 <= k < pieces(s@.take(i as int), '.').len() - 1 ==> (#[trigger] pieces(s@.take(i as int), '.')[k]).len() > 0,
        decreases n - i,
    {
        let c = s.get_char(i);
        proof {
            lemma_pieces_step(s@, '.', i as int);
            lemma_pieces_nonempty(s@.take(i as int), '.');
        }
        let ghost prev = pieces(s@.take(i as int), '.');
        if c == '.' {
            if cur_len == 0 {
                earlier_nonempty = false;
            }
            if count < 3 {
                count = count + 1;
            }
            cur_len = 0;
            proof {
                let next = prev.push(Seq::empty());
                assert forall|k: int| 0 <= k < prev.len() - 1 implies next[k] == prev[k] by {}
                if cur_len == 0 && prev.last().len() == 0 {
                    assert(next[prev.len() - 1].len() == 0);
                }
            }
        } else {
            cur_len = cur_len + 1;
            proof {
                let next = prev.update(prev.len() - 1, prev.last().push(c));
                assert forall|k: int| 0 <= k < prev.len() - 1 implies next[k] == prev[k] by {}
            }
        }
        i = i + 1;
    }
    proof {
        assert(s@.take(n as int) =~= s@);
    }
    let has_space = contains_char(s, ' ');
    let r = !has_space && count >= 3 && earlier_nonempty && cur_len > 0;
    proof {
        let p = pieces(s@, '.');
        if r {
            assert forall|k: int| 0 <= k < p.len() implies (#[trigger] p[k]).len() > 0 by {
                if k < p.len() - 1 {
                } else {
                    assert(k == p.len() - 1);
                }
            }
        } else if !has_space && count >= 3 {
            if !earlier_nonempty {
                let k = choose|k: int| 0 <= k < p.len() - 1 && !((#[trigger] p[k]).len() > 0);
                assert(p[k].len() == 0);
            } else {
                assert(p[p.len() - 1].len() == 0);
            }
        }
    }
    r
}

/// `id` belongs to an installed app: it equals an installed ID or extends one
/// (helpers such as `com.foo.app.helper`).
pub open spec fn owned_by(id: Seq<char>, installed: Seq<Seq<char>>) -> bool {
    exists|i: int| 0 <= i < installed.len() && (id == #[trigger] installed[i] || (installed[i] + "."@).is_prefix_of(id))
}

fn is_owned(id: &str, installed: &Vec<String>) -> (r: bool)
    ensures
        r == owned_by(id@, installed@.map_values(|s: String| s@)),
{
    let ghost iv = installed@.map_values(|s: String| s@);
    let mut i: usize = 0;
    while i < installed.len()
        invariant
            i <= installed@.len(),
            iv == installed@.map_values(|s: String| s@),
            forall|k: int| 0 <= k < i ==> !(id@ == #[trigger] iv[k] || (iv[k] + "."@).is_prefix_of(id@)),
        decreases installed@.len() - i,
    {
        let inst = installed[i].as_str();
        assert(iv[i as int] == inst@);
        if str_eq(id, inst) {
            return true;
        }
        let dotted = concat(inst, ".");
        if starts_with_str(id, dotted.as_str()) {
            return true;
        }
        i = i + 1;
    }
    false
}

/// An entry of a searched location.
pub struct Entry {
    pub name: String,
    pub path: String,
    /// Bytes, counted without following symlinks; `None` when it could not be read.
    pub size: Option<u64>,
}

/// What one entry of a location with suffix `suffix` contributes, if anything.
pub open spec fn orphan_of(suffix: Seq<char>, installed: Seq<Seq<char>>, e: Entry) -> Option<ItemView> {
    if !suffix.is_suffix_of(e.name@) {
        None
    } else {
        let id = e.name@.take(e.name@.len() - suffix.len());
        if !bundle_id_like(id) || "com.apple."@.is_prefix_of(id) || owned_by(id, installed) {
            None
        } else {
            match e.size {
                None => None,
                Some(size) => Some((e.path@, size, Category::Orphaned, "no installed app has bundle ID "@ + id)),
            }
        }
    }
}

/// The orphans among the entries of one location, in listing order.
pub open spec fn orphans_in(suffix: Seq<char>, installed: Seq<Seq<char>>, entries: Seq<Entry>) -> Seq<ItemView>
    decreases entries.len(),
{
    if entries.len() == 0 {
        Seq::empty()
    } else {
        let prev = orphans_in(suffix, installed, entries.drop_last());
        match orphan_of(suffix, installed, entries.last()) {
            Some(v) => prev.push(v),
            None => prev,
        }
    }
}

/// The orphans of every location, location by location.
pub open spec fn orphans_all(installed: Seq<Seq<char>>, listings: Seq<Vec<Entry>>) -> Seq<ItemView>
    decreases listings.len(),
{
    if listings.len() == 0 {
        Seq::empty()
    } else {
        let k = listings.len() - 1;
        orphans_all(installed, listings.drop_last()) + orphans_in(location_rows()[k].1, installed, listings.last()@)
    }
}

fn collect(suffix: &str, installed: &Vec<String>, entries: &Vec<Entry>, out: &mut Vec<Item>)
    ensures
        item_views(final(out)@) == item_views(old(out)@) + orphans_in(
            suffix@,
            installed@.map_values(|s: String| s@),
            entries@,
        ),
{
    let ghost iv = installed@.map_values(|s: String| s@);
    let ghost start = item_views(out@);
    let mut i: usize = 0;
    while i < entries.len()
        invariant
            i <= entries@.len(),
            iv == installed@.map_values(|s: String| s@),
            item_views(out@) == start + orphans_in(suffix@, iv, entries@.take(i as int)),
        decreases entries@.len() - i,
    {
        let e = &entries[i];
        proof {
            assert(entries@.take(i + 1).drop_last() =~= entries@.take(i as int));
        }
        let ghost before = out@;
        match strip_suffix(e.name.as_str(), suffix) {
            None => {},
            Some(id) => {
                if looks_like_bundle_id(id.as_str()) && !starts_with_str(id.as_str(), "com.apple.")
                    && !is_owned(id.as_str(), installed) {
                    match e.size {
                        None => {},
                        Some(size) => {
                            let reason = concat("no installed app has bundle ID ", id.as_str());
                            out.push(Item { path: e.path.clone(), size, category: Category::Orphaned, reason });
                            proof {
                                assert(item_views(out@) =~= item_views(before).push(
                                    (e.path@, size, Category::Orphaned, "no installed app has bundle ID "@ + id@),
                                ));
                            }
                        },
                    }
                }
            },
        }
        i = i + 1;
    }
    proof {
        assert(entries@.take(entries@.len() as int) =~= entries@);
    }
}

/// Orphaned support files. `installed` holds the bundle IDs of every installed app;
/// `listings[k]` holds the entries of the `k`-th location (empty when it could not be read).
/// An entry belongs to an app if its ID equals the app's ID or extends it; `com.apple.*`
/// entries and names that do not look like bundle IDs are ignored. Largest first.
pub fn scan(installed: &Vec<String>, listings: &Vec<Vec<Entry>>) -> (r: Vec<Item>)
    requires
        listings@.len() == location_rows().len(),
    ensures
        item_views(r@) == stable_sort(
            orphans_all(installed@.map_values(|s: String| s@), listings@),
            |a: ItemView, b: ItemView| larger_first_view(a, b),
        ),
{
    let locs = locations();
    let mut items: Vec<Item> = Vec::new();
    let ghost iv = installed@.map_values(|s: String| s@);
    let mut k: usize = 0;
    proof {
        assert(item_views(items@) =~= Seq::<ItemView>::empty());
        assert(listings@.take(0) =~= Seq::<Vec<Entry>>::empty());
    }
    while k < listings.len()
        invariant
            k <= listings@.len() == location_rows().len(),
            locs@.map_values(|l: (&str, &str)| (l.0@, l.1@)) == location_rows(),
            iv == installed@.map_values(|s: String| s@),
            item_views(items@) == orphans_all(iv, listings@.take(k as int)),
        decreases listings@.len() - k,
    {
        assert(locs@.map_values(|l: (&str, &str)| (l.0@, l.1@))[k as int] == (locs@[k as int].0@, locs@[k as int].1@));
        collect(locs[k].1, installed, &listings[k], &mut items);
        proof {
            assert(listings@.take(k + 1).drop_last() =~= listings@.take(k as int));
        }
        k = k + 1;
    }
    proof {
        assert(listings@.take(listings@.len() as int) =~= listings@);
    }
    largest_first(items)
}

} // verus!
