//! Installed apps: naming, lookup, and what uninstalling one would remove.

use vstd::prelude::*;
use crate::path::{extension, extension_spec, file_stem, join, join_spec, same, same_path, starts_with, starts_with_spec, stem_spec};
use crate::plan::{item_views, Category, Item, ItemView, Plan};
use crate::sort::{sort_stable, stable_sort};
use crate::leftovers::Entry;
use crate::text::{concat, ends_with_str, lex_le, lowercase, starts_with_str, str_eq, str_le, to_lowercase};

verus! {

/// An installed application bundle.
#[derive(Debug)]
pub struct App {
    pub path: String,
    /// Display name, from Info.plist or the bundle's file name.
    pub name: String,
    pub bundle_id: Option<String>,
    pub version: Option<String>,
    pub size: u64,
}

fn clone_opt(o: &Option<String>) -> (r: Option<String>)
    ensures
        r == *o,
{
    match o {
        Some(s) => Some(s.clone()),
        None => None,
    }
}

impl Clone for App {
    fn clone(&self) -> (r: Self)
        ensures
            r == *self,
    {
        App {
            path: self.path.clone(),
            name: self.name.clone(),
            bundle_id: clone_opt(&self.bundle_id),
            version: clone_opt(&self.version),
            size: self.size,
        }
    }
}

/// What Info.plist says about a bundle (each key as a string, when present).
pub struct BundleInfo {
    /// `CFBundleDisplayName`
    pub display_name: Option<String>,
    /// `CFBundleName`
    pub bundle_name: Option<String>,
    /// `CFBundleIdentifier`
    pub identifier: Option<String>,
    /// `CFBundleShortVersionString`
    pub short_version: Option<String>,
}

impl App {
    /// A `com.apple.*` app.
    pub open spec fn apple(&self) -> bool {
        match self.bundle_id {
            Some(id) => "com.apple."@.is_prefix_of(id@),
            None => false,
        }
    }

    pub fn is_apple(&self) -> (r: bool)
        ensures
            r == self.apple(),
    {
        match &self.bundle_id {
            Some(id) => starts_with_str(id.as_str(), "com.apple."),
            None => false,
        }
    }

    /// Some running executable lives inside this bundle.
    pub open spec fn running_in(&self, running: Seq<String>) -> bool {
        exists|i: int| 0 <= i < running.len() && starts_with_spec(#[trigger] running[i]@, self.path@)
    }

    /// True if any running executable lives inside this bundle.
    pub fn is_running(&self, running: &Vec<String>) -> (r: bool)
        ensures
            r == self.running_in(running@),
    {
        let mut i: usize = 0;
        while i < running.len()
            invariant
                i <= running@.len(),
                forall|k: int| 0 <= k < i ==> !starts_with_spec(#[trigger] running@[k]@, self.path@),
            decreases running@.len() - i,
        {
            if starts_with(running[i].as_str(), self.path.as_str()) {
                return true;
            }
            i = i + 1;
        }
        false
    }

    /// The bundle's file name without `.app`.
    pub fn stem(&self) -> (r: String)
        ensures
            r@ == stem_spec(self.path@),
    {
        file_stem(self.path.as_str())
    }
}

/// The app described by `info`, for the bundle at `path` with `size` bytes: its name is the
/// display name, else the bundle name, else the bundle's file name.
pub fn read_app(path: String, info: BundleInfo, size: u64) -> (r: App)
    ensures
        r.path == path,
        r.size == size,
        r.bundle_id == info.identifier,
        r.version == info.short_version,
        r.name@ == match info.display_name {
            Some(n) => n@,
            None => match info.bundle_name {
                Some(n) => n@,
                None => stem_spec(path@),
            },
        },
{
    let name = match info.display_name {
        Some(n) => n,
        None => match info.bundle_name {
            Some(n) => n,
            None => file_stem(path.as_str()),
        },
    };
    App { path, name, bundle_id: info.identifier, version: info.short_version, size }
}

/// Which listed paths are app bundles: `*.app` directories (given each path and whether it is a directory).
pub fn app_bundles(listed: Vec<(String, bool)>) -> (r: Vec<String>)
    ensures
        r@.map_values(|s: String| s@) == listed@.filter(|e: (String, bool)| e.1 && extension_spec(e.0@) == Some("app"@)).map_values(
            |e: (String, bool)| e.0@,
        ),
{
    let ghost pred = |e: (String, bool)| e.1 && extension_spec(e.0@) == Some("app"@);
    let ghost f = |e: (String, bool)| e.0@;
    let mut out: Vec<String> = Vec::new();
    let mut i: usize = 0;
    while i < listed.len()
        invariant
            i <= listed@.len(),
            pred == (|e: (String, bool)| e.1 && extension_spec(e.0@) == Some("app"@)),
            f == (|e: (String, bool)| e.0@),
            out@.map_values(|s: String| s@) == listed@.take(i as int).filter(pred).map_values(f),
        decreases listed@.len() - i,
    {
        let e = &listed[i];
        let ghost before = out@;
        let is_app = match extension(e.0.as_str()) {
            Some(x) => str_eq(x.as_str(), "app"),
            None => false,
        };
        proof {
            assert(listed@.take(i + 1) =~= listed@.take(i as int).push(*e));
            listed@.take(i as int).lemma_filter_push(*e, pred);
        }
        if e.1 && is_app {
            out.push(e.0.clone());
            proof {
                assert(out@.map_values(|s: String| s@) =~= before.map_values(|s: String| s@).push(e.0@));
                assert(listed@.take(i as int).filter(pred).push(*e).map_values(f) =~= listed@.take(
                    i as int,
                ).filter(pred).map_values(f).push(f(*e)));
            }
        }
        i = i + 1;
    }
    proof {
        assert(listed@.take(listed@.len() as int) =~= listed@);
    }
    out
}

/// Names ordered case-insensitively (by lowercase form).
pub open spec fn name_le(a: App, b: App) -> bool {
    lex_le(lowercase(a.name@), lowercase(b.name@))
}

fn name_le_exec(a: &App, b: &App) -> (r: bool)
    ensures
        r == name_le(*a, *b),
{
    let x = to_lowercase(a.name.as_str());
    let y = to_lowercase(b.name.as_str());
    str_le(x.as_str(), y.as_str())
}

/// Sorts apps by name, case-insensitively; equal names keep their order.
pub fn sort_by_name(apps: Vec<App>) -> (r: Vec<App>)
    ensures
        r@ == stable_sort(apps@, |a: App, b: App| name_le(a, b)),
{
    sort_stable(apps, name_le_exec, Ghost(|a: App, b: App| name_le(a, b)))
}

/// Larger apps first.
pub open spec fn size_ge(a: App, b: App) -> bool {
    a.size >= b.size
}

fn size_ge_exec(a: &App, b: &App) -> (r: bool)
    ensures
        r == size_ge(*a, *b),
{
    a.size >= b.size
}

/// Sorts apps largest first; equal sizes keep their order.
pub fn sort_by_size(apps: Vec<App>) -> (r: Vec<App>)
    ensures
        r@ == stable_sort(apps@, |a: App, b: App| size_ge(a, b)),
{
    sort_stable(apps, size_ge_exec, Ghost(|a: App, b: App| size_ge(a, b)))
}

/// `s` with every trailing `.app` removed (`str::trim_end_matches(".app")`).
pub open spec fn trim_app(s: Seq<char>) -> Seq<char>
    decreases s.len(),
{
    if s.len() >= 4 && ".app"@.is_suffix_of(s) {
        trim_app(s.take(s.len() - 4))
    } else {
        s
    }
}

fn trim_app_exec(s: &str) -> (r: String)
    ensures
        r@ == trim_app(s@),
{
    let mut cur = s.to_owned();
    proof {
        reveal_strlit(".app");
    }
    while ends_with_str(cur.as_str(), ".app")
        invariant
            trim_app(cur@) == trim_app(s@),
        decreases cur@.len(),
    {
        proof {
            reveal_strlit(".app");
        }
        let n = cur.unicode_len();
        let mut next = String::new();
        crate::text::append_range(&mut next, cur.as_str(), 0, n - 4);
        assert(next@ =~= cur@.take(n - 4));
        cur = next;
    }
    cur
}

/// The app matches the (trimmed, lowercased) query by bundle ID, name or file name.
pub open spec fn matches_query(a: App, q: Seq<char>) -> bool {
    ||| (a.bundle_id matches Some(id) && lowercase(id@) == q)
    ||| lowercase(a.name@) == q
    ||| lowercase(stem_spec(a.path@)) == q
}

/// What a query is compared with: without trailing `.app`, lowercased.
pub open spec fn query_key(query: Seq<char>) -> Seq<char> {
    lowercase(trim_app(query))
}

/// Why `find` found no single app.
#[derive(Debug, PartialEq, Eq)]
pub enum FindError {
    /// No app matches the query.
    NoMatch(String),
    /// Several do: the query and their paths.
    Ambiguous(String, Vec<String>),
}

/// `parts` joined by `sep`.
pub open spec fn joined(parts: Seq<Seq<char>>, sep: Seq<char>) -> Seq<char>
    decreases parts.len(),
{
    if parts.len() == 0 {
        Seq::empty()
    } else if parts.len() == 1 {
        parts[0]
    } else {
        joined(parts.drop_last(), sep) + sep + parts.last()
    }
}

fn join_all(parts: &Vec<String>, sep: &str) -> (r: String)
    ensures
        r@ == joined(parts@.map_values(|s: String| s@), sep@),
{
    let ghost pv = parts@.map_values(|s: String| s@);
    let mut out = String::new();
    let mut i: usize = 0;
    while i < parts.len()
        invariant
            i <= parts@.len(),
            pv == parts@.map_values(|s: String| s@),
            out@ == joined(pv.take(i as int), sep@),
        decreases parts@.len() - i,
    {
        assert(pv.take(i + 1).drop_last() =~= pv.take(i as int));
        assert(pv.take(i + 1).last() == parts@[i as int]@);
        if i > 0 {
            out.append(sep);
        } else {
            assert(out@ =~= Seq::<char>::empty());
        }
        out.append(parts[i].as_str());
        i = i + 1;
    }
    assert(pv.take(parts@.len() as int) =~= pv);
    out
}

impl FindError {
    pub open spec fn message_spec(&self) -> Seq<char> {
        match self {
            FindError::NoMatch(q) => "no installed app matches `"@ + q@ + "`; see `klinit apps`"@,
            FindError::Ambiguous(q, paths) => "`"@ + q@ + "` is ambiguous: "@ + joined(
                paths@.map_values(|s: String| s@),
                ", "@,
            ),
        }
    }

    pub fn message(&self) -> (r: String)
        ensures
            r@ == self.message_spec(),
    {
        match self {
            FindError::NoMatch(q) => {
                let mut s = concat("no installed app matches `", q.as_str());
                s.append("`; see `klinit apps`");
                s
            },
            FindError::Ambiguous(q, paths) => {
                let mut s = concat("`", q.as_str());
                s.append("` is ambiguous: ");
                let j = join_all(paths, ", ");
                s.append(j.as_str());
                s
            },
        }
    }
}

/// The forms an app is looked up by: its bundle ID, name and file name, lowercased.
pub type Keys = (Option<String>, String, String);

/// The keys as plain values.
pub open spec fn keys_view(k: Keys) -> (Option<Seq<char>>, Seq<char>, Seq<char>) {
    (
        match k.0 {
            Some(id) => Some(id@),
            None => None,
        },
        k.1@,
        k.2@,
    )
}

/// The keys of `a`.
pub open spec fn lowered_keys(a: App) -> (Option<Seq<char>>, Seq<char>, Seq<char>) {
    (
        match a.bundle_id {
            Some(id) => Some(lowercase(id@)),
            None => None,
        },
        lowercase(a.name@),
        lowercase(stem_spec(a.path@)),
    )
}

/// One of the keys is `q`.
pub open spec fn key_hit(k: (Option<Seq<char>>, Seq<char>, Seq<char>), q: Seq<char>) -> bool {
    k.0 == Some(q) || k.1 == q || k.2 == q
}

/// The apps whose keys hold `q`, in order.
pub open spec fn keyed_hits(apps: Seq<App>, keys: Seq<Keys>, q: Seq<char>) -> Seq<App>
    decreases apps.len(),
{
    if apps.len() == 0 || keys.len() != apps.len() {
        Seq::empty()
    } else {
        let prev = keyed_hits(apps.drop_last(), keys.drop_last(), q);
        if key_hit(keys_view(keys.last()), q) {
            prev.push(apps.last())
        } else {
            prev
        }
    }
}

proof fn lemma_keyed_hits(apps: Seq<App>, keys: Seq<Keys>, q: Seq<char>)
    requires
        keys.len() == apps.len(),
        forall|i: int| 0 <= i < apps.len() ==> keys_view(#[trigger] keys[i]) == lowered_keys(apps[i]),
    ensures
        keyed_hits(apps, keys, q) == apps.filter(|a: App| matches_query(a, q)),
    decreases apps.len(),
{
    let pred = |a: App| matches_query(a, q);
    if apps.len() > 0 {
        let ia = apps.drop_last();
        let ik = keys.drop_last();
        assert forall|i: int| 0 <= i < ia.len() implies keys_view(#[trigger] ik[i]) == lowered_keys(ia[i]) by {
            assert(ik[i] == keys[i]);
            assert(ia[i] == apps[i]);
        }
        lemma_keyed_hits(ia, ik, q);
        assert(ia.push(apps.last()) =~= apps);
        ia.lemma_filter_push(apps.last(), pred);
        assert(keys_view(keys[keys.len() - 1]) == lowered_keys(apps[apps.len() - 1]));
    } else {
        apps.lemma_filter_len(pred);
        assert(apps.filter(pred) =~= Seq::<App>::empty());
    }
}

/// Finds one app, given the keys of each (`keys[i]` those of `apps[i]`) and the query's key
/// `q`: exactly one app must have `q` among its keys. `query` is what the errors quote.
pub fn find_keyed<'a>(apps: &'a Vec<App>, keys: &Vec<Keys>, query: &str, q: &str) -> (r: Result<&'a App, FindError>)
    requires
        keys@.len() == apps@.len(),
    ensures
        ({
            let hits = keyed_hits(apps@, keys@, q@);
            &&& hits.len() == 1 <==> r is Ok
            &&& r matches Ok(a) ==> *a == hits[0]
            &&& hits.len() == 0 ==> (r matches Err(FindError::NoMatch(s)) && s@ == query@)
            &&& hits.len() > 1 ==> (r matches Err(FindError::Ambiguous(s, paths)) && s@ == query@
                && paths@.map_values(|p: String| p@) == hits.map_values(|a: App| a.path@))
        }),
{
    let mut hits: Vec<usize> = Vec::new();
    let mut paths: Vec<String> = Vec::new();
    let mut i: usize = 0;
    while i < apps.len()
        invariant
            i <= apps@.len(),
            keys@.len() == apps@.len(),
            hits@.len() == keyed_hits(apps@.take(i as int), keys@.take(i as int), q@).len(),
            forall|k: int| 0 <= k < hits@.len() ==> #[trigger] hits@[k] < apps@.len() && apps@[hits@[k] as int]
                == keyed_hits(apps@.take(i as int), keys@.take(i as int), q@)[k],
            paths@.map_values(|p: String| p@) == keyed_hits(apps@.take(i as int), keys@.take(i as int), q@).map_values(
                |a: App| a.path@,
            ),
        decreases apps@.len() - i,
    {
        let a = &apps[i];
        let k = &keys[i];
        let ghost before = keyed_hits(apps@.take(i as int), keys@.take(i as int), q@);
        let ghost pb = paths@;
        proof {
            assert(apps@.take(i + 1).drop_last() =~= apps@.take(i as int));
            assert(keys@.take(i + 1).drop_last() =~= keys@.take(i as int));
            assert(apps@.take(i + 1).last() == *a);
            assert(keys@.take(i + 1).last() == *k);
        }
        let by_id = match &k.0 {
            Some(id) => str_eq(id.as_str(), q),
            None => false,
        };
        if by_id || str_eq(k.1.as_str(), q) || str_eq(k.2.as_str(), q) {
            hits.push(i);
            paths.push(a.path.clone());
            proof {
                assert(paths@.map_values(|p: String| p@) =~= pb.map_values(|p: String| p@).push(a.path@));
                assert(before.push(*a).map_values(|a: App| a.path@) =~= before.map_values(|a: App| a.path@).push(
                    a.path@,
                ));
            }
        }
        i = i + 1;
    }
    proof {
        assert(apps@.take(apps@.len() as int) =~= apps@);
        assert(keys@.take(keys@.len() as int) =~= keys@);
    }
    if hits.len() == 1 {
        Ok(&apps[hits[0]])
    } else if hits.len() == 0 {
        Err(FindError::NoMatch(query.to_owned()))
    } else {
        Err(FindError::Ambiguous(query.to_owned(), paths))
    }
}

/// The keys of an app.
fn keys_of(a: &App) -> (r: Keys)
    ensures
        keys_view(r) == lowered_keys(*a),
{
    let id = match &a.bundle_id {
        Some(id) => Some(to_lowercase(id.as_str())),
        None => None,
    };
    let st = a.stem();
    (id, to_lowercase(a.name.as_str()), to_lowercase(st.as_str()))
}

/// Finds one app by bundle ID, display name or file name (case-insensitive; a trailing
/// `.app` in the query is ignored). Exactly one must match.
pub fn find<'a>(apps: &'a Vec<App>, query: &str) -> (r: Result<&'a App, FindError>)
    ensures
        ({
            let hits = apps@.filter(|a: App| matches_query(a, query_key(query@)));
            &&& hits.len() == 1 <==> r is Ok
            &&& r matches Ok(a) ==> *a == hits[0]
            &&& hits.len() == 0 ==> (r matches Err(FindError::NoMatch(q)) && q@ == query@)
            &&& hits.len() > 1 ==> (r matches Err(FindError::Ambiguous(q, paths)) && q@ == query@
                && paths@.map_values(|s: String| s@) == hits.map_values(|a: App| a.path@))
        }),
{
    let trimmed = trim_app_exec(query);
    let q = to_lowercase(trimmed.as_str());
    let mut keys: Vec<Keys> = Vec::new();
    let mut i: usize = 0;
    while i < apps.len()
        invariant
            i <= apps@.len(),
            keys@.len() == i,
            forall|k: int| 0 <= k < i ==> keys_view(#[trigger] keys@[k]) == lowered_keys(apps@[k]),
        decreases apps@.len() - i,
    {
        keys.push(keys_of(&apps[i]));
        i = i + 1;
    }
    proof {
        lemma_keyed_hits(apps@, keys@, q@);
    }
    find_keyed(apps, &keys, query, q.as_str())
}

/// Per-app locations under `~`, matched by exact bundle ID: (directory, file-name suffix).
pub open spec fn leftover_location_rows() -> Seq<(Seq<char>, Seq<char>)> {
    seq![
        ("Library/Application Support"@, ""@),
        ("Library/Caches"@, ""@),
        ("Library/Preferences"@, ".plist"@),
        ("Library/Saved Application State"@, ".savedState"@),
        ("Library/Containers"@, ""@),
        ("Library/Logs"@, ""@),
        ("Library/HTTPStorages"@, ""@),
        ("Library/WebKit"@, ""@),
        ("Library/Cookies"@, ".binarycookies"@),
        ("Library/Application Scripts"@, ""@),
        ("Library/LaunchAgents"@, ".plist"@),
    ]
}

fn leftover_locations() -> (r: Vec<(&'static str, &'static str)>)
    ensures
        r@.map_values(|l: (&str, &str)| (l.0@, l.1@)) == leftover_location_rows(),
{
    let r = vec![
        ("Library/Application Support", ""),
        ("Library/Caches", ""),
        ("Library/Preferences", ".plist"),
        ("Library/Saved Application State", ".savedState"),
        ("Library/Containers", ""),
        ("Library/Logs", ""),
        ("Library/HTTPStorages", ""),
        ("Library/WebKit", ""),
        ("Library/Cookies", ".binarycookies"),
        ("Library/Application Scripts", ""),
        ("Library/LaunchAgents", ".plist"),
    ];
    assert(r@.map_values(|l: (&str, &str)| (l.0@, l.1@)) =~= leftover_location_rows());
    r
}

/// Directories where a folder named after the app (not its bundle ID) is only a guess.
pub open spec fn fuzzy_dirs() -> Seq<Seq<char>> {
    seq!["Library/Application Support"@, "Library/Caches"@, "Library/Logs"@]
}

/// The exact-match leftover paths of an app with bundle ID `id`.
pub open spec fn exact_paths(home: Seq<char>, id: Seq<char>) -> Seq<Seq<char>> {
    leftover_location_rows().map_values(|l: (Seq<char>, Seq<char>)| join_spec(join_spec(home, l.0), id + l.1))
}

/// For an app with bundle ID `id`, the exact leftovers probed are the per-app files and
/// folders named by the ID in each documented place under home: Application Support,
/// Caches, Preferences (`.plist`), Saved Application State (`.savedState`), Containers, Logs,
/// HTTPStorages, WebKit, Cookies (`.binarycookies`), Application Scripts and LaunchAgents
/// (`.plist`), and nothing else.
pub proof fn exact_leftover_places(app: App, home: Seq<char>, id: String)
    requires
        app.bundle_id == Some(id),
    ensures
        ({
            let c = exact_candidates_spec(app, home);
            let at = |d: Seq<char>, name: Seq<char>| join_spec(join_spec(home, d), name);
            &&& c.len() == 11
            &&& c.contains(at("Library/Application Support"@, id@))
            &&& c.contains(at("Library/Caches"@, id@))
            &&& c.contains(at("Library/Preferences"@, id@ + ".plist"@))
            &&& c.contains(at("Library/Saved Application State"@, id@ + ".savedState"@))
            &&& c.contains(at("Library/Containers"@, id@))
            &&& c.contains(at("Library/Logs"@, id@))
            &&& c.contains(at("Library/HTTPStorages"@, id@))
            &&& c.contains(at("Library/WebKit"@, id@))
            &&& c.contains(at("Library/Cookies"@, id@ + ".binarycookies"@))
            &&& c.contains(at("Library/Application Scripts"@, id@))
            &&& c.contains(at("Library/LaunchAgents"@, id@ + ".plist"@))
        }),
{
    let c = exact_candidates_spec(app, home);
    let rows = leftover_location_rows();
    reveal_strlit("");
    assert(id@ + ""@ =~= id@);
    assert(c[0] == join_spec(join_spec(home, rows[0].0), id@ + rows[0].1));
    assert(c[1] == join_spec(join_spec(home, rows[1].0), id@ + rows[1].1));
    assert(c[2] == join_spec(join_spec(home, rows[2].0), id@ + rows[2].1));
    assert(c[3] == join_spec(join_spec(home, rows[3].0), id@ + rows[3].1));
    assert(c[4] == join_spec(join_spec(home, rows[4].0), id@ + rows[4].1));
    assert(c[5] == join_spec(join_spec(home, rows[5].0), id@ + rows[5].1));
    assert(c[6] == join_spec(join_spec(home, rows[6].0), id@ + rows[6].1));
    assert(c[7] == join_spec(join_spec(home, rows[7].0), id@ + rows[7].1));
    assert(c[8] == join_spec(join_spec(home, rows[8].0), id@ + rows[8].1));
    assert(c[9] == join_spec(join_spec(home, rows[9].0), id@ + rows[9].1));
    assert(c[10] == join_spec(join_spec(home, rows[10].0), id@ + rows[10].1));
}

/// The paths to probe for exact leftovers: one per location when the app has a bundle ID, none otherwise.
pub open spec fn exact_candidates_spec(app: App, home: Seq<char>) -> Seq<Seq<char>> {
    match app.bundle_id {
        Some(id) => exact_paths(home, id@),
        None => Seq::empty(),
    }
}

/// The name-only candidates: each fuzzy directory with the app's name, then its file name.
pub open spec fn fuzzy_candidates_spec(app: App, home: Seq<char>) -> Seq<Seq<char>> {
    let d = fuzzy_dirs();
    let stem = stem_spec(app.path@);
    seq![
        join_spec(join_spec(home, d[0]), app.name@),
        join_spec(join_spec(home, d[0]), stem),
        join_spec(join_spec(home, d[1]), app.name@),
        join_spec(join_spec(home, d[1]), stem),
        join_spec(join_spec(home, d[2]), app.name@),
        join_spec(join_spec(home, d[2]), stem),
    ]
}

/// Where group containers live.
pub fn group_containers_dir(home: &str) -> (r: String)
    ensures
        r@ == join_spec(home@, "Library/Group Containers"@),
{
    join(home, "Library/Group Containers")
}

/// The paths whose existence decides the exact leftovers of `app`.
pub fn exact_candidates(app: &App, home: &str) -> (r: Vec<String>)
    ensures
        r@.map_values(|s: String| s@) == exact_candidates_spec(*app, home@),
{
    let mut out: Vec<String> = Vec::new();
    match &app.bundle_id {
        None => {
            assert(out@.map_values(|s: String| s@) =~= Seq::<Seq<char>>::empty());
        },
        Some(id) => {
            let locs = leftover_locations();
            let mut i: usize = 0;
            while i < locs.len()
                invariant
                    i <= locs@.len(),
                    locs@.map_values(|l: (&str, &str)| (l.0@, l.1@)) == leftover_location_rows(),
                    out@.map_values(|s: String| s@) == exact_paths(home@, id@).take(i as int),
                decreases locs@.len() - i,
            {
                let (d, suffix) = locs[i];
                assert(locs@.map_values(|l: (&str, &str)| (l.0@, l.1@))[i as int] == (d@, suffix@));
                let dir = join(home, d);
                let name = concat(id.as_str(), suffix);
                let p = join(dir.as_str(), name.as_str());
                let ghost before = out@;
                out.push(p);
                proof {
                    assert(out@.map_values(|s: String| s@) =~= before.map_values(|s: String| s@).push(p@));
                    assert(exact_paths(home@, id@).take(i + 1) =~= exact_paths(home@, id@).take(i as int).push(
                        p@,
                    ));
                }
                i = i + 1;
            }
            proof {
                assert(exact_paths(home@, id@).take(11) =~= exact_paths(home@, id@));
            }
        },
    }
    out
}

/// The paths whose existence decides the name-only matches of `app`.
pub fn fuzzy_candidates(app: &App, home: &str) -> (r: Vec<String>)
    ensures
        r@.map_values(|s: String| s@) == fuzzy_candidates_spec(*app, home@),
{
    let stem = app.stem();
    let a = join(home, "Library/Application Support");
    let c = join(home, "Library/Caches");
    let l = join(home, "Library/Logs");
    let r = vec![
        join(a.as_str(), app.name.as_str()),
        join(a.as_str(), stem.as_str()),
        join(c.as_str(), app.name.as_str()),
        join(c.as_str(), stem.as_str()),
        join(l.as_str(), app.name.as_str()),
        join(l.as_str(), stem.as_str()),
    ];
    assert(r@.map_values(|s: String| s@) =~= fuzzy_candidates_spec(*app, home@));
    r
}

/// The leftovers found among `cands`: `probes[k]` is the size of `cands[k]` (`None`: it does not exist).
pub open spec fn found_items(cands: Seq<Seq<char>>, probes: Seq<Option<u64>>, category: Category, reason: Seq<char>) -> Seq<ItemView>
    decreases probes.len(),
{
    if probes.len() == 0 {
        Seq::empty()
    } else {
        let prev = found_items(cands, probes.drop_last(), category, reason);
        match probes.last() {
            Some(size) => prev.push((cands[probes.len() - 1], size, category, reason)),
            None => prev,
        }
    }
}

/// The name-only matches found among `cands`, each path once.
pub open spec fn fuzzy_found(cands: Seq<Seq<char>>, probes: Seq<Option<u64>>, reason: Seq<char>) -> Seq<ItemView>
    decreases probes.len(),
{
    if probes.len() == 0 {
        Seq::empty()
    } else {
        let prev = fuzzy_found(cands, probes.drop_last(), reason);
        let p = cands[probes.len() - 1];
        match probes.last() {
            Some(size) => if exists|j: int| 0 <= j < prev.len() && same_path(#[trigger] prev[j].0, p) {
                prev
            } else {
                prev.push((p, size, Category::Fuzzy, reason))
            },
            None => prev,
        }
    }
}

/// Group containers of an app with bundle ID `id`: named `id`, `group.<id>` or `<TeamID>.<id>`.
pub open spec fn group_items(id: Seq<char>, entries: Seq<Entry>) -> Seq<ItemView>
    decreases entries.len(),
{
    if entries.len() == 0 {
        Seq::empty()
    } else {
        let prev = group_items(id, entries.drop_last());
        let e = entries.last();
        if e.name@ == id || ("."@ + id).is_suffix_of(e.name@) {
            prev.push(
                (
                    e.path@,
                    match e.size {
                        Some(s) => s,
                        None => 0,
                    },
                    Category::Leftover,
                    "group container of "@ + id,
                ),
            )
        } else {
            prev
        }
    }
}

/// What uninstalling an app would remove.
pub struct UninstallPlan {
    /// The bundle plus leftovers matched by exact bundle ID.
    pub plan: Plan,
    /// Folders that only match the app's name. Never deleted unless the caller opts in.
    pub fuzzy: Vec<Item>,
}

/// Why an app cannot be uninstalled.
#[derive(Debug, PartialEq, Eq)]
pub enum UninstallError {
    /// A `com.apple.*` app, named.
    SystemApp(String),
}

impl UninstallError {
    pub open spec fn message_spec(&self) -> Seq<char> {
        match self {
            UninstallError::SystemApp(n) => n@ + " is a system app (com.apple.*) and is never uninstalled"@,
        }
    }

    pub fn message(&self) -> (r: String)
        ensures
            r@ == self.message_spec(),
    {
        match self {
            UninstallError::SystemApp(n) => concat(n.as_str(), " is a system app (com.apple.*) and is never uninstalled"),
        }
    }
}

fn add_found(
    cands: &Vec<String>,
    probes: &Vec<Option<u64>>,
    category: Category,
    reason: &str,
    out: &mut Vec<Item>,
)
    requires
        cands@.len() == probes@.len(),
    ensures
        item_views(final(out)@) == item_views(old(out)@) + found_items(
            cands@.map_values(|s: String| s@),
            probes@,
            category,
            reason@,
        ),
{
    let ghost cv = cands@.map_values(|s: String| s@);
    let ghost start = item_views(out@);
    let mut i: usize = 0;
    while i < probes.len()
        invariant
            i <= probes@.len() == cands@.len(),
            cv == cands@.map_values(|s: String| s@),
            item_views(out@) == start + found_items(cv, probes@.take(i as int), category, reason@),
        decreases probes@.len() - i,
    {
        proof {
            assert(probes@.take(i + 1).drop_last() =~= probes@.take(i as int));
        }
        let ghost before = out@;
        match probes[i] {
            Some(size) => {
                out.push(Item { path: cands[i].clone(), size, category, reason: reason.to_owned() });
                proof {
                    assert(item_views(out@) =~= item_views(before).push((cv[i as int], size, category, reason@)));
                }
            },
            None => {},
        }
        i = i + 1;
    }
    proof {
        assert(probes@.take(probes@.len() as int) =~= probes@);
    }
}

fn add_groups(id: &str, entries: &Vec<Entry>, out: &mut Vec<Item>)
    ensures
        item_views(final(out)@) == item_views(old(out)@) + group_items(id@, entries@),
{
    let ghost start = item_views(out@);
    let dotted = concat(".", id);
    let reason = concat("group container of ", id);
    let mut i: usize = 0;
    while i < entries.len()
        invariant
            i <= entries@.len(),
            dotted@ == "."@ + id@,
            reason@ == "group container of "@ + id@,
            item_views(out@) == start + group_items(id@, entries@.take(i as int)),
        decreases entries@.len() - i,
    {
        let e = &entries[i];
        proof {
            assert(entries@.take(i + 1).drop_last() =~= entries@.take(i as int));
        }
        let ghost before = out@;
        if str_eq(e.name.as_str(), id) || ends_with_str(e.name.as_str(), dotted.as_str()) {
            let size = match e.size {
                Some(s) => s,
                None => 0,
            };
            out.push(Item { path: e.path.clone(), size, category: Category::Leftover, reason: reason.clone() });
            proof {
                assert(item_views(out@) =~= item_views(before).push(
                    (e.path@, size, Category::Leftover, "group container of "@ + id@),
                ));
            }
        }
        i = i + 1;
    }
    proof {
        assert(entries@.take(entries@.len() as int) =~= entries@);
    }
}

fn add_fuzzy(cands: &Vec<String>, probes: &Vec<Option<u64>>, reason: &str) -> (r: Vec<Item>)
    requires
        cands@.len() == probes@.len(),
    ensures
        item_views(r@) == fuzzy_found(cands@.map_values(|s: String| s@), probes@, reason@),
{
    let ghost cv = cands@.map_values(|s: String| s@);
    let mut out: Vec<Item> = Vec::new();
    let mut i: usize = 0;
    proof {
        assert(item_views(out@) =~= Seq::<ItemView>::empty());
    }
    while i < probes.len()
        invariant
            i <= probes@.len() == cands@.len(),
            cv == cands@.map_values(|s: String| s@),
            item_views(out@) == fuzzy_found(cv, probes@.take(i as int), reason@),
        decreases probes@.len() - i,
    {
        proof {
            assert(probes@.take(i + 1).drop_last() =~= probes@.take(i as int));
        }
        let ghost before = out@;
        let ghost prev = item_views(out@);
        match probes[i] {
            Some(size) => {
                let mut dup = false;
                let mut j: usize = 0;
                while j < out.len()
                    invariant
                        j <= out@.len(),
                        prev == item_views(out@),
                        cv == cands@.map_values(|s: String| s@),
                        i < cands@.len(),
                        dup == exists|m: int| 0 <= m < j && same_path(#[trigger] prev[m].0, cv[i as int]),
                    decreases out@.len() - j,
                {
                    assert(prev[j as int].0 == out@[j as int].path@);
                    if same(out[j].path.as_str(), cands[i].as_str()) {
                        dup = true;
                    }
                    j = j + 1;
                }
                if !dup {
                    out.push(Item { path: cands[i].clone(), size, category: Category::Fuzzy, reason: reason.to_owned() });
                    proof {
                        assert(item_views(out@) =~= prev.push((cv[i as int], size, Category::Fuzzy, reason@)));
                    }
                }
            },
            None => {},
        }
        i = i + 1;
    }
    proof {
        assert(probes@.take(probes@.len() as int) =~= probes@);
    }
    out
}

/// The warning for an app without a bundle ID.
pub open spec fn no_id_warning(name: Seq<char>) -> Seq<char> {
    name + " has no bundle ID; leftovers cannot be matched exactly"@
}

/// What uninstalling `app` would remove, given what was found on disk: `app_size` is the
/// bundle's size (`None`: unreadable, counted as 0), `exact[k]` the size of the `k`-th exact
/// candidate (`None`: absent), `groups` the entries of the group containers directory, and
/// `fuzzy[k]` the size of the `k`-th name-only candidate. Refuses `com.apple.*` apps.
pub fn uninstall_plan(
    app: &App,
    home: &str,
    app_size: Option<u64>,
    exact: &Vec<Option<u64>>,
    groups: &Vec<Entry>,
    fuzzy: &Vec<Option<u64>>,
) -> (r: Result<UninstallPlan, UninstallError>)
    requires
        exact@.len() == exact_candidates_spec(*app, home@).len(),
        fuzzy@.len() == fuzzy_candidates_spec(*app, home@).len(),
    ensures
        app.apple() <==> r is Err,
        r matches Err(UninstallError::SystemApp(n)) ==> n == app.name,
        r matches Ok(up) ==> {
            let bundle: ItemView = (
                app.path@,
                match app_size {
                    Some(s) => s,
                    None => 0,
                },
                Category::App,
                "application bundle"@,
            );
            &&& item_views(up.plan.items@) == match app.bundle_id {
                Some(id) => seq![bundle] + found_items(
                    exact_candidates_spec(*app, home@),
                    exact@,
                    Category::Leftover,
                    "matches bundle ID "@ + id@,
                ) + group_items(id@, groups@),
                None => seq![bundle],
            }
            &&& up.plan.warnings@.map_values(|w: String| w@) == match app.bundle_id {
                Some(_) => Seq::<Seq<char>>::empty(),
                None => seq![no_id_warning(app.name@)],
            }
            &&& item_views(up.fuzzy@) == fuzzy_found(
                fuzzy_candidates_spec(*app, home@),
                fuzzy@,
                "folder named after "@ + app.name@,
            )
        },
{
    if app.is_apple() {
        return Err(UninstallError::SystemApp(app.name.clone()));
    }
    let mut items: Vec<Item> = Vec::new();
    let mut warnings: Vec<String> = Vec::new();
    let size = match app_size {
        Some(s) => s,
        None => 0,
    };
    items.push(Item { path: app.path.clone(), size, category: Category::App, reason: "application bundle".to_owned() });
    let ghost bundle: ItemView = (app.path@, size, Category::App, "application bundle"@);
    proof {
        assert(item_views(items@) =~= seq![bundle]);
    }
    match &app.bundle_id {
        Some(id) => {
            let cands = exact_candidates(app, home);
            let reason = concat("matches bundle ID ", id.as_str());
            add_found(&cands, exact, Category::Leftover, reason.as_str(), &mut items);
            let ghost mid = item_views(items@);
            add_groups(id.as_str(), groups, &mut items);
            proof {
                assert(warnings@.map_values(|w: String| w@) =~= Seq::<Seq<char>>::empty());
            }
        },
        None => {
            let w = concat(app.name.as_str(), " has no bundle ID; leftovers cannot be matched exactly");
            warnings.push(w);
            proof {
                assert(warnings@.map_values(|w: String| w@) =~= seq![no_id_warning(app.name@)]);
            }
        },
    }
    let fcands = fuzzy_candidates(app, home);
    let freason = concat("folder named after ", app.name.as_str());
    let fz = add_fuzzy(&fcands, fuzzy, freason.as_str());
    Ok(UninstallPlan { plan: Plan { items, warnings }, fuzzy: fz })
}

/// The messages of `plan_uninstall`'s refusals.
pub open spec fn running_message(name: Seq<char>) -> Seq<char> {
    name + " is running; quit it first."@
}

/// The warning added for each name-only match that is kept out of an uninstall.
pub open spec fn not_removed_warning(path: Seq<char>) -> Seq<char> {
    "not removed (name match only): "@ + path
}

/// Same checks as `klinit uninstall`: no running apps, no system apps; name-only matches are
/// removed only when `include_fuzzy` asks for them, and listed as warnings otherwise.
/// `running` holds the paths of running executables; the rest is as for `uninstall_plan`.
pub fn plan_uninstall(
    app: &App,
    home: &str,
    running: &Vec<String>,
    include_fuzzy: bool,
    app_size: Option<u64>,
    exact: &Vec<Option<u64>>,
    groups: &Vec<Entry>,
    fuzzy: &Vec<Option<u64>>,
) -> (r: Result<Plan, String>)
    requires
        exact@.len() == exact_candidates_spec(*app, home@).len(),
        fuzzy@.len() == fuzzy_candidates_spec(*app, home@).len(),
    ensures
        app.running_in(running@) ==> (r matches Err(e) && e@ == running_message(app.name@)),
        !app.running_in(running@) && app.apple() ==> (r matches Err(e) && e@ == UninstallError::SystemApp(
            app.name,
        ).message_spec()),
        r is Ok <==> !app.running_in(running@) && !app.apple(),
        r matches Ok(p) ==> {
            let found = fuzzy_found(fuzzy_candidates_spec(*app, home@), fuzzy@, "folder named after "@ + app.name@);
            let base = match app.bundle_id {
                Some(id) => seq![(app.path@, match app_size { Some(s) => s, None => 0 }, Category::App, "application bundle"@)]
                    + found_items(exact_candidates_spec(*app, home@), exact@, Category::Leftover, "matches bundle ID "@ + id@)
                    + group_items(id@, groups@),
                None => seq![(app.path@, match app_size { Some(s) => s, None => 0 }, Category::App, "application bundle"@)],
            };
            let notes = match app.bundle_id {
                Some(_) => Seq::<Seq<char>>::empty(),
                None => seq![no_id_warning(app.name@)],
            };
            &&& item_views(p.items@) == if include_fuzzy { base + found } else { base }
            &&& p.warnings@.map_values(|w: String| w@) == if include_fuzzy {
                notes
            } else {
                notes + found.map_values(|f: ItemView| not_removed_warning(f.0))
            }
        },
{
    if app.is_running(running) {
        return Err(concat(app.name.as_str(), " is running; quit it first."));
    }
    let up = match uninstall_plan(app, home, app_size, exact, groups, fuzzy) {
        Err(e) => return Err(e.message()),
        Ok(up) => up,
    };
    let mut plan = up.plan;
    if include_fuzzy {
        let mut extra = up.fuzzy;
        let ghost before = plan.items@;
        let ghost more = extra@;
        plan.items.append(&mut extra);
        proof {
            assert(item_views(plan.items@) =~= item_views(before) + item_views(more));
        }
        return Ok(plan);
    }
    let ghost start = plan.warnings@.map_values(|w: String| w@);
    let ghost fv = item_views(up.fuzzy@);
    let ghost items0 = plan.items@;
    let mut i: usize = 0;
    while i < up.fuzzy.len()
        invariant
            i <= up.fuzzy@.len(),
            plan.items@ == items0,
            fv == item_views(up.fuzzy@),
            plan.warnings@.map_values(|w: String| w@) == start + fv.take(i as int).map_values(
                |f: ItemView| not_removed_warning(f.0),
            ),
        decreases up.fuzzy@.len() - i,
    {
        let ghost before = plan.warnings@;
        let w = concat("not removed (name match only): ", up.fuzzy[i].path.as_str());
        plan.warnings.push(w);
        proof {
            assert(plan.warnings@.map_values(|w: String| w@) =~= before.map_values(|w: String| w@).push(w@));
            assert(fv.take(i + 1).map_values(|f: ItemView| not_removed_warning(f.0)) =~= fv.take(
                i as int,
            ).map_values(|f: ItemView| not_removed_warning(f.0)).push(not_removed_warning(fv[i as int].0)));
        }
        i = i + 1;
    }
    proof {
        assert(fv.take(fv.len() as int) =~= fv);
    }
    Ok(plan)
}

} // verus!

verus! {

/// The bundle IDs of the apps that have one, in order.
pub open spec fn bundle_ids(apps: Seq<App>) -> Seq<Seq<char>>
    decreases apps.len(),
{
    if apps.len() == 0 {
        Seq::empty()
    } else {
        let prev = bundle_ids(apps.drop_last());
        match apps.last().bundle_id {
            Some(id) => prev.push(id@),
            None => prev,
        }
    }
}

/// The bundle IDs of the installed apps, which leftover data is matched against.
pub fn installed_ids(apps: &Vec<App>) -> (r: Vec<String>)
    ensures
        r@.map_values(|s: String| s@) == bundle_ids(apps@),
{
    let mut out: Vec<String> = Vec::new();
    let mut i: usize = 0;
    while i < apps.len()
        invariant
            i <= apps@.len(),
            out@.map_values(|s: String| s@) == bundle_ids(apps@.take(i as int)),
        decreases apps@.len() - i,
    {
        proof {
            assert(apps@.take(i + 1).drop_last() =~= apps@.take(i as int));
        }
        let ghost before = out@;
        match &apps[i].bundle_id {
            Some(id) => {
                out.push(id.clone());
                proof {
                    assert(out@.map_values(|s: String| s@) =~= before.map_values(|s: String| s@).push(id@));
                }
            },
            None => {},
        }
        i = i + 1;
    }
    proof {
        assert(apps@.take(apps@.len() as int) =~= apps@);
    }
    out
}

} // verus!
