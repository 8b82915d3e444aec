//! The guard that every path passes before the executor may delete it.
//!
//! Paths reach the guard already resolved (symlinks and `..` followed); the guard then
//! decides by components alone.

use vstd::prelude::*;
use crate::text::str_eq;
use crate::path::{
    components, extension, extension_spec, has_parent, join, join_spec, parent_components, parent_is, same,
    same_path, starts_with, starts_with_spec, views,
};

verus! {

/// Top-level directories under `$HOME` that are never touched, nor is anything inside them.
pub open spec fn protected_home_dirs() -> Seq<Seq<char>> {
    seq![
        "Documents"@,
        "Desktop"@,
        "Pictures"@,
        "Movies"@,
        "Music"@,
        "Downloads"@,
        ".ssh"@,
        ".gnupg"@,
        "Library/Keychains"@,
    ]
}

/// The built-in protected paths of a home directory.
pub open spec fn builtin_protected(home: Seq<char>) -> Seq<Seq<char>> {
    protected_home_dirs().map_values(|d: Seq<char>| join_spec(home, d))
}

fn protected_home_dir_names() -> (r: Vec<&'static str>)
    ensures
        r@.map_values(|s: &str| s@) == protected_home_dirs(),
{
    let r = vec![
        "Documents",
        "Desktop",
        "Pictures",
        "Movies",
        "Music",
        "Downloads",
        ".ssh",
        ".gnupg",
        "Library/Keychains",
    ];
    assert(r@.map_values(|s: &str| s@) =~= protected_home_dirs());
    r
}

/// Why a path may not be deleted.
#[derive(Debug, PartialEq, Eq)]
pub enum Violation {
    /// The path could not be resolved (it does not exist).
    Missing,
    OutsideHome,
    /// Inside this protected location.
    Protected(String),
    IsHome,
    /// Holds this protected location, which deleting the path would delete too.
    Contains(String),
}

impl Violation {
    /// The message shown to the user.
    pub open spec fn message_spec(&self) -> Seq<char> {
        match self {
            Violation::Missing => "path does not exist"@,
            Violation::OutsideHome => "path is outside the home directory"@,
            Violation::Protected(p) => "path is inside protected location "@ + p@,
            Violation::IsHome => "refusing to touch the home directory itself"@,
            Violation::Contains(p) => "path contains protected location "@ + p@,
        }
    }

    pub fn message(&self) -> (r: String)
        ensures
            r@ == self.message_spec(),
    {
        match self {
            Violation::Missing => "path does not exist".to_owned(),
            Violation::OutsideHome => "path is outside the home directory".to_owned(),
            Violation::Protected(p) => {
                let mut s = "path is inside protected location ".to_owned();
                s.append(p.as_str());
                s
            },
            Violation::IsHome => "refusing to touch the home directory itself".to_owned(),
            Violation::Contains(p) => {
                let mut s = "path contains protected location ".to_owned();
                s.append(p.as_str());
                s
            },
        }
    }
}

/// The view of an optional string.
pub open spec fn opt_view(o: Option<String>) -> Option<Seq<char>> {
    match o {
        Some(s) => Some(s@),
        None => None,
    }
}

/// Why a guard could not be set up.
#[derive(Debug, PartialEq, Eq)]
pub enum SetupError {
    /// The home directory has no parent, i.e. it is `/`.
    RootAsHome,
}

impl SetupError {
    pub fn message(&self) -> (r: String)
        ensures
            r@ == "refusing to use / as the home directory"@,
    {
        "refusing to use / as the home directory".to_owned()
    }
}

/// Every path must pass through the guard before the executor may delete it.
pub struct Guard {
    home: String,
    protected: Vec<String>,
    /// Directories (e.g. /Applications) whose direct `*.app` children may be deleted despite being outside home.
    app_dirs: Vec<String>,
}

/// `x` is a `*.app` bundle directly inside one of `app_dirs`.
pub open spec fn is_app_bundle(x: Seq<char>, app_dirs: Seq<Seq<char>>) -> bool {
    &&& extension_spec(x) == Some("app"@)
    &&& exists|i: int| 0 <= i < app_dirs.len() && parent_components(x) == Some(components(#[trigger] app_dirs[i]))
}

/// `x` lies inside (or is) one of `protected`.
pub open spec fn inside_any(x: Seq<char>, protected: Seq<Seq<char>>) -> bool {
    exists|i: int| 0 <= i < protected.len() && starts_with_spec(x, #[trigger] protected[i])
}

/// One of `protected` lies inside (or is) `x`, so deleting `x` would delete it too.
pub open spec fn holds_any(x: Seq<char>, protected: Seq<Seq<char>>) -> bool {
    exists|i: int| 0 <= i < protected.len() && starts_with_spec(#[trigger] protected[i], x)
}

/// Whether a guard over `home`, `protected` and `app_dirs` lets the resolved path `x` be deleted:
/// it is not the home directory, neither lies inside nor holds a protected location, and is
/// inside the home directory or an app bundle directly inside one of `app_dirs`.
pub open spec fn allowed(home: Seq<char>, protected: Seq<Seq<char>>, app_dirs: Seq<Seq<char>>, x: Seq<char>) -> bool {
    &&& !same_path(x, home)
    &&& !inside_any(x, protected)
    &&& !holds_any(x, protected)
    &&& (is_app_bundle(x, app_dirs) || starts_with_spec(x, home))
}

impl Guard {
    pub closed spec fn home_view(&self) -> Seq<char> {
        self.home@
    }

    pub closed spec fn protected_view(&self) -> Seq<Seq<char>> {
        views(self.protected@)
    }

    pub closed spec fn app_dirs_view(&self) -> Seq<Seq<char>> {
        views(self.app_dirs@)
    }

    /// The built-in protected locations are still in force.
    pub open spec fn keeps_builtin(&self) -> bool {
        builtin_protected(self.home_view()).is_prefix_of(self.protected_view())
    }

    /// Whether this guard lets the resolved path `x` be deleted.
    pub open spec fn allows(&self, x: Seq<char>) -> bool {
        allowed(self.home_view(), self.protected_view(), self.app_dirs_view(), x)
    }

    /// Whether the guard refuses the resolved path `x` (`None`: it could not be resolved) with `v`.
    pub open spec fn refuses_with(&self, x: Option<Seq<char>>, v: Violation) -> bool {
        match x {
            None => v == Violation::Missing,
            Some(x) => match v {
                Violation::Missing => false,
                Violation::IsHome => same_path(x, self.home_view()),
                Violation::Protected(p) => {
                    &&& !same_path(x, self.home_view())
                    &&& (is_app_bundle(x, self.app_dirs_view()) || starts_with_spec(x, self.home_view()))
                    &&& exists|i: int|
                        0 <= i < self.protected_view().len() && p@ == self.protected_view()[i]
                            && starts_with_spec(x, self.protected_view()[i]) && forall|j: int|
                            0 <= j < i ==> !starts_with_spec(x, #[trigger] self.protected_view()[j])
                },
                Violation::OutsideHome => {
                    &&& !same_path(x, self.home_view())
                    &&& !is_app_bundle(x, self.app_dirs_view())
                    &&& !starts_with_spec(x, self.home_view())
                },
                Violation::Contains(p) => {
                    &&& !same_path(x, self.home_view())
                    &&& !inside_any(x, self.protected_view())
                    &&& (is_app_bundle(x, self.app_dirs_view()) || starts_with_spec(x, self.home_view()))
                    &&& exists|i: int|
                        0 <= i < self.protected_view().len() && p@ == self.protected_view()[i]
                            && starts_with_spec(self.protected_view()[i], x) && forall|j: int|
                            0 <= j < i ==> !starts_with_spec(#[trigger] self.protected_view()[j], x)
                },
            },
        }
    }

    /// A guard for the resolved (canonical) home directory `home`.
    pub fn new(home: &str) -> (r: Result<Guard, SetupError>)
        ensures
            r is Err <==> parent_components(home@) is None,
            r matches Ok(g) ==> {
                &&& g.home_view() == home@
                &&& g.protected_view() == builtin_protected(home@)
                &&& g.app_dirs_view() == Seq::<Seq<char>>::empty()
                &&& g.keeps_builtin()
            },
    {
        if !has_parent(home) {
            return Err(SetupError::RootAsHome);
        }
        let names = protected_home_dir_names();
        let mut protected: Vec<String> = Vec::new();
        let mut i: usize = 0;
        while i < names.len()
            invariant
                i <= names@.len(),
                names@.map_values(|s: &str| s@) == protected_home_dirs(),
                views(protected@) == builtin_protected(home@).take(i as int),
            decreases names@.len() - i,
        {
            let p = join(home, names[i]);
            let ghost prev = protected@;
            protected.push(p);
            proof {
                assert(names@.map_values(|s: &str| s@)[i as int] == names@[i as int]@);
                assert(views(protected@) =~= views(prev).push(p@));
                assert(builtin_protected(home@).take(i + 1) =~= builtin_protected(home@).take(
                    i as int,
                ).push(join_spec(home@, protected_home_dirs()[i as int])));
            }
            i = i + 1;
        }
        let g = Guard { home: home.to_owned(), protected, app_dirs: Vec::new() };
        proof {
            assert(builtin_protected(home@).take(9) =~= builtin_protected(home@));
            assert(views(g.app_dirs@) =~= Seq::<Seq<char>>::empty());
            assert(g.protected_view().take(g.protected_view().len() as int) =~= g.protected_view());
        }
        Ok(g)
    }

    /// Allows deleting `*.app` bundles that sit directly inside `dir` (the resolved directory,
    /// or `None` when it could not be resolved). Nothing else there is allowed.
    pub fn allow_app_dir(self, dir: Option<String>) -> (r: Self)
        ensures
            r.home_view() == self.home_view(),
            r.protected_view() == self.protected_view(),
            r.app_dirs_view() == match dir {
                Some(d) => self.app_dirs_view().push(d@),
                None => self.app_dirs_view(),
            },
            self.keeps_builtin() ==> r.keeps_builtin(),
    {
        let mut g = self;
        if let Some(d) = dir {
            let ghost prev = g.app_dirs@;
            g.app_dirs.push(d);
            proof {
                assert(views(g.app_dirs@) =~= views(prev).push(d@));
            }
        }
        g
    }

    /// Adds user-configured paths (resolved where possible, otherwise as written) that must
    /// never be deleted, nor anything inside them.
    pub fn protect(self, paths: Vec<String>) -> (r: Self)
        ensures
            r.home_view() == self.home_view(),
            r.protected_view() == self.protected_view() + views(paths@),
            r.app_dirs_view() == self.app_dirs_view(),
            self.keeps_builtin() ==> r.keeps_builtin(),
    {
        let mut g = self;
        let ghost before = views(g.protected@);
        let mut paths = paths;
        let ghost all = paths@;
        g.protected.append(&mut paths);
        proof {
            assert(views(g.protected@) =~= before + views(all));
            if builtin_protected(g.home@).is_prefix_of(before) {
                assert(builtin_protected(g.home@).is_prefix_of(before + views(all)));
            }
        }
        g
    }

    pub fn home(&self) -> (r: &str)
        ensures
            r@ == self.home_view(),
    {
        self.home.as_str()
    }

    fn is_app_bundle(&self, resolved: &str) -> (r: bool)
        ensures
            r == is_app_bundle(resolved@, self.app_dirs_view()),
    {
        let ext = extension(resolved);
        let is_app = match &ext {
            Some(e) => str_eq(e.as_str(), "app"),
            None => false,
        };
        if !is_app {
            return false;
        }
        let mut i: usize = 0;
        while i < self.app_dirs.len()
            invariant
                i <= self.app_dirs@.len(),
                extension_spec(resolved@) == Some("app"@),
                forall|j: int|
                    0 <= j < i ==> parent_components(resolved@) != Some(
                        components(#[trigger] views(self.app_dirs@)[j]),
                    ),
            decreases self.app_dirs@.len() - i,
        {
            if parent_is(resolved, self.app_dirs[i].as_str()) {
                assert(self.app_dirs_view()[i as int] == self.app_dirs@[i as int]@);
                assert(parent_components(resolved@) == Some(components(self.app_dirs_view()[i as int])));
                return true;
            }
            i = i + 1;
        }
        false
    }

    /// Takes the resolved form of a path (`None` when it could not be resolved) and returns it
    /// only if deletion is allowed. A symlink is judged by where it points, so a link out of a
    /// cache dir cannot smuggle a protected target through.
    pub fn check(&self, resolved: Option<String>) -> (r: Result<String, Violation>)
        ensures
            r is Ok <==> (resolved is Some && self.allows(resolved->0@)),
            r matches Ok(p) ==> resolved == Some(p),
            r matches Err(v) ==> self.refuses_with(opt_view(resolved), v),
    {
        let x = match resolved {
            None => return Err(Violation::Missing),
            Some(p) => p,
        };
        if same(x.as_str(), self.home.as_str()) {
            return Err(Violation::IsHome);
        }
        if !self.is_app_bundle(x.as_str()) && !starts_with(x.as_str(), self.home.as_str()) {
            return Err(Violation::OutsideHome);
        }
        let mut i: usize = 0;
        while i < self.protected.len()
            invariant
                i <= self.protected@.len(),
                resolved == Some(x),
                !same_path(x@, self.home_view()),
                is_app_bundle(x@, self.app_dirs_view()) || starts_with_spec(x@, self.home_view()),
                forall|j: int|
                    0 <= j < i ==> !starts_with_spec(x@, #[trigger] views(self.protected@)[j]),
            decreases self.protected@.len() - i,
        {
            let p = &self.protected[i];
            assert(views(self.protected@)[i as int] == p@);
            if starts_with(x.as_str(), p.as_str()) {
                proof {
                    assert(starts_with_spec(x@, self.protected_view()[i as int]));
                    assert(inside_any(x@, self.protected_view()));
                }
                return Err(Violation::Protected(p.clone()));
            }
            i = i + 1;
        }
        proof {
            assert(!inside_any(x@, self.protected_view()));
        }
        let mut i: usize = 0;
        while i < self.protected.len()
            invariant
                i <= self.protected@.len(),
                resolved == Some(x),
                !same_path(x@, self.home_view()),
                !inside_any(x@, self.protected_view()),
                is_app_bundle(x@, self.app_dirs_view()) || starts_with_spec(x@, self.home_view()),
                forall|j: int|
                    0 <= j < i ==> !starts_with_spec(#[trigger] views(self.protected@)[j], x@),
            decreases self.protected@.len() - i,
        {
            let p = &self.protected[i];
            assert(views(self.protected@)[i as int] == p@);
            if starts_with(p.as_str(), x.as_str()) {
                proof {
                    assert(starts_with_spec(self.protected_view()[i as int], x@));
                    assert(holds_any(x@, self.protected_view()));
                }
                return Err(Violation::Contains(p.clone()));
            }
            i = i + 1;
        }
        proof {
            assert(!holds_any(x@, self.protected_view()));
        }
        Ok(x)
    }
}


/// The built-in protected locations (`Documents`, `.ssh`, ...), everything inside them and
/// everything that holds them are refused by every guard that keeps them.
pub proof fn builtin_locations_are_refused(g: &Guard, x: Seq<char>, k: int)
    requires
        g.keeps_builtin(),
        0 <= k < protected_home_dirs().len(),
        starts_with_spec(x, join_spec(g.home_view(), protected_home_dirs()[k])) || starts_with_spec(
            join_spec(g.home_view(), protected_home_dirs()[k]),
            x,
        ),
    ensures
        !g.allows(x),
{
    let b = builtin_protected(g.home_view());
    assert(b[k] == join_spec(g.home_view(), protected_home_dirs()[k]));
    assert(g.protected_view()[k] == b[k]);
    if starts_with_spec(x, b[k]) {
        assert(inside_any(x, g.protected_view()));
    } else {
        assert(holds_any(x, g.protected_view()));
    }
}

/// The home directory itself is never allowed, whatever spelling resolves to it.
pub proof fn home_itself_is_refused(g: &Guard, x: Seq<char>)
    requires
        same_path(x, g.home_view()),
    ensures
        !g.allows(x),
{
}

/// Outside the home directory only app bundles directly inside an allowed folder pass.
pub proof fn outside_home_is_refused(g: &Guard, x: Seq<char>)
    requires
        !starts_with_spec(x, g.home_view()),
        !is_app_bundle(x, g.app_dirs_view()),
    ensures
        !g.allows(x),
{
}

/// Protecting more paths never allows anything that was refused before.
pub proof fn protecting_more_only_narrows(before: &Guard, after: &Guard, extra: Seq<Seq<char>>, x: Seq<char>)
    requires
        after.home_view() == before.home_view(),
        after.app_dirs_view() == before.app_dirs_view(),
        after.protected_view() == before.protected_view() + extra,
        after.allows(x),
    ensures
        before.allows(x),
{
    if inside_any(x, before.protected_view()) {
        let i = choose|i: int|
            0 <= i < before.protected_view().len() && starts_with_spec(x, #[trigger] before.protected_view()[i]);
        assert(after.protected_view()[i] == before.protected_view()[i]);
        assert(inside_any(x, after.protected_view()));
    }
    if holds_any(x, before.protected_view()) {
        let i = choose|i: int|
            0 <= i < before.protected_view().len() && starts_with_spec(#[trigger] before.protected_view()[i], x);
        assert(after.protected_view()[i] == before.protected_view()[i]);
        assert(holds_any(x, after.protected_view()));
    }
}

/// A path inside one of the user's configured exclusions, or holding one, is refused, app
/// bundles included.
pub proof fn configured_exclusions_are_refused(g: &Guard, x: Seq<char>, i: int)
    requires
        0 <= i < g.protected_view().len(),
        starts_with_spec(x, g.protected_view()[i]) || starts_with_spec(g.protected_view()[i], x),
    ensures
        !g.allows(x),
{
    if starts_with_spec(x, g.protected_view()[i]) {
        assert(inside_any(x, g.protected_view()));
    } else {
        assert(holds_any(x, g.protected_view()));
    }
}

/// Deleting what the guard allows never touches a protected location: the path neither lies
/// inside one nor holds one.
pub proof fn protected_locations_are_untouched(g: &Guard, x: Seq<char>, i: int)
    requires
        g.allows(x),
        0 <= i < g.protected_view().len(),
    ensures
        !starts_with_spec(x, g.protected_view()[i]),
        !starts_with_spec(g.protected_view()[i], x),
{
}

} // verus!
