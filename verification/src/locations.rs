//! The cleanup locations never lie in a protected location: whatever a scan finds under
//! them passes a fresh guard for the home directory.

use vstd::prelude::*;
use crate::path::{components, join_spec, joined, lemma_components_join, plain_names, starts_with_spec};
use crate::safety::{allowed, builtin_protected, protected_home_dirs};
use crate::targets::target_rows;

verus! {

/// The names in each cleanup location's relative path, in table order.
pub open spec fn target_names() -> Seq<Seq<Seq<char>>> {
    seq![
        seq!["Library"@, "Caches"@],
        seq!["Library"@, "Logs"@],
        seq!["Library"@, "Application Support"@, "CrashReporter"@],
        seq![".Trash"@],
        seq!["Library"@, "Developer"@, "Xcode"@, "DerivedData"@],
        seq!["Library"@, "Developer"@, "Xcode"@, "iOS DeviceSupport"@],
        seq!["Library"@, "Developer"@, "CoreSimulator"@, "Caches"@],
        seq!["Library"@, "Caches"@, "com.apple.Safari"@],
        seq!["Library"@, "Caches"@, "Google"@, "Chrome"@],
        seq!["Library"@, "Caches"@, "Firefox"@],
        seq![".npm"@, "_cacache"@],
        seq!["Library"@, "Caches"@, "Yarn"@],
        seq![".cargo"@, "registry"@, "cache"@],
        seq!["Library"@, "Caches"@, "Homebrew"@],
        seq![".gradle"@, "caches"@],
    ]
}

/// The names in each protected location's path relative to the home directory.
pub open spec fn protected_names() -> Seq<Seq<Seq<char>>> {
    seq![
        seq!["Documents"@],
        seq!["Desktop"@],
        seq!["Pictures"@],
        seq!["Movies"@],
        seq!["Music"@],
        seq!["Downloads"@],
        seq![".ssh"@],
        seq![".gnupg"@],
        seq!["Library"@, "Keychains"@],
    ]
}

proof fn lemma_joined_push(ws: Seq<Seq<char>>, w: Seq<char>)
    requires
        ws.len() >= 1,
    ensures
        joined(ws.push(w)) == joined(ws) + seq!['/'] + w,
{
    assert(ws.push(w).drop_last() =~= ws);
}

proof fn lemma_joined2(a: Seq<char>, b: Seq<char>)
    ensures
        joined(seq![a, b]) == a + seq!['/'] + b,
{
    lemma_joined_push(seq![a], b);
    assert(seq![a].push(b) =~= seq![a, b]);
}

proof fn lemma_joined3(a: Seq<char>, b: Seq<char>, c: Seq<char>)
    ensures
        joined(seq![a, b, c]) == a + seq!['/'] + b + seq!['/'] + c,
{
    lemma_joined2(a, b);
    lemma_joined_push(seq![a, b], c);
    assert(seq![a, b].push(c) =~= seq![a, b, c]);
}

proof fn lemma_joined4(a: Seq<char>, b: Seq<char>, c: Seq<char>, d: Seq<char>)
    ensures
        joined(seq![a, b, c, d]) == a + seq!['/'] + b + seq!['/'] + c + seq!['/'] + d,
{
    lemma_joined3(a, b, c);
    lemma_joined_push(seq![a, b, c], d);
    assert(seq![a, b, c].push(d) =~= seq![a, b, c, d]);
}

proof fn lemma_target_names(i: int)
    requires
        0 <= i < target_rows().len(),
    ensures
        target_names()[i].len() >= 1,
        plain_names(target_names()[i]),
        target_rows()[i].1 == joined(target_names()[i]),
{
    if i == 0 {
        reveal_strlit("Library/Caches");
        reveal_strlit("Library");
        reveal_strlit("Caches");
        assert(target_names()[0] == seq!["Library"@, "Caches"@]);
        assert(!"Library"@.contains('/'));
        assert(!"Caches"@.contains('/'));
        assert("Library/Caches"@ =~= "Library"@ + seq!['/'] + "Caches"@);
        assert(target_rows()[0].1 == "Library/Caches"@);
        lemma_joined2("Library"@, "Caches"@);
    } else if i == 1 {
        reveal_strlit("Library/Logs");
        reveal_strlit("Library");
        reveal_strlit("Logs");
        assert(target_names()[1] == seq!["Library"@, "Logs"@]);
        assert(!"Library"@.contains('/'));
        assert(!"Logs"@.contains('/'));
        assert("Library/Logs"@ =~= "Library"@ + seq!['/'] + "Logs"@);
        assert(target_rows()[1].1 == "Library/Logs"@);
        lemma_joined2("Library"@, "Logs"@);
    } else if i == 2 {
        reveal_strlit("Library/Application Support/CrashReporter");
        reveal_strlit("Library");
        reveal_strlit("Application Support");
        reveal_strlit("CrashReporter");
        assert(target_names()[2] == seq!["Library"@, "Application Support"@, "CrashReporter"@]);
        assert(!"Library"@.contains('/'));
        assert(!"Application Support"@.contains('/'));
        assert(!"CrashReporter"@.contains('/'));
        assert("Library/Application Support/CrashReporter"@ =~= "Library"@ + seq!['/'] + "Application Support"@ + seq!['/'] + "CrashReporter"@);
        assert(target_rows()[2].1 == "Library/Application Support/CrashReporter"@);
        lemma_joined3("Library"@, "Application Support"@, "CrashReporter"@);
    } else if i == 3 {
        reveal_strlit(".Trash");
        assert(target_names()[3] == seq![".Trash"@]);
        assert(!".Trash"@.contains('/'));
        assert(".Trash"@ =~= ".Trash"@);
        assert(target_rows()[3].1 == ".Trash"@);
        assert(joined(seq![".Trash"@]) == ".Trash"@);
    } else if i == 4 {
        reveal_strlit("Library/Developer/Xcode/DerivedData");
        reveal_strlit("Library");
        reveal_strlit("Developer");
        reveal_strlit("Xcode");
        reveal_strlit("DerivedData");
        assert(target_names()[4] == seq!["Library"@, "Developer"@, "Xcode"@, "DerivedData"@]);
        assert(!"Library"@.contains('/'));
        assert(!"Developer"@.contains('/'));
        assert(!"Xcode"@.contains('/'));
        assert(!"DerivedData"@.contains('/'));
        assert("Library/Developer/Xcode/DerivedData"@ =~= "Library"@ + seq!['/'] + "Developer"@ + seq!['/'] + "Xcode"@ + seq!['/'] + "DerivedData"@);
        assert(target_rows()[4].1 == "Library/Developer/Xcode/DerivedData"@);
        lemma_joined4("Library"@, "Developer"@, "Xcode"@, "DerivedData"@);
    } else if i == 5 {
        reveal_strlit("Library/Developer/Xcode/iOS DeviceSupport");
        reveal_strlit("Library");
        reveal_strlit("Developer");
        reveal_strlit("Xcode");
        reveal_strlit("iOS DeviceSupport");
        assert(target_names()[5] == seq!["Library"@, "Developer"@, "Xcode"@, "iOS DeviceSupport"@]);
        assert(!"Library"@.contains('/'));
        assert(!"Developer"@.contains('/'));
        assert(!"Xcode"@.contains('/'));
        assert(!"iOS DeviceSupport"@.contains('/'));
        assert("Library/Developer/Xcode/iOS DeviceSupport"@ =~= "Library"@ + seq!['/'] + "Developer"@ + seq!['/'] + "Xcode"@ + seq!['/'] + "iOS DeviceSupport"@);
        assert(target_rows()[5].1 == "Library/Developer/Xcode/iOS DeviceSupport"@);
        lemma_joined4("Library"@, "Developer"@, "Xcode"@, "iOS DeviceSupport"@);
    } else if i == 6 {
        reveal_strlit("Library/Developer/CoreSimulator/Caches");
        reveal_strlit("Library");
        reveal_strlit("Developer");
        reveal_strlit("CoreSimulator");
        reveal_strlit("Caches");
        assert(target_names()[6] == seq!["Library"@, "Developer"@, "CoreSimulator"@, "Caches"@]);
        assert(!"Library"@.contains('/'));
        assert(!"Developer"@.contains('/'));
        assert(!"CoreSimulator"@.contains('/'));
        assert(!"Caches"@.contains('/'));
        assert("Library/Developer/CoreSimulator/Caches"@ =~= "Library"@ + seq!['/'] + "Developer"@ + seq!['/'] + "CoreSimulator"@ + seq!['/'] + "Caches"@);
        assert(target_rows()[6].1 == "Library/Developer/CoreSimulator/Caches"@);
        lemma_joined4("Library"@, "Developer"@, "CoreSimulator"@, "Caches"@);
    } else if i == 7 {
        reveal_strlit("Library/Caches/com.apple.Safari");
        reveal_strlit("Library");
        reveal_strlit("Caches");
        reveal_strlit("com.apple.Safari");
        assert(target_names()[7] == seq!["Library"@, "Caches"@, "com.apple.Safari"@]);
        assert(!"Library"@.contains('/'));
        assert(!"Caches"@.contains('/'));
        assert(!"com.apple.Safari"@.contains('/'));
        assert("Library/Caches/com.apple.Safari"@ =~= "Library"@ + seq!['/'] + "Caches"@ + seq!['/'] + "com.apple.Safari"@);
        assert(target_rows()[7].1 == "Library/Caches/com.apple.Safari"@);
        lemma_joined3("Library"@, "Caches"@, "com.apple.Safari"@);
    } else if i == 8 {
        reveal_strlit("Library/Caches/Google/Chrome");
        reveal_strlit("Library");
        reveal_strlit("Caches");
        reveal_strlit("Google");
        reveal_strlit("Chrome");
        assert(target_names()[8] == seq!["Library"@, "Caches"@, "Google"@, "Chrome"@]);
        assert(!"Library"@.contains('/'));
        assert(!"Caches"@.contains('/'));
        assert(!"Google"@.contains('/'));
        assert(!"Chrome"@.contains('/'));
        assert("Library/Caches/Google/Chrome"@ =~= "Library"@ + seq!['/'] + "Caches"@ + seq!['/'] + "Google"@ + seq!['/'] + "Chrome"@);
        assert(target_rows()[8].1 == "Library/Caches/Google/Chrome"@);
        lemma_joined4("Library"@, "Caches"@, "Google"@, "Chrome"@);
    } else if i == 9 {
        reveal_strlit("Library/Caches/Firefox");
        reveal_strlit("Library");
        reveal_strlit("Caches");
        reveal_strlit("Firefox");
        assert(target_names()[9] == seq!["Library"@, "Caches"@, "Firefox"@]);
        assert(!"Library"@.contains('/'));
        assert(!"Caches"@.contains('/'));
        assert(!"Firefox"@.contains('/'));
        assert("Library/Caches/Firefox"@ =~= "Library"@ + seq!['/'] + "Caches"@ + seq!['/'] + "Firefox"@);
        assert(target_rows()[9].1 == "Library/Caches/Firefox"@);
        lemma_joined3("Library"@, "Caches"@, "Firefox"@);
    } else if i == 10 {
        reveal_strlit(".npm/_cacache");
        reveal_strlit(".npm");
        reveal_strlit("_cacache");
        assert(target_names()[10] == seq![".npm"@, "_cacache"@]);
        assert(!".npm"@.contains('/'));
        assert(!"_cacache"@.contains('/'));
        assert(".npm/_cacache"@ =~= ".npm"@ + seq!['/'] + "_cacache"@);
        assert(target_rows()[10].1 == ".npm/_cacache"@);
        lemma_joined2(".npm"@, "_cacache"@);
    } else if i == 11 {
        reveal_strlit("Library/Caches/Yarn");
        reveal_strlit("Library");
        reveal_strlit("Caches");
        reveal_strlit("Yarn");
        assert(target_names()[11] == seq!["Library"@, "Caches"@, "Yarn"@]);
        assert(!"Library"@.contains('/'));
        assert(!"Caches"@.contains('/'));
        assert(!"Yarn"@.contains('/'));
        assert("Library/Caches/Yarn"@ =~= "Library"@ + seq!['/'] + "Caches"@ + seq!['/'] + "Yarn"@);
        assert(target_rows()[11].1 == "Library/Caches/Yarn"@);
        lemma_joined3("Library"@, "Caches"@, "Yarn"@);
    } else if i == 12 {
        reveal_strlit(".cargo/registry/cache");
        reveal_strlit(".cargo");
        reveal_strlit("registry");
        reveal_strlit("cache");
        assert(target_names()[12] == seq![".cargo"@, "registry"@, "cache"@]);
        assert(!".cargo"@.contains('/'));
        assert(!"registry"@.contains('/'));
        assert(!"cache"@.contains('/'));
        assert(".cargo/registry/cache"@ =~= ".cargo"@ + seq!['/'] + "registry"@ + seq!['/'] + "cache"@);
        assert(target_rows()[12].1 == ".cargo/registry/cache"@);
        lemma_joined3(".cargo"@, "registry"@, "cache"@);
    } else if i == 13 {
        reveal_strlit("Library/Caches/Homebrew");
        reveal_strlit("Library");
        reveal_strlit("Caches");
        reveal_strlit("Homebrew");
        assert(target_names()[13] == seq!["Library"@, "Caches"@, "Homebrew"@]);
        assert(!"Library"@.contains('/'));
        assert(!"Caches"@.contains('/'));
        assert(!"Homebrew"@.contains('/'));
        assert("Library/Caches/Homebrew"@ =~= "Library"@ + seq!['/'] + "Caches"@ + seq!['/'] + "Homebrew"@);
        assert(target_rows()[13].1 == "Library/Caches/Homebrew"@);
        lemma_joined3("Library"@, "Caches"@, "Homebrew"@);
    } else {
        reveal_strlit(".gradle/caches");
        reveal_strlit(".gradle");
        reveal_strlit("caches");
        assert(target_names()[14] == seq![".gradle"@, "caches"@]);
        assert(!".gradle"@.contains('/'));
        assert(!"caches"@.contains('/'));
        assert(".gradle/caches"@ =~= ".gradle"@ + seq!['/'] + "caches"@);
        assert(target_rows()[14].1 == ".gradle/caches"@);
        lemma_joined2(".gradle"@, "caches"@);
    }
}

proof fn lemma_protected_names(i: int)
    requires
        0 <= i < protected_home_dirs().len(),
    ensures
        protected_names()[i].len() >= 1,
        plain_names(protected_names()[i]),
        protected_home_dirs()[i] == joined(protected_names()[i]),
{
    if i == 0 {
        reveal_strlit("Documents");
        assert(protected_names()[0] == seq!["Documents"@]);
        assert(!"Documents"@.contains('/'));
        assert("Documents"@ =~= "Documents"@);
        assert(protected_home_dirs()[0] == "Documents"@);
        assert(joined(seq!["Documents"@]) == "Documents"@);
    } else if i == 1 {
        reveal_strlit("Desktop");
        assert(protected_names()[1] == seq!["Desktop"@]);
        assert(!"Desktop"@.contains('/'));
        assert("Desktop"@ =~= "Desktop"@);
        assert(protected_home_dirs()[1] == "Desktop"@);
        assert(joined(seq!["Desktop"@]) == "Desktop"@);
    } else if i == 2 {
        reveal_strlit("Pictures");
        assert(protected_names()[2] == seq!["Pictures"@]);
        assert(!"Pictures"@.contains('/'));
        assert("Pictures"@ =~= "Pictures"@);
        assert(protected_home_dirs()[2] == "Pictures"@);
        assert(joined(seq!["Pictures"@]) == "Pictures"@);
    } else if i == 3 {
        reveal_strlit("Movies");
        assert(protected_names()[3] == seq!["Movies"@]);
        assert(!"Movies"@.contains('/'));
        assert("Movies"@ =~= "Movies"@);
        assert(protected_home_dirs()[3] == "Movies"@);
        assert(joined(seq!["Movies"@]) == "Movies"@);
    } else if i == 4 {
        reveal_strlit("Music");
        assert(protected_names()[4] == seq!["Music"@]);
        assert(!"Music"@.contains('/'));
        assert("Music"@ =~= "Music"@);
        assert(protected_home_dirs()[4] == "Music"@);
        assert(joined(seq!["Music"@]) == "Music"@);
    } else if i == 5 {
        reveal_strlit("Downloads");
        assert(protected_names()[5] == seq!["Downloads"@]);
        assert(!"Downloads"@.contains('/'));
        assert("Downloads"@ =~= "Downloads"@);
        assert(protected_home_dirs()[5] == "Downloads"@);
        assert(joined(seq!["Downloads"@]) == "Downloads"@);
    } else if i == 6 {
        reveal_strlit(".ssh");
        assert(protected_names()[6] == seq![".ssh"@]);
        assert(!".ssh"@.contains('/'));
        assert(".ssh"@ =~= ".ssh"@);
        assert(protected_home_dirs()[6] == ".ssh"@);
        assert(joined(seq![".ssh"@]) == ".ssh"@);
    } else if i == 7 {
        reveal_strlit(".gnupg");
        assert(protected_names()[7] == seq![".gnupg"@]);
        assert(!".gnupg"@.contains('/'));
        assert(".gnupg"@ =~= ".gnupg"@);
        assert(protected_home_dirs()[7] == ".gnupg"@);
        assert(joined(seq![".gnupg"@]) == ".gnupg"@);
    } else {
        reveal_strlit("Library/Keychains");
        reveal_strlit("Library");
        reveal_strlit("Keychains");
        assert(protected_names()[8] == seq!["Library"@, "Keychains"@]);
        assert(!"Library"@.contains('/'));
        assert(!"Keychains"@.contains('/'));
        assert("Library/Keychains"@ =~= "Library"@ + seq!['/'] + "Keychains"@);
        assert(protected_home_dirs()[8] == "Library/Keychains"@);
        lemma_joined2("Library"@, "Keychains"@);
    }
}


/// Where the names of cleanup location `i` and protected location `j` first part.
pub open spec fn parting(i: int, j: int) -> int {
    if j == 8 && i != 3 && i != 10 && i != 12 && i != 14 {
        1
    } else {
        0
    }
}

/// Two texts that differ at one position differ.
proof fn lemma_differ_at(a: Seq<char>, b: Seq<char>, k: int)
    requires
        0 <= k < a.len(),
        0 <= k < b.len(),
        a[k] != b[k],
    ensures
        a != b,
{
}

/// The first name of a protected location is never a first name of a cleanup location,
/// except `Library`, and `Keychains` is never a second name under it.
proof fn lemma_names_part(i: int, j: int)
    requires
        0 <= i < target_names().len(),
        0 <= j < protected_names().len(),
    ensures
        parting(i, j) < target_names()[i].len(),
        parting(i, j) < protected_names()[j].len(),
        target_names()[i][parting(i, j)] != protected_names()[j][parting(i, j)],
{
    reveal_strlit("Library");
    reveal_strlit(".Trash");
    reveal_strlit(".npm");
    reveal_strlit(".cargo");
    reveal_strlit(".gradle");
    reveal_strlit("Caches");
    reveal_strlit("Logs");
    reveal_strlit("Application Support");
    reveal_strlit("Developer");
    reveal_strlit("Keychains");
    reveal_strlit("Documents");
    reveal_strlit("Desktop");
    reveal_strlit("Pictures");
    reveal_strlit("Movies");
    reveal_strlit("Music");
    reveal_strlit("Downloads");
    reveal_strlit(".ssh");
    reveal_strlit(".gnupg");
    let t = parting(i, j);
    let a = target_names()[i][t];
    let b = protected_names()[j][t];
    if a.len() == b.len() {
        if a[0] != b[0] {
            lemma_differ_at(a, b, 0);
        } else {
            lemma_differ_at(a, b, 1);
        }
    }
}

/// Nothing a scan finds at or under a cleanup location is refused by a fresh guard for an
/// absolute home directory: it lies inside the home directory, is not the home directory,
/// and neither lies inside nor holds a protected location.
pub proof fn targets_are_never_protected(home: Seq<char>, i: int, x: Seq<char>)
    requires
        home.len() > 0 && home[0] == '/',
        0 <= i < target_rows().len(),
        starts_with_spec(x, join_spec(home, target_rows()[i].1)),
    ensures
        allowed(home, builtin_protected(home), Seq::empty(), x),
{
    lemma_target_names(i);
    let w = target_names()[i];
    lemma_components_join(home, w);
    let cx = components(x);
    let ch = components(home);
    assert(ch.is_prefix_of(cx)) by {
        assert forall|k: int| 0 <= k < ch.len() implies ch[k] == cx[k] by {
            assert((ch + w)[k] == ch[k]);
        }
        assert(ch =~= cx.subrange(0, ch.len() as int));
    }
    assert(cx.len() >= ch.len() + w.len());
    assert(ch != cx);
    let prot = builtin_protected(home);
    assert forall|j: int| 0 <= j < prot.len() implies !starts_with_spec(x, #[trigger] prot[j]) by {
        lemma_protected_names(j);
        let d = protected_names()[j];
        assert(prot[j] == join_spec(home, protected_home_dirs()[j]));
        lemma_components_join(home, d);
        lemma_names_part(i, j);
        let t = parting(i, j);
        if starts_with_spec(x, prot[j]) {
            assert((ch + d)[ch.len() + t] == cx[ch.len() + t]);
            assert((ch + w)[ch.len() + t] == cx[ch.len() + t]);
        }
    }
    assert forall|j: int| 0 <= j < prot.len() implies !starts_with_spec(#[trigger] prot[j], x) by {
        lemma_protected_names(j);
        let d = protected_names()[j];
        assert(prot[j] == join_spec(home, protected_home_dirs()[j]));
        lemma_components_join(home, d);
        lemma_names_part(i, j);
        let t = parting(i, j);
        if starts_with_spec(prot[j], x) {
            assert(cx[ch.len() + t] == (ch + d)[ch.len() + t]);
            assert((ch + w)[ch.len() + t] == cx[ch.len() + t]);
        }
    }
}

} // verus!
