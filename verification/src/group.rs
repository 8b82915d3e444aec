//! Grouping positions by equal keys, keys in order of first appearance.

use vstd::prelude::*;

verus! {

broadcast use Seq::lemma_filter_push;

/// The distinct keys of `ks` in order of first appearance (`None` has no key).
pub open spec fn first_keys<V>(ks: Seq<Option<V>>) -> Seq<V>
    decreases ks.len(),
{
    if ks.len() == 0 {
        Seq::empty()
    } else {
        let prev = first_keys(ks.drop_last());
        match ks.last() {
            Some(k) => if prev.contains(k) {
                prev
            } else {
                prev.push(k)
            },
            None => prev,
        }
    }
}

/// The positions holding key `k`, ascending.
pub open spec fn positions<V>(ks: Seq<Option<V>>, k: V) -> Seq<int>
    decreases ks.len(),
{
    if ks.len() == 0 {
        Seq::empty()
    } else {
        let prev = positions(ks.drop_last(), k);
        if ks.last() == Some(k) {
            prev.push(ks.len() - 1)
        } else {
            prev
        }
    }
}

/// One group of positions per distinct key.
pub open spec fn groups_of<V>(ks: Seq<Option<V>>) -> Seq<Seq<int>> {
    first_keys(ks).map_values(|k: V| positions(ks, k))
}

/// The groups of two or more positions.
pub open spec fn repeated_groups<V>(ks: Seq<Option<V>>) -> Seq<Seq<int>> {
    groups_of(ks).filter(|g: Seq<int>| g.len() > 1)
}

/// The key views of optional keys.
pub open spec fn key_views<K: View>(keys: Seq<Option<K>>) -> Seq<Option<K::V>> {
    keys.map_values(|o: Option<K>| match o {
        Some(k) => Some(k@),
        None => None,
    })
}

/// The groups as integer sequences.
pub open spec fn group_views(g: Seq<Vec<usize>>) -> Seq<Seq<int>> {
    g.map_values(|v: Vec<usize>| v@.map_values(|i: usize| i as int))
}

proof fn lemma_positions_in_range<V>(ks: Seq<Option<V>>, k: V, j: int)
    requires
        0 <= j < positions(ks, k).len(),
    ensures
        0 <= positions(ks, k)[j] < ks.len(),
    decreases ks.len(),
{
    if ks.len() > 0 {
        let prev = positions(ks.drop_last(), k);
        if j < prev.len() {
            lemma_positions_in_range(ks.drop_last(), k, j);
        }
    }
}

/// Every position in a repeated group is a position of `ks`.
pub(crate) proof fn lemma_groups_in_range<V>(ks: Seq<Option<V>>, i: int, j: int)
    requires
        0 <= i < repeated_groups(ks).len(),
        0 <= j < repeated_groups(ks)[i].len(),
    ensures
        0 <= repeated_groups(ks)[i][j] < ks.len(),
{
    let pred = |g: Seq<int>| g.len() > 1;
    let all = groups_of(ks);
    let g = repeated_groups(ks)[i];
    assert(all.filter(pred).contains(g));
    all.lemma_filter_contains_rev(pred, g);
    let m = choose|m: int| 0 <= m < all.len() && all[m] == g;
    lemma_positions_in_range(ks, first_keys(ks)[m], j);
}

proof fn lemma_first_keys_distinct<V>(ks: Seq<Option<V>>)
    ensures
        first_keys(ks).no_duplicates(),
    decreases ks.len(),
{
    if ks.len() > 0 {
        lemma_first_keys_distinct(ks.drop_last());
    }
}

proof fn lemma_no_positions<V>(ks: Seq<Option<V>>, k: V)
    requires
        !first_keys(ks).contains(k),
    ensures
        positions(ks, k).len() == 0,
    decreases ks.len(),
{
    if ks.len() > 0 {
        let prev = first_keys(ks.drop_last());
        if ks.last() == Some(k) {
            if prev.contains(k) {
            } else {
                assert(first_keys(ks) == prev.push(k));
                assert(first_keys(ks)[prev.len() as int] == k);
            }
        } else {
            if prev.contains(k) {
                let j = choose|j: int| 0 <= j < prev.len() && prev[j] == k;
                assert(first_keys(ks).contains(prev[j])) by {
                    match ks.last() {
                        Some(x) => if !prev.contains(x) {
                            assert(first_keys(ks)[j] == prev[j]);
                        },
                        None => {},
                    }
                }
            }
            lemma_no_positions(ks.drop_last(), k);
        }
    }
}

/// Within each group, positions ascend.
pub open spec fn ascending(gs: Seq<Seq<int>>) -> bool {
    forall|g: int, i: int, j: int|
        0 <= g < gs.len() && 0 <= i < j < gs[g].len() ==> #[trigger] gs[g][i] < #[trigger] gs[g][j]
}

/// No position appears twice among all the groups.
pub open spec fn disjoint(gs: Seq<Seq<int>>) -> bool {
    forall|g1: int, g2: int, i: int, j: int|
        0 <= g1 < gs.len() && 0 <= g2 < gs.len() && 0 <= i < gs[g1].len() && 0 <= j < gs[g2].len()
            && #[trigger] gs[g1][i] == #[trigger] gs[g2][j] ==> g1 == g2 && i == j
}

/// Every member of each group is a position of `ks` with a known key, the same across the group.
pub open spec fn agree<V>(gs: Seq<Seq<int>>, ks: Seq<Option<V>>) -> bool {
    forall|g: int, i: int|
        0 <= g < gs.len() && 0 <= i < gs[g].len() ==> 0 <= #[trigger] gs[g][i] < ks.len() && ks[gs[g][i]] is Some
            && ks[gs[g][i]] == ks[gs[g][0]]
}

/// `a` and `b` are members of one group.
pub open spec fn together(gs: Seq<Seq<int>>, a: int, b: int) -> bool {
    exists|g: int, i: int, j: int|
        0 <= g < gs.len() && 0 <= i < gs[g].len() && 0 <= j < gs[g].len() && #[trigger] gs[g][i] == a
            && #[trigger] gs[g][j] == b
}

proof fn lemma_positions_key<V>(ks: Seq<Option<V>>, k: V, j: int)
    requires
        0 <= j < positions(ks, k).len(),
    ensures
        0 <= positions(ks, k)[j] < ks.len(),
        ks[positions(ks, k)[j]] == Some(k),
    decreases ks.len(),
{
    if ks.len() > 0 {
        let prev = positions(ks.drop_last(), k);
        if j < prev.len() {
            lemma_positions_key(ks.drop_last(), k, j);
        }
    }
}

proof fn lemma_positions_ascending<V>(ks: Seq<Option<V>>, k: V, i: int, j: int)
    requires
        0 <= i < j < positions(ks, k).len(),
    ensures
        positions(ks, k)[i] < positions(ks, k)[j],
    decreases ks.len(),
{
    if ks.len() > 0 {
        let prev = positions(ks.drop_last(), k);
        if j < prev.len() {
            lemma_positions_ascending(ks.drop_last(), k, i, j);
        } else {
            lemma_positions_key(ks.drop_last(), k, i);
        }
    }
}

proof fn lemma_positions_complete<V>(ks: Seq<Option<V>>, k: V, p: int)
    requires
        0 <= p < ks.len(),
        ks[p] == Some(k),
    ensures
        positions(ks, k).contains(p),
    decreases ks.len(),
{
    let prev = positions(ks.drop_last(), k);
    if p == ks.len() - 1 {
        assert(positions(ks, k)[prev.len() as int] == p);
    } else {
        lemma_positions_complete(ks.drop_last(), k, p);
        let w = choose|w: int| 0 <= w < prev.len() && prev[w] == p;
        assert(positions(ks, k)[w] == p);
    }
}

proof fn lemma_first_keys_has<V>(ks: Seq<Option<V>>, p: int)
    requires
        0 <= p < ks.len(),
        ks[p] is Some,
    ensures
        first_keys(ks).contains(ks[p]->0),
    decreases ks.len(),
{
    let prev = first_keys(ks.drop_last());
    if p < ks.len() - 1 {
        lemma_first_keys_has(ks.drop_last(), p);
        let w = choose|w: int| 0 <= w < prev.len() && prev[w] == ks[p]->0;
        assert(first_keys(ks)[w] == ks[p]->0);
    } else {
        if !prev.contains(ks[p]->0) {
            assert(first_keys(ks)[prev.len() as int] == ks[p]->0);
        }
    }
}

proof fn lemma_first_keys_witness<V>(ks: Seq<Option<V>>, k: V)
    requires
        first_keys(ks).contains(k),
    ensures
        positions(ks, k).len() > 0,
    decreases ks.len(),
{
    if ks.len() > 0 {
        let prev = first_keys(ks.drop_last());
        if ks.last() != Some(k) {
            assert(prev.contains(k)) by {
                let w = choose|w: int| 0 <= w < first_keys(ks).len() && first_keys(ks)[w] == k;
                if w < prev.len() {
                    assert(prev[w] == k);
                }
            }
            lemma_first_keys_witness(ks.drop_last(), k);
        }
    }
}

proof fn lemma_filter_no_duplicates<A>(s: Seq<A>, p: spec_fn(A) -> bool)
    requires
        s.no_duplicates(),
    ensures
        s.filter(p).no_duplicates(),
    decreases s.len(),
{
    if s.len() > 0 {
        let rest = s.drop_last();
        assert(rest.no_duplicates());
        lemma_filter_no_duplicates(rest, p);
        assert(s == rest.push(s.last()));
        if p(s.last()) {
            assert(!rest.filter(p).contains(s.last())) by {
                if rest.filter(p).contains(s.last()) {
                    rest.lemma_filter_contains_rev(p, s.last());
                    let w = choose|w: int| 0 <= w < rest.len() && rest[w] == s.last();
                    assert(s[w] == s[s.len() - 1]);
                }
            }
            let f = rest.filter(p);
            assert forall|i: int, j: int| 0 <= i < j < f.push(s.last()).len() implies f.push(s.last())[i]
                != f.push(s.last())[j] by {
                if j == f.len() {
                    assert(f.contains(f[i]));
                }
            }
        }
    }
}

proof fn lemma_groups_distinct<V>(ks: Seq<Option<V>>)
    ensures
        groups_of(ks).no_duplicates(),
{
    let fk = first_keys(ks);
    lemma_first_keys_distinct(ks);
    assert forall|a: int, b: int| 0 <= a < b < groups_of(ks).len() implies groups_of(ks)[a] != groups_of(ks)[b] by {
        assert(fk.contains(fk[a]));
        lemma_first_keys_witness(ks, fk[a]);
        lemma_positions_key(ks, fk[a], 0);
        if groups_of(ks)[a] == groups_of(ks)[b] {
            lemma_positions_key(ks, fk[b], 0);
        }
    }
}

/// Each repeated group holds the positions of one key that occurs.
proof fn lemma_repeated_group<V>(ks: Seq<Option<V>>, g: int) -> (k: V)
    requires
        0 <= g < repeated_groups(ks).len(),
    ensures
        first_keys(ks).contains(k),
        repeated_groups(ks)[g] == positions(ks, k),
        repeated_groups(ks)[g].len() > 1,
{
    let pred = |h: Seq<int>| h.len() > 1;
    let all = groups_of(ks);
    broadcast use vstd::seq_lib::group_filter_ensures;
    let h = repeated_groups(ks)[g];
    assert(all.filter(pred).contains(h));
    all.lemma_filter_contains_rev(pred, h);
    let m = choose|m: int| 0 <= m < all.len() && all[m] == h;
    let k = first_keys(ks)[m];
    assert(first_keys(ks).contains(k));
    k
}

/// The repeated groups of `ks` ascend, share no position, and agree on their key.
pub proof fn lemma_repeated_groups_shape<V>(ks: Seq<Option<V>>)
    ensures
        ascending(repeated_groups(ks)),
        disjoint(repeated_groups(ks)),
        agree(repeated_groups(ks), ks),
{
    let r = repeated_groups(ks);
    assert forall|g: int, i: int, j: int| 0 <= g < r.len() && 0 <= i < j < r[g].len() implies #[trigger] r[g][i]
        < #[trigger] r[g][j] by {
        let k = lemma_repeated_group(ks, g);
        lemma_positions_ascending(ks, k, i, j);
    }
    assert forall|g: int, i: int| 0 <= g < r.len() && 0 <= i < r[g].len() implies 0 <= #[trigger] r[g][i] < ks.len()
        && ks[r[g][i]] is Some && ks[r[g][i]] == ks[r[g][0]] by {
        let k = lemma_repeated_group(ks, g);
        lemma_positions_key(ks, k, i);
        lemma_positions_key(ks, k, 0);
    }
    lemma_groups_distinct(ks);
    lemma_filter_no_duplicates(groups_of(ks), |h: Seq<int>| h.len() > 1);
    assert forall|g1: int, g2: int, i: int, j: int|
        0 <= g1 < r.len() && 0 <= g2 < r.len() && 0 <= i < r[g1].len() && 0 <= j < r[g2].len()
            && #[trigger] r[g1][i] == #[trigger] r[g2][j] implies g1 == g2 && i == j by {
        let k1 = lemma_repeated_group(ks, g1);
        let k2 = lemma_repeated_group(ks, g2);
        lemma_positions_key(ks, k1, i);
        lemma_positions_key(ks, k2, j);
        assert(r[g1] == r[g2]);
        if i < j {
            lemma_positions_ascending(ks, k1, i, j);
        } else if j < i {
            lemma_positions_ascending(ks, k1, j, i);
        }
    }
}

/// Two different positions with the same known key share a repeated group.
pub proof fn lemma_repeated_groups_complete<V>(ks: Seq<Option<V>>, a: int, b: int)
    requires
        0 <= a < ks.len(),
        0 <= b < ks.len(),
        a != b,
        ks[a] is Some,
        ks[a] == ks[b],
    ensures
        together(repeated_groups(ks), a, b),
{
    let k = ks[a]->0;
    let ps = positions(ks, k);
    lemma_positions_complete(ks, k, a);
    lemma_positions_complete(ks, k, b);
    let ia = choose|i: int| 0 <= i < ps.len() && ps[i] == a;
    let ib = choose|i: int| 0 <= i < ps.len() && ps[i] == b;
    assert(ps.len() > 1);
    lemma_first_keys_has(ks, a);
    let fk = first_keys(ks);
    let m = choose|m: int| 0 <= m < fk.len() && fk[m] == k;
    let pred = |h: Seq<int>| h.len() > 1;
    let all = groups_of(ks);
    assert(all[m] == ps);
    all.lemma_filter_contains(pred, m);
    assert(all.filter(pred).contains(ps));
    let g = choose|g: int| 0 <= g < repeated_groups(ks).len() && repeated_groups(ks)[g] == ps;
    assert(repeated_groups(ks)[g][ia] == a && repeated_groups(ks)[g][ib] == b);
}

/// Positions of `keys` grouped by equal key (by view), keys in order of first appearance;
/// only groups of two or more are kept. `eq` compares keys.
pub fn group_positions<K: View, F: Fn(&K, &K) -> bool>(keys: &Vec<Option<K>>, eq: F) -> (r: Vec<Vec<usize>>)
    requires
        forall|a: K, b: K| #[trigger] eq.requires((&a, &b)),
        forall|a: K, b: K, x: bool| eq.ensures((&a, &b), x) ==> x == (a@ == b@),
    ensures
        group_views(r@) == repeated_groups(key_views(keys@)),
{
    let ghost ks = key_views(keys@);
    let mut groups: Vec<Vec<usize>> = Vec::new();
    let mut i: usize = 0;
    proof {
        assert(ks.take(0) =~= Seq::<Option<K::V>>::empty());
        assert(group_views(groups@) =~= groups_of(ks.take(0)));
    }
    while i < keys.len()
        invariant
            i <= keys@.len(),
            ks == key_views(keys@),
            ks.len() == keys@.len(),
            group_views(groups@) == groups_of(ks.take(i as int)),
            forall|g: int|
                0 <= g < groups@.len() ==> (#[trigger] groups@[g])@.len() > 0 && groups@[g]@[0] < i
                    && ks[groups@[g]@[0] as int] == Some(first_keys(ks.take(i as int))[g]),
            forall|a: K, b: K| #[trigger] eq.requires((&a, &b)),
            forall|a: K, b: K, x: bool| eq.ensures((&a, &b), x) ==> x == (a@ == b@),
        decreases keys@.len() - i,
    {
        let ghost pre = ks.take(i as int);
        let ghost fk = first_keys(pre);
        proof {
            assert(ks.take(i + 1).drop_last() =~= pre);
            assert(ks.take(i + 1).last() == ks[i as int]);
            assert(group_views(groups@).len() == groups@.len());
            assert(groups_of(pre).len() == fk.len());
            assert(groups@.len() == fk.len());
        }
        match &keys[i] {
            None => {
                proof {
                    assert(ks[i as int] is None);
                    assert forall|k: K::V| positions(ks.take(i + 1), k) == positions(pre, k) by {}
                    assert(group_views(groups@) =~= groups_of(ks.take(i + 1)));
                }
            },
            Some(k) => {
                assert(ks[i as int] == Some(k@));
                let mut g: usize = 0;
                let mut found = false;
                while g < groups.len()
                    invariant_except_break
                        !found,
                    invariant
                        g <= groups@.len(),
                        groups@.len() == fk.len(),
                        forall|h: int| 0 <= h < g ==> fk[h] != k@,
                        forall|h: int|
                            0 <= h < groups@.len() ==> (#[trigger] groups@[h])@.len() > 0 && groups@[h]@[0] < i
                                && ks[groups@[h]@[0] as int] == Some(fk[h]),
                        i < keys@.len(),
                        ks == key_views(keys@),
                        forall|a: K, b: K| #[trigger] eq.requires((&a, &b)),
                        forall|a: K, b: K, x: bool| eq.ensures((&a, &b), x) ==> x == (a@ == b@),
                    ensures
                        g <= groups@.len(),
                        found ==> g < groups@.len() && fk[g as int] == k@,
                        !found ==> g == groups@.len() && forall|h: int| 0 <= h < groups@.len() ==> fk[h] != k@,
                    decreases groups@.len() - g,
                {
                    let first = groups[g][0];
                    let same = match &keys[first] {
                        Some(other) => eq(other, k),
                        None => false,
                    };
                    if same {
                        found = true;
                        break;
                    }
                    g = g + 1;
                }
                if found {
                    let ghost before = groups@;
                    let mut grp = groups.remove(g);
                    grp.push(i);
                    groups.insert(g, grp);
                    proof {
                        assert(fk.contains(k@));
                        lemma_first_keys_distinct(pre);
                        assert(first_keys(ks.take(i + 1)) == fk);
                        assert forall|j: int| 0 <= j < fk.len() implies #[trigger] group_views(groups@)[j]
                            == positions(ks.take(i + 1), fk[j]) by {
                            if j == g {
                                assert(groups@[j]@ =~= before[j]@.push(i));
                                assert(group_views(before)[j] == positions(pre, fk[j]));
                                assert(group_views(groups@)[j] =~= group_views(before)[j].push(i as int));
                            } else {
                                assert(groups@[j] == before[j]);
                                assert(group_views(groups@)[j] == group_views(before)[j]);
                                assert(group_views(before)[j] == positions(pre, fk[j]));
                                assert(fk[j] != k@);
                            }
                        }
                        assert(group_views(groups@) =~= groups_of(ks.take(i + 1)));
                        assert forall|h: int|
                            0 <= h < groups@.len() implies (#[trigger] groups@[h])@.len() > 0 && groups@[h]@[0] < i + 1
                                && ks[groups@[h]@[0] as int] == Some(first_keys(ks.take(i + 1))[h]) by {
                            if h == g {
                                assert(groups@[h]@[0] == before[h]@[0]);
                            } else {
                                assert(groups@[h] == before[h]);
                            }
                        }
                    }
                } else {
                    let ghost before = groups@;
                    groups.push(vec![i]);
                    proof {
                        assert(!fk.contains(k@));
                        lemma_no_positions(pre, k@);
                        let nk = fk.push(k@);
                        assert(first_keys(ks.take(i + 1)) == nk);
                        assert forall|j: int| 0 <= j < nk.len() implies #[trigger] group_views(groups@)[j]
                            == positions(ks.take(i + 1), nk[j]) by {
                            if j == fk.len() {
                                assert(positions(ks.take(i + 1), k@) =~= seq![i as int]);
                                assert(group_views(groups@)[j] =~= seq![i as int]);
                            } else {
                                assert(groups@[j] == before[j]);
                                assert(group_views(groups@)[j] == group_views(before)[j]);
                                assert(group_views(before)[j] == positions(pre, fk[j]));
                                assert(nk[j] == fk[j]);
                                assert(nk[j] != k@);
                            }
                        }
                        assert(group_views(groups@) =~= groups_of(ks.take(i + 1)));
                        assert forall|h: int|
                            0 <= h < groups@.len() implies (#[trigger] groups@[h])@.len() > 0 && groups@[h]@[0] < i + 1
                                && ks[groups@[h]@[0] as int] == Some(first_keys(ks.take(i + 1))[h]) by {
                            if h < before.len() {
                                assert(groups@[h] == before[h]);
                            }
                        }
                    }
                }
            },
        }
        i = i + 1;
    }
    proof {
        assert(ks.take(keys@.len() as int) =~= ks);
    }
    let mut out: Vec<Vec<usize>> = Vec::new();
    let ghost all = groups@;
    let ghost pred = |g: Seq<int>| g.len() > 1;
    let mut rest = groups;
    let mut pending: Vec<Vec<usize>> = Vec::new();
    let n = rest.len();
    while rest.len() > 0
        invariant
            pending@.len() + rest@.len() == n,
            n == all.len(),
            forall|k: int| 0 <= k < pending@.len() ==> pending@[k] == all[n - 1 - k],
            rest@ == all.take(rest@.len() as int),
        decreases rest@.len(),
    {
        let x = rest.pop().unwrap();
        pending.push(x);
        proof {
            assert(rest@ =~= all.take(rest@.len() as int));
        }
    }
    let mut done: usize = 0;
    proof {
        assert(group_views(all).take(0).filter(pred) =~= Seq::<Seq<int>>::empty());
        assert(group_views(out@) =~= Seq::<Seq<int>>::empty());
    }
    while pending.len() > 0
        invariant
            pending@.len() + done == n,
            n == all.len(),
            pred == (|g: Seq<int>| g.len() > 1),
            forall|k: int| 0 <= k < pending@.len() ==> pending@[k] == all[n - 1 - k],
            group_views(out@) == group_views(all).take(done as int).filter(pred),
        decreases pending@.len(),
    {
        let x = pending.pop().unwrap();
        let ghost before = out@;
        proof {
            assert(group_views(all).take(done + 1) =~= group_views(all).take(done as int).push(
                x@.map_values(|i: usize| i as int),
            ));
        }
        if x.len() > 1 {
            out.push(x);
            proof {
                assert(group_views(out@) =~= group_views(before).push(x@.map_values(|i: usize| i as int)));
            }
        }
        done = done + 1;
    }
    proof {
        assert(group_views(all).take(n as int) =~= group_views(all));
    }
    out
}

} // verus!
