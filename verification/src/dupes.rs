//! The duplicate search from end to end: files grouped by size, each group split by the
//! digest of a prefix, then by the digest of the whole file.

use vstd::prelude::*;
use crate::group::{
    agree, ascending, disjoint, group_views, key_views, lemma_groups_in_range, lemma_repeated_groups_complete,
    lemma_repeated_groups_shape, repeated_groups, together,
};
use crate::large::{refine, refined, same_size_groups, size_key, Candidate};

verus! {

/// The group `g` (positions of files) split by `ks` (keys indexed by position): the repeated
/// groups of its members' keys, as positions of files.
pub open spec fn split_group<V>(g: Seq<int>, ks: Seq<Option<V>>) -> Seq<Seq<int>> {
    repeated_groups(g.map_values(|k: int| ks[k])).map_values(|h: Seq<int>| h.map_values(|j: int| g[j]))
}

/// Every group of `gs` split by `ks`, in order.
pub open spec fn split_all<V>(gs: Seq<Seq<int>>, ks: Seq<Option<V>>) -> Seq<Seq<int>>
    decreases gs.len(),
{
    if gs.len() == 0 {
        Seq::empty()
    } else {
        split_all(gs.drop_last(), ks) + split_group(gs.last(), ks)
    }
}

/// The size keys of the candidates.
pub open spec fn size_keys(files: Seq<Candidate>, min_size: u64) -> Seq<Option<u64>> {
    files.map_values(|f: Candidate| size_key(f, min_size))
}

/// The sets of identical files, as positions: grouped by size, split by the digests of their
/// prefixes (`prefix[k]` for the `k`-th file), then by those of their whole content (`full`).
pub open spec fn dupe_sets(
    files: Seq<Candidate>,
    min_size: u64,
    prefix: Seq<Option<Seq<u8>>>,
    full: Seq<Option<Seq<u8>>>,
) -> Seq<Seq<int>> {
    split_all(split_all(repeated_groups(size_keys(files, min_size)), prefix), full)
}

/// Files `a` and `b` count as copies: both large enough and of one size, with the same
/// known prefix digest and the same known full digest.
pub open spec fn alike(
    files: Seq<Candidate>,
    min_size: u64,
    prefix: Seq<Option<Seq<u8>>>,
    full: Seq<Option<Seq<u8>>>,
    a: int,
    b: int,
) -> bool {
    let sk = size_keys(files, min_size);
    &&& sk[a] is Some && sk[a] == sk[b]
    &&& prefix[a] is Some && prefix[a] == prefix[b]
    &&& full[a] is Some && full[a] == full[b]
}

/// `h` holds only members of `g`.
pub open spec fn within(h: Seq<int>, g: Seq<int>) -> bool {
    forall|i: int| 0 <= i < h.len() ==> g.contains(#[trigger] h[i])
}

/// `h` lies within one group of `gs`.
pub open spec fn lies_in(h: Seq<int>, gs: Seq<Seq<int>>) -> bool {
    exists|g: int| 0 <= g < gs.len() && #[trigger] within(h, gs[g])
}

/// Each group of `out` lies within one group of `gs`.
pub open spec fn from_one(out: Seq<Seq<int>>, gs: Seq<Seq<int>>) -> bool {
    forall|o: int| 0 <= o < out.len() ==> #[trigger] lies_in(out[o], gs)
}

/// All positions in the groups index `ks`.
pub open spec fn in_range<V>(gs: Seq<Seq<int>>, ks: Seq<Option<V>>) -> bool {
    forall|g: int, i: int| 0 <= g < gs.len() && 0 <= i < gs[g].len() ==> 0 <= #[trigger] gs[g][i] < ks.len()
}

proof fn lemma_split_group<V>(g: Seq<int>, ks: Seq<Option<V>>)
    requires
        forall|i: int| 0 <= i < g.len() ==> 0 <= #[trigger] g[i] < ks.len(),
        forall|i: int, j: int| 0 <= i < j < g.len() ==> #[trigger] g[i] < #[trigger] g[j],
    ensures
        forall|o: int| 0 <= o < split_group(g, ks).len() ==> within(#[trigger] split_group(g, ks)[o], g),
        agree(split_group(g, ks), ks),
        ascending(split_group(g, ks)),
        disjoint(split_group(g, ks)),
        forall|ia: int, ib: int|
            0 <= ia < g.len() && 0 <= ib < g.len() && ia != ib && ks[g[ia]] is Some && ks[g[ia]] == ks[g[ib]]
                ==> together(split_group(g, ks), #[trigger] g[ia], #[trigger] g[ib]),
{
    let m = g.map_values(|k: int| ks[k]);
    let r = repeated_groups(m);
    let out = split_group(g, ks);
    lemma_repeated_groups_shape(m);
    assert(out.len() == r.len());
    assert forall|o: int, i: int| 0 <= o < out.len() && 0 <= i < out[o].len() implies out[o][i] == g[r[o][i]]
        && 0 <= r[o][i] < g.len() by {
        lemma_groups_in_range(m, o, i);
    }
    assert forall|o: int| 0 <= o < out.len() implies within(#[trigger] out[o], g) by {
        assert forall|i: int| 0 <= i < out[o].len() implies g.contains(#[trigger] out[o][i]) by {
            assert(out[o][i] == g[r[o][i]]);
        }
    }
    assert forall|o: int, i: int| 0 <= o < out.len() && 0 <= i < out[o].len() implies 0 <= #[trigger] out[o][i]
        < ks.len() && ks[out[o][i]] is Some && ks[out[o][i]] == ks[out[o][0]] by {
        assert(out[o][i] == g[r[o][i]]);
        assert(out[o][0] == g[r[o][0]]);
        assert(m[r[o][i]] == ks[g[r[o][i]]]);
        assert(m[r[o][0]] == ks[g[r[o][0]]]);
        assert(0 <= r[o][i] < m.len() && m[r[o][i]] is Some && m[r[o][i]] == m[r[o][0]]);
    }
    assert forall|o: int, i: int, j: int| 0 <= o < out.len() && 0 <= i < j < out[o].len() implies #[trigger] out[o][i]
        < #[trigger] out[o][j] by {
        assert(r[o][i] < r[o][j]);
        assert(out[o][i] == g[r[o][i]]);
        assert(out[o][j] == g[r[o][j]]);
    }
    assert forall|o1: int, o2: int, i: int, j: int|
        0 <= o1 < out.len() && 0 <= o2 < out.len() && 0 <= i < out[o1].len() && 0 <= j < out[o2].len()
            && #[trigger] out[o1][i] == #[trigger] out[o2][j] implies o1 == o2 && i == j by {
        let x = r[o1][i];
        let y = r[o2][j];
        assert(out[o1][i] == g[x]);
        assert(out[o2][j] == g[y]);
        if x < y {
            assert(g[x] < g[y]);
        } else if y < x {
            assert(g[y] < g[x]);
        }
        assert(r[o1][i] == r[o2][j]);
    }
    assert forall|ia: int, ib: int|
        0 <= ia < g.len() && 0 <= ib < g.len() && ia != ib && ks[g[ia]] is Some && ks[g[ia]] == ks[g[ib]]
            implies together(out, #[trigger] g[ia], #[trigger] g[ib]) by {
        assert(m[ia] == ks[g[ia]] && m[ib] == ks[g[ib]]);
        lemma_repeated_groups_complete(m, ia, ib);
        let (o, i, j) = choose|o: int, i: int, j: int|
            0 <= o < r.len() && 0 <= i < r[o].len() && 0 <= j < r[o].len() && #[trigger] r[o][i] == ia
                && #[trigger] r[o][j] == ib;
        assert(out[o][i] == g[ia] && out[o][j] == g[ib]);
    }
}

proof fn lemma_concat_from_one(gs: Seq<Seq<int>>, a: Seq<Seq<int>>, b: Seq<Seq<int>>)
    requires
        gs.len() > 0,
        from_one(a, gs.drop_last()),
        forall|o: int| 0 <= o < b.len() ==> within(#[trigger] b[o], gs.last()),
    ensures
        from_one(a + b, gs),
{
    let out = a + b;
    let rest = gs.drop_last();
    let n = gs.len() - 1;
    assert forall|o: int| 0 <= o < out.len() implies #[trigger] lies_in(out[o], gs) by {
        lemma_concat_from_one_at(gs, a, b, o);
    }
}

proof fn lemma_concat_from_one_at(gs: Seq<Seq<int>>, a: Seq<Seq<int>>, b: Seq<Seq<int>>, o: int)
    requires
        gs.len() > 0,
        from_one(a, gs.drop_last()),
        forall|o: int| 0 <= o < b.len() ==> within(#[trigger] b[o], gs.last()),
        0 <= o < a.len() + b.len(),
    ensures
        lies_in((a + b)[o], gs),
{
    let out = a + b;
    let rest = gs.drop_last();
    let n = gs.len() - 1;
    if o < a.len() {
        assert(out[o] == a[o]);
        assert(lies_in(a[o], rest));
        let g = choose|g: int| 0 <= g < rest.len() && #[trigger] within(a[o], rest[g]);
        assert(rest[g] == gs[g]);
        assert(within(out[o], gs[g]));
    } else {
        assert(out[o] == b[o - a.len()]);
        assert(within(b[o - a.len()], gs.last()));
        assert(within(out[o], gs[n]));
    }
}

proof fn lemma_concat_shape<V>(a: Seq<Seq<int>>, b: Seq<Seq<int>>, ks: Seq<Option<V>>)
    requires
        agree(a, ks),
        agree(b, ks),
        ascending(a),
        ascending(b),
    ensures
        agree(a + b, ks),
        ascending(a + b),
{
    let out = a + b;
    let al = a.len();
    assert forall|o: int, i: int| 0 <= o < out.len() && 0 <= i < out[o].len() implies 0 <= #[trigger] out[o][i]
        < ks.len() && ks[out[o][i]] is Some && ks[out[o][i]] == ks[out[o][0]] by {
        if o < al {
            assert(out[o] == a[o]);
            assert(a[o][i] == out[o][i]);
        } else {
            assert(out[o] == b[o - al]);
            assert(b[o - al][i] == out[o][i]);
        }
    }
    assert forall|o: int, i: int, j: int| 0 <= o < out.len() && 0 <= i < j < out[o].len() implies #[trigger] out[o][i]
        < #[trigger] out[o][j] by {
        if o < al {
            assert(out[o] == a[o]);
            assert(a[o][i] == out[o][i] && a[o][j] == out[o][j]);
        } else {
            assert(out[o] == b[o - al]);
            assert(b[o - al][i] == out[o][i] && b[o - al][j] == out[o][j]);
        }
    }
}

proof fn lemma_concat_disjoint(gs: Seq<Seq<int>>, a: Seq<Seq<int>>, b: Seq<Seq<int>>)
    requires
        gs.len() > 0,
        disjoint(gs),
        disjoint(a),
        disjoint(b),
        from_one(a, gs.drop_last()),
        forall|o: int| 0 <= o < b.len() ==> within(#[trigger] b[o], gs.last()),
    ensures
        disjoint(a + b),
{
    let out = a + b;
    let al = a.len();
    let rest = gs.drop_last();
    let n = gs.len() - 1;
    let last = gs.last();
    assert forall|o1: int, o2: int, i: int, j: int|
        0 <= o1 < out.len() && 0 <= o2 < out.len() && 0 <= i < out[o1].len() && 0 <= j < out[o2].len()
            && #[trigger] out[o1][i] == #[trigger] out[o2][j] implies o1 == o2 && i == j by {
        if o1 < al && o2 < al {
            assert(out[o1] == a[o1] && out[o2] == a[o2]);
            assert(a[o1][i] == a[o2][j]);
        } else if o1 >= al && o2 >= al {
            assert(out[o1] == b[o1 - al] && out[o2] == b[o2 - al]);
            assert(b[o1 - al][i] == b[o2 - al][j]);
        } else {
            let (p, q, pi, qj) = if o1 < al { (o1, o2, i, j) } else { (o2, o1, j, i) };
            assert(out[p] == a[p] && out[q] == b[q - al]);
            assert(lies_in(a[p], rest));
            let g = choose|g: int| 0 <= g < rest.len() && #[trigger] within(a[p], rest[g]);
            assert(rest[g].contains(a[p][pi]));
            let u = choose|u: int| 0 <= u < rest[g].len() && rest[g][u] == a[p][pi];
            assert(within(b[q - al], last));
            assert(last.contains(b[q - al][qj]));
            let v = choose|v: int| 0 <= v < last.len() && last[v] == b[q - al][qj];
            assert(rest[g] == gs[g]);
            assert(gs[g][u] == gs[n][v]);
        }
    }
}

proof fn lemma_concat_together<V>(gs: Seq<Seq<int>>, ks: Seq<Option<V>>, a: Seq<Seq<int>>, b: Seq<Seq<int>>)
    requires
        gs.len() > 0,
        forall|x: int, y: int|
            x != y && #[trigger] together(gs.drop_last(), x, y) && ks[x] is Some && ks[x] == ks[y] ==> together(a, x, y),
        forall|ia: int, ib: int|
            0 <= ia < gs.last().len() && 0 <= ib < gs.last().len() && ia != ib && ks[gs.last()[ia]] is Some
                && ks[gs.last()[ia]] == ks[gs.last()[ib]] ==> together(b, #[trigger] gs.last()[ia], #[trigger] gs.last()[ib]),
    ensures
        forall|x: int, y: int|
            x != y && #[trigger] together(gs, x, y) && ks[x] is Some && ks[x] == ks[y] ==> together(a + b, x, y),
{
    let out = a + b;
    let al = a.len();
    let rest = gs.drop_last();
    let n = gs.len() - 1;
    let last = gs.last();
    assert forall|x: int, y: int| x != y && #[trigger] together(gs, x, y) && ks[x] is Some && ks[x] == ks[y]
        implies together(out, x, y) by {
        let (g, i, j) = choose|g: int, i: int, j: int|
            0 <= g < gs.len() && 0 <= i < gs[g].len() && 0 <= j < gs[g].len() && #[trigger] gs[g][i] == x
                && #[trigger] gs[g][j] == y;
        if g < n {
            assert(rest[g] == gs[g]);
            assert(rest[g][i] == x && rest[g][j] == y);
            assert(together(rest, x, y));
            let (o, i2, j2) = choose|o: int, i2: int, j2: int|
                0 <= o < a.len() && 0 <= i2 < a[o].len() && 0 <= j2 < a[o].len() && #[trigger] a[o][i2] == x
                    && #[trigger] a[o][j2] == y;
            assert(out[o] == a[o]);
            assert(out[o][i2] == x && out[o][j2] == y);
        } else {
            assert(last[i] == x && last[j] == y);
            assert(i != j);
            assert(together(b, last[i], last[j]));
            let (o, i2, j2) = choose|o: int, i2: int, j2: int|
                0 <= o < b.len() && 0 <= i2 < b[o].len() && 0 <= j2 < b[o].len() && #[trigger] b[o][i2] == x
                    && #[trigger] b[o][j2] == y;
            assert(out[o + al] == b[o]);
            assert(out[o + al][i2] == x && out[o + al][j2] == y);
        }
    }
}

proof fn lemma_split_all<V>(gs: Seq<Seq<int>>, ks: Seq<Option<V>>)
    requires
        in_range(gs, ks),
        ascending(gs),
        disjoint(gs),
    ensures
        from_one(split_all(gs, ks), gs),
        agree(split_all(gs, ks), ks),
        ascending(split_all(gs, ks)),
        disjoint(split_all(gs, ks)),
        forall|a: int, b: int|
            a != b && #[trigger] together(gs, a, b) && ks[a] is Some && ks[a] == ks[b] ==> together(
                split_all(gs, ks),
                a,
                b,
            ),
    decreases gs.len(),
{
    if gs.len() > 0 {
        let n = gs.len() - 1;
        let rest = gs.drop_last();
        let last = gs[n];
        assert(in_range(rest, ks)) by {
            assert forall|g: int, i: int| 0 <= g < rest.len() && 0 <= i < rest[g].len() implies 0 <= #[trigger] rest[g][i]
                < ks.len() by {
                assert(rest[g] == gs[g]);
            }
        }
        assert(ascending(rest)) by {
            assert forall|g: int, i: int, j: int| 0 <= g < rest.len() && 0 <= i < j < rest[g].len() implies #[trigger] rest[g][i]
                < #[trigger] rest[g][j] by {
                assert(rest[g] == gs[g]);
            }
        }
        assert(disjoint(rest)) by {
            assert forall|g1: int, g2: int, i: int, j: int|
                0 <= g1 < rest.len() && 0 <= g2 < rest.len() && 0 <= i < rest[g1].len() && 0 <= j < rest[g2].len()
                    && #[trigger] rest[g1][i] == #[trigger] rest[g2][j] implies g1 == g2 && i == j by {
                assert(rest[g1] == gs[g1] && rest[g2] == gs[g2]);
            }
        }
        lemma_split_all(rest, ks);
        assert forall|i: int| 0 <= i < last.len() implies 0 <= #[trigger] last[i] < ks.len() by {
            assert(gs[n][i] == last[i]);
        }
        assert forall|i: int, j: int| 0 <= i < j < last.len() implies #[trigger] last[i] < #[trigger] last[j] by {
            assert(gs[n][i] == last[i] && gs[n][j] == last[j]);
        }
        lemma_split_group(last, ks);
        let a = split_all(rest, ks);
        let b = split_group(last, ks);
        assert(split_all(gs, ks) == a + b);
        lemma_concat_from_one(gs, a, b);
        lemma_concat_shape(a, b, ks);
        lemma_concat_disjoint(gs, a, b);
        lemma_concat_together(gs, ks, a, b);
    } else {
        assert(split_all(gs, ks).len() == 0);
        assert forall|x: int, y: int| x != y && #[trigger] together(gs, x, y) && ks[x] is Some && ks[x] == ks[y]
            implies together(split_all(gs, ks), x, y) by {
        }
    }
}

/// Splitting keeps what the groups agreed on before.
proof fn lemma_agree_carries<W>(out: Seq<Seq<int>>, gs: Seq<Seq<int>>, ks: Seq<Option<W>>)
    requires
        from_one(out, gs),
        agree(gs, ks),
    ensures
        agree(out, ks),
{
    assert forall|o: int, i: int| 0 <= o < out.len() && 0 <= i < out[o].len() implies 0 <= #[trigger] out[o][i]
        < ks.len() && ks[out[o][i]] is Some && ks[out[o][i]] == ks[out[o][0]] by {
        assert(lies_in(out[o], gs));
        let g = choose|g: int| 0 <= g < gs.len() && #[trigger] within(out[o], gs[g]);
        assert(gs[g].contains(out[o][i]));
        assert(gs[g].contains(out[o][0]));
        let u = choose|u: int| 0 <= u < gs[g].len() && gs[g][u] == out[o][i];
        let v = choose|v: int| 0 <= v < gs[g].len() && gs[g][v] == out[o][0];
        assert(ks[gs[g][u]] == ks[gs[g][0]]);
        assert(ks[gs[g][v]] == ks[gs[g][0]]);
    }
}

/// The duplicate search finds exactly the copies: every set holds files that are copies of one
/// another (one size, one prefix digest, one full digest, all known), no file lies in two sets
/// or twice in one, and any two different files that are copies lie in one set.
pub proof fn dupe_sets_are_the_copies(
    files: Seq<Candidate>,
    min_size: u64,
    prefix: Seq<Option<Seq<u8>>>,
    full: Seq<Option<Seq<u8>>>,
)
    requires
        prefix.len() == files.len(),
        full.len() == files.len(),
    ensures
        ({
            let sets = dupe_sets(files, min_size, prefix, full);
            &&& disjoint(sets)
            &&& forall|g: int, i: int|
                0 <= g < sets.len() && 0 <= i < sets[g].len() ==> 0 <= #[trigger] sets[g][i] < files.len() && alike(
                    files,
                    min_size,
                    prefix,
                    full,
                    sets[g][i],
                    sets[g][0],
                )
            &&& forall|a: int, b: int|
                0 <= a < files.len() && 0 <= b < files.len() && a != b && #[trigger] alike(
                    files,
                    min_size,
                    prefix,
                    full,
                    a,
                    b,
                ) ==> together(sets, a, b)
        }),
{
    let sk = size_keys(files, min_size);
    let s0 = repeated_groups(sk);
    lemma_repeated_groups_shape(sk);
    assert(in_range(s0, prefix));
    lemma_split_all(s0, prefix);
    let s1 = split_all(s0, prefix);
    lemma_agree_carries(s1, s0, sk);
    assert(in_range(s1, full));
    lemma_split_all(s1, full);
    let s2 = split_all(s1, full);
    lemma_agree_carries(s2, s1, sk);
    lemma_agree_carries(s2, s1, prefix);
    assert forall|g: int, i: int| 0 <= g < s2.len() && 0 <= i < s2[g].len() implies 0 <= #[trigger] s2[g][i]
        < files.len() && alike(files, min_size, prefix, full, s2[g][i], s2[g][0]) by {
        assert(0 <= s2[g][0] < files.len());
    }
    assert forall|a: int, b: int|
        0 <= a < files.len() && 0 <= b < files.len() && a != b && #[trigger] alike(files, min_size, prefix, full, a, b)
            implies together(s2, a, b) by {
        lemma_repeated_groups_complete(sk, a, b);
        assert(together(s1, a, b));
    }
}

fn copy_bytes(v: &Vec<u8>) -> (r: Vec<u8>)
    ensures
        r@ == v@,
{
    let mut r: Vec<u8> = Vec::new();
    let mut i: usize = 0;
    while i < v.len()
        invariant
            i <= v@.len(),
            r@ == v@.take(i as int),
        decreases v@.len() - i,
    {
        r.push(v[i]);
        proof {
            assert(v@.take(i + 1) =~= v@.take(i as int).push(v@[i as int]));
        }
        i = i + 1;
    }
    proof {
        assert(v@.take(v@.len() as int) =~= v@);
    }
    r
}

/// The digests of the members of `g`, in order.
fn digests_of(g: &Vec<usize>, keys: &Vec<Option<Vec<u8>>>) -> (r: Vec<Option<Vec<u8>>>)
    requires
        forall|i: int| 0 <= i < g@.len() ==> #[trigger] g@[i] < keys@.len(),
    ensures
        key_views(r@) == g@.map_values(|x: usize| x as int).map_values(|k: int| key_views(keys@)[k]),
{
    let ghost want = g@.map_values(|x: usize| x as int).map_values(|k: int| key_views(keys@)[k]);
    let mut r: Vec<Option<Vec<u8>>> = Vec::new();
    let mut i: usize = 0;
    while i < g.len()
        invariant
            i <= g@.len(),
            forall|i: int| 0 <= i < g@.len() ==> #[trigger] g@[i] < keys@.len(),
            want == g@.map_values(|x: usize| x as int).map_values(|k: int| key_views(keys@)[k]),
            key_views(r@) == want.take(i as int),
        decreases g@.len() - i,
    {
        let k = g[i];
        let d = match &keys[k] {
            Some(v) => Some(copy_bytes(v)),
            None => None,
        };
        let ghost before = r@;
        r.push(d);
        proof {
            assert(key_views(r@) =~= key_views(before).push(key_views(keys@)[k as int]));
            assert(want[i as int] == key_views(keys@)[k as int]);
            assert(want.take(i + 1) =~= want.take(i as int).push(want[i as int]));
        }
        i = i + 1;
    }
    proof {
        assert(want.take(g@.len() as int) =~= want);
    }
    r
}

/// The group `g` split by the digests `keys` of the files.
fn split_one(g: &Vec<usize>, keys: &Vec<Option<Vec<u8>>>) -> (r: Vec<Vec<usize>>)
    requires
        forall|i: int| 0 <= i < g@.len() ==> #[trigger] g@[i] < keys@.len(),
    ensures
        group_views(r@) == split_group(g@.map_values(|x: usize| x as int), key_views(keys@)),
{
    let hashes = digests_of(g, keys);
    assert(key_views(hashes@).len() == hashes@.len());
    let r = refine(g, &hashes);
    proof {
        let gi = g@.map_values(|x: usize| x as int);
        let ks = key_views(keys@);
        let m = gi.map_values(|k: int| ks[k]);
        let kh = key_views(hashes@);
        assert(kh == m);
        let lhs = refined(g@, kh);
        let rhs = split_group(gi, ks);
        assert forall|o: int| 0 <= o < lhs.len() implies #[trigger] lhs[o] == rhs[o] by {
            let h = repeated_groups(m)[o];
            let l = h.map_values(|k: int| g@[k] as int);
            let rr = h.map_values(|j: int| gi[j]);
            assert(lhs[o] == l);
            assert(rhs[o] == rr);
            assert forall|j: int| 0 <= j < h.len() implies #[trigger] l[j] == rr[j] by {
                lemma_groups_in_range(m, o, j);
            }
            assert(l =~= rr);
        }
        assert(lhs =~= rhs);
    }
    r
}

/// Every group of `groups` split by the digests `keys` of the files, in order.
fn split_groups(groups: &Vec<Vec<usize>>, keys: &Vec<Option<Vec<u8>>>) -> (r: Vec<Vec<usize>>)
    requires
        in_range(group_views(groups@), key_views(keys@)),
    ensures
        group_views(r@) == split_all(group_views(groups@), key_views(keys@)),
{
    let ghost gv = group_views(groups@);
    let ghost ks = key_views(keys@);
    let mut out: Vec<Vec<usize>> = Vec::new();
    let mut i: usize = 0;
    while i < groups.len()
        invariant
            i <= groups@.len(),
            gv == group_views(groups@),
            ks == key_views(keys@),
            in_range(gv, ks),
            group_views(out@) == split_all(gv.take(i as int), ks),
        decreases groups@.len() - i,
    {
        let g = &groups[i];
        assert forall|j: int| 0 <= j < g@.len() implies #[trigger] g@[j] < keys@.len() by {
            assert(gv[i as int][j] == g@[j] as int);
        }
        let mut part = split_one(g, keys);
        let ghost before = out@;
        let ghost pv = part@;
        out.append(&mut part);
        proof {
            assert(gv[i as int] == g@.map_values(|x: usize| x as int));
            assert(gv.take(i + 1).drop_last() =~= gv.take(i as int));
            assert(gv.take(i + 1).last() == gv[i as int]);
            assert(group_views(out@) =~= group_views(before) + group_views(pv));
        }
        i = i + 1;
    }
    proof {
        assert(gv.take(groups@.len() as int) =~= gv);
    }
    out
}

/// The files of equal size (at least `min_size`, not empty) split by the digests of their
/// prefixes, `prefix[k]` being that of the `k`-th file (`None`: unknown): the files whose
/// whole content still needs hashing.
pub fn prefix_stage(files: &Vec<Candidate>, min_size: u64, prefix: &Vec<Option<Vec<u8>>>) -> (r: Vec<Vec<usize>>)
    requires
        prefix@.len() == files@.len(),
    ensures
        group_views(r@) == split_all(repeated_groups(size_keys(files@, min_size)), key_views(prefix@)),
{
    let s0 = same_size_groups(files, min_size);
    proof {
        let sk = size_keys(files@, min_size);
        lemma_repeated_groups_shape(sk);
        assert(group_views(s0@) == repeated_groups(sk));
        assert(in_range(group_views(s0@), key_views(prefix@)));
    }
    split_groups(&s0, prefix)
}

/// The sets of identical files, as positions (see `dupe_sets`): grouped by size, split by the
/// digests of their prefixes (`prefix`), then by those of their whole content (`full`).
pub fn dupe_search(
    files: &Vec<Candidate>,
    min_size: u64,
    prefix: &Vec<Option<Vec<u8>>>,
    full: &Vec<Option<Vec<u8>>>,
) -> (r: Vec<Vec<usize>>)
    requires
        prefix@.len() == files@.len(),
        full@.len() == files@.len(),
    ensures
        group_views(r@) == dupe_sets(files@, min_size, key_views(prefix@), key_views(full@)),
{
    let s1 = prefix_stage(files, min_size, prefix);
    proof {
        let sk = size_keys(files@, min_size);
        let s0 = repeated_groups(sk);
        lemma_repeated_groups_shape(sk);
        assert(in_range(s0, key_views(prefix@)));
        lemma_split_all(s0, key_views(prefix@));
        assert(in_range(group_views(s1@), key_views(full@)));
    }
    split_groups(&s1, full)
}

} // verus!
