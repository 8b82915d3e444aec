//! Stable sorting, as `slice::sort_by_key` does it: elements that compare equal keep their order.

use vstd::prelude::*;

verus! {

/// `le` is a total preorder: every two elements compare, and comparisons chain.
pub open spec fn total_preorder<T>(le: spec_fn(T, T) -> bool) -> bool {
    &&& forall|a: T, b: T| #[trigger] le(a, b) || le(b, a)
    &&& forall|a: T, b: T, c: T| #[trigger] le(a, b) && #[trigger] le(b, c) ==> le(a, c)
}

/// `s` is ordered by `le`.
pub open spec fn sorted_by<T>(s: Seq<T>, le: spec_fn(T, T) -> bool) -> bool {
    forall|i: int, j: int| 0 <= i < j < s.len() ==> le(#[trigger] s[i], #[trigger] s[j])
}

/// Inserts `x` into `s` just after the last element that may precede it.
pub open spec fn insert_stable<T>(s: Seq<T>, x: T, le: spec_fn(T, T) -> bool) -> Seq<T>
    decreases s.len(),
{
    if s.len() == 0 {
        seq![x]
    } else if le(s.last(), x) {
        s.push(x)
    } else {
        insert_stable(s.drop_last(), x, le).push(s.last())
    }
}

/// The stable sort of `s` by `le`: each element in turn is inserted after every earlier
/// element that may precede it.
pub open spec fn stable_sort<T>(s: Seq<T>, le: spec_fn(T, T) -> bool) -> Seq<T>
    decreases s.len(),
{
    if s.len() == 0 {
        s
    } else {
        insert_stable(stable_sort(s.drop_last(), le), s.last(), le)
    }
}

/// Inserting at the position found by scanning back over the elements that must follow `x`.
proof fn lemma_insert_at<T>(s: Seq<T>, x: T, le: spec_fn(T, T) -> bool, j: int)
    requires
        0 <= j <= s.len(),
        forall|k: int| j <= k < s.len() ==> !le(#[trigger] s[k], x),
        j == 0 || le(s[j - 1], x),
    ensures
        insert_stable(s, x, le) == s.take(j).push(x) + s.skip(j),
    decreases s.len(),
{
    if s.len() == 0 {
        assert(s.take(j).push(x) + s.skip(j) =~= seq![x]);
    } else if j == s.len() {
        assert(s.take(j).push(x) + s.skip(j) =~= s.push(x));
    } else {
        lemma_insert_at(s.drop_last(), x, le, j);
        assert(s.drop_last().take(j) =~= s.take(j));
        assert(s.take(j).push(x) + s.skip(j) =~= (s.drop_last().take(j).push(x) + s.drop_last().skip(j)).push(
            s.last(),
        ));
    }
}

/// The stable sort keeps exactly the same elements.
pub proof fn lemma_insert_multiset<T>(s: Seq<T>, x: T, le: spec_fn(T, T) -> bool)
    ensures
        insert_stable(s, x, le).to_multiset() == s.to_multiset().insert(x),
    decreases s.len(),
{
    broadcast use vstd::multiset::group_multiset_axioms, vstd::seq_lib::group_to_multiset_ensures;

    if s.len() == 0 {
        assert(seq![x] =~= Seq::<T>::empty().push(x));
    } else if le(s.last(), x) {
    } else {
        lemma_insert_multiset(s.drop_last(), x, le);
        assert(s =~= s.drop_last().push(s.last()));
        assert(insert_stable(s, x, le).to_multiset() =~= s.to_multiset().insert(x));
    }
}

/// Sorting permutes: the result holds exactly the elements of the input.
pub proof fn stable_sort_permutes<T>(s: Seq<T>, le: spec_fn(T, T) -> bool)
    ensures
        stable_sort(s, le).to_multiset() == s.to_multiset(),
        stable_sort(s, le).len() == s.len(),
    decreases s.len(),
{
    broadcast use vstd::multiset::group_multiset_axioms, vstd::seq_lib::group_to_multiset_ensures;

    if s.len() > 0 {
        stable_sort_permutes(s.drop_last(), le);
        lemma_insert_multiset(stable_sort(s.drop_last(), le), s.last(), le);
        assert(s =~= s.drop_last().push(s.last()));
        assert(stable_sort(s, le).to_multiset().len() == stable_sort(s, le).len());
    }
}

proof fn lemma_insert_sorted<T>(s: Seq<T>, x: T, le: spec_fn(T, T) -> bool)
    requires
        total_preorder(le),
        sorted_by(s, le),
    ensures
        sorted_by(insert_stable(s, x, le), le),
        insert_stable(s, x, le).len() == s.len() + 1,
        forall|k: int|
            0 <= k < insert_stable(s, x, le).len() ==> (#[trigger] insert_stable(s, x, le)[k] == x
                || s.contains(insert_stable(s, x, le)[k])),
    decreases s.len(),
{
    if s.len() == 0 {
    } else if le(s.last(), x) {
        let r = s.push(x);
        assert forall|i: int, j: int| 0 <= i < j < r.len() implies le(#[trigger] r[i], #[trigger] r[j]) by {
            if j == s.len() {
                if i < s.len() - 1 {
                    assert(le(s[i], s[s.len() - 1]));
                }
            }
        }
        assert forall|k: int| 0 <= k < r.len() implies (#[trigger] r[k] == x || s.contains(r[k])) by {
            if k < s.len() {
                assert(s[k] == r[k]);
            }
        }
    } else {
        let d = s.drop_last();
        assert forall|i: int, j: int| 0 <= i < j < d.len() implies le(#[trigger] d[i], #[trigger] d[j]) by {
            assert(d[i] == s[i] && d[j] == s[j]);
        }
        lemma_insert_sorted(d, x, le);
        let m = insert_stable(d, x, le);
        let r = m.push(s.last());
        assert(le(x, s.last()));
        assert forall|i: int, j: int| 0 <= i < j < r.len() implies le(#[trigger] r[i], #[trigger] r[j]) by {
            if j == m.len() {
                assert(r[i] == m[i]);
                if m[i] != x {
                    assert(d.contains(m[i]));
                    let k = choose|k: int| 0 <= k < d.len() && d[k] == m[i];
                    assert(s[k] == d[k]);
                    assert(le(s[k], s[s.len() - 1]));
                }
            }
        }
        assert forall|k: int| 0 <= k < r.len() implies (#[trigger] r[k] == x || s.contains(r[k])) by {
            if k < m.len() {
                assert(r[k] == m[k]);
                if m[k] != x {
                    let q = choose|q: int| 0 <= q < d.len() && d[q] == m[k];
                    assert(s[q] == d[q]);
                }
            } else {
                assert(s[s.len() - 1] == r[k]);
            }
        }
    }
}

/// The stable sort of any sequence is ordered, when `le` is a total preorder.
pub proof fn stable_sort_is_sorted<T>(s: Seq<T>, le: spec_fn(T, T) -> bool)
    requires
        total_preorder(le),
    ensures
        sorted_by(stable_sort(s, le), le),
    decreases s.len(),
{
    if s.len() > 0 {
        stable_sort_is_sorted(s.drop_last(), le);
        lemma_insert_sorted(stable_sort(s.drop_last(), le), s.last(), le);
    }
}

/// Sorts `v` stably by the comparison `f`, which computes `le`: `f(a, b)` holds when `a`
/// may come before `b`.
pub fn sort_stable<T, F: Fn(&T, &T) -> bool>(v: Vec<T>, f: F, Ghost(le): Ghost<spec_fn(T, T) -> bool>) -> (r: Vec<T>)
    requires
        forall|a: T, b: T| #[trigger] f.requires((&a, &b)),
        forall|a: T, b: T, x: bool| f.ensures((&a, &b), x) ==> x == le(a, b),
    ensures
        r@ == stable_sort(v@, le),
{
    let mut rest = v;
    let ghost input = rest@;
    let mut out: Vec<T> = Vec::new();
    let mut done: usize = 0;
    let n = rest.len();
    let mut pending: Vec<T> = Vec::new();
    // Move the input into `pending` reversed, so that `pop` yields elements in order.
    while rest.len() > 0
        invariant
            pending@.len() + rest@.len() == n,
            n == input.len(),
            forall|k: int| 0 <= k < pending@.len() ==> pending@[k] == input[n - 1 - k],
            rest@ == input.take(rest@.len() as int),
        decreases rest@.len(),
    {
        let x = rest.pop().unwrap();
        let ghost k = pending@.len();
        pending.push(x);
        proof {
            assert(rest@ =~= input.take(rest@.len() as int));
        }
    }
    proof {
        assert(input.take(0) =~= Seq::<T>::empty());
        assert(out@ =~= stable_sort(input.take(0), le));
    }
    while pending.len() > 0
        invariant
            pending@.len() + done == n,
            n == input.len(),
            forall|k: int| 0 <= k < pending@.len() ==> pending@[k] == input[n - 1 - k],
            out@ == stable_sort(input.take(done as int), le),
            forall|a: T, b: T| #[trigger] f.requires((&a, &b)),
            forall|a: T, b: T, x: bool| f.ensures((&a, &b), x) ==> x == le(a, b),
        decreases pending@.len(),
    {
        let x = pending.pop().unwrap();
        assert(x == input[done as int]);
        let mut j = out.len();
        while j > 0
            invariant
                j <= out@.len(),
                forall|k: int| j <= k < out@.len() ==> !le(#[trigger] out@[k], x),
                forall|a: T, b: T| #[trigger] f.requires((&a, &b)),
                forall|a: T, b: T, x: bool| f.ensures((&a, &b), x) ==> x == le(a, b),
            ensures
                j <= out@.len(),
                forall|k: int| j <= k < out@.len() ==> !le(#[trigger] out@[k], x),
                j == 0 || le(out@[j - 1], x),
            decreases j,
        {
            if f(&out[j - 1], &x) {
                break;
            }
            j = j - 1;
        }
        proof {
            lemma_insert_at(out@, x, le, j as int);
            assert(input.take(done + 1).drop_last() =~= input.take(done as int));
        }
        let ghost before = out@;
        out.insert(j, x);
        proof {
            assert(out@ =~= before.take(j as int).push(x) + before.skip(j as int));
        }
        done = done + 1;
    }
    proof {
        assert(input.take(n as int) =~= input);
    }
    out
}


proof fn lemma_insert_map<A, B>(s: Seq<A>, x: A, le: spec_fn(A, A) -> bool, f: spec_fn(A) -> B, le2: spec_fn(B, B) -> bool)
    requires
        forall|a: A, b: A| #[trigger] le(a, b) == le2(f(a), f(b)),
    ensures
        insert_stable(s, x, le).map_values(f) == insert_stable(s.map_values(f), f(x), le2),
    decreases s.len(),
{
    if s.len() == 0 {
        assert(seq![x].map_values(f) =~= seq![f(x)]);
    } else {
        assert(s.map_values(f).last() == f(s.last()));
        assert(s.map_values(f).drop_last() =~= s.drop_last().map_values(f));
        assert(le(s.last(), x) == le2(f(s.last()), f(x)));
        if le(s.last(), x) {
            assert(s.push(x).map_values(f) =~= s.map_values(f).push(f(x)));
        } else {
            lemma_insert_map(s.drop_last(), x, le, f, le2);
            assert(insert_stable(s.drop_last(), x, le).push(s.last()).map_values(f) =~= insert_stable(
                s.drop_last(),
                x,
                le,
            ).map_values(f).push(f(s.last())));
        }
    }
}

/// Sorting commutes with a map that preserves the comparison.
pub proof fn stable_sort_map<A, B>(s: Seq<A>, le: spec_fn(A, A) -> bool, f: spec_fn(A) -> B, le2: spec_fn(B, B) -> bool)
    requires
        forall|a: A, b: A| #[trigger] le(a, b) == le2(f(a), f(b)),
    ensures
        stable_sort(s, le).map_values(f) == stable_sort(s.map_values(f), le2),
    decreases s.len(),
{
    if s.len() > 0 {
        stable_sort_map(s.drop_last(), le, f, le2);
        assert(s.map_values(f).drop_last() =~= s.drop_last().map_values(f));
        assert(s.map_values(f).last() == f(s.last()));
        lemma_insert_map(stable_sort(s.drop_last(), le), s.last(), le, f, le2);
    } else {
        assert(s.map_values(f) =~= Seq::<B>::empty());
    }
}

} // verus!
