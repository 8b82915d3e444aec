//! Unix paths as text, compared component by component the way `std::path::Path` does.
//!
//! A path is split at `/`. Empty pieces and `.` pieces are dropped, except that a path
//! starting with `/` begins with the root component `/`, and a relative path whose first
//! piece is `.` begins with the current-directory component `.`.

use vstd::prelude::*;
use vstd::string::*;
use crate::text::{pieces, push_char};

verus! {

broadcast use Seq::lemma_filter_push;

/// The pieces of `s` between slashes (one more piece than there are slashes).
pub open spec fn segments(s: Seq<char>) -> Seq<Seq<char>> {
    pieces(s, '/')
}

/// A piece that becomes a component of its own.
pub open spec fn is_normal_piece(x: Seq<char>) -> bool {
    x.len() > 0 && x != seq!['.']
}

/// The leading component: `/` for an absolute path, `.` for one that starts with `./`.
pub open spec fn lead(s: Seq<char>) -> Seq<Seq<char>> {
    if s.len() > 0 && s[0] == '/' {
        seq![seq!['/']]
    } else if segments(s)[0] == seq!['.'] {
        seq![seq!['.']]
    } else {
        Seq::empty()
    }
}

/// The components of the path `s`, as `Path::components` yields them.
pub open spec fn components(s: Seq<char>) -> Seq<Seq<char>> {
    lead(s) + segments(s).filter(|x: Seq<char>| is_normal_piece(x))
}

/// The views of a vector of strings.
pub open spec fn views(v: Seq<String>) -> Seq<Seq<char>> {
    v.map_values(|c: String| c@)
}

/// `Path::starts_with`: the components of `base` are a prefix of those of `p`.
pub open spec fn starts_with_spec(p: Seq<char>, base: Seq<char>) -> bool {
    components(base).is_prefix_of(components(p))
}

/// `Path == Path`: same components.
pub open spec fn same_path(a: Seq<char>, b: Seq<char>) -> bool {
    components(a) == components(b)
}

/// `Path::join`: an absolute `b` replaces `a`; otherwise a separator is added when needed.
pub open spec fn join_spec(a: Seq<char>, b: Seq<char>) -> Seq<char> {
    if b.len() > 0 && b[0] == '/' {
        b
    } else if a.len() > 0 && a.last() != '/' {
        a + seq!['/'] + b
    } else {
        a + b
    }
}

/// `Path::file_name`: the last component, unless it is the root, `.` or `..`.
pub open spec fn file_name_spec(p: Seq<char>) -> Option<Seq<char>> {
    let c = components(p);
    if c.len() > 0 && c.last() != seq!['/'] && c.last() != seq!['.'] && c.last() != seq!['.', '.'] {
        Some(c.last())
    } else {
        None
    }
}

/// Components of `Path::parent`, or `None` when the path has no parent.
pub open spec fn parent_components(p: Seq<char>) -> Option<Seq<Seq<char>>> {
    let c = components(p);
    if c.len() > 0 && c.last() != seq!['/'] {
        Some(c.drop_last())
    } else {
        None
    }
}

/// Index of the last `.` in `name`, or -1.
pub open spec fn last_dot(name: Seq<char>) -> int
    decreases name.len(),
{
    if name.len() == 0 {
        -1
    } else if name.last() == '.' {
        name.len() - 1
    } else {
        last_dot(name.drop_last())
    }
}

/// The extension of a file name: after its last dot, unless that dot is the first character.
pub open spec fn name_extension(name: Seq<char>) -> Option<Seq<char>> {
    let k = last_dot(name);
    if k <= 0 {
        None
    } else {
        Some(name.skip(k + 1))
    }
}

/// The stem of a file name: before its last dot, unless that dot is the first character.
pub open spec fn name_stem(name: Seq<char>) -> Seq<char> {
    let k = last_dot(name);
    if k <= 0 {
        name
    } else {
        name.take(k)
    }
}

/// `Path::extension`.
pub open spec fn extension_spec(p: Seq<char>) -> Option<Seq<char>> {
    match file_name_spec(p) {
        Some(n) => name_extension(n),
        None => None,
    }
}

/// `Path::file_stem`, or the empty string when there is no file name.
pub open spec fn stem_spec(p: Seq<char>) -> Seq<char> {
    match file_name_spec(p) {
        Some(n) => name_stem(n),
        None => Seq::empty(),
    }
}

proof fn lemma_segments_nonempty(s: Seq<char>)
    ensures
        segments(s).len() >= 1,
{
    crate::text::lemma_pieces_nonempty(s, '/');
}

proof fn lemma_segments_step(s: Seq<char>, i: int)
    requires
        0 <= i < s.len(),
    ensures
        segments(s.take(i + 1)) == ({
            let prev = segments(s.take(i));
            if s[i] == '/' {
                prev.push(Seq::empty())
            } else {
                prev.update(prev.len() - 1, prev.last().push(s[i]))
            }
        }),
{
    crate::text::lemma_pieces_step(s, '/', i);
}

/// Splits a path into its components.
pub fn components_of(s: &str) -> (r: Vec<String>)
    ensures
        views(r@) == components(s@),
{
    let n = s.unicode_len();
    let mut parts: Vec<String> = Vec::new();
    let mut cur = String::new();
    let mut seen_slash = false;
    let mut first_is_dot = false;
    let ghost mut first: Seq<char> = Seq::empty();
    let mut i: usize = 0;
    proof {
        assert(s@.take(0) =~= Seq::<char>::empty());
    }
    while i < n
        invariant
            n == s@.len(),
            i <= n,
            segments(s@.take(i as int)).len() >= 1,
            cur@ == segments(s@.take(i as int)).last(),
            views(parts@) == segments(s@.take(i as int)).drop_last().filter(
                |x: Seq<char>| is_normal_piece(x),
            ),
            seen_slash ==> first == segments(s@.take(i as int))[0],
            seen_slash ==> segments(s@.take(i as int)).len() >= 2,
            !seen_slash ==> segments(s@.take(i as int)).len() == 1,
            seen_slash ==> (first_is_dot == (first == seq!['.'])),
        decreases n - i,
    {
        let c = s.get_char(i);
        proof {
            lemma_segments_step(s@, i as int);
            lemma_segments_nonempty(s@.take(i as int));
        }
        let ghost prev = segments(s@.take(i as int));
        if c == '/' {
            if !seen_slash {
                proof {
                    first = cur@;
                }
                first_is_dot = cur.unicode_len() == 1 && cur.as_str().get_char(0) == '.';
                proof {
                    if first_is_dot {
                        assert(cur@ =~= seq!['.']);
                    }
                }
                seen_slash = true;
            }
            let ghost old_parts = parts@;
            let keep = cur.unicode_len() > 0 && !(cur.unicode_len() == 1 && cur.as_str().get_char(0) == '.');
            proof {
                if keep {
                    assert(cur@ != seq!['.']);
                } else if cur@.len() > 0 {
                    assert(cur@ =~= seq!['.']);
                }
                assert(is_normal_piece(cur@) == keep);
                assert(prev.push(Seq::empty()).drop_last() =~= prev.drop_last().push(prev.last()));
            }
            if keep {
                parts.push(cur);
                proof {
                    assert(views(parts@) =~= views(old_parts).push(prev.last()));
                }
            }
            cur = String::new();
            proof {
                assert(segments(s@.take(i + 1)).last() =~= Seq::<char>::empty());
            }
        } else {
            push_char(&mut cur, c);
            proof {
                let next = prev.update(prev.len() - 1, prev.last().push(c));
                assert(next.drop_last() =~= prev.drop_last());
            }
        }
        proof {
            assert(segments(s@.take(i + 1))[0] == first || !seen_slash);
        }
        i = i + 1;
    }
    proof {
        assert(s@.take(n as int) =~= s@);
        lemma_segments_nonempty(s@);
    }
    let ghost segs = segments(s@);
    if !seen_slash {
        first_is_dot = cur.unicode_len() == 1 && cur.as_str().get_char(0) == '.';
        proof {
            first = cur@;
            if first_is_dot {
                assert(cur@ =~= seq!['.']);
            }
        }
    }
    let keep = cur.unicode_len() > 0 && !(cur.unicode_len() == 1 && cur.as_str().get_char(0) == '.');
    proof {
        if keep {
            assert(cur@ != seq!['.']);
        } else if cur@.len() > 0 {
            assert(cur@ =~= seq!['.']);
        }
        assert(segs =~= segs.drop_last().push(segs.last()));
    }
    let ghost body_parts = views(parts@);
    if keep {
        parts.push(cur);
        proof {
            assert(views(parts@) =~= body_parts.push(segs.last()));
        }
    }
    let ghost body = views(parts@);
    assert(body == segs.filter(|x: Seq<char>| is_normal_piece(x)));
    let absolute = n > 0 && s.get_char(0) == '/';
    if absolute {
        let mut root = String::new();
        push_char(&mut root, '/');
        parts.insert(0, root);
        proof {
            assert(root@ =~= seq!['/']);
            assert(views(parts@) =~= seq![seq!['/']] + body);
        }
    } else if first_is_dot {
        let mut dot = String::new();
        push_char(&mut dot, '.');
        parts.insert(0, dot);
        proof {
            assert(dot@ =~= seq!['.']);
            assert(views(parts@) =~= seq![seq!['.']] + body);
        }
    } else {
        proof {
            assert(views(parts@) =~= Seq::<Seq<char>>::empty() + body);
        }
    }
    parts
}


/// Whether the first `k` component views of `a` equal those of `b` at offset 0.
fn prefix_equal(a: &Vec<String>, b: &Vec<String>, k: usize) -> (r: bool)
    requires
        k <= a@.len(),
        k <= b@.len(),
    ensures
        r == (views(a@).take(k as int) == views(b@).take(k as int)),
{
    let mut i: usize = 0;
    while i < k
        invariant
            k <= a@.len(),
            k <= b@.len(),
            i <= k,
            views(a@).take(i as int) == views(b@).take(i as int),
        decreases k - i,
    {
        if a[i] != b[i] {
            assert(views(a@).take(k as int)[i as int] != views(b@).take(k as int)[i as int]);
            return false;
        }
        assert(views(a@).take(i + 1) =~= views(a@).take(i as int).push(a@[i as int]@));
        assert(views(b@).take(i + 1) =~= views(b@).take(i as int).push(b@[i as int]@));
        i = i + 1;
    }
    true
}

/// `Path::starts_with`.
pub fn starts_with(p: &str, base: &str) -> (r: bool)
    ensures
        r == starts_with_spec(p@, base@),
{
    let pc = components_of(p);
    let bc = components_of(base);
    if bc.len() > pc.len() {
        return false;
    }
    let r = prefix_equal(&bc, &pc, bc.len());
    proof {
        assert(views(bc@).take(bc@.len() as int) =~= views(bc@));
    }
    r
}

/// `Path == Path`.
pub fn same(a: &str, b: &str) -> (r: bool)
    ensures
        r == same_path(a@, b@),
{
    let ac = components_of(a);
    let bc = components_of(b);
    if ac.len() != bc.len() {
        return false;
    }
    let r = prefix_equal(&ac, &bc, ac.len());
    proof {
        assert(views(ac@).take(ac@.len() as int) =~= views(ac@));
        assert(views(bc@).take(bc@.len() as int) =~= views(bc@));
    }
    r
}

/// `Path::join`.
pub fn join(a: &str, b: &str) -> (r: String)
    ensures
        r@ == join_spec(a@, b@),
{
    let nb = b.unicode_len();
    let na = a.unicode_len();
    if nb > 0 && b.get_char(0) == '/' {
        return b.to_owned();
    }
    let mut out = a.to_owned();
    if na > 0 && a.get_char(na - 1) != '/' {
        push_char(&mut out, '/');
    }
    out.append(b);
    out
}

/// Whether a string equals the one-character string `c`.
fn is_char(s: &String, c: char) -> (r: bool)
    ensures
        r == (s@ == seq![c]),
{
    let r = s.unicode_len() == 1 && s.as_str().get_char(0) == c;
    proof {
        if s@.len() == 1 && s@[0] == c {
            assert(s@ =~= seq![c]);
        }
    }
    r
}

/// Whether a string is `..`.
fn is_dot_dot(s: &String) -> (r: bool)
    ensures
        r == (s@ == seq!['.', '.']),
{
    let r = s.unicode_len() == 2 && s.as_str().get_char(0) == '.' && s.as_str().get_char(1) == '.';
    proof {
        if r {
            assert(s@ =~= seq!['.', '.']);
        }
    }
    r
}

/// `Path::file_name`.
pub fn file_name(p: &str) -> (r: Option<String>)
    ensures
        r matches Some(n) ==> file_name_spec(p@) == Some(n@),
        r is None ==> file_name_spec(p@) is None,
{
    let mut c = components_of(p);
    let k = c.len();
    if k == 0 {
        return None;
    }
    let last = c.pop().unwrap();
    proof {
        assert(last@ == views(c@.push(last)).last());
    }
    if is_char(&last, '/') || is_char(&last, '.') || is_dot_dot(&last) {
        None
    } else {
        Some(last)
    }
}

/// Index of the last `.` in `name`, or `None`.
fn last_dot_of(name: &str) -> (r: Option<usize>)
    ensures
        r matches Some(k) ==> last_dot(name@) == k as int && k < name@.len(),
        r is None ==> last_dot(name@) == -1,
{
    let n = name.unicode_len();
    let mut i = n;
    proof {
        assert(name@.take(n as int) =~= name@);
    }
    while i > 0
        invariant
            i <= n == name@.len(),
            last_dot(name@) == last_dot(name@.take(i as int)),
        decreases i,
    {
        assert(name@.take(i as int).drop_last() =~= name@.take(i - 1));
        if name.get_char(i - 1) == '.' {
            return Some(i - 1);
        }
        i = i - 1;
    }
    None
}

/// `Path::extension`.
pub fn extension(p: &str) -> (r: Option<String>)
    ensures
        r matches Some(e) ==> extension_spec(p@) == Some(e@),
        r is None ==> extension_spec(p@) is None,
{
    match file_name(p) {
        None => None,
        Some(n) => match last_dot_of(n.as_str()) {
            Some(k) if k > 0 => {
                let len = n.unicode_len();
                let mut e = String::new();
                crate::text::append_range(&mut e, n.as_str(), k + 1, len);
                proof {
                    assert(e@ =~= n@.skip(k + 1));
                }
                Some(e)
            }
            _ => None,
        },
    }
}

/// `Path::file_stem`, or an empty string when the path has no file name.
pub fn file_stem(p: &str) -> (r: String)
    ensures
        r@ == stem_spec(p@),
{
    match file_name(p) {
        None => String::new(),
        Some(n) => match last_dot_of(n.as_str()) {
            Some(k) if k > 0 => {
                let mut e = String::new();
                crate::text::append_range(&mut e, n.as_str(), 0, k);
                proof {
                    assert(e@ =~= n@.take(k as int));
                }
                e
            }
            _ => n,
        },
    }
}

/// Whether `Path::parent` is `Some`.
pub fn has_parent(p: &str) -> (r: bool)
    ensures
        r == (parent_components(p@) is Some),
{
    let c = components_of(p);
    let k = c.len();
    if k == 0 {
        false
    } else {
        !is_char(&c[k - 1], '/')
    }
}

/// Whether `p.parent() == Some(dir)`.
pub fn parent_is(p: &str, dir: &str) -> (r: bool)
    ensures
        r == (parent_components(p@) == Some(components(dir@))),
{
    let c = components_of(p);
    let d = components_of(dir);
    let k = c.len();
    if k == 0 || is_char(&c[k - 1], '/') {
        return false;
    }
    if d.len() != k - 1 {
        proof {
            assert(views(c@).drop_last().len() != views(d@).len());
        }
        return false;
    }
    let r = prefix_equal(&c, &d, k - 1);
    proof {
        assert(views(c@).take(k - 1) =~= views(c@).drop_last());
        assert(views(d@).take(k - 1) =~= views(d@));
    }
    r
}

} // verus!

verus! {

/// Names joined by `/`.
pub open spec fn joined(ws: Seq<Seq<char>>) -> Seq<char>
    decreases ws.len(),
{
    if ws.len() == 0 {
        Seq::empty()
    } else if ws.len() == 1 {
        ws[0]
    } else {
        joined(ws.drop_last()) + seq!['/'] + ws.last()
    }
}

/// Names that each make one component of their own: non-empty, not `.`, without `/`.
pub open spec fn plain_names(ws: Seq<Seq<char>>) -> bool {
    forall|i: int| 0 <= i < ws.len() ==> is_normal_piece(#[trigger] ws[i]) && !ws[i].contains('/')
}

/// Plain names joined by `/` split back into those names.
pub proof fn lemma_segments_joined(ws: Seq<Seq<char>>)
    requires
        ws.len() >= 1,
        plain_names(ws),
    ensures
        segments(joined(ws)) == ws,
        segments(joined(ws)).filter(|x: Seq<char>| is_normal_piece(x)) == ws,
        joined(ws).len() > 0 && joined(ws)[0] != '/',
    decreases ws.len(),
{
    if ws.len() == 1 {
        crate::text::lemma_pieces_single(ws[0], '/');
        assert(seq![ws[0]] =~= ws);
        assert(ws[0][0] != '/') by {
            assert(ws[0].len() > 0);
            if ws[0][0] == '/' {
                assert(ws[0].contains('/'));
            }
        }
    } else {
        let init = ws.drop_last();
        assert(plain_names(init)) by {
            assert forall|i: int| 0 <= i < init.len() implies is_normal_piece(#[trigger] init[i]) && !init[i].contains('/') by {
                assert(init[i] == ws[i]);
            }
        }
        lemma_segments_joined(init);
        crate::text::lemma_pieces_concat(joined(init), ws.last(), '/');
        assert(is_normal_piece(ws[ws.len() - 1]) && !ws[ws.len() - 1].contains('/'));
        crate::text::lemma_pieces_single(ws.last(), '/');
        assert(init + seq![ws.last()] =~= ws);
        assert((joined(init) + seq!['/'] + ws.last())[0] == joined(init)[0]);
    }
    let pred = |x: Seq<char>| is_normal_piece(x);
    lemma_filter_keeps_all(ws, pred);
}

/// Filtering by a predicate that every element meets keeps them all.
proof fn lemma_filter_keeps_all(s: Seq<Seq<char>>, pred: spec_fn(Seq<char>) -> bool)
    requires
        forall|i: int| 0 <= i < s.len() ==> pred(#[trigger] s[i]),
    ensures
        s.filter(pred) == s,
    decreases s.len(),
{
    if s.len() > 0 {
        lemma_filter_keeps_all(s.drop_last(), pred);
        assert(pred(s[s.len() - 1]));
        assert(s.drop_last().push(s.last()) =~= s);
    } else {
        s.lemma_filter_len(pred);
        assert(s.filter(pred) =~= s);
    }
}

/// Joining plain names to an absolute path appends them to its components.
pub proof fn lemma_components_join(home: Seq<char>, ws: Seq<Seq<char>>)
    requires
        home.len() > 0,
        home[0] == '/',
        ws.len() >= 1,
        plain_names(ws),
    ensures
        components(join_spec(home, joined(ws))) == components(home) + ws,
{
    let rel = joined(ws);
    let pred = |x: Seq<char>| is_normal_piece(x);
    lemma_segments_joined(ws);
    let a = if home.last() == '/' { home.drop_last() } else { home };
    let j = join_spec(home, rel);
    assert(j =~= a + seq!['/'] + rel);
    crate::text::lemma_pieces_concat(a, rel, '/');
    Seq::filter_distributes_over_add(segments(a), segments(rel), pred);
    assert(j[0] == '/') by {
        if a.len() > 0 {
            assert(j[0] == a[0]);
            assert(a[0] == home[0]);
        }
    }
    if home.last() == '/' {
        assert(home =~= a + seq!['/'] + Seq::<char>::empty());
        crate::text::lemma_pieces_concat(a, Seq::empty(), '/');
        assert(segments(Seq::<char>::empty()) =~= seq![Seq::<char>::empty()]) by {
            reveal_with_fuel(crate::text::pieces, 1);
        }
        Seq::filter_distributes_over_add(segments(a), seq![Seq::<char>::empty()], pred);
        let e = Seq::<Seq<char>>::empty();
        assert(e.push(Seq::<char>::empty()) =~= seq![Seq::<char>::empty()]);
        e.lemma_filter_len(pred);
        assert(e.filter(pred) =~= e);
        assert(seq![Seq::<char>::empty()].filter(pred) =~= e);
    }
    assert(components(j) =~= components(home) + ws);
}

} // verus!
