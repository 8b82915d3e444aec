//! How full the home directory's volume is, read from the report of `df -Pk`.

use vstd::prelude::*;
use crate::path::views;
use crate::text::{lemma_pieces_nonempty, lemma_pieces_step, pieces, push_char};

verus! {

broadcast use Seq::lemma_filter_push;

/// The words of a line: its pieces between spaces, empty ones left out.
pub open spec fn words(line: Seq<char>) -> Seq<Seq<char>> {
    pieces(line, ' ').filter(|w: Seq<char>| w.len() > 0)
}

pub open spec fn is_digit(c: char) -> bool {
    '0' <= c && c <= '9'
}

/// The value of a string of decimal digits.
pub open spec fn digits_value(w: Seq<char>) -> int
    decreases w.len(),
{
    if w.len() == 0 {
        0
    } else {
        digits_value(w.drop_last()) * 10 + (w.last() as int - '0' as int)
    }
}

/// The number a word spells in decimal, if it is made of digits only and fits `u64`.
pub open spec fn decimal_u64(w: Seq<char>) -> Option<u64> {
    if w.len() > 0 && (forall|i: int| 0 <= i < w.len() ==> is_digit(#[trigger] w[i])) && digits_value(w)
        <= u64::MAX {
        Some(digits_value(w) as u64)
    } else {
        None
    }
}

/// `n` blocks of 1024 bytes, in bytes, saturating at `u64::MAX`.
pub open spec fn kib(n: u64) -> u64 {
    if n * 1024 > u64::MAX {
        u64::MAX
    } else {
        (n * 1024) as u64
    }
}

/// What `df -Pk` reports of a volume as (used, total) bytes: the second line's third and
/// second words, counts of 1024-byte blocks.
pub open spec fn df_spec(out: Seq<char>) -> Option<(u64, u64)> {
    let lines = pieces(out, '\n');
    if lines.len() < 2 {
        None
    } else {
        let ws = words(lines[1]);
        if ws.len() < 3 {
            None
        } else {
            match (decimal_u64(ws[2]), decimal_u64(ws[1])) {
                (Some(used), Some(total)) => Some((kib(used), kib(total))),
                _ => None,
            }
        }
    }
}

/// Pieces before the last one of a prefix are pieces of the whole.
proof fn lemma_pieces_prefix(s: Seq<char>, sep: char, i: int, j: int)
    requires
        0 <= i <= s.len(),
        0 <= j < pieces(s.take(i), sep).len() - 1,
    ensures
        pieces(s, sep).len() >= pieces(s.take(i), sep).len(),
        pieces(s, sep)[j] == pieces(s.take(i), sep)[j],
    decreases s.len() - i,
{
    if i < s.len() {
        lemma_pieces_step(s, sep, i);
        lemma_pieces_nonempty(s.take(i), sep);
        lemma_pieces_prefix(s, sep, i + 1, j);
    } else {
        assert(s.take(i) =~= s);
    }
}

/// The `n`-th piece of `s` between `sep`s, if there are that many.
fn nth_piece(s: &str, sep: char, n: usize) -> (r: Option<String>)
    ensures
        match r {
            Some(p) => n < pieces(s@, sep).len() && p@ == pieces(s@, sep)[n as int],
            None => n >= pieces(s@, sep).len(),
        },
{
    let len = s.unicode_len();
    let mut idx: usize = 0;
    let mut cur = String::new();
    let mut i: usize = 0;
    proof {
        assert(s@.take(0) =~= Seq::<char>::empty());
    }
    while i < len
        invariant
            i <= len,
            len == s@.len(),
            idx <= n,
            pieces(s@.take(i as int), sep).len() == idx + 1,
            cur@ == pieces(s@.take(i as int), sep).last(),
        decreases len - i,
    {
        let c = s.get_char(i);
        proof {
            lemma_pieces_step(s@, sep, i as int);
        }
        if c == sep {
            if idx == n {
                proof {
                    lemma_pieces_prefix(s@, sep, i + 1, idx as int);
                }
                return Some(cur);
            }
            idx = idx + 1;
            cur = String::new();
            proof {
                assert(cur@ =~= Seq::<char>::empty());
            }
        } else {
            push_char(&mut cur, c);
        }
        i = i + 1;
    }
    proof {
        assert(s@.take(len as int) =~= s@);
    }
    if idx == n {
        Some(cur)
    } else {
        None
    }
}

/// The words of a line.
fn line_words(line: &str) -> (r: Vec<String>)
    ensures
        views(r@) == words(line@),
{
    let ghost pred = |w: Seq<char>| w.len() > 0;
    let len = line.unicode_len();
    let mut out: Vec<String> = Vec::new();
    let mut cur = String::new();
    let mut i: usize = 0;
    proof {
        assert(line@.take(0) =~= Seq::<char>::empty());
        assert(pieces(line@.take(0), ' ').drop_last() =~= Seq::<Seq<char>>::empty());
        assert(views(out@) =~= Seq::<Seq<char>>::empty().filter(pred));
    }
    while i < len
        invariant
            i <= len,
            len == line@.len(),
            pred == (|w: Seq<char>| w.len() > 0),
            pieces(line@.take(i as int), ' ').len() >= 1,
            cur@ == pieces(line@.take(i as int), ' ').last(),
            views(out@) == pieces(line@.take(i as int), ' ').drop_last().filter(pred),
        decreases len - i,
    {
        let c = line.get_char(i);
        let ghost prev = pieces(line@.take(i as int), ' ');
        proof {
            lemma_pieces_step(line@, ' ', i as int);
        }
        if c == ' ' {
            let ghost before = out@;
            proof {
                assert(prev.push(Seq::empty()).drop_last() =~= prev.drop_last().push(prev.last()));
                assert(prev.drop_last().push(prev.last()) =~= prev);
            }
            if cur.unicode_len() > 0 {
                out.push(cur);
                proof {
                    assert(views(out@) =~= views(before).push(prev.last()));
                }
            }
            cur = String::new();
            proof {
                assert(cur@ =~= Seq::<char>::empty());
            }
        } else {
            push_char(&mut cur, c);
            proof {
                assert(prev.update(prev.len() - 1, prev.last().push(c)).drop_last() =~= prev.drop_last());
            }
        }
        i = i + 1;
    }
    proof {
        assert(line@.take(len as int) =~= line@);
    }
    let ghost all = pieces(line@, ' ');
    let ghost before = out@;
    proof {
        assert(all.drop_last().push(all.last()) =~= all);
    }
    if cur.unicode_len() > 0 {
        out.push(cur);
        proof {
            assert(views(out@) =~= views(before).push(all.last()));
        }
    }
    out
}

proof fn lemma_digits_grow(w: Seq<char>, i: int)
    requires
        0 <= i <= w.len(),
        forall|k: int| 0 <= k < w.len() ==> is_digit(#[trigger] w[k]),
    ensures
        digits_value(w.take(i)) <= digits_value(w),
        0 <= digits_value(w.take(i)),
    decreases w.len() - i,
{
    if i < w.len() {
        lemma_digits_grow(w, i + 1);
        assert(w.take(i + 1).drop_last() =~= w.take(i));
        assert(w.take(i + 1).last() == w[i]);
        assert(is_digit(w[i]));
    } else {
        assert(w.take(i) =~= w);
        lemma_digits_nonneg(w);
    }
}

proof fn lemma_digits_nonneg(w: Seq<char>)
    requires
        forall|k: int| 0 <= k < w.len() ==> is_digit(#[trigger] w[k]),
    ensures
        0 <= digits_value(w),
    decreases w.len(),
{
    if w.len() > 0 {
        assert forall|k: int| 0 <= k < w.drop_last().len() implies is_digit(#[trigger] w.drop_last()[k]) by {
            assert(w.drop_last()[k] == w[k]);
        }
        lemma_digits_nonneg(w.drop_last());
        assert(is_digit(w[w.len() - 1]));
    }
}

/// The number a word spells in decimal, if it is made of digits only and fits `u64`.
fn parse_decimal(w: &str) -> (r: Option<u64>)
    ensures
        r == decimal_u64(w@),
{
    let len = w.unicode_len();
    if len == 0 {
        return None;
    }
    let mut value: u64 = 0;
    let mut i: usize = 0;
    proof {
        assert(w@.take(0) =~= Seq::<char>::empty());
    }
    while i < len
        invariant
            i <= len,
            len == w@.len(),
            len > 0,
            forall|k: int| 0 <= k < i ==> is_digit(#[trigger] w@[k]),
            value == digits_value(w@.take(i as int)),
        decreases len - i,
    {
        let c = w.get_char(i);
        proof {
            assert(w@.take(i + 1).drop_last() =~= w@.take(i as int));
            assert(w@.take(i + 1).last() == c);
        }
        if !('0' <= c && c <= '9') {
            assert(!is_digit(w@[i as int]));
            return None;
        }
        let d = (c as u32 - '0' as u32) as u64;
        if value > (u64::MAX - d) / 10 {
            proof {
                assert(digits_value(w@.take(i + 1)) > u64::MAX) by (nonlinear_arith)
                    requires
                        value > (u64::MAX - d) / 10,
                        digits_value(w@.take(i + 1)) == value * 10 + d,
                        d <= 9,
                ;
                if forall|k: int| 0 <= k < w@.len() ==> is_digit(#[trigger] w@[k]) {
                    lemma_digits_grow(w@, i + 1);
                }
            }
            return None;
        }
        value = value * 10 + d;
        i = i + 1;
    }
    proof {
        assert(w@.take(len as int) =~= w@);
    }
    Some(value)
}

/// `n` blocks of 1024 bytes, in bytes.
fn kib_exec(n: u64) -> (r: u64)
    ensures
        r == kib(n),
{
    if n > u64::MAX / 1024 {
        u64::MAX
    } else {
        n * 1024
    }
}

/// (used, total) bytes of a volume, from the report of `df -Pk` on it.
pub fn df_usage(out: &str) -> (r: Option<(u64, u64)>)
    ensures
        r == df_spec(out@),
{
    let line = match nth_piece(out, '\n', 1) {
        Some(l) => l,
        None => return None,
    };
    let ws = line_words(line.as_str());
    if ws.len() < 3 {
        return None;
    }
    let used = match parse_decimal(ws[2].as_str()) {
        Some(u) => u,
        None => return None,
    };
    let total = match parse_decimal(ws[1].as_str()) {
        Some(t) => t,
        None => return None,
    };
    Some((kib_exec(used), kib_exec(total)))
}

} // verus!
