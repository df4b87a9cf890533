//! Character-level text utilities: splitting into pieces and tokens,
//! trimming, counting, and substring search, each with an exact
//! mathematical description.

use vstd::prelude::*;
use vstd::string::StrSliceExecFns;

verus! {

/// ASCII whitespace, as the parsers treat it.
pub open spec fn is_space(c: char) -> bool {
    c == ' ' || c == '\t' || c == '\n' || c == '\r' || c == '\u{b}' || c == '\u{c}'
}

/// Runtime test for `is_space`.
pub fn is_space_char(c: char) -> (r: bool)
    ensures
        r == is_space(c),
{
    c == ' ' || c == '\t' || c == '\n' || c == '\r' || c == '\u{b}' || c == '\u{c}'
}

/// The predicate holding exactly at the character `sep`.
pub open spec fn sep_pred(sep: char) -> spec_fn(char) -> bool {
    |c: char| c == sep
}

/// The predicate holding at ASCII whitespace.
pub open spec fn space_pred() -> spec_fn(char) -> bool {
    |c: char| is_space(c)
}

/// The pieces of `s` cut at every character satisfying `p`: separators
/// dropped, empty pieces kept, so there is one piece more than there
/// are separator characters.
pub open spec fn split_when(s: Seq<char>, p: spec_fn(char) -> bool) -> Seq<Seq<char>>
    decreases s.len(),
{
    if s.len() == 0 {
        seq![Seq::<char>::empty()]
    } else {
        let rest = split_when(s.drop_last(), p);
        if p(s.last()) {
            rest.push(Seq::<char>::empty())
        } else {
            rest.update(rest.len() - 1, rest.last().push(s.last()))
        }
    }
}

pub proof fn lemma_split_when_nonempty(s: Seq<char>, p: spec_fn(char) -> bool)
    ensures
        split_when(s, p).len() >= 1,
    decreases s.len(),
{
    if s.len() > 0 {
        lemma_split_when_nonempty(s.drop_last(), p);
    }
}

/// The pieces of `ps` that are non-empty, in order.
pub open spec fn nonempty_pieces(ps: Seq<Seq<char>>) -> Seq<Seq<char>>
    decreases ps.len(),
{
    if ps.len() == 0 {
        Seq::<Seq<char>>::empty()
    } else if ps.last().len() == 0 {
        nonempty_pieces(ps.drop_last())
    } else {
        nonempty_pieces(ps.drop_last()).push(ps.last())
    }
}

/// The whitespace-separated tokens of `s`: maximal runs of
/// non-whitespace characters.
pub open spec fn tokens_of(s: Seq<char>) -> Seq<Seq<char>> {
    nonempty_pieces(split_when(s, space_pred()))
}

/// The views of a sequence of character vectors.
pub open spec fn views_of(ps: Seq<Vec<char>>) -> Seq<Seq<char>> {
    ps.map_values(|v: Vec<char>| v@)
}

/// All characters of `s`, in order.
pub fn str_chars(s: &str) -> (r: Vec<char>)
    ensures
        r@ == s@,
{
    let n = s.unicode_len();
    let mut r: Vec<char> = Vec::new();
    let mut i: usize = 0;
    while i < n
        invariant
            n == s@.len(),
            i <= n,
            r@ == s@.take(i as int),
        decreases n - i,
    {
        r.push(s.get_char(i));
        i = i + 1;
        proof {
            assert(s@.take(i as int) =~= s@.take(i - 1).push(s@[i - 1]));
        }
    }
    proof {
        assert(s@.take(n as int) =~= s@);
    }
    r
}

/// A fresh vector with the same characters as `v`.
pub fn copy_chars(v: &Vec<char>) -> (r: Vec<char>)
    ensures
        r@ == v@,
{
    let mut r: Vec<char> = Vec::new();
    let mut i: usize = 0;
    while i < v.len()
        invariant
            i <= v@.len(),
            r@ == v@.take(i as int),
        decreases v@.len() - i,
    {
        r.push(v[i]);
        i = i + 1;
        proof {
            assert(v@.take(i as int) =~= v@.take(i - 1).push(v@[i - 1]));
        }
    }
    proof {
        assert(v@.take(v@.len() as int) =~= v@);
    }
    r
}

/// How a splitter recognises a separator: one fixed character, or any
/// ASCII whitespace.
#[derive(Clone, Copy)]
pub enum Cut {
    AtChar(char),
    AtSpace,
}

/// The separator predicate a `Cut` stands for.
pub open spec fn cut_pred(k: Cut) -> spec_fn(char) -> bool {
    match k {
        Cut::AtChar(sep) => sep_pred(sep),
        Cut::AtSpace => space_pred(),
    }
}

/// Runtime test for `cut_pred`.
pub fn matches_cut(k: &Cut, c: char) -> (r: bool)
    ensures
        r == cut_pred(*k)(c),
{
    match k {
        Cut::AtChar(sep) => c == *sep,
        Cut::AtSpace => is_space_char(c),
    }
}

/// Splits `s` at every separator, keeping empty pieces.
pub fn split_pieces(s: &Vec<char>, k: Cut) -> (r: Vec<Vec<char>>)
    ensures
        views_of(r@) == split_when(s@, cut_pred(k)),
{
    let ghost p = cut_pred(k);
    let mut out: Vec<Vec<char>> = Vec::new();
    let mut cur: Vec<char> = Vec::new();
    let mut i: usize = 0;
    while i < s.len()
        invariant
            i <= s@.len(),
            views_of(out@).push(cur@) == split_when(s@.take(i as int), p),
            p == cut_pred(k),
        decreases s@.len() - i,
    {
        let c = s[i];
        i = i + 1;
        proof {
            assert(s@.take(i as int).drop_last() =~= s@.take(i - 1));
            assert(s@.take(i as int).last() == s@[i - 1]);
        }
        if matches_cut(&k, c) {
            out.push(cur);
            cur = Vec::new();
            proof {
                assert(views_of(out@).push(cur@) =~~= split_when(s@.take(i as int), p));
            }
        } else {
            cur.push(c);
            proof {
                assert(views_of(out@).push(cur@) =~~= split_when(s@.take(i as int), p));
            }
        }
    }
    proof {
        assert(s@.take(s@.len() as int) =~= s@);
    }
    out.push(cur);
    proof {
        assert(views_of(out@) =~~= split_when(s@, p));
    }
    out
}

/// The whitespace-separated tokens of `s`: maximal non-whitespace runs,
/// empty pieces dropped.
pub fn split_tokens(s: &Vec<char>) -> (r: Vec<Vec<char>>)
    ensures
        views_of(r@) == tokens_of(s@),
{
    let ghost p = space_pred();
    let mut out: Vec<Vec<char>> = Vec::new();
    let mut cur: Vec<char> = Vec::new();
    let mut i: usize = 0;
    while i < s.len()
        invariant
            i <= s@.len(),
            split_when(s@.take(i as int), p).last() == cur@,
            views_of(out@) == nonempty_pieces(split_when(s@.take(i as int), p).drop_last()),
            p == space_pred(),
        decreases s@.len() - i,
    {
        let c = s[i];
        i = i + 1;
        proof {
            lemma_split_when_nonempty(s@.take(i - 1), p);
            assert(s@.take(i as int).drop_last() =~= s@.take(i - 1));
            assert(s@.take(i as int).last() == s@[i - 1]);
        }
        if is_space_char(c) {
            let ghost before = split_when(s@.take(i - 1), p);
            if cur.len() > 0 {
                out.push(cur);
                cur = Vec::new();
            }
            proof {
                assert(split_when(s@.take(i as int), p).drop_last() =~~= before);
                assert(before.drop_last().push(before.last()) =~~= before);
                assert(views_of(out@) =~~= nonempty_pieces(before));
            }
        } else {
            cur.push(c);
            proof {
                let now = split_when(s@.take(i as int), p);
                assert(now.drop_last() =~~= split_when(s@.take(i - 1), p).drop_last());
            }
        }
    }
    proof {
        assert(s@.take(s@.len() as int) =~= s@);
        lemma_split_when_nonempty(s@, p);
        assert(split_when(s@, p).drop_last().push(split_when(s@, p).last()) =~~= split_when(s@, p));
    }
    if cur.len() > 0 {
        out.push(cur);
    }
    proof {
        assert(views_of(out@) =~~= nonempty_pieces(split_when(s@, p)));
    }
    out
}

/// Relies on std's `FromIterator for String` (via `Iterator::collect`):
/// collecting characters yields the string of exactly those characters,
/// in order.
#[verifier::external_body]
pub(crate) fn chars_to_string(v: &Vec<char>) -> (r: String)
    ensures
        r@ == v@,
{
    v.iter().collect()
}

/// `s` with its longest prefix of characters satisfying `p` removed.
pub open spec fn trim_front(s: Seq<char>, p: spec_fn(char) -> bool) -> Seq<char>
    decreases s.len(),
{
    if s.len() > 0 && p(s.first()) {
        trim_front(s.drop_first(), p)
    } else {
        s
    }
}

/// `s` with its longest suffix of characters satisfying `p` removed.
pub open spec fn trim_back(s: Seq<char>, p: spec_fn(char) -> bool) -> Seq<char>
    decreases s.len(),
{
    if s.len() > 0 && p(s.last()) {
        trim_back(s.drop_last(), p)
    } else {
        s
    }
}

/// `s` with characters satisfying `p` removed from both ends.
pub open spec fn trim_when(s: Seq<char>, p: spec_fn(char) -> bool) -> Seq<char> {
    trim_back(trim_front(s, p), p)
}

/// `s` with ASCII whitespace removed from both ends.
pub open spec fn trim_spaces(s: Seq<char>) -> Seq<char> {
    trim_when(s, space_pred())
}

/// `s` with separator characters removed from both ends.
pub fn trim_cut(s: &Vec<char>, k: Cut) -> (r: Vec<char>)
    ensures
        r@ == trim_when(s@, cut_pred(k)),
{
    let ghost p = cut_pred(k);
    proof {
        assert(s@.skip(0) =~= s@);
    }
    let mut lo: usize = 0;
    while lo < s.len() && matches_cut(&k, s[lo])
        invariant
            lo <= s@.len(),
            trim_front(s@, p) == trim_front(s@.skip(lo as int), p),
            p == cut_pred(k),
        decreases s@.len() - lo,
    {
        proof {
            assert(s@.skip(lo as int).drop_first() =~= s@.skip(lo + 1));
        }
        lo = lo + 1;
    }
    proof {
        assert(trim_front(s@, p) == s@.skip(lo as int));
        assert(s@.skip(lo as int) =~= s@.subrange(lo as int, s@.len() as int));
    }
    let mut hi: usize = s.len();
    while hi > lo && matches_cut(&k, s[hi - 1])
        invariant
            lo <= hi <= s@.len(),
            trim_when(s@, p) == trim_back(s@.subrange(lo as int, hi as int), p),
            p == cut_pred(k),
        decreases hi,
    {
        proof {
            assert(s@.subrange(lo as int, hi as int).drop_last() =~= s@.subrange(
                lo as int,
                hi - 1,
            ));
        }
        hi = hi - 1;
    }
    let mut r: Vec<char> = Vec::new();
    proof {
        assert(s@.subrange(lo as int, lo as int) =~= Seq::<char>::empty());
    }
    let mut j: usize = lo;
    while j < hi
        invariant
            lo <= j <= hi <= s@.len(),
            r@ == s@.subrange(lo as int, j as int),
        decreases hi - j,
    {
        r.push(s[j]);
        j = j + 1;
        proof {
            assert(s@.subrange(lo as int, j as int) =~= s@.subrange(lo as int, j - 1).push(
                s@[j - 1],
            ));
        }
    }
    r
}

/// How many times `c` occurs in `s`.
pub open spec fn count_char(s: Seq<char>, c: char) -> nat
    decreases s.len(),
{
    if s.len() == 0 {
        0
    } else {
        count_char(s.drop_last(), c) + if s.last() == c {
            1nat
        } else {
            0nat
        }
    }
}

/// Counts the occurrences of `c` in `v`.
pub fn count_char_in(v: &Vec<char>, c: char) -> (r: usize)
    ensures
        r == count_char(v@, c),
{
    let mut r: usize = 0;
    let mut i: usize = 0;
    while i < v.len()
        invariant
            i <= v@.len(),
            r <= i,
            r == count_char(v@.take(i as int), c),
        decreases v@.len() - i,
    {
        proof {
            assert(v@.take(i + 1).drop_last() =~= v@.take(i as int));
            assert(v@.take(i + 1).last() == v@[i as int]);
        }
        if v[i] == c {
            r = r + 1;
        }
        i = i + 1;
    }
    proof {
        assert(v@.take(v@.len() as int) =~= v@);
    }
    r
}

/// Whether `n` occurs in `h` as a contiguous subrange.
pub open spec fn contains_sub(h: Seq<char>, n: Seq<char>) -> bool {
    exists|i: int|
        0 <= i && i + n.len() <= h.len() && #[trigger] h.subrange(i, i + n.len() as int) == n
}

/// Substring search: whether `n` occurs contiguously in `h`.
pub fn contains_chars(h: &Vec<char>, n: &Vec<char>) -> (r: bool)
    ensures
        r == contains_sub(h@, n@),
{
    let hlen = h.len();
    let nlen = n.len();
    if nlen == 0 {
        proof {
            assert(h@.subrange(0, 0) =~= n@);
            assert(h@.subrange(0, 0 + n@.len() as int) == n@);
        }
        return true;
    }
    if nlen > hlen {
        proof {
            assert(forall|i: int|
                0 <= i && i + n@.len() <= h@.len() ==> #[trigger] h@.subrange(
                    i,
                    i + n@.len() as int,
                ) != n@);
        }
        return false;
    }
    let mut i: usize = 0;
    while i <= hlen - nlen
        invariant
            hlen == h@.len(),
            1 <= nlen == n@.len() <= hlen,
            i <= hlen - nlen + 1,
            forall|k: int|
                0 <= k < i ==> #[trigger] h@.subrange(k, k + n@.len() as int) != n@,
        decreases hlen + 1 - nlen - i,
    {
        let mut j: usize = 0;
        let mut mismatch = false;
        proof {
            assert(h@.subrange(i as int, i as int) =~= n@.take(0));
        }
        while j < nlen
            invariant
                hlen == h@.len(),
                1 <= nlen == n@.len() <= hlen,
                i + nlen <= hlen,
                j <= nlen,
                !mismatch ==> h@.subrange(i as int, i + j as int) == n@.take(j as int),
                mismatch ==> h@.subrange(i as int, i + n@.len() as int) != n@,
            decreases nlen - j,
        {
            if !mismatch {
                if h[i + j] != n[j] {
                    proof {
                        assert(h@.subrange(i as int, i + n@.len() as int)[j as int] == h@[i + j]);
                    }
                    mismatch = true;
                } else {
                    proof {
                        assert(h@.subrange(i as int, i + j + 1) =~= h@.subrange(
                            i as int,
                            i + j as int,
                        ).push(h@[i + j]));
                        assert(n@.take(j + 1) =~= n@.take(j as int).push(n@[j as int]));
                    }
                }
            }
            j = j + 1;
        }
        if !mismatch {
            proof {
                assert(n@.take(n@.len() as int) =~= n@);
            }
            return true;
        }
        i = i + 1;
    }
    proof {
        assert(forall|k: int|
            0 <= k && k + n@.len() <= h@.len() ==> #[trigger] h@.subrange(k, k + n@.len() as int)
                != n@);
    }
    false
}

} // verus!
