//! Prefix tests, single-split helpers and unsigned-number parsing on
//! character sequences, with the meaning that the `str` methods of the same
//! names give them.

use vstd::prelude::*;
use crate::text::{occurs_at, matches_at, find_from, spec_ascii_lower, ascii_lower};
use crate::text::split::{
    first_occ, lemma_first_occ, lemma_occurs_skip, is_ws, is_whitespace, trim_start,
    trim_start_index, slice_vec, views,
};

verus! {

/// `s` begins with `p`.
pub open spec fn starts_with(s: Seq<char>, p: Seq<char>) -> bool {
    p.len() <= s.len() && s.take(p.len() as int) == p
}

pub fn starts_with_chars(s: &[char], p: &[char]) -> (r: bool)
    ensures
        r == starts_with(s@, p@),
{
    let r = matches_at(s, p, 0);
    proof {
        if p@.len() <= s@.len() {
            assert(s@.subrange(0, p@.len() as int) =~= s@.take(p@.len() as int));
        }
    }
    r
}

/// `a` and `b` are equal once ASCII letters are lowered, as
/// `str::eq_ignore_ascii_case` compares them.
pub open spec fn eq_ignore_case(a: Seq<char>, b: Seq<char>) -> bool {
    a.len() == b.len() && forall|i: int|
        0 <= i < a.len() ==> spec_ascii_lower(#[trigger] a[i]) == spec_ascii_lower(b[i])
}

pub fn eq_ignore_case_chars(a: &[char], b: &[char]) -> (r: bool)
    ensures
        r == eq_ignore_case(a@, b@),
{
    if a.len() != b.len() {
        return false;
    }
    let mut i: usize = 0;
    while i < a.len()
        invariant
            a@.len() == b@.len(),
            0 <= i <= a@.len(),
            forall|k: int| 0 <= k < i ==> spec_ascii_lower(#[trigger] a@[k]) == spec_ascii_lower(b@[k]),
        decreases a@.len() - i,
    {
        if ascii_lower(a[i]) != ascii_lower(b[i]) {
            return false;
        }
        i = i + 1;
    }
    true
}

/// `s` split at the first occurrence of `sep`: what comes before and what
/// comes after it, as `str::split_once` gives them.
pub open spec fn split_once(s: Seq<char>, sep: Seq<char>) -> Option<(Seq<char>, Seq<char>)> {
    let i = first_occ(s, sep);
    if i < 0 {
        None
    } else {
        Some((s.take(i), s.skip(i + sep.len())))
    }
}

pub fn split_once_chars(s: &[char], sep: &[char]) -> (r: Option<(Vec<char>, Vec<char>)>)
    ensures
        match r {
            Some((a, b)) => split_once(s@, sep@) == Some((a@, b@)),
            None => split_once(s@, sep@) is None,
        },
{
    proof {
        lemma_first_occ(s@, sep@);
    }
    match find_from(s, sep, 0) {
        None => None,
        Some(i) => {
            assert(occurs_at(s@, sep@, i as int));
            let total = s.len();
            assert(i + sep@.len() <= total);
            let a = slice_vec(s, 0, i);
            let b = slice_vec(s, i + sep.len(), s.len());
            assert(a@ =~= s@.take(i as int));
            assert(b@ =~= s@.skip(i + sep@.len()));
            Some((a, b))
        },
    }
}

/// The position of the last `c` in `s`, or -1.
pub open spec fn last_occ(s: Seq<char>, c: char) -> int
    decreases s.len(),
{
    if s.len() == 0 {
        -1
    } else if s.last() == c {
        s.len() - 1
    } else {
        last_occ(s.drop_last(), c)
    }
}

/// `s` split at the last `c`, as `str::rsplit_once` gives it.
pub open spec fn rsplit_once(s: Seq<char>, c: char) -> Option<(Seq<char>, Seq<char>)> {
    let i = last_occ(s, c);
    if i < 0 {
        None
    } else {
        Some((s.take(i), s.skip(i + 1)))
    }
}

pub fn rsplit_once_chars(s: &[char], c: char) -> (r: Option<(Vec<char>, Vec<char>)>)
    ensures
        match r {
            Some((a, b)) => rsplit_once(s@, c) == Some((a@, b@)),
            None => rsplit_once(s@, c) is None,
        },
{
    let mut j = s.len();
    assert(s@.take(j as int) =~= s@);
    while j > 0 && s[j - 1] != c
        invariant
            0 <= j <= s@.len(),
            last_occ(s@, c) == last_occ(s@.take(j as int), c),
        decreases j,
    {
        assert(s@.take(j as int).drop_last() =~= s@.take(j - 1));
        j = j - 1;
    }
    if j == 0 {
        None
    } else {
        let a = slice_vec(s, 0, j - 1);
        let b = slice_vec(s, j, s.len());
        assert(a@ =~= s@.take(j - 1));
        assert(b@ =~= s@.skip(j as int));
        Some((a, b))
    }
}

/// At most `n` pieces of `t` split at `sep` from the left, the last piece
/// holding the rest, as `str::splitn` gives them.
pub open spec fn splitn_seq(t: Seq<char>, sep: Seq<char>, n: nat) -> Seq<Seq<char>>
    decreases n,
{
    if n == 0 {
        Seq::empty()
    } else if n == 1 {
        seq![t]
    } else {
        let i = first_occ(t, sep);
        if i < 0 {
            seq![t]
        } else {
            seq![t.take(i)] + splitn_seq(t.skip(i + sep.len()), sep, (n - 1) as nat)
        }
    }
}

/// The first `last_index + 1` pieces of `s` split at `sep`, the last of them
/// holding the rest.
#[verifier::rlimit(30)]
pub fn splitn_chars(s: &[char], sep: &[char], last_index: usize) -> (r: Vec<Vec<char>>)
    requires
        sep@.len() > 0,
    ensures
        views(r@) == splitn_seq(s@, sep@, (last_index + 1) as nat),
{
    let mut out: Vec<Vec<char>> = Vec::new();
    let mut start: usize = 0;
    assert(s@.skip(0) =~= s@);
    assert(views(out@) + splitn_seq(s@, sep@, (last_index + 1) as nat) =~= splitn_seq(
        s@,
        sep@,
        (last_index + 1) as nat,
    ));
    loop
        invariant
            start <= s@.len(),
            sep@.len() > 0,
            out@.len() <= last_index,
            splitn_seq(s@, sep@, (last_index + 1) as nat) == views(out@) + splitn_seq(
                s@.skip(start as int),
                sep@,
                (last_index + 1 - out@.len()) as nat,
            ),
        decreases s@.len() - start,
    {
        let ghost t = s@.skip(start as int);
        let ghost old_out = views(out@);
        let ghost k = (last_index + 1 - out@.len()) as nat;
        proof {
            lemma_first_occ(t, sep@);
        }
        if out.len() == last_index {
            let piece = slice_vec(s, start, s.len());
            assert(piece@ =~= t);
            out.push(piece);
            assert(views(out@) =~= old_out + seq![t]);
            return out;
        }
        let f = find_from(s, sep, start);
        match f {
            None => {
                proof {
                    if first_occ(t, sep@) >= 0 {
                        lemma_occurs_skip(s@, sep@, start as int, first_occ(t, sep@));
                    }
                }
                let piece = slice_vec(s, start, s.len());
                assert(piece@ =~= t);
                out.push(piece);
                assert(views(out@) =~= old_out + seq![t]);
                return out;
            },
            Some(i) => {
                assert(occurs_at(s@, sep@, i as int));
                let total = s.len();
                assert(i + sep@.len() <= total);
                let ghost r = first_occ(t, sep@);
                proof {
                    lemma_occurs_skip(s@, sep@, start as int, i - start);
                    if r >= 0 {
                        lemma_occurs_skip(s@, sep@, start as int, r);
                        if r < i - start {
                            assert(!occurs_at(s@, sep@, start + r));
                        }
                    }
                    assert(r == i - start);
                }
                let piece = slice_vec(s, start, i);
                assert(piece@ =~= t.take(r));
                assert(t.skip(r + sep@.len()) =~= s@.skip(i + sep@.len()));
                out.push(piece);
                assert(views(out@) =~= old_out.push(piece@));
                assert(old_out + (seq![t.take(r)] + splitn_seq(
                    s@.skip(i + sep@.len()),
                    sep@,
                    (k - 1) as nat,
                )) =~= old_out.push(piece@) + splitn_seq(
                    s@.skip(i + sep@.len()),
                    sep@,
                    (k - 1) as nat,
                ));
                start = i + sep.len();
            },
        }
    }
}

/// The length of the run of non-whitespace characters that `t` begins with.
pub open spec fn word_len(t: Seq<char>) -> nat
    decreases t.len(),
{
    if t.len() == 0 || is_ws(t[0]) {
        0
    } else {
        1 + word_len(t.drop_first())
    }
}

/// The first whitespace-separated word of `s`, as
/// `s.split_whitespace().next()` gives it.
pub open spec fn first_word(s: Seq<char>) -> Option<Seq<char>> {
    let t = trim_start(s);
    if t.len() == 0 {
        None
    } else {
        Some(t.take(word_len(t) as int))
    }
}

proof fn lemma_word_len_bound(t: Seq<char>)
    ensures
        word_len(t) <= t.len(),
    decreases t.len(),
{
    if t.len() > 0 && !is_ws(t[0]) {
        lemma_word_len_bound(t.drop_first());
    }
}

pub fn first_word_chars(s: &[char]) -> (r: Option<Vec<char>>)
    ensures
        match r {
            Some(w) => first_word(s@) == Some(w@),
            None => first_word(s@) is None,
        },
{
    let a = trim_start_index(s);
    if a == s.len() {
        return None;
    }
    let ghost t = s@.skip(a as int);
    let mut b = a;
    assert(t.skip(0) =~= t);
    while b < s.len() && !is_whitespace(s[b])
        invariant
            a <= b <= s@.len(),
            t == s@.skip(a as int),
            word_len(t) == (b - a) + word_len(t.skip(b - a)),
        decreases s@.len() - b,
    {
        assert(t.skip(b - a).drop_first() =~= t.skip(b - a + 1));
        b = b + 1;
    }
    let w = slice_vec(s, a, b);
    assert(w@ =~= t.take(word_len(t) as int));
    Some(w)
}

/// The lines of `s`: the pieces between `'\n'`, without the empty piece that
/// a final `'\n'` leaves, as `str::lines` gives them for text without `'\r'`.
pub open spec fn lines_seq(s: Seq<char>) -> Seq<Seq<char>> {
    let parts = crate::text::split::split_seq(s, seq!['\n']);
    if parts.last().len() == 0 {
        parts.drop_last()
    } else {
        parts
    }
}

/// Whether `c` is an ASCII decimal digit.
pub open spec fn is_digit(c: char) -> bool {
    '0' <= c && c <= '9'
}

/// The number written by the decimal digits `d`.
pub open spec fn digits_value(d: Seq<char>) -> int
    decreases d.len(),
{
    if d.len() == 0 {
        0
    } else {
        digits_value(d.drop_last()) * 10 + (d.last() as int - '0' as int)
    }
}

pub open spec fn all_digits(d: Seq<char>) -> bool {
    forall|i: int| 0 <= i < d.len() ==> is_digit(#[trigger] d[i])
}

/// Ten to the power `n`.
pub open spec fn pow10(n: nat) -> nat
    decreases n,
{
    if n == 0 {
        1
    } else {
        10 * pow10((n - 1) as nat)
    }
}

/// A number of `n` decimal digits is below ten to the `n`.
pub proof fn lemma_digits_bound(d: Seq<char>)
    requires
        all_digits(d),
    ensures
        0 <= digits_value(d) < pow10(d.len()),
    decreases d.len(),
{
    if d.len() > 0 {
        assert(all_digits(d.drop_last()));
        lemma_digits_bound(d.drop_last());
        assert(is_digit(d[d.len() - 1]));
    }
}

/// `s` without one leading `'+'`.
pub open spec fn unsigned_digits(s: Seq<char>) -> Seq<char> {
    if s.len() > 0 && s[0] == '+' {
        s.drop_first()
    } else {
        s
    }
}

/// What `str::parse::<u64>` gives for `s`: an optional `'+'`, then one or more
/// ASCII digits whose value fits in 64 bits.
pub open spec fn parse_u64_spec(s: Seq<char>) -> Option<u64> {
    let d = unsigned_digits(s);
    if d.len() > 0 && all_digits(d) && digits_value(d) <= u64::MAX {
        Some(digits_value(d) as u64)
    } else {
        None
    }
}

proof fn lemma_digits_prefix(d: Seq<char>, k: int)
    requires
        all_digits(d),
        0 <= k <= d.len(),
    ensures
        0 <= digits_value(d.take(k)) <= digits_value(d),
    decreases d.len(),
{
    if d.len() > 0 {
        assert(all_digits(d.drop_last()));
        if k == d.len() {
            assert(d.take(k) =~= d);
            lemma_digits_prefix(d.drop_last(), k - 1);
            assert(d.drop_last().take(k - 1) =~= d.drop_last());
        } else {
            lemma_digits_prefix(d.drop_last(), k);
            assert(d.drop_last().take(k) =~= d.take(k));
            lemma_digits_prefix(d.drop_last(), d.len() - 1);
            assert(d.drop_last().take(d.len() - 1) =~= d.drop_last());
        }
    } else {
        assert(d.take(k) =~= d);
    }
}

/// `str::parse::<u64>` on the characters of `s`.
#[verifier::rlimit(30)]
pub fn parse_u64(s: &[char]) -> (r: Option<u64>)
    ensures
        r == parse_u64_spec(s@),
{
    let start: usize = if s.len() > 0 && s[0] == '+' {
        1
    } else {
        0
    };
    let ghost d = unsigned_digits(s@);
    assert(d =~= s@.skip(start as int));
    if start == s.len() {
        return None;
    }
    let mut v: u64 = 0;
    let mut i = start;
    assert(d.take(0) =~= Seq::<char>::empty());
    while i < s.len()
        invariant
            start <= i <= s@.len(),
            start < s@.len(),
            d == s@.skip(start as int),
            d == unsigned_digits(s@),
            all_digits(d.take(i - start)),
            v == digits_value(d.take(i - start)),
        decreases s@.len() - i,
    {
        let c = s[i];
        assert(d[i - start] == c);
        if !('0' <= c && c <= '9') {
            assert(!is_digit(d[i - start]));
            assert(!all_digits(d));
            return None;
        }
        assert(d.take(i - start + 1).drop_last() =~= d.take(i - start));
        assert(all_digits(d.take(i - start + 1)));
        let dv = ((c as u32) - ('0' as u32)) as u64;
        assert(dv == c as int - '0' as int);
        assert(d.take(i - start + 1).last() == c);
        assert(digits_value(d.take(i - start + 1)) == v * 10 + dv);
        let m = v.checked_mul(10);
        let next = match m {
            None => None,
            Some(m10) => m10.checked_add(dv),
        };
        match next {
            None => {
                proof {
                    if all_digits(d) {
                        lemma_digits_prefix(d, i - start + 1);
                    }
                }
                return None;
            },
            Some(n) => {
                v = n;
            },
        }
        i = i + 1;
    }
    assert(d.take(i - start) =~= d);
    Some(v)
}

} // verus!
