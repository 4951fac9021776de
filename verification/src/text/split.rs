//! Splitting, joining, trimming and replacing on character sequences, with
//! the meaning that `str::split`, `join`, `trim` and `replace` give them.

use vstd::prelude::*;
use crate::text::{occurs_at, find_from};

verus! {

/// The position of the first occurrence of `sep` in `t`, or -1 if none.
pub open spec fn first_occ(t: Seq<char>, sep: Seq<char>) -> int
    decreases t.len(),
{
    if t.len() < sep.len() {
        -1
    } else if t.take(sep.len() as int) == sep {
        0
    } else if t.len() == 0 {
        -1
    } else {
        let r = first_occ(t.drop_first(), sep);
        if r < 0 {
            -1
        } else {
            r + 1
        }
    }
}

/// `sep` occurs at `j` in `t` exactly when it occurs at `start + j` in `s`,
/// where `t` is `s` without its first `start` characters.
pub proof fn lemma_occurs_skip(s: Seq<char>, sep: Seq<char>, start: int, j: int)
    requires
        0 <= start <= s.len(),
        0 <= j,
    ensures
        occurs_at(s.skip(start), sep, j) == occurs_at(s, sep, start + j),
{
    if j + sep.len() <= s.len() - start {
        assert(s.skip(start).subrange(j, j + sep.len()) =~= s.subrange(start + j, start + j + sep.len()));
    }
}

/// `first_occ` is the first position where `sep` occurs, or -1 where it
/// occurs nowhere.
pub proof fn lemma_first_occ(t: Seq<char>, sep: Seq<char>)
    ensures
        first_occ(t, sep) >= -1,
        first_occ(t, sep) == -1 ==> forall|j: int| !occurs_at(t, sep, j),
        first_occ(t, sep) >= 0 ==> occurs_at(t, sep, first_occ(t, sep)),
        first_occ(t, sep) >= 0 ==> forall|j: int| 0 <= j < first_occ(t, sep) ==> !occurs_at(t, sep, j),
    decreases t.len(),
{
    if t.len() < sep.len() {
    } else if t.take(sep.len() as int) == sep {
        assert(t.subrange(0, sep.len() as int) == t.take(sep.len() as int));
    } else if t.len() == 0 {
        assert(sep.len() == 0);
        assert(t.take(0) =~= sep);
    } else {
        let u = t.drop_first();
        lemma_first_occ(u, sep);
        assert(u =~= t.skip(1));
        assert(!occurs_at(t, sep, 0)) by {
            if occurs_at(t, sep, 0) {
                assert(t.subrange(0, sep.len() as int) =~= t.take(sep.len() as int));
            }
        }
        assert forall|j: int| 0 <= j implies occurs_at(u, sep, j) == occurs_at(t, sep, 1 + j) by {
            lemma_occurs_skip(t, sep, 1, j);
        }
        if first_occ(u, sep) < 0 {
            assert forall|j: int| !occurs_at(t, sep, j) by {
                if j >= 1 {
                    assert(occurs_at(u, sep, j - 1) == occurs_at(t, sep, j));
                }
            }
        } else {
            let r = first_occ(u, sep);
            assert(occurs_at(u, sep, r) == occurs_at(t, sep, r + 1));
            assert forall|j: int| 0 <= j < r + 1 implies !occurs_at(t, sep, j) by {
                if j >= 1 {
                    assert(occurs_at(u, sep, j - 1) == occurs_at(t, sep, j));
                }
            }
        }
    }
}

/// The pieces of `t` between the occurrences of `sep`, taken from the left
/// without overlap; one piece when `sep` does not occur.
pub open spec fn split_seq(t: Seq<char>, sep: Seq<char>) -> Seq<Seq<char>>
    decreases t.len(),
{
    if sep.len() == 0 {
        seq![t]
    } else {
        let i = first_occ(t, sep);
        if i < 0 {
            seq![t]
        } else {
            proof {
                lemma_first_occ(t, sep);
            }
            seq![t.take(i)] + split_seq(t.skip(i + sep.len()), sep)
        }
    }
}

/// The pieces of `parts` with `sep` between each two.
pub open spec fn join_seq(parts: Seq<Seq<char>>, sep: Seq<char>) -> Seq<char>
    decreases parts.len(),
{
    if parts.len() == 0 {
        Seq::empty()
    } else if parts.len() == 1 {
        parts[0]
    } else {
        join_seq(parts.drop_last(), sep) + sep + parts.last()
    }
}

/// Every occurrence of `from` in `s` replaced by `to`, as `str::replace` does.
pub open spec fn replace_seq(s: Seq<char>, from: Seq<char>, to: Seq<char>) -> Seq<char> {
    join_seq(split_seq(s, from), to)
}

/// The character sequences held by a sequence of vectors.
pub open spec fn views(v: Seq<Vec<char>>) -> Seq<Seq<char>> {
    Seq::new(v.len(), |i: int| v[i]@)
}

/// The characters of `s` from `lo` up to `hi`.
pub fn slice_vec(s: &[char], lo: usize, hi: usize) -> (r: Vec<char>)
    requires
        lo <= hi <= s@.len(),
    ensures
        r@ == s@.subrange(lo as int, hi as int),
{
    let mut out: Vec<char> = Vec::new();
    let mut i = lo;
    while i < hi
        invariant
            lo <= i <= hi <= s@.len(),
            out@ == s@.subrange(lo as int, i as int),
        decreases hi - i,
    {
        out.push(s[i]);
        assert(out@ =~= s@.subrange(lo as int, i + 1));
        i = i + 1;
    }
    out
}

/// Appends the characters of `b` to `a`.
pub fn extend_chars(a: &mut Vec<char>, b: &[char])
    ensures
        final(a)@ == old(a)@ + b@,
{
    let mut i: usize = 0;
    while i < b.len()
        invariant
            0 <= i <= b@.len(),
            a@ == old(a)@ + b@.take(i as int),
        decreases b@.len() - i,
    {
        a.push(b[i]);
        assert(b@.take(i + 1) =~= b@.take(i as int).push(b@[i as int]));
        assert(a@ =~= old(a)@ + b@.take(i + 1));
        i = i + 1;
    }
    assert(b@.take(b@.len() as int) =~= b@);
}

/// The pieces of `s` between the occurrences of `sep`, as `str::split` gives
/// them.
#[verifier::rlimit(30)]
pub fn split_chars(s: &[char], sep: &[char]) -> (r: Vec<Vec<char>>)
    requires
        sep@.len() > 0,
    ensures
        views(r@) == split_seq(s@, sep@),
{
    let mut out: Vec<Vec<char>> = Vec::new();
    let mut start: usize = 0;
    assert(s@.skip(0) =~= s@);
    assert(views(out@) + split_seq(s@, sep@) =~= split_seq(s@, sep@));
    loop
        invariant
            start <= s@.len(),
            sep@.len() > 0,
            split_seq(s@, sep@) == views(out@) + split_seq(s@.skip(start as int), sep@),
        decreases s@.len() - start,
    {
        let ghost t = s@.skip(start as int);
        let ghost old_out = views(out@);
        proof {
            lemma_first_occ(t, sep@);
        }
        let f = find_from(s, sep, start);
        match f {
            None => {
                proof {
                    if first_occ(t, sep@) >= 0 {
                        lemma_occurs_skip(s@, sep@, start as int, first_occ(t, sep@));
                    }
                }
                let piece = slice_vec(s, start, s.len());
                assert(piece@ =~= t);
                out.push(piece);
                assert(views(out@) =~= old_out.push(t));
                assert(old_out + seq![t] =~= old_out.push(t));
                return out;
            },
            Some(i) => {
                assert(occurs_at(s@, sep@, i as int));
                let total = s.len();
                assert(i + sep@.len() <= total);
                let ghost r = first_occ(t, sep@);
                proof {
                    lemma_occurs_skip(s@, sep@, start as int, i - start);
                    if r >= 0 {
                        lemma_occurs_skip(s@, sep@, start as int, r);
                        if r < i - start {
                            assert(!occurs_at(s@, sep@, start + r));
                        }
                    }
                    assert(r == i - start);
                }
                let piece = slice_vec(s, start, i);
                assert(piece@ =~= t.take(r));
                assert(t.skip(r + sep@.len()) =~= s@.skip(i + sep@.len()));
                out.push(piece);
                assert(views(out@) =~= old_out.push(piece@));
                assert(old_out + (seq![t.take(r)] + split_seq(s@.skip(i + sep@.len()), sep@))
                    =~= old_out.push(piece@) + split_seq(s@.skip(i + sep@.len()), sep@));
                start = i + sep.len();
            },
        }
    }
}

/// The pieces of `parts` with `sep` between each two, as `join` gives them.
pub fn join_chars(parts: &[Vec<char>], sep: &[char]) -> (r: Vec<char>)
    ensures
        r@ == join_seq(views(parts@), sep@),
{
    let mut out: Vec<char> = Vec::new();
    let mut i: usize = 0;
    while i < parts.len()
        invariant
            0 <= i <= parts@.len(),
            out@ == join_seq(views(parts@).take(i as int), sep@),
        decreases parts@.len() - i,
    {
        let ghost before = views(parts@).take(i as int);
        let ghost after = views(parts@).take(i + 1);
        assert(after.drop_last() =~= before);
        assert(after.last() == parts@[i as int]@);
        if i > 0 {
            extend_chars(&mut out, sep);
        }
        extend_chars(&mut out, parts[i].as_slice());
        proof {
            if i == 0 {
                assert(out@ =~= after[0]);
            }
        }
        i = i + 1;
    }
    assert(views(parts@).take(parts@.len() as int) =~= views(parts@));
    out
}

/// `s` with every occurrence of `from` replaced by `to`.
pub fn replace_chars(s: &[char], from: &[char], to: &[char]) -> (r: Vec<char>)
    requires
        from@.len() > 0,
    ensures
        r@ == replace_seq(s@, from@, to@),
{
    let parts = split_chars(s, from);
    join_chars(parts.as_slice(), to)
}

/// Characters with the Unicode `White_Space` property, which `char::is_whitespace`
/// tests and `str::trim` removes.
pub open spec fn is_ws(c: char) -> bool {
    ('\u{9}' <= c && c <= '\u{d}') || c == ' ' || c == '\u{85}' || c == '\u{a0}' || c
        == '\u{1680}' || ('\u{2000}' <= c && c <= '\u{200a}') || c == '\u{2028}' || c == '\u{2029}'
        || c == '\u{202f}' || c == '\u{205f}' || c == '\u{3000}'
}

pub fn is_whitespace(c: char) -> (r: bool)
    ensures
        r == is_ws(c),
{
    ('\u{9}' <= c && c <= '\u{d}') || c == ' ' || c == '\u{85}' || c == '\u{a0}' || c
        == '\u{1680}' || ('\u{2000}' <= c && c <= '\u{200a}') || c == '\u{2028}' || c == '\u{2029}'
        || c == '\u{202f}' || c == '\u{205f}' || c == '\u{3000}'
}

/// `s` without leading whitespace.
pub open spec fn trim_start(s: Seq<char>) -> Seq<char>
    decreases s.len(),
{
    if s.len() > 0 && is_ws(s[0]) {
        trim_start(s.drop_first())
    } else {
        s
    }
}

/// `s` without trailing whitespace.
pub open spec fn trim_end(s: Seq<char>) -> Seq<char>
    decreases s.len(),
{
    if s.len() > 0 && is_ws(s.last()) {
        trim_end(s.drop_last())
    } else {
        s
    }
}

/// `s` without leading or trailing whitespace.
pub open spec fn trim(s: Seq<char>) -> Seq<char> {
    trim_end(trim_start(s))
}

/// The position of the first character of `s` that is not whitespace, or its
/// length.
pub fn trim_start_index(s: &[char]) -> (r: usize)
    ensures
        r <= s@.len(),
        trim_start(s@) == s@.skip(r as int),
{
    let mut i: usize = 0;
    assert(s@.skip(0) =~= s@);
    while i < s.len() && is_whitespace(s[i])
        invariant
            0 <= i <= s@.len(),
            trim_start(s@) == trim_start(s@.skip(i as int)),
        decreases s@.len() - i,
    {
        assert(s@.skip(i as int).drop_first() =~= s@.skip(i + 1));
        i = i + 1;
    }
    i
}

/// `s` without leading whitespace.
pub fn trim_start_chars(s: &[char]) -> (r: Vec<char>)
    ensures
        r@ == trim_start(s@),
{
    let i = trim_start_index(s);
    let r = slice_vec(s, i, s.len());
    assert(r@ =~= s@.skip(i as int));
    r
}

/// `s` without leading or trailing whitespace, as `str::trim` gives it.
pub fn trim_chars(s: &[char]) -> (r: Vec<char>)
    ensures
        r@ == trim(s@),
{
    let i = trim_start_index(s);
    let mut j = s.len();
    assert(s@.subrange(i as int, j as int) =~= s@.skip(i as int));
    while j > i && is_whitespace(s[j - 1])
        invariant
            i <= j <= s@.len(),
            trim(s@) == trim_end(s@.subrange(i as int, j as int)),
        decreases j,
    {
        assert(s@.subrange(i as int, j as int).drop_last() =~= s@.subrange(i as int, j - 1));
        j = j - 1;
    }
    slice_vec(s, i, j)
}

} // verus!
