//! Reading back an ASS script written from cues gives the same cues, their
//! times cut to the centisecond, for cue texts that ASS carries: non-empty,
//! without surrounding whitespace, carriage returns or braces, and with no
//! backslash followed by `n` or `N`.

use vstd::prelude::*;
use crate::text::{occurs_at, dec_digits, ascii_lower_seq};
use crate::text::split::{
    first_occ, lemma_first_occ, split_seq, join_seq, trim, trim_start, trim_end, replace_seq,
    is_ws,
};
use crate::text::scan::{is_digit, splitn_seq, starts_with, eq_ignore_case, lines_seq};
use crate::subtitle_merge::ass::{
    brace_depth, strip_braces, ass_text, ass_step, is_section, max3, dialogue_cue, Cols,
    apply_format, AssState, ass_run, ass_init,
};
use crate::subtitle_merge::blocks::nl;
use crate::subtitle_merge::cues::{CueSpec, ass_body, ass_line};
use crate::subtitle_merge::timestamps::{fmt_ass_ts_spec, pad2};
use crate::subtitle_merge::round_trip::{
    free_of, lemma_split_single, lemma_split_none, lemma_trim_noop, lemma_dec_digits, lemma_pad, lemma_digits_free,
};
use crate::subtitle_merge::cue_round_trip::{lemma_join_cons, lemma_split_empty, lemma_free_concat};

verus! {

/// The lines `ls`, each followed by a newline.
pub open spec fn terminated(ls: Seq<Seq<char>>) -> Seq<char>
    decreases ls.len(),
{
    if ls.len() == 0 {
        Seq::empty()
    } else {
        terminated(ls.drop_last()) + ls.last() + seq!['\n']
    }
}

/// Every one of `ls` is free of `c`.
pub open spec fn all_free(ls: Seq<Seq<char>>, c: char) -> bool {
    forall|i: int| 0 <= i < ls.len() ==> free_of(#[trigger] ls[i], c)
}

/// Terminated lines with one more line in front.
pub proof fn lemma_terminated_cons(a: Seq<char>, r: Seq<Seq<char>>)
    ensures
        terminated(seq![a] + r) == a + seq!['\n'] + terminated(r),
    decreases r.len(),
{
    let all = seq![a] + r;
    if r.len() == 0 {
        assert(all =~= seq![a]);
        assert(all.drop_last() =~= Seq::<Seq<char>>::empty());
        assert(all.last() == a);
        assert(terminated(all.drop_last()) == Seq::<char>::empty());
        assert(terminated(r) == Seq::<char>::empty());
        assert(terminated(all) =~= a + seq!['\n'] + terminated(r));
    } else {
        lemma_terminated_cons(a, r.drop_last());
        assert(all.drop_last() =~= seq![a] + r.drop_last());
        assert(all.last() == r.last());
        assert(terminated(all) =~= a + seq!['\n'] + terminated(r));
    }
}

/// Splitting terminated lines, and what follows them, at newlines gives the
/// lines back, then the pieces of what follows.
pub proof fn lemma_split_terminated(ls: Seq<Seq<char>>, y: Seq<char>)
    requires
        all_free(ls, '\n'),
    ensures
        split_seq(terminated(ls) + y, seq!['\n']) == ls + split_seq(y, seq!['\n']),
    decreases ls.len(),
{
    if ls.len() == 0 {
        assert(terminated(ls) + y =~= y);
        assert(ls + split_seq(y, seq!['\n']) =~= split_seq(y, seq!['\n']));
    } else {
        let r = ls.skip(1);
        assert(ls =~= seq![ls[0]] + r);
        lemma_terminated_cons(ls[0], r);
        assert(all_free(r, '\n')) by {
            assert forall|i: int| 0 <= i < r.len() implies free_of(#[trigger] r[i], '\n') by {
                assert(r[i] == ls[i + 1]);
            }
        }
        lemma_split_terminated(r, y);
        assert(free_of(ls[0], '\n'));
        assert(terminated(ls) + y =~= ls[0] + seq!['\n'] + (terminated(r) + y));
        lemma_split_single(ls[0], '\n', terminated(r) + y);
        assert(ls + split_seq(y, seq!['\n']) =~= seq![ls[0]] + (r + split_seq(y, seq!['\n'])));
    }
}

/// The pieces of a text free of `c`, split at any separator, are free of `c`.
pub proof fn lemma_split_free(t: Seq<char>, sep: Seq<char>, c: char)
    requires
        free_of(t, c),
    ensures
        all_free(split_seq(t, sep), c),
    decreases t.len(),
{
    if sep.len() > 0 {
        let i = first_occ(t, sep);
        lemma_first_occ(t, sep);
        if i >= 0 {
            let rest = t.skip(i + sep.len());
            assert(free_of(rest, c)) by {
                assert forall|k: int| 0 <= k < rest.len() implies #[trigger] rest[k] != c by {
                    assert(rest[k] == t[k + i + sep.len()]);
                }
            }
            assert(free_of(t.take(i), c)) by {
                assert forall|k: int| 0 <= k < t.take(i).len() implies #[trigger] t.take(i)[k]
                    != c by {
                    assert(t.take(i)[k] == t[k]);
                }
            }
            lemma_split_free(rest, sep, c);
            let all = split_seq(t, sep);
            assert(all == seq![t.take(i)] + split_seq(rest, sep));
            assert forall|k: int| 0 <= k < all.len() implies free_of(#[trigger] all[k], c) by {
                if k > 0 {
                    assert(all[k] == split_seq(rest, sep)[k - 1]);
                }
            }
        }
    }
}

/// Pieces free of `c` joined with a separator free of `c` are free of `c`.
pub proof fn lemma_join_free(pieces: Seq<Seq<char>>, sep: Seq<char>, c: char)
    requires
        all_free(pieces, c),
        free_of(sep, c),
    ensures
        free_of(join_seq(pieces, sep), c),
    decreases pieces.len(),
{
    if pieces.len() == 1 {
        assert(free_of(pieces[0], c));
    } else if pieces.len() > 1 {
        let front = pieces.drop_last();
        assert(all_free(front, c)) by {
            assert forall|i: int| 0 <= i < front.len() implies free_of(#[trigger] front[i], c) by {
                assert(front[i] == pieces[i]);
            }
        }
        lemma_join_free(front, sep, c);
        assert(free_of(pieces.last(), c)) by {
            assert(pieces.last() == pieces[pieces.len() - 1]);
        }
        crate::subtitle_merge::cue_round_trip::lemma_free_concat(join_seq(front, sep), sep, c);
        crate::subtitle_merge::cue_round_trip::lemma_free_concat(
            join_seq(front, sep) + sep,
            pieces.last(),
            c,
        );
    }
}

/// Text without braces keeps all of itself when override blocks are dropped.
pub proof fn lemma_strip_braces_noop(s: Seq<char>)
    requires
        free_of(s, '{'),
        free_of(s, '}'),
    ensures
        brace_depth(s) == 0,
        strip_braces(s) == s,
    decreases s.len(),
{
    if s.len() > 0 {
        let f = s.drop_last();
        assert(free_of(f, '{') && free_of(f, '}')) by {
            assert forall|i: int| 0 <= i < f.len() implies #[trigger] f[i] != '{' && f[i] != '}' by {
                assert(f[i] == s[i]);
            }
        }
        lemma_strip_braces_noop(f);
        assert(s.last() == s[s.len() - 1]);
        assert(f.push(s.last()) =~= s);
    }
}

/// The pieces of `t` split at `c` hold no `c`.
pub proof fn lemma_split_single_free(t: Seq<char>, c: char)
    ensures
        all_free(split_seq(t, seq![c]), c),
    decreases t.len(),
{
    let sep = seq![c];
    let i = first_occ(t, sep);
    lemma_first_occ(t, sep);
    if i < 0 {
        assert(free_of(t, c)) by {
            assert forall|k: int| 0 <= k < t.len() implies #[trigger] t[k] != c by {
                if t[k] == c {
                    assert(t.subrange(k, k + 1) =~= sep);
                    assert(occurs_at(t, sep, k));
                }
            }
        }
        assert(split_seq(t, sep) == seq![t]);
    } else {
        let rest = t.skip(i + 1);
        lemma_split_single_free(rest, c);
        let head = t.take(i);
        assert(free_of(head, c)) by {
            assert forall|k: int| 0 <= k < head.len() implies #[trigger] head[k] != c by {
                assert(head[k] == t[k]);
                if t[k] == c {
                    assert(t.subrange(k, k + 1) =~= sep);
                    assert(occurs_at(t, sep, k));
                }
            }
        }
        let all = split_seq(t, sep);
        assert(all == seq![head] + split_seq(rest, sep));
        assert forall|k: int| 0 <= k < all.len() implies free_of(#[trigger] all[k], c) by {
            if k > 0 {
                assert(all[k] == split_seq(rest, sep)[k - 1]);
            }
        }
    }
}

/// The last piece of a split ends as the text does, where the text does not
/// end as the separator does.
pub proof fn lemma_split_last(t: Seq<char>, sep: Seq<char>)
    requires
        sep.len() > 0,
        t.len() > 0,
        t.last() != sep.last(),
    ensures
        split_seq(t, sep).len() >= 1,
        split_seq(t, sep).last().len() > 0,
        split_seq(t, sep).last().last() == t.last(),
    decreases t.len(),
{
    let i = first_occ(t, sep);
    lemma_first_occ(t, sep);
    if i >= 0 {
        let rest = t.skip(i + sep.len());
        if rest.len() == 0 {
            assert(i + sep.len() == t.len());
            assert(t.subrange(i, i + sep.len()) == sep);
            assert(t.subrange(i, i + sep.len())[sep.len() - 1] == t.last());
        } else {
            assert(rest.last() == t.last());
            lemma_split_last(rest, sep);
            assert(split_seq(t, sep) == seq![t.take(i)] + split_seq(rest, sep));
            assert(split_seq(t, sep).last() == split_seq(rest, sep).last());
        }
    }
}

/// Joined pieces end as the last piece does.
pub proof fn lemma_join_last(pieces: Seq<Seq<char>>, sep: Seq<char>)
    requires
        pieces.len() >= 1,
        pieces.last().len() > 0,
    ensures
        join_seq(pieces, sep).len() > 0,
        join_seq(pieces, sep).last() == pieces.last().last(),
{
    if pieces.len() == 1 {
        assert(pieces.last() == pieces[0]);
    } else {
        let j = join_seq(pieces.drop_last(), sep) + sep + pieces.last();
        assert(j.last() == pieces.last().last());
    }
}

/// No `a` in `t` is directly followed by `b`.
pub open spec fn no_pair(t: Seq<char>, a: char, b: char) -> bool {
    forall|i: int| 0 <= i < t.len() - 1 ==> !(#[trigger] t[i] == a && t[i + 1] == b)
}

/// No `a` in any of `ls` is directly followed by `b`.
pub open spec fn all_no_pair(ls: Seq<Seq<char>>, a: char, b: char) -> bool {
    forall|i: int| 0 <= i < ls.len() ==> no_pair(#[trigger] ls[i], a, b)
}

/// A text in which `a` is never followed by `b` holds no `[a, b]`.
pub proof fn lemma_no_pair_absent(x: Seq<char>, a: char, b: char)
    requires
        no_pair(x, a, b),
    ensures
        first_occ(x, seq![a, b]) == -1,
        split_seq(x, seq![a, b]) == seq![x],
{
    let sep = seq![a, b];
    lemma_first_occ(x, sep);
    let r = first_occ(x, sep);
    if r >= 0 {
        assert(x.subrange(r, r + 2)[0] == x[r]);
        assert(x.subrange(r, r + 2)[1] == x[r + 1]);
        assert(x[r] == a && x[r + 1] == b);
    }
}

/// Where `a` differs from `b` and `x` never has `a` followed by `b`, the
/// first `[a, b]` in `x + [a, b] + y` is the one after `x`.
pub proof fn lemma_first_pair(x: Seq<char>, a: char, b: char, y: Seq<char>)
    requires
        a != b,
        no_pair(x, a, b),
    ensures
        first_occ(x + seq![a, b] + y, seq![a, b]) == x.len(),
{
    let sep = seq![a, b];
    let t = x + sep + y;
    let n = x.len() as int;
    lemma_first_occ(t, sep);
    assert(t.subrange(n, n + 2) =~= sep);
    assert(occurs_at(t, sep, n));
    let r = first_occ(t, sep);
    if r < n {
        assert(t.subrange(r, r + 2)[0] == t[r]);
        assert(t.subrange(r, r + 2)[1] == t[r + 1]);
        assert(t[r] == x[r]);
        if r + 1 < n {
            assert(t[r + 1] == x[r + 1]);
        } else {
            assert(t[r + 1] == a);
        }
    }
}

/// Splitting pieces joined with `[a, b]` at `[a, b]` gives them back, where
/// `a` differs from `b` and no piece has `a` followed by `b`.
pub proof fn lemma_split_join_pair(pieces: Seq<Seq<char>>, a: char, b: char)
    requires
        a != b,
        pieces.len() >= 1,
        all_no_pair(pieces, a, b),
    ensures
        split_seq(join_seq(pieces, seq![a, b]), seq![a, b]) == pieces,
    decreases pieces.len(),
{
    let sep = seq![a, b];
    if pieces.len() == 1 {
        assert(no_pair(pieces[0], a, b));
        lemma_no_pair_absent(pieces[0], a, b);
        assert(seq![pieces[0]] =~= pieces);
    } else {
        let r = pieces.skip(1);
        assert(pieces =~= seq![pieces[0]] + r);
        assert(all_no_pair(r, a, b)) by {
            assert forall|i: int| 0 <= i < r.len() implies no_pair(#[trigger] r[i], a, b) by {
                assert(r[i] == pieces[i + 1]);
            }
        }
        lemma_split_join_pair(r, a, b);
        lemma_join_cons(pieces[0], r, sep);
        let j = join_seq(r, sep);
        assert(no_pair(pieces[0], a, b));
        lemma_first_pair(pieces[0], a, b, j);
        let t = pieces[0] + sep + j;
        let n = pieces[0].len() as int;
        assert(t.take(n) =~= pieces[0]);
        assert(t.skip(n + 2) =~= j);
    }
}

/// The pieces of a text in which `a` is never followed by `b`, split at any
/// separator, never have `a` followed by `b` either.
pub proof fn lemma_split_no_pair(t: Seq<char>, sep: Seq<char>, a: char, b: char)
    requires
        no_pair(t, a, b),
    ensures
        all_no_pair(split_seq(t, sep), a, b),
    decreases t.len(),
{
    if sep.len() > 0 {
        let i = first_occ(t, sep);
        lemma_first_occ(t, sep);
        if i >= 0 {
            let rest = t.skip(i + sep.len());
            let head = t.take(i);
            assert(no_pair(rest, a, b)) by {
                assert forall|k: int| 0 <= k < rest.len() - 1 implies !(#[trigger] rest[k] == a
                    && rest[k + 1] == b) by {
                    assert(rest[k] == t[k + i + sep.len()]);
                    assert(rest[k + 1] == t[k + 1 + i + sep.len()]);
                }
            }
            assert(no_pair(head, a, b)) by {
                assert forall|k: int| 0 <= k < head.len() - 1 implies !(#[trigger] head[k] == a
                    && head[k + 1] == b) by {
                    assert(head[k] == t[k]);
                    assert(head[k + 1] == t[k + 1]);
                }
            }
            lemma_split_no_pair(rest, sep, a, b);
            let all = split_seq(t, sep);
            assert(all == seq![head] + split_seq(rest, sep));
            assert forall|k: int| 0 <= k < all.len() implies no_pair(#[trigger] all[k], a, b) by {
                if k > 0 {
                    assert(all[k] == split_seq(rest, sep)[k - 1]);
                }
            }
        } else {
            assert(split_seq(t, sep) == seq![t]);
            assert(seq![t][0] == t);
        }
    } else {
        assert(seq![t][0] == t);
    }
}

/// A cue text that ASS carries unchanged: not empty, beginning and ending
/// with something other than whitespace, without carriage returns or braces,
/// and with no backslash followed by `n` or `N`.
pub open spec fn ass_text_ok(t: Seq<char>) -> bool {
    &&& t.len() > 0
    &&& !is_ws(t[0])
    &&& !is_ws(t.last())
    &&& free_of(t, '\r')
    &&& free_of(t, '{')
    &&& free_of(t, '}')
    &&& no_pair(t, '\\', 'n')
    &&& no_pair(t, '\\', 'N')
}

/// `\N` as ASS writes a line break.
pub open spec fn ass_break() -> Seq<char> {
    seq!['\\', 'N']
}

/// A cue text as a `Dialogue:` line carries it: its line breaks written `\N`.
pub open spec fn ass_field(t: Seq<char>) -> Seq<char> {
    replace_seq(t, nl(), ass_break())
}

/// The text field of a written line reads back as the cue text; it holds no
/// newline or carriage return, and ends as the text does.
pub proof fn lemma_ass_field(t: Seq<char>)
    requires
        ass_text_ok(t),
    ensures
        ass_text(ass_field(t)) == t,
        free_of(ass_field(t), '\n'),
        free_of(ass_field(t), '\r'),
        ass_field(t).len() > 0,
        ass_field(t).last() == t.last(),
{
    let pieces = split_seq(t, nl());
    let r = ass_field(t);
    let b = ass_break();
    crate::subtitle_merge::blocks::lemma_split_nonempty(t, nl());
    lemma_split_no_pair(t, nl(), '\\', 'N');
    lemma_split_free(t, nl(), '{');
    lemma_split_free(t, nl(), '}');
    lemma_split_free(t, nl(), '\r');
    lemma_split_single_free(t, '\n');
    assert(nl() == seq!['\n']);
    assert(free_of(b, '{') && free_of(b, '}') && free_of(b, '\n') && free_of(b, '\r')) by {
        assert(b[0] == '\\' && b[1] == 'N');
    }
    lemma_join_free(pieces, b, '{');
    lemma_join_free(pieces, b, '}');
    lemma_join_free(pieces, b, '\n');
    lemma_join_free(pieces, b, '\r');
    lemma_strip_braces_noop(r);
    lemma_split_join_pair(pieces, '\\', 'N');
    crate::subtitle_merge::cue_round_trip::lemma_join_split(t, nl());
    assert(replace_seq(r, b, nl()) == t);
    let low = seq!['\\', 'n'];
    lemma_no_pair_absent(t, '\\', 'n');
    assert(join_seq(seq![t], nl()) == t);
    assert(replace_seq(t, low, nl()) == t);
    lemma_trim_noop(t);
    assert(t.last() != '\n');
    lemma_split_last(t, nl());
    lemma_join_last(pieces, b);
}

/// `fmt_ass_ts_spec` writes digits, `':'` and `'.'` only.
pub proof fn lemma_fmt_ass_free(ms: u64, x: char)
    requires
        !is_digit(x),
        x != ':',
        x != '.',
    ensures
        free_of(fmt_ass_ts_spec(ms), x),
        fmt_ass_ts_spec(ms).len() > 0,
{
    let e = dec_digits((ms / 3_600_000) as nat);
    let b = pad2((ms % 3_600_000) / 60_000);
    let c = pad2((ms % 60_000) / 1000);
    let f = pad2((ms % 1000) / 10);
    lemma_dec_digits((ms / 3_600_000) as nat);
    lemma_pad(((ms % 3_600_000) / 60_000) as nat, 2);
    lemma_pad(((ms % 60_000) / 1000) as nat, 2);
    lemma_pad(((ms % 1000) / 10) as nat, 2);
    lemma_digits_free(e, x);
    lemma_digits_free(b, x);
    lemma_digits_free(c, x);
    lemma_digits_free(f, x);
    let colon = seq![':'];
    let dot = seq!['.'];
    assert(free_of(colon, x)) by {
        assert(colon[0] == ':');
    }
    assert(free_of(dot, x)) by {
        assert(dot[0] == '.');
    }
    lemma_free_concat(e, colon, x);
    lemma_free_concat(e + colon, b, x);
    lemma_free_concat(e + colon + b, colon, x);
    lemma_free_concat(e + colon + b + colon, c, x);
    lemma_free_concat(e + colon + b + colon + c, dot, x);
    lemma_free_concat(e + colon + b + colon + c + dot, f, x);
    assert(fmt_ass_ts_spec(ms) =~= e + colon + b + colon + c + dot + f);
}

/// At most `n` pieces of `x + "," + y`, where `x` holds no comma: `x`, then
/// at most `n - 1` pieces of `y`.
pub proof fn lemma_splitn_single(x: Seq<char>, y: Seq<char>, n: nat)
    requires
        n >= 2,
        free_of(x, ','),
    ensures
        splitn_seq(x + seq![','] + y, seq![','], n) == seq![x] + splitn_seq(
            y,
            seq![','],
            (n - 1) as nat,
        ),
{
    let t = x + seq![','] + y;
    crate::subtitle_merge::round_trip::lemma_first_single(x, ',', y);
    assert(t.take(x.len() as int) =~= x);
    assert(t.skip((x.len() + 1) as int) =~= y);
}

/// A `Dialogue:` line as written for a cue, without its newline.
pub open spec fn ass_core(c: CueSpec) -> Seq<char> {
    "Dialogue: 0,"@ + fmt_ass_ts_spec(c.0) + seq![','] + fmt_ass_ts_spec(c.1)
        + ",Default,,0,0,0,,"@ + ass_field(c.2)
}

/// A cue as ASS gives it back: its times cut to the centisecond.
pub open spec fn ass_cue_back(c: CueSpec) -> CueSpec {
    ((c.0 - c.0 % 10) as u64, (c.1 - c.1 % 10) as u64, c.2)
}

/// The fields after `Dialogue:` in a written line.
#[verifier::rlimit(40)]
pub proof fn lemma_ass_fields(c: CueSpec)
    requires
        ass_text_ok(c.2),
    ensures
        ass_core(c).len() >= 9,
        splitn_seq(ass_core(c).skip(9), seq![','], 10) == seq![
            seq![' ', '0'],
            fmt_ass_ts_spec(c.0),
            fmt_ass_ts_spec(c.1),
            seq!['D', 'e', 'f', 'a', 'u', 'l', 't'],
            Seq::<char>::empty(),
            seq!['0'],
            seq!['0'],
            seq!['0'],
            Seq::<char>::empty(),
            ass_field(c.2),
        ],
{
    reveal_strlit("Dialogue: 0,");
    reveal_strlit(",Default,,0,0,0,,");
    let a = fmt_ass_ts_spec(c.0);
    let b = fmt_ass_ts_spec(c.1);
    let r = ass_field(c.2);
    let cm = seq![','];
    let e = Seq::<char>::empty();
    let zero = seq!['0'];
    let dflt = seq!['D', 'e', 'f', 'a', 'u', 'l', 't'];
    let lead = seq![' ', '0'];
    lemma_fmt_ass_free(c.0, ',');
    lemma_fmt_ass_free(c.1, ',');
    assert(free_of(e, ','));
    assert(free_of(zero, ',')) by {
        assert(zero[0] == '0');
    }
    assert(free_of(lead, ',')) by {
        assert(lead[0] == ' ' && lead[1] == '0');
    }
    assert(free_of(dflt, ',')) by {
        assert forall|i: int| 0 <= i < dflt.len() implies #[trigger] dflt[i] != ',' by {
        }
    }
    let y8 = e + cm + r;
    let y7 = zero + cm + y8;
    let y6 = zero + cm + y7;
    let y5 = zero + cm + y6;
    let y4 = e + cm + y5;
    let y3 = dflt + cm + y4;
    let y2 = b + cm + y3;
    let y1 = a + cm + y2;
    let y0 = lead + cm + y1;
    assert(ass_core(c).skip(9) =~= y0);
    lemma_splitn_single(e, r, 2);
    lemma_splitn_single(zero, y8, 3);
    lemma_splitn_single(zero, y7, 4);
    lemma_splitn_single(zero, y6, 5);
    lemma_splitn_single(e, y5, 6);
    lemma_splitn_single(dflt, y4, 7);
    lemma_splitn_single(b, y3, 8);
    lemma_splitn_single(a, y2, 9);
    lemma_splitn_single(lead, y1, 10);
    assert(splitn_seq(r, cm, 1) == seq![r]);
    assert(splitn_seq(y0, cm, 10) =~= seq![lead, a, b, dflt, e, zero, zero, zero, e, r]);
}

/// The columns a written script's `Format:` line names: start 1, end 2,
/// text 9.
pub open spec fn written_cols() -> Cols {
    (1, 2, 9)
}

/// Inside `[Events]` with the written columns, a written `Dialogue:` line adds
/// its cue, its times cut to the centisecond; the line holds no newline or
/// carriage return.
#[verifier::rlimit(40)]
pub proof fn lemma_ass_line_step(c: CueSpec, prev: Seq<CueSpec>)
    requires
        ass_text_ok(c.2),
    ensures
        ass_step((true, written_cols(), prev), ass_core(c)) == (
            true,
            written_cols(),
            prev.push(ass_cue_back(c)),
        ),
        free_of(ass_core(c), '\n'),
        free_of(ass_core(c), '\r'),
{
    reveal_strlit("Dialogue: 0,");
    reveal_strlit(",Default,,0,0,0,,");
    reveal_strlit("Dialogue:");
    reveal_strlit("Format:");
    let core = ass_core(c);
    let a = fmt_ass_ts_spec(c.0);
    let b = fmt_ass_ts_spec(c.1);
    let r = ass_field(c.2);
    let head = "Dialogue: 0,"@;
    let mid = ",Default,,0,0,0,,"@;
    lemma_ass_field(c.2);
    lemma_ass_fields(c);
    assert(core =~= head + a + seq![','] + b + mid + r);
    assert(core[0] == 'D');
    assert(core.last() == r.last());
    lemma_trim_noop(core);
    assert(!is_section(core));
    assert(core.take(7)[0] == 'D');
    assert(!starts_with(core, "Format:"@));
    assert(core.take(9) =~= "Dialogue:"@);
    assert(starts_with(core, "Dialogue:"@));
    assert(max3(written_cols()) == 9);
    crate::subtitle_merge::round_trip::lemma_ass_timestamp_round_trip(c.0);
    crate::subtitle_merge::round_trip::lemma_ass_timestamp_round_trip(c.1);
    let fields = splitn_seq(core.skip(9), seq![','], 10);
    assert(fields[1] == a);
    assert(fields[2] == b);
    assert(fields[9] == r);
    assert(dialogue_cue(core.skip(9), written_cols()) == Some(ass_cue_back(c)));
    assert(free_of(head, '\n') && free_of(head, '\r')) by {
        assert forall|i: int| 0 <= i < head.len() implies #[trigger] head[i] != '\n' && head[i]
            != '\r' by {
        }
    }
    assert(free_of(mid, '\n') && free_of(mid, '\r')) by {
        assert forall|i: int| 0 <= i < mid.len() implies #[trigger] mid[i] != '\n' && mid[i]
            != '\r' by {
        }
    }
    let cm = seq![','];
    assert(free_of(cm, '\n') && free_of(cm, '\r')) by {
        assert(cm[0] == ',');
    }
    lemma_fmt_ass_free(c.0, '\n');
    lemma_fmt_ass_free(c.1, '\n');
    lemma_fmt_ass_free(c.0, '\r');
    lemma_fmt_ass_free(c.1, '\r');
    lemma_free_concat(head, a, '\n');
    lemma_free_concat(head + a, cm, '\n');
    lemma_free_concat(head + a + cm, b, '\n');
    lemma_free_concat(head + a + cm + b, mid, '\n');
    lemma_free_concat(head + a + cm + b + mid, r, '\n');
    lemma_free_concat(head, a, '\r');
    lemma_free_concat(head + a, cm, '\r');
    lemma_free_concat(head + a + cm, b, '\r');
    lemma_free_concat(head + a + cm + b, mid, '\r');
    lemma_free_concat(head + a + cm + b + mid, r, '\r');
}

/// A `Format:` name leaves the written columns as they are at position `k`:
/// it names start only at 1, end only at 2 and text only at 9.
pub open spec fn name_keeps(n: Seq<char>, k: int) -> bool {
    let l = ascii_lower_seq(trim(n));
    &&& l == "start"@ ==> k == 1
    &&& l == "end"@ ==> k == 2
    &&& l == "text"@ ==> k == 9
}

/// Names that each keep the written columns at their position keep them
/// all.
pub proof fn lemma_format_keeps(names: Seq<Seq<char>>)
    requires
        forall|k: int| 0 <= k < names.len() ==> name_keeps(#[trigger] names[k], k),
    ensures
        apply_format(written_cols(), names) == written_cols(),
    decreases names.len(),
{
    if names.len() > 0 {
        let front = names.drop_last();
        assert forall|k: int| 0 <= k < front.len() implies name_keeps(#[trigger] front[k], k) by {
            assert(front[k] == names[k]);
        }
        lemma_format_keeps(front);
        assert(name_keeps(names[names.len() - 1], names.len() - 1));
        assert(names.last() == names[names.len() - 1]);
    }
}

/// A name after `", "`: trimmed, it loses the space.
pub proof fn lemma_trim_spaced(w: Seq<char>)
    requires
        w.len() > 0,
        !is_ws(w[0]),
        !is_ws(w.last()),
    ensures
        trim(seq![' '] + w) == w,
{
    let s = seq![' '] + w;
    assert(s.drop_first() =~= w);
    assert(is_ws(s[0]));
    assert(trim_start(w) == w);
    assert(trim_start(s) == w);
    lemma_trim_noop(w);
}

/// The `Format:` line of the written `[Events]` section names start, end and
/// text at the written columns.
#[verifier::rlimit(60)]
pub proof fn lemma_events_format()
    ensures
        starts_with(
            "Format: Layer, Start, End, Style, Name, MarginL, MarginR, MarginV, Effect, Text"@,
            "Format:"@,
        ),
        apply_format(
            written_cols(),
            split_seq(
                "Format: Layer, Start, End, Style, Name, MarginL, MarginR, MarginV, Effect, Text"@.skip(
                    "Format:"@.len() as int,
                ),
                seq![','],
            ),
        ) == written_cols(),
{
    reveal_strlit("Format: Layer, Start, End, Style, Name, MarginL, MarginR, MarginV, Effect, Text");
    reveal_strlit("Format:");
    reveal_strlit("start");
    reveal_strlit("end");
    reveal_strlit("text");
    let line = "Format: Layer, Start, End, Style, Name, MarginL, MarginR, MarginV, Effect, Text"@;
    assert(line.take(7) =~= "Format:"@);
    let sp = seq![' '];
    let w0 = seq!['L', 'a', 'y', 'e', 'r'];
    let w1 = seq!['S', 't', 'a', 'r', 't'];
    let w2 = seq!['E', 'n', 'd'];
    let w3 = seq!['S', 't', 'y', 'l', 'e'];
    let w4 = seq!['N', 'a', 'm', 'e'];
    let w5 = seq!['M', 'a', 'r', 'g', 'i', 'n', 'L'];
    let w6 = seq!['M', 'a', 'r', 'g', 'i', 'n', 'R'];
    let w7 = seq!['M', 'a', 'r', 'g', 'i', 'n', 'V'];
    let w8 = seq!['E', 'f', 'f', 'e', 'c', 't'];
    let w9 = seq!['T', 'e', 'x', 't'];
    let names = seq![
        sp + w0,
        sp + w1,
        sp + w2,
        sp + w3,
        sp + w4,
        sp + w5,
        sp + w6,
        sp + w7,
        sp + w8,
        sp + w9,
    ];
    let cm = seq![','];
    let y9 = sp + w9;
    let y8 = (sp + w8) + cm + y9;
    let y7 = (sp + w7) + cm + y8;
    let y6 = (sp + w6) + cm + y7;
    let y5 = (sp + w5) + cm + y6;
    let y4 = (sp + w4) + cm + y5;
    let y3 = (sp + w3) + cm + y4;
    let y2 = (sp + w2) + cm + y3;
    let y1 = (sp + w1) + cm + y2;
    let y0 = (sp + w0) + cm + y1;
    assert(line.skip(7) =~= y0);
    assert forall|k: int| 0 <= k < names.len() implies free_of(#[trigger] names[k], ',') && names[k].len() >= 2 && !is_ws(names[k][1]) && !is_ws(names[k].last()) by {
        assert forall|i: int| 0 <= i < names[k].len() implies #[trigger] names[k][i] != ',' by {
        }
    }
    lemma_split_none(y9, ',');
    assert(free_of(y9, ','));
    lemma_split_single(sp + w8, ',', y9);
    lemma_split_single(sp + w7, ',', y8);
    lemma_split_single(sp + w6, ',', y7);
    lemma_split_single(sp + w5, ',', y6);
    lemma_split_single(sp + w4, ',', y5);
    lemma_split_single(sp + w3, ',', y4);
    lemma_split_single(sp + w2, ',', y3);
    lemma_split_single(sp + w1, ',', y2);
    lemma_split_single(sp + w0, ',', y1);
    assert(split_seq(line.skip(7), cm) =~= names);
    assert forall|k: int| 0 <= k < names.len() implies name_keeps(#[trigger] names[k], k) by {
        let w = names[k].drop_first();
        assert(names[k] =~= sp + w);
        lemma_trim_spaced(w);
        let l = ascii_lower_seq(w);
        if k == 1 {
        } else if k == 2 {
        } else if k == 9 {
        } else if k == 0 || k == 3 {
            assert(l.len() == 5);
            assert(l[2] != 'a');
            assert(l != "start"@);
        } else {
            assert(l.len() != 5 || l[0] != 's');
            assert(l != "start"@);
        }
        if k != 2 {
            assert(l.len() != 3);
            assert(l != "end"@);
        }
        if k != 9 {
            assert(l.len() != 4 || l[0] != 't');
            assert(l != "text"@);
        }
    }
    lemma_format_keeps(names);
}

/// Terminated lines with one more line at the end.
pub proof fn lemma_terminated_push(ls: Seq<Seq<char>>, l: Seq<char>)
    ensures
        terminated(ls.push(l)) == terminated(ls) + l + seq!['\n'],
{
    assert(ls.push(l).drop_last() =~= ls);
    assert(ls.push(l).last() == l);
}

/// The lines of the written script header.
pub open spec fn header_lines() -> Seq<Seq<char>> {
    seq![
        "[Script Info]"@,
        "ScriptType: v4.00+"@,
        "WrapStyle: 0"@,
        "ScaledBorderAndShadow: yes"@,
        ""@,
        "[V4+ Styles]"@,
        "Format: Name, Fontname, Fontsize, PrimaryColour, SecondaryColour, OutlineColour, BackColour, Bold, Italic, Underline, StrikeOut, ScaleX, ScaleY, Spacing, Angle, BorderStyle, Outline, Shadow, Alignment, MarginL, MarginR, MarginV, Encoding"@,
        "Style: Default,Arial,48,&H00FFFFFF,&H000000FF,&H00000000,&H00000000,0,0,0,0,100,100,0,0,1,2,0,2,10,10,10,1"@,
        ""@,
        "[Events]"@,
        "Format: Layer, Start, End, Style, Name, MarginL, MarginR, MarginV, Effect, Text"@,
    ]
}

/// The written header is its lines, each followed by a newline; none holds
/// a newline or a carriage return.
#[verifier::rlimit(100)]
pub proof fn lemma_header_text()
    ensures
        crate::subtitle_merge::ASS_HEADER@ == terminated(header_lines()),
        all_free(header_lines(), '\n'),
        all_free(header_lines(), '\r'),
{
    reveal_strlit("[Script Info]\nScriptType: v4.00+\nWrapStyle: 0\nScaledBorderAndShadow: yes\n\n\
[V4+ Styles]\n\
Format: Name, Fontname, Fontsize, PrimaryColour, SecondaryColour, OutlineColour, BackColour, Bold, Italic, Underline, StrikeOut, ScaleX, ScaleY, Spacing, Angle, BorderStyle, Outline, Shadow, Alignment, MarginL, MarginR, MarginV, Encoding\n\
Style: Default,Arial,48,&H00FFFFFF,&H000000FF,&H00000000,&H00000000,0,0,0,0,100,100,0,0,1,2,0,2,10,10,10,1\n\n\
[Events]\n\
Format: Layer, Start, End, Style, Name, MarginL, MarginR, MarginV, Effect, Text\n");
    reveal_strlit("");
    reveal_strlit("[Script Info]");
    reveal_strlit("ScriptType: v4.00+");
    reveal_strlit("WrapStyle: 0");
    reveal_strlit("ScaledBorderAndShadow: yes");
    reveal_strlit("[V4+ Styles]");
    reveal_strlit("Format: Name, Fontname, Fontsize, PrimaryColour, SecondaryColour, OutlineColour, BackColour, Bold, Italic, Underline, StrikeOut, ScaleX, ScaleY, Spacing, Angle, BorderStyle, Outline, Shadow, Alignment, MarginL, MarginR, MarginV, Encoding");
    reveal_strlit("Style: Default,Arial,48,&H00FFFFFF,&H000000FF,&H00000000,&H00000000,0,0,0,0,100,100,0,0,1,2,0,2,10,10,10,1");
    reveal_strlit("[Events]");
    reveal_strlit("Format: Layer, Start, End, Style, Name, MarginL, MarginR, MarginV, Effect, Text");
    let hl = header_lines();
    let mut acc = Seq::<Seq<char>>::empty();
    assert(terminated(acc) == Seq::<char>::empty());
    lemma_terminated_push(acc, hl[0]);
    acc = acc.push(hl[0]);
    lemma_terminated_push(acc, hl[1]);
    acc = acc.push(hl[1]);
    lemma_terminated_push(acc, hl[2]);
    acc = acc.push(hl[2]);
    lemma_terminated_push(acc, hl[3]);
    acc = acc.push(hl[3]);
    lemma_terminated_push(acc, hl[4]);
    acc = acc.push(hl[4]);
    lemma_terminated_push(acc, hl[5]);
    acc = acc.push(hl[5]);
    lemma_terminated_push(acc, hl[6]);
    acc = acc.push(hl[6]);
    lemma_terminated_push(acc, hl[7]);
    acc = acc.push(hl[7]);
    lemma_terminated_push(acc, hl[8]);
    acc = acc.push(hl[8]);
    lemma_terminated_push(acc, hl[9]);
    acc = acc.push(hl[9]);
    lemma_terminated_push(acc, hl[10]);
    acc = acc.push(hl[10]);
    assert(acc =~= hl);
    assert(crate::subtitle_merge::ASS_HEADER@ =~= terminated(hl));
    assert forall|i: int| 0 <= i < hl.len() implies free_of(#[trigger] hl[i], '\n') && free_of(hl[i], '\r') by {
        assert forall|j: int| 0 <= j < hl[i].len() implies #[trigger] hl[i][j] != '\n' && hl[i][j] != '\r' by {
        }
    }
}

/// The reader, from state `st`, after the lines `lines`.
pub open spec fn ass_fold(st: AssState, lines: Seq<Seq<char>>) -> AssState
    decreases lines.len(),
{
    if lines.len() == 0 {
        st
    } else {
        ass_step(ass_fold(st, lines.drop_last()), lines.last())
    }
}

/// Reading from the start is folding from the first state.
pub proof fn lemma_run_fold(lines: Seq<Seq<char>>)
    ensures
        ass_run(lines) == ass_fold(ass_init(), lines),
    decreases lines.len(),
{
    if lines.len() > 0 {
        lemma_run_fold(lines.drop_last());
    }
}

/// Reading two runs of lines is reading the first, then the second.
pub proof fn lemma_fold_append(st: AssState, a: Seq<Seq<char>>, b: Seq<Seq<char>>)
    ensures
        ass_fold(st, a + b) == ass_fold(ass_fold(st, a), b),
    decreases b.len(),
{
    if b.len() == 0 {
        assert(a + b =~= a);
    } else {
        lemma_fold_append(st, a, b.drop_last());
        assert((a + b).drop_last() =~= a + b.drop_last());
        assert((a + b).last() == b.last());
    }
}

/// One more line is one more step.
pub proof fn lemma_fold_push(st: AssState, ls: Seq<Seq<char>>, l: Seq<char>)
    ensures
        ass_fold(st, ls.push(l)) == ass_step(ass_fold(st, ls), l),
{
    assert(ls.push(l).drop_last() =~= ls);
    assert(ls.push(l).last() == l);
}

/// After the written header the reader is inside `[Events]` with the written
/// columns and no cues.
#[verifier::rlimit(100)]
pub proof fn lemma_header_run()
    ensures
        ass_fold(ass_init(), header_lines()) == (true, written_cols(), Seq::<CueSpec>::empty()),
{
    reveal_strlit("[Script Info]");
    reveal_strlit("ScriptType: v4.00+");
    reveal_strlit("WrapStyle: 0");
    reveal_strlit("ScaledBorderAndShadow: yes");
    reveal_strlit("[V4+ Styles]");
    reveal_strlit("Format: Name, Fontname, Fontsize, PrimaryColour, SecondaryColour, OutlineColour, BackColour, Bold, Italic, Underline, StrikeOut, ScaleX, ScaleY, Spacing, Angle, BorderStyle, Outline, Shadow, Alignment, MarginL, MarginR, MarginV, Encoding");
    reveal_strlit("Style: Default,Arial,48,&H00FFFFFF,&H000000FF,&H00000000,&H00000000,0,0,0,0,100,100,0,0,1,2,0,2,10,10,10,1");
    reveal_strlit("[Events]");
    reveal_strlit("Format: Layer, Start, End, Style, Name, MarginL, MarginR, MarginV, Effect, Text");
    reveal_strlit("[Events]");
    let hl = header_lines();
    let e = Seq::<char>::empty();
    assert(trim_start(e) == e);
    assert(trim_end(e) == e);
    assert(trim(e) == e);
    assert(!is_section(e));
    lemma_trim_noop(hl[0]);
    lemma_trim_noop(hl[1]);
    lemma_trim_noop(hl[2]);
    lemma_trim_noop(hl[3]);
    lemma_trim_noop(hl[5]);
    lemma_trim_noop(hl[6]);
    lemma_trim_noop(hl[7]);
    lemma_trim_noop(hl[9]);
    lemma_trim_noop(hl[10]);
    assert(!is_section(hl[1]) && !is_section(hl[2]) && !is_section(hl[3]));
    assert(!is_section(hl[6]) && !is_section(hl[7]) && !is_section(hl[10]));
    assert(is_section(hl[0]) && is_section(hl[5]) && is_section(hl[9]));
    reveal_strlit("");
    assert(hl[4] =~= e && hl[8] =~= e);
    assert(!eq_ignore_case(hl[0], "[Events]"@));
    assert(!eq_ignore_case(hl[5], "[Events]"@));
    assert(hl[9] == "[Events]"@);
    assert(eq_ignore_case(hl[9], "[Events]"@));
    lemma_events_format();
    let init = ass_init();
    let mut acc = Seq::<Seq<char>>::empty();
    lemma_fold_push(init, acc, hl[0]);
    acc = acc.push(hl[0]);
    assert(ass_fold(init, acc) == init);
    lemma_fold_push(init, acc, hl[1]);
    acc = acc.push(hl[1]);
    assert(ass_fold(init, acc) == init);
    lemma_fold_push(init, acc, hl[2]);
    acc = acc.push(hl[2]);
    assert(ass_fold(init, acc) == init);
    lemma_fold_push(init, acc, hl[3]);
    acc = acc.push(hl[3]);
    assert(ass_fold(init, acc) == init);
    lemma_fold_push(init, acc, hl[4]);
    acc = acc.push(hl[4]);
    assert(ass_fold(init, acc) == init);
    lemma_fold_push(init, acc, hl[5]);
    acc = acc.push(hl[5]);
    assert(ass_fold(init, acc) == init);
    lemma_fold_push(init, acc, hl[6]);
    acc = acc.push(hl[6]);
    assert(ass_fold(init, acc) == init);
    lemma_fold_push(init, acc, hl[7]);
    acc = acc.push(hl[7]);
    assert(ass_fold(init, acc) == init);
    lemma_fold_push(init, acc, hl[8]);
    acc = acc.push(hl[8]);
    assert(ass_fold(init, acc) == init);
    lemma_fold_push(init, acc, hl[9]);
    acc = acc.push(hl[9]);
    lemma_fold_push(init, acc, hl[10]);
    acc = acc.push(hl[10]);
    assert(acc =~= hl);
}

/// The written `Dialogue:` lines of `cues`, without their newlines.
pub open spec fn ass_cores(cues: Seq<CueSpec>) -> Seq<Seq<char>> {
    Seq::new(cues.len(), |i: int| ass_core(cues[i]))
}

/// The cues as ASS gives them back.
pub open spec fn ass_back(cues: Seq<CueSpec>) -> Seq<CueSpec> {
    Seq::new(cues.len(), |i: int| ass_cue_back(cues[i]))
}

/// Every text of `cues` is one that ASS carries unchanged.
pub open spec fn ass_texts_ok(cues: Seq<CueSpec>) -> bool {
    forall|i: int| 0 <= i < cues.len() ==> ass_text_ok(#[trigger] cues[i].2)
}

/// The written events are the written `Dialogue:` lines, each followed by a
/// newline.
pub proof fn lemma_ass_body_lines(cues: Seq<CueSpec>)
    ensures
        ass_body(cues) == terminated(ass_cores(cues)),
    decreases cues.len(),
{
    if cues.len() > 0 {
        lemma_ass_body_lines(cues.drop_last());
        assert(ass_cores(cues).drop_last() =~= ass_cores(cues.drop_last()));
        assert(ass_cores(cues).last() == ass_core(cues.last()));
        assert(ass_line(cues.last()) =~= ass_core(cues.last()) + seq!['\n']);
        assert(nl() == seq!['\n']);
    }
}

/// Inside `[Events]` with the written columns, the written lines add their
/// cues; none holds a newline or carriage return.
pub proof fn lemma_cores_fold(prev: Seq<CueSpec>, cues: Seq<CueSpec>)
    requires
        ass_texts_ok(cues),
    ensures
        ass_fold((true, written_cols(), prev), ass_cores(cues)) == (
            true,
            written_cols(),
            prev + ass_back(cues),
        ),
        all_free(ass_cores(cues), '\n'),
        all_free(ass_cores(cues), '\r'),
    decreases cues.len(),
{
    let st = (true, written_cols(), prev);
    if cues.len() == 0 {
        assert(prev + ass_back(cues) =~= prev);
    } else {
        let front = cues.drop_last();
        assert(ass_texts_ok(front)) by {
            assert forall|i: int| 0 <= i < front.len() implies ass_text_ok(#[trigger] front[i].2) by {
                assert(front[i] == cues[i]);
            }
        }
        lemma_cores_fold(prev, front);
        let c = cues.last();
        assert(c == cues[cues.len() - 1]);
        assert(ass_text_ok(c.2));
        lemma_ass_line_step(c, prev + ass_back(front));
        assert(ass_cores(cues).drop_last() =~= ass_cores(front));
        assert(ass_cores(cues).last() == ass_core(c));
        assert((prev + ass_back(front)).push(ass_cue_back(c)) =~= prev + ass_back(cues));
        let cs = ass_cores(cues);
        assert forall|i: int| 0 <= i < cs.len() implies free_of(#[trigger] cs[i], '\n') && free_of(cs[i], '\r') by {
            if i < cs.len() - 1 {
                assert(cs[i] == ass_cores(front)[i]);
            }
        }
    }
}

/// Terminated lines free of a character other than the newline are free of
/// it.
pub proof fn lemma_terminated_free(ls: Seq<Seq<char>>, c: char)
    requires
        all_free(ls, c),
        c != '\n',
    ensures
        free_of(terminated(ls), c),
    decreases ls.len(),
{
    if ls.len() > 0 {
        let front = ls.drop_last();
        assert(all_free(front, c)) by {
            assert forall|i: int| 0 <= i < front.len() implies free_of(#[trigger] front[i], c) by {
                assert(front[i] == ls[i]);
            }
        }
        lemma_terminated_free(front, c);
        assert(free_of(ls.last(), c)) by {
            assert(ls.last() == ls[ls.len() - 1]);
        }
        let n = seq!['\n'];
        assert(free_of(n, c)) by {
            assert(n[0] == '\n');
        }
        lemma_free_concat(terminated(front), ls.last(), c);
        lemma_free_concat(terminated(front) + ls.last(), n, c);
    }
}

/// Reading back an ASS script written from cues gives the same cues, their
/// times cut to the centisecond, where each cue text is one that ASS carries
/// unchanged; cues whose times are whole centiseconds come back exactly.
#[verifier::rlimit(60)]
pub proof fn lemma_ass_cues_round_trip(cues: Seq<CueSpec>)
    requires
        ass_texts_ok(cues),
    ensures
        crate::subtitle_merge::parse_cues_spec(crate::subtitle_merge::ASS_HEADER@ + ass_body(cues))
            == ass_back(cues),
        (forall|i: int| 0 <= i < cues.len() ==> (#[trigger] cues[i]).0 % 10 == 0 && cues[i].1 % 10 == 0)
            ==> crate::subtitle_merge::parse_cues_spec(
            crate::subtitle_merge::ASS_HEADER@ + ass_body(cues),
        ) == cues,
{
    lemma_ass_back_exact(cues);
    lemma_ass_round_trip_back(cues);
}

/// Cues whose times are whole centiseconds are given back unchanged.
pub proof fn lemma_ass_back_exact(cues: Seq<CueSpec>)
    ensures
        (forall|i: int| 0 <= i < cues.len() ==> (#[trigger] cues[i]).0 % 10 == 0 && cues[i].1 % 10 == 0)
            ==> ass_back(cues) == cues,
{
    if forall|i: int| 0 <= i < cues.len() ==> (#[trigger] cues[i]).0 % 10 == 0 && cues[i].1 % 10 == 0 {
        assert forall|i: int| 0 <= i < cues.len() implies ass_back(cues)[i] == cues[i] by {
            assert(cues[i].0 % 10 == 0 && cues[i].1 % 10 == 0);
        }
        assert(ass_back(cues) =~= cues);
    }
}

#[verifier::rlimit(60)]
proof fn lemma_ass_round_trip_back(cues: Seq<CueSpec>)
    requires
        ass_texts_ok(cues),
    ensures
        crate::subtitle_merge::parse_cues_spec(crate::subtitle_merge::ASS_HEADER@ + ass_body(cues))
            == ass_back(cues),
{
    let hl = header_lines();
    let cs = ass_cores(cues);
    let head = crate::subtitle_merge::ASS_HEADER@;
    let body = ass_body(cues);
    let content = head + body;
    lemma_header_text();
    lemma_ass_body_lines(cues);
    lemma_cores_fold(Seq::empty(), cues);
    reveal_strlit("[Script Info]\nScriptType: v4.00+\nWrapStyle: 0\nScaledBorderAndShadow: yes\n\n\
[V4+ Styles]\n\
Format: Name, Fontname, Fontsize, PrimaryColour, SecondaryColour, OutlineColour, BackColour, Bold, Italic, Underline, StrikeOut, ScaleX, ScaleY, Spacing, Angle, BorderStyle, Outline, Shadow, Alignment, MarginL, MarginR, MarginV, Encoding\n\
Style: Default,Arial,48,&H00FFFFFF,&H000000FF,&H00000000,&H00000000,0,0,0,0,100,100,0,0,1,2,0,2,10,10,10,1\n\n\
[Events]\n\
Format: Layer, Start, End, Style, Name, MarginL, MarginR, MarginV, Effect, Text\n");
    reveal_strlit("[Events]");
    assert(content.subrange(433, 441) =~= "[Events]"@);
    assert(occurs_at(content, "[Events]"@, 433));
    assert(crate::subtitle_merge::looks_like_ass(content));
    lemma_terminated_free(hl, '\r');
    lemma_terminated_free(cs, '\r');
    lemma_free_concat(head, body, '\r');
    crate::subtitle_merge::cue_round_trip::lemma_without_cr_noop(content);
    let e = Seq::<char>::empty();
    lemma_split_terminated(cs, e);
    assert(terminated(cs) + e =~= terminated(cs));
    lemma_split_empty(seq!['\n']);
    lemma_split_terminated(hl, body);
    let parts = split_seq(content, seq!['\n']);
    assert(parts == hl + (cs + seq![e]));
    assert(parts.last() == e);
    assert(parts.drop_last() =~= hl + cs);
    assert(lines_seq(content) == hl + cs);
    lemma_run_fold(hl + cs);
    lemma_fold_append(ass_init(), hl, cs);
    lemma_header_run();
    assert(Seq::<CueSpec>::empty() + ass_back(cues) =~= ass_back(cues));
}

} // verus!
