//! Reading back an SRT text written from cues gives the same cues, for cue
//! texts that SRT can carry: non-empty, without surrounding whitespace,
//! carriage returns or blank lines, and naming neither `[Events]` nor
//! `Dialogue:`.

use vstd::prelude::*;
use crate::text::{occurs_at, seq_contains, dec_digits};
use crate::text::split::{
    first_occ, lemma_first_occ, split_seq, join_seq, trim, trim_start, trim_end, is_ws,
};
use crate::text::scan::{is_digit, all_digits, split_once, word_len};
use crate::subtitle_merge::blocks::{
    without_cr, nl, blank_line, arrow, block_lines, block_parts, first_arrow, first_arrow_from,
};
use crate::subtitle_merge::round_trip::{
    free_of, lemma_dec_digits, lemma_split_single, lemma_trim_noop, lemma_pad,
    lemma_srt_timestamp_round_trip,
};
use crate::subtitle_merge::timestamps::{fmt_ts_spec, parse_ts_spec, pad2};
use crate::subtitle_merge::cues::{
    CueSpec, cue_of_part, cues_of, end_field, srt_arrow, srt_body, srt_entry,
};

verus! {

/// Joining a list with one more piece in front puts that piece and a
/// separator in front.
pub proof fn lemma_join_cons(first: Seq<char>, rest: Seq<Seq<char>>, sep: Seq<char>)
    requires
        rest.len() > 0,
    ensures
        join_seq(seq![first] + rest, sep) == first + sep + join_seq(rest, sep),
    decreases rest.len(),
{
    let all = seq![first] + rest;
    if rest.len() == 1 {
        assert(all.drop_last() =~= seq![first]);
        assert(all.last() == rest[0]);
        assert(join_seq(seq![first], sep) == first);
        assert(join_seq(rest, sep) == rest[0]);
    } else {
        assert(all.drop_last() =~= seq![first] + rest.drop_last());
        assert(all.last() == rest.last());
        lemma_join_cons(first, rest.drop_last(), sep);
        assert(join_seq(rest, sep) == join_seq(rest.drop_last(), sep) + sep + rest.last());
        assert(join_seq(all, sep) =~= first + sep + join_seq(rest, sep));
    }
}

/// Joining the pieces of a split with the same separator gives the text back.
pub proof fn lemma_join_split(t: Seq<char>, sep: Seq<char>)
    requires
        sep.len() > 0,
    ensures
        join_seq(split_seq(t, sep), sep) == t,
    decreases t.len(),
{
    let i = first_occ(t, sep);
    lemma_first_occ(t, sep);
    if i >= 0 {
        let rest = t.skip(i + sep.len());
        lemma_join_split(rest, sep);
        crate::subtitle_merge::blocks::lemma_split_nonempty(rest, sep);
        lemma_join_cons(t.take(i), split_seq(rest, sep), sep);
        assert(t.subrange(i, i + sep.len()) == sep);
        assert(t =~= t.take(i) + sep + rest);
    }
}

/// `s` holds no two newlines in a row.
pub open spec fn no_blank(s: Seq<char>) -> bool {
    forall|i: int| 0 <= i < s.len() - 1 ==> !(#[trigger] s[i] == '\n' && s[i + 1] == '\n')
}

/// Where `x` holds no blank line and does not end with a newline, the first
/// blank line of `x + "\n\n" + y` is the one after `x`, and splitting there
/// cuts `x` off.
pub proof fn lemma_split_blank(x: Seq<char>, y: Seq<char>)
    requires
        no_blank(x),
        x.len() == 0 || x.last() != '\n',
    ensures
        split_seq(x + blank_line() + y, blank_line()) == seq![x] + split_seq(y, blank_line()),
{
    let t = x + blank_line() + y;
    let n = x.len() as int;
    lemma_first_occ(t, blank_line());
    assert(t.subrange(n, n + 2) =~= blank_line());
    assert(occurs_at(t, blank_line(), n));
    let r = first_occ(t, blank_line());
    if r < n {
        assert(t.subrange(r, r + 2)[0] == t[r]);
        assert(t.subrange(r, r + 2)[1] == t[r + 1]);
        if r < n - 1 {
            assert(t[r] == x[r] && t[r + 1] == x[r + 1]);
        } else {
            assert(t[r] == x[r]);
            assert(x.last() == x[r]);
        }
    }
    assert(r == n);
    assert(t.take(n) =~= x);
    assert(t.skip(n + 2) =~= y);
}

/// Splitting the empty text gives one empty piece.
pub proof fn lemma_split_empty(sep: Seq<char>)
    requires
        sep.len() > 0,
    ensures
        split_seq(Seq::empty(), sep) == seq![Seq::<char>::empty()],
{
    lemma_first_occ(Seq::empty(), sep);
    let r = first_occ(Seq::<char>::empty(), sep);
    if r >= 0 {
        assert(occurs_at(Seq::<char>::empty(), sep, r));
    }
}

/// A text without `'\r'` is its own `without_cr`.
pub proof fn lemma_without_cr_noop(s: Seq<char>)
    requires
        free_of(s, '\r'),
    ensures
        without_cr(s) == s,
    decreases s.len(),
{
    if s.len() > 0 {
        assert(free_of(s.drop_last(), '\r')) by {
            assert forall|i: int| 0 <= i < s.drop_last().len() implies #[trigger] s.drop_last()[i]
                != '\r' by {
                assert(s.drop_last()[i] == s[i]);
            }
        }
        lemma_without_cr_noop(s.drop_last());
        assert(s.last() == s[s.len() - 1]);
        assert(s.drop_last().push(s.last()) =~= s);
    }
}

/// A character that a text is free of is missing from a concatenation of
/// such texts.
pub proof fn lemma_free_concat(a: Seq<char>, b: Seq<char>, c: char)
    requires
        free_of(a, c),
        free_of(b, c),
    ensures
        free_of(a + b, c),
{
    assert forall|i: int| 0 <= i < (a + b).len() implies #[trigger] (a + b)[i] != c by {
        if i < a.len() {
            assert((a + b)[i] == a[i]);
        } else {
            assert((a + b)[i] == b[i - a.len()]);
        }
    }
}

/// A timestamp character: a digit, `':'` or `','`.
pub open spec fn ts_char(c: char) -> bool {
    is_digit(c) || c == ':' || c == ','
}

pub open spec fn all_ts_chars(s: Seq<char>) -> bool {
    forall|i: int| 0 <= i < s.len() ==> ts_char(#[trigger] s[i])
}

proof fn lemma_ts_chars_concat(a: Seq<char>, b: Seq<char>)
    requires
        all_ts_chars(a),
        all_ts_chars(b),
    ensures
        all_ts_chars(a + b),
{
    assert forall|i: int| 0 <= i < (a + b).len() implies ts_char(#[trigger] (a + b)[i]) by {
        if i < a.len() {
            assert((a + b)[i] == a[i]);
        } else {
            assert((a + b)[i] == b[i - a.len()]);
        }
    }
}

proof fn lemma_digits_ts(s: Seq<char>)
    requires
        all_digits(s),
    ensures
        all_ts_chars(s),
{
    assert forall|i: int| 0 <= i < s.len() implies ts_char(#[trigger] s[i]) by {
        assert(is_digit(s[i]));
    }
}

/// A written SRT timestamp: timestamp characters, beginning and ending with a
/// digit.
pub proof fn lemma_fmt_ts_chars(ms: u64)
    ensures
        fmt_ts_spec(ms).len() >= 1,
        all_ts_chars(fmt_ts_spec(ms)),
        is_digit(fmt_ts_spec(ms)[0]),
        is_digit(fmt_ts_spec(ms).last()),
{
    let a = pad2(ms / 3_600_000);
    let b = pad2((ms % 3_600_000) / 60_000);
    let c = pad2((ms % 60_000) / 1000);
    let d = crate::text::zero_pad(dec_digits((ms % 1000) as nat), 3);
    lemma_pad((ms / 3_600_000) as nat, 2);
    lemma_pad(((ms % 3_600_000) / 60_000) as nat, 2);
    lemma_pad(((ms % 60_000) / 1000) as nat, 2);
    lemma_pad((ms % 1000) as nat, 3);
    lemma_digits_ts(a);
    lemma_digits_ts(b);
    lemma_digits_ts(c);
    lemma_digits_ts(d);
    let colon = seq![':'];
    let comma = seq![','];
    assert(all_ts_chars(colon)) by {
        assert(colon[0] == ':');
    }
    assert(all_ts_chars(comma)) by {
        assert(comma[0] == ',');
    }
    lemma_ts_chars_concat(a, colon);
    lemma_ts_chars_concat(a + colon, b);
    lemma_ts_chars_concat(a + colon + b, colon);
    lemma_ts_chars_concat(a + colon + b + colon, c);
    lemma_ts_chars_concat(a + colon + b + colon + c, comma);
    lemma_ts_chars_concat(a + colon + b + colon + c + comma, d);
    let f = fmt_ts_spec(ms);
    assert(f =~= a + colon + b + colon + c + comma + d);
    assert(f[0] == a[0]);
    assert(f.last() == d[d.len() - 1]);
    assert(is_digit(a[0]));
    assert(is_digit(d[d.len() - 1]));
}


/// A text made of timestamp characters holds no character outside them.
pub proof fn lemma_ts_free(s: Seq<char>, c: char)
    requires
        all_ts_chars(s),
        !ts_char(c),
    ensures
        free_of(s, c),
{
    assert forall|i: int| 0 <= i < s.len() implies #[trigger] s[i] != c by {
        assert(ts_char(s[i]));
    }
}

/// A text without newlines holds no blank line.
pub proof fn lemma_no_nl_no_blank(s: Seq<char>)
    requires
        free_of(s, '\n'),
    ensures
        no_blank(s),
{
    assert forall|i: int| 0 <= i < s.len() - 1 implies !(#[trigger] s[i] == '\n' && s[i + 1]
        == '\n') by {
        assert(s[i] != '\n');
    }
}

/// Two texts without blank lines make one without, unless the first ends
/// with a newline and the second begins with one.
pub proof fn lemma_no_blank_concat(a: Seq<char>, b: Seq<char>)
    requires
        no_blank(a),
        no_blank(b),
        a.len() == 0 || b.len() == 0 || !(a.last() == '\n' && b[0] == '\n'),
    ensures
        no_blank(a + b),
{
    let s = a + b;
    assert forall|i: int| 0 <= i < s.len() - 1 implies !(#[trigger] s[i] == '\n' && s[i + 1]
        == '\n') by {
        if i + 1 < a.len() {
            assert(s[i] == a[i] && s[i + 1] == a[i + 1]);
        } else if i + 1 == a.len() {
            assert(s[i] == a.last());
            assert(s[i + 1] == b[0]);
        } else {
            assert(s[i] == b[i - a.len()] && s[i + 1] == b[i + 1 - a.len()]);
        }
    }
}

/// A text without whitespace is one word.
pub proof fn lemma_word_len_all(t: Seq<char>)
    requires
        forall|i: int| 0 <= i < t.len() ==> !is_ws(#[trigger] t[i]),
    ensures
        word_len(t) == t.len(),
    decreases t.len(),
{
    if t.len() > 0 {
        assert(!is_ws(t[0]));
        let u = t.drop_first();
        assert forall|i: int| 0 <= i < u.len() implies !is_ws(#[trigger] u[i]) by {
            assert(u[i] == t[i + 1]);
        }
        lemma_word_len_all(u);
    }
}

/// Timestamp characters are not whitespace.
pub proof fn lemma_ts_not_ws(s: Seq<char>)
    requires
        all_ts_chars(s),
    ensures
        forall|i: int| 0 <= i < s.len() ==> !is_ws(#[trigger] s[i]),
{
    assert forall|i: int| 0 <= i < s.len() implies !is_ws(#[trigger] s[i]) by {
        assert(ts_char(s[i]));
    }
}

/// The timing line of an SRT entry.
pub open spec fn srt_timing(c: CueSpec) -> Seq<char> {
    fmt_ts_spec(c.0) + srt_arrow() + fmt_ts_spec(c.1)
}

/// The timing line holds neither a newline nor a carriage return, and begins
/// and ends with a digit.
pub proof fn lemma_timing_chars(c: CueSpec)
    ensures
        free_of(srt_timing(c), '\n'),
        free_of(srt_timing(c), '\r'),
        srt_timing(c).len() >= 1,
        is_digit(srt_timing(c)[0]),
        is_digit(srt_timing(c).last()),
{
    let f1 = fmt_ts_spec(c.0);
    let f2 = fmt_ts_spec(c.1);
    let a = srt_arrow();
    lemma_fmt_ts_chars(c.0);
    lemma_fmt_ts_chars(c.1);
    lemma_ts_free(f1, '\n');
    lemma_ts_free(f2, '\n');
    lemma_ts_free(f1, '\r');
    lemma_ts_free(f2, '\r');
    assert(free_of(a, '\n') && free_of(a, '\r')) by {
        assert forall|i: int| 0 <= i < a.len() implies #[trigger] a[i] != '\n' && a[i] != '\r' by {
            assert(a[i] == ' ' || a[i] == '-' || a[i] == '>');
        }
    }
    lemma_free_concat(f1, a, '\n');
    lemma_free_concat(f1 + a, f2, '\n');
    lemma_free_concat(f1, a, '\r');
    lemma_free_concat(f1 + a, f2, '\r');
    let t = srt_timing(c);
    assert(t[0] == f1[0]);
    assert(t.last() == f2[f2.len() - 1]);
}

/// The timing line splits at its `-->` into the start timestamp and a space,
/// and a space and the end timestamp.
pub proof fn lemma_timing_split(c: CueSpec)
    ensures
        seq_contains(srt_timing(c), arrow()),
        split_once(srt_timing(c), arrow()) == Some(
            (fmt_ts_spec(c.0) + seq![' '], seq![' '] + fmt_ts_spec(c.1)),
        ),
{
    let f1 = fmt_ts_spec(c.0);
    let f2 = fmt_ts_spec(c.1);
    let t = srt_timing(c);
    let left = f1 + seq![' '];
    let right = seq![' '] + f2;
    let n = left.len() as int;
    assert(t =~= left + arrow() + right);
    lemma_fmt_ts_chars(c.0);
    lemma_first_occ(t, arrow());
    assert(t.subrange(n, n + 3) =~= arrow());
    assert(occurs_at(t, arrow(), n));
    let r = first_occ(t, arrow());
    if r < n {
        assert(t.subrange(r, r + 3)[0] == t[r]);
        if r < f1.len() {
            assert(t[r] == f1[r]);
            assert(ts_char(f1[r]));
        } else {
            assert(t[r] == ' ');
        }
    }
    assert(r == n);
    assert(t.take(n) =~= left);
    assert(t.skip(n + 3) =~= right);
}

/// Both timestamps of the timing line read back.
pub proof fn lemma_timing_reads(c: CueSpec)
    ensures
        parse_ts_spec(fmt_ts_spec(c.0) + seq![' ']) == Some(c.0),
        parse_ts_spec(end_field(seq![' '] + fmt_ts_spec(c.1))) == Some(c.1),
{
    let f1 = fmt_ts_spec(c.0);
    let f2 = fmt_ts_spec(c.1);
    lemma_fmt_ts_chars(c.0);
    lemma_fmt_ts_chars(c.1);
    lemma_srt_timestamp_round_trip(c.0);
    lemma_srt_timestamp_round_trip(c.1);
    crate::subtitle_merge::round_trip::lemma_digit_not_ws(f1[0]);
    crate::subtitle_merge::round_trip::lemma_digit_not_ws(f1.last());
    crate::subtitle_merge::round_trip::lemma_digit_not_ws(f2[0]);
    crate::subtitle_merge::round_trip::lemma_digit_not_ws(f2.last());
    lemma_trim_noop(f1);
    let l = f1 + seq![' '];
    assert(l[0] == f1[0]);
    assert(trim_start(l) == l);
    assert(l.drop_last() =~= f1);
    assert(is_ws(l.last()));
    assert(trim_end(l) == trim_end(f1));
    assert(trim_start(f1) == f1);
    assert(trim(l) == trim(f1));
    let r = seq![' '] + f2;
    assert(r.drop_first() =~= f2);
    assert(trim_start(f2) == f2);
    assert(trim_start(r) == f2);
    lemma_ts_not_ws(f2);
    lemma_word_len_all(f2);
    assert(f2.take(f2.len() as int) =~= f2);
    assert(end_field(r) == f2);
}

/// A cue text that SRT carries unchanged: not empty, beginning and ending
/// with something other than whitespace, without carriage returns and
/// without blank lines, and naming neither `[Events]` nor `Dialogue:` (which
/// would have the text read as ASS).
pub open spec fn srt_text_ok(t: Seq<char>) -> bool {
    &&& t.len() > 0
    &&& !is_ws(t[0])
    &&& !is_ws(t.last())
    &&& free_of(t, '\r')
    &&& no_blank(t)
    &&& !seq_contains(t, "[Events]"@)
    &&& !seq_contains(t, "Dialogue:"@)
}

/// Entry `i` of an SRT text without the blank line that ends it.
pub open spec fn srt_core(i: int, c: CueSpec) -> Seq<char> {
    dec_digits((i + 1) as nat) + nl() + srt_timing(c) + nl() + c.2
}

/// An entry is its core and a blank line; the core holds no blank line or
/// carriage return, and does not end with a newline.
pub proof fn lemma_core_shape(i: int, c: CueSpec)
    requires
        i >= 0,
        srt_text_ok(c.2),
    ensures
        srt_entry(i, c) == srt_core(i, c) + blank_line(),
        no_blank(srt_core(i, c)),
        srt_core(i, c).last() != '\n',
        free_of(srt_core(i, c), '\r'),
{
    let d = dec_digits((i + 1) as nat);
    let tm = srt_timing(c);
    let t = c.2;
    assert(srt_entry(i, c) =~= srt_core(i, c) + blank_line());
    lemma_dec_digits((i + 1) as nat);
    lemma_timing_chars(c);
    crate::subtitle_merge::round_trip::lemma_digits_free(d, '\n');
    crate::subtitle_merge::round_trip::lemma_digits_free(d, '\r');
    let n = nl();
    assert(free_of(n, '\r')) by {
        assert(n[0] == '\n');
    }
    assert(no_blank(n));
    lemma_no_nl_no_blank(d);
    lemma_no_nl_no_blank(tm);
    lemma_no_blank_concat(d, n);
    assert((d + n).last() == '\n');
    lemma_no_blank_concat(d + n, tm);
    assert((d + n + tm).last() == tm.last());
    lemma_no_blank_concat(d + n + tm, n);
    assert((d + n + tm + n).last() == '\n');
    assert(t[0] != '\n');
    lemma_no_blank_concat(d + n + tm + n, t);
    let core = srt_core(i, c);
    assert(core.last() == t.last());
    lemma_free_concat(d, n, '\r');
    lemma_free_concat(d + n, tm, '\r');
    lemma_free_concat(d + n + tm, n, '\r');
    lemma_free_concat(d + n + tm + n, t, '\r');
}

/// The lines of an entry's core: its number, its timing line, then the
/// lines of its text.
pub proof fn lemma_core_lines(i: int, c: CueSpec)
    requires
        i >= 0,
        srt_text_ok(c.2),
    ensures
        block_lines(srt_core(i, c)) == seq![dec_digits((i + 1) as nat), srt_timing(c)]
            + split_seq(c.2, nl()),
{
    let d = dec_digits((i + 1) as nat);
    let tm = srt_timing(c);
    let t = c.2;
    let core = srt_core(i, c);
    lemma_dec_digits((i + 1) as nat);
    lemma_timing_chars(c);
    assert(is_digit(d[0]));
    assert(core[0] == d[0]);
    assert(core.last() == t.last());
    crate::subtitle_merge::round_trip::lemma_digit_not_ws(d[0]);
    lemma_trim_noop(core);
    crate::subtitle_merge::round_trip::lemma_digits_free(d, '\n');
    assert(core =~= d + seq!['\n'] + (tm + seq!['\n'] + t));
    lemma_split_single(d, '\n', tm + seq!['\n'] + t);
    lemma_split_single(tm, '\n', t);
    assert(nl() == seq!['\n']);
}

/// The first line of an entry's core that holds `-->` is its timing line.
pub proof fn lemma_core_arrow(i: int, c: CueSpec, rest: Seq<Seq<char>>)
    requires
        i >= 0,
    ensures
        first_arrow(seq![dec_digits((i + 1) as nat), srt_timing(c)] + rest) == 1,
{
    let d = dec_digits((i + 1) as nat);
    lemma_dec_digits((i + 1) as nat);
    lemma_timing_split(c);
    assert(!seq_contains(d, arrow())) by {
        if seq_contains(d, arrow()) {
            let k = choose|k: int| occurs_at(d, arrow(), k);
            assert(d.subrange(k, k + 3)[0] == d[k]);
            assert(is_digit(d[k]));
        }
    }
    let l = seq![d, srt_timing(c)] + rest;
    assert(l[0] == d);
    assert(l[1] == srt_timing(c));
    assert(first_arrow_from(l, 1) == 1);
    assert(first_arrow_from(l, 0) == first_arrow_from(l, 1));
}

/// The core of an entry reads back as its cue.
pub proof fn lemma_core_cue(i: int, c: CueSpec)
    requires
        i >= 0,
        srt_text_ok(c.2),
    ensures
        cue_of_part(srt_core(i, c)) == Some(c),
{
    let t = c.2;
    let pieces = split_seq(t, nl());
    let l = block_lines(srt_core(i, c));
    lemma_core_lines(i, c);
    lemma_core_arrow(i, c, pieces);
    assert(first_arrow(l) == 1);
    assert(l[1] == srt_timing(c));
    lemma_timing_split(c);
    lemma_timing_reads(c);
    assert(l.skip(2) =~= pieces);
    lemma_join_split(t, nl());
    lemma_trim_noop(t);
    assert(trim(join_seq(l.skip(2), nl())) == t);
}

/// An empty block holds no cue.
pub proof fn lemma_empty_part()
    ensures
        cue_of_part(Seq::empty()) is None,
{
    let e = Seq::<char>::empty();
    assert(trim_start(e) == e);
    assert(trim_end(e) == e);
    lemma_split_empty(nl());
    let l = block_lines(e);
    assert(l == seq![e]);
    assert(!seq_contains(e, arrow())) by {
        if seq_contains(e, arrow()) {
            let k = choose|k: int| occurs_at(e, arrow(), k);
        }
    }
    assert(first_arrow_from(l, 1) == -1);
    assert(first_arrow(l) == -1);
}

/// The SRT entries of `cues` from the `k`-th on.
pub open spec fn srt_from(cues: Seq<CueSpec>, k: int) -> Seq<char>
    decreases cues.len() - k,
{
    if k < 0 || k >= cues.len() {
        Seq::empty()
    } else {
        srt_entry(k, cues[k]) + srt_from(cues, k + 1)
    }
}

/// The cores of the entries of `cues`.
pub open spec fn srt_cores(cues: Seq<CueSpec>) -> Seq<Seq<char>> {
    Seq::new(cues.len(), |i: int| srt_core(i, cues[i]))
}

/// Every text of `cues` is one that SRT carries unchanged.
pub open spec fn srt_texts_ok(cues: Seq<CueSpec>) -> bool {
    forall|i: int| 0 <= i < cues.len() ==> srt_text_ok(#[trigger] cues[i].2)
}

/// The entries before `m` and those from `m` on make the whole text.
pub proof fn lemma_body_from(cues: Seq<CueSpec>, m: int)
    requires
        0 <= m <= cues.len(),
    ensures
        srt_body(cues.take(m)) + srt_from(cues, m) == srt_from(cues, 0),
    decreases m,
{
    if m == 0 {
        assert(srt_body(cues.take(0)) == Seq::<char>::empty());
        assert(Seq::<char>::empty() + srt_from(cues, 0) =~= srt_from(cues, 0));
    } else {
        lemma_body_from(cues, m - 1);
        let tm = cues.take(m);
        assert(tm.drop_last() =~= cues.take(m - 1));
        assert(tm.last() == cues[m - 1]);
        assert(srt_body(tm) == srt_body(cues.take(m - 1)) + srt_entry(m - 1, cues[m - 1]));
        assert(srt_from(cues, m - 1) == srt_entry(m - 1, cues[m - 1]) + srt_from(cues, m));
        assert(srt_body(tm) + srt_from(cues, m) =~= srt_body(cues.take(m - 1)) + srt_from(
            cues,
            m - 1,
        ));
    }
}

/// The entries from `k` on split at blank lines into their cores and one
/// empty piece, and hold no carriage return.
pub proof fn lemma_split_from(cues: Seq<CueSpec>, k: int)
    requires
        0 <= k <= cues.len(),
        srt_texts_ok(cues),
    ensures
        split_seq(srt_from(cues, k), blank_line()) == srt_cores(cues).subrange(
            k,
            cues.len() as int,
        ) + seq![Seq::<char>::empty()],
        free_of(srt_from(cues, k), '\r'),
    decreases cues.len() - k,
{
    let e = Seq::<char>::empty();
    if k == cues.len() {
        lemma_split_empty(blank_line());
        assert(srt_cores(cues).subrange(k, cues.len() as int) + seq![e] =~= seq![e]);
    } else {
        lemma_split_from(cues, k + 1);
        let c = cues[k];
        assert(srt_text_ok(c.2));
        lemma_core_shape(k, c);
        let core = srt_core(k, c);
        let rest = srt_from(cues, k + 1);
        assert(srt_from(cues, k) =~= core + blank_line() + rest);
        lemma_split_blank(core, rest);
        assert(srt_cores(cues)[k] == core);
        assert(srt_cores(cues).subrange(k, cues.len() as int) =~= seq![core] + srt_cores(
            cues,
        ).subrange(k + 1, cues.len() as int));
        assert(seq![core] + (srt_cores(cues).subrange(k + 1, cues.len() as int) + seq![e])
            =~= srt_cores(cues).subrange(k, cues.len() as int) + seq![e]);
        let b = blank_line();
        assert(free_of(b, '\r')) by {
            assert(b[0] == '\n' && b[1] == '\n');
        }
        lemma_free_concat(core, b, '\r');
        lemma_free_concat(core + b, rest, '\r');
    }
}

/// The cores of the entries read back as the cues.
pub proof fn lemma_cues_of_cores(cues: Seq<CueSpec>)
    requires
        srt_texts_ok(cues),
    ensures
        cues_of(srt_cores(cues)) == cues,
    decreases cues.len(),
{
    if cues.len() > 0 {
        let n = cues.len() - 1;
        let front = cues.drop_last();
        assert(srt_texts_ok(front)) by {
            assert forall|i: int| 0 <= i < front.len() implies srt_text_ok(#[trigger] front[i].2) by {
                assert(front[i] == cues[i]);
            }
        }
        lemma_cues_of_cores(front);
        assert(srt_cores(cues).drop_last() =~= srt_cores(front));
        assert(srt_cores(cues).last() == srt_core(n, cues[n]));
        assert(srt_text_ok(cues[n].2));
        lemma_core_cue(n, cues[n]);
        assert(front.push(cues[n]) =~= cues);
    }
}

/// Reading back an SRT text written from cues gives the same cues, where each
/// cue text is one that SRT carries unchanged.
pub proof fn lemma_srt_cues_round_trip(cues: Seq<CueSpec>)
    requires
        srt_texts_ok(cues),
    ensures
        crate::subtitle_merge::parse_cues_spec(srt_body(cues)) == cues,
{
    let e = Seq::<char>::empty();
    lemma_body_from(cues, cues.len() as int);
    assert(cues.take(cues.len() as int) =~= cues);
    assert(srt_from(cues, cues.len() as int) == e);
    assert(srt_body(cues) + e =~= srt_body(cues));
    let body = srt_body(cues);
    assert(body == srt_from(cues, 0));
    lemma_from_no_marker(cues, 0, "[Events]"@);
    lemma_from_no_marker(cues, 0, "Dialogue:"@);
    assert(!crate::subtitle_merge::looks_like_ass(body));
    lemma_split_from(cues, 0);
    lemma_without_cr_noop(body);
    let cores = srt_cores(cues);
    assert(cores.subrange(0, cues.len() as int) =~= cores);
    let parts = cores + seq![e];
    assert(block_parts(body) == parts);
    assert(parts.drop_last() =~= cores);
    assert(parts.last() == e);
    lemma_empty_part();
    lemma_cues_of_cores(cues);
    assert(cues_of(parts) == cues_of(cores));
}

/// A word without newlines that occurs in neither of two texts occurs in
/// their concatenation only across the junction, which a newline on either
/// side of it rules out.
pub proof fn lemma_no_occ_concat(a: Seq<char>, b: Seq<char>, w: Seq<char>)
    requires
        w.len() > 0,
        free_of(w, '\n'),
        !seq_contains(a, w),
        !seq_contains(b, w),
        a.len() == 0 || b.len() == 0 || a.last() == '\n' || b[0] == '\n',
    ensures
        !seq_contains(a + b, w),
{
    let t = a + b;
    if seq_contains(t, w) {
        let p = choose|p: int| occurs_at(t, w, p);
        let n = a.len() as int;
        let m = w.len() as int;
        if p + m <= n {
            assert(a.subrange(p, p + m) =~= t.subrange(p, p + m));
            assert(occurs_at(a, w, p));
        } else if p >= n {
            assert(b.subrange(p - n, p - n + m) =~= t.subrange(p, p + m));
            assert(occurs_at(b, w, p - n));
        } else {
            assert(t.subrange(p, p + m)[n - 1 - p] == t[n - 1]);
            assert(t.subrange(p, p + m)[n - p] == t[n]);
            assert(t[n - 1] == a.last());
            assert(t[n] == b[0]);
            assert(w[n - 1 - p] != '\n');
            assert(w[n - p] != '\n');
        }
    }
}

/// A text without the first character of a word does not hold the word.
pub proof fn lemma_no_occ_free(x: Seq<char>, w: Seq<char>)
    requires
        w.len() > 0,
        free_of(x, w[0]),
    ensures
        !seq_contains(x, w),
{
    if seq_contains(x, w) {
        let p = choose|p: int| occurs_at(x, w, p);
        assert(x.subrange(p, p + w.len())[0] == x[p]);
    }
}

/// The two words that have a text read as ASS: neither holds a newline, and
/// neither begins with a character of a number, a timing line or a WebVTT
/// header.
pub proof fn lemma_ass_markers()
    ensures
        ("[Events]"@).len() > 0,
        free_of("[Events]"@, '\n'),
        ("[Events]"@)[0] == '[',
        ("Dialogue:"@).len() > 0,
        free_of("Dialogue:"@, '\n'),
        ("Dialogue:"@)[0] == 'D',
{
    reveal_strlit("[Events]");
    reveal_strlit("Dialogue:");
}

/// An SRT entry whose text does not hold `w` does not hold it either, where
/// `w` is one of the words that have a text read as ASS.
pub proof fn lemma_entry_no_marker(i: int, c: CueSpec, w: Seq<char>)
    requires
        i >= 0,
        srt_text_ok(c.2),
        w == "[Events]"@ || w == "Dialogue:"@,
        !seq_contains(c.2, w),
    ensures
        !seq_contains(srt_entry(i, c), w),
        srt_entry(i, c).last() == '\n',
{
    lemma_ass_markers();
    let x = w[0];
    assert(x == '[' || x == 'D');
    let d = dec_digits((i + 1) as nat);
    let n = nl();
    let f1 = fmt_ts_spec(c.0);
    let f2 = fmt_ts_spec(c.1);
    let a = srt_arrow();
    let tm = srt_timing(c);
    let b = blank_line();
    lemma_dec_digits((i + 1) as nat);
    crate::subtitle_merge::round_trip::lemma_digits_free(d, x);
    lemma_fmt_ts_chars(c.0);
    lemma_fmt_ts_chars(c.1);
    lemma_ts_free(f1, x);
    lemma_ts_free(f2, x);
    assert(free_of(a, x)) by {
        assert forall|k: int| 0 <= k < a.len() implies #[trigger] a[k] != x by {
            assert(a[k] == ' ' || a[k] == '-' || a[k] == '>');
        }
    }
    lemma_free_concat(f1, a, x);
    lemma_free_concat(f1 + a, f2, x);
    assert(free_of(n, x)) by {
        assert(n[0] == '\n');
    }
    assert(free_of(b, x)) by {
        assert(b[0] == '\n' && b[1] == '\n');
    }
    lemma_no_occ_free(d, w);
    lemma_no_occ_free(n, w);
    lemma_no_occ_free(tm, w);
    lemma_no_occ_free(b, w);
    lemma_no_occ_concat(d, n, w);
    assert((d + n).last() == '\n');
    lemma_no_occ_concat(d + n, tm, w);
    lemma_no_occ_concat(d + n + tm, n, w);
    assert((d + n + tm + n).last() == '\n');
    lemma_no_occ_concat(d + n + tm + n, c.2, w);
    lemma_no_occ_concat(d + n + tm + n + c.2, b, w);
    assert(srt_entry(i, c) =~= d + n + tm + n + c.2 + b);
}

/// The SRT entries from the `k`-th on hold neither word that has a text read
/// as ASS.
pub proof fn lemma_from_no_marker(cues: Seq<CueSpec>, k: int, w: Seq<char>)
    requires
        0 <= k <= cues.len(),
        srt_texts_ok(cues),
        w == "[Events]"@ || w == "Dialogue:"@,
    ensures
        !seq_contains(srt_from(cues, k), w),
    decreases cues.len() - k,
{
    lemma_ass_markers();
    if k == cues.len() {
        lemma_no_occ_free(Seq::<char>::empty(), w);
    } else {
        lemma_from_no_marker(cues, k + 1, w);
        assert(srt_text_ok(cues[k].2));
        lemma_entry_no_marker(k, cues[k], w);
        lemma_no_occ_concat(srt_entry(k, cues[k]), srt_from(cues, k + 1), w);
    }
}

} // verus!
