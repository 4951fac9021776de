//! Reading back a WebVTT text written from cues gives the same cues, for cue
//! texts that WebVTT carries: non-empty, without surrounding whitespace,
//! carriage returns or blank lines, and naming neither `[Events]` nor
//! `Dialogue:`.

use vstd::prelude::*;
use crate::text::{occurs_at, seq_contains, dec_digits, zero_pad};
use crate::text::split::{
    first_occ, lemma_first_occ, split_seq, join_seq, trim, trim_start, trim_end, is_ws,
};
use crate::text::scan::{is_digit, split_once};
use crate::subtitle_merge::blocks::{
    nl, blank_line, arrow, block_lines, block_parts, first_arrow, first_arrow_from,
};
use crate::subtitle_merge::round_trip::{
    free_of, lemma_split_single, lemma_split_none, lemma_trim_noop, lemma_pad, lemma_digits_free,
    lemma_vtt_timestamp_round_trip,
};
use crate::subtitle_merge::timestamps::{fmt_ts_spec, parse_ts_spec, pad2};
use crate::subtitle_merge::cues::{
    CueSpec, cue_of_part, cues_of, end_field, srt_arrow, vtt_ts, vtt_entry, vtt_body,
};
use crate::subtitle_merge::cue_round_trip::{
    no_blank, srt_text_ok, srt_texts_ok, lemma_free_concat, lemma_no_nl_no_blank,
    lemma_no_blank_concat, lemma_word_len_all, lemma_split_blank, lemma_split_empty,
    lemma_join_split, lemma_without_cr_noop, lemma_empty_part, lemma_ass_markers,
    lemma_no_occ_free, lemma_no_occ_concat,
};

verus! {

/// A character of a written timestamp: a digit, `':'`, `','` or `'.'`.
pub open spec fn stamp_char(c: char) -> bool {
    is_digit(c) || c == ':' || c == ',' || c == '.'
}

/// A written timestamp: stamp characters, beginning and ending with a digit.
pub open spec fn stamp_ok(f: Seq<char>) -> bool {
    &&& f.len() >= 1
    &&& is_digit(f[0])
    &&& is_digit(f.last())
    &&& forall|i: int| 0 <= i < f.len() ==> stamp_char(#[trigger] f[i])
}

/// A WebVTT timestamp is a written timestamp.
pub proof fn lemma_vtt_ts_ok(ms: u64)
    ensures
        stamp_ok(vtt_ts(ms)),
{
    let a = pad2(ms / 3_600_000);
    let b = pad2((ms % 3_600_000) / 60_000);
    let c = pad2((ms % 60_000) / 1000);
    let d = zero_pad(dec_digits((ms % 1000) as nat), 3);
    lemma_pad((ms / 3_600_000) as nat, 2);
    lemma_pad(((ms % 3_600_000) / 60_000) as nat, 2);
    lemma_pad(((ms % 60_000) / 1000) as nat, 2);
    lemma_pad((ms % 1000) as nat, 3);
    let hms = a + seq![':'] + b + seq![':'] + c;
    let f = fmt_ts_spec(ms);
    assert(f =~= hms + seq![','] + d);
    lemma_digits_free(a, ',');
    lemma_digits_free(b, ',');
    lemma_digits_free(c, ',');
    lemma_digits_free(d, ',');
    assert(free_of(hms, ',')) by {
        assert forall|i: int| 0 <= i < hms.len() implies #[trigger] hms[i] != ',' by {
            if i < a.len() {
                assert(hms[i] == a[i]);
            } else if i == a.len() {
            } else if i < a.len() + 1 + b.len() {
                assert(hms[i] == b[i - a.len() - 1]);
            } else if i == a.len() + 1 + b.len() {
            } else {
                assert(hms[i] == c[i - a.len() - 2 - b.len()]);
            }
        }
    }
    lemma_split_single(hms, ',', d);
    lemma_split_none(d, ',');
    assert(split_seq(f, seq![',']) =~= seq![hms, d]);
    let t = vtt_ts(ms);
    assert(join_seq(seq![hms, d], seq!['.']) == join_seq(seq![hms], seq!['.']) + seq!['.'] + d) by {
        assert(seq![hms, d].drop_last() =~= seq![hms]);
    }
    assert(t =~= hms + seq!['.'] + d);
    assert(t[0] == a[0]);
    assert(t.last() == d[d.len() - 1]);
    assert forall|i: int| 0 <= i < t.len() implies stamp_char(#[trigger] t[i]) by {
        if i < a.len() {
            assert(t[i] == a[i]);
            assert(is_digit(a[i]));
        } else if i == a.len() {
        } else if i < a.len() + 1 + b.len() {
            assert(t[i] == b[i - a.len() - 1]);
            assert(is_digit(b[i - a.len() - 1]));
        } else if i == a.len() + 1 + b.len() {
        } else if i < hms.len() {
            assert(t[i] == c[i - a.len() - 2 - b.len()]);
            assert(is_digit(c[i - a.len() - 2 - b.len()]));
        } else if i == hms.len() {
        } else {
            assert(t[i] == d[i - hms.len() - 1]);
            assert(is_digit(d[i - hms.len() - 1]));
        }
    }
}

/// A written timestamp holds no character outside the stamp characters.
pub proof fn lemma_stamp_free(f: Seq<char>, x: char)
    requires
        stamp_ok(f),
        !stamp_char(x),
    ensures
        free_of(f, x),
{
    assert forall|i: int| 0 <= i < f.len() implies #[trigger] f[i] != x by {
        assert(stamp_char(f[i]));
    }
}

/// The timing line `f1 --> f2` of two written timestamps holds no newline
/// or carriage return, begins and ends with a digit, and splits at its `-->`
/// into the first timestamp and the second, each with a space that trimming
/// drops.
#[verifier::rlimit(30)]
pub proof fn lemma_stamp_timing(f1: Seq<char>, f2: Seq<char>)
    requires
        stamp_ok(f1),
        stamp_ok(f2),
    ensures
        free_of(f1 + srt_arrow() + f2, '\n'),
        free_of(f1 + srt_arrow() + f2, '\r'),
        is_digit((f1 + srt_arrow() + f2)[0]),
        is_digit((f1 + srt_arrow() + f2).last()),
        seq_contains(f1 + srt_arrow() + f2, arrow()),
        split_once(f1 + srt_arrow() + f2, arrow()) == Some((f1 + seq![' '], seq![' '] + f2)),
        trim(f1 + seq![' ']) == f1,
        end_field(seq![' '] + f2) == f2,
{
    let a = srt_arrow();
    let t = f1 + a + f2;
    lemma_stamp_free(f1, '\n');
    lemma_stamp_free(f2, '\n');
    lemma_stamp_free(f1, '\r');
    lemma_stamp_free(f2, '\r');
    lemma_stamp_free(f1, '-');
    assert(free_of(a, '\n') && free_of(a, '\r')) by {
        assert forall|i: int| 0 <= i < a.len() implies #[trigger] a[i] != '\n' && a[i] != '\r' by {
            assert(a[i] == ' ' || a[i] == '-' || a[i] == '>');
        }
    }
    lemma_free_concat(f1, a, '\n');
    lemma_free_concat(f1 + a, f2, '\n');
    lemma_free_concat(f1, a, '\r');
    lemma_free_concat(f1 + a, f2, '\r');
    assert(t[0] == f1[0]);
    assert(t.last() == f2[f2.len() - 1]);
    let left = f1 + seq![' '];
    let right = seq![' '] + f2;
    let n = left.len() as int;
    assert(t =~= left + arrow() + right);
    lemma_first_occ(t, arrow());
    assert(t.subrange(n, n + 3) =~= arrow());
    assert(occurs_at(t, arrow(), n));
    let r = first_occ(t, arrow());
    if r < n {
        assert(t.subrange(r, r + 3)[0] == t[r]);
        if r < f1.len() {
            assert(t[r] == f1[r]);
        } else {
            assert(t[r] == ' ');
        }
    }
    assert(r == n);
    assert(t.take(n) =~= left);
    assert(t.skip(n + 3) =~= right);
    crate::subtitle_merge::round_trip::lemma_digit_not_ws(f1[0]);
    crate::subtitle_merge::round_trip::lemma_digit_not_ws(f1.last());
    crate::subtitle_merge::round_trip::lemma_digit_not_ws(f2[0]);
    crate::subtitle_merge::round_trip::lemma_digit_not_ws(f2.last());
    assert(left[0] == f1[0]);
    assert(trim_start(left) == left);
    assert(left.drop_last() =~= f1);
    assert(is_ws(left.last()));
    assert(trim_end(left) == trim_end(f1));
    assert(trim_end(f1) == f1);
    assert(right.drop_first() =~= f2);
    assert(trim_start(f2) == f2);
    assert(trim_start(right) == f2);
    assert forall|i: int| 0 <= i < f2.len() implies !is_ws(#[trigger] f2[i]) by {
        assert(stamp_char(f2[i]));
    }
    lemma_word_len_all(f2);
    assert(f2.take(f2.len() as int) =~= f2);
}

/// The timing line of a WebVTT entry.
pub open spec fn vtt_timing(c: CueSpec) -> Seq<char> {
    vtt_ts(c.0) + srt_arrow() + vtt_ts(c.1)
}

/// A WebVTT entry without the blank line that ends it.
pub open spec fn vtt_core(c: CueSpec) -> Seq<char> {
    vtt_timing(c) + nl() + c.2
}

/// An entry is its core and a blank line; the core holds no blank line or
/// carriage return, does not end with a newline, and reads back as its cue.
#[verifier::rlimit(30)]
pub proof fn lemma_vtt_core(c: CueSpec)
    requires
        srt_text_ok(c.2),
    ensures
        vtt_entry(c) == vtt_core(c) + blank_line(),
        no_blank(vtt_core(c)),
        vtt_core(c).last() != '\n',
        free_of(vtt_core(c), '\r'),
        cue_of_part(vtt_core(c)) == Some(c),
{
    let f1 = vtt_ts(c.0);
    let f2 = vtt_ts(c.1);
    let tm = vtt_timing(c);
    let t = c.2;
    let core = vtt_core(c);
    let n = nl();
    lemma_vtt_ts_ok(c.0);
    lemma_vtt_ts_ok(c.1);
    lemma_stamp_timing(f1, f2);
    assert(vtt_entry(c) =~= core + blank_line());
    assert(free_of(n, '\r')) by {
        assert(n[0] == '\n');
    }
    lemma_no_nl_no_blank(tm);
    assert(no_blank(n));
    lemma_no_blank_concat(tm, n);
    assert((tm + n).last() == '\n');
    assert(t[0] != '\n');
    lemma_no_blank_concat(tm + n, t);
    assert(core.last() == t.last());
    lemma_free_concat(tm, n, '\r');
    lemma_free_concat(tm + n, t, '\r');
    assert(core[0] == tm[0]);
    crate::subtitle_merge::round_trip::lemma_digit_not_ws(tm[0]);
    lemma_trim_noop(core);
    assert(core =~= tm + seq!['\n'] + t);
    lemma_split_single(tm, '\n', t);
    assert(n == seq!['\n']);
    let l = block_lines(core);
    assert(l == seq![tm] + split_seq(t, n));
    assert(l[0] == tm);
    assert(first_arrow(l) == 0);
    lemma_vtt_timestamp_round_trip(c.0);
    lemma_vtt_timestamp_round_trip(c.1);
    lemma_trim_noop(f1);
    assert(parse_ts_spec(f1 + seq![' ']) == parse_ts_spec(f1));
    assert(l.skip(1) =~= split_seq(t, n));
    lemma_join_split(t, n);
    lemma_trim_noop(t);
}

/// The WebVTT entries of `cues` from the `k`-th on.
pub open spec fn vtt_from(cues: Seq<CueSpec>, k: int) -> Seq<char>
    decreases cues.len() - k,
{
    if k < 0 || k >= cues.len() {
        Seq::empty()
    } else {
        vtt_entry(cues[k]) + vtt_from(cues, k + 1)
    }
}

/// The cores of the entries of `cues`.
pub open spec fn vtt_cores(cues: Seq<CueSpec>) -> Seq<Seq<char>> {
    Seq::new(cues.len(), |i: int| vtt_core(cues[i]))
}

/// The entries before `m` and those from `m` on make the whole body.
pub proof fn lemma_vtt_body_from(cues: Seq<CueSpec>, m: int)
    requires
        0 <= m <= cues.len(),
    ensures
        vtt_body(cues.take(m)) + vtt_from(cues, m) == vtt_from(cues, 0),
    decreases m,
{
    if m == 0 {
        assert(vtt_body(cues.take(0)) == Seq::<char>::empty());
        assert(Seq::<char>::empty() + vtt_from(cues, 0) =~= vtt_from(cues, 0));
    } else {
        lemma_vtt_body_from(cues, m - 1);
        let tm = cues.take(m);
        assert(tm.drop_last() =~= cues.take(m - 1));
        assert(tm.last() == cues[m - 1]);
        assert(vtt_body(tm) == vtt_body(cues.take(m - 1)) + vtt_entry(cues[m - 1]));
        assert(vtt_from(cues, m - 1) == vtt_entry(cues[m - 1]) + vtt_from(cues, m));
        assert(vtt_body(tm) + vtt_from(cues, m) =~= vtt_body(cues.take(m - 1)) + vtt_from(
            cues,
            m - 1,
        ));
    }
}

/// The entries from `k` on split at blank lines into their cores and one
/// empty piece, and hold no carriage return.
pub proof fn lemma_vtt_split_from(cues: Seq<CueSpec>, k: int)
    requires
        0 <= k <= cues.len(),
        srt_texts_ok(cues),
    ensures
        split_seq(vtt_from(cues, k), blank_line()) == vtt_cores(cues).subrange(
            k,
            cues.len() as int,
        ) + seq![Seq::<char>::empty()],
        free_of(vtt_from(cues, k), '\r'),
    decreases cues.len() - k,
{
    let e = Seq::<char>::empty();
    if k == cues.len() {
        lemma_split_empty(blank_line());
        assert(vtt_cores(cues).subrange(k, cues.len() as int) + seq![e] =~= seq![e]);
    } else {
        lemma_vtt_split_from(cues, k + 1);
        let c = cues[k];
        assert(srt_text_ok(c.2));
        lemma_vtt_core(c);
        let core = vtt_core(c);
        let rest = vtt_from(cues, k + 1);
        assert(vtt_from(cues, k) =~= core + blank_line() + rest);
        lemma_split_blank(core, rest);
        assert(vtt_cores(cues)[k] == core);
        assert(vtt_cores(cues).subrange(k, cues.len() as int) =~= seq![core] + vtt_cores(
            cues,
        ).subrange(k + 1, cues.len() as int));
        assert(seq![core] + (vtt_cores(cues).subrange(k + 1, cues.len() as int) + seq![e])
            =~= vtt_cores(cues).subrange(k, cues.len() as int) + seq![e]);
        let b = blank_line();
        assert(free_of(b, '\r')) by {
            assert(b[0] == '\n' && b[1] == '\n');
        }
        lemma_free_concat(core, b, '\r');
        lemma_free_concat(core + b, rest, '\r');
    }
}

/// The cores of the entries read back as the cues.
pub proof fn lemma_cues_of_vtt_cores(cues: Seq<CueSpec>)
    requires
        srt_texts_ok(cues),
    ensures
        cues_of(vtt_cores(cues)) == cues,
    decreases cues.len(),
{
    if cues.len() > 0 {
        let n = cues.len() - 1;
        let front = cues.drop_last();
        assert(srt_texts_ok(front)) by {
            assert forall|i: int| 0 <= i < front.len() implies srt_text_ok(#[trigger] front[i].2) by {
                assert(front[i] == cues[i]);
            }
        }
        lemma_cues_of_vtt_cores(front);
        assert(vtt_cores(cues).drop_last() =~= vtt_cores(front));
        assert(vtt_cores(cues).last() == vtt_core(cues[n]));
        assert(srt_text_ok(cues[n].2));
        lemma_vtt_core(cues[n]);
        assert(front.push(cues[n]) =~= cues);
    }
}

/// The cues of blocks one after another are the cues of each in turn.
pub proof fn lemma_cues_of_append(a: Seq<Seq<char>>, b: Seq<Seq<char>>)
    ensures
        cues_of(a + b) == cues_of(a) + cues_of(b),
    decreases b.len(),
{
    if b.len() == 0 {
        assert(a + b =~= a);
        assert(cues_of(a) + cues_of(b) =~= cues_of(a));
    } else {
        lemma_cues_of_append(a, b.drop_last());
        assert((a + b).drop_last() =~= a + b.drop_last());
        assert((a + b).last() == b.last());
        match cue_of_part(b.last()) {
            Some(c) => {
                assert((cues_of(a) + cues_of(b.drop_last())).push(c) =~= cues_of(a) + cues_of(b));
            },
            None => {},
        }
    }
}

/// A WebVTT entry whose text does not hold `w` does not hold it either,
/// where `w` is one of the words that have a text read as ASS.
pub proof fn lemma_vtt_entry_no_marker(c: CueSpec, w: Seq<char>)
    requires
        srt_text_ok(c.2),
        w == "[Events]"@ || w == "Dialogue:"@,
        !seq_contains(c.2, w),
    ensures
        !seq_contains(vtt_entry(c), w),
        vtt_entry(c).last() == '\n',
{
    lemma_ass_markers();
    let x = w[0];
    let f1 = vtt_ts(c.0);
    let f2 = vtt_ts(c.1);
    let a = srt_arrow();
    let n = nl();
    let b = blank_line();
    lemma_vtt_ts_ok(c.0);
    lemma_vtt_ts_ok(c.1);
    lemma_stamp_free(f1, x);
    lemma_stamp_free(f2, x);
    assert(free_of(a, x)) by {
        assert forall|k: int| 0 <= k < a.len() implies #[trigger] a[k] != x by {
            assert(a[k] == ' ' || a[k] == '-' || a[k] == '>');
        }
    }
    lemma_free_concat(f1, a, x);
    lemma_free_concat(f1 + a, f2, x);
    assert(free_of(n, x)) by {
        assert(n[0] == '\n');
    }
    assert(free_of(b, x)) by {
        assert(b[0] == '\n' && b[1] == '\n');
    }
    let tm = f1 + a + f2;
    lemma_no_occ_free(tm, w);
    lemma_no_occ_free(n, w);
    lemma_no_occ_free(b, w);
    lemma_no_occ_concat(tm, n, w);
    assert((tm + n).last() == '\n');
    lemma_no_occ_concat(tm + n, c.2, w);
    lemma_no_occ_concat(tm + n + c.2, b, w);
    assert(vtt_entry(c) =~= tm + n + c.2 + b);
}

/// The WebVTT entries from the `k`-th on hold neither word that has a text
/// read as ASS.
pub proof fn lemma_vtt_from_no_marker(cues: Seq<CueSpec>, k: int, w: Seq<char>)
    requires
        0 <= k <= cues.len(),
        srt_texts_ok(cues),
        w == "[Events]"@ || w == "Dialogue:"@,
    ensures
        !seq_contains(vtt_from(cues, k), w),
    decreases cues.len() - k,
{
    lemma_ass_markers();
    if k == cues.len() {
        lemma_no_occ_free(Seq::<char>::empty(), w);
    } else {
        lemma_vtt_from_no_marker(cues, k + 1, w);
        assert(srt_text_ok(cues[k].2));
        lemma_vtt_entry_no_marker(cues[k], w);
        lemma_no_occ_concat(vtt_entry(cues[k]), vtt_from(cues, k + 1), w);
    }
}

/// Reading back a WebVTT text written from cues gives the same cues, where
/// each cue text is one that WebVTT carries unchanged.
#[verifier::rlimit(30)]
pub proof fn lemma_vtt_cues_round_trip(cues: Seq<CueSpec>)
    requires
        srt_texts_ok(cues),
    ensures
        crate::subtitle_merge::parse_cues_spec("WEBVTT\n\n"@ + vtt_body(cues)) == cues,
{
    reveal_strlit("WEBVTT\n\n");
    let e = Seq::<char>::empty();
    let w = seq!['W', 'E', 'B', 'V', 'T', 'T'];
    lemma_vtt_body_from(cues, cues.len() as int);
    assert(cues.take(cues.len() as int) =~= cues);
    assert(vtt_from(cues, cues.len() as int) == e);
    assert(vtt_body(cues) + e =~= vtt_body(cues));
    let body = vtt_body(cues);
    assert(body == vtt_from(cues, 0));
    let content = "WEBVTT\n\n"@ + body;
    assert(content =~= w + blank_line() + body);
    lemma_ass_markers();
    assert forall|m: Seq<char>| m == "[Events]"@ || m == "Dialogue:"@ implies !seq_contains(content, m) by {
        lemma_vtt_from_no_marker(cues, 0, m);
        assert(free_of(w + blank_line(), m[0])) by {
            assert forall|k: int| 0 <= k < (w + blank_line()).len() implies #[trigger] (w + blank_line())[k] != m[0] by {
            }
        }
        lemma_no_occ_free(w + blank_line(), m);
        lemma_no_occ_concat(w + blank_line(), body, m);
    }
    assert(!crate::subtitle_merge::looks_like_ass(content));
    lemma_vtt_split_from(cues, 0);
    assert(free_of(w, '\r') && free_of(w, '\n')) by {
        assert forall|i: int| 0 <= i < w.len() implies #[trigger] w[i] != '\r' && w[i] != '\n' by {
        }
    }
    let b = blank_line();
    assert(free_of(b, '\r')) by {
        assert(b[0] == '\n' && b[1] == '\n');
    }
    lemma_free_concat(w, b, '\r');
    lemma_free_concat(w + b, body, '\r');
    lemma_without_cr_noop(content);
    lemma_no_nl_no_blank(w);
    lemma_split_blank(w, body);
    let cores = vtt_cores(cues);
    assert(cores.subrange(0, cues.len() as int) =~= cores);
    assert(block_parts(content) == seq![w] + (cores + seq![e]));
    lemma_cues_of_append(seq![w], cores + seq![e]);
    lemma_cues_of_append(cores, seq![e]);
    lemma_cues_of_vtt_cores(cues);
    lemma_empty_part();
    assert(cues_of(seq![e]) == cues_of(Seq::<Seq<char>>::empty())) by {
        assert(seq![e].drop_last() =~= Seq::<Seq<char>>::empty());
        assert(seq![e].last() == e);
    }
    assert(!is_ws(w[0]) && !is_ws(w.last()));
    lemma_trim_noop(w);
    lemma_split_none(w, '\n');
    assert(nl() == seq!['\n']);
    let l = block_lines(w);
    assert(l == seq![w]);
    assert(!seq_contains(w, arrow())) by {
        if seq_contains(w, arrow()) {
            let k = choose|k: int| occurs_at(w, arrow(), k);
            assert(w.subrange(k, k + 3)[0] == w[k]);
        }
    }
    assert(first_arrow_from(l, 1) == -1);
    assert(first_arrow(l) == -1);
    assert(cues_of(seq![w]) == cues_of(Seq::<Seq<char>>::empty())) by {
        assert(seq![w].drop_last() =~= Seq::<Seq<char>>::empty());
        assert(seq![w].last() == w);
    }
    assert(Seq::<CueSpec>::empty() + (cues + Seq::<CueSpec>::empty()) =~= cues);
}

} // verus!
