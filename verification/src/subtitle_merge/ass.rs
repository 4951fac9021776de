//! Reading cues from an ASS script: the `[Events]` section, its `Format:`
//! line naming the columns, and its `Dialogue:` lines.

use vstd::prelude::*;
use crate::text::{chars_of, ascii_lower_seq, lower_chars, string_of};
use crate::text::split::{trim, views, replace_seq, split_seq, split_chars, trim_chars, replace_chars, slice_vec};
use crate::text::scan::{
    starts_with, eq_ignore_case, splitn_seq, lines_seq, starts_with_chars, eq_ignore_case_chars,
    splitn_chars,
};
use crate::subtitle_merge::blocks::{nl, without_cr, without_cr_chars};
use crate::subtitle_merge::timestamps::{parse_ass_ts_spec, parse_ass_ts};
use crate::subtitle_merge::transcript::chars_eq;
use crate::subtitle_merge::cues::{CueSpec, cues_view};
use crate::subtitle_merge::Cue;

verus! {

/// How many `{` are still open at the end of `s`; a `}` with none open is
/// ignored.
pub open spec fn brace_depth(s: Seq<char>) -> nat
    decreases s.len(),
{
    if s.len() == 0 {
        0
    } else {
        let d = brace_depth(s.drop_last());
        if s.last() == '{' {
            d + 1
        } else if s.last() == '}' {
            if d == 0 {
                0
            } else {
                (d - 1) as nat
            }
        } else {
            d
        }
    }
}

/// `s` without its `{...}` override blocks (nested ones included).
pub open spec fn strip_braces(s: Seq<char>) -> Seq<char>
    decreases s.len(),
{
    if s.len() == 0 {
        s
    } else {
        let r = strip_braces(s.drop_last());
        let c = s.last();
        if c == '{' || c == '}' || brace_depth(s.drop_last()) != 0 {
            r
        } else {
            r.push(c)
        }
    }
}

/// The text of a `Dialogue:` field: override blocks dropped, `\N` and `\n`
/// turned into line breaks, surrounding whitespace trimmed.
pub open spec fn ass_text(raw: Seq<char>) -> Seq<char> {
    trim(
        replace_seq(
            replace_seq(strip_braces(raw), seq!['\\', 'N'], nl()),
            seq!['\\', 'n'],
            nl(),
        ),
    )
}

fn strip_braces_chars(s: &[char]) -> (r: Vec<char>)
    ensures
        r@ == strip_braces(s@),
{
    let mut out: Vec<char> = Vec::new();
    let mut depth: usize = 0;
    let mut i: usize = 0;
    assert(s@.take(0) =~= Seq::<char>::empty());
    while i < s.len()
        invariant
            0 <= i <= s@.len(),
            depth <= i,
            out@ == strip_braces(s@.take(i as int)),
            depth == brace_depth(s@.take(i as int)),
        decreases s@.len() - i,
    {
        assert(s@.take(i + 1).drop_last() =~= s@.take(i as int));
        let c = s[i];
        if c == '{' {
            depth = depth + 1;
        } else if c == '}' {
            if depth > 0 {
                depth = depth - 1;
            }
        } else if depth == 0 {
            out.push(c);
        }
        i = i + 1;
    }
    assert(s@.take(s@.len() as int) =~= s@);
    out
}

/// The text of a `Dialogue:` field.
pub fn strip_ass_overrides(raw: &[char]) -> (r: Vec<char>)
    ensures
        r@ == ass_text(raw@),
{
    let stripped = strip_braces_chars(raw);
    let up = vec!['\\', 'N'];
    let low = vec!['\\', 'n'];
    let nlv = vec!['\n'];
    assert(up@ =~= seq!['\\', 'N']);
    assert(low@ =~= seq!['\\', 'n']);
    assert(nlv@ =~= nl());
    let a = replace_chars(stripped.as_slice(), up.as_slice(), nlv.as_slice());
    let b = replace_chars(a.as_slice(), low.as_slice(), nlv.as_slice());
    trim_chars(b.as_slice())
}

/// The columns of the start, end and text fields.
pub type Cols = (int, int, int);

/// The columns after a `Format:` line naming `names`: a name that is, once
/// trimmed and lowered, `start`, `end` or `text` moves that column to its
/// position.
pub open spec fn apply_format(cols: Cols, names: Seq<Seq<char>>) -> Cols
    decreases names.len(),
{
    if names.len() == 0 {
        cols
    } else {
        let c = apply_format(cols, names.drop_last());
        let i = names.len() - 1;
        let n = ascii_lower_seq(trim(names.last()));
        if n == "start"@ {
            (i, c.1, c.2)
        } else if n == "end"@ {
            (c.0, i, c.2)
        } else if n == "text"@ {
            (c.0, c.1, i)
        } else {
            c
        }
    }
}

pub open spec fn max3(c: Cols) -> int {
    let m = if c.0 >= c.1 {
        c.0
    } else {
        c.1
    };
    if c.2 >= m {
        c.2
    } else {
        m
    }
}

/// The cue of a `Dialogue:` line, given what follows `Dialogue:`: the line
/// split at its first commas into one more field than the highest column, the
/// start and end read as ASS timestamps, the text field cleaned; none where a
/// field is missing, a timestamp does not read, or the text is empty.
pub open spec fn dialogue_cue(rest: Seq<char>, c: Cols) -> Option<CueSpec> {
    let fields = splitn_seq(rest, seq![','], (max3(c) + 1) as nat);
    if c.0 < fields.len() && c.1 < fields.len() && c.2 < fields.len() {
        match (parse_ass_ts_spec(fields[c.0]), parse_ass_ts_spec(fields[c.1])) {
            (Some(a), Some(b)) => {
                let text = ass_text(fields[c.2]);
                if text.len() > 0 {
                    Some((a, b, text))
                } else {
                    None
                }
            },
            _ => None,
        }
    } else {
        None
    }
}

/// Whether the reader is inside `[Events]`, the current columns, and the
/// cues read so far.
pub type AssState = (bool, Cols, Seq<CueSpec>);

pub open spec fn ass_init() -> AssState {
    (false, (1, 2, 9), Seq::empty())
}

/// A section header: `[` ... `]`.
pub open spec fn is_section(t: Seq<char>) -> bool {
    t.len() > 0 && t[0] == '[' && t.last() == ']'
}

/// The reader after one more line.
pub open spec fn ass_step(st: AssState, line: Seq<char>) -> AssState {
    let t = trim(line);
    if is_section(t) {
        (eq_ignore_case(t, "[Events]"@), st.1, st.2)
    } else if !st.0 {
        st
    } else if starts_with(t, "Format:"@) {
        (st.0, apply_format(st.1, split_seq(t.skip("Format:"@.len() as int), seq![','])), st.2)
    } else if starts_with(t, "Dialogue:"@) {
        match dialogue_cue(t.skip("Dialogue:"@.len() as int), st.1) {
            Some(c) => (st.0, st.1, st.2.push(c)),
            None => st,
        }
    } else {
        st
    }
}

pub open spec fn ass_run(lines: Seq<Seq<char>>) -> AssState
    decreases lines.len(),
{
    if lines.len() == 0 {
        ass_init()
    } else {
        ass_step(ass_run(lines.drop_last()), lines.last())
    }
}

/// The cues of an ASS script.
pub open spec fn parse_ass_spec(content: Seq<char>) -> Seq<CueSpec> {
    ass_run(lines_seq(without_cr(content))).2
}

/// The columns after a `Format:` line whose names follow `Format:` in `rest`.
#[verifier::rlimit(30)]
fn read_format(rest: &[char], cols: (usize, usize, usize)) -> (r: (usize, usize, usize))
    ensures
        (r.0 as int, r.1 as int, r.2 as int) == apply_format(
            (cols.0 as int, cols.1 as int, cols.2 as int),
            split_seq(rest@, seq![',']),
        ),
{
    let comma = vec![','];
    assert(comma@ =~= seq![',']);
    let names = split_chars(rest, comma.as_slice());
    let ghost nv = views(names@);
    let ghost c0 = (cols.0 as int, cols.1 as int, cols.2 as int);
    let start = chars_of("start");
    let end = chars_of("end");
    let text = chars_of("text");
    let (mut sc, mut ec, mut tc) = cols;
    let mut k: usize = 0;
    assert(nv.take(0) =~= Seq::<Seq<char>>::empty());
    while k < names.len()
        invariant
            0 <= k <= names@.len(),
            nv == views(names@),
            start@ == "start"@,
            end@ == "end"@,
            text@ == "text"@,
            (sc as int, ec as int, tc as int) == apply_format(c0, nv.take(k as int)),
        decreases names@.len() - k,
    {
        assert(nv.take(k + 1).drop_last() =~= nv.take(k as int));
        assert(nv.take(k + 1).last() == names@[k as int]@);
        let t = trim_chars(names[k].as_slice());
        let n = lower_chars(t.as_slice());
        if chars_eq(n.as_slice(), start.as_slice()) {
            sc = k;
        } else if chars_eq(n.as_slice(), end.as_slice()) {
            ec = k;
        } else if chars_eq(n.as_slice(), text.as_slice()) {
            tc = k;
        }
        k = k + 1;
    }
    assert(nv.take(names@.len() as int) =~= nv);
    (sc, ec, tc)
}

/// The cue of a `Dialogue:` line, given what follows `Dialogue:`.
#[verifier::rlimit(30)]
fn read_dialogue(rest: &[char], cols: (usize, usize, usize)) -> (r: Option<Cue>)
    ensures
        match r {
            Some(c) => dialogue_cue(rest@, (cols.0 as int, cols.1 as int, cols.2 as int)) == Some(
                c@,
            ),
            None => dialogue_cue(rest@, (cols.0 as int, cols.1 as int, cols.2 as int)) is None,
        },
{
    let (sc, ec, tc) = cols;
    let m = if sc >= ec {
        sc
    } else {
        ec
    };
    let maxc = if tc >= m {
        tc
    } else {
        m
    };
    let comma = vec![','];
    assert(comma@ =~= seq![',']);
    let fields = splitn_chars(rest, comma.as_slice(), maxc);
    let ghost fv = views(fields@);
    if sc < fields.len() && ec < fields.len() && tc < fields.len() {
        assert(fv[sc as int] == fields@[sc as int]@);
        assert(fv[ec as int] == fields@[ec as int]@);
        assert(fv[tc as int] == fields@[tc as int]@);
        let a = parse_ass_ts(fields[sc].as_slice());
        let b = parse_ass_ts(fields[ec].as_slice());
        match (a, b) {
            (Some(a), Some(b)) => {
                let text = strip_ass_overrides(fields[tc].as_slice());
                if text.len() > 0 {
                    Some(Cue { start_ms: a, end_ms: b, text: string_of(text.as_slice()) })
                } else {
                    None
                }
            },
            _ => None,
        }
    } else {
        None
    }
}

/// The cues of an ASS script.
#[verifier::rlimit(30)]
pub fn parse_ass(content: &[char]) -> (r: Vec<Cue>)
    ensures
        cues_view(r@) == parse_ass_spec(content@),
{
    let norm = without_cr_chars(content);
    let nlv = vec!['\n'];
    assert(nlv@ =~= seq!['\n']);
    let mut lines = split_chars(norm.as_slice(), nlv.as_slice());
    proof {
        crate::subtitle_merge::blocks::lemma_split_nonempty(norm@, seq!['\n']);
    }
    let ghost all = views(lines@);
    let nl_count = lines.len();
    if lines[nl_count - 1].len() == 0 {
        lines.pop();
        assert(views(lines@) =~= all.drop_last());
    }
    let ghost lv = views(lines@);
    assert(lv == lines_seq(without_cr(content@)));
    let events = chars_of("[Events]");
    let format = chars_of("Format:");
    let dialogue = chars_of("Dialogue:");
    let mut in_events = false;
    let mut cols: (usize, usize, usize) = (1, 2, 9);
    let mut cues: Vec<Cue> = Vec::new();
    let mut i: usize = 0;
    assert(lv.take(0) =~= Seq::<Seq<char>>::empty());
    while i < lines.len()
        invariant
            0 <= i <= lines@.len(),
            lv == views(lines@),
            events@ == "[Events]"@,
            format@ == "Format:"@,
            dialogue@ == "Dialogue:"@,
            ass_run(lv.take(i as int)) == (
                in_events,
                (cols.0 as int, cols.1 as int, cols.2 as int),
                cues_view(cues@),
            ),
        decreases lines@.len() - i,
    {
        assert(lv.take(i + 1).drop_last() =~= lv.take(i as int));
        assert(lv.take(i + 1).last() == lines@[i as int]@);
        let t = trim_chars(lines[i].as_slice());
        let n = t.len();
        if n > 0 && t[0] == '[' && t[n - 1] == ']' {
            in_events = eq_ignore_case_chars(t.as_slice(), events.as_slice());
        } else if !in_events {
        } else if starts_with_chars(t.as_slice(), format.as_slice()) {
            let rest = slice_vec(t.as_slice(), format.len(), n);
            assert(rest@ =~= t@.skip("Format:"@.len() as int));
            cols = read_format(rest.as_slice(), cols);
        } else if starts_with_chars(t.as_slice(), dialogue.as_slice()) {
            let rest = slice_vec(t.as_slice(), dialogue.len(), n);
            assert(rest@ =~= t@.skip("Dialogue:"@.len() as int));
            match read_dialogue(rest.as_slice(), cols) {
                Some(c) => {
                    let ghost before = cues_view(cues@);
                    cues.push(c);
                    assert(cues_view(cues@) =~= before.push(c@));
                },
                None => {},
            }
        }
        i = i + 1;
    }
    assert(lv.take(lines@.len() as int) =~= lv);
    cues
}

} // verus!
