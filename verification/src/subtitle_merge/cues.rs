//! Cues (start, end, text) read from SRT or WebVTT blocks, and SRT, WebVTT
//! and ASS text written from cues.

use vstd::prelude::*;
use crate::text::{dec_digits, decimal, chars_of};
use crate::text::split::{
    join_seq, trim, views, replace_seq, split_chars, trim_chars, replace_chars, extend_chars,
};
use crate::text::scan::{split_once, first_word, split_once_chars, first_word_chars};
use crate::subtitle_merge::blocks::{
    block_lines, first_arrow, arrow, nl, blank_line, lines_of_block, find_arrow, join_from,
    block_parts, without_cr_chars,
};
use crate::subtitle_merge::timestamps::{
    parse_ts_spec, fmt_ts_spec, fmt_ass_ts_spec, parse_ts, fmt_ts, fmt_ass_ts,
};
use crate::subtitle_merge::Cue;

verus! {

/// A cue as its start and end in milliseconds and its text.
pub type CueSpec = (u64, u64, Seq<char>);

pub open spec fn cues_view(v: Seq<Cue>) -> Seq<CueSpec> {
    Seq::new(v.len(), |i: int| v[i]@)
}

/// The end timestamp of a timing line: the first word after `-->`, or all of
/// it where there is no word.
pub open spec fn end_field(b: Seq<char>) -> Seq<char> {
    match first_word(b) {
        Some(w) => w,
        None => b,
    }
}

/// The cue that one SRT or WebVTT block holds: its first line with `-->`
/// gives the start and end, the lines after it, joined and trimmed, the text;
/// none where a timestamp does not read or the text is empty.
pub open spec fn cue_of_part(part: Seq<char>) -> Option<CueSpec> {
    let l = block_lines(part);
    let idx = first_arrow(l);
    if idx < 0 {
        None
    } else {
        match split_once(l[idx], arrow()) {
            None => None,
            Some((a, b)) => match (parse_ts_spec(a), parse_ts_spec(end_field(b))) {
                (Some(st), Some(en)) => {
                    let text = trim(join_seq(l.skip(idx + 1), nl()));
                    if text.len() == 0 {
                        None
                    } else {
                        Some((st, en, text))
                    }
                },
                _ => None,
            },
        }
    }
}

/// The cues that `parts` hold, in order.
pub open spec fn cues_of(parts: Seq<Seq<char>>) -> Seq<CueSpec>
    decreases parts.len(),
{
    if parts.len() == 0 {
        Seq::empty()
    } else {
        let rest = cues_of(parts.drop_last());
        match cue_of_part(parts.last()) {
            Some(c) => rest.push(c),
            None => rest,
        }
    }
}

/// The cues of an SRT or WebVTT text.
pub open spec fn parse_srt_vtt_spec(content: Seq<char>) -> Seq<CueSpec> {
    cues_of(block_parts(content))
}

/// The cue that one block holds, if any.
#[verifier::rlimit(30)]
fn cue_from_part(part: &[char]) -> (r: Option<Cue>)
    ensures
        match r {
            Some(c) => cue_of_part(part@) == Some(c@),
            None => cue_of_part(part@) is None,
        },
{
    let lines = lines_of_block(part);
    let ghost l = views(lines@);
    let idx = match find_arrow(lines.as_slice()) {
        Some(i) => i,
        None => {
            return None;
        },
    };
    assert(l[idx as int] == lines@[idx as int]@);
    let arr = vec!['-', '-', '>'];
    assert(arr@ =~= arrow());
    let (a, b) = match split_once_chars(lines[idx].as_slice(), arr.as_slice()) {
        Some(p) => p,
        None => {
            return None;
        },
    };
    let bw = match first_word_chars(b.as_slice()) {
        Some(w) => w,
        None => b,
    };
    assert(bw@ == end_field(b@));
    let st = parse_ts(a.as_slice());
    let en = parse_ts(bw.as_slice());
    match (st, en) {
        (Some(st), Some(en)) => {
            let nlines = lines.len();
            assert(idx < nlines);
            let joined = join_from(lines.as_slice(), idx + 1);
            let text = trim_chars(joined.as_slice());
            if text.len() == 0 {
                None
            } else {
                let s = crate::text::string_of(text.as_slice());
                Some(Cue { start_ms: st, end_ms: en, text: s })
            }
        },
        _ => None,
    }
}

/// The cues of an SRT or WebVTT text.
#[verifier::rlimit(30)]
pub fn parse_srt_vtt(content: &[char]) -> (r: Vec<Cue>)
    ensures
        cues_view(r@) == parse_srt_vtt_spec(content@),
{
    let norm = without_cr_chars(content);
    let sep = vec!['\n', '\n'];
    assert(sep@ =~= blank_line());
    let parts = split_chars(norm.as_slice(), sep.as_slice());
    let ghost p = views(parts@);
    let mut out: Vec<Cue> = Vec::new();
    let mut i: usize = 0;
    assert(p.take(0) =~= Seq::<Seq<char>>::empty());
    while i < parts.len()
        invariant
            0 <= i <= parts@.len(),
            p == views(parts@),
            p == block_parts(content@),
            cues_view(out@) == cues_of(p.take(i as int)),
        decreases parts@.len() - i,
    {
        assert(p.take(i + 1).drop_last() =~= p.take(i as int));
        assert(p.take(i + 1).last() == parts@[i as int]@);
        let ghost before = cues_view(out@);
        match cue_from_part(parts[i].as_slice()) {
            Some(c) => {
                out.push(c);
                assert(cues_view(out@) =~= before.push(out@.last()@));
            },
            None => {},
        }
        i = i + 1;
    }
    assert(p.take(parts@.len() as int) =~= p);
    out
}

pub open spec fn srt_arrow() -> Seq<char> {
    seq![' ', '-', '-', '>', ' ']
}

/// Entry `i` of an SRT text: its number, the timing line and the text, then a
/// blank line.
pub open spec fn srt_entry(i: int, c: CueSpec) -> Seq<char> {
    dec_digits((i + 1) as nat) + nl() + fmt_ts_spec(c.0) + srt_arrow() + fmt_ts_spec(c.1) + nl()
        + c.2 + blank_line()
}

pub open spec fn srt_body(cues: Seq<CueSpec>) -> Seq<char>
    decreases cues.len(),
{
    if cues.len() == 0 {
        Seq::empty()
    } else {
        srt_body(cues.drop_last()) + srt_entry(cues.len() - 1, cues.last())
    }
}

/// A WebVTT timestamp: the SRT one with `'.'` in place of `','`.
pub open spec fn vtt_ts(ms: u64) -> Seq<char> {
    replace_seq(fmt_ts_spec(ms), seq![','], seq!['.'])
}

pub open spec fn vtt_entry(c: CueSpec) -> Seq<char> {
    vtt_ts(c.0) + srt_arrow() + vtt_ts(c.1) + nl() + c.2 + blank_line()
}

pub open spec fn vtt_body(cues: Seq<CueSpec>) -> Seq<char>
    decreases cues.len(),
{
    if cues.len() == 0 {
        Seq::empty()
    } else {
        vtt_body(cues.drop_last()) + vtt_entry(cues.last())
    }
}

/// One `Dialogue:` line of an ASS text, its line breaks written as `\N`.
pub open spec fn ass_line(c: CueSpec) -> Seq<char> {
    "Dialogue: 0,"@ + fmt_ass_ts_spec(c.0) + seq![','] + fmt_ass_ts_spec(c.1)
        + ",Default,,0,0,0,,"@ + replace_seq(c.2, nl(), seq!['\\', 'N']) + nl()
}

pub open spec fn ass_body(cues: Seq<CueSpec>) -> Seq<char>
    decreases cues.len(),
{
    if cues.len() == 0 {
        Seq::empty()
    } else {
        ass_body(cues.drop_last()) + ass_line(cues.last())
    }
}

/// Appends the characters of `s`.
pub fn push_str_chars(out: &mut Vec<char>, s: &str)
    ensures
        final(out)@ == old(out)@ + s@,
{
    let cs = chars_of(s);
    extend_chars(out, cs.as_slice());
}

/// The text of `cue` as characters.
pub fn cue_text(cue: &Cue) -> (r: Vec<char>)
    ensures
        r@ == cue@.2,
{
    chars_of(cue.text.as_str())
}

/// The SRT entry of cue number `i` (counting from 0).
fn srt_entry_chars(i: usize, cue: &Cue) -> (r: Vec<char>)
    requires
        i < usize::MAX,
    ensures
        r@ == srt_entry(i as int, cue@),
{
    let mut out = decimal((i + 1) as u64);
    out.push('\n');
    let st = fmt_ts(cue.start_ms);
    extend_chars(&mut out, st.as_slice());
    let arr = vec![' ', '-', '-', '>', ' '];
    assert(arr@ =~= srt_arrow());
    extend_chars(&mut out, arr.as_slice());
    let en = fmt_ts(cue.end_ms);
    extend_chars(&mut out, en.as_slice());
    out.push('\n');
    let text = cue_text(cue);
    extend_chars(&mut out, text.as_slice());
    out.push('\n');
    out.push('\n');
    assert(out@ =~= srt_entry(i as int, cue@));
    out
}

/// Appends the SRT entries of `cues`.
pub fn write_srt_body(out: &mut Vec<char>, cues: &[Cue])
    ensures
        final(out)@ == old(out)@ + srt_body(cues_view(cues@)),
{
    let ghost cv = cues_view(cues@);
    let mut i: usize = 0;
    assert(cv.take(0) =~= Seq::<CueSpec>::empty());
    assert(out@ =~= old(out)@ + srt_body(cv.take(0)));
    while i < cues.len()
        invariant
            0 <= i <= cues@.len(),
            cv == cues_view(cues@),
            out@ == old(out)@ + srt_body(cv.take(i as int)),
        decreases cues@.len() - i,
    {
        assert(cv.take(i + 1).drop_last() =~= cv.take(i as int));
        assert(cv.take(i + 1).last() == cues@[i as int]@);
        let ghost before = out@;
        let e = srt_entry_chars(i, &cues[i]);
        extend_chars(out, e.as_slice());
        assert(out@ =~= before + srt_entry(i as int, cues@[i as int]@));
        i = i + 1;
    }
    assert(cv.take(cues@.len() as int) =~= cv);
}

/// A timestamp written the WebVTT way.
fn vtt_timestamp(ms: u64) -> (r: Vec<char>)
    ensures
        r@ == vtt_ts(ms),
{
    let comma = vec![','];
    let dot = vec!['.'];
    assert(comma@ =~= seq![',']);
    assert(dot@ =~= seq!['.']);
    let t = fmt_ts(ms);
    replace_chars(t.as_slice(), comma.as_slice(), dot.as_slice())
}

/// The WebVTT entry of one cue.
fn vtt_entry_chars(cue: &Cue) -> (r: Vec<char>)
    ensures
        r@ == vtt_entry(cue@),
{
    let mut out = vtt_timestamp(cue.start_ms);
    let arr = vec![' ', '-', '-', '>', ' '];
    assert(arr@ =~= srt_arrow());
    extend_chars(&mut out, arr.as_slice());
    let en = vtt_timestamp(cue.end_ms);
    extend_chars(&mut out, en.as_slice());
    out.push('\n');
    let text = cue_text(cue);
    extend_chars(&mut out, text.as_slice());
    out.push('\n');
    out.push('\n');
    assert(out@ =~= vtt_entry(cue@));
    out
}

/// Appends the WebVTT entries of `cues`.
pub fn write_vtt_body(out: &mut Vec<char>, cues: &[Cue])
    ensures
        final(out)@ == old(out)@ + vtt_body(cues_view(cues@)),
{
    let ghost cv = cues_view(cues@);
    let mut i: usize = 0;
    assert(cv.take(0) =~= Seq::<CueSpec>::empty());
    assert(out@ =~= old(out)@ + vtt_body(cv.take(0)));
    while i < cues.len()
        invariant
            0 <= i <= cues@.len(),
            cv == cues_view(cues@),
            out@ == old(out)@ + vtt_body(cv.take(i as int)),
        decreases cues@.len() - i,
    {
        assert(cv.take(i + 1).drop_last() =~= cv.take(i as int));
        assert(cv.take(i + 1).last() == cues@[i as int]@);
        let ghost before = out@;
        let e = vtt_entry_chars(&cues[i]);
        extend_chars(out, e.as_slice());
        assert(out@ =~= before + vtt_entry(cues@[i as int]@));
        i = i + 1;
    }
    assert(cv.take(cues@.len() as int) =~= cv);
}

/// The ASS `Dialogue:` line of one cue.
fn ass_line_chars(cue: &Cue) -> (r: Vec<char>)
    ensures
        r@ == ass_line(cue@),
{
    let nlv = vec!['\n'];
    let esc = vec!['\\', 'N'];
    assert(nlv@ =~= nl());
    assert(esc@ =~= seq!['\\', 'N']);
    let mut out = chars_of("Dialogue: 0,");
    let st = fmt_ass_ts(cue.start_ms);
    extend_chars(&mut out, st.as_slice());
    out.push(',');
    let en = fmt_ass_ts(cue.end_ms);
    extend_chars(&mut out, en.as_slice());
    push_str_chars(&mut out, ",Default,,0,0,0,,");
    let text = cue_text(cue);
    let escaped = replace_chars(text.as_slice(), nlv.as_slice(), esc.as_slice());
    extend_chars(&mut out, escaped.as_slice());
    out.push('\n');
    assert(out@ =~= ass_line(cue@));
    out
}

/// Appends the ASS `Dialogue:` lines of `cues`.
pub fn write_ass_body(out: &mut Vec<char>, cues: &[Cue])
    ensures
        final(out)@ == old(out)@ + ass_body(cues_view(cues@)),
{
    let ghost cv = cues_view(cues@);
    let mut i: usize = 0;
    assert(cv.take(0) =~= Seq::<CueSpec>::empty());
    assert(out@ =~= old(out)@ + ass_body(cv.take(0)));
    while i < cues.len()
        invariant
            0 <= i <= cues@.len(),
            cv == cues_view(cues@),
            out@ == old(out)@ + ass_body(cv.take(i as int)),
        decreases cues@.len() - i,
    {
        assert(cv.take(i + 1).drop_last() =~= cv.take(i as int));
        assert(cv.take(i + 1).last() == cues@[i as int]@);
        let ghost before = out@;
        let e = ass_line_chars(&cues[i]);
        extend_chars(out, e.as_slice());
        assert(out@ =~= before + ass_line(cues@[i as int]@));
        i = i + 1;
    }
    assert(cv.take(cues@.len() as int) =~= cv);
}

} // verus!
