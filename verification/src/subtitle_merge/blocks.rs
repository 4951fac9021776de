//! Subtitle blocks (a timing line and the text under it) as SRT and WebVTT
//! files hold them, and the line-by-line merge of two such files.

use vstd::prelude::*;
use crate::text::{seq_contains, find_from, decimal, dec_digits};
use crate::text::split::{
    split_seq, join_seq, trim, views, split_chars, join_chars, trim_chars, slice_vec,
};

verus! {

/// `s` without its carriage returns.
pub open spec fn without_cr(s: Seq<char>) -> Seq<char>
    decreases s.len(),
{
    if s.len() == 0 {
        s
    } else if s.last() == '\r' {
        without_cr(s.drop_last())
    } else {
        without_cr(s.drop_last()).push(s.last())
    }
}

pub fn without_cr_chars(s: &[char]) -> (r: Vec<char>)
    ensures
        r@ == without_cr(s@),
{
    let mut out: Vec<char> = Vec::new();
    let mut i: usize = 0;
    assert(s@.take(0) =~= Seq::<char>::empty());
    while i < s.len()
        invariant
            0 <= i <= s@.len(),
            out@ == without_cr(s@.take(i as int)),
        decreases s@.len() - i,
    {
        assert(s@.take(i + 1).drop_last() =~= s@.take(i as int));
        if s[i] != '\r' {
            out.push(s[i]);
        }
        i = i + 1;
    }
    assert(s@.take(s@.len() as int) =~= s@);
    out
}

pub open spec fn nl() -> Seq<char> {
    seq!['\n']
}

pub open spec fn blank_line() -> Seq<char> {
    seq!['\n', '\n']
}

pub open spec fn arrow() -> Seq<char> {
    seq!['-', '-', '>']
}

/// The lines of one block: the block trimmed, then split at `'\n'`.
pub open spec fn block_lines(part: Seq<char>) -> Seq<Seq<char>> {
    split_seq(trim(part), nl())
}

/// The blocks of a text: split at blank lines once carriage returns are gone.
pub open spec fn block_parts(content: Seq<char>) -> Seq<Seq<char>> {
    split_seq(without_cr(content), blank_line())
}

/// The first of `lines`, from `k` on, that holds `-->`, or -1.
pub open spec fn first_arrow_from(lines: Seq<Seq<char>>, k: int) -> int
    decreases lines.len() - k,
{
    if k < 0 || k >= lines.len() {
        -1
    } else if seq_contains(lines[k], arrow()) {
        k
    } else {
        first_arrow_from(lines, k + 1)
    }
}

pub open spec fn first_arrow(lines: Seq<Seq<char>>) -> int {
    first_arrow_from(lines, 0)
}

/// A timing line and the text under it.
pub type BlockSpec = (Seq<char>, Seq<char>);

/// An SRT block: a number line, a timing line, then at least one text line.
pub open spec fn srt_block(part: Seq<char>) -> Option<BlockSpec> {
    let l = block_lines(part);
    if l.len() >= 3 {
        Some((l[1], join_seq(l.skip(2), nl())))
    } else {
        None
    }
}

/// A WebVTT block: the first line with `-->` is the timing, and at least one
/// line follows it.
pub open spec fn vtt_block(part: Seq<char>) -> Option<BlockSpec> {
    let l = block_lines(part);
    let idx = first_arrow(l);
    if idx >= 0 && idx + 1 < l.len() {
        Some((l[idx], join_seq(l.skip(idx + 1), nl())))
    } else {
        None
    }
}

pub open spec fn block_of(part: Seq<char>, vtt: bool) -> Option<BlockSpec> {
    if vtt {
        vtt_block(part)
    } else {
        srt_block(part)
    }
}

/// The blocks that `parts` hold, in order; parts that hold none are skipped.
pub open spec fn blocks_of(parts: Seq<Seq<char>>, vtt: bool) -> Seq<BlockSpec>
    decreases parts.len(),
{
    if parts.len() == 0 {
        Seq::empty()
    } else {
        let rest = blocks_of(parts.drop_last(), vtt);
        match block_of(parts.last(), vtt) {
            Some(b) => rest.push(b),
            None => rest,
        }
    }
}

/// The blocks of an SRT (`vtt` false) or WebVTT (`vtt` true) text.
pub open spec fn parse_blocks_spec(content: Seq<char>, vtt: bool) -> Seq<BlockSpec> {
    blocks_of(block_parts(content), vtt)
}

/// A block held as characters.
pub struct SubBlock {
    pub timing: Vec<char>,
    pub text: Vec<char>,
}

impl View for SubBlock {
    type V = BlockSpec;

    open spec fn view(&self) -> BlockSpec {
        (self.timing@, self.text@)
    }
}

pub open spec fn blocks_view(v: Seq<SubBlock>) -> Seq<BlockSpec> {
    Seq::new(v.len(), |i: int| v[i]@)
}

/// Whether `line` holds `-->`.
pub fn has_arrow(line: &[char]) -> (r: bool)
    ensures
        r == seq_contains(line@, arrow()),
{
    let a = vec!['-', '-', '>'];
    assert(a@ =~= arrow());
    match find_from(line, a.as_slice(), 0) {
        Some(i) => {
            assert(crate::text::occurs_at(line@, arrow(), i as int));
            true
        },
        None => false,
    }
}

/// The index of the first line that holds `-->`.
pub fn find_arrow(lines: &[Vec<char>]) -> (r: Option<usize>)
    ensures
        match r {
            Some(i) => i < lines@.len() && first_arrow(views(lines@)) == i as int,
            None => first_arrow(views(lines@)) == -1,
        },
{
    let ghost l = views(lines@);
    let mut i: usize = 0;
    while i < lines.len()
        invariant
            0 <= i <= lines@.len(),
            l == views(lines@),
            first_arrow(l) == first_arrow_from(l, i as int),
        decreases lines@.len() - i,
    {
        if has_arrow(lines[i].as_slice()) {
            return Some(i);
        }
        i = i + 1;
    }
    None
}

/// The lines of one block.
pub fn lines_of_block(part: &[char]) -> (r: Vec<Vec<char>>)
    ensures
        views(r@) == block_lines(part@),
        r@.len() >= 1,
{
    let t = trim_chars(part);
    let nlv = vec!['\n'];
    assert(nlv@ =~= nl());
    let r = split_chars(t.as_slice(), nlv.as_slice());
    proof {
        crate::subtitle_merge::blocks::lemma_split_nonempty(trim(part@), nl());
    }
    r
}

/// `split_seq` gives at least one piece.
pub proof fn lemma_split_nonempty(t: Seq<char>, sep: Seq<char>)
    ensures
        split_seq(t, sep).len() >= 1,
    decreases t.len(),
{
    if sep.len() > 0 {
        let i = crate::text::split::first_occ(t, sep);
        if i >= 0 {
            crate::text::split::lemma_first_occ(t, sep);
        }
    }
}

/// The lines of `lines` from `from` on, joined with `'\n'`.
pub fn join_from(lines: &[Vec<char>], from: usize) -> (r: Vec<char>)
    requires
        from <= lines@.len(),
    ensures
        r@ == join_seq(views(lines@).skip(from as int), nl()),
{
    let mut rest: Vec<Vec<char>> = Vec::new();
    let mut k = from;
    while k < lines.len()
        invariant
            from <= k <= lines@.len(),
            views(rest@) == views(lines@).subrange(from as int, k as int),
        decreases lines@.len() - k,
    {
        let piece = slice_vec(lines[k].as_slice(), 0, lines[k].len());
        assert(piece@ =~= lines@[k as int]@);
        let ghost before = views(rest@);
        rest.push(piece);
        assert(views(rest@) =~= before.push(piece@));
        assert(views(rest@) =~= views(lines@).subrange(from as int, k + 1));
        k = k + 1;
    }
    assert(views(lines@).subrange(from as int, lines@.len() as int) =~= views(lines@).skip(
        from as int,
    ));
    let nlv = vec!['\n'];
    assert(nlv@ =~= nl());
    join_chars(rest.as_slice(), nlv.as_slice())
}

/// The block that one part holds, if any.
pub fn block_from_part(part: &[char], vtt: bool) -> (r: Option<SubBlock>)
    ensures
        match r {
            Some(b) => block_of(part@, vtt) == Some(b@),
            None => block_of(part@, vtt) is None,
        },
{
    let lines = lines_of_block(part);
    let ghost l = views(lines@);
    if vtt {
        match find_arrow(lines.as_slice()) {
            None => None,
            Some(idx) => {
                if idx < lines.len() - 1 {
                    let timing = slice_vec(lines[idx].as_slice(), 0, lines[idx].len());
                    assert(timing@ =~= l[idx as int]);
                    let text = join_from(lines.as_slice(), idx + 1);
                    Some(SubBlock { timing, text })
                } else {
                    None
                }
            },
        }
    } else {
        if lines.len() >= 3 {
            let timing = slice_vec(lines[1].as_slice(), 0, lines[1].len());
            assert(timing@ =~= l[1]);
            let text = join_from(lines.as_slice(), 2);
            Some(SubBlock { timing, text })
        } else {
            None
        }
    }
}

/// The blocks of an SRT (`vtt` false) or WebVTT (`vtt` true) text.
#[verifier::rlimit(30)]
pub fn parse_blocks(content: &[char], vtt: bool) -> (r: Vec<SubBlock>)
    ensures
        blocks_view(r@) == parse_blocks_spec(content@, vtt),
{
    let norm = without_cr_chars(content);
    let sep = vec!['\n', '\n'];
    assert(sep@ =~= blank_line());
    let parts = split_chars(norm.as_slice(), sep.as_slice());
    let ghost p = views(parts@);
    let mut out: Vec<SubBlock> = Vec::new();
    let mut i: usize = 0;
    assert(p.take(0) =~= Seq::<Seq<char>>::empty());
    while i < parts.len()
        invariant
            0 <= i <= parts@.len(),
            p == views(parts@),
            blocks_view(out@) == blocks_of(p.take(i as int), vtt),
        decreases parts@.len() - i,
    {
        assert(p.take(i + 1).drop_last() =~= p.take(i as int));
        assert(p.take(i + 1).last() == parts@[i as int]@);
        let ghost before = blocks_view(out@);
        match block_from_part(parts[i].as_slice(), vtt) {
            Some(b) => {
                out.push(b);
                assert(blocks_view(out@) =~= before.push(out@.last()@));
            },
            None => {},
        }
        i = i + 1;
    }
    assert(p.take(parts@.len() as int) =~= p);
    out
}

/// The lines of entry `i` of a merge: its number when `numbered`, then the
/// primary's timing and text followed by the secondary's text, or, past the
/// primary's end, the secondary's timing and text; then an empty line.
pub open spec fn entry_lines(
    p: Seq<BlockSpec>,
    s: Seq<BlockSpec>,
    numbered: bool,
    i: int,
) -> Seq<Seq<char>> {
    let num: Seq<Seq<char>> = if numbered {
        seq![dec_digits((i + 1) as nat)]
    } else {
        Seq::empty()
    };
    let body: Seq<Seq<char>> = if i < p.len() {
        if i < s.len() {
            seq![p[i].0, p[i].1, s[i].1]
        } else {
            seq![p[i].0, p[i].1]
        }
    } else if i < s.len() {
        seq![s[i].0, s[i].1]
    } else {
        Seq::empty()
    };
    num + body + seq![Seq::<char>::empty()]
}

/// The lines of the first `n` entries of a merge.
pub open spec fn merged_lines(p: Seq<BlockSpec>, s: Seq<BlockSpec>, numbered: bool, n: nat) -> Seq<
    Seq<char>,
>
    decreases n,
{
    if n == 0 {
        Seq::empty()
    } else {
        merged_lines(p, s, numbered, (n - 1) as nat) + entry_lines(p, s, numbered, n - 1)
    }
}

pub open spec fn crlf() -> Seq<char> {
    seq!['\r', '\n']
}

/// The merge of two block lists: the header lines, then one entry per index
/// up to the longer list's length, all joined with CRLF.
pub open spec fn merge_spec(
    p: Seq<BlockSpec>,
    s: Seq<BlockSpec>,
    header: Seq<Seq<char>>,
    numbered: bool,
) -> Seq<char> {
    let n = if p.len() >= s.len() {
        p.len()
    } else {
        s.len()
    };
    join_seq(header + merged_lines(p, s, numbered, n), crlf())
}

fn copy_chars(v: &Vec<char>) -> (r: Vec<char>)
    ensures
        r@ == v@,
{
    let r = slice_vec(v.as_slice(), 0, v.len());
    assert(r@ =~= v@);
    r
}

/// Merges two block lists line by line.
#[verifier::rlimit(30)]
pub fn merge(p: &[SubBlock], s: &[SubBlock], header: Vec<Vec<char>>, numbered: bool) -> (r: Vec<
    char,
>)
    ensures
        r@ == merge_spec(blocks_view(p@), blocks_view(s@), views(header@), numbered),
{
    let ghost pv = blocks_view(p@);
    let ghost sv = blocks_view(s@);
    let max_len = if p.len() >= s.len() {
        p.len()
    } else {
        s.len()
    };
    let mut out = header;
    let ghost h = views(out@);
    let mut i: usize = 0;
    assert(h + merged_lines(pv, sv, numbered, 0) =~= h);
    while i < max_len
        invariant
            0 <= i <= max_len,
            max_len == (if p@.len() >= s@.len() {
                p@.len()
            } else {
                s@.len()
            }),
            pv == blocks_view(p@),
            sv == blocks_view(s@),
            views(out@) == h + merged_lines(pv, sv, numbered, i as nat),
        decreases max_len - i,
    {
        let ghost before = views(out@);
        let ghost mut added: Seq<Seq<char>> = Seq::empty();
        if numbered {
            let d = decimal((i + 1) as u64);
            out.push(d);
            proof {
                added = added.push(dec_digits((i + 1) as nat));
            }
        }
        if i < p.len() {
            out.push(copy_chars(&p[i].timing));
            out.push(copy_chars(&p[i].text));
            proof {
                added = added.push(pv[i as int].0).push(pv[i as int].1);
            }
            if i < s.len() {
                out.push(copy_chars(&s[i].text));
                proof {
                    added = added.push(sv[i as int].1);
                }
            }
        } else if i < s.len() {
            out.push(copy_chars(&s[i].timing));
            out.push(copy_chars(&s[i].text));
            proof {
                added = added.push(sv[i as int].0).push(sv[i as int].1);
            }
        }
        out.push(Vec::new());
        proof {
            added = added.push(Seq::<char>::empty());
            assert(added =~= entry_lines(pv, sv, numbered, i as int));
            assert(views(out@) =~= before + added);
            assert(h + merged_lines(pv, sv, numbered, (i + 1) as nat) =~= before + added);
        }
        i = i + 1;
    }
    let sep = vec!['\r', '\n'];
    assert(sep@ =~= crlf());
    join_chars(out.as_slice(), sep.as_slice())
}

} // verus!
