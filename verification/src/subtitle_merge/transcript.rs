//! Flattening subtitle blocks into transcript lines: markup tags dropped,
//! blank lines skipped, and a line equal to the one before it collapsed.

use vstd::prelude::*;
use crate::text::split::{split_seq, trim, views, split_chars, trim_chars};
use crate::subtitle_merge::blocks::{BlockSpec, SubBlock, blocks_view, nl};

verus! {

/// Whether a `<` is still open at the end of `s`.
pub open spec fn tag_open_after(s: Seq<char>) -> bool
    decreases s.len(),
{
    if s.len() == 0 {
        false
    } else if s.last() == '<' {
        true
    } else if s.last() == '>' {
        false
    } else {
        tag_open_after(s.drop_last())
    }
}

/// `s` without the characters from each `<` up to the next `>`, both included.
pub open spec fn strip_tags_spec(s: Seq<char>) -> Seq<char>
    decreases s.len(),
{
    if s.len() == 0 {
        s
    } else {
        let r = strip_tags_spec(s.drop_last());
        let c = s.last();
        if c == '<' || c == '>' || tag_open_after(s.drop_last()) {
            r
        } else {
            r.push(c)
        }
    }
}

pub fn strip_tags(s: &[char]) -> (r: Vec<char>)
    ensures
        r@ == strip_tags_spec(s@),
{
    let mut out: Vec<char> = Vec::new();
    let mut in_tag = false;
    let mut i: usize = 0;
    assert(s@.take(0) =~= Seq::<char>::empty());
    while i < s.len()
        invariant
            0 <= i <= s@.len(),
            out@ == strip_tags_spec(s@.take(i as int)),
            in_tag == tag_open_after(s@.take(i as int)),
        decreases s@.len() - i,
    {
        assert(s@.take(i + 1).drop_last() =~= s@.take(i as int));
        let c = s[i];
        if c == '<' {
            in_tag = true;
        } else if c == '>' {
            in_tag = false;
        } else if !in_tag {
            out.push(c);
        }
        i = i + 1;
    }
    assert(s@.take(s@.len() as int) =~= s@);
    out
}

/// The text lines of `blocks`, in order.
pub open spec fn raw_lines(blocks: Seq<BlockSpec>) -> Seq<Seq<char>>
    decreases blocks.len(),
{
    if blocks.len() == 0 {
        Seq::empty()
    } else {
        raw_lines(blocks.drop_last()) + split_seq(blocks.last().1, nl())
    }
}

/// A text line without tags and surrounding whitespace.
pub open spec fn clean_line(raw: Seq<char>) -> Seq<char> {
    trim(strip_tags_spec(raw))
}

/// The cleaned lines of `raws`, with empty ones dropped and each one equal to
/// the line kept before it dropped.
pub open spec fn dedupe(raws: Seq<Seq<char>>) -> Seq<Seq<char>>
    decreases raws.len(),
{
    if raws.len() == 0 {
        Seq::empty()
    } else {
        let r = dedupe(raws.drop_last());
        let l = clean_line(raws.last());
        if l.len() == 0 || (r.len() > 0 && r.last() == l) {
            r
        } else {
            r.push(l)
        }
    }
}

/// Transcript lines are never empty, and no line repeats the one before it.
pub proof fn lemma_dedupe_lines(raws: Seq<Seq<char>>)
    ensures
        forall|i: int| 0 <= i < dedupe(raws).len() ==> (#[trigger] dedupe(raws)[i]).len() > 0,
        forall|i: int|
            0 <= i < dedupe(raws).len() - 1 ==> #[trigger] dedupe(raws)[i] != dedupe(raws)[i + 1],
    decreases raws.len(),
{
    if raws.len() > 0 {
        let r = dedupe(raws.drop_last());
        lemma_dedupe_lines(raws.drop_last());
        let l = clean_line(raws.last());
        if l.len() == 0 || (r.len() > 0 && r.last() == l) {
            assert(dedupe(raws) == r);
        } else {
            let d = r.push(l);
            assert(dedupe(raws) == d);
            assert forall|i: int| 0 <= i < d.len() implies (#[trigger] d[i]).len() > 0 by {
                if i < r.len() {
                    assert(d[i] == r[i]);
                }
            }
            assert forall|i: int| 0 <= i < d.len() - 1 implies #[trigger] d[i] != d[i + 1] by {
                if i < r.len() - 1 {
                    assert(d[i] == r[i]);
                    assert(d[i + 1] == r[i + 1]);
                } else {
                    assert(d[i + 1] == l);
                    assert(d[i] == r.last());
                }
            }
        }
    }
}

/// Whether `a` and `b` hold the same characters.
pub fn chars_eq(a: &[char], b: &[char]) -> (r: bool)
    ensures
        r == (a@ == b@),
{
    if a.len() != b.len() {
        return false;
    }
    let mut i: usize = 0;
    while i < a.len()
        invariant
            a@.len() == b@.len(),
            0 <= i <= a@.len(),
            forall|k: int| 0 <= k < i ==> a@[k] == b@[k],
        decreases a@.len() - i,
    {
        if a[i] != b[i] {
            return false;
        }
        i = i + 1;
    }
    assert(a@ =~= b@);
    true
}

/// The transcript lines of `blocks`.
#[verifier::rlimit(30)]
pub fn transcript_lines(blocks: &[SubBlock]) -> (r: Vec<Vec<char>>)
    ensures
        views(r@) == dedupe(raw_lines(blocks_view(blocks@))),
{
    let ghost bv = blocks_view(blocks@);
    let mut lines: Vec<Vec<char>> = Vec::new();
    let mut i: usize = 0;
    assert(bv.take(0) =~= Seq::<BlockSpec>::empty());
    while i < blocks.len()
        invariant
            0 <= i <= blocks@.len(),
            bv == blocks_view(blocks@),
            views(lines@) == dedupe(raw_lines(bv.take(i as int))),
        decreases blocks@.len() - i,
    {
        let nlv = vec!['\n'];
        assert(nlv@ =~= nl());
        let raws = split_chars(blocks[i].text.as_slice(), nlv.as_slice());
        let ghost base = raw_lines(bv.take(i as int));
        let ghost rv = views(raws@);
        let mut j: usize = 0;
        assert(base + rv.take(0) =~= base);
        while j < raws.len()
            invariant
                0 <= j <= raws@.len(),
                rv == views(raws@),
                views(lines@) == dedupe(base + rv.take(j as int)),
            decreases raws@.len() - j,
        {
            let ghost x = base + rv.take(j as int);
            let ghost x1 = base + rv.take(j + 1);
            assert(x1.drop_last() =~= x);
            assert(x1.last() == raws@[j as int]@);
            let stripped = strip_tags(raws[j].as_slice());
            let line = trim_chars(stripped.as_slice());
            let n = lines.len();
            if line.len() == 0 {
            } else if n > 0 && chars_eq(lines[n - 1].as_slice(), line.as_slice()) {
                assert(views(lines@).last() == lines@[n - 1]@);
            } else {
                let ghost before = views(lines@);
                lines.push(line);
                assert(views(lines@) =~= before.push(line@));
            }
            j = j + 1;
        }
        assert(bv.take(i + 1).drop_last() =~= bv.take(i as int));
        assert(bv.take(i + 1).last() == blocks@[i as int]@);
        assert(rv.take(raws@.len() as int) =~= rv);
        i = i + 1;
    }
    assert(bv.take(blocks@.len() as int) =~= bv);
    lines
}

} // verus!
