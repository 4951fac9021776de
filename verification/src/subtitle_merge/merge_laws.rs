//! What a bilingual merge keeps: one entry for every index up to the longer
//! input, each holding the primary's timing and text (with the secondary's
//! text under it where the secondary has that block), or, past the primary's
//! end, the secondary's own timing and text.

use vstd::prelude::*;
use crate::text::{dec_digits, occurs_at, seq_contains};
use crate::text::split::join_seq;
use crate::subtitle_merge::blocks::{
    BlockSpec, crlf, entry_lines, merge_spec, merged_lines,
};

verus! {

/// The lines `entries` hold, one entry after another.
pub open spec fn flat(entries: Seq<Seq<Seq<char>>>) -> Seq<Seq<char>>
    decreases entries.len(),
{
    if entries.len() == 0 {
        Seq::empty()
    } else {
        flat(entries.drop_last()) + entries.last()
    }
}

/// The lines that carry block `i` in a merge of `p` and `s`: the primary's
/// timing and text and, where the secondary has block `i`, its text; past
/// the primary's end, the secondary's timing and text.
pub open spec fn carried(p: Seq<BlockSpec>, s: Seq<BlockSpec>, i: int) -> Seq<Seq<char>> {
    if i < p.len() {
        if i < s.len() {
            seq![p[i].0, p[i].1, s[i].1]
        } else {
            seq![p[i].0, p[i].1]
        }
    } else {
        seq![s[i].0, s[i].1]
    }
}

/// The larger of two lengths.
pub open spec fn longer(a: nat, b: nat) -> nat {
    if a >= b {
        a
    } else {
        b
    }
}

proof fn lemma_join_append(x: Seq<Seq<char>>, y: Seq<Seq<char>>, sep: Seq<char>)
    requires
        x.len() > 0,
        y.len() > 0,
    ensures
        join_seq(x + y, sep) == join_seq(x, sep) + sep + join_seq(y, sep),
    decreases y.len(),
{
    if y.len() == 1 {
        assert((x + y).drop_last() =~= x);
        assert((x + y).last() == y[0]);
    } else {
        lemma_join_append(x, y.drop_last(), sep);
        assert((x + y).drop_last() =~= x + y.drop_last());
        assert((x + y).last() == y.last());
        assert(join_seq(x + y, sep) =~= join_seq(x, sep) + sep + join_seq(y, sep));
    }
}

/// Joined lines hold, one after another, any run of consecutive lines.
proof fn lemma_join_holds_run(a: Seq<Seq<char>>, b: Seq<Seq<char>>, c: Seq<Seq<char>>, sep: Seq<char>)
    requires
        b.len() > 0,
    ensures
        seq_contains(join_seq(a + b + c, sep), join_seq(b, sep)),
{
    let jb = join_seq(b, sep);
    let ab = a + b;
    let at: int = if a.len() > 0 {
        (join_seq(a, sep) + sep).len() as int
    } else {
        0
    };
    let jab = join_seq(ab, sep);
    if a.len() > 0 {
        lemma_join_append(a, b, sep);
    } else {
        assert(ab =~= b);
    }
    assert(jab.subrange(at, at + jb.len()) =~= jb);
    if c.len() > 0 {
        lemma_join_append(ab, c, sep);
        assert((a + b + c) =~= ab + c);
        assert(join_seq(a + b + c, sep).subrange(at, at + jb.len()) =~= jab.subrange(at, at + jb.len()));
    } else {
        assert(a + b + c =~= ab);
    }
    assert(occurs_at(join_seq(a + b + c, sep), jb, at));
}

proof fn lemma_merged_flat(p: Seq<BlockSpec>, s: Seq<BlockSpec>, numbered: bool, n: nat)
    ensures
        merged_lines(p, s, numbered, n) == flat(
            Seq::new(n, |i: int| entry_lines(p, s, numbered, i)),
        ),
    decreases n,
{
    if n > 0 {
        lemma_merged_flat(p, s, numbered, (n - 1) as nat);
        let e = Seq::new(n, |i: int| entry_lines(p, s, numbered, i));
        assert(e.drop_last() =~= Seq::new((n - 1) as nat, |i: int| entry_lines(p, s, numbered, i)));
    }
}

proof fn lemma_flat_at(e: Seq<Seq<Seq<char>>>, i: int)
    requires
        0 <= i < e.len(),
    ensures
        flat(e) == flat(e.take(i)) + e[i] + flat(e.skip(i + 1)),
    decreases e.len(),
{
    if i == e.len() - 1 {
        assert(e.take(i) =~= e.drop_last());
        assert(e.skip(i + 1) =~= Seq::<Seq<Seq<char>>>::empty());
        assert(flat(e) =~= flat(e.take(i)) + e[i] + flat(e.skip(i + 1)));
    } else {
        let d = e.drop_last();
        lemma_flat_at(d, i);
        assert(d.take(i) =~= e.take(i));
        assert(d[i] == e[i]);
        assert(e.skip(i + 1).drop_last() =~= d.skip(i + 1));
        assert(e.skip(i + 1).last() == e.last());
        assert(flat(e.skip(i + 1)) == flat(d.skip(i + 1)) + e.last());
        assert(flat(e) =~= flat(e.take(i)) + e[i] + flat(e.skip(i + 1)));
    }
}

/// A merge is its header then exactly one entry for each index below the
/// longer input's length, joined with CRLF; entry `i` is its number (when
/// numbered), the lines that carry block `i`, then an empty line.
pub proof fn lemma_merge_entries(p: Seq<BlockSpec>, s: Seq<BlockSpec>, header: Seq<Seq<char>>, numbered: bool)
    ensures
        exists|entries: Seq<Seq<Seq<char>>>|
            #![trigger flat(entries)]
            entries.len() == longer(p.len(), s.len()) && merge_spec(p, s, header, numbered) == join_seq(
                header + flat(entries),
                crlf(),
            ) && forall|i: int|
                0 <= i < entries.len() ==> #[trigger] entries[i] == (if numbered {
                    seq![dec_digits((i + 1) as nat)]
                } else {
                    Seq::<Seq<char>>::empty()
                }) + carried(p, s, i) + seq![Seq::<char>::empty()],
{
    let n = longer(p.len(), s.len());
    let e = Seq::new(n, |i: int| entry_lines(p, s, numbered, i));
    lemma_merged_flat(p, s, numbered, n);
    assert forall|i: int| 0 <= i < e.len() implies #[trigger] e[i] == (if numbered {
        seq![dec_digits((i + 1) as nat)]
    } else {
        Seq::<Seq<char>>::empty()
    }) + carried(p, s, i) + seq![Seq::<char>::empty()] by {
        assert(e[i] == entry_lines(p, s, numbered, i));
    }
    assert(merge_spec(p, s, header, numbered) == join_seq(header + flat(e), crlf()));
}

/// Every block of both inputs reaches the merge: for each index below the
/// longer input's length, the lines that carry that block stand in the merged
/// text one after another, CRLF between them.
pub proof fn lemma_merge_keeps_every_block(
    p: Seq<BlockSpec>,
    s: Seq<BlockSpec>,
    header: Seq<Seq<char>>,
    numbered: bool,
    i: int,
)
    requires
        0 <= i < longer(p.len(), s.len()),
    ensures
        seq_contains(merge_spec(p, s, header, numbered), join_seq(carried(p, s, i), crlf())),
        i < p.len() && i < s.len() ==> join_seq(carried(p, s, i), crlf()) == p[i].0 + crlf() + p[i].1
            + crlf() + s[i].1,
        i < p.len() && i >= s.len() ==> join_seq(carried(p, s, i), crlf()) == p[i].0 + crlf() + p[i].1,
        i >= p.len() ==> join_seq(carried(p, s, i), crlf()) == s[i].0 + crlf() + s[i].1,
{
    let n = longer(p.len(), s.len());
    let e = Seq::new(n, |k: int| entry_lines(p, s, numbered, k));
    lemma_merged_flat(p, s, numbered, n);
    lemma_flat_at(e, i);
    let num: Seq<Seq<char>> = if numbered {
        seq![dec_digits((i + 1) as nat)]
    } else {
        Seq::empty()
    };
    let core = carried(p, s, i);
    assert(e[i] =~= num + core + seq![Seq::<char>::empty()]);
    let a = header + flat(e.take(i)) + num;
    let c = seq![Seq::<char>::empty()] + flat(e.skip(i + 1));
    assert(header + flat(e) =~= a + core + c);
    assert(merge_spec(p, s, header, numbered) == join_seq(header + flat(e), crlf()));
    lemma_join_holds_run(a, core, c, crlf());
    reveal_with_fuel(join_seq, 4);
    if i < p.len() && i < s.len() {
        assert(core.drop_last() =~= seq![p[i].0, p[i].1]);
        assert(core.drop_last().drop_last() =~= seq![p[i].0]);
    } else if i < p.len() {
        assert(core.drop_last() =~= seq![p[i].0]);
    } else {
        assert(core.drop_last() =~= seq![s[i].0]);
    }
}

} // verus!
