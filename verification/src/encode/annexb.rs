//! Encoded frames as the media server takes them: Annex B, each NAL unit
//! behind a `00 00 00 01` start code. VideoToolbox hands out frames in AVCC
//! form, each NAL unit behind its big-endian length; a keyframe is sent with
//! the stream's parameter sets in front.

use vstd::prelude::*;

verus! {

pub open spec fn start_code() -> Seq<u8> {
    seq![0u8, 0u8, 0u8, 1u8]
}

/// The big-endian number that `b` holds.
pub open spec fn be_value(b: Seq<u8>) -> nat
    decreases b.len(),
{
    if b.len() == 0 {
        0
    } else {
        be_value(b.drop_last()) * 256 + b.last() as nat
    }
}

/// The NAL units of `avcc` from `off` on, each behind a start code: `None`
/// where a unit's length runs past the end; a tail too short for a length
/// ends the frame.
pub open spec fn units_from(avcc: Seq<u8>, n: nat, off: int) -> Option<Seq<u8>>
    decreases avcc.len() - off,
{
    if n == 0 || off < 0 || off + n > avcc.len() {
        Some(Seq::empty())
    } else {
        let len = be_value(avcc.subrange(off, off + n));
        let body = off + n;
        if body + len > avcc.len() {
            None
        } else {
            match units_from(avcc, n, body + len) {
                Some(rest) => Some(start_code() + avcc.subrange(body, body + len) + rest),
                None => None,
            }
        }
    }
}

/// Each of `sets` behind a start code.
pub open spec fn framed_sets(sets: Seq<Seq<u8>>) -> Seq<u8>
    decreases sets.len(),
{
    if sets.len() == 0 {
        Seq::empty()
    } else {
        framed_sets(sets.drop_last()) + start_code() + sets.last()
    }
}

pub open spec fn bytes_views(v: Seq<Vec<u8>>) -> Seq<Seq<u8>> {
    Seq::new(v.len(), |i: int| v[i]@)
}

/// The Annex B payload of a frame: the parameter sets in front of a
/// keyframe, then its NAL units.
pub open spec fn annexb_spec(sets: Seq<Seq<u8>>, keyframe: bool, avcc: Seq<u8>, n: nat) -> Option<
    Seq<u8>,
> {
    match units_from(avcc, n, 0) {
        Some(units) => Some(
            if keyframe {
                framed_sets(sets)
            } else {
                Seq::empty()
            } + units,
        ),
        None => None,
    }
}

fn push_all(out: &mut Vec<u8>, b: &[u8])
    ensures
        final(out)@ == old(out)@ + b@,
{
    let mut i: usize = 0;
    while i < b.len()
        invariant
            0 <= i <= b@.len(),
            out@ == old(out)@ + b@.take(i as int),
        decreases b@.len() - i,
    {
        out.push(b[i]);
        assert(b@.take(i + 1) =~= b@.take(i as int).push(b@[i as int]));
        i = i + 1;
    }
    assert(b@.take(b@.len() as int) =~= b@);
}

fn push_start_code(out: &mut Vec<u8>)
    ensures
        final(out)@ == old(out)@ + start_code(),
{
    out.push(0);
    out.push(0);
    out.push(0);
    out.push(1);
    assert(out@ =~= old(out)@ + start_code());
}

/// 256 to the power `n`.
pub open spec fn pow256(n: nat) -> nat
    decreases n,
{
    if n == 0 {
        1
    } else {
        256 * pow256((n - 1) as nat)
    }
}

proof fn lemma_be_bound(b: Seq<u8>)
    ensures
        be_value(b) < pow256(b.len()),
    decreases b.len(),
{
    if b.len() > 0 {
        lemma_be_bound(b.drop_last());
        assert(pow256(b.len()) == 256 * pow256((b.len() - 1) as nat));
    }
}

/// The NAL units of a frame in AVCC form, each behind a start code; `None`
/// where a unit's length runs past the end of the frame. `nal_len_size` is
/// the size of the lengths: 1, 2 or 4 bytes with VideoToolbox.
#[verifier::rlimit(40)]
pub fn units_to_annexb(out: &mut Vec<u8>, avcc: &[u8], nal_len_size: usize) -> (ok: bool)
    requires
        1 <= nal_len_size <= 4,
    ensures
        match units_from(avcc@, nal_len_size as nat, 0) {
            Some(units) => ok && final(out)@ == old(out)@ + units,
            None => !ok,
        },
{
    let n = nal_len_size;
    let mut off: usize = 0;
    let ghost start = out@;
    while off <= avcc.len() && n <= avcc.len() - off
        invariant
            1 <= n <= 4,
            n == nal_len_size,
            start == old(out)@,
            0 <= off <= avcc@.len(),
            units_from(avcc@, n as nat, 0) == match units_from(avcc@, n as nat, off as int) {
                Some(rest) => Some(out@.subrange(start.len() as int, out@.len() as int) + rest),
                None => None,
            },
            start.len() <= out@.len(),
            out@.subrange(0, start.len() as int) == start,
        decreases avcc@.len() - off,
    {
        assert(off + n <= avcc@.len());
        let mut len: u64 = 0;
        let mut i: usize = 0;
        assert(avcc@.subrange(off as int, off as int).len() == 0);
        while i < n
            invariant
                1 <= n <= 4,
                0 <= i <= n,
                off + n <= avcc@.len(),
                len == be_value(avcc@.subrange(off as int, off + i)),
                len < pow256(i as nat),
            decreases n - i,
        {
            let ghost sub = avcc@.subrange(off as int, off + i + 1);
            assert(sub.drop_last() =~= avcc@.subrange(off as int, off + i));
            assert(sub.last() == avcc@[off + i]);
            proof {
                lemma_be_bound(sub);
                assert(pow256(0) == 1);
                assert(pow256(1) == 256);
                assert(pow256(2) == 65536);
                assert(pow256(3) == 16777216);
                assert(pow256(4) == 0x1_0000_0000);
            }
            assert(off + i < avcc.len());
            let at: usize = off + i;
            let byte = avcc[at];
            len = len * 256 + byte as u64;
            i = i + 1;
        }
        let body = off + n;
        let ghost unit_len = be_value(avcc@.subrange(off as int, off + n));
        assert(units_from(avcc@, n as nat, off as int) == if body + unit_len > avcc@.len() {
            None
        } else {
            match units_from(avcc@, n as nat, body + unit_len) {
                Some(rest) => Some(start_code() + avcc@.subrange(body as int, body + unit_len) + rest),
                None => None,
            }
        });
        if len > (avcc.len() - body) as u64 {
            return false;
        }
        let end = body + len as usize;
        let ghost before = out@;
        push_start_code(out);
        push_all(out, vstd::slice::slice_subrange(avcc, body, end));
        assert(out@.subrange(start.len() as int, out@.len() as int) =~= before.subrange(
            start.len() as int,
            before.len() as int,
        ) + start_code() + avcc@.subrange(body as int, end as int));
        assert(out@.subrange(0, start.len() as int) =~= before.subrange(0, start.len() as int));
        off = end;
    }
    assert(units_from(avcc@, n as nat, off as int) == Some(Seq::<u8>::empty()));
    assert(out@ =~= start + out@.subrange(start.len() as int, out@.len() as int));
    true
}

/// The Annex B payload of an encoded frame. A keyframe that comes with
/// parameter sets replaces the stored ones; a keyframe is sent with the
/// stored sets in front. `None` where a NAL unit's length runs past the end
/// of the frame (the frame is dropped; the stored sets are still replaced).
pub fn annexb_frame(
    stored_sets: &mut Vec<Vec<u8>>,
    keyframe: bool,
    fresh_sets: Vec<Vec<u8>>,
    avcc: &[u8],
    nal_len_size: usize,
) -> (r: Option<Vec<u8>>)
    requires
        1 <= nal_len_size <= 4,
    ensures
        bytes_views(final(stored_sets)@) == if keyframe && fresh_sets@.len() > 0 {
            bytes_views(fresh_sets@)
        } else {
            bytes_views(old(stored_sets)@)
        },
        match r {
            Some(v) => annexb_spec(bytes_views(final(stored_sets)@), keyframe, avcc@, nal_len_size as nat)
                == Some(v@),
            None => annexb_spec(
                bytes_views(final(stored_sets)@),
                keyframe,
                avcc@,
                nal_len_size as nat,
            ) is None,
        },
{
    if keyframe && fresh_sets.len() > 0 {
        *stored_sets = fresh_sets;
    }
    let mut out: Vec<u8> = Vec::new();
    if keyframe {
        let ghost sets = bytes_views(stored_sets@);
        let mut i: usize = 0;
        assert(sets.take(0) =~= Seq::<Seq<u8>>::empty());
        while i < stored_sets.len()
            invariant
                0 <= i <= stored_sets@.len(),
                sets == bytes_views(stored_sets@),
                out@ == framed_sets(sets.take(i as int)),
            decreases stored_sets@.len() - i,
        {
            assert(sets.take(i + 1).drop_last() =~= sets.take(i as int));
            assert(sets.take(i + 1).last() == stored_sets@[i as int]@);
            push_start_code(&mut out);
            push_all(&mut out, stored_sets[i].as_slice());
            i = i + 1;
        }
        assert(sets.take(stored_sets@.len() as int) =~= sets);
    }
    if units_to_annexb(&mut out, avcc, nal_len_size) {
        Some(out)
    } else {
        None
    }
}

} // verus!
