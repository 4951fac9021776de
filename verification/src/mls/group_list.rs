//! The front of an exported MLS client state: the ids of the groups the
//! client is in, as a big-endian count and then each id as a big-endian
//! length and its bytes; the storage blob follows.

use vstd::prelude::*;
use crate::bytes::{append_bytes, be_u32, from_be4, push_be_u32};
use crate::mls::MlsError;

verus! {

/// The bytes held by a sequence of byte vectors.
pub open spec fn byte_views(v: Seq<Vec<u8>>) -> Seq<Seq<u8>> {
    Seq::new(v.len(), |i: int| v[i]@)
}

/// Each id as its big-endian length (cut to 32 bits) and its bytes.
pub open spec fn encode_ids(ids: Seq<Seq<u8>>) -> Seq<u8>
    decreases ids.len(),
{
    if ids.len() == 0 {
        Seq::empty()
    } else {
        be_u32(ids[0].len() as u32) + ids[0] + encode_ids(ids.drop_first())
    }
}

/// An exported state: the id count (cut to 32 bits), the ids, the storage.
pub open spec fn spec_state_blob(ids: Seq<Seq<u8>>, storage: Seq<u8>) -> Seq<u8> {
    be_u32(ids.len() as u32) + encode_ids(ids) + storage
}

/// The big-endian number in `b[i..i + 4]`.
pub open spec fn be32_at(b: Seq<u8>, i: int) -> int {
    from_be4(b[i], b[i + 1], b[i + 2], b[i + 3])
}

/// Reads `k` ids from `b` at `cursor`: the ids and where they end, or the
/// message of the first truncation met.
pub open spec fn parse_ids(b: Seq<u8>, cursor: int, k: nat) -> Result<(Seq<Seq<u8>>, int), Seq<char>>
    decreases k,
{
    if k == 0 {
        Ok((Seq::empty(), cursor))
    } else if b.len() < cursor + 4 {
        Err("truncated group list"@)
    } else if b.len() < cursor + 4 + be32_at(b, cursor) {
        Err("truncated group id"@)
    } else {
        let len = be32_at(b, cursor);
        match parse_ids(b, cursor + 4 + len, (k - 1) as nat) {
            Ok((ids, end)) => Ok((seq![b.subrange(cursor + 4, cursor + 4 + len)] + ids, end)),
            Err(m) => Err(m),
        }
    }
}

/// `r` with `xs` in front of the ids it read.
pub open spec fn prepend(xs: Seq<Seq<u8>>, r: Result<(Seq<Seq<u8>>, int), Seq<char>>) -> Result<
    (Seq<Seq<u8>>, int),
    Seq<char>,
> {
    match r {
        Ok((ids, end)) => Ok((xs + ids, end)),
        Err(m) => Err(m),
    }
}

/// The group ids and the storage blob of an exported state, or the message
/// of the truncation that stops the reading.
pub open spec fn spec_split_state(b: Seq<u8>) -> Result<(Seq<Seq<u8>>, Seq<u8>), Seq<char>> {
    if b.len() < 4 {
        Err("truncated state"@)
    } else {
        match parse_ids(b, 4, be32_at(b, 0) as nat) {
            Ok((ids, end)) => Ok((ids, b.subrange(end, b.len() as int))),
            Err(m) => Err(m),
        }
    }
}

proof fn lemma_encode_push(ids: Seq<Seq<u8>>, i: int)
    requires
        0 <= i < ids.len(),
    ensures
        encode_ids(ids.take(i + 1)) == encode_ids(ids.take(i)) + be_u32(ids[i].len() as u32)
            + ids[i],
    decreases i,
{
    if i == 0 {
        assert(ids.take(1).drop_first() =~= Seq::<Seq<u8>>::empty());
        assert(ids.take(1)[0] == ids[0]);
        assert(encode_ids(Seq::<Seq<u8>>::empty()) == Seq::<u8>::empty());
        assert(encode_ids(ids.take(1)) =~= be_u32(ids[0].len() as u32) + ids[0]);
        assert(encode_ids(ids.take(0)) =~= Seq::<u8>::empty());
    } else {
        let t = ids.drop_first();
        lemma_encode_push(t, i - 1);
        assert(ids.take(i + 1).drop_first() =~= t.take(i));
        assert(ids.take(i).drop_first() =~= t.take(i - 1));
        assert(t[i - 1] == ids[i]);
        assert(ids.take(i + 1)[0] == ids[0]);
        assert(ids.take(i)[0] == ids[0]);
        assert(encode_ids(ids.take(i + 1)) =~= encode_ids(ids.take(i)) + be_u32(ids[i].len() as u32)
            + ids[i]);
    }
}

/// Writes the group list and the storage blob of an exported state.
pub fn state_blob(ids: &[Vec<u8>], storage: &[u8]) -> (r: Vec<u8>)
    ensures
        r@ == spec_state_blob(byte_views(ids@), storage@),
{
    let ghost iv = byte_views(ids@);
    let mut out: Vec<u8> = Vec::new();
    push_be_u32(&mut out, ids.len() as u32);
    let mut i: usize = 0;
    assert(iv.take(0) =~= Seq::<Seq<u8>>::empty());
    assert(out@ =~= be_u32(ids@.len() as u32) + encode_ids(iv.take(0)));
    while i < ids.len()
        invariant
            0 <= i <= ids@.len(),
            iv == byte_views(ids@),
            out@ == be_u32(ids@.len() as u32) + encode_ids(iv.take(i as int)),
        decreases ids@.len() - i,
    {
        proof {
            lemma_encode_push(iv, i as int);
        }
        push_be_u32(&mut out, ids[i].len() as u32);
        append_bytes(&mut out, ids[i].as_slice());
        assert(out@ =~= be_u32(ids@.len() as u32) + encode_ids(iv.take(i + 1)));
        i = i + 1;
    }
    assert(iv.take(ids@.len() as int) =~= iv);
    append_bytes(&mut out, storage);
    out
}

fn read_be32(b: &[u8], at: usize) -> (r: u32)
    requires
        at + 4 <= b@.len(),
    ensures
        r as int == be32_at(b@, at as int),
{
    let (b0, b1, b2, b3) = (b[at] as u32, b[at + 1] as u32, b[at + 2] as u32, b[at + 3] as u32);
    b0 * 0x100_0000 + b1 * 0x1_0000 + b2 * 0x100 + b3
}

fn group_list_error(m: &str) -> (r: MlsError)
    ensures
        r matches MlsError::State(s) && s@ == m@,
{
    MlsError::State(m.to_owned())
}

/// Reads the group list of an exported state: the group ids, and the storage
/// blob that follows them.
#[verifier::rlimit(30)]
pub fn split_state(blob: &[u8]) -> (r: Result<(Vec<Vec<u8>>, Vec<u8>), MlsError>)
    ensures
        match spec_split_state(blob@) {
            Ok((ids, rest)) => r matches Ok((v, s)) && byte_views(v@) == ids && s@ == rest,
            Err(m) => r matches Err(e) && e matches MlsError::State(s) && s@ == m,
        },
{
    if blob.len() < 4 {
        return Err(group_list_error("truncated state"));
    }
    let count = read_be32(blob, 0);
    let mut out: Vec<Vec<u8>> = Vec::new();
    let mut cursor: usize = 4;
    let mut i: u32 = 0;
    assert(prepend(byte_views(out@), parse_ids(blob@, 4, count as nat)) =~= parse_ids(
        blob@,
        4,
        count as nat,
    )) by {
        match parse_ids(blob@, 4, count as nat) {
            Ok((ids, end)) => {
                assert(byte_views(out@) + ids =~= ids);
            },
            Err(m) => {},
        }
    }
    while i < count
        invariant
            0 <= i <= count,
            4 <= cursor <= blob@.len(),
            count as int == be32_at(blob@, 0),
            blob@.len() >= 4,
            parse_ids(blob@, 4, count as nat) == prepend(
                byte_views(out@),
                parse_ids(blob@, cursor as int, (count - i) as nat),
            ),
        decreases count - i,
    {
        let ghost k = (count - i) as nat;
        let ghost before = byte_views(out@);
        if blob.len() - cursor < 4 {
            return Err(group_list_error("truncated group list"));
        }
        let len = read_be32(blob, cursor);
        if blob.len() - cursor - 4 < len as usize {
            return Err(group_list_error("truncated group id"));
        }
        let start = cursor + 4;
        let end = start + len as usize;
        let id = vstd::slice::slice_to_vec(vstd::slice::slice_subrange(blob, start, end));
        assert(id@ =~= blob@.subrange(start as int, end as int));
        out.push(id);
        assert(byte_views(out@) =~= before.push(id@));
        proof {
            let r = parse_ids(blob@, end as int, (k - 1) as nat);
            assert(parse_ids(blob@, cursor as int, k) == prepend(seq![id@], r));
            match r {
                Ok((ids, e)) => {
                    assert(before + (seq![id@] + ids) =~= before.push(id@) + ids);
                },
                Err(m) => {},
            }
        }
        cursor = end;
        i = i + 1;
    }
    let rest = vstd::slice::slice_to_vec(vstd::slice::slice_subrange(blob, cursor, blob.len()));
    proof {
        assert(parse_ids(blob@, cursor as int, 0) == Ok::<(Seq<Seq<u8>>, int), Seq<char>>(
            (Seq::empty(), cursor as int),
        ));
        assert(byte_views(out@) + Seq::<Seq<u8>>::empty() =~= byte_views(out@));
    }
    Ok((out, rest))
}

/// The big-endian bytes of a 32-bit number read back as that number.
proof fn lemma_be32_read(x: u32)
    ensures
        from_be4(be_u32(x)[0], be_u32(x)[1], be_u32(x)[2], be_u32(x)[3]) == x,
{
    assert(x / 0x100_0000 * 0x100_0000 + (x / 0x1_0000) % 256 * 0x1_0000 + (x / 0x100) % 256 * 0x100
        + x % 256 == x) by (bit_vector);
    assert(x / 0x100_0000 < 256) by (bit_vector);
    assert(be_u32(x)[0] as int == x / 0x100_0000);
    assert(be_u32(x)[1] as int == (x / 0x1_0000) % 256);
    assert(be_u32(x)[2] as int == (x / 0x100) % 256);
    assert(be_u32(x)[3] as int == x % 256);
}

/// Reading the ids written after a prefix `p` gives them back, ending where
/// they end.
/// Where the pieces of `p + hdr + id + r + s` lie.
proof fn lemma_frame(p: Seq<u8>, hdr: Seq<u8>, id: Seq<u8>, r: Seq<u8>, s: Seq<u8>)
    requires
        hdr.len() == 4,
    ensures
        ({
            let b = p + hdr + id + r + s;
            let c = p.len() as int;
            &&& b[c] == hdr[0]
            &&& b[c + 1] == hdr[1]
            &&& b[c + 2] == hdr[2]
            &&& b[c + 3] == hdr[3]
            &&& b.subrange(c + 4, c + 4 + id.len()) == id
            &&& b == (p + hdr + id) + r + s
        }),
{
    let b = p + hdr + id + r + s;
    let c = p.len() as int;
    assert(b.subrange(c + 4, c + 4 + id.len()) =~= id);
    assert(b =~= (p + hdr + id) + r + s);
}

#[verifier::rlimit(30)]
proof fn lemma_parse_encoded(p: Seq<u8>, ids: Seq<Seq<u8>>, s: Seq<u8>)
    requires
        forall|i: int| 0 <= i < ids.len() ==> (#[trigger] ids[i]).len() <= u32::MAX,
    ensures
        parse_ids(p + encode_ids(ids) + s, p.len() as int, ids.len()) == Ok::<
            (Seq<Seq<u8>>, int),
            Seq<char>,
        >((ids, (p.len() + encode_ids(ids).len()) as int)),
    decreases ids.len(),
{
    let b = p + encode_ids(ids) + s;
    if ids.len() == 0 {
        assert(ids =~= Seq::<Seq<u8>>::empty());
    } else {
        let id = ids[0];
        let rest = ids.drop_first();
        assert forall|i: int| 0 <= i < rest.len() implies (#[trigger] rest[i]).len() <= u32::MAX by {
            assert(rest[i] == ids[i + 1]);
        }
        let hdr = be_u32(id.len() as u32);
        let p2 = p + hdr + id;
        let c = p.len() as int;
        let len = id.len() as int;
        assert(encode_ids(ids) == hdr + id + encode_ids(rest));
        assert(b =~= p + hdr + id + encode_ids(rest) + s);
        lemma_frame(p, hdr, id, encode_ids(rest), s);
        lemma_parse_encoded(p2, rest, s);
        lemma_be32_read(id.len() as u32);
        assert(be32_at(b, c) == len);
        assert(p2.len() == c + 4 + len);
        assert(seq![id] + rest =~= ids);
    }
}

/// An exported state reads back as the ids and storage it was written from,
/// when the id count and every id length fit in 32 bits.
pub proof fn lemma_state_blob_round_trip(ids: Seq<Seq<u8>>, storage: Seq<u8>)
    requires
        ids.len() <= u32::MAX,
        forall|i: int| 0 <= i < ids.len() ==> (#[trigger] ids[i]).len() <= u32::MAX,
    ensures
        spec_split_state(spec_state_blob(ids, storage)) == Ok::<(Seq<Seq<u8>>, Seq<u8>), Seq<char>>(
            (ids, storage),
        ),
{
    let hdr = be_u32(ids.len() as u32);
    let b = spec_state_blob(ids, storage);
    lemma_parse_encoded(hdr, ids, storage);
    lemma_be32_read(ids.len() as u32);
    assert(b[0] == hdr[0] && b[1] == hdr[1] && b[2] == hdr[2] && b[3] == hdr[3]);
    assert(be32_at(b, 0) == ids.len());
    assert(b.subrange((4 + encode_ids(ids).len()) as int, b.len() as int) =~= storage);
}

} // verus!
