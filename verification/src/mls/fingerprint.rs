//! The out-of-band verification string of a device key: base32 of the first
//! 20 bytes of its SHA-256, in groups of four joined with `-`.

use sha2::{Digest, Sha256};
use vstd::prelude::*;
use vstd::arithmetic::power2::pow2;
use crate::text::chars_of;
use crate::text::split::{join_seq, views, join_chars, slice_vec};

verus! {

/// The SHA-256 digest of `data`.
pub uninterp spec fn sha256_digest(data: Seq<u8>) -> Seq<u8>;

/// Bit `j` of `data`, most significant bit of each byte first; 0 past the
/// end of `data`.
pub open spec fn bit_at(data: Seq<u8>, j: int) -> int {
    if 0 <= j < 8 * data.len() {
        (data[j / 8] as int / pow2((7 - j % 8) as nat) as int) % 2
    } else {
        0
    }
}

/// The five bits of `data` from bit `5 * k` on, as a number below 32.
pub open spec fn quintet(data: Seq<u8>, k: int) -> int {
    16 * bit_at(data, 5 * k) + 8 * bit_at(data, 5 * k + 1) + 4 * bit_at(data, 5 * k + 2) + 2 * bit_at(
        data,
        5 * k + 3,
    ) + bit_at(data, 5 * k + 4)
}

/// Symbol `v` of the RFC 4648 base32 alphabet `A`–`Z`, `2`–`7`.
pub open spec fn base32_symbol(v: int) -> char {
    if v < 26 {
        ('A' as int + v) as char
    } else {
        ('2' as int + (v - 26)) as char
    }
}

/// Unpadded base32 of `data` (RFC 4648): one symbol for each five bits, the
/// last group filled with zero bits.
pub open spec fn base32_nopad(data: Seq<u8>) -> Seq<char> {
    Seq::new(((8 * data.len() + 4) / 5) as nat, |k: int| base32_symbol(quintet(data, k)))
}

/// SHA-256 of `data` with `sha2::Sha256::digest` (sha2 0.10): the result is
/// the digest of `data`, 32 bytes long; nothing else is said of its bytes.
#[verifier::external_body]
fn sha256(data: &[u8]) -> (r: Vec<u8>)
    ensures
        r@ == sha256_digest(data@),
        r@.len() == 32,
{
    Sha256::digest(data).to_vec()
}

/// Base32 without padding with `data_encoding::BASE32_NOPAD.encode`
/// (data-encoding 2.11): the RFC 4648 encoding of `data`, most significant
/// bit first, without `=` padding. The crate may panic above
/// `usize::MAX / 512` input bytes, which `requires` leaves out.
#[verifier::external_body]
fn base32_encode(data: &[u8]) -> (r: String)
    requires
        data@.len() <= 8_388_607,
    ensures
        r@ == base32_nopad(data@),
{
    data_encoding::BASE32_NOPAD.encode(data)
}

/// `s` cut into pieces of four characters, the last one shorter where the
/// length is not a multiple of four.
pub open spec fn chunks4(s: Seq<char>) -> Seq<Seq<char>>
    decreases s.len(),
{
    if s.len() == 0 {
        Seq::empty()
    } else if s.len() <= 4 {
        seq![s]
    } else {
        seq![s.take(4)] + chunks4(s.skip(4))
    }
}

/// The fingerprint of a public key.
pub open spec fn fingerprint_spec(public_key: Seq<u8>) -> Seq<char> {
    join_seq(chunks4(base32_nopad(sha256_digest(public_key).take(20))), seq!['-'])
}

fn chunk_four(s: &[char]) -> (r: Vec<Vec<char>>)
    ensures
        views(r@) == chunks4(s@),
{
    let mut out: Vec<Vec<char>> = Vec::new();
    let mut i: usize = 0;
    assert(s@.skip(0) =~= s@);
    assert(views(out@) + chunks4(s@) =~= chunks4(s@));
    while i < s.len()
        invariant
            0 <= i <= s@.len(),
            chunks4(s@) == views(out@) + chunks4(s@.skip(i as int)),
        decreases s@.len() - i,
    {
        let ghost t = s@.skip(i as int);
        let ghost before = views(out@);
        let end = if s.len() - i <= 4 {
            s.len()
        } else {
            i + 4
        };
        let piece = slice_vec(s, i, end);
        out.push(piece);
        assert(views(out@) =~= before.push(piece@));
        if end == s.len() {
            assert(piece@ =~= t);
            assert(s@.skip(end as int) =~= Seq::<char>::empty());
            assert(before + chunks4(t) =~= before.push(piece@) + chunks4(s@.skip(end as int)));
        } else {
            assert(piece@ =~= t.take(4));
            assert(t.skip(4) =~= s@.skip(end as int));
            assert(before + chunks4(t) =~= before.push(piece@) + chunks4(s@.skip(end as int)));
        }
        i = end;
    }
    assert(s@.skip(i as int) =~= Seq::<char>::empty());
    assert(views(out@) + chunks4(s@.skip(i as int)) =~= views(out@));
    out
}

/// The verification string of `public_key`: base32 of the first 20 bytes of
/// its SHA-256, in groups of four joined with `-`.
pub fn fingerprint(public_key: &[u8]) -> (r: String)
    ensures
        r@ == fingerprint_spec(public_key@),
        r@.len() == 39,
{
    let digest = sha256(public_key);
    let mut head: Vec<u8> = Vec::new();
    let mut i: usize = 0;
    while i < 20
        invariant
            0 <= i <= 20,
            digest@.len() == 32,
            head@ == digest@.take(i as int),
        decreases 20 - i,
    {
        head.push(digest[i]);
        assert(head@ =~= digest@.take(i + 1));
        i = i + 1;
    }
    let encoded = base32_encode(head.as_slice());
    let cs = chars_of(encoded.as_str());
    let groups = chunk_four(cs.as_slice());
    let dash = vec!['-'];
    assert(dash@ =~= seq!['-']);
    let out = join_chars(groups.as_slice(), dash.as_slice());
    proof {
        lemma_fingerprint_shape(public_key@, out@);
    }
    crate::text::string_of(out.as_slice())
}

/// Four-character groups of a length that is a multiple of four: that many
/// groups, each of four characters, and the joined string one dash shorter
/// than five characters a group.
proof fn lemma_chunks_of_multiple(s: Seq<char>)
    requires
        s.len() % 4 == 0,
        s.len() > 0,
    ensures
        chunks4(s).len() == s.len() / 4,
        forall|i: int| 0 <= i < chunks4(s).len() ==> (#[trigger] chunks4(s)[i]).len() == 4,
        join_seq(chunks4(s), seq!['-']).len() == s.len() + s.len() / 4 - 1,
    decreases s.len(),
{
    if s.len() == 4 {
        assert(chunks4(s) == seq![s]);
    } else {
        let rest = s.skip(4);
        lemma_chunks_of_multiple(rest);
        let c = chunks4(s);
        assert(c == seq![s.take(4)] + chunks4(rest));
        assert forall|i: int| 0 <= i < c.len() implies (#[trigger] c[i]).len() == 4 by {
            if i > 0 {
                assert(c[i] == chunks4(rest)[i - 1]);
            }
        }
        lemma_join_front(s.take(4), chunks4(rest), seq!['-']);
    }
}

/// Joining a list with one more piece in front adds that piece and a
/// separator.
proof fn lemma_join_front(first: Seq<char>, rest: Seq<Seq<char>>, sep: Seq<char>)
    requires
        rest.len() > 0,
    ensures
        join_seq(seq![first] + rest, sep).len() == first.len() + sep.len() + join_seq(rest, sep).len(),
    decreases rest.len(),
{
    let all = seq![first] + rest;
    if rest.len() == 1 {
        assert(all.drop_last() =~= seq![first]);
        assert(all.last() == rest[0]);
        assert(join_seq(seq![first], sep) == first);
        assert(join_seq(all, sep) == join_seq(all.drop_last(), sep) + sep + all.last());
        assert(join_seq(rest, sep) == rest[0]);
    } else {
        assert(all.drop_last() =~= seq![first] + rest.drop_last());
        assert(all.last() == rest.last());
        lemma_join_front(first, rest.drop_last(), sep);
        assert(join_seq(all, sep) == join_seq(all.drop_last(), sep) + sep + all.last());
        assert(join_seq(rest, sep) == join_seq(rest.drop_last(), sep) + sep + rest.last());
    }
}

/// A fingerprint is eight groups of four base32 symbols joined with `-`:
/// 39 characters.
proof fn lemma_fingerprint_shape(public_key: Seq<u8>, r: Seq<char>)
    requires
        base32_nopad(sha256_digest(public_key).take(20)).len() == 32,
        r == fingerprint_spec(public_key),
    ensures
        r.len() == 39,
        chunks4(base32_nopad(sha256_digest(public_key).take(20))).len() == 8,
        forall|i: int|
            0 <= i < 8 ==> (#[trigger] chunks4(base32_nopad(sha256_digest(public_key).take(20)))[i]).len()
                == 4,
{
    lemma_chunks_of_multiple(base32_nopad(sha256_digest(public_key).take(20)));
}

} // verus!
