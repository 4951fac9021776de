//! Per-file XChaCha20-Poly1305, one AEAD per 1 MiB chunk. Nonce = file nonce
//! (16 bytes) then the chunk index (8 bytes, big-endian); associated data =
//! "omnidisc-file-v1|", the file id, the index and the chunk total, so that a
//! reordered, duplicated or truncated file fails instead of decoding.

use vstd::prelude::*;
use vstd::string::StringSliceAdditionalSpecFns;
use crate::bytes::{append_bytes, be_u64, push_be_u64};
use crate::mls::MlsError;
use crate::mls::crypto::{open, random_bytes, seal, xchacha_open, xchacha_seal};
use crate::mls::plain_hash::{PlainHasher, hashed_so_far, hasher_update};
use crate::text::{dec_digits, decimal, string_of};

verus! {

pub const CHUNK_SIZE: usize = 1048576;

pub const TAG_SIZE: usize = 16;

/// The key material that travels inside the MLS message. It has no `Debug`,
/// so a key cannot be logged by accident.
#[derive(Clone)]
pub struct FileSecret {
    pub key: [u8; 32],
    pub nonce: [u8; 16],
}

/// A fresh random key and file nonce.
pub fn new_file_secret() -> (r: FileSecret) {
    FileSecret { key: random_bytes::<32>(), nonce: random_bytes::<16>() }
}

/// How many chunks a file of `size` bytes takes: one per started MiB, and
/// one for an empty file.
pub open spec fn spec_chunk_count(size: u64) -> int {
    if size == 0 {
        1
    } else if size % 1048576 == 0 {
        size as int / 1048576
    } else {
        size as int / 1048576 + 1
    }
}

pub fn chunk_count(size: u64) -> (r: u64)
    ensures
        r == spec_chunk_count(size),
{
    if size == 0 {
        1
    } else {
        let c = CHUNK_SIZE as u64;
        if size % c == 0 {
            size / c
        } else {
            size / c + 1
        }
    }
}

/// How many plaintext bytes chunk `index` of a file of `size` bytes holds:
/// a full MiB, or what is left of the file for its last chunk.
pub open spec fn spec_chunk_plain_len(size: u64, index: u64) -> int {
    let left = size - index * 1048576;
    if left < 1048576 {
        left
    } else {
        1048576
    }
}

pub fn chunk_plain_len(size: u64, index: u64) -> (r: usize)
    requires
        index < spec_chunk_count(size),
    ensures
        r == spec_chunk_plain_len(size, index),
        0 <= spec_chunk_plain_len(size, index) <= 1048576,
        index + 1 < spec_chunk_count(size) ==> r == 1048576,
{
    proof {
        lemma_count_bounds(size, index as int);
    }
    let left = size - index * (CHUNK_SIZE as u64);
    if left < CHUNK_SIZE as u64 {
        left as usize
    } else {
        CHUNK_SIZE
    }
}

/// The plaintext bytes of the first `n` chunks of a file of `size` bytes.
pub open spec fn chunks_total(size: u64, n: int) -> int
    decreases n,
{
    if n <= 0 {
        0
    } else {
        chunks_total(size, n - 1) + spec_chunk_plain_len(size, (n - 1) as u64)
    }
}

proof fn lemma_count_bounds(size: u64, n: int)
    requires
        0 <= n < spec_chunk_count(size),
    ensures
        n * 1048576 <= size,
        n + 1 < spec_chunk_count(size) ==> (n + 1) * 1048576 <= size,
        n + 1 == spec_chunk_count(size) ==> size - n * 1048576 <= 1048576,
{
    assert(n * 1048576 <= size && (n + 1 < spec_chunk_count(size) ==> (n + 1) * 1048576 <= size)
        && (n + 1 == spec_chunk_count(size) ==> size - n * 1048576 <= 1048576)) by (nonlinear_arith)
        requires
            0 <= n < spec_chunk_count(size),
            spec_chunk_count(size) == (if size == 0 {
                1
            } else if size % 1048576 == 0 {
                size as int / 1048576
            } else {
                size as int / 1048576 + 1
            }),
    ;
}

proof fn lemma_full_prefix(size: u64, n: int)
    requires
        0 <= n < spec_chunk_count(size),
    ensures
        chunks_total(size, n) == n * 1048576,
    decreases n,
{
    if n > 0 {
        lemma_full_prefix(size, n - 1);
        lemma_count_bounds(size, n - 1);
    }
}

/// The chunks of a file hold all of it: their plaintext lengths add up to
/// the file's size.
pub proof fn lemma_chunks_cover(size: u64)
    ensures
        chunks_total(size, spec_chunk_count(size)) == size,
{
    let c = spec_chunk_count(size);
    lemma_full_prefix(size, c - 1);
    lemma_count_bounds(size, c - 1);
}

/// The size of the encrypted file: the plaintext plus one tag per chunk.
pub fn encrypted_size(size: u64) -> (r: u64)
    requires
        size + spec_chunk_count(size) * 16 <= u64::MAX,
    ensures
        r == size + spec_chunk_count(size) * 16,
{
    size + chunk_count(size) * TAG_SIZE as u64
}

/// The nonce of chunk `index`.
pub open spec fn spec_chunk_nonce(file_nonce: Seq<u8>, index: u64) -> Seq<u8> {
    file_nonce + be_u64(index)
}

pub fn chunk_nonce(file_nonce: &[u8; 16], index: u64) -> (r: Vec<u8>)
    ensures
        r@ == spec_chunk_nonce(file_nonce@, index),
        r@.len() == 24,
{
    let mut n: Vec<u8> = Vec::new();
    append_bytes(&mut n, file_nonce);
    push_be_u64(&mut n, index);
    n
}

/// The associated data of chunk `index` of `total`.
pub open spec fn spec_chunk_aad(file_id: &str, index: u64, total: u64) -> Seq<u8> {
    "omnidisc-file-v1|".spec_bytes() + file_id.spec_bytes() + be_u64(index) + be_u64(total)
}

pub fn chunk_aad(file_id: &str, index: u64, total: u64) -> (r: Vec<u8>)
    ensures
        r@ == spec_chunk_aad(file_id, index, total),
{
    let mut aad: Vec<u8> = Vec::new();
    append_bytes(&mut aad, "omnidisc-file-v1|".as_bytes());
    append_bytes(&mut aad, file_id.as_bytes());
    push_be_u64(&mut aad, index);
    push_be_u64(&mut aad, total);
    aad
}

/// "chunk {index}: {what}".
pub open spec fn chunk_message(index: u64, what: Seq<char>) -> Seq<char> {
    "chunk "@ + dec_digits(index as nat) + what
}

fn chunk_error(index: u64, what: &str) -> (r: MlsError)
    ensures
        r matches MlsError::File(s) && s@ == chunk_message(index, what@),
{
    let mut cs: Vec<char> = crate::text::chars_of("chunk ");
    let d = decimal(index);
    let w = crate::text::chars_of(what);
    let mut i: usize = 0;
    let ghost start = cs@;
    while i < d.len()
        invariant
            0 <= i <= d@.len(),
            cs@ == start + d@.take(i as int),
        decreases d@.len() - i,
    {
        cs.push(d[i]);
        assert(d@.take(i + 1) == d@.take(i as int).push(d@[i as int]));
        i = i + 1;
    }
    assert(d@.take(d@.len() as int) == d@);
    let ghost mid = cs@;
    let mut j: usize = 0;
    while j < w.len()
        invariant
            0 <= j <= w@.len(),
            cs@ == mid + w@.take(j as int),
        decreases w@.len() - j,
    {
        cs.push(w[j]);
        assert(w@.take(j + 1) == w@.take(j as int).push(w@[j as int]));
        j = j + 1;
    }
    assert(w@.take(w@.len() as int) == w@);
    assert(cs@ =~= chunk_message(index, what@));
    MlsError::File(string_of(cs.as_slice()))
}

/// Encrypts chunk `index` of `total` of file `file_id`: the AEAD of the
/// chunk under the file key, the chunk nonce and the chunk's associated
/// data. Fails only for a chunk too long for the cipher.
pub fn encrypt_chunk(secret: &FileSecret, file_id: &str, index: u64, total: u64, plain: &[u8]) -> (r: Result<Vec<u8>, MlsError>)
    ensures
        plain@.len() / 64 < 0xffff_ffff ==> r is Ok,
        r matches Ok(c) ==> c@ == xchacha_seal(
            secret.key@,
            spec_chunk_nonce(secret.nonce@, index),
            spec_chunk_aad(file_id, index, total),
            plain@,
        ) && c@.len() == plain@.len() + TAG_SIZE && xchacha_open(
            secret.key@,
            spec_chunk_nonce(secret.nonce@, index),
            spec_chunk_aad(file_id, index, total),
            c@,
        ) == Some(plain@),
        r matches Err(e) ==> e matches MlsError::File(s) && s@ == chunk_message(
            index,
            ": could not be encrypted"@,
        ),
{
    let nonce = chunk_nonce(&secret.nonce, index);
    let aad = chunk_aad(file_id, index, total);
    match seal(&secret.key, nonce.as_slice(), aad.as_slice(), plain) {
        Ok(c) => Ok(c),
        Err(_) => Err(chunk_error(index, ": could not be encrypted")),
    }
}

/// Decrypts chunk `index` of `total` of file `file_id`; fails when the chunk
/// does not authenticate under this key, position and file.
pub fn decrypt_chunk(secret: &FileSecret, file_id: &str, index: u64, total: u64, sealed: &[u8]) -> (r: Result<Vec<u8>, MlsError>)
    ensures
        r matches Ok(p) ==> xchacha_open(
            secret.key@,
            spec_chunk_nonce(secret.nonce@, index),
            spec_chunk_aad(file_id, index, total),
            sealed@,
        ) == Some(p@),
        r is Err <==> xchacha_open(
            secret.key@,
            spec_chunk_nonce(secret.nonce@, index),
            spec_chunk_aad(file_id, index, total),
            sealed@,
        ) is None,
        r matches Err(e) ==> e matches MlsError::File(s) && s@ == chunk_message(
            index,
            ": authentication failed"@,
        ),
{
    let nonce = chunk_nonce(&secret.nonce, index);
    let aad = chunk_aad(file_id, index, total);
    match open(&secret.key, nonce.as_slice(), aad.as_slice(), sealed) {
        Ok(p) => Ok(p),
        Err(_) => Err(chunk_error(index, ": authentication failed")),
    }
}

/// Chunk counts at the edges: an empty file and a file of up to one MiB take
/// one chunk, one byte more takes two.
pub proof fn lemma_chunk_count_edges(size: u64)
    ensures
        spec_chunk_count(0) == 1,
        1 <= size <= 1048576 ==> spec_chunk_count(size) == 1,
        spec_chunk_count(1048577) == 2,
        spec_chunk_count(size) >= 1,
        spec_chunk_count(size) * 1048576 >= size,
{
}

/// Chunk `index` of the plaintext `data`.
pub open spec fn chunk_plain(data: Seq<u8>, index: int) -> Seq<u8> {
    data.subrange(
        index * 1048576,
        index * 1048576 + spec_chunk_plain_len(data.len() as u64, index as u64),
    )
}

/// The chunks of `data`, in order.
pub open spec fn plain_chunks(data: Seq<u8>) -> Seq<Seq<u8>> {
    Seq::new(spec_chunk_count(data.len() as u64) as nat, |i: int| chunk_plain(data, i))
}

/// `parts` one after another.
pub open spec fn joined(parts: Seq<Seq<u8>>) -> Seq<u8>
    decreases parts.len(),
{
    if parts.len() == 0 {
        Seq::empty()
    } else {
        joined(parts.drop_last()) + parts.last()
    }
}

/// Chunk `index` of an encrypted file of `size` plaintext bytes, as
/// `decrypt_file` reads it: `chunk_plain_len + TAG_SIZE` bytes from
/// `index * (CHUNK_SIZE + TAG_SIZE)` on.
pub open spec fn sealed_chunk(file: Seq<u8>, size: u64, index: int) -> Seq<u8> {
    file.subrange(index * 1048592, index * 1048592 + spec_chunk_plain_len(size, index as u64) + 16)
}

proof fn lemma_rejoin_prefix(data: Seq<u8>, n: int)
    requires
        data.len() <= u64::MAX,
        0 <= n < spec_chunk_count(data.len() as u64),
    ensures
        joined(plain_chunks(data).take(n)) == data.take(n * 1048576),
    decreases n,
{
    let size = data.len() as u64;
    let pc = plain_chunks(data);
    if n == 0 {
        assert(pc.take(0) =~= Seq::<Seq<u8>>::empty());
        assert(data.take(0) =~= Seq::<u8>::empty());
    } else {
        lemma_rejoin_prefix(data, n - 1);
        lemma_count_bounds(size, n - 1);
        assert(pc.take(n).drop_last() =~= pc.take(n - 1));
        assert(pc.take(n).last() == chunk_plain(data, n - 1));
        assert(spec_chunk_plain_len(size, (n - 1) as u64) == 1048576);
        assert(data.take(n * 1048576) =~= data.take((n - 1) * 1048576) + chunk_plain(data, n - 1));
    }
}

/// The chunks of a file joined again are the file.
pub proof fn lemma_chunks_rejoin(data: Seq<u8>)
    requires
        data.len() <= u64::MAX,
    ensures
        joined(plain_chunks(data)) == data,
{
    let size = data.len() as u64;
    let c = spec_chunk_count(size);
    let pc = plain_chunks(data);
    lemma_chunk_count_edges(size);
    lemma_rejoin_prefix(data, c - 1);
    lemma_count_bounds(size, c - 1);
    assert(pc.drop_last() =~= pc.take(c - 1));
    assert(pc.last() == chunk_plain(data, c - 1));
    assert(spec_chunk_plain_len(size, (c - 1) as u64) == size - (c - 1) * 1048576);
    assert(data.take((c - 1) * 1048576) + chunk_plain(data, c - 1) =~= data);
}

/// Where each of the first `n` parts is the chunk of the same index of a
/// file of `size` bytes, sealed (its length plus a tag), the first `n` parts
/// joined are as long as those chunks plus their tags.
proof fn lemma_sealed_prefix_len(parts: Seq<Seq<u8>>, size: u64, n: int)
    requires
        0 <= n <= parts.len(),
        forall|i: int| 0 <= i < n ==> (#[trigger] parts[i]).len() == spec_chunk_plain_len(size, i as u64) + 16,
    ensures
        joined(parts.take(n)).len() == chunks_total(size, n) + 16 * n,
    decreases n,
{
    if n > 0 {
        lemma_sealed_prefix_len(parts, size, n - 1);
        assert(parts.take(n).drop_last() =~= parts.take(n - 1));
        assert(parts.take(n).last() == parts[n - 1]);
    } else {
        assert(parts.take(0) =~= Seq::<Seq<u8>>::empty());
    }
}

/// Part `i` of joined parts lies where the parts before it end.
proof fn lemma_joined_at(parts: Seq<Seq<u8>>, i: int)
    requires
        0 <= i < parts.len(),
    ensures
        joined(parts.take(i)).len() + parts[i].len() <= joined(parts).len(),
        joined(parts).subrange(
            joined(parts.take(i)).len() as int,
            (joined(parts.take(i)).len() + parts[i].len()) as int,
        ) == parts[i],
    decreases parts.len(),
{
    let d = parts.drop_last();
    if i == parts.len() - 1 {
        assert(parts.take(i) =~= d);
        assert(joined(parts) == joined(d) + parts.last());
        assert(joined(parts).subrange(joined(d).len() as int, joined(parts).len() as int) =~= parts.last());
    } else {
        lemma_joined_at(d, i);
        assert(d.take(i) =~= parts.take(i));
        assert(d[i] == parts[i]);
        let lo = joined(parts.take(i)).len() as int;
        assert(joined(parts).subrange(lo, lo + parts[i].len()) =~= joined(d).subrange(lo, lo + parts[i].len()));
    }
}

/// An encrypted file reads back as the file it was made from: where
/// `sealed` holds, for every chunk of `data`, a ciphertext as long as the
/// chunk plus a tag that opens, under the chunk's nonce and associated data,
/// to the chunk (what `encrypt_chunk` hands out), the file they make one
/// after another is `encrypted_size` bytes long, each chunk read where
/// `decrypt_file` reads it opens to the chunk of `data`, and those chunks
/// joined are `data`.
pub proof fn lemma_file_round_trip(
    key: Seq<u8>,
    file_nonce: Seq<u8>,
    file_id: &str,
    data: Seq<u8>,
    sealed: Seq<Seq<u8>>,
)
    requires
        data.len() <= u64::MAX,
        sealed.len() == spec_chunk_count(data.len() as u64),
        forall|i: int|
            0 <= i < sealed.len() ==> (#[trigger] sealed[i]).len() == chunk_plain(data, i).len() + 16
                && xchacha_open(
                key,
                spec_chunk_nonce(file_nonce, i as u64),
                spec_chunk_aad(file_id, i as u64, sealed.len() as u64),
                sealed[i],
            ) == Some(chunk_plain(data, i)),
    ensures
        joined(sealed).len() == data.len() + sealed.len() * 16,
        forall|i: int|
            0 <= i < sealed.len() ==> xchacha_open(
                key,
                spec_chunk_nonce(file_nonce, i as u64),
                spec_chunk_aad(file_id, i as u64, sealed.len() as u64),
                #[trigger] sealed_chunk(joined(sealed), data.len() as u64, i),
            ) == Some(chunk_plain(data, i)),
        joined(plain_chunks(data)) == data,
{
    let size = data.len() as u64;
    let c = sealed.len() as int;
    lemma_chunk_count_edges(size);
    assert forall|i: int| 0 <= i < c implies (#[trigger] sealed[i]).len() == spec_chunk_plain_len(size, i as u64) + 16 by {
        lemma_count_bounds(size, i);
        assert(sealed[i].len() == chunk_plain(data, i).len() + 16);
    }
    lemma_sealed_prefix_len(sealed, size, c);
    assert(sealed.take(c) =~= sealed);
    lemma_chunks_cover(size);
    assert forall|i: int| 0 <= i < c implies xchacha_open(
        key,
        spec_chunk_nonce(file_nonce, i as u64),
        spec_chunk_aad(file_id, i as u64, sealed.len() as u64),
        #[trigger] sealed_chunk(joined(sealed), size, i),
    ) == Some(chunk_plain(data, i)) by {
        lemma_sealed_prefix_len(sealed, size, i);
        lemma_full_prefix(size, i);
        lemma_joined_at(sealed, i);
        assert(sealed[i].len() == spec_chunk_plain_len(size, i as u64) + 16);
        assert(joined(sealed.take(i)).len() == i * 1048592);
        assert(sealed_chunk(joined(sealed), size, i) == sealed[i]);
    }
    lemma_chunks_rejoin(data);
}

/// `encrypt_chunk`, with the chunk's plaintext fed to the running hash of
/// the file first.
pub fn encrypt_chunk_hashed(
    secret: &FileSecret,
    file_id: &str,
    index: u64,
    total: u64,
    plain: &[u8],
    h: &mut PlainHasher,
) -> (r: Result<Vec<u8>, MlsError>)
    ensures
        hashed_so_far(*final(h)) == hashed_so_far(*old(h)) + plain@,
        plain@.len() / 64 < 0xffff_ffff ==> r is Ok,
        r matches Ok(c) ==> c@ == xchacha_seal(
            secret.key@,
            spec_chunk_nonce(secret.nonce@, index),
            spec_chunk_aad(file_id, index, total),
            plain@,
        ) && c@.len() == plain@.len() + TAG_SIZE && xchacha_open(
            secret.key@,
            spec_chunk_nonce(secret.nonce@, index),
            spec_chunk_aad(file_id, index, total),
            c@,
        ) == Some(plain@),
        r matches Err(e) ==> e matches MlsError::File(s) && s@ == chunk_message(
            index,
            ": could not be encrypted"@,
        ),
{
    hasher_update(h, plain);
    encrypt_chunk(secret, file_id, index, total, plain)
}

/// `decrypt_chunk`, with the plaintext it gives fed to the running hash of
/// the file; a chunk that does not open leaves the hash as it was.
pub fn decrypt_chunk_hashed(
    secret: &FileSecret,
    file_id: &str,
    index: u64,
    total: u64,
    sealed: &[u8],
    h: &mut PlainHasher,
) -> (r: Result<Vec<u8>, MlsError>)
    ensures
        r matches Ok(p) ==> xchacha_open(
            secret.key@,
            spec_chunk_nonce(secret.nonce@, index),
            spec_chunk_aad(file_id, index, total),
            sealed@,
        ) == Some(p@) && hashed_so_far(*final(h)) == hashed_so_far(*old(h)) + p@,
        r is Err <==> xchacha_open(
            secret.key@,
            spec_chunk_nonce(secret.nonce@, index),
            spec_chunk_aad(file_id, index, total),
            sealed@,
        ) is None,
        r is Err ==> *final(h) == *old(h),
        r matches Err(e) ==> e matches MlsError::File(s) && s@ == chunk_message(
            index,
            ": authentication failed"@,
        ),
{
    match decrypt_chunk(secret, file_id, index, total, sealed) {
        Ok(p) => {
            hasher_update(h, p.as_slice());
            Ok(p)
        },
        Err(e) => Err(e),
    }
}

/// What the encrypting loop does with the `filled` bytes it read for chunk
/// `index`: stop without sealing, seal them and stop, or seal them and read
/// on.
#[derive(Clone, Copy, PartialEq, Eq, Structural, Debug)]
pub enum ChunkStep {
    Stop,
    SealAndStop,
    SealAndContinue,
}

/// The loop's rule: nothing read after the first chunk ends the file; an
/// empty file still gets its one (empty) chunk; a chunk read short is the
/// last one.
pub open spec fn chunk_step_spec(filled: int, index: int) -> ChunkStep {
    if filled == 0 && index > 0 {
        ChunkStep::Stop
    } else if filled < 1048576 {
        ChunkStep::SealAndStop
    } else {
        ChunkStep::SealAndContinue
    }
}

pub fn next_chunk_step(filled: usize, index: u64) -> (r: ChunkStep)
    ensures
        r == chunk_step_spec(filled as int, index as int),
{
    if filled == 0 && index > 0 {
        ChunkStep::Stop
    } else if filled < CHUNK_SIZE {
        ChunkStep::SealAndStop
    } else {
        ChunkStep::SealAndContinue
    }
}

/// The loop seals every chunk of the file and no more: reading a file of
/// `size` bytes a full chunk at a time, each of its `chunk_count` chunks is
/// sealed, all but the last with the loop going on; after the last the loop
/// stops, at once where it was short, or on the empty read that follows a
/// full one.
pub proof fn lemma_steps_seal_every_chunk(size: u64)
    ensures
        forall|i: int|
            0 <= i < spec_chunk_count(size) - 1 ==> chunk_step_spec(
                #[trigger] spec_chunk_plain_len(size, i as u64),
                i,
            ) == ChunkStep::SealAndContinue,
        ({
            let last = spec_chunk_count(size) - 1;
            let n = spec_chunk_plain_len(size, last as u64);
            ||| chunk_step_spec(n, last) == ChunkStep::SealAndStop
            ||| chunk_step_spec(n, last) == ChunkStep::SealAndContinue && chunk_step_spec(
                0,
                last + 1,
            ) == ChunkStep::Stop
        }),
{
    lemma_chunk_count_edges(size);
    assert forall|i: int| 0 <= i < spec_chunk_count(size) - 1 implies chunk_step_spec(
        #[trigger] spec_chunk_plain_len(size, i as u64),
        i,
    ) == ChunkStep::SealAndContinue by {
        lemma_count_bounds(size, i);
    }
    lemma_count_bounds(size, spec_chunk_count(size) - 1);
}

/// The error for an encrypted file that ends before chunk `index` does.
pub fn file_ends_early(index: u64) -> (r: MlsError)
    ensures
        r matches MlsError::File(s) && s@ == chunk_message(index, ": the file ends too early"@),
{
    chunk_error(index, ": the file ends too early")
}

} // verus!
