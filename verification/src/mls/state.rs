//! MLS state at rest: XChaCha20-Poly1305 under a key that the caller keeps in
//! the OS keyring, behind a magic and a format version. The layout is
//! magic (6 bytes) ‖ version (4 bytes, big-endian) ‖ nonce (24 bytes) ‖
//! ciphertext; magic and version are the associated data.

use vstd::prelude::*;
use crate::bytes::{append_bytes, be_u32, from_be4, push_be_u32};
use crate::mls::MlsError;
use crate::mls::crypto::{open, random_bytes, seal, xchacha_open, xchacha_seal};
use crate::text::{dec_digits, decimal, string_of};

verus! {

pub const FORMAT_VERSION: u32 = 1;

pub const NONCE_LEN: usize = 24;

/// "ODMLS" and a zero byte.
pub open spec fn magic() -> Seq<u8> {
    seq![79u8, 68, 77, 76, 83, 0]
}

/// The header of a blob in format `version`.
pub open spec fn spec_header(version: u32) -> Seq<u8> {
    magic() + be_u32(version)
}

/// A fresh random state key.
pub fn new_state_key() -> (r: [u8; 32]) {
    random_bytes::<32>()
}

pub fn header(version: u32) -> (r: Vec<u8>)
    ensures
        r@ == spec_header(version),
{
    let mut out: Vec<u8> = Vec::new();
    out.push(79u8);
    out.push(68u8);
    out.push(77u8);
    out.push(76u8);
    out.push(83u8);
    out.push(0u8);
    assert(out@ =~= magic());
    push_be_u32(&mut out, version);
    out
}

/// Encrypts the state under a fresh random nonce. Fails only for a state too
/// long for the cipher.
pub fn encrypt_state(key: &[u8; 32], plaintext: &[u8]) -> (r: Result<Vec<u8>, MlsError>)
    ensures
        plaintext@.len() / 64 < 0xffff_ffff ==> r is Ok,
        r matches Ok(out) ==> {
            &&& out@.len() == 34 + plaintext@.len() + 16
            &&& out@.subrange(0, 10) == spec_header(FORMAT_VERSION)
            &&& out@.subrange(34, out@.len() as int) == xchacha_seal(
                key@,
                out@.subrange(10, 34),
                spec_header(FORMAT_VERSION),
                plaintext@,
            )
            &&& xchacha_open(key@, out@.subrange(10, 34), spec_header(FORMAT_VERSION), out@.subrange(34, out@.len() as int))
                == Some(plaintext@)
        },
        r matches Err(e) ==> e matches MlsError::State(s) && s@ == "could not encrypt the MLS state"@,
{
    let aad = header(FORMAT_VERSION);
    let nonce = random_bytes::<24>();
    match seal(key, &nonce, aad.as_slice(), plaintext) {
        Ok(ciphertext) => {
            let mut out = aad;
            append_bytes(&mut out, &nonce);
            append_bytes(&mut out, ciphertext.as_slice());
            assert(out@.subrange(0, 10) =~= spec_header(FORMAT_VERSION));
            assert(out@.subrange(10, 34) =~= nonce@);
            assert(out@.subrange(34, out@.len() as int) =~= ciphertext@);
            Ok(out)
        },
        Err(_) => Err(MlsError::State("could not encrypt the MLS state".to_owned())),
    }
}

/// The outcome of reading a state blob: the plaintext, or why it was refused.
pub open spec fn spec_decrypt_state(key: Seq<u8>, blob: Seq<u8>) -> Result<Seq<u8>, Seq<char>> {
    if blob.len() < 34 {
        Err("the stored MLS state is truncated"@)
    } else if blob.subrange(0, 6) != magic() {
        Err("this file is not an MLS state blob"@)
    } else if from_be4(blob[6], blob[7], blob[8], blob[9]) != FORMAT_VERSION {
        Err("the stored MLS state is version "@ + dec_digits(from_be4(blob[6], blob[7], blob[8], blob[9]) as nat)
            + ", this build reads 1"@)
    } else {
        match xchacha_open(key, blob.subrange(10, 34), blob.subrange(0, 10), blob.subrange(34, blob.len() as int)) {
            Some(p) => Ok(p),
            None => Err("the stored MLS state failed its integrity check"@),
        }
    }
}

fn state_error(cs: &Vec<char>) -> (r: MlsError)
    ensures
        r matches MlsError::State(s) && s@ == cs@,
{
    MlsError::State(string_of(cs.as_slice()))
}

fn version_error(version: u32) -> (r: MlsError)
    ensures
        r matches MlsError::State(s) && s@ == "the stored MLS state is version "@ + dec_digits(version as nat)
            + ", this build reads 1"@,
{
    let mut cs = crate::text::chars_of("the stored MLS state is version ");
    let d = decimal(version as u64);
    let tail = crate::text::chars_of(", this build reads 1");
    let ghost start = cs@;
    let mut i: usize = 0;
    while i < d.len()
        invariant
            0 <= i <= d@.len(),
            cs@ == start + d@.take(i as int),
        decreases d@.len() - i,
    {
        cs.push(d[i]);
        assert(d@.take(i + 1) == d@.take(i as int).push(d@[i as int]));
        i = i + 1;
    }
    assert(d@.take(d@.len() as int) == d@);
    let ghost mid = cs@;
    let mut j: usize = 0;
    while j < tail.len()
        invariant
            0 <= j <= tail@.len(),
            cs@ == mid + tail@.take(j as int),
        decreases tail@.len() - j,
    {
        cs.push(tail[j]);
        assert(tail@.take(j + 1) == tail@.take(j as int).push(tail@[j as int]));
        j = j + 1;
    }
    assert(tail@.take(tail@.len() as int) == tail@);
    state_error(&cs)
}

/// Reads a state blob: refuses a truncated blob, a foreign magic and another
/// format version, each with its own message, and a blob whose tag does not
/// authenticate under `key`.
pub fn decrypt_state(key: &[u8; 32], blob: &[u8]) -> (r: Result<Vec<u8>, MlsError>)
    ensures
        match spec_decrypt_state(key@, blob@) {
            Ok(p) => r matches Ok(q) && q@ == p,
            Err(m) => r matches Err(e) && e matches MlsError::State(s) && s@ == m,
        },
{
    if blob.len() < 10 + NONCE_LEN {
        return Err(MlsError::State("the stored MLS state is truncated".to_owned()));
    }
    if !(blob[0] == 79u8 && blob[1] == 68u8 && blob[2] == 77u8 && blob[3] == 76u8 && blob[4] == 83u8 && blob[5]
        == 0u8) {
        assert(blob@.subrange(0, 6) != magic()) by {
            if blob@.subrange(0, 6) == magic() {
                assert(blob@.subrange(0, 6)[0] == blob@[0]);
                assert(blob@.subrange(0, 6)[1] == blob@[1]);
                assert(blob@.subrange(0, 6)[2] == blob@[2]);
                assert(blob@.subrange(0, 6)[3] == blob@[3]);
                assert(blob@.subrange(0, 6)[4] == blob@[4]);
                assert(blob@.subrange(0, 6)[5] == blob@[5]);
            }
        }
        return Err(MlsError::State("this file is not an MLS state blob".to_owned()));
    }
    assert(blob@.subrange(0, 6) =~= magic());
    let (b6, b7, b8, b9) = (blob[6] as u32, blob[7] as u32, blob[8] as u32, blob[9] as u32);
    let version = b6 * 0x100_0000 + b7 * 0x1_0000 + b8 * 0x100 + b9;
    if version != FORMAT_VERSION {
        return Err(version_error(version));
    }
    let nonce = vstd::slice::slice_subrange(blob, 10, 34);
    let aad = vstd::slice::slice_subrange(blob, 0, 10);
    let ct = vstd::slice::slice_subrange(blob, 34, blob.len());
    match open(key, nonce, aad, ct) {
        Ok(p) => Ok(p),
        Err(_) => Err(MlsError::State("the stored MLS state failed its integrity check".to_owned())),
    }
}

/// A blob written by `encrypt_state` reads back, under the same key, as the
/// plaintext it was made from: any output that meets `encrypt_state`'s
/// contract decrypts to that plaintext.
pub proof fn lemma_state_round_trip(key: Seq<u8>, plaintext: Seq<u8>, out: Seq<u8>)
    requires
        out.len() == 34 + plaintext.len() + 16,
        out.subrange(0, 10) == spec_header(FORMAT_VERSION),
        xchacha_open(key, out.subrange(10, 34), spec_header(FORMAT_VERSION), out.subrange(34, out.len() as int))
            == Some(plaintext),
    ensures
        spec_decrypt_state(key, out) == Ok::<Seq<u8>, Seq<char>>(plaintext),
{
    assert(out.subrange(0, 6) =~= out.subrange(0, 10).subrange(0, 6));
    assert(spec_header(FORMAT_VERSION).subrange(0, 6) =~= magic());
    assert(out[6] == spec_header(FORMAT_VERSION)[6]);
    assert(out[7] == spec_header(FORMAT_VERSION)[7]);
    assert(out[8] == spec_header(FORMAT_VERSION)[8]);
    assert(out[9] == spec_header(FORMAT_VERSION)[9]);
}

} // verus!
