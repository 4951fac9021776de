//! The XChaCha20-Poly1305 AEAD and the random source, as the encryption
//! framing uses them.

use chacha20poly1305::aead::{Aead, KeyInit, Payload};
use chacha20poly1305::{Key, XChaCha20Poly1305, XNonce};
use rand::Rng;
use vstd::prelude::*;

verus! {

#[verifier::external_type_specification]
#[verifier::external_body]
pub struct ExAeadError(chacha20poly1305::Error);

/// The ciphertext (with its 16-byte tag appended) that XChaCha20-Poly1305
/// makes of `msg` under `key`, `nonce` and associated data `aad`.
pub uninterp spec fn xchacha_seal(key: Seq<u8>, nonce: Seq<u8>, aad: Seq<u8>, msg: Seq<u8>) -> Seq<u8>;

/// The plaintext that XChaCha20-Poly1305 recovers from `ct` under `key`,
/// `nonce` and `aad`, or `None` when the tag does not authenticate.
pub uninterp spec fn xchacha_open(key: Seq<u8>, nonce: Seq<u8>, aad: Seq<u8>, ct: Seq<u8>) -> Option<Seq<u8>>;

/// Encrypts with `Aead::encrypt` of `XChaCha20Poly1305` (aead 0.5). The crate
/// refuses only a message of 2^32 - 1 blocks of 64 bytes or more; otherwise
/// the result is the ciphertext followed by the 16-byte tag, and decrypting it
/// with the same key, nonce and associated data gives the message back (what
/// an AEAD is for). Nothing is said of the ciphertext's bytes beyond its name.
#[verifier::external_body]
pub(crate) fn seal(key: &[u8; 32], nonce: &[u8], aad: &[u8], msg: &[u8]) -> (r: Result<Vec<u8>, chacha20poly1305::Error>)
    requires
        nonce@.len() == 24,
    ensures
        msg@.len() / 64 < 0xffff_ffff ==> r is Ok,
        r matches Ok(c) ==> c@ == xchacha_seal(key@, nonce@, aad@, msg@) && c@.len() == msg@.len() + 16
            && xchacha_open(key@, nonce@, aad@, c@) == Some(msg@),
{
    XChaCha20Poly1305::new(Key::from_slice(key)).encrypt(XNonce::from_slice(nonce), Payload { msg, aad })
}

/// Decrypts with `Aead::decrypt` of `XChaCha20Poly1305` (aead 0.5): the
/// plaintext when the tag authenticates, an error otherwise, in particular
/// when the ciphertext is shorter than a tag.
#[verifier::external_body]
pub(crate) fn open(key: &[u8; 32], nonce: &[u8], aad: &[u8], ct: &[u8]) -> (r: Result<Vec<u8>, chacha20poly1305::Error>)
    requires
        nonce@.len() == 24,
    ensures
        r matches Ok(p) ==> xchacha_open(key@, nonce@, aad@, ct@) == Some(p@),
        r is Err ==> xchacha_open(key@, nonce@, aad@, ct@) is None,
        ct@.len() < 16 ==> r is Err,
{
    XChaCha20Poly1305::new(Key::from_slice(key)).decrypt(XNonce::from_slice(nonce), Payload { msg: ct, aad })
}

/// `N` bytes from the thread-local generator of `rand` (`Rng::fill_bytes`);
/// nothing is promised of their values.
#[verifier::external_body]
pub(crate) fn random_bytes<const N: usize>() -> [u8; N] {
    let mut b = [0u8; N];
    rand::rng().fill_bytes(&mut b);
    b
}

} // verus!
