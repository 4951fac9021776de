//! The SHA-256 of a plaintext fed to it piece by piece, as file encryption
//! keeps it for the manifest.

use sha2::{Digest, Sha256};
use vstd::prelude::*;
use crate::bytes::{hex, spec_hex};
use crate::mls::fingerprint::sha256_digest;

verus! {

/// A running SHA-256 (`sha2::Sha256`). The type is held behind this struct
/// because its alias expands to nested generic wrappers that cannot be
/// declared to Verus; only the three functions below touch it.
#[verifier::external_body]
pub struct PlainHasher {
    inner: Sha256,
}

/// The bytes fed to a running hash so far, in order.
pub uninterp spec fn hashed_so_far(h: PlainHasher) -> Seq<u8>;

/// `Sha256::new` (sha2 0.10): a hash that has been fed nothing.
#[verifier::external_body]
fn hasher_new() -> (h: PlainHasher)
    ensures
        hashed_so_far(h) == Seq::<u8>::empty(),
{
    PlainHasher { inner: Sha256::new() }
}

/// `Digest::update`: feeds `data` after what came before.
#[verifier::external_body]
pub(crate) fn hasher_update(h: &mut PlainHasher, data: &[u8])
    ensures
        hashed_so_far(*final(h)) == hashed_so_far(*old(h)) + data@,
{
    h.inner.update(data)
}

/// `Digest::finalize`: the 32-byte SHA-256 digest of everything fed, the
/// same digest that `Digest::digest` gives of those bytes at once (which is
/// how `digest` is written: a new hasher, one update, finalize).
#[verifier::external_body]
fn hasher_finish(h: PlainHasher) -> (r: Vec<u8>)
    ensures
        r@ == sha256_digest(hashed_so_far(h)),
        r@.len() == 32,
{
    h.inner.finalize().to_vec()
}

/// A running hash of a plaintext, fed nothing yet.
pub fn new_plain_hasher() -> (h: PlainHasher)
    ensures
        hashed_so_far(h) == Seq::<u8>::empty(),
{
    hasher_new()
}

/// The SHA-256 of everything fed, in lowercase hex.
pub fn plain_digest_hex(h: PlainHasher) -> (r: String)
    ensures
        r@ == spec_hex(sha256_digest(hashed_so_far(h))),
{
    let d = hasher_finish(h);
    hex(d.as_slice())
}

} // verus!
