//! The SHA-256 digest of a stored NAR file, computed as its bytes go by.

use sha2::Digest;
use vstd::prelude::*;

verus! {

/// A `sha2::Sha256` hasher. Verus cannot take `sha2::Sha256` as a declared
/// outside type (its type arguments carry outside trait bounds), so the
/// hasher is held in this opaque struct, and what it has been fed is named
/// by `absorbed_bytes`.
#[verifier::external_body]
pub struct NarHasher {
    inner: sha2::Sha256,
}

/// The SHA-256 digest of `data`.
pub uninterp spec fn sha256(data: Seq<u8>) -> Seq<u8>;

/// The bytes the hasher has been fed since it was created, in order.
pub uninterp spec fn absorbed_bytes(h: NarHasher) -> Seq<u8>;

/// Calls `sha2::Sha256::new`: a hasher that has been fed nothing.
#[verifier::external_body]
fn nar_hasher_new() -> (h: NarHasher)
    ensures
        absorbed_bytes(h) == Seq::<u8>::empty(),
{
    NarHasher { inner: sha2::Sha256::new() }
}

/// Calls `Digest::update` with `chunk`: the hasher has then been fed its
/// earlier bytes followed by `chunk`.
#[verifier::external_body]
fn nar_hasher_update(h: &mut NarHasher, chunk: &[u8])
    ensures
        absorbed_bytes(*final(h)) == absorbed_bytes(*old(h)) + chunk@,
{
    h.inner.update(chunk);
}

/// Calls `Digest::finalize` and converts the 32-byte output to a `Vec`: the
/// SHA-256 digest of every byte fed to the hasher.
#[verifier::external_body]
fn nar_hasher_finalize(h: NarHasher) -> (d: Vec<u8>)
    ensures
        d@ == sha256(absorbed_bytes(h)),
        d@.len() == 32,
{
    h.inner.finalize().to_vec()
}

impl NarHasher {
    /// The bytes hashed so far, in order.
    pub open spec fn absorbed(&self) -> Seq<u8> {
        absorbed_bytes(*self)
    }

    /// A hasher that has seen no byte.
    pub fn new() -> (h: NarHasher)
        ensures
            h.absorbed() == Seq::<u8>::empty(),
    {
        nar_hasher_new()
    }

    /// Feeds the next chunk of the file.
    pub fn absorb(&mut self, chunk: &[u8])
        ensures
            final(self).absorbed() == old(self).absorbed() + chunk@,
    {
        nar_hasher_update(self, chunk);
    }

    /// The SHA-256 digest of all bytes fed, in order.
    pub fn finish(self) -> (d: Vec<u8>)
        ensures
            d@ == sha256(self.absorbed()),
            d@.len() == 32,
    {
        nar_hasher_finalize(self)
    }
}

} // verus!
