//! Hashing an object's bytes as they arrive.

use crate::text::hex_text;
use vstd::prelude::*;

verus! {

/// The SHA-256 digest of some bytes.
pub uninterp spec fn sha256(bytes: Seq<u8>) -> Seq<u8>;

/// The bytes that a hasher has been fed.
pub uninterp spec fn absorbed(hasher: Hasher) -> Seq<u8>;

/// A `sha2::Sha256` in the course of hashing.
#[verifier::external_body]
pub struct Hasher {
    inner: sha2::Sha256,
}

/// `sha2::Sha256::new`: a hasher that has been fed nothing.
#[verifier::external_body]
fn new_hasher() -> (r: Hasher)
    ensures
        absorbed(r) == Seq::<u8>::empty(),
{
    Hasher { inner: sha2::Digest::new() }
}

/// The number of bytes that SHA-256 is defined for: it counts their bits in 64 bits.
pub const MAX_HASHED: u64 = 0x1fff_ffff_ffff_ffff;

/// `sha2::Sha256::update`: feeds the hasher more bytes. The bound is that of the bits that it counts.
#[verifier::external_body]
fn feed(hasher: &mut Hasher, bytes: &[u8])
    requires
        absorbed(*old(hasher)).len() + bytes@.len() <= MAX_HASHED,
    ensures
        absorbed(*final(hasher)) == absorbed(*old(hasher)) + bytes@,
{
    sha2::Digest::update(&mut hasher.inner, bytes)
}

/// `sha2::Sha256::finalize`: the digest of all the bytes that the hasher was fed. The digest is
/// named, not described. It counts their bits, which the bound lets it do.
#[verifier::external_body]
fn finalize(hasher: Hasher) -> (r: [u8; 32])
    requires
        absorbed(hasher).len() <= MAX_HASHED,
    ensures
        r@ == sha256(absorbed(hasher)),
{
    sha2::Digest::finalize(hasher.inner).into()
}

/// `hex::encode`: two lower-case hexadecimal digits for each byte.
#[verifier::external_body]
pub(crate) fn hex_encode(bytes: &[u8]) -> (r: String)
    requires
        bytes@.len() <= usize::MAX / 2,
    ensures
        r@ == hex_text(bytes@),
{
    hex::encode(bytes)
}

/// The digest and the length of an object that arrives in chunks.
pub struct ObjectDigest {
    hasher: Hasher,
    total: u64,
}

impl View for ObjectDigest {
    type V = Seq<u8>;

    /// The bytes that have arrived.
    closed spec fn view(&self) -> Seq<u8> {
        absorbed(self.hasher)
    }
}

impl ObjectDigest {
    /// The counted length is that of the bytes that have arrived.
    pub closed spec fn wf(self) -> bool {
        self.total == self@.len() && self.total <= MAX_HASHED
    }

    /// Nothing has arrived yet.
    pub fn new() -> (r: ObjectDigest)
        ensures
            r.wf(),
            r@ == Seq::<u8>::empty(),
    {
        ObjectDigest { hasher: new_hasher(), total: 0 }
    }

    /// Take in the next chunk.
    pub fn update(&mut self, chunk: &[u8])
        requires
            old(self).wf(),
            old(self)@.len() + chunk@.len() <= MAX_HASHED,
        ensures
            final(self).wf(),
            final(self)@ == old(self)@ + chunk@,
    {
        feed(&mut self.hasher, chunk);
        self.total = self.total + chunk.len() as u64;
    }

    /// The object's id, which is its digest in hexadecimal, and its length.
    pub fn finish(self) -> (r: (String, u64))
        requires
            self.wf(),
        ensures
            r.0@ == hex_text(sha256(self@)),
            r.1 == self@.len(),
    {
        let digest = finalize(self.hasher);
        (hex_encode(digest.as_slice()), self.total)
    }
}

/// An object that arrives in chunks has the digest and the length of all of them in a row.
pub proof fn chunks_are_hashed_in_a_row(digest: &mut ObjectDigest, chunk: &[u8], unit: (), whole: ObjectDigest, end: (String, u64))
    requires
        call_ensures(ObjectDigest::update, (digest, chunk), unit),
        old(digest).wf(),
        old(digest)@.len() + chunk@.len() <= MAX_HASHED,
        whole.wf(),
        call_ensures(ObjectDigest::finish, (whole,), end),
    ensures
        final(digest)@ == old(digest)@ + chunk@,
        end.0@ == hex_text(sha256(whole@)),
        end.1 == whole@.len(),
{
}

} // verus!
