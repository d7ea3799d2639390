use vstd::prelude::*;

verus! {

/// Running SHA-256 over the bytes written to a blob.
#[verifier::external_body]
pub struct BlobHasher {
    inner: sha2::Sha256,
}

/// The bytes a hasher has consumed so far; its digest depends on them alone.
pub uninterp spec fn hashed_bytes(h: BlobHasher) -> Seq<u8>;

impl BlobHasher {
    /// Relies on sha2::Sha256::new: a fresh hasher has consumed nothing.
    #[verifier::external_body]
    pub fn new() -> (r: Self)
        ensures
            hashed_bytes(r) == Seq::<u8>::empty(),
    {
        BlobHasher { inner: <sha2::Sha256 as sha2::Digest>::new() }
    }

    /// Relies on sha2::Digest::update: `data` is appended to the hashed input.
    #[verifier::external_body]
    pub fn update(&mut self, data: &[u8])
        ensures
            hashed_bytes(*final(self)) == hashed_bytes(*old(self)) + data@,
    {
        sha2::Digest::update(&mut self.inner, data)
    }
}

} // verus!
