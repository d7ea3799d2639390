use vstd::prelude::*;
use std::collections::HashMap;

use crate::chunk::BlobInfo;

verus! {

broadcast use vstd::std_specs::hash::group_hash_axioms;

/// The blobs of a chunk dictionary, and where each of them landed in the blob
/// table of the image being built.
pub struct ChunkDict {
    blobs: Vec<BlobInfo>,
    real_blob_idx: HashMap<u32, u32>,
}

impl ChunkDict {
    /// The dictionary's blobs, in its own blob-table order.
    pub closed spec fn blobs(&self) -> Seq<BlobInfo> {
        self.blobs@
    }

    /// Map from the dictionary's own blob indices to blob-table indices of
    /// the image being built.
    pub closed spec fn real_idx(&self) -> Map<u32, u32> {
        self.real_blob_idx@
    }

    /// A dictionary of `blobs` with no index mapped yet.
    pub fn new(blobs: Vec<BlobInfo>) -> (r: Self)
        ensures
            r.blobs() == blobs@,
            r.real_idx() == Map::<u32, u32>::empty(),
    {
        ChunkDict { blobs, real_blob_idx: HashMap::new() }
    }

    /// The dictionary's blobs.
    pub fn get_blobs(&self) -> (r: &Vec<BlobInfo>)
        ensures
            r@ == self.blobs(),
    {
        &self.blobs
    }

    /// Records that the dictionary's blob `inner_idx` is blob `real_idx` of
    /// the image being built.
    pub fn set_real_blob_idx(&mut self, inner_idx: u32, real_idx: u32)
        ensures
            final(self).blobs() == old(self).blobs(),
            final(self).real_idx() == old(self).real_idx().insert(inner_idx, real_idx),
    {
        self.real_blob_idx.insert(inner_idx, real_idx);
    }

    /// Where the dictionary's blob `inner_idx` landed, if recorded.
    pub fn get_real_blob_idx(&self, inner_idx: u32) -> (r: Option<u32>)
        ensures
            self.real_idx().contains_key(inner_idx) ==> r == Some(self.real_idx()[inner_idx]),
            !self.real_idx().contains_key(inner_idx) ==> r is None,
    {
        match self.real_blob_idx.get(&inner_idx) {
            Some(v) => Some(*v),
            None => None,
        }
    }
}

} // verus!
