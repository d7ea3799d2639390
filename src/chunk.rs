use vstd::prelude::*;

use crate::types::CompressAlgorithm;

verus! {

/// A data chunk as the builder sees it.
#[derive(Clone, Copy, Debug)]
pub struct ChunkInfo {
    /// Index of the chunk inside its blob.
    pub index: u32,
    /// Index of the blob in the blob table.
    pub blob_index: u32,
    pub compressed_offset: u64,
    pub compressed_size: u32,
    pub uncompressed_offset: u64,
    pub uncompressed_size: u32,
    pub is_compressed: bool,
    /// Content digest of the chunk.
    pub digest: [u8; 32],
}

/// Chunk-info record in the V1 layout: offsets and sizes.
#[derive(Clone, Copy, Debug, PartialEq, Eq, Structural)]
pub struct ChunkMetaV1 {
    pub compressed_offset: u64,
    pub compressed_size: u32,
    pub uncompressed_offset: u64,
    pub uncompressed_size: u32,
}

/// Chunk-info record in the V2 layout: offsets, sizes, a compressed flag and
/// an opaque data word.
#[derive(Clone, Copy, Debug, PartialEq, Eq, Structural)]
pub struct ChunkMetaV2 {
    pub compressed_offset: u64,
    pub compressed_size: u32,
    pub uncompressed_offset: u64,
    pub uncompressed_size: u32,
    pub is_compressed: bool,
    pub data: u64,
}

/// The chunk-info array of a blob, in one of the two on-disk layouts.
pub enum ChunkMetaArray {
    V1(Vec<ChunkMetaV1>),
    V2(Vec<ChunkMetaV2>),
}

impl ChunkMetaArray {
    pub open spec fn spec_len(&self) -> nat {
        match self {
            ChunkMetaArray::V1(v) => v@.len(),
            ChunkMetaArray::V2(v) => v@.len(),
        }
    }

    pub fn len(&self) -> (r: usize)
        ensures
            r as nat == self.spec_len(),
    {
        match self {
            ChunkMetaArray::V1(v) => v.len(),
            ChunkMetaArray::V2(v) => v.len(),
        }
    }
}

/// The V1 record describing a chunk.
pub open spec fn meta_v1_of(c: ChunkInfo) -> ChunkMetaV1 {
    ChunkMetaV1 {
        compressed_offset: c.compressed_offset,
        compressed_size: c.compressed_size,
        uncompressed_offset: c.uncompressed_offset,
        uncompressed_size: c.uncompressed_size,
    }
}

/// The V2 record synthesized for a chunk.
pub open spec fn meta_v2_of(c: ChunkInfo) -> ChunkMetaV2 {
    ChunkMetaV2 {
        compressed_offset: c.compressed_offset,
        compressed_size: c.compressed_size,
        uncompressed_offset: c.uncompressed_offset,
        uncompressed_size: c.uncompressed_size,
        is_compressed: c.is_compressed,
        data: 0,
    }
}

/// Chunk-info location fields of a blob's metadata.
#[derive(Clone, Copy, Debug, PartialEq, Eq, Structural)]
pub struct MetaCiInfo {
    pub compressor: CompressAlgorithm,
    pub offset: u64,
    pub compressed_size: u64,
    pub uncompressed_size: u64,
}

/// The metadata header that precedes a blob's chunk-info array on disk.
#[derive(Clone, Copy, Debug, PartialEq, Eq, Structural)]
pub struct BlobMetaHeader {
    /// Feature bits recorded in the header.
    pub features: u32,
    pub ci_compressor: CompressAlgorithm,
    pub ci_entries: u32,
    pub ci_compressed_offset: u64,
    pub ci_compressed_size: u64,
    pub ci_uncompressed_size: u64,
}

impl BlobMetaHeader {
    /// A header with no feature and no chunk-info location.
    pub fn new(features: u32) -> (r: Self)
        ensures
            r == (BlobMetaHeader {
                features,
                ci_compressor: CompressAlgorithm::Uncompressed,
                ci_entries: 0,
                ci_compressed_offset: 0,
                ci_compressed_size: 0,
                ci_uncompressed_size: 0,
            }),
    {
        BlobMetaHeader {
            features,
            ci_compressor: CompressAlgorithm::Uncompressed,
            ci_entries: 0,
            ci_compressed_offset: 0,
            ci_compressed_size: 0,
            ci_uncompressed_size: 0,
        }
    }
}

/// What a bootstrap records of one blob in its blob table.
#[derive(Clone, Debug)]
pub struct BlobInfo {
    /// Index of the blob in the blob table it was read from.
    pub blob_index: u32,
    /// The blob id that runtime addressing uses.
    pub blob_id: String,
    /// The blob id as stored in the blob table.
    pub raw_blob_id: String,
    /// Id of the referenced RAFS blob of a ZRAN blob, if it has one.
    pub rafs_blob_id: Option<String>,
    pub features: u32,
    pub compressor: CompressAlgorithm,
    pub digester: crate::types::DigestAlgorithm,
    pub chunk_size: u32,
    pub chunk_count: u32,
    pub compressed_size: u64,
    pub uncompressed_size: u64,
    pub prefetch_size: u64,
    pub rafs_blob_digest: [u8; 32],
    pub rafs_blob_size: u64,
    pub rafs_blob_toc_digest: [u8; 32],
    pub rafs_blob_toc_size: u32,
    /// Chunk-info location, when the blob advertises valid chunk-info metadata.
    pub meta_ci: Option<MetaCiInfo>,
}

} // verus!
