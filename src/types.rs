use vstd::prelude::*;

verus! {

/// Blob feature bit: chunks are laid out 4K-aligned.
pub const BLOB_FEATURE_ALIGNED: u32 = 0x1;
/// Blob feature bit: the chunk-info metadata is inlined in the data blob.
pub const BLOB_FEATURE_INLINED_META: u32 = 0x2;
/// Blob feature bit: chunk-info records use the V2 on-disk layout.
pub const BLOB_FEATURE_CHUNK_INFO_V2: u32 = 0x4;
/// Blob feature bit: chunks reference an outer tar.gz through a ZRAN index.
pub const BLOB_FEATURE_ZRAN: u32 = 0x8;
/// Blob feature bit: metadata is kept in a blob of its own.
pub const BLOB_FEATURE_SEPARATE: u32 = 0x10;
/// Blob feature bit: chunk digests are inlined after the chunk-info array.
pub const BLOB_FEATURE_INLINED_CHUNK_DIGEST: u32 = 0x20;

/// The feature bits that a blob's metadata header records.
pub const BLOB_HEADER_FEATURE_MASK: u32 = 0x2f;

/// Default chunk size of an image.
pub const RAFS_DEFAULT_CHUNK_SIZE: u32 = 0x100000;

/// Largest number of chunks a blob may hold (24-bit chunk indices).
pub const MAX_CHUNKS_PER_BLOB: u32 = 0xff_ffff;

/// EROFS block size.
pub const EROFS_BLOCK_SIZE: u64 = 4096;
/// EROFS inode slot size.
pub const EROFS_INODE_SLOT_SIZE: u64 = 32;

pub open spec fn has_feature(features: u32, flag: u32) -> bool {
    features & flag != 0
}

/// Compression algorithm of blob chunks.
#[derive(Clone, Copy, Debug, PartialEq, Eq, Structural)]
pub enum CompressAlgorithm {
    Uncompressed,
    Lz4Block,
    GZip,
    Zstd,
}

/// Digest algorithm of chunks and inodes.
#[derive(Clone, Copy, Debug, PartialEq, Eq, Structural)]
pub enum DigestAlgorithm {
    Blake3,
    Sha256,
}

/// On-disk format version of the metadata.
#[derive(Clone, Copy, Debug, PartialEq, Eq, Structural)]
pub enum RafsVersion {
    V5,
    V6,
}

/// Where the blob a context describes comes from.
#[derive(Clone, Copy, Debug, PartialEq, Eq, Structural)]
pub enum ChunkSource {
    /// Built by the current build.
    Build,
    /// Imported from a chunk dictionary.
    Dict,
    /// Imported from a parent bootstrap.
    Parent,
}

/// Prefetch policy of a build.
#[derive(Clone, Copy, Debug, PartialEq, Eq, Structural)]
pub enum PrefetchPolicy {
    Disabled,
    Fs,
    Blob,
}

/// Whiteout convention of a layer.
#[derive(Clone, Copy, Debug, PartialEq, Eq, Structural)]
pub enum WhiteoutSpec {
    Oci,
    Overlayfs,
    Ignored,
}

impl CompressAlgorithm {
    pub fn default() -> (r: Self)
        ensures
            r == CompressAlgorithm::Uncompressed,
    {
        CompressAlgorithm::Uncompressed
    }
}

impl DigestAlgorithm {
    pub fn default() -> (r: Self)
        ensures
            r == DigestAlgorithm::Blake3,
    {
        DigestAlgorithm::Blake3
    }
}

impl RafsVersion {
    pub fn default() -> (r: Self)
        ensures
            r == RafsVersion::V6,
    {
        RafsVersion::V6
    }
}

impl WhiteoutSpec {
    pub fn default() -> (r: Self)
        ensures
            r == WhiteoutSpec::Oci,
    {
        WhiteoutSpec::Oci
    }
}

} // verus!
