use vstd::prelude::*;

use crate::blob::BlobContext;
use crate::chunk::BlobMetaHeader;
use crate::context::BuildContext;
use crate::error::BuildError;
use crate::manager::BlobManager;
use crate::types::{CompressAlgorithm, DigestAlgorithm, RafsVersion};

verus! {

/// Superblock flag: chunks are not compressed.
pub const RAFS_FLAG_COMPRESSION_NONE: u32 = 0x1;
/// Superblock flag: chunks are LZ4-block compressed.
pub const RAFS_FLAG_COMPRESSION_LZ4: u32 = 0x2;
/// Superblock flag: digests are BLAKE3.
pub const RAFS_FLAG_HASH_BLAKE3: u32 = 0x4;
/// Superblock flag: digests are SHA-256.
pub const RAFS_FLAG_HASH_SHA256: u32 = 0x8;
/// Superblock flag: chunks are gzip compressed.
pub const RAFS_FLAG_COMPRESSION_GZIP: u32 = 0x40;
/// Superblock flag: chunks are zstd compressed.
pub const RAFS_FLAG_COMPRESSION_ZSTD: u32 = 0x80;

pub open spec fn compressor_flag(c: CompressAlgorithm) -> u32 {
    match c {
        CompressAlgorithm::Uncompressed => RAFS_FLAG_COMPRESSION_NONE,
        CompressAlgorithm::Lz4Block => RAFS_FLAG_COMPRESSION_LZ4,
        CompressAlgorithm::GZip => RAFS_FLAG_COMPRESSION_GZIP,
        CompressAlgorithm::Zstd => RAFS_FLAG_COMPRESSION_ZSTD,
    }
}

pub open spec fn digester_flag(d: DigestAlgorithm) -> u32 {
    match d {
        DigestAlgorithm::Blake3 => RAFS_FLAG_HASH_BLAKE3,
        DigestAlgorithm::Sha256 => RAFS_FLAG_HASH_SHA256,
    }
}

fn compressor_flag_of(c: CompressAlgorithm) -> (r: u32)
    ensures
        r == compressor_flag(c),
{
    match c {
        CompressAlgorithm::Uncompressed => RAFS_FLAG_COMPRESSION_NONE,
        CompressAlgorithm::Lz4Block => RAFS_FLAG_COMPRESSION_LZ4,
        CompressAlgorithm::GZip => RAFS_FLAG_COMPRESSION_GZIP,
        CompressAlgorithm::Zstd => RAFS_FLAG_COMPRESSION_ZSTD,
    }
}

fn digester_flag_of(d: DigestAlgorithm) -> (r: u32)
    ensures
        r == digester_flag(d),
{
    match d {
        DigestAlgorithm::Blake3 => RAFS_FLAG_HASH_BLAKE3,
        DigestAlgorithm::Sha256 => RAFS_FLAG_HASH_SHA256,
    }
}

/// One blob of an emitted blob table. The referenced-blob, ToC and header
/// fields are recorded by the v6 dialect only.
#[derive(Clone, Debug)]
pub struct BlobTableEntry {
    pub blob_id: String,
    pub readahead_offset: u32,
    pub prefetch_size: u32,
    pub chunk_size: u32,
    pub chunk_count: u32,
    pub uncompressed_size: u64,
    pub compressed_size: u64,
    /// Superblock flags of the blob's compressor and digester.
    pub flags: u32,
    pub rafs_blob_digest: [u8; 32],
    pub rafs_blob_toc_digest: [u8; 32],
    pub rafs_blob_size: u64,
    pub rafs_blob_toc_size: u32,
    pub meta_header: Option<BlobMetaHeader>,
}

/// An emitted blob table, in the dialect of a metadata version.
pub enum BlobTable {
    V5(Vec<BlobTableEntry>),
    V6(Vec<BlobTableEntry>),
}

impl BlobTable {
    pub open spec fn entries(&self) -> Seq<BlobTableEntry> {
        match self {
            BlobTable::V5(v) => v@,
            BlobTable::V6(v) => v@,
        }
    }
}

/// `e` is the table entry of blob `b` in dialect `v`.
pub open spec fn entry_describes(e: BlobTableEntry, b: BlobContext, v: RafsVersion) -> bool {
    &&& e.blob_id@ == b.blob_id@
    &&& e.readahead_offset == 0
    &&& e.prefetch_size as u64 == b.blob_prefetch_size
    &&& e.chunk_size == b.chunk_size
    &&& e.chunk_count == b.chunk_count
    &&& e.uncompressed_size == b.uncompressed_blob_size
    &&& e.compressed_size == b.compressed_blob_size
    &&& e.flags == compressor_flag(b.blob_compressor) | digester_flag(b.blob_digester)
    &&& if v == RafsVersion::V6 {
        &&& e.rafs_blob_digest == b.rafs_blob_digest
        &&& e.rafs_blob_toc_digest == b.rafs_blob_toc_digest
        &&& e.rafs_blob_size == b.rafs_blob_size
        &&& e.rafs_blob_toc_size == b.rafs_blob_toc_size
        &&& e.meta_header == Some(b.blob_meta_header)
    } else {
        &&& e.rafs_blob_digest@ == Seq::new(32, |i: int| 0u8)
        &&& e.rafs_blob_toc_digest@ == Seq::new(32, |i: int| 0u8)
        &&& e.rafs_blob_size == 0
        &&& e.rafs_blob_toc_size == 0
        &&& e.meta_header is None
    }
}

fn table_entry(b: &BlobContext, v: RafsVersion) -> (e: BlobTableEntry)
    requires
        b.blob_prefetch_size <= u32::MAX,
    ensures
        entry_describes(e, *b, v),
{
    let flags = compressor_flag_of(b.blob_compressor) | digester_flag_of(b.blob_digester);
    let e = match v {
        RafsVersion::V6 => BlobTableEntry {
            blob_id: b.blob_id.clone(),
            readahead_offset: 0,
            prefetch_size: b.blob_prefetch_size as u32,
            chunk_size: b.chunk_size,
            chunk_count: b.chunk_count,
            uncompressed_size: b.uncompressed_blob_size,
            compressed_size: b.compressed_blob_size,
            flags,
            rafs_blob_digest: b.rafs_blob_digest,
            rafs_blob_toc_digest: b.rafs_blob_toc_digest,
            rafs_blob_size: b.rafs_blob_size,
            rafs_blob_toc_size: b.rafs_blob_toc_size,
            meta_header: Some(b.blob_meta_header),
        },
        RafsVersion::V5 => BlobTableEntry {
            blob_id: b.blob_id.clone(),
            readahead_offset: 0,
            prefetch_size: b.blob_prefetch_size as u32,
            chunk_size: b.chunk_size,
            chunk_count: b.chunk_count,
            uncompressed_size: b.uncompressed_blob_size,
            compressed_size: b.compressed_blob_size,
            flags,
            rafs_blob_digest: [0u8; 32],
            rafs_blob_toc_digest: [0u8; 32],
            rafs_blob_size: 0,
            rafs_blob_toc_size: 0,
            meta_header: None,
        },
    };
    assert(e.rafs_blob_digest@ =~= Seq::new(32, |i: int| 0u8) || v == RafsVersion::V6);
    assert(e.rafs_blob_toc_digest@ =~= Seq::new(32, |i: int| 0u8) || v == RafsVersion::V6);
    e
}

impl BlobManager {
    /// The blob table of all blobs, in order, in the dialect of the build's
    /// metadata version. Fails when a blob's prefetch size does not fit in
    /// 32 bits.
    pub fn to_blob_table(&self, build_ctx: &BuildContext) -> (r: Result<BlobTable, BuildError>)
        ensures
            (exists|i: int|
                0 <= i < self.blobs().len() && #[trigger] self.blobs()[i].blob_prefetch_size
                    > u32::MAX) ==> r == Err::<BlobTable, BuildError>(BuildError::Overflow),
            (forall|i: int|
                0 <= i < self.blobs().len() ==> #[trigger] self.blobs()[i].blob_prefetch_size
                    <= u32::MAX) ==> r is Ok,
            r matches Ok(t) ==> {
                &&& (t is V6 <==> build_ctx.fs_version == RafsVersion::V6)
                &&& t.entries().len() == self.blobs().len()
                &&& forall|i: int|
                    0 <= i < t.entries().len() ==> entry_describes(
                        #[trigger] t.entries()[i],
                        self.blobs()[i],
                        build_ctx.fs_version,
                    )
            },
    {
        let blobs = self.get_blobs();
        let v = build_ctx.fs_version;
        let mut entries: Vec<BlobTableEntry> = Vec::new();
        let mut i: usize = 0;
        while i < blobs.len()
            invariant
                i <= blobs@.len(),
                blobs@.len() == self.blobs().len(),
                forall|k: int| 0 <= k < blobs@.len() ==> *blobs@[k] == self.blobs()[k],
                entries@.len() == i,
                forall|k: int|
                    0 <= k < i ==> entry_describes(#[trigger] entries@[k], self.blobs()[k], v),
                forall|k: int| 0 <= k < i ==> #[trigger] self.blobs()[k].blob_prefetch_size <= u32::MAX,
            decreases blobs.len() - i,
        {
            let b = blobs[i];
            if b.blob_prefetch_size > u32::MAX as u64 {
                return Err(BuildError::Overflow);
            }
            entries.push(table_entry(b, v));
            i = i + 1;
        }
        match v {
            RafsVersion::V5 => Ok(BlobTable::V5(entries)),
            RafsVersion::V6 => Ok(BlobTable::V6(entries)),
        }
    }
}

} // verus!
