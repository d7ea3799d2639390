use vstd::prelude::*;

use crate::artifact::ArtifactStorage;
use crate::conversion::ConversionType;
use crate::types::{
    CompressAlgorithm, DigestAlgorithm, PrefetchPolicy, RafsVersion, WhiteoutSpec,
    BLOB_FEATURE_INLINED_META, RAFS_DEFAULT_CHUNK_SIZE,
};

verus! {

/// Settings a build reads from its configuration.
#[derive(Clone, Copy, Debug, PartialEq, Eq, Structural)]
pub struct BuildConfiguration {
    /// Blobs are reachable under their own ids at runtime, so merged images
    /// keep those ids.
    pub blob_accessible: bool,
}

/// Configuration of one build; it outlives every other build object.
pub struct BuildContext {
    /// Blob id (user specified or derived from the blob's content).
    pub blob_id: String,
    /// Align chunks to 4K in the blob.
    pub aligned_chunk: bool,
    /// Offset added to compressed blob positions.
    pub blob_offset: u64,
    pub compressor: CompressAlgorithm,
    pub digester: DigestAlgorithm,
    /// Save host uid and gid in each inode.
    pub explicit_uidgid: bool,
    pub whiteout_spec: WhiteoutSpec,
    pub chunk_size: u32,
    pub fs_version: RafsVersion,
    pub conversion_type: ConversionType,
    /// Path of the source to build the image from.
    pub source_path: String,
    pub prefetch_policy: PrefetchPolicy,
    /// Where blobs are written.
    pub blob_storage: Option<ArtifactStorage>,
    pub blob_features: u32,
    pub blob_inline_meta: bool,
    pub has_xattr: bool,
    pub configuration: BuildConfiguration,
}

impl BuildContext {
    /// A build context; blobs get the inlined-meta feature iff
    /// `blob_inline_meta`.
    pub fn new(
        blob_id: String,
        aligned_chunk: bool,
        blob_offset: u64,
        compressor: CompressAlgorithm,
        digester: DigestAlgorithm,
        explicit_uidgid: bool,
        whiteout_spec: WhiteoutSpec,
        source_type: ConversionType,
        source_path: String,
        prefetch_policy: PrefetchPolicy,
        blob_storage: Option<ArtifactStorage>,
        blob_inline_meta: bool,
    ) -> (r: Self)
        ensures
            r.blob_id == blob_id,
            r.aligned_chunk == aligned_chunk,
            r.blob_offset == blob_offset,
            r.compressor == compressor,
            r.digester == digester,
            r.explicit_uidgid == explicit_uidgid,
            r.whiteout_spec == whiteout_spec,
            r.chunk_size == RAFS_DEFAULT_CHUNK_SIZE,
            r.fs_version == RafsVersion::V6,
            r.conversion_type == source_type,
            r.source_path == source_path,
            r.prefetch_policy == prefetch_policy,
            r.blob_storage == blob_storage,
            r.blob_features == (if blob_inline_meta {
                BLOB_FEATURE_INLINED_META
            } else {
                0u32
            }),
            r.blob_inline_meta == blob_inline_meta,
            !r.has_xattr,
            !r.configuration.blob_accessible,
    {
        let blob_features = if blob_inline_meta {
            BLOB_FEATURE_INLINED_META
        } else {
            0u32
        };
        BuildContext {
            blob_id,
            aligned_chunk,
            blob_offset,
            compressor,
            digester,
            explicit_uidgid,
            whiteout_spec,
            chunk_size: RAFS_DEFAULT_CHUNK_SIZE,
            fs_version: RafsVersion::default(),
            conversion_type: source_type,
            source_path,
            prefetch_policy,
            blob_storage,
            blob_features,
            blob_inline_meta,
            has_xattr: false,
            configuration: BuildConfiguration { blob_accessible: false },
        }
    }

    /// The default build: a directory into a v6 image, no blob features.
    pub fn default() -> (r: Self)
        ensures
            r.blob_id@ == Seq::<char>::empty(),
            !r.aligned_chunk,
            r.blob_offset == 0,
            r.compressor == CompressAlgorithm::Uncompressed,
            r.digester == DigestAlgorithm::Blake3,
            r.explicit_uidgid,
            r.whiteout_spec == WhiteoutSpec::Oci,
            r.chunk_size == RAFS_DEFAULT_CHUNK_SIZE,
            r.fs_version == RafsVersion::V6,
            r.conversion_type == ConversionType::DirectoryToRafs,
            r.source_path@ == Seq::<char>::empty(),
            r.prefetch_policy == PrefetchPolicy::Disabled,
            r.blob_storage is None,
            r.blob_features == 0,
            !r.blob_inline_meta,
            r.has_xattr,
            !r.configuration.blob_accessible,
    {
        BuildContext {
            blob_id: String::new(),
            aligned_chunk: false,
            blob_offset: 0,
            compressor: CompressAlgorithm::default(),
            digester: DigestAlgorithm::default(),
            explicit_uidgid: true,
            whiteout_spec: WhiteoutSpec::default(),
            chunk_size: RAFS_DEFAULT_CHUNK_SIZE,
            fs_version: RafsVersion::default(),
            conversion_type: ConversionType::default(),
            source_path: String::new(),
            prefetch_policy: PrefetchPolicy::Disabled,
            blob_storage: None,
            blob_features: 0,
            blob_inline_meta: false,
            has_xattr: true,
            configuration: BuildConfiguration { blob_accessible: false },
        }
    }

    pub fn set_fs_version(&mut self, fs_version: RafsVersion)
        ensures
            *final(self) == (BuildContext { fs_version, ..*old(self) }),
    {
        self.fs_version = fs_version;
    }

    pub fn set_chunk_size(&mut self, chunk_size: u32)
        ensures
            *final(self) == (BuildContext { chunk_size, ..*old(self) }),
    {
        self.chunk_size = chunk_size;
    }

    pub fn set_configuration(&mut self, config: BuildConfiguration)
        ensures
            *final(self) == (BuildContext { configuration: config, ..*old(self) }),
    {
        self.configuration = config;
    }
}

} // verus!
