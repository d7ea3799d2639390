//! Core of a chunk-deduplicating container image builder: build context,
//! artifact sinks, per-blob accounting, the blob manager and the layer merger.

mod error;
mod conversion;
mod types;
mod chunk;
mod hasher;
mod backend;
mod artifact;
mod codec;
mod context;
mod blob;
mod chunk_dict;
mod manager;
mod table;
mod tree;
mod bootstrap;
mod output;
mod merge;

pub use error::BuildError;
pub use conversion::{lemma_conversion_name_round_trip, ConversionType};
pub use types::{
    ChunkSource, CompressAlgorithm, DigestAlgorithm, PrefetchPolicy, RafsVersion, WhiteoutSpec,
    BLOB_FEATURE_ALIGNED, BLOB_FEATURE_CHUNK_INFO_V2, BLOB_FEATURE_INLINED_CHUNK_DIGEST,
    BLOB_FEATURE_INLINED_META, BLOB_FEATURE_SEPARATE, BLOB_FEATURE_ZRAN, EROFS_BLOCK_SIZE,
    EROFS_INODE_SLOT_SIZE, MAX_CHUNKS_PER_BLOB, RAFS_DEFAULT_CHUNK_SIZE,
};
pub use chunk::{BlobInfo, BlobMetaHeader, ChunkInfo, ChunkMetaArray, ChunkMetaV1, ChunkMetaV2, MetaCiInfo};
pub use hasher::BlobHasher;
pub use backend::{
    default_http_scheme, retry_step, BackendError, BlobBackend, BlobReader, BlobWrite, CommonConfig, ProxyConfig,
    ReadStep, TocInfo,
};
pub use artifact::{write_tar_header, ArtifactMemoryWriter, ArtifactWrite, ArtifactStorage, FinalizeAction, SeekPos};
pub use context::{BuildConfiguration, BuildContext};
pub use blob::{lemma_alloc_then_add_keeps_counts, BlobContext, FetchedMeta};
pub use chunk_dict::ChunkDict;
pub use manager::{lemma_imports_place_each_id_once, BlobManager, MAX_BLOBS_PER_IMAGE};
pub use table::{BlobTable, BlobTableEntry};
pub use tree::{Node, Overlay, Tree, WhiteoutType};
pub use bootstrap::{BootstrapContext, BootstrapManager};
pub use output::{hex_u64, BuildOutput};
pub use merge::{
    blob_id_from_meta_path, LayerBootstrap, MergeOutput, Merger, RafsSuperConfig,
};
