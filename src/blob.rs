use vstd::prelude::*;

use crate::artifact::{write_tar_header, ArtifactWrite};
use crate::backend::{BlobBackend, BlobReader, TocInfo};
use crate::chunk::{
    meta_v1_of, meta_v2_of, BlobInfo, BlobMetaHeader, ChunkInfo, ChunkMetaArray, ChunkMetaV2,
};
use crate::codec::{digest_from_hex, gnu_file_header, hex_decode, is_hex_of_len};
use crate::context::BuildContext;
use crate::conversion::ConversionType;
use crate::error::BuildError;
use crate::hasher::{hashed_bytes, BlobHasher};
use crate::types::{
    has_feature, ChunkSource, CompressAlgorithm, DigestAlgorithm, PrefetchPolicy,
    BLOB_FEATURE_CHUNK_INFO_V2, BLOB_FEATURE_INLINED_META, BLOB_FEATURE_ZRAN,
    BLOB_HEADER_FEATURE_MASK, MAX_CHUNKS_PER_BLOB, RAFS_DEFAULT_CHUNK_SIZE,
};

verus! {

/// State of one blob during a build.
pub struct BlobContext {
    /// Blob id (user specified or derived from the blob's content).
    pub blob_id: String,
    /// Running hash of the bytes written to the blob.
    pub blob_hash: BlobHasher,
    pub blob_compressor: CompressAlgorithm,
    pub blob_digester: DigestAlgorithm,
    pub blob_prefetch_size: u64,
    /// Whether chunk-info metadata is generated for the blob.
    pub blob_meta_info_enabled: bool,
    /// Chunk-info records of the chunks in the blob.
    pub blob_meta_info: ChunkMetaArray,
    /// Metadata header stored in the blob.
    pub blob_meta_header: BlobMetaHeader,
    /// Digests of the chunks in the blob.
    pub blob_chunk_digest: Vec<[u8; 32]>,
    /// Final compressed blob size.
    pub compressed_blob_size: u64,
    /// Final uncompressed (cache file) size.
    pub uncompressed_blob_size: u64,
    /// Write cursors.
    pub compressed_offset: u64,
    pub uncompressed_offset: u64,
    /// Number of chunks in the blob.
    pub chunk_count: u32,
    pub chunk_size: u32,
    pub chunk_source: ChunkSource,
    /// Digest of the blob's table of contents; zero for inlined-meta blobs.
    pub rafs_blob_toc_digest: [u8; 32],
    /// Digest of the referenced RAFS blob of a ZRAN blob.
    pub rafs_blob_digest: [u8; 32],
    /// Size of the referenced RAFS blob of a ZRAN blob.
    pub rafs_blob_size: u64,
    /// Size of the blob's table of contents.
    pub rafs_blob_toc_size: u32,
    /// Digest of the separate metadata blob.
    pub blob_meta_digest: [u8; 32],
    /// Size of the separate metadata blob.
    pub blob_meta_size: u64,
}

/// Whether importing `blob` from `source` needs the backend: inlined-meta
/// blobs of a parent or a dictionary are re-materialized from storage.
pub open spec fn needs_meta_fixup(blob: BlobInfo, source: ChunkSource) -> bool {
    has_feature(blob.features, BLOB_FEATURE_INLINED_META) && (source == ChunkSource::Dict
        || source == ChunkSource::Parent)
}

/// The id an imported blob gets: the runtime id for inlined-meta blobs that
/// are fixed up (other than ZRAN ones), the stored id otherwise.
pub open spec fn import_id(blob: BlobInfo, source: ChunkSource) -> Seq<char> {
    if needs_meta_fixup(blob, source) && !has_feature(blob.features, BLOB_FEATURE_ZRAN) {
        blob.blob_id@
    } else {
        blob.raw_blob_id@
    }
}

/// What the backend reported for an inlined-meta blob being imported.
#[derive(Clone, Copy, Debug)]
pub struct FetchedMeta {
    /// Size of the blob the backend was asked about.
    pub blob_size: u64,
    /// Its table of contents, if it could be read.
    pub toc: Option<TocInfo>,
}

impl BlobContext {
    /// The number of chunk-info records.
    pub open spec fn meta_len(&self) -> nat {
        self.blob_meta_info.spec_len()
    }

    /// Chunk-info records and chunk digests come in pairs.
    pub open spec fn wf(&self) -> bool {
        self.meta_len() == self.blob_chunk_digest@.len()
    }

    /// Chunk-info records, chunk digests and allocated chunk indices agree.
    pub open spec fn counts_agree(&self) -> bool {
        self.meta_len() == self.blob_chunk_digest@.len() && self.meta_len()
            == self.chunk_count as nat
    }

    /// The fields of a fresh blob context.
    pub open spec fn is_fresh(
        &self,
        blob_id: Seq<char>,
        blob_offset: u64,
        features: u32,
        compressor: CompressAlgorithm,
        digester: DigestAlgorithm,
    ) -> bool {
        &&& self.blob_id@ == blob_id
        &&& hashed_bytes(self.blob_hash) == Seq::<u8>::empty()
        &&& self.blob_compressor == compressor
        &&& self.blob_digester == digester
        &&& self.blob_prefetch_size == 0
        &&& !self.blob_meta_info_enabled
        &&& (self.blob_meta_info is V2 <==> has_feature(features, BLOB_FEATURE_CHUNK_INFO_V2))
        &&& self.meta_len() == 0
        &&& self.blob_meta_header == BlobMetaHeader {
            features: features & BLOB_HEADER_FEATURE_MASK,
            ci_compressor: CompressAlgorithm::Uncompressed,
            ci_entries: 0,
            ci_compressed_offset: 0,
            ci_compressed_size: 0,
            ci_uncompressed_size: 0,
        }
        &&& self.blob_chunk_digest@.len() == 0
        &&& self.compressed_blob_size == 0
        &&& self.uncompressed_blob_size == 0
        &&& self.compressed_offset == blob_offset
        &&& self.uncompressed_offset == 0
        &&& self.chunk_count == 0
        &&& self.chunk_size == RAFS_DEFAULT_CHUNK_SIZE
        &&& self.chunk_source == ChunkSource::Build
        &&& self.rafs_blob_toc_digest@ == Seq::new(32, |i: int| 0u8)
        &&& self.rafs_blob_digest@ == Seq::new(32, |i: int| 0u8)
        &&& self.rafs_blob_size == 0
        &&& self.rafs_blob_toc_size == 0
        &&& self.blob_meta_digest@ == Seq::new(32, |i: int| 0u8)
        &&& self.blob_meta_size == 0
    }

    /// A fresh context for a blob that the current build writes. The header
    /// records the feature bits it knows of; `CHUNK_INFO_V2` selects the
    /// chunk-info layout for the blob's lifetime.
    pub fn new(
        blob_id: String,
        blob_offset: u64,
        features: u32,
        compressor: CompressAlgorithm,
        digester: DigestAlgorithm,
    ) -> (r: Self)
        ensures
            r.is_fresh(blob_id@, blob_offset, features, compressor, digester),
            r.wf(),
    {
        let blob_meta_info = if features & BLOB_FEATURE_CHUNK_INFO_V2 != 0 {
            ChunkMetaArray::V2(Vec::new())
        } else {
            ChunkMetaArray::V1(Vec::new())
        };
        let r = BlobContext {
            blob_id,
            blob_hash: BlobHasher::new(),
            blob_compressor: compressor,
            blob_digester: digester,
            blob_prefetch_size: 0,
            blob_meta_info_enabled: false,
            blob_meta_info,
            blob_meta_header: BlobMetaHeader::new(features & BLOB_HEADER_FEATURE_MASK),
            blob_chunk_digest: Vec::new(),
            compressed_blob_size: 0,
            uncompressed_blob_size: 0,
            compressed_offset: blob_offset,
            uncompressed_offset: 0,
            chunk_count: 0,
            chunk_size: RAFS_DEFAULT_CHUNK_SIZE,
            chunk_source: ChunkSource::Build,
            rafs_blob_toc_digest: [0u8; 32],
            rafs_blob_digest: [0u8; 32],
            rafs_blob_size: 0,
            rafs_blob_toc_size: 0,
            blob_meta_digest: [0u8; 32],
            blob_meta_size: 0,
        };
        assert(r.rafs_blob_toc_digest@ =~= Seq::new(32, |i: int| 0u8));
        assert(r.rafs_blob_digest@ =~= Seq::new(32, |i: int| 0u8));
        assert(r.blob_meta_digest@ =~= Seq::new(32, |i: int| 0u8));
        r
    }

    /// This context is the import of `blob` from `source`, where `fetched` is
    /// what the backend reported if it was asked.
    ///
    /// Inlined-meta blobs of a parent or a dictionary lose the inlined-meta
    /// feature. A ZRAN one takes the referenced blob's digest (from its id)
    /// and size; another one takes its runtime id and the compressed size the
    /// backend reports. Both take the table of contents if it could be read.
    pub open spec fn is_import_of(
        &self,
        blob: BlobInfo,
        source: ChunkSource,
        fetched: Option<FetchedMeta>,
    ) -> bool {
        let fix = needs_meta_fixup(blob, source);
        let zran = has_feature(blob.features, BLOB_FEATURE_ZRAN);
        let features = if fix {
            blob.features & !BLOB_FEATURE_INLINED_META
        } else {
            blob.features
        };
        let rafs_id_ok = fix && zran && fetched is Some && blob.rafs_blob_id is Some
            && is_hex_of_len(blob.rafs_blob_id->0@, 32);
        let toc_ok = fix && fetched is Some && fetched->0.toc is Some;
        &&& self.blob_id@ == import_id(blob, source)
        &&& hashed_bytes(self.blob_hash) == Seq::<u8>::empty()
        &&& self.blob_compressor == blob.compressor
        &&& self.blob_digester == blob.digester
        &&& self.blob_prefetch_size == blob.prefetch_size
        &&& self.blob_meta_info_enabled == blob.meta_ci is Some
        &&& (self.blob_meta_info is V2 <==> has_feature(features, BLOB_FEATURE_CHUNK_INFO_V2))
        &&& self.meta_len() == 0
        &&& self.blob_chunk_digest@.len() == 0
        &&& self.blob_meta_header == match blob.meta_ci {
            Some(ci) => BlobMetaHeader {
                features: features & BLOB_HEADER_FEATURE_MASK,
                ci_compressor: ci.compressor,
                ci_entries: blob.chunk_count,
                ci_compressed_offset: ci.offset,
                ci_compressed_size: ci.compressed_size,
                ci_uncompressed_size: ci.uncompressed_size,
            },
            None => BlobMetaHeader {
                features: features & BLOB_HEADER_FEATURE_MASK,
                ci_compressor: CompressAlgorithm::Uncompressed,
                ci_entries: 0,
                ci_compressed_offset: 0,
                ci_compressed_size: 0,
                ci_uncompressed_size: 0,
            },
        }
        &&& self.compressed_blob_size == (if fix && !zran && fetched is Some {
            fetched->0.blob_size
        } else {
            blob.compressed_size
        })
        &&& self.uncompressed_blob_size == blob.uncompressed_size
        &&& self.compressed_offset == 0
        &&& self.uncompressed_offset == 0
        &&& self.chunk_count == blob.chunk_count
        &&& self.chunk_size == blob.chunk_size
        &&& self.chunk_source == source
        &&& self.rafs_blob_digest@ == (if rafs_id_ok {
            hex_decode(blob.rafs_blob_id->0@)
        } else {
            blob.rafs_blob_digest@
        })
        &&& self.rafs_blob_size == (if rafs_id_ok {
            fetched->0.blob_size
        } else {
            blob.rafs_blob_size
        })
        &&& self.rafs_blob_toc_digest == (if toc_ok {
            fetched->0.toc->0.digest
        } else {
            blob.rafs_blob_toc_digest
        })
        &&& self.rafs_blob_toc_size == (if toc_ok {
            fetched->0.toc->0.size
        } else {
            blob.rafs_blob_toc_size
        })
        &&& self.blob_meta_digest@ == Seq::new(32, |i: int| 0u8)
        &&& self.blob_meta_size == 0
    }

    /// This context is the import of `blob` from `source`, whatever the
    /// backend reported.
    pub open spec fn is_some_import_of(&self, blob: BlobInfo, source: ChunkSource) -> bool {
        exists|f: Option<FetchedMeta>| self.is_import_of(blob, source, f)
    }

    /// Imports `blob` from `source` given what the backend reported.
    pub fn from_fetched(blob: &BlobInfo, chunk_source: ChunkSource, fetched: Option<FetchedMeta>) -> (r:
        Self)
        ensures
            r.is_import_of(*blob, chunk_source, fetched),
            r.wf(),
    {
        let fix = blob.features & BLOB_FEATURE_INLINED_META != 0 && (chunk_source
            == ChunkSource::Dict || chunk_source == ChunkSource::Parent);
        let zran = blob.features & BLOB_FEATURE_ZRAN != 0;
        let features = if fix {
            blob.features & !BLOB_FEATURE_INLINED_META
        } else {
            blob.features
        };
        let blob_id = if fix && !zran {
            blob.blob_id.clone()
        } else {
            blob.raw_blob_id.clone()
        };
        let mut compressed_blob_size = blob.compressed_size;
        let mut rafs_blob_digest = blob.rafs_blob_digest;
        let mut rafs_blob_size = blob.rafs_blob_size;
        let mut toc_digest = blob.rafs_blob_toc_digest;
        let mut toc_size = blob.rafs_blob_toc_size;
        if fix {
            if let Some(f) = fetched {
                if zran {
                    if let Some(id) = &blob.rafs_blob_id {
                        if let Some(d) = digest_from_hex(id.as_str()) {
                            rafs_blob_digest = d;
                            rafs_blob_size = f.blob_size;
                        }
                    }
                } else {
                    compressed_blob_size = f.blob_size;
                }
                if let Some(toc) = f.toc {
                    toc_digest = toc.digest;
                    toc_size = toc.size;
                }
            }
        }
        let mut ctx = Self::new(blob_id, 0, features, blob.compressor, blob.digester);
        ctx.blob_prefetch_size = blob.prefetch_size;
        ctx.chunk_count = blob.chunk_count;
        ctx.uncompressed_blob_size = blob.uncompressed_size;
        ctx.compressed_blob_size = compressed_blob_size;
        ctx.chunk_size = blob.chunk_size;
        ctx.chunk_source = chunk_source;
        ctx.rafs_blob_digest = rafs_blob_digest;
        ctx.rafs_blob_size = rafs_blob_size;
        ctx.rafs_blob_toc_digest = toc_digest;
        ctx.rafs_blob_toc_size = toc_size;
        if let Some(ci) = blob.meta_ci {
            ctx.blob_meta_header.ci_compressor = ci.compressor;
            ctx.blob_meta_header.ci_entries = blob.chunk_count;
            ctx.blob_meta_header.ci_compressed_offset = ci.offset;
            ctx.blob_meta_header.ci_compressed_size = ci.compressed_size;
            ctx.blob_meta_header.ci_uncompressed_size = ci.uncompressed_size;
            ctx.blob_meta_info_enabled = true;
        }
        ctx
    }

    /// Imports `blob` from `source`. An inlined-meta blob of a parent or a
    /// dictionary is fixed up through `backend`: a failure to reach the blob
    /// fails the import, a table of contents that cannot be read is skipped.
    pub fn from<B: BlobBackend>(backend: &B, blob: &BlobInfo, chunk_source: ChunkSource) -> (r:
        Result<Self, BuildError>)
        ensures
            !needs_meta_fixup(*blob, chunk_source) ==> (r matches Ok(c) && c.is_import_of(
                *blob,
                chunk_source,
                None,
            )),
            (needs_meta_fixup(*blob, chunk_source) && has_feature(blob.features, BLOB_FEATURE_ZRAN)
                && blob.rafs_blob_id is None) ==> (r matches Ok(c) && c.is_import_of(
                *blob,
                chunk_source,
                None,
            )),
            r matches Ok(c) ==> c.wf() && c.is_some_import_of(*blob, chunk_source),
            r is Err ==> r == Err::<Self, BuildError>(BuildError::BackendFailure),
    {
        let fix = blob.features & BLOB_FEATURE_INLINED_META != 0 && (chunk_source
            == ChunkSource::Dict || chunk_source == ChunkSource::Parent);
        if !fix {
            return Ok(Self::from_fetched(blob, chunk_source, None));
        }
        let id = if blob.features & BLOB_FEATURE_ZRAN != 0 {
            match &blob.rafs_blob_id {
                Some(d) => d.as_str(),
                None => {
                    return Ok(Self::from_fetched(blob, chunk_source, None));
                },
            }
        } else {
            blob.blob_id.as_str()
        };
        let reader = match backend.get_reader(id) {
            Ok(reader) => reader,
            Err(_) => {
                return Err(BuildError::BackendFailure);
            },
        };
        let blob_size = match reader.blob_size() {
            Ok(size) => size,
            Err(_) => {
                return Err(BuildError::BackendFailure);
            },
        };
        let toc = match reader.toc_info() {
            Ok(toc) => Some(toc),
            Err(_) => None,
        };
        Ok(Self::from_fetched(blob, chunk_source, Some(FetchedMeta { blob_size, toc })))
    }

    pub fn set_chunk_size(&mut self, chunk_size: u32)
        ensures
            *final(self) == (BlobContext { chunk_size, ..*old(self) }),
    {
        self.chunk_size = chunk_size;
    }

    /// Keeps the advertised prefetch size only when the build prefetches by
    /// blob and the blob has content (or is an estargz-index reference blob
    /// with an id); zeroes it otherwise.
    pub fn set_blob_prefetch_size(&mut self, ctx: &BuildContext)
        ensures
            *final(self) == (BlobContext {
                blob_prefetch_size: if ctx.prefetch_policy == PrefetchPolicy::Blob && (
                old(self).compressed_blob_size > 0 || (ctx.conversion_type
                    == ConversionType::EStargzIndexToRef && old(self).blob_id@.len() > 0)) {
                    old(self).blob_prefetch_size
                } else {
                    0
                },
                ..*old(self)
            }),
    {
        let has_content = self.compressed_blob_size > 0 || (ctx.conversion_type
            == ConversionType::EStargzIndexToRef && !self.blob_id.as_str().is_empty());
        if !(ctx.prefetch_policy == PrefetchPolicy::Blob && has_content) {
            self.blob_prefetch_size = 0;
        }
    }

    pub fn set_meta_info_enabled(&mut self, enable: bool)
        ensures
            *final(self) == (BlobContext { blob_meta_info_enabled: enable, ..*old(self) }),
    {
        self.blob_meta_info_enabled = enable;
    }

    /// What `add_chunk_meta_info(chunk, chunk_info)` does to a context.
    pub open spec fn add_chunk_meta_info_post(
        pre: BlobContext,
        post: BlobContext,
        chunk: ChunkInfo,
        chunk_info: Option<ChunkMetaV2>,
    ) -> bool {
        if pre.blob_meta_info_enabled {
            &&& post == (BlobContext {
                blob_meta_info: post.blob_meta_info,
                blob_chunk_digest: post.blob_chunk_digest,
                ..pre
            })
            &&& post.blob_chunk_digest@ == pre.blob_chunk_digest@.push(chunk.digest)
            &&& match pre.blob_meta_info {
                ChunkMetaArray::V1(v) => post.blob_meta_info matches ChunkMetaArray::V1(w) && w@
                    == v@.push(meta_v1_of(chunk)),
                ChunkMetaArray::V2(v) => post.blob_meta_info matches ChunkMetaArray::V2(w) && w@
                    == v@.push(
                    match chunk_info {
                        Some(i) => ChunkMetaV2 { uncompressed_offset: chunk.uncompressed_offset, ..i },
                        None => meta_v2_of(chunk),
                    },
                ),
            }
        } else {
            post == pre
        }
    }

    /// Records the chunk-info record and digest of `chunk`, when chunk-info
    /// metadata is enabled. Chunks come in index order: the chunk's index is
    /// the number of records so far. A V2 blob takes `chunk_info` when given,
    /// with the chunk's uncompressed offset, else a record made from the chunk.
    pub fn add_chunk_meta_info(&mut self, chunk: &ChunkInfo, chunk_info: Option<ChunkMetaV2>) -> (r:
        Result<(), BuildError>)
        requires
            old(self).wf(),
            old(self).blob_meta_info_enabled ==> chunk.index as nat == old(self).meta_len(),
        ensures
            r is Ok,
            final(self).wf(),
            Self::add_chunk_meta_info_post(*old(self), *final(self), *chunk, chunk_info),
    {
        if self.blob_meta_info_enabled {
            match &mut self.blob_meta_info {
                ChunkMetaArray::V1(v) => {
                    v.push(
                        crate::chunk::ChunkMetaV1 {
                            compressed_offset: chunk.compressed_offset,
                            compressed_size: chunk.compressed_size,
                            uncompressed_offset: chunk.uncompressed_offset,
                            uncompressed_size: chunk.uncompressed_size,
                        },
                    );
                },
                ChunkMetaArray::V2(v) => {
                    match chunk_info {
                        Some(info) => {
                            v.push(ChunkMetaV2 { uncompressed_offset: chunk.uncompressed_offset, ..info });
                        },
                        None => {
                            v.push(
                                ChunkMetaV2 {
                                    compressed_offset: chunk.compressed_offset,
                                    compressed_size: chunk.compressed_size,
                                    uncompressed_offset: chunk.uncompressed_offset,
                                    uncompressed_size: chunk.uncompressed_size,
                                    is_compressed: chunk.is_compressed,
                                    data: 0,
                                },
                            );
                        },
                    }
                },
            }
            self.blob_chunk_digest.push(chunk.digest);
        }
        Ok(())
    }

    /// What `alloc_chunk_index()` does to a context and returns.
    pub open spec fn alloc_chunk_index_post(
        pre: BlobContext,
        post: BlobContext,
        r: Result<u32, BuildError>,
    ) -> bool {
        if pre.chunk_count >= MAX_CHUNKS_PER_BLOB {
            r == Err::<u32, BuildError>(BuildError::Overflow) && post == pre
        } else {
            r == Ok::<u32, BuildError>(pre.chunk_count) && post == (BlobContext {
                chunk_count: (pre.chunk_count + 1) as u32,
                ..pre
            })
        }
    }

    /// Allocates the next chunk index of the blob; chunk indices are 24-bit,
    /// so this fails once `0xff_ffff` indices are taken.
    pub fn alloc_chunk_index(&mut self) -> (r: Result<u32, BuildError>)
        ensures
            Self::alloc_chunk_index_post(*old(self), *final(self), r),
    {
        let index = self.chunk_count;
        if index >= MAX_CHUNKS_PER_BLOB {
            Err(BuildError::Overflow)
        } else {
            self.chunk_count = index + 1;
            Ok(index)
        }
    }

    /// The blob id, if the blob has content.
    pub fn blob_id(&mut self) -> (r: Option<String>)
        ensures
            *final(self) == *old(self),
            old(self).compressed_blob_size > 0 ==> (r matches Some(id) && id@ == old(self).blob_id@),
            old(self).compressed_blob_size == 0 ==> r is None,
    {
        if self.compressed_blob_size > 0 {
            Some(self.blob_id.clone())
        } else {
            None
        }
    }

    /// Writes `data` to the blob and adds it to the blob's hash.
    pub fn write_data<W: ArtifactWrite>(&mut self, blob_writer: &mut W, data: &[u8]) -> (r: Result<
        (),
        BuildError,
    >)
        ensures
            *final(self) == (BlobContext { blob_hash: final(self).blob_hash, ..*old(self) }),
            r is Ok ==> hashed_bytes(final(self).blob_hash) == hashed_bytes(old(self).blob_hash)
                + data@ && final(blob_writer).written() == old(blob_writer).written() + data@,
            r is Err ==> *final(self) == *old(self),
    {
        match blob_writer.write_all(data) {
            Ok(()) => {
                self.blob_hash.update(data);
                Ok(())
            },
            Err(e) => Err(e),
        }
    }

    /// Writes the tar header labelling the `size` bytes before it as `name`,
    /// and adds the header to the blob's hash.
    pub fn write_tar_header<W: ArtifactWrite>(
        &mut self,
        blob_writer: &mut W,
        name: &str,
        size: u64,
    ) -> (r: Result<Vec<u8>, BuildError>)
        ensures
            *final(self) == (BlobContext { blob_hash: final(self).blob_hash, ..*old(self) }),
            r matches Ok(h) ==> h@ == gnu_file_header(name@, size) && hashed_bytes(
                final(self).blob_hash,
            ) == hashed_bytes(old(self).blob_hash) + h@ && final(blob_writer).written() == old(
                blob_writer,
            ).written() + h@,
            r is Err ==> *final(self) == *old(self),
    {
        match write_tar_header(blob_writer, name, size) {
            Ok(header) => {
                self.blob_hash.update(header.as_slice());
                Ok(header)
            },
            Err(e) => Err(e),
        }
    }
}

/// Allocating a chunk index and then recording the chunk that carries it keeps
/// chunk-info records, chunk digests and the chunk count equal, when chunk-info
/// metadata is enabled.
pub proof fn lemma_alloc_then_add_keeps_counts(
    c0: BlobContext,
    c1: BlobContext,
    c2: BlobContext,
    index: u32,
    chunk: ChunkInfo,
    chunk_info: Option<ChunkMetaV2>,
)
    requires
        c0.counts_agree(),
        c0.blob_meta_info_enabled,
        BlobContext::alloc_chunk_index_post(c0, c1, Ok(index)),
        chunk.index == index,
        BlobContext::add_chunk_meta_info_post(c1, c2, chunk, chunk_info),
    ensures
        c2.counts_agree(),
{
}

} // verus!
