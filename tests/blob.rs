use std::cell::Cell;

use nydus_builder::{retry_step, ReadStep};

use nydus_builder::{
    ArtifactMemoryWriter, BackendError,
    BlobBackend, BlobContext, BlobInfo, BlobReader, BuildContext, BuildError, ChunkInfo,
    ChunkMetaArray, ChunkMetaV2, ChunkSource, CompressAlgorithm, ConversionType, DigestAlgorithm,
    MetaCiInfo, PrefetchPolicy, TocInfo, BLOB_FEATURE_ALIGNED, BLOB_FEATURE_CHUNK_INFO_V2,
    BLOB_FEATURE_INLINED_META, BLOB_FEATURE_ZRAN, RAFS_DEFAULT_CHUNK_SIZE,
};

fn blob_info(id: &str) -> BlobInfo {
    BlobInfo {
        blob_index: 0,
        blob_id: id.to_string(),
        raw_blob_id: id.to_string(),
        rafs_blob_id: None,
        features: 0,
        compressor: CompressAlgorithm::Zstd,
        digester: DigestAlgorithm::Sha256,
        chunk_size: 0x100000,
        chunk_count: 7,
        compressed_size: 1000,
        uncompressed_size: 4000,
        prefetch_size: 12,
        rafs_blob_digest: [0u8; 32],
        rafs_blob_size: 0,
        rafs_blob_toc_digest: [0u8; 32],
        rafs_blob_toc_size: 0,
        meta_ci: None,
    }
}

fn chunk(index: u32) -> ChunkInfo {
    ChunkInfo {
        index,
        blob_index: 0,
        compressed_offset: 100 * index as u64,
        compressed_size: 100,
        uncompressed_offset: 4096 * index as u64,
        uncompressed_size: 4096,
        is_compressed: true,
        digest: [index as u8; 32],
    }
}

struct TestReader {
    size: u64,
    toc: Option<TocInfo>,
}

impl BlobReader for TestReader {
    fn blob_size(&self) -> Result<u64, BackendError> {
        Ok(self.size)
    }
    fn try_read(&self, _buf: &mut [u8], _offset: u64) -> Result<usize, BackendError> {
        Err(BackendError::Unsupported("read".to_string()))
    }
    fn toc_info(&self) -> Result<TocInfo, BackendError> {
        self.toc.ok_or(BackendError::Unsupported("toc".to_string()))
    }
    fn retry_limit(&self) -> u8 {
        0
    }
}

struct TestBackend {
    size: u64,
    toc: Option<TocInfo>,
    fail: bool,
    asked: Cell<u32>,
}

impl TestBackend {
    fn new(size: u64, toc: Option<TocInfo>, fail: bool) -> Self {
        TestBackend { size, toc, fail, asked: Cell::new(0) }
    }
}

impl BlobBackend for TestBackend {
    type Reader = TestReader;
    fn get_reader(&self, _blob_id: &str) -> Result<TestReader, BackendError> {
        self.asked.set(self.asked.get() + 1);
        if self.fail {
            Err(BackendError::Unsupported("offline".to_string()))
        } else {
            Ok(TestReader { size: self.size, toc: self.toc })
        }
    }
}

fn meta_len(b: &BlobContext) -> usize {
    match &b.blob_meta_info {
        ChunkMetaArray::V1(v) => v.len(),
        ChunkMetaArray::V2(v) => v.len(),
    }
}

#[test]
fn blob_context_new_records_header_features() {
    let b = BlobContext::new(
        "blob".to_string(),
        64,
        BLOB_FEATURE_ALIGNED | BLOB_FEATURE_CHUNK_INFO_V2 | 0x1000,
        CompressAlgorithm::Lz4Block,
        DigestAlgorithm::Blake3,
    );
    assert_eq!(b.blob_meta_header.features, BLOB_FEATURE_ALIGNED | BLOB_FEATURE_CHUNK_INFO_V2);
    assert!(matches!(b.blob_meta_info, ChunkMetaArray::V2(_)));
    assert_eq!(b.compressed_offset, 64);
    assert_eq!(b.chunk_count, 0);
    assert_eq!(b.chunk_size, RAFS_DEFAULT_CHUNK_SIZE);
    assert_eq!(b.chunk_source, ChunkSource::Build);
    assert!(!b.blob_meta_info_enabled);
    let v1 = BlobContext::new("x".to_string(), 0, 0, CompressAlgorithm::Zstd, DigestAlgorithm::Sha256);
    assert!(matches!(v1.blob_meta_info, ChunkMetaArray::V1(_)));
}

#[test]
fn alloc_then_add_keeps_counts_equal() {
    let mut b = BlobContext::new("b".to_string(), 0, 0, CompressAlgorithm::Zstd, DigestAlgorithm::Sha256);
    b.set_meta_info_enabled(true);
    for _ in 0..5 {
        let idx = b.alloc_chunk_index().unwrap();
        b.add_chunk_meta_info(&chunk(idx), None).unwrap();
        assert_eq!(meta_len(&b), b.chunk_count as usize);
        assert_eq!(b.blob_chunk_digest.len(), b.chunk_count as usize);
    }
    assert_eq!(b.blob_chunk_digest[3], [3u8; 32]);
    match &b.blob_meta_info {
        ChunkMetaArray::V1(v) => {
            assert_eq!(v[2].compressed_offset, 200);
            assert_eq!(v[2].uncompressed_offset, 8192);
        }
        _ => panic!("V1 expected"),
    }
}

#[test]
fn add_chunk_meta_info_v2_takes_given_record() {
    let mut b = BlobContext::new(
        "b".to_string(),
        0,
        BLOB_FEATURE_CHUNK_INFO_V2,
        CompressAlgorithm::Zstd,
        DigestAlgorithm::Sha256,
    );
    b.set_meta_info_enabled(true);
    let given = ChunkMetaV2 {
        compressed_offset: 1,
        compressed_size: 2,
        uncompressed_offset: 3,
        uncompressed_size: 4,
        is_compressed: false,
        data: 99,
    };
    b.add_chunk_meta_info(&chunk(0), Some(given)).unwrap();
    b.add_chunk_meta_info(&chunk(1), None).unwrap();
    match &b.blob_meta_info {
        ChunkMetaArray::V2(v) => {
            assert_eq!(v[0].data, 99);
            assert_eq!(v[0].compressed_offset, 1);
            assert_eq!(v[0].uncompressed_offset, 0);
            assert_eq!(v[1].compressed_offset, 100);
            assert_eq!(v[1].data, 0);
            assert!(v[1].is_compressed);
        }
        _ => panic!("V2 expected"),
    }
}

#[test]
fn add_chunk_meta_info_disabled_records_nothing() {
    let mut b = BlobContext::new("b".to_string(), 0, 0, CompressAlgorithm::Zstd, DigestAlgorithm::Sha256);
    b.add_chunk_meta_info(&chunk(0), None).unwrap();
    assert_eq!(meta_len(&b), 0);
    assert_eq!(b.blob_chunk_digest.len(), 0);
}

#[test]
fn alloc_chunk_index_overflows_at_24_bits() {
    let mut b = BlobContext::new("b".to_string(), 0, 0, CompressAlgorithm::Zstd, DigestAlgorithm::Sha256);
    let mut last = 0u32;
    for _ in 0..(1u32 << 24) - 1 {
        last = b.alloc_chunk_index().unwrap();
    }
    assert_eq!(last, 0xff_fffe);
    assert_eq!(b.alloc_chunk_index(), Err(BuildError::Overflow));
    assert_eq!(b.chunk_count, 0xff_ffff);
}

#[test]
fn blob_id_only_with_content() {
    let mut b = BlobContext::new("id1".to_string(), 0, 0, CompressAlgorithm::Zstd, DigestAlgorithm::Sha256);
    assert_eq!(b.blob_id(), None);
    b.compressed_blob_size = 10;
    assert_eq!(b.blob_id(), Some("id1".to_string()));
}

#[test]
fn prefetch_size_kept_only_for_blob_policy_with_content() {
    let mut ctx = BuildContext::default();
    let mut b = BlobContext::new("id".to_string(), 0, 0, CompressAlgorithm::Zstd, DigestAlgorithm::Sha256);
    b.blob_prefetch_size = 77;
    b.compressed_blob_size = 1;
    ctx.prefetch_policy = PrefetchPolicy::Blob;
    b.set_blob_prefetch_size(&ctx);
    assert_eq!(b.blob_prefetch_size, 77);
    ctx.prefetch_policy = PrefetchPolicy::Fs;
    b.set_blob_prefetch_size(&ctx);
    assert_eq!(b.blob_prefetch_size, 0);

    let mut e = BlobContext::new("id".to_string(), 0, 0, CompressAlgorithm::Zstd, DigestAlgorithm::Sha256);
    e.blob_prefetch_size = 5;
    ctx.prefetch_policy = PrefetchPolicy::Blob;
    ctx.conversion_type = ConversionType::EStargzIndexToRef;
    e.set_blob_prefetch_size(&ctx);
    assert_eq!(e.blob_prefetch_size, 5);
    let mut f = BlobContext::new(String::new(), 0, 0, CompressAlgorithm::Zstd, DigestAlgorithm::Sha256);
    f.blob_prefetch_size = 5;
    f.set_blob_prefetch_size(&ctx);
    assert_eq!(f.blob_prefetch_size, 0);
}

#[test]
fn write_data_and_tar_header_reach_the_writer() {
    let mut b = BlobContext::new("id".to_string(), 0, 0, CompressAlgorithm::Zstd, DigestAlgorithm::Sha256);
    let mut w = ArtifactMemoryWriter::default();
    b.write_data(&mut w, b"abc").unwrap();
    let h = b.write_tar_header(&mut w, "blob.meta", 3).unwrap();
    assert_eq!(h.len(), 512);
    let bytes = w.as_bytes().to_vec();
    assert_eq!(&bytes[..3], b"abc");
    assert_eq!(&bytes[3..12], b"blob.meta");
}

#[test]
fn import_without_fixup_copies_blob_info() {
    let backend = TestBackend::new(0, None, true);
    let mut info = blob_info("parent");
    info.meta_ci = Some(MetaCiInfo {
        compressor: CompressAlgorithm::Lz4Block,
        offset: 10,
        compressed_size: 20,
        uncompressed_size: 30,
    });
    let b = BlobContext::from(&backend, &info, ChunkSource::Parent).unwrap();
    assert_eq!(backend.asked.get(), 0);
    assert_eq!(b.blob_id, "parent");
    assert_eq!(b.chunk_count, 7);
    assert_eq!(b.compressed_blob_size, 1000);
    assert_eq!(b.uncompressed_blob_size, 4000);
    assert_eq!(b.blob_prefetch_size, 12);
    assert_eq!(b.chunk_source, ChunkSource::Parent);
    assert!(b.blob_meta_info_enabled);
    assert_eq!(b.blob_meta_header.ci_entries, 7);
    assert_eq!(b.blob_meta_header.ci_compressed_offset, 10);
    assert_eq!(b.blob_meta_header.ci_compressor, CompressAlgorithm::Lz4Block);
}

#[test]
fn import_inlined_meta_blob_takes_backend_size_and_toc() {
    let toc = TocInfo { digest: [9u8; 32], size: 55 };
    let backend = TestBackend::new(5000, Some(toc), false);
    let mut info = blob_info("raw");
    info.blob_id = "runtime".to_string();
    info.features = BLOB_FEATURE_INLINED_META;
    let b = BlobContext::from(&backend, &info, ChunkSource::Dict).unwrap();
    assert_eq!(backend.asked.get(), 1);
    assert_eq!(b.blob_id, "runtime");
    assert_eq!(b.compressed_blob_size, 5000);
    assert_eq!(b.rafs_blob_toc_digest, [9u8; 32]);
    assert_eq!(b.rafs_blob_toc_size, 55);
    assert_eq!(b.blob_meta_header.features & BLOB_FEATURE_INLINED_META, 0);
    // a blob of the current build is not fixed up
    let c = BlobContext::from(&backend, &info, ChunkSource::Build).unwrap();
    assert_eq!(c.blob_id, "raw");
    assert_eq!(c.compressed_blob_size, 1000);
}

#[test]
fn import_zran_blob_takes_referenced_digest() {
    let backend = TestBackend::new(777, None, false);
    let mut info = blob_info("zran");
    info.features = BLOB_FEATURE_INLINED_META | BLOB_FEATURE_ZRAN;
    info.rafs_blob_id = Some("0f".repeat(32));
    let b = BlobContext::from(&backend, &info, ChunkSource::Parent).unwrap();
    assert_eq!(b.rafs_blob_digest, [0x0f; 32]);
    assert_eq!(b.rafs_blob_size, 777);
    assert_eq!(b.blob_id, "zran");
    assert_eq!(b.compressed_blob_size, 1000);

    info.rafs_blob_id = Some("not-hex".to_string());
    let c = BlobContext::from(&backend, &info, ChunkSource::Parent).unwrap();
    assert_eq!(c.rafs_blob_digest, [0u8; 32]);
    assert_eq!(c.rafs_blob_size, 0);
}

#[test]
fn import_fails_when_backend_fails() {
    let backend = TestBackend::new(0, None, true);
    let mut info = blob_info("x");
    info.features = BLOB_FEATURE_INLINED_META;
    assert!(matches!(
        BlobContext::from(&backend, &info, ChunkSource::Parent),
        Err(BuildError::BackendFailure)
    ));
}

struct FlakyReader {
    failures: Cell<u32>,
    retries: u8,
}

impl BlobReader for FlakyReader {
    fn blob_size(&self) -> Result<u64, BackendError> {
        Ok(0)
    }
    fn try_read(&self, buf: &mut [u8], _offset: u64) -> Result<usize, BackendError> {
        if self.failures.get() > 0 {
            self.failures.set(self.failures.get() - 1);
            Err(BackendError::CopyData("transient".to_string()))
        } else {
            buf[0] = 42;
            Ok(1)
        }
    }
    fn toc_info(&self) -> Result<TocInfo, BackendError> {
        Err(BackendError::Unsupported("toc".to_string()))
    }
    fn retry_limit(&self) -> u8 {
        self.retries
    }
}

#[test]
fn reader_retries_up_to_its_limit() {
    let mut buf = [0u8; 4];
    let r = FlakyReader { failures: Cell::new(2), retries: 2 };
    assert_eq!(r.read(&mut buf, 0).unwrap(), 1);
    assert_eq!(buf[0], 42);
    let r = FlakyReader { failures: Cell::new(3), retries: 2 };
    assert!(r.read(&mut buf, 0).is_err());
    assert_eq!(r.failures.get(), 0);
}

#[test]
fn retry_step_decisions() {
    let ok: Result<usize, BackendError> = Ok(3);
    let err: Result<usize, BackendError> = Err(BackendError::Unsupported("x".to_string()));
    assert_eq!(retry_step(&ok, 2), ReadStep::Done);
    assert_eq!(retry_step(&ok, 0), ReadStep::Done);
    assert_eq!(retry_step(&err, 2), ReadStep::Retry(1));
    assert_eq!(retry_step(&err, 0), ReadStep::Done);
}
