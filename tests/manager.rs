use nydus_builder::{
    ArtifactStorage, BackendError, BlobBackend, BlobContext, BlobInfo, BlobManager, BlobReader,
    BlobTable, BuildContext, BuildError, BuildOutput, ChunkDict, CompressAlgorithm,
    DigestAlgorithm, FinalizeAction, RafsVersion, TocInfo, BLOB_FEATURE_INLINED_META,
};

fn blob_info(id: &str, index: u32) -> BlobInfo {
    BlobInfo {
        blob_index: index,
        blob_id: id.to_string(),
        raw_blob_id: id.to_string(),
        rafs_blob_id: None,
        features: 0,
        compressor: CompressAlgorithm::Zstd,
        digester: DigestAlgorithm::Sha256,
        chunk_size: 0x100000,
        chunk_count: 3,
        compressed_size: 300,
        uncompressed_size: 900,
        prefetch_size: 0,
        rafs_blob_digest: [0u8; 32],
        rafs_blob_size: 0,
        rafs_blob_toc_digest: [0u8; 32],
        rafs_blob_toc_size: 0,
        meta_ci: None,
    }
}

struct NoReader;

impl BlobReader for NoReader {
    fn blob_size(&self) -> Result<u64, BackendError> {
        Err(BackendError::Unsupported("size".to_string()))
    }
    fn try_read(&self, _buf: &mut [u8], _offset: u64) -> Result<usize, BackendError> {
        Err(BackendError::Unsupported("read".to_string()))
    }
    fn toc_info(&self) -> Result<TocInfo, BackendError> {
        Err(BackendError::Unsupported("toc".to_string()))
    }
    fn retry_limit(&self) -> u8 {
        0
    }
}

struct NoBackend;

impl BlobBackend for NoBackend {
    type Reader = NoReader;
    fn get_reader(&self, _blob_id: &str) -> Result<NoReader, BackendError> {
        Err(BackendError::Unsupported("offline".to_string()))
    }
}

fn ids(m: &BlobManager) -> Vec<String> {
    m.get_blob_ids()
}

#[test]
fn parent_then_dict_import_order() {
    let mut m = BlobManager::new(DigestAlgorithm::Blake3);
    m.extend_from_blob_table(&NoBackend, vec![blob_info("A", 0), blob_info("B", 1)]).unwrap();
    m.set_chunk_dict(ChunkDict::new(vec![blob_info("B", 0), blob_info("C", 1)]));
    m.extend_from_chunk_dict(&NoBackend).unwrap();
    assert_eq!(ids(&m), vec!["A", "B", "C"]);
    assert_eq!(m.get_chunk_dict().get_real_blob_idx(0), Some(1));
    assert_eq!(m.get_chunk_dict().get_real_blob_idx(1), Some(2));
    assert_eq!(m.get_chunk_dict().get_real_blob_idx(2), None);
}

#[test]
fn imports_place_each_id_once_below_256() {
    let mut m = BlobManager::new(DigestAlgorithm::Blake3);
    let table: Vec<BlobInfo> = (0..4).map(|i| blob_info(&format!("p{}", i), i)).collect();
    m.extend_from_blob_table(&NoBackend, table).unwrap();
    let dict: Vec<BlobInfo> =
        vec![blob_info("p2", 0), blob_info("d0", 1), blob_info("p0", 2), blob_info("d1", 3), blob_info("d0", 4)];
    m.set_chunk_dict(ChunkDict::new(dict));
    m.extend_from_chunk_dict(&NoBackend).unwrap();
    let all = ids(&m);
    assert_eq!(all, vec!["p0", "p1", "p2", "p3", "d0", "d1"]);
    for id in ["p0", "p1", "p2", "p3", "d0", "d1"].iter() {
        assert_eq!(all.iter().filter(|x| x == id).count(), 1);
    }
    let d = m.get_chunk_dict();
    assert_eq!(d.get_real_blob_idx(0), Some(2));
    assert_eq!(d.get_real_blob_idx(1), Some(4));
    assert_eq!(d.get_real_blob_idx(2), Some(0));
    assert_eq!(d.get_real_blob_idx(3), Some(5));
    assert_eq!(d.get_real_blob_idx(4), Some(4));
}

#[test]
fn parent_import_shifts_current_blob() {
    let ctx = BuildContext::default();
    let mut m = BlobManager::new(DigestAlgorithm::Blake3);
    {
        let (idx, b) = m.get_or_create_current_blob(&ctx).unwrap();
        assert_eq!(idx, 0);
        b.compressed_blob_size = 42;
    }
    m.extend_from_blob_table(&NoBackend, vec![blob_info("A", 0), blob_info("B", 1)]).unwrap();
    let (idx, b) = m.get_current_blob().unwrap();
    assert_eq!(idx, 2);
    assert_eq!(b.compressed_blob_size, 42);
    assert_eq!(m.len(), 3);
    assert_eq!(m.get_blob(0).unwrap().blob_id, "A");
}

#[test]
fn parent_import_into_blobs_without_current_fails() {
    let mut m = BlobManager::new(DigestAlgorithm::Blake3);
    m.add(BlobContext::new("x".to_string(), 0, 0, CompressAlgorithm::Zstd, DigestAlgorithm::Sha256));
    assert_eq!(m.extend_from_blob_table(&NoBackend, vec![blob_info("A", 0)]), Err(BuildError::Inconsistent));
    assert_eq!(m.len(), 1);
}

#[test]
fn parent_import_fails_on_backend_failure() {
    let mut m = BlobManager::new(DigestAlgorithm::Blake3);
    let mut b = blob_info("A", 0);
    b.features = BLOB_FEATURE_INLINED_META;
    assert_eq!(m.extend_from_blob_table(&NoBackend, vec![b]), Err(BuildError::BackendFailure));
    assert_eq!(m.len(), 0);
}

#[test]
fn blob_indices_stop_at_256() {
    let mut m = BlobManager::new(DigestAlgorithm::Blake3);
    for i in 0..256u32 {
        assert_eq!(m.alloc_index(), Ok(i));
        m.add(BlobContext::new(format!("b{}", i), 0, 0, CompressAlgorithm::Zstd, DigestAlgorithm::Sha256));
    }
    assert_eq!(m.alloc_index(), Err(BuildError::Overflow));
    assert_eq!(m.extend_from_blob_table(&NoBackend, vec![]), Err(BuildError::Inconsistent));
    let mut n = BlobManager::new(DigestAlgorithm::Blake3);
    let table: Vec<BlobInfo> = (0..257).map(|i| blob_info(&format!("p{}", i), i)).collect();
    assert_eq!(n.extend_from_blob_table(&NoBackend, table), Err(BuildError::Overflow));
    let ctx = BuildContext::default();
    assert!(matches!(m.get_or_create_current_blob(&ctx), Err(BuildError::Overflow)));
    assert_eq!(m.get_blob_idx_by_id("b255"), Some(255));
    assert_eq!(m.get_blob_idx_by_id("b256"), None);
}

#[test]
fn dict_import_overflows_when_table_is_full() {
    let mut m = BlobManager::new(DigestAlgorithm::Blake3);
    let table: Vec<BlobInfo> = (0..256).map(|i| blob_info(&format!("p{}", i), i)).collect();
    m.extend_from_blob_table(&NoBackend, table).unwrap();
    m.set_chunk_dict(ChunkDict::new(vec![blob_info("p7", 0)]));
    assert_eq!(m.extend_from_chunk_dict(&NoBackend), Ok(()));
    m.set_chunk_dict(ChunkDict::new(vec![blob_info("new", 0)]));
    assert_eq!(m.extend_from_chunk_dict(&NoBackend), Err(BuildError::Overflow));
}

#[test]
fn current_blob_takes_build_settings() {
    let mut ctx = BuildContext::default();
    ctx.blob_id = "cur".to_string();
    ctx.chunk_size = 0x80000;
    ctx.fs_version = RafsVersion::V5;
    let mut m = BlobManager::new(DigestAlgorithm::Blake3);
    assert!(m.get_current_blob().is_none());
    let (idx, b) = m.get_or_create_current_blob(&ctx).unwrap();
    assert_eq!(idx, 0);
    assert_eq!(b.blob_id, "cur");
    assert_eq!(b.chunk_size, 0x80000);
    assert!(!b.blob_meta_info_enabled);
    let taken = m.take_blob(0);
    assert_eq!(taken.blob_id, "cur");
    assert_eq!(m.len(), 0);
}

#[test]
fn blob_table_dialects() {
    let mut m = BlobManager::new(DigestAlgorithm::Blake3);
    let mut b = BlobContext::new("one".to_string(), 0, 0, CompressAlgorithm::Zstd, DigestAlgorithm::Sha256);
    b.rafs_blob_size = 9;
    b.blob_prefetch_size = 3;
    m.add(b);
    let mut ctx = BuildContext::default();
    ctx.fs_version = RafsVersion::V5;
    match m.to_blob_table(&ctx).unwrap() {
        BlobTable::V5(v) => {
            assert_eq!(v.len(), 1);
            assert_eq!(v[0].blob_id, "one");
            assert_eq!(v[0].prefetch_size, 3);
            assert_eq!(v[0].flags, 0x80 | 0x8);
            assert_eq!(v[0].rafs_blob_size, 0);
            assert!(v[0].meta_header.is_none());
        }
        _ => panic!("v5 expected"),
    }
    ctx.fs_version = RafsVersion::V6;
    match m.to_blob_table(&ctx).unwrap() {
        BlobTable::V6(v) => {
            assert_eq!(v[0].rafs_blob_size, 9);
            assert!(v[0].meta_header.is_some());
        }
        _ => panic!("v6 expected"),
    }
    let mut big = BlobContext::new("big".to_string(), 0, 0, CompressAlgorithm::Zstd, DigestAlgorithm::Sha256);
    big.blob_prefetch_size = 1u64 << 32;
    m.add(big);
    assert!(matches!(m.to_blob_table(&ctx), Err(BuildError::Overflow)));
}

#[test]
fn empty_layer_build() {
    let m = BlobManager::new(DigestAlgorithm::Blake3);
    assert!(m.get_last_blob().is_none());
    let storage = Some(ArtifactStorage::SingleFile("/out/bootstrap".to_string()));
    let out = BuildOutput::new(&m, &storage);
    assert_eq!(out.blob_size, None);
    assert!(out.blobs.is_empty());
    assert_eq!(out.bootstrap_path, Some("/out/bootstrap".to_string()));
    assert_eq!(out.to_string(), "meta blob path: /out/bootstrap\ndata blob size: 0x0\ndata blobs: []");
    let blob = ArtifactStorage::SingleFile("/out/blob".to_string());
    assert!(matches!(blob.finalize_action(None, false, true), FinalizeAction::Remove));
}

#[test]
fn build_output_summary() {
    let mut m = BlobManager::new(DigestAlgorithm::Blake3);
    let mut b = BlobContext::new("a1".to_string(), 0, 0, CompressAlgorithm::Zstd, DigestAlgorithm::Sha256);
    b.compressed_blob_size = 0x1f2e;
    m.add(BlobContext::new("z0".to_string(), 0, 0, CompressAlgorithm::Zstd, DigestAlgorithm::Sha256));
    m.add(b);
    let out = BuildOutput::new(&m, &Some(ArtifactStorage::FileDir("/d".to_string())));
    assert_eq!(out.blob_size, Some(0x1f2e));
    assert_eq!(out.bootstrap_path, None);
    assert_eq!(out.to_string(), "meta blob path: <none>\ndata blob size: 0x1f2e\ndata blobs: [\"z0\", \"a1\"]");
    assert_eq!(nydus_builder::hex_u64(0), "0");
    assert_eq!(nydus_builder::hex_u64(u64::MAX), "ffffffffffffffff");
    assert_eq!(nydus_builder::hex_u64(0xabc0), "abc0");
}
