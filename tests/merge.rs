use nydus_builder::{
    blob_id_from_meta_path, ArtifactStorage, BackendError, BlobBackend, BlobInfo, BlobReader,
    BlobTable, BuildContext, BuildError, BuildConfiguration, ChunkInfo, CompressAlgorithm,
    DigestAlgorithm, LayerBootstrap, Merger, Node, Overlay, RafsSuperConfig, RafsVersion, TocInfo,
    BLOB_FEATURE_SEPARATE,
};

struct NoReader;

impl BlobReader for NoReader {
    fn blob_size(&self) -> Result<u64, BackendError> {
        Err(BackendError::Unsupported("size".to_string()))
    }
    fn try_read(&self, _buf: &mut [u8], _offset: u64) -> Result<usize, BackendError> {
        Err(BackendError::Unsupported("read".to_string()))
    }
    fn toc_info(&self) -> Result<TocInfo, BackendError> {
        Err(BackendError::Unsupported("toc".to_string()))
    }
    fn retry_limit(&self) -> u8 {
        0
    }
}

struct NoBackend;

impl BlobBackend for NoBackend {
    type Reader = NoReader;
    fn get_reader(&self, _blob_id: &str) -> Result<NoReader, BackendError> {
        Err(BackendError::Unsupported("offline".to_string()))
    }
}

fn config() -> RafsSuperConfig {
    RafsSuperConfig {
        version: RafsVersion::V6,
        compressor: CompressAlgorithm::Zstd,
        digester: DigestAlgorithm::Sha256,
        explicit_uidgid: false,
    }
}

fn blob_info(id: &str, index: u32, chunk_size: u32) -> BlobInfo {
    BlobInfo {
        blob_index: index,
        blob_id: id.to_string(),
        raw_blob_id: id.to_string(),
        rafs_blob_id: None,
        features: 0,
        compressor: CompressAlgorithm::Zstd,
        digester: DigestAlgorithm::Sha256,
        chunk_size,
        chunk_count: 1,
        compressed_size: 100,
        uncompressed_size: 200,
        prefetch_size: 0,
        rafs_blob_digest: [0u8; 32],
        rafs_blob_size: 0,
        rafs_blob_toc_digest: [0u8; 32],
        rafs_blob_toc_size: 0,
        meta_ci: None,
    }
}

fn node(path: &str, blob_index: u32) -> Node {
    Node {
        path: path.to_string(),
        layer_idx: 0,
        overlay: Overlay::Lower,
        chunks: vec![ChunkInfo {
            index: 0,
            blob_index,
            compressed_offset: 0,
            compressed_size: 10,
            uncompressed_offset: 0,
            uncompressed_size: 20,
            is_compressed: true,
            digest: [1u8; 32],
        }],
    }
}

fn dir(path: &str) -> Node {
    Node { path: path.to_string(), layer_idx: 0, overlay: Overlay::Lower, chunks: Vec::new() }
}

fn layer(path: &str, blobs: Vec<BlobInfo>, nodes: Vec<Node>) -> LayerBootstrap {
    LayerBootstrap { path: path.to_string(), config: config(), blobs, nodes }
}

fn accessible_ctx() -> BuildContext {
    let mut ctx = BuildContext::default();
    ctx.set_configuration(BuildConfiguration { blob_accessible: true });
    ctx
}

fn merge_plain(ctx: &mut BuildContext, sources: Vec<LayerBootstrap>) -> Result<nydus_builder::MergeOutput, BuildError> {
    Merger::merge(
        ctx,
        sources,
        None,
        None,
        None,
        None,
        ArtifactStorage::SingleFile("/out/merged.boot".to_string()),
        None,
        &NoBackend,
    )
}

#[test]
fn two_layer_merge() {
    let mut ctx = accessible_ctx();
    let l0 = layer("/l/0.boot", vec![blob_info("blob0", 0, 0x100000)], vec![dir("/"), node("/a", 0)]);
    let l1 = layer("/l/1.boot", vec![blob_info("blob1", 0, 0x100000)], vec![dir("/"), node("/b", 0)]);
    let out = merge_plain(&mut ctx, vec![l0, l1]).unwrap();
    assert_eq!(out.output.blobs, vec!["blob0", "blob1"]);
    match &out.blob_table {
        BlobTable::V6(v) => {
            assert_eq!(v.len(), 2);
            assert_eq!(v[0].blob_id, "blob0");
            assert_eq!(v[1].blob_id, "blob1");
        }
        _ => panic!("v6 expected"),
    }
    assert_eq!(out.tree.paths(), vec!["/", "/a", "/b"]);
    let nodes = out.tree.get_nodes();
    for n in nodes.iter() {
        assert_eq!(n.overlay, Overlay::UpperAddition);
    }
    let b = nodes.iter().find(|n| n.path == "/b").unwrap();
    assert_eq!(b.layer_idx, 1);
    assert_eq!(b.chunks[0].blob_index, 1);
    let a = nodes.iter().find(|n| n.path == "/a").unwrap();
    assert_eq!(a.layer_idx, 0);
    assert_eq!(a.chunks[0].blob_index, 0);
    assert_eq!(ctx.chunk_size, 0x100000);
    assert_eq!(ctx.fs_version, RafsVersion::V6);
    assert_eq!(out.output.bootstrap_path, Some("/out/merged.boot".to_string()));
    assert_eq!(out.output.blob_size, Some(100));
}

#[test]
fn merge_with_whiteout() {
    let mut ctx = accessible_ctx();
    let l0 = layer(
        "/l/0.boot",
        vec![blob_info("blob0", 0, 0x100000)],
        vec![dir("/"), dir("/a"), node("/a/b", 0), node("/a/b/c", 0), node("/a/bc", 0)],
    );
    // the new /a/b comes before its whiteout in walk order; the whiteout is
    // applied first, so the new file survives
    let l1 = layer(
        "/l/1.boot",
        vec![blob_info("blob1", 0, 0x100000)],
        vec![node("/a/b", 0), node("/a/.wh.b", 0), node("/x", 0)],
    );
    let out = merge_plain(&mut ctx, vec![l0, l1]).unwrap();
    assert_eq!(out.tree.paths(), vec!["/", "/a", "/a/bc", "/a/b", "/x"]);
    let b = out.tree.get_nodes().iter().find(|n| n.path == "/a/b").unwrap();
    assert_eq!(b.layer_idx, 1);

    let mut ctx = accessible_ctx();
    let l0 = layer(
        "/l/0.boot",
        vec![blob_info("blob0", 0, 0x100000)],
        vec![dir("/"), dir("/a"), node("/a/b", 0), node("/a/b/c", 0)],
    );
    let l1 = layer("/l/1.boot", vec![], vec![dir("/a/.wh.b")]);
    let out = merge_plain(&mut ctx, vec![l0, l1]).unwrap();
    assert_eq!(out.tree.paths(), vec!["/", "/a"]);
}

#[test]
fn merge_with_opaque_whiteout() {
    let mut ctx = accessible_ctx();
    let l0 = layer(
        "/l/0.boot",
        vec![],
        vec![dir("/"), dir("/a"), dir("/a/d"), dir("/a/d/e"), dir("/ab")],
    );
    let l1 = layer("/l/1.boot", vec![], vec![dir("/a/new"), dir("/a/.wh..wh..opq")]);
    let out = merge_plain(&mut ctx, vec![l0, l1]).unwrap();
    assert_eq!(out.tree.paths(), vec!["/", "/a", "/ab", "/a/new"]);
}

#[test]
fn merge_rejects_mismatched_chunk_sizes() {
    let mut ctx = accessible_ctx();
    let l0 = layer("/l/0.boot", vec![blob_info("blob0", 0, 0x100000)], vec![dir("/")]);
    let l1 = layer("/l/1.boot", vec![blob_info("blob1", 0, 0x80000)], vec![dir("/")]);
    assert!(matches!(merge_plain(&mut ctx, vec![l0, l1]), Err(BuildError::Inconsistent)));
}

#[test]
fn merge_rejects_two_upper_blobs_in_a_layer() {
    let mut ctx = accessible_ctx();
    let l0 = layer(
        "/l/0.boot",
        vec![blob_info("blob0", 0, 0x100000), blob_info("blob1", 1, 0x100000)],
        vec![dir("/")],
    );
    assert!(matches!(merge_plain(&mut ctx, vec![l0]), Err(BuildError::Inconsistent)));
}

#[test]
fn merge_preconditions() {
    let mut ctx = accessible_ctx();
    assert!(matches!(merge_plain(&mut ctx, vec![]), Err(BuildError::InvalidConfig)));
    let l0 = layer("/l/0.boot", vec![], vec![dir("/")]);
    let r = Merger::merge(
        &mut ctx,
        vec![l0],
        None,
        Some(vec![1, 2]),
        None,
        None,
        ArtifactStorage::SingleFile("/out".to_string()),
        None,
        &NoBackend,
    );
    assert!(matches!(r, Err(BuildError::InvalidConfig)));
}

#[test]
fn merge_rejects_incompatible_layers() {
    let mut ctx = accessible_ctx();
    let l0 = layer("/l/0.boot", vec![], vec![dir("/")]);
    let mut l1 = layer("/l/1.boot", vec![], vec![dir("/")]);
    l1.config.digester = DigestAlgorithm::Blake3;
    assert!(matches!(merge_plain(&mut ctx, vec![l0, l1]), Err(BuildError::CorruptMetadata)));
}

#[test]
fn merge_rejects_chunk_of_unknown_blob() {
    let mut ctx = accessible_ctx();
    let l0 = layer("/l/0.boot", vec![blob_info("blob0", 0, 0x100000)], vec![node("/a", 3)]);
    assert!(matches!(merge_plain(&mut ctx, vec![l0]), Err(BuildError::CorruptMetadata)));
}

#[test]
fn merge_applies_overrides_and_dictionary() {
    let mut ctx = BuildContext::default();
    let digest = "AB".repeat(32);
    let l0 = layer(
        "/layers/sha256-0123.boot",
        vec![blob_info("dictblob", 0, 0x100000), blob_info("own0", 1, 0x100000)],
        vec![node("/f", 1), node("/g", 0)],
    );
    let mut sep = blob_info("own1", 0, 0x100000);
    sep.features = BLOB_FEATURE_SEPARATE;
    let l1 = layer("/layers/second.tar.boot", vec![sep, blob_info("dictblob", 1, 0x100000)], vec![node("/h", 1)]);
    let dict = layer("/dict.boot", vec![blob_info("dictblob", 0, 0x100000)], vec![]);
    let out = Merger::merge(
        &mut ctx,
        vec![l0, l1],
        Some(vec![digest.clone(), "cd".repeat(32)]),
        Some(vec![111, 222]),
        Some(vec!["01".repeat(32), "02".repeat(32)]),
        Some(vec![5, 6]),
        ArtifactStorage::FileDir("/out".to_string()),
        Some(dict),
        &NoBackend,
    )
    .unwrap();
    assert_eq!(out.output.blobs, vec!["dictblob".to_string(), "ab".repeat(32), "second".to_string()]);
    let own0 = out.blob_mgr.get_blob(1).unwrap();
    assert_eq!(own0.compressed_blob_size, 111);
    assert_eq!(own0.rafs_blob_toc_digest, [1u8; 32]);
    assert_eq!(own0.rafs_blob_toc_size, 5);
    let own1 = out.blob_mgr.get_blob(2).unwrap();
    assert_eq!(own1.blob_meta_digest, [0xcd; 32]);
    assert_eq!(own1.blob_meta_size, 222);
    assert_eq!(own1.compressed_blob_size, 100);
    let nodes = out.tree.get_nodes();
    assert_eq!(nodes.iter().find(|n| n.path == "/f").unwrap().chunks[0].blob_index, 1);
    assert_eq!(nodes.iter().find(|n| n.path == "/g").unwrap().chunks[0].blob_index, 0);
    assert_eq!(nodes.iter().find(|n| n.path == "/h").unwrap().chunks[0].blob_index, 0);
    assert_eq!(out.output.bootstrap_path, None);
}

#[test]
fn merge_rejects_bad_digest_override() {
    let mut ctx = accessible_ctx();
    let l0 = layer("/l/0.boot", vec![blob_info("blob0", 0, 0x100000)], vec![dir("/")]);
    let r = Merger::merge(
        &mut ctx,
        vec![l0],
        Some(vec!["zz".repeat(32)]),
        None,
        None,
        None,
        ArtifactStorage::SingleFile("/out".to_string()),
        None,
        &NoBackend,
    );
    assert!(matches!(r, Err(BuildError::InvalidConfig)));
}

#[test]
fn override_lists() {
    let l = Some(vec!["00".repeat(31) + "ff", "short".to_string()]);
    let mut expect = [0u8; 32];
    expect[31] = 0xff;
    assert_eq!(Merger::get_digest_from_list(&l, 0), Ok(Some(expect)));
    assert_eq!(Merger::get_digest_from_list(&l, 1), Err(BuildError::InvalidConfig));
    assert_eq!(Merger::get_digest_from_list(&l, 2), Err(BuildError::InvalidConfig));
    assert_eq!(Merger::get_digest_from_list(&None, 7), Ok(None));
    let s = Some(vec![4u64, 5]);
    assert_eq!(Merger::get_size_from_list(&s, 1), Ok(Some(5)));
    assert_eq!(Merger::get_size_from_list(&s, 2), Err(BuildError::InvalidConfig));
    assert_eq!(Merger::get_size_from_list(&None, 0), Ok(None));
}

#[test]
fn blob_id_from_bootstrap_path() {
    assert_eq!(blob_id_from_meta_path("/a/b/abc.boot"), Ok("abc".to_string()));
    assert_eq!(blob_id_from_meta_path("/a/abc.tar.boot"), Ok("abc".to_string()));
    assert_eq!(blob_id_from_meta_path("abc"), Ok("abc".to_string()));
    assert_eq!(blob_id_from_meta_path("/x/.hidden.boot"), Ok(".hidden".to_string()));
    assert_eq!(blob_id_from_meta_path("/x/"), Err(BuildError::InvalidConfig));
}

#[test]
fn merge_layer_index_overflow_and_separate_id() {
    let mut ctx = BuildContext::default();
    let mut sep = blob_info("own", 0, 0x100000);
    sep.features = BLOB_FEATURE_SEPARATE;
    let l0 = layer("/layers/base.boot", vec![sep], vec![dir("/")]);
    let out = Merger::merge(
        &mut ctx,
        vec![l0],
        Some(vec!["ab".repeat(32)]),
        None,
        None,
        None,
        ArtifactStorage::SingleFile("/out".to_string()),
        None,
        &NoBackend,
    )
    .unwrap();
    // metadata kept apart: the digest goes to the metadata blob, the id comes from the path
    assert_eq!(out.output.blobs, vec!["base".to_string()]);
    assert_eq!(out.blob_mgr.get_blob(0).unwrap().blob_meta_digest, [0xab; 32]);
}
