use nydus_builder::{
    ArtifactStorage, BuildConfiguration, BuildContext, CompressAlgorithm, ConversionType,
    DigestAlgorithm, PrefetchPolicy, RafsVersion, WhiteoutSpec, BLOB_FEATURE_INLINED_META,
    RAFS_DEFAULT_CHUNK_SIZE,
};

#[test]
fn build_context_new_sets_inline_meta_feature() {
    let ctx = BuildContext::new(
        "id".to_string(),
        true,
        16,
        CompressAlgorithm::Zstd,
        DigestAlgorithm::Sha256,
        false,
        WhiteoutSpec::Overlayfs,
        ConversionType::TarToRef,
        "/src".to_string(),
        PrefetchPolicy::Fs,
        Some(ArtifactStorage::FileDir("/blobs".to_string())),
        true,
    );
    assert_eq!(ctx.blob_features, BLOB_FEATURE_INLINED_META);
    assert_eq!(ctx.blob_id, "id");
    assert_eq!(ctx.blob_offset, 16);
    assert_eq!(ctx.chunk_size, RAFS_DEFAULT_CHUNK_SIZE);
    assert_eq!(ctx.conversion_type, ConversionType::TarToRef);
    assert!(!ctx.has_xattr);
    let plain = BuildContext::new(
        String::new(),
        false,
        0,
        CompressAlgorithm::Uncompressed,
        DigestAlgorithm::Blake3,
        true,
        WhiteoutSpec::Oci,
        ConversionType::DirectoryToRafs,
        String::new(),
        PrefetchPolicy::Disabled,
        None,
        false,
    );
    assert_eq!(plain.blob_features, 0);
}

#[test]
fn build_context_default_and_setters() {
    let mut ctx = BuildContext::default();
    assert!(ctx.explicit_uidgid);
    assert!(ctx.has_xattr);
    assert_eq!(ctx.fs_version, RafsVersion::V6);
    assert_eq!(ctx.compressor, CompressAlgorithm::Uncompressed);
    assert_eq!(ctx.digester, DigestAlgorithm::Blake3);
    ctx.set_fs_version(RafsVersion::V5);
    ctx.set_chunk_size(0x80000);
    ctx.set_configuration(BuildConfiguration { blob_accessible: true });
    assert_eq!(ctx.fs_version, RafsVersion::V5);
    assert_eq!(ctx.chunk_size, 0x80000);
    assert!(ctx.configuration.blob_accessible);
}
