use nydus_builder::{
    write_tar_header, ArtifactMemoryWriter, ArtifactStorage, ArtifactWrite, FinalizeAction, SeekPos,
};

#[test]
fn memory_writer_appends_and_overwrites() {
    let mut w = ArtifactMemoryWriter::default();
    assert_eq!(w.write(b"hello"), 5);
    assert_eq!(w.seek(SeekPos::Start(1)), Some(1));
    assert_eq!(w.write(b"EY"), 2);
    assert_eq!(w.seek(SeekPos::End(2)), Some(7));
    assert_eq!(w.write(b"!"), 1);
    assert_eq!(w.as_bytes(), b"hEYlo\0\0!");
    assert_eq!(w.seek(SeekPos::Current(3)), Some(3));
}

#[test]
fn memory_writer_rejects_negative_seek() {
    let mut w = ArtifactMemoryWriter::default();
    w.write(b"abc");
    assert_eq!(w.seek(SeekPos::Current(-4)), None);
    assert_eq!(w.seek(SeekPos::End(-3)), Some(0));
    assert_eq!(w.write(b"x"), 1);
    assert_eq!(w.as_bytes(), b"xbc");
}

#[test]
fn tar_header_follows_payload() {
    let mut w = ArtifactMemoryWriter::default();
    w.write_all(b"payload").unwrap();
    let h = write_tar_header(&mut w, "image.boot", 7).unwrap();
    assert_eq!(h.len(), 512);
    assert_eq!(&h[..10], b"image.boot");
    // size field: octal, at offset 124
    assert_eq!(&h[124..135], b"00000000007");
    // regular file
    assert_eq!(h[156], b'0');
    // GNU magic
    assert_eq!(&h[257..263], b"ustar ");
    let bytes = w.as_bytes().to_vec();
    assert_eq!(bytes.len(), 7 + 512);
    assert_eq!(&bytes[..7], b"payload");
    assert_eq!(&bytes[7..], &h[..]);
    // checksum: sum of bytes with the checksum field read as spaces
    let mut sum: u32 = 0;
    for (i, b) in h.iter().enumerate() {
        sum += if (148..156).contains(&i) { b' ' as u32 } else { *b as u32 };
    }
    let field = std::str::from_utf8(&h[148..155]).unwrap();
    assert_eq!(u32::from_str_radix(field, 8).unwrap(), sum);
}

#[test]
fn storage_display_and_default() {
    assert_eq!(ArtifactStorage::SingleFile("/tmp/a".to_string()).display(), "/tmp/a");
    assert_eq!(ArtifactStorage::FileDir("/tmp/d".to_string()).display(), "/tmp/d");
    match ArtifactStorage::default() {
        ArtifactStorage::SingleFile(p) => assert_eq!(p, ""),
        _ => panic!("default storage is a single file"),
    }
}

#[test]
fn finalize_dir_renames_unless_target_exists() {
    let s = ArtifactStorage::FileDir("/blobs".to_string());
    match s.finalize_action(Some("abc".to_string()), false, false) {
        FinalizeAction::RenameTo(n) => assert_eq!(n, "abc"),
        other => panic!("unexpected {:?}", other),
    }
    assert!(matches!(s.finalize_action(Some("abc".to_string()), true, false), FinalizeAction::Keep));
    assert!(matches!(s.finalize_action(None, false, true), FinalizeAction::Keep));
}

#[test]
fn finalize_single_file_without_name_removes_regular_file() {
    let s = ArtifactStorage::SingleFile("/out/blob".to_string());
    assert!(matches!(s.finalize_action(None, false, true), FinalizeAction::Remove));
    assert!(matches!(s.finalize_action(None, false, false), FinalizeAction::Keep));
    assert!(matches!(s.finalize_action(Some("x".to_string()), false, true), FinalizeAction::Keep));
}
