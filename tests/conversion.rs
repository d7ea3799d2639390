use nydus_builder::{BuildError, ConversionType};

const CANONICAL: [&str; 12] = [
    "dir-rafs",
    "dir-stargz",
    "dir-targz",
    "estargz-rafs",
    "estargz-ref",
    "estargztoc-ref",
    "targz-rafs",
    "targz-stargz",
    "targz-ref",
    "tar-rafs",
    "tar-stargz",
    "tar-ref",
];

#[test]
fn conversion_round_trip_canonical_names() {
    for name in CANONICAL.iter() {
        let t = ConversionType::from_str(name).unwrap();
        assert_eq!(t.to_string(), *name);
    }
}

#[test]
fn conversion_targz_to_stargz_prints_its_own_name() {
    let t = ConversionType::from_str("targz-stargz").unwrap();
    assert_eq!(t, ConversionType::TargzToStargz);
    assert_eq!(t.to_string(), "targz-stargz");
    assert_eq!(ConversionType::TargzToRef.to_string(), "targz-ref");
}

#[test]
fn conversion_legacy_aliases() {
    assert_eq!(ConversionType::from_str("directory").unwrap(), ConversionType::DirectoryToRafs);
    assert_eq!(ConversionType::from_str("stargz_index").unwrap(), ConversionType::EStargzIndexToRef);
    assert_eq!(ConversionType::from_str("directory").unwrap().to_string(), "dir-rafs");
    assert_eq!(ConversionType::from_str("stargz_index").unwrap().to_string(), "estargztoc-ref");
}

#[test]
fn conversion_rejects_unknown_names() {
    assert_eq!(ConversionType::from_str("dir"), Err(BuildError::InvalidConfig));
    assert_eq!(ConversionType::from_str(""), Err(BuildError::InvalidConfig));
    assert_eq!(ConversionType::from_str("DIR-RAFS"), Err(BuildError::InvalidConfig));
}

#[test]
fn conversion_is_to_ref() {
    let refs = ["estargz-ref", "estargztoc-ref", "targz-ref", "tar-ref"];
    for name in CANONICAL.iter() {
        let t = ConversionType::from_str(name).unwrap();
        assert_eq!(t.is_to_ref(), refs.contains(name), "{}", name);
    }
    assert_eq!(ConversionType::default(), ConversionType::DirectoryToRafs);
}
