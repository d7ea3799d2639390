use vstd::prelude::*;
use vstd::string::*;

use crate::error::BuildError;

verus! {

/// Kind of conversion an image build performs: source format to target format.
#[derive(Clone, Copy, Debug, PartialEq, Eq, Structural)]
pub enum ConversionType {
    DirectoryToRafs,
    DirectoryToStargz,
    DirectoryToTargz,
    EStargzToRafs,
    EStargzToRef,
    EStargzIndexToRef,
    TargzToRafs,
    TargzToStargz,
    TargzToRef,
    TarToStargz,
    TarToRafs,
    TarToRef,
}

/// The canonical name of each conversion type.
pub open spec fn conversion_name(t: ConversionType) -> Seq<char> {
    match t {
        ConversionType::DirectoryToRafs => "dir-rafs"@,
        ConversionType::DirectoryToStargz => "dir-stargz"@,
        ConversionType::DirectoryToTargz => "dir-targz"@,
        ConversionType::EStargzToRafs => "estargz-rafs"@,
        ConversionType::EStargzToRef => "estargz-ref"@,
        ConversionType::EStargzIndexToRef => "estargztoc-ref"@,
        ConversionType::TargzToRafs => "targz-rafs"@,
        ConversionType::TargzToStargz => "targz-stargz"@,
        ConversionType::TargzToRef => "targz-ref"@,
        ConversionType::TarToStargz => "tar-stargz"@,
        ConversionType::TarToRafs => "tar-rafs"@,
        ConversionType::TarToRef => "tar-ref"@,
    }
}

/// The conversion type a string names: a canonical name, or one of the
/// legacy aliases `directory` and `stargz_index`.
pub open spec fn conversion_from_name(s: Seq<char>) -> Option<ConversionType> {
    if s == "dir-rafs"@ || s == "directory"@ {
        Some(ConversionType::DirectoryToRafs)
    } else if s == "dir-stargz"@ {
        Some(ConversionType::DirectoryToStargz)
    } else if s == "dir-targz"@ {
        Some(ConversionType::DirectoryToTargz)
    } else if s == "estargz-rafs"@ {
        Some(ConversionType::EStargzToRafs)
    } else if s == "estargz-ref"@ {
        Some(ConversionType::EStargzToRef)
    } else if s == "estargztoc-ref"@ || s == "stargz_index"@ {
        Some(ConversionType::EStargzIndexToRef)
    } else if s == "targz-rafs"@ {
        Some(ConversionType::TargzToRafs)
    } else if s == "targz-stargz"@ {
        Some(ConversionType::TargzToStargz)
    } else if s == "targz-ref"@ {
        Some(ConversionType::TargzToRef)
    } else if s == "tar-rafs"@ {
        Some(ConversionType::TarToRafs)
    } else if s == "tar-stargz"@ {
        Some(ConversionType::TarToStargz)
    } else if s == "tar-ref"@ {
        Some(ConversionType::TarToRef)
    } else {
        None
    }
}

/// Whether a conversion produces blobs that reference an outer tar.
pub open spec fn conversion_is_to_ref(t: ConversionType) -> bool {
    ||| t == ConversionType::EStargzToRef
    ||| t == ConversionType::EStargzIndexToRef
    ||| t == ConversionType::TargzToRef
    ||| t == ConversionType::TarToRef
}

fn str_eq(a: &str, b: &str) -> (r: bool)
    ensures
        r == (a@ == b@),
{
    a.to_owned() == b.to_owned()
}

impl ConversionType {
    /// The default conversion: a directory into a RAFS image.
    pub fn default() -> (r: Self)
        ensures
            r == ConversionType::DirectoryToRafs,
    {
        ConversionType::DirectoryToRafs
    }

    /// Parses a conversion name; legacy aliases map to their canonical type.
    pub fn from_str(s: &str) -> (r: Result<Self, BuildError>)
        ensures
            conversion_from_name(s@) is Some ==> r == Ok::<Self, BuildError>(
                conversion_from_name(s@)->0,
            ),
            conversion_from_name(s@) is None ==> r == Err::<Self, BuildError>(
                BuildError::InvalidConfig,
            ),
    {
        if str_eq(s, "dir-rafs") || str_eq(s, "directory") {
            Ok(ConversionType::DirectoryToRafs)
        } else if str_eq(s, "dir-stargz") {
            Ok(ConversionType::DirectoryToStargz)
        } else if str_eq(s, "dir-targz") {
            Ok(ConversionType::DirectoryToTargz)
        } else if str_eq(s, "estargz-rafs") {
            Ok(ConversionType::EStargzToRafs)
        } else if str_eq(s, "estargz-ref") {
            Ok(ConversionType::EStargzToRef)
        } else if str_eq(s, "estargztoc-ref") || str_eq(s, "stargz_index") {
            Ok(ConversionType::EStargzIndexToRef)
        } else if str_eq(s, "targz-rafs") {
            Ok(ConversionType::TargzToRafs)
        } else if str_eq(s, "targz-stargz") {
            Ok(ConversionType::TargzToStargz)
        } else if str_eq(s, "targz-ref") {
            Ok(ConversionType::TargzToRef)
        } else if str_eq(s, "tar-rafs") {
            Ok(ConversionType::TarToRafs)
        } else if str_eq(s, "tar-stargz") {
            Ok(ConversionType::TarToStargz)
        } else if str_eq(s, "tar-ref") {
            Ok(ConversionType::TarToRef)
        } else {
            Err(BuildError::InvalidConfig)
        }
    }

    /// The canonical name of this conversion type.
    pub fn to_string(&self) -> (r: String)
        ensures
            r@ == conversion_name(*self),
    {
        let s = match self {
            ConversionType::DirectoryToRafs => "dir-rafs",
            ConversionType::DirectoryToStargz => "dir-stargz",
            ConversionType::DirectoryToTargz => "dir-targz",
            ConversionType::EStargzToRafs => "estargz-rafs",
            ConversionType::EStargzToRef => "estargz-ref",
            ConversionType::EStargzIndexToRef => "estargztoc-ref",
            ConversionType::TargzToRafs => "targz-rafs",
            ConversionType::TargzToStargz => "targz-stargz",
            ConversionType::TargzToRef => "targz-ref",
            ConversionType::TarToStargz => "tar-stargz",
            ConversionType::TarToRafs => "tar-rafs",
            ConversionType::TarToRef => "tar-ref",
        };
        String::from_str(s)
    }

    /// Whether this conversion produces blobs that reference an outer tar.
    pub fn is_to_ref(&self) -> (r: bool)
        ensures
            r == conversion_is_to_ref(*self),
    {
        match self {
            ConversionType::EStargzToRef
            | ConversionType::EStargzIndexToRef
            | ConversionType::TargzToRef
            | ConversionType::TarToRef => true,
            _ => false,
        }
    }
}

/// Printing a conversion type and parsing the result gives the same type back.
pub proof fn lemma_conversion_name_round_trip(t: ConversionType)
    ensures
        conversion_from_name(conversion_name(t)) == Some(t),
{
    reveal_strlit("dir-rafs");
    reveal_strlit("directory");
    reveal_strlit("dir-stargz");
    reveal_strlit("dir-targz");
    reveal_strlit("estargz-rafs");
    reveal_strlit("estargz-ref");
    reveal_strlit("estargztoc-ref");
    reveal_strlit("stargz_index");
    reveal_strlit("targz-rafs");
    reveal_strlit("targz-stargz");
    reveal_strlit("targz-ref");
    reveal_strlit("tar-rafs");
    reveal_strlit("tar-stargz");
    reveal_strlit("tar-ref");
    let n = conversion_name(t);
    assert(n.len() > 3);
    assert(n[0] == "dir-rafs"@[0] || n[0] == "tar-rafs"@[0] || n[0] == "estargz-rafs"@[0]);
    assert(n[3] == "dir-rafs"@[3] || n[3] == "targz-rafs"@[3] || n[3] == "tar-rafs"@[3]
        || n[3] == "estargz-rafs"@[3]);
}

} // verus!
