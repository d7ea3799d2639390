use vstd::prelude::*;
use vstd::string::*;

use crate::artifact::ArtifactStorage;
use crate::codec::hex_char;
use crate::manager::BlobManager;

verus! {

/// Summary of a build: the blob ids of the blob table, the size of the last
/// blob, and the bootstrap path when it went to a named file.
#[derive(Clone, Debug)]
pub struct BuildOutput {
    pub blobs: Vec<String>,
    pub blob_size: Option<u64>,
    pub bootstrap_path: Option<String>,
}

/// Lower-case hex digits of `n`, without leading zeros.
pub open spec fn hex_digits(n: nat) -> Seq<char>
    decreases n,
{
    if n < 16 {
        seq![hex_char(n as int)]
    } else {
        hex_digits(n / 16).push(hex_char((n % 16) as int))
    }
}

/// Rust's debug rendering of a list of strings, e.g. `["a", "b"]`.
pub uninterp spec fn debug_string_list(items: Seq<Seq<char>>) -> Seq<char>;

/// Relies on the `Debug` impl of `Vec<String>` (through `format!("{:?}")`):
/// the rendering depends on the strings alone.
#[verifier::external_body]
fn debug_list(items: &Vec<String>) -> (r: String)
    ensures
        r@ == debug_string_list(items@.map_values(|s: String| s@)),
{
    format!("{:?}", items)
}

fn hex_digit(v: u64) -> (c: &'static str)
    requires
        v < 16,
    ensures
        c@ == seq![hex_char(v as int)],
{
    proof {
        reveal_strlit("0");
        reveal_strlit("1");
        reveal_strlit("2");
        reveal_strlit("3");
        reveal_strlit("4");
        reveal_strlit("5");
        reveal_strlit("6");
        reveal_strlit("7");
        reveal_strlit("8");
        reveal_strlit("9");
        reveal_strlit("a");
        reveal_strlit("b");
        reveal_strlit("c");
        reveal_strlit("d");
        reveal_strlit("e");
        reveal_strlit("f");
    }
    match v {
        0 => "0",
        1 => "1",
        2 => "2",
        3 => "3",
        4 => "4",
        5 => "5",
        6 => "6",
        7 => "7",
        8 => "8",
        9 => "9",
        10 => "a",
        11 => "b",
        12 => "c",
        13 => "d",
        14 => "e",
        _ => "f",
    }
}

spec fn digit_chars(d: Seq<&'static str>) -> Seq<char> {
    d.map_values(|s: &'static str| s@[0])
}

/// `n` in lower-case hex.
pub fn hex_u64(n: u64) -> (r: String)
    ensures
        r@ == hex_digits(n as nat),
{
    let mut digits: Vec<&'static str> = Vec::new();
    let mut m: u64 = n;
    loop
        invariant_except_break
            hex_digits(n as nat) == hex_digits(m as nat) + digit_chars(digits@).reverse(),
        invariant
            m <= n,
            forall|k: int| 0 <= k < digits@.len() ==> (#[trigger] digits@[k])@.len() == 1,
        ensures
            hex_digits(n as nat) == digit_chars(digits@).reverse(),
        decreases m,
    {
        let ghost before = digit_chars(digits@);
        if m < 16 {
            let d = hex_digit(m);
            digits.push(d);
            assert(digit_chars(digits@) =~= before.push(d@[0]));
            assert(digit_chars(digits@).reverse() =~= seq![hex_char(m as int)] + before.reverse());
            break;
        }
        let d = hex_digit(m % 16);
        digits.push(d);
        assert(digit_chars(digits@) =~= before.push(d@[0]));
        assert(digit_chars(digits@).reverse() =~= seq![d@[0]] + before.reverse());
        assert(hex_digits(m as nat) == hex_digits((m / 16) as nat).push(d@[0]));
        assert(hex_digits((m / 16) as nat).push(d@[0]) + before.reverse() =~= hex_digits(
            (m / 16) as nat,
        ) + digit_chars(digits@).reverse());
        m = m / 16;
    }
    let mut r = String::new();
    let mut i: usize = digits.len();
    while i > 0
        invariant
            i <= digits@.len(),
            r@ == digit_chars(digits@).subrange(i as int, digits@.len() as int).reverse(),
            forall|k: int| 0 <= k < digits@.len() ==> (#[trigger] digits@[k])@.len() == 1,
        decreases i,
    {
        i = i - 1;
        let ghost before = r@;
        r.append(digits[i]);
        assert(digit_chars(digits@).subrange(i as int, digits@.len() as int).reverse() =~= before
            + seq![digit_chars(digits@)[i as int]]);
        assert(digits@[i as int]@ =~= seq![digit_chars(digits@)[i as int]]);
    }
    assert(digit_chars(digits@).subrange(0, digits@.len() as int) =~= digit_chars(digits@));
    r
}

impl BuildOutput {
    /// The summary of a build with blob manager `blob_mgr` whose bootstrap
    /// went to `bootstrap_storage`.
    pub fn new(blob_mgr: &BlobManager, bootstrap_storage: &Option<ArtifactStorage>) -> (r: Self)
        ensures
            r.blobs@.len() == blob_mgr.blobs().len(),
            forall|i: int| 0 <= i < r.blobs@.len() ==> r.blobs@[i]@ == blob_mgr.ids()[i],
            blob_mgr.blobs().len() == 0 ==> r.blob_size is None,
            blob_mgr.blobs().len() > 0 ==> r.blob_size == Some(
                blob_mgr.blobs().last().compressed_blob_size,
            ),
            (bootstrap_storage matches Some(s) && s is SingleFile) ==> (r.bootstrap_path matches Some(
                p,
            ) && p@ == bootstrap_storage->0.path()),
            !(bootstrap_storage matches Some(s) && s is SingleFile) ==> r.bootstrap_path is None,
    {
        let blobs = blob_mgr.get_blob_ids();
        let blob_size = match blob_mgr.get_last_blob() {
            Some(b) => Some(b.compressed_blob_size),
            None => None,
        };
        let bootstrap_path = match bootstrap_storage {
            Some(ArtifactStorage::SingleFile(p)) => Some(p.clone()),
            _ => None,
        };
        BuildOutput { blobs, blob_size, bootstrap_path }
    }

    /// The three-line summary printed at the end of a build.
    pub fn to_string(&self) -> (r: String)
        ensures
            r@ == "meta blob path: "@ + (match self.bootstrap_path {
                Some(p) => p@,
                None => "<none>"@,
            }) + "\ndata blob size: 0x"@ + hex_digits(
                match self.blob_size {
                    Some(n) => n as nat,
                    None => 0,
                },
            ) + "\ndata blobs: "@ + debug_string_list(self.blobs@.map_values(|s: String| s@)),
    {
        let mut r = String::from_str("meta blob path: ");
        match &self.bootstrap_path {
            Some(p) => r.append(p.as_str()),
            None => r.append("<none>"),
        }
        r.append("\ndata blob size: 0x");
        let size = match self.blob_size {
            Some(n) => n,
            None => 0,
        };
        let h = hex_u64(size);
        r.append(h.as_str());
        r.append("\ndata blobs: ");
        let l = debug_list(&self.blobs);
        r.append(l.as_str());
        r
    }
}

} // verus!
