use vstd::prelude::*;

verus! {

pub open spec fn is_hex_digit(c: char) -> bool {
    ('0' <= c && c <= '9') || ('a' <= c && c <= 'f') || ('A' <= c && c <= 'F')
}

pub open spec fn hex_digit_value(c: char) -> int {
    if '0' <= c && c <= '9' {
        c as int - '0' as int
    } else if 'a' <= c && c <= 'f' {
        c as int - 'a' as int + 10
    } else {
        c as int - 'A' as int + 10
    }
}

/// `s` is a hex string of `n` bytes: `2 * n` hex digits, either case.
pub open spec fn is_hex_of_len(s: Seq<char>, n: nat) -> bool {
    s.len() == 2 * n && forall|i: int| 0 <= i < s.len() ==> is_hex_digit(#[trigger] s[i])
}

/// The bytes a string of hex digit pairs denotes.
pub open spec fn hex_decode(s: Seq<char>) -> Seq<u8> {
    Seq::new(
        s.len() / 2,
        |i: int| (hex_digit_value(s[2 * i]) * 16 + hex_digit_value(s[2 * i + 1])) as u8,
    )
}

/// Lower-case hex digit of a value below 16.
pub open spec fn hex_char(v: int) -> char {
    if v < 10 {
        ('0' as int + v) as char
    } else {
        ('a' as int + v - 10) as char
    }
}

/// Lower-case hex encoding, two digits per byte, high nibble first.
pub open spec fn hex_encode(b: Seq<u8>) -> Seq<char> {
    Seq::new(
        2 * b.len(),
        |i: int|
            if i % 2 == 0 {
                hex_char(b[i / 2] as int / 16)
            } else {
                hex_char(b[i / 2] as int % 16)
            },
    )
}

/// Relies on hex::FromHex for [u8; 32]: succeeds exactly on 64 hex digits of
/// either case, each pair giving one byte.
#[verifier::external_body]
pub(crate) fn digest_from_hex(s: &str) -> (r: Option<[u8; 32]>)
    ensures
        r is Some <==> is_hex_of_len(s@, 32),
        r matches Some(d) ==> d@ == hex_decode(s@),
{
    <[u8; 32] as hex::FromHex>::from_hex(s).ok()
}

/// Relies on hex::encode: two lower-case digits per byte.
#[verifier::external_body]
pub(crate) fn digest_to_hex(d: &[u8; 32]) -> (r: String)
    ensures
        r@ == hex_encode(d@),
{
    hex::encode(d)
}

/// The 512-byte GNU tar header declaring a regular file `name` of `size`
/// bytes, with its checksum set.
pub uninterp spec fn gnu_file_header(name: Seq<char>, size: u64) -> Seq<u8>;

/// Relies on tar::Header (new_gnu, set_path, set_entry_type, set_size,
/// set_cksum, as_bytes): builds the GNU header of a regular file. It fails
/// when tar refuses the path.
#[verifier::external_body]
pub(crate) fn build_gnu_file_header(name: &str, size: u64) -> (r: Option<Vec<u8>>)
    ensures
        r matches Some(h) ==> h@ == gnu_file_header(name@, size) && h@.len() == 512,
{
    let mut header = tar::Header::new_gnu();
    header.set_path(std::path::Path::new(name)).ok()?;
    header.set_entry_type(tar::EntryType::Regular);
    header.set_size(size);
    header.set_cksum();
    Some(header.as_bytes().to_vec())
}

} // verus!
