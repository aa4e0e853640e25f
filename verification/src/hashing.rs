use vstd::prelude::*;

verus! {

/// The Keccak-256 digest of a byte string. Left abstract: nothing in the
/// library depends on the digest's structure, only on it being a fixed
/// function of the input.
pub uninterp spec fn keccak_of(data: Seq<u8>) -> Seq<u8>;

/// Relies on sha3::Keccak256: the Keccak-256 digest of the input bytes,
/// 32 bytes long, a function of the input alone.
#[verifier::external_body]
pub(crate) fn keccak256(data: &Vec<u8>) -> (r: Vec<u8>)
    ensures
        r@ == keccak_of(data@),
        r@.len() == 32,
{
    <sha3::Keccak256 as sha3::Digest>::digest(data.as_slice()).to_vec()
}

/// The SHA-256 digest of a byte string; abstract for the same reason.
pub uninterp spec fn sha256_of(data: Seq<u8>) -> Seq<u8>;

/// Relies on sha2::Sha256: the SHA-256 digest of the input bytes, 32 bytes
/// long, a function of the input alone.
#[verifier::external_body]
pub(crate) fn sha256(data: &Vec<u8>) -> (r: Vec<u8>)
    ensures
        r@ == sha256_of(data@),
        r@.len() == 32,
{
    <sha2::Sha256 as sha2::Digest>::digest(data.as_slice()).to_vec()
}

/// One lowercase hexadecimal digit.
pub open spec fn hex_digit(n: u8) -> char {
    if n < 10 {
        (48 + n) as char
    } else {
        (87 + n) as char
    }
}

/// The lowercase hexadecimal rendering of a byte string: two digits per
/// byte, most significant nibble first.
pub open spec fn hex_of(b: Seq<u8>) -> Seq<char> {
    Seq::new(2 * b.len(), |i: int| {
        if i % 2 == 0 {
            hex_digit(b[i / 2] >> 4u8)
        } else {
            hex_digit(b[i / 2] & 0x0fu8)
        }
    })
}

/// Relies on hex::encode: the lowercase hexadecimal rendering of the input,
/// two digits per byte, most significant nibble first.
#[verifier::external_body]
pub(crate) fn hex_encode(data: &Vec<u8>) -> (r: String)
    ensures
        r@ == hex_of(data@),
{
    hex::encode(data)
}

} // verus!
