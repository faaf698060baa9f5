//! Hashes and their hex text: `sha2`, `hmac` and `hex` compute them.

use vstd::prelude::*;
use hmac::Mac;
use sha2::Digest;

verus! {

/// SHA-256 of the UTF-8 bytes of `data`.
pub uninterp spec fn sha256(data: Seq<char>) -> Seq<u8>;

/// HMAC-SHA256 keyed with the UTF-8 bytes of `key`, over the UTF-8 bytes of
/// `message`.
pub uninterp spec fn hmac_sha256(key: Seq<char>, message: Seq<char>) -> Seq<u8>;

/// The lowercase hex digit for `n < 16`.
pub open spec fn hex_digit(n: u8) -> char {
    if n < 10 {
        ((n + 48) as u8) as char
    } else {
        ((n + 87) as u8) as char
    }
}

/// Two lowercase hex digits per byte, most significant first.
pub open spec fn hex_of(bytes: Seq<u8>) -> Seq<char>
    decreases bytes.len(),
{
    if bytes.len() == 0 {
        Seq::empty()
    } else {
        hex_of(bytes.drop_last()) + seq![hex_digit(bytes.last() / 16), hex_digit(bytes.last() % 16)]
    }
}

/// The hex text of `n` bytes has `2 * n` digits.
pub proof fn lemma_hex_of_len(bytes: Seq<u8>)
    ensures
        hex_of(bytes).len() == 2 * bytes.len(),
    decreases bytes.len(),
{
    if bytes.len() > 0 {
        lemma_hex_of_len(bytes.drop_last());
    }
}

/// `sha2::Sha256::digest(data.as_bytes())`: 32 bytes.
#[verifier::external_body]
pub fn sha256_bytes(data: &str) -> (r: Vec<u8>)
    ensures
        r@ == sha256(data@),
        r@.len() == 32,
{
    sha2::Sha256::digest(data.as_bytes()).to_vec()
}

/// `Hmac::<Sha256>::new_from_slice(key)`, `update(message)`, `finalize()`:
/// 32 bytes. Keys of any length are accepted.
#[verifier::external_body]
pub fn hmac_sha256_bytes(key: &str, message: &str) -> (r: Vec<u8>)
    ensures
        r@ == hmac_sha256(key@, message@),
        r@.len() == 32,
{
    let mut mac = hmac::Hmac::<sha2::Sha256>::new_from_slice(key.as_bytes()).expect("any key length");
    mac.update(message.as_bytes());
    mac.finalize().into_bytes().to_vec()
}

/// `hex::encode(bytes)`: lowercase, two digits per byte.
#[verifier::external_body]
pub fn hex_encode(bytes: &Vec<u8>) -> (r: String)
    ensures
        r@ == hex_of(bytes@),
{
    hex::encode(bytes)
}

} // verus!
