//! Trusted access to the cryptographic primitives.
//!
//! Each digest result is given an uninterpreted name: the library never
//! restates an outside algorithm, it only relies on the fact that the
//! same input bytes always produce the same digest.  The length facts
//! are the output sizes that the hash crates fix by type.

use vstd::prelude::*;
use hmac::Mac;
use sha1::Digest;
use base64::Engine;

verus! {

/// What HMAC-SHA256 returns for a key and a message.
pub uninterp spec fn hmac_sha256_of(key: Seq<u8>, msg: Seq<u8>) -> Seq<u8>;

/// What HMAC-SHA1 returns for a key and a message.
pub uninterp spec fn hmac_sha1_of(key: Seq<u8>, msg: Seq<u8>) -> Seq<u8>;

/// What SHA-256 returns for a byte string.
pub uninterp spec fn sha256_of(data: Seq<u8>) -> Seq<u8>;

/// What SHA-1 returns for a byte string.
pub uninterp spec fn sha1_of(data: Seq<u8>) -> Seq<u8>;

/// What MD5 returns for a byte string.
pub uninterp spec fn md5_of(data: Seq<u8>) -> Seq<u8>;

/// What the standard base64 alphabet with padding encodes a byte string
/// to.
pub uninterp spec fn base64_of(data: Seq<u8>) -> Seq<u8>;

/// Relies on hmac's `Hmac::<Sha256>` with sha2: the digest depends on key
/// and message alone and is 32 bytes; `new_from_slice` accepts any key
/// length for HMAC and never fails.
#[verifier::external_body]
pub fn hmac_sha256_digest(key: &[u8], msg: &[u8]) -> (r: Vec<u8>)
    ensures
        r@ == hmac_sha256_of(key@, msg@),
        r@.len() == 32,
{
    let mut mac = match hmac::Hmac::<sha2::Sha256>::new_from_slice(key) {
        Ok(m) => m,
        Err(_) => return Vec::new(),
    };
    mac.update(msg);
    mac.finalize().into_bytes().to_vec()
}

/// Relies on hmac's `Hmac::<Sha1>` with sha1: the digest depends on key
/// and message alone and is 20 bytes; any key length is accepted.
#[verifier::external_body]
pub fn hmac_sha1_digest(key: &[u8], msg: &[u8]) -> (r: Vec<u8>)
    ensures
        r@ == hmac_sha1_of(key@, msg@),
        r@.len() == 20,
{
    let mut mac = match hmac::Hmac::<sha1::Sha1>::new_from_slice(key) {
        Ok(m) => m,
        Err(_) => return Vec::new(),
    };
    mac.update(msg);
    mac.finalize().into_bytes().to_vec()
}

/// Relies on sha2's `Sha256`: a 32-byte digest of the input alone.
#[verifier::external_body]
pub fn sha256_digest(data: &[u8]) -> (r: Vec<u8>)
    ensures
        r@ == sha256_of(data@),
        r@.len() == 32,
{
    let mut hasher = sha2::Sha256::new();
    hasher.update(data);
    hasher.finalize().to_vec()
}

/// Relies on sha1's `Sha1`: a 20-byte digest of the input alone.
#[verifier::external_body]
pub fn sha1_digest(data: &[u8]) -> (r: Vec<u8>)
    ensures
        r@ == sha1_of(data@),
        r@.len() == 20,
{
    let mut hasher = sha1::Sha1::new();
    hasher.update(data);
    hasher.finalize().to_vec()
}

/// Relies on md-5's `Md5`: a 16-byte digest of the input alone.
#[verifier::external_body]
pub fn md5_digest(data: &[u8]) -> (r: Vec<u8>)
    ensures
        r@ == md5_of(data@),
        r@.len() == 16,
{
    let mut hasher = md5::Md5::new();
    hasher.update(data);
    hasher.finalize().to_vec()
}

/// Relies on hex::encode: two lowercase hex digits per input byte, in
/// input order.
#[verifier::external_body]
pub fn hex_lower(data: &[u8]) -> (r: Vec<u8>)
    ensures
        r@ == crate::encoding::spec_hex_lower(data@),
{
    hex::encode(data).into_bytes()
}

/// Relies on base64's `STANDARD` engine: the standard alphabet with
/// padding, a function of the input alone.
#[verifier::external_body]
pub fn base64_standard(data: &[u8]) -> (r: Vec<u8>)
    ensures
        r@ == base64_of(data@),
{
    base64::engine::general_purpose::STANDARD.encode(data).into_bytes()
}

/// Relies on urlencoding::encode_binary: keeps exactly the bytes
/// `0-9 A-Z a-z - . _ ~` and escapes every other byte as `%XX` with
/// uppercase hex.
#[verifier::external_body]
pub fn url_encode_component(data: &[u8]) -> (r: Vec<u8>)
    ensures
        r@ == crate::encoding::spec_uri_encode(data@, true),
{
    urlencoding::encode_binary(data).into_owned().into_bytes()
}

} // verus!
