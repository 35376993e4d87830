//! Percent-decoding (`urlencoding`), MD5 (`md-5`) and XXH64 (`xxhash-rust`).
use vstd::prelude::*;
use md5::Digest;

verus! {

/// `urlencoding::decode`: percent-escapes decoded, the bytes read as UTF-8;
/// `None` when they are not valid UTF-8.
pub uninterp spec fn url_decoded(s: Seq<char>) -> Option<Seq<char>>;

/// The MD5 digest of a byte string.
pub uninterp spec fn md5_digest(data: Seq<u8>) -> Seq<u8>;

/// The XXH64 hash of a byte string with a seed.
pub uninterp spec fn xxh64_hash(data: Seq<u8>, seed: u64) -> u64;

/// `urlencoding::decode`, as an owned string; `None` when the decoded bytes
/// are not UTF-8. Input without a `%` comes back unchanged.
#[verifier::external_body]
pub(crate) fn url_decode(s: &str) -> (r: Option<String>)
    ensures
        crate::data::opt_view(r) == url_decoded(s@),
        !s@.contains('%') ==> crate::data::opt_view(r) == Some(s@),
{
    match urlencoding::decode(s) {
        Ok(d) => Some(d.into_owned()),
        Err(_) => None,
    }
}

/// `Md5::digest` of the UTF-8 bytes of `s`.
#[verifier::external_body]
pub(crate) fn md5_of(s: &str) -> (r: Vec<u8>)
    ensures
        r@ == md5_digest(vstd::utf8::encode_utf8(s@)),
        r@.len() == 16,
{
    md5::Md5::digest(s.as_bytes()).to_vec()
}

/// `xxhash_rust::xxh64::xxh64` of the UTF-8 bytes of `s`.
#[verifier::external_body]
pub(crate) fn xxh64_of(s: &str, seed: u64) -> (r: u64)
    ensures
        r == xxh64_hash(vstd::utf8::encode_utf8(s@), seed),
{
    xxhash_rust::xxh64::xxh64(s.as_bytes(), seed)
}

/// Percent-decodes `v`, giving the empty string when the result is not
/// UTF-8 (`urlencoding::decode(v).unwrap_or_default()`).
pub open spec fn decoded_or_empty(v: Seq<char>) -> Seq<char> {
    match url_decoded(v) {
        Some(d) => d,
        None => Seq::<char>::empty(),
    }
}

pub fn decode_or_empty(v: &str) -> (r: String)
    ensures
        r@ == decoded_or_empty(v@),
{
    match url_decode(v) {
        Some(d) => d,
        None => String::new(),
    }
}

} // verus!
