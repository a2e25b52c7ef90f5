//! Calls into outside crates and into std that the library relies on, with
//! what each is trusted to return.

use vstd::prelude::*;
use vstd::utf8::{decode_utf8, valid_utf8};
use base64::Engine;
use hmac::Mac;
use sha2::Digest;

verus! {

/// The lowercase hexadecimal digit of a value below sixteen.
pub open spec fn hex_digit(v: int) -> char {
    seq!['0', '1', '2', '3', '4', '5', '6', '7', '8', '9', 'a', 'b', 'c', 'd', 'e', 'f'][v]
}

/// Two lowercase hexadecimal digits for each byte, high half first.
pub open spec fn hex_of(b: Seq<u8>) -> Seq<char>
    decreases b.len(),
{
    if b.len() == 0 {
        Seq::empty()
    } else {
        hex_of(b.drop_last()) + seq![hex_digit(b.last() as int / 16), hex_digit(b.last() as int % 16)]
    }
}

/// Relies on `hex::encode`: two lowercase hexadecimal digits per byte, in order.
#[verifier::external_body]
pub(crate) fn hex_encode(bytes: &[u8]) -> (r: String)
    ensures
        r@ == hex_of(bytes@),
{
    hex::encode(bytes)
}

/// The SHA-256 digest of a byte string.
pub uninterp spec fn sha256_of(data: Seq<u8>) -> Seq<u8>;

/// Relies on `sha2::Sha256::digest`: the 32-byte SHA-256 digest of its input.
#[verifier::external_body]
pub(crate) fn sha256(data: &[u8]) -> (r: Vec<u8>)
    ensures
        r@ == sha256_of(data@),
        r@.len() == 32,
{
    sha2::Sha256::digest(data).to_vec()
}

/// The HMAC-SHA-256 tag of a message under a key.
pub uninterp spec fn hmac_sha256_of(key: Seq<u8>, message: Seq<u8>) -> Seq<u8>;

/// Relies on `hmac::Hmac<sha2::Sha256>`: `new_from_slice` accepts a key of any
/// length, and `finalize` gives the tag of the message passed to `update`.
#[verifier::external_body]
pub(crate) fn hmac_sha256(key: &[u8], message: &[u8]) -> (r: Vec<u8>)
    ensures
        r@ == hmac_sha256_of(key@, message@),
        r@.len() == 32,
{
    let mut mac = hmac::Hmac::<sha2::Sha256>::new_from_slice(key)
        .expect("HMAC takes a key of any length");
    mac.update(message);
    mac.finalize().into_bytes().to_vec()
}

/// The unpadded URL-safe base64 text of a byte string.
pub uninterp spec fn base64_url_of(data: Seq<u8>) -> Seq<char>;

/// Relies on `base64::engine::general_purpose::URL_SAFE_NO_PAD.encode`.
#[verifier::external_body]
pub(crate) fn base64_url_encode(data: &[u8]) -> (r: String)
    ensures
        r@ == base64_url_of(data@),
{
    base64::engine::general_purpose::URL_SAFE_NO_PAD.encode(data)
}

/// Relies on `base64::engine::general_purpose::URL_SAFE_NO_PAD.decode`: it
/// requires no padding and rejects nonzero trailing bits, so it accepts exactly
/// the texts that `encode` produces and gives back the bytes they encode.
#[verifier::external_body]
pub(crate) fn base64_url_decode(text: &str) -> (r: Option<Vec<u8>>)
    ensures
        r is Some ==> base64_url_of(r->0@) == text@,
        forall|b: Seq<u8>| base64_url_of(b) == text@ ==> (r is Some && r->0@ == b),
{
    base64::engine::general_purpose::URL_SAFE_NO_PAD.decode(text).ok()
}

/// Relies on `String::from_utf8`: it succeeds exactly on well-formed UTF-8 and
/// keeps the characters that the bytes encode.
#[verifier::external_body]
pub(crate) fn string_from_utf8(bytes: Vec<u8>) -> (r: Option<String>)
    ensures
        r is Some <==> valid_utf8(bytes@),
        r is Some ==> r->0@ == decode_utf8(bytes@),
{
    String::from_utf8(bytes).ok()
}

/// Relies on `std::time::SystemTime::elapsed` on `UNIX_EPOCH`: the system
/// clock as whole seconds since the Unix epoch; a clock set before the epoch
/// reads as zero.
#[verifier::external_body]
pub(crate) fn unix_now() -> (r: u64) {
    match std::time::UNIX_EPOCH.elapsed() {
        Ok(d) => d.as_secs(),
        Err(_) => 0,
    }
}

/// Relies on `chrono::Utc::now().timestamp()`: seconds since the Unix epoch.
#[verifier::external_body]
pub(crate) fn utc_timestamp() -> (r: i64) {
    chrono::Utc::now().timestamp()
}

/// A character of Crockford's base32 alphabet, as a ULID is written.
pub open spec fn is_crockford(c: char) -> bool {
    ('0' <= c <= '9') || ('A' <= c <= 'Z' && c != 'I' && c != 'L' && c != 'O' && c != 'U')
}

/// Relies on `ulid::Ulid::new` and its `Display`: a fresh identifier written as
/// 26 characters of Crockford's base32 alphabet.
#[verifier::external_body]
pub(crate) fn new_ulid() -> (r: String)
    ensures
        r@.len() == 26,
        forall|i: int| 0 <= i < 26 ==> is_crockford(#[trigger] r@[i]),
{
    ulid::Ulid::new().to_string()
}

/// Relies on `openidconnect::CsrfToken::new_random`: a fresh random token.
#[verifier::external_body]
pub(crate) fn random_token() -> (r: String) {
    openidconnect::CsrfToken::new_random().secret().clone()
}

/// A character of the URL-safe base64 alphabet.
pub open spec fn is_base64_url_char(c: char) -> bool {
    ('A' <= c <= 'Z') || ('a' <= c <= 'z') || ('0' <= c <= '9') || c == '-' || c == '_'
}

/// Relies on `openidconnect::PkceCodeChallenge::new_random_sha256`: a fresh
/// random PKCE code verifier, 32 random bytes in unpadded URL-safe base64, so
/// 43 characters of that alphabet (its challenge is derived from it again when
/// the authorization URL is built).
#[verifier::external_body]
pub(crate) fn random_pkce_verifier() -> (r: String)
    ensures
        r@.len() == 43,
        forall|i: int| 0 <= i < 43 ==> is_base64_url_char(#[trigger] r@[i]),
{
    let (_challenge, verifier) = openidconnect::PkceCodeChallenge::new_random_sha256();
    verifier.secret().clone()
}

} // verus!
