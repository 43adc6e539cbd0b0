//! Cryptographically secure random tokens for sessions and CSRF protection.
use base64::engine::general_purpose::URL_SAFE_NO_PAD;
use base64::Engine;
use rand::rngs::OsRng;
use rand::RngCore;
use vstd::prelude::*;

verus! {

/// Default token size in bytes (256 bits of entropy).
pub const DEFAULT_TOKEN_BYTES: usize = 32;

/// A character of the URL-safe base64 alphabet.
pub open spec fn url_safe_char(c: char) -> bool {
    ('A' <= c && c <= 'Z') || ('a' <= c && c <= 'z') || ('0' <= c && c <= '9') || c == '-' || c
        == '_'
}

/// The length of the unpadded base64 encoding of `n` bytes.
pub open spec fn unpadded_len(n: nat) -> nat {
    4 * (n / 3) + if n % 3 == 0 {
        0nat
    } else if n % 3 == 1 {
        2nat
    } else {
        3nat
    }
}

/// What `URL_SAFE_NO_PAD.encode` writes for `bytes`.
pub uninterp spec fn base64_url_nopad(bytes: Seq<u8>) -> Seq<char>;

/// `n` bytes from the operating system's random source (`OsRng.fill_bytes`);
/// their values are left open.
#[verifier::external_body]
pub(crate) fn os_random_bytes(n: usize) -> (v: Vec<u8>)
    ensures
        v@.len() == n,
{
    let mut buffer = vec![0u8; n];
    OsRng.fill_bytes(&mut buffer);
    buffer
}

/// Encodes bytes with the URL-safe base64 alphabet and no padding
/// (`URL_SAFE_NO_PAD.encode`). The text is named; its length and alphabet are
/// stated as the crate's `encoded_len` and `URL_SAFE` alphabet give them.
#[verifier::external_body]
fn encode_url_safe(bytes: &[u8]) -> (s: String)
    requires
        bytes@.len() <= usize::MAX / 2,
    ensures
        s@ == base64_url_nopad(bytes@),
        s@.len() == unpadded_len(bytes@.len()),
        forall|i: int| 0 <= i < s@.len() ==> url_safe_char(#[trigger] s@[i]),
{
    URL_SAFE_NO_PAD.encode(bytes)
}

/// A random token of `DEFAULT_TOKEN_BYTES` bytes, base64url-encoded without padding.
pub fn generate_secure_token() -> (t: String)
    ensures
        t@.len() == unpadded_len(DEFAULT_TOKEN_BYTES as nat),
        forall|i: int| 0 <= i < t@.len() ==> url_safe_char(#[trigger] t@[i]),
{
    generate_secure_token_with_size(DEFAULT_TOKEN_BYTES)
}

/// A random token of `bytes` bytes, base64url-encoded without padding.
pub fn generate_secure_token_with_size(bytes: usize) -> (t: String)
    requires
        bytes <= usize::MAX / 2,
    ensures
        t@.len() == unpadded_len(bytes as nat),
        forall|i: int| 0 <= i < t@.len() ==> url_safe_char(#[trigger] t@[i]),
{
    let buffer = os_random_bytes(bytes);
    encode_url_safe(buffer.as_slice())
}

} // verus!
