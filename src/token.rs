use vstd::prelude::*;

verus! {

/// The URL-safe base64 text, without padding, of `bytes`.
pub uninterp spec fn url_safe_base64(bytes: Seq<u8>) -> Seq<char>;

/// Relies on base64's `encode_config` with `URL_SAFE_NO_PAD`: the URL-safe
/// alphabet, no padding; the text depends on the bytes alone.
#[verifier::external_body]
fn encode_url_safe(bytes: &[u8]) -> (r: String)
    ensures
        r@ == url_safe_base64(bytes@),
{
    base64::encode_config(bytes, base64::URL_SAFE_NO_PAD)
}

/// Relies on uuid's `Uuid::new_v4`: sixteen random bytes, with the version
/// nibble set to 4 and the variant bits to the RFC 4122 layout.
#[verifier::external_body]
fn random_uuid_bytes() -> (r: [u8; 16])
    ensures
        r@[6] & 0xf0u8 == 0x40u8,
        r@[8] & 0xc0u8 == 0x80u8,
{
    *uuid::Uuid::new_v4().as_bytes()
}

/// The correlation token that the 128-bit value `bytes` gives: its URL-safe
/// base64 text without padding.
pub fn token_from_bytes(bytes: &[u8; 16]) -> (r: String)
    ensures
        r@ == url_safe_base64(bytes@),
{
    encode_url_safe(bytes.as_slice())
}

/// A fresh correlation token: a random version-4 UUID, in URL-safe base64
/// without padding.
pub fn new_state() -> (r: String)
    ensures
        exists|b: Seq<u8>|
            b.len() == 16 && b[6] & 0xf0u8 == 0x40u8 && b[8] & 0xc0u8 == 0x80u8 && r@
                == url_safe_base64(b),
{
    let bytes: [u8; 16] = random_uuid_bytes();
    token_from_bytes(&bytes)
}

} // verus!
