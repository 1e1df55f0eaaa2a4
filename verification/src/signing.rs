//! Webhook payload signing: lowercase-hex HMAC-SHA256, the fixed wire
//! contract subscribers verify against.
//!
//! The HMAC tag itself comes from the `hmac`/`sha2` crates; its value is
//! named by `hmac_sha256_of` and not restated here. Hex encoding is
//! fully specified by `hex_of`.

use hmac::{Hmac, KeyInit, Mac};
use sha2::Sha256;
use vstd::prelude::*;
use vstd::string::StringSliceAdditionalSpecFns;

verus! {

/// The lowercase hex digit of a nibble value.
pub open spec fn hex_digit(n: int) -> char {
    if n == 0 {
        '0'
    } else if n == 1 {
        '1'
    } else if n == 2 {
        '2'
    } else if n == 3 {
        '3'
    } else if n == 4 {
        '4'
    } else if n == 5 {
        '5'
    } else if n == 6 {
        '6'
    } else if n == 7 {
        '7'
    } else if n == 8 {
        '8'
    } else if n == 9 {
        '9'
    } else if n == 10 {
        'a'
    } else if n == 11 {
        'b'
    } else if n == 12 {
        'c'
    } else if n == 13 {
        'd'
    } else if n == 14 {
        'e'
    } else {
        'f'
    }
}

/// Lowercase hex of a byte string: two digits per byte, high nibble
/// first.
pub open spec fn hex_of(bytes: Seq<u8>) -> Seq<char>
    decreases bytes.len(),
{
    if bytes.len() == 0 {
        Seq::empty()
    } else {
        seq![hex_digit(bytes[0] as int / 16), hex_digit(bytes[0] as int % 16)] + hex_of(
            bytes.drop_first(),
        )
    }
}

/// Hex encoding writes exactly two digits per byte.
pub proof fn lemma_hex_of_len(bytes: Seq<u8>)
    ensures
        hex_of(bytes).len() == 2 * bytes.len(),
    decreases bytes.len(),
{
    if bytes.len() > 0 {
        lemma_hex_of_len(bytes.drop_first());
    }
}

/// The 32-byte HMAC-SHA256 tag of `message` under `key`; a function of
/// the two byte strings alone.
pub uninterp spec fn hmac_sha256_of(key: Seq<u8>, message: Seq<u8>) -> Seq<u8>;

/// Relies on `hmac::Hmac<sha2::Sha256>` (HMAC over SHA-256): the tag
/// depends on the key and message bytes alone and is 32 bytes long;
/// keys of any length are accepted.
#[verifier::external_body]
fn hmac_sha256(key: &[u8], message: &[u8]) -> (r: Vec<u8>)
    ensures
        r@ == hmac_sha256_of(key@, message@),
        r@.len() == 32,
{
    let mut mac = <Hmac<Sha256> as KeyInit>::new_from_slice(key).unwrap();
    mac.update(message);
    mac.finalize().into_bytes().to_vec()
}

/// Relies on `hex::encode`: each byte becomes two lowercase hex digits,
/// high nibble first.
#[verifier::external_body]
fn hex_encode(bytes: &[u8]) -> (r: String)
    ensures
        r@ == hex_of(bytes@),
{
    hex::encode(bytes)
}

/// The signature a webhook request carries when its subscription has a
/// secret: lowercase hex of the HMAC-SHA256 tag of the request body
/// under the secret.
pub open spec fn spec_signature(secret: Seq<u8>, body: Seq<u8>) -> Seq<char> {
    hex_of(hmac_sha256_of(secret, body))
}

/// Computes the signature header value for `body` under `secret`, as
/// `spec_signature` states, over the UTF-8 bytes of both strings. The
/// value is always 64 hex digits — two per byte of the 32-byte tag —
/// which is part of the fixed wire contract.
pub fn compute_signature(secret: &str, body: &str) -> (r: String)
    ensures
        r@ == spec_signature(secret.spec_bytes(), body.spec_bytes()),
        r@.len() == 64,
{
    let tag = hmac_sha256(secret.as_bytes(), body.as_bytes());
    proof {
        lemma_hex_of_len(tag@);
    }
    hex_encode(tag.as_slice())
}

} // verus!
