//! Authentication of webhook deliveries.
//!
//! The forge signs the body of each delivery with a secret that it shares
//! with the receiver, and sends the tag in a header as `sha1=` followed by
//! forty hexadecimal digits. A repository without a secret trusts every
//! delivery.

use vstd::prelude::*;
use vstd::string::*;
use crate::buffer::bytes_of;
use crate::hex::{decode_hex, hex_decoded, is_hex_text};
use crate::http::StatusCode;
use crate::text::{has_prefix, present, starts_with};

verus! {

/// The HMAC-SHA1 tag of `message` under `key`, as `ring` computes it.
pub uninterp spec fn hmac_sha1(key: Seq<u8>, message: Seq<u8>) -> Seq<u8>;

/// The longest key and the longest message that are handed to the tag
/// computation. The hash counts its input in bits in 64 bits and refuses what
/// does not fit; this limit stays below that.
pub const HMAC_INPUT_LIMIT: u64 = 0x1000_0000_0000_0000;

/// Whether `tag` is the HMAC-SHA1 tag of `message` under `key`.
///
/// Calls `ring::hmac::verify` with a key that `ring::hmac::Key::new` makes
/// from `key` for `HMAC_SHA1_FOR_LEGACY_USE_ONLY`. `ring` computes the tag and
/// compares it with `tag` in constant time; a `tag` of another length never
/// matches. `Key::new` panics on a key too long to hash, and `verify` fails
/// on a message too long to hash, whatever the tag: both are kept out.
#[verifier::external_body]
fn hmac_sha1_verify(key: &[u8], message: &[u8], tag: &[u8]) -> (valid: bool)
    requires
        key@.len() <= HMAC_INPUT_LIMIT,
        message@.len() <= HMAC_INPUT_LIMIT,
    ensures
        valid == (tag@ == hmac_sha1(key@, message@)),
{
    let key = ring::hmac::Key::new(ring::hmac::HMAC_SHA1_FOR_LEGACY_USE_ONLY, key);
    ring::hmac::verify(&key, message, tag).is_ok()
}

/// The text that a signature header begins with.
pub open spec fn signature_prefix() -> Seq<u8> {
    "sha1=".spec_bytes()
}

/// What follows the prefix in a signature header.
pub open spec fn signature_digits(header: Seq<u8>) -> Seq<u8> {
    header.skip(signature_prefix().len() as int)
}

/// Whether `header` is a well-formed signature: the prefix, then exactly
/// forty hexadecimal digits of either case.
pub open spec fn is_signature(header: Seq<u8>) -> bool {
    &&& has_prefix(header, signature_prefix())
    &&& signature_digits(header).len() == 40
    &&& is_hex_text(signature_digits(header))
}

/// The twenty bytes of the tag that a well-formed signature header spells.
pub open spec fn signature_tag(header: Seq<u8>) -> Seq<u8>
    recommends
        is_signature(header),
{
    hex_decoded(signature_digits(header))
}

/// Reads the tag out of a signature header.
///
/// Gives the tag exactly when the header is well formed.
pub fn read_signature(header: &[u8]) -> (tag: Option<Vec<u8>>)
    ensures
        tag is Some <==> is_signature(header@),
        tag matches Some(t) ==> t@ == signature_tag(header@),
{
    let prefix = "sha1=".as_bytes();
    if !starts_with(header, prefix) {
        return None;
    }
    let digits = vstd::slice::slice_subrange(header, prefix.len(), header.len());
    if digits.len() != 40 {
        return None;
    }
    match decode_hex(digits) {
        Ok(tag) => Some(tag),
        Err(_) => None,
    }
}

/// What authentication decides for a delivery with body `payload` and the
/// signature header `signature`, for a repository whose secret is `secret`.
///
/// Without a secret every delivery passes. With one, a missing header is
/// unauthorized, a header that is not well formed is a bad request, and a
/// well-formed one passes exactly when its tag is the HMAC-SHA1 tag of the
/// raw body under the secret.
pub open spec fn verdict(
    secret: Option<Seq<u8>>,
    payload: Seq<u8>,
    signature: Option<Seq<u8>>,
) -> Result<(), StatusCode> {
    match secret {
        None => Ok(()),
        Some(key) => match signature {
            None => Err(StatusCode::Unauthorized),
            Some(header) => if !is_signature(header) {
                Err(StatusCode::BadRequest)
            } else if key.len() <= HMAC_INPUT_LIMIT && payload.len() <= HMAC_INPUT_LIMIT
                && signature_tag(header) == hmac_sha1(key, payload) {
                Ok(())
            } else {
                Err(StatusCode::Unauthorized)
            },
        },
    }
}

/// The bytes of a configured secret, if one is configured.
pub open spec fn secret_key(secret: Option<String>) -> Option<Seq<u8>> {
    match secret {
        None => None,
        Some(text) => Some(vstd::utf8::encode_utf8(text@)),
    }
}

/// Authenticates a delivery before anything reads its body's structure.
///
/// `payload` is the raw body and `tag` the value of the signature header.
/// Without a secret the delivery always passes.
pub fn verify_github_request(
    secret: &Option<String>,
    payload: &bytes::Bytes,
    tag: Option<&[u8]>,
) -> (r: Result<(), StatusCode>)
    ensures
        r == verdict(secret_key(*secret), bytes_of(*payload), present(tag)),
        *secret is None ==> r is Ok,
{
    let secret = match secret {
        None => {
            return Ok(());
        },
        Some(secret) => secret,
    };
    let header = match tag {
        None => {
            return Err(StatusCode::Unauthorized);
        },
        Some(header) => header,
    };
    let tag_bytes = match read_signature(header) {
        None => {
            return Err(StatusCode::BadRequest);
        },
        Some(tag_bytes) => tag_bytes,
    };
    let key = secret.as_str().as_bytes();
    let message = payload.as_ref();
    if key.len() as u64 > HMAC_INPUT_LIMIT || message.len() as u64 > HMAC_INPUT_LIMIT {
        return Err(StatusCode::Unauthorized);
    }
    if hmac_sha1_verify(key, message, tag_bytes.as_slice()) {
        Ok(())
    } else {
        Err(StatusCode::Unauthorized)
    }
}

} // verus!
