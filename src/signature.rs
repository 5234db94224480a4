//! Coupon signatures: sr25519 (Schnorr over Ristretto) through schnorrkel.
use vstd::prelude::*;
use schnorrkel::{PublicKey, Signature};

verus! {

/// Whether `bytes` decode to a Ristretto public key
/// (`schnorrkel::PublicKey::from_bytes` succeeds).
pub uninterp spec fn public_key_decodes(bytes: Seq<u8>) -> bool;

/// Whether `bytes` decode to a schnorrkel signature
/// (`schnorrkel::Signature::from_bytes` succeeds).
pub uninterp spec fn signature_decodes(bytes: Seq<u8>) -> bool;

/// Whether `signature` is a valid signature by `key` over `message` under the
/// signing context `context`.
pub uninterp spec fn signature_verifies(
    key: Seq<u8>,
    context: Seq<u8>,
    message: Seq<u8>,
    signature: Seq<u8>,
) -> bool;

/// Relies on schnorrkel::PublicKey::from_bytes: whether it accepts the bytes
/// depends on the bytes alone.
#[verifier::external_body]
pub(crate) fn decode_public_key(bytes: &[u8; 32]) -> (r: bool)
    ensures
        r == public_key_decodes(bytes@),
{
    PublicKey::from_bytes(bytes).is_ok()
}

/// Relies on schnorrkel::Signature::from_bytes: whether it accepts the bytes
/// depends on the bytes alone, and bytes whose last byte lacks the high
/// marker bit are refused.
#[verifier::external_body]
pub(crate) fn decode_signature(bytes: &[u8; 64]) -> (r: bool)
    ensures
        r == signature_decodes(bytes@),
        bytes@[63] < 128 ==> !r,
{
    Signature::from_bytes(bytes).is_ok()
}

/// Relies on schnorrkel::PublicKey::verify_simple (a signing context built
/// from `context`, the transcript of `message`, then the Schnorr check): the
/// verdict depends on the four byte strings alone.
#[verifier::external_body]
pub(crate) fn verify_signature(
    key: &[u8; 32],
    context: &[u8; 32],
    message: &[u8; 32],
    signature: &[u8; 64],
) -> (r: bool)
    requires
        public_key_decodes(key@),
        signature_decodes(signature@),
    ensures
        r == signature_verifies(key@, context@, message@, signature@),
{
    match (PublicKey::from_bytes(key), Signature::from_bytes(signature)) {
        (Ok(k), Ok(s)) => k.verify_simple(context, message, &s).is_ok(),
        _ => false,
    }
}

} // verus!
