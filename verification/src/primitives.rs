//! The cryptographic primitives the key manager builds on.
//!
//! Nothing in this module is proved. Each executable function calls one
//! primitive of another crate, and its contract only gives the result a
//! name, so that the rest of the crate can say exactly which primitive was
//! applied to which bytes.

use vstd::prelude::*;
use ed25519_dalek::Signer;
use rand::Rng;
use tiny_keccak::Hasher;

verus! {

/// What `tiny_keccak::Kmac::v256(key, customization)` squeezes into 32 bytes
/// after absorbing `data`: KMAC256 of NIST SP 800-185 with a 256-bit output.
pub uninterp spec fn kmac256(key: Seq<u8>, customization: Seq<u8>, data: Seq<u8>) -> Seq<u8>;

/// The bytes of the `x25519_dalek::PublicKey` made from the `StaticSecret`
/// with the bytes `scalar`: the X25519 public key that belongs to that
/// private scalar.
pub uninterp spec fn x25519_public_key(scalar: Seq<u8>) -> Seq<u8>;

/// The bytes of the signature that the `ed25519_dalek::SigningKey` made from
/// `seed` gives for `message`: the Ed25519 signature of RFC 8032.
pub uninterp spec fn ed25519_signature(seed: Seq<u8>, message: Seq<u8>) -> Seq<u8>;

/// Calls `tiny_keccak::Kmac::v256`, absorbs `data` and squeezes 32 bytes.
/// Trusted: the digest depends on the bytes of the three arguments and on
/// nothing else.
#[verifier::external_body]
pub(crate) fn kmac256_digest(key: &[u8; 32], customization: &[u8; 8], data: &[u8]) -> (digest: [u8; 32])
    ensures
        digest@ == kmac256(key@, customization@, data@),
{
    let mut digest = [0u8; 32];
    let mut mac = tiny_keccak::Kmac::v256(key, customization);
    mac.update(data);
    mac.finalize(&mut digest);
    digest
}

/// Calls `x25519_dalek::PublicKey::from` on the `StaticSecret` made of
/// `scalar`. Trusted: the public key depends on the scalar's bytes and on
/// nothing else.
#[verifier::external_body]
pub(crate) fn x25519_public(scalar: &[u8; 32]) -> (public: [u8; 32])
    ensures
        public@ == x25519_public_key(scalar@),
{
    let secret = x25519_dalek::StaticSecret::from(*scalar);
    x25519_dalek::PublicKey::from(&secret).to_bytes()
}

/// Calls `ed25519_dalek::SigningKey::sign` with the key made from `seed`.
/// Trusted: the signature depends on the bytes of the seed and of the
/// message and on nothing else, as signing draws no randomness.
#[verifier::external_body]
pub(crate) fn ed25519_sign(seed: &[u8; 32], message: &[u8]) -> (signature: [u8; 64])
    ensures
        signature@ == ed25519_signature(seed@, message@),
{
    ed25519_dalek::SigningKey::from_bytes(seed).sign(message).to_bytes()
}

/// Calls `x25519_dalek::StaticSecret::random_from_rng` with the operating
/// system's generator and returns the secret's bytes. Nothing is claimed of
/// them. Aborts if the operating system cannot supply entropy.
#[verifier::external_body]
pub(crate) fn x25519_random_scalar() -> [u8; 32] {
    x25519_dalek::StaticSecret::random_from_rng(rand::rngs::OsRng).to_bytes()
}

/// Calls `rand::Rng::fill` on the operating system's generator. Nothing is
/// claimed of the bytes. Aborts if the operating system cannot supply
/// entropy.
#[verifier::external_body]
pub(crate) fn random_bytes() -> [u8; 32] {
    let mut bytes = [0u8; 32];
    rand::rngs::OsRng.fill(&mut bytes);
    bytes
}

} // verus!
