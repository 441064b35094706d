//! Signing of public keys before they leave the key manager.
//!
//! A signature covers the context tag, then the key, then the expiry. The
//! tag binds the signature to this use: no message signed here can be read
//! as a message of another protocol that starts with another tag.

use vstd::prelude::*;
use vstd::bytes::{lemma_auto_spec_u64_to_from_le_bytes, spec_u64_to_le_bytes, u64_to_le_bytes};
use crate::bytes::{PublicKey, Signature};
use crate::keys::{SignedPublicKey, SignedPublicKeyView, PUBLIC_KEY_CONTEXT};
use crate::primitives::{ed25519_sign, ed25519_signature};

verus! {

/// The single byte that stands for "no expiry" in a signed message.
pub const NO_EXPIRY_MARKER: u8 = 0;

/// The encoding of an expiry: the eight bytes of the timestamp, least
/// significant first, or the one-byte marker where there is none.
pub open spec fn expiry_encoding(expiry: Option<u64>) -> Seq<u8> {
    match expiry {
        Some(timestamp) => spec_u64_to_le_bytes(timestamp),
        None => seq![NO_EXPIRY_MARKER],
    }
}

/// The message under `context`: the context, the key, the expiry's encoding.
pub open spec fn tagged_message(context: Seq<u8>, key: Seq<u8>, expiry: Option<u64>) -> Seq<u8> {
    context + key + expiry_encoding(expiry)
}

/// The message that is signed for a public key and its expiry.
pub open spec fn signing_message(key: Seq<u8>, expiry: Option<u64>) -> Seq<u8> {
    tagged_message(PUBLIC_KEY_CONTEXT@, key, expiry)
}

/// The signed public key that the service with signing seed `seed` issues
/// for `key` and `expiry`.
pub open spec fn signed_public_key(seed: Seq<u8>, key: Seq<u8>, expiry: Option<u64>) -> SignedPublicKeyView {
    SignedPublicKeyView {
        key,
        timestamp: expiry,
        signature: ed25519_signature(seed, signing_message(key, expiry)),
    }
}

/// Builds the message that is signed for `key` and `expiry`.
pub fn encode_signing_message(key: &PublicKey, expiry: Option<u64>) -> (message: Vec<u8>)
    ensures
        message@ == signing_message(key@, expiry),
{
    let mut message: Vec<u8> = Vec::new();
    message.extend_from_slice(PUBLIC_KEY_CONTEXT.as_slice());
    message.extend_from_slice(key.0.as_slice());
    match expiry {
        Some(timestamp) => {
            let encoded = u64_to_le_bytes(timestamp);
            message.extend_from_slice(encoded.as_slice());
        },
        None => {
            message.push(NO_EXPIRY_MARKER);
        },
    }
    assert(message@ =~= signing_message(key@, expiry));
    message
}

/// A signed message determines what was signed: two messages are the same
/// only if context, key and expiry are. So a signature over one expiry is
/// not a signature over another, nor one under another context tag.
pub proof fn lemma_tagged_message_injective(
    context1: Seq<u8>,
    key1: Seq<u8>,
    expiry1: Option<u64>,
    context2: Seq<u8>,
    key2: Seq<u8>,
    expiry2: Option<u64>,
)
    requires
        context1.len() == context2.len(),
        key1.len() == key2.len(),
        tagged_message(context1, key1, expiry1) == tagged_message(context2, key2, expiry2),
    ensures
        context1 == context2,
        key1 == key2,
        expiry1 == expiry2,
{
    lemma_auto_spec_u64_to_from_le_bytes();
    let m1 = tagged_message(context1, key1, expiry1);
    let m2 = tagged_message(context2, key2, expiry2);
    let c = context1.len() as int;
    let k = key1.len() as int;
    assert(context1 =~= m1.subrange(0, c));
    assert(context2 =~= m2.subrange(0, c));
    assert(key1 =~= m1.subrange(c, c + k));
    assert(key2 =~= m2.subrange(c, c + k));
    assert(expiry_encoding(expiry1) =~= m1.subrange(c + k, m1.len() as int));
    assert(expiry_encoding(expiry2) =~= m2.subrange(c + k, m2.len() as int));
    match (expiry1, expiry2) {
        (Some(t1), Some(t2)) => {
            assert(spec_u64_to_le_bytes(t1) == spec_u64_to_le_bytes(t2));
        },
        (Some(t1), None) => {
            assert(spec_u64_to_le_bytes(t1).len() == 8);
        },
        (None, Some(t2)) => {
            assert(spec_u64_to_le_bytes(t2).len() == 8);
        },
        (None, None) => {},
    }
}

/// Every signed message starts with the public key context tag.
pub proof fn lemma_signing_message_starts_with_context(key: Seq<u8>, expiry: Option<u64>)
    ensures
        signing_message(key, expiry).len() >= 8,
        signing_message(key, expiry).subrange(0, 8) == PUBLIC_KEY_CONTEXT@,
{
    assert(signing_message(key, expiry).subrange(0, 8) =~= PUBLIC_KEY_CONTEXT@);
}

/// The service that signs public keys with the key manager's long-lived
/// Ed25519 signing key.
pub struct SigningService {
    seed: [u8; 32],
}

impl SigningService {
    /// The 32-byte seed of the signing key.
    pub closed spec fn seed(&self) -> Seq<u8> {
        self.seed@
    }

    /// A signing service whose signing key is expanded from `seed`.
    pub fn new(seed: [u8; 32]) -> (service: Self)
        ensures
            service.seed() == seed@,
    {
        SigningService { seed }
    }

    /// Signs `key` with `expiry`: the signature covers the context tag, the
    /// key and the expiry.
    pub fn sign_public_key(&self, key: PublicKey, expiry: Option<u64>) -> (signed: SignedPublicKey)
        ensures
            signed@ == signed_public_key(self.seed(), key@, expiry),
    {
        let message = encode_signing_message(&key, expiry);
        let signature = Signature(ed25519_sign(&self.seed, message.as_slice()));
        SignedPublicKey { key, timestamp: expiry, signature }
    }
}

} // verus!
