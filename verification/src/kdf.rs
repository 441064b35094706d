//! Key derivation: from the master secret and an identity to the identity's
//! key bundle.

use vstd::prelude::*;
use crate::bytes::{MasterSecret, PrivateKey, StateKey};
use crate::keys::{key_bundle, ContractKey, ContractKeyView, RequestIds};
use crate::primitives::{kmac256, kmac256_digest};

verus! {

/// Domain tag of state key derivation: the ASCII bytes `EkKmStaK`.
pub const STATE_KEY_CONTEXT: [u8; 8] = [69, 107, 75, 109, 83, 116, 97, 75];

/// Domain tag of input key pair derivation: the ASCII bytes `EkKmInpK`.
pub const INPUT_KEYPAIR_CONTEXT: [u8; 8] = [69, 107, 75, 109, 73, 110, 112, 75];

/// The key bundle of the identity encoded as `identity` under the master
/// secret `secret`.
///
/// The private scalar and the state key are two KMAC256 outputs keyed with
/// the secret over the identity's encoding, each under its own domain tag;
/// the public key is the X25519 public key of the private scalar.
pub open spec fn derive_spec(secret: Seq<u8>, identity: Seq<u8>) -> ContractKeyView {
    key_bundle(
        kmac256(secret, INPUT_KEYPAIR_CONTEXT@, identity),
        kmac256(secret, STATE_KEY_CONTEXT@, identity),
    )
}

/// Derives the key bundle of `id` from the master secret.
pub fn derive(secret: &MasterSecret, id: &RequestIds) -> (key: ContractKey)
    ensures
        key@ == derive_spec(secret@, id.cache_key()),
{
    let identity = id.to_cache_key();
    let scalar = kmac256_digest(secret.expose(), &INPUT_KEYPAIR_CONTEXT, identity.as_slice());
    let state_key = kmac256_digest(secret.expose(), &STATE_KEY_CONTEXT, identity.as_slice());
    ContractKey::from_private_key(PrivateKey(scalar), StateKey(state_key))
}

/// Determinism: whatever `derive` returns for two master secrets that hold
/// the same bytes and for the same identity is the same bundle, byte for
/// byte.
pub proof fn lemma_derive_deterministic(
    secret1: MasterSecret,
    secret2: MasterSecret,
    id: RequestIds,
    key1: ContractKey,
    key2: ContractKey,
)
    requires
        secret1@ == secret2@,
        key1@ == derive_spec(secret1@, id.cache_key()),
        key2@ == derive_spec(secret2@, id.cache_key()),
    ensures
        key1 == key2,
{
    ContractKey::lemma_view_injective(key1, key2);
}

/// Domain separation: the state key and the private scalar are derived
/// under different domain tags, and distinct identities are derived from
/// different inputs.
pub proof fn lemma_derivation_inputs_distinct(a: RequestIds, b: RequestIds)
    ensures
        STATE_KEY_CONTEXT@ != INPUT_KEYPAIR_CONTEXT@,
        a != b ==> a.cache_key() != b.cache_key(),
{
    assert(STATE_KEY_CONTEXT@[4] != INPUT_KEYPAIR_CONTEXT@[4]);
    RequestIds::lemma_cache_key_injective(a, b);
}

} // verus!
