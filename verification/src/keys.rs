//! Requests, responses and key bundles exchanged with the key manager.

use vstd::prelude::*;
use crate::bytes::{zeros, ContractId, PrivateKey, PublicKey, RuntimeId, Signature, StateKey};
use crate::primitives::{random_bytes, x25519_public, x25519_public_key, x25519_random_scalar};

verus! {

/// Context used for the public key signature: the ASCII bytes `EkKmPubK`.
pub const PUBLIC_KEY_CONTEXT: [u8; 8] = [69, 107, 75, 109, 80, 117, 98, 75];

/// Key manager initialization request. It carries nothing yet.
#[derive(Clone, Debug, Default, PartialEq, Eq)]
pub struct InitRequest {}

/// What an [`InitResponse`] holds, the checksum as a byte sequence.
pub struct InitResponseView {
    pub is_secure: bool,
    pub checksum: Seq<u8>,
}

/// Key manager initialization response.
#[derive(Clone, Debug, PartialEq, Eq)]
pub struct InitResponse {
    /// True iff the key manager thinks it's running in a secure mode.
    pub is_secure: bool,
    /// Checksum for validating replication: a fingerprint of the master
    /// secret that does not reveal it.
    pub checksum: Vec<u8>,
}

impl View for InitResponse {
    type V = InitResponseView;

    open spec fn view(&self) -> InitResponseView {
        InitResponseView { is_secure: self.is_secure, checksum: self.checksum@ }
    }
}

/// Request runtime/contract id tuple: the identity that key material
/// belongs to.
#[derive(Clone, Copy, Debug, PartialEq, Eq, Hash)]
pub struct RequestIds {
    /// Runtime ID.
    pub runtime_id: RuntimeId,
    /// Contract ID.
    pub contract_id: ContractId,
}

impl RequestIds {
    /// The canonical encoding of the identity: the runtime id's bytes
    /// followed by the contract id's bytes.
    pub open spec fn cache_key(&self) -> Seq<u8> {
        self.runtime_id@ + self.contract_id@
    }

    /// The identity of the contract `contract_id` under the runtime
    /// `runtime_id`.
    pub fn new(runtime_id: RuntimeId, contract_id: ContractId) -> (ids: Self)
        ensures
            ids.runtime_id == runtime_id,
            ids.contract_id == contract_id,
    {
        Self { runtime_id, contract_id }
    }

    /// Encodes the identity as the 64 bytes under which its keys are cached.
    pub fn to_cache_key(&self) -> (key: Vec<u8>)
        ensures
            key@ == self.cache_key(),
            key@.len() == 64,
    {
        let mut key: Vec<u8> = Vec::new();
        key.extend_from_slice(self.runtime_id.0.as_slice());
        key.extend_from_slice(self.contract_id.0.as_slice());
        key
    }

    /// Two identities are equal exactly when their canonical encodings are:
    /// no two distinct identities share a cache key.
    pub proof fn lemma_cache_key_injective(a: RequestIds, b: RequestIds)
        ensures
            a.cache_key().len() == 64,
            a.cache_key() == b.cache_key() <==> a == b,
    {
        if a.cache_key() == b.cache_key() {
            assert(a.runtime_id@ =~= a.cache_key().subrange(0, 32));
            assert(b.runtime_id@ =~= b.cache_key().subrange(0, 32));
            assert(a.contract_id@ =~= a.cache_key().subrange(32, 64));
            assert(b.contract_id@ =~= b.cache_key().subrange(32, 64));
            assert(a.runtime_id.0 == b.runtime_id.0);
            assert(a.contract_id.0 == b.contract_id.0);
        }
    }
}

/// What an [`InputKeyPair`] holds, as byte sequences.
pub struct InputKeyPairView {
    pub pk: Seq<u8>,
    pub sk: Seq<u8>,
}

/// An asymmetric key pair: a public key and its private key.
#[derive(Clone, Copy, Debug, PartialEq, Eq)]
pub struct InputKeyPair {
    /// Pk
    pk: PublicKey,
    /// sk
    sk: PrivateKey,
}

impl View for InputKeyPair {
    type V = InputKeyPairView;

    closed spec fn view(&self) -> InputKeyPairView {
        InputKeyPairView { pk: self.pk@, sk: self.sk@ }
    }
}

impl InputKeyPair {
    /// The pair of `pk` and `sk`.
    pub fn new(pk: PublicKey, sk: PrivateKey) -> (pair: Self)
        ensures
            pair@ == (InputKeyPairView { pk: pk@, sk: sk@ }),
    {
        Self { pk, sk }
    }

    /// The public key.
    pub fn get_pk(&self) -> (pk: PublicKey)
        ensures
            pk@ == self@.pk,
    {
        self.pk
    }

    /// The private key.
    pub fn get_sk(&self) -> (sk: PrivateKey)
        ensures
            sk@ == self@.sk,
    {
        self.sk
    }

    /// Both halves are 32 bytes long, and pairs that hold the same bytes
    /// are the same pair.
    pub proof fn lemma_view(a: InputKeyPair, b: InputKeyPair)
        ensures
            a@.pk.len() == 32,
            a@.sk.len() == 32,
            a@ == b@ <==> a == b,
    {
        if a@ == b@ {
            assert(a.pk.0 == b.pk.0);
            assert(a.sk.0 == b.sk.0);
        }
    }
}

/// What a [`ContractKey`] holds, as byte sequences.
pub struct ContractKeyView {
    pub input_keypair: InputKeyPairView,
    pub state_key: Seq<u8>,
}

/// Keys for a contract: the full, privileged bundle for one identity.
#[derive(Clone, Copy, Debug, PartialEq, Eq)]
pub struct ContractKey {
    /// Input key pair (pk, sk)
    pub input_keypair: InputKeyPair,
    /// State encryption key
    pub state_key: StateKey,
}

impl View for ContractKey {
    type V = ContractKeyView;

    open spec fn view(&self) -> ContractKeyView {
        ContractKeyView { input_keypair: self.input_keypair@, state_key: self.state_key@ }
    }
}

/// The bundle whose private key is `sk`, whose public key is the X25519
/// public key of `sk`, and whose state key is `state_key`.
pub open spec fn key_bundle(sk: Seq<u8>, state_key: Seq<u8>) -> ContractKeyView {
    ContractKeyView {
        input_keypair: InputKeyPairView { pk: x25519_public_key(sk), sk },
        state_key,
    }
}

impl ContractKey {
    /// Generate a new random key (for testing). The private key and the
    /// state key are drawn from the operating system's generator; the public
    /// key is the one that belongs to the private key.
    pub fn generate_mock() -> (key: Self)
        ensures
            key@ == key_bundle(key@.input_keypair.sk, key@.state_key),
    {
        let sk = PrivateKey(x25519_random_scalar());
        let state_key = StateKey(random_bytes());
        ContractKey::from_private_key(sk, state_key)
    }

    /// Create a set of `ContractKey` from a private key and a state key,
    /// computing the public key that belongs to the private key.
    pub fn from_private_key(sk: PrivateKey, k: StateKey) -> (key: Self)
        ensures
            key@ == key_bundle(sk@, k@),
    {
        let pk = PublicKey(x25519_public(&sk.0));
        ContractKey::new(pk, sk, k)
    }

    /// Create a set of `ContractKey`.
    pub fn new(pk: PublicKey, sk: PrivateKey, k: StateKey) -> (key: Self)
        ensures
            key@ == (ContractKeyView {
                input_keypair: InputKeyPairView { pk: pk@, sk: sk@ },
                state_key: k@,
            }),
    {
        Self { input_keypair: InputKeyPair::new(pk, sk), state_key: k }
    }

    /// Create a set of `ContractKey` with only the public key. The private
    /// key and the state key are all zeros.
    pub fn from_public_key(k: PublicKey) -> (key: Self)
        ensures
            key@ == (ContractKeyView {
                input_keypair: InputKeyPairView { pk: k@, sk: zeros(32) },
                state_key: zeros(32),
            }),
    {
        Self {
            input_keypair: InputKeyPair::new(k, PrivateKey::default()),
            state_key: StateKey::default(),
        }
    }

    /// Bundles that hold the same bytes are the same bundle.
    pub proof fn lemma_view_injective(a: ContractKey, b: ContractKey)
        ensures
            a@ == b@ <==> a == b,
    {
        InputKeyPair::lemma_view(a.input_keypair, b.input_keypair);
        if a@ == b@ {
            assert(a.state_key.0 == b.state_key.0);
        }
    }
}

/// What a [`SignedPublicKey`] holds, the key and the signature as byte
/// sequences.
pub struct SignedPublicKeyView {
    pub key: Seq<u8>,
    pub timestamp: Option<u64>,
    pub signature: Seq<u8>,
}

/// Signed public key: the shareable artifact that unprivileged callers
/// receive in place of key material.
#[derive(Clone, Copy, Debug, PartialEq, Eq)]
pub struct SignedPublicKey {
    /// Public key.
    pub key: PublicKey,
    /// Timestamp representing the expiry of the returned key.
    pub timestamp: Option<u64>,
    /// Signature of the key manager over the context, the key and the
    /// timestamp.
    pub signature: Signature,
}

impl View for SignedPublicKey {
    type V = SignedPublicKeyView;

    open spec fn view(&self) -> SignedPublicKeyView {
        SignedPublicKeyView {
            key: self.key@,
            timestamp: self.timestamp,
            signature: self.signature@,
        }
    }
}

/// Key manager error.
#[derive(Clone, Copy, Debug, PartialEq, Eq, Structural)]
pub enum KeyManagerError {
    /// The caller's authentication does not suffice for the operation.
    NotAuthenticated,
    /// A key operation was attempted before initialization.
    NotInitialized,
    /// Initialization was attempted a second time.
    AlreadyInitialized,
}

impl KeyManagerError {
    /// The text that describes the error.
    pub open spec fn description(&self) -> Seq<char> {
        match self {
            KeyManagerError::NotAuthenticated => "client session is not authenticated"@,
            KeyManagerError::NotInitialized => "key manager is not initialized"@,
            KeyManagerError::AlreadyInitialized => "key manager is already initialized"@,
        }
    }

    /// Renders the error as text.
    pub fn message(&self) -> (text: String)
        ensures
            text@ == self.description(),
    {
        match self {
            KeyManagerError::NotAuthenticated => "client session is not authenticated".to_owned(),
            KeyManagerError::NotInitialized => "key manager is not initialized".to_owned(),
            KeyManagerError::AlreadyInitialized => "key manager is already initialized".to_owned(),
        }
    }
}

} // verus!
