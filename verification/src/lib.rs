//! Key manager core: derives, caches and signs per-contract key material
//! from a single confidential master secret.
//!
//! Every executable item carries a contract stated over byte sequences and
//! maps; the cryptographic primitives are the only trusted parts and live in
//! [`primitives`].

pub mod auth;
pub mod bytes;
pub mod cache;
pub mod kdf;
pub mod keys;
pub mod manager;
pub mod primitives;
pub mod secret;
pub mod signing;

pub use auth::CallerClass;
pub use bytes::{ContractId, MasterSecret, PrivateKey, PublicKey, RuntimeId, Signature, StateKey};
pub use cache::ContractKeyCache;
pub use keys::{
    ContractKey, InitRequest, InitResponse, InputKeyPair, KeyManagerError, RequestIds,
    SignedPublicKey, PUBLIC_KEY_CONTEXT,
};
pub use manager::KeyManager;
pub use secret::{MasterSecretHolder, SecretSource};
pub use signing::SigningService;
