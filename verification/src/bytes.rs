//! Fixed-length byte values: identifiers, keys and signatures.
//!
//! Each type wraps a byte array and views as the sequence of its bytes.
//! Equality is bytewise.

use vstd::prelude::*;

verus! {

/// The sequence of `n` zero bytes.
pub open spec fn zeros(n: nat) -> Seq<u8> {
    Seq::new(n, |i: int| 0u8)
}

/// Whether two byte strings hold the same bytes.
pub(crate) fn same_bytes(a: &[u8], b: &[u8]) -> (same: bool)
    ensures
        same == (a@ == b@),
{
    if a.len() != b.len() {
        return false;
    }
    let mut i: usize = 0;
    while i < a.len()
        invariant
            a@.len() == b@.len(),
            i <= a@.len(),
            forall|j: int| 0 <= j < i ==> a@[j] == b@[j],
        decreases a@.len() - i,
    {
        if a[i] != b[i] {
            return false;
        }
        i += 1;
    }
    assert(a@ =~= b@);
    true
}

/// A 256-bit runtime identifier.
#[derive(Clone, Copy, Debug, PartialEq, Eq, Hash)]
pub struct RuntimeId(pub [u8; 32]);

impl View for RuntimeId {
    type V = Seq<u8>;

    open spec fn view(&self) -> Seq<u8> {
        self.0@
    }
}

impl Default for RuntimeId {
    fn default() -> (id: Self)
        ensures
            id@ == zeros(32),
    {
        let id = RuntimeId([0u8; 32]);
        assert(id@ =~= zeros(32));
        id
    }
}

/// A 256-bit contract identifier.
#[derive(Clone, Copy, Debug, PartialEq, Eq, Hash)]
pub struct ContractId(pub [u8; 32]);

impl View for ContractId {
    type V = Seq<u8>;

    open spec fn view(&self) -> Seq<u8> {
        self.0@
    }
}

impl Default for ContractId {
    fn default() -> (id: Self)
        ensures
            id@ == zeros(32),
    {
        let id = ContractId([0u8; 32]);
        assert(id@ =~= zeros(32));
        id
    }
}

/// A public key.
#[derive(Clone, Copy, Debug, PartialEq, Eq, Hash)]
pub struct PublicKey(pub [u8; 32]);

impl View for PublicKey {
    type V = Seq<u8>;

    open spec fn view(&self) -> Seq<u8> {
        self.0@
    }
}

impl Default for PublicKey {
    fn default() -> (key: Self)
        ensures
            key@ == zeros(32),
    {
        let key = PublicKey([0u8; 32]);
        assert(key@ =~= zeros(32));
        key
    }
}

/// A private key. Sensitive: it never appears in an unprivileged response.
#[derive(Clone, Copy, Debug, PartialEq, Eq, Hash)]
pub struct PrivateKey(pub [u8; 32]);

impl View for PrivateKey {
    type V = Seq<u8>;

    open spec fn view(&self) -> Seq<u8> {
        self.0@
    }
}

impl Default for PrivateKey {
    fn default() -> (key: Self)
        ensures
            key@ == zeros(32),
    {
        let key = PrivateKey([0u8; 32]);
        assert(key@ =~= zeros(32));
        key
    }
}

/// A symmetric key that encrypts a contract's persistent state. As sensitive
/// as a private key.
#[derive(Clone, Copy, Debug, PartialEq, Eq, Hash)]
pub struct StateKey(pub [u8; 32]);

impl View for StateKey {
    type V = Seq<u8>;

    open spec fn view(&self) -> Seq<u8> {
        self.0@
    }
}

impl Default for StateKey {
    fn default() -> (key: Self)
        ensures
            key@ == zeros(32),
    {
        let key = StateKey([0u8; 32]);
        assert(key@ =~= zeros(32));
        key
    }
}

/// A 512-bit signature.
#[derive(Clone, Copy, Debug, PartialEq, Eq, Hash)]
pub struct Signature(pub [u8; 64]);

impl View for Signature {
    type V = Seq<u8>;

    open spec fn view(&self) -> Seq<u8> {
        self.0@
    }
}

impl Default for Signature {
    fn default() -> (signature: Self)
        ensures
            signature@ == zeros(64),
    {
        let signature = Signature([0u8; 64]);
        assert(signature@ =~= zeros(64));
        signature
    }
}

/// A 256-bit master secret, the root of every derived key.
///
/// The bytes cannot be read back or copied by code outside this crate, and
/// they are overwritten with zeros when the value is dropped.
pub struct MasterSecret(pub(crate) [u8; 32]);

impl View for MasterSecret {
    type V = Seq<u8>;

    closed spec fn view(&self) -> Seq<u8> {
        self.0@
    }
}

impl MasterSecret {
    /// Wraps 32 bytes as a master secret.
    pub fn from_bytes(bytes: [u8; 32]) -> (secret: Self)
        ensures
            secret@ == bytes@,
    {
        MasterSecret(bytes)
    }

    /// The secret's bytes, for the derivations inside this crate.
    pub(crate) fn expose(&self) -> (bytes: &[u8; 32])
        ensures
            bytes@ == self@,
    {
        &self.0
    }
}

impl Drop for MasterSecret {
    /// Overwrites the secret with zeros.
    fn drop(&mut self)
        ensures
            final(self)@ == zeros(32),
        opens_invariants none
        no_unwind
    {
        self.0 = [
            0, 0, 0, 0, 0, 0, 0, 0, 0, 0, 0, 0, 0, 0, 0, 0,
            0, 0, 0, 0, 0, 0, 0, 0, 0, 0, 0, 0, 0, 0, 0, 0,
        ];
        assert(self@ =~= zeros(32));
    }
}

} // verus!
