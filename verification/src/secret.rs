//! The holder of the master secret and its lifecycle.

use vstd::prelude::*;
use crate::bytes::{same_bytes, MasterSecret};
use crate::keys::{InitResponse, InitResponseView, KeyManagerError};
use crate::primitives::{kmac256, kmac256_digest};

verus! {

/// Domain tag of the master secret's checksum: the ASCII bytes `EkKmChkS`.
pub const CHECKSUM_CONTEXT: [u8; 8] = [69, 107, 75, 109, 67, 104, 107, 83];

/// Domain tag under which a seed is expanded into a master secret: the ASCII
/// bytes `EkKmSeed`.
pub const SECRET_SEED_CONTEXT: [u8; 8] = [69, 107, 75, 109, 83, 101, 101, 100];

/// The checksum of a master secret: KMAC256 keyed with the secret over the
/// empty input, under the checksum's domain tag. It fingerprints the secret
/// without being the secret.
pub open spec fn checksum_spec(secret: Seq<u8>) -> Seq<u8> {
    kmac256(secret, CHECKSUM_CONTEXT@, Seq::empty())
}

/// The master secret generated from a seed: KMAC256 keyed with the seed over
/// the empty input, under the seed's domain tag.
pub open spec fn secret_from_seed(seed: Seq<u8>) -> Seq<u8> {
    kmac256(seed, SECRET_SEED_CONTEXT@, Seq::empty())
}

/// Where the master secret comes from at initialization.
pub enum SecretSource {
    /// Entropy from which a fresh secret is generated.
    Seed([u8; 32]),
    /// A secret adopted from a trusted peer, stored as it is.
    Adopted(MasterSecret),
}

impl SecretSource {
    /// The bytes of the master secret that this source yields.
    pub open spec fn secret(&self) -> Seq<u8> {
        match self {
            SecretSource::Seed(seed) => secret_from_seed(seed@),
            SecretSource::Adopted(secret) => secret@,
        }
    }

    /// Turns the source into the master secret it yields.
    pub fn into_secret(self) -> (secret: MasterSecret)
        ensures
            secret@ == self.secret(),
    {
        match self {
            SecretSource::Seed(seed) => {
                let empty: Vec<u8> = Vec::new();
                MasterSecret::from_bytes(
                    kmac256_digest(&seed, &SECRET_SEED_CONTEXT, empty.as_slice()),
                )
            },
            SecretSource::Adopted(secret) => secret,
        }
    }
}

/// Computes the checksum of a master secret.
pub fn checksum(secret: &MasterSecret) -> (sum: Vec<u8>)
    ensures
        sum@ == checksum_spec(secret@),
{
    let empty: Vec<u8> = Vec::new();
    let digest = kmac256_digest(secret.expose(), &CHECKSUM_CONTEXT, empty.as_slice());
    let mut sum: Vec<u8> = Vec::new();
    sum.extend_from_slice(digest.as_slice());
    sum
}

/// The holder's state after an attempt to initialize it with `secret`: a
/// holder that has a secret keeps it, an empty one takes the new secret.
pub open spec fn state_after_initialize(before: Option<Seq<u8>>, secret: Seq<u8>) -> Option<
    Seq<u8>,
> {
    match before {
        Some(stored) => Some(stored),
        None => Some(secret),
    }
}

/// What an attempt to initialize a holder in state `before` with `secret`
/// answers: a refusal if the holder has a secret, else the response with the
/// new secret's checksum.
pub open spec fn initialize_outcome(
    before: Option<Seq<u8>>,
    secret: Seq<u8>,
    is_secure: bool,
) -> Result<InitResponseView, KeyManagerError> {
    match before {
        Some(_) => Err(KeyManagerError::AlreadyInitialized),
        None => Ok(InitResponseView { is_secure, checksum: checksum_spec(secret) }),
    }
}

/// An initialization result with the response replaced by its view.
pub open spec fn outcome_view(result: Result<InitResponse, KeyManagerError>) -> Result<
    InitResponseView,
    KeyManagerError,
> {
    match result {
        Ok(response) => Ok(response@),
        Err(e) => Err(e),
    }
}

/// Owner of the master secret. It is either uninitialized or holds one
/// secret, and it moves from the first state to the second exactly once.
///
/// The holder views as the bytes of the secret it holds, if any.
pub struct MasterSecretHolder {
    secret: Option<MasterSecret>,
}

impl View for MasterSecretHolder {
    type V = Option<Seq<u8>>;

    closed spec fn view(&self) -> Option<Seq<u8>> {
        match self.secret {
            Some(secret) => Some(secret@),
            None => None,
        }
    }
}

impl MasterSecretHolder {
    /// An uninitialized holder.
    pub fn new() -> (holder: Self)
        ensures
            holder@ is None,
    {
        MasterSecretHolder { secret: None }
    }

    /// Whether the holder has a secret.
    pub fn is_initialized(&self) -> (initialized: bool)
        ensures
            initialized == (self@ is Some),
    {
        self.secret.is_some()
    }

    /// Initializes the holder from `source` and answers with the checksum of
    /// the secret now held and with `is_secure`, the execution environment's
    /// attestation signal. A holder that already has a secret refuses and
    /// keeps it.
    pub fn initialize(&mut self, source: SecretSource, is_secure: bool) -> (result: Result<
        InitResponse,
        KeyManagerError,
    >)
        ensures
            final(self)@ == state_after_initialize(old(self)@, source.secret()),
            outcome_view(result) == initialize_outcome(old(self)@, source.secret(), is_secure),
    {
        if self.secret.is_some() {
            return Err(KeyManagerError::AlreadyInitialized);
        }
        let secret = source.into_secret();
        let response = InitResponse { is_secure, checksum: checksum(&secret) };
        self.secret = Some(secret);
        Ok(response)
    }

    /// The checksum of the secret held, if any.
    pub fn checksum(&self) -> (result: Result<Vec<u8>, KeyManagerError>)
        ensures
            match result {
                Ok(sum) => self@ is Some && sum@ == checksum_spec(self@->0),
                Err(e) => self@ is None && e == KeyManagerError::NotInitialized,
            },
    {
        match &self.secret {
            Some(secret) => Ok(checksum(secret)),
            None => Err(KeyManagerError::NotInitialized),
        }
    }

    /// Whether `peer_checksum` is the checksum of the secret held. An
    /// instance that adopted its secret from a peer, or handed it to one,
    /// finds out with this whether both hold the same secret.
    pub fn matches_checksum(&self, peer_checksum: &[u8]) -> (result: Result<bool, KeyManagerError>)
        ensures
            match result {
                Ok(same) => self@ is Some && same == (peer_checksum@ == checksum_spec(self@->0)),
                Err(e) => self@ is None && e == KeyManagerError::NotInitialized,
            },
    {
        match &self.secret {
            Some(secret) => {
                let own = checksum(secret);
                Ok(same_bytes(own.as_slice(), peer_checksum))
            },
            None => Err(KeyManagerError::NotInitialized),
        }
    }

    /// Runs `f` on the secret and returns what it returns. This is the only
    /// way to reach the secret from outside: it is lent for the duration of
    /// the call and never handed out. An uninitialized holder does not run
    /// `f`.
    pub fn with_secret<R, F: FnOnce(&MasterSecret) -> R>(&self, f: F) -> (result: Result<
        R,
        KeyManagerError,
    >)
        requires
            forall|secret: MasterSecret|
                self@ == Some(secret@) ==> #[trigger] call_requires(f, (&secret,)),
        ensures
            result is Ok <==> self@ is Some,
            result matches Ok(value) ==> exists|secret: MasterSecret|
                self@ == Some(secret@) && #[trigger] call_ensures(f, (&secret,), value),
            result matches Err(e) ==> e == KeyManagerError::NotInitialized,
    {
        match &self.secret {
            Some(secret) => {
                let result = Ok(f(secret));
                proof {
                    let held: MasterSecret = *secret;
                    assert(self@ == Some(held@) && call_ensures(f, (&held,), result->Ok_0));
                }
                result
            },
            None => Err(KeyManagerError::NotInitialized),
        }
    }

    /// Initialization happens once: after any attempt the holder has a
    /// secret, and a further attempt is refused and changes nothing, so the
    /// secret and its checksum stay those of the first.
    pub proof fn lemma_initialize_once(
        before: Option<Seq<u8>>,
        first: Seq<u8>,
        second: Seq<u8>,
        is_secure: bool,
    )
        ensures
            ({
                let held = state_after_initialize(before, first);
                &&& held is Some
                &&& before is None ==> held == Some(first)
                &&& initialize_outcome(held, second, is_secure) == Err::<
                    InitResponseView,
                    KeyManagerError,
                >(KeyManagerError::AlreadyInitialized)
                &&& state_after_initialize(held, second) == held
            }),
    {
    }
}

} // verus!
