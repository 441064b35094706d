//! The key manager: the operations that callers reach, each gated by the
//! caller's class and by the master secret's lifecycle.

use vstd::prelude::*;
use crate::cache::{derivations_after, lookup_or_derive, memoizes, ContractKeyCache};
use crate::auth::CallerClass;
use crate::keys::{
    ContractKey, ContractKeyView, InitRequest, InitResponse, InitResponseView, KeyManagerError,
    RequestIds, SignedPublicKey, SignedPublicKeyView,
};
use crate::primitives::random_bytes;
use crate::secret::{
    checksum_spec, initialize_outcome, outcome_view, state_after_initialize, MasterSecretHolder,
    SecretSource,
};
use crate::signing::{signed_public_key, SigningService};

verus! {

/// The key manager's state.
pub struct KeyManagerView {
    /// The master secret, once initialized.
    pub secret: Option<Seq<u8>>,
    /// The cached bundles, by encoded identity.
    pub cache: Map<Seq<u8>, ContractKeyView>,
    /// How many bundles have been derived.
    pub derivations: u64,
    /// The seed of the signing key, if one was provisioned.
    pub signing_seed: Option<Seq<u8>>,
    /// Whether the execution environment attests a secure mode.
    pub is_secure: bool,
}

impl KeyManagerView {
    /// The cache holds nothing that the master secret does not yield, and
    /// nothing at all before initialization. Every key manager is in such a
    /// state.
    pub open spec fn well_formed(self) -> bool {
        match self.secret {
            Some(secret) => memoizes(self.cache, secret),
            None => self.cache == Map::<Seq<u8>, ContractKeyView>::empty(),
        }
    }
}

/// What a request for the key bundle of `identity` is answered with.
/// `allowed` says whether the caller's class suffices for the operation.
pub open spec fn keys_outcome(state: KeyManagerView, allowed: bool, identity: Seq<u8>) -> Result<
    ContractKeyView,
    KeyManagerError,
> {
    if !allowed {
        Err(KeyManagerError::NotAuthenticated)
    } else {
        match state.secret {
            None => Err(KeyManagerError::NotInitialized),
            Some(secret) => Ok(lookup_or_derive(state.cache, secret, identity)),
        }
    }
}

/// The state after the key bundle of `identity` was looked up or derived.
pub open spec fn state_after_lookup(state: KeyManagerView, identity: Seq<u8>) -> KeyManagerView {
    match state.secret {
        None => state,
        Some(secret) => KeyManagerView {
            cache: state.cache.insert(identity, lookup_or_derive(state.cache, secret, identity)),
            derivations: derivations_after(state.cache, identity, state.derivations),
            ..state
        },
    }
}

/// The state after a request for the key bundle of `identity`: a rejected
/// request changes nothing.
pub open spec fn state_after_keys_request(
    state: KeyManagerView,
    caller: CallerClass,
    identity: Seq<u8>,
) -> KeyManagerView {
    if caller.may_read_private() {
        state_after_lookup(state, identity)
    } else {
        state
    }
}

/// The unprivileged response for a key bundle: its public key, signed, or
/// nothing where no signing key is provisioned. Of the bundle only the
/// public key enters.
pub open spec fn public_response(
    signing_seed: Option<Seq<u8>>,
    key: ContractKeyView,
    timestamp: Option<u64>,
) -> Option<SignedPublicKeyView> {
    match signing_seed {
        Some(seed) => Some(signed_public_key(seed, key.input_keypair.pk, timestamp)),
        None => None,
    }
}

/// What a request for the signed public key of `identity` is answered with.
pub open spec fn public_key_outcome(
    state: KeyManagerView,
    caller: CallerClass,
    identity: Seq<u8>,
    timestamp: Option<u64>,
) -> Result<Option<SignedPublicKeyView>, KeyManagerError> {
    match keys_outcome(state, caller.may_read_public(), identity) {
        Err(e) => Err(e),
        Ok(key) => Ok(public_response(state.signing_seed, key, timestamp)),
    }
}

/// The state after a request for the signed public key of `identity`:
/// nothing is derived for a rejected request, nor where nothing can be
/// signed.
pub open spec fn state_after_public_key_request(
    state: KeyManagerView,
    caller: CallerClass,
    identity: Seq<u8>,
) -> KeyManagerView {
    if caller.may_read_public() && state.signing_seed is Some {
        state_after_lookup(state, identity)
    } else {
        state
    }
}

/// The state after the cached bundle of `identity` was invalidated.
pub open spec fn state_after_invalidate(state: KeyManagerView, identity: Seq<u8>) -> KeyManagerView {
    KeyManagerView { cache: state.cache.remove(identity), ..state }
}

/// Cache correctness: a request for a bundle, then the invalidation of its
/// identity, then the request again yields the bundle of the first request.
pub proof fn lemma_rederive_after_invalidate(
    state: KeyManagerView,
    caller: CallerClass,
    identity: Seq<u8>,
)
    requires
        state.well_formed(),
    ensures
        ({
            let requested = state_after_keys_request(state, caller, identity);
            let invalidated = state_after_invalidate(requested, identity);
            &&& invalidated.well_formed()
            &&& keys_outcome(invalidated, caller.may_read_private(), identity) == keys_outcome(
                state,
                caller.may_read_private(),
                identity,
            )
        }),
{
    if state.secret is Some {
        ContractKeyCache::lemma_memoization_kept(state.cache, state.secret->0, identity);
        let requested = state_after_keys_request(state, caller, identity);
        ContractKeyCache::lemma_memoization_kept(requested.cache, state.secret->0, identity);
    } else {
        assert(state.cache.remove(identity) =~= state.cache);
    }
}

/// Lifecycle: before initialization every operation that needs a key fails
/// with `NotInitialized` for each caller whose class suffices, whether or not
/// a signing key is provisioned, and it changes nothing.
pub proof fn lemma_uninitialized_refused(
    state: KeyManagerView,
    caller: CallerClass,
    identity: Seq<u8>,
    timestamp: Option<u64>,
)
    requires
        state.secret is None,
    ensures
        caller.may_read_private() ==> keys_outcome(state, caller.may_read_private(), identity)
            == Err::<ContractKeyView, KeyManagerError>(KeyManagerError::NotInitialized),
        caller.may_read_public() ==> public_key_outcome(state, caller, identity, timestamp) == Err::<
            Option<SignedPublicKeyView>,
            KeyManagerError,
        >(KeyManagerError::NotInitialized),
        state_after_keys_request(state, caller, identity) == state,
        state_after_public_key_request(state, caller, identity) == state,
{
}

/// Authentication comes first: a caller whose class does not suffice is
/// answered `NotAuthenticated` in every state, and the state stays as it is.
/// An unprivileged caller is never handed a key bundle.
pub proof fn lemma_unauthenticated_refused(
    state: KeyManagerView,
    caller: CallerClass,
    identity: Seq<u8>,
    timestamp: Option<u64>,
)
    ensures
        caller != CallerClass::Privileged ==> {
            &&& keys_outcome(state, caller.may_read_private(), identity) == Err::<
                ContractKeyView,
                KeyManagerError,
            >(KeyManagerError::NotAuthenticated)
            &&& state_after_keys_request(state, caller, identity) == state
        },
        caller == CallerClass::Denied ==> {
            &&& public_key_outcome(state, caller, identity, timestamp) == Err::<
                Option<SignedPublicKeyView>,
                KeyManagerError,
            >(KeyManagerError::NotAuthenticated)
            &&& state_after_public_key_request(state, caller, identity) == state
        },
{
}

/// Privilege boundary: of a key bundle only the public key reaches an
/// unprivileged response. Two bundles with the same public key give the
/// same response, whatever their private keys and state keys are.
pub proof fn lemma_public_response_ignores_private_parts(
    signing_seed: Option<Seq<u8>>,
    key1: ContractKeyView,
    key2: ContractKeyView,
    timestamp: Option<u64>,
)
    requires
        key1.input_keypair.pk == key2.input_keypair.pk,
    ensures
        public_response(signing_seed, key1, timestamp) == public_response(
            signing_seed,
            key2,
            timestamp,
        ),
{
}

/// Long-term and short-term keys: a short-term response carries the expiry
/// it was asked with, a long-term response carries none, and both carry the
/// same public key. The two operations differ in nothing else: they fail on
/// the same requests with the same error, and answer nothing on the same
/// requests.
pub proof fn lemma_timestamps(
    state: KeyManagerView,
    caller: CallerClass,
    identity: Seq<u8>,
    expiry: u64,
)
    ensures
        match (
            public_key_outcome(state, caller, identity, Some(expiry)),
            public_key_outcome(state, caller, identity, None),
        ) {
            (Ok(Some(short_term)), Ok(Some(long_term))) => {
                &&& short_term.timestamp == Some(expiry)
                &&& long_term.timestamp is None
                &&& short_term.key == long_term.key
            },
            (Ok(None), Ok(None)) => true,
            (Err(e1), Err(e2)) => e1 == e2,
            _ => false,
        },
{
}

/// A key request's result with the bundle replaced by its view.
pub open spec fn keys_result_view(result: Result<ContractKey, KeyManagerError>) -> Result<
    ContractKeyView,
    KeyManagerError,
> {
    match result {
        Ok(key) => Ok(key@),
        Err(e) => Err(e),
    }
}

/// A public key request's result with the signed key replaced by its view.
pub open spec fn public_key_result_view(
    result: Result<Option<SignedPublicKey>, KeyManagerError>,
) -> Result<Option<SignedPublicKeyView>, KeyManagerError> {
    match result {
        Ok(Some(signed)) => Ok(Some(signed@)),
        Ok(None) => Ok(None),
        Err(e) => Err(e),
    }
}

/// The key manager.
pub struct KeyManager {
    holder: MasterSecretHolder,
    cache: ContractKeyCache,
    signer: Option<SigningService>,
    is_secure: bool,
}

impl View for KeyManager {
    type V = KeyManagerView;

    closed spec fn view(&self) -> KeyManagerView {
        KeyManagerView {
            secret: self.holder@,
            cache: self.cache@,
            derivations: self.cache.derivations(),
            signing_seed: match self.signer {
                Some(signer) => Some(signer.seed()),
                None => None,
            },
            is_secure: self.is_secure,
        }
    }
}

impl KeyManager {
    /// The cache holds nothing that the master secret does not yield, and
    /// nothing at all before initialization.
    #[verifier::type_invariant]
    spec fn cache_is_derived(self) -> bool {
        self@.well_formed()
    }

    /// An uninitialized key manager. `is_secure` is the execution
    /// environment's attestation signal; `signer` is the signing service, if
    /// a signing key was provisioned.
    pub fn new(is_secure: bool, signer: Option<SigningService>) -> (manager: Self)
        ensures
            manager@.well_formed(),
            manager@ == (KeyManagerView {
                secret: None,
                cache: Map::empty(),
                derivations: 0,
                signing_seed: match signer {
                    Some(service) => Some(service.seed()),
                    None => None,
                },
                is_secure,
            }),
    {
        KeyManager { holder: MasterSecretHolder::new(), cache: ContractKeyCache::new(), signer, is_secure }
    }

    /// Whether the master secret is in place.
    pub fn is_initialized(&self) -> (initialized: bool)
        ensures
            initialized == (self@.secret is Some),
    {
        self.holder.is_initialized()
    }

    /// How many bundles have been derived.
    pub fn derivation_count(&self) -> (count: u64)
        ensures
            count == self@.derivations,
    {
        self.cache.derivation_count()
    }

    /// Initializes the key manager with a master secret generated from
    /// fresh entropy of the operating system. A second initialization is
    /// refused and changes nothing.
    pub fn init(&mut self, _request: &InitRequest) -> (result: Result<InitResponse, KeyManagerError>)
        ensures
            final(self)@.well_formed(),
            match old(self)@.secret {
                Some(_) => {
                    &&& final(self)@ == old(self)@
                    &&& result is Err
                    &&& result->Err_0 == KeyManagerError::AlreadyInitialized
                },
                None => {
                    &&& final(self)@.secret matches Some(secret)
                    &&& final(self)@ == (KeyManagerView { secret: Some(secret), ..old(self)@ })
                    &&& result matches Ok(response)
                    &&& response@ == (InitResponseView {
                        is_secure: old(self)@.is_secure,
                        checksum: checksum_spec(secret),
                    })
                },
            },
    {
        proof {
            use_type_invariant(&*self);
        }
        if self.holder.is_initialized() {
            return Err(KeyManagerError::AlreadyInitialized);
        }
        self.init_with(SecretSource::Seed(random_bytes()))
    }

    /// Initializes the key manager from `source`: with a secret generated
    /// from a seed, or with a secret adopted from a peer. A second
    /// initialization is refused and changes nothing.
    pub fn init_with(&mut self, source: SecretSource) -> (result: Result<InitResponse, KeyManagerError>)
        ensures
            final(self)@.well_formed(),
            final(self)@ == (KeyManagerView {
                secret: state_after_initialize(old(self)@.secret, source.secret()),
                ..old(self)@
            }),
            outcome_view(result) == initialize_outcome(
                old(self)@.secret,
                source.secret(),
                old(self)@.is_secure,
            ),
    {
        proof {
            use_type_invariant(&*self);
        }
        if self.holder.is_initialized() {
            return Err(KeyManagerError::AlreadyInitialized);
        }
        let mut holder = MasterSecretHolder::new();
        let result = holder.initialize(source, self.is_secure);
        self.holder = holder;
        result
    }

    /// Whether `peer_checksum` is the checksum of the master secret: whether
    /// the instance that answered its initialization with that checksum
    /// holds the same secret.
    pub fn matches_checksum(&self, peer_checksum: &[u8]) -> (result: Result<bool, KeyManagerError>)
        ensures
            match result {
                Ok(same) => self@.secret matches Some(secret) && same == (peer_checksum@
                    == checksum_spec(secret)),
                Err(e) => self@.secret is None && e == KeyManagerError::NotInitialized,
            },
    {
        self.holder.matches_checksum(peer_checksum)
    }

    /// The full key bundle of `ids`, for privileged callers only. The bundle
    /// is taken from the cache or derived and cached.
    pub fn get_or_create_keys(&mut self, caller: CallerClass, ids: &RequestIds) -> (result: Result<
        ContractKey,
        KeyManagerError,
    >)
        ensures
            final(self)@.well_formed(),
            final(self)@ == state_after_keys_request(old(self)@, caller, ids.cache_key()),
            keys_result_view(result) == keys_outcome(
                old(self)@,
                caller.may_read_private(),
                ids.cache_key(),
            ),
    {
        proof {
            use_type_invariant(&*self);
        }
        if !caller.may_read_private() {
            return Err(KeyManagerError::NotAuthenticated);
        }
        proof {
            if self.holder@ is Some {
                ContractKeyCache::lemma_memoization_kept(
                    self.cache@,
                    self.holder@->0,
                    ids.cache_key(),
                );
            }
        }
        let mut cache = ContractKeyCache::new();
        std::mem::swap(&mut cache, &mut self.cache);
        let result = cache.get_or_derive(&self.holder, ids);
        self.cache = cache;
        result
    }

    /// The public key of `ids`, signed with the expiry `expiry`, for any
    /// authenticated caller.
    pub fn get_public_key(&mut self, caller: CallerClass, ids: &RequestIds, expiry: u64) -> (result:
        Result<Option<SignedPublicKey>, KeyManagerError>)
        ensures
            final(self)@.well_formed(),
            final(self)@ == state_after_public_key_request(old(self)@, caller, ids.cache_key()),
            public_key_result_view(result) == public_key_outcome(
                old(self)@,
                caller,
                ids.cache_key(),
                Some(expiry),
            ),
    {
        self.signed_public_key(caller, ids, Some(expiry))
    }

    /// The public key of `ids`, signed without an expiry, for any
    /// authenticated caller.
    pub fn get_long_term_public_key(&mut self, caller: CallerClass, ids: &RequestIds) -> (result:
        Result<Option<SignedPublicKey>, KeyManagerError>)
        ensures
            final(self)@.well_formed(),
            final(self)@ == state_after_public_key_request(old(self)@, caller, ids.cache_key()),
            public_key_result_view(result) == public_key_outcome(
                old(self)@,
                caller,
                ids.cache_key(),
                None,
            ),
    {
        self.signed_public_key(caller, ids, None)
    }

    /// The steps that both public key operations share: authentication,
    /// the lifecycle, the lookup or derivation, the signature.
    fn signed_public_key(&mut self, caller: CallerClass, ids: &RequestIds, timestamp: Option<u64>) -> (result:
        Result<Option<SignedPublicKey>, KeyManagerError>)
        ensures
            final(self)@.well_formed(),
            final(self)@ == state_after_public_key_request(old(self)@, caller, ids.cache_key()),
            public_key_result_view(result) == public_key_outcome(
                old(self)@,
                caller,
                ids.cache_key(),
                timestamp,
            ),
    {
        proof {
            use_type_invariant(&*self);
        }
        if !caller.may_read_public() {
            return Err(KeyManagerError::NotAuthenticated);
        }
        if !self.holder.is_initialized() {
            return Err(KeyManagerError::NotInitialized);
        }
        proof {
            ContractKeyCache::lemma_memoization_kept(self.cache@, self.holder@->0, ids.cache_key());
        }
        match &self.signer {
            None => Ok(None),
            Some(signer) => {
                let mut cache = ContractKeyCache::new();
                std::mem::swap(&mut cache, &mut self.cache);
                let derived = cache.get_or_derive(&self.holder, ids);
                self.cache = cache;
                match derived {
                    Ok(key) => Ok(
                        Some(signer.sign_public_key(key.input_keypair.get_pk(), timestamp)),
                    ),
                    Err(e) => Err(e),
                }
            },
        }
    }

    /// Forgets the cached bundle of `ids`; the next request derives it
    /// again.
    pub fn invalidate(&mut self, ids: &RequestIds)
        ensures
            final(self)@.well_formed(),
            final(self)@ == state_after_invalidate(old(self)@, ids.cache_key()),
    {
        proof {
            use_type_invariant(&*self);
            if self.holder@ is Some {
                ContractKeyCache::lemma_memoization_kept(
                    self.cache@,
                    self.holder@->0,
                    ids.cache_key(),
                );
            } else {
                assert(self.cache@.remove(ids.cache_key()) =~= self.cache@);
            }
        }
        let mut cache = ContractKeyCache::new();
        std::mem::swap(&mut cache, &mut self.cache);
        cache.invalidate(ids);
        self.cache = cache;
    }

    /// Forgets every cached bundle.
    pub fn clear_cache(&mut self)
        ensures
            final(self)@.well_formed(),
            final(self)@ == (KeyManagerView { cache: Map::empty(), ..old(self)@ }),
    {
        let mut cache = ContractKeyCache::new();
        std::mem::swap(&mut cache, &mut self.cache);
        cache.clear();
        self.cache = cache;
    }
}

} // verus!
