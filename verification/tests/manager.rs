use keymanager::secret::checksum;
use keymanager::{
    CallerClass, ContractId, InitRequest, KeyManager, KeyManagerError, MasterSecret, RequestIds,
    RuntimeId, SecretSource, SignedPublicKey, SigningService,
};

const SIGNING_SEED: [u8; 32] = [9u8; 32];

fn ids(runtime: u8, contract: u8) -> RequestIds {
    RequestIds::new(RuntimeId([runtime; 32]), ContractId([contract; 32]))
}

fn fresh() -> KeyManager {
    KeyManager::new(true, Some(SigningService::new(SIGNING_SEED)))
}

fn initialized(secret: u8) -> KeyManager {
    let mut manager = fresh();
    manager.init_with(SecretSource::Adopted(MasterSecret::from_bytes([secret; 32]))).unwrap();
    manager
}

fn verifies(message: &[u8], signed: &SignedPublicKey) -> bool {
    let verifying_key = ed25519_dalek::SigningKey::from_bytes(&SIGNING_SEED).verifying_key();
    let signature = ed25519_dalek::Signature::from_bytes(&signed.signature.0);
    verifying_key.verify_strict(message, &signature).is_ok()
}

fn holds(haystack: &[u8], needle: &[u8]) -> bool {
    haystack.windows(needle.len()).any(|window| window == needle)
}

#[test]
fn caller_classes() {
    assert!(CallerClass::Privileged.may_read_private());
    assert!(!CallerClass::Unprivileged.may_read_private());
    assert!(!CallerClass::Denied.may_read_private());
    assert!(CallerClass::Privileged.may_read_public());
    assert!(CallerClass::Unprivileged.may_read_public());
    assert!(!CallerClass::Denied.may_read_public());
}

#[test]
fn operations_before_init_fail_with_not_initialized() {
    let mut manager = fresh();
    assert!(!manager.is_initialized());
    assert_eq!(
        manager.get_or_create_keys(CallerClass::Privileged, &ids(1, 2)),
        Err(KeyManagerError::NotInitialized)
    );
    for caller in [CallerClass::Privileged, CallerClass::Unprivileged] {
        assert_eq!(
            manager.get_public_key(caller, &ids(1, 2), 100),
            Err(KeyManagerError::NotInitialized)
        );
        assert_eq!(
            manager.get_long_term_public_key(caller, &ids(1, 2)),
            Err(KeyManagerError::NotInitialized)
        );
    }
    assert_eq!(manager.derivation_count(), 0);
}

#[test]
fn operations_before_init_fail_without_a_signer_too() {
    let mut manager = KeyManager::new(true, None);
    assert_eq!(
        manager.get_public_key(CallerClass::Unprivileged, &ids(1, 2), 100),
        Err(KeyManagerError::NotInitialized)
    );
    assert_eq!(
        manager.get_long_term_public_key(CallerClass::Unprivileged, &ids(1, 2)),
        Err(KeyManagerError::NotInitialized)
    );
}

#[test]
fn init_answers_with_checksum_and_mode() {
    let mut manager = KeyManager::new(false, None);
    let response = manager
        .init_with(SecretSource::Adopted(MasterSecret::from_bytes([7u8; 32])))
        .unwrap();
    assert!(manager.is_initialized());
    assert!(!response.is_secure);
    assert_eq!(response.checksum, checksum(&MasterSecret::from_bytes([7u8; 32])));
    let secure = fresh()
        .init_with(SecretSource::Adopted(MasterSecret::from_bytes([7u8; 32])))
        .unwrap();
    assert!(secure.is_secure);
    assert_eq!(secure.checksum, response.checksum);
}

#[test]
fn init_twice_fails_and_keeps_the_first_secret() {
    let mut manager = fresh();
    manager.init_with(SecretSource::Adopted(MasterSecret::from_bytes([7u8; 32]))).unwrap();
    let before = manager.get_or_create_keys(CallerClass::Privileged, &ids(1, 2)).unwrap();
    assert_eq!(
        manager.init_with(SecretSource::Adopted(MasterSecret::from_bytes([8u8; 32]))),
        Err(KeyManagerError::AlreadyInitialized)
    );
    assert_eq!(
        manager.init_with(SecretSource::Seed([1u8; 32])),
        Err(KeyManagerError::AlreadyInitialized)
    );
    assert_eq!(manager.init(&InitRequest {}), Err(KeyManagerError::AlreadyInitialized));
    assert!(manager.is_initialized());
    manager.clear_cache();
    let after = manager.get_or_create_keys(CallerClass::Privileged, &ids(1, 2)).unwrap();
    assert_eq!(after, before);
    assert_eq!(after, keymanager::kdf::derive(&MasterSecret::from_bytes([7u8; 32]), &ids(1, 2)));
}

#[test]
fn init_draws_a_fresh_secret() {
    let mut a = fresh();
    let mut b = fresh();
    let ra = a.init(&InitRequest {}).unwrap();
    let rb = b.init(&InitRequest {}).unwrap();
    assert!(a.is_initialized());
    assert!(ra.is_secure);
    assert_eq!(ra.checksum.len(), 32);
    assert_ne!(ra.checksum, rb.checksum);
    let ka = a.get_or_create_keys(CallerClass::Privileged, &ids(1, 2)).unwrap();
    let kb = b.get_or_create_keys(CallerClass::Privileged, &ids(1, 2)).unwrap();
    assert_ne!(ka, kb);
    assert_eq!(a.init(&InitRequest {}), Err(KeyManagerError::AlreadyInitialized));
    assert_eq!(a.get_or_create_keys(CallerClass::Privileged, &ids(1, 2)), Ok(ka));
}

#[test]
fn get_or_create_keys_needs_a_privileged_caller() {
    let mut manager = initialized(7);
    for caller in [CallerClass::Unprivileged, CallerClass::Denied] {
        assert_eq!(
            manager.get_or_create_keys(caller, &ids(1, 2)),
            Err(KeyManagerError::NotAuthenticated)
        );
    }
    assert_eq!(manager.derivation_count(), 0);
    let mut uninitialized = fresh();
    for caller in [CallerClass::Unprivileged, CallerClass::Denied] {
        assert_eq!(
            uninitialized.get_or_create_keys(caller, &ids(1, 2)),
            Err(KeyManagerError::NotAuthenticated)
        );
    }
}

#[test]
fn public_key_operations_need_an_authenticated_caller() {
    let mut manager = initialized(7);
    assert_eq!(
        manager.get_public_key(CallerClass::Denied, &ids(1, 2), 100),
        Err(KeyManagerError::NotAuthenticated)
    );
    assert_eq!(
        manager.get_long_term_public_key(CallerClass::Denied, &ids(1, 2)),
        Err(KeyManagerError::NotAuthenticated)
    );
    assert_eq!(manager.derivation_count(), 0);
    let mut uninitialized = fresh();
    assert_eq!(
        uninitialized.get_public_key(CallerClass::Denied, &ids(1, 2), 100),
        Err(KeyManagerError::NotAuthenticated)
    );
}

#[test]
fn get_or_create_keys_returns_the_derived_bundle() {
    let mut manager = initialized(7);
    let key = manager.get_or_create_keys(CallerClass::Privileged, &ids(1, 2)).unwrap();
    assert_eq!(key, keymanager::kdf::derive(&MasterSecret::from_bytes([7u8; 32]), &ids(1, 2)));
    assert_eq!(manager.derivation_count(), 1);
    assert_eq!(manager.get_or_create_keys(CallerClass::Privileged, &ids(1, 2)), Ok(key));
    assert_eq!(manager.derivation_count(), 1);
    let other = manager.get_or_create_keys(CallerClass::Privileged, &ids(2, 1)).unwrap();
    assert_ne!(other, key);
    assert_eq!(manager.derivation_count(), 2);
}

#[test]
fn request_invalidate_request_yields_the_same_bundle() {
    let mut manager = initialized(7);
    let first = manager.get_or_create_keys(CallerClass::Privileged, &ids(1, 2)).unwrap();
    manager.invalidate(&ids(1, 2));
    let second = manager.get_or_create_keys(CallerClass::Privileged, &ids(1, 2)).unwrap();
    assert_eq!(first, second);
    assert_eq!(manager.derivation_count(), 2);
}

#[test]
fn short_term_key_has_an_expiry_and_long_term_key_has_none() {
    let mut manager = initialized(7);
    let short = manager.get_public_key(CallerClass::Unprivileged, &ids(1, 2), 100).unwrap().unwrap();
    let long = manager.get_long_term_public_key(CallerClass::Unprivileged, &ids(1, 2)).unwrap().unwrap();
    assert_eq!(short.timestamp, Some(100));
    assert_eq!(long.timestamp, None);
    assert_eq!(short.key, long.key);
    assert_ne!(short.signature, long.signature);
    assert_eq!(manager.derivation_count(), 1);
    let zero = manager.get_public_key(CallerClass::Privileged, &ids(1, 2), 0).unwrap().unwrap();
    assert_eq!(zero.timestamp, Some(0));
    let max = manager.get_public_key(CallerClass::Privileged, &ids(1, 2), u64::MAX).unwrap().unwrap();
    assert_eq!(max.timestamp, Some(u64::MAX));
}

#[test]
fn signed_public_key_is_the_bundles_public_key_signed() {
    let mut manager = initialized(7);
    let bundle = manager.get_or_create_keys(CallerClass::Privileged, &ids(1, 2)).unwrap();
    let short = manager.get_public_key(CallerClass::Unprivileged, &ids(1, 2), 100).unwrap().unwrap();
    let long = manager.get_long_term_public_key(CallerClass::Unprivileged, &ids(1, 2)).unwrap().unwrap();
    assert_eq!(short.key, bundle.input_keypair.get_pk());
    assert_eq!(long.key, bundle.input_keypair.get_pk());
    let expected = SigningService::new(SIGNING_SEED);
    assert_eq!(short, expected.sign_public_key(bundle.input_keypair.get_pk(), Some(100)));
    assert_eq!(long, expected.sign_public_key(bundle.input_keypair.get_pk(), None));

    let mut message = b"EkKmPubK".to_vec();
    message.extend_from_slice(&short.key.0);
    let mut with_expiry = message.clone();
    with_expiry.extend_from_slice(&100u64.to_le_bytes());
    let mut with_next_expiry = message.clone();
    with_next_expiry.extend_from_slice(&101u64.to_le_bytes());
    let mut without_expiry = message.clone();
    without_expiry.push(0);
    assert!(verifies(&with_expiry, &short));
    assert!(!verifies(&with_next_expiry, &short));
    assert!(!verifies(&without_expiry, &short));
    assert!(verifies(&without_expiry, &long));
    assert!(!verifies(&with_expiry, &long));
}

#[test]
fn public_key_operations_derive_on_a_miss() {
    let mut manager = initialized(7);
    let signed = manager.get_public_key(CallerClass::Unprivileged, &ids(1, 2), 5).unwrap().unwrap();
    assert_eq!(manager.derivation_count(), 1);
    let expected = keymanager::kdf::derive(&MasterSecret::from_bytes([7u8; 32]), &ids(1, 2));
    assert_eq!(signed.key, expected.input_keypair.get_pk());
}

#[test]
fn public_responses_hold_no_private_bytes() {
    let mut manager = initialized(7);
    for identity in [ids(1, 2), ids(0, 0), ids(255, 1)] {
        let bundle = manager.get_or_create_keys(CallerClass::Privileged, &identity).unwrap();
        let sk = bundle.input_keypair.get_sk().0;
        let state_key = bundle.state_key.0;
        let short = manager.get_public_key(CallerClass::Unprivileged, &identity, 77).unwrap().unwrap();
        let long = manager.get_long_term_public_key(CallerClass::Unprivileged, &identity).unwrap().unwrap();
        for signed in [short, long] {
            let mut bytes = signed.key.0.to_vec();
            bytes.extend_from_slice(&signed.timestamp.unwrap_or(0).to_le_bytes());
            bytes.extend_from_slice(&signed.signature.0);
            assert!(!holds(&bytes, &sk));
            assert!(!holds(&bytes, &state_key));
            assert!(!holds(&bytes, &[7u8; 32]));
        }
    }
}

#[test]
fn without_a_signing_key_nothing_is_answered() {
    let mut manager = KeyManager::new(true, None);
    manager.init_with(SecretSource::Adopted(MasterSecret::from_bytes([7u8; 32]))).unwrap();
    assert_eq!(manager.get_public_key(CallerClass::Unprivileged, &ids(1, 2), 5), Ok(None));
    assert_eq!(manager.get_long_term_public_key(CallerClass::Privileged, &ids(1, 2)), Ok(None));
    assert_eq!(manager.derivation_count(), 0);
    assert_eq!(
        manager.get_public_key(CallerClass::Denied, &ids(1, 2), 5),
        Err(KeyManagerError::NotAuthenticated)
    );
    // The privileged operation does not sign and stays available.
    let key = manager.get_or_create_keys(CallerClass::Privileged, &ids(1, 2)).unwrap();
    assert_eq!(key, keymanager::kdf::derive(&MasterSecret::from_bytes([7u8; 32]), &ids(1, 2)));
}

#[test]
fn clear_cache_forgets_and_rederives() {
    let mut manager = initialized(7);
    let a = manager.get_or_create_keys(CallerClass::Privileged, &ids(1, 2)).unwrap();
    let b = manager.get_or_create_keys(CallerClass::Privileged, &ids(1, 3)).unwrap();
    manager.clear_cache();
    assert_eq!(manager.derivation_count(), 2);
    assert_eq!(manager.get_or_create_keys(CallerClass::Privileged, &ids(1, 2)), Ok(a));
    assert_eq!(manager.get_or_create_keys(CallerClass::Privileged, &ids(1, 3)), Ok(b));
    assert_eq!(manager.derivation_count(), 4);
}

#[test]
fn replicas_compare_checksums() {
    let mut first = fresh();
    let advertised = first.init(&InitRequest {}).unwrap().checksum;
    assert_eq!(first.matches_checksum(&advertised), Ok(true));
    let replica = initialized(7);
    assert_eq!(replica.matches_checksum(&advertised), Ok(false));
    assert_eq!(
        replica.matches_checksum(&checksum(&MasterSecret::from_bytes([7u8; 32]))),
        Ok(true)
    );
    assert_eq!(fresh().matches_checksum(&advertised), Err(KeyManagerError::NotInitialized));
}
