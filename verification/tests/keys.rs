use keymanager::{
    ContractKey, InputKeyPair, KeyManagerError, PrivateKey, PublicKey, StateKey,
    PUBLIC_KEY_CONTEXT,
};

fn x25519_public(scalar: [u8; 32]) -> [u8; 32] {
    x25519_dalek::PublicKey::from(&x25519_dalek::StaticSecret::from(scalar)).to_bytes()
}

fn hex32(text: &str) -> [u8; 32] {
    let mut bytes = [0u8; 32];
    for (i, b) in bytes.iter_mut().enumerate() {
        *b = u8::from_str_radix(&text[2 * i..2 * i + 2], 16).unwrap();
    }
    bytes
}

#[test]
fn public_key_context_is_the_ascii_tag() {
    assert_eq!(&PUBLIC_KEY_CONTEXT, b"EkKmPubK");
}

#[test]
fn input_key_pair_returns_what_it_was_made_of() {
    let pair = InputKeyPair::new(PublicKey([1u8; 32]), PrivateKey([2u8; 32]));
    assert_eq!(pair.get_pk(), PublicKey([1u8; 32]));
    assert_eq!(pair.get_sk(), PrivateKey([2u8; 32]));
}

#[test]
fn contract_key_new_keeps_its_parts() {
    let key = ContractKey::new(PublicKey([1u8; 32]), PrivateKey([2u8; 32]), StateKey([3u8; 32]));
    assert_eq!(key.input_keypair.get_pk(), PublicKey([1u8; 32]));
    assert_eq!(key.input_keypair.get_sk(), PrivateKey([2u8; 32]));
    assert_eq!(key.state_key, StateKey([3u8; 32]));
}

#[test]
fn contract_key_from_public_key_zeroes_the_private_parts() {
    let key = ContractKey::from_public_key(PublicKey([9u8; 32]));
    assert_eq!(key.input_keypair.get_pk(), PublicKey([9u8; 32]));
    assert_eq!(key.input_keypair.get_sk(), PrivateKey([0u8; 32]));
    assert_eq!(key.state_key, StateKey([0u8; 32]));
}

#[test]
fn from_private_key_computes_the_x25519_public_key() {
    // The key pair of RFC 7748, section 6.1.
    let sk = hex32("77076d0a7318a57d3c16c17251b26645df4c2f87ebc0992ab177fba51db92c2a");
    let pk = hex32("8520f0098930a754748b7ddcb43ef75a0dbf3a0d26381af4eba4a98eaa9b4e6a");
    let key = ContractKey::from_private_key(PrivateKey(sk), StateKey([5u8; 32]));
    assert_eq!(key.input_keypair.get_pk(), PublicKey(pk));
    assert_eq!(key.input_keypair.get_sk(), PrivateKey(sk));
    assert_eq!(key.state_key, StateKey([5u8; 32]));
}

#[test]
fn from_private_key_does_not_hand_the_private_key_back() {
    let sk = [0x42u8; 32];
    let key = ContractKey::from_private_key(PrivateKey(sk), StateKey([0u8; 32]));
    assert_ne!(key.input_keypair.get_pk().0, sk);
    assert_eq!(key.input_keypair.get_pk().0, x25519_public(sk));
}

#[test]
fn generate_mock_public_key_belongs_to_private_key() {
    let key = ContractKey::generate_mock();
    assert_eq!(key.input_keypair.get_pk().0, x25519_public(key.input_keypair.get_sk().0));
}

#[test]
fn generate_mock_keys_are_fresh() {
    let a = ContractKey::generate_mock();
    let b = ContractKey::generate_mock();
    assert_ne!(a.input_keypair.get_sk(), b.input_keypair.get_sk());
    assert_ne!(a.input_keypair.get_pk(), b.input_keypair.get_pk());
    assert_ne!(a.state_key, b.state_key);
    assert_ne!(a.state_key.0, a.input_keypair.get_sk().0);
    assert_ne!(a.state_key.0, [0u8; 32]);
    assert_ne!(a.input_keypair.get_sk().0, [0u8; 32]);
}

#[test]
fn error_messages() {
    assert_eq!(
        KeyManagerError::NotAuthenticated.message(),
        "client session is not authenticated"
    );
    assert_eq!(KeyManagerError::NotInitialized.message(), "key manager is not initialized");
    assert_eq!(
        KeyManagerError::AlreadyInitialized.message(),
        "key manager is already initialized"
    );
}

#[test]
fn errors_are_told_apart() {
    assert_ne!(KeyManagerError::NotAuthenticated, KeyManagerError::NotInitialized);
    assert_ne!(KeyManagerError::NotInitialized, KeyManagerError::AlreadyInitialized);
    assert_ne!(KeyManagerError::NotAuthenticated, KeyManagerError::AlreadyInitialized);
}
