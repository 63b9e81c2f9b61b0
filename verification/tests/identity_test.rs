use net4::identity::{self, NodeIdentity};
use net4::types::Address;
use sha2::{Digest, Sha256};

#[test]
fn generate_produces_unique_identities() {
    let id1 = NodeIdentity::generate();
    let id2 = NodeIdentity::generate();
    assert_ne!(id1.address, id2.address);
}

#[test]
fn address_is_not_zero() {
    let id = NodeIdentity::generate();
    assert_ne!(id.address, Address::zero());
}

#[test]
fn sign_and_verify_valid() {
    let id = NodeIdentity::generate();
    let msg = b"test message";
    let sig = id.sign(msg);
    assert!(identity::verify(&id.verifying_key, msg, &sig));
}

#[test]
fn verify_fails_with_wrong_message() {
    let id = NodeIdentity::generate();
    let sig = id.sign(b"correct message");
    assert!(!identity::verify(&id.verifying_key, b"wrong message", &sig));
}

#[test]
fn verify_fails_with_wrong_key() {
    let id1 = NodeIdentity::generate();
    let id2 = NodeIdentity::generate();
    let sig = id1.sign(b"hello");
    assert!(!identity::verify(&id2.verifying_key, b"hello", &sig));
}

#[test]
fn verify_fails_with_garbage_signature() {
    let id = NodeIdentity::generate();
    let garbage = vec![0u8; 64];
    assert!(!identity::verify(&id.verifying_key, b"hello", &garbage));
}

#[test]
fn verify_fails_with_short_signature() {
    let id = NodeIdentity::generate();
    let short = vec![1u8; 10];
    assert!(!identity::verify(&id.verifying_key, b"hello", &short));
}

#[test]
fn address_derived_from_pubkey_is_deterministic() {
    let id = NodeIdentity::generate();
    let expected = Address::from_bytes(Sha256::digest(&id.verifying_key).into());
    assert_eq!(id.address, expected);
}

#[test]
fn own_signature_always_verifies() {
    let id = NodeIdentity::generate();
    assert!(identity::verify_own_signature(&id, b"attestation payload"));
}

#[test]
fn derive_address_matches_generated_identity() {
    let id = NodeIdentity::generate();
    assert_eq!(identity::derive_address(&id.verifying_key), id.address);
}

#[test]
fn derive_address_known_digest() {
    // SHA-256 of 32 zero bytes, computed independently.
    let expected: [u8; 32] = [
        0x66, 0x68, 0x7a, 0xad, 0xf8, 0x62, 0xbd, 0x77, 0x6c, 0x8f, 0xc1, 0x8b, 0x8e, 0x9f,
        0x8e, 0x20, 0x08, 0x97, 0x14, 0x85, 0x6e, 0xe2, 0x33, 0xb3, 0x90, 0x2a, 0x59, 0x1d,
        0x0d, 0x5f, 0x29, 0x25,
    ];
    let a = identity::derive_address(&[0u8; 32]);
    assert_eq!(a.as_bytes(), &expected);
}

#[test]
fn sign_matches_reference_test_vector() {
    // RFC 8032, Ed25519 test vector 1: empty message.
    let secret: [u8; 32] = [
        0x9d, 0x61, 0xb1, 0x9d, 0xef, 0xfd, 0x5a, 0x60, 0xba, 0x84, 0x4a, 0xf4, 0x92, 0xec,
        0x2c, 0xc4, 0x44, 0x49, 0xc5, 0x69, 0x7b, 0x32, 0x69, 0x19, 0x70, 0x3b, 0xac, 0x03,
        0x1c, 0xae, 0x7f, 0x60,
    ];
    let public: [u8; 32] = [
        0xd7, 0x5a, 0x98, 0x01, 0x82, 0xb1, 0x0a, 0xb7, 0xd5, 0x4b, 0xfe, 0xd3, 0xc9, 0x64,
        0x07, 0x3a, 0x0e, 0xe1, 0x72, 0xf3, 0xda, 0xa6, 0x23, 0x25, 0xaf, 0x02, 0x1a, 0x68,
        0xf7, 0x07, 0x51, 0x1a,
    ];
    let expected_sig: [u8; 64] = [
        0xe5, 0x56, 0x43, 0x00, 0xc3, 0x60, 0xac, 0x72, 0x90, 0x86, 0xe2, 0xcc, 0x80, 0x6e,
        0x82, 0x8a, 0x84, 0x87, 0x7f, 0x1e, 0xb8, 0xe5, 0xd9, 0x74, 0xd8, 0x73, 0xe0, 0x65,
        0x22, 0x49, 0x01, 0x55, 0x5f, 0xb8, 0x82, 0x15, 0x90, 0xa3, 0x3b, 0xac, 0xc6, 0x1e,
        0x39, 0x70, 0x1c, 0xf9, 0xb4, 0x6b, 0xd2, 0x5b, 0xf5, 0xf0, 0x59, 0x5b, 0xbe, 0x24,
        0x65, 0x51, 0x41, 0x43, 0x8e, 0x7a, 0x10, 0x0b,
    ];
    let id = NodeIdentity {
        signing_key: secret,
        verifying_key: public,
        address: identity::derive_address(&public),
    };
    let sig = id.sign(b"");
    assert_eq!(sig.as_slice(), expected_sig.as_slice());
    assert!(identity::verify(&public, b"", &sig));
}

#[test]
fn short_hex_shows_eight_byte_prefix() {
    let a = Address::from_bytes([0xab; 32]);
    assert_eq!(a.short_hex(), "abababababababab..");
}
