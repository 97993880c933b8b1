use multisig_rs::{generate_keypair, sign_message, verify_signature, public_key_bytes};

#[test]
fn test_keypair_generation() {
    let result = generate_keypair();
    assert!(result.is_ok());
}

#[test]
fn test_sign_and_verify() {
    let (secret_key, public_key) = generate_keypair().unwrap();
    let message = b"Hello, multisig world!";

    let signature = sign_message(message, &secret_key).unwrap();
    let signer = public_key_bytes(&public_key);
    let is_valid = verify_signature(message, &signature, &signer).unwrap();

    assert!(is_valid);
}

#[test]
fn test_invalid_signature() {
    let (secret_key1, _) = generate_keypair().unwrap();
    let (_, public_key2) = generate_keypair().unwrap();
    let message = b"Test message";

    let signature = sign_message(message, &secret_key1).unwrap();
    let signer2 = public_key_bytes(&public_key2);
    let is_valid = verify_signature(message, &signature, &signer2).unwrap();

    assert!(!is_valid);
}

#[test]
fn test_signature_and_key_sizes() {
    let (secret_key, public_key) = generate_keypair().unwrap();
    let signature = sign_message(b"size check", &secret_key).unwrap();
    assert_eq!(signature.bytes.len(), 64);
    assert_eq!(public_key_bytes(&public_key).bytes.len(), 33);
}

#[test]
fn test_hash_is_not_identity() {
    let digest = multisig_rs::hash_message(b"abc");
    assert_eq!(digest.len(), 32);
    // The SHA-256 digest of "abc" is a fixed, well-known value.
    assert_eq!(
        digest[..4],
        [0xba, 0x78, 0x16, 0xbf]
    );
}
