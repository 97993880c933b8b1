//! The boundary to the asymmetric-cryptography service (secp256k1 ECDSA
//! over SHA-256 digests) and to the SHA-256 content hash. Key material and
//! signatures cross into the verified wallet logic as their canonical byte
//! encodings: a public key as its 33-byte compressed form, a signature as
//! its 64-byte compact form.

use vstd::prelude::*;
use vstd::slice::slice_to_vec;
use crate::error::MultisigError;
use sha2::Digest;

verus! {

#[verifier::external_type_specification]
#[verifier::external_body]
pub struct ExSecretKey(secp256k1::SecretKey);

#[verifier::external_type_specification]
#[verifier::external_body]
pub struct ExPublicKey(secp256k1::PublicKey);

/// An authorized signer's public key, held as its canonical 33-byte
/// compressed point encoding. Equality of these bytes is equality of the
/// key itself, since the compressed encoding is canonical.
#[derive(Debug)]
pub struct SignerKey {
    pub bytes: Vec<u8>,
}

impl Clone for SignerKey {
    fn clone(&self) -> (r: Self)
        ensures
            r.bytes@ == self.bytes@,
    {
        SignerKey { bytes: slice_to_vec(self.bytes.as_slice()) }
    }
}

/// An ECDSA signature, held as its canonical 64-byte compact (non-DER)
/// encoding.
#[derive(Debug)]
pub struct SignatureBytes {
    pub bytes: Vec<u8>,
}

impl Clone for SignatureBytes {
    fn clone(&self) -> (r: Self)
        ensures
            r.bytes@ == self.bytes@,
    {
        SignatureBytes { bytes: slice_to_vec(self.bytes.as_slice()) }
    }
}

/// The SHA-256 digest of a byte sequence: a pure function of the bytes,
/// too long to state here, so it is only named.
pub uninterp spec fn sha256_of(message: Seq<u8>) -> Seq<u8>;

/// Whether an ECDSA signature in compact encoding verifies against a
/// message (hashed with SHA-256) and a public key in compressed encoding:
/// a pure function of the three byte sequences, only named. Bytes that do
/// not parse as a signature or key verify as false.
pub uninterp spec fn sig_verifies(message: Seq<u8>, signature: Seq<u8>, public_key: Seq<u8>) -> bool;

/// Relies on sha2::Sha256: the digest is 32 bytes and depends on the
/// message bytes alone; its value is named sha256_of.
#[verifier::external_body]
pub fn hash_message(message: &[u8]) -> (r: [u8; 32])
    ensures
        r@ == sha256_of(message@),
{
    let mut hasher = sha2::Sha256::new();
    hasher.update(message);
    let out = hasher.finalize();
    let mut digest = [0u8; 32];
    digest.copy_from_slice(&out);
    digest
}

/// Relies on secp256k1::generate_keypair with the rand crate's thread
/// rng: returns a fresh key pair; nothing is promised of its value.
#[verifier::external_body]
pub fn generate_keypair() -> (r: Result<(secp256k1::SecretKey, secp256k1::PublicKey), MultisigError>)
    ensures
        r is Ok,
{
    Ok(secp256k1::generate_keypair(&mut secp256k1::rand::rng()))
}

/// Relies on secp256k1::PublicKey::serialize: the canonical 33-byte
/// compressed encoding of the key.
#[verifier::external_body]
pub fn public_key_bytes(public_key: &secp256k1::PublicKey) -> (r: SignerKey)
    ensures
        r.bytes@.len() == 33,
{
    SignerKey { bytes: public_key.serialize().to_vec() }
}

/// Relies on secp256k1::ecdsa::sign over the SHA-256 digest of the message
/// (Message::from_digest never fails on a 32-byte digest, and signing with
/// an RFC 6979 nonce never fails), and on Signature::serialize_compact:
/// a 64-byte compact encoding.
#[verifier::external_body]
pub fn sign_message(message: &[u8], secret_key: &secp256k1::SecretKey) -> (r: Result<
    SignatureBytes,
    MultisigError,
>)
    ensures
        r is Ok,
        r->Ok_0.bytes@.len() == 64,
{
    let digest = hash_message(message);
    let msg = secp256k1::Message::from_digest(digest);
    let sig = secp256k1::ecdsa::sign(msg, secret_key);
    Ok(SignatureBytes { bytes: sig.serialize_compact().to_vec() })
}

/// Relies on secp256k1::ecdsa::verify over the SHA-256 digest of the
/// message: verification is a pure function of message, signature and key
/// bytes, named sig_verifies; bytes that do not parse as a compact
/// signature (Signature::from_compact) or a public key
/// (PublicKey::from_slice) verify as false rather than erring.
#[verifier::external_body]
pub fn verify_signature(message: &[u8], signature: &SignatureBytes, public_key: &SignerKey) -> (r:
    Result<bool, MultisigError>)
    ensures
        r is Ok,
        r->Ok_0 == sig_verifies(message@, signature.bytes@, public_key.bytes@),
{
    let sig = match secp256k1::ecdsa::Signature::from_compact(&signature.bytes) {
        Ok(s) => s,
        Err(_) => return Ok(false),
    };
    let pk = match secp256k1::PublicKey::from_slice(&public_key.bytes) {
        Ok(k) => k,
        Err(_) => return Ok(false),
    };
    let digest = hash_message(message);
    let msg = secp256k1::Message::from_digest(digest);
    Ok(secp256k1::ecdsa::verify(&sig, msg, &pk).is_ok())
}

} // verus!
