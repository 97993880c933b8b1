use vstd::prelude::*;

verus! {

/// The error taxonomy of the multisig wallet. Every fallible operation
/// returns one of these to its immediate caller; no error is swallowed,
/// and a failed operation leaves the wallet unchanged.
#[derive(Debug, Clone, PartialEq, Eq)]
pub enum MultisigError {
    /// Cryptographic verification of a submitted signature failed.
    InvalidSignature,
    /// Execution was attempted with fewer admitted signatures than the
    /// wallet's threshold requires.
    InsufficientSignatures { required: usize, actual: usize },
    /// A signature was submitted by a key outside the authorized set.
    UnauthorizedSigner,
    /// A mutating operation was attempted on a transaction that has
    /// already been executed.
    TransactionAlreadyExecuted,
    /// Wallet construction was given a threshold M outside 1 <= M <= N.
    InvalidThreshold { m: usize, n: usize },
    /// A second signature from an already-recorded signer was submitted.
    DuplicateSignature,
    /// A structured byte encoding could not be decoded.
    SerializationError,
    /// An underlying cryptographic operation failed.
    CryptoError,
    /// A public key could not be parsed.
    InvalidPublicKey,
    /// A private key could not be parsed.
    InvalidPrivateKey,
    /// An operation referenced a transaction id with no pending record.
    TransactionNotFound,
}

} // verus!
