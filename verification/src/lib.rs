pub mod codec;
pub mod crypto;
pub mod error;
pub mod transaction;
pub mod wallet;

pub use crypto::{generate_keypair, sign_message, verify_signature, hash_message, public_key_bytes};
pub use error::MultisigError;
pub use transaction::Transaction;
pub use wallet::MultisigWallet;


