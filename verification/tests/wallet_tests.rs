use multisig_rs::{generate_keypair, public_key_bytes, MultisigWallet, MultisigError, Transaction};

#[test]
fn test_wallet_creation() {
    let (_, pk1) = generate_keypair().unwrap();
    let (_, pk2) = generate_keypair().unwrap();
    let (_, pk3) = generate_keypair().unwrap();

    let wallet = MultisigWallet::new(
        2,
        vec![public_key_bytes(&pk1), public_key_bytes(&pk2), public_key_bytes(&pk3)],
    );
    assert!(wallet.is_ok());

    let wallet = wallet.unwrap();
    assert_eq!(wallet.info().threshold, 2);
    assert_eq!(wallet.info().total_signers, 3);
}

#[test]
fn test_invalid_threshold() {
    let (_, pk1) = generate_keypair().unwrap();

    let wallet = MultisigWallet::new(2, vec![public_key_bytes(&pk1)]);
    assert!(wallet.is_err());
}

#[test]
fn test_transaction_flow() {
    let (sk1, pk1) = generate_keypair().unwrap();
    let (sk2, pk2) = generate_keypair().unwrap();
    let (_, pk3) = generate_keypair().unwrap();

    let k1 = public_key_bytes(&pk1);
    let k2 = public_key_bytes(&pk2);
    let k3 = public_key_bytes(&pk3);
    let mut wallet = MultisigWallet::new(2, vec![k1.clone(), k2.clone(), k3]).unwrap();

    let tx = Transaction::new("recipient".to_string(), 1000, None);
    let tx_id = tx.id.clone();

    wallet.propose_transaction(tx.clone()).unwrap();

    // Add first signature
    let sig1 = tx.sign(&sk1).unwrap();
    wallet.add_signature(&tx_id, &sig1, &k1).unwrap();

    assert!(!wallet.has_enough_signatures(&tx_id).unwrap());

    // Add second signature
    let sig2 = tx.sign(&sk2).unwrap();
    wallet.add_signature(&tx_id, &sig2, &k2).unwrap();

    assert!(wallet.has_enough_signatures(&tx_id).unwrap());

    // Execute transaction
    let executed = wallet.execute_transaction(&tx_id);
    assert!(executed.is_ok());
}

#[test]
fn test_threshold_boundary() {
    let (_, pk1) = generate_keypair().unwrap();
    let (_, pk2) = generate_keypair().unwrap();
    let (_, pk3) = generate_keypair().unwrap();
    let keys =
        vec![public_key_bytes(&pk1), public_key_bytes(&pk2), public_key_bytes(&pk3)];

    // M = 0 is rejected, with the offending policy in the error.
    assert!(matches!(
        MultisigWallet::new(0, keys.clone()),
        Err(MultisigError::InvalidThreshold { m: 0, n: 3 })
    ));
    // 1 <= M <= N is accepted.
    assert!(MultisigWallet::new(1, keys.clone()).is_ok());
    assert!(MultisigWallet::new(3, keys.clone()).is_ok());
    // M > N is rejected.
    assert!(matches!(
        MultisigWallet::new(4, keys),
        Err(MultisigError::InvalidThreshold { m: 4, n: 3 })
    ));
}

#[test]
fn test_duplicate_signature_rejected() {
    let (sk1, pk1) = generate_keypair().unwrap();
    let (_, pk2) = generate_keypair().unwrap();
    let k1 = public_key_bytes(&pk1);
    let k2 = public_key_bytes(&pk2);
    let mut wallet = MultisigWallet::new(2, vec![k1.clone(), k2]).unwrap();

    let tx = Transaction::new("recipient".to_string(), 10, None);
    let tx_id = tx.id.clone();
    wallet.propose_transaction(tx.clone()).unwrap();

    let sig = tx.sign(&sk1).unwrap();
    wallet.add_signature(&tx_id, &sig, &k1).unwrap();
    assert_eq!(wallet.get_signature_count(&tx_id).unwrap(), 1);

    // A second valid signature from the same signer is rejected and the
    // count is unchanged.
    let sig_again = tx.sign(&sk1).unwrap();
    assert!(matches!(
        wallet.add_signature(&tx_id, &sig_again, &k1),
        Err(MultisigError::DuplicateSignature)
    ));
    assert_eq!(wallet.get_signature_count(&tx_id).unwrap(), 1);
}

#[test]
fn test_tampered_message_rejected() {
    let (sk1, pk1) = generate_keypair().unwrap();
    let (_, pk2) = generate_keypair().unwrap();
    let k1 = public_key_bytes(&pk1);
    let k2 = public_key_bytes(&pk2);
    let mut wallet = MultisigWallet::new(2, vec![k1.clone(), k2]).unwrap();

    let tx_a = Transaction::new("recipient".to_string(), 100, None);
    let tx_b = Transaction::new("recipient".to_string(), 999, None);
    wallet.propose_transaction(tx_b.clone()).unwrap();

    // A signature over one transaction's bytes fails verification against
    // another transaction.
    let sig_for_a = tx_a.sign(&sk1).unwrap();
    assert!(matches!(
        wallet.add_signature(&tx_b.id, &sig_for_a, &k1),
        Err(MultisigError::InvalidSignature)
    ));
    assert_eq!(wallet.get_signature_count(&tx_b.id).unwrap(), 0);
}

#[test]
fn test_unknown_transaction_id() {
    let (sk1, pk1) = generate_keypair().unwrap();
    let k1 = public_key_bytes(&pk1);
    let mut wallet = MultisigWallet::new(1, vec![k1.clone()]).unwrap();

    let tx = Transaction::new("recipient".to_string(), 1, None);
    let sig = tx.sign(&sk1).unwrap();
    assert!(matches!(
        wallet.add_signature("no-such-id", &sig, &k1),
        Err(MultisigError::TransactionNotFound)
    ));
    assert!(matches!(
        wallet.get_signature_count("no-such-id"),
        Err(MultisigError::TransactionNotFound)
    ));
    assert!(matches!(
        wallet.has_enough_signatures("no-such-id"),
        Err(MultisigError::TransactionNotFound)
    ));
    assert!(matches!(
        wallet.execute_transaction("no-such-id"),
        Err(MultisigError::TransactionNotFound)
    ));
}

#[test]
fn test_signature_after_execution_rejected() {
    let (sk1, pk1) = generate_keypair().unwrap();
    let (sk2, pk2) = generate_keypair().unwrap();
    let k1 = public_key_bytes(&pk1);
    let k2 = public_key_bytes(&pk2);
    let mut wallet = MultisigWallet::new(1, vec![k1.clone(), k2.clone()]).unwrap();

    let tx = Transaction::new("recipient".to_string(), 7, None);
    let tx_id = tx.id.clone();
    wallet.propose_transaction(tx.clone()).unwrap();
    let sig1 = tx.sign(&sk1).unwrap();
    wallet.add_signature(&tx_id, &sig1, &k1).unwrap();
    wallet.execute_transaction(&tx_id).unwrap();

    let sig2 = tx.sign(&sk2).unwrap();
    assert!(matches!(
        wallet.add_signature(&tx_id, &sig2, &k2),
        Err(MultisigError::TransactionAlreadyExecuted)
    ));
}

#[test]
fn test_info_counts_executed_transactions() {
    let (sk1, pk1) = generate_keypair().unwrap();
    let k1 = public_key_bytes(&pk1);
    let mut wallet = MultisigWallet::new(1, vec![k1.clone()]).unwrap();
    assert_eq!(wallet.info().pending_count, 0);

    let tx = Transaction::new("recipient".to_string(), 3, None);
    let tx_id = tx.id.clone();
    wallet.propose_transaction(tx.clone()).unwrap();
    assert_eq!(wallet.info().pending_count, 1);

    let sig = tx.sign(&sk1).unwrap();
    wallet.add_signature(&tx_id, &sig, &k1).unwrap();
    wallet.execute_transaction(&tx_id).unwrap();
    // Executed transactions stay in the map.
    assert_eq!(wallet.info().pending_count, 1);
}

#[test]
fn test_reproposal_overwrites_record() {
    let (sk1, pk1) = generate_keypair().unwrap();
    let k1 = public_key_bytes(&pk1);
    let mut wallet = MultisigWallet::new(1, vec![k1.clone()]).unwrap();

    let tx = Transaction::new("recipient".to_string(), 55, None);
    let tx_id = tx.id.clone();
    wallet.propose_transaction(tx.clone()).unwrap();
    let sig = tx.sign(&sk1).unwrap();
    wallet.add_signature(&tx_id, &sig, &k1).unwrap();
    assert_eq!(wallet.get_signature_count(&tx_id).unwrap(), 1);

    // Re-proposing the same id replaces the pending record unconditionally:
    // the accumulated signature is discarded and the record starts fresh.
    wallet.propose_transaction(tx.clone()).unwrap();
    assert_eq!(wallet.get_signature_count(&tx_id).unwrap(), 0);
    assert_eq!(wallet.info().pending_count, 1);
}
