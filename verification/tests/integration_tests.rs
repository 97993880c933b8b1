use multisig_rs::{generate_keypair, public_key_bytes, MultisigWallet, MultisigError, Transaction};

#[test]
fn test_complete_multisig_workflow() {
    // Generate the keypairs
    let (sk1, pk1) = generate_keypair().unwrap();
    let (sk2, pk2) = generate_keypair().unwrap();
    let (_, pk3) = generate_keypair().unwrap();

    // Create 2-of-3 wallet.
    let k1 = public_key_bytes(&pk1);
    let k2 = public_key_bytes(&pk2);
    let k3 = public_key_bytes(&pk3);
    let mut wallet = MultisigWallet::new(2, vec![k1.clone(), k2.clone(), k3]).unwrap();

    // Create and propose a transaction.
    let tx = Transaction::new(
        "recipient".to_string(),
        5000,
        Some("Integration test".to_string()),
    );
    let tx_id = tx.id.clone();

    wallet.propose_transaction(tx.clone()).unwrap();

    // Add the signatures.
    let sig1 = tx.sign(&sk1).unwrap();
    wallet.add_signature(&tx_id, &sig1, &k1).unwrap();

    let sig2 = tx.sign(&sk2).unwrap();
    wallet.add_signature(&tx_id, &sig2, &k2).unwrap();

    // Execute
    let result = wallet.execute_transaction(&tx_id);
    assert!(result.is_ok());
}

#[test]
fn test_insufficient_signatures() {
    let (sk1, pk1) = generate_keypair().unwrap();
    let (_, pk2) = generate_keypair().unwrap();
    let (_, pk3) = generate_keypair().unwrap();

    let k1 = public_key_bytes(&pk1);
    let mut wallet = MultisigWallet::new(
        2,
        vec![k1.clone(), public_key_bytes(&pk2), public_key_bytes(&pk3)],
    )
    .unwrap();

    let tx = Transaction::new("recipient".to_string(), 1000, None);
    let tx_id = tx.id.clone();

    wallet.propose_transaction(tx.clone()).unwrap();

    // Only one signature
    let sig1 = tx.sign(&sk1).unwrap();
    wallet.add_signature(&tx_id, &sig1, &k1).unwrap();

    // Should fail to execute
    let result = wallet.execute_transaction(&tx_id);
    assert!(result.is_err());
}

#[test]
fn test_unauthorized_signer() {
    let (_, pk1) = generate_keypair().unwrap();
    let (_, pk2) = generate_keypair().unwrap();
    let (sk_unauthorized, pk_unauthorized) = generate_keypair().unwrap();

    let mut wallet =
        MultisigWallet::new(2, vec![public_key_bytes(&pk1), public_key_bytes(&pk2)]).unwrap();

    let tx = Transaction::new("recipient".to_string(), 1000, None);
    let tx_id = tx.id.clone();

    wallet.propose_transaction(tx.clone()).unwrap();

    // Try to sign with unauthorized key
    let sig = tx.sign(&sk_unauthorized).unwrap();
    let result = wallet.add_signature(&tx_id, &sig, &public_key_bytes(&pk_unauthorized));

    assert!(result.is_err());
}

#[test]
fn test_unauthorized_rejected_before_validity() {
    // The signature is cryptographically valid over the transaction bytes,
    // but the key-pair is outside the authorized set: rejected as
    // UnauthorizedSigner, never as InvalidSignature.
    let (_, pk1) = generate_keypair().unwrap();
    let (_, pk2) = generate_keypair().unwrap();
    let (sk_out, pk_out) = generate_keypair().unwrap();

    let mut wallet =
        MultisigWallet::new(2, vec![public_key_bytes(&pk1), public_key_bytes(&pk2)]).unwrap();

    let tx = Transaction::new("recipient".to_string(), 1000, None);
    let tx_id = tx.id.clone();
    wallet.propose_transaction(tx.clone()).unwrap();

    let sig = tx.sign(&sk_out).unwrap();
    let k_out = public_key_bytes(&pk_out);
    // The signature does verify over the bytes and the outside key...
    assert!(multisig_rs::verify_signature(&tx.to_bytes(), &sig, &k_out).unwrap());
    // ...and is still rejected on authorization grounds.
    assert!(matches!(
        wallet.add_signature(&tx_id, &sig, &k_out),
        Err(MultisigError::UnauthorizedSigner)
    ));
    assert_eq!(wallet.get_signature_count(&tx_id).unwrap(), 0);
}

#[test]
fn test_two_of_three_scenario() {
    // 2-of-3 wallet, propose a transaction of amount 1000; signature
    // counts and the approval flag move exactly with the admissions, the
    // first execution succeeds, the second fails.
    let (sk1, pk1) = generate_keypair().unwrap();
    let (sk2, pk2) = generate_keypair().unwrap();
    let (_, pk3) = generate_keypair().unwrap();
    let k1 = public_key_bytes(&pk1);
    let k2 = public_key_bytes(&pk2);
    let mut wallet = MultisigWallet::new(
        2,
        vec![k1.clone(), k2.clone(), public_key_bytes(&pk3)],
    )
    .unwrap();

    let tx = Transaction::new("recipient".to_string(), 1000, None);
    let tx_id = tx.id.clone();
    wallet.propose_transaction(tx.clone()).unwrap();
    assert_eq!(wallet.get_signature_count(&tx_id).unwrap(), 0);

    let sig1 = tx.sign(&sk1).unwrap();
    wallet.add_signature(&tx_id, &sig1, &k1).unwrap();
    assert_eq!(wallet.get_signature_count(&tx_id).unwrap(), 1);
    assert!(!wallet.has_enough_signatures(&tx_id).unwrap());

    let sig2 = tx.sign(&sk2).unwrap();
    wallet.add_signature(&tx_id, &sig2, &k2).unwrap();
    assert_eq!(wallet.get_signature_count(&tx_id).unwrap(), 2);
    assert!(wallet.has_enough_signatures(&tx_id).unwrap());

    let executed = wallet.execute_transaction(&tx_id).unwrap();
    assert_eq!(executed.id, tx_id);
    assert_eq!(executed.amount, 1000);

    assert!(matches!(
        wallet.execute_transaction(&tx_id),
        Err(MultisigError::TransactionAlreadyExecuted)
    ));
}

#[test]
fn test_insufficient_signatures_error_detail() {
    // 2-of-3 wallet with a single admitted signature: execution fails with
    // InsufficientSignatures carrying required = 2 and actual = 1.
    let (sk1, pk1) = generate_keypair().unwrap();
    let (_, pk2) = generate_keypair().unwrap();
    let (_, pk3) = generate_keypair().unwrap();
    let k1 = public_key_bytes(&pk1);
    let mut wallet = MultisigWallet::new(
        2,
        vec![k1.clone(), public_key_bytes(&pk2), public_key_bytes(&pk3)],
    )
    .unwrap();

    let tx = Transaction::new("recipient".to_string(), 1000, None);
    let tx_id = tx.id.clone();
    wallet.propose_transaction(tx.clone()).unwrap();
    let sig1 = tx.sign(&sk1).unwrap();
    wallet.add_signature(&tx_id, &sig1, &k1).unwrap();

    assert!(matches!(
        wallet.execute_transaction(&tx_id),
        Err(MultisigError::InsufficientSignatures { required: 2, actual: 1 })
    ));
    // The failed execution left the wallet unchanged.
    assert_eq!(wallet.get_signature_count(&tx_id).unwrap(), 1);
}
