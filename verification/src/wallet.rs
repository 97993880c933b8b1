//! The M-of-N multisig wallet: a fixed authorization policy (threshold M,
//! N authorized signer keys) and a map of pending transactions with their
//! accumulated signatures. A tracked transaction moves from proposed
//! (fewer signatures than the threshold) to approved (enough signatures)
//! to executed, a terminal state; every failed operation leaves the wallet
//! unchanged.
//!
//! Authorization compares raw key material (byte equality of the canonical
//! compressed encoding); duplicate detection and signature storage key by
//! the derived lowercase-hex identifier of that material. The hex
//! rendering is injective, so the two notions of identity agree on which
//! signer they denote.

use vstd::prelude::*;
use vstd::seq_lib::*;
use crate::codec::{hex_of, hex_encode, bytes_eq, str_eq, lemma_hex_of_injective};
use crate::crypto::{sig_verifies, verify_signature, SignerKey, SignatureBytes};
use crate::error::MultisigError;
use crate::transaction::{Transaction, tx_encoding};

verus! {

/// One admitted signature: the signer's derived hex identifier and the
/// signature's hex rendering.
#[derive(Debug)]
pub struct SignatureRecord {
    pub signer_hex: String,
    pub signature_hex: String,
}

/// A transaction awaiting signatures: the transaction itself, the
/// signatures admitted so far (at most one per signer), and whether it has
/// been executed.
#[derive(Debug)]
pub struct PendingTransaction {
    pub transaction: Transaction,
    pub signatures: Vec<SignatureRecord>,
    pub executed: bool,
}

/// Whether a pending record holds at most one signature per signer
/// identifier.
pub open spec fn rec_wf(p: PendingTransaction) -> bool {
    forall|k: int, l: int|
        0 <= k < l < p.signatures@.len() ==> p.signatures@[k].signer_hex@
            != p.signatures@[l].signer_hex@
}

/// A read-only snapshot of a wallet's policy and load.
#[derive(Debug)]
pub struct WalletInfo {
    pub threshold: usize,
    pub total_signers: usize,
    pub pending_count: usize,
}

/// A multisig wallet with an M-of-N signature requirement.
#[derive(Debug)]
pub struct MultisigWallet {
    pub threshold: usize,
    pub total_signers: usize,
    pub authorized_keys: Vec<SignerKey>,
    pub authorized_keys_hex: Vec<String>,
    pub pending_transactions: Vec<PendingTransaction>,
}

impl MultisigWallet {
    /// Whether some pending record carries the given transaction id.
    pub open spec fn has_pending(self, id: Seq<char>) -> bool {
        exists|i: int|
            0 <= i < self.pending_transactions@.len()
                && self.pending_transactions@[i].transaction@.id == id
    }

    /// The index of the pending record carrying the given id (unique in a
    /// well-formed wallet).
    pub open spec fn idx_of(self, id: Seq<char>) -> int {
        choose|i: int|
            0 <= i < self.pending_transactions@.len()
                && self.pending_transactions@[i].transaction@.id == id
    }

    /// The pending record carrying the given id.
    pub open spec fn rec(self, id: Seq<char>) -> PendingTransaction {
        self.pending_transactions@[self.idx_of(id)]
    }

    /// How many distinct signatures are admitted for the given id.
    pub open spec fn sig_count(self, id: Seq<char>) -> nat {
        self.rec(id).signatures@.len()
    }

    /// Whether the transaction with the given id has been executed.
    pub open spec fn is_executed(self, id: Seq<char>) -> bool {
        self.rec(id).executed
    }

    /// Whether a signature under the given signer identifier is already
    /// recorded for the given id.
    pub open spec fn signer_recorded(self, id: Seq<char>, signer_hex: Seq<char>) -> bool {
        exists|k: int|
            0 <= k < self.rec(id).signatures@.len() && self.rec(id).signatures@[k].signer_hex@
                == signer_hex
    }

    /// Whether the given key material belongs to the authorized set.
    pub open spec fn is_authorized_key(self, key: Seq<u8>) -> bool {
        exists|i: int|
            0 <= i < self.authorized_keys@.len() && self.authorized_keys@[i].bytes@ == key
    }

    /// Well-formedness: the policy invariant 1 <= M <= N with N the fixed
    /// size of the authorized set, the derived hex identifiers matching
    /// the key material, pending ids unique, and each record holding at
    /// most one signature per signer.
    pub open spec fn wf(self) -> bool {
        &&& 1 <= self.threshold <= self.total_signers
        &&& self.total_signers == self.authorized_keys@.len()
        &&& self.authorized_keys_hex@.len() == self.authorized_keys@.len()
        &&& forall|i: int|
            0 <= i < self.authorized_keys@.len() ==> self.authorized_keys_hex@[i]@ == hex_of(
                self.authorized_keys@[i].bytes@,
            )
        &&& forall|i: int, j: int|
            0 <= i < j < self.pending_transactions@.len()
                ==> self.pending_transactions@[i].transaction@.id
                != self.pending_transactions@[j].transaction@.id
        &&& forall|i: int|
            0 <= i < self.pending_transactions@.len() ==> rec_wf(self.pending_transactions@[i])
    }

    /// In a well-formed wallet the id found at any index picks out exactly
    /// that index.
    proof fn lemma_idx_at(self, i: int)
        requires
            self.wf(),
            0 <= i < self.pending_transactions@.len(),
        ensures
            self.idx_of(self.pending_transactions@[i].transaction@.id) == i,
    {
        let id = self.pending_transactions@[i].transaction@.id;
        assert(self.has_pending(id));
        let j = self.idx_of(id);
        assert(0 <= j < self.pending_transactions@.len()
            && self.pending_transactions@[j].transaction@.id == id);
        if i < j {
            assert(false);
        } else if j < i {
            assert(false);
        }
    }

    /// Creates a wallet with the given threshold and fixed authorized key
    /// set, deriving each key's stable hex identifier. Fails with
    /// InvalidThreshold exactly when the threshold is zero or larger than
    /// the number of keys.
    pub fn new(threshold: usize, authorized_keys: Vec<SignerKey>) -> (r: Result<
        MultisigWallet,
        MultisigError,
    >)
        ensures
            r is Ok <==> 1 <= threshold <= authorized_keys@.len(),
            !(1 <= threshold <= authorized_keys@.len()) ==> r == Err::<MultisigWallet, MultisigError>(
                MultisigError::InvalidThreshold { m: threshold, n: authorized_keys@.len() as usize },
            ),
            r matches Ok(w) ==> {
                &&& w.wf()
                &&& w.threshold == threshold
                &&& w.total_signers == authorized_keys@.len()
                &&& w.authorized_keys == authorized_keys
                &&& w.pending_transactions@.len() == 0
            },
    {
        let total_signers = authorized_keys.len();
        if threshold == 0 || threshold > total_signers {
            return Err(MultisigError::InvalidThreshold { m: threshold, n: total_signers });
        }
        let mut authorized_keys_hex: Vec<String> = Vec::new();
        let mut i: usize = 0;
        while i < authorized_keys.len()
            invariant
                i <= authorized_keys@.len(),
                authorized_keys_hex@.len() == i,
                forall|j: int|
                    0 <= j < i ==> authorized_keys_hex@[j]@ == hex_of(
                        authorized_keys@[j].bytes@,
                    ),
            decreases authorized_keys@.len() - i,
        {
            let h = hex_encode(authorized_keys[i].bytes.as_slice());
            authorized_keys_hex.push(h);
            i = i + 1;
        }
        Ok(
            MultisigWallet {
                threshold,
                total_signers,
                authorized_keys,
                authorized_keys_hex,
                pending_transactions: Vec::new(),
            },
        )
    }

    /// Whether the given key's material equals some authorized key's.
    fn is_authorized(&self, key: &SignerKey) -> (r: bool)
        ensures
            r == self.is_authorized_key(key.bytes@),
    {
        let mut i: usize = 0;
        while i < self.authorized_keys.len()
            invariant
                i <= self.authorized_keys@.len(),
                forall|j: int| 0 <= j < i ==> self.authorized_keys@[j].bytes@ != key.bytes@,
            decreases self.authorized_keys@.len() - i,
        {
            if bytes_eq(self.authorized_keys[i].bytes.as_slice(), key.bytes.as_slice()) {
                return true;
            }
            i = i + 1;
        }
        false
    }

    /// The index of the pending record with the given id, if any.
    fn find_index(&self, tx_id: &str) -> (r: Option<usize>)
        requires
            self.wf(),
        ensures
            match r {
                Option::Some(i) => {
                    &&& self.has_pending(tx_id@)
                    &&& i < self.pending_transactions@.len()
                    &&& self.idx_of(tx_id@) == i
                },
                Option::None => !self.has_pending(tx_id@),
            },
    {
        let mut i: usize = 0;
        while i < self.pending_transactions.len()
            invariant
                self.wf(),
                i <= self.pending_transactions@.len(),
                forall|j: int|
                    0 <= j < i ==> self.pending_transactions@[j].transaction@.id != tx_id@,
            decreases self.pending_transactions@.len() - i,
        {
            if str_eq(self.pending_transactions[i].transaction.id.as_str(), tx_id) {
                proof {
                    self.lemma_idx_at(i as int);
                }
                return Option::Some(i);
            }
            i = i + 1;
        }
        Option::None
    }

    /// Proposes a transaction: a fresh pending record with no signatures
    /// and not executed, keyed by the transaction's id. Re-proposing an id
    /// already tracked replaces its record unconditionally. Always
    /// succeeds.
    pub fn propose_transaction(&mut self, transaction: Transaction) -> (r: Result<
        (),
        MultisigError,
    >)
        requires
            old(self).wf(),
        ensures
            r is Ok,
            final(self).wf(),
            final(self).has_pending(transaction@.id),
            final(self).rec(transaction@.id).transaction@ == transaction@,
            final(self).sig_count(transaction@.id) == 0,
            !final(self).is_executed(transaction@.id),
            final(self).threshold == old(self).threshold,
            final(self).total_signers == old(self).total_signers,
            final(self).authorized_keys == old(self).authorized_keys,
            final(self).authorized_keys_hex == old(self).authorized_keys_hex,
            old(self).has_pending(transaction@.id) ==> final(self).pending_transactions@.len()
                == old(self).pending_transactions@.len(),
            !old(self).has_pending(transaction@.id) ==> final(self).pending_transactions@.len()
                == old(self).pending_transactions@.len() + 1,
            forall|id2: Seq<char>|
                id2 != transaction@.id ==> (final(self).has_pending(id2) <==> old(self).has_pending(
                    id2,
                )),
            forall|id2: Seq<char>|
                id2 != transaction@.id && old(self).has_pending(id2) ==> final(self).rec(id2)
                    == old(self).rec(id2),
    {
        let ghost id = transaction@.id;
        let pending = PendingTransaction { transaction, signatures: Vec::new(), executed: false };
        let tx_id_owned = pending.transaction.id.clone();
        match self.find_index(tx_id_owned.as_str()) {
            Option::Some(i) => {
                let ghost old_pending = self.pending_transactions@;
                let ghost rec = pending;
                let _ = self.pending_transactions.remove(i);
                self.pending_transactions.insert(i, pending);
                proof {
                    assert(self.pending_transactions@ =~= old_pending.update(i as int, rec));
                    assert(forall|j: int|
                        0 <= j < old_pending.len() ==> self.pending_transactions@[j].transaction@.id
                            == old_pending[j].transaction@.id);
                    assert(self.wf());
                    self.lemma_idx_at(i as int);
                    assert forall|id2: Seq<char>|
                        id2 != id && old(self).has_pending(id2) implies final(self).rec(id2)
                        == old(self).rec(id2) by {
                        let k = old(self).idx_of(id2);
                        assert(0 <= k < old_pending.len() && old_pending[k].transaction@.id == id2);
                        assert(k != i as int);
                        self.lemma_idx_at(k);
                    }
                    assert forall|id2: Seq<char>| id2 != id implies (final(self).has_pending(id2)
                        <==> old(self).has_pending(id2)) by {
                        if old(self).has_pending(id2) {
                            let k = old(self).idx_of(id2);
                            assert(self.pending_transactions@[k].transaction@.id == id2);
                        }
                        if final(self).has_pending(id2) {
                            let k = final(self).idx_of(id2);
                            assert(old_pending[k].transaction@.id == id2);
                        }
                    }
                }
                Ok(())
            },
            Option::None => {
                let ghost old_pending = self.pending_transactions@;
                self.pending_transactions.push(pending);
                proof {
                    let n = old_pending.len() as int;
                    assert(self.pending_transactions@[n].transaction@.id == id);
                    assert(forall|j: int|
                        0 <= j < n ==> self.pending_transactions@[j] == old_pending[j]);
                    assert(self.wf());
                    assert(self.has_pending(id));
                    self.lemma_idx_at(n);
                    assert forall|id2: Seq<char>|
                        id2 != id && old(self).has_pending(id2) implies final(self).rec(id2)
                        == old(self).rec(id2) by {
                        let k = old(self).idx_of(id2);
                        assert(0 <= k < n && old_pending[k].transaction@.id == id2);
                        self.lemma_idx_at(k);
                    }
                    assert forall|id2: Seq<char>| id2 != id implies (final(self).has_pending(id2)
                        <==> old(self).has_pending(id2)) by {
                        if old(self).has_pending(id2) {
                            let k = old(self).idx_of(id2);
                            assert(self.pending_transactions@[k].transaction@.id == id2);
                        }
                        if final(self).has_pending(id2) {
                            let k = final(self).idx_of(id2);
                            assert(0 <= k < n + 1 && self.pending_transactions@[k].transaction@.id
                                == id2);
                            assert(k != n);
                            assert(old_pending[k].transaction@.id == id2);
                        }
                    }
                }
                Ok(())
            },
        }
    }

    /// Whether a signature under the given signer identifier is already
    /// recorded at index `idx`.
    fn has_signer(&self, idx: usize, signer_hex: &str) -> (r: bool)
        requires
            idx < self.pending_transactions@.len(),
        ensures
            r == exists|k: int|
                0 <= k < self.pending_transactions@[idx as int].signatures@.len()
                    && self.pending_transactions@[idx as int].signatures@[k].signer_hex@
                    == signer_hex@,
    {
        let sigs = &self.pending_transactions[idx].signatures;
        let mut k: usize = 0;
        while k < sigs.len()
            invariant
                k <= sigs@.len(),
                sigs@ == self.pending_transactions@[idx as int].signatures@,
                forall|l: int| 0 <= l < k ==> sigs@[l].signer_hex@ != signer_hex@,
            decreases sigs@.len() - k,
        {
            if str_eq(sigs[k].signer_hex.as_str(), signer_hex) {
                return true;
            }
            k = k + 1;
        }
        false
    }

    /// Admits one signature for a pending transaction, checking in order:
    /// the signer must be authorized (by key material), the transaction
    /// must be tracked, not yet executed, the signature must verify
    /// against the transaction's canonical bytes and the signer's key, and
    /// the signer must not already be recorded. On success exactly one
    /// record is appended under the signer's derived identifier; on any
    /// error the wallet is unchanged.
    pub fn add_signature(
        &mut self,
        tx_id: &str,
        signature: &SignatureBytes,
        signer_pubkey: &SignerKey,
    ) -> (r: Result<(), MultisigError>)
        requires
            old(self).wf(),
        ensures
            final(self).wf(),
            ({
                let key = signer_pubkey.bytes@;
                let id = tx_id@;
                let authorized = old(self).is_authorized_key(key);
                let found = old(self).has_pending(id);
                let executed = old(self).is_executed(id);
                let valid = sig_verifies(
                    tx_encoding(old(self).rec(id).transaction@),
                    signature.bytes@,
                    key,
                );
                let dup = old(self).signer_recorded(id, hex_of(key));
                &&& (r == Err::<(), MultisigError>(MultisigError::UnauthorizedSigner) <==> !authorized)
                &&& (r == Err::<(), MultisigError>(MultisigError::TransactionNotFound) <==> authorized
                    && !found)
                &&& (r == Err::<(), MultisigError>(MultisigError::TransactionAlreadyExecuted) <==> authorized
                    && found && executed)
                &&& (r == Err::<(), MultisigError>(MultisigError::InvalidSignature) <==> authorized
                    && found && !executed && !valid)
                &&& (r == Err::<(), MultisigError>(MultisigError::DuplicateSignature) <==> authorized
                    && found && !executed && valid && dup)
                &&& (r is Ok <==> authorized && found && !executed && valid && !dup)
                &&& (r is Err ==> *final(self) == *old(self))
                &&& (r is Ok ==> {
                    &&& final(self).has_pending(id)
                    &&& final(self).rec(id).transaction == old(self).rec(id).transaction
                    &&& final(self).rec(id).executed == old(self).rec(id).executed
                    &&& final(self).sig_count(id) == old(self).sig_count(id) + 1
                    &&& final(self).rec(id).signatures@.drop_last() == old(self).rec(
                        id,
                    ).signatures@
                    &&& final(self).rec(id).signatures@.last().signer_hex@ == hex_of(key)
                    &&& final(self).rec(id).signatures@.last().signature_hex@ == hex_of(
                        signature.bytes@,
                    )
                    &&& forall|h: Seq<char>|
                        final(self).signer_recorded(id, h) <==> (old(self).signer_recorded(id, h)
                            || h == hex_of(key))
                    &&& final(self).threshold == old(self).threshold
                    &&& final(self).total_signers == old(self).total_signers
                    &&& final(self).authorized_keys == old(self).authorized_keys
                    &&& final(self).authorized_keys_hex == old(self).authorized_keys_hex
                    &&& final(self).pending_transactions@.len() == old(
                        self,
                    ).pending_transactions@.len()
                    &&& forall|id2: Seq<char>|
                        final(self).has_pending(id2) <==> old(self).has_pending(id2)
                    &&& forall|id2: Seq<char>|
                        id2 != id && old(self).has_pending(id2) ==> final(self).rec(id2) == old(
                            self,
                        ).rec(id2)
                })
            }),
    {
        let ghost id = tx_id@;
        let ghost key = signer_pubkey.bytes@;
        if !self.is_authorized(signer_pubkey) {
            return Err(MultisigError::UnauthorizedSigner);
        }
        let idx = match self.find_index(tx_id) {
            Option::None => {
                return Err(MultisigError::TransactionNotFound);
            },
            Option::Some(i) => i,
        };
        if self.pending_transactions[idx].executed {
            return Err(MultisigError::TransactionAlreadyExecuted);
        }
        let tx_bytes = self.pending_transactions[idx].transaction.to_bytes();
        let valid = match verify_signature(tx_bytes.as_slice(), signature, signer_pubkey) {
            Ok(v) => v,
            Err(e) => {
                return Err(e);
            },
        };
        if !valid {
            return Err(MultisigError::InvalidSignature);
        }
        let signer_hex = hex_encode(signer_pubkey.bytes.as_slice());
        if self.has_signer(idx, signer_hex.as_str()) {
            return Err(MultisigError::DuplicateSignature);
        }
        let signature_hex = hex_encode(signature.bytes.as_slice());
        let ghost old_pending = self.pending_transactions@;
        let mut p = self.pending_transactions.remove(idx);
        p.signatures.push(SignatureRecord { signer_hex, signature_hex });
        let ghost p2 = p;
        self.pending_transactions.insert(idx, p);
        proof {
            assert(self.pending_transactions@ =~= old_pending.update(idx as int, p2));
            assert(forall|j: int|
                0 <= j < old_pending.len() ==> self.pending_transactions@[j].transaction@.id
                    == old_pending[j].transaction@.id);
            assert(rec_wf(p2)) by {
                let sigs = p2.signatures@;
                assert(forall|k: int|
                    0 <= k < sigs.len() - 1 ==> sigs[k] == old_pending[idx as int].signatures@[k]);
            }
            assert(self.wf());
            self.lemma_idx_at(idx as int);
            assert(final(self).rec(id) == p2);
            assert(final(self).rec(id).signatures@.drop_last() =~= old(self).rec(id).signatures@);
            assert forall|h: Seq<char>|
                final(self).signer_recorded(id, h) implies (old(self).signer_recorded(id, h)
                || h == hex_of(key)) by {
                let k = choose|k: int|
                    0 <= k < p2.signatures@.len() && p2.signatures@[k].signer_hex@ == h;
                if k < p2.signatures@.len() - 1 {
                    assert(old(self).rec(id).signatures@[k].signer_hex@ == h);
                }
            }
            assert forall|h: Seq<char>|
                old(self).signer_recorded(id, h) || h == hex_of(key)
                implies final(self).signer_recorded(id, h) by {
                if old(self).signer_recorded(id, h) {
                    let k = choose|k: int|
                        0 <= k < old(self).rec(id).signatures@.len() && old(self).rec(
                            id,
                        ).signatures@[k].signer_hex@ == h;
                    assert(p2.signatures@[k].signer_hex@ == h);
                } else {
                    assert(p2.signatures@[p2.signatures@.len() - 1].signer_hex@ == h);
                }
            }
            assert forall|id2: Seq<char>|
                id2 != id && old(self).has_pending(id2) implies final(self).rec(id2) == old(
                self,
            ).rec(id2) by {
                let k = old(self).idx_of(id2);
                assert(0 <= k < old_pending.len() && old_pending[k].transaction@.id == id2);
                assert(k != idx as int);
                self.lemma_idx_at(k);
            }
            assert forall|id2: Seq<char>| final(self).has_pending(id2) == old(self).has_pending(
                id2,
            ) by {
                if final(self).has_pending(id2) {
                    let k = final(self).idx_of(id2);
                    assert(old_pending[k].transaction@.id == id2);
                }
                if old(self).has_pending(id2) {
                    let k = old(self).idx_of(id2);
                    assert(self.pending_transactions@[k].transaction@.id == id2);
                }
            }
        }
        Ok(())
    }

    /// Whether the given transaction has at least the threshold's worth of
    /// admitted signatures. Fails only when the id is not tracked.
    pub fn has_enough_signatures(&self, tx_id: &str) -> (r: Result<bool, MultisigError>)
        requires
            self.wf(),
        ensures
            self.has_pending(tx_id@) ==> r == Ok::<bool, MultisigError>(
                self.sig_count(tx_id@) >= self.threshold,
            ),
            !self.has_pending(tx_id@) ==> r == Err::<bool, MultisigError>(
                MultisigError::TransactionNotFound,
            ),
    {
        match self.find_index(tx_id) {
            Option::None => Err(MultisigError::TransactionNotFound),
            Option::Some(i) => Ok(self.pending_transactions[i].signatures.len() >= self.threshold),
        }
    }

    /// The number of distinct admitted signatures for the given
    /// transaction. Fails only when the id is not tracked.
    pub fn get_signature_count(&self, tx_id: &str) -> (r: Result<usize, MultisigError>)
        requires
            self.wf(),
        ensures
            self.has_pending(tx_id@) ==> (r matches Ok(c) && c == self.sig_count(tx_id@)),
            !self.has_pending(tx_id@) ==> r == Err::<usize, MultisigError>(
                MultisigError::TransactionNotFound,
            ),
    {
        match self.find_index(tx_id) {
            Option::None => Err(MultisigError::TransactionNotFound),
            Option::Some(i) => Ok(self.pending_transactions[i].signatures.len()),
        }
    }

    /// Executes a transaction once it has enough signatures: fails with
    /// TransactionNotFound for an untracked id, with InsufficientSignatures
    /// (carrying the required threshold and the actual count) below the
    /// threshold, and with TransactionAlreadyExecuted on a terminal
    /// record; otherwise marks the record executed — the sole, one-time
    /// terminal transition — and returns a copy of the transaction. On any
    /// error the wallet is unchanged, so a second execution of the same id
    /// always fails.
    pub fn execute_transaction(&mut self, tx_id: &str) -> (r: Result<Transaction, MultisigError>)
        requires
            old(self).wf(),
        ensures
            final(self).wf(),
            ({
                let id = tx_id@;
                let found = old(self).has_pending(id);
                let enough = old(self).sig_count(id) >= old(self).threshold;
                let executed = old(self).is_executed(id);
                &&& (!found ==> r == Err::<Transaction, MultisigError>(
                    MultisigError::TransactionNotFound,
                ) && *final(self) == *old(self))
                &&& (found && !enough ==> r == Err::<Transaction, MultisigError>(
                    MultisigError::InsufficientSignatures {
                        required: old(self).threshold,
                        actual: old(self).sig_count(id) as usize,
                    },
                ) && *final(self) == *old(self))
                &&& (found && enough && executed ==> r == Err::<Transaction, MultisigError>(
                    MultisigError::TransactionAlreadyExecuted,
                ) && *final(self) == *old(self))
                &&& (found && enough && !executed ==> {
                    &&& r matches Ok(tx) && tx@ == old(self).rec(id).transaction@
                    &&& final(self).has_pending(id)
                    &&& final(self).is_executed(id)
                    &&& final(self).rec(id).transaction == old(self).rec(id).transaction
                    &&& final(self).rec(id).signatures == old(self).rec(id).signatures
                    &&& final(self).sig_count(id) == old(self).sig_count(id)
                    &&& final(self).threshold == old(self).threshold
                    &&& final(self).total_signers == old(self).total_signers
                    &&& final(self).authorized_keys == old(self).authorized_keys
                    &&& final(self).authorized_keys_hex == old(self).authorized_keys_hex
                    &&& final(self).pending_transactions@.len() == old(
                        self,
                    ).pending_transactions@.len()
                    &&& forall|id2: Seq<char>|
                        final(self).has_pending(id2) <==> old(self).has_pending(id2)
                    &&& forall|id2: Seq<char>|
                        id2 != id && old(self).has_pending(id2) ==> final(self).rec(id2) == old(
                            self,
                        ).rec(id2)
                })
            }),
    {
        let ghost id = tx_id@;
        let idx = match self.find_index(tx_id) {
            Option::None => {
                return Err(MultisigError::TransactionNotFound);
            },
            Option::Some(i) => i,
        };
        let count = self.pending_transactions[idx].signatures.len();
        if count < self.threshold {
            return Err(
                MultisigError::InsufficientSignatures { required: self.threshold, actual: count },
            );
        }
        if self.pending_transactions[idx].executed {
            return Err(MultisigError::TransactionAlreadyExecuted);
        }
        let ghost old_pending = self.pending_transactions@;
        let mut p = self.pending_transactions.remove(idx);
        p.executed = true;
        let tx = p.transaction.clone();
        let ghost p2 = p;
        self.pending_transactions.insert(idx, p);
        proof {
            assert(self.pending_transactions@ =~= old_pending.update(idx as int, p2));
            assert(forall|j: int|
                0 <= j < old_pending.len() ==> self.pending_transactions@[j].transaction@.id
                    == old_pending[j].transaction@.id);
            assert(self.wf());
            self.lemma_idx_at(idx as int);
            assert(final(self).rec(id) == p2);
            assert forall|id2: Seq<char>|
                id2 != id && old(self).has_pending(id2) implies final(self).rec(id2) == old(
                self,
            ).rec(id2) by {
                let k = old(self).idx_of(id2);
                assert(0 <= k < old_pending.len() && old_pending[k].transaction@.id == id2);
                assert(k != idx as int);
                self.lemma_idx_at(k);
            }
            assert forall|id2: Seq<char>| final(self).has_pending(id2) implies old(
                self,
            ).has_pending(id2) by {
                let k = final(self).idx_of(id2);
                assert(old_pending[k].transaction@.id == id2);
            }
        }
        Ok(tx)
    }

    /// A read-only snapshot: the threshold, the fixed signer count, and
    /// how many transactions are tracked (executed ones included — the map
    /// is never pruned).
    pub fn info(&self) -> (r: WalletInfo)
        ensures
            r.threshold == self.threshold,
            r.total_signers == self.total_signers,
            r.pending_count == self.pending_transactions@.len(),
    {
        WalletInfo {
            threshold: self.threshold,
            total_signers: self.total_signers,
            pending_count: self.pending_transactions.len(),
        }
    }
}

/// Monotonic signature admission: the signer identifiers in a well-formed
/// record are pairwise distinct, so the signature count always equals the
/// number of distinct signers recorded. Together with the contract of
/// add_signature (each successful admission appends exactly one new
/// signer, and a repeated signer is rejected), after K admissions from K
/// distinct signers the count is exactly K, and has_enough_signatures
/// answers K >= M.
pub proof fn lemma_count_is_distinct_signers(w: MultisigWallet, id: Seq<char>)
    requires
        w.wf(),
        w.has_pending(id),
    ensures
        w.rec(id).signatures@.map_values(|s: SignatureRecord| s.signer_hex@).to_set().len()
            == w.sig_count(id),
{
    let sigs = w.rec(id).signatures@;
    let hexes = sigs.map_values(|s: SignatureRecord| s.signer_hex@);
    let j = w.idx_of(id);
    assert(0 <= j < w.pending_transactions@.len());
    assert(rec_wf(w.rec(id)));
    assert forall|k: int, l: int| 0 <= k < hexes.len() && 0 <= l < hexes.len() && k != l
        implies hexes[k] != hexes[l] by {
        if k < l {
            assert(sigs[k].signer_hex@ != sigs[l].signer_hex@);
        } else {
            assert(sigs[l].signer_hex@ != sigs[k].signer_hex@);
        }
    }
    assert(hexes.no_duplicates());
    hexes.unique_seq_to_set();
}

/// Distinct signers keep distinct derived identifiers: the hex identifier
/// is injective in the key material, so admitting signatures from two
/// different authorized keys never trips duplicate detection, and a
/// duplicate identifier always means the same physical signer.
pub proof fn lemma_distinct_keys_distinct_ids(a: Seq<u8>, b: Seq<u8>)
    requires
        a != b,
    ensures
        hex_of(a) != hex_of(b),
{
    if hex_of(a) == hex_of(b) {
        lemma_hex_of_injective(a, b);
    }
}

} // verus!
