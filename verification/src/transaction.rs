//! The transaction record: an immutable transfer intent with a
//! content-derived identifier. The identifier is the SHA-256 digest of the
//! canonical encoding of the other five fields, rendered as lowercase hex,
//! so any party can recompute and check a transaction's identity from its
//! content. The canonical byte form of all six fields is the exact payload
//! that signers sign and the wallet verifies.

use vstd::prelude::*;
use vstd::utf8::{encode_utf8, valid_utf8, decode_utf8, encode_utf8_valid_utf8,
    encode_utf8_decode_utf8};
use crate::codec::{u64_be, enc_bytes, enc_opt_bytes, parse_u64, parse_bytes, parse_opt_bytes,
    push_u64_be, push_bytes_field, read_u64, read_bytes_field, read_opt_bytes_field, hex_of,
    hex_encode, bytes_to_string, lemma_parse_u64_enc, lemma_parse_bytes_enc,
    lemma_parse_opt_bytes_enc};
use crate::crypto::{sha256_of, hash_message, sign_message, SignatureBytes};
use crate::error::MultisigError;

verus! {

/// A transaction as a mathematical value: the six fields with strings as
/// character sequences.
pub ghost struct TxView {
    pub id: Seq<char>,
    pub recipient: Seq<char>,
    pub amount: u64,
    pub metadata: Option<Seq<char>>,
    pub timestamp: u64,
    pub nonce: u64,
}

/// A transfer intent. Created once and immutable thereafter; `id` is a
/// pure function of the other five fields.
#[derive(Debug)]
pub struct Transaction {
    pub id: String,
    pub recipient: String,
    pub amount: u64,
    pub metadata: Option<String>,
    pub timestamp: u64,
    pub nonce: u64,
}

/// The view of an optional string field.
pub open spec fn opt_str_view(m: Option<String>) -> Option<Seq<char>> {
    match m {
        Option::None => Option::None,
        Option::Some(s) => Option::Some(s@),
    }
}

/// The UTF-8 bytes of an optional string field.
pub open spec fn opt_utf8(m: Option<Seq<char>>) -> Option<Seq<u8>> {
    match m {
        Option::None => Option::None,
        Option::Some(s) => Option::Some(encode_utf8(s)),
    }
}

impl View for Transaction {
    type V = TxView;

    open spec fn view(&self) -> TxView {
        TxView {
            id: self.id@,
            recipient: self.recipient@,
            amount: self.amount,
            metadata: opt_str_view(self.metadata),
            timestamp: self.timestamp,
            nonce: self.nonce,
        }
    }
}

impl Clone for Transaction {
    fn clone(&self) -> (r: Self)
        ensures
            r@ == self@,
    {
        Transaction {
            id: self.id.clone(),
            recipient: self.recipient.clone(),
            amount: self.amount,
            metadata: match &self.metadata {
                Option::None => Option::None,
                Option::Some(m) => Option::Some(m.clone()),
            },
            timestamp: self.timestamp,
            nonce: self.nonce,
        }
    }
}

/// The canonical byte encoding of the five content fields, the payload
/// whose digest is the transaction id: each string as a length-prefixed
/// UTF-8 field, each integer as eight big-endian bytes, the optional
/// metadata behind a presence tag.
pub open spec fn id_payload(
    recipient: Seq<char>,
    amount: u64,
    metadata: Option<Seq<char>>,
    timestamp: u64,
    nonce: u64,
) -> Seq<u8> {
    enc_bytes(encode_utf8(recipient)) + (u64_be(amount) + (enc_opt_bytes(opt_utf8(metadata)) + (
    u64_be(timestamp) + u64_be(nonce))))
}

/// The content-derived identifier: the SHA-256 digest of the canonical
/// field encoding, rendered as lowercase hex.
pub open spec fn tx_id_of(
    recipient: Seq<char>,
    amount: u64,
    metadata: Option<Seq<char>>,
    timestamp: u64,
    nonce: u64,
) -> Seq<char> {
    hex_of(sha256_of(id_payload(recipient, amount, metadata, timestamp, nonce)))
}

/// The canonical byte encoding of all six fields: the signing payload.
pub open spec fn tx_encoding(v: TxView) -> Seq<u8> {
    enc_bytes(encode_utf8(v.id)) + id_payload(v.recipient, v.amount, v.metadata, v.timestamp,
        v.nonce)
}

/// The inverse reading of `tx_encoding`: the transaction recovered from a
/// byte sequence, if the bytes are exactly one well-formed encoding whose
/// string fields are valid UTF-8.
pub open spec fn tx_parse(b: Seq<u8>) -> Option<TxView> {
    match parse_bytes(b) {
        Option::None => Option::None,
        Option::Some((idb, r1)) => match parse_bytes(r1) {
            Option::None => Option::None,
            Option::Some((recb, r2)) => match parse_u64(r2) {
                Option::None => Option::None,
                Option::Some((amount, r3)) => match parse_opt_bytes(r3) {
                    Option::None => Option::None,
                    Option::Some((metab, r4)) => match parse_u64(r4) {
                        Option::None => Option::None,
                        Option::Some((timestamp, r5)) => match parse_u64(r5) {
                            Option::None => Option::None,
                            Option::Some((nonce, r6)) => if r6.len() == 0 && valid_utf8(idb)
                                && valid_utf8(recb) && (metab matches Option::Some(mb)
                                ==> valid_utf8(mb)) {
                                Option::Some(
                                    TxView {
                                        id: decode_utf8(idb),
                                        recipient: decode_utf8(recb),
                                        amount,
                                        metadata: match metab {
                                            Option::None => Option::None,
                                            Option::Some(mb) => Option::Some(decode_utf8(mb)),
                                        },
                                        timestamp,
                                        nonce,
                                    },
                                )
                            } else {
                                Option::None
                            },
                        },
                    },
                },
            },
        },
    }
}

/// Appends an optional string field (presence tag, then the
/// length-prefixed UTF-8 bytes) to `out`.
fn push_opt_str_field(out: &mut Vec<u8>, m: &Option<String>)
    ensures
        final(out)@ == old(out)@ + enc_opt_bytes(opt_utf8(opt_str_view(*m))),
{
    match m {
        Option::None => {
            out.push(0u8);
            assert(out@ =~= old(out)@ + enc_opt_bytes(opt_utf8(opt_str_view(*m))));
        },
        Option::Some(s) => {
            out.push(1u8);
            push_bytes_field(out, s.as_str().as_bytes());
            assert(out@ =~= old(out)@ + enc_opt_bytes(opt_utf8(opt_str_view(*m))));
        },
    }
}

/// Relies on std::time::SystemTime::now: the seconds since the Unix epoch
/// at the call; nothing is promised of the value.
#[verifier::external_body]
fn now_seconds() -> u64 {
    std::time::SystemTime::now()
        .duration_since(std::time::UNIX_EPOCH)
        .map(|d| d.as_secs())
        .unwrap_or(0)
}

/// Relies on rand::random: a fresh random 64-bit value for replay
/// resistance; nothing is promised of it.
#[verifier::external_body]
fn fresh_nonce() -> u64 {
    rand::random::<u64>()
}

/// Computes the content-derived identifier of the five fields.
fn calculate_id(
    recipient: &str,
    amount: u64,
    metadata: &Option<String>,
    timestamp: u64,
    nonce: u64,
) -> (r: String)
    ensures
        r@ == tx_id_of(recipient@, amount, opt_str_view(*metadata), timestamp, nonce),
{
    let mut payload: Vec<u8> = Vec::new();
    push_bytes_field(&mut payload, recipient.as_bytes());
    push_u64_be(&mut payload, amount);
    push_opt_str_field(&mut payload, metadata);
    push_u64_be(&mut payload, timestamp);
    push_u64_be(&mut payload, nonce);
    assert(payload@ =~= id_payload(recipient@, amount, opt_str_view(*metadata), timestamp, nonce));
    let digest = hash_message(payload.as_slice());
    hex_encode(&digest)
}

impl Transaction {
    /// Builds the transaction from all five content fields; the id is the
    /// content-derived identifier of exactly those fields. Equal fields
    /// always give equal ids.
    pub fn from_parts(
        recipient: String,
        amount: u64,
        metadata: Option<String>,
        timestamp: u64,
        nonce: u64,
    ) -> (r: Transaction)
        ensures
            r@.recipient == recipient@,
            r@.amount == amount,
            r@.metadata == opt_str_view(metadata),
            r@.timestamp == timestamp,
            r@.nonce == nonce,
            r@.id == tx_id_of(recipient@, amount, opt_str_view(metadata), timestamp, nonce),
    {
        let id = calculate_id(recipient.as_str(), amount, &metadata, timestamp, nonce);
        Transaction { id, recipient, amount, metadata, timestamp, nonce }
    }

    /// Creates a transaction at the current time with a fresh random
    /// nonce. Always succeeds.
    pub fn new(recipient: String, amount: u64, metadata: Option<String>) -> (r: Transaction)
        ensures
            r@.recipient == recipient@,
            r@.amount == amount,
            r@.metadata == opt_str_view(metadata),
            r@.id == tx_id_of(recipient@, amount, opt_str_view(metadata), r@.timestamp, r@.nonce),
    {
        let timestamp = now_seconds();
        let nonce = fresh_nonce();
        Transaction::from_parts(recipient, amount, metadata, timestamp, nonce)
    }

    /// The canonical byte serialization of all six fields: the exact
    /// payload that signers sign and verifiers verify, stable across runs
    /// for the same field values.
    pub fn to_bytes(&self) -> (r: Vec<u8>)
        ensures
            r@ == tx_encoding(self@),
    {
        let mut out: Vec<u8> = Vec::new();
        push_bytes_field(&mut out, self.id.as_str().as_bytes());
        push_bytes_field(&mut out, self.recipient.as_str().as_bytes());
        push_u64_be(&mut out, self.amount);
        push_opt_str_field(&mut out, &self.metadata);
        push_u64_be(&mut out, self.timestamp);
        push_u64_be(&mut out, self.nonce);
        assert(out@ =~= tx_encoding(self@));
        out
    }

    /// Decodes a canonical byte serialization back into a transaction.
    /// Succeeds exactly on byte sequences that are one well-formed
    /// encoding with valid UTF-8 string fields, and then recovers exactly
    /// the encoded fields.
    pub fn from_bytes(bytes: &[u8]) -> (r: Result<Transaction, MultisigError>)
        ensures
            r is Ok <==> tx_parse(bytes@) is Some,
            r matches Ok(tx) ==> Option::Some(tx@) == tx_parse(bytes@),
            r matches Err(e) ==> e == MultisigError::SerializationError,
    {
        proof {
            assert(bytes@.skip(0) =~= bytes@);
        }
        let (idb, i1) = match read_bytes_field(bytes, 0) {
            Option::None => {
                return Result::Err(MultisigError::SerializationError);
            },
            Option::Some(p) => p,
        };
        let (recb, i2) = match read_bytes_field(bytes, i1) {
            Option::None => {
                return Result::Err(MultisigError::SerializationError);
            },
            Option::Some(p) => p,
        };
        let (amount, i3) = match read_u64(bytes, i2) {
            Option::None => {
                return Result::Err(MultisigError::SerializationError);
            },
            Option::Some(p) => p,
        };
        let (metab, i4) = match read_opt_bytes_field(bytes, i3) {
            Option::None => {
                return Result::Err(MultisigError::SerializationError);
            },
            Option::Some(p) => p,
        };
        let (timestamp, i5) = match read_u64(bytes, i4) {
            Option::None => {
                return Result::Err(MultisigError::SerializationError);
            },
            Option::Some(p) => p,
        };
        let (nonce, i6) = match read_u64(bytes, i5) {
            Option::None => {
                return Result::Err(MultisigError::SerializationError);
            },
            Option::Some(p) => p,
        };
        if i6 != bytes.len() {
            return Result::Err(MultisigError::SerializationError);
        }
        assert(bytes@.skip(i6 as int).len() == 0);
        let id = match bytes_to_string(idb) {
            Option::None => {
                return Result::Err(MultisigError::SerializationError);
            },
            Option::Some(s) => s,
        };
        let recipient = match bytes_to_string(recb) {
            Option::None => {
                return Result::Err(MultisigError::SerializationError);
            },
            Option::Some(s) => s,
        };
        let metadata = match metab {
            Option::None => Option::None,
            Option::Some(mb) => match bytes_to_string(mb) {
                Option::None => {
                    return Result::Err(MultisigError::SerializationError);
                },
                Option::Some(s) => Option::Some(s),
            },
        };
        let tx = Transaction { id, recipient, amount, metadata, timestamp, nonce };
        Result::Ok(tx)
    }

    /// Signs the canonical byte form with the given secret key through the
    /// cryptographic service. Always succeeds; the signature is 64 bytes.
    pub fn sign(&self, secret_key: &secp256k1::SecretKey) -> (r: Result<
        SignatureBytes,
        MultisigError,
    >)
        ensures
            r is Ok,
            r->Ok_0.bytes@.len() == 64,
    {
        let message = self.to_bytes();
        sign_message(message.as_slice(), secret_key)
    }
}

/// Identity determinism: the content-derived identifier is a pure
/// function of the five content fields, so two transactions built from
/// equal recipient, amount, metadata, timestamp and nonce always carry
/// equal ids.
pub proof fn lemma_id_deterministic(
    recipient1: Seq<char>,
    amount1: u64,
    metadata1: Option<Seq<char>>,
    timestamp1: u64,
    nonce1: u64,
    recipient2: Seq<char>,
    amount2: u64,
    metadata2: Option<Seq<char>>,
    timestamp2: u64,
    nonce2: u64,
)
    requires
        recipient1 == recipient2,
        amount1 == amount2,
        metadata1 == metadata2,
        timestamp1 == timestamp2,
        nonce1 == nonce2,
    ensures
        tx_id_of(recipient1, amount1, metadata1, timestamp1, nonce1) == tx_id_of(
            recipient2,
            amount2,
            metadata2,
            timestamp2,
            nonce2,
        ),
{
}

/// Round trip: parsing the canonical encoding of any transaction value
/// recovers exactly that value. Together with the contracts of `to_bytes`
/// and `from_bytes`, decoding an encoded transaction yields one with
/// identical fields, in particular identical id and amount.
pub proof fn lemma_tx_round_trip(v: TxView)
    requires
        encode_utf8(v.id).len() <= u64::MAX,
        encode_utf8(v.recipient).len() <= u64::MAX,
        v.metadata matches Option::Some(m) ==> encode_utf8(m).len() <= u64::MAX,
    ensures
        tx_parse(tx_encoding(v)) == Option::Some(v),
{
    broadcast use encode_utf8_valid_utf8, encode_utf8_decode_utf8;

    let e_id = encode_utf8(v.id);
    let e_rec = encode_utf8(v.recipient);
    let e_meta = opt_utf8(v.metadata);
    let r6 = Seq::<u8>::empty();
    let r5 = u64_be(v.nonce);
    let r4 = u64_be(v.timestamp) + r5;
    let r3 = enc_opt_bytes(e_meta) + r4;
    let r2 = u64_be(v.amount) + r3;
    let r1 = enc_bytes(e_rec) + r2;
    let b = enc_bytes(e_id) + r1;
    assert(b =~= tx_encoding(v));
    lemma_parse_bytes_enc(e_id, r1);
    lemma_parse_bytes_enc(e_rec, r2);
    lemma_parse_u64_enc(v.amount, r3);
    lemma_parse_opt_bytes_enc(e_meta, r4);
    lemma_parse_u64_enc(v.timestamp, r5);
    assert(r5 =~= u64_be(v.nonce) + r6);
    lemma_parse_u64_enc(v.nonce, r6);
    assert(tx_parse(tx_encoding(v)) == Option::Some(v));
}

} // verus!
