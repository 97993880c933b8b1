//! The canonical byte encoding used for transaction identities and signing
//! payloads: fixed-width big-endian integers and length-prefixed byte fields.
//! Encoders and parsers are verified against each other: parsing an encoding
//! recovers exactly what was encoded.

use vstd::prelude::*;
use vstd::string::StringSliceAdditionalSpecFns;
use vstd::utf8::{valid_utf8, decode_utf8, encode_utf8_decode_utf8};

verus! {

/// The lowercase hexadecimal digit for a nibble.
pub open spec fn hex_digit(n: u8) -> char
    recommends
        n < 16,
{
    if n == 0 {
        '0'
    } else if n == 1 {
        '1'
    } else if n == 2 {
        '2'
    } else if n == 3 {
        '3'
    } else if n == 4 {
        '4'
    } else if n == 5 {
        '5'
    } else if n == 6 {
        '6'
    } else if n == 7 {
        '7'
    } else if n == 8 {
        '8'
    } else if n == 9 {
        '9'
    } else if n == 10 {
        'a'
    } else if n == 11 {
        'b'
    } else if n == 12 {
        'c'
    } else if n == 13 {
        'd'
    } else if n == 14 {
        'e'
    } else {
        'f'
    }
}

/// The lowercase hexadecimal rendering of a byte sequence: two digits per
/// byte, high nibble first.
pub open spec fn hex_of(b: Seq<u8>) -> Seq<char> {
    Seq::new(
        b.len() * 2,
        |i: int|
            if i % 2 == 0 {
                hex_digit(b[i / 2] >> 4)
            } else {
                hex_digit(b[i / 2] & 0xf)
            },
    )
}

/// Relies on hex::encode: the lowercase hexadecimal rendering of the
/// bytes, two digits per byte, high nibble first.
#[verifier::external_body]
pub fn hex_encode(b: &[u8]) -> (r: String)
    ensures
        r@ == hex_of(b@),
{
    hex::encode(b)
}

/// The hexadecimal rendering is injective: distinct byte sequences have
/// distinct renderings. In particular the derived textual identifier of a
/// signer's key material never collides with another signer's, so
/// duplicate detection agrees with authorization.
pub proof fn lemma_hex_of_injective(a: Seq<u8>, b: Seq<u8>)
    requires
        hex_of(a) == hex_of(b),
    ensures
        a == b,
{
    assert(hex_of(a).len() == a.len() * 2);
    assert(hex_of(b).len() == b.len() * 2);
    assert(a.len() == b.len());
    assert forall|i: int| 0 <= i < a.len() implies a[i] == b[i] by {
        let x = a[i];
        let y = b[i];
        assert((2 * i) % 2 == 0 && (2 * i) / 2 == i);
        assert((2 * i + 1) % 2 == 1 && (2 * i + 1) / 2 == i);
        assert(hex_of(a)[2 * i] == hex_digit(x >> 4) && hex_of(b)[2 * i] == hex_digit(y >> 4));
        assert(hex_of(a)[2 * i + 1] == hex_digit(x & 0xf) && hex_of(b)[2 * i + 1] == hex_digit(
            y & 0xf,
        ));
        assert(hex_digit(x >> 4) == hex_digit(y >> 4));
        assert(hex_digit(x & 0xf) == hex_digit(y & 0xf));
        assert((x >> 4) < 16 && (y >> 4) < 16 && (x & 0xf) < 16 && (y & 0xf) < 16) by (bit_vector);
        assert(x >> 4 == y >> 4 && x & 0xf == y & 0xf);
        assert(x >> 4 == y >> 4 && x & 0xf == y & 0xf ==> x == y) by (bit_vector);
    }
    assert(a =~= b);
}

/// Whether two byte slices hold the same bytes.
pub fn bytes_eq(a: &[u8], b: &[u8]) -> (r: bool)
    ensures
        r == (a@ == b@),
{
    if a.len() != b.len() {
        assert(a@ != b@);
        return false;
    }
    let mut i: usize = 0;
    while i < a.len()
        invariant
            i <= a@.len(),
            a@.len() == b@.len(),
            forall|j: int| 0 <= j < i ==> a@[j] == b@[j],
        decreases a@.len() - i,
    {
        if a[i] != b[i] {
            return false;
        }
        i = i + 1;
    }
    assert(a@ =~= b@);
    true
}

/// Whether two string slices hold the same characters. Two strings are
/// equal exactly when their UTF-8 bytes are, since UTF-8 decoding inverts
/// encoding.
pub fn str_eq(a: &str, b: &str) -> (r: bool)
    ensures
        r == (a@ == b@),
{
    let r = bytes_eq(a.as_bytes(), b.as_bytes());
    proof {
        if a.spec_bytes() == b.spec_bytes() {
            encode_utf8_decode_utf8(a@);
            encode_utf8_decode_utf8(b@);
        }
    }
    r
}

/// Relies on String::from_utf8: succeeds exactly on valid UTF-8 input and
/// decodes it; vstd's valid_utf8 and decode_utf8 give the meaning.
#[verifier::external_body]
pub fn bytes_to_string(bytes: Vec<u8>) -> (r: Option<String>)
    ensures
        r is Some <==> valid_utf8(bytes@),
        r matches Some(s) ==> s@ == decode_utf8(bytes@),
{
    match String::from_utf8(bytes) {
        Ok(s) => Option::Some(s),
        Err(_) => Option::None,
    }
}

/// The eight big-endian bytes of a 64-bit integer.
pub open spec fn u64_be(n: u64) -> Seq<u8> {
    seq![
        ((n >> 56) & 0xff) as u8,
        ((n >> 48) & 0xff) as u8,
        ((n >> 40) & 0xff) as u8,
        ((n >> 32) & 0xff) as u8,
        ((n >> 24) & 0xff) as u8,
        ((n >> 16) & 0xff) as u8,
        ((n >> 8) & 0xff) as u8,
        (n & 0xff) as u8,
    ]
}

/// The 64-bit integer read from eight big-endian bytes.
pub open spec fn u64_of_be(b: Seq<u8>) -> u64
    recommends
        b.len() == 8,
{
    (((b[0] as u64) << 56) | ((b[1] as u64) << 48) | ((b[2] as u64) << 40) | ((b[3] as u64) << 32)
        | ((b[4] as u64) << 24) | ((b[5] as u64) << 16) | ((b[6] as u64) << 8) | (b[7] as u64)) as u64
}

/// A byte field in the encoding: an eight-byte big-endian length prefix
/// followed by the bytes themselves.
pub open spec fn enc_bytes(b: Seq<u8>) -> Seq<u8>
    recommends
        b.len() <= u64::MAX,
{
    u64_be(b.len() as u64) + b
}

/// An optional byte field: a single tag byte (0 for absent, 1 for present),
/// followed by the field when present.
pub open spec fn enc_opt_bytes(m: Option<Seq<u8>>) -> Seq<u8> {
    match m {
        Option::None => seq![0u8],
        Option::Some(b) => seq![1u8] + enc_bytes(b),
    }
}

/// Parses a 64-bit big-endian integer from the front of `b`, returning it
/// and the remaining bytes.
pub open spec fn parse_u64(b: Seq<u8>) -> Option<(u64, Seq<u8>)> {
    if b.len() >= 8 {
        Option::Some((u64_of_be(b.subrange(0, 8)), b.skip(8)))
    } else {
        Option::None
    }
}

/// Parses a length-prefixed byte field from the front of `b`.
pub open spec fn parse_bytes(b: Seq<u8>) -> Option<(Seq<u8>, Seq<u8>)> {
    match parse_u64(b) {
        Option::None => Option::None,
        Option::Some((n, rest)) => if n <= rest.len() {
            Option::Some((rest.take(n as int), rest.skip(n as int)))
        } else {
            Option::None
        },
    }
}

/// Parses an optional byte field from the front of `b`.
pub open spec fn parse_opt_bytes(b: Seq<u8>) -> Option<(Option<Seq<u8>>, Seq<u8>)> {
    if b.len() < 1 {
        Option::None
    } else if b[0] == 0u8 {
        Option::Some((Option::None, b.skip(1)))
    } else if b[0] == 1u8 {
        match parse_bytes(b.skip(1)) {
            Option::None => Option::None,
            Option::Some((v, rest)) => Option::Some((Option::Some(v), rest)),
        }
    } else {
        Option::None
    }
}

/// Reading back the big-endian bytes of `n` yields `n`.
pub proof fn lemma_u64_be_round_trip(n: u64)
    ensures
        u64_of_be(u64_be(n)) == n,
{
    assert(((((((n >> 56) & 0xff) as u8) as u64) << 56)
        | (((((n >> 48) & 0xff) as u8) as u64) << 48)
        | (((((n >> 40) & 0xff) as u8) as u64) << 40)
        | (((((n >> 32) & 0xff) as u8) as u64) << 32)
        | (((((n >> 24) & 0xff) as u8) as u64) << 24)
        | (((((n >> 16) & 0xff) as u8) as u64) << 16)
        | (((((n >> 8) & 0xff) as u8) as u64) << 8)
        | (((n & 0xff) as u8) as u64)) == n) by (bit_vector);
}

/// Parsing an integer off the front of its own encoding followed by
/// anything recovers the integer and the trailing bytes.
pub proof fn lemma_parse_u64_enc(n: u64, rest: Seq<u8>)
    ensures
        parse_u64(u64_be(n) + rest) == Option::Some((n, rest)),
{
    let b = u64_be(n) + rest;
    assert(b.subrange(0, 8) =~= u64_be(n));
    assert(b.skip(8) =~= rest);
    lemma_u64_be_round_trip(n);
}

/// Parsing a byte field off the front of its own encoding followed by
/// anything recovers the field and the trailing bytes.
pub proof fn lemma_parse_bytes_enc(data: Seq<u8>, rest: Seq<u8>)
    requires
        data.len() <= u64::MAX,
    ensures
        parse_bytes(enc_bytes(data) + rest) == Option::Some((data, rest)),
{
    let n = data.len() as u64;
    let b = enc_bytes(data) + rest;
    assert(b =~= u64_be(n) + (data + rest));
    lemma_parse_u64_enc(n, data + rest);
    assert((data + rest).take(n as int) =~= data);
    assert((data + rest).skip(n as int) =~= rest);
}

/// Parsing an optional byte field off the front of its own encoding
/// followed by anything recovers the field and the trailing bytes.
pub proof fn lemma_parse_opt_bytes_enc(m: Option<Seq<u8>>, rest: Seq<u8>)
    requires
        m matches Option::Some(data) ==> data.len() <= u64::MAX,
    ensures
        parse_opt_bytes(enc_opt_bytes(m) + rest) == Option::Some((m, rest)),
{
    match m {
        Option::None => {
            let b = enc_opt_bytes(m) + rest;
            assert(b[0] == 0u8);
            assert(b.skip(1) =~= rest);
        },
        Option::Some(data) => {
            let b = enc_opt_bytes(m) + rest;
            assert(b[0] == 1u8);
            assert(b.skip(1) =~= enc_bytes(data) + rest);
            lemma_parse_bytes_enc(data, rest);
        },
    }
}

/// Appends the eight big-endian bytes of `n` to `out`.
pub fn push_u64_be(out: &mut Vec<u8>, n: u64)
    ensures
        final(out)@ == old(out)@ + u64_be(n),
{
    out.push(((n >> 56) & 0xff) as u8);
    out.push(((n >> 48) & 0xff) as u8);
    out.push(((n >> 40) & 0xff) as u8);
    out.push(((n >> 32) & 0xff) as u8);
    out.push(((n >> 24) & 0xff) as u8);
    out.push(((n >> 16) & 0xff) as u8);
    out.push(((n >> 8) & 0xff) as u8);
    out.push((n & 0xff) as u8);
    assert(out@ =~= old(out)@ + u64_be(n));
}

/// Appends a length-prefixed byte field holding `data` to `out`.
pub fn push_bytes_field(out: &mut Vec<u8>, data: &[u8])
    ensures
        final(out)@ == old(out)@ + enc_bytes(data@),
{
    push_u64_be(out, data.len() as u64);
    let ghost mid = out@;
    let mut j: usize = 0;
    while j < data.len()
        invariant
            j <= data@.len(),
            out@ == mid + data@.take(j as int),
        decreases data@.len() - j,
    {
        out.push(data[j]);
        assert(out@ =~= mid + data@.take(j as int + 1));
        j = j + 1;
    }
    assert(data@.take(data@.len() as int) =~= data@);
    assert(out@ =~= old(out)@ + enc_bytes(data@));
}

/// Reads a 64-bit big-endian integer from `b` at offset `i`, returning the
/// value and the offset just past it; mirrors `parse_u64` on the bytes
/// from `i` on.
pub fn read_u64(b: &[u8], i: usize) -> (r: Option<(u64, usize)>)
    requires
        i <= b@.len(),
    ensures
        match r {
            Option::Some(p) => {
                &&& parse_u64(b@.skip(i as int)) == Option::Some((p.0, b@.skip(p.1 as int)))
                &&& i <= p.1 <= b@.len()
            },
            Option::None => parse_u64(b@.skip(i as int)) is None,
        },
{
    if b.len() - i < 8 {
        return Option::None;
    }
    let n: u64 = ((b[i] as u64) << 56) | ((b[i + 1] as u64) << 48) | ((b[i + 2] as u64) << 40)
        | ((b[i + 3] as u64) << 32) | ((b[i + 4] as u64) << 24) | ((b[i + 5] as u64) << 16)
        | ((b[i + 6] as u64) << 8) | (b[i + 7] as u64);
    proof {
        let s = b@.skip(i as int);
        assert(s.subrange(0, 8) =~= b@.subrange(i as int, i as int + 8));
        assert(s.skip(8) =~= b@.skip(i as int + 8));
        assert(u64_of_be(s.subrange(0, 8)) == n);
    }
    Option::Some((n, i + 8))
}

/// Reads a length-prefixed byte field from `b` at offset `i`, returning the
/// field's bytes and the offset just past it; mirrors `parse_bytes` on the
/// bytes from `i` on.
pub fn read_bytes_field(b: &[u8], i: usize) -> (r: Option<(Vec<u8>, usize)>)
    requires
        i <= b@.len(),
    ensures
        match r {
            Option::Some(p) => {
                &&& parse_bytes(b@.skip(i as int)) == Option::Some((p.0@, b@.skip(p.1 as int)))
                &&& i <= p.1 <= b@.len()
            },
            Option::None => parse_bytes(b@.skip(i as int)) is None,
        },
{
    let (n, j) = match read_u64(b, i) {
        Option::None => {
            return Option::None;
        },
        Option::Some(p) => p,
    };
    if n > (b.len() - j) as u64 {
        assert(b@.skip(j as int).len() == b@.len() - j);
        return Option::None;
    }
    let len = n as usize;
    let blen = b.len();
    assert(len == n);
    assert(j + len <= b@.len());
    let mut v: Vec<u8> = Vec::new();
    let mut k: usize = 0;
    while k < len
        invariant
            k <= len,
            j + len <= blen,
            blen == b@.len(),
            v@ == b@.subrange(j as int, j as int + k as int),
        decreases len - k,
    {
        v.push(b[j + k]);
        assert(v@ =~= b@.subrange(j as int, j as int + k as int + 1));
        k = k + 1;
    }
    proof {
        let rest = b@.skip(j as int);
        assert(rest.take(n as int) =~= b@.subrange(j as int, j as int + n as int));
        assert(rest.skip(n as int) =~= b@.skip(j as int + n as int));
    }
    Option::Some((v, j + len))
}

/// Reads an optional byte field from `b` at offset `i`; mirrors
/// `parse_opt_bytes` on the bytes from `i` on.
pub fn read_opt_bytes_field(b: &[u8], i: usize) -> (r: Option<(Option<Vec<u8>>, usize)>)
    requires
        i <= b@.len(),
    ensures
        match r {
            Option::Some(p) => {
                &&& parse_opt_bytes(b@.skip(i as int)) matches Option::Some(q)
                    && q.1 == b@.skip(p.1 as int) && (match p.0 {
                    Option::None => q.0 is None,
                    Option::Some(v) => q.0 == Option::Some(v@),
                })
                &&& i <= p.1 <= b@.len()
            },
            Option::None => parse_opt_bytes(b@.skip(i as int)) is None,
        },
{
    if b.len() - i < 1 {
        return Option::None;
    }
    let tag = b[i];
    if tag == 0 {
        assert(b@.skip(i as int).skip(1) =~= b@.skip(i as int + 1));
        return Option::Some((Option::None, i + 1));
    }
    if tag != 1 {
        return Option::None;
    }
    assert(b@.skip(i as int).skip(1) =~= b@.skip(i as int + 1));
    match read_bytes_field(b, i + 1) {
        Option::None => Option::None,
        Option::Some(p) => Option::Some((Option::Some(p.0), p.1)),
    }
}

} // verus!
