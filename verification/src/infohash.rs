//! The swarm identifier: the SHA-1 of the bencoded info dictionary, and the
//! query-string form of that hash.
//!
//! The dictionary is framed here byte by byte, keys in sorted order as the
//! bencode format demands: `length`, `name`, `piece length`, `pieces`.

use vstd::prelude::*;
use crate::hashing::{sha1_digest, sha1_of};

verus! {

// ---------------------------------------------------------------------------
// Decimal digits
// ---------------------------------------------------------------------------

/// The ASCII decimal digits of `n`, most significant first.
pub open spec fn spec_decimal(n: nat) -> Seq<u8>
    decreases n,
{
    if n < 10 {
        seq![(48 + n) as u8]
    } else {
        spec_decimal(n / 10) + seq![(48 + n % 10) as u8]
    }
}

pub fn u64_to_decimal(n: u64) -> (r: Vec<u8>)
    ensures
        r@ == spec_decimal(n as nat),
    decreases n,
{
    if n < 10 {
        let mut r: Vec<u8> = Vec::new();
        r.push(48 + (n as u8));
        proof {
            assert(r@ =~= spec_decimal(n as nat));
        }
        r
    } else {
        let mut r = u64_to_decimal(n / 10);
        r.push(48 + ((n % 10) as u8));
        proof {
            assert(r@ =~= spec_decimal(n as nat));
        }
        r
    }
}

// ---------------------------------------------------------------------------
// Bencode framing
// ---------------------------------------------------------------------------

/// A bencode byte string: decimal length, `:`, the bytes.
pub open spec fn spec_bencode_str(s: Seq<u8>) -> Seq<u8> {
    spec_decimal(s.len()) + seq![58u8] + s
}

/// A bencode nonnegative integer: `i`, decimal digits, `e`.
pub open spec fn spec_bencode_int(n: nat) -> Seq<u8> {
    seq![105u8] + spec_decimal(n) + seq![101u8]
}

/// "length" in ASCII.
pub open spec fn spec_length_key() -> Seq<u8> {
    seq![108u8, 101u8, 110u8, 103u8, 116u8, 104u8]
}

/// "name" in ASCII.
pub open spec fn spec_name_key() -> Seq<u8> {
    seq![110u8, 97u8, 109u8, 101u8]
}

/// "piece length" in ASCII.
pub open spec fn spec_piece_length_key() -> Seq<u8> {
    seq![112u8, 105u8, 101u8, 99u8, 101u8, 32u8, 108u8, 101u8, 110u8, 103u8, 116u8, 104u8]
}

/// "pieces" in ASCII.
pub open spec fn spec_pieces_key() -> Seq<u8> {
    seq![112u8, 105u8, 101u8, 99u8, 101u8, 115u8]
}

/// The bencoded single-file info dictionary, keys in sorted order.
pub open spec fn spec_info_dict(
    length: nat,
    name: Seq<u8>,
    piece_length: nat,
    pieces: Seq<u8>,
) -> Seq<u8> {
    seq![100u8] + spec_bencode_str(spec_length_key()) + spec_bencode_int(length)
        + spec_bencode_str(spec_name_key()) + spec_bencode_str(name) + spec_bencode_str(
        spec_piece_length_key(),
    ) + spec_bencode_int(piece_length) + spec_bencode_str(spec_pieces_key()) + spec_bencode_str(
        pieces,
    ) + seq![101u8]
}

/// Appends the bencode form of the byte string `s` to `dst`.
fn bencode_str_into(dst: &mut Vec<u8>, s: &Vec<u8>)
    ensures
        final(dst)@ == old(dst)@ + spec_bencode_str(s@),
{
    let len_digits = u64_to_decimal(s.len() as u64);
    crate::message::push_bytes(dst, &len_digits);
    dst.push(58);
    crate::message::push_bytes(dst, s);
    proof {
        assert(dst@ =~= old(dst)@ + spec_bencode_str(s@));
    }
}

/// Appends the bencode form of the nonnegative integer `n` to `dst`.
fn bencode_int_into(dst: &mut Vec<u8>, n: u64)
    ensures
        final(dst)@ == old(dst)@ + spec_bencode_int(n as nat),
{
    dst.push(105);
    let digits = u64_to_decimal(n);
    crate::message::push_bytes(dst, &digits);
    dst.push(101);
    proof {
        assert(dst@ =~= old(dst)@ + spec_bencode_int(n as nat));
    }
}

fn length_key() -> (r: Vec<u8>)
    ensures
        r@ == spec_length_key(),
{
    let mut r: Vec<u8> = Vec::new();
    r.push(108);
    r.push(101);
    r.push(110);
    r.push(103);
    r.push(116);
    r.push(104);
    proof {
        assert(r@ =~= spec_length_key());
    }
    r
}

fn name_key() -> (r: Vec<u8>)
    ensures
        r@ == spec_name_key(),
{
    let mut r: Vec<u8> = Vec::new();
    r.push(110);
    r.push(97);
    r.push(109);
    r.push(101);
    proof {
        assert(r@ =~= spec_name_key());
    }
    r
}

fn piece_length_key() -> (r: Vec<u8>)
    ensures
        r@ == spec_piece_length_key(),
{
    let mut r: Vec<u8> = Vec::new();
    r.push(112);
    r.push(105);
    r.push(101);
    r.push(99);
    r.push(101);
    r.push(32);
    r.push(108);
    r.push(101);
    r.push(110);
    r.push(103);
    r.push(116);
    r.push(104);
    proof {
        assert(r@ =~= spec_piece_length_key());
    }
    r
}

fn pieces_key() -> (r: Vec<u8>)
    ensures
        r@ == spec_pieces_key(),
{
    let mut r: Vec<u8> = Vec::new();
    r.push(112);
    r.push(105);
    r.push(101);
    r.push(99);
    r.push(101);
    r.push(115);
    proof {
        assert(r@ =~= spec_pieces_key());
    }
    r
}

/// Frames the single-file info dictionary.
pub fn encode_info_dict(name: &Vec<u8>, piece_length: u64, length: u64, pieces: &Vec<u8>) -> (r:
    Vec<u8>)
    ensures
        r@ == spec_info_dict(length as nat, name@, piece_length as nat, pieces@),
{
    let mut buf: Vec<u8> = Vec::new();
    buf.push(100);
    let lk = length_key();
    bencode_str_into(&mut buf, &lk);
    bencode_int_into(&mut buf, length);
    let nk = name_key();
    bencode_str_into(&mut buf, &nk);
    bencode_str_into(&mut buf, name);
    let plk = piece_length_key();
    bencode_str_into(&mut buf, &plk);
    bencode_int_into(&mut buf, piece_length);
    let pk = pieces_key();
    bencode_str_into(&mut buf, &pk);
    bencode_str_into(&mut buf, pieces);
    buf.push(101);
    proof {
        assert(buf@ =~= spec_info_dict(length as nat, name@, piece_length as nat, pieces@));
    }
    buf
}

/// The SHA-1 of the bencoded info dictionary.
pub fn infohash(name: &Vec<u8>, piece_length: u64, length: u64, pieces: &Vec<u8>) -> (r: Vec<u8>)
    ensures
        r@ == sha1_of(spec_info_dict(length as nat, name@, piece_length as nat, pieces@)),
        r@.len() == 20,
{
    let encoded = encode_info_dict(name, piece_length, length, pieces);
    sha1_digest(&encoded)
}

// ---------------------------------------------------------------------------
// URL encoding of raw bytes
// ---------------------------------------------------------------------------

/// Bytes that pass through the query-string encoding unescaped: the
/// alphanumerics and a conservative allow-list of punctuation.
pub open spec fn spec_is_allowed(b: u8) -> bool {
    (48 <= b <= 57) || (97 <= b <= 122) || (65 <= b <= 90) || b == 46 || b == 45 || b == 95 || b
        == 126 || b == 33 || b == 42 || b == 39 || b == 40 || b == 41 || b == 59 || b == 47 || b
        == 63 || b == 58 || b == 64 || b == 38 || b == 61 || b == 43 || b == 36 || b == 44 || b
        == 35
}

/// The lowercase hex digit for `n`.
pub open spec fn spec_hex_digit(n: u8) -> u8
    recommends
        n < 16,
{
    if n < 10 {
        (48 + n) as u8
    } else {
        (87 + n) as u8
    }
}

/// How one byte appears in the encoded string: itself if allowed, else a
/// percent escape with two lowercase hex digits.
pub open spec fn spec_encoded_byte(b: u8) -> Seq<u8> {
    if spec_is_allowed(b) {
        seq![b]
    } else {
        seq![37u8, spec_hex_digit(b / 16), spec_hex_digit(b % 16)]
    }
}

/// The query-string form of a byte string.
pub open spec fn spec_url_encode(s: Seq<u8>) -> Seq<u8>
    decreases s.len(),
{
    if s.len() == 0 {
        Seq::empty()
    } else {
        spec_url_encode(s.drop_last()) + spec_encoded_byte(s.last())
    }
}

pub fn is_allowed_byte(byte: &u8) -> (r: bool)
    ensures
        r == spec_is_allowed(*byte),
{
    let b = *byte;
    (b >= 48 && b <= 57) || (b >= 97 && b <= 122) || (b >= 65 && b <= 90) || b == 46 || b == 45
        || b == 95 || b == 126 || b == 33 || b == 42 || b == 39 || b == 40 || b == 41 || b == 59
        || b == 47 || b == 63 || b == 58 || b == 64 || b == 38 || b == 61 || b == 43 || b == 36
        || b == 44 || b == 35
}

pub fn url_encode(bytes: &Vec<u8>) -> (r: Vec<u8>)
    ensures
        r@ == spec_url_encode(bytes@),
{
    let mut r: Vec<u8> = Vec::new();
    let mut i: usize = 0;
    while i < bytes.len()
        invariant
            i <= bytes@.len(),
            r@ == spec_url_encode(bytes@.take(i as int)),
        decreases bytes@.len() - i,
    {
        let b = bytes[i];
        if is_allowed_byte(&b) {
            r.push(b);
        } else {
            r.push(37);
            let hi = b / 16;
            let lo = b % 16;
            r.push(if hi < 10 {
                48 + hi
            } else {
                87 + hi
            });
            r.push(if lo < 10 {
                48 + lo
            } else {
                87 + lo
            });
        }
        i = i + 1;
        proof {
            assert(bytes@.take(i as int).drop_last() =~= bytes@.take(i - 1));
            assert(bytes@.take(i as int).last() == bytes@[i - 1]);
            assert(r@ =~= spec_url_encode(bytes@.take(i as int)));
        }
    }
    proof {
        assert(bytes@.take(bytes@.len() as int) =~= bytes@);
    }
    r
}

} // verus!
