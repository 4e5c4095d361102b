//! The two curve primitives of the host, and the byte layout they speak.
//!
//! A primitive takes one flat buffer per call. Every field element in it is
//! 32 bytes, most significant byte first. A point of the first group is its
//! two coordinates, `x` then `y`; a point of the second group is four
//! elements: the real and the imaginary part of `x`, then those of `y`. The
//! functions here lay values out in that form, make the call, and read the
//! answer back.
//!
//! The NEAR host reads the same words in the same places, but each of them
//! least significant byte first. So between the layout and the call stands
//! one step, [`to_host_order`], which turns every word round; the answer of
//! the multi-scalar multiplication comes back through the same step.

use crate::bn256::curve::{g1_point_valid, g2_point_valid, G1Affine, G1Point, G2Affine, G2Point};
use crate::bn256::field::{fq_modulus, fr_modulus, Fq, Fr};
use crate::encoding::{
    append32, be_bytes, be_value, chunk32, le_value, lemma_be_bytes_len,
    lemma_be_bytes_of_be_value, lemma_be_value_is_le_of_reverse, lemma_be_value_of_be_bytes,
    lemma_pow256_32, reverse32,
};
use crate::error::Error;
use vstd::prelude::*;

verus! {

/// What the host's multi-scalar multiplication returns for a given input,
/// both as the host reads and writes them.
pub uninterp spec fn g1_multiexp_output(input: Seq<u8>) -> Seq<u8>;

/// What the host's pairing check answers for a given input, as the host
/// reads it.
pub uninterp spec fn pairing_check_output(input: Seq<u8>) -> bool;

/// The `k`-th block of `width` bytes of `data`.
pub open spec fn block(data: Seq<u8>, k: int, width: int) -> Seq<u8> {
    data.subrange(k * width, k * width + width)
}

/// The same words with the bytes of each in the opposite order. Bytes after
/// the last whole word of 32 stay as they are.
pub open spec fn host_order(data: Seq<u8>) -> Seq<u8> {
    Seq::new(
        data.len(),
        |i: int|
            if i < 32 * (data.len() / 32) {
                data[32 * (i / 32) + 31 - i % 32]
            } else {
                data[i]
            },
    )
}

/// The answer of the multi-scalar multiplication to an input laid out most
/// significant byte first: the input goes to the host in the host's order,
/// and the host's answer is turned back.
pub open spec fn g1_multiexp_answer(input: Seq<u8>) -> Seq<u8> {
    host_order(g1_multiexp_output(host_order(input)))
}

/// The answer of the pairing check to an input laid out most significant
/// byte first: the input goes to the host in the host's order.
pub open spec fn pairing_check_answer(input: Seq<u8>) -> bool {
    pairing_check_output(host_order(input))
}

/// The layout of a point of the first group.
pub open spec fn g1_encoding(p: G1Point) -> Seq<u8> {
    be_bytes(p.x, 32) + be_bytes(p.y, 32)
}

/// The layout of a point of the second group.
pub open spec fn g2_encoding(p: G2Point) -> Seq<u8> {
    be_bytes(p.x.0, 32) + be_bytes(p.x.1, 32) + be_bytes(p.y.0, 32) + be_bytes(p.y.1, 32)
}

/// The point of the first group that the first 64 bytes lay out, if there
/// are as many and they lay out one.
pub open spec fn g1_decoding(bytes: Seq<u8>) -> Option<G1Point> {
    let x = be_value(bytes.subrange(0, 32));
    let y = be_value(bytes.subrange(32, 64));
    if bytes.len() >= 64 && g1_point_valid(x, y) {
        Some(G1Point { x, y })
    } else {
        None
    }
}

/// The point of the second group that the first 128 bytes lay out, if there
/// are as many and they lay out one.
pub open spec fn g2_decoding(bytes: Seq<u8>) -> Option<G2Point> {
    let x = (be_value(bytes.subrange(0, 32)), be_value(bytes.subrange(32, 64)));
    let y = (be_value(bytes.subrange(64, 96)), be_value(bytes.subrange(96, 128)));
    if bytes.len() >= 128 && g2_point_valid(x, y) {
        Some(G2Point { x, y })
    } else {
        None
    }
}

/// The layout of one point with its scalar.
pub open spec fn multiexp_element(pair: (G1Point, nat)) -> Seq<u8> {
    g1_encoding(pair.0) + be_bytes(pair.1, 32)
}

/// The input of the multi-scalar multiplication: the elements one after
/// another.
pub open spec fn multiexp_input(pairs: Seq<(G1Point, nat)>) -> Seq<u8>
    decreases pairs.len(),
{
    if pairs.len() == 0 {
        Seq::empty()
    } else {
        multiexp_input(pairs.drop_last()) + multiexp_element(pairs.last())
    }
}

/// The layout of one term of a pairing product.
pub open spec fn pairing_element(term: (G1Point, G2Point)) -> Seq<u8> {
    g1_encoding(term.0) + g2_encoding(term.1)
}

/// The input of the pairing check: the terms one after another.
pub open spec fn pairing_input(terms: Seq<(G1Point, G2Point)>) -> Seq<u8>
    decreases terms.len(),
{
    if terms.len() == 0 {
        Seq::empty()
    } else {
        pairing_input(terms.drop_last()) + pairing_element(terms.last())
    }
}

/// Whether the host reads these 96 bytes as a point of the first group and a
/// reduced scalar.
pub open spec fn multiexp_element_accepted(e: Seq<u8>) -> bool {
    &&& e.len() == 96
    &&& g1_point_valid(le_value(e.subrange(0, 32)), le_value(e.subrange(32, 64)))
    &&& le_value(e.subrange(64, 96)) < fr_modulus()
}

/// Whether the host reads these 192 bytes as a point of each group.
pub open spec fn pairing_element_accepted(e: Seq<u8>) -> bool {
    &&& e.len() == 192
    &&& g1_point_valid(le_value(e.subrange(0, 32)), le_value(e.subrange(32, 64)))
    &&& g2_point_valid(
        (le_value(e.subrange(64, 96)), le_value(e.subrange(96, 128))),
        (le_value(e.subrange(128, 160)), le_value(e.subrange(160, 192))),
    )
}

/// The inputs on which the host's multi-scalar multiplication does not
/// abort: whole elements, each of them accepted.
pub open spec fn multiexp_input_accepted(data: Seq<u8>) -> bool {
    &&& data.len() % 96 == 0
    &&& forall|k: int|
        0 <= k < data.len() / 96 ==> multiexp_element_accepted(#[trigger] block(data, k, 96))
}

/// The inputs on which the host's pairing check does not abort: whole
/// elements, each of them accepted.
pub open spec fn pairing_input_accepted(data: Seq<u8>) -> bool {
    &&& data.len() % 192 == 0
    &&& forall|k: int|
        0 <= k < data.len() / 192 ==> pairing_element_accepted(#[trigger] block(data, k, 192))
}

/// The views of the pairs handed to the multi-scalar multiplication.
pub open spec fn multiexp_pairs(v: Seq<(G1Affine, Fr)>) -> Seq<(G1Point, nat)> {
    v.map_values(|pair: (G1Affine, Fr)| (pair.0@, pair.1@))
}

/// The views of the terms handed to the pairing check.
pub open spec fn pairing_terms(v: Seq<(G1Affine, G2Affine)>) -> Seq<(G1Point, G2Point)> {
    v.map_values(|term: (G1Affine, G2Affine)| (term.0@, term.1@))
}

/// Whether `r` is what reading `bytes` as a point of the first group gives:
/// the point, or a decode error where they lay out none.
pub open spec fn is_g1_decoding(r: Result<G1Affine, Error>, bytes: Seq<u8>) -> bool {
    match r {
        Ok(p) => g1_decoding(bytes) == Some(p@),
        Err(e) => g1_decoding(bytes) is None && e.is_decode_error(
            "Invalid elliptic curve point encoding"@,
        ),
    }
}

/// Calls `near_sdk::env::alt_bn128_g1_multiexp`, and names what comes back.
/// The host reads the input as packed little-endian elements and aborts on
/// one that is not whole, not a point of the curve, or not a reduced scalar;
/// it also aborts when the call's gas runs out.
#[verifier::external_body]
fn host_g1_multiexp(input: &Vec<u8>) -> (output: Vec<u8>)
    requires
        multiexp_input_accepted(input@),
    ensures
        output@ == g1_multiexp_output(input@),
{
    near_sdk::env::alt_bn128_g1_multiexp(input)
}

/// Calls `near_sdk::env::alt_bn128_pairing_check`, and names the answer. The
/// host reads the input as packed little-endian elements and aborts on one
/// that is not whole or holds a point outside its group; it also aborts when
/// the call's gas runs out. For the second group the host asks that the
/// point be on the twist and of prime order, or be the pair of zeros: the
/// contract takes the answer of `halo2curves` on the order for the host's.
#[verifier::external_body]
fn host_pairing_check(input: &Vec<u8>) -> (ok: bool)
    requires
        pairing_input_accepted(input@),
    ensures
        ok == pairing_check_output(input@),
{
    near_sdk::env::alt_bn128_pairing_check(input)
}

/// In data made of whole words, the `k`-th word in the host's order is the
/// `k`-th word reversed.
pub proof fn lemma_host_order_word(data: Seq<u8>, k: int)
    requires
        data.len() % 32 == 0,
        0 <= k < data.len() / 32,
    ensures
        host_order(data).subrange(32 * k, 32 * k + 32) == data.subrange(
            32 * k,
            32 * k + 32,
        ).reverse(),
{
    let turned = host_order(data).subrange(32 * k, 32 * k + 32);
    let word = data.subrange(32 * k, 32 * k + 32).reverse();
    assert forall|j: int| 0 <= j < 32 implies turned[j] == word[j] by {
        let i = 32 * k + j;
        assert(i / 32 == k && i % 32 == j);
    }
    assert(turned =~= word);
}

/// Turning the words of two pieces round, the first made of whole words, is
/// turning the words of each round.
pub proof fn lemma_host_order_concat(a: Seq<u8>, b: Seq<u8>)
    requires
        a.len() % 32 == 0,
    ensures
        host_order(a + b) == host_order(a) + host_order(b),
{
    let whole = a + b;
    let m = (a.len() / 32) as int;
    assert(a.len() == 32 * m);
    assert(whole.len() / 32 == m + b.len() / 32);
    assert forall|i: int| 0 <= i < whole.len() implies host_order(whole)[i] == (host_order(a)
        + host_order(b))[i] by {
        if i < a.len() {
            assert(i / 32 < m);
        } else {
            let j = i - a.len();
            assert(i / 32 == m + j / 32);
            assert(i % 32 == j % 32);
        }
    }
    assert(host_order(whole) =~= host_order(a) + host_order(b));
}

/// Turning the words round twice gives the data back.
pub proof fn law_host_order_twice(data: Seq<u8>)
    ensures
        host_order(host_order(data)) == data,
{
    let once = host_order(data);
    assert forall|i: int| 0 <= i < data.len() implies host_order(once)[i] == data[i] by {
        if i < 32 * (data.len() / 32) {
            let t = 32 * (i / 32) + 31 - i % 32;
            assert(t / 32 == i / 32 && t % 32 == 31 - i % 32);
        }
    }
    assert(host_order(once) =~= data);
}

/// A number below a 32-byte modulus is read back from its 32-byte layout,
/// and the host reads the same number from the layout turned round.
proof fn lemma_field_layout(v: nat)
    requires
        v < fq_modulus() || v < fr_modulus(),
    ensures
        be_bytes(v, 32).len() == 32,
        be_value(be_bytes(v, 32)) == v,
        le_value(be_bytes(v, 32).reverse()) == v,
{
    lemma_pow256_32();
    lemma_be_bytes_len(v, 32);
    lemma_be_value_of_be_bytes(v, 32);
    lemma_be_value_is_le_of_reverse(be_bytes(v, 32));
}

/// The layout of a point of the first group is 64 bytes, from which the
/// coordinates are read back.
proof fn lemma_g1_layout(p: G1Point)
    requires
        g1_point_valid(p.x, p.y),
    ensures
        g1_encoding(p).len() == 64,
        g1_encoding(p).subrange(0, 32) == be_bytes(p.x, 32),
        g1_encoding(p).subrange(32, 64) == be_bytes(p.y, 32),
        be_value(g1_encoding(p).subrange(0, 32)) == p.x,
        be_value(g1_encoding(p).subrange(32, 64)) == p.y,
{
    lemma_field_layout(p.x);
    lemma_field_layout(p.y);
    assert(g1_encoding(p).subrange(0, 32) =~= be_bytes(p.x, 32));
    assert(g1_encoding(p).subrange(32, 64) =~= be_bytes(p.y, 32));
}

/// The layout of a point of the second group is 128 bytes, from which the
/// four parts are read back.
proof fn lemma_g2_layout(p: G2Point)
    requires
        g2_point_valid(p.x, p.y),
    ensures
        g2_encoding(p).len() == 128,
        g2_encoding(p).subrange(0, 32) == be_bytes(p.x.0, 32),
        g2_encoding(p).subrange(32, 64) == be_bytes(p.x.1, 32),
        g2_encoding(p).subrange(64, 96) == be_bytes(p.y.0, 32),
        g2_encoding(p).subrange(96, 128) == be_bytes(p.y.1, 32),
        be_value(g2_encoding(p).subrange(0, 32)) == p.x.0,
        be_value(g2_encoding(p).subrange(32, 64)) == p.x.1,
        be_value(g2_encoding(p).subrange(64, 96)) == p.y.0,
        be_value(g2_encoding(p).subrange(96, 128)) == p.y.1,
{
    lemma_field_layout(p.x.0);
    lemma_field_layout(p.x.1);
    lemma_field_layout(p.y.0);
    lemma_field_layout(p.y.1);
    assert(g2_encoding(p).subrange(0, 32) =~= be_bytes(p.x.0, 32));
    assert(g2_encoding(p).subrange(32, 64) =~= be_bytes(p.x.1, 32));
    assert(g2_encoding(p).subrange(64, 96) =~= be_bytes(p.y.0, 32));
    assert(g2_encoding(p).subrange(96, 128) =~= be_bytes(p.y.1, 32));
}

/// A point of the first group is read back from its layout, whatever
/// follows it.
pub proof fn law_g1_layout_round_trip(p: G1Point, rest: Seq<u8>)
    requires
        g1_point_valid(p.x, p.y),
    ensures
        g1_decoding(g1_encoding(p) + rest) == Some(p),
{
    lemma_g1_layout(p);
    let bytes = g1_encoding(p) + rest;
    assert(bytes.subrange(0, 32) =~= g1_encoding(p).subrange(0, 32));
    assert(bytes.subrange(32, 64) =~= g1_encoding(p).subrange(32, 64));
}

/// Bytes that lay out a point of the first group begin with the layout of
/// that point.
pub proof fn law_g1_layout_is_canonical(bytes: Seq<u8>)
    requires
        g1_decoding(bytes) is Some,
    ensures
        g1_encoding(g1_decoding(bytes)->0) == bytes.subrange(0, 64),
{
    lemma_be_bytes_of_be_value(bytes.subrange(0, 32));
    lemma_be_bytes_of_be_value(bytes.subrange(32, 64));
    assert(bytes.subrange(0, 32) + bytes.subrange(32, 64) =~= bytes.subrange(0, 64));
}

/// A point of the second group is read back from its layout, whatever
/// follows it.
pub proof fn law_g2_layout_round_trip(p: G2Point, rest: Seq<u8>)
    requires
        g2_point_valid(p.x, p.y),
    ensures
        g2_decoding(g2_encoding(p) + rest) == Some(p),
{
    lemma_g2_layout(p);
    let bytes = g2_encoding(p) + rest;
    assert(bytes.subrange(0, 32) =~= g2_encoding(p).subrange(0, 32));
    assert(bytes.subrange(32, 64) =~= g2_encoding(p).subrange(32, 64));
    assert(bytes.subrange(64, 96) =~= g2_encoding(p).subrange(64, 96));
    assert(bytes.subrange(96, 128) =~= g2_encoding(p).subrange(96, 128));
}

/// Bytes that lay out a point of the second group begin with the layout of
/// that point.
pub proof fn law_g2_layout_is_canonical(bytes: Seq<u8>)
    requires
        g2_decoding(bytes) is Some,
    ensures
        g2_encoding(g2_decoding(bytes)->0) == bytes.subrange(0, 128),
{
    lemma_be_bytes_of_be_value(bytes.subrange(0, 32));
    lemma_be_bytes_of_be_value(bytes.subrange(32, 64));
    lemma_be_bytes_of_be_value(bytes.subrange(64, 96));
    lemma_be_bytes_of_be_value(bytes.subrange(96, 128));
    assert(bytes.subrange(0, 32) + bytes.subrange(32, 64) + bytes.subrange(64, 96)
        + bytes.subrange(96, 128) =~= bytes.subrange(0, 128));
}

/// The number that the host reads from the `k`-th word of data in its
/// order is the number that the word spells most significant byte first.
proof fn lemma_host_reads_word(data: Seq<u8>, k: int)
    requires
        data.len() % 32 == 0,
        0 <= k < data.len() / 32,
    ensures
        le_value(host_order(data).subrange(32 * k, 32 * k + 32)) == be_value(
            data.subrange(32 * k, 32 * k + 32),
        ),
{
    lemma_host_order_word(data, k);
    lemma_be_value_is_le_of_reverse(data.subrange(32 * k, 32 * k + 32));
}

/// The host accepts, in its order, the layout of a valid point with a
/// reduced scalar.
proof fn lemma_multiexp_element_accepted(pair: (G1Point, nat))
    requires
        g1_point_valid(pair.0.x, pair.0.y),
        pair.1 < fr_modulus(),
    ensures
        multiexp_element(pair).len() == 96,
        multiexp_element_accepted(host_order(multiexp_element(pair))),
{
    let e = multiexp_element(pair);
    lemma_g1_layout(pair.0);
    lemma_field_layout(pair.1);
    assert(e.subrange(0, 32) =~= be_bytes(pair.0.x, 32));
    assert(e.subrange(32, 64) =~= be_bytes(pair.0.y, 32));
    assert(e.subrange(64, 96) =~= be_bytes(pair.1, 32));
    lemma_host_reads_word(e, 0);
    lemma_host_reads_word(e, 1);
    lemma_host_reads_word(e, 2);
}

/// The host accepts, in its order, the layout of a valid point of each
/// group.
proof fn lemma_pairing_element_accepted(term: (G1Point, G2Point))
    requires
        g1_point_valid(term.0.x, term.0.y),
        g2_point_valid(term.1.x, term.1.y),
    ensures
        pairing_element(term).len() == 192,
        pairing_element_accepted(host_order(pairing_element(term))),
{
    let e = pairing_element(term);
    lemma_g1_layout(term.0);
    lemma_g2_layout(term.1);
    assert(e.subrange(0, 32) =~= be_bytes(term.0.x, 32));
    assert(e.subrange(32, 64) =~= be_bytes(term.0.y, 32));
    assert(e.subrange(64, 96) =~= be_bytes(term.1.x.0, 32));
    assert(e.subrange(96, 128) =~= be_bytes(term.1.x.1, 32));
    assert(e.subrange(128, 160) =~= be_bytes(term.1.y.0, 32));
    assert(e.subrange(160, 192) =~= be_bytes(term.1.y.1, 32));
    lemma_host_reads_word(e, 0);
    lemma_host_reads_word(e, 1);
    lemma_host_reads_word(e, 2);
    lemma_host_reads_word(e, 3);
    lemma_host_reads_word(e, 4);
    lemma_host_reads_word(e, 5);
}

/// An input that the host accepts in its order stays one when an element
/// that it accepts follows.
proof fn lemma_multiexp_input_extended(data: Seq<u8>, e: Seq<u8>)
    requires
        multiexp_input_accepted(host_order(data)),
        multiexp_element_accepted(host_order(e)),
    ensures
        multiexp_input_accepted(host_order(data + e)),
{
    let sent = host_order(data);
    let m = (sent.len() / 96) as int;
    assert(sent.len() == 96 * m);
    lemma_host_order_concat(data, e);
    let whole = sent + host_order(e);
    assert forall|k: int| 0 <= k < whole.len() / 96 implies multiexp_element_accepted(
        #[trigger] block(whole, k, 96),
    ) by {
        if k < m {
            assert(block(whole, k, 96) =~= block(sent, k, 96));
        } else {
            assert(block(whole, k, 96) =~= host_order(e));
        }
    }
}

/// An input that the host accepts in its order stays one when an element
/// that it accepts follows.
proof fn lemma_pairing_input_extended(data: Seq<u8>, e: Seq<u8>)
    requires
        pairing_input_accepted(host_order(data)),
        pairing_element_accepted(host_order(e)),
    ensures
        pairing_input_accepted(host_order(data + e)),
{
    let sent = host_order(data);
    let m = (sent.len() / 192) as int;
    assert(sent.len() == 192 * m);
    lemma_host_order_concat(data, e);
    let whole = sent + host_order(e);
    assert forall|k: int| 0 <= k < whole.len() / 192 implies pairing_element_accepted(
        #[trigger] block(whole, k, 192),
    ) by {
        if k < m {
            assert(block(whole, k, 192) =~= block(sent, k, 192));
        } else {
            assert(block(whole, k, 192) =~= host_order(e));
        }
    }
}

/// Turns every word of 32 bytes round: from the layout with the most
/// significant byte first to the order in which the host reads, and back.
/// Bytes after the last whole word stay as they are.
pub fn to_host_order(data: &Vec<u8>) -> (turned: Vec<u8>)
    ensures
        turned@ == host_order(data@),
{
    let whole: usize = data.len() - data.len() % 32;
    let mut turned: Vec<u8> = Vec::new();
    let mut i: usize = 0;
    while i < data.len()
        invariant
            i <= data.len(),
            whole == 32 * (data.len() / 32),
            turned@ == host_order(data@).subrange(0, i as int),
        decreases data.len() - i,
    {
        if i < whole {
            turned.push(data[i - i % 32 + 31 - i % 32]);
        } else {
            turned.push(data[i]);
        }
        i = i + 1;
        assert(turned@ =~= host_order(data@).subrange(0, i as int));
    }
    assert(host_order(data@).subrange(0, i as int) =~= host_order(data@));
    turned
}

/// The multi-scalar multiplication as a primitive on the layout: hands the
/// input to the host in the host's order, and the host's answer back in the
/// order of the layout.
fn g1_multiexp_primitive(input: &Vec<u8>) -> (answer: Vec<u8>)
    requires
        multiexp_input_accepted(host_order(input@)),
    ensures
        answer@ == g1_multiexp_answer(input@),
{
    let sent = to_host_order(input);
    let output = host_g1_multiexp(&sent);
    to_host_order(&output)
}

/// The pairing check as a primitive on the layout: hands the input to the
/// host in the host's order, and the host's answer back.
fn pairing_check_primitive(input: &Vec<u8>) -> (ok: bool)
    requires
        pairing_input_accepted(host_order(input@)),
    ensures
        ok == pairing_check_answer(input@),
{
    let sent = to_host_order(input);
    host_pairing_check(&sent)
}

/// Appends the layout of a point of the first group.
pub fn encode_g1(buf: &mut Vec<u8>, p: &G1Affine)
    ensures
        final(buf)@ == old(buf)@ + g1_encoding(p@),
{
    append32(buf, &reverse32(&p.x().to_bytes()));
    append32(buf, &reverse32(&p.y().to_bytes()));
    assert(buf@ =~= old(buf)@ + g1_encoding(p@));
}

/// Appends the layout of a point of the second group.
pub fn encode_g2(buf: &mut Vec<u8>, p: &G2Affine)
    ensures
        final(buf)@ == old(buf)@ + g2_encoding(p@),
{
    let x = p.x();
    let y = p.y();
    append32(buf, &reverse32(&x.c0.to_bytes()));
    append32(buf, &reverse32(&x.c1.to_bytes()));
    append32(buf, &reverse32(&y.c0.to_bytes()));
    append32(buf, &reverse32(&y.c1.to_bytes()));
    assert(buf@ =~= old(buf)@ + g2_encoding(p@));
}

/// Reads the first 64 bytes as a point of the first group. Fails with a
/// decode error unless there are 64 bytes at least, both coordinates are
/// reduced, and the pair satisfies the curve equation or is the pair of
/// zeros.
pub fn decode_g1(bytes: &Vec<u8>) -> (r: Result<G1Affine, Error>)
    ensures
        is_g1_decoding(r, bytes@),
{
    if bytes.len() < 64 {
        return Err(Error::decode("Invalid elliptic curve point encoding"));
    }
    let x_bytes = chunk32(bytes, 0);
    let y_bytes = chunk32(bytes, 32);
    proof {
        lemma_be_value_is_le_of_reverse(x_bytes@);
        lemma_be_value_is_le_of_reverse(y_bytes@);
    }
    let x = Fq::from_bytes(&reverse32(&x_bytes));
    let y = Fq::from_bytes(&reverse32(&y_bytes));
    match (x, y) {
        (Some(x), Some(y)) => match G1Affine::from_xy(x, y) {
            Some(p) => Ok(p),
            None => Err(Error::decode("Invalid elliptic curve point encoding")),
        },
        _ => Err(Error::decode("Invalid elliptic curve point encoding")),
    }
}

/// The multi-scalar multiplication: lays the pairs out, each point followed
/// by its scalar, has the primitive answer once, and reads the first 64
/// bytes of the answer as a point. Fails with a decode error where they are
/// none.
pub fn alt_bn128_g1_multiexp(v: &[(G1Affine, Fr)]) -> (r: Result<G1Affine, Error>)
    ensures
        is_g1_decoding(r, g1_multiexp_answer(multiexp_input(multiexp_pairs(v@)))),
{
    let ghost pairs = multiexp_pairs(v@);
    let mut data: Vec<u8> = Vec::new();
    let mut i: usize = 0;
    assert(host_order(data@) =~= data@);
    while i < v.len()
        invariant
            i <= v.len(),
            pairs == multiexp_pairs(v@),
            data@ == multiexp_input(pairs.subrange(0, i as int)),
            multiexp_input_accepted(host_order(data@)),
        decreases v.len() - i,
    {
        let pair = &v[i];
        let ghost before = data@;
        encode_g1(&mut data, &pair.0);
        append32(&mut data, &reverse32(&pair.1.to_bytes()));
        proof {
            use_type_invariant(&pair.0);
            use_type_invariant(&pair.1);
            let upto = pairs.subrange(0, i + 1);
            assert(upto.drop_last() =~= pairs.subrange(0, i as int));
            assert(upto.last() == pairs[i as int]);
            assert(data@ =~= before + multiexp_element(pairs[i as int]));
            lemma_multiexp_element_accepted(pairs[i as int]);
            lemma_multiexp_input_extended(before, multiexp_element(pairs[i as int]));
        }
        i = i + 1;
    }
    assert(pairs.subrange(0, i as int) =~= pairs);
    let answer = g1_multiexp_primitive(&data);
    decode_g1(&answer)
}

/// The pairing check: lays the terms out, each point of the first group
/// followed by its point of the second, has the primitive answer once, and
/// hands the answer back: whether the product of the pairings is one.
pub fn alt_bn128_pairing_check(v: Vec<(G1Affine, G2Affine)>) -> (ok: bool)
    ensures
        ok == pairing_check_answer(pairing_input(pairing_terms(v@))),
{
    let ghost terms = pairing_terms(v@);
    let mut data: Vec<u8> = Vec::new();
    let mut i: usize = 0;
    assert(host_order(data@) =~= data@);
    while i < v.len()
        invariant
            i <= v.len(),
            terms == pairing_terms(v@),
            data@ == pairing_input(terms.subrange(0, i as int)),
            pairing_input_accepted(host_order(data@)),
        decreases v.len() - i,
    {
        let term = &v[i];
        let ghost before = data@;
        encode_g1(&mut data, &term.0);
        encode_g2(&mut data, &term.1);
        proof {
            use_type_invariant(&term.0);
            use_type_invariant(&term.1);
            let upto = terms.subrange(0, i + 1);
            assert(upto.drop_last() =~= terms.subrange(0, i as int));
            assert(upto.last() == terms[i as int]);
            assert(data@ =~= before + pairing_element(terms[i as int]));
            lemma_pairing_element_accepted(terms[i as int]);
            lemma_pairing_input_extended(before, pairing_element(terms[i as int]));
        }
        i = i + 1;
    }
    assert(terms.subrange(0, i as int) =~= terms);
    pairing_check_primitive(&data)
}

} // verus!
