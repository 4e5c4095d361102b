//! The two prime fields of the BN254 curve.
//!
//! An element is held as its canonical 32-byte little-endian representation,
//! and stands for the number below the modulus that those bytes spell. The
//! arithmetic itself is done by `halo2curves`; each operation is reached
//! through one small wrapper whose contract states the result as a number.

use crate::encoding::{
    be_value, le_bytes, le_value, lemma_le_bytes_of_le_value, lemma_le_value_injective,
};
use vstd::prelude::*;

verus! {

/// The order of the scalar field: the number of points in the curve's groups.
pub open spec fn fr_modulus() -> nat {
    0x30644e72e131a029b85045b68181585d2833e84879b9709143e1f593f0000001nat
}

/// The order of the base field, over which the curve is defined.
pub open spec fn fq_modulus() -> nat {
    0x30644e72e131a029b85045b68181585d97816a916871ca8d3c208c16d87cfd47nat
}

/// The sum of `a` and `b` modulo `m`.
pub open spec fn add_mod(a: nat, b: nat, m: nat) -> nat {
    (a + b) % m
}

/// The difference of `a` and `b` modulo `m`, for `b` not above `m`.
pub open spec fn sub_mod(a: nat, b: nat, m: nat) -> nat {
    ((a + m - b) % (m as int)) as nat
}

/// The product of `a` and `b` modulo `m`.
pub open spec fn mul_mod(a: nat, b: nat, m: nat) -> nat {
    (a * b) % m
}

/// The additive inverse of `a` modulo `m`, for `a` not above `m`.
pub open spec fn neg_mod(a: nat, m: nat) -> nat {
    sub_mod(0, a, m)
}

/// A number has at most one inverse below the modulus: two numbers whose
/// product with `a` is one are the same number.
pub proof fn law_inverse_is_unique(a: nat, b: nat, c: nat, m: nat)
    requires
        b < m,
        c < m,
        mul_mod(b, a, m) == 1,
        mul_mod(c, a, m) == 1,
    ensures
        b == c,
{
    let (ai, bi, ci, mi) = (a as int, b as int, c as int, m as int);
    assert(bi * (ci * ai) == ci * (bi * ai)) by (nonlinear_arith);
    vstd::arithmetic::div_mod::lemma_mul_mod_noop_right(bi, ci * ai, mi);
    vstd::arithmetic::div_mod::lemma_mul_mod_noop_right(ci, bi * ai, mi);
    assert((bi * 1) % mi == (ci * 1) % mi);
    vstd::arithmetic::div_mod::lemma_small_mod(b, m);
    vstd::arithmetic::div_mod::lemma_small_mod(c, m);
}

/// Calls `halo2curves::bn256::Fr::from_bytes`, which accepts a little-endian
/// representation exactly when the number it spells is below the scalar
/// modulus.
#[verifier::external_body]
fn fr_repr_in_field(repr: &[u8; 32]) -> (ok: bool)
    ensures
        ok == (le_value(repr@) < fr_modulus()),
{
    halo2curves::bn256::Fr::from_bytes(repr).is_some().into()
}

/// Calls the addition of `halo2curves::bn256::Fr`: the sum modulo the scalar
/// modulus, in canonical little-endian form.
#[verifier::external_body]
fn fr_add_repr(a: &[u8; 32], b: &[u8; 32]) -> (r: [u8; 32])
    requires
        le_value(a@) < fr_modulus(),
        le_value(b@) < fr_modulus(),
    ensures
        le_value(r@) == add_mod(le_value(a@), le_value(b@), fr_modulus()),
{
    let x = halo2curves::bn256::Fr::from_bytes(a).unwrap();
    let y = halo2curves::bn256::Fr::from_bytes(b).unwrap();
    (x + y).to_bytes()
}

/// Calls the subtraction of `halo2curves::bn256::Fr`: the difference modulo
/// the scalar modulus, in canonical little-endian form.
#[verifier::external_body]
fn fr_sub_repr(a: &[u8; 32], b: &[u8; 32]) -> (r: [u8; 32])
    requires
        le_value(a@) < fr_modulus(),
        le_value(b@) < fr_modulus(),
    ensures
        le_value(r@) == sub_mod(le_value(a@), le_value(b@), fr_modulus()),
{
    let x = halo2curves::bn256::Fr::from_bytes(a).unwrap();
    let y = halo2curves::bn256::Fr::from_bytes(b).unwrap();
    (x - y).to_bytes()
}

/// Calls the multiplication of `halo2curves::bn256::Fr`: the product modulo
/// the scalar modulus, in canonical little-endian form.
#[verifier::external_body]
fn fr_mul_repr(a: &[u8; 32], b: &[u8; 32]) -> (r: [u8; 32])
    requires
        le_value(a@) < fr_modulus(),
        le_value(b@) < fr_modulus(),
    ensures
        le_value(r@) == mul_mod(le_value(a@), le_value(b@), fr_modulus()),
{
    let x = halo2curves::bn256::Fr::from_bytes(a).unwrap();
    let y = halo2curves::bn256::Fr::from_bytes(b).unwrap();
    (x * y).to_bytes()
}

/// Calls the negation of `halo2curves::bn256::Fr`: the additive inverse modulo
/// the scalar modulus, in canonical little-endian form.
#[verifier::external_body]
fn fr_neg_repr(a: &[u8; 32]) -> (r: [u8; 32])
    requires
        le_value(a@) < fr_modulus(),
    ensures
        le_value(r@) == neg_mod(le_value(a@), fr_modulus()),
{
    let x = halo2curves::bn256::Fr::from_bytes(a).unwrap();
    (-x).to_bytes()
}

/// Calls `ff::Field::invert` of `halo2curves::bn256::Fr`: nothing for zero,
/// and for any other element the canonical element whose product with it is
/// one.
#[verifier::external_body]
fn fr_invert_repr(a: &[u8; 32]) -> (r: Option<[u8; 32]>)
    requires
        le_value(a@) < fr_modulus(),
    ensures
        r is None <==> le_value(a@) == 0,
        r matches Some(inv) ==> le_value(inv@) < fr_modulus() && mul_mod(
            le_value(inv@),
            le_value(a@),
            fr_modulus(),
        ) == 1,
{
    let x = halo2curves::bn256::Fr::from_bytes(a).unwrap();
    match Option::<halo2curves::bn256::Fr>::from(halo2curves::ff::Field::invert(&x)) {
        Some(inv) => Some(inv.to_bytes()),
        None => None,
    }
}

/// Calls `snark_verifier::loader::evm::u256_to_fe` on the 256-bit number that
/// `digest` spells most significant byte first: the number reduced modulo the
/// scalar modulus, in canonical little-endian form.
#[verifier::external_body]
fn fr_reduced_repr(digest: &[u8; 32]) -> (r: [u8; 32])
    ensures
        le_value(r@) == be_value(digest@) % fr_modulus(),
{
    let value = snark_verifier::loader::evm::U256::from_be_bytes(*digest);
    let scalar: snark_verifier::halo2_base::halo2_proofs::halo2curves::bn256::Fr =
        snark_verifier::loader::evm::u256_to_fe(value);
    snark_verifier::util::arithmetic::PrimeField::to_repr(&scalar)
}

/// Calls `halo2curves::bn256::Fq::from_bytes`, which accepts a little-endian
/// representation exactly when the number it spells is below the base
/// modulus.
#[verifier::external_body]
fn fq_repr_in_field(repr: &[u8; 32]) -> (ok: bool)
    ensures
        ok == (le_value(repr@) < fq_modulus()),
{
    halo2curves::bn256::Fq::from_bytes(repr).is_some().into()
}

/// Calls the negation of `halo2curves::bn256::Fq`: the additive inverse modulo
/// the base modulus, in canonical little-endian form.
#[verifier::external_body]
fn fq_neg_repr(a: &[u8; 32]) -> (r: [u8; 32])
    requires
        le_value(a@) < fq_modulus(),
    ensures
        le_value(r@) == neg_mod(le_value(a@), fq_modulus()),
{
    let x = halo2curves::bn256::Fq::from_bytes(a).unwrap();
    (-x).to_bytes()
}

/// The number zero spelled in 32 bytes.
proof fn lemma_zero_repr(repr: Seq<u8>)
    requires
        forall|i: int| 0 <= i < repr.len() ==> repr[i] == 0,
    ensures
        le_value(repr) == 0,
    decreases repr.len(),
{
    if repr.len() > 0 {
        lemma_zero_repr(repr.drop_first());
    }
}

/// Whether two 32-byte sequences are the same, byte for byte.
fn same_bytes(a: &[u8; 32], b: &[u8; 32]) -> (same: bool)
    ensures
        same == (a@ == b@),
{
    let mut i: usize = 0;
    while i < 32
        invariant
            i <= 32,
            forall|j: int| 0 <= j < i ==> a@[j] == b@[j],
        decreases 32 - i,
    {
        if a[i] != b[i] {
            return false;
        }
        i = i + 1;
    }
    assert(a@ =~= b@);
    true
}

/// An element of the scalar field.
#[derive(Clone, Copy, Debug, PartialEq, Eq)]
pub struct Fr {
    repr: [u8; 32],
}

impl View for Fr {
    type V = nat;

    /// The number that the element stands for.
    closed spec fn view(&self) -> nat {
        le_value(self.repr@)
    }
}

impl Fr {
    /// Every element is reduced: it stands for a number below the modulus.
    #[verifier::type_invariant]
    pub open spec fn is_canonical(self) -> bool {
        self@ < fr_modulus()
    }

    /// The additive identity.
    pub fn zero() -> (r: Fr)
        ensures
            r@ == 0,
    {
        let repr: [u8; 32] = [0u8; 32];
        proof {
            lemma_zero_repr(repr@);
        }
        Fr { repr }
    }

    /// The multiplicative identity.
    pub fn one() -> (r: Fr)
        ensures
            r@ == 1,
    {
        let mut repr: [u8; 32] = [0u8; 32];
        repr[0] = 1;
        proof {
            lemma_zero_repr(repr@.drop_first());
        }
        Fr { repr }
    }

    /// Decodes a little-endian representation; rejects one that is not below
    /// the modulus.
    pub fn from_bytes(bytes: &[u8; 32]) -> (r: Option<Fr>)
        ensures
            r is Some <==> le_value(bytes@) < fr_modulus(),
            r matches Some(f) ==> f@ == le_value(bytes@),
    {
        if fr_repr_in_field(bytes) {
            Some(Fr { repr: *bytes })
        } else {
            None
        }
    }

    /// The element that a 256-bit number, given most significant byte first,
    /// reduces to.
    pub fn from_be_bytes_reduced(digest: &[u8; 32]) -> (r: Fr)
        ensures
            r@ == be_value(digest@) % fr_modulus(),
    {
        Fr { repr: fr_reduced_repr(digest) }
    }

    /// The canonical little-endian representation.
    pub fn to_bytes(&self) -> (r: [u8; 32])
        ensures
            r@ == le_bytes(self@, 32),
            le_value(r@) == self@,
    {
        proof {
            lemma_le_bytes_of_le_value(self.repr@);
        }
        self.repr
    }

    /// Whether two elements are the same number.
    pub fn equals(&self, other: &Fr) -> (same: bool)
        ensures
            same == (self@ == other@),
    {
        let same = same_bytes(&self.repr, &other.repr);
        proof {
            if self@ == other@ {
                lemma_le_value_injective(self.repr@, other.repr@);
            }
        }
        same
    }

    /// Whether the element is the additive identity.
    pub fn is_zero(&self) -> (zero: bool)
        ensures
            zero == (self@ == 0),
    {
        let zeros: [u8; 32] = [0u8; 32];
        let zero = same_bytes(&self.repr, &zeros);
        proof {
            lemma_zero_repr(zeros@);
            if self@ == 0 {
                lemma_le_value_injective(self.repr@, zeros@);
            }
        }
        zero
    }

    /// The sum in the field.
    pub fn add(&self, other: &Fr) -> (r: Fr)
        ensures
            r@ == add_mod(self@, other@, fr_modulus()),
    {
        proof {
            use_type_invariant(self);
            use_type_invariant(other);
        }
        Fr { repr: fr_add_repr(&self.repr, &other.repr) }
    }

    /// The difference in the field.
    pub fn sub(&self, other: &Fr) -> (r: Fr)
        ensures
            r@ == sub_mod(self@, other@, fr_modulus()),
    {
        proof {
            use_type_invariant(self);
            use_type_invariant(other);
        }
        Fr { repr: fr_sub_repr(&self.repr, &other.repr) }
    }

    /// The product in the field.
    pub fn mul(&self, other: &Fr) -> (r: Fr)
        ensures
            r@ == mul_mod(self@, other@, fr_modulus()),
    {
        proof {
            use_type_invariant(self);
            use_type_invariant(other);
        }
        Fr { repr: fr_mul_repr(&self.repr, &other.repr) }
    }

    /// The additive inverse in the field.
    pub fn neg(&self) -> (r: Fr)
        ensures
            r@ == neg_mod(self@, fr_modulus()),
    {
        proof {
            use_type_invariant(self);
        }
        Fr { repr: fr_neg_repr(&self.repr) }
    }

    /// The multiplicative inverse: nothing for zero, and otherwise the one
    /// element whose product with this one is one.
    pub fn invert(&self) -> (r: Option<Fr>)
        ensures
            r is None <==> self@ == 0,
            r matches Some(inv) ==> mul_mod(inv@, self@, fr_modulus()) == 1,
    {
        proof {
            use_type_invariant(self);
        }
        match fr_invert_repr(&self.repr) {
            Some(repr) => Some(Fr { repr }),
            None => None,
        }
    }
}

/// An element of the base field.
#[derive(Clone, Copy, Debug, PartialEq, Eq)]
pub struct Fq {
    repr: [u8; 32],
}

impl View for Fq {
    type V = nat;

    /// The number that the element stands for.
    closed spec fn view(&self) -> nat {
        le_value(self.repr@)
    }
}

impl Fq {
    /// Every element is reduced: it stands for a number below the modulus.
    #[verifier::type_invariant]
    pub open spec fn is_canonical(self) -> bool {
        self@ < fq_modulus()
    }

    /// The additive identity.
    pub fn zero() -> (r: Fq)
        ensures
            r@ == 0,
    {
        let repr: [u8; 32] = [0u8; 32];
        proof {
            lemma_zero_repr(repr@);
        }
        Fq { repr }
    }

    /// Decodes a little-endian representation; rejects one that is not below
    /// the modulus.
    pub fn from_bytes(bytes: &[u8; 32]) -> (r: Option<Fq>)
        ensures
            r is Some <==> le_value(bytes@) < fq_modulus(),
            r matches Some(f) ==> f@ == le_value(bytes@),
    {
        if fq_repr_in_field(bytes) {
            Some(Fq { repr: *bytes })
        } else {
            None
        }
    }

    /// The canonical little-endian representation.
    pub fn to_bytes(&self) -> (r: [u8; 32])
        ensures
            r@ == le_bytes(self@, 32),
            le_value(r@) == self@,
    {
        proof {
            lemma_le_bytes_of_le_value(self.repr@);
        }
        self.repr
    }

    /// Whether two elements are the same number.
    pub fn equals(&self, other: &Fq) -> (same: bool)
        ensures
            same == (self@ == other@),
    {
        let same = same_bytes(&self.repr, &other.repr);
        proof {
            if self@ == other@ {
                lemma_le_value_injective(self.repr@, other.repr@);
            }
        }
        same
    }

    /// Whether the element is the additive identity.
    pub fn is_zero(&self) -> (zero: bool)
        ensures
            zero == (self@ == 0),
    {
        let zeros: [u8; 32] = [0u8; 32];
        let zero = same_bytes(&self.repr, &zeros);
        proof {
            lemma_zero_repr(zeros@);
            if self@ == 0 {
                lemma_le_value_injective(self.repr@, zeros@);
            }
        }
        zero
    }

    /// The additive inverse in the field.
    pub fn neg(&self) -> (r: Fq)
        ensures
            r@ == neg_mod(self@, fq_modulus()),
    {
        proof {
            use_type_invariant(self);
        }
        Fq { repr: fq_neg_repr(&self.repr) }
    }
}

/// An element of the quadratic extension of the base field: `c0 + c1·u`,
/// with `c0` the real and `c1` the imaginary part.
#[derive(Clone, Copy, Debug, PartialEq, Eq)]
pub struct Fq2 {
    pub c0: Fq,
    pub c1: Fq,
}

impl View for Fq2 {
    type V = (nat, nat);

    /// The real and the imaginary part.
    open spec fn view(&self) -> (nat, nat) {
        (self.c0@, self.c1@)
    }
}

impl Fq2 {
    /// The additive inverse: both parts negated.
    pub fn neg(&self) -> (r: Fq2)
        ensures
            r@ == (neg_mod(self.c0@, fq_modulus()), neg_mod(self.c1@, fq_modulus())),
    {
        Fq2 { c0: self.c0.neg(), c1: self.c1.neg() }
    }
}

} // verus!
