//! The last step of the verification: the pairing equation of KZG.
//!
//! The verification algorithm reduces a proof to accumulators, pairs
//! `(lhs, rhs)` of points of the first group. A proof is accepted when every
//! accumulator satisfies `e(lhs, g2)·e(rhs, -s·g2) = 1`. The pairings are not
//! computed here: each equation goes to the host as one batched pairing
//! check of two terms.

use crate::bn256::curve::{g2_neg, g2_point_valid, G1Affine, G1Point, G2Affine, G2Point};
use crate::error::Error;
use crate::loader::{is_assertion_result, NearLoadedG1};
use crate::util::{alt_bn128_pairing_check, pairing_check_answer, pairing_input, pairing_terms};
use vstd::prelude::*;

verus! {

/// An accumulator as a pair of points.
pub struct Accumulator {
    pub lhs: G1Point,
    pub rhs: G1Point,
}

/// A deciding key as its three points.
pub struct DecidingKey {
    pub g1: G1Point,
    pub g2: G2Point,
    pub s_g2: G2Point,
}

/// The two terms of the pairing equation, in the order in which the host is
/// handed them.
pub open spec fn decision_terms(dk: DecidingKey, accumulator: Accumulator) -> Seq<
    (G1Point, G2Point),
> {
    seq![(accumulator.lhs, dk.g2), (accumulator.rhs, g2_neg(dk.s_g2))]
}

/// Whether the accumulator satisfies the pairing equation under the key:
/// what the host answers on the two terms.
pub open spec fn decides(dk: DecidingKey, accumulator: Accumulator) -> bool {
    pairing_check_answer(pairing_input(decision_terms(dk, accumulator)))
}

/// Whether every accumulator satisfies the pairing equation under the key.
pub open spec fn decides_all(dk: DecidingKey, accumulators: Seq<KzgAccumulator>) -> bool {
    forall|i: int| 0 <= i < accumulators.len() ==> decides(dk, (#[trigger] accumulators[i])@)
}

/// The text of the failure of the pairing equation.
pub open spec fn pairing_equation() -> Seq<char> {
    "e(lhs, g2)·e(rhs, -s_g2) == O"@
}

/// The two sides of one batched opening equation.
#[derive(Clone, Copy, Debug, PartialEq, Eq)]
pub struct KzgAccumulator {
    pub lhs: NearLoadedG1,
    pub rhs: NearLoadedG1,
}

impl View for KzgAccumulator {
    type V = Accumulator;

    /// The two points.
    open spec fn view(&self) -> Accumulator {
        Accumulator { lhs: self.lhs@, rhs: self.rhs@ }
    }
}

impl KzgAccumulator {
    /// The accumulator with the given sides.
    pub fn new(lhs: NearLoadedG1, rhs: NearLoadedG1) -> (r: KzgAccumulator)
        ensures
            r@ == (Accumulator { lhs: lhs@, rhs: rhs@ }),
    {
        KzgAccumulator { lhs, rhs }
    }
}

/// The public data that the pairing equation needs: the generator of the
/// first group, the generator of the second, and the latter multiplied by
/// the secret of the setup. The key also keeps the inverse of that last
/// point, which is the one the equation uses.
#[derive(Clone, Copy, Debug, PartialEq, Eq)]
pub struct KzgDecidingKey {
    g1: G1Affine,
    g2: G2Affine,
    s_g2: G2Affine,
    neg_s_g2: G2Affine,
}

impl View for KzgDecidingKey {
    type V = DecidingKey;

    /// The three points of the key.
    closed spec fn view(&self) -> DecidingKey {
        DecidingKey { g1: self.g1@, g2: self.g2@, s_g2: self.s_g2@ }
    }
}

impl KzgDecidingKey {
    /// The inverse that the key keeps is the inverse of its third point.
    #[verifier::type_invariant]
    spec fn inverse_kept(self) -> bool {
        self.neg_s_g2@ == g2_neg(self.s_g2@)
    }

    /// The key made of the three points. There is none where the inverse of
    /// `s_g2` is not confirmed as a point of the second group.
    pub fn new(g1: G1Affine, g2: G2Affine, s_g2: G2Affine) -> (r: Option<KzgDecidingKey>)
        ensures
            r is Some <==> g2_point_valid(g2_neg(s_g2@).x, g2_neg(s_g2@).y),
            r matches Some(dk) ==> dk@ == (DecidingKey { g1: g1@, g2: g2@, s_g2: s_g2@ }),
    {
        match s_g2.neg() {
            Some(neg_s_g2) => Some(KzgDecidingKey { g1, g2, s_g2, neg_s_g2 }),
            None => None,
        }
    }

    /// The generator of the first group.
    pub fn g1(&self) -> (r: G1Affine)
        ensures
            r@ == self@.g1,
    {
        self.g1
    }

    /// The generator of the second group.
    pub fn g2(&self) -> (r: G2Affine)
        ensures
            r@ == self@.g2,
    {
        self.g2
    }

    /// The generator of the second group multiplied by the secret of the
    /// setup.
    pub fn s_g2(&self) -> (r: G2Affine)
        ensures
            r@ == self@.s_g2,
    {
        self.s_g2
    }
}

/// Decides one accumulator: asks the host whether
/// `e(lhs, g2)·e(rhs, -s_g2)` is one, and turns a refusal into an assertion
/// failure that names the equation.
pub fn decide(dk: &KzgDecidingKey, accumulator: KzgAccumulator) -> (r: Result<(), Error>)
    ensures
        is_assertion_result(r, decides(dk@, accumulator@), pairing_equation()),
{
    proof {
        use_type_invariant(dk);
    }
    let mut terms: Vec<(G1Affine, G2Affine)> = Vec::new();
    terms.push((accumulator.lhs.0, dk.g2));
    terms.push((accumulator.rhs.0, dk.neg_s_g2));
    assert(pairing_terms(terms@) =~= decision_terms(dk@, accumulator@));
    if alt_bn128_pairing_check(terms) {
        Ok(())
    } else {
        Err(Error::assertion("e(lhs, g2)·e(rhs, -s_g2) == O"))
    }
}

/// Decides every accumulator on its own. Succeeds only if all of them
/// satisfy the equation, and fails with the failure of the first that does
/// not.
pub fn decide_all(dk: &KzgDecidingKey, accumulators: Vec<KzgAccumulator>) -> (r: Result<
    (),
    Error,
>)
    ensures
        is_assertion_result(r, decides_all(dk@, accumulators@), pairing_equation()),
{
    let mut i: usize = 0;
    while i < accumulators.len()
        invariant
            i <= accumulators.len(),
            forall|j: int| 0 <= j < i ==> decides(dk@, (#[trigger] accumulators@[j])@),
        decreases accumulators.len() - i,
    {
        match decide(dk, accumulators[i]) {
            Ok(_) => {},
            Err(e) => {
                return Err(e);
            },
        }
        i = i + 1;
    }
    Ok(())
}

} // verus!
