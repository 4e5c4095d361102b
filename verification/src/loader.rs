//! The values that the verification algorithm computes with, and the loader
//! that hands them out.
//!
//! A loaded scalar and a loaded point hold their value directly. Scalar
//! arithmetic is done in place by the field; the one operation that leaves
//! the process is the multi-scalar multiplication, which goes to the host in
//! a single batched call.

use crate::bn256::curve::{G1Affine, G1Point};
use crate::bn256::field::{add_mod, fr_modulus, mul_mod, neg_mod, sub_mod, Fr};
use crate::error::Error;
use crate::util::{alt_bn128_g1_multiexp, g1_decoding, g1_multiexp_answer, multiexp_input};
use vstd::prelude::*;

verus! {

/// A scalar as the verification algorithm holds it.
#[derive(Clone, Copy, Debug, PartialEq, Eq)]
pub struct NearLoadedFr(pub Fr);

/// A point of the first group as the verification algorithm holds it.
#[derive(Clone, Copy, Debug, PartialEq, Eq)]
pub struct NearLoadedG1(pub G1Affine);

/// The loader that sends multi-scalar multiplications to the NEAR host. It
/// has no state: every loader is the same loader.
#[derive(Clone, Copy, Debug, PartialEq, Eq)]
pub struct NearLoader;

impl View for NearLoadedFr {
    type V = nat;

    /// The number that the scalar stands for.
    open spec fn view(&self) -> nat {
        self.0@
    }
}

impl View for NearLoadedG1 {
    type V = G1Point;

    /// The coordinates of the point.
    open spec fn view(&self) -> G1Point {
        self.0@
    }
}

/// The pairs of a multi-scalar multiplication as the host is handed them:
/// each point with its scalar.
pub open spec fn msm_pairs(pairs: Seq<(&NearLoadedFr, &NearLoadedG1)>) -> Seq<(G1Point, nat)> {
    pairs.map_values(|pair: (&NearLoadedFr, &NearLoadedG1)| (pair.1@, pair.0@))
}

/// Whether `r` is what a failed or passed equality check returns: success
/// where the two sides agree, and otherwise an assertion failure that
/// carries the caller's annotation.
pub open spec fn is_assertion_result(
    r: Result<(), Error>,
    holds: bool,
    annotation: Seq<char>,
) -> bool {
    match r {
        Ok(_) => holds,
        Err(e) => !holds && e.is_assertion_failure(annotation),
    }
}

impl NearLoadedFr {
    /// The sum of two scalars.
    pub fn add(self, other: &NearLoadedFr) -> (r: NearLoadedFr)
        ensures
            r@ == add_mod(self@, other@, fr_modulus()),
    {
        NearLoadedFr(self.0.add(&other.0))
    }

    /// The difference of two scalars.
    pub fn sub(self, other: &NearLoadedFr) -> (r: NearLoadedFr)
        ensures
            r@ == sub_mod(self@, other@, fr_modulus()),
    {
        NearLoadedFr(self.0.sub(&other.0))
    }

    /// The product of two scalars.
    pub fn mul(self, other: &NearLoadedFr) -> (r: NearLoadedFr)
        ensures
            r@ == mul_mod(self@, other@, fr_modulus()),
    {
        NearLoadedFr(self.0.mul(&other.0))
    }

    /// The additive inverse of the scalar.
    pub fn neg(self) -> (r: NearLoadedFr)
        ensures
            r@ == neg_mod(self@, fr_modulus()),
    {
        NearLoadedFr(self.0.neg())
    }

    /// Adds `other` to the scalar in place.
    pub fn add_assign(&mut self, other: &NearLoadedFr)
        ensures
            final(self)@ == add_mod(old(self)@, other@, fr_modulus()),
    {
        self.0 = self.0.add(&other.0);
    }

    /// Subtracts `other` from the scalar in place.
    pub fn sub_assign(&mut self, other: &NearLoadedFr)
        ensures
            final(self)@ == sub_mod(old(self)@, other@, fr_modulus()),
    {
        self.0 = self.0.sub(&other.0);
    }

    /// Multiplies the scalar by `other` in place.
    pub fn mul_assign(&mut self, other: &NearLoadedFr)
        ensures
            final(self)@ == mul_mod(old(self)@, other@, fr_modulus()),
    {
        self.0 = self.0.mul(&other.0);
    }

    /// The multiplicative inverse: nothing for zero, and otherwise the scalar
    /// whose product with this one is one.
    pub fn invert(&self) -> (r: Option<NearLoadedFr>)
        ensures
            r is None <==> self@ == 0,
            r matches Some(inv) ==> mul_mod(inv@, self@, fr_modulus()) == 1,
    {
        match self.0.invert() {
            Some(inv) => Some(NearLoadedFr(inv)),
            None => None,
        }
    }

    /// The loader that the scalar belongs to.
    pub fn loader(&self) -> NearLoader {
        NearLoader
    }
}

impl NearLoadedG1 {
    /// The loader that the point belongs to.
    pub fn loader(&self) -> NearLoader {
        NearLoader
    }
}

impl NearLoader {
    /// Loads a point that is known beforehand.
    pub fn ec_point_load_const(&self, value: &G1Affine) -> (r: NearLoadedG1)
        ensures
            r@ == value@,
    {
        NearLoadedG1(*value)
    }

    /// Checks that two points are the same, and names the check in the
    /// failure.
    pub fn ec_point_assert_eq(
        &self,
        annotation: &str,
        lhs: &NearLoadedG1,
        rhs: &NearLoadedG1,
    ) -> (r: Result<(), Error>)
        ensures
            is_assertion_result(r, lhs@ == rhs@, annotation@),
    {
        if lhs.0.equals(&rhs.0) {
            Ok(())
        } else {
            Err(Error::assertion(annotation))
        }
    }

    /// The sum of the points, each multiplied by its scalar, computed by the
    /// host in one call. Fails with a decode error where the host's answer is
    /// no point.
    pub fn multi_scalar_multiplication(pairs: &[(&NearLoadedFr, &NearLoadedG1)]) -> (r: Result<
        NearLoadedG1,
        Error,
    >)
        ensures
            match r {
                Ok(p) => g1_decoding(g1_multiexp_answer(multiexp_input(msm_pairs(pairs@))))
                    == Some(p@),
                Err(e) => g1_decoding(g1_multiexp_answer(multiexp_input(msm_pairs(pairs@))))
                    is None && e.is_decode_error("Invalid elliptic curve point encoding"@),
            },
    {
        let mut unloaded: Vec<(G1Affine, Fr)> = Vec::new();
        let mut i: usize = 0;
        while i < pairs.len()
            invariant
                i <= pairs.len(),
                unloaded@.len() == i,
                forall|j: int|
                    0 <= j < i ==> (#[trigger] unloaded@[j]).0@ == pairs@[j].1@ && unloaded@[j].1@
                        == pairs@[j].0@,
            decreases pairs.len() - i,
        {
            let pair = &pairs[i];
            unloaded.push((pair.1.0, pair.0.0));
            i = i + 1;
        }
        assert(crate::util::multiexp_pairs(unloaded@) =~= msm_pairs(pairs@));
        match alt_bn128_g1_multiexp(unloaded.as_slice()) {
            Ok(p) => Ok(NearLoadedG1(p)),
            Err(e) => Err(e),
        }
    }

    /// Loads a scalar that is known beforehand.
    pub fn load_const(&self, value: &Fr) -> (r: NearLoadedFr)
        ensures
            r@ == value@,
    {
        NearLoadedFr(*value)
    }

    /// Checks that two scalars are the same, and names the check in the
    /// failure.
    pub fn assert_eq(&self, annotation: &str, lhs: &NearLoadedFr, rhs: &NearLoadedFr) -> (r:
        Result<(), Error>)
        ensures
            is_assertion_result(r, lhs@ == rhs@, annotation@),
    {
        if lhs.0.equals(&rhs.0) {
            Ok(())
        } else {
            Err(Error::assertion(annotation))
        }
    }
}

} // verus!
