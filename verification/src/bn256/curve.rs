//! Points of the two groups of the BN254 curve, in affine coordinates.
//!
//! A point of the first group is a pair of base-field elements that satisfies
//! `y^2 = x^3 + 3`; a point of the second group is a pair of elements of the
//! quadratic extension that satisfies the equation of the twist and lies in
//! the subgroup of prime order. The pair of zeros stands for the identity in
//! both. Every value of these types is such a point: the constructors ask
//! `halo2curves` and refuse anything else.

use crate::bn256::field::{fq_modulus, neg_mod, Fq, Fq2};
use crate::encoding::le_value;
use halo2curves::group::prime::PrimeCurveAffine;
use halo2curves::group::cofactor::CofactorGroup;
use halo2curves::CurveAffine;
use vstd::prelude::*;

verus! {

/// The equation of the curve over the base field: `y^2 = x^3 + 3`.
pub open spec fn g1_curve_equation(x: nat, y: nat) -> bool {
    (y * y) % fq_modulus() == (x * x * x + 3) % fq_modulus()
}

/// What a pair of numbers must satisfy to stand for a point of the first
/// group: both reduced, and on the curve or both zero.
pub open spec fn g1_point_valid(x: nat, y: nat) -> bool {
    &&& x < fq_modulus()
    &&& y < fq_modulus()
    &&& (g1_curve_equation(x, y) || (x == 0 && y == 0))
}

/// The product in the quadratic extension, where `u^2 = -1`.
pub open spec fn fq2_mul(a: (nat, nat), b: (nat, nat)) -> (nat, nat) {
    let q = fq_modulus();
    (((a.0 * b.0 - a.1 * b.1) % (q as int)) as nat, (a.0 * b.1 + a.1 * b.0) % q)
}

/// The sum in the quadratic extension.
pub open spec fn fq2_add(a: (nat, nat), b: (nat, nat)) -> (nat, nat) {
    ((a.0 + b.0) % fq_modulus(), (a.1 + b.1) % fq_modulus())
}

/// The constant of the twist, `3 / (9 + u)`.
pub open spec fn g2_curve_b() -> (nat, nat) {
    (
        0x2b149d40ceb8aaae81be18991be06ac3b5b4c5e559dbefa33267e6dc24a138e5nat,
        0x009713b03af0fed4cd2cafadeed8fdf4a74fa084e52d1852e4a2bd0685c315d2nat,
    )
}

/// The equation of the twist over the quadratic extension:
/// `y^2 = x^3 + 3 / (9 + u)`.
pub open spec fn g2_curve_equation(x: (nat, nat), y: (nat, nat)) -> bool {
    fq2_mul(y, y) == fq2_add(fq2_mul(fq2_mul(x, x), x), g2_curve_b())
}

/// Whether both parts of both coordinates are reduced.
pub open spec fn g2_coordinates_reduced(x: (nat, nat), y: (nat, nat)) -> bool {
    &&& x.0 < fq_modulus()
    &&& x.1 < fq_modulus()
    &&& y.0 < fq_modulus()
    &&& y.1 < fq_modulus()
}

/// Whether the pair is on the twist, or is the pair of zeros.
pub open spec fn g2_on_curve(x: (nat, nat), y: (nat, nat)) -> bool {
    g2_curve_equation(x, y) || (x == (0nat, 0nat) && y == (0nat, 0nat))
}

/// What `halo2curves` answers when asked whether the point of the twist with
/// these coordinates lies in the subgroup of prime order.
pub uninterp spec fn g2_torsion_free(x0: nat, x1: nat, y0: nat, y1: nat) -> bool;

/// What a pair of extension elements must satisfy to stand for a point of the
/// second group.
pub open spec fn g2_point_valid(x: (nat, nat), y: (nat, nat)) -> bool {
    &&& g2_coordinates_reduced(x, y)
    &&& g2_on_curve(x, y)
    &&& g2_torsion_free(x.0, x.1, y.0, y.1)
}

/// Calls `CurveAffine::from_xy` of `halo2curves::bn256::G1Affine`, which
/// accepts a pair of base-field elements exactly when it satisfies the curve
/// equation or is the pair of zeros.
#[verifier::external_body]
fn g1_repr_on_curve(x: &[u8; 32], y: &[u8; 32]) -> (ok: bool)
    requires
        le_value(x@) < fq_modulus(),
        le_value(y@) < fq_modulus(),
    ensures
        ok == (g1_curve_equation(le_value(x@), le_value(y@)) || (le_value(x@) == 0 && le_value(
            y@,
        ) == 0)),
{
    let x = halo2curves::bn256::Fq::from_bytes(x).unwrap();
    let y = halo2curves::bn256::Fq::from_bytes(y).unwrap();
    halo2curves::bn256::G1Affine::from_xy(x, y).is_some().into()
}

/// Calls `CurveAffine::from_xy` of `halo2curves::bn256::G2Affine`, which
/// accepts a pair of extension elements exactly when it satisfies the
/// equation of the twist or is the pair of zeros.
#[verifier::external_body]
fn g2_repr_on_curve(x0: &[u8; 32], x1: &[u8; 32], y0: &[u8; 32], y1: &[u8; 32]) -> (ok: bool)
    requires
        g2_coordinates_reduced((le_value(x0@), le_value(x1@)), (le_value(y0@), le_value(y1@))),
    ensures
        ok == g2_on_curve((le_value(x0@), le_value(x1@)), (le_value(y0@), le_value(y1@))),
{
    let x0 = halo2curves::bn256::Fq::from_bytes(x0).unwrap();
    let x1 = halo2curves::bn256::Fq::from_bytes(x1).unwrap();
    let y0 = halo2curves::bn256::Fq::from_bytes(y0).unwrap();
    let y1 = halo2curves::bn256::Fq::from_bytes(y1).unwrap();
    let x = halo2curves::bn256::Fq2::new(x0, x1);
    let y = halo2curves::bn256::Fq2::new(y0, y1);
    halo2curves::bn256::G2Affine::from_xy(x, y).is_some().into()
}

/// Calls `CofactorGroup::is_torsion_free` of `halo2curves::bn256::G2` on the
/// point with the given coordinates, and names the answer.
#[verifier::external_body]
fn g2_repr_torsion_free(x0: &[u8; 32], x1: &[u8; 32], y0: &[u8; 32], y1: &[u8; 32]) -> (ok: bool)
    requires
        g2_coordinates_reduced((le_value(x0@), le_value(x1@)), (le_value(y0@), le_value(y1@))),
        g2_on_curve((le_value(x0@), le_value(x1@)), (le_value(y0@), le_value(y1@))),
    ensures
        ok == g2_torsion_free(le_value(x0@), le_value(x1@), le_value(y0@), le_value(y1@)),
{
    let x0 = halo2curves::bn256::Fq::from_bytes(x0).unwrap();
    let x1 = halo2curves::bn256::Fq::from_bytes(x1).unwrap();
    let y0 = halo2curves::bn256::Fq::from_bytes(y0).unwrap();
    let y1 = halo2curves::bn256::Fq::from_bytes(y1).unwrap();
    let x = halo2curves::bn256::Fq2::new(x0, x1);
    let y = halo2curves::bn256::Fq2::new(y0, y1);
    halo2curves::bn256::G2Affine { x, y }.to_curve().is_torsion_free().into()
}

/// A point of the first group as a pair of numbers.
pub struct G1Point {
    pub x: nat,
    pub y: nat,
}

/// A point of the first group.
#[derive(Clone, Copy, Debug, PartialEq, Eq)]
pub struct G1Affine {
    x: Fq,
    y: Fq,
}

impl View for G1Affine {
    type V = G1Point;

    /// The coordinates as numbers.
    closed spec fn view(&self) -> G1Point {
        G1Point { x: self.x@, y: self.y@ }
    }
}

impl G1Affine {
    /// Every value is a point of the group.
    #[verifier::type_invariant]
    pub open spec fn is_valid(self) -> bool {
        g1_point_valid(self@.x, self@.y)
    }

    /// The identity of the group, held as the pair of zeros.
    pub fn identity() -> (r: G1Affine)
        ensures
            r@ == (G1Point { x: 0, y: 0 }),
    {
        G1Affine { x: Fq::zero(), y: Fq::zero() }
    }

    /// The point with the given coordinates, if there is one: the pair must
    /// satisfy the curve equation or be the pair of zeros.
    pub fn from_xy(x: Fq, y: Fq) -> (r: Option<G1Affine>)
        ensures
            r is Some <==> g1_point_valid(x@, y@),
            r matches Some(p) ==> p@ == (G1Point { x: x@, y: y@ }),
    {
        proof {
            use_type_invariant(&x);
            use_type_invariant(&y);
        }
        if g1_repr_on_curve(&x.to_bytes(), &y.to_bytes()) {
            Some(G1Affine { x, y })
        } else {
            None
        }
    }

    /// The first coordinate.
    pub fn x(&self) -> (r: Fq)
        ensures
            r@ == self@.x,
    {
        self.x
    }

    /// The second coordinate.
    pub fn y(&self) -> (r: Fq)
        ensures
            r@ == self@.y,
    {
        self.y
    }

    /// Whether the point is the identity.
    pub fn is_identity(&self) -> (r: bool)
        ensures
            r == (self@.x == 0 && self@.y == 0),
    {
        self.x.is_zero() && self.y.is_zero()
    }

    /// Whether two points are the same.
    pub fn equals(&self, other: &G1Affine) -> (same: bool)
        ensures
            same == (self@ == other@),
    {
        self.x.equals(&other.x) && self.y.equals(&other.y)
    }
}

/// A point of the second group as two pairs of numbers, each the real and the
/// imaginary part of a coordinate.
pub struct G2Point {
    pub x: (nat, nat),
    pub y: (nat, nat),
}

/// The inverse of a point of the second group: the second coordinate
/// negated.
pub open spec fn g2_neg(p: G2Point) -> G2Point {
    G2Point {
        x: p.x,
        y: (
            neg_mod(p.y.0, fq_modulus()),
            neg_mod(p.y.1, fq_modulus()),
        ),
    }
}

/// A point of the second group.
#[derive(Clone, Copy, Debug, PartialEq, Eq)]
pub struct G2Affine {
    x: Fq2,
    y: Fq2,
}

impl View for G2Affine {
    type V = G2Point;

    /// The coordinates as numbers.
    closed spec fn view(&self) -> G2Point {
        G2Point { x: self.x@, y: self.y@ }
    }
}

impl G2Affine {
    /// Every value is a point of the group.
    #[verifier::type_invariant]
    pub open spec fn is_valid(self) -> bool {
        g2_point_valid(self@.x, self@.y)
    }

    /// The point with the given coordinates, if there is one: the pair must
    /// be on the twist, or be the pair of zeros, and lie in the subgroup of
    /// prime order.
    pub fn from_xy(x: Fq2, y: Fq2) -> (r: Option<G2Affine>)
        ensures
            r is Some <==> g2_on_curve(x@, y@) && g2_torsion_free(x@.0, x@.1, y@.0, y@.1),
            r matches Some(p) ==> p@ == (G2Point { x: x@, y: y@ }),
    {
        proof {
            use_type_invariant(&x.c0);
            use_type_invariant(&x.c1);
            use_type_invariant(&y.c0);
            use_type_invariant(&y.c1);
        }
        let x0 = x.c0.to_bytes();
        let x1 = x.c1.to_bytes();
        let y0 = y.c0.to_bytes();
        let y1 = y.c1.to_bytes();
        if g2_repr_on_curve(&x0, &x1, &y0, &y1) && g2_repr_torsion_free(&x0, &x1, &y0, &y1) {
            Some(G2Affine { x, y })
        } else {
            None
        }
    }

    /// The first coordinate.
    pub fn x(&self) -> (r: Fq2)
        ensures
            r@ == self@.x,
    {
        self.x
    }

    /// The second coordinate.
    pub fn y(&self) -> (r: Fq2)
        ensures
            r@ == self@.y,
    {
        self.y
    }

    /// The inverse of the point, once `halo2curves` has confirmed that it is
    /// a point of the group.
    pub fn neg(&self) -> (r: Option<G2Affine>)
        ensures
            r is Some <==> g2_point_valid(g2_neg(self@).x, g2_neg(self@).y),
            r matches Some(p) ==> p@ == g2_neg(self@),
    {
        proof {
            use_type_invariant(self);
        }
        G2Affine::from_xy(self.x, self.y.neg())
    }

    /// Whether two points are the same.
    pub fn equals(&self, other: &G2Affine) -> (same: bool)
        ensures
            same == (self@ == other@),
    {
        self.x.c0.equals(&other.x.c0) && self.x.c1.equals(&other.x.c1) && self.y.c0.equals(
            &other.y.c0,
        ) && self.y.c1.equals(&other.y.c1)
    }
}

} // verus!
