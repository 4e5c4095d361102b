//! The BN254 curve as this crate sees it: field elements and points held as
//! plain values, with the arithmetic delegated to `halo2curves`.

pub mod curve;
pub mod field;

pub use curve::{G1Affine, G2Affine};
pub use field::{Fq, Fq2, Fr};
