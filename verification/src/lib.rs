//! A verifier for Halo2 proofs that runs inside a NEAR contract.
//!
//! A PLONK verifier with KZG commitments needs field arithmetic, a
//! Fiat-Shamir transcript, multi-scalar multiplications and one pairing
//! equation. The NEAR host offers the last two as batched primitives, and
//! Keccak-256 as well. This library holds what stands between the
//! verification algorithm and the host: the values the algorithm computes
//! with ([`bn256`], [`loader`]), the byte layouts of the host ([`util`]), the
//! transcript ([`transcript`]) and the pairing decision ([`kzg_decider`]).
//! Every function states what it returns, and Verus proves that it does;
//! what is taken on trust is the behaviour of the curve library and of the
//! host, in small functions that say so.

pub mod bn256;
pub mod encoding;
pub mod error;
pub mod kzg_decider;
pub mod loader;
pub mod multi_miller_loop;
pub mod transcript;
pub mod util;
