//! The pairing engine of the verifier.

use vstd::prelude::*;

verus! {

/// The BN254 pairing engine as the NEAR host provides it. The value only
/// names the curve and its groups: no pairing and no Miller loop is ever
/// computed in this process, the one place that needs a pairing sends a
/// batched check to the host instead.
#[derive(Clone, Copy, Debug, PartialEq, Eq)]
pub struct NearBn256;

} // verus!
