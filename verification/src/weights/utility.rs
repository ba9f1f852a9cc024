//! Weights of the utility operations.

use crate::weights::Weight;
use vstd::prelude::*;

verus! {

/// The weight of each utility operation.
pub trait WeightInfo {
    fn batch(&self, c: u32) -> Weight;

    fn as_derivative(&self) -> Weight;

    fn batch_all(&self, c: u32) -> Weight;

    fn dispatch_as(&self) -> Weight;

    fn force_batch(&self, c: u32) -> Weight;
}

/// The weight of a batch of `c` calls: a base and so much per call.  No
/// batch is large enough for the sum to reach the largest number.
pub open spec fn batch_weight(base: u64, per_call: u64, c: u32) -> Weight {
    Weight { ref_time: (base + per_call * c) as u64, proof_size: 0 }
}

/// The weight of a batch of `c` calls.
fn batch_of(base: u64, per_call: u64, c: u32) -> (weight: Weight)
    requires
        base <= 10_000_000,
        per_call <= 10_000_000,
    ensures
        weight == batch_weight(base, per_call, c),
{
    assert(per_call * c <= 10_000_000 * 0xffff_ffff) by (nonlinear_arith)
        requires
            per_call <= 10_000_000,
            c <= 0xffff_ffff,
    ;
    assert(0 * c == 0) by (nonlinear_arith);
    Weight::from_parts(base, 0).saturating_add(
        Weight::from_parts(per_call, 0).saturating_mul(c as u64),
    )
}

/// The weights measured on the recommended hardware.
#[derive(Clone, Copy, Debug)]
pub struct AllfeatWeight {}

impl AllfeatWeight {
    /// The weights; they do not depend on the runtime.
    pub fn new() -> AllfeatWeight {
        AllfeatWeight {  }
    }
}

impl WeightInfo for AllfeatWeight {
    fn batch(&self, c: u32) -> (weight: Weight)
        ensures
            weight == batch_weight(5_934_467, 3_241_628, c),
    {
        batch_of(5_934_467, 3_241_628, c)
    }

    fn as_derivative(&self) -> (weight: Weight)
        ensures
            weight == (Weight { ref_time: 4_799_000, proof_size: 0 }),
    {
        Weight::from_parts(4_799_000, 0)
    }

    fn batch_all(&self, c: u32) -> (weight: Weight)
        ensures
            weight == batch_weight(5_240_000, 3_489_888, c),
    {
        batch_of(5_240_000, 3_489_888, c)
    }

    fn dispatch_as(&self) -> (weight: Weight)
        ensures
            weight == (Weight { ref_time: 7_400_000, proof_size: 0 }),
    {
        Weight::from_parts(7_400_000, 0)
    }

    fn force_batch(&self, c: u32) -> (weight: Weight)
        ensures
            weight == batch_weight(6_563_475, 3_246_870, c),
    {
        batch_of(6_563_475, 3_246_870, c)
    }
}

} // verus!
