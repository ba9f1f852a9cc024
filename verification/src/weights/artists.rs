//! Weights of the artists operations.

use crate::weights::{RuntimeDbWeight, Weight};
use vstd::prelude::*;

verus! {

/// The weight of each artists operation.
pub trait WeightInfo {
    fn force_create(&self, a: u32, b: u32, c: u32) -> Weight;
}

/// The weight of `force_create`: a base, so much for each unit of `a` and
/// of `b`, and four reads and four writes.
pub open spec fn force_create_weight(db: RuntimeDbWeight, a: u32, b: u32) -> Weight {
    db.charged(
        Weight { ref_time: (2_715_072_000 + 12_223_000 * a + 11_930_000 * b) as u64, proof_size: 0 },
        4,
        4,
    )
}

/// The weights over the cost of database access of the runtime that uses
/// them.
#[derive(Clone, Copy, Debug)]
pub struct SubstrateWeight {
    pub db_weight: RuntimeDbWeight,
}

impl SubstrateWeight {
    /// The weights over this cost of database access.
    pub fn new(db_weight: RuntimeDbWeight) -> (weights: SubstrateWeight)
        ensures
            weights.db_weight == db_weight,
    {
        SubstrateWeight { db_weight }
    }
}

impl WeightInfo for SubstrateWeight {
    /// The third parameter has no weight.
    fn force_create(&self, a: u32, b: u32, c: u32) -> (weight: Weight)
        ensures
            weight == force_create_weight(self.db_weight, a, b),
    {
        assert(12_223_000 * a <= 12_223_000 * 0xffff_ffff) by (nonlinear_arith)
            requires
                a <= 0xffff_ffff,
        ;
        assert(11_930_000 * b <= 11_930_000 * 0xffff_ffff) by (nonlinear_arith)
            requires
                b <= 0xffff_ffff,
        ;
        let base = Weight::from_parts(2_715_072_000, 0).saturating_add(
            Weight::from_parts(12_223_000, 0).saturating_mul(a as u64),
        ).saturating_add(Weight::from_parts(11_930_000, 0).saturating_mul(b as u64));
        assert(0 * a == 0 && 0 * b == 0) by (nonlinear_arith);
        self.db_weight.charge(base, 4, 4)
    }
}

} // verus!
