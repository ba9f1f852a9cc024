//! Weights of the safe-mode operations.

use crate::weights::{RuntimeDbWeight, Weight};
use vstd::prelude::*;

verus! {

/// The weight of each safe-mode operation.
pub trait WeightInfo {
    fn on_initialize_noop(&self) -> Weight;

    fn on_initialize_exit(&self) -> Weight;

    fn enter(&self) -> Weight;

    fn force_enter(&self) -> Weight;

    fn extend(&self) -> Weight;

    fn force_extend(&self) -> Weight;

    fn force_exit(&self) -> Weight;

    fn release_deposit(&self) -> Weight;

    fn force_release_deposit(&self) -> Weight;

    fn force_slash_deposit(&self) -> Weight;
}

/// The weights measured on the recommended hardware, over the cost of
/// database access of the runtime that uses them.
#[derive(Clone, Copy, Debug)]
pub struct AllfeatWeight {
    pub db_weight: RuntimeDbWeight,
}

impl AllfeatWeight {
    /// The weights over this cost of database access.
    pub fn new(db_weight: RuntimeDbWeight) -> (weights: AllfeatWeight)
        ensures
            weights.db_weight == db_weight,
    {
        AllfeatWeight { db_weight }
    }
}

impl WeightInfo for AllfeatWeight {
    /// One read.
    fn on_initialize_noop(&self) -> (weight: Weight)
        ensures
            weight == self.db_weight.charged(
                Weight { ref_time: 4_840_000, proof_size: 1489 },
                1,
                0,
            ),
    {
        self.db_weight.charge(Weight::from_parts(4_840_000, 1489), 1, 0)
    }

    /// One read, one write.
    fn on_initialize_exit(&self) -> (weight: Weight)
        ensures
            weight == self.db_weight.charged(
                Weight { ref_time: 13_440_000, proof_size: 1489 },
                1,
                1,
            ),
    {
        self.db_weight.charge(Weight::from_parts(13_440_000, 1489), 1, 1)
    }

    /// Free.
    fn enter(&self) -> (weight: Weight)
        ensures
            weight == (Weight { ref_time: 0, proof_size: 0 }),
    {
        Weight::from_parts(0, 0)
    }

    /// One read, one write.
    fn force_enter(&self) -> (weight: Weight)
        ensures
            weight == self.db_weight.charged(
                Weight { ref_time: 15_320_000, proof_size: 1489 },
                1,
                1,
            ),
    {
        self.db_weight.charge(Weight::from_parts(15_320_000, 1489), 1, 1)
    }

    /// Free.
    fn extend(&self) -> (weight: Weight)
        ensures
            weight == (Weight { ref_time: 0, proof_size: 0 }),
    {
        Weight::from_parts(0, 0)
    }

    /// One read, one write.
    fn force_extend(&self) -> (weight: Weight)
        ensures
            weight == self.db_weight.charged(
                Weight { ref_time: 16_760_000, proof_size: 1489 },
                1,
                1,
            ),
    {
        self.db_weight.charge(Weight::from_parts(16_760_000, 1489), 1, 1)
    }

    /// One read, one write.
    fn force_exit(&self) -> (weight: Weight)
        ensures
            weight == self.db_weight.charged(
                Weight { ref_time: 17_320_000, proof_size: 1489 },
                1,
                1,
            ),
    {
        self.db_weight.charge(Weight::from_parts(17_320_000, 1489), 1, 1)
    }

    /// Three reads, two writes.
    fn release_deposit(&self) -> (weight: Weight)
        ensures
            weight == self.db_weight.charged(
                Weight { ref_time: 72_921_000, proof_size: 3622 },
                3,
                2,
            ),
    {
        self.db_weight.charge(Weight::from_parts(72_921_000, 3622), 3, 2)
    }

    /// Two reads, two writes.
    fn force_release_deposit(&self) -> (weight: Weight)
        ensures
            weight == self.db_weight.charged(
                Weight { ref_time: 70_961_000, proof_size: 3622 },
                2,
                2,
            ),
    {
        self.db_weight.charge(Weight::from_parts(70_961_000, 3622), 2, 2)
    }

    /// Two reads, two writes.
    fn force_slash_deposit(&self) -> (weight: Weight)
        ensures
            weight == self.db_weight.charged(
                Weight { ref_time: 56_601_000, proof_size: 3622 },
                2,
                2,
            ),
    {
        self.db_weight.charge(Weight::from_parts(56_601_000, 3622), 2, 2)
    }
}

} // verus!
