//! Weights: what an operation costs, in computation time and in size of the
//! storage proof.

use vstd::prelude::*;

pub mod artists;
pub mod safe_mode;
pub mod utility;

verus! {

/// The sum of two numbers, or the largest number if the sum exceeds it.
pub open spec fn saturating_sum(a: u64, b: u64) -> u64 {
    if a + b > u64::MAX {
        u64::MAX
    } else {
        (a + b) as u64
    }
}

/// The product of two numbers, or the largest number if the product
/// exceeds it.
pub open spec fn saturating_product(a: u64, b: u64) -> u64 {
    if a * b > u64::MAX {
        u64::MAX
    } else {
        (a * b) as u64
    }
}

/// The product of two numbers, held at the largest number.
pub fn saturating_mul(a: u64, b: u64) -> (product: u64)
    ensures
        product == saturating_product(a, b),
{
    match a.checked_mul(b) {
        Some(product) => product,
        None => u64::MAX,
    }
}

/// A weight: computation time in picoseconds and proof size in bytes.
#[derive(Clone, Copy, Debug, PartialEq, Eq, Structural)]
pub struct Weight {
    pub ref_time: u64,
    pub proof_size: u64,
}

impl Weight {
    /// The weight with these two parts.
    pub fn from_parts(ref_time: u64, proof_size: u64) -> (weight: Weight)
        ensures
            weight == (Weight { ref_time, proof_size }),
    {
        Weight { ref_time, proof_size }
    }

    /// The computation time.
    pub fn ref_time(&self) -> (ref_time: u64)
        ensures
            ref_time == self.ref_time,
    {
        self.ref_time
    }

    /// The proof size.
    pub fn proof_size(&self) -> (proof_size: u64)
        ensures
            proof_size == self.proof_size,
    {
        self.proof_size
    }

    /// The sum part by part, each held at the largest number.
    pub open spec fn plus(self, rhs: Weight) -> Weight {
        Weight {
            ref_time: saturating_sum(self.ref_time, rhs.ref_time),
            proof_size: saturating_sum(self.proof_size, rhs.proof_size),
        }
    }

    /// Each part times `scalar`, held at the largest number.
    pub open spec fn times(self, scalar: u64) -> Weight {
        Weight {
            ref_time: saturating_product(self.ref_time, scalar),
            proof_size: saturating_product(self.proof_size, scalar),
        }
    }

    /// The sum part by part, each held at the largest number.
    pub fn saturating_add(self, rhs: Weight) -> (sum: Weight)
        ensures
            sum == self.plus(rhs),
    {
        Weight {
            ref_time: self.ref_time.saturating_add(rhs.ref_time),
            proof_size: self.proof_size.saturating_add(rhs.proof_size),
        }
    }

    /// Each part times `scalar`, held at the largest number.
    pub fn saturating_mul(self, scalar: u64) -> (product: Weight)
        ensures
            product == self.times(scalar),
    {
        Weight {
            ref_time: self::saturating_mul(self.ref_time, scalar),
            proof_size: self::saturating_mul(self.proof_size, scalar),
        }
    }
}

/// What one read and one write of the database cost, in computation time.
#[derive(Clone, Copy, Debug, PartialEq, Eq, Structural)]
pub struct RuntimeDbWeight {
    pub read: u64,
    pub write: u64,
}

impl RuntimeDbWeight {
    /// The weight of `r` reads.
    pub open spec fn reading(self, r: u64) -> Weight {
        Weight { ref_time: saturating_product(self.read, r), proof_size: 0 }
    }

    /// The weight of `w` writes.
    pub open spec fn writing(self, w: u64) -> Weight {
        Weight { ref_time: saturating_product(self.write, w), proof_size: 0 }
    }

    /// The weight of `r` reads.
    pub fn reads(self, r: u64) -> (weight: Weight)
        ensures
            weight == self.reading(r),
    {
        Weight::from_parts(saturating_mul(self.read, r), 0)
    }

    /// The weight of `w` writes.
    pub fn writes(self, w: u64) -> (weight: Weight)
        ensures
            weight == self.writing(w),
    {
        Weight::from_parts(saturating_mul(self.write, w), 0)
    }

    /// A base weight with `r` reads and `w` writes on top.
    pub open spec fn charged(self, base: Weight, r: u64, w: u64) -> Weight {
        base.plus(self.reading(r)).plus(self.writing(w))
    }

    /// A base weight with `r` reads and `w` writes on top.
    pub fn charge(self, base: Weight, r: u64, w: u64) -> (weight: Weight)
        ensures
            weight == self.charged(base, r, w),
    {
        base.saturating_add(self.reads(r)).saturating_add(self.writes(w))
    }
}

/// Adding no weight changes nothing, and a weight without writes is the
/// base with the reads on top.
pub proof fn lemma_charged_without_writes(db: RuntimeDbWeight, base: Weight, r: u64)
    ensures
        db.charged(base, r, 0) == base.plus(db.reading(r)),
        db.charged(base, 0, 0) == base,
{
    assert(db.write * 0 == 0) by (nonlinear_arith);
    assert(db.read * 0 == 0) by (nonlinear_arith);
}

} // verus!
