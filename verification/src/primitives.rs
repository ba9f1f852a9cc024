//! Plain values shared by every component.

use vstd::prelude::*;

verus! {

/// Height of a block in the chain.
pub type BlockNumber = u64;

/// Amount of the native currency, in its smallest unit.
pub type Balance = u128;

/// A 256-bit content hash, held as two halves.
#[derive(Clone, Copy, Debug, PartialEq, Eq, Structural)]
pub struct H256 {
    pub high: u128,
    pub low: u128,
}

impl H256 {
    /// The hash whose low half is `low` and whose high half is zero.
    pub fn from_low(low: u128) -> (h: H256)
        ensures
            h == (H256 { high: 0, low }),
    {
        H256 { high: 0, low }
    }
}

} // verus!
