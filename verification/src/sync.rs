//! The provider of warp-sync proofs.
//!
//! A peer that joins does not replay the history of the chain: it asks for
//! the finalized checkpoints above the height that it knows and goes on
//! from the last of them.  The provider learns of every block that the
//! finality gadget declares irreversible and keeps them by ascending
//! height.

use crate::evm::BlockRef;
use crate::primitives::BlockNumber;
use crate::seq_lemmas::lemma_filter_is_suffix;
use vstd::prelude::*;

verus! {

/// Mathematical value of a [`WarpSyncProvider`]: the checkpoints by
/// ascending height.
pub struct WarpSyncView {
    pub checkpoints: Seq<BlockRef>,
}

impl WarpSyncView {
    /// Heights ascend strictly.
    pub open spec fn wf(self) -> bool {
        forall|i: int, j: int|
            0 <= i < j < self.checkpoints.len() ==> self.checkpoints[i].number
                < self.checkpoints[j].number
    }

    /// Whether `block` lies above every checkpoint.
    pub open spec fn is_above(self, block: BlockRef) -> bool {
        self.checkpoints.len() == 0 || self.checkpoints.last().number < block.number
    }

    /// The provider after it was told that `block` is irreversible: the
    /// block becomes the last checkpoint if it lies above all of them.
    pub open spec fn told(self, block: BlockRef) -> WarpSyncView {
        if self.is_above(block) {
            WarpSyncView { checkpoints: self.checkpoints.push(block) }
        } else {
            self
        }
    }

    /// Holds of the checkpoints above height `number`.
    pub open spec fn above(number: BlockNumber) -> spec_fn(BlockRef) -> bool {
        |block: BlockRef| block.number > number
    }

    /// The checkpoints above height `number`, by ascending height.
    pub open spec fn proof_from(self, number: BlockNumber) -> Seq<BlockRef> {
        self.checkpoints.filter(Self::above(number))
    }
}

/// The provider of warp-sync proofs.
#[derive(Debug)]
pub struct WarpSyncProvider {
    checkpoints: Vec<BlockRef>,
}

impl View for WarpSyncProvider {
    type V = WarpSyncView;

    closed spec fn view(&self) -> WarpSyncView {
        WarpSyncView { checkpoints: self.checkpoints@ }
    }
}

impl WarpSyncProvider {
    /// A provider without checkpoints.
    pub fn new() -> (provider: WarpSyncProvider)
        ensures
            provider@.wf(),
            provider@.checkpoints.len() == 0,
    {
        WarpSyncProvider { checkpoints: Vec::new() }
    }

    /// Tells the provider that `block` is irreversible.  Returns whether
    /// the block became a checkpoint: one that does not lie above the last
    /// checkpoint is dropped.
    pub fn on_finality(&mut self, block: BlockRef) -> (added: bool)
        requires
            old(self)@.wf(),
        ensures
            final(self)@.wf(),
            final(self)@ == old(self)@.told(block),
            added == old(self)@.is_above(block),
    {
        let n = self.checkpoints.len();
        if n > 0 && self.checkpoints[n - 1].number >= block.number {
            return false;
        }
        self.checkpoints.push(block);
        proof {
            let before = old(self)@;
            let after = self@;
            assert forall|i: int, j: int| 0 <= i < j < after.checkpoints.len() implies after.checkpoints[i].number
                < after.checkpoints[j].number by {
                if j < before.checkpoints.len() {
                    assert(before.checkpoints[i].number < before.checkpoints[j].number);
                } else if i < before.checkpoints.len() - 1 {
                    assert(before.checkpoints[i].number < before.checkpoints[n - 1].number);
                }
            }
        }
        true
    }

    /// The last checkpoint, if there is one.
    pub fn latest(&self) -> (block: Option<BlockRef>)
        ensures
            self@.checkpoints.len() == 0 ==> block is None,
            self@.checkpoints.len() > 0 ==> block == Some(self@.checkpoints.last()),
    {
        let n = self.checkpoints.len();
        if n == 0 {
            None
        } else {
            Some(self.checkpoints[n - 1])
        }
    }

    /// The checkpoints above height `number`, by ascending height: what a
    /// peer that knows the chain up to that height needs to catch up.
    pub fn proof_from(&self, number: BlockNumber) -> (proof: Vec<BlockRef>)
        requires
            self@.wf(),
        ensures
            proof@ == self@.proof_from(number),
    {
        let n = self.checkpoints.len();
        let mut start: usize = 0;
        while start < n && self.checkpoints[start].number <= number
            invariant
                0 <= start <= n,
                n == self.checkpoints@.len(),
                forall|i: int| 0 <= i < start ==> (#[trigger] self.checkpoints@[i]).number <= number,
            decreases n - start,
        {
            start += 1;
        }
        proof {
            let all = self@.checkpoints;
            assert forall|i: int| start <= i < n implies (#[trigger] all[i]).number > number by {
                if i > start {
                    assert(all[start as int].number < all[i].number);
                }
            }
            assert forall|i: int| 0 <= i < start implies !WarpSyncView::above(number)(
                #[trigger] all[i],
            ) by {}
            assert forall|i: int| start <= i < all.len() implies WarpSyncView::above(number)(
                #[trigger] all[i],
            ) by {}
            lemma_filter_is_suffix(all, WarpSyncView::above(number), start as int);
        }
        let mut proof: Vec<BlockRef> = Vec::new();
        let mut i: usize = start;
        while i < n
            invariant
                start <= i <= n,
                n == self.checkpoints@.len(),
                proof@ == self.checkpoints@.subrange(start as int, i as int),
            decreases n - i,
        {
            proof.push(self.checkpoints[i]);
            assert(self.checkpoints@.subrange(start as int, i + 1) =~= self.checkpoints@.subrange(
                start as int,
                i as int,
            ).push(self.checkpoints@[i as int]));
            i += 1;
        }
        assert(self.checkpoints@.subrange(start as int, n as int) =~= self.checkpoints@.skip(
            start as int,
        ));
        proof
    }
}

} // verus!
