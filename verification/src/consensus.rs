//! The two consensus drivers and what hangs on them.
//!
//! The authoring loop proposes a block on top of the best chain whenever
//! the node is the elected author of a slot.  The finality-voting loop
//! tallies the votes of the authorities by their weight and declares a
//! block irreversible once more than two thirds of the weight stand behind
//! it.  The two know nothing of each other: they meet in the import
//! pipeline and in the finalized floor, which only ever rises.

use crate::evm::BlockRef;
use crate::import::{Block, ImportOutcome, ImportPipeline, Justification, PipelineView};
use crate::primitives::{BlockNumber, H256};
use crate::sync::WarpSyncProvider;
use vstd::prelude::*;

verus! {

/// The block that the elected author of a slot proposes over `pipeline`:
/// one above the head of the best chain, with the head as its parent.
pub open spec fn proposal(pipeline: PipelineView, hash: H256) -> Block {
    Block {
        hash,
        number: (pipeline.best_number() + 1) as BlockNumber,
        parent: Some(pipeline.blocks[pipeline.best].hash),
    }
}

/// Whether a block is proposed: the node must be the elected author of the
/// slot, and there must be a height left above the head.
pub open spec fn proposes(pipeline: PipelineView, elected: bool) -> bool {
    elected && pipeline.best_number() < BlockNumber::MAX
}

/// One slot of the authoring loop.  If the node is the elected author, the
/// block with the content hash `hash` is built on the head of the best
/// chain and handed to the import pipeline, whose answer is returned;
/// otherwise nothing happens and `None` is returned.
pub fn author_slot(pipeline: &mut ImportPipeline, elected: bool, hash: H256) -> (outcome: Option<
    ImportOutcome,
>)
    requires
        old(pipeline)@.wf(),
    ensures
        final(pipeline)@.wf(),
        !proposes(old(pipeline)@, elected) ==> outcome is None && final(pipeline)@ == old(
            pipeline,
        )@,
        proposes(old(pipeline)@, elected) ==> {
            &&& outcome == Some(old(pipeline)@.outcome(proposal(old(pipeline)@, hash), true))
            &&& final(pipeline)@ == old(pipeline)@.imported(
                proposal(old(pipeline)@, hash),
                true,
                Justification::Absent,
            )
        },
{
    if !elected {
        return None;
    }
    let best = pipeline.best_number();
    if best == BlockNumber::MAX {
        return None;
    }
    let candidate = Block { hash, number: best + 1, parent: Some(pipeline.best_hash()) };
    Some(pipeline.import(candidate, true, Justification::Absent))
}

/// The authoring loop follows the fork choice.  A block that the node
/// authors stands on the highest block that extends the last finalized
/// block; so, unless its hash is known already, it passes the
/// finality-safety check, is imported and becomes the head of the best
/// chain.
pub proof fn lemma_authored_block_is_new_best(pipeline: PipelineView, hash: H256)
    requires
        pipeline.wf(),
        proposes(pipeline, true),
        !pipeline.contains(hash),
        !pipeline.is_known_bad(hash),
    ensures
        pipeline.fits(proposal(pipeline, hash)),
        pipeline.outcome(proposal(pipeline, hash), true) == ImportOutcome::Imported(true),
        pipeline.imported(proposal(pipeline, hash), true, Justification::Absent).best
            == pipeline.blocks.len(),
        pipeline.imported(proposal(pipeline, hash), true, Justification::Absent).best_number()
            == pipeline.best_number() + 1,
{
    crate::import::lemma_fork_choice(pipeline);
    crate::import::lemma_position(pipeline, pipeline.best);
}

/// The weight that stands behind `block`: the sum of the weights of the
/// authorities whose vote names it.
pub open spec fn weight_behind(weights: Seq<u64>, votes: Seq<Option<BlockRef>>, block: BlockRef) -> nat
    decreases weights.len(),
{
    if weights.len() == 0 || votes.len() != weights.len() {
        0
    } else {
        let rest = weight_behind(weights.drop_last(), votes.drop_last(), block);
        if votes.last() == Some(block) {
            rest + weights.last() as nat
        } else {
            rest
        }
    }
}

/// The weight of all authorities together.
pub open spec fn total_weight(weights: Seq<u64>) -> nat
    decreases weights.len(),
{
    if weights.len() == 0 {
        0
    } else {
        total_weight(weights.drop_last()) + weights.last() as nat
    }
}

/// Mathematical value of a [`FinalityVoter`].
pub struct VoterView {
    /// The weight of each authority.
    pub weights: Seq<u64>,
    /// The vote of each authority in the running round, if it has cast one.
    pub votes: Seq<Option<BlockRef>>,
    /// The last finalized height.
    pub finalized: BlockNumber,
}

impl VoterView {
    /// One vote slot per authority, and a total weight that a number holds.
    pub open spec fn wf(self) -> bool {
        &&& self.votes.len() == self.weights.len()
        &&& total_weight(self.weights) <= u64::MAX
    }

    /// The votes after `authority` has voted for `block`.
    pub open spec fn cast(self, authority: int, block: BlockRef) -> Seq<Option<BlockRef>> {
        self.votes.update(authority, Some(block))
    }

    /// Whether more than two thirds of the weight stand behind `block` once
    /// `authority` has voted for it.
    pub open spec fn reaches_supermajority(self, authority: int, block: BlockRef) -> bool {
        3 * weight_behind(self.weights, self.cast(authority, block), block) > 2 * total_weight(
            self.weights,
        )
    }

    /// Whether the vote of `authority` for `block` finalizes the block: the
    /// authority exists, the block lies above the finalized floor, and the
    /// vote completes a supermajority.
    pub open spec fn finalizes(self, authority: int, block: BlockRef) -> bool {
        &&& 0 <= authority < self.weights.len()
        &&& block.number > self.finalized
        &&& self.reaches_supermajority(authority, block)
    }

    /// Whether the vote of `authority` for `block` counts: the authority
    /// exists and the block lies above the finalized floor.
    pub open spec fn counts(self, authority: int, block: BlockRef) -> bool {
        0 <= authority < self.weights.len() && block.number > self.finalized
    }

    /// The state after `authority` has voted for `block`.  A vote that does
    /// not count changes nothing.  A vote that finalizes raises the floor
    /// and opens a new round without votes.
    pub open spec fn voted(self, authority: int, block: BlockRef) -> VoterView {
        if self.finalizes(authority, block) {
            VoterView {
                weights: self.weights,
                votes: Seq::new(self.votes.len(), |i: int| None::<BlockRef>),
                finalized: block.number,
            }
        } else if self.counts(authority, block) {
            VoterView { votes: self.cast(authority, block), ..self }
        } else {
            self
        }
    }
}

/// The finality-voting loop.
#[derive(Debug)]
pub struct FinalityVoter {
    weights: Vec<u64>,
    votes: Vec<Option<BlockRef>>,
    finalized: BlockNumber,
}

impl View for FinalityVoter {
    type V = VoterView;

    closed spec fn view(&self) -> VoterView {
        VoterView { weights: self.weights@, votes: self.votes@, finalized: self.finalized }
    }
}

/// The weight of the first `k` authorities is at most that of all.
proof fn lemma_total_of_prefix(weights: Seq<u64>, k: int)
    requires
        0 <= k <= weights.len(),
    ensures
        total_weight(weights.take(k)) <= total_weight(weights),
    decreases weights.len() - k,
{
    if k < weights.len() {
        lemma_total_of_prefix(weights, k + 1);
        assert(weights.take(k + 1).drop_last() =~= weights.take(k));
    } else {
        assert(weights.take(k) =~= weights);
    }
}

/// No more weight stands behind a block than there is.
proof fn lemma_behind_at_most_total(weights: Seq<u64>, votes: Seq<Option<BlockRef>>, block: BlockRef)
    ensures
        weight_behind(weights, votes, block) <= total_weight(weights),
    decreases weights.len(),
{
    if weights.len() > 0 && votes.len() == weights.len() {
        lemma_behind_at_most_total(weights.drop_last(), votes.drop_last(), block);
    }
}

impl FinalityVoter {
    /// A voter for authorities of these weights, with no vote cast and the
    /// floor at `finalized`.  `None` if the weights add up to more than a
    /// number holds.
    pub fn new(weights: Vec<u64>, finalized: BlockNumber) -> (voter: Option<FinalityVoter>)
        ensures
            voter is Some <==> total_weight(weights@) <= u64::MAX,
            voter is Some ==> {
                &&& voter->0@.wf()
                &&& voter->0@.weights == weights@
                &&& voter->0@.votes == Seq::new(weights@.len(), |i: int| None::<BlockRef>)
                &&& voter->0@.finalized == finalized
            },
    {
        let n = weights.len();
        let mut total: u64 = 0;
        let mut votes: Vec<Option<BlockRef>> = Vec::new();
        let mut i: usize = 0;
        while i < n
            invariant
                0 <= i <= n,
                n == weights@.len(),
                total == total_weight(weights@.take(i as int)),
                votes@ == Seq::new(i as nat, |k: int| None::<BlockRef>),
            decreases n - i,
        {
            proof {
                assert(weights@.take(i + 1).drop_last() =~= weights@.take(i as int));
                lemma_total_of_prefix(weights@, i + 1);
            }
            total = match total.checked_add(weights[i]) {
                Some(sum) => sum,
                None => {
                    return None;
                },
            };
            votes.push(None);
            assert(votes@ =~= Seq::new((i + 1) as nat, |k: int| None::<BlockRef>));
            i += 1;
        }
        proof {
            assert(weights@.take(n as int) =~= weights@);
        }
        Some(FinalityVoter { weights, votes, finalized })
    }

    /// The last finalized height.
    pub fn finalized_number(&self) -> (number: BlockNumber)
        ensures
            number == self@.finalized,
    {
        self.finalized
    }

    /// Number of authorities.
    pub fn authorities(&self) -> (n: usize)
        ensures
            n == self@.weights.len(),
    {
        self.weights.len()
    }

    /// The weight that stands behind `block`.
    pub fn weight_for(&self, block: BlockRef) -> (weight: u64)
        requires
            self@.wf(),
        ensures
            weight == weight_behind(self@.weights, self@.votes, block),
    {
        let n = self.weights.len();
        let mut weight: u64 = 0;
        let mut i: usize = 0;
        while i < n
            invariant
                0 <= i <= n,
                n == self.weights@.len(),
                self@.wf(),
                weight == weight_behind(self.weights@.take(i as int), self.votes@.take(i as int), block),
            decreases n - i,
        {
            proof {
                assert(self.weights@.take(i + 1).drop_last() =~= self.weights@.take(i as int));
                assert(self.votes@.take(i + 1).drop_last() =~= self.votes@.take(i as int));
                lemma_total_of_prefix(self.weights@, i + 1);
                lemma_behind_at_most_total(
                    self.weights@.take(i + 1),
                    self.votes@.take(i + 1),
                    block,
                );
            }
            let voted = match self.votes[i] {
                Some(vote) => vote == block,
                None => false,
            };
            if voted {
                weight = weight + self.weights[i];
            }
            i += 1;
        }
        proof {
            assert(self.weights@.take(n as int) =~= self.weights@);
            assert(self.votes@.take(n as int) =~= self.votes@);
        }
        weight
    }

    /// The weight of all authorities together.
    pub fn total(&self) -> (weight: u64)
        requires
            self@.wf(),
        ensures
            weight == total_weight(self@.weights),
    {
        let n = self.weights.len();
        let mut weight: u64 = 0;
        let mut i: usize = 0;
        while i < n
            invariant
                0 <= i <= n,
                n == self.weights@.len(),
                self@.wf(),
                weight == total_weight(self.weights@.take(i as int)),
            decreases n - i,
        {
            proof {
                assert(self.weights@.take(i + 1).drop_last() =~= self.weights@.take(i as int));
                lemma_total_of_prefix(self.weights@, i + 1);
            }
            weight = weight + self.weights[i];
            i += 1;
        }
        proof {
            assert(self.weights@.take(n as int) =~= self.weights@);
        }
        weight
    }

    /// Takes the vote of `authority` for `block`.
    ///
    /// A vote of an authority that does not exist, or for a block at or
    /// below the finalized floor, is dropped.  Any other vote takes the
    /// place of the earlier vote of that authority.  If more than two
    /// thirds of the weight then stand behind the block, the block is
    /// finalized: the floor rises to it, the round ends, and the block
    /// comes back as the finality notification.
    pub fn vote(&mut self, authority: usize, block: BlockRef) -> (finalized: Option<BlockRef>)
        requires
            old(self)@.wf(),
        ensures
            final(self)@.wf(),
            final(self)@ == old(self)@.voted(authority as int, block),
            finalized == if old(self)@.finalizes(authority as int, block) {
                Some(block)
            } else {
                None
            },
    {
        if authority >= self.weights.len() || block.number <= self.finalized {
            return None;
        }
        self.votes.set(authority, Some(block));
        let behind = self.weight_for(block);
        let total = self.total();
        if 3 * (behind as u128) > 2 * (total as u128) {
            let n = self.votes.len();
            let mut i: usize = 0;
            while i < n
                invariant
                    0 <= i <= n,
                    n == self.votes@.len(),
                    self.weights@ == old(self).weights@,
                    forall|k: int| 0 <= k < i ==> self.votes@[k] == None::<BlockRef>,
                decreases n - i,
            {
                self.votes.set(i, None);
                i += 1;
            }
            self.finalized = block.number;
            assert(self.votes@ =~= Seq::new(self.votes@.len(), |k: int| None::<BlockRef>));
            Some(block)
        } else {
            None
        }
    }
}

/// The finalized floor never sinks: a vote leaves it where it is or raises
/// it, and it raises it only for a block that more than two thirds of the
/// weight stand behind.
pub proof fn lemma_finality_is_monotone(voter: VoterView, authority: int, block: BlockRef)
    requires
        voter.wf(),
    ensures
        voter.voted(authority, block).wf(),
        voter.voted(authority, block).finalized >= voter.finalized,
        voter.voted(authority, block).finalized > voter.finalized ==> voter.reaches_supermajority(
            authority,
            block,
        ) && voter.voted(authority, block).finalized == block.number,
        voter.voted(authority, block).weights == voter.weights,
{
}

/// Makes a finality notification known.  If the import pipeline holds the
/// block with this hash above its finalized floor, the floor rises to the
/// block, the provider of warp-sync proofs is told of it, and the block is
/// returned.  Otherwise nothing changes and `None` is returned.
pub fn announce_finality(
    pipeline: &mut ImportPipeline,
    provider: &mut WarpSyncProvider,
    hash: H256,
) -> (finalized: Option<BlockRef>)
    requires
        old(pipeline)@.wf(),
        old(provider)@.wf(),
    ensures
        final(pipeline)@.wf(),
        final(provider)@.wf(),
        final(pipeline)@ == old(pipeline)@.finalized_at(hash),
        old(pipeline)@.raises_floor(hash) ==> {
            let block = BlockRef { hash, number: old(pipeline)@.block_of(hash).number };
            &&& finalized == Some(block)
            &&& final(provider)@ == old(provider)@.told(block)
        },
        !old(pipeline)@.raises_floor(hash) ==> {
            &&& finalized is None
            &&& final(provider)@ == old(provider)@
        },
{
    if !pipeline.finalize(hash) {
        return None;
    }
    let block = BlockRef { hash, number: pipeline.finalized_number() };
    provider.on_finality(block);
    Some(block)
}

} // verus!
