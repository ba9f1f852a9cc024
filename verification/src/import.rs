//! The block-import pipeline.
//!
//! A candidate block passes two validation stages in a fixed order, the
//! slot-authoring check and the finality-safety check, and is then committed
//! to the chain store.  The commit and the import notification are one step:
//! no subscriber ever sees a notification for a block that the store does not
//! hold.
//!
//! The store is a tree: every block but the genesis block stands one above
//! its parent.  Of this tree the last finalized block and what it stands on
//! are irreversible, and the finality-safety check admits only what extends
//! them.  The head of the best chain is the highest block that extends the
//! last finalized block.

use crate::primitives::{BlockNumber, H256};
use vstd::prelude::*;

verus! {

/// A block as the pipeline refers to it: by hash, height and parent.
#[derive(Clone, Copy, Debug, PartialEq, Eq)]
pub struct Block {
    pub hash: H256,
    pub number: BlockNumber,
    pub parent: Option<H256>,
}

/// The event emitted once for every block that was imported.
#[derive(Clone, Copy, Debug, PartialEq, Eq, Structural)]
pub struct ImportNotification {
    pub hash: H256,
    pub number: BlockNumber,
    /// Whether the block became the head of the best chain.
    pub is_new_best: bool,
}

/// The validation stages, in the order in which a candidate meets them.
#[derive(Clone, Copy, Debug, PartialEq, Eq, Structural)]
pub enum Stage {
    /// Is the claimed production slot, and its author, admissible?
    SlotAuthoring,
    /// Would the commit touch what is already irreversible?
    FinalitySafety,
}

/// Why a candidate failed a validation stage.
#[derive(Clone, Copy, Debug, PartialEq, Eq, Structural)]
pub enum InvalidReason {
    /// The slot-authoring check refused the claimed slot or author.
    SlotNotAdmissible,
    /// The block does not extend the last finalized block: its parent is
    /// not in the store, or does not descend from that block, or the block
    /// does not stand one above its parent.
    FinalityConflict,
}

/// The answer of the pipeline to one candidate.
#[derive(Clone, Copy, Debug, PartialEq, Eq, Structural)]
pub enum ImportOutcome {
    /// Committed; the flag says whether it extends the best chain.
    Imported(bool),
    /// The store holds the block already.
    AlreadyInChain,
    /// The block failed validation before and is not looked at again.
    KnownBad,
    /// The block failed a validation stage and is discarded for good.
    Invalid(InvalidReason),
}

/// What the finality gadget said of a justification that came with a block.
#[derive(Clone, Copy, Debug, PartialEq, Eq, Structural)]
pub enum Justification {
    /// The block came without one.
    Absent,
    /// The gadget accepted it: the block is irreversible.
    Accepted,
    /// The gadget refused it; the block import is not affected.
    Rejected,
}

/// A reader of the notification stream: what it was offered from, and what
/// it takes next.
#[derive(Clone, Copy, Debug, PartialEq, Eq)]
pub struct Subscriber {
    pub from: usize,
    pub next: usize,
}

/// Whether the block at position `i` is the block at position `a` or
/// descends from it.  `parents` gives for every position that of the
/// parent.
pub open spec fn descends(parents: Seq<usize>, i: int, a: int) -> bool
    decreases i,
{
    if i == a {
        true
    } else if a < i < parents.len() && parents[i] < i {
        descends(parents, parents[i] as int, a)
    } else {
        false
    }
}

/// Position of the highest of the blocks before position `upto` that
/// descend from the block at position `a`; of several of that height, the
/// one that was committed first.
pub open spec fn highest(blocks: Seq<Block>, parents: Seq<usize>, a: int, upto: int) -> int
    decreases upto - a,
{
    if upto <= a + 1 {
        a
    } else {
        let before = highest(blocks, parents, a, upto - 1);
        if descends(parents, upto - 1, a) && blocks[upto - 1].number > blocks[before].number {
            upto - 1
        } else {
            before
        }
    }
}

/// Mathematical value of an [`ImportPipeline`].
pub struct PipelineView {
    /// The committed blocks in commit order; the first is the genesis block.
    pub blocks: Seq<Block>,
    /// For every committed block the position of its parent; the genesis
    /// block has none and stands for its own.
    pub parents: Seq<usize>,
    /// One notification for every committed block but the genesis block.
    pub notifications: Seq<ImportNotification>,
    /// The hashes of the blocks that failed validation.
    pub known_bad: Seq<H256>,
    /// Position of the head of the best chain in `blocks`.
    pub best: int,
    /// Position of the last finalized block in `blocks`.
    pub finalized: int,
    pub subscribers: Seq<Subscriber>,
}

impl PipelineView {
    /// Whether the store holds a block with this hash.
    pub open spec fn contains(self, hash: H256) -> bool {
        exists|i: int| 0 <= i < self.blocks.len() && #[trigger] self.blocks[i].hash == hash
    }

    /// Where the block with this hash stands in commit order.
    pub open spec fn position(self, hash: H256) -> int {
        choose|i: int| 0 <= i < self.blocks.len() && #[trigger] self.blocks[i].hash == hash
    }

    /// The committed block with this hash.
    pub open spec fn block_of(self, hash: H256) -> Block {
        self.blocks[self.position(hash)]
    }

    /// Whether a block with this hash failed validation before.
    pub open spec fn is_known_bad(self, hash: H256) -> bool {
        self.known_bad.contains(hash)
    }

    /// Height of the head of the best chain.
    pub open spec fn best_number(self) -> BlockNumber {
        self.blocks[self.best].number
    }

    /// The last finalized height.
    pub open spec fn finalized_number(self) -> BlockNumber {
        self.blocks[self.finalized].number
    }

    /// Whether the block at position `i` stands one above its parent.
    pub open spec fn linked(self, i: int) -> bool {
        &&& self.parents[i] < i
        &&& self.blocks[i].parent == Some(self.blocks[self.parents[i] as int].hash)
        &&& self.blocks[i].number == self.blocks[self.parents[i] as int].number + 1
    }

    /// The notification that the commit of `block` emits in this state.
    pub open spec fn notification_for(self, block: Block) -> ImportNotification {
        ImportNotification {
            hash: block.hash,
            number: block.number,
            is_new_best: block.number > self.best_number(),
        }
    }

    /// The store is a tree of blocks with hashes of their own, every block
    /// has its notification, no bad block is stored, the head of the best
    /// chain is the highest block above the last finalized one, and no
    /// subscriber is ahead of the stream.
    pub open spec fn wf(self) -> bool {
        &&& 1 <= self.blocks.len() <= usize::MAX
        &&& self.parents.len() == self.blocks.len()
        &&& self.notifications.len() + 1 == self.blocks.len()
        &&& forall|i: int, j: int|
            0 <= i < j < self.blocks.len() ==> self.blocks[i].hash != self.blocks[j].hash
        &&& self.parents[0] == 0
        &&& forall|i: int| 1 <= i < self.blocks.len() ==> #[trigger] self.linked(i)
        &&& forall|i: int|
            0 <= i < self.notifications.len() ==> {
                &&& (#[trigger] self.notifications[i]).hash == self.blocks[i + 1].hash
                &&& self.notifications[i].number == self.blocks[i + 1].number
            }
        &&& forall|i: int|
            0 <= i < self.known_bad.len() ==> !self.contains(#[trigger] self.known_bad[i])
        &&& 0 <= self.finalized < self.blocks.len()
        &&& self.best == highest(self.blocks, self.parents, self.finalized, self.blocks.len() as int)
        &&& forall|i: int|
            0 <= i < self.subscribers.len() ==> (#[trigger] self.subscribers[i]).from
                <= self.subscribers[i].next <= self.notifications.len()
    }

    /// Whether `candidate` extends the last finalized block: its parent is
    /// in the store and descends from that block, and it stands one above
    /// its parent.
    pub open spec fn fits(self, candidate: Block) -> bool {
        &&& candidate.parent is Some
        &&& self.contains(candidate.parent->0)
        &&& candidate.number == self.block_of(candidate.parent->0).number + 1
        &&& descends(self.parents, self.position(candidate.parent->0), self.finalized)
    }

    /// What the pipeline answers to `candidate`, given the verdict of the
    /// slot-authoring check.
    pub open spec fn outcome(self, candidate: Block, slot_admissible: bool) -> ImportOutcome {
        if self.contains(candidate.hash) {
            ImportOutcome::AlreadyInChain
        } else if self.is_known_bad(candidate.hash) {
            ImportOutcome::KnownBad
        } else if !slot_admissible {
            ImportOutcome::Invalid(InvalidReason::SlotNotAdmissible)
        } else if !self.fits(candidate) {
            ImportOutcome::Invalid(InvalidReason::FinalityConflict)
        } else {
            ImportOutcome::Imported(candidate.number > self.best_number())
        }
    }

    /// The state after `candidate` was committed: it is the last block of
    /// the store, its notification is the last of the stream, and it is the
    /// head of the best chain if it is higher than the head was.
    pub open spec fn committed(self, candidate: Block) -> PipelineView {
        PipelineView {
            blocks: self.blocks.push(candidate),
            parents: self.parents.push(self.position(candidate.parent->0) as usize),
            notifications: self.notifications.push(self.notification_for(candidate)),
            best: if candidate.number > self.best_number() {
                self.blocks.len() as int
            } else {
                self.best
            },
            ..self
        }
    }

    /// Whether finalizing `hash` moves the last finalized block: the store
    /// must hold the block, and it must descend from the last finalized
    /// block without being it.
    pub open spec fn raises_floor(self, hash: H256) -> bool {
        &&& self.contains(hash)
        &&& self.position(hash) != self.finalized
        &&& descends(self.parents, self.position(hash), self.finalized)
    }

    /// The state after the finality gadget has declared `hash`
    /// irreversible.  If that moves the last finalized block, the head of
    /// the best chain becomes the highest block that extends the new one;
    /// otherwise nothing changes.
    pub open spec fn finalized_at(self, hash: H256) -> PipelineView {
        if self.raises_floor(hash) {
            PipelineView {
                finalized: self.position(hash),
                best: highest(
                    self.blocks,
                    self.parents,
                    self.position(hash),
                    self.blocks.len() as int,
                ),
                ..self
            }
        } else {
            self
        }
    }

    /// The state after the pipeline has answered `candidate`.  A block that
    /// is imported with an accepted justification is finalized at once.
    pub open spec fn imported(
        self,
        candidate: Block,
        slot_admissible: bool,
        justification: Justification,
    ) -> PipelineView {
        match self.outcome(candidate, slot_admissible) {
            ImportOutcome::AlreadyInChain | ImportOutcome::KnownBad => self,
            ImportOutcome::Invalid(_) => PipelineView {
                known_bad: self.known_bad.push(candidate.hash),
                ..self
            },
            ImportOutcome::Imported(_) => if justification == Justification::Accepted {
                self.committed(candidate).finalized_at(candidate.hash)
            } else {
                self.committed(candidate)
            },
        }
    }

    /// What subscriber `id` has taken so far, in order.
    pub open spec fn observed(self, id: int) -> Seq<ImportNotification> {
        self.notifications.subrange(self.subscribers[id].from as int, self.subscribers[id].next as int)
    }

    /// What subscriber `id` has still to take, in order.
    pub open spec fn pending(self, id: int) -> Seq<ImportNotification> {
        self.notifications.subrange(
            self.subscribers[id].next as int,
            self.notifications.len() as int,
        )
    }
}

/// In a well-formed store the block at position `i` is the one with its
/// hash.
pub proof fn lemma_position(p: PipelineView, i: int)
    requires
        p.wf(),
        0 <= i < p.blocks.len(),
    ensures
        p.contains(p.blocks[i].hash),
        p.position(p.blocks[i].hash) == i,
{
    let hash = p.blocks[i].hash;
    let j = p.position(hash);
    if j < i {
        assert(p.blocks[j].hash != p.blocks[i].hash);
    } else if i < j {
        assert(p.blocks[i].hash != p.blocks[j].hash);
    }
}

/// What descends from a block stands at or behind it.
pub proof fn lemma_descends_order(parents: Seq<usize>, i: int, a: int)
    requires
        descends(parents, i, a),
    ensures
        a <= i,
{
}

/// A longer store has the same ancestry among the blocks of the shorter.
pub proof fn lemma_descends_prefix(short: Seq<usize>, long: Seq<usize>, i: int, a: int)
    requires
        short.len() <= long.len(),
        forall|k: int| 0 <= k < short.len() ==> short[k] == long[k],
        i < short.len(),
    ensures
        descends(long, i, a) == descends(short, i, a),
    decreases i,
{
    if i != a && a < i && 0 <= i && short[i] < i {
        lemma_descends_prefix(short, long, short[i] as int, a);
    }
}

/// Descent carries over: what descends from a descendant descends from the
/// ancestor.
pub proof fn lemma_descends_transitive(parents: Seq<usize>, i: int, a: int, b: int)
    requires
        descends(parents, i, a),
        descends(parents, a, b),
    ensures
        descends(parents, i, b),
    decreases i,
{
    if i != a {
        lemma_descends_transitive(parents, parents[i] as int, a, b);
        lemma_descends_order(parents, a, b);
    }
}

/// A descendant stands higher than its ancestor, by as much as there are
/// blocks between them.
pub proof fn lemma_descendant_is_higher(p: PipelineView, i: int, a: int)
    requires
        p.wf(),
        0 <= a,
        i < p.blocks.len(),
        descends(p.parents, i, a),
    ensures
        p.blocks[i].number >= p.blocks[a].number,
        i != a ==> p.blocks[i].number > p.blocks[a].number,
    decreases i,
{
    if i != a {
        assert(p.linked(i));
        lemma_descendant_is_higher(p, p.parents[i] as int, a);
    }
}

/// The highest block above `a` among the first `upto` descends from `a`,
/// and none of those that descend from `a` is higher.
pub proof fn lemma_highest(blocks: Seq<Block>, parents: Seq<usize>, a: int, upto: int)
    requires
        0 <= a < upto,
    ensures
        a <= highest(blocks, parents, a, upto) < upto,
        descends(parents, highest(blocks, parents, a, upto), a),
        forall|i: int|
            i < upto && #[trigger] descends(parents, i, a) ==> blocks[i].number
                <= blocks[highest(blocks, parents, a, upto)].number,
    decreases upto,
{
    if upto > a + 1 {
        lemma_highest(blocks, parents, a, upto - 1);
    } else {
        assert forall|i: int| i < upto && #[trigger] descends(parents, i, a) implies blocks[i].number
            <= blocks[a].number by {
            lemma_descends_order(parents, i, a);
        }
    }
}

/// A longer store has the same highest block among the blocks of the
/// shorter.
pub proof fn lemma_highest_prefix(
    blocks: Seq<Block>,
    parents: Seq<usize>,
    more_blocks: Seq<Block>,
    more_parents: Seq<usize>,
    a: int,
    upto: int,
)
    requires
        0 <= a < upto <= blocks.len(),
        blocks.len() == parents.len(),
        blocks.len() <= more_blocks.len(),
        parents.len() <= more_parents.len(),
        forall|k: int| 0 <= k < blocks.len() ==> blocks[k] == more_blocks[k],
        forall|k: int| 0 <= k < parents.len() ==> parents[k] == more_parents[k],
    ensures
        highest(more_blocks, more_parents, a, upto) == highest(blocks, parents, a, upto),
    decreases upto - a,
{
    if upto > a + 1 {
        lemma_highest_prefix(blocks, parents, more_blocks, more_parents, a, upto - 1);
        lemma_descends_prefix(parents, more_parents, upto - 1, a);
        lemma_highest(blocks, parents, a, upto - 1);
    }
}

/// A change that touches nothing but the known bad blocks or the
/// subscribers keeps the store well-formed, if these are in order.
pub proof fn lemma_same_store(p: PipelineView, q: PipelineView)
    requires
        p.wf(),
        q.blocks == p.blocks,
        q.parents == p.parents,
        q.notifications == p.notifications,
        q.best == p.best,
        q.finalized == p.finalized,
        forall|i: int| 0 <= i < q.known_bad.len() ==> !p.contains(#[trigger] q.known_bad[i]),
        forall|i: int|
            0 <= i < q.subscribers.len() ==> (#[trigger] q.subscribers[i]).from
                <= q.subscribers[i].next <= q.notifications.len(),
    ensures
        q.wf(),
{
    assert forall|i: int| 1 <= i < q.blocks.len() implies #[trigger] q.linked(i) by {
        assert(p.linked(i));
    }
    assert forall|i: int| 0 <= i < q.known_bad.len() implies !q.contains(
        #[trigger] q.known_bad[i],
    ) by {
        assert(!p.contains(q.known_bad[i]));
    }
}

/// The fork choice.  The head of the best chain extends the last finalized
/// block, and no block that extends it is higher.
pub proof fn lemma_fork_choice(p: PipelineView)
    requires
        p.wf(),
    ensures
        p.finalized <= p.best < p.blocks.len(),
        descends(p.parents, p.best, p.finalized),
        p.finalized_number() <= p.best_number(),
        forall|i: int|
            0 <= i < p.blocks.len() && #[trigger] descends(p.parents, i, p.finalized)
                ==> p.blocks[i].number <= p.best_number(),
{
    lemma_highest(p.blocks, p.parents, p.finalized, p.blocks.len() as int);
    lemma_descendant_is_higher(p, p.best, p.finalized);
}

/// Committing a block that fits keeps the store well-formed.
pub proof fn lemma_committed(p: PipelineView, candidate: Block)
    requires
        p.wf(),
        p.blocks.len() < usize::MAX,
        !p.contains(candidate.hash),
        !p.is_known_bad(candidate.hash),
        p.fits(candidate),
    ensures
        p.committed(candidate).wf(),
        p.committed(candidate).contains(candidate.hash),
        p.committed(candidate).position(candidate.hash) == p.blocks.len(),
        descends(p.committed(candidate).parents, p.blocks.len() as int, p.finalized),
        candidate.number > p.finalized_number(),
{
    let q = p.committed(candidate);
    let n = p.blocks.len() as int;
    let parent = p.position(candidate.parent->0);
    assert(0 <= parent < n && p.blocks[parent].hash == candidate.parent->0);
    assert(q.blocks[n] == candidate);
    assert(q.parents[n] == parent);
    assert forall|i: int, j: int| 0 <= i < j < q.blocks.len() implies q.blocks[i].hash
        != q.blocks[j].hash by {
        if j == n {
            assert(p.blocks[i].hash != candidate.hash);
        } else {
            assert(p.blocks[i].hash != p.blocks[j].hash);
        }
    }
    assert forall|i: int| 1 <= i < q.blocks.len() implies #[trigger] q.linked(i) by {
        if i < n {
            assert(p.linked(i));
        }
    }
    assert forall|i: int| 0 <= i < q.notifications.len() implies {
        &&& (#[trigger] q.notifications[i]).hash == q.blocks[i + 1].hash
        &&& q.notifications[i].number == q.blocks[i + 1].number
    } by {
        if i < p.notifications.len() {
            assert(q.notifications[i] == p.notifications[i]);
        }
    }
    assert forall|i: int| 0 <= i < q.known_bad.len() implies !q.contains(
        #[trigger] q.known_bad[i],
    ) by {
        let bad = q.known_bad[i];
        assert(p.known_bad.contains(bad));
        assert(!p.contains(p.known_bad[i]));
        if q.contains(bad) {
            let k = choose|k: int| 0 <= k < q.blocks.len() && #[trigger] q.blocks[k].hash == bad;
            if k < n {
                assert(p.blocks[k].hash == bad);
            }
        }
    }
    assert forall|i: int| 0 <= i < q.subscribers.len() implies (#[trigger] q.subscribers[i]).from
        <= q.subscribers[i].next <= q.notifications.len() by {
        assert(p.subscribers[i].next <= p.notifications.len());
    }
    lemma_descends_prefix(p.parents, q.parents, parent, p.finalized);
    lemma_descends_order(p.parents, parent, p.finalized);
    assert(descends(q.parents, n, p.finalized));
    lemma_highest_prefix(p.blocks, p.parents, q.blocks, q.parents, p.finalized, n);
    lemma_fork_choice(p);
    assert(q.best == highest(q.blocks, q.parents, q.finalized, n + 1));
    lemma_descendant_is_higher(p, parent, p.finalized);
    assert(q.blocks[n].hash == candidate.hash);
    lemma_position(q, n);
}

/// Finalizing keeps the store well-formed; the last finalized block only
/// ever moves to one of its descendants, and so never moves down.
pub proof fn lemma_finalized_at(p: PipelineView, hash: H256)
    requires
        p.wf(),
    ensures
        p.finalized_at(hash).wf(),
        descends(p.parents, p.finalized_at(hash).finalized, p.finalized),
        p.finalized_at(hash).finalized_number() >= p.finalized_number(),
        p.raises_floor(hash) ==> p.finalized_at(hash).finalized_number() > p.finalized_number(),
        p.finalized_at(hash).blocks == p.blocks,
        p.finalized_at(hash).notifications == p.notifications,
        p.finalized_at(hash).subscribers == p.subscribers,
{
    let q = p.finalized_at(hash);
    if p.raises_floor(hash) {
        let k = p.position(hash);
        lemma_descends_order(p.parents, k, p.finalized);
        lemma_descendant_is_higher(p, k, p.finalized);
        assert forall|i: int| 1 <= i < q.blocks.len() implies #[trigger] q.linked(i) by {
            assert(p.linked(i));
        }
        assert forall|i: int| 0 <= i < q.known_bad.len() implies !q.contains(
            #[trigger] q.known_bad[i],
        ) by {
            assert(!p.contains(p.known_bad[i]));
        }
        assert forall|i: int| 0 <= i < q.subscribers.len() implies (
        #[trigger] q.subscribers[i]).from <= q.subscribers[i].next <= q.notifications.len() by {
            assert(p.subscribers[i].next <= p.notifications.len());
        }
    }
}

/// The pipeline together with the chain store that it alone writes to.
#[derive(Debug)]
pub struct ImportPipeline {
    blocks: Vec<Block>,
    parents: Vec<usize>,
    notifications: Vec<ImportNotification>,
    known_bad: Vec<H256>,
    best: usize,
    finalized: usize,
    subscribers: Vec<Subscriber>,
}

impl View for ImportPipeline {
    type V = PipelineView;

    closed spec fn view(&self) -> PipelineView {
        PipelineView {
            blocks: self.blocks@,
            parents: self.parents@,
            notifications: self.notifications@,
            known_bad: self.known_bad@,
            best: self.best as int,
            finalized: self.finalized as int,
            subscribers: self.subscribers@,
        }
    }
}

impl ImportPipeline {
    /// A pipeline over a store that holds the genesis block and nothing
    /// else: height zero, no parent, best and finalized at once.
    pub fn new(genesis: H256) -> (p: ImportPipeline)
        ensures
            p@.wf(),
            p@.blocks == seq![Block { hash: genesis, number: 0, parent: None }],
            p@.parents == seq![0usize],
            p@.notifications.len() == 0,
            p@.known_bad.len() == 0,
            p@.best == 0,
            p@.finalized == 0,
            p@.subscribers.len() == 0,
    {
        let mut blocks: Vec<Block> = Vec::new();
        blocks.push(Block { hash: genesis, number: 0, parent: None });
        let mut parents: Vec<usize> = Vec::new();
        parents.push(0);
        ImportPipeline {
            blocks,
            parents,
            notifications: Vec::new(),
            known_bad: Vec::new(),
            best: 0,
            finalized: 0,
            subscribers: Vec::new(),
        }
    }

    /// The validation stages in the order in which a candidate meets them.
    pub fn stages() -> (stages: Vec<Stage>)
        ensures
            stages@ == seq![Stage::SlotAuthoring, Stage::FinalitySafety],
    {
        let mut stages: Vec<Stage> = Vec::new();
        stages.push(Stage::SlotAuthoring);
        stages.push(Stage::FinalitySafety);
        stages
    }

    fn find(&self, hash: H256) -> (at: Option<usize>)
        ensures
            match at {
                Some(i) => i < self@.blocks.len() && self@.blocks[i as int].hash == hash,
                None => !self@.contains(hash),
            },
    {
        let mut i: usize = 0;
        while i < self.blocks.len()
            invariant
                0 <= i <= self.blocks@.len(),
                forall|j: int| 0 <= j < i ==> self.blocks@[j].hash != hash,
            decreases self.blocks@.len() - i,
        {
            if self.blocks[i].hash == hash {
                return Some(i);
            }
            i += 1;
        }
        None
    }

    fn is_known_bad(&self, hash: H256) -> (bad: bool)
        ensures
            bad == self@.is_known_bad(hash),
    {
        let mut i: usize = 0;
        while i < self.known_bad.len()
            invariant
                0 <= i <= self.known_bad@.len(),
                forall|j: int| 0 <= j < i ==> self.known_bad@[j] != hash,
            decreases self.known_bad@.len() - i,
        {
            if self.known_bad[i] == hash {
                return true;
            }
            i += 1;
        }
        false
    }

    /// Whether the block at position `i` is the block at position `a` or
    /// descends from it.
    fn is_descendant(&self, i: usize, a: usize) -> (yes: bool)
        requires
            self@.wf(),
            i < self@.blocks.len(),
        ensures
            yes == descends(self@.parents, i as int, a as int),
    {
        let mut at: usize = i;
        while at > a
            invariant
                self@.wf(),
                at < self@.blocks.len(),
                descends(self@.parents, i as int, a as int) == descends(
                    self@.parents,
                    at as int,
                    a as int,
                ),
            decreases at,
        {
            proof {
                assert(self@.linked(at as int));
            }
            at = self.parents[at];
        }
        at == a
    }

    /// Whether `candidate` extends the last finalized block.
    fn fits(&self, candidate: &Block) -> (parent: Option<usize>)
        requires
            self@.wf(),
        ensures
            parent is Some <==> self@.fits(*candidate),
            parent is Some ==> parent->0 == self@.position(candidate.parent->0),
    {
        let hash = match candidate.parent {
            Some(hash) => hash,
            None => {
                return None;
            },
        };
        let parent = match self.find(hash) {
            Some(parent) => parent,
            None => {
                return None;
            },
        };
        proof {
            lemma_position(self@, parent as int);
        }
        let below = self.blocks[parent].number;
        if below == BlockNumber::MAX || candidate.number != below + 1 {
            return None;
        }
        if !self.is_descendant(parent, self.finalized) {
            return None;
        }
        Some(parent)
    }

    /// The committed block with this hash, if the store holds one.
    pub fn get_block(&self, hash: H256) -> (block: Option<Block>)
        requires
            self@.wf(),
        ensures
            block is Some <==> self@.contains(hash),
            block is Some ==> block->0 == self@.block_of(hash) && block->0.hash == hash,
    {
        match self.find(hash) {
            Some(i) => {
                proof {
                    lemma_position(self@, i as int);
                }
                Some(self.blocks[i])
            },
            None => None,
        }
    }

    /// Hash of the head of the best chain.
    pub fn best_hash(&self) -> (hash: H256)
        requires
            self@.wf(),
        ensures
            hash == self@.blocks[self@.best].hash,
    {
        proof {
            lemma_fork_choice(self@);
        }
        self.blocks[self.best].hash
    }

    /// Height of the head of the best chain.
    pub fn best_number(&self) -> (number: BlockNumber)
        requires
            self@.wf(),
        ensures
            number == self@.best_number(),
    {
        proof {
            lemma_fork_choice(self@);
        }
        self.blocks[self.best].number
    }

    /// Hash of the last finalized block.
    pub fn finalized_hash(&self) -> (hash: H256)
        requires
            self@.wf(),
        ensures
            hash == self@.blocks[self@.finalized].hash,
    {
        self.blocks[self.finalized].hash
    }

    /// The last finalized height.
    pub fn finalized_number(&self) -> (number: BlockNumber)
        requires
            self@.wf(),
        ensures
            number == self@.finalized_number(),
    {
        self.blocks[self.finalized].number
    }

    /// Number of committed blocks, the genesis block included.
    pub fn len(&self) -> (n: usize)
        ensures
            n == self@.blocks.len(),
    {
        self.blocks.len()
    }

    /// Passes `candidate` through the pipeline.
    ///
    /// `slot_admissible` is the verdict of the slot-authoring check, and
    /// `justification` what the finality gadget said of the justification
    /// that came with the block.  A block that the store holds, or that
    /// failed before, is answered without being looked at.  A block that
    /// fails a stage is remembered as bad.  A block that passes both is
    /// committed and its notification is emitted in the same step; an
    /// accepted justification then finalizes it, a rejected one changes
    /// nothing.
    pub fn import(
        &mut self,
        candidate: Block,
        slot_admissible: bool,
        justification: Justification,
    ) -> (outcome: ImportOutcome)
        requires
            old(self)@.wf(),
        ensures
            final(self)@.wf(),
            outcome == old(self)@.outcome(candidate, slot_admissible),
            final(self)@ == old(self)@.imported(candidate, slot_admissible, justification),
    {
        if self.find(candidate.hash).is_some() {
            return ImportOutcome::AlreadyInChain;
        }
        if self.is_known_bad(candidate.hash) {
            return ImportOutcome::KnownBad;
        }
        if !slot_admissible {
            self.reject(candidate.hash);
            return ImportOutcome::Invalid(InvalidReason::SlotNotAdmissible);
        }
        let parent = match self.fits(&candidate) {
            Some(parent) => parent,
            None => {
                self.reject(candidate.hash);
                return ImportOutcome::Invalid(InvalidReason::FinalityConflict);
            },
        };
        proof {
            lemma_fork_choice(self@);
        }
        let extends_best = candidate.number > self.blocks[self.best].number;
        let notification = ImportNotification {
            hash: candidate.hash,
            number: candidate.number,
            is_new_best: extends_best,
        };
        let at = self.blocks.len();
        self.blocks.push(candidate);
        self.parents.push(parent);
        self.notifications.push(notification);
        if extends_best {
            self.best = at;
        }
        proof {
            assert(self.blocks@.len() == self.blocks.len());
            lemma_committed(old(self)@, candidate);
            assert(self@ == old(self)@.committed(candidate));
        }
        match justification {
            Justification::Accepted => {
                self.finalize(candidate.hash);
            },
            _ => {},
        }
        ImportOutcome::Imported(extends_best)
    }

    /// Remembers a block that failed validation.
    fn reject(&mut self, hash: H256)
        requires
            old(self)@.wf(),
            !old(self)@.contains(hash),
        ensures
            final(self)@.wf(),
            final(self)@ == (PipelineView {
                known_bad: old(self)@.known_bad.push(hash),
                ..old(self)@
            }),
    {
        self.known_bad.push(hash);
        proof {
            let before = old(self)@;
            let after = self@;
            assert forall|i: int| 0 <= i < after.known_bad.len() implies !before.contains(
                #[trigger] after.known_bad[i],
            ) by {
                if i < before.known_bad.len() {
                    assert(!before.contains(before.known_bad[i]));
                }
            }
            assert forall|i: int| 0 <= i < after.subscribers.len() implies (
            #[trigger] after.subscribers[i]).from <= after.subscribers[i].next
                <= after.notifications.len() by {
                assert(before.subscribers[i].next <= before.notifications.len());
            }
            lemma_same_store(before, after);
        }
    }

    /// Tells the pipeline that the finality gadget has declared the block
    /// with this hash irreversible.  The last finalized block only ever
    /// moves to one of its descendants: a block that the store does not
    /// hold, or that does not descend from the last finalized block,
    /// changes nothing.  When it moves, the head of the best chain becomes
    /// the highest block that extends it.
    pub fn finalize(&mut self, hash: H256) -> (raised: bool)
        requires
            old(self)@.wf(),
        ensures
            final(self)@.wf(),
            raised == old(self)@.raises_floor(hash),
            final(self)@ == old(self)@.finalized_at(hash),
    {
        let at = match self.find(hash) {
            Some(at) => at,
            None => {
                return false;
            },
        };
        proof {
            lemma_position(self@, at as int);
            lemma_finalized_at(self@, hash);
        }
        if at == self.finalized || !self.is_descendant(at, self.finalized) {
            return false;
        }
        let n = self.blocks.len();
        let mut best: usize = at;
        let mut i: usize = at + 1;
        while i < n
            invariant
                self@.wf(),
                self@ == old(self)@,
                n == self@.blocks.len(),
                at < i <= n,
                at <= best < i,
                best == highest(self@.blocks, self@.parents, at as int, i as int),
            decreases n - i,
        {
            if self.is_descendant(i, at) && self.blocks[i].number > self.blocks[best].number {
                best = i;
            }
            i += 1;
        }
        self.finalized = at;
        self.best = best;
        true
    }

    /// Opens a subscription.  The subscriber is offered every block that is
    /// imported from now on, in import order, and none from before.
    pub fn subscribe(&mut self) -> (id: usize)
        requires
            old(self)@.wf(),
        ensures
            final(self)@.wf(),
            id == old(self)@.subscribers.len(),
            final(self)@ == (PipelineView {
                subscribers: old(self)@.subscribers.push(
                    Subscriber {
                        from: old(self)@.notifications.len() as usize,
                        next: old(self)@.notifications.len() as usize,
                    },
                ),
                ..old(self)@
            }),
    {
        let id = self.subscribers.len();
        let at = self.notifications.len();
        self.subscribers.push(Subscriber { from: at, next: at });
        proof {
            let before = old(self)@;
            let after = self@;
            assert forall|i: int| 0 <= i < after.subscribers.len() implies (
            #[trigger] after.subscribers[i]).from <= after.subscribers[i].next
                <= after.notifications.len() by {
                if i < before.subscribers.len() {
                    assert(before.subscribers[i].next <= before.notifications.len());
                }
            }
            assert forall|i: int| 0 <= i < after.known_bad.len() implies !before.contains(
                #[trigger] after.known_bad[i],
            ) by {
                assert(!before.contains(before.known_bad[i]));
            }
            lemma_same_store(before, after);
        }
        id
    }

    /// Hands subscriber `id` its next notification.  `None` when it has
    /// taken all there are, and for an id that names no subscriber.
    pub fn poll(&mut self, id: usize) -> (notification: Option<ImportNotification>)
        requires
            old(self)@.wf(),
        ensures
            final(self)@.wf(),
            id < old(self)@.subscribers.len() && old(self)@.pending(id as int).len() > 0 ==> {
                &&& notification == Some(old(self)@.pending(id as int)[0])
                &&& final(self)@ == (PipelineView {
                    subscribers: old(self)@.subscribers.update(
                        id as int,
                        Subscriber {
                            from: old(self)@.subscribers[id as int].from,
                            next: (old(self)@.subscribers[id as int].next + 1) as usize,
                        },
                    ),
                    ..old(self)@
                })
            },
            !(id < old(self)@.subscribers.len() && old(self)@.pending(id as int).len() > 0) ==> {
                &&& notification is None
                &&& final(self)@ == old(self)@
            },
    {
        if id >= self.subscribers.len() {
            return None;
        }
        let subscriber = self.subscribers[id];
        if subscriber.next >= self.notifications.len() {
            return None;
        }
        let notification = self.notifications[subscriber.next];
        self.subscribers.set(id, Subscriber { from: subscriber.from, next: subscriber.next + 1 });
        proof {
            let before = old(self)@;
            let after = self@;
            assert forall|i: int| 0 <= i < after.subscribers.len() implies (
            #[trigger] after.subscribers[i]).from <= after.subscribers[i].next
                <= after.notifications.len() by {
                assert(before.subscribers[i].next <= before.notifications.len());
            }
            assert forall|i: int| 0 <= i < after.known_bad.len() implies !before.contains(
                #[trigger] after.known_bad[i],
            ) by {
                assert(!before.contains(before.known_bad[i]));
            }
            lemma_same_store(before, after);
        }
        Some(notification)
    }

    /// Hands subscriber `id` all the notifications that it has still to
    /// take, in import order.  Nothing for an id that names no subscriber.
    pub fn drain(&mut self, id: usize) -> (notifications: Vec<ImportNotification>)
        requires
            old(self)@.wf(),
        ensures
            final(self)@.wf(),
            id < old(self)@.subscribers.len() ==> {
                &&& notifications@ == old(self)@.pending(id as int)
                &&& final(self)@ == (PipelineView {
                    subscribers: old(self)@.subscribers.update(
                        id as int,
                        Subscriber {
                            from: old(self)@.subscribers[id as int].from,
                            next: old(self)@.notifications.len() as usize,
                        },
                    ),
                    ..old(self)@
                })
                &&& final(self)@.pending(id as int).len() == 0
                &&& final(self)@.observed(id as int) == old(self)@.observed(id as int) + old(
                    self,
                )@.pending(id as int)
            },
            id >= old(self)@.subscribers.len() ==> {
                &&& notifications@.len() == 0
                &&& final(self)@ == old(self)@
            },
    {
        let mut taken: Vec<ImportNotification> = Vec::new();
        if id >= self.subscribers.len() {
            return taken;
        }
        let subscriber = self.subscribers[id];
        let n = self.notifications.len();
        proof {
            assert(old(self)@.subscribers[id as int].from <= subscriber.next <= n);
        }
        let mut i: usize = subscriber.next;
        while i < n
            invariant
                subscriber.next <= i <= n,
                n == self.notifications@.len(),
                taken@ == self.notifications@.subrange(subscriber.next as int, i as int),
            decreases n - i,
        {
            taken.push(self.notifications[i]);
            assert(self.notifications@.subrange(subscriber.next as int, i + 1)
                =~= self.notifications@.subrange(subscriber.next as int, i as int).push(
                self.notifications@[i as int],
            ));
            i += 1;
        }
        self.subscribers.set(id, Subscriber { from: subscriber.from, next: n });
        proof {
            let before = old(self)@;
            let after = self@;
            assert forall|k: int| 0 <= k < after.subscribers.len() implies (
            #[trigger] after.subscribers[k]).from <= after.subscribers[k].next
                <= after.notifications.len() by {
                assert(before.subscribers[k].from <= before.subscribers[k].next
                    <= before.notifications.len());
            }
            assert forall|i: int| 0 <= i < after.known_bad.len() implies !before.contains(
                #[trigger] after.known_bad[i],
            ) by {
                assert(!before.contains(before.known_bad[i]));
            }
            lemma_same_store(before, after);
            assert(after.observed(id as int) =~= before.observed(id as int) + before.pending(
                id as int,
            ));
        }
        taken
    }
}

/// Every notification names a block that the store holds, and no block is
/// named twice: a subscriber that reads the stream sees each imported block
/// at most once, and only blocks that it can fetch.
pub proof fn lemma_notified_at_most_once(p: PipelineView)
    requires
        p.wf(),
    ensures
        forall|i: int|
            0 <= i < p.notifications.len() ==> p.contains((#[trigger] p.notifications[i]).hash),
        forall|i: int, j: int|
            0 <= i < j < p.notifications.len() ==> (#[trigger] p.notifications[i]).hash != (
            #[trigger] p.notifications[j]).hash,
{
    assert forall|i: int| 0 <= i < p.notifications.len() implies p.contains(
        (#[trigger] p.notifications[i]).hash,
    ) by {
        assert(p.blocks[i + 1].hash == p.notifications[i].hash);
    }
    assert forall|i: int, j: int| 0 <= i < j < p.notifications.len() implies (
    #[trigger] p.notifications[i]).hash != (#[trigger] p.notifications[j]).hash by {
        assert(p.blocks[i + 1].hash != p.blocks[j + 1].hash);
    }
}

/// A block that is imported is in the store afterwards, and its
/// notification is appended to what every subscriber has still to take,
/// once; what a subscriber has taken already is not touched.  A candidate
/// that is not imported leaves store and stream as they were.
pub proof fn lemma_import_notifies_once(
    p: PipelineView,
    candidate: Block,
    slot_admissible: bool,
    justification: Justification,
)
    requires
        p.wf(),
        p.blocks.len() < usize::MAX,
    ensures
        p.imported(candidate, slot_admissible, justification).wf(),
        p.outcome(candidate, slot_admissible) is Imported ==> {
            let q = p.imported(candidate, slot_admissible, justification);
            &&& q.contains(candidate.hash)
            &&& !p.contains(candidate.hash)
            &&& q.blocks == p.blocks.push(candidate)
            &&& q.notifications == p.notifications.push(p.notification_for(candidate))
            &&& forall|id: int|
                0 <= id < p.subscribers.len() ==> {
                    &&& #[trigger] q.pending(id) == p.pending(id).push(
                        p.notification_for(candidate),
                    )
                    &&& q.observed(id) == p.observed(id)
                }
        },
        !(p.outcome(candidate, slot_admissible) is Imported) ==> {
            let q = p.imported(candidate, slot_admissible, justification);
            &&& q.blocks == p.blocks
            &&& q.notifications == p.notifications
            &&& q.subscribers == p.subscribers
            &&& q.finalized == p.finalized
            &&& q.best == p.best
        },
{
    let q = p.imported(candidate, slot_admissible, justification);
    match p.outcome(candidate, slot_admissible) {
        ImportOutcome::Imported(_) => {
            lemma_committed(p, candidate);
            let c = p.committed(candidate);
            lemma_finalized_at(c, candidate.hash);
            assert(c.blocks[p.blocks.len() as int].hash == candidate.hash);
            assert forall|id: int| 0 <= id < p.subscribers.len() implies {
                &&& #[trigger] q.pending(id) == p.pending(id).push(p.notification_for(candidate))
                &&& q.observed(id) == p.observed(id)
            } by {
                assert(p.subscribers[id].from <= p.subscribers[id].next <= p.notifications.len());
                assert(q.pending(id) =~= p.pending(id).push(p.notification_for(candidate)));
                assert(q.observed(id) =~= p.observed(id));
            }
        },
        ImportOutcome::Invalid(_) => {
            assert forall|i: int| 1 <= i < q.blocks.len() implies #[trigger] q.linked(i) by {
                assert(p.linked(i));
            }
            assert forall|i: int| 0 <= i < q.known_bad.len() implies !q.contains(
                #[trigger] q.known_bad[i],
            ) by {
                if i < p.known_bad.len() {
                    assert(!p.contains(p.known_bad[i]));
                }
            }
            assert forall|i: int| 0 <= i < q.subscribers.len() implies (
            #[trigger] q.subscribers[i]).from <= q.subscribers[i].next
                <= q.notifications.len() by {
                assert(p.subscribers[i].next <= p.notifications.len());
            }
        },
        _ => {},
    }
}

/// The finality-safety check.  A block that is imported extends the last
/// finalized block: it stands above it, on a parent that descends from it.
/// So the irreversible part of the chain is never touched: no block is
/// ever committed at or below the last finalized height.
pub proof fn lemma_import_respects_finality(p: PipelineView, candidate: Block, slot_admissible: bool)
    requires
        p.wf(),
        p.outcome(candidate, slot_admissible) is Imported,
    ensures
        candidate.number > p.finalized_number(),
        candidate.parent is Some,
        p.contains(candidate.parent->0),
        descends(p.parents, p.position(candidate.parent->0), p.finalized),
{
    let parent = p.position(candidate.parent->0);
    lemma_descends_order(p.parents, parent, p.finalized);
    lemma_descendant_is_higher(p, parent, p.finalized);
}

/// The last finalized block only ever moves to one of its descendants,
/// whatever is imported or finalized: what was irreversible stays so, and
/// the finalized height never sinks.
pub proof fn lemma_finality_only_advances(
    p: PipelineView,
    candidate: Block,
    slot_admissible: bool,
    justification: Justification,
    hash: H256,
)
    requires
        p.wf(),
        p.blocks.len() < usize::MAX,
    ensures
        p.imported(candidate, slot_admissible, justification).finalized_number()
            >= p.finalized_number(),
        descends(
            p.imported(candidate, slot_admissible, justification).parents,
            p.imported(candidate, slot_admissible, justification).finalized,
            p.finalized,
        ),
        p.finalized_at(hash).finalized_number() >= p.finalized_number(),
        descends(p.parents, p.finalized_at(hash).finalized, p.finalized),
{
    lemma_finalized_at(p, hash);
    if p.outcome(candidate, slot_admissible) is Imported {
        lemma_committed(p, candidate);
        let c = p.committed(candidate);
        lemma_finalized_at(c, candidate.hash);
        assert(c.blocks[p.finalized] == p.blocks[p.finalized]);
    }
}

} // verus!
