//! The EVM-compatible view of a native block, and the index that maps each
//! native block to it.
//!
//! The index only grows.  An entry is created when the indexer has
//! processed a native block and is never changed afterwards: recording a
//! block a second time leaves the index as it is.

use crate::primitives::{BlockNumber, H256};
use vstd::prelude::*;

verus! {

/// A 160-bit account address, held as two parts.
#[derive(Clone, Copy, Debug, PartialEq, Eq, Structural)]
pub struct H160 {
    pub high: u32,
    pub low: u128,
}

/// One log record of an EVM transaction.
#[derive(Clone, Copy, Debug, PartialEq, Eq, Structural)]
pub struct Log {
    pub address: H160,
    pub topic: H256,
    pub data: H256,
}

/// The receipt of one EVM transaction.
#[derive(Clone, Copy, Debug, PartialEq, Eq, Structural)]
pub struct Receipt {
    pub transaction: H256,
    pub success: bool,
    pub gas_used: u64,
}

/// The EVM-compatible block derived from a native block.
#[derive(Debug, PartialEq, Eq)]
pub struct EvmBlock {
    pub hash: H256,
    pub logs: Vec<Log>,
    pub receipts: Vec<Receipt>,
}

/// Mathematical value of an [`EvmBlock`].
pub struct EvmBlockView {
    pub hash: H256,
    pub logs: Seq<Log>,
    pub receipts: Seq<Receipt>,
}

impl View for EvmBlock {
    type V = EvmBlockView;

    open spec fn view(&self) -> EvmBlockView {
        EvmBlockView { hash: self.hash, logs: self.logs@, receipts: self.receipts@ }
    }
}

impl EvmBlock {
    /// A copy of this block.
    pub fn duplicate(&self) -> (copy: EvmBlock)
        ensures
            copy@ == self@,
    {
        let mut logs: Vec<Log> = Vec::new();
        let mut i: usize = 0;
        while i < self.logs.len()
            invariant
                0 <= i <= self.logs@.len(),
                logs@ == self.logs@.take(i as int),
            decreases self.logs@.len() - i,
        {
            logs.push(self.logs[i]);
            assert(self.logs@.take(i + 1) =~= self.logs@.take(i as int).push(self.logs@[i as int]));
            i += 1;
        }
        assert(self.logs@.take(i as int) =~= self.logs@);
        let mut receipts: Vec<Receipt> = Vec::new();
        let mut j: usize = 0;
        while j < self.receipts.len()
            invariant
                0 <= j <= self.receipts@.len(),
                receipts@ == self.receipts@.take(j as int),
            decreases self.receipts@.len() - j,
        {
            receipts.push(self.receipts[j]);
            assert(self.receipts@.take(j + 1) =~= self.receipts@.take(j as int).push(
                self.receipts@[j as int],
            ));
            j += 1;
        }
        assert(self.receipts@.take(j as int) =~= self.receipts@);
        EvmBlock { hash: self.hash, logs, receipts }
    }
}

/// A native block as the indexer refers to it.
#[derive(Clone, Copy, Debug, PartialEq, Eq, Structural)]
pub struct BlockRef {
    pub hash: H256,
    pub number: BlockNumber,
}

/// One entry of the index: a native block and what was derived from it.
#[derive(Debug, PartialEq, Eq)]
pub struct IndexEntry {
    pub native: H256,
    pub number: BlockNumber,
    pub evm: EvmBlock,
}

/// Mathematical value of an [`IndexEntry`].
pub struct IndexEntryView {
    pub native: H256,
    pub number: BlockNumber,
    pub evm: EvmBlockView,
}

impl View for IndexEntry {
    type V = IndexEntryView;

    open spec fn view(&self) -> IndexEntryView {
        IndexEntryView { native: self.native, number: self.number, evm: self.evm@ }
    }
}

/// The values of a run of entries.
pub open spec fn entry_views(entries: Seq<IndexEntry>) -> Seq<IndexEntryView> {
    Seq::new(entries.len(), |i: int| entries[i]@)
}

/// Mathematical value of an [`EvmIndex`]: the entries in the order in
/// which they were created.
pub struct IndexView {
    pub entries: Seq<IndexEntryView>,
}

impl IndexView {
    /// No native block has two entries.
    pub open spec fn wf(self) -> bool {
        forall|i: int, j: int|
            0 <= i < j < self.entries.len() ==> self.entries[i].native != self.entries[j].native
    }

    /// Whether the native block with this hash has an entry.
    pub open spec fn contains(self, native: H256) -> bool {
        exists|i: int| 0 <= i < self.entries.len() && #[trigger] self.entries[i].native == native
    }

    /// The entry of the native block with this hash.
    pub open spec fn entry_of(self, native: H256) -> IndexEntryView {
        let i = choose|i: int|
            0 <= i < self.entries.len() && #[trigger] self.entries[i].native == native;
        self.entries[i]
    }

    /// The index after `entry` was recorded: appended if its native block
    /// had no entry, dropped if it had one.
    pub open spec fn recorded(self, entry: IndexEntryView) -> IndexView {
        if self.contains(entry.native) {
            self
        } else {
            IndexView { entries: self.entries.push(entry) }
        }
    }

    /// The index after `entries` were recorded one after the other.
    pub open spec fn recorded_all(self, entries: Seq<IndexEntryView>) -> IndexView
        decreases entries.len(),
    {
        if entries.len() == 0 {
            self
        } else {
            self.recorded_all(entries.drop_last()).recorded(entries.last())
        }
    }

    /// The index as a map from native block to entry.
    pub open spec fn as_map(self) -> Map<H256, IndexEntryView> {
        Map::new(|native: H256| self.contains(native), |native: H256| self.entry_of(native))
    }
}

/// The index from native blocks to their EVM-compatible blocks.
#[derive(Debug)]
pub struct EvmIndex {
    entries: Vec<IndexEntry>,
}

impl View for EvmIndex {
    type V = IndexView;

    closed spec fn view(&self) -> IndexView {
        IndexView { entries: entry_views(self.entries@) }
    }
}

impl EvmIndex {
    /// An index without entries.
    pub fn new() -> (index: EvmIndex)
        ensures
            index@.wf(),
            index@.entries.len() == 0,
    {
        EvmIndex { entries: Vec::new() }
    }

    /// Number of entries.
    pub fn len(&self) -> (n: usize)
        ensures
            n == self@.entries.len(),
    {
        self.entries.len()
    }

    /// The entry at position `i` in the order of creation.
    pub fn entry(&self, i: usize) -> (entry: &IndexEntry)
        requires
            i < self@.entries.len(),
        ensures
            entry@ == self@.entries[i as int],
    {
        &self.entries[i]
    }

    fn find(&self, native: H256) -> (at: Option<usize>)
        ensures
            match at {
                Some(i) => i < self@.entries.len() && self@.entries[i as int].native == native,
                None => !self@.contains(native),
            },
    {
        let mut i: usize = 0;
        while i < self.entries.len()
            invariant
                0 <= i <= self.entries@.len(),
                forall|j: int| 0 <= j < i ==> self@.entries[j].native != native,
            decreases self.entries@.len() - i,
        {
            if self.entries[i].native == native {
                return Some(i);
            }
            i += 1;
        }
        None
    }

    /// Whether the native block with this hash has an entry.
    pub fn contains(&self, native: H256) -> (found: bool)
        ensures
            found == self@.contains(native),
    {
        self.find(native).is_some()
    }

    /// The EVM-compatible block of the native block with this hash, if the
    /// indexer has processed it.
    pub fn get_evm_block(&self, native: H256) -> (block: Option<EvmBlock>)
        requires
            self@.wf(),
        ensures
            block is Some <==> self@.contains(native),
            block is Some ==> block->0@ == self@.entry_of(native).evm,
    {
        match self.find(native) {
            Some(i) => {
                proof {
                    lemma_entry_of(self@, i as int);
                }
                Some(self.entries[i].evm.duplicate())
            },
            None => None,
        }
    }

    /// The height of the native block with this hash, if it has an entry.
    pub fn number_of(&self, native: H256) -> (number: Option<BlockNumber>)
        requires
            self@.wf(),
        ensures
            number is Some <==> self@.contains(native),
            number is Some ==> number->0 == self@.entry_of(native).number,
    {
        match self.find(native) {
            Some(i) => {
                proof {
                    lemma_entry_of(self@, i as int);
                }
                Some(self.entries[i].number)
            },
            None => None,
        }
    }

    /// Records the entry of a native block.  Returns whether an entry was
    /// created: a block that has one already keeps it, and the index does
    /// not change.
    pub fn record(&mut self, entry: IndexEntry) -> (created: bool)
        requires
            old(self)@.wf(),
        ensures
            final(self)@.wf(),
            final(self)@ == old(self)@.recorded(entry@),
            created == !old(self)@.contains(entry.native),
    {
        if self.find(entry.native).is_some() {
            return false;
        }
        self.entries.push(entry);
        proof {
            assert(self@.entries =~= old(self)@.entries.push(entry@));
        }
        true
    }

    /// Records a run of entries, one after the other.
    pub fn record_all(&mut self, entries: &Vec<IndexEntry>)
        requires
            old(self)@.wf(),
        ensures
            final(self)@.wf(),
            final(self)@ == old(self)@.recorded_all(entry_views(entries@)),
    {
        let ghost before = self@;
        let ghost views = entry_views(entries@);
        let mut i: usize = 0;
        while i < entries.len()
            invariant
                0 <= i <= entries@.len(),
                views == entry_views(entries@),
                self@.wf(),
                self@ == before.recorded_all(views.take(i as int)),
            decreases entries@.len() - i,
        {
            let entry = IndexEntry {
                native: entries[i].native,
                number: entries[i].number,
                evm: entries[i].evm.duplicate(),
            };
            proof {
                assert(views.take(i + 1).drop_last() =~= views.take(i as int));
                assert(views.take(i + 1).last() == entry@);
            }
            self.record(entry);
            i += 1;
        }
        proof {
            assert(views.take(entries@.len() as int) =~= views);
        }
    }
}

/// In a well-formed index the entry at position `i` is the one of its
/// native block.
pub proof fn lemma_entry_of(index: IndexView, i: int)
    requires
        index.wf(),
        0 <= i < index.entries.len(),
    ensures
        index.contains(index.entries[i].native),
        index.entry_of(index.entries[i].native) == index.entries[i],
{
    let native = index.entries[i].native;
    let j = choose|j: int| 0 <= j < index.entries.len() && #[trigger] index.entries[j].native == native;
    if j < i {
        assert(index.entries[j].native != index.entries[i].native);
    } else if i < j {
        assert(index.entries[i].native != index.entries[j].native);
    }
}

/// Whether one of `entries` belongs to the native block with this hash.
pub open spec fn names(entries: Seq<IndexEntryView>, native: H256) -> bool {
    exists|k: int| 0 <= k < entries.len() && #[trigger] entries[k].native == native
}

/// Whether `entries` agree on every native block: two entries of one block
/// are the same entry.  This is what it means that the derivation of an
/// entry depends on the native block alone.
pub open spec fn consistent(entries: Seq<IndexEntryView>) -> bool {
    forall|i: int, j: int|
        0 <= i < entries.len() && 0 <= j < entries.len() && #[trigger] entries[i].native
            == #[trigger] entries[j].native ==> entries[i] == entries[j]
}

/// Recording keeps the index well-formed and keeps every entry that was
/// there, at its place and unchanged; afterwards the block of the recorded
/// entry has an entry, and no other block has gained one.
pub proof fn lemma_recorded(index: IndexView, entry: IndexEntryView)
    requires
        index.wf(),
    ensures
        index.recorded(entry).wf(),
        index.entries.is_prefix_of(index.recorded(entry).entries),
        forall|native: H256|
            index.recorded(entry).contains(native) <==> index.contains(native) || native
                == entry.native,
        forall|native: H256|
            index.contains(native) ==> index.recorded(entry).entry_of(native) == index.entry_of(
                native,
            ),
        !index.contains(entry.native) ==> index.recorded(entry).entry_of(entry.native) == entry,
{
    let after = index.recorded(entry);
    if !index.contains(entry.native) {
        assert(after.entries[index.entries.len() as int] == entry);
        assert forall|i: int, j: int| 0 <= i < j < after.entries.len() implies after.entries[i].native
            != after.entries[j].native by {
            if j == index.entries.len() {
                assert(index.entries[i].native != entry.native);
            }
        }
        lemma_entry_of(after, index.entries.len() as int);
    }
    assert forall|native: H256|
        after.contains(native) <==> index.contains(native) || native == entry.native by {
        if after.contains(native) {
            let i = choose|i: int|
                0 <= i < after.entries.len() && #[trigger] after.entries[i].native == native;
            if i < index.entries.len() {
                assert(index.entries[i].native == native);
            }
        }
        if index.contains(native) {
            let i = choose|i: int|
                0 <= i < index.entries.len() && #[trigger] index.entries[i].native == native;
            assert(after.entries[i].native == native);
        }
    }
    assert forall|native: H256| index.contains(native) implies after.entry_of(native)
        == index.entry_of(native) by {
        let i = choose|i: int|
            0 <= i < index.entries.len() && #[trigger] index.entries[i].native == native;
        lemma_entry_of(index, i);
        assert(after.entries[i] == index.entries[i]);
        lemma_entry_of(after, i);
    }
}

/// Idempotence: an entry that is recorded a second time creates nothing.
pub proof fn lemma_record_is_idempotent(index: IndexView, entry: IndexEntryView)
    requires
        index.wf(),
    ensures
        index.recorded(entry).recorded(entry) == index.recorded(entry),
        index.recorded(entry).entries.len() <= index.entries.len() + 1,
{
    lemma_recorded(index, entry);
}

/// Recording a run of entries keeps the index well-formed and keeps every
/// entry that was there; the blocks with an entry afterwards are those that
/// had one and those that the run names; and every entry that was created
/// is one of the run.
pub proof fn lemma_recorded_all(index: IndexView, entries: Seq<IndexEntryView>)
    requires
        index.wf(),
    ensures
        index.recorded_all(entries).wf(),
        index.entries.is_prefix_of(index.recorded_all(entries).entries),
        forall|native: H256|
            index.recorded_all(entries).contains(native) <==> index.contains(native) || names(
                entries,
                native,
            ),
        forall|i: int|
            index.entries.len() <= i < index.recorded_all(entries).entries.len()
                ==> entries.contains(#[trigger] index.recorded_all(entries).entries[i]),
    decreases entries.len(),
{
    if entries.len() > 0 {
        let front = entries.drop_last();
        let middle = index.recorded_all(front);
        let after = index.recorded_all(entries);
        lemma_recorded_all(index, front);
        lemma_recorded(middle, entries.last());
        assert forall|native: H256|
            after.contains(native) <==> index.contains(native) || names(entries, native) by {
            if names(front, native) {
                let k = choose|k: int| 0 <= k < front.len() && #[trigger] front[k].native == native;
                assert(entries[k].native == native);
            }
            if native == entries.last().native {
                assert(entries[entries.len() - 1].native == native);
            }
            if names(entries, native) {
                let k = choose|k: int|
                    0 <= k < entries.len() && #[trigger] entries[k].native == native;
                if k < front.len() {
                    assert(front[k].native == native);
                }
            }
        }
        assert forall|i: int| index.entries.len() <= i < after.entries.len() implies entries.contains(
            #[trigger] after.entries[i],
        ) by {
            if i < middle.entries.len() {
                assert(front.contains(middle.entries[i]));
                let k = choose|k: int| 0 <= k < front.len() && front[k] == middle.entries[i];
                assert(entries[k] == after.entries[i]);
            } else {
                assert(entries[entries.len() - 1] == after.entries[i]);
            }
        }
    }
}

/// Recording two runs one after the other is recording them as one run:
/// how the entries are grouped into batches does not show in the index.
pub proof fn lemma_batches_do_not_show(
    index: IndexView,
    first: Seq<IndexEntryView>,
    second: Seq<IndexEntryView>,
)
    ensures
        index.recorded_all(first).recorded_all(second) == index.recorded_all(first + second),
    decreases second.len(),
{
    if second.len() == 0 {
        assert(first + second =~= first);
    } else {
        lemma_batches_do_not_show(index, first, second.drop_last());
        assert((first + second).drop_last() =~= first + second.drop_last());
        assert((first + second).last() == second.last());
    }
}

/// The two backends agree.  Let two runs of entries name the same native
/// blocks, in whatever order, grouping and repetition, and let them agree
/// on every block.  Then recording either run gives every native block the
/// same entry.
pub proof fn lemma_backends_agree(
    index: IndexView,
    streamed: Seq<IndexEntryView>,
    batched: Seq<IndexEntryView>,
)
    requires
        index.wf(),
        consistent(streamed + batched),
        forall|native: H256| names(streamed, native) <==> names(batched, native),
    ensures
        index.recorded_all(streamed).as_map() == index.recorded_all(batched).as_map(),
{
    let left = index.recorded_all(streamed);
    let right = index.recorded_all(batched);
    lemma_recorded_all(index, streamed);
    lemma_recorded_all(index, batched);
    let both = streamed + batched;
    assert forall|native: H256| left.contains(native) <==> right.contains(native) by {
        assert(left.contains(native) <==> index.contains(native) || names(streamed, native));
        assert(right.contains(native) <==> index.contains(native) || names(batched, native));
        assert(names(streamed, native) <==> names(batched, native));
    }
    assert forall|native: H256| left.contains(native) implies left.entry_of(native)
        == right.entry_of(native) by {
        assert(left.contains(native) <==> right.contains(native));
        let i = choose|i: int|
            0 <= i < left.entries.len() && #[trigger] left.entries[i].native == native;
        let j = choose|j: int|
            0 <= j < right.entries.len() && #[trigger] right.entries[j].native == native;
        lemma_entry_of(left, i);
        lemma_entry_of(right, j);
        if index.contains(native) {
            let k = choose|k: int|
                0 <= k < index.entries.len() && #[trigger] index.entries[k].native == native;
            assert(left.entries[k] == index.entries[k]);
            assert(right.entries[k] == index.entries[k]);
            lemma_entry_of(left, k);
            lemma_entry_of(right, k);
        } else {
            if i < index.entries.len() {
                assert(index.entries[i].native == native);
            }
            if j < index.entries.len() {
                assert(index.entries[j].native == native);
            }
            assert(streamed.contains(left.entries[i]));
            assert(batched.contains(right.entries[j]));
            let a = choose|a: int| 0 <= a < streamed.len() && streamed[a] == left.entries[i];
            let b = choose|b: int| 0 <= b < batched.len() && batched[b] == right.entries[j];
            assert(both[a] == streamed[a]);
            assert(both[streamed.len() + b] == batched[b]);
            assert(both[a].native == both[streamed.len() + b].native);
        }
    }
    assert(left.as_map() =~= right.as_map());
}

} // verus!
