//! The EVM-compatibility indexer.
//!
//! The indexer reads the import notifications and sees to it that every
//! native block gets its entry in the index.  What is derived from a block,
//! and where the entry is kept, is not its business: it asks for that work
//! and is told how it went.  It comes in two variants, one per storage
//! backend, which differ in when they ask, never in what ends up in the
//! index.
//!
//! The streaming variant asks for one block at a time and takes no further
//! notification until that block is stored; when the store fails it waits
//! for a fixed interval and asks again.  The batched variant collects
//! notifications and asks for all of them when there are enough or when the
//! read timeout strikes; from time to time it is shown the native blocks
//! and asks for those that have no entry yet.

use crate::eth::FrontierBackendType;
use crate::evm::{entry_views, BlockRef, EvmBlock, EvmIndex, IndexEntry, IndexEntryView, IndexView};
use crate::import::ImportNotification;
use crate::primitives::H256;
use vstd::prelude::*;

verus! {

/// Seconds that the streaming variant waits before it asks again.
pub const STREAMING_RETRY_SECS: u64 = 6;

/// Seconds after which the batched variant stops waiting for more
/// notifications and stores what it has.
pub const BATCHED_READ_TIMEOUT_SECS: u64 = 30;

/// Seconds between two scans of the batched variant for native blocks
/// without an entry.
pub const BATCHED_SCAN_INTERVAL_SECS: u64 = 60;

/// What the indexer is told.
#[derive(Debug, PartialEq, Eq)]
pub enum IndexerEvent {
    /// A block was imported.
    Notification(ImportNotification),
    /// The entries that were asked for are derived and stored.
    Persisted(Vec<IndexEntry>),
    /// The store failed for now; nothing of what was asked for is stored.
    StorageFailed,
    /// The wait after a failure is over.
    RetryTimer,
    /// No notification came within the read timeout.
    ReadTimeout,
    /// Time for a scan: these are the native blocks of the chain.
    Scan(Vec<BlockRef>),
}

/// Mathematical value of an [`IndexerEvent`].
pub enum EventView {
    Notification(ImportNotification),
    Persisted(Seq<IndexEntryView>),
    StorageFailed,
    RetryTimer,
    ReadTimeout,
    Scan(Seq<BlockRef>),
}

impl View for IndexerEvent {
    type V = EventView;

    open spec fn view(&self) -> EventView {
        match self {
            IndexerEvent::Notification(n) => EventView::Notification(*n),
            IndexerEvent::Persisted(entries) => EventView::Persisted(entry_views(entries@)),
            IndexerEvent::StorageFailed => EventView::StorageFailed,
            IndexerEvent::RetryTimer => EventView::RetryTimer,
            IndexerEvent::ReadTimeout => EventView::ReadTimeout,
            IndexerEvent::Scan(blocks) => EventView::Scan(blocks@),
        }
    }
}

/// What the indexer asks for.
#[derive(Debug, PartialEq, Eq)]
pub enum IndexerAction {
    /// Nothing: wait for the next event.
    Await,
    /// Derive and store the entries of these blocks, in this order, and
    /// report `Persisted` or `StorageFailed`.
    Persist(Vec<BlockRef>),
    /// Wait for so many seconds and report `RetryTimer`.
    RetryAfter(u64),
    /// The event does not fit the state; it was dropped.
    Rejected,
}

/// Mathematical value of an [`IndexerAction`].
pub enum ActionView {
    Await,
    Persist(Seq<BlockRef>),
    RetryAfter(u64),
    Rejected,
}

impl View for IndexerAction {
    type V = ActionView;

    open spec fn view(&self) -> ActionView {
        match self {
            IndexerAction::Await => ActionView::Await,
            IndexerAction::Persist(blocks) => ActionView::Persist(blocks@),
            IndexerAction::RetryAfter(secs) => ActionView::RetryAfter(*secs),
            IndexerAction::Rejected => ActionView::Rejected,
        }
    }
}

/// The block that a notification speaks of.
pub open spec fn block_of(notification: ImportNotification) -> BlockRef {
    BlockRef { hash: notification.hash, number: notification.number }
}

/// Whether `entries` are the entries of `blocks`, one for one and in order.
pub open spec fn answers(entries: Seq<IndexEntryView>, blocks: Seq<BlockRef>) -> bool {
    &&& entries.len() == blocks.len()
    &&& forall|i: int|
        0 <= i < entries.len() ==> (#[trigger] entries[i]).native == blocks[i].hash
            && entries[i].number == blocks[i].number
}

/// Holds of the blocks that have no entry in `index`.
pub open spec fn absent_from(index: IndexView) -> spec_fn(BlockRef) -> bool {
    |block: BlockRef| !index.contains(block.hash)
}

/// Mathematical value of a [`StreamingIndexer`].
pub struct StreamingView {
    pub index: IndexView,
    /// The block whose entry was asked for and is not stored yet.
    pub pending: Option<BlockRef>,
    /// Whether the indexer waits to ask again after a failure.
    pub backing_off: bool,
}

impl StreamingView {
    /// The index is well-formed, only a pending block is waited for, and a
    /// pending block has no entry.
    pub open spec fn wf(self) -> bool {
        &&& self.index.wf()
        &&& self.backing_off ==> self.pending is Some
        &&& self.pending is Some ==> !self.index.contains(self.pending->0.hash)
    }

    /// Whether `entries` is what the indexer waits for.
    pub open spec fn expects(self, entries: Seq<IndexEntryView>) -> bool {
        &&& self.pending is Some
        &&& !self.backing_off
        &&& answers(entries, seq![self.pending->0])
    }

    /// The state after `event`.
    pub open spec fn next(self, event: EventView) -> StreamingView {
        match event {
            EventView::Notification(n) => if self.pending is None && !self.index.contains(n.hash) {
                StreamingView { pending: Some(block_of(n)), ..self }
            } else {
                self
            },
            EventView::Persisted(entries) => if self.expects(entries) {
                StreamingView {
                    index: self.index.recorded(entries[0]),
                    pending: None,
                    backing_off: false,
                }
            } else {
                self
            },
            EventView::StorageFailed => if self.pending is Some && !self.backing_off {
                StreamingView { backing_off: true, ..self }
            } else {
                self
            },
            EventView::RetryTimer => StreamingView { backing_off: false, ..self },
            EventView::ReadTimeout => self,
            EventView::Scan(_) => self,
        }
    }

    /// What the indexer asks for in answer to `event`.
    pub open spec fn action(self, event: EventView) -> ActionView {
        match event {
            EventView::Notification(n) => if self.pending is Some {
                ActionView::Rejected
            } else if self.index.contains(n.hash) {
                ActionView::Await
            } else {
                ActionView::Persist(seq![block_of(n)])
            },
            EventView::Persisted(entries) => if self.expects(entries) {
                ActionView::Await
            } else {
                ActionView::Rejected
            },
            EventView::StorageFailed => if self.pending is Some && !self.backing_off {
                ActionView::RetryAfter(STREAMING_RETRY_SECS)
            } else {
                ActionView::Rejected
            },
            EventView::RetryTimer => if self.pending is Some && self.backing_off {
                ActionView::Persist(seq![self.pending->0])
            } else {
                ActionView::Await
            },
            EventView::ReadTimeout => ActionView::Await,
            EventView::Scan(_) => ActionView::Await,
        }
    }
}

/// Mathematical value of a [`BatchedIndexer`].
pub struct BatchedView {
    pub index: IndexView,
    /// The blocks that were notified and not asked for yet.
    pub buffer: Seq<BlockRef>,
    /// The blocks whose entries were asked for and are not stored yet.
    pub in_flight: Seq<BlockRef>,
    /// Number of buffered blocks at which the indexer asks at once.
    pub batch_size: usize,
}

impl BatchedView {
    /// The index is well-formed.
    pub open spec fn wf(self) -> bool {
        self.index.wf()
    }

    /// Whether the buffer is to be stored now that a notification came.
    pub open spec fn is_due(self, buffer: Seq<BlockRef>) -> bool {
        self.in_flight.len() == 0 && buffer.len() >= self.batch_size
    }

    /// Whether `entries` is what the indexer waits for.
    pub open spec fn expects(self, entries: Seq<IndexEntryView>) -> bool {
        self.in_flight.len() > 0 && answers(entries, self.in_flight)
    }

    /// The blocks of `blocks` that have no entry, in their order.
    pub open spec fn missing(self, blocks: Seq<BlockRef>) -> Seq<BlockRef> {
        blocks.filter(absent_from(self.index))
    }

    /// The state after `event`.
    pub open spec fn next(self, event: EventView) -> BatchedView {
        match event {
            EventView::Notification(n) => {
                let buffer = self.buffer.push(block_of(n));
                if self.is_due(buffer) {
                    BatchedView { buffer: Seq::empty(), in_flight: buffer, ..self }
                } else {
                    BatchedView { buffer, ..self }
                }
            },
            EventView::ReadTimeout => if self.in_flight.len() == 0 {
                BatchedView { buffer: Seq::empty(), in_flight: self.buffer, ..self }
            } else {
                self
            },
            EventView::Persisted(entries) => if self.expects(entries) {
                BatchedView {
                    index: self.index.recorded_all(entries),
                    in_flight: Seq::empty(),
                    ..self
                }
            } else {
                self
            },
            EventView::StorageFailed => BatchedView {
                buffer: self.in_flight + self.buffer,
                in_flight: Seq::empty(),
                ..self
            },
            EventView::Scan(blocks) => if self.in_flight.len() == 0 {
                BatchedView { in_flight: self.missing(blocks), ..self }
            } else {
                self
            },
            EventView::RetryTimer => self,
        }
    }

    /// What the indexer asks for in answer to `event`.
    pub open spec fn action(self, event: EventView) -> ActionView {
        match event {
            EventView::Notification(n) => if self.is_due(self.buffer.push(block_of(n))) {
                ActionView::Persist(self.buffer.push(block_of(n)))
            } else {
                ActionView::Await
            },
            EventView::ReadTimeout => if self.in_flight.len() == 0 && self.buffer.len() > 0 {
                ActionView::Persist(self.buffer)
            } else {
                ActionView::Await
            },
            EventView::Persisted(entries) => if self.expects(entries) {
                ActionView::Await
            } else {
                ActionView::Rejected
            },
            EventView::StorageFailed => if self.in_flight.len() > 0 {
                ActionView::Await
            } else {
                ActionView::Rejected
            },
            EventView::Scan(blocks) => if self.in_flight.len() == 0 && self.missing(blocks).len()
                > 0 {
                ActionView::Persist(self.missing(blocks))
            } else {
                ActionView::Await
            },
            EventView::RetryTimer => ActionView::Await,
        }
    }
}

/// Whether `entries` are the entries of `blocks`, one for one and in order.
fn is_answer(entries: &Vec<IndexEntry>, blocks: &Vec<BlockRef>) -> (ok: bool)
    ensures
        ok == answers(entry_views(entries@), blocks@),
{
    if entries.len() != blocks.len() {
        return false;
    }
    let ghost views = entry_views(entries@);
    let mut i: usize = 0;
    while i < entries.len()
        invariant
            0 <= i <= entries@.len(),
            entries@.len() == blocks@.len(),
            views == entry_views(entries@),
            forall|j: int|
                0 <= j < i ==> (#[trigger] views[j]).native == blocks@[j].hash && views[j].number
                    == blocks@[j].number,
        decreases entries@.len() - i,
    {
        if !(entries[i].native == blocks[i].hash && entries[i].number == blocks[i].number) {
            proof {
                assert(views[i as int] == entries@[i as int]@);
            }
            return false;
        }
        proof {
            assert(views[i as int] == entries@[i as int]@);
        }
        i += 1;
    }
    true
}

/// The streaming variant.
#[derive(Debug)]
pub struct StreamingIndexer {
    index: EvmIndex,
    pending: Option<BlockRef>,
    backing_off: bool,
}

impl View for StreamingIndexer {
    type V = StreamingView;

    closed spec fn view(&self) -> StreamingView {
        StreamingView { index: self.index@, pending: self.pending, backing_off: self.backing_off }
    }
}

impl StreamingIndexer {
    /// A streaming indexer over an empty index, waiting for nothing.
    pub fn new() -> (indexer: StreamingIndexer)
        ensures
            indexer@.wf(),
            indexer@.index.entries.len() == 0,
            indexer@.pending is None,
            !indexer@.backing_off,
    {
        StreamingIndexer { index: EvmIndex::new(), pending: None, backing_off: false }
    }

    /// The index as it stands.
    pub fn index(&self) -> (index: &EvmIndex)
        ensures
            index@ == self@.index,
    {
        &self.index
    }

    /// Whether the indexer is at rest: no block is asked for and not yet
    /// stored.  Only then it takes a notification.
    pub fn is_ready(&self) -> (ready: bool)
        ensures
            ready == self@.pending is None,
    {
        self.pending.is_none()
    }

    /// Takes one event and answers with what is to be done.
    pub fn step(&mut self, event: IndexerEvent) -> (action: IndexerAction)
        requires
            old(self)@.wf(),
        ensures
            final(self)@.wf(),
            final(self)@ == old(self)@.next(event@),
            action@ == old(self)@.action(event@),
    {
        match event {
            IndexerEvent::Notification(n) => {
                if self.pending.is_some() {
                    return IndexerAction::Rejected;
                }
                if self.index.contains(n.hash) {
                    return IndexerAction::Await;
                }
                let block = BlockRef { hash: n.hash, number: n.number };
                self.pending = Some(block);
                let mut blocks: Vec<BlockRef> = Vec::new();
                blocks.push(block);
                IndexerAction::Persist(blocks)
            },
            IndexerEvent::Persisted(entries) => {
                let pending = match self.pending {
                    Some(block) => block,
                    None => {
                        return IndexerAction::Rejected;
                    },
                };
                if self.backing_off {
                    return IndexerAction::Rejected;
                }
                let mut blocks: Vec<BlockRef> = Vec::new();
                blocks.push(pending);
                if !is_answer(&entries, &blocks) {
                    return IndexerAction::Rejected;
                }
                proof {
                    let views = entry_views(entries@);
                    assert(views.drop_last() =~= Seq::<IndexEntryView>::empty());
                    assert(old(self)@.index.recorded_all(views.drop_last()) == old(self)@.index);
                    assert(views.last() == views[0]);
                    crate::evm::lemma_recorded(old(self)@.index, views[0]);
                }
                self.index.record_all(&entries);
                self.pending = None;
                IndexerAction::Await
            },
            IndexerEvent::StorageFailed => {
                if self.pending.is_some() && !self.backing_off {
                    self.backing_off = true;
                    IndexerAction::RetryAfter(STREAMING_RETRY_SECS)
                } else {
                    IndexerAction::Rejected
                }
            },
            IndexerEvent::RetryTimer => {
                let was_backing_off = self.backing_off;
                self.backing_off = false;
                match self.pending {
                    Some(block) => {
                        if was_backing_off {
                            let mut blocks: Vec<BlockRef> = Vec::new();
                            blocks.push(block);
                            IndexerAction::Persist(blocks)
                        } else {
                            IndexerAction::Await
                        }
                    },
                    None => IndexerAction::Await,
                }
            },
            IndexerEvent::ReadTimeout => IndexerAction::Await,
            IndexerEvent::Scan(_) => IndexerAction::Await,
        }
    }
}

/// The batched variant.
#[derive(Debug)]
pub struct BatchedIndexer {
    index: EvmIndex,
    buffer: Vec<BlockRef>,
    in_flight: Vec<BlockRef>,
    batch_size: usize,
}

impl View for BatchedIndexer {
    type V = BatchedView;

    closed spec fn view(&self) -> BatchedView {
        BatchedView {
            index: self.index@,
            buffer: self.buffer@,
            in_flight: self.in_flight@,
            batch_size: self.batch_size,
        }
    }
}

impl BatchedIndexer {
    /// A batched indexer over an empty index, with nothing buffered and
    /// nothing asked for, that asks as soon as `batch_size` blocks are
    /// buffered.
    pub fn new(batch_size: usize) -> (indexer: BatchedIndexer)
        ensures
            indexer@.wf(),
            indexer@.index.entries.len() == 0,
            indexer@.buffer.len() == 0,
            indexer@.in_flight.len() == 0,
            indexer@.batch_size == batch_size,
    {
        BatchedIndexer {
            index: EvmIndex::new(),
            buffer: Vec::new(),
            in_flight: Vec::new(),
            batch_size,
        }
    }

    /// The index as it stands.
    pub fn index(&self) -> (index: &EvmIndex)
        ensures
            index@ == self@.index,
    {
        &self.index
    }

    /// Number of blocks that were notified and not asked for yet.
    pub fn buffered(&self) -> (n: usize)
        ensures
            n == self@.buffer.len(),
    {
        self.buffer.len()
    }

    /// A copy of `blocks`.
    fn copy_of(blocks: &Vec<BlockRef>) -> (copy: Vec<BlockRef>)
        ensures
            copy@ == blocks@,
    {
        let mut copy: Vec<BlockRef> = Vec::new();
        let mut i: usize = 0;
        while i < blocks.len()
            invariant
                0 <= i <= blocks@.len(),
                copy@ == blocks@.take(i as int),
            decreases blocks@.len() - i,
        {
            copy.push(blocks[i]);
            assert(blocks@.take(i + 1) =~= blocks@.take(i as int).push(blocks@[i as int]));
            i += 1;
        }
        assert(blocks@.take(i as int) =~= blocks@);
        copy
    }

    /// Moves the buffer to the blocks in flight and asks for them.
    fn flush(&mut self) -> (action: IndexerAction)
        requires
            old(self)@.in_flight.len() == 0,
        ensures
            final(self)@ == (BatchedView {
                buffer: Seq::empty(),
                in_flight: old(self)@.buffer,
                ..old(self)@
            }),
            action@ == ActionView::Persist(old(self)@.buffer),
    {
        let blocks = Self::copy_of(&self.buffer);
        self.in_flight.append(&mut self.buffer);
        assert(self.in_flight@ =~= old(self).buffer@);
        IndexerAction::Persist(blocks)
    }

    /// Takes one event and answers with what is to be done.
    pub fn step(&mut self, event: IndexerEvent) -> (action: IndexerAction)
        requires
            old(self)@.wf(),
        ensures
            final(self)@.wf(),
            final(self)@ == old(self)@.next(event@),
            action@ == old(self)@.action(event@),
    {
        match event {
            IndexerEvent::Notification(n) => {
                self.buffer.push(BlockRef { hash: n.hash, number: n.number });
                if self.in_flight.len() == 0 && self.buffer.len() >= self.batch_size {
                    self.flush()
                } else {
                    IndexerAction::Await
                }
            },
            IndexerEvent::ReadTimeout => {
                if self.in_flight.len() == 0 && self.buffer.len() > 0 {
                    self.flush()
                } else {
                    proof {
                        if self.in_flight@.len() == 0 {
                            assert(self.buffer@ =~= Seq::<BlockRef>::empty());
                            assert(self.in_flight@ =~= self.buffer@);
                        }
                    }
                    IndexerAction::Await
                }
            },
            IndexerEvent::Persisted(entries) => {
                if self.in_flight.len() == 0 || !is_answer(&entries, &self.in_flight) {
                    return IndexerAction::Rejected;
                }
                proof {
                    crate::evm::lemma_recorded_all(self@.index, entry_views(entries@));
                }
                self.index.record_all(&entries);
                self.in_flight.clear();
                IndexerAction::Await
            },
            IndexerEvent::StorageFailed => {
                if self.in_flight.len() == 0 {
                    assert(self.in_flight@ + self.buffer@ =~= self.buffer@);
                    assert(self.in_flight@ =~= Seq::<BlockRef>::empty());
                    return IndexerAction::Rejected;
                }
                self.in_flight.append(&mut self.buffer);
                let mut again: Vec<BlockRef> = Vec::new();
                again.append(&mut self.in_flight);
                self.buffer = again;
                assert(self.buffer@ =~= old(self).in_flight@ + old(self).buffer@);
                IndexerAction::Await
            },
            IndexerEvent::Scan(blocks) => {
                if self.in_flight.len() > 0 {
                    return IndexerAction::Await;
                }
                let ghost absent = absent_from(self.index@);
                let mut missing: Vec<BlockRef> = Vec::new();
                let mut i: usize = 0;
                while i < blocks.len()
                    invariant
                        0 <= i <= blocks@.len(),
                        absent == absent_from(self.index@),
                        missing@ == blocks@.take(i as int).filter(absent),
                    decreases blocks@.len() - i,
                {
                    let block = blocks[i];
                    proof {
                        assert(blocks@.take(i + 1) =~= blocks@.take(i as int).push(block));
                        blocks@.take(i as int).lemma_filter_push(block, absent);
                    }
                    if !self.index.contains(block.hash) {
                        missing.push(block);
                    }
                    i += 1;
                }
                proof {
                    assert(blocks@.take(blocks@.len() as int) =~= blocks@);
                }
                if missing.len() == 0 {
                    assert(self.in_flight@ =~= missing@);
                    return IndexerAction::Await;
                }
                let asked = Self::copy_of(&missing);
                self.in_flight = missing;
                IndexerAction::Persist(asked)
            },
            IndexerEvent::RetryTimer => IndexerAction::Await,
        }
    }
}

/// The indexer of a node: one of the two variants, chosen when the node
/// starts and kept for as long as it runs.
#[derive(Debug)]
pub enum Indexer {
    Streaming(StreamingIndexer),
    Batched(BatchedIndexer),
}

/// Mathematical value of an [`Indexer`].
pub enum IndexerView {
    Streaming(StreamingView),
    Batched(BatchedView),
}

impl IndexerView {
    /// The variant is well-formed.
    pub open spec fn wf(self) -> bool {
        match self {
            IndexerView::Streaming(s) => s.wf(),
            IndexerView::Batched(b) => b.wf(),
        }
    }

    /// Whether the indexer takes a notification: the batched variant
    /// always does, the streaming variant when it is at rest.
    pub open spec fn is_ready(self) -> bool {
        match self {
            IndexerView::Streaming(s) => s.pending is None,
            IndexerView::Batched(_) => true,
        }
    }

    /// The backend that this variant serves.
    pub open spec fn backend(self) -> FrontierBackendType {
        match self {
            IndexerView::Streaming(_) => FrontierBackendType::KeyValue,
            IndexerView::Batched(_) => FrontierBackendType::Sql,
        }
    }

    /// The index as it stands.
    pub open spec fn index(self) -> IndexView {
        match self {
            IndexerView::Streaming(s) => s.index,
            IndexerView::Batched(b) => b.index,
        }
    }

    /// The state after `event`.
    pub open spec fn next(self, event: EventView) -> IndexerView {
        match self {
            IndexerView::Streaming(s) => IndexerView::Streaming(s.next(event)),
            IndexerView::Batched(b) => IndexerView::Batched(b.next(event)),
        }
    }

    /// What the indexer asks for in answer to `event`.
    pub open spec fn action(self, event: EventView) -> ActionView {
        match self {
            IndexerView::Streaming(s) => s.action(event),
            IndexerView::Batched(b) => b.action(event),
        }
    }
}

impl View for Indexer {
    type V = IndexerView;

    open spec fn view(&self) -> IndexerView {
        match self {
            Indexer::Streaming(s) => IndexerView::Streaming(s@),
            Indexer::Batched(b) => IndexerView::Batched(b@),
        }
    }
}

impl Indexer {
    /// The indexer for `backend`, over an empty index.  `batch_size` is the
    /// number of buffered blocks at which the batched variant asks at once;
    /// the streaming variant has no use for it.
    pub fn new(backend: FrontierBackendType, batch_size: usize) -> (indexer: Indexer)
        ensures
            indexer@.wf(),
            indexer@.backend() == backend,
            indexer@.index().entries.len() == 0,
            match indexer@ {
                IndexerView::Streaming(s) => s.pending is None && !s.backing_off,
                IndexerView::Batched(b) => b.buffer.len() == 0 && b.in_flight.len() == 0
                    && b.batch_size == batch_size,
            },
    {
        match backend {
            FrontierBackendType::KeyValue => Indexer::Streaming(StreamingIndexer::new()),
            FrontierBackendType::Sql => Indexer::Batched(BatchedIndexer::new(batch_size)),
        }
    }

    /// The backend that this indexer serves.
    pub fn backend(&self) -> (backend: FrontierBackendType)
        ensures
            backend == self@.backend(),
    {
        match self {
            Indexer::Streaming(_) => FrontierBackendType::KeyValue,
            Indexer::Batched(_) => FrontierBackendType::Sql,
        }
    }

    /// The index as it stands.
    pub fn index(&self) -> (index: &EvmIndex)
        ensures
            index@ == self@.index(),
    {
        match self {
            Indexer::Streaming(s) => s.index(),
            Indexer::Batched(b) => b.index(),
        }
    }

    /// Whether the indexer takes a notification: the batched variant
    /// always does, the streaming variant when it is at rest.
    pub fn is_ready(&self) -> (ready: bool)
        ensures
            ready == self@.is_ready(),
    {
        match self {
            Indexer::Streaming(s) => s.is_ready(),
            Indexer::Batched(_) => true,
        }
    }

    /// The EVM-compatible block of the native block with this hash, if the
    /// indexer has processed it.
    pub fn get_evm_block(&self, native: H256) -> (block: Option<EvmBlock>)
        requires
            self@.wf(),
        ensures
            block is Some <==> self@.index().contains(native),
            block is Some ==> block->0@ == self@.index().entry_of(native).evm,
    {
        self.index().get_evm_block(native)
    }

    /// Takes one event and answers with what is to be done.
    pub fn step(&mut self, event: IndexerEvent) -> (action: IndexerAction)
        requires
            old(self)@.wf(),
        ensures
            final(self)@.wf(),
            final(self)@ == old(self)@.next(event@),
            action@ == old(self)@.action(event@),
    {
        match self {
            Indexer::Streaming(s) => s.step(event),
            Indexer::Batched(b) => b.step(event),
        }
    }
}

/// Whatever the event, either variant keeps its index well-formed, so that
/// no native block ever has two entries, and keeps every entry that was
/// there, at its place and unchanged.  The variant itself never changes.
pub proof fn lemma_index_only_grows(indexer: IndexerView, event: EventView)
    requires
        indexer.wf(),
    ensures
        indexer.next(event).wf(),
        indexer.next(event).backend() == indexer.backend(),
        indexer.index().entries.is_prefix_of(indexer.next(event).index().entries),
{
    match indexer {
        IndexerView::Streaming(s) => {
            if let EventView::Persisted(entries) = event {
                if s.expects(entries) {
                    crate::evm::lemma_recorded(s.index, entries[0]);
                }
            }
        },
        IndexerView::Batched(b) => {
            if let EventView::Persisted(entries) = event {
                crate::evm::lemma_recorded_all(b.index, entries);
            }
        },
    }
}

/// Idempotence: a notification for a block that has its entry, delivered
/// again to a streaming indexer at rest, is dropped without a trace.
pub proof fn lemma_duplicate_notification_is_dropped(
    indexer: StreamingView,
    notification: ImportNotification,
)
    requires
        indexer.wf(),
        indexer.pending is None,
        indexer.index.contains(notification.hash),
    ensures
        indexer.next(EventView::Notification(notification)) == indexer,
        indexer.action(EventView::Notification(notification)) == ActionView::Await,
{
}

/// Idempotence: entries that are stored a second time, in either variant,
/// create nothing.  A run of entries whose blocks all have an entry leaves
/// the index as it is.
pub proof fn lemma_duplicate_entries_create_nothing(index: IndexView, entries: Seq<IndexEntryView>)
    requires
        index.wf(),
        forall|k: int| 0 <= k < entries.len() ==> index.contains((#[trigger] entries[k]).native),
    ensures
        index.recorded_all(entries) == index,
    decreases entries.len(),
{
    if entries.len() > 0 {
        let front = entries.drop_last();
        assert forall|k: int| 0 <= k < front.len() implies index.contains(
            (#[trigger] front[k]).native,
        ) by {
            assert(front[k] == entries[k]);
        }
        lemma_duplicate_entries_create_nothing(index, front);
        assert(index.contains(entries[entries.len() - 1].native));
    }
}

/// One block through the streaming variant: from rest, the notification of
/// a block without an entry makes the indexer ask for that block; failures
/// make it wait and ask again, as often as they come; and once the entry is
/// stored the index has grown by exactly that entry and the indexer is at
/// rest again.
pub proof fn lemma_streaming_round(
    indexer: StreamingView,
    notification: ImportNotification,
    entry: IndexEntryView,
)
    requires
        indexer.wf(),
        indexer.pending is None,
        !indexer.index.contains(notification.hash),
        entry.native == notification.hash,
        entry.number == notification.number,
    ensures
        ({
            let asked = indexer.next(EventView::Notification(notification));
            let failed = asked.next(EventView::StorageFailed);
            let again = failed.next(EventView::RetryTimer);
            let stored = asked.next(EventView::Persisted(seq![entry]));
            &&& indexer.action(EventView::Notification(notification)) == ActionView::Persist(
                seq![block_of(notification)],
            )
            &&& asked.action(EventView::StorageFailed) == ActionView::RetryAfter(
                STREAMING_RETRY_SECS,
            )
            &&& failed.action(EventView::RetryTimer) == ActionView::Persist(
                seq![block_of(notification)],
            )
            &&& again == asked
            &&& asked.action(EventView::Persisted(seq![entry])) == ActionView::Await
            &&& stored.pending is None
            &&& !stored.backing_off
            &&& stored.index.entries == indexer.index.entries.push(entry)
            &&& stored.wf()
        }),
{
    let asked = indexer.next(EventView::Notification(notification));
    assert(seq![entry][0] == entry);
    assert(asked.expects(seq![entry]));
    crate::evm::lemma_recorded(indexer.index, entry);
}

/// Whether the batched indexer has `block` in its care: the block waits to
/// be asked for, is asked for, or has its entry.
pub open spec fn in_care(indexer: BatchedView, block: BlockRef) -> bool {
    ||| indexer.buffer.contains(block)
    ||| indexer.in_flight.contains(block)
    ||| indexer.index.contains(block.hash)
}

/// A block that is notified to the batched variant is in its care.
pub proof fn lemma_batched_takes_care(indexer: BatchedView, notification: ImportNotification)
    ensures
        in_care(indexer.next(EventView::Notification(notification)), block_of(notification)),
{
    let buffer = indexer.buffer.push(block_of(notification));
    assert(buffer[buffer.len() - 1] == block_of(notification));
}

/// The batched variant loses nothing.  A block in its care stays there
/// whatever happens next: it is carried from the buffer to the request and,
/// when the store fails, back, until its entry is stored.
pub proof fn lemma_batched_loses_nothing(indexer: BatchedView, event: EventView, block: BlockRef)
    requires
        indexer.wf(),
        in_care(indexer, block),
    ensures
        in_care(indexer.next(event), block),
{
    match event {
        EventView::Notification(n) => {
            let buffer = indexer.buffer.push(block_of(n));
            if indexer.buffer.contains(block) {
                let k = choose|k: int| 0 <= k < indexer.buffer.len() && indexer.buffer[k] == block;
                assert(buffer[k] == block);
            }
        },
        EventView::Persisted(entries) => {
            if indexer.expects(entries) {
                crate::evm::lemma_recorded_all(indexer.index, entries);
                if indexer.in_flight.contains(block) {
                    let k = choose|k: int|
                        0 <= k < indexer.in_flight.len() && indexer.in_flight[k] == block;
                    assert(entries[k].native == block.hash);
                    assert(crate::evm::names(entries, block.hash));
                }
            }
        },
        EventView::StorageFailed => {
            let buffer = indexer.in_flight + indexer.buffer;
            if indexer.in_flight.contains(block) {
                let k = choose|k: int|
                    0 <= k < indexer.in_flight.len() && indexer.in_flight[k] == block;
                assert(buffer[k] == block);
            }
            if indexer.buffer.contains(block) {
                let k = choose|k: int| 0 <= k < indexer.buffer.len() && indexer.buffer[k] == block;
                assert(buffer[indexer.in_flight.len() + k] == block);
            }
        },
        _ => {},
    }
}

/// A scan asks for exactly the blocks of the chain that have no entry; once
/// these are stored, every block of the chain has one.
pub proof fn lemma_scan_fills_the_gaps(
    indexer: BatchedView,
    chain: Seq<BlockRef>,
    entries: Seq<IndexEntryView>,
)
    requires
        indexer.wf(),
        indexer.in_flight.len() == 0,
        answers(entries, indexer.missing(chain)),
    ensures
        forall|k: int|
            0 <= k < chain.len() ==> indexer.next(EventView::Scan(chain)).next(
                EventView::Persisted(entries),
            ).index.contains((#[trigger] chain[k]).hash),
{
    broadcast use vstd::seq_lib::group_filter_ensures;

    let asked = indexer.next(EventView::Scan(chain));
    let stored = asked.next(EventView::Persisted(entries));
    let missing = indexer.missing(chain);
    crate::evm::lemma_recorded_all(indexer.index, entries);
    assert forall|k: int| 0 <= k < chain.len() implies stored.index.contains(
        (#[trigger] chain[k]).hash,
    ) by {
        if !indexer.index.contains(chain[k].hash) {
            assert(absent_from(indexer.index)(chain[k]));
            assert(missing.contains(chain[k]));
            let j = choose|j: int| 0 <= j < missing.len() && missing[j] == chain[k];
            assert(entries[j].native == chain[k].hash);
            assert(crate::evm::names(entries, chain[k].hash));
        }
    }
}

} // verus!
