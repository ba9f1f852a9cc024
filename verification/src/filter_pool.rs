//! The pool of registered log filters.
//!
//! A filter is a query together with the height at which it was created.
//! A maintenance pass removes every filter that has outlived the retention
//! window, polled or not.  Nobody is told: whoever asks for a removed filter
//! afterwards gets an error that says so, not an empty answer.

use crate::evm::{EvmIndex, IndexEntryView, IndexView, Log, H160};
use crate::primitives::BlockNumber;
use crate::seq_lemmas::{lemma_filter_drops_one, lemma_filter_is_prefix};
use vstd::prelude::*;

verus! {

/// Number of blocks for which a filter stays in the pool.
pub const FILTER_RETAIN_THRESHOLD: u64 = 100;

/// What a filter asks for: the logs of the blocks in a range of heights,
/// from one address or from any.
#[derive(Clone, Copy, Debug, PartialEq, Eq)]
pub struct LogQuery {
    pub from_block: BlockNumber,
    pub to_block: BlockNumber,
    pub address: Option<H160>,
}

impl LogQuery {
    /// Whether the query asks for the blocks at height `number`.
    pub open spec fn in_range(self, number: BlockNumber) -> bool {
        self.from_block <= number <= self.to_block
    }

    /// Holds of the logs that the query asks for.
    pub open spec fn wanted(self) -> spec_fn(Log) -> bool {
        |log: Log|
            match self.address {
                Some(address) => log.address == address,
                None => true,
            }
    }

    /// The logs that the query finds in a run of index entries, in the
    /// order of the entries and, within one block, of its logs.
    pub open spec fn logs_in(self, entries: Seq<IndexEntryView>) -> Seq<Log>
        decreases entries.len(),
    {
        if entries.len() == 0 {
            Seq::empty()
        } else if self.in_range(entries.last().number) {
            self.logs_in(entries.drop_last()) + entries.last().evm.logs.filter(self.wanted())
        } else {
            self.logs_in(entries.drop_last())
        }
    }

    /// The answer to the query over `index`, cut off after `max` logs.
    pub open spec fn answer(self, index: IndexView, max: u32) -> Seq<Log> {
        let all = self.logs_in(index.entries);
        if all.len() > max {
            all.take(max as int)
        } else {
            all
        }
    }
}

/// A registered filter.
#[derive(Clone, Copy, Debug, PartialEq, Eq)]
pub struct LogFilter {
    pub id: u64,
    pub query: LogQuery,
    /// Height of the chain when the filter was registered.
    pub created_at: BlockNumber,
}

impl LogFilter {
    /// Whether the filter stays in the pool at height `current`: it leaves
    /// once its creation height plus the retention window lies below.
    pub open spec fn retained(self, current: BlockNumber, retention: u64) -> bool {
        self.created_at + retention >= current
    }
}

/// Why a query against the pool failed.
#[derive(Clone, Copy, Debug, PartialEq, Eq, Structural)]
pub enum FilterError {
    /// The pool holds no filter with that id: it was never registered, was
    /// uninstalled, or has outlived the retention window.
    FilterNotFound,
}

/// Mathematical value of a [`FilterPool`]: the filters in the order of
/// their registration, and the id that the next one gets.
pub struct FilterPoolView {
    pub filters: Seq<LogFilter>,
    pub next_id: u64,
}

impl FilterPoolView {
    /// Ids ascend in registration order and lie below the next id.
    pub open spec fn wf(self) -> bool {
        &&& forall|i: int, j: int|
            0 <= i < j < self.filters.len() ==> self.filters[i].id < self.filters[j].id
        &&& forall|i: int|
            0 <= i < self.filters.len() ==> (#[trigger] self.filters[i]).id < self.next_id
    }

    /// Whether the pool holds a filter with this id.
    pub open spec fn contains(self, id: u64) -> bool {
        exists|i: int| 0 <= i < self.filters.len() && #[trigger] self.filters[i].id == id
    }

    /// The filter with this id.
    pub open spec fn filter_of(self, id: u64) -> LogFilter {
        let i = choose|i: int| 0 <= i < self.filters.len() && #[trigger] self.filters[i].id == id;
        self.filters[i]
    }

    /// Holds of the filters that stay at height `current`.
    pub open spec fn stays(current: BlockNumber, retention: u64) -> spec_fn(LogFilter) -> bool {
        |f: LogFilter| f.retained(current, retention)
    }

    /// Holds of every filter but the one with this id.
    pub open spec fn other_than(id: u64) -> spec_fn(LogFilter) -> bool {
        |f: LogFilter| f.id != id
    }

    /// The pool after a maintenance pass at height `current`.
    pub open spec fn maintained(self, current: BlockNumber, retention: u64) -> FilterPoolView {
        FilterPoolView {
            filters: self.filters.filter(Self::stays(current, retention)),
            next_id: self.next_id,
        }
    }

    /// The pool after the filter with this id was taken out.
    pub open spec fn without(self, id: u64) -> FilterPoolView {
        FilterPoolView { filters: self.filters.filter(Self::other_than(id)), next_id: self.next_id }
    }
}

/// Filtering keeps ascending ids ascending, keeps exactly the filters of
/// which `keep` holds, and changes none of them.
pub proof fn lemma_filtered_pool(pool: FilterPoolView, keep: spec_fn(LogFilter) -> bool)
    requires
        pool.wf(),
    ensures
        (FilterPoolView { filters: pool.filters.filter(keep), next_id: pool.next_id }).wf(),
        forall|id: u64|
            (FilterPoolView { filters: pool.filters.filter(keep), next_id: pool.next_id }).contains(
                id,
            ) <==> pool.contains(id) && keep(pool.filter_of(id)),
        forall|id: u64|
            (FilterPoolView { filters: pool.filters.filter(keep), next_id: pool.next_id }).contains(
                id,
            ) ==> (FilterPoolView {
                filters: pool.filters.filter(keep),
                next_id: pool.next_id,
            }).filter_of(id) == pool.filter_of(id),
        pool.filters.filter(keep).len() <= pool.filters.len(),
    decreases pool.filters.len(),
{
    reveal(Seq::filter);
    let after = FilterPoolView { filters: pool.filters.filter(keep), next_id: pool.next_id };
    if pool.filters.len() > 0 {
        let front = FilterPoolView { filters: pool.filters.drop_last(), next_id: pool.next_id };
        let last = pool.filters.last();
        let front_after = FilterPoolView { filters: front.filters.filter(keep), next_id: pool.next_id };
        assert(front.wf()) by {
            assert forall|i: int, j: int| 0 <= i < j < front.filters.len() implies front.filters[i].id
                < front.filters[j].id by {
                assert(pool.filters[i].id < pool.filters[j].id);
            }
            assert forall|i: int| 0 <= i < front.filters.len() implies (
            #[trigger] front.filters[i]).id < front.next_id by {
                assert(pool.filters[i].id < pool.next_id);
            }
        }
        lemma_filtered_pool(front, keep);
        assert forall|id: u64| front.contains(id) implies pool.contains(id) && id < last.id
            && pool.filter_of(id) == front.filter_of(id) by {
            let i = choose|i: int|
                0 <= i < front.filters.len() && #[trigger] front.filters[i].id == id;
            assert(pool.filters[i].id == id);
            assert(pool.filters[i].id < pool.filters[pool.filters.len() - 1].id);
            lemma_filter_of(pool, i);
            lemma_filter_of(front, i);
        }
        assert forall|id: u64| pool.contains(id) implies front.contains(id) || id == last.id by {
            let i = choose|i: int| 0 <= i < pool.filters.len() && #[trigger] pool.filters[i].id == id;
            if i < front.filters.len() {
                assert(front.filters[i].id == id);
            }
        }
        lemma_filter_of(pool, pool.filters.len() - 1);
        assert forall|i: int| 0 <= i < front_after.filters.len() implies (
        #[trigger] front_after.filters[i]).id < last.id by {
            let id = front_after.filters[i].id;
            let same = FilterPoolView { filters: front.filters.filter(keep), next_id: front.next_id };
            assert(same == front_after);
            assert(same.contains(id));
            assert(front.contains(id));
        }
        if keep(last) {
            assert(after.filters == front_after.filters.push(last));
            assert(after.filters[after.filters.len() - 1] == last);
            assert(after.wf());
            lemma_filter_of(after, after.filters.len() - 1);
            assert forall|id: u64| after.contains(id) <==> pool.contains(id) && keep(
                pool.filter_of(id),
            ) by {
                if after.contains(id) {
                    let i = choose|i: int|
                        0 <= i < after.filters.len() && #[trigger] after.filters[i].id == id;
                    if i < front_after.filters.len() {
                        assert(front_after.filters[i].id == id);
                    }
                }
                if front_after.contains(id) {
                    let i = choose|i: int|
                        0 <= i < front_after.filters.len() && #[trigger] front_after.filters[i].id
                            == id;
                    assert(after.filters[i].id == id);
                }
            }
            assert forall|id: u64| after.contains(id) implies after.filter_of(id) == pool.filter_of(
                id,
            ) by {
                if id != last.id {
                    let i = choose|i: int|
                        0 <= i < after.filters.len() && #[trigger] after.filters[i].id == id;
                    assert(front_after.filters[i].id == id);
                    lemma_filter_of(after, i);
                    lemma_filter_of(front_after, i);
                }
            }
        } else {
            assert(after.filters == front_after.filters);
        }
    }
}

/// In a well-formed pool the filter at position `i` is the one with its id.
pub proof fn lemma_filter_of(pool: FilterPoolView, i: int)
    requires
        pool.wf(),
        0 <= i < pool.filters.len(),
    ensures
        pool.contains(pool.filters[i].id),
        pool.filter_of(pool.filters[i].id) == pool.filters[i],
{
    let id = pool.filters[i].id;
    let j = choose|j: int| 0 <= j < pool.filters.len() && #[trigger] pool.filters[j].id == id;
    if j < i {
        assert(pool.filters[j].id < pool.filters[i].id);
    } else if i < j {
        assert(pool.filters[i].id < pool.filters[j].id);
    }
}

/// Eviction: after a maintenance pass at height `current` a filter is in
/// the pool if and only if it was there before and `current` lies at most
/// the retention window above its creation height; a filter that stays is
/// not changed.
pub proof fn lemma_eviction(pool: FilterPoolView, current: BlockNumber, retention: u64)
    requires
        pool.wf(),
    ensures
        pool.maintained(current, retention).wf(),
        forall|id: u64|
            pool.maintained(current, retention).contains(id) <==> pool.contains(id) && current
                - pool.filter_of(id).created_at <= retention,
        forall|id: u64|
            pool.maintained(current, retention).contains(id) ==> pool.maintained(
                current,
                retention,
            ).filter_of(id) == pool.filter_of(id),
{
    lemma_filtered_pool(pool, FilterPoolView::stays(current, retention));
}

/// The pool of registered filters.
#[derive(Debug)]
pub struct FilterPool {
    filters: Vec<LogFilter>,
    next_id: u64,
}

impl View for FilterPool {
    type V = FilterPoolView;

    closed spec fn view(&self) -> FilterPoolView {
        FilterPoolView { filters: self.filters@, next_id: self.next_id }
    }
}

impl FilterPool {
    /// A pool without filters; the first filter gets the id 0.
    pub fn new() -> (pool: FilterPool)
        ensures
            pool@.wf(),
            pool@.filters.len() == 0,
            pool@.next_id == 0,
    {
        FilterPool { filters: Vec::new(), next_id: 0 }
    }

    /// Number of filters in the pool.
    pub fn len(&self) -> (n: usize)
        ensures
            n == self@.filters.len(),
    {
        self.filters.len()
    }

    fn find(&self, id: u64) -> (at: Option<usize>)
        ensures
            match at {
                Some(i) => i < self@.filters.len() && self@.filters[i as int].id == id,
                None => !self@.contains(id),
            },
    {
        let mut i: usize = 0;
        while i < self.filters.len()
            invariant
                0 <= i <= self.filters@.len(),
                forall|j: int| 0 <= j < i ==> self.filters@[j].id != id,
            decreases self.filters@.len() - i,
        {
            if self.filters[i].id == id {
                return Some(i);
            }
            i += 1;
        }
        None
    }

    /// Registers a filter that was created at height `created_at` and
    /// returns its id.  `None`, and no change, once the ids are used up.
    pub fn install(&mut self, query: LogQuery, created_at: BlockNumber) -> (id: Option<u64>)
        requires
            old(self)@.wf(),
        ensures
            final(self)@.wf(),
            old(self)@.next_id < u64::MAX ==> id == Some(old(self)@.next_id) && final(self)@ == (
            FilterPoolView {
                filters: old(self)@.filters.push(
                    LogFilter { id: old(self)@.next_id, query, created_at },
                ),
                next_id: (old(self)@.next_id + 1) as u64,
            }),
            old(self)@.next_id == u64::MAX ==> id is None && final(self)@ == old(self)@,
    {
        if self.next_id == u64::MAX {
            return None;
        }
        let id = self.next_id;
        self.filters.push(LogFilter { id, query, created_at });
        self.next_id = id + 1;
        proof {
            let before = old(self)@;
            let after = self@;
            assert forall|i: int, j: int| 0 <= i < j < after.filters.len() implies after.filters[i].id
                < after.filters[j].id by {
                if j < before.filters.len() {
                    assert(before.filters[i].id < before.filters[j].id);
                } else {
                    assert(before.filters[i].id < before.next_id);
                }
            }
            assert forall|i: int| 0 <= i < after.filters.len() implies (
            #[trigger] after.filters[i]).id < after.next_id by {
                if i < before.filters.len() {
                    assert(before.filters[i].id < before.next_id);
                }
            }
        }
        Some(id)
    }

    /// The filter with this id.  A filter that is not in the pool, for
    /// whatever reason, is an error, never an empty answer.
    pub fn get(&self, id: u64) -> (filter: Result<LogFilter, FilterError>)
        requires
            self@.wf(),
        ensures
            self@.contains(id) ==> filter == Ok::<LogFilter, FilterError>(self@.filter_of(id)),
            !self@.contains(id) ==> filter == Err::<LogFilter, FilterError>(
                FilterError::FilterNotFound,
            ),
    {
        match self.find(id) {
            Some(i) => {
                proof {
                    lemma_filter_of(self@, i as int);
                }
                Ok(self.filters[i])
            },
            None => Err(FilterError::FilterNotFound),
        }
    }

    /// Takes the filter with this id out of the pool.  Returns whether
    /// there was one.
    pub fn uninstall(&mut self, id: u64) -> (removed: bool)
        requires
            old(self)@.wf(),
        ensures
            final(self)@.wf(),
            final(self)@ == old(self)@.without(id),
            removed == old(self)@.contains(id),
            !removed ==> final(self)@ == old(self)@,
    {
        let ghost before = self@;
        let ghost keep = FilterPoolView::other_than(id);
        proof {
            lemma_filtered_pool(before, keep);
        }
        match self.find(id) {
            Some(i) => {
                self.filters.remove(i);
                proof {
                    assert forall|j: int| 0 <= j < before.filters.len() && j != i implies keep(
                        #[trigger] before.filters[j],
                    ) by {
                        if j < i {
                            assert(before.filters[j].id < before.filters[i as int].id);
                        } else {
                            assert(before.filters[i as int].id < before.filters[j].id);
                        }
                    }
                    lemma_filter_drops_one(before.filters, keep, i as int);
                    assert(self@.filters =~= before.filters.take(i as int) + before.filters.skip(
                        i + 1,
                    ));
                }
                true
            },
            None => {
                proof {
                    assert forall|j: int| 0 <= j < before.filters.len() implies keep(
                        #[trigger] before.filters[j],
                    ) by {
                        assert(before.filters[j].id != id);
                    }
                    lemma_filter_is_prefix(
                        before.filters,
                        keep,
                        before.filters.len() as int,
                    );
                    assert(before.filters.take(before.filters.len() as int) =~= before.filters);
                }
                false
            },
        }
    }

    /// The maintenance pass at height `current`: removes every filter
    /// whose creation height plus `retention` lies below `current`, and
    /// returns how many were removed.
    pub fn maintain(&mut self, current: BlockNumber, retention: u64) -> (removed: usize)
        requires
            old(self)@.wf(),
        ensures
            final(self)@.wf(),
            final(self)@ == old(self)@.maintained(current, retention),
            removed == old(self)@.filters.len() - final(self)@.filters.len(),
    {
        let ghost before = self@;
        let ghost keep = FilterPoolView::stays(current, retention);
        let n = self.filters.len();
        let mut kept: Vec<LogFilter> = Vec::new();
        let mut i: usize = 0;
        while i < n
            invariant
                0 <= i <= n,
                n == self.filters@.len(),
                self.filters@ == before.filters,
                keep == FilterPoolView::stays(current, retention),
                kept@ == before.filters.take(i as int).filter(keep),
            decreases n - i,
        {
            let filter = self.filters[i];
            proof {
                assert(before.filters.take(i + 1) =~= before.filters.take(i as int).push(filter));
                before.filters.take(i as int).lemma_filter_push(filter, keep);
            }
            if current <= filter.created_at || current - filter.created_at <= retention {
                kept.push(filter);
            }
            i += 1;
        }
        proof {
            assert(before.filters.take(n as int) =~= before.filters);
            lemma_filtered_pool(before, keep);
        }
        let removed = n - kept.len();
        self.filters = kept;
        removed
    }

    /// The logs that the filter with this id finds in `index`, at most
    /// `max` of them.  A filter that is not in the pool is an error.
    pub fn query_logs(&self, id: u64, index: &EvmIndex, max: u32) -> (logs: Result<
        Vec<Log>,
        FilterError,
    >)
        requires
            self@.wf(),
        ensures
            match logs {
                Ok(found) => self@.contains(id) && found@ == self@.filter_of(id).query.answer(
                    index@,
                    max,
                ),
                Err(e) => !self@.contains(id) && e == FilterError::FilterNotFound,
            },
    {
        let filter = match self.get(id) {
            Ok(filter) => filter,
            Err(e) => {
                return Err(e);
            },
        };
        let query = filter.query;
        let ghost entries = index@.entries;
        let ghost wanted = query.wanted();
        let n = index.len();
        let mut found: Vec<Log> = Vec::new();
        let mut i: usize = 0;
        while i < n
            invariant
                0 <= i <= n,
                n == entries.len(),
                entries == index@.entries,
                wanted == query.wanted(),
                found@ == query.logs_in(entries.take(i as int)),
            decreases n - i,
        {
            let entry = index.entry(i);
            proof {
                assert(entries.take(i + 1).drop_last() =~= entries.take(i as int));
                assert(entries.take(i + 1).last() == entries[i as int]);
            }
            if query.from_block <= entry.number && entry.number <= query.to_block {
                let ghost logs = entry.evm.logs@;
                let ghost base = found@;
                let m = entry.evm.logs.len();
                let mut j: usize = 0;
                while j < m
                    invariant
                        0 <= j <= m,
                        m == logs.len(),
                        logs == entry.evm.logs@,
                        wanted == query.wanted(),
                        found@ == base + logs.take(j as int).filter(wanted),
                    decreases m - j,
                {
                    let log = entry.evm.logs[j];
                    proof {
                        assert(logs.take(j + 1) =~= logs.take(j as int).push(log));
                        logs.take(j as int).lemma_filter_push(log, wanted);
                    }
                    let take = match query.address {
                        Some(address) => log.address == address,
                        None => true,
                    };
                    if take {
                        found.push(log);
                        assert(found@ =~= base + logs.take(j + 1).filter(wanted));
                    }
                    j += 1;
                }
                proof {
                    assert(logs.take(m as int) =~= logs);
                }
            }
            i += 1;
        }
        proof {
            assert(entries.take(n as int) =~= entries);
        }
        if found.len() > max as usize {
            found.truncate(max as usize);
        }
        Ok(found)
    }
}

} // verus!
