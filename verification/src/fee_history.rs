//! The fee-history cache.
//!
//! One summary per block of the best chain, keyed by height and kept in
//! ascending order.  The cache holds at most a configured number of
//! entries: an insertion that would exceed the bound evicts the entry of
//! the lowest height.  A query for heights that the cache does not hold in
//! full is answered with the missing range, never with a shorter result.

use crate::import::ImportNotification;
use crate::primitives::BlockNumber;
use crate::seq_lemmas::{lemma_filter_is_prefix, lemma_filter_is_suffix};
use vstd::prelude::*;

verus! {

/// What is kept of one block: its base fee and the rewards at the
/// percentiles that were asked for.
#[derive(Debug, PartialEq, Eq)]
pub struct FeeSummary {
    pub base_fee: u64,
    pub rewards: Vec<u64>,
}

/// Mathematical value of a [`FeeSummary`].
pub struct FeeSummaryView {
    pub base_fee: u64,
    pub rewards: Seq<u64>,
}

impl View for FeeSummary {
    type V = FeeSummaryView;

    open spec fn view(&self) -> FeeSummaryView {
        FeeSummaryView { base_fee: self.base_fee, rewards: self.rewards@ }
    }
}

impl FeeSummary {
    /// A copy of this summary.
    pub fn duplicate(&self) -> (copy: FeeSummary)
        ensures
            copy@ == self@,
    {
        let mut rewards: Vec<u64> = Vec::new();
        let mut i: usize = 0;
        while i < self.rewards.len()
            invariant
                0 <= i <= self.rewards@.len(),
                rewards@ == self.rewards@.take(i as int),
            decreases self.rewards@.len() - i,
        {
            rewards.push(self.rewards[i]);
            assert(self.rewards@.take(i + 1) =~= self.rewards@.take(i as int).push(
                self.rewards@[i as int],
            ));
            i += 1;
        }
        assert(self.rewards@.take(i as int) =~= self.rewards@);
        FeeSummary { base_fee: self.base_fee, rewards }
    }
}

/// The summary of the block at one height.
pub struct FeeEntryView {
    pub number: BlockNumber,
    pub summary: FeeSummaryView,
}

/// The part of a queried range that the cache does not hold: the lowest
/// and the highest missing height of the range.
#[derive(Clone, Copy, Debug, PartialEq, Eq, Structural)]
pub struct PartialCoverage {
    pub missing_from: BlockNumber,
    pub missing_to: BlockNumber,
}

/// Mathematical value of a [`FeeHistoryCache`]: the entries by ascending
/// height, and the bound on their number.
pub struct FeeHistoryView {
    pub entries: Seq<FeeEntryView>,
    pub limit: u64,
}

impl FeeHistoryView {
    /// Heights ascend strictly, and the bound is kept.
    pub open spec fn wf(self) -> bool {
        &&& self.entries.len() <= self.limit
        &&& forall|i: int, j: int|
            0 <= i < j < self.entries.len() ==> self.entries[i].number < self.entries[j].number
    }

    /// Whether the cache holds a summary for height `number`.
    pub open spec fn covers(self, number: BlockNumber) -> bool {
        exists|i: int| 0 <= i < self.entries.len() && #[trigger] self.entries[i].number == number
    }

    /// The summary held for height `number`.
    pub open spec fn summary_at(self, number: BlockNumber) -> FeeSummaryView {
        let i = choose|i: int|
            0 <= i < self.entries.len() && #[trigger] self.entries[i].number == number;
        self.entries[i].summary
    }

    /// The entries once the summary for `number` is in its place, before the
    /// bound is looked at: those below, the new one, those above.
    pub open spec fn placed(self, number: BlockNumber, summary: FeeSummaryView) -> Seq<
        FeeEntryView,
    > {
        self.entries.filter(Self::below(number)).push(FeeEntryView { number, summary })
            + self.entries.filter(Self::above(number))
    }

    /// Holds of the entries below height `number`.
    pub open spec fn below(number: BlockNumber) -> spec_fn(FeeEntryView) -> bool {
        |e: FeeEntryView| e.number < number
    }

    /// Holds of the entries above height `number`.
    pub open spec fn above(number: BlockNumber) -> spec_fn(FeeEntryView) -> bool {
        |e: FeeEntryView| e.number > number
    }

    /// The cache after the summary for `number` was inserted: it is put in
    /// its place, and if that exceeds the bound the lowest height leaves.
    pub open spec fn inserted(self, number: BlockNumber, summary: FeeSummaryView) -> FeeHistoryView {
        let placed = self.placed(number, summary);
        FeeHistoryView {
            entries: if placed.len() > self.limit {
                placed.drop_first()
            } else {
                placed
            },
            limit: self.limit,
        }
    }

    /// Whether every height of `first ..= last` is held.
    pub open spec fn covers_range(self, first: BlockNumber, last: BlockNumber) -> bool {
        forall|h: BlockNumber| first <= h <= last ==> self.covers(h)
    }

    /// The summaries for `first ..= last`, by ascending height.
    pub open spec fn range(self, first: BlockNumber, last: BlockNumber) -> Seq<FeeSummaryView> {
        if first <= last {
            Seq::new(
                (last - first + 1) as nat,
                |k: int| self.summary_at((first + k) as BlockNumber),
            )
        } else {
            Seq::empty()
        }
    }

    /// Whether `gap` names the missing part of `first ..= last`: its lowest
    /// and its highest height that the cache does not hold.
    pub open spec fn is_gap(self, first: BlockNumber, last: BlockNumber, gap: PartialCoverage) -> bool {
        &&& first <= gap.missing_from <= gap.missing_to <= last
        &&& !self.covers(gap.missing_from)
        &&& !self.covers(gap.missing_to)
        &&& forall|h: BlockNumber| first <= h < gap.missing_from ==> self.covers(h)
        &&& forall|h: BlockNumber| gap.missing_to < h <= last ==> self.covers(h)
    }
}

/// One entry of the cache.
#[derive(Debug)]
struct FeeEntry {
    number: BlockNumber,
    summary: FeeSummary,
}

impl View for FeeEntry {
    type V = FeeEntryView;

    closed spec fn view(&self) -> FeeEntryView {
        FeeEntryView { number: self.number, summary: self.summary@ }
    }
}

/// The fee-history cache.
#[derive(Debug)]
pub struct FeeHistoryCache {
    entries: Vec<FeeEntry>,
    limit: u64,
}

impl View for FeeHistoryCache {
    type V = FeeHistoryView;

    closed spec fn view(&self) -> FeeHistoryView {
        FeeHistoryView {
            entries: Seq::new(self.entries@.len(), |i: int| self.entries@[i]@),
            limit: self.limit,
        }
    }
}

impl FeeHistoryCache {
    /// An empty cache that will hold at most `limit` entries.
    pub fn new(limit: u64) -> (cache: FeeHistoryCache)
        ensures
            cache@.wf(),
            cache@.entries.len() == 0,
            cache@.limit == limit,
    {
        FeeHistoryCache { entries: Vec::new(), limit }
    }

    /// Number of entries held.
    pub fn len(&self) -> (n: usize)
        ensures
            n == self@.entries.len(),
    {
        self.entries.len()
    }

    /// The bound on the number of entries.
    pub fn limit(&self) -> (limit: u64)
        ensures
            limit == self@.limit,
    {
        self.limit
    }

    /// The lowest height held, if any.
    pub fn lowest(&self) -> (number: Option<BlockNumber>)
        ensures
            self@.entries.len() == 0 ==> number is None,
            self@.entries.len() > 0 ==> number == Some(self@.entries[0].number),
    {
        if self.entries.len() == 0 {
            None
        } else {
            Some(self.entries[0].number)
        }
    }

    /// The highest height held, if any.
    pub fn highest(&self) -> (number: Option<BlockNumber>)
        ensures
            self@.entries.len() == 0 ==> number is None,
            self@.entries.len() > 0 ==> number == Some(self@.entries.last().number),
    {
        let n = self.entries.len();
        if n == 0 {
            None
        } else {
            Some(self.entries[n - 1].number)
        }
    }

    /// Position of the first entry whose height is not below `number`.
    fn position(&self, number: BlockNumber) -> (pos: usize)
        requires
            self@.wf(),
        ensures
            pos <= self@.entries.len(),
            forall|i: int| 0 <= i < pos ==> (#[trigger] self@.entries[i]).number < number,
            forall|i: int|
                pos <= i < self@.entries.len() ==> (#[trigger] self@.entries[i]).number >= number,
    {
        let mut pos: usize = 0;
        while pos < self.entries.len() && self.entries[pos].number < number
            invariant
                self@.wf(),
                pos <= self@.entries.len(),
                forall|i: int| 0 <= i < pos ==> (#[trigger] self@.entries[i]).number < number,
            decreases self@.entries.len() - pos,
        {
            pos += 1;
        }
        proof {
            if pos < self@.entries.len() {
                assert(self@.entries[pos as int].number >= number);
                assert forall|i: int| pos <= i < self@.entries.len() implies (
                #[trigger] self@.entries[i]).number >= number by {
                    if i > pos {
                        assert(self@.entries[pos as int].number < self@.entries[i].number);
                    }
                }
            }
        }
        pos
    }

    /// Inserts the summary of the block at height `number`, in the place of
    /// an earlier one for that height if there is one.  If the cache then
    /// exceeds its bound, the entry of the lowest height is evicted and its
    /// height is returned.
    pub fn insert(&mut self, number: BlockNumber, summary: FeeSummary) -> (evicted: Option<
        BlockNumber,
    >)
        requires
            old(self)@.wf(),
        ensures
            final(self)@.wf(),
            final(self)@ == old(self)@.inserted(number, summary@),
            evicted == if old(self)@.placed(number, summary@).len() > old(self)@.limit {
                Some(old(self)@.placed(number, summary@)[0].number)
            } else {
                None
            },
    {
        let ghost before = self@;
        let ghost entry = FeeEntryView { number, summary: summary@ };
        let pos = self.position(number);
        let replace = pos < self.entries.len() && self.entries[pos].number == number;
        proof {
            let after = if replace {
                pos + 1
            } else {
                pos as int
            };
            assert forall|i: int| after <= i < before.entries.len() implies (
            #[trigger] before.entries[i]).number > number by {
                assert(before.entries[pos as int].number == self.entries@[pos as int].number);
                assert(before.entries[pos as int].number >= number);
                if i > pos {
                    assert(before.entries[pos as int].number < before.entries[i].number);
                }
            }
            lemma_filter_is_prefix(before.entries, FeeHistoryView::below(number), pos as int);
            lemma_filter_is_suffix(before.entries, FeeHistoryView::above(number), after);
        }
        if replace {
            self.entries.set(pos, FeeEntry { number, summary });
            proof {
                assert(self@.entries =~= before.entries.take(pos as int).push(entry)
                    + before.entries.skip(pos + 1));
            }
        } else {
            self.entries.insert(pos, FeeEntry { number, summary });
            proof {
                assert(self@.entries =~= before.entries.take(pos as int).push(entry)
                    + before.entries.skip(pos as int));
            }
        }
        proof {
            let placed = before.placed(number, summary@);
            assert(self@.entries == placed);
            assert forall|i: int, j: int| 0 <= i < j < placed.len() implies placed[i].number
                < placed[j].number by {
                if j < pos {
                    assert(before.entries[i].number < before.entries[j].number);
                } else if j == pos {
                    assert(before.entries[i].number < number);
                } else if i < pos {
                    assert(placed[j].number > number);
                    assert(before.entries[i].number < number);
                } else if i == pos {
                    assert(placed[j].number > number);
                } else {
                }
            }
        }
        if self.entries.len() as u64 > self.limit {
            let lowest = self.entries.remove(0);
            proof {
                let placed = before.placed(number, summary@);
                assert(self@.entries =~= placed.drop_first());
                assert forall|i: int, j: int| 0 <= i < j < self@.entries.len() implies self@.entries[i].number
                    < self@.entries[j].number by {
                    assert(placed[i + 1].number < placed[j + 1].number);
                }
            }
            Some(lowest.number)
        } else {
            None
        }
    }

    /// Takes note of an imported block.  Only a block that extends the best
    /// chain enters the cache; for any other the cache stays as it is.
    pub fn on_notification(&mut self, notification: &ImportNotification, summary: FeeSummary) -> (evicted:
        Option<BlockNumber>)
        requires
            old(self)@.wf(),
        ensures
            final(self)@.wf(),
            notification.is_new_best ==> final(self)@ == old(self)@.inserted(
                notification.number,
                summary@,
            ),
            !notification.is_new_best ==> final(self)@ == old(self)@ && evicted is None,
            notification.is_new_best ==> evicted == if old(self)@.placed(
                notification.number,
                summary@,
            ).len() > old(self)@.limit {
                Some(old(self)@.placed(notification.number, summary@)[0].number)
            } else {
                None
            },
    {
        if notification.is_new_best {
            self.insert(notification.number, summary)
        } else {
            None
        }
    }

    /// The summaries for the heights `first ..= last`, by ascending height.
    ///
    /// If the cache lacks any height of the range, the answer is the
    /// missing part instead: the lowest and the highest height of the range
    /// that the cache does not hold.  An empty range lacks nothing.
    pub fn get_fee_history(&self, first: BlockNumber, last: BlockNumber) -> (history: Result<
        Vec<FeeSummary>,
        PartialCoverage,
    >)
        requires
            self@.wf(),
        ensures
            match history {
                Ok(summaries) => {
                    &&& self@.covers_range(first, last)
                    &&& summaries@.map_values(|s: FeeSummary| s@) == self@.range(first, last)
                },
                Err(gap) => self@.is_gap(first, last, gap),
            },
    {
        let mut summaries: Vec<FeeSummary> = Vec::new();
        if first > last {
            assert(summaries@.map_values(|s: FeeSummary| s@) =~= self@.range(first, last));
            return Ok(summaries);
        }
        let lo = self.position(first);
        let n = self.entries.len();
        let mut idx: usize = lo;
        let mut at: BlockNumber = first;
        while idx < n && self.entries[idx].number == at
            invariant
                self@.wf(),
                n == self@.entries.len(),
                lo <= idx <= n,
                first <= at <= last,
                idx - lo == at - first,
                forall|i: int| 0 <= i < lo ==> (#[trigger] self@.entries[i]).number < first,
                forall|i: int| lo <= i < n ==> (#[trigger] self@.entries[i]).number >= first,
                forall|i: int|
                    lo <= i < idx ==> (#[trigger] self@.entries[i]).number == first + (i - lo),
                summaries@.len() == idx - lo,
                forall|k: int|
                    0 <= k < idx - lo ==> (#[trigger] summaries@[k])@ == self@.entries[lo
                        + k].summary,
            decreases n - idx,
        {
            summaries.push(self.entries[idx].summary.duplicate());
            if at == last {
                proof {
                    let view = self@;
                    assert forall|h: BlockNumber| first <= h <= last implies view.covers(h) by {
                        assert(view.entries[lo + (h - first)].number == h);
                    }
                    let got = summaries@.map_values(|s: FeeSummary| s@);
                    let want = view.range(first, last);
                    assert(got.len() == want.len());
                    assert forall|k: int| 0 <= k < got.len() implies got[k] == want[k] by {
                        lemma_summary_at(view, lo + k);
                    }
                    assert(got =~= want);
                }
                return Ok(summaries);
            }
            at += 1;
            idx += 1;
        }
        proof {
            let view = self@;
            assert forall|h: BlockNumber| first <= h < at implies view.covers(h) by {
                assert(view.entries[lo + (h - first)].number == h);
            }
            if view.covers(at) {
                let i = choose|i: int|
                    0 <= i < view.entries.len() && #[trigger] view.entries[i].number == at;
                if i < lo {
                } else if i < idx {
                } else {
                    assert(view.entries[idx as int].number == self.entries@[idx as int].number);
                    if idx > lo {
                        assert(view.entries[idx - 1].number < view.entries[idx as int].number);
                    }
                    if i > idx {
                        assert(view.entries[idx as int].number < view.entries[i].number);
                    }
                }
            }
        }
        let mut top: usize = n;
        while top > 0 && self.entries[top - 1].number > last
            invariant
                self@.wf(),
                n == self@.entries.len(),
                top <= n,
                forall|i: int| top <= i < n ==> (#[trigger] self@.entries[i]).number > last,
            decreases top,
        {
            top -= 1;
        }
        proof {
            let view = self@;
            assert forall|i: int| 0 <= i < top implies (#[trigger] view.entries[i]).number
                <= last by {
                assert(view.entries[top - 1].number == self.entries@[top - 1].number);
                if i < top - 1 {
                    assert(view.entries[i].number < view.entries[top - 1].number);
                }
            }
        }
        let mut down: BlockNumber = last;
        while top > 0 && self.entries[top - 1].number == down
            invariant
                self@.wf(),
                n == self@.entries.len(),
                top <= n,
                at <= down <= last,
                !self@.covers(at),
                forall|i: int| top <= i < n ==> (#[trigger] self@.entries[i]).number > down,
                forall|i: int| 0 <= i < top ==> (#[trigger] self@.entries[i]).number <= down,
                forall|h: BlockNumber| down < h <= last ==> self@.covers(h),
            decreases top,
        {
            proof {
                let view = self@;
                assert(view.entries[top - 1].number == down);
                assert(view.covers(down));
                assert forall|i: int| 0 <= i < top - 1 implies (#[trigger] view.entries[i]).number
                    <= down - 1 by {
                    assert(view.entries[i].number < view.entries[top - 1].number);
                }
            }
            down -= 1;
            top -= 1;
        }
        proof {
            let view = self@;
            if view.covers(down) {
                let i = choose|i: int|
                    0 <= i < view.entries.len() && #[trigger] view.entries[i].number == down;
                if i < top {
                    assert(view.entries[top - 1].number == self.entries@[top - 1].number);
                    if i < top - 1 {
                        assert(view.entries[i].number < view.entries[top - 1].number);
                    }
                }
            }
        }
        Err(PartialCoverage { missing_from: at, missing_to: down })
    }
}

/// In a well-formed cache the entry at position `i` is the one that is
/// held for its height.
pub proof fn lemma_summary_at(cache: FeeHistoryView, i: int)
    requires
        cache.wf(),
        0 <= i < cache.entries.len(),
    ensures
        cache.covers(cache.entries[i].number),
        cache.summary_at(cache.entries[i].number) == cache.entries[i].summary,
{
    let number = cache.entries[i].number;
    let j = choose|j: int| 0 <= j < cache.entries.len() && #[trigger] cache.entries[j].number == number;
    if j < i {
        assert(cache.entries[j].number < cache.entries[i].number);
    } else if i < j {
        assert(cache.entries[i].number < cache.entries[j].number);
    }
}

/// Whether `entries` holds an entry for height `number`.
pub open spec fn holds(entries: Seq<FeeEntryView>, number: BlockNumber) -> bool {
    exists|i: int| 0 <= i < entries.len() && #[trigger] entries[i].number == number
}

/// Number of entries of a well-formed cache that lie below `number`.
proof fn lemma_split(cache: FeeHistoryView, number: BlockNumber, k: int) -> (pos: int)
    requires
        cache.wf(),
        0 <= k <= cache.entries.len(),
        forall|i: int| 0 <= i < k ==> (#[trigger] cache.entries[i]).number < number,
    ensures
        0 <= pos <= cache.entries.len(),
        forall|i: int| 0 <= i < pos ==> (#[trigger] cache.entries[i]).number < number,
        forall|i: int|
            pos <= i < cache.entries.len() ==> (#[trigger] cache.entries[i]).number >= number,
    decreases cache.entries.len() - k,
{
    if k == cache.entries.len() {
        k
    } else if cache.entries[k].number >= number {
        assert forall|i: int| k <= i < cache.entries.len() implies (
        #[trigger] cache.entries[i]).number >= number by {
            if i > k {
                assert(cache.entries[k].number < cache.entries[i].number);
            }
        }
        k
    } else {
        lemma_split(cache, number, k + 1)
    }
}

/// Putting a summary in its place keeps the heights in ascending order,
/// adds the new height to those held and removes none.
pub proof fn lemma_placed(cache: FeeHistoryView, number: BlockNumber, summary: FeeSummaryView)
    requires
        cache.wf(),
    ensures
        forall|i: int, j: int|
            0 <= i < j < cache.placed(number, summary).len() ==> cache.placed(
                number,
                summary,
            )[i].number < cache.placed(number, summary)[j].number,
        forall|h: BlockNumber|
            holds(cache.placed(number, summary), h) <==> cache.covers(h) || h == number,
        cache.placed(number, summary).len() == if cache.covers(number) {
            cache.entries.len()
        } else {
            cache.entries.len() + 1
        },
        forall|i: int|
            0 <= i < cache.placed(number, summary).len() ==> (#[trigger] cache.placed(
                number,
                summary,
            )[i]).summary == if cache.placed(number, summary)[i].number == number {
                summary
            } else {
                cache.summary_at(cache.placed(number, summary)[i].number)
            },
{
    let placed = cache.placed(number, summary);
    let pos = lemma_split(cache, number, 0);
    let replace = pos < cache.entries.len() && cache.entries[pos].number == number;
    let after = if replace {
        pos + 1
    } else {
        pos
    };
    assert forall|i: int| after <= i < cache.entries.len() implies (
    #[trigger] cache.entries[i]).number > number by {
        if i > pos {
            assert(cache.entries[pos].number < cache.entries[i].number);
        }
    }
    lemma_filter_is_prefix(cache.entries, FeeHistoryView::below(number), pos);
    lemma_filter_is_suffix(cache.entries, FeeHistoryView::above(number), after);
    assert(placed =~= cache.entries.take(pos).push(FeeEntryView { number, summary })
        + cache.entries.skip(after));
    assert forall|i: int, j: int| 0 <= i < j < placed.len() implies placed[i].number
        < placed[j].number by {
        if j < pos {
            assert(cache.entries[i].number < cache.entries[j].number);
        } else if j == pos {
            assert(cache.entries[i].number < number);
        } else if i < pos {
            assert(placed[j].number > number);
            assert(cache.entries[i].number < number);
        } else if i == pos {
            assert(placed[j].number > number);
        } else {
            assert(cache.entries[i - pos - 1 + after].number < cache.entries[j - pos - 1
                + after].number);
        }
    }
    assert(placed[pos].number == number);
    assert forall|h: BlockNumber| holds(placed, h) <==> cache.covers(h) || h == number by {
        if holds(placed, h) {
            let i = choose|i: int| 0 <= i < placed.len() && #[trigger] placed[i].number == h;
            if i < pos {
                assert(cache.entries[i].number == h);
            } else if i > pos {
                assert(cache.entries[i - pos - 1 + after].number == h);
            }
        }
        if cache.covers(h) && h != number {
            let i = choose|i: int|
                0 <= i < cache.entries.len() && #[trigger] cache.entries[i].number == h;
            if i < pos {
                assert(placed[i].number == h);
            } else {
                assert(i >= after);
                assert(placed[i - after + pos + 1].number == h);
            }
        }
    }
    if cache.covers(number) {
        let i = choose|i: int|
            0 <= i < cache.entries.len() && #[trigger] cache.entries[i].number == number;
        assert(i == pos);
    }
    assert forall|i: int| 0 <= i < placed.len() implies (#[trigger] placed[i]).summary == if placed[i].number
        == number {
        summary
    } else {
        cache.summary_at(placed[i].number)
    } by {
        if i < pos {
            assert(placed[i] == cache.entries[i]);
            assert(cache.entries[i].number < number);
            lemma_summary_at(cache, i);
        } else if i > pos {
            assert(placed[i] == cache.entries[i - pos - 1 + after]);
            assert(cache.entries[i - pos - 1 + after].number > number);
            lemma_summary_at(cache, i - pos - 1 + after);
        }
    }
}

/// An insertion changes no summary but that of its own height: whatever
/// height is held afterwards has the summary that was inserted, if it is
/// that height, and the summary that it had before, if it is another.
pub proof fn lemma_inserted_summaries(
    cache: FeeHistoryView,
    number: BlockNumber,
    summary: FeeSummaryView,
    height: BlockNumber,
)
    requires
        cache.wf(),
        cache.inserted(number, summary).covers(height),
    ensures
        cache.inserted(number, summary).wf(),
        height == number ==> cache.inserted(number, summary).summary_at(height) == summary,
        height != number ==> cache.covers(height) && cache.inserted(number, summary).summary_at(
            height,
        ) == cache.summary_at(height),
{
    lemma_placed(cache, number, summary);
    let placed = cache.placed(number, summary);
    let after = cache.inserted(number, summary);
    let shift: int = if placed.len() > cache.limit {
        1
    } else {
        0
    };
    assert forall|i: int, j: int| 0 <= i < j < after.entries.len() implies after.entries[i].number
        < after.entries[j].number by {
        assert(placed[i + shift].number < placed[j + shift].number);
    }
    let i = choose|i: int| 0 <= i < after.entries.len() && #[trigger] after.entries[i].number == height;
    lemma_summary_at(after, i);
    assert(after.entries[i] == placed[i + shift]);
    assert(holds(placed, height));
}

/// An insertion into a cache that is full evicts exactly the lowest height:
/// the cache is full afterwards too, the lowest of the heights held before
/// and the new one is gone, and every other of them is held.
pub proof fn lemma_full_cache_evicts_lowest(
    cache: FeeHistoryView,
    number: BlockNumber,
    summary: FeeSummaryView,
)
    requires
        cache.wf(),
        cache.entries.len() == cache.limit,
        !cache.covers(number),
    ensures
        cache.inserted(number, summary).wf(),
        cache.inserted(number, summary).entries.len() == cache.limit,
        cache.inserted(number, summary).entries == cache.placed(number, summary).drop_first(),
        forall|h: BlockNumber|
            cache.covers(h) || h == number ==> cache.placed(number, summary)[0].number <= h,
        !cache.inserted(number, summary).covers(cache.placed(number, summary)[0].number),
        forall|h: BlockNumber|
            (cache.covers(h) || h == number) && h != cache.placed(number, summary)[0].number
                ==> cache.inserted(number, summary).covers(h),
{
    lemma_placed(cache, number, summary);
    let placed = cache.placed(number, summary);
    let after = cache.inserted(number, summary);
    assert(after.entries == placed.drop_first());
    assert forall|i: int, j: int| 0 <= i < j < after.entries.len() implies after.entries[i].number
        < after.entries[j].number by {
        assert(placed[i + 1].number < placed[j + 1].number);
    }
    assert forall|h: BlockNumber| cache.covers(h) || h == number implies placed[0].number
        <= h by {
        assert(holds(placed, h));
        let i = choose|i: int| 0 <= i < placed.len() && #[trigger] placed[i].number == h;
        if i > 0 {
            assert(placed[0].number < placed[i].number);
        }
    }
    if after.covers(placed[0].number) {
        let i = choose|i: int|
            0 <= i < after.entries.len() && #[trigger] after.entries[i].number
                == placed[0].number;
        assert(placed[0].number < placed[i + 1].number);
    }
    assert forall|h: BlockNumber|
        (cache.covers(h) || h == number) && h != placed[0].number implies after.covers(h) by {
        assert(holds(placed, h));
        let i = choose|i: int| 0 <= i < placed.len() && #[trigger] placed[i].number == h;
        assert(after.entries[i - 1].number == h);
    }
}

/// An insertion into a cache that is not full evicts nothing.
pub proof fn lemma_insert_below_limit(
    cache: FeeHistoryView,
    number: BlockNumber,
    summary: FeeSummaryView,
)
    requires
        cache.wf(),
        cache.entries.len() < cache.limit || cache.covers(number),
    ensures
        cache.inserted(number, summary).wf(),
        cache.inserted(number, summary).entries == cache.placed(number, summary),
        forall|h: BlockNumber|
            cache.inserted(number, summary).covers(h) <==> cache.covers(h) || h == number,
{
    lemma_placed(cache, number, summary);
    let placed = cache.placed(number, summary);
    assert forall|h: BlockNumber|
        cache.inserted(number, summary).covers(h) <==> cache.covers(h) || h == number by {
        let after = cache.inserted(number, summary);
        assert(after.entries == placed);
        assert(holds(placed, h) <==> cache.covers(h) || h == number);
        if after.covers(h) {
            let i = choose|i: int|
                0 <= i < after.entries.len() && #[trigger] after.entries[i].number == h;
            assert(placed[i].number == h);
        }
        if holds(placed, h) {
            let i = choose|i: int| 0 <= i < placed.len() && #[trigger] placed[i].number == h;
            assert(after.entries[i].number == h);
        }
    }
}

/// A query for one height that the cache does not hold is answered with
/// that height as the missing range, and with nothing else.
pub proof fn lemma_missing_height_is_named(
    cache: FeeHistoryView,
    number: BlockNumber,
    gap: PartialCoverage,
)
    requires
        !cache.covers(number),
    ensures
        !cache.covers_range(number, number),
        cache.is_gap(number, number, gap) <==> gap == (PartialCoverage {
            missing_from: number,
            missing_to: number,
        }),
{
}

} // verus!
