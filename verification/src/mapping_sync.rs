//! The indexer at the notification stream.
//!
//! The indexer reads its subscription one notification at a time, and the
//! streaming variant only when the block before is stored.  Read this way,
//! the index of the streaming variant follows the imports: its entries are
//! those of the blocks that were read, in the order of their import and
//! without a gap, and it is never more than one block behind what was read.

use crate::import::{ImportPipeline, PipelineView, Subscriber};
use crate::indexer::{
    block_of, ActionView, EventView, Indexer, IndexerAction, IndexerEvent, StreamingView,
};
use vstd::prelude::*;

verus! {

/// The state of subscriber `id` after it has taken one notification.
pub open spec fn polled(pipeline: PipelineView, id: int) -> PipelineView {
    PipelineView {
        subscribers: pipeline.subscribers.update(
            id,
            Subscriber {
                from: pipeline.subscribers[id].from,
                next: (pipeline.subscribers[id].next + 1) as usize,
            },
        ),
        ..pipeline
    }
}

/// Whether a notification is handed over: the indexer must be ready for
/// one, and the subscription must hold one.
pub open spec fn delivers(pipeline: PipelineView, subscription: int, indexer: crate::indexer::IndexerView) -> bool {
    &&& indexer.is_ready()
    &&& 0 <= subscription < pipeline.subscribers.len()
    &&& pipeline.pending(subscription).len() > 0
}

/// Hands the indexer the next notification of its subscription, if the
/// indexer is ready for one and there is one, and returns what the indexer
/// asks for.  Otherwise nothing changes and `None` is returned.
pub fn deliver_next(pipeline: &mut ImportPipeline, subscription: usize, indexer: &mut Indexer) -> (action:
    Option<IndexerAction>)
    requires
        old(pipeline)@.wf(),
        old(indexer)@.wf(),
    ensures
        final(pipeline)@.wf(),
        final(indexer)@.wf(),
        delivers(old(pipeline)@, subscription as int, old(indexer)@) ==> {
            let event = EventView::Notification(old(pipeline)@.pending(subscription as int)[0]);
            &&& final(pipeline)@ == polled(old(pipeline)@, subscription as int)
            &&& final(indexer)@ == old(indexer)@.next(event)
            &&& action is Some
            &&& action->0@ == old(indexer)@.action(event)
        },
        !delivers(old(pipeline)@, subscription as int, old(indexer)@) ==> {
            &&& action is None
            &&& final(pipeline)@ == old(pipeline)@
            &&& final(indexer)@ == old(indexer)@
        },
{
    if !indexer.is_ready() {
        return None;
    }
    match pipeline.poll(subscription) {
        Some(notification) => Some(indexer.step(IndexerEvent::Notification(notification))),
        None => None,
    }
}

/// Whether the streaming indexer is in step with what subscriber `id` has
/// taken: every block that was taken has its entry, at the same place and
/// with the same height, but for the last one if that is still asked for.
pub open spec fn in_step(pipeline: PipelineView, id: int, indexer: StreamingView) -> bool {
    let seen = pipeline.observed(id);
    let done = indexer.index.entries;
    &&& 0 <= id < pipeline.subscribers.len()
    &&& seen.len() == done.len() + if indexer.pending is Some {
        1int
    } else {
        0int
    }
    &&& forall|k: int|
        0 <= k < done.len() ==> (#[trigger] done[k]).native == seen[k].hash && done[k].number
            == seen[k].number
    &&& indexer.pending is Some ==> indexer.pending->0 == block_of(seen.last())
}

/// An indexer that starts over an empty index on a subscription from which
/// nothing was taken is in step.
pub proof fn lemma_in_step_at_start(pipeline: PipelineView, id: int, indexer: StreamingView)
    requires
        pipeline.wf(),
        0 <= id < pipeline.subscribers.len(),
        pipeline.subscribers[id].next == pipeline.subscribers[id].from,
        indexer.index.entries.len() == 0,
        indexer.pending is None,
    ensures
        in_step(pipeline, id, indexer),
{
}

/// Handing over the next notification keeps the indexer in step, and the
/// indexer asks for the block of that notification: it cannot have an
/// entry yet.
pub proof fn lemma_in_step_after_delivery(pipeline: PipelineView, id: int, indexer: StreamingView)
    requires
        pipeline.wf(),
        indexer.wf(),
        in_step(pipeline, id, indexer),
        indexer.pending is None,
        pipeline.pending(id).len() > 0,
    ensures
        !indexer.index.contains(pipeline.pending(id)[0].hash),
        indexer.action(EventView::Notification(pipeline.pending(id)[0])) == ActionView::Persist(
            seq![block_of(pipeline.pending(id)[0])],
        ),
        in_step(
            polled(pipeline, id),
            id,
            indexer.next(EventView::Notification(pipeline.pending(id)[0])),
        ),
{
    let n = pipeline.pending(id)[0];
    let from = pipeline.subscribers[id].from as int;
    let next = pipeline.subscribers[id].next as int;
    assert(from <= next <= pipeline.notifications.len());
    assert(n == pipeline.notifications[next]);
    crate::import::lemma_notified_at_most_once(pipeline);
    if indexer.index.contains(n.hash) {
        let k = choose|k: int|
            0 <= k < indexer.index.entries.len() && #[trigger] indexer.index.entries[k].native
                == n.hash;
        assert(pipeline.observed(id)[k] == pipeline.notifications[from + k]);
        assert(pipeline.notifications[from + k].hash != pipeline.notifications[next].hash);
    }
    let after = polled(pipeline, id);
    assert(after.observed(id) =~= pipeline.observed(id).push(n));
}

/// Whatever else the indexer is told, it stays in step: an entry that is
/// stored is the entry of the block that was asked for, and a failure or a
/// timer stores nothing.
pub proof fn lemma_in_step_after_event(
    pipeline: PipelineView,
    id: int,
    indexer: StreamingView,
    event: EventView,
)
    requires
        pipeline.wf(),
        indexer.wf(),
        in_step(pipeline, id, indexer),
        !(event is Notification),
    ensures
        in_step(pipeline, id, indexer.next(event)),
{
    if let EventView::Persisted(entries) = event {
        if indexer.expects(entries) {
            let after = indexer.next(event);
            assert(after.index.entries == indexer.index.entries.push(entries[0]));
            assert forall|k: int| 0 <= k < after.index.entries.len() implies (
            #[trigger] after.index.entries[k]).native == pipeline.observed(id)[k].hash
                && after.index.entries[k].number == pipeline.observed(id)[k].number by {
                if k < indexer.index.entries.len() {
                    assert(after.index.entries[k] == indexer.index.entries[k]);
                }
            }
        }
    }
}

/// An import, whatever its outcome, leaves the indexer in step: it adds to
/// what is still to be taken, not to what was taken.
pub proof fn lemma_in_step_after_import(
    pipeline: PipelineView,
    id: int,
    indexer: StreamingView,
    candidate: crate::import::Block,
    slot_admissible: bool,
    justification: crate::import::Justification,
)
    requires
        pipeline.wf(),
        in_step(pipeline, id, indexer),
    ensures
        in_step(pipeline.imported(candidate, slot_admissible, justification), id, indexer),
{
    let after = pipeline.imported(candidate, slot_admissible, justification);
    assert(pipeline.subscribers[id].from <= pipeline.subscribers[id].next
        <= pipeline.notifications.len());
    assert(after.observed(id) =~= pipeline.observed(id));
}

/// What being in step means for the index: it is at most one block behind
/// what was taken from the subscription, and its entries are the blocks of
/// the notifications in the order of their import, none left out.
pub proof fn lemma_index_follows_imports(pipeline: PipelineView, id: int, indexer: StreamingView)
    requires
        pipeline.wf(),
        in_step(pipeline, id, indexer),
    ensures
        0 <= pipeline.observed(id).len() - indexer.index.entries.len() <= 1,
        forall|k: int|
            0 <= k < indexer.index.entries.len() ==> {
                let notification = pipeline.notifications[pipeline.subscribers[id].from + k];
                &&& (#[trigger] indexer.index.entries[k]).native == notification.hash
                &&& indexer.index.entries[k].number == notification.number
                &&& pipeline.contains(notification.hash)
            },
{
    crate::import::lemma_notified_at_most_once(pipeline);
    let from = pipeline.subscribers[id].from as int;
    assert(from <= pipeline.subscribers[id].next <= pipeline.notifications.len());
    assert forall|k: int| 0 <= k < indexer.index.entries.len() implies {
        let notification = pipeline.notifications[from + k];
        &&& (#[trigger] indexer.index.entries[k]).native == notification.hash
        &&& indexer.index.entries[k].number == notification.number
        &&& pipeline.contains(notification.hash)
    } by {
        assert(pipeline.observed(id)[k] == pipeline.notifications[from + k]);
    }
}

} // verus!
