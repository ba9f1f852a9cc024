use allfeat_node::eth::FrontierBackendType;
use allfeat_node::evm::{BlockRef, EvmBlock, EvmIndex, IndexEntry, Log, Receipt, H160};
use allfeat_node::import::{Block, ImportNotification, ImportPipeline, Justification};
use allfeat_node::indexer::{
    BatchedIndexer, Indexer, IndexerAction, IndexerEvent, StreamingIndexer,
    BATCHED_READ_TIMEOUT_SECS, BATCHED_SCAN_INTERVAL_SECS, STREAMING_RETRY_SECS,
};
use allfeat_node::primitives::H256;

fn hash(n: u128) -> H256 {
    H256::from_low(n)
}

fn notification(number: u64) -> ImportNotification {
    ImportNotification { hash: hash(number as u128), number, is_new_best: true }
}

fn block_ref(number: u64) -> BlockRef {
    BlockRef { hash: hash(number as u128), number }
}

/// What is derived from the native block at `number`: the same for whoever asks.
fn derive(number: u64) -> IndexEntry {
    IndexEntry {
        native: hash(number as u128),
        number,
        evm: EvmBlock {
            hash: hash(5000 + number as u128),
            logs: vec![Log {
                address: H160 { high: 1, low: number as u128 },
                topic: hash(2),
                data: hash(number as u128 * 3),
            }],
            receipts: vec![Receipt { transaction: hash(9), success: true, gas_used: 21000 + number }],
        },
    }
}

fn entries(index: &EvmIndex) -> Vec<IndexEntry> {
    (0..index.len())
        .map(|i| {
            let e = index.entry(i);
            IndexEntry { native: e.native, number: e.number, evm: e.evm.duplicate() }
        })
        .collect()
}

#[test]
fn the_timings_are_fixed() {
    assert_eq!(STREAMING_RETRY_SECS, 6);
    assert_eq!(BATCHED_READ_TIMEOUT_SECS, 30);
    assert_eq!(BATCHED_SCAN_INTERVAL_SECS, 60);
}

#[test]
fn streaming_asks_for_each_block_and_stores_it_before_the_next() {
    let mut indexer = StreamingIndexer::new();
    assert_eq!(
        indexer.step(IndexerEvent::Notification(notification(1))),
        IndexerAction::Persist(vec![block_ref(1)])
    );
    assert_eq!(
        indexer.step(IndexerEvent::Notification(notification(2))),
        IndexerAction::Rejected
    );
    assert_eq!(indexer.index().len(), 0);
    assert_eq!(
        indexer.step(IndexerEvent::Persisted(vec![derive(1)])),
        IndexerAction::Await
    );
    assert_eq!(indexer.index().len(), 1);
    assert_eq!(indexer.index().get_evm_block(hash(1)), Some(derive(1).evm));
    assert_eq!(
        indexer.step(IndexerEvent::Notification(notification(2))),
        IndexerAction::Persist(vec![block_ref(2)])
    );
}

#[test]
fn streaming_waits_and_asks_again_when_the_store_fails() {
    let mut indexer = StreamingIndexer::new();
    indexer.step(IndexerEvent::Notification(notification(1)));
    for _ in 0..5 {
        assert_eq!(
            indexer.step(IndexerEvent::StorageFailed),
            IndexerAction::RetryAfter(6)
        );
        assert_eq!(indexer.step(IndexerEvent::StorageFailed), IndexerAction::Rejected);
        assert_eq!(
            indexer.step(IndexerEvent::Persisted(vec![derive(1)])),
            IndexerAction::Rejected
        );
        assert_eq!(
            indexer.step(IndexerEvent::RetryTimer),
            IndexerAction::Persist(vec![block_ref(1)])
        );
    }
    assert_eq!(indexer.index().len(), 0);
    assert_eq!(
        indexer.step(IndexerEvent::Persisted(vec![derive(1)])),
        IndexerAction::Await
    );
    assert_eq!(indexer.index().len(), 1);
}

#[test]
fn streaming_drops_what_it_did_not_ask_for() {
    let mut indexer = StreamingIndexer::new();
    assert_eq!(
        indexer.step(IndexerEvent::Persisted(vec![derive(1)])),
        IndexerAction::Rejected
    );
    assert_eq!(indexer.step(IndexerEvent::StorageFailed), IndexerAction::Rejected);
    assert_eq!(indexer.step(IndexerEvent::RetryTimer), IndexerAction::Await);
    assert_eq!(indexer.step(IndexerEvent::ReadTimeout), IndexerAction::Await);
    assert_eq!(
        indexer.step(IndexerEvent::Scan(vec![block_ref(1), block_ref(2)])),
        IndexerAction::Await
    );
    indexer.step(IndexerEvent::Notification(notification(1)));
    assert_eq!(
        indexer.step(IndexerEvent::Persisted(vec![derive(2)])),
        IndexerAction::Rejected
    );
    assert_eq!(
        indexer.step(IndexerEvent::Persisted(vec![derive(1), derive(2)])),
        IndexerAction::Rejected
    );
    assert_eq!(indexer.step(IndexerEvent::Persisted(vec![])), IndexerAction::Rejected);
    let mut wrong_height = derive(1);
    wrong_height.number = 2;
    assert_eq!(
        indexer.step(IndexerEvent::Persisted(vec![wrong_height])),
        IndexerAction::Rejected
    );
    assert_eq!(indexer.index().len(), 0);
}

#[test]
fn a_notification_delivered_twice_creates_one_entry() {
    let mut indexer = StreamingIndexer::new();
    indexer.step(IndexerEvent::Notification(notification(1)));
    indexer.step(IndexerEvent::Persisted(vec![derive(1)]));
    assert_eq!(
        indexer.step(IndexerEvent::Notification(notification(1))),
        IndexerAction::Await
    );
    assert_eq!(
        indexer.step(IndexerEvent::Persisted(vec![derive(1)])),
        IndexerAction::Rejected
    );
    assert_eq!(indexer.index().len(), 1);

    let mut batched = BatchedIndexer::new(2);
    batched.step(IndexerEvent::Notification(notification(1)));
    assert_eq!(
        batched.step(IndexerEvent::Notification(notification(1))),
        IndexerAction::Persist(vec![block_ref(1), block_ref(1)])
    );
    assert_eq!(
        batched.step(IndexerEvent::Persisted(vec![derive(1), derive(1)])),
        IndexerAction::Await
    );
    assert_eq!(batched.index().len(), 1);
    assert_eq!(batched.index().get_evm_block(hash(1)), Some(derive(1).evm));
}

#[test]
fn recording_an_entry_twice_keeps_the_first() {
    let mut index = EvmIndex::new();
    assert!(index.record(derive(1)));
    let mut other = derive(1);
    other.evm.hash = hash(77);
    assert!(!index.record(other));
    assert!(!index.record(derive(1)));
    assert_eq!(index.len(), 1);
    assert_eq!(index.get_evm_block(hash(1)), Some(derive(1).evm));
    assert_eq!(index.number_of(hash(1)), Some(1));
    assert_eq!(index.get_evm_block(hash(2)), None);
    assert_eq!(index.number_of(hash(2)), None);
    assert!(index.contains(hash(1)));
    assert!(!index.contains(hash(2)));
}

#[test]
fn batched_asks_when_the_batch_is_full() {
    let mut indexer = BatchedIndexer::new(3);
    assert_eq!(indexer.step(IndexerEvent::Notification(notification(1))), IndexerAction::Await);
    assert_eq!(indexer.step(IndexerEvent::Notification(notification(2))), IndexerAction::Await);
    assert_eq!(indexer.buffered(), 2);
    assert_eq!(
        indexer.step(IndexerEvent::Notification(notification(3))),
        IndexerAction::Persist(vec![block_ref(1), block_ref(2), block_ref(3)])
    );
    assert_eq!(indexer.buffered(), 0);
    assert_eq!(indexer.step(IndexerEvent::Notification(notification(4))), IndexerAction::Await);
    assert_eq!(
        indexer.step(IndexerEvent::Persisted(vec![derive(1), derive(2), derive(3)])),
        IndexerAction::Await
    );
    assert_eq!(indexer.index().len(), 3);
    assert_eq!(indexer.buffered(), 1);
}

#[test]
fn batched_asks_when_the_read_timeout_strikes() {
    let mut indexer = BatchedIndexer::new(100);
    assert_eq!(indexer.step(IndexerEvent::ReadTimeout), IndexerAction::Await);
    indexer.step(IndexerEvent::Notification(notification(1)));
    indexer.step(IndexerEvent::Notification(notification(2)));
    assert_eq!(
        indexer.step(IndexerEvent::ReadTimeout),
        IndexerAction::Persist(vec![block_ref(1), block_ref(2)])
    );
    indexer.step(IndexerEvent::Notification(notification(3)));
    assert_eq!(indexer.step(IndexerEvent::ReadTimeout), IndexerAction::Await);
    assert_eq!(
        indexer.step(IndexerEvent::Persisted(vec![derive(1), derive(2)])),
        IndexerAction::Await
    );
    assert_eq!(
        indexer.step(IndexerEvent::ReadTimeout),
        IndexerAction::Persist(vec![block_ref(3)])
    );
}

#[test]
fn batched_keeps_a_failed_batch_for_the_next_attempt() {
    let mut indexer = BatchedIndexer::new(2);
    indexer.step(IndexerEvent::Notification(notification(1)));
    indexer.step(IndexerEvent::Notification(notification(2)));
    indexer.step(IndexerEvent::Notification(notification(3)));
    assert_eq!(indexer.step(IndexerEvent::StorageFailed), IndexerAction::Await);
    assert_eq!(indexer.index().len(), 0);
    assert_eq!(indexer.buffered(), 3);
    assert_eq!(
        indexer.step(IndexerEvent::ReadTimeout),
        IndexerAction::Persist(vec![block_ref(1), block_ref(2), block_ref(3)])
    );
    assert_eq!(indexer.step(IndexerEvent::StorageFailed), IndexerAction::Await);
    assert_eq!(indexer.step(IndexerEvent::StorageFailed), IndexerAction::Rejected);
}

#[test]
fn batched_drops_an_answer_that_does_not_fit() {
    let mut indexer = BatchedIndexer::new(2);
    assert_eq!(
        indexer.step(IndexerEvent::Persisted(vec![derive(1)])),
        IndexerAction::Rejected
    );
    indexer.step(IndexerEvent::Notification(notification(1)));
    indexer.step(IndexerEvent::Notification(notification(2)));
    assert_eq!(
        indexer.step(IndexerEvent::Persisted(vec![derive(2), derive(1)])),
        IndexerAction::Rejected
    );
    assert_eq!(
        indexer.step(IndexerEvent::Persisted(vec![derive(1)])),
        IndexerAction::Rejected
    );
    assert_eq!(indexer.index().len(), 0);
    assert_eq!(indexer.step(IndexerEvent::RetryTimer), IndexerAction::Await);
    assert_eq!(
        indexer.step(IndexerEvent::Persisted(vec![derive(1), derive(2)])),
        IndexerAction::Await
    );
    assert_eq!(indexer.index().len(), 2);
}

#[test]
fn a_scan_asks_for_the_blocks_without_an_entry() {
    let mut indexer = BatchedIndexer::new(1);
    indexer.step(IndexerEvent::Notification(notification(2)));
    indexer.step(IndexerEvent::Persisted(vec![derive(2)]));
    let chain = vec![block_ref(1), block_ref(2), block_ref(3), block_ref(4)];
    assert_eq!(
        indexer.step(IndexerEvent::Scan(chain.clone())),
        IndexerAction::Persist(vec![block_ref(1), block_ref(3), block_ref(4)])
    );
    assert_eq!(indexer.step(IndexerEvent::Scan(chain.clone())), IndexerAction::Await);
    assert_eq!(
        indexer.step(IndexerEvent::Persisted(vec![derive(1), derive(3), derive(4)])),
        IndexerAction::Await
    );
    assert_eq!(indexer.index().len(), 4);
    assert_eq!(indexer.step(IndexerEvent::Scan(chain)), IndexerAction::Await);
    assert_eq!(indexer.step(IndexerEvent::Scan(vec![])), IndexerAction::Await);
}

#[test]
fn the_variant_follows_the_backend() {
    let streaming = Indexer::new(FrontierBackendType::KeyValue, 8);
    let batched = Indexer::new(FrontierBackendType::Sql, 8);
    assert_eq!(streaming.backend(), FrontierBackendType::KeyValue);
    assert_eq!(batched.backend(), FrontierBackendType::Sql);
    assert!(matches!(streaming, Indexer::Streaming(_)));
    assert!(matches!(batched, Indexer::Batched(_)));
    assert_eq!(streaming.get_evm_block(hash(1)), None);
}

fn run_streaming(numbers: &[u64]) -> Indexer {
    let mut indexer = Indexer::new(FrontierBackendType::KeyValue, 0);
    for n in numbers {
        match indexer.step(IndexerEvent::Notification(notification(*n))) {
            IndexerAction::Persist(blocks) => {
                let answer = blocks.iter().map(|b| derive(b.number)).collect();
                assert_eq!(indexer.step(IndexerEvent::Persisted(answer)), IndexerAction::Await);
            }
            IndexerAction::Await => {}
            other => panic!("unexpected {:?}", other),
        }
    }
    indexer
}

fn run_batched(numbers: &[u64], batch_size: usize) -> Indexer {
    let mut indexer = Indexer::new(FrontierBackendType::Sql, batch_size);
    let mut actions = Vec::new();
    for n in numbers {
        actions.push(indexer.step(IndexerEvent::Notification(notification(*n))));
        if let Some(IndexerAction::Persist(blocks)) = actions.pop() {
            let answer = blocks.iter().map(|b| derive(b.number)).collect();
            assert_eq!(indexer.step(IndexerEvent::Persisted(answer)), IndexerAction::Await);
        }
    }
    if let IndexerAction::Persist(blocks) = indexer.step(IndexerEvent::ReadTimeout) {
        let answer = blocks.iter().map(|b| derive(b.number)).collect();
        assert_eq!(indexer.step(IndexerEvent::Persisted(answer)), IndexerAction::Await);
    }
    indexer
}

#[test]
fn both_variants_end_with_the_same_entries() {
    let numbers: Vec<u64> = (1..=23).collect();
    let streaming = run_streaming(&numbers);
    let expected: Vec<IndexEntry> = numbers.iter().map(|n| derive(*n)).collect();
    assert_eq!(entries(streaming.index()), expected);
    for batch_size in [0usize, 1, 2, 5, 23, 100] {
        let batched = run_batched(&numbers, batch_size);
        assert_eq!(entries(batched.index()), expected);
        for n in &numbers {
            assert_eq!(
                batched.get_evm_block(hash(*n as u128)),
                streaming.get_evm_block(hash(*n as u128))
            );
        }
    }
}

#[test]
fn both_variants_agree_when_blocks_repeat_and_are_backfilled() {
    let streaming = run_streaming(&[1, 2, 2, 3, 1, 4]);
    let mut batched = Indexer::new(FrontierBackendType::Sql, 2);
    for n in [4u64, 2] {
        if let IndexerAction::Persist(blocks) =
            batched.step(IndexerEvent::Notification(notification(n)))
        {
            let answer = blocks.iter().map(|b| derive(b.number)).collect();
            batched.step(IndexerEvent::Persisted(answer));
        }
    }
    let chain: Vec<BlockRef> = (1..=4).map(block_ref).collect();
    match batched.step(IndexerEvent::Scan(chain)) {
        IndexerAction::Persist(blocks) => {
            assert_eq!(blocks, vec![block_ref(1), block_ref(3)]);
            let answer = blocks.iter().map(|b| derive(b.number)).collect();
            batched.step(IndexerEvent::Persisted(answer));
        }
        other => panic!("unexpected {:?}", other),
    }
    assert_eq!(streaming.index().len(), 4);
    assert_eq!(batched.index().len(), 4);
    for n in 1..=4u128 {
        assert_eq!(batched.get_evm_block(hash(n)), streaming.get_evm_block(hash(n)));
        assert_eq!(batched.index().number_of(hash(n)), streaming.index().number_of(hash(n)));
    }
}

#[test]
fn ten_blocks_through_the_streaming_variant_with_a_store_one_block_behind() {
    let mut pipeline = ImportPipeline::new(hash(0));
    let subscription = pipeline.subscribe();
    let mut indexer = Indexer::new(FrontierBackendType::KeyValue, 0);
    let mut in_store: Option<Vec<BlockRef>> = None;
    let mut seen_heights: Vec<u64> = Vec::new();

    for number in 1..=11u64 {
        // what was asked for while the previous block came in is durable by now
        if let Some(blocks) = in_store.take() {
            let answer = blocks.iter().map(|b| derive(b.number)).collect();
            assert_eq!(indexer.step(IndexerEvent::Persisted(answer)), IndexerAction::Await);
            let index = indexer.index();
            seen_heights.push(index.entry(index.len() - 1).number);
            assert!((pipeline.best_number() - seen_heights.len() as u64) <= 1);
        }
        if number <= 10 {
            let block = Block {
                hash: hash(number as u128),
                number,
                parent: Some(hash(number as u128 - 1)),
            };
            pipeline.import(block, true, Justification::Absent);
            let notification = pipeline.poll(subscription).unwrap();
            match indexer.step(IndexerEvent::Notification(notification)) {
                IndexerAction::Persist(blocks) => in_store = Some(blocks),
                other => panic!("unexpected {:?}", other),
            }
        }
    }

    assert_eq!(seen_heights, (1..=10).collect::<Vec<u64>>());
    let index = indexer.index();
    assert_eq!(index.len(), 10);
    for i in 0..10usize {
        let entry = index.entry(i);
        assert_eq!(entry.number, i as u64 + 1);
        assert_eq!(entry.native, hash(i as u128 + 1));
        assert!(pipeline.get_block(entry.native).is_some());
        if i > 0 {
            assert!(index.entry(i - 1).number <= entry.number);
            assert_eq!(index.entry(i - 1).number + 1, entry.number);
        }
    }
}

#[test]
fn a_duplicate_block_is_equal_to_the_block() {
    let block = derive(3).evm;
    assert_eq!(block.duplicate(), block);
    let bare = EvmBlock { hash: hash(1), logs: vec![], receipts: vec![] };
    assert_eq!(bare.duplicate(), bare);
}

#[test]
fn record_all_records_in_order_and_once() {
    let mut index = EvmIndex::new();
    index.record_all(&vec![derive(2), derive(1), derive(2), derive(3)]);
    assert_eq!(entries(&index), vec![derive(2), derive(1), derive(3)]);
    index.record_all(&vec![]);
    assert_eq!(index.len(), 3);
}
