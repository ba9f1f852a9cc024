use allfeat_node::eth::FrontierBackendType;
use allfeat_node::evm::{BlockRef, EvmBlock, IndexEntry};
use allfeat_node::import::{Block, ImportPipeline, Justification};
use allfeat_node::indexer::{Indexer, IndexerAction, IndexerEvent};
use allfeat_node::mapping_sync::deliver_next;
use allfeat_node::primitives::H256;

fn hash(n: u128) -> H256 {
    H256::from_low(n)
}

fn import(pipeline: &mut ImportPipeline, number: u64) {
    let block = Block { hash: hash(number as u128), number, parent: Some(hash(number as u128 - 1)) };
    pipeline.import(block, true, Justification::Absent);
}

fn derive(block: &BlockRef) -> IndexEntry {
    IndexEntry {
        native: block.hash,
        number: block.number,
        evm: EvmBlock { hash: hash(9000 + block.number as u128), logs: vec![], receipts: vec![] },
    }
}

#[test]
fn nothing_is_delivered_when_nothing_was_imported() {
    let mut pipeline = ImportPipeline::new(hash(0));
    let subscription = pipeline.subscribe();
    let mut indexer = Indexer::new(FrontierBackendType::KeyValue, 0);
    assert_eq!(deliver_next(&mut pipeline, subscription, &mut indexer), None);
    assert_eq!(deliver_next(&mut pipeline, 5, &mut indexer), None);
}

#[test]
fn the_streaming_indexer_is_handed_one_block_at_a_time() {
    let mut pipeline = ImportPipeline::new(hash(0));
    let subscription = pipeline.subscribe();
    let mut indexer = Indexer::new(FrontierBackendType::KeyValue, 0);
    for number in 1..=3 {
        import(&mut pipeline, number);
    }
    let first = BlockRef { hash: hash(1), number: 1 };
    assert_eq!(
        deliver_next(&mut pipeline, subscription, &mut indexer),
        Some(IndexerAction::Persist(vec![first]))
    );
    // the first block is not stored yet: the second one waits
    assert_eq!(deliver_next(&mut pipeline, subscription, &mut indexer), None);
    assert_eq!(indexer.step(IndexerEvent::StorageFailed), IndexerAction::RetryAfter(6));
    assert_eq!(deliver_next(&mut pipeline, subscription, &mut indexer), None);
    assert_eq!(indexer.step(IndexerEvent::RetryTimer), IndexerAction::Persist(vec![first]));
    assert_eq!(indexer.step(IndexerEvent::Persisted(vec![derive(&first)])), IndexerAction::Await);
    assert_eq!(
        deliver_next(&mut pipeline, subscription, &mut indexer),
        Some(IndexerAction::Persist(vec![BlockRef { hash: hash(2), number: 2 }]))
    );
}

#[test]
fn the_index_follows_the_imports_block_by_block() {
    let mut pipeline = ImportPipeline::new(hash(0));
    let subscription = pipeline.subscribe();
    let mut indexer = Indexer::new(FrontierBackendType::KeyValue, 0);
    let mut delivered = 0usize;
    for number in 1..=10u64 {
        import(&mut pipeline, number);
        // a side block at the same height: imported, notified, indexed
        let side = Block {
            hash: hash(100 + number as u128),
            number,
            parent: Some(hash(number as u128 - 1)),
        };
        pipeline.import(side, true, Justification::Absent);
        while let Some(action) = deliver_next(&mut pipeline, subscription, &mut indexer) {
            delivered += 1;
            assert!(delivered - indexer.index().len() <= 1);
            match action {
                IndexerAction::Persist(blocks) => {
                    let answer = blocks.iter().map(derive).collect();
                    assert_eq!(indexer.step(IndexerEvent::Persisted(answer)), IndexerAction::Await);
                }
                other => panic!("unexpected {:?}", other),
            }
            assert_eq!(delivered, indexer.index().len());
        }
    }
    let index = indexer.index();
    assert_eq!(index.len(), 20);
    for i in 0..20usize {
        let height = i as u64 / 2 + 1;
        assert_eq!(index.entry(i).number, height);
        let expected = if i % 2 == 0 { hash(height as u128) } else { hash(100 + height as u128) };
        assert_eq!(index.entry(i).native, expected);
        if i > 0 {
            assert!(index.entry(i - 1).number <= index.entry(i).number);
        }
    }
}

#[test]
fn the_batched_indexer_takes_whatever_there_is() {
    let mut pipeline = ImportPipeline::new(hash(0));
    let subscription = pipeline.subscribe();
    let mut indexer = Indexer::new(FrontierBackendType::Sql, 3);
    for number in 1..=4 {
        import(&mut pipeline, number);
    }
    assert_eq!(deliver_next(&mut pipeline, subscription, &mut indexer), Some(IndexerAction::Await));
    assert_eq!(deliver_next(&mut pipeline, subscription, &mut indexer), Some(IndexerAction::Await));
    assert_eq!(
        deliver_next(&mut pipeline, subscription, &mut indexer),
        Some(IndexerAction::Persist(vec![
            BlockRef { hash: hash(1), number: 1 },
            BlockRef { hash: hash(2), number: 2 },
            BlockRef { hash: hash(3), number: 3 },
        ]))
    );
    assert_eq!(deliver_next(&mut pipeline, subscription, &mut indexer), Some(IndexerAction::Await));
    assert_eq!(deliver_next(&mut pipeline, subscription, &mut indexer), None);
}
