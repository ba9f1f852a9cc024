use allfeat_node::consensus::{announce_finality, author_slot, FinalityVoter};
use allfeat_node::evm::BlockRef;
use allfeat_node::import::{Block, ImportOutcome, ImportPipeline, Justification};
use allfeat_node::primitives::H256;
use allfeat_node::sync::WarpSyncProvider;

fn hash(n: u128) -> H256 {
    H256::from_low(n)
}

fn block_ref(number: u64) -> BlockRef {
    BlockRef { hash: hash(number as u128), number }
}

#[test]
fn the_elected_author_builds_on_the_best_block() {
    let mut pipeline = ImportPipeline::new(hash(0));
    assert_eq!(author_slot(&mut pipeline, true, hash(1)), Some(ImportOutcome::Imported(true)));
    assert_eq!(
        pipeline.get_block(hash(1)),
        Some(Block { hash: hash(1), number: 1, parent: Some(hash(0)) })
    );
    assert_eq!(author_slot(&mut pipeline, true, hash(2)), Some(ImportOutcome::Imported(true)));
    assert_eq!(
        pipeline.get_block(hash(2)),
        Some(Block { hash: hash(2), number: 2, parent: Some(hash(1)) })
    );
    assert_eq!(pipeline.best_hash(), hash(2));
}

#[test]
fn a_node_that_is_not_elected_builds_nothing() {
    let mut pipeline = ImportPipeline::new(hash(0));
    let subscriber = pipeline.subscribe();
    assert_eq!(author_slot(&mut pipeline, false, hash(1)), None);
    assert_eq!(pipeline.len(), 1);
    assert_eq!(pipeline.poll(subscriber), None);
}

#[test]
fn an_authored_block_goes_through_the_pipeline_like_any_other() {
    let mut pipeline = ImportPipeline::new(hash(0));
    let subscriber = pipeline.subscribe();
    author_slot(&mut pipeline, true, hash(1));
    assert_eq!(author_slot(&mut pipeline, true, hash(1)), Some(ImportOutcome::AlreadyInChain));
    assert_eq!(pipeline.poll(subscriber).unwrap().number, 1);
    assert_eq!(pipeline.poll(subscriber), None);
    pipeline.import(
        Block { hash: hash(9), number: 5, parent: Some(hash(1)) },
        false,
        Justification::Absent,
    );
    assert_eq!(author_slot(&mut pipeline, true, hash(9)), Some(ImportOutcome::KnownBad));
}

#[test]
fn the_author_builds_on_the_chain_that_extends_the_finalized_block() {
    let mut pipeline = ImportPipeline::new(hash(0));
    for n in 1..=2u64 {
        author_slot(&mut pipeline, true, hash(n as u128));
    }
    // a longer fork from the genesis block
    for (n, parent) in [(21u128, 0u128), (22, 21), (23, 22)] {
        let number = (n - 20) as u64;
        pipeline.import(
            Block { hash: hash(n), number, parent: Some(hash(parent)) },
            true,
            Justification::Absent,
        );
    }
    assert_eq!(pipeline.best_hash(), hash(23));
    assert!(pipeline.finalize(hash(2)));
    assert_eq!(author_slot(&mut pipeline, true, hash(3)), Some(ImportOutcome::Imported(true)));
    assert_eq!(
        pipeline.get_block(hash(3)),
        Some(Block { hash: hash(3), number: 3, parent: Some(hash(2)) })
    );
}

#[test]
fn a_voter_needs_weights_that_add_up() {
    assert!(FinalityVoter::new(vec![], 0).is_some());
    assert!(FinalityVoter::new(vec![u64::MAX], 0).is_some());
    assert!(FinalityVoter::new(vec![u64::MAX - 1, 1], 0).is_some());
    assert!(FinalityVoter::new(vec![u64::MAX, 1], 0).is_none());
    assert!(FinalityVoter::new(vec![1 << 63, 1 << 63], 0).is_none());
    let voter = FinalityVoter::new(vec![1, 2, 3], 7).unwrap();
    assert_eq!(voter.authorities(), 3);
    assert_eq!(voter.total(), 6);
    assert_eq!(voter.finalized_number(), 7);
    assert_eq!(voter.weight_for(block_ref(8)), 0);
}

#[test]
fn more_than_two_thirds_of_the_weight_finalize_a_block() {
    let mut voter = FinalityVoter::new(vec![1, 1, 1], 0).unwrap();
    assert_eq!(voter.vote(0, block_ref(5)), None);
    assert_eq!(voter.weight_for(block_ref(5)), 1);
    // two of three is two thirds, not more
    assert_eq!(voter.vote(1, block_ref(5)), None);
    assert_eq!(voter.weight_for(block_ref(5)), 2);
    assert_eq!(voter.finalized_number(), 0);
    assert_eq!(voter.vote(2, block_ref(5)), Some(block_ref(5)));
    assert_eq!(voter.finalized_number(), 5);
    // the round is over
    assert_eq!(voter.weight_for(block_ref(5)), 0);
}

#[test]
fn votes_count_by_weight_not_by_head() {
    let mut voter = FinalityVoter::new(vec![10, 1, 1, 1], 0).unwrap();
    assert_eq!(voter.vote(1, block_ref(3)), None);
    assert_eq!(voter.vote(2, block_ref(3)), None);
    assert_eq!(voter.vote(3, block_ref(3)), None);
    assert_eq!(voter.weight_for(block_ref(3)), 3);
    assert_eq!(voter.vote(0, block_ref(3)), Some(block_ref(3)));

    let mut heavy = FinalityVoter::new(vec![9, 4], 0).unwrap();
    // 9 of 13: 27 > 26
    assert_eq!(heavy.vote(0, block_ref(1)), Some(block_ref(1)));
    let mut short = FinalityVoter::new(vec![8, 4], 0).unwrap();
    // 8 of 12: 24 > 24 fails
    assert_eq!(short.vote(0, block_ref(1)), None);
}

#[test]
fn a_later_vote_takes_the_place_of_the_earlier() {
    let mut voter = FinalityVoter::new(vec![1, 1, 1], 0).unwrap();
    voter.vote(0, block_ref(5));
    voter.vote(1, block_ref(5));
    voter.vote(0, block_ref(6));
    assert_eq!(voter.weight_for(block_ref(5)), 1);
    assert_eq!(voter.weight_for(block_ref(6)), 1);
    assert_eq!(voter.vote(2, block_ref(5)), None);
    assert_eq!(voter.vote(0, block_ref(5)), Some(block_ref(5)));
}

#[test]
fn votes_for_the_same_height_on_another_fork_do_not_add_up() {
    let mut voter = FinalityVoter::new(vec![1, 1, 1], 0).unwrap();
    let fork = BlockRef { hash: hash(500), number: 5 };
    voter.vote(0, block_ref(5));
    voter.vote(1, fork);
    assert_eq!(voter.vote(2, fork), None);
    assert_eq!(voter.weight_for(fork), 2);
    assert_eq!(voter.weight_for(block_ref(5)), 1);
    assert_eq!(voter.finalized_number(), 0);
}

#[test]
fn the_finalized_floor_never_sinks() {
    let mut voter = FinalityVoter::new(vec![5], 10).unwrap();
    assert_eq!(voter.vote(0, block_ref(10)), None);
    assert_eq!(voter.vote(0, block_ref(3)), None);
    assert_eq!(voter.vote(1, block_ref(20)), None);
    assert_eq!(voter.finalized_number(), 10);
    assert_eq!(voter.vote(0, block_ref(20)), Some(block_ref(20)));
    assert_eq!(voter.vote(0, block_ref(15)), None);
    assert_eq!(voter.finalized_number(), 20);
    assert_eq!(voter.vote(0, block_ref(21)), Some(block_ref(21)));
}

#[test]
fn authorities_without_weight_finalize_nothing() {
    let mut voter = FinalityVoter::new(vec![0, 0], 0).unwrap();
    assert_eq!(voter.vote(0, block_ref(1)), None);
    assert_eq!(voter.vote(1, block_ref(1)), None);
    let mut nobody = FinalityVoter::new(vec![], 0).unwrap();
    assert_eq!(nobody.vote(0, block_ref(1)), None);
}

#[test]
fn the_largest_weights_do_not_overflow_the_tally() {
    let mut voter = FinalityVoter::new(vec![u64::MAX / 2, u64::MAX / 2], 0).unwrap();
    assert_eq!(voter.vote(0, block_ref(1)), None);
    assert_eq!(voter.vote(1, block_ref(1)), Some(block_ref(1)));
}

#[test]
fn checkpoints_ascend_and_a_peer_gets_those_above_its_height() {
    let mut provider = WarpSyncProvider::new();
    assert_eq!(provider.latest(), None);
    assert_eq!(provider.proof_from(0), vec![]);
    assert!(provider.on_finality(block_ref(512)));
    assert!(provider.on_finality(block_ref(1024)));
    assert!(!provider.on_finality(block_ref(1024)));
    assert!(!provider.on_finality(block_ref(700)));
    assert!(provider.on_finality(block_ref(1536)));
    assert_eq!(provider.latest(), Some(block_ref(1536)));
    assert_eq!(
        provider.proof_from(0),
        vec![block_ref(512), block_ref(1024), block_ref(1536)]
    );
    assert_eq!(provider.proof_from(511), vec![block_ref(512), block_ref(1024), block_ref(1536)]);
    assert_eq!(provider.proof_from(512), vec![block_ref(1024), block_ref(1536)]);
    assert_eq!(provider.proof_from(1535), vec![block_ref(1536)]);
    assert_eq!(provider.proof_from(1536), vec![]);
    assert_eq!(provider.proof_from(u64::MAX), vec![]);
}

#[test]
fn a_checkpoint_at_height_zero_is_a_checkpoint() {
    let mut provider = WarpSyncProvider::new();
    assert!(provider.on_finality(block_ref(0)));
    assert!(!provider.on_finality(block_ref(0)));
    assert_eq!(provider.proof_from(0), vec![]);
    assert_eq!(provider.latest(), Some(block_ref(0)));
}

#[test]
fn finality_reaches_the_pipeline_and_the_provider() {
    let mut pipeline = ImportPipeline::new(hash(0));
    let mut provider = WarpSyncProvider::new();
    let mut voter = FinalityVoter::new(vec![1, 1, 1, 1], 0).unwrap();
    for n in 1..=3u64 {
        author_slot(&mut pipeline, true, hash(n as u128));
    }
    let mut finalized = None;
    for authority in 0..4 {
        if let Some(block) = voter.vote(authority, block_ref(2)) {
            finalized = Some((authority, block));
        }
    }
    // three of four is more than two thirds
    assert_eq!(finalized, Some((2, block_ref(2))));
    assert_eq!(announce_finality(&mut pipeline, &mut provider, hash(2)), Some(block_ref(2)));
    assert_eq!(pipeline.finalized_number(), 2);
    assert_eq!(provider.latest(), Some(block_ref(2)));
    assert_eq!(announce_finality(&mut pipeline, &mut provider, hash(2)), None);
    assert_eq!(announce_finality(&mut pipeline, &mut provider, hash(1)), None);
    assert_eq!(announce_finality(&mut pipeline, &mut provider, hash(77)), None);
    assert_eq!(pipeline.finalized_number(), 2);
    assert_eq!(provider.latest(), Some(block_ref(2)));
    assert_eq!(announce_finality(&mut pipeline, &mut provider, hash(3)), Some(block_ref(3)));
    assert_eq!(provider.proof_from(0), vec![block_ref(2), block_ref(3)]);
    assert_eq!(
        pipeline.import(
            Block { hash: hash(22), number: 2, parent: Some(hash(1)) },
            true,
            Justification::Absent
        ),
        ImportOutcome::Invalid(allfeat_node::import::InvalidReason::FinalityConflict)
    );
}
