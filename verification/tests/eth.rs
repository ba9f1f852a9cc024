use allfeat_node::eth::{
    db_config_dir, spawn_tasks, EthConfiguration, FrontierBackendType, MappingSyncParams, SyncStrategy,
};
use allfeat_node::fee_history::FeeHistoryCache;
use allfeat_node::filter_pool::{FilterPool, LogQuery, FILTER_RETAIN_THRESHOLD};
use allfeat_node::import::{Block, ImportNotification, ImportPipeline, Justification};
use allfeat_node::indexer::{Indexer, IndexerAction, IndexerEvent};
use allfeat_node::primitives::H256;
use allfeat_node::service::{ChainSpec, Configuration, NetworkBackendType, Role};
use allfeat_node::supervisor::{Supervisor, SupervisorAction, TaskOutcome, TaskStatus};

fn configuration(base: &[&str], chain: &str) -> Configuration {
    Configuration {
        chain_spec: ChainSpec { id: chain.to_string() },
        genesis_hash: H256::from_low(0),
        role: Role::Full,
        node_name: "node".to_string(),
        base_path: base.iter().map(|s| s.to_string()).collect(),
        database_path: None,
        telemetry_endpoints: None,
        offchain_worker_enabled: false,
        disable_grandpa: false,
        force_authoring: false,
        allow_non_globals_in_dht: false,
        network_backend: NetworkBackendType::Libp2p,
    }
}

#[test]
fn the_default_backend_is_the_key_value_store() {
    assert_eq!(FrontierBackendType::default(), FrontierBackendType::KeyValue);
}

#[test]
fn the_default_configuration() {
    let config = EthConfiguration::default();
    assert_eq!(
        config,
        EthConfiguration {
            max_past_logs: 10000,
            fee_history_limit: 2048,
            enable_dev_signer: false,
            target_gas_price: 1,
            execute_gas_limit_multiplier: 10,
            eth_log_block_cache: 50,
            eth_statuses_cache: 50,
            frontier_backend_type: FrontierBackendType::KeyValue,
            frontier_sql_backend_pool_size: 100,
            frontier_sql_backend_num_ops_timeout: 10000000,
            frontier_sql_backend_thread_count: 4,
            frontier_sql_backend_cache_size: 209715200,
        }
    );
}

#[test]
fn the_gas_of_a_call_is_bounded_by_a_multiple_of_the_block_limit() {
    let mut config = EthConfiguration::default();
    assert_eq!(config.execute_gas_limit(15_000_000), 150_000_000);
    assert_eq!(config.execute_gas_limit(0), 0);
    assert_eq!(config.execute_gas_limit(u64::MAX), 10 * (u64::MAX as u128));
    config.execute_gas_limit_multiplier = u64::MAX;
    assert_eq!(
        config.execute_gas_limit(u64::MAX),
        (u64::MAX as u128) * (u64::MAX as u128)
    );
    config.execute_gas_limit_multiplier = 0;
    assert_eq!(config.execute_gas_limit(30_000_000), 0);
}

#[test]
fn the_configuration_directory_lies_under_chains() {
    assert_eq!(
        db_config_dir(&configuration(&["var", "lib", "allfeat"], "melodie")),
        vec!["var", "lib", "allfeat", "chains", "melodie"]
    );
    assert_eq!(db_config_dir(&configuration(&[], "dev-d")), vec!["chains", "dev-d"]);
    assert_eq!(db_config_dir(&configuration(&["data"], "")), vec!["data", "chains", ""]);
}

#[test]
fn the_tasks_of_the_key_value_backend() {
    let mut supervisor = Supervisor::new();
    supervisor.spawn("telemetry", None, false, false);
    let mut pipeline = ImportPipeline::new(H256::from_low(0));
    let tasks = spawn_tasks(
        &mut supervisor,
        &mut pipeline,
        FrontierBackendType::KeyValue,
        0,
        Some(FilterPool::new()),
        FeeHistoryCache::new(2048),
    )
    .unwrap();
    assert_eq!(supervisor.len(), 4);
    assert_eq!(tasks.mapping_sync, 1);
    assert_eq!(tasks.fee_history, 3);
    assert_eq!(tasks.mapping_sync_subscription, 0);
    assert_eq!(tasks.fee_history_subscription, 1);
    let filter_pool = tasks.filter_pool.as_ref().unwrap();
    assert_eq!(filter_pool.task, 2);
    assert_eq!(filter_pool.retention, FILTER_RETAIN_THRESHOLD);
    assert_eq!(filter_pool.pool.len(), 0);
    assert_eq!(supervisor.is_essential(tasks.mapping_sync), Some(true));
    assert_eq!(supervisor.is_essential(filter_pool.task), Some(false));
    assert_eq!(supervisor.is_essential(tasks.fee_history), Some(true));
    assert!(matches!(tasks.indexer, Indexer::Streaming(_)));
    assert_eq!(
        tasks.mapping_sync_params,
        MappingSyncParams::KeyValue {
            poll_interval_secs: 6,
            retry_times: 3,
            sync_from: 0,
            strategy: SyncStrategy::Normal,
        }
    );
    assert_eq!(tasks.indexer.index().len(), 0);
    assert_eq!(tasks.fee_history_cache.limit(), 2048);
    for id in 0..4 {
        assert_eq!(supervisor.status(id), Some(TaskStatus::Running));
    }
}

#[test]
fn the_tasks_of_the_sql_backend_without_a_filter_pool() {
    let mut supervisor = Supervisor::new();
    let mut pipeline = ImportPipeline::new(H256::from_low(0));
    let tasks = spawn_tasks(
        &mut supervisor,
        &mut pipeline,
        FrontierBackendType::Sql,
        2,
        None,
        FeeHistoryCache::new(8),
    )
    .unwrap();
    assert_eq!(supervisor.len(), 2);
    assert_eq!(tasks.mapping_sync, 0);
    assert_eq!(tasks.fee_history, 1);
    assert!(tasks.filter_pool.is_none());
    assert!(matches!(tasks.indexer, Indexer::Batched(_)));
    assert_eq!(tasks.indexer.backend(), FrontierBackendType::Sql);
    assert_eq!(
        tasks.mapping_sync_params,
        MappingSyncParams::Sql {
            read_notification_timeout_secs: 30,
            check_indexed_blocks_interval_secs: 60,
            strategy: SyncStrategy::Normal,
        }
    );
}

#[test]
fn the_filter_pool_that_was_handed_in_is_the_one_that_is_maintained() {
    let mut pool = FilterPool::new();
    let id = pool
        .install(LogQuery { from_block: 0, to_block: 9, address: None }, 50)
        .unwrap();
    let mut supervisor = Supervisor::new();
    let mut pipeline = ImportPipeline::new(H256::from_low(0));
    let mut tasks = spawn_tasks(
        &mut supervisor,
        &mut pipeline,
        FrontierBackendType::KeyValue,
        0,
        Some(pool),
        FeeHistoryCache::new(8),
    )
    .unwrap();
    let task = tasks.filter_pool.as_mut().unwrap();
    assert!(task.pool.get(id).is_ok());
    assert_eq!(task.pool.maintain(150, task.retention), 0);
    assert_eq!(task.pool.maintain(151, task.retention), 1);
}

#[test]
fn both_subscriptions_are_served_from_the_next_block_on() {
    let mut supervisor = Supervisor::new();
    let mut pipeline = ImportPipeline::new(H256::from_low(0));
    pipeline.import(
        Block { hash: H256::from_low(1), number: 1, parent: Some(H256::from_low(0)) },
        true,
        Justification::Absent,
    );
    let mut tasks = spawn_tasks(
        &mut supervisor,
        &mut pipeline,
        FrontierBackendType::KeyValue,
        0,
        None,
        FeeHistoryCache::new(8),
    )
    .unwrap();
    assert_eq!(pipeline.poll(tasks.mapping_sync_subscription), None);
    assert_eq!(pipeline.poll(tasks.fee_history_subscription), None);
    pipeline.import(
        Block { hash: H256::from_low(2), number: 2, parent: Some(H256::from_low(1)) },
        true,
        Justification::Absent,
    );
    let expected = ImportNotification { hash: H256::from_low(2), number: 2, is_new_best: true };
    let for_indexer = pipeline.poll(tasks.mapping_sync_subscription).unwrap();
    let for_fees = pipeline.poll(tasks.fee_history_subscription).unwrap();
    assert_eq!(for_indexer, expected);
    assert_eq!(for_fees, expected);
    assert!(matches!(
        tasks.indexer.step(IndexerEvent::Notification(for_indexer)),
        IndexerAction::Persist(_)
    ));
}

#[test]
fn the_end_of_the_indexer_task_takes_the_node_down() {
    let mut supervisor = Supervisor::new();
    let mut pipeline = ImportPipeline::new(H256::from_low(0));
    let tasks = spawn_tasks(
        &mut supervisor,
        &mut pipeline,
        FrontierBackendType::KeyValue,
        0,
        Some(FilterPool::new()),
        FeeHistoryCache::new(8),
    )
    .unwrap();
    let filter_task = tasks.filter_pool.as_ref().unwrap().task;
    assert_eq!(supervisor.exit(filter_task, TaskOutcome::Failed), SupervisorAction::Continue);
    assert_eq!(
        supervisor.exit(tasks.mapping_sync, TaskOutcome::Failed),
        SupervisorAction::Shutdown(vec![tasks.fee_history])
    );
}

#[test]
fn a_supervisor_that_shuts_down_spawns_nothing() {
    let mut supervisor = Supervisor::new();
    supervisor.spawn("grandpa-voter", None, true, true);
    supervisor.exit(0, TaskOutcome::Failed);
    let mut pipeline = ImportPipeline::new(H256::from_low(0));
    let tasks = spawn_tasks(
        &mut supervisor,
        &mut pipeline,
        FrontierBackendType::KeyValue,
        0,
        Some(FilterPool::new()),
        FeeHistoryCache::new(8),
    );
    assert!(tasks.is_none());
    assert_eq!(supervisor.len(), 1);
    assert_eq!(pipeline.subscribe(), 0);
}
