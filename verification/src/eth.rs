//! The EVM-compatibility subsystem: its configuration and the background
//! tasks that keep its view of the chain.

use crate::fee_history::FeeHistoryCache;
use crate::filter_pool::{FilterPool, FILTER_RETAIN_THRESHOLD};
use crate::import::{ImportPipeline, PipelineView, Subscriber};
use crate::indexer::{
    Indexer, IndexerView, BATCHED_READ_TIMEOUT_SECS, BATCHED_SCAN_INTERVAL_SECS, STREAMING_RETRY_SECS,
};
use crate::primitives::BlockNumber;
use crate::service::Configuration;
use crate::supervisor::{Supervisor, SupervisorView, TaskView};
use vstd::prelude::*;

verus! {

/// The storage backends of the EVM-compatibility index.
#[derive(Clone, Copy, Debug, PartialEq, Eq, Structural)]
pub enum FrontierBackendType {
    /// The key-value store of the node itself; indexed block by block.
    KeyValue,
    /// A SQL database with its own log index; indexed in batches.
    Sql,
}

impl Default for FrontierBackendType {
    fn default() -> (backend: FrontierBackendType)
        ensures
            backend == FrontierBackendType::KeyValue,
    {
        FrontierBackendType::KeyValue
    }
}

/// The configuration of the EVM-compatibility subsystem.
#[derive(Clone, Copy, Debug, PartialEq, Eq)]
pub struct EthConfiguration {
    /// Maximum number of logs that one query returns.
    pub max_past_logs: u32,
    /// Maximum number of entries in the fee-history cache.
    pub fee_history_limit: u64,
    pub enable_dev_signer: bool,
    /// The target gas price that the block author sets.
    pub target_gas_price: u64,
    /// A read-only call may use this many times the gas limit of a block.
    pub execute_gas_limit_multiplier: u64,
    /// Size in bytes of the cache for block data.
    pub eth_log_block_cache: usize,
    /// Size in bytes of the cache for transaction statuses.
    pub eth_statuses_cache: usize,
    /// The backend of the index; fixed while the node runs.
    pub frontier_backend_type: FrontierBackendType,
    /// Number of connections that the SQL backend keeps.
    pub frontier_sql_backend_pool_size: u32,
    /// Number of operations after which the SQL backend gives a query up.
    pub frontier_sql_backend_num_ops_timeout: u32,
    /// Number of auxiliary threads of the SQL backend.
    pub frontier_sql_backend_thread_count: u32,
    /// Size in bytes of the working set of the SQL backend.
    pub frontier_sql_backend_cache_size: u64,
}

impl Default for EthConfiguration {
    fn default() -> (config: EthConfiguration)
        ensures
            config.max_past_logs == 10000,
            config.fee_history_limit == 2048,
            !config.enable_dev_signer,
            config.target_gas_price == 1,
            config.execute_gas_limit_multiplier == 10,
            config.eth_log_block_cache == 50,
            config.eth_statuses_cache == 50,
            config.frontier_backend_type == FrontierBackendType::KeyValue,
            config.frontier_sql_backend_pool_size == 100,
            config.frontier_sql_backend_num_ops_timeout == 10000000,
            config.frontier_sql_backend_thread_count == 4,
            config.frontier_sql_backend_cache_size == 209715200,
    {
        EthConfiguration {
            max_past_logs: 10000,
            fee_history_limit: 2048,
            enable_dev_signer: false,
            target_gas_price: 1,
            execute_gas_limit_multiplier: 10,
            eth_log_block_cache: 50,
            eth_statuses_cache: 50,
            frontier_backend_type: FrontierBackendType::KeyValue,
            frontier_sql_backend_pool_size: 100,
            frontier_sql_backend_num_ops_timeout: 10000000,
            frontier_sql_backend_thread_count: 4,
            frontier_sql_backend_cache_size: 209715200,
        }
    }
}

impl EthConfiguration {
    /// The gas that a read-only call may use at most, given the gas limit
    /// of the block: the limit times the configured multiplier.
    pub fn execute_gas_limit(&self, block_gas_limit: u64) -> (limit: u128)
        ensures
            limit == block_gas_limit * self.execute_gas_limit_multiplier,
    {
        assert(block_gas_limit * self.execute_gas_limit_multiplier <= u64::MAX * u64::MAX)
            by (nonlinear_arith)
            requires
                block_gas_limit <= u64::MAX,
                self.execute_gas_limit_multiplier <= u64::MAX,
        ;
        block_gas_limit as u128 * self.execute_gas_limit_multiplier as u128
    }
}

/// The directory of the configuration of the node for its chain, component
/// by component: the base path, then `chains`, then the id of the chain.
pub fn db_config_dir(config: &Configuration) -> (dir: Vec<String>)
    ensures
        dir@.len() == config.base_path@.len() + 2,
        forall|i: int| 0 <= i < config.base_path@.len() ==> dir@[i]@ == config.base_path@[i]@,
        dir@[config.base_path@.len() as int]@ == "chains"@,
        dir@[config.base_path@.len() as int + 1]@ == config.chain_spec.id@,
{
    let mut dir: Vec<String> = Vec::new();
    let mut i: usize = 0;
    while i < config.base_path.len()
        invariant
            0 <= i <= config.base_path@.len(),
            dir@.len() == i,
            forall|j: int| 0 <= j < i ==> dir@[j]@ == config.base_path@[j]@,
        decreases config.base_path@.len() - i,
    {
        dir.push(config.base_path[i].clone());
        i += 1;
    }
    dir.push("chains".to_owned());
    dir.push(config.chain_spec.id.clone());
    dir
}

/// How far the indexer goes back when it starts.
#[derive(Clone, Copy, Debug, PartialEq, Eq, Structural)]
pub enum SyncStrategy {
    /// It indexes every block of the chain.
    Normal,
    /// It indexes the blocks that a relay chain has included.
    Parachain,
}

/// The parameters of the worker that stores the entries, by backend.
#[derive(Clone, Copy, Debug, PartialEq, Eq, Structural)]
pub enum MappingSyncParams {
    KeyValue {
        /// Seconds between two attempts when the store fails.
        poll_interval_secs: u64,
        /// Number of blocks that the worker stores at most per wake-up.
        retry_times: usize,
        /// Height from which the chain is indexed.
        sync_from: BlockNumber,
        strategy: SyncStrategy,
    },
    Sql {
        /// Seconds after which a batch is stored though it is not full.
        read_notification_timeout_secs: u64,
        /// Seconds between two scans for blocks without an entry.
        check_indexed_blocks_interval_secs: u64,
        strategy: SyncStrategy,
    },
}

/// The parameters of the worker for `backend`.
pub open spec fn mapping_sync_params(backend: FrontierBackendType) -> MappingSyncParams {
    match backend {
        FrontierBackendType::KeyValue => MappingSyncParams::KeyValue {
            poll_interval_secs: STREAMING_RETRY_SECS,
            retry_times: 3,
            sync_from: 0,
            strategy: SyncStrategy::Normal,
        },
        FrontierBackendType::Sql => MappingSyncParams::Sql {
            read_notification_timeout_secs: BATCHED_READ_TIMEOUT_SECS,
            check_indexed_blocks_interval_secs: BATCHED_SCAN_INTERVAL_SECS,
            strategy: SyncStrategy::Normal,
        },
    }
}

/// The task that keeps the index in step with the chain.
pub open spec fn mapping_sync_task(backend: FrontierBackendType) -> TaskView {
    TaskView {
        name: "frontier-mapping-sync-worker"@,
        group: Some("frontier"@),
        essential: true,
        blocking: backend == FrontierBackendType::Sql,
    }
}

/// The task that runs the maintenance passes over the filter pool.
pub open spec fn filter_pool_task() -> TaskView {
    TaskView {
        name: "frontier-filter-pool"@,
        group: Some("frontier"@),
        essential: false,
        blocking: false,
    }
}

/// The task that keeps the fee-history cache.
pub open spec fn fee_history_task() -> TaskView {
    TaskView {
        name: "frontier-fee-history"@,
        group: Some("frontier"@),
        essential: true,
        blocking: false,
    }
}

/// The supervisor after the tasks of the subsystem were spawned: the
/// indexer, the filter-pool maintenance if there is a pool, the fee history.
pub open spec fn with_eth_tasks(
    supervisor: SupervisorView,
    backend: FrontierBackendType,
    has_filter_pool: bool,
) -> SupervisorView {
    let first = supervisor.spawned(mapping_sync_task(backend));
    let second = if has_filter_pool {
        first.spawned(filter_pool_task())
    } else {
        first
    };
    second.spawned(fee_history_task())
}

/// The pipeline after the indexer and the fee history have subscribed, in
/// this order, each from the next block on.
pub open spec fn with_eth_subscribers(pipeline: PipelineView) -> PipelineView {
    let from = pipeline.notifications.len() as usize;
    PipelineView {
        subscribers: pipeline.subscribers.push(Subscriber { from, next: from }).push(
            Subscriber { from, next: from },
        ),
        ..pipeline
    }
}

/// What a maintenance task of the filter pool works with.
#[derive(Debug)]
pub struct FilterPoolTask {
    /// The id of the task.
    pub task: usize,
    pub pool: FilterPool,
    /// Number of blocks for which a filter stays in the pool.
    pub retention: u64,
}

/// The tasks of the subsystem and the state that each works on.
#[derive(Debug)]
pub struct EthTasks {
    /// The id of the indexer task.
    pub mapping_sync: usize,
    /// The subscription from which the indexer reads.
    pub mapping_sync_subscription: usize,
    /// The parameters of the worker that stores the entries.
    pub mapping_sync_params: MappingSyncParams,
    pub indexer: Indexer,
    pub filter_pool: Option<FilterPoolTask>,
    /// The id of the fee-history task.
    pub fee_history: usize,
    /// The subscription from which the fee history reads.
    pub fee_history_subscription: usize,
    pub fee_history_cache: FeeHistoryCache,
}

/// Spawns the background tasks of the EVM-compatibility subsystem.
///
/// The indexer is of the variant that `backend` calls for and starts over
/// an empty index; it and the fee history subscribe to the import
/// notifications.  Indexer and fee history are essential.  The maintenance
/// of the filter pool, which exists only if there is a pool, is
/// best-effort and keeps a filter for `FILTER_RETAIN_THRESHOLD` blocks.
///
/// A supervisor that is shutting down spawns nothing: then nothing changes
/// and `None` comes back.
pub fn spawn_tasks(
    task_manager: &mut Supervisor,
    pipeline: &mut ImportPipeline,
    backend: FrontierBackendType,
    batch_size: usize,
    filter_pool: Option<FilterPool>,
    fee_history_cache: FeeHistoryCache,
) -> (tasks: Option<EthTasks>)
    requires
        old(task_manager)@.wf(),
        old(pipeline)@.wf(),
    ensures
        final(task_manager)@.wf(),
        final(pipeline)@.wf(),
        old(task_manager)@.shutting_down ==> {
            &&& tasks is None
            &&& final(task_manager)@ == old(task_manager)@
            &&& final(pipeline)@ == old(pipeline)@
        },
        !old(task_manager)@.shutting_down ==> {
            &&& tasks is Some
            &&& final(task_manager)@ == with_eth_tasks(
                old(task_manager)@,
                backend,
                filter_pool is Some,
            )
            &&& final(pipeline)@ == with_eth_subscribers(old(pipeline)@)
            &&& tasks->0.mapping_sync == old(task_manager)@.tasks.len()
            &&& tasks->0.mapping_sync_subscription == old(pipeline)@.subscribers.len()
            &&& tasks->0.fee_history_subscription == old(pipeline)@.subscribers.len() + 1
            &&& tasks->0.fee_history == final(task_manager)@.tasks.len() - 1
            &&& tasks->0.mapping_sync_params == mapping_sync_params(backend)
            &&& tasks->0.indexer@.wf()
            &&& tasks->0.indexer@.backend() == backend
            &&& tasks->0.indexer@.index().entries.len() == 0
            &&& match tasks->0.indexer@ {
                IndexerView::Streaming(s) => s.pending is None && !s.backing_off,
                IndexerView::Batched(b) => b.buffer.len() == 0 && b.in_flight.len() == 0
                    && b.batch_size == batch_size,
            }
            &&& tasks->0.fee_history_cache == fee_history_cache
            &&& match (filter_pool, tasks->0.filter_pool) {
                (Some(pool), Some(task)) => {
                    &&& task.pool == pool
                    &&& task.retention == FILTER_RETAIN_THRESHOLD
                    &&& task.task == old(task_manager)@.tasks.len() + 1
                },
                (None, None) => true,
                _ => false,
            }
        },
{
    if task_manager.is_shutting_down() {
        return None;
    }
    let (blocking, params) = match backend {
        FrontierBackendType::KeyValue => (
            false,
            MappingSyncParams::KeyValue {
                poll_interval_secs: STREAMING_RETRY_SECS,
                retry_times: 3,
                sync_from: 0,
                strategy: SyncStrategy::Normal,
            },
        ),
        FrontierBackendType::Sql => (
            true,
            MappingSyncParams::Sql {
                read_notification_timeout_secs: BATCHED_READ_TIMEOUT_SECS,
                check_indexed_blocks_interval_secs: BATCHED_SCAN_INTERVAL_SECS,
                strategy: SyncStrategy::Normal,
            },
        ),
    };
    let mapping_sync_subscription = pipeline.subscribe();
    let indexer = Indexer::new(backend, batch_size);
    let mapping_sync = match task_manager.spawn(
        "frontier-mapping-sync-worker",
        Some("frontier"),
        true,
        blocking,
    ) {
        Some(id) => id,
        None => {
            return None;
        },
    };
    let filter_pool = match filter_pool {
        Some(pool) => {
            match task_manager.spawn("frontier-filter-pool", Some("frontier"), false, false) {
                Some(task) => Some(FilterPoolTask { task, pool, retention: FILTER_RETAIN_THRESHOLD }),
                None => {
                    return None;
                },
            }
        },
        None => None,
    };
    let fee_history_subscription = pipeline.subscribe();
    let fee_history = match task_manager.spawn("frontier-fee-history", Some("frontier"), true, false) {
        Some(id) => id,
        None => {
            return None;
        },
    };
    Some(
        EthTasks {
            mapping_sync,
            mapping_sync_subscription,
            mapping_sync_params: params,
            indexer,
            filter_pool,
            fee_history,
            fee_history_subscription,
            fee_history_cache,
        },
    )
}

} // verus!
