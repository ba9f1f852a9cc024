//! Composition of the node: which parts are built, in which order, and
//! which background tasks are handed to the supervisor.

use crate::import::{Block, ImportPipeline};
use crate::primitives::H256;
use crate::supervisor::{Supervisor, SupervisorView, TaskStatus, TaskView};
use vstd::prelude::*;
use vstd::string::*;

verus! {

/// Number of blocks between two justifications that the finality gadget
/// produces and that the import takes in.
pub const GRANDPA_JUSTIFICATION_PERIOD: u32 = 512;

/// Milliseconds between two rounds of gossip of the finality gadget.
pub const GRANDPA_GOSSIP_DURATION_MILLIS: u64 = 333;

/// Number of messages that the telemetry worker buffers.
pub const TELEMETRY_BUFFER_SIZE: usize = 16;

/// Whether `text` begins with `prefix`.
pub fn starts_with(text: &str, prefix: &str) -> (yes: bool)
    ensures
        yes == prefix@.is_prefix_of(text@),
{
    let n = prefix.unicode_len();
    if text.unicode_len() < n {
        return false;
    }
    let mut i: usize = 0;
    while i < n
        invariant
            0 <= i <= n,
            n == prefix@.len(),
            n <= text@.len(),
            forall|j: int| 0 <= j < i ==> text@[j] == prefix@[j],
        decreases n - i,
    {
        if text.get_char(i) != prefix.get_char(i) {
            assert(text@.subrange(0, n as int)[i as int] != prefix@[i as int]);
            return false;
        }
        i += 1;
    }
    assert(prefix@ =~= text@.subrange(0, n as int));
    true
}

/// Whether `text` ends with `suffix`.
pub fn ends_with(text: &str, suffix: &str) -> (yes: bool)
    ensures
        yes == suffix@.is_suffix_of(text@),
{
    let n = suffix.unicode_len();
    let m = text.unicode_len();
    if m < n {
        return false;
    }
    let start = m - n;
    let mut i: usize = 0;
    while i < n
        invariant
            0 <= i <= n,
            n == suffix@.len(),
            m == text@.len(),
            start == m - n,
            forall|j: int| 0 <= j < i ==> text@[start + j] == suffix@[j],
        decreases n - i,
    {
        if text.get_char(start + i) != suffix.get_char(i) {
            assert(text@.subrange(m - n, m as int)[i as int] != suffix@[i as int]);
            return false;
        }
        i += 1;
    }
    assert(suffix@ =~= text@.subrange(m - n, m as int));
    true
}

/// Tells the networks apart by the id of their chain.
pub trait IdentifyVariant {
    /// The id of the chain.
    spec fn spec_id(&self) -> Seq<char>;

    /// The id of the chain.
    fn id(&self) -> (id: &str)
        ensures
            id@ == self.spec_id(),
    ;

    /// Whether this is the `Melodie` network: its id begins with `melodie`.
    fn is_melodie(&self) -> (yes: bool)
        ensures
            yes == "melodie"@.is_prefix_of(self.spec_id()),
    {
        starts_with(self.id(), "melodie")
    }

    /// Whether this is a development network: its id ends with `-d`.
    fn is_dev(&self) -> (yes: bool)
        ensures
            yes == "-d"@.is_suffix_of(self.spec_id()),
    {
        ends_with(self.id(), "-d")
    }
}

/// What describes the chain, as far as the composition reads it.
#[derive(Debug)]
pub struct ChainSpec {
    pub id: String,
}

impl IdentifyVariant for ChainSpec {
    open spec fn spec_id(&self) -> Seq<char> {
        self.id@
    }

    fn id(&self) -> (id: &str) {
        self.id.as_str()
    }
}

/// What the node does in the network.
#[derive(Clone, Copy, Debug, PartialEq, Eq, Structural)]
pub enum Role {
    /// It follows the chain.
    Full,
    /// It holds validator credentials: it authors blocks and votes.
    Authority,
}

impl Role {
    /// Whether the node holds validator credentials.
    pub fn is_authority(&self) -> (yes: bool)
        ensures
            yes == (*self == Role::Authority),
    {
        match self {
            Role::Authority => true,
            Role::Full => false,
        }
    }
}

/// The implementations of the peer-to-peer layer.
#[derive(Clone, Copy, Debug, PartialEq, Eq, Structural)]
pub enum NetworkBackendType {
    Libp2p,
    Litep2p,
}

/// The rule by which the head of the chain is chosen.
#[derive(Clone, Copy, Debug, PartialEq, Eq, Structural)]
pub enum SelectChain {
    /// The longest chain that extends the last finalized block.
    LongestChain,
}

/// The configuration of the node, as far as the composition reads it.
#[derive(Debug)]
pub struct Configuration {
    pub chain_spec: ChainSpec,
    /// Hash of the genesis block of the chain.
    pub genesis_hash: H256,
    pub role: Role,
    /// The name under which the node appears in the network.
    pub node_name: String,
    /// The base path of the node, component by component.
    pub base_path: Vec<String>,
    /// Where the database lies, if it lies on disk.
    pub database_path: Option<String>,
    /// Where telemetry is sent, if anywhere.
    pub telemetry_endpoints: Option<Vec<String>>,
    pub offchain_worker_enabled: bool,
    /// Whether the node stays out of finality voting.
    pub disable_grandpa: bool,
    /// Whether blocks are authored even while the node is offline.
    pub force_authoring: bool,
    /// Whether addresses that are not global are published.
    pub allow_non_globals_in_dht: bool,
    pub network_backend: NetworkBackendType,
}

impl Configuration {
    /// Telemetry is wanted if there is at least one endpoint for it.
    pub open spec fn wants_telemetry(&self) -> bool {
        self.telemetry_endpoints is Some && self.telemetry_endpoints->0@.len() > 0
    }

    /// The hardware is measured unless that was switched off, and only if
    /// the database lies on disk.
    pub open spec fn wants_hwbench(&self, no_hardware_benchmarks: bool) -> bool {
        !no_hardware_benchmarks && self.database_path is Some
    }

    /// Whether the node authors blocks.
    pub open spec fn is_validator(&self) -> bool {
        self.role == Role::Authority
    }

    /// Whether the node takes part in finality voting.
    pub open spec fn wants_grandpa(&self) -> bool {
        !self.disable_grandpa
    }
}

/// The run of one item, or of none.
pub open spec fn when<A>(wanted: bool, item: A) -> Seq<A> {
    if wanted {
        seq![item]
    } else {
        Seq::empty()
    }
}

/// The task that sends telemetry.
pub open spec fn telemetry_task() -> TaskView {
    TaskView { name: "telemetry"@, group: None, essential: false, blocking: false }
}

/// The task that runs the offchain workers.
pub open spec fn offchain_task() -> TaskView {
    TaskView {
        name: "offchain-workers-runner"@,
        group: Some("offchain-work"@),
        essential: false,
        blocking: false,
    }
}

/// The task that reports the measured hardware to telemetry.
pub open spec fn hwbench_telemetry_task() -> TaskView {
    TaskView { name: "telemetry_hwbench"@, group: None, essential: false, blocking: false }
}

/// The task that finds the other authorities in the network.
pub open spec fn authority_discovery_task() -> TaskView {
    TaskView {
        name: "authority-discovery-worker"@,
        group: Some("networking"@),
        essential: false,
        blocking: false,
    }
}

/// The slot-based authoring loop.
pub open spec fn authoring_task() -> TaskView {
    TaskView {
        name: "babe-proposer"@,
        group: Some("block-authoring"@),
        essential: true,
        blocking: true,
    }
}

/// The finality-voting loop.
pub open spec fn voter_task() -> TaskView {
    TaskView { name: "grandpa-voter"@, group: None, essential: true, blocking: true }
}

/// A supervisor that runs exactly `tasks`, spawned in this order.
pub open spec fn running(tasks: Seq<TaskView>) -> SupervisorView {
    SupervisorView {
        tasks,
        status: Seq::new(tasks.len(), |i: int| TaskStatus::Running),
        shutting_down: false,
    }
}

proof fn lemma_running_spawned(tasks: Seq<TaskView>, task: TaskView)
    ensures
        running(tasks).spawned(task) == running(tasks.push(task)),
{
    assert(running(tasks).spawned(task).status =~= running(tasks.push(task)).status);
}

/// The tasks that the partial components bring with them.
pub open spec fn partial_tasks(config: &Configuration) -> Seq<TaskView> {
    when(config.wants_telemetry(), telemetry_task())
}

/// The parts of the node that exist before the network does.
#[derive(Debug)]
pub struct PartialComponents {
    pub task_manager: Supervisor,
    /// The import pipeline: the slot-authoring check around the
    /// finality-safety check around the commit.
    pub import_pipeline: ImportPipeline,
    pub select_chain: SelectChain,
    /// Whether telemetry is sent.
    pub telemetry: bool,
    /// Number of blocks between two justifications.
    pub justification_period: u32,
    /// Whether the transaction pool serves an authority.
    pub pool_for_authority: bool,
}

/// Spawns the task if it is wanted.
fn spawn_if(
    task_manager: &mut Supervisor,
    wanted: bool,
    name: &str,
    group: Option<&str>,
    essential: bool,
    blocking: bool,
    Ghost(tasks): Ghost<Seq<TaskView>>,
)
    requires
        old(task_manager)@ == running(tasks),
        tasks.len() <= usize::MAX,
    ensures
        final(task_manager)@ == running(
            tasks + when(
                wanted,
                TaskView {
                    name: name@,
                    group: match group {
                        Some(g) => Some(g@),
                        None => None,
                    },
                    essential,
                    blocking,
                },
            ),
        ),
        final(task_manager)@.tasks.len() <= usize::MAX,
{
    let ghost task = TaskView {
        name: name@,
        group: match group {
            Some(g) => Some(g@),
            None => None,
        },
        essential,
        blocking,
    };
    if wanted {
        task_manager.spawn(name, group, essential, blocking);
        proof {
            lemma_running_spawned(tasks, task);
            assert(tasks + when(wanted, task) =~= tasks.push(task));
        }
    } else {
        proof {
            assert(tasks + when(wanted, task) =~= tasks);
        }
    }
}

/// Builds the parts of the node that exist before the network does.
///
/// The supervisor starts with the telemetry task, if telemetry is wanted,
/// and with nothing else.  The import pipeline starts over a store that
/// holds the genesis block alone.  The head of the chain is chosen by the
/// longest-chain rule.
pub fn new_partial(config: &Configuration) -> (parts: PartialComponents)
    ensures
        parts.telemetry == config.wants_telemetry(),
        parts.task_manager@ == running(partial_tasks(config)),
        parts.task_manager@.wf(),
        parts.import_pipeline@.wf(),
        parts.import_pipeline@.blocks == seq![
            Block { hash: config.genesis_hash, number: 0, parent: None },
        ],
        parts.import_pipeline@.notifications.len() == 0,
        parts.import_pipeline@.known_bad.len() == 0,
        parts.import_pipeline@.subscribers.len() == 0,
        parts.import_pipeline@.best == 0,
        parts.import_pipeline@.finalized == 0,
        parts.select_chain == SelectChain::LongestChain,
        parts.justification_period == GRANDPA_JUSTIFICATION_PERIOD,
        parts.pool_for_authority == config.is_validator(),
{
    let telemetry = match &config.telemetry_endpoints {
        Some(endpoints) => endpoints.len() > 0,
        None => false,
    };
    let mut task_manager = Supervisor::new();
    proof {
        assert(task_manager@.tasks =~= Seq::<TaskView>::empty());
        assert(task_manager@.status =~= running(Seq::<TaskView>::empty()).status);
    }
    spawn_if(&mut task_manager, telemetry, "telemetry", None, false, false, Ghost(Seq::empty()));
    proof {
        assert(Seq::<TaskView>::empty() + partial_tasks(config) =~= partial_tasks(config));
    }
    PartialComponents {
        task_manager,
        import_pipeline: ImportPipeline::new(config.genesis_hash),
        select_chain: SelectChain::LongestChain,
        telemetry,
        justification_period: GRANDPA_JUSTIFICATION_PERIOD,
        pool_for_authority: config.role.is_authority(),
    }
}

/// The work that is done outside while the node starts, step by step.
#[derive(Clone, Copy, Debug, PartialEq, Eq, Structural)]
pub enum StartupStep {
    /// Build client, backend, transaction pool and import queue.
    BuildComponents,
    /// Measure the hardware on the disk of the database.
    GatherHardwareBenchmark,
    /// Build the network with the gossip protocol of the finality gadget
    /// and the provider of warp-sync proofs.
    BuildNetwork,
    SpawnOffchainWorkers,
    /// Spawn the tasks that every node has, the RPC servers among them.
    SpawnCoreTasks,
    /// Print what was measured and hold it against what a validator needs.
    ReportHardwareBenchmark,
    SpawnHardwareTelemetry,
    /// Watch the free space on the disk of the database.
    SpawnStorageMonitor,
    StartAuthorityDiscovery,
    StartBlockAuthoring,
    StartFinalityVoter,
    StartNetwork,
}

/// The steps of the start of a node, in the order in which they are taken.
/// A step that fails ends the start: none of the later ones is taken.
pub open spec fn startup_steps(config: &Configuration, no_hardware_benchmarks: bool) -> Seq<
    StartupStep,
> {
    let hwbench = config.wants_hwbench(no_hardware_benchmarks);
    seq![StartupStep::BuildComponents] + when(hwbench, StartupStep::GatherHardwareBenchmark)
        + seq![StartupStep::BuildNetwork] + when(
        config.offchain_worker_enabled,
        StartupStep::SpawnOffchainWorkers,
    ) + seq![StartupStep::SpawnCoreTasks] + when(hwbench, StartupStep::ReportHardwareBenchmark)
        + when(hwbench && config.wants_telemetry(), StartupStep::SpawnHardwareTelemetry) + when(
        config.database_path is Some,
        StartupStep::SpawnStorageMonitor,
    ) + when(config.is_validator(), StartupStep::StartAuthorityDiscovery) + when(
        config.is_validator(),
        StartupStep::StartBlockAuthoring,
    ) + when(config.wants_grandpa(), StartupStep::StartFinalityVoter)
        + seq![StartupStep::StartNetwork]
}

/// The tasks of a node that has started, in the order in which they were
/// spawned.  The authoring loop and the finality-voting loop are
/// essential; everything else is best-effort.
pub open spec fn node_tasks(config: &Configuration, no_hardware_benchmarks: bool) -> Seq<TaskView> {
    partial_tasks(config) + when(config.offchain_worker_enabled, offchain_task()) + when(
        config.wants_hwbench(no_hardware_benchmarks) && config.wants_telemetry(),
        hwbench_telemetry_task(),
    ) + when(config.is_validator(), authority_discovery_task()) + when(
        config.is_validator(),
        authoring_task(),
    ) + when(config.wants_grandpa(), voter_task())
}

/// How the offchain workers run.
#[derive(Clone, Copy, Debug, PartialEq, Eq, Structural)]
pub struct OffchainConfig {
    pub is_validator: bool,
    pub enable_http_requests: bool,
}

/// How the slot-based authoring loop runs.
#[derive(Clone, Copy, Debug, PartialEq, Eq, Structural)]
pub struct AuthoringConfig {
    pub force_authoring: bool,
    /// Whether authoring backs off while the finalized head lags.
    pub backoff_authoring_blocks: bool,
    /// The part of a slot that a proposal may take, as a fraction.
    pub slot_portion_numerator: u32,
    pub slot_portion_denominator: u32,
    /// Whether the authority discovery publishes addresses that are not
    /// global.
    pub publish_non_global_ips: bool,
}

/// How the finality-voting loop runs.
#[derive(Debug, PartialEq, Eq)]
pub struct GrandpaConfig {
    pub gossip_duration_millis: u64,
    pub justification_generation_period: u32,
    pub name: String,
    pub observer_enabled: bool,
    /// Whether the voter is given the keystore: only an authority signs.
    pub with_keystore: bool,
    pub local_role: Role,
}

/// A node that has started.
#[derive(Debug)]
pub struct Service {
    pub task_manager: Supervisor,
    pub import_pipeline: ImportPipeline,
    pub select_chain: SelectChain,
    /// The work to do outside, in order.
    pub steps: Vec<StartupStep>,
    pub telemetry: bool,
    /// Whether the hardware is measured.
    pub hwbench: bool,
    pub offchain: Option<OffchainConfig>,
    /// The authoring loop, if the node is a validator.
    pub authoring: Option<AuthoringConfig>,
    /// The finality-voting loop, if the node takes part in it.
    pub grandpa: Option<GrandpaConfig>,
}

/// Whether `service` is the node that `config` calls for: the steps and
/// the tasks in their order, the pipeline over the genesis block alone,
/// and the settings of the offchain workers, the authoring loop and the
/// finality-voting loop, each of them if and only if it is called for.
pub open spec fn composed(
    service: &Service,
    config: &Configuration,
    no_hardware_benchmarks: bool,
) -> bool {
    &&& service.steps@ == startup_steps(config, no_hardware_benchmarks)
    &&& service.task_manager@ == running(node_tasks(config, no_hardware_benchmarks))
    &&& service.task_manager@.wf()
    &&& service.telemetry == config.wants_telemetry()
    &&& service.hwbench == config.wants_hwbench(no_hardware_benchmarks)
    &&& service.select_chain == SelectChain::LongestChain
    &&& service.import_pipeline@.wf()
    &&& service.import_pipeline@.blocks == seq![
        Block { hash: config.genesis_hash, number: 0, parent: None },
    ]
    &&& service.import_pipeline@.notifications.len() == 0
    &&& service.import_pipeline@.known_bad.len() == 0
    &&& service.import_pipeline@.subscribers.len() == 0
    &&& service.import_pipeline@.best == 0
    &&& service.import_pipeline@.finalized == 0
    &&& service.offchain == if config.offchain_worker_enabled {
        Some(
            OffchainConfig { is_validator: config.is_validator(), enable_http_requests: false },
        )
    } else {
        None
    }
    &&& service.authoring == if config.is_validator() {
        Some(
            AuthoringConfig {
                force_authoring: config.force_authoring,
                backoff_authoring_blocks: true,
                slot_portion_numerator: 2,
                slot_portion_denominator: 3,
                publish_non_global_ips: config.allow_non_globals_in_dht,
            },
        )
    } else {
        None
    }
    &&& service.grandpa is Some == config.wants_grandpa()
    &&& service.grandpa is Some ==> {
        &&& service.grandpa->0.gossip_duration_millis == GRANDPA_GOSSIP_DURATION_MILLIS
        &&& service.grandpa->0.justification_generation_period == GRANDPA_JUSTIFICATION_PERIOD
        &&& service.grandpa->0.name@ == config.node_name@
        &&& !service.grandpa->0.observer_enabled
        &&& service.grandpa->0.with_keystore == config.is_validator()
        &&& service.grandpa->0.local_role == config.role
    }
}

/// Appends the step if it is wanted.
fn push_if(steps: &mut Vec<StartupStep>, wanted: bool, step: StartupStep)
    ensures
        final(steps)@ == old(steps)@ + when(wanted, step),
{
    if wanted {
        steps.push(step);
        assert(steps@ =~= old(steps)@ + when(wanted, step));
    } else {
        assert(steps@ =~= old(steps)@ + when(wanted, step));
    }
}

/// Hands the two tasks of a validator to the supervisor, the authority
/// discovery and then the authoring loop, and says how the loop runs.
fn start_consensus(
    task_manager: &mut Supervisor,
    config: &Configuration,
    Ghost(tasks): Ghost<Seq<TaskView>>,
) -> (authoring: AuthoringConfig)
    requires
        old(task_manager)@ == running(tasks),
        tasks.len() <= usize::MAX,
    ensures
        final(task_manager)@ == running(
            tasks + seq![authority_discovery_task()] + seq![authoring_task()],
        ),
        final(task_manager)@.tasks.len() <= usize::MAX,
        authoring == (AuthoringConfig {
            force_authoring: config.force_authoring,
            backoff_authoring_blocks: true,
            slot_portion_numerator: 2,
            slot_portion_denominator: 3,
            publish_non_global_ips: config.allow_non_globals_in_dht,
        }),
{
    spawn_if(
        task_manager,
        true,
        "authority-discovery-worker",
        Some("networking"),
        false,
        false,
        Ghost(tasks),
    );
    spawn_if(
        task_manager,
        true,
        "babe-proposer",
        Some("block-authoring"),
        true,
        true,
        Ghost(tasks + seq![authority_discovery_task()]),
    );
    AuthoringConfig {
        force_authoring: config.force_authoring,
        backoff_authoring_blocks: true,
        slot_portion_numerator: 2,
        slot_portion_denominator: 3,
        publish_non_global_ips: config.allow_non_globals_in_dht,
    }
}

/// The steps of the start of a node, in order.
fn plan_steps(config: &Configuration, no_hardware_benchmarks: bool) -> (steps: Vec<StartupStep>)
    ensures
        steps@ == startup_steps(config, no_hardware_benchmarks),
{
    let telemetry = match &config.telemetry_endpoints {
        Some(endpoints) => endpoints.len() > 0,
        None => false,
    };
    let hwbench = !no_hardware_benchmarks && config.database_path.is_some();
    let validator = config.role.is_authority();
    let mut steps: Vec<StartupStep> = Vec::new();
    steps.push(StartupStep::BuildComponents);
    assert(steps@ =~= seq![StartupStep::BuildComponents]);
    push_if(&mut steps, hwbench, StartupStep::GatherHardwareBenchmark);
    let ghost s1 = steps@;
    steps.push(StartupStep::BuildNetwork);
    assert(steps@ =~= s1 + seq![StartupStep::BuildNetwork]);
    push_if(&mut steps, config.offchain_worker_enabled, StartupStep::SpawnOffchainWorkers);
    let ghost s2 = steps@;
    steps.push(StartupStep::SpawnCoreTasks);
    assert(steps@ =~= s2 + seq![StartupStep::SpawnCoreTasks]);
    push_if(&mut steps, hwbench, StartupStep::ReportHardwareBenchmark);
    push_if(&mut steps, hwbench && telemetry, StartupStep::SpawnHardwareTelemetry);
    push_if(&mut steps, config.database_path.is_some(), StartupStep::SpawnStorageMonitor);
    push_if(&mut steps, validator, StartupStep::StartAuthorityDiscovery);
    push_if(&mut steps, validator, StartupStep::StartBlockAuthoring);
    push_if(&mut steps, !config.disable_grandpa, StartupStep::StartFinalityVoter);
    let ghost s3 = steps@;
    steps.push(StartupStep::StartNetwork);
    assert(steps@ =~= s3 + seq![StartupStep::StartNetwork]);
    steps
}

/// Composes a node from its configuration.
///
/// The answer holds the supervisor with every task of the node spawned in
/// order, the import pipeline, the steps to take outside, and how the
/// offchain workers, the authoring loop and the finality-voting loop run,
/// for each of them that the configuration calls for.
pub fn start_node_impl(config: &Configuration, no_hardware_benchmarks: bool) -> (service: Service)
    ensures
        composed(&service, config, no_hardware_benchmarks),
{
    let parts = new_partial(config);
    let mut task_manager = parts.task_manager;
    let telemetry = parts.telemetry;
    let hwbench = !no_hardware_benchmarks && config.database_path.is_some();
    let validator = config.role.is_authority();
    let enable_grandpa = !config.disable_grandpa;
    let steps = plan_steps(config, no_hardware_benchmarks);

    let ghost t0 = partial_tasks(config);
    spawn_if(
        &mut task_manager,
        config.offchain_worker_enabled,
        "offchain-workers-runner",
        Some("offchain-work"),
        false,
        false,
        Ghost(t0),
    );
    let ghost t1 = t0 + when(config.offchain_worker_enabled, offchain_task());
    let offchain = if config.offchain_worker_enabled {
        Some(OffchainConfig { is_validator: validator, enable_http_requests: false })
    } else {
        None
    };
    spawn_if(
        &mut task_manager,
        hwbench && telemetry,
        "telemetry_hwbench",
        None,
        false,
        false,
        Ghost(t1),
    );
    let ghost t2 = t1 + when(hwbench && telemetry, hwbench_telemetry_task());
    let authoring = if validator {
        Some(start_consensus(&mut task_manager, config, Ghost(t2)))
    } else {
        None
    };
    let ghost t3 = t2 + when(validator, authority_discovery_task()) + when(
        validator,
        authoring_task(),
    );
    proof {
        if !validator {
            assert(t2 + Seq::<TaskView>::empty() =~= t2);
        }
    }
    spawn_if(&mut task_manager, enable_grandpa, "grandpa-voter", None, true, true, Ghost(t3));
    let grandpa = if enable_grandpa {
        Some(
            GrandpaConfig {
                gossip_duration_millis: GRANDPA_GOSSIP_DURATION_MILLIS,
                justification_generation_period: GRANDPA_JUSTIFICATION_PERIOD,
                name: config.node_name.clone(),
                observer_enabled: false,
                with_keystore: validator,
                local_role: config.role,
            },
        )
    } else {
        None
    };
    Service {
        task_manager,
        import_pipeline: parts.import_pipeline,
        select_chain: parts.select_chain,
        steps,
        telemetry,
        hwbench,
        offchain,
        authoring,
        grandpa,
    }
}

/// Starts a node on the peer-to-peer layer that the configuration names.
/// Only `Libp2p` is served.
pub fn start_node(config: &Configuration, no_hardware_benchmarks: bool) -> (service: Service)
    requires
        config.network_backend == NetworkBackendType::Libp2p,
    ensures
        composed(&service, config, no_hardware_benchmarks),
{
    start_node_impl(config, no_hardware_benchmarks)
}

} // verus!
