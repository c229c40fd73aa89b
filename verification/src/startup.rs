//! Starting a server: which modules to run, which endpoints to serve, and
//! in which order the surrounding program is to bring everything up.

use vstd::prelude::*;
use crate::api::attach_endpoints;
use crate::api::rejects;
use crate::api::spec_attach;
use crate::api::triples_of;
use crate::api::ApiEndpoint;
use crate::api::RpcModule;
use crate::channel::TRANSACTION_BUFFER;
use crate::config::ConfigError;
use crate::config::ModuleConfig;
use crate::config::ServerConfig;
use crate::config::ServerModuleInit;
use crate::engine::ConsensusEngine;
use crate::engine::EngineState;
use crate::engine::Phase;
use crate::epoch::SignedEpochOutcomeView;
use crate::proposer::proposal_interval_ms;
use crate::proposer::PROPOSAL_INTERVAL_MS;
use crate::proposer::PROPOSAL_INTERVAL_TEST_MS;
use crate::registry::ids_increase;
use crate::registry::ModuleEntry;
use crate::registry::ModuleRegistry;
use crate::types::EpochIndex;
use crate::types::ModuleInstanceId;
use crate::types::ModuleKind;
use crate::types::PeerId;

verus! {

/// Position of the first of `inits` from `start` on that is of kind `kind`.
pub open spec fn find_init(inits: Seq<ServerModuleInit>, kind: Seq<char>, start: int) -> Option<int>
    decreases inits.len() - start,
{
    if start < 0 || start >= inits.len() {
        None
    } else if inits[start].kind@ == kind {
        Some(start)
    } else {
        find_init(inits, kind, start + 1)
    }
}

/// Position of the first of `inits` that is of kind `kind`.
pub fn lookup_init(inits: &Vec<ServerModuleInit>, kind: &ModuleKind) -> (found: Option<usize>)
    ensures
        match found {
            Some(i) => i < inits@.len() && find_init(inits@, kind@, 0) == Some(i as int),
            None => find_init(inits@, kind@, 0) is None,
        },
{
    let mut i: usize = 0;
    while i < inits.len()
        invariant
            i <= inits.len(),
            find_init(inits@, kind@, 0) == find_init(inits@, kind@, i as int),
        decreases inits.len() - i,
    {
        if inits[i].kind.same_as(kind) {
            return Some(i);
        }
        i += 1;
    }
    None
}

/// What is wrong with the `i`-th configured module, if anything: its kind
/// is none that the server can run, or its id was configured before.
pub open spec fn module_fault(modules: Seq<ModuleConfig>, inits: Seq<ServerModuleInit>, i: int) -> Option<ConfigError> {
    if find_init(inits, modules[i].kind@, 0) is None {
        Some(ConfigError::UnsupportedModule { id: modules[i].id })
    } else if exists|j: int| 0 <= j < i && #[trigger] modules[j].id == modules[i].id {
        Some(ConfigError::DuplicateModule { id: modules[i].id })
    } else {
        None
    }
}

/// Whether `registry` holds exactly the first `n` of `modules`, each under
/// its id with its kind.
pub open spec fn holds_modules(registry: ModuleRegistry, modules: Seq<ModuleConfig>, n: int) -> bool {
    &&& registry.wf()
    &&& registry.entries().len() == n
    &&& forall|id: ModuleInstanceId|
        registry.has(id) <==> exists|i: int| 0 <= i < n && #[trigger] modules[i].id == id
    &&& forall|i: int|
        0 <= i < n ==> registry.kind_at(#[trigger] modules[i].id) == modules[i].kind@
}

/// The registry of the configured modules, ordered by instance id.
///
/// Fails on the first configured module, in the order of `modules`, whose
/// kind is not among `inits` or whose id was configured before.
pub fn build_registry(modules: &Vec<ModuleConfig>, inits: &Vec<ServerModuleInit>) -> (res: Result<
    ModuleRegistry,
    ConfigError,
>)
    ensures
        match res {
            Ok(registry) => {
                &&& forall|i: int|
                    0 <= i < modules@.len() ==> module_fault(modules@, inits@, i) is None
                &&& holds_modules(registry, modules@, modules@.len() as int)
            },
            Err(e) => exists|i: int|
                {
                    &&& 0 <= i < modules@.len()
                    &&& #[trigger] module_fault(modules@, inits@, i) == Some(e)
                    &&& forall|j: int| 0 <= j < i ==> module_fault(modules@, inits@, j) is None
                },
        },
{
    let mut registry = ModuleRegistry::new();
    let mut i: usize = 0;
    while i < modules.len()
        invariant
            i <= modules.len(),
            holds_modules(registry, modules@, i as int),
            forall|j: int| 0 <= j < i ==> module_fault(modules@, inits@, j) is None,
        decreases modules.len() - i,
    {
        let id = modules[i].id;
        if lookup_init(inits, &modules[i].kind).is_none() {
            assert(module_fault(modules@, inits@, i as int) == Some(
                ConfigError::UnsupportedModule { id },
            ));
            return Err(ConfigError::UnsupportedModule { id });
        }
        let ghost before = registry;
        let added = registry.insert(id, modules[i].kind.duplicate());
        if !added {
            assert(module_fault(modules@, inits@, i as int) == Some(
                ConfigError::DuplicateModule { id },
            ));
            return Err(ConfigError::DuplicateModule { id });
        }
        proof {
            assert(module_fault(modules@, inits@, i as int) is None);
            assert forall|x: ModuleInstanceId| registry.has(x) <==> exists|k: int|
                0 <= k < i + 1 && #[trigger] modules@[k].id == x by {
                if before.has(x) {
                    let k = choose|k: int| 0 <= k < i && #[trigger] modules@[k].id == x;
                    assert(modules@[k].id == x);
                }
                if x == id {
                    assert(modules@[i as int].id == x);
                }
            }
            assert forall|k: int| 0 <= k < i + 1 implies registry.kind_at(
                #[trigger] modules@[k].id,
            ) == modules@[k].kind@ by {
                if k < i {
                    assert(before.has(modules@[k].id));
                }
            }
        }
        i += 1;
    }
    Ok(registry)
}

/// The endpoints that an instance of kind `kind` serves; none where the
/// kind is unknown.
pub open spec fn endpoints_for(inits: Seq<ServerModuleInit>, kind: Seq<char>) -> Seq<ApiEndpoint> {
    match find_init(inits, kind, 0) {
        Some(i) => inits[i].endpoints@,
        None => Seq::<ApiEndpoint>::empty(),
    }
}

/// The table of endpoints after the server's own endpoints and those of the
/// first `n` of `entries` are registered, in this order; where one of them
/// cannot be registered, the path of the first such endpoint.
pub open spec fn attach_upto(
    server_endpoints: Seq<ApiEndpoint>,
    entries: Seq<ModuleEntry>,
    inits: Seq<ServerModuleInit>,
    n: int,
) -> Result<Seq<(Seq<char>, Option<ModuleInstanceId>, Seq<char>)>, Seq<char>>
    decreases n,
{
    if n <= 0 {
        spec_attach(
            Seq::<(Seq<char>, Option<ModuleInstanceId>, Seq<char>)>::empty(),
            server_endpoints,
            None,
        )
    } else {
        match attach_upto(server_endpoints, entries, inits, n - 1) {
            Ok(table) => spec_attach(
                table,
                endpoints_for(inits, entries[n - 1].kind@),
                Some(entries[n - 1].id),
            ),
            Err(path) => Err(path),
        }
    }
}

/// The endpoints that the consensus API serves: the server's own, then
/// those of each module instance in the order of the registry, served under
/// `module_<id>_<name>`.
///
/// Fails where a path is not acceptable or would be served twice.
pub fn start_consensus_api(
    server_endpoints: &Vec<ApiEndpoint>,
    modules: &ModuleRegistry,
    inits: &Vec<ServerModuleInit>,
) -> (res: Result<RpcModule, ConfigError>)
    ensures
        match res {
            Ok(rpc_module) => rpc_module.wf() && attach_upto(
                server_endpoints@,
                modules.entries(),
                inits@,
                modules.entries().len() as int,
            ) == Ok::<Seq<(Seq<char>, Option<ModuleInstanceId>, Seq<char>)>, Seq<char>>(
                triples_of(rpc_module.methods()),
            ),
            Err(e) => attach_upto(
                server_endpoints@,
                modules.entries(),
                inits@,
                modules.entries().len() as int,
            ) matches Err(path) && rejects(e, path),
        },
{
    let mut rpc_module = RpcModule::new();
    assert(triples_of(rpc_module.methods()) =~= Seq::<
        (Seq<char>, Option<ModuleInstanceId>, Seq<char>),
    >::empty());
    match attach_endpoints(&mut rpc_module, server_endpoints, None) {
        Ok(()) => {},
        Err(e) => {
            proof {
                lemma_attach_stays_failed(
                    server_endpoints@,
                    modules.entries(),
                    inits@,
                    0,
                    modules.entries().len() as int,
                );
            }
            return Err(e);
        },
    }
    let entries = modules.entries_in_order();
    let mut i: usize = 0;
    while i < entries.len()
        invariant
            i <= modules.entries().len(),
            entries@ == modules.entries(),
            rpc_module.wf(),
            attach_upto(server_endpoints@, modules.entries(), inits@, i as int) == Ok::<
                Seq<(Seq<char>, Option<ModuleInstanceId>, Seq<char>)>,
                Seq<char>,
            >(triples_of(rpc_module.methods())),
        decreases modules.entries().len() - i,
    {
        let entry = &entries[i];
        let no_endpoints: Vec<ApiEndpoint> = Vec::new();
        let attached = match lookup_init(inits, &entry.kind) {
            Some(at) => attach_endpoints(&mut rpc_module, &inits[at].endpoints, Some(entry.id)),
            None => attach_endpoints(&mut rpc_module, &no_endpoints, Some(entry.id)),
        };
        match attached {
            Ok(()) => {},
            Err(e) => {
                proof {
                    lemma_attach_stays_failed(
                        server_endpoints@,
                        modules.entries(),
                        inits@,
                        i + 1,
                        modules.entries().len() as int,
                    );
                }
                return Err(e);
            },
        }
        i += 1;
    }
    Ok(rpc_module)
}

/// Once an endpoint could not be registered, no later registration mends it.
pub proof fn lemma_attach_stays_failed(
    server_endpoints: Seq<ApiEndpoint>,
    entries: Seq<ModuleEntry>,
    inits: Seq<ServerModuleInit>,
    failed_at: int,
    n: int,
)
    requires
        0 <= failed_at <= n,
        attach_upto(server_endpoints, entries, inits, failed_at) is Err,
    ensures
        attach_upto(server_endpoints, entries, inits, n) == attach_upto(
            server_endpoints,
            entries,
            inits,
            failed_at,
        ),
    decreases n - failed_at,
{
    if failed_at < n {
        lemma_attach_stays_failed(server_endpoints, entries, inits, failed_at, n - 1);
    }
}

/// One thing that the surrounding program does to bring the server up.
#[derive(Debug, PartialEq, Eq)]
pub enum StartupStep {
    /// Bring the server's own part of the database to its current schema.
    MigrateGlobalDatabase,
    /// Bring the module instance's part of the database from the version
    /// recorded in it to `database_version`.
    MigrateModule { module_instance_id: ModuleInstanceId, kind: ModuleKind, database_version: u64 },
    /// Start the module instance, on its part of the database.
    InitModule {
        module_instance_id: ModuleInstanceId,
        kind: ModuleKind,
        num_peers: u16,
        identity: PeerId,
    },
    /// Open the submission channel.
    OpenSubmissionChannel { capacity: usize },
    /// Serve the consensus API.
    ServeApi,
    /// Start the proposer task of the module instance.
    SpawnProposer { module_instance_id: ModuleInstanceId, kind: ModuleKind, interval_ms: u64 },
    /// Run the consensus engine.
    RunEngine,
}

/// [`StartupStep`], mathematically.
pub enum StartupStepView {
    MigrateGlobalDatabase,
    MigrateModule { module_instance_id: ModuleInstanceId, kind: Seq<char>, database_version: u64 },
    InitModule {
        module_instance_id: ModuleInstanceId,
        kind: Seq<char>,
        num_peers: u16,
        identity: PeerId,
    },
    OpenSubmissionChannel { capacity: usize },
    ServeApi,
    SpawnProposer { module_instance_id: ModuleInstanceId, kind: Seq<char>, interval_ms: u64 },
    RunEngine,
}

impl View for StartupStep {
    type V = StartupStepView;

    open spec fn view(&self) -> StartupStepView {
        match self {
            StartupStep::MigrateGlobalDatabase => StartupStepView::MigrateGlobalDatabase,
            StartupStep::MigrateModule {
                module_instance_id,
                kind,
                database_version,
            } => StartupStepView::MigrateModule {
                module_instance_id: *module_instance_id,
                kind: kind@,
                database_version: *database_version,
            },
            StartupStep::InitModule {
                module_instance_id,
                kind,
                num_peers,
                identity,
            } => StartupStepView::InitModule {
                module_instance_id: *module_instance_id,
                kind: kind@,
                num_peers: *num_peers,
                identity: *identity,
            },
            StartupStep::OpenSubmissionChannel { capacity } => StartupStepView::OpenSubmissionChannel {
                capacity: *capacity,
            },
            StartupStep::ServeApi => StartupStepView::ServeApi,
            StartupStep::SpawnProposer {
                module_instance_id,
                kind,
                interval_ms,
            } => StartupStepView::SpawnProposer {
                module_instance_id: *module_instance_id,
                kind: kind@,
                interval_ms: *interval_ms,
            },
            StartupStep::RunEngine => StartupStepView::RunEngine,
        }
    }
}

/// The views of `steps`, in order.
pub open spec fn step_views(steps: Seq<StartupStep>) -> Seq<StartupStepView> {
    steps.map_values(|s: StartupStep| s@)
}

/// The schema version that instances of kind `kind` expect; 0 where the
/// kind is unknown.
pub open spec fn database_version_for(inits: Seq<ServerModuleInit>, kind: Seq<char>) -> u64 {
    match find_init(inits, kind, 0) {
        Some(i) => inits[i].database_version,
        None => 0,
    }
}

/// Migration and start of each of the first `n` of `entries`, in order.
pub open spec fn module_steps(
    entries: Seq<ModuleEntry>,
    inits: Seq<ServerModuleInit>,
    num_peers: u16,
    identity: PeerId,
    n: int,
) -> Seq<StartupStepView>
    decreases n,
{
    if n <= 0 {
        Seq::<StartupStepView>::empty()
    } else {
        module_steps(entries, inits, num_peers, identity, n - 1).push(
            StartupStepView::MigrateModule {
                module_instance_id: entries[n - 1].id,
                kind: entries[n - 1].kind@,
                database_version: database_version_for(inits, entries[n - 1].kind@),
            },
        ).push(
            StartupStepView::InitModule {
                module_instance_id: entries[n - 1].id,
                kind: entries[n - 1].kind@,
                num_peers,
                identity,
            },
        )
    }
}

/// One proposer task for each of `entries`, in order.
pub open spec fn proposer_steps(entries: Seq<ModuleEntry>, interval_ms: u64) -> Seq<StartupStepView> {
    entries.map_values(
        |e: ModuleEntry|
            StartupStepView::SpawnProposer {
                module_instance_id: e.id,
                kind: e.kind@,
                interval_ms,
            },
    )
}

/// How the server is brought up: the server's own database is migrated;
/// each module instance, in the order of the registry, is migrated and
/// then started; the submission channel is opened; the API is served; one
/// proposer task is started for each module instance; the engine runs.
pub open spec fn spec_startup_steps(
    entries: Seq<ModuleEntry>,
    inits: Seq<ServerModuleInit>,
    num_peers: u16,
    identity: PeerId,
    interval_ms: u64,
) -> Seq<StartupStepView> {
    seq![StartupStepView::MigrateGlobalDatabase] + module_steps(
        entries,
        inits,
        num_peers,
        identity,
        entries.len() as int,
    ) + seq![
        StartupStepView::OpenSubmissionChannel { capacity: TRANSACTION_BUFFER },
        StartupStepView::ServeApi,
    ] + proposer_steps(entries, interval_ms) + seq![StartupStepView::RunEngine]
}

/// The steps that bring the server up; see [`spec_startup_steps`].
pub fn startup_steps(
    cfg: &ServerConfig,
    modules: &ModuleRegistry,
    inits: &Vec<ServerModuleInit>,
    test_env: bool,
) -> (steps: Vec<StartupStep>)
    ensures
        step_views(steps@) == spec_startup_steps(
            modules.entries(),
            inits@,
            cfg.num_peers,
            cfg.identity,
            if test_env {
                PROPOSAL_INTERVAL_TEST_MS
            } else {
                PROPOSAL_INTERVAL_MS
            },
        ),
{
    let ghost entries = modules.entries();
    let ghost first = seq![StartupStepView::MigrateGlobalDatabase];
    let interval_ms = proposal_interval_ms(test_env);
    let mut steps: Vec<StartupStep> = Vec::new();
    steps.push(StartupStep::MigrateGlobalDatabase);
    assert(step_views(steps@) =~= first);
    let listed = modules.entries_in_order();
    let mut i: usize = 0;
    while i < listed.len()
        invariant
            i <= modules.entries().len(),
            entries == modules.entries(),
            listed@ == entries,
            first == seq![StartupStepView::MigrateGlobalDatabase],
            step_views(steps@) == first + module_steps(
                entries,
                inits@,
                cfg.num_peers,
                cfg.identity,
                i as int,
            ),
        decreases modules.entries().len() - i,
    {
        let entry = &listed[i];
        let database_version = match lookup_init(inits, &entry.kind) {
            Some(at) => inits[at].database_version,
            None => 0,
        };
        let migrate = StartupStep::MigrateModule {
            module_instance_id: entry.id,
            kind: entry.kind.duplicate(),
            database_version,
        };
        let init = StartupStep::InitModule {
            module_instance_id: entry.id,
            kind: entry.kind.duplicate(),
            num_peers: cfg.num_peers,
            identity: cfg.identity,
        };
        proof {
            lemma_push_view(steps@, migrate);
            lemma_push_view(steps@.push(migrate), init);
        }
        steps.push(migrate);
        steps.push(init);
        assert(step_views(steps@) =~= first + module_steps(
            entries,
            inits@,
            cfg.num_peers,
            cfg.identity,
            i + 1,
        ));
        i += 1;
    }
    let open_channel = StartupStep::OpenSubmissionChannel { capacity: TRANSACTION_BUFFER };
    proof {
        lemma_push_view(steps@, open_channel);
        lemma_push_view(steps@.push(open_channel), StartupStep::ServeApi);
    }
    steps.push(open_channel);
    steps.push(StartupStep::ServeApi);
    let ghost head = step_views(steps@);
    assert(head =~= first + module_steps(
        entries,
        inits@,
        cfg.num_peers,
        cfg.identity,
        entries.len() as int,
    ) + seq![
        StartupStepView::OpenSubmissionChannel { capacity: TRANSACTION_BUFFER },
        StartupStepView::ServeApi,
    ]);
    let mut k: usize = 0;
    assert(step_views(steps@) =~= head + proposer_steps(entries.subrange(0, 0), interval_ms));
    while k < listed.len()
        invariant
            k <= modules.entries().len(),
            entries == modules.entries(),
            listed@ == entries,
            step_views(steps@) == head + proposer_steps(entries.subrange(0, k as int), interval_ms),
        decreases modules.entries().len() - k,
    {
        let entry = &listed[k];
        let spawn = StartupStep::SpawnProposer {
            module_instance_id: entry.id,
            kind: entry.kind.duplicate(),
            interval_ms,
        };
        proof {
            lemma_push_view(steps@, spawn);
            assert(entries.subrange(0, k + 1) =~= entries.subrange(0, k as int).push(
                entries[k as int],
            ));
            assert(proposer_steps(entries.subrange(0, k + 1), interval_ms) =~= proposer_steps(
                entries.subrange(0, k as int),
                interval_ms,
            ).push(spawn@));
        }
        steps.push(spawn);
        assert(step_views(steps@) =~= head + proposer_steps(
            entries.subrange(0, k + 1),
            interval_ms,
        ));
        k += 1;
    }
    proof {
        assert(entries.subrange(0, k as int) =~= entries);
        lemma_push_view(steps@, StartupStep::RunEngine);
    }
    steps.push(StartupStep::RunEngine);
    steps
}

/// The view of a list of steps with one more step is the view of the list
/// with the view of the step.
proof fn lemma_push_view(steps: Seq<StartupStep>, step: StartupStep)
    ensures
        step_views(steps.push(step)) == step_views(steps).push(step@),
{
    assert(step_views(steps.push(step)) =~= step_views(steps).push(step@));
}

/// Whether `step` starts the proposer task of the module instance `id`.
pub open spec fn spawns_proposer_for(step: StartupStepView, id: ModuleInstanceId) -> bool {
    step matches StartupStepView::SpawnProposer { module_instance_id, .. } && module_instance_id == id
}

/// Migration and start of modules come in pairs, and start no proposer.
pub proof fn lemma_module_steps_shape(
    entries: Seq<ModuleEntry>,
    inits: Seq<ServerModuleInit>,
    num_peers: u16,
    identity: PeerId,
    n: int,
)
    requires
        0 <= n,
    ensures
        module_steps(entries, inits, num_peers, identity, n).len() == 2 * n,
        forall|k: int|
            0 <= k < 2 * n ==> !((#[trigger] module_steps(
                entries,
                inits,
                num_peers,
                identity,
                n,
            )[k]) is SpawnProposer),
    decreases n,
{
    if n > 0 {
        lemma_module_steps_shape(entries, inits, num_peers, identity, n - 1);
    }
}

/// Exactly one proposer task is started for each module instance: among the
/// steps that bring a server up, one and only one starts the proposer task
/// of a given registered instance.
pub proof fn lemma_one_proposer_per_module(
    entries: Seq<ModuleEntry>,
    inits: Seq<ServerModuleInit>,
    num_peers: u16,
    identity: PeerId,
    interval_ms: u64,
    at: int,
)
    requires
        ids_increase(entries),
        0 <= at < entries.len(),
    ensures
        ({
            let steps = spec_startup_steps(entries, inits, num_peers, identity, interval_ms);
            let k = 3 + 2 * entries.len() + at;
            &&& 0 <= k < steps.len()
            &&& spawns_proposer_for(steps[k], entries[at].id)
            &&& forall|other: int|
                0 <= other < steps.len() && other != k ==> !spawns_proposer_for(
                    #[trigger] steps[other],
                    entries[at].id,
                )
        }),
{
    let n = entries.len() as int;
    let steps = spec_startup_steps(entries, inits, num_peers, identity, interval_ms);
    let modules = module_steps(entries, inits, num_peers, identity, n);
    lemma_module_steps_shape(entries, inits, num_peers, identity, n);
    assert(steps.len() == 4 + 3 * n);
    assert forall|other: int| 0 <= other < steps.len() && other != 3 + 2 * n + at implies !spawns_proposer_for(
        #[trigger] steps[other],
        entries[at].id,
    ) by {
        if 1 <= other < 1 + 2 * n {
            assert(steps[other] == modules[other - 1]);
        } else if 3 + 2 * n <= other < 3 + 3 * n {
            let i = other - 3 - 2 * n;
            assert(steps[other] == proposer_steps(entries, interval_ms)[i]);
            if i < at {
                assert(entries[i].id < entries[at].id);
            } else {
                assert(entries[at].id < entries[i].id);
            }
        }
    }
    assert(steps[3 + 2 * n + at] == proposer_steps(entries, interval_ms)[at]);
}

/// What the surrounding program needs to bring the server up.
pub struct StartupPlan {
    /// The endpoints that the consensus API serves.
    pub rpc_module: RpcModule,
    /// What is to be done, in this order. A step that fails ends the start.
    pub steps: Vec<StartupStep>,
}

/// Prepares the start of a server: checks the configured modules against
/// the kinds that the server can run, lays out the API, builds the engine,
/// and says in which order everything is to be brought up.
///
/// `highest_applied` is the high-water mark found in the database.
///
/// Fails on the first configured module whose kind is unknown or whose id is
/// taken; where there is none, fails where an endpoint cannot be registered.
pub fn spawn_api_and_build_engine(
    cfg: &ServerConfig,
    module_init_registry: &Vec<ServerModuleInit>,
    server_endpoints: &Vec<ApiEndpoint>,
    highest_applied: Option<EpochIndex>,
    test_env: bool,
) -> (res: Result<(ConsensusEngine, StartupPlan), ConfigError>)
    ensures
        match res {
            Ok((engine, plan)) => {
                &&& forall|i: int|
                    0 <= i < cfg.modules@.len() ==> module_fault(
                        cfg.modules@,
                        module_init_registry@,
                        i,
                    ) is None
                &&& holds_modules(engine.modules(), cfg.modules@, cfg.modules@.len() as int)
                &&& engine.wf()
                &&& engine.signed()
                &&& engine.epoch_pk() == cfg.epoch_pk@
                &&& engine@ == (EngineState {
                    phase: Phase::Idle,
                    highest_applied,
                    last_ci_by_peer: Map::<PeerId, EpochIndex>::empty(),
                    pending: None,
                    committed: Seq::<SignedEpochOutcomeView>::empty(),
                })
                &&& plan.rpc_module.wf()
                &&& attach_upto(
                    server_endpoints@,
                    engine.modules().entries(),
                    module_init_registry@,
                    engine.modules().entries().len() as int,
                ) == Ok::<Seq<(Seq<char>, Option<ModuleInstanceId>, Seq<char>)>, Seq<char>>(
                    triples_of(plan.rpc_module.methods()),
                )
                &&& step_views(plan.steps@) == spec_startup_steps(
                    engine.modules().entries(),
                    module_init_registry@,
                    cfg.num_peers,
                    cfg.identity,
                    if test_env {
                        PROPOSAL_INTERVAL_TEST_MS
                    } else {
                        PROPOSAL_INTERVAL_MS
                    },
                )
            },
            Err(e) => {
                ||| exists|i: int|
                    {
                        &&& 0 <= i < cfg.modules@.len()
                        &&& #[trigger] module_fault(cfg.modules@, module_init_registry@, i) == Some(
                            e,
                        )
                        &&& forall|j: int|
                            0 <= j < i ==> module_fault(cfg.modules@, module_init_registry@, j)
                                is None
                    }
                ||| {
                    &&& forall|i: int|
                        0 <= i < cfg.modules@.len() ==> module_fault(
                            cfg.modules@,
                            module_init_registry@,
                            i,
                        ) is None
                    &&& exists|registry: ModuleRegistry|
                        {
                            &&& #[trigger] holds_modules(
                                registry,
                                cfg.modules@,
                                cfg.modules@.len() as int,
                            )
                            &&& attach_upto(
                                server_endpoints@,
                                registry.entries(),
                                module_init_registry@,
                                registry.entries().len() as int,
                            ) matches Err(path)
                            &&& rejects(e, path)
                        }
                }
            },
        },
{
    let registry = match build_registry(&cfg.modules, module_init_registry) {
        Ok(registry) => registry,
        Err(e) => {
            return Err(e);
        },
    };
    let rpc_module = match start_consensus_api(server_endpoints, &registry, module_init_registry) {
        Ok(rpc_module) => rpc_module,
        Err(e) => {
            assert(holds_modules(registry, cfg.modules@, cfg.modules@.len() as int));
            return Err(e);
        },
    };
    let steps = startup_steps(cfg, &registry, module_init_registry, test_env);
    let engine = ConsensusEngine::new(cfg.epoch_pk, registry, highest_applied);
    Ok((engine, StartupPlan { rpc_module, steps }))
}

} // verus!
