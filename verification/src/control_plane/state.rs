use vstd::hash_map::StringHashMap;
use vstd::prelude::*;

use super::circuit_breaker::CircuitBreaker;
use super::registry::{ModuleRegistry, StoredModule};
use crate::clock::{may_be_nanos_since, may_be_nanos_since_last, may_be_seed, nanos_since_last, subsecond_nanos};
use crate::common::types::TaskResultView;
use crate::common::{NodeInfo, TaskResult};
use crate::table::KeyedTable;

verus! {

/// The state that the control plane's handlers share.
pub struct AppState {
    /// Registered edge nodes keyed by node id.
    pub nodes: KeyedTable<NodeInfo>,
    /// Completed task results keyed by task id.
    pub tasks: StringHashMap<TaskResult>,
    /// Cursor for the round-robin scheduler.
    pub scheduler_index: usize,
    /// Registered WASM modules served to edge nodes.
    pub module_registry: ModuleRegistry,
    /// Public base URL of this control plane (used to construct fetch URLs).
    pub self_url: String,
    /// Per-node circuit breakers, keyed by node id.
    pub circuit_breakers: KeyedTable<CircuitBreaker>,
    /// Active scheduling strategy: `"round_robin"` or `"least_loaded"`.
    pub scheduling_strategy: String,
    pub total_submitted: u64,
    pub total_success: u64,
    pub total_failed: u64,
    /// Tasks that were retried at least once.
    pub total_retried: u64,
    /// Tasks currently queued waiting for node capacity.
    pub queued: usize,
}

/// What an [`AppState`] holds.
pub struct AppView {
    pub nodes: Seq<(Seq<char>, NodeInfo)>,
    pub tasks: Map<Seq<char>, TaskResultView>,
    pub scheduler_index: usize,
    pub modules: Seq<(Seq<char>, StoredModule)>,
    pub self_url: Seq<char>,
    pub breakers: Seq<(Seq<char>, CircuitBreaker)>,
    pub strategy: Seq<char>,
    pub total_submitted: u64,
    pub total_success: u64,
    pub total_failed: u64,
    pub total_retried: u64,
    pub queued: usize,
}

/// What stored task results say.
pub open spec fn results_of(tasks: Map<Seq<char>, TaskResult>) -> Map<Seq<char>, TaskResultView> {
    tasks.map_values(|r: TaskResult| r@)
}

impl View for AppState {
    type V = AppView;

    open spec fn view(&self) -> AppView {
        AppView {
            nodes: self.nodes@,
            tasks: results_of(self.tasks@),
            scheduler_index: self.scheduler_index,
            modules: self.module_registry@,
            self_url: self.self_url@,
            breakers: self.circuit_breakers@,
            strategy: self.scheduling_strategy@,
            total_submitted: self.total_submitted,
            total_success: self.total_success,
            total_failed: self.total_failed,
            total_retried: self.total_retried,
            queued: self.queued,
        }
    }
}

/// Clock readings on which scheduling decisions rest.
pub struct ClockReadings {
    /// For each circuit breaker, in the table's order, the nanoseconds since
    /// its last failure.
    pub since_failure: Vec<u128>,
    /// A number that decides between nodes with equal load.
    pub seed: usize,
}

/// Whether `since` can be what the clock says for each circuit breaker: the
/// nanoseconds since its last failure, zero for one without a failure.
pub open spec fn fits_breakers(since: Seq<u128>, breakers: Seq<(Seq<char>, CircuitBreaker)>) -> bool {
    &&& since.len() == breakers.len()
    &&& forall|i: int|
        0 <= i < breakers.len() ==> may_be_nanos_since_last((#[trigger] breakers[i]).1.last_failure, since[i])
}

impl AppState {
    /// No key occurs twice, nodes are keyed by their ids, and the module
    /// registry is valid.
    pub open spec fn wf(&self) -> bool {
        &&& self.nodes.wf()
        &&& self.circuit_breakers.wf()
        &&& self.module_registry.wf()
        &&& keyed_by_id(self@.nodes)
    }

    /// Whether every counter can still be increased.
    pub open spec fn can_count(&self) -> bool {
        &&& self.total_submitted < u64::MAX
        &&& self.total_success < u64::MAX
        &&& self.total_failed < u64::MAX
        &&& self.total_retried < u64::MAX
        &&& self.queued < usize::MAX
        &&& forall|i: int| 0 <= i < self@.breakers.len() ==> (#[trigger] self@.breakers[i]).1.failure_count < u32::MAX
    }

    /// Whether every counter can still be increased.
    pub fn counters_have_room(&self) -> (room: bool)
        ensures
            room == self.can_count(),
    {
        if self.total_submitted == u64::MAX || self.total_success == u64::MAX || self.total_failed == u64::MAX
            || self.total_retried == u64::MAX || self.queued == usize::MAX {
            return false;
        }
        let mut i: usize = 0;
        while i < self.circuit_breakers.len()
            invariant
                i <= self.circuit_breakers@.len(),
                forall|j: int| 0 <= j < i ==> (#[trigger] self.circuit_breakers@[j]).1.failure_count < u32::MAX,
            decreases self.circuit_breakers@.len() - i,
        {
            if self.circuit_breakers.value_at(i).failure_count == u32::MAX {
                assert(!(self@.breakers[i as int].1.failure_count < u32::MAX));
                return false;
            }
            i = i + 1;
        }
        true
    }

    /// Reads the clocks for a scheduling decision.
    pub fn read_clock(&self) -> (readings: ClockReadings)
        ensures
            fits_breakers(readings.since_failure@, self@.breakers),
            may_be_seed(readings.seed),
    {
        let mut since_failure: Vec<u128> = Vec::new();
        let mut i: usize = 0;
        while i < self.circuit_breakers.len()
            invariant
                i <= self.circuit_breakers@.len(),
                since_failure@.len() == i,
                forall|j: int|
                    0 <= j < i ==> may_be_nanos_since_last(
                        (#[trigger] self.circuit_breakers@[j]).1.last_failure,
                        since_failure@[j],
                    ),
            decreases self.circuit_breakers@.len() - i,
        {
            let elapsed: u128 = nanos_since_last(&self.circuit_breakers.value_at(i).last_failure);
            since_failure.push(elapsed);
            i = i + 1;
        }
        ClockReadings { since_failure, seed: subsecond_nanos() as usize }
    }
}

/// Whether each node stands under its own id.
pub open spec fn keyed_by_id(nodes: Seq<(Seq<char>, NodeInfo)>) -> bool {
    forall|i: int| 0 <= i < nodes.len() ==> (#[trigger] nodes[i]).0 == nodes[i].1.id@
}

impl Default for AppState {
    fn default() -> (app: Self)
        ensures
            app.wf(),
            app.can_count(),
            app@ == (AppView {
                nodes: Seq::empty(),
                tasks: Map::empty(),
                scheduler_index: 0,
                modules: Seq::empty(),
                self_url: Seq::empty(),
                breakers: Seq::empty(),
                strategy: "round_robin"@,
                total_submitted: 0,
                total_success: 0,
                total_failed: 0,
                total_retried: 0,
                queued: 0,
            }),
    {
        let app = AppState {
            nodes: KeyedTable::new(),
            tasks: StringHashMap::new(),
            scheduler_index: 0,
            module_registry: ModuleRegistry::new(),
            self_url: String::new(),
            circuit_breakers: KeyedTable::new(),
            scheduling_strategy: "round_robin".to_string(),
            total_submitted: 0,
            total_success: 0,
            total_failed: 0,
            total_retried: 0,
            queued: 0,
        };
        assert(app@.tasks =~= Map::<Seq<char>, TaskResultView>::empty());
        assert(app@.self_url =~= Seq::<char>::empty());
        app
    }
}

/// The readings for a scheduling decision are of each breaker's own last failure: what has
/// passed since then, and nothing for a breaker without a failure.
pub proof fn law_readings_are_of_each_breaker(since: Seq<u128>, breakers: Seq<(Seq<char>, CircuitBreaker)>, i: int)
    requires
        fits_breakers(since, breakers),
        0 <= i < breakers.len(),
    ensures
        since.len() == breakers.len(),
        breakers[i].1.last_failure is None ==> since[i] == 0,
        breakers[i].1.last_failure is Some ==> may_be_nanos_since(breakers[i].1.last_failure->0, since[i]),
{
}

/// The shared state is seen as it is.
pub proof fn law_state_is_seen_as_it_is(app: AppState, task: Seq<char>)
    ensures
        app@.nodes == app.nodes@,
        app@.breakers == app.circuit_breakers@,
        app@.modules == app.module_registry@,
        app@.scheduler_index == app.scheduler_index,
        app@.strategy == app.scheduling_strategy@,
        app@.self_url == app.self_url@,
        app@.total_submitted == app.total_submitted,
        app@.total_success == app.total_success,
        app@.total_failed == app.total_failed,
        app@.total_retried == app.total_retried,
        app@.queued == app.queued,
        app@.tasks.dom().contains(task) <==> app.tasks@.dom().contains(task),
        app.tasks@.dom().contains(task) ==> app@.tasks[task] == app.tasks@[task]@,
{
}

} // verus!
