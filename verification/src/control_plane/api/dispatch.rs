//! The dispatch of one task: scheduling, retries and the recording of its
//! result.
//!
//! A [`Dispatch`] decides; its driver performs. [`Dispatch::schedule`] chooses a
//! node or asks for a pause, the driver calls the node or pauses, and
//! [`Dispatch::handle_reply`] takes the node's reply. This goes on until the
//! task's result is stored.

use std::time::Instant;

use vstd::prelude::*;
use vstd::string::StringExecFns;

use crate::clock::{may_be_now, may_be_seed};
use crate::common::errors::EdgeErrorView;
use crate::common::types::TaskResultView;
use crate::common::{EdgeError, NodeInfo, TaskResult};
use crate::control_plane::circuit_breaker::CircuitBreaker;
use crate::control_plane::scheduler::least_loaded::{least_loaded, select_least_loaded_seeded, with_headroom};
use crate::control_plane::scheduler::round_robin::{in_turn, pick_in_turn};
use crate::control_plane::scheduler::{advanced, candidates};
use crate::control_plane::state::{fits_breakers, AppState, AppView, ClockReadings};
use crate::proto::{ExecuteTaskRequest, ExecuteTaskResponse, RequestView, ResponseView, RpcCode, RpcStatus};
use crate::table::{has_key, key_index, lookup, stored, IdSet, KeyedTable};
use crate::text::same_text;

pub mod laws;

verus! {

/// How often a failed task is tried, and how long to wait in between.
pub struct RetryConfig {
    pub max_attempts: u32,
    pub backoff_ms: u64,
}

/// The failed attempts after which a task is given up.
pub const MAX_ATTEMPTS: u32 = 3;

/// The pause after a failed attempt, in milliseconds.
pub const BACKOFF_MS: u64 = 500;

impl Default for RetryConfig {
    fn default() -> (config: Self)
        ensures
            config.max_attempts == MAX_ATTEMPTS,
            config.backoff_ms == BACKOFF_MS,
    {
        RetryConfig { max_attempts: MAX_ATTEMPTS, backoff_ms: BACKOFF_MS }
    }
}

/// The times that a task is queued for want of a node before it is given up.
pub const MAX_QUEUE_WAITS: u32 = 3;

/// The pause of a queued task, in milliseconds.
pub const QUEUE_WAIT_MS: u64 = 1_000;

/// The times that a task waits for a node at capacity before it is given up.
pub const MAX_CAPACITY_WAITS: u32 = 30;

/// The pause for a node at capacity, in milliseconds.
pub const CAPACITY_WAIT_MS: u64 = 100;

// ── Node selection ─────────────────────────────────────────────────────────

/// The nodes whose circuit breakers let no request pass, given the nanoseconds
/// since each breaker's last failure.
pub open spec fn blocked(breakers: Seq<(Seq<char>, CircuitBreaker)>, since: Seq<u128>) -> Set<Seq<char>> {
    Set::new(
        |id: Seq<char>|
            exists|i: int|
                0 <= i < breakers.len() && (#[trigger] breakers[i]).0 == id && !breakers[i].1.allows(since[i] as int),
    )
}

/// The circuit breakers once that of the chosen node, if it has one, has been
/// asked to let the request pass.
pub open spec fn asked_for(breakers: Seq<(Seq<char>, CircuitBreaker)>, since: Seq<u128>, node: Option<NodeInfo>) -> Seq<
    (Seq<char>, CircuitBreaker),
> {
    match node {
        Some(node) => if has_key(breakers, node.id@) {
            let i = key_index(breakers, node.id@);
            breakers.update(i, (node.id@, breakers[i].1.asked(since[i] as int)))
        } else {
            breakers
        },
        None => breakers,
    }
}

/// The node that a scheduling decision picks: by the configured strategy, among
/// the healthy nodes that were not tried and whose circuits let requests pass.
pub open spec fn chosen(app: AppView, tried: Set<Seq<char>>, since: Seq<u128>, seed: usize) -> Option<NodeInfo> {
    let excluded = tried.union(blocked(app.breakers, since));
    if app.strategy == "least_loaded"@ {
        least_loaded(with_headroom(app.nodes, excluded), seed)
    } else {
        in_turn(candidates(app.nodes, excluded), app.scheduler_index)
    }
}

/// The state after a scheduling decision. Only the circuit breaker of the chosen
/// node and the round-robin cursor change.
pub open spec fn after_choice(app: AppView, tried: Set<Seq<char>>, since: Seq<u128>, seed: usize) -> AppView {
    AppView {
        breakers: asked_for(app.breakers, since, chosen(app, tried, since, seed)),
        scheduler_index: if app.strategy != "least_loaded"@ && chosen(app, tried, since, seed) is Some {
            advanced(app.scheduler_index)
        } else {
            app.scheduler_index
        },
        ..app
    }
}

/// Chooses the node for a task, with the clock readings of this moment.
pub fn select_node_for_task(app: &mut AppState, tried: &IdSet) -> (r: Option<NodeInfo>)
    requires
        old(app).wf(),
    ensures
        final(app).wf(),
        old(app).can_count() ==> final(app).can_count(),
        exists|since: Seq<u128>, seed: usize|
            {
                &&& fits_breakers(since, old(app)@.breakers)
                &&& may_be_seed(seed)
                &&& r == #[trigger] chosen(old(app)@, tried@, since, seed)
                &&& final(app)@ == after_choice(old(app)@, tried@, since, seed)
            },
{
    let readings = app.read_clock();
    let r = select_node_with(app, tried, &readings);
    proof {
        let since = readings.since_failure@;
        let seed = readings.seed;
        assert(r == chosen(old(app)@, tried@, since, seed));
    }
    r
}

/// Chooses the node for a task, with given clock readings.
pub fn select_node_with(app: &mut AppState, tried: &IdSet, readings: &ClockReadings) -> (r: Option<NodeInfo>)
    requires
        old(app).wf(),
        readings.since_failure@.len() == old(app)@.breakers.len(),
    ensures
        final(app).wf(),
        old(app).can_count() ==> final(app).can_count(),
        r == chosen(old(app)@, tried@, readings.since_failure@, readings.seed),
        final(app)@ == after_choice(old(app)@, tried@, readings.since_failure@, readings.seed),
{
    let excluded = excluded_nodes(app, tried, readings);
    let chosen_node = if same_text(app.scheduling_strategy.as_str(), "least_loaded") {
        match select_least_loaded_seeded(&app.nodes, &excluded, readings.seed) {
            Some(node) => Some(node.clone()),
            None => None,
        }
    } else {
        let node = pick_in_turn(&app.nodes, app.scheduler_index, &excluded);
        if node.is_some() {
            app.scheduler_index = app.scheduler_index.wrapping_add(1);
        }
        node
    };
    if let Some(node) = &chosen_node {
        let ghost breakers = app.circuit_breakers@;
        if let Some(i) = app.circuit_breakers.find(node.id.as_str()) {
            let breaker = app.circuit_breakers.value_at_mut(i);
            let _ = breaker.allow_request_after(readings.since_failure[i]);
            proof {
                let after = app.circuit_breakers@;
                let p = key_index(breakers, node.id@);
                assert(0 <= p < breakers.len() && breakers[p].0 == node.id@);
                assert(after =~= asked_for(breakers, readings.since_failure@, chosen_node));
                assert forall|j: int, k: int|
                    0 <= j < after.len() && 0 <= k < after.len() && (#[trigger] after[j]).0 == (#[trigger] after[k]).0 implies j
                    == k by {
                    assert(breakers[j].0 == breakers[k].0);
                }
                assert forall|j: int| old(app).can_count() && 0 <= j < after.len() implies (#[trigger] after[j]).1.failure_count
                    < u32::MAX by {
                    assert(old(app)@.breakers[j].1.failure_count < u32::MAX);
                }
            }
        }
    }
    chosen_node
}

/// The nodes that a scheduling decision leaves out: those that were tried and
/// those whose circuits let no request pass.
fn excluded_nodes(app: &AppState, tried: &IdSet, readings: &ClockReadings) -> (excluded: IdSet)
    requires
        readings.since_failure@.len() == app@.breakers.len(),
    ensures
        excluded@ == tried@.union(blocked(app@.breakers, readings.since_failure@)),
{
    let ghost breakers = app.circuit_breakers@;
    let ghost since = readings.since_failure@;
    let mut excluded = tried.clone();
    let mut i: usize = 0;
    assert(excluded@ =~= tried@.union(blocked(breakers.take(0), since)));
    while i < app.circuit_breakers.len()
        invariant
            breakers == app.circuit_breakers@,
            since == readings.since_failure@,
            since.len() == breakers.len(),
            i <= breakers.len(),
            excluded@ == tried@.union(blocked(breakers.take(i as int), since)),
        decreases breakers.len() - i,
    {
        let allowed = app.circuit_breakers.value_at(i).would_allow(readings.since_failure[i]);
        let ghost head = breakers.take(i as int);
        let ghost longer = breakers.take(i + 1);
        proof {
            assert forall|id: Seq<char>| blocked(longer, since).contains(id) == (blocked(head, since).contains(id) || (!allowed
                && id == breakers[i as int].0)) by {
                if blocked(head, since).contains(id) {
                    let j = choose|j: int| 0 <= j < head.len() && (#[trigger] head[j]).0 == id && !head[j].1.allows(since[j] as int);
                    assert(longer[j] == head[j]);
                }
                if !allowed && id == breakers[i as int].0 {
                    assert(longer[i as int] == breakers[i as int]);
                }
                if blocked(longer, since).contains(id) {
                    let j = choose|j: int| 0 <= j < longer.len() && (#[trigger] longer[j]).0 == id && !longer[j].1.allows(since[j] as int);
                    if j < i {
                        assert(head[j] == longer[j]);
                    }
                }
            }
        }
        if !allowed {
            excluded.insert(app.circuit_breakers.key_at(i).clone());
        }
        assert(excluded@ =~= tried@.union(blocked(longer, since)));
        i = i + 1;
    }
    assert(breakers.take(i as int) =~= breakers);
    excluded
}

// ── State of a dispatch ────────────────────────────────────────────────────

/// What a dispatch waits for.
#[derive(Debug)]
pub enum Phase {
    /// The next scheduling decision.
    Ready,
    /// The next scheduling decision; the task is counted as queued.
    Queued,
    /// The reply of this node.
    Executing(String),
    /// Nothing: the result is stored.
    Done,
}

/// What a [`Phase`] says.
pub enum PhaseView {
    Ready,
    Queued,
    Executing(Seq<char>),
    Done,
}

impl View for Phase {
    type V = PhaseView;

    open spec fn view(&self) -> PhaseView {
        match self {
            Phase::Ready => PhaseView::Ready,
            Phase::Queued => PhaseView::Queued,
            Phase::Executing(node) => PhaseView::Executing(node@),
            Phase::Done => PhaseView::Done,
        }
    }
}

/// The dispatch of one task.
pub struct Dispatch {
    request: ExecuteTaskRequest,
    phase: Phase,
    tried: IdSet,
    no_node_count: u32,
    capacity_waits: u32,
    error_retries: u32,
    retry_counted: bool,
}

/// What a [`Dispatch`] holds.
pub struct DispatchView {
    /// The request that is sent to nodes.
    pub request: RequestView,
    pub phase: PhaseView,
    /// The nodes on which the task failed.
    pub tried: Set<Seq<char>>,
    /// The scheduling decisions that found no node.
    pub no_node_count: int,
    /// The replies from nodes at capacity.
    pub capacity_waits: int,
    /// The failed attempts.
    pub error_retries: int,
    /// Whether the task was counted as retried.
    pub retry_counted: bool,
}

impl View for Dispatch {
    type V = DispatchView;

    closed spec fn view(&self) -> DispatchView {
        DispatchView {
            request: self.request@,
            phase: self.phase@,
            tried: self.tried@,
            no_node_count: self.no_node_count as int,
            capacity_waits: self.capacity_waits as int,
            error_retries: self.error_retries as int,
            retry_counted: self.retry_counted,
        }
    }
}

impl DispatchView {
    /// The counts stay within their limits until the dispatch is done, and the
    /// task was counted as retried only after a failed attempt.
    pub open spec fn valid(self) -> bool {
        &&& 0 <= self.no_node_count <= MAX_QUEUE_WAITS + 1
        &&& 0 <= self.capacity_waits <= MAX_CAPACITY_WAITS + 1
        &&& 0 <= self.error_retries <= MAX_ATTEMPTS
        &&& self.phase !is Done ==> self.no_node_count <= MAX_QUEUE_WAITS && self.capacity_waits <= MAX_CAPACITY_WAITS
            && self.error_retries < MAX_ATTEMPTS
        &&& self.retry_counted ==> self.error_retries > 0
    }

    /// How many more pauses the dispatch can ask for.
    pub open spec fn pauses_left(self) -> int {
        (MAX_QUEUE_WAITS - self.no_node_count) + (MAX_CAPACITY_WAITS - self.capacity_waits) + (MAX_ATTEMPTS - 1
            - self.error_retries)
    }
}

/// What the driver of a dispatch has to do next.
#[derive(Debug)]
pub enum Action {
    /// Send the request to this node and hand over its reply.
    Execute { node_id: String, address: String, request: ExecuteTaskRequest },
    /// Pause for so many milliseconds, then schedule again.
    Wait(u64),
    /// Nothing: the result is stored.
    Finished,
}

/// What an [`Action`] says.
pub enum ActionView {
    Execute { node_id: Seq<char>, address: Seq<char>, request: RequestView },
    Wait(u64),
    Finished,
}

impl View for Action {
    type V = ActionView;

    open spec fn view(&self) -> ActionView {
        match self {
            Action::Execute { node_id, address, request } => ActionView::Execute {
                node_id: node_id@,
                address: address@,
                request: request@,
            },
            Action::Wait(ms) => ActionView::Wait(*ms),
            Action::Finished => ActionView::Finished,
        }
    }
}

/// A step of a dispatch: its next state, the next shared state, and what to do.
pub struct Step {
    pub dispatch: DispatchView,
    pub app: AppView,
    pub action: ActionView,
}

// ── Recording ──────────────────────────────────────────────────────────────

/// The result of a task that succeeded on a node.
pub open spec fn success_result(task: Seq<char>, node: Seq<char>, reply: ResponseView) -> TaskResultView {
    TaskResultView {
        task_id: task,
        node_id: node,
        success: true,
        output: reply.output,
        execution_time_ms: reply.execution_time_ms,
        error: None,
    }
}

/// The result of a task that was given up.
pub open spec fn failure_result(task: Seq<char>, error: Seq<char>) -> TaskResultView {
    TaskResultView {
        task_id: task,
        node_id: "none"@,
        success: false,
        output: Seq::empty(),
        execution_time_ms: 0,
        error: Some(error),
    }
}

/// The state once a task has been given up.
pub open spec fn given_up(app: AppView, task: Seq<char>, error: Seq<char>) -> AppView {
    AppView {
        tasks: app.tasks.insert(task, failure_result(task, error)),
        total_failed: (app.total_failed + 1) as u64,
        ..app
    }
}

/// The circuit breaker of a node; a new one if the node has none yet.
pub open spec fn breaker_of(app: AppView, node: Seq<char>) -> CircuitBreaker {
    match lookup(app.breakers, node) {
        Some(breaker) => breaker,
        None => CircuitBreaker::initial(),
    }
}

/// The state once a failure at `now` has been recorded on the circuit breaker of
/// a node.
pub open spec fn blamed(app: AppView, node: Seq<char>, now: Instant) -> AppView {
    AppView { breakers: stored(app.breakers, node, breaker_of(app, node).failed(now)), ..app }
}

/// The message of a task that was given up after calls to nodes.
pub open spec fn all_failed(reason: Seq<char>) -> Seq<char> {
    "All nodes failed: "@ + reason
}

/// The step that a scheduling decision makes.
pub open spec fn scheduled(d: DispatchView, app: AppView, since: Seq<u128>, seed: usize) -> Step {
    let awake = if d.phase is Queued && app.queued > 0 {
        AppView { queued: (app.queued - 1) as usize, ..app }
    } else {
        app
    };
    let after = after_choice(awake, d.tried, since, seed);
    match chosen(awake, d.tried, since, seed) {
        Some(node) => Step {
            dispatch: DispatchView {
                phase: PhaseView::Executing(node.id@),
                retry_counted: d.error_retries > 0,
                ..d
            },
            app: if d.error_retries > 0 && !d.retry_counted {
                AppView { total_retried: (after.total_retried + 1) as u64, ..after }
            } else {
                after
            },
            action: ActionView::Execute { node_id: node.id@, address: node.address@, request: d.request },
        },
        None => if d.no_node_count < MAX_QUEUE_WAITS {
            Step {
                dispatch: DispatchView { phase: PhaseView::Queued, no_node_count: d.no_node_count + 1, ..d },
                app: AppView { queued: (after.queued + 1) as usize, ..after },
                action: ActionView::Wait(QUEUE_WAIT_MS),
            }
        } else {
            Step {
                dispatch: DispatchView { phase: PhaseView::Done, no_node_count: d.no_node_count + 1, ..d },
                app: given_up(after, d.request.task_id, "no nodes available"@),
                action: ActionView::Finished,
            }
        },
    }
}

/// The reply of a node: its answer, or the kind and the text of the failure of
/// the call.
pub type ReplyView = Result<ResponseView, (RpcCode, Seq<char>)>;

/// What a reply says.
pub open spec fn reply_view(reply: Result<ExecuteTaskResponse, RpcStatus>) -> ReplyView {
    match reply {
        Ok(response) => Ok(response@),
        Err(status) => Err((status.code, status.message@)),
    }
}

/// The step after an attempt that failed on `node` for `reason` at `now`.
pub open spec fn attempt_failed(d: DispatchView, app: AppView, node: Seq<char>, reason: Seq<char>, now: Instant) -> Step {
    let marked = blamed(app, node, now);
    let failed = DispatchView { tried: d.tried.insert(node), error_retries: d.error_retries + 1, ..d };
    if d.error_retries + 1 < MAX_ATTEMPTS {
        Step {
            dispatch: DispatchView { phase: PhaseView::Ready, ..failed },
            app: marked,
            action: ActionView::Wait(BACKOFF_MS),
        }
    } else {
        Step {
            dispatch: DispatchView { phase: PhaseView::Done, ..failed },
            app: given_up(marked, d.request.task_id, all_failed(reason)),
            action: ActionView::Finished,
        }
    }
}

/// The step after an attempt that succeeded on `node`.
pub open spec fn attempt_succeeded(d: DispatchView, app: AppView, node: Seq<char>, response: ResponseView) -> Step {
    Step {
        dispatch: DispatchView { phase: PhaseView::Done, ..d },
        app: AppView {
            breakers: stored(app.breakers, node, breaker_of(app, node).succeeded()),
            tasks: app.tasks.insert(d.request.task_id, success_result(d.request.task_id, node, response)),
            total_success: (app.total_success + 1) as u64,
            ..app
        },
        action: ActionView::Finished,
    }
}

/// The step that the reply of `node` makes.
pub open spec fn replied(d: DispatchView, app: AppView, node: Seq<char>, reply: ReplyView, now: Instant) -> Step {
    match reply {
        Ok(response) => if response.success {
            attempt_succeeded(d, app, node, response)
        } else {
            attempt_failed(d, app, node, response.error, now)
        },
        Err((code, text)) => if code == RpcCode::ResourceExhausted {
            let marked = blamed(app, node, now);
            if d.capacity_waits < MAX_CAPACITY_WAITS {
                Step {
                    dispatch: DispatchView { phase: PhaseView::Ready, capacity_waits: d.capacity_waits + 1, ..d },
                    app: marked,
                    action: ActionView::Wait(CAPACITY_WAIT_MS),
                }
            } else {
                Step {
                    dispatch: DispatchView { phase: PhaseView::Done, capacity_waits: d.capacity_waits + 1, ..d },
                    app: given_up(marked, d.request.task_id, all_failed("all nodes persistently at capacity"@)),
                    action: ActionView::Finished,
                }
            }
        } else {
            attempt_failed(d, app, node, call_failure(code, text), now)
        },
    }
}

/// Why a call failed, as it is stored: bytes that do not have the digest that the
/// registry gives are not the module.
pub open spec fn call_failure(code: RpcCode, text: Seq<char>) -> Seq<char> {
    if code == RpcCode::DataLoss {
        EdgeErrorView::InvalidWasm(text).text()
    } else {
        text
    }
}

/// Why a call failed, as it is stored.
pub fn call_failure_text(status: RpcStatus) -> (text: String)
    ensures
        text@ == call_failure(status.code, status.message@),
{
    if status.code == RpcCode::DataLoss {
        EdgeError::InvalidWasm(status.message).message()
    } else {
        status.message
    }
}

fn record_on_breaker(breakers: &mut KeyedTable<CircuitBreaker>, node: &str, failed_at: Option<Instant>)
    requires
        old(breakers).wf(),
        failed_at is Some ==> (match lookup(old(breakers)@, node@) {
            Some(breaker) => breaker.failure_count < u32::MAX,
            None => true,
        }),
    ensures
        final(breakers).wf(),
        ({
            let before = match lookup(old(breakers)@, node@) {
                Some(breaker) => breaker,
                None => CircuitBreaker::initial(),
            };
            let after = match failed_at {
                Some(now) => before.failed(now),
                None => before.succeeded(),
            };
            final(breakers)@ == stored(old(breakers)@, node@, after)
        }),
{
    match breakers.get_mut(node) {
        Some(breaker) => {
            match failed_at {
                Some(now) => breaker.record_failure_at(now),
                None => breaker.record_success(),
            }
        },
        None => {
            let mut breaker = CircuitBreaker::default();
            match failed_at {
                Some(now) => breaker.record_failure_at(now),
                None => breaker.record_success(),
            }
            breakers.insert(node.to_string(), breaker);
        },
    }
}

fn store_failure(app: &mut AppState, task_id: &String, error: String)
    requires
        old(app).wf(),
        old(app).total_failed < u64::MAX,
    ensures
        final(app).wf(),
        final(app)@ == given_up(old(app)@, task_id@, error@),
{
    let result = TaskResult {
        task_id: task_id.clone(),
        node_id: "none".to_string(),
        success: false,
        output: Vec::new(),
        execution_time_ms: 0,
        error: Some(error),
    };
    let ghost said = result@;
    app.tasks.insert(task_id.clone(), result);
    app.total_failed = app.total_failed + 1;
    proof {
        assert(said.output =~= Seq::<u8>::empty());
        assert(app@.tasks =~= old(app)@.tasks.insert(task_id@, said));
    }
}

impl Dispatch {
    /// Starts the dispatch of the task that `request` describes.
    pub fn begin(app: &mut AppState, request: ExecuteTaskRequest) -> (d: Dispatch)
        requires
            old(app).wf(),
            old(app).total_submitted < u64::MAX,
        ensures
            final(app).wf(),
            final(app)@ == (AppView { total_submitted: (old(app)@.total_submitted + 1) as u64, ..old(app)@ }),
            d@ == (DispatchView {
                request: request@,
                phase: PhaseView::Ready,
                tried: Set::empty(),
                no_node_count: 0,
                capacity_waits: 0,
                error_retries: 0,
                retry_counted: false,
            }),
            d@ == laws::begun(request@),
            final(app).total_submitted == old(app).total_submitted + 1,
    {
        app.total_submitted = app.total_submitted + 1;
        Dispatch {
            request,
            phase: Phase::Ready,
            tried: IdSet::new(),
            no_node_count: 0,
            capacity_waits: 0,
            error_retries: 0,
            retry_counted: false,
        }
    }

    /// The id of the task.
    pub fn task_id(&self) -> (id: &String)
        ensures
            id@ == self@.request.task_id,
    {
        &self.request.task_id
    }

    /// Whether the result is stored.
    pub fn is_done(&self) -> (done: bool)
        ensures
            done == (self@.phase is Done),
    {
        matches!(self.phase, Phase::Done)
    }

    /// Makes a scheduling decision, with the clock readings of this moment.
    pub fn schedule(&mut self, app: &mut AppState) -> (action: Action)
        requires
            old(app).wf(),
            old(app).can_count(),
            old(self)@.valid(),
            old(self)@.phase is Ready || old(self)@.phase is Queued,
        ensures
            final(app).wf(),
            final(self)@.valid(),
            exists|since: Seq<u128>, seed: usize|
                {
                    &&& fits_breakers(since, old(app)@.breakers)
                    &&& may_be_seed(seed)
                    &&& (Step { dispatch: final(self)@, app: final(app)@, action: action@ }) == #[trigger] scheduled(
                        old(self)@,
                        old(app)@,
                        since,
                        seed,
                    )
                },
    {
        let readings = app.read_clock();
        self.schedule_with(app, &readings)
    }

    /// Makes a scheduling decision, with given clock readings.
    pub fn schedule_with(&mut self, app: &mut AppState, readings: &ClockReadings) -> (action: Action)
        requires
            old(app).wf(),
            old(app).can_count(),
            old(self)@.valid(),
            old(self)@.phase is Ready || old(self)@.phase is Queued,
            readings.since_failure@.len() == old(app)@.breakers.len(),
        ensures
            final(app).wf(),
            final(self)@.valid(),
            (Step { dispatch: final(self)@, app: final(app)@, action: action@ }) == scheduled(
                old(self)@,
                old(app)@,
                readings.since_failure@,
                readings.seed,
            ),
    {
        if matches!(self.phase, Phase::Queued) {
            app.queued = app.queued.saturating_sub(1);
        }
        match select_node_with(app, &self.tried, readings) {
            Some(node) => {
                if self.error_retries > 0 && !self.retry_counted {
                    self.retry_counted = true;
                    app.total_retried = app.total_retried + 1;
                }
                let node_id = node.id.clone();
                self.phase = Phase::Executing(node_id.clone());
                Action::Execute { node_id, address: node.address.clone(), request: self.request.clone() }
            },
            None => {
                self.no_node_count = self.no_node_count + 1;
                if self.no_node_count > MAX_QUEUE_WAITS {
                    store_failure(app, &self.request.task_id, "no nodes available".to_string());
                    self.phase = Phase::Done;
                    return Action::Finished;
                }
                app.queued = app.queued + 1;
                self.phase = Phase::Queued;
                Action::Wait(QUEUE_WAIT_MS)
            },
        }
    }

    /// Takes the reply of the node that the task was sent to.
    pub fn handle_reply(&mut self, app: &mut AppState, reply: Result<ExecuteTaskResponse, RpcStatus>) -> (action: Action)
        requires
            old(app).wf(),
            old(app).can_count(),
            old(self)@.valid(),
            old(self)@.phase is Executing,
        ensures
            final(app).wf(),
            final(self)@.valid(),
            exists|now: Instant|
                may_be_now(now) && (Step { dispatch: final(self)@, app: final(app)@, action: action@ }) == #[trigger] replied(
                    old(self)@,
                    old(app)@,
                    old(self)@.phase->Executing_0,
                    reply_view(reply),
                    now,
                ),
    {
        let now = Instant::now();
        self.handle_reply_at(app, reply, now)
    }

    /// Takes the reply of the node that the task was sent to; a failure counts
    /// as one at `now`.
    pub fn handle_reply_at(&mut self, app: &mut AppState, reply: Result<ExecuteTaskResponse, RpcStatus>, now: Instant) -> (action: Action)
        requires
            old(app).wf(),
            old(app).can_count(),
            old(self)@.valid(),
            old(self)@.phase is Executing,
        ensures
            final(app).wf(),
            final(self)@.valid(),
            (Step { dispatch: final(self)@, app: final(app)@, action: action@ }) == replied(
                old(self)@,
                old(app)@,
                old(self)@.phase->Executing_0,
                reply_view(reply),
                now,
            ),
    {
        let node_id = match &self.phase {
            Phase::Executing(node_id) => node_id.clone(),
            _ => String::new(),
        };
        match reply {
            Ok(response) => {
                if response.success {
                    self.store_success(app, node_id, response);
                    Action::Finished
                } else {
                    self.fail_attempt(app, node_id, response.error, now)
                }
            },
            Err(status) => {
                if status.code == RpcCode::ResourceExhausted {
                    record_on_breaker(&mut app.circuit_breakers, node_id.as_str(), Some(now));
                    self.capacity_waits = self.capacity_waits + 1;
                    if self.capacity_waits > MAX_CAPACITY_WAITS {
                        store_failure(
                            app,
                            &self.request.task_id,
                            "All nodes failed: ".to_string().concat("all nodes persistently at capacity"),
                        );
                        self.phase = Phase::Done;
                        return Action::Finished;
                    }
                    self.phase = Phase::Ready;
                    Action::Wait(CAPACITY_WAIT_MS)
                } else {
                    let reason = call_failure_text(status);
                    self.fail_attempt(app, node_id, reason, now)
                }
            },
        }
    }

    fn store_success(&mut self, app: &mut AppState, node_id: String, response: ExecuteTaskResponse)
        requires
            old(app).wf(),
            old(app).can_count(),
            old(self)@.valid(),
            old(self)@.phase is Executing,
            response.success,
        ensures
            final(app).wf(),
            final(self)@.valid(),
            (Step { dispatch: final(self)@, app: final(app)@, action: ActionView::Finished }) == attempt_succeeded(
                old(self)@,
                old(app)@,
                node_id@,
                response@,
            ),
    {
        record_on_breaker(&mut app.circuit_breakers, node_id.as_str(), None);
        let ghost node = node_id@;
        let result = TaskResult {
            task_id: self.request.task_id.clone(),
            node_id,
            success: true,
            output: response.output,
            execution_time_ms: response.execution_time_ms,
            error: None,
        };
        app.tasks.insert(self.request.task_id.clone(), result);
        app.total_success = app.total_success + 1;
        self.phase = Phase::Done;
        assert(app@.tasks =~= old(app)@.tasks.insert(
            self.request.task_id@,
            success_result(self.request.task_id@, node, response@),
        ));
    }

    fn fail_attempt(&mut self, app: &mut AppState, node_id: String, reason: String, now: Instant) -> (action: Action)
        requires
            old(app).wf(),
            old(app).can_count(),
            old(self)@.valid(),
            old(self)@.phase is Executing,
        ensures
            final(app).wf(),
            final(self)@.valid(),
            (Step { dispatch: final(self)@, app: final(app)@, action: action@ }) == attempt_failed(
                old(self)@,
                old(app)@,
                node_id@,
                reason@,
                now,
            ),
    {
        let retry = RetryConfig::default();
        record_on_breaker(&mut app.circuit_breakers, node_id.as_str(), Some(now));
        self.tried.insert(node_id);
        self.error_retries = self.error_retries + 1;
        if self.error_retries >= retry.max_attempts {
            store_failure(app, &self.request.task_id, "All nodes failed: ".to_string().concat(reason.as_str()));
            self.phase = Phase::Done;
            return Action::Finished;
        }
        self.phase = Phase::Ready;
        Action::Wait(retry.backoff_ms)
    }
}

/// What a dispatch says to its driver and of itself is what it holds.
pub proof fn law_dispatch_shows_what_it_holds(action: Action, phase: Phase)
    ensures
        action is Wait ==> action@ == ActionView::Wait(action->Wait_0),
        action is Finished <==> action@ is Finished,
        action is Execute ==> {
            &&& action@ is Execute
            &&& action@->node_id == action->node_id@
            &&& action@->address == action->address@
            &&& action@->request == action->request@
        },
        phase is Executing ==> phase@ == PhaseView::Executing(phase->Executing_0@),
        phase is Ready <==> phase@ is Ready,
        phase is Queued <==> phase@ is Queued,
        phase is Done <==> phase@ is Done,
{
}

} // verus!
