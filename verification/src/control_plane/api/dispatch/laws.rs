//! What holds of every dispatch, whatever the clocks say, whatever the nodes
//! reply, and whatever other tasks do to the shared state in between.

use std::time::Instant;

use vstd::prelude::*;

use super::{
    after_choice, all_failed, blocked, breaker_of, call_failure, chosen, failure_result, replied, scheduled, success_result, ActionView,
    DispatchView, PhaseView, ReplyView, Step,
};
use crate::common::NodeInfo;
use crate::control_plane::circuit_breaker::{CircuitBreaker, CircuitState};
use crate::control_plane::scheduler::least_loaded::{
    law_least_loaded_has_headroom, law_least_loaded_is_least, with_headroom,
};
use crate::control_plane::scheduler::round_robin::{
    law_cursor_moves_on_by_one, law_in_turn_among_fit_nodes, law_selects_only_candidates,
};
use crate::control_plane::scheduler::{candidates, values};
use crate::control_plane::state::AppView;
use crate::proto::{RequestView, RpcCode};
use crate::table::{distinct_keys, has_key, key_index, law_lookup_stored, lemma_key_index, lookup};

verus! {

/// A dispatch that has just begun.
pub open spec fn begun(request: RequestView) -> DispatchView {
    DispatchView {
        request,
        phase: PhaseView::Ready,
        tried: Set::empty(),
        no_node_count: 0,
        capacity_waits: 0,
        error_retries: 0,
        retry_counted: false,
    }
}

/// Something that moves a dispatch on, with the shared state at that moment.
pub enum Event {
    /// A scheduling decision with these clock readings.
    Decide { app: AppView, since: Seq<u128>, seed: usize },
    /// The reply of the node that the task was sent to.
    Reply { app: AppView, reply: ReplyView, now: Instant },
}

impl Event {
    /// Whether the dispatch waits for an event of this kind.
    pub open spec fn possible(self, d: DispatchView) -> bool {
        match self {
            Event::Decide { .. } => d.phase is Ready || d.phase is Queued,
            Event::Reply { .. } => d.phase is Executing,
        }
    }

    /// The shared state before the event.
    pub open spec fn app(self) -> AppView {
        match self {
            Event::Decide { app, .. } => app,
            Event::Reply { app, .. } => app,
        }
    }

    /// The step that the event makes.
    pub open spec fn step(self, d: DispatchView) -> Step {
        match self {
            Event::Decide { app, since, seed } => scheduled(d, app, since, seed),
            Event::Reply { app, reply, now } => replied(d, app, d.phase->Executing_0, reply, now),
        }
    }
}

/// The dispatch after a series of events.
pub open spec fn run(d: DispatchView, events: Seq<Event>) -> DispatchView
    decreases events.len(),
{
    if events.len() == 0 {
        d
    } else {
        let before = run(d, events.drop_last());
        events.last().step(before).dispatch
    }
}

/// Whether each event of the series is one that the dispatch waits for when it
/// comes.
pub open spec fn can_run(d: DispatchView, events: Seq<Event>) -> bool
    decreases events.len(),
{
    events.len() == 0 || (can_run(d, events.drop_last()) && events.last().possible(run(d, events.drop_last())))
}

/// How many times a series of events makes the driver pause.
pub open spec fn pauses(d: DispatchView, events: Seq<Event>) -> int
    decreases events.len(),
{
    if events.len() == 0 {
        0
    } else {
        let action = events.last().step(run(d, events.drop_last())).action;
        pauses(d, events.drop_last()) + if action is Wait { 1int } else { 0int }
    }
}

/// How many times a series of events counts the task as retried.
pub open spec fn retries_counted(d: DispatchView, events: Seq<Event>) -> int
    decreases events.len(),
{
    if events.len() == 0 {
        0
    } else {
        let e = events.last();
        retries_counted(d, events.drop_last()) + (e.step(run(d, events.drop_last())).app.total_retried
            - e.app().total_retried)
    }
}

/// Every step keeps a dispatch valid, and uses up one of its pauses exactly
/// when it asks for a pause. The dispatch is done exactly when the step says
/// that it is finished.
pub proof fn law_each_pause_is_used_up(d: DispatchView, e: Event)
    requires
        d.valid(),
        e.possible(d),
    ensures
        e.step(d).dispatch.valid(),
        e.step(d).action is Finished <==> e.step(d).dispatch.phase is Done,
        e.step(d).action is Wait ==> e.step(d).dispatch.pauses_left() == d.pauses_left() - 1,
        e.step(d).action is Execute ==> e.step(d).dispatch.pauses_left() == d.pauses_left(),
        e.step(d).action is Execute <==> e.step(d).dispatch.phase is Executing,
        e is Reply ==> !(e.step(d).action is Execute),
{
}

/// A dispatch always ends: it makes its driver pause at most 35 times, 3 for
/// want of a node, 30 for nodes at capacity and 2 after failed attempts, and
/// goes through at most 72 events.
pub proof fn law_dispatch_ends(request: RequestView, events: Seq<Event>)
    requires
        can_run(begun(request), events),
    ensures
        run(begun(request), events).valid(),
        pauses(begun(request), events) <= 35,
        events.len() <= 72,
{
    lemma_run(request, events);
}

spec fn budget(d: DispatchView) -> int {
    match d.phase {
        PhaseView::Done => 0,
        PhaseView::Executing(_) => 2 * d.pauses_left() + 1,
        _ => 2 * d.pauses_left() + 2,
    }
}

proof fn lemma_run(request: RequestView, events: Seq<Event>)
    requires
        can_run(begun(request), events),
    ensures
        run(begun(request), events).valid(),
        budget(run(begun(request), events)) + events.len() <= 72,
        budget(run(begun(request), events)) >= 0,
        pauses(begun(request), events) <= 35,
        !(run(begun(request), events).phase is Done) ==> pauses(begun(request), events) + run(
            begun(request),
            events,
        ).pauses_left() == 35,
    decreases events.len(),
{
    if events.len() > 0 {
        let init = events.drop_last();
        lemma_run(request, init);
        law_each_pause_is_used_up(run(begun(request), init), events.last());
    }
}

/// Until it is done, a dispatch leaves the stored results and the counts of
/// finished tasks as they are. The step that ends it stores the result under
/// the task's id and adds one to exactly one of the two counts: to that of
/// successes if the result says so, else to that of failures.
pub proof fn law_each_task_ends_once(d: DispatchView, e: Event)
    requires
        d.valid(),
        e.possible(d),
        e.app().total_success < u64::MAX,
        e.app().total_failed < u64::MAX,
    ensures
        ({
            let before = e.app();
            let after = e.step(d).app;
            &&& after.total_submitted == before.total_submitted
            &&& !(e.step(d).action is Finished) ==> after.tasks == before.tasks && after.total_success
                == before.total_success && after.total_failed == before.total_failed
            &&& e.step(d).action is Finished ==> {
                let result = after.tasks[d.request.task_id];
                &&& after.tasks == before.tasks.insert(d.request.task_id, result)
                &&& after.tasks.dom().contains(d.request.task_id)
                &&& result.task_id == d.request.task_id
                &&& after.total_success == before.total_success + if result.success { 1int } else { 0int }
                &&& after.total_failed == before.total_failed + if result.success { 0int } else { 1int }
                &&& result.success <==> result.error is None
            }
        }),
{
    let before = e.app();
    let after = e.step(d).app;
    if e.step(d).action is Finished {
        assert(after.tasks =~= before.tasks.insert(d.request.task_id, after.tasks[d.request.task_id]));
    }
}

/// Whether the tasks that were submitted are those that succeeded, those that
/// failed and `open` others.
pub open spec fn accounts_for(app: AppView, open: int) -> bool {
    app.total_submitted == app.total_success + app.total_failed + open
}

/// Every task that was submitted is accounted for: it is open from its beginning
/// to the step that ends it, and from then on counts as a success or a failure.
pub proof fn law_every_task_is_accounted_for(d: DispatchView, e: Event, app: AppView, open: int)
    requires
        d.valid(),
        e.possible(d),
        e.app().total_success < u64::MAX,
        e.app().total_failed < u64::MAX,
        accounts_for(e.app(), open),
        accounts_for(app, open),
        app.total_submitted < u64::MAX,
    ensures
        accounts_for(e.step(d).app, if e.step(d).action is Finished { open - 1 } else { open }),
        accounts_for(AppView { total_submitted: (app.total_submitted + 1) as u64, ..app }, open + 1),
{
    law_each_task_ends_once(d, e);
}

/// A task is counted as retried at most once.
pub proof fn law_retry_counted_at_most_once(request: RequestView, events: Seq<Event>)
    requires
        can_run(begun(request), events),
        forall|i: int| 0 <= i < events.len() ==> (#[trigger] events[i]).app().total_retried < u64::MAX,
    ensures
        retries_counted(begun(request), events) == (if run(begun(request), events).retry_counted { 1int } else { 0int }),
    decreases events.len(),
{
    if events.len() > 0 {
        let init = events.drop_last();
        assert forall|i: int| 0 <= i < init.len() implies (#[trigger] init[i]).app().total_retried < u64::MAX by {
            assert(init[i] == events[i]);
        }
        law_retry_counted_at_most_once(request, init);
        lemma_run(request, init);
        assert(events.last() == events[events.len() - 1]);
    }
}

/// A task is only ever sent to a registered node that is healthy, on which it
/// has not failed before and whose circuit lets requests pass.
pub proof fn law_sends_only_to_fit_nodes(d: DispatchView, app: AppView, since: Seq<u128>, seed: usize)
    ensures
        scheduled(d, app, since, seed).action is Execute ==> {
            let id = scheduled(d, app, since, seed).action->node_id;
            &&& !d.tried.contains(id)
            &&& !blocked(app.breakers, since).contains(id)
            &&& exists|i: int|
                0 <= i < app.nodes.len() && (#[trigger] app.nodes[i]).1.id@ == id && app.nodes[i].1.healthy
                    && app.nodes[i].1.address@ == scheduled(d, app, since, seed).action->address
        },
{
    let awake = if d.phase is Queued && app.queued > 0 {
        AppView { queued: (app.queued - 1) as usize, ..app }
    } else {
        app
    };
    let excluded = d.tried.union(blocked(app.breakers, since));
    if let Some(node) = chosen(awake, d.tried, since, seed) {
        let c = candidates(app.nodes, excluded);
        let keep = |n: NodeInfo| n.healthy && !excluded.contains(n.id@);
        assert(c == values(app.nodes).filter(keep));
        if app.strategy == "least_loaded"@ {
            let free = |n: NodeInfo| n.active_tasks < n.max_concurrent_tasks;
            law_least_loaded_is_least(with_headroom(app.nodes, excluded), seed);
            assert(with_headroom(app.nodes, excluded) == c.filter(free));
            c.lemma_filter_contains_rev(free, node);
        } else {
            law_selects_only_candidates(app.nodes, excluded, app.scheduler_index);
            assert(0 <= app.scheduler_index as int % c.len() as int && (app.scheduler_index as int % c.len() as int) < c.len());
            assert(c.contains(node));
        }
        values(app.nodes).lemma_filter_contains_rev(keep, node);
        let k = choose|k: int| 0 <= k < c.len() && c[k] == node;
        values(app.nodes).lemma_filter_pred(keep, k);
        let i = choose|i: int| 0 <= i < values(app.nodes).len() && values(app.nodes)[i] == node;
        assert(app.nodes[i].1 == node);
    }
}

/// A node whose open circuit has let a task pass as a probe gets no other task,
/// whatever the clock says, until the outcome of the probe is recorded.
pub proof fn law_a_probe_is_sent_alone(
    app: AppView,
    tried: Set<Seq<char>>,
    since: Seq<u128>,
    seed: usize,
    later: Seq<u128>,
)
    requires
        distinct_keys(app.breakers),
        chosen(app, tried, since, seed) is Some,
        has_key(app.breakers, chosen(app, tried, since, seed)->0.id@),
        breaker_of(app, chosen(app, tried, since, seed)->0.id@).state == CircuitState::Open,
    ensures
        blocked(after_choice(app, tried, since, seed).breakers, later).contains(chosen(app, tried, since, seed)->0.id@),
{
    let id = chosen(app, tried, since, seed)->0.id@;
    let i = key_index(app.breakers, id);
    assert(0 <= i < app.breakers.len() && app.breakers[i].0 == id);
    let d = DispatchView {
        phase: PhaseView::Ready,
        tried,
        ..begun(
            RequestView {
                task_id: Seq::empty(),
                function_name: Seq::empty(),
                input: Seq::empty(),
                timeout_ms: 0,
                memory_limit_mb: 0,
                trace_id: Seq::empty(),
                source: None,
            },
        )
    };
    law_sends_only_to_fit_nodes(d, app, since, seed);
    assert(!blocked(app.breakers, since).contains(id));
    assert(app.breakers[i].1.allows(since[i] as int));
    let after = after_choice(app, tried, since, seed).breakers;
    assert(after[i].0 == id && !after[i].1.allows(later[i] as int));
}

/// A failed attempt marks its node, so that the task is not sent there again,
/// and counts as a failure in the node's circuit breaker. A node at capacity is
/// not marked, but the reply counts as a failure too.
pub proof fn law_failures_mark_the_node(d: DispatchView, app: AppView, node: Seq<char>, reply: ReplyView, now: Instant)
    requires
        distinct_keys(app.breakers),
    ensures
        ({
            let step = replied(d, app, node, reply, now);
            let at_capacity = reply is Err && reply->Err_0.0 == RpcCode::ResourceExhausted;
            let succeeded = reply is Ok && reply->Ok_0.success;
            &&& at_capacity ==> step.dispatch.tried == d.tried && lookup(step.app.breakers, node) == Some(
                breaker_of(app, node).failed(now),
            )
            &&& succeeded ==> step.dispatch.tried == d.tried && lookup(step.app.breakers, node) == Some(
                breaker_of(app, node).succeeded(),
            )
            &&& !at_capacity && !succeeded ==> step.dispatch.tried == d.tried.insert(node) && lookup(step.app.breakers, node) == Some(
                breaker_of(app, node).failed(now),
            )
        }),
{
    law_lookup_stored(app.breakers, node, breaker_of(app, node).succeeded(), node);
    law_lookup_stored(app.breakers, node, breaker_of(app, node).failed(now), node);
}

/// When the last of three attempts fails the task is given up with the reason
/// of that failure; before, it is tried again after half a second.
pub proof fn law_three_attempts(d: DispatchView, app: AppView, node: Seq<char>, reply: ReplyView, now: Instant)
    requires
        d.valid(),
        d.phase is Executing,
        reply is Ok ==> !reply->Ok_0.success,
        reply is Err ==> reply->Err_0.0 != RpcCode::ResourceExhausted,
    ensures
        ({
            let step = replied(d, app, node, reply, now);
            let reason = match reply {
                Ok(response) => response.error,
                Err((code, text)) => call_failure(code, text),
            };
            if d.error_retries + 1 < 3 {
                step.action == ActionView::Wait(500)
            } else {
                &&& step.action == ActionView::Finished
                &&& step.app.tasks[d.request.task_id] == failure_result(d.request.task_id, all_failed(reason))
            }
        }),
{
}

/// While no node can take it, a task is put off for a second at a time, three
/// times; at the fourth decision it is given up.
pub proof fn law_unschedulable_task(d: DispatchView, app: AppView, since: Seq<u128>, seed: usize)
    requires
        d.valid(),
        d.phase is Ready || d.phase is Queued,
        chosen(app, d.tried, since, seed) is None,
    ensures
        ({
            let step = scheduled(d, app, since, seed);
            if d.no_node_count < 3 {
                &&& step.action == ActionView::Wait(1_000)
                &&& step.dispatch.phase is Queued
                &&& step.dispatch.no_node_count == d.no_node_count + 1
            } else {
                &&& step.action == ActionView::Finished
                &&& step.app.tasks[d.request.task_id] == failure_result(d.request.task_id, "no nodes available"@)
            }
        }),
{
    let awake = AppView { queued: (app.queued - 1) as usize, ..app };
    assert(chosen(awake, d.tried, since, seed) == chosen(app, d.tried, since, seed));
}

/// A node at capacity makes a task wait for a tenth of a second, up to thirty
/// times; then it is given up.
pub proof fn law_node_at_capacity(d: DispatchView, app: AppView, node: Seq<char>, text: Seq<char>, now: Instant)
    requires
        d.valid(),
        d.phase is Executing,
    ensures
        ({
            let step = replied(d, app, node, Err((RpcCode::ResourceExhausted, text)), now);
            if d.capacity_waits < 30 {
                &&& step.action == ActionView::Wait(100)
                &&& step.dispatch.capacity_waits == d.capacity_waits + 1
            } else {
                &&& step.action == ActionView::Finished
                &&& step.app.tasks[d.request.task_id] == failure_result(
                    d.request.task_id,
                    all_failed("all nodes persistently at capacity"@),
                )
            }
        }),
{
}

/// A success is stored as the node gave it.
pub proof fn law_success_is_stored(d: DispatchView, app: AppView, node: Seq<char>, reply: ReplyView, now: Instant)
    requires
        reply is Ok,
        reply->Ok_0.success,
    ensures
        ({
            let step = replied(d, app, node, reply, now);
            &&& step.action == ActionView::Finished
            &&& step.app.tasks[d.request.task_id] == success_result(d.request.task_id, node, reply->Ok_0)
            &&& step.app.tasks[d.request.task_id].task_id == d.request.task_id
            &&& step.app.tasks[d.request.task_id].node_id == node
            &&& step.app.tasks[d.request.task_id].success
            &&& step.app.tasks[d.request.task_id].output == reply->Ok_0.output
            &&& step.app.tasks[d.request.task_id].execution_time_ms == reply->Ok_0.execution_time_ms
            &&& step.app.tasks[d.request.task_id].error is None
        }),
{
}

/// A task counts as queued exactly while it waits for want of a node: the
/// decision that puts it off adds one to the count, and the decision after that
/// takes it off again.
pub proof fn law_queue_count_balances(d: DispatchView, app: AppView, since: Seq<u128>, seed: usize)
    requires
        d.valid(),
        app.queued < usize::MAX,
        d.phase is Queued ==> app.queued > 0,
        d.phase is Ready || d.phase is Queued,
    ensures
        ({
            let step = scheduled(d, app, since, seed);
            let was = if d.phase is Queued { 1int } else { 0int };
            let is = if step.dispatch.phase is Queued { 1int } else { 0int };
            step.app.queued == app.queued - was + is
        }),
{
}

// ── Where a task is sent ───────────────────────────────────────────────────

/// The nodes that a decision has to leave out: those on which the task failed, and
/// those whose circuit is half open, or open and still in its cooldown.
pub open spec fn left_out(breakers: Seq<(Seq<char>, CircuitBreaker)>, since: Seq<u128>, tried: Set<Seq<char>>) -> Set<
    Seq<char>,
> {
    Set::new(
        |id: Seq<char>|
            tried.contains(id) || exists|j: int|
                {
                    &&& 0 <= j < breakers.len()
                    &&& (#[trigger] breakers[j]).0 == id
                    &&& breakers[j].1.state == CircuitState::HalfOpen || (breakers[j].1.state == CircuitState::Open
                        && since[j] < breakers[j].1.cooldown_nanos)
                },
    )
}

/// A decision sends the task, as it was submitted, to a registered node that is
/// healthy, on which it has not failed, and whose circuit is closed or has cooled
/// down; with the strategy `least_loaded` also one that runs fewer tasks than it can,
/// and no more than any other such node. It sends the task nowhere only if there is no
/// such node.
pub proof fn law_decision_finds_a_fit_node(d: DispatchView, app: AppView, since: Seq<u128>, seed: usize)
    ensures
        ({
            let out = left_out(app.breakers, since, d.tried);
            let step = scheduled(d, app, since, seed);
            let by_load = app.strategy == "least_loaded"@;
            match step.action {
                ActionView::Execute { node_id, address, request } => {
                    &&& request == d.request
                    &&& step.dispatch.phase == PhaseView::Executing(node_id)
                    &&& !out.contains(node_id)
                    &&& exists|i: int|
                        {
                            &&& 0 <= i < app.nodes.len()
                            &&& (#[trigger] app.nodes[i]).1.id@ == node_id
                            &&& app.nodes[i].1.address@ == address
                            &&& app.nodes[i].1.healthy
                            &&& by_load ==> app.nodes[i].1.active_tasks < app.nodes[i].1.max_concurrent_tasks
                            &&& by_load ==> forall|k: int|
                                0 <= k < app.nodes.len() && (#[trigger] app.nodes[k]).1.healthy && !out.contains(
                                    app.nodes[k].1.id@,
                                ) && app.nodes[k].1.active_tasks < app.nodes[k].1.max_concurrent_tasks
                                    ==> app.nodes[i].1.active_tasks <= app.nodes[k].1.active_tasks
                        }
                },
                _ => forall|i: int|
                    0 <= i < app.nodes.len() && (#[trigger] app.nodes[i]).1.healthy && !out.contains(app.nodes[i].1.id@)
                        ==> by_load && app.nodes[i].1.active_tasks >= app.nodes[i].1.max_concurrent_tasks,
            }
        }),
{
    let out = left_out(app.breakers, since, d.tried);
    assert(d.tried.union(blocked(app.breakers, since)) =~= out);
    law_least_loaded_has_headroom(app.nodes, out, seed);
    law_in_turn_among_fit_nodes(app.nodes, out, app.scheduler_index);
}

/// With every strategy but `least_loaded` a decision takes the fit nodes in turn: of
/// the registered nodes that are healthy and not left out, in the order in which they
/// were registered, it takes the one whose place is the remainder of the cursor divided
/// by their number, and moves the cursor on by one.
pub proof fn law_decision_takes_nodes_in_turn(d: DispatchView, app: AppView, since: Seq<u128>, seed: usize)
    requires
        app.strategy != "least_loaded"@,
    ensures
        ({
            let out = left_out(app.breakers, since, d.tried);
            let step = scheduled(d, app, since, seed);
            let fit = Seq::new(app.nodes.len(), |i: int| app.nodes[i].1).filter(
                |n: NodeInfo| n.healthy && !out.contains(n.id@),
            );
            &&& step.action is Execute <==> fit.len() > 0
            &&& fit.len() > 0 ==> step.action->node_id == fit[app.scheduler_index as int % fit.len() as int].id@
            &&& fit.len() > 0 ==> step.app.scheduler_index == (if app.scheduler_index < usize::MAX {
                app.scheduler_index + 1
            } else {
                0
            })
            &&& fit.len() == 0 ==> step.app.scheduler_index == app.scheduler_index
        }),
{
    let out = left_out(app.breakers, since, d.tried);
    assert(d.tried.union(blocked(app.breakers, since)) =~= out);
    law_in_turn_among_fit_nodes(app.nodes, out, app.scheduler_index);
    law_cursor_moves_on_by_one(app.scheduler_index);
}

/// With the strategy `least_loaded`, of the nodes that run equally few tasks, in the order
/// in which they were registered, a decision takes the one whose place is the remainder of
/// the seed divided by their number, and leaves the cursor alone.
pub proof fn law_decision_settles_ties_by_the_seed(d: DispatchView, app: AppView, since: Seq<u128>, seed: usize)
    requires
        app.strategy == "least_loaded"@,
    ensures
        ({
            let out = left_out(app.breakers, since, d.tried);
            let step = scheduled(d, app, since, seed);
            &&& step.app.scheduler_index == app.scheduler_index
            &&& step.action is Execute ==> exists|load: usize|
                {
                    let equals = #[trigger] with_load(app.nodes, out, load);
                    equals.len() > 0 && step.action->node_id == equals[seed as int % equals.len() as int].id@
                }
        }),
{
    let out = left_out(app.breakers, since, d.tried);
    assert(d.tried.union(blocked(app.breakers, since)) =~= out);
    law_least_loaded_has_headroom(app.nodes, out, seed);
    let room = with_headroom(app.nodes, out);
    if let Some(node) = crate::control_plane::scheduler::least_loaded::least_loaded(room, seed) {
        let equals = with_load(app.nodes, out, node.active_tasks);
        assert(equals.len() > 0 && node == equals[seed as int % equals.len() as int]);
    }
}

/// The registered nodes that are healthy, not left out and below their capacity, and run so
/// many tasks.
pub open spec fn with_load(nodes: Seq<(Seq<char>, NodeInfo)>, out: Set<Seq<char>>, load: usize) -> Seq<NodeInfo> {
    Seq::new(nodes.len(), |i: int| nodes[i].1).filter(
        |n: NodeInfo|
            n.healthy && !out.contains(n.id@) && n.active_tasks < n.max_concurrent_tasks && n.active_tasks == load,
    )
}

/// Besides the cursor and the counts, a decision changes only the circuit of the node
/// that it sends the task to: an open one becomes half open. It marks no node as tried,
/// and counts the task as retried at its first decision for a node after a failure.
pub proof fn law_decision_leaves_the_rest(d: DispatchView, app: AppView, since: Seq<u128>, seed: usize)
    requires
        distinct_keys(app.breakers),
        app.total_retried < u64::MAX,
    ensures
        ({
            let step = scheduled(d, app, since, seed);
            &&& step.dispatch.request == d.request
            &&& step.dispatch.tried == d.tried
            &&& step.dispatch.error_retries == d.error_retries
            &&& step.dispatch.capacity_waits == d.capacity_waits
            &&& step.dispatch.no_node_count == d.no_node_count + if step.action is Execute { 0int } else { 1int }
            &&& step.app.nodes == app.nodes
            &&& step.app.modules == app.modules
            &&& step.app.self_url == app.self_url
            &&& step.app.strategy == app.strategy
            &&& step.app.total_submitted == app.total_submitted
            &&& step.app.total_success == app.total_success
            &&& step.app.total_retried == app.total_retried + if step.action is Execute && d.error_retries > 0
                && !d.retry_counted { 1int } else { 0int }
            &&& step.action is Execute ==> step.dispatch.retry_counted == (d.error_retries > 0)
            &&& !(step.action is Execute) ==> step.dispatch.retry_counted == d.retry_counted
            &&& step.app.breakers.len() == app.breakers.len()
            &&& forall|j: int|
                0 <= j < app.breakers.len() ==> {
                    let before = #[trigger] app.breakers[j];
                    let after = step.app.breakers[j];
                    &&& after.0 == before.0
                    &&& after.1.failure_count == before.1.failure_count
                    &&& after.1.last_failure == before.1.last_failure
                    &&& after.1.failure_threshold == before.1.failure_threshold
                    &&& after.1.cooldown_nanos == before.1.cooldown_nanos
                    &&& after.1.state == (if step.action is Execute && step.action->node_id == before.0 && before.1.state
                        == CircuitState::Open {
                        CircuitState::HalfOpen
                    } else {
                        before.1.state
                    })
                }
        }),
{
    let step = scheduled(d, app, since, seed);
    let out = left_out(app.breakers, since, d.tried);
    law_decision_finds_a_fit_node(d, app, since, seed);
    assert forall|j: int| 0 <= j < app.breakers.len() implies (step.app.breakers[j].0 == (#[trigger] app.breakers[j]).0
        && step.app.breakers[j].1 == (if step.action is Execute && step.action->node_id == app.breakers[j].0 {
        app.breakers[j].1.asked(since[j] as int)
    } else {
        app.breakers[j].1
    })) by {
        lemma_key_index(app.breakers, j);
        if step.action is Execute && has_key(app.breakers, step.action->node_id) {
            let p = key_index(app.breakers, step.action->node_id);
            assert(0 <= p < app.breakers.len() && app.breakers[p].0 == step.action->node_id);
        }
    }
    if step.action is Execute {
        assert forall|j: int|
            0 <= j < app.breakers.len() && (#[trigger] app.breakers[j]).0 == step.action->node_id && app.breakers[j].1.state
                == CircuitState::Open implies since[j] >= app.breakers[j].1.cooldown_nanos by {
            if since[j] < app.breakers[j].1.cooldown_nanos {
                assert(out.contains(step.action->node_id));
            }
        }
    }
}

// ── What a reply does ──────────────────────────────────────────────────────

/// A reply changes the circuit of the node that gave it and no other: a success closes
/// it; anything else is its most recent failure, one more in a row, and opens it unless
/// it was closed and the failures in a row are fewer than its threshold, five for a node
/// without a circuit so far. Nodes, modules and settings stay as they are.
pub proof fn law_reply_is_recorded_on_the_circuit(
    d: DispatchView,
    app: AppView,
    node: Seq<char>,
    reply: ReplyView,
    now: Instant,
    other: Seq<char>,
)
    requires
        distinct_keys(app.breakers),
        other != node,
        lookup(app.breakers, node) is Some ==> lookup(app.breakers, node)->0.failure_count < u32::MAX,
    ensures
        ({
            let step = replied(d, app, node, reply, now);
            let before = lookup(app.breakers, node);
            let after = lookup(step.app.breakers, node);
            let in_a_row = match before {
                Some(breaker) => breaker.failure_count as int,
                None => 0,
            };
            let threshold = match before {
                Some(breaker) => breaker.failure_threshold as int,
                None => 5,
            };
            &&& after is Some
            &&& lookup(step.app.breakers, other) == lookup(app.breakers, other)
            &&& after->0.failure_threshold == threshold
            &&& after->0.cooldown_nanos == (match before {
                Some(breaker) => breaker.cooldown_nanos,
                None => 30_000_000_000,
            })
            &&& if reply is Ok && reply->Ok_0.success {
                after->0.state == CircuitState::Closed && after->0.failure_count == 0
            } else {
                &&& after->0.last_failure == Some(now)
                &&& after->0.failure_count == in_a_row + 1
                &&& after->0.state == (if (before is None || before->0.state == CircuitState::Closed) && in_a_row + 1
                    < threshold {
                    CircuitState::Closed
                } else {
                    CircuitState::Open
                })
            }
            &&& step.dispatch.request == d.request
            &&& step.dispatch.no_node_count == d.no_node_count
            &&& step.app.nodes == app.nodes
            &&& step.app.modules == app.modules
            &&& step.app.self_url == app.self_url
            &&& step.app.strategy == app.strategy
            &&& step.app.scheduler_index == app.scheduler_index
            &&& step.app.total_submitted == app.total_submitted
            &&& step.app.total_retried == app.total_retried
            &&& step.app.queued == app.queued
        }),
{
    law_lookup_stored(app.breakers, node, breaker_of(app, node).succeeded(), node);
    law_lookup_stored(app.breakers, node, breaker_of(app, node).failed(now), node);
    law_lookup_stored(app.breakers, node, breaker_of(app, node).succeeded(), other);
    law_lookup_stored(app.breakers, node, breaker_of(app, node).failed(now), other);
}

/// A task that is given up is stored as failed, under its id, with no node, no output
/// and a reason: that no node was there, or what the last node said, where bytes that
/// were not the module count as invalid WASM.
pub proof fn law_given_up_task_is_stored_as_failed(d: DispatchView, e: Event)
    requires
        e.possible(d),
        e.step(d).action is Finished,
        !(e is Reply && e->reply is Ok && e->reply->Ok_0.success),
    ensures
        ({
            let result = e.step(d).app.tasks[d.request.task_id];
            &&& result.task_id == d.request.task_id
            &&& result.node_id == "none"@
            &&& !result.success
            &&& result.output.len() == 0
            &&& result.execution_time_ms == 0
            &&& result.error is Some
            &&& e is Decide ==> result.error->0 == "no nodes available"@
            &&& e is Reply && e->reply is Ok ==> result.error->0 == "All nodes failed: "@ + e->reply->Ok_0.error
            &&& e is Reply && e->reply is Err ==> result.error->0 == "All nodes failed: "@ + (match e->reply->Err_0.0 {
                RpcCode::ResourceExhausted => "all nodes persistently at capacity"@,
                RpcCode::DataLoss => "invalid wasm: "@ + e->reply->Err_0.1,
                _ => e->reply->Err_0.1,
            })
        }),
{
}

// ── A whole dispatch ───────────────────────────────────────────────────────

/// Whether a reply is a failed attempt: the node could not be called or could not run
/// the task. A node at capacity has not attempted it.
pub open spec fn is_failure(reply: ReplyView) -> bool {
    match reply {
        Ok(response) => !response.success,
        Err((code, _)) => code != RpcCode::ResourceExhausted,
    }
}

/// The dispatch before an event of a series.
pub open spec fn before_event(request: RequestView, events: Seq<Event>, i: int) -> DispatchView {
    run(begun(request), events.take(i))
}

/// What an event of a series makes the driver do.
pub open spec fn action_at(request: RequestView, events: Seq<Event>, i: int) -> ActionView {
    events[i].step(before_event(request, events, i)).action
}

proof fn lemma_prefix(request: RequestView, events: Seq<Event>, i: int)
    requires
        can_run(begun(request), events),
        0 <= i <= events.len(),
    ensures
        can_run(begun(request), events.take(i)),
        i < events.len() ==> {
            &&& events[i].possible(before_event(request, events, i))
            &&& before_event(request, events, i + 1) == events[i].step(before_event(request, events, i)).dispatch
        },
    decreases events.len() - i,
{
    if i == events.len() {
        assert(events.take(i) =~= events);
    } else {
        lemma_prefix(request, events, i + 1);
        assert(events.take(i + 1).drop_last() =~= events.take(i));
        assert(events.take(i + 1).last() == events[i]);
    }
}

proof fn lemma_tried_grows(request: RequestView, events: Seq<Event>, i: int, j: int)
    requires
        can_run(begun(request), events),
        0 <= i <= j <= events.len(),
    ensures
        before_event(request, events, i).tried.subset_of(before_event(request, events, j).tried),
    decreases j - i,
{
    if i < j {
        lemma_tried_grows(request, events, i, j - 1);
        lemma_prefix(request, events, j - 1);
    }
}

/// Over every series of events of a dispatch, a node on which an attempt of the task
/// failed does not get the task again.
pub proof fn law_failed_node_is_not_tried_again(request: RequestView, events: Seq<Event>, i: int, j: int)
    requires
        can_run(begun(request), events),
        0 <= i < events.len() - 1,
        i + 1 < j < events.len(),
        action_at(request, events, i) is Execute,
        events[i + 1] is Reply,
        is_failure(events[i + 1]->reply),
        action_at(request, events, j) is Execute,
    ensures
        action_at(request, events, j)->node_id != action_at(request, events, i)->node_id,
{
    lemma_prefix(request, events, i);
    lemma_prefix(request, events, i + 1);
    lemma_prefix(request, events, j);
    lemma_tried_grows(request, events, i + 2, j);
    let node = action_at(request, events, i)->node_id;
    assert(before_event(request, events, i + 1).phase == PhaseView::Executing(node));
    assert(before_event(request, events, i + 2).tried.contains(node));
    match events[j] {
        Event::Decide { app, since, seed } => {
            law_sends_only_to_fit_nodes(before_event(request, events, j), app, since, seed);
        },
        Event::Reply { app, reply, now } => {},
    }
}

/// Over every series of events of a dispatch, the set of nodes that are held back from the
/// task never shrinks, and from a failed attempt on it holds the node that failed.
pub proof fn law_held_back_nodes_stay_held_back(request: RequestView, events: Seq<Event>, i: int, j: int)
    requires
        can_run(begun(request), events),
        0 <= i < j <= events.len(),
    ensures
        before_event(request, events, i).tried.subset_of(before_event(request, events, j).tried),
        events[i] is Reply && is_failure(events[i]->reply) ==> before_event(request, events, j).tried.contains(
            before_event(request, events, i).phase->Executing_0,
        ),
{
    lemma_prefix(request, events, i);
    lemma_tried_grows(request, events, i, j);
    lemma_tried_grows(request, events, i + 1, j);
}

/// Over every series of events of a dispatch, only nodes on which an attempt of the task
/// failed are held back from it.
pub proof fn law_only_failed_nodes_are_held_back(request: RequestView, events: Seq<Event>, node: Seq<char>)
    requires
        can_run(begun(request), events),
        run(begun(request), events).tried.contains(node),
    ensures
        exists|i: int|
            {
                &&& 0 <= i < events.len()
                &&& (#[trigger] events[i]) is Reply
                &&& is_failure(events[i]->reply)
                &&& before_event(request, events, i).phase == PhaseView::Executing(node)
            },
    decreases events.len(),
{
    if events.len() > 0 {
        let init = events.drop_last();
        let last = events.len() - 1;
        lemma_prefix(request, events, last);
        assert(events.take(last) =~= init);
        if run(begun(request), init).tried.contains(node) {
            law_only_failed_nodes_are_held_back(request, init, node);
            let i = choose|i: int|
                {
                    &&& 0 <= i < init.len()
                    &&& (#[trigger] init[i]) is Reply
                    &&& is_failure(init[i]->reply)
                    &&& before_event(request, init, i).phase == PhaseView::Executing(node)
                };
            assert(init.take(i) =~= events.take(i));
            assert(events[i] == init[i]);
        } else {
            assert(events[last] is Reply && is_failure(events[last]->reply));
        }
    }
}

/// Whatever happens to a dispatch, every node that gets the task gets the request that
/// was submitted.
pub proof fn law_request_stays_the_same(request: RequestView, events: Seq<Event>, i: int)
    requires
        can_run(begun(request), events),
        0 <= i < events.len(),
    ensures
        before_event(request, events, i).request == request,
        action_at(request, events, i) is Execute ==> action_at(request, events, i)->request == request,
        action_at(request, events, i) is Finished ==> events[i].step(
            before_event(request, events, i),
        ).app.tasks.dom().contains(request.task_id),
    decreases i,
{
    if i > 0 {
        law_request_stays_the_same(request, events, i - 1);
        lemma_prefix(request, events, i - 1);
    }
    lemma_prefix(request, events, i);
}

/// How many attempts of a series failed.
pub open spec fn failed_attempts(events: Seq<Event>) -> int
    decreases events.len(),
{
    if events.len() == 0 {
        0
    } else {
        failed_attempts(events.drop_last()) + if events.last() is Reply && is_failure(events.last()->reply) {
            1int
        } else {
            0int
        }
    }
}

/// How many replies of a series say that the node is at capacity.
pub open spec fn capacity_replies(events: Seq<Event>) -> int
    decreases events.len(),
{
    if events.len() == 0 {
        0
    } else {
        capacity_replies(events.drop_last()) + if events.last() is Reply && events.last()->reply is Err
            && events.last()->reply->Err_0.0 == RpcCode::ResourceExhausted { 1int } else { 0int }
    }
}

/// How many decisions of a series found no node.
pub open spec fn vain_decisions(request: RequestView, events: Seq<Event>) -> int
    decreases events.len(),
{
    if events.len() == 0 {
        0
    } else {
        vain_decisions(request, events.drop_last()) + if events.last() is Decide && !(events.last().step(
            run(begun(request), events.drop_last()),
        ).action is Execute) { 1int } else { 0int }
    }
}

/// A dispatch goes on as long as fewer than three attempts have failed, no more than
/// thirty nodes were at capacity and no more than three decisions were in vain, and ends
/// as soon as one of these limits is passed, or with a success.
pub proof fn law_dispatch_ends_exactly_at_its_limits(request: RequestView, events: Seq<Event>)
    requires
        can_run(begun(request), events),
    ensures
        ({
            let d = run(begun(request), events);
            &&& d.error_retries == failed_attempts(events)
            &&& d.capacity_waits == capacity_replies(events)
            &&& d.no_node_count == vain_decisions(request, events)
            &&& d.phase is Done <==> (failed_attempts(events) == 3 || capacity_replies(events) == 31 || vain_decisions(
                request,
                events,
            ) == 4 || (events.len() > 0 && events.last() is Reply && events.last()->reply is Ok
                && events.last()->reply->Ok_0.success))
            &&& failed_attempts(events) <= 3
            &&& capacity_replies(events) <= 31
            &&& vain_decisions(request, events) <= 4
        }),
    decreases events.len(),
{
    if events.len() > 0 {
        law_dispatch_ends_exactly_at_its_limits(request, events.drop_last());
    }
}

/// A task is counted as retried once a node gets it after a failed attempt, and not
/// before.
pub proof fn law_retry_is_counted_when_it_is_sent(request: RequestView, events: Seq<Event>)
    requires
        can_run(begun(request), events),
        forall|i: int| 0 <= i < events.len() ==> (#[trigger] events[i]).app().total_retried < u64::MAX,
        events.len() > 0,
        events.last().step(run(begun(request), events.drop_last())).action is Execute,
    ensures
        retries_counted(begun(request), events) == (if failed_attempts(events.drop_last()) > 0 { 1int } else { 0int }),
{
    law_retry_counted_at_most_once(request, events);
    law_dispatch_ends_exactly_at_its_limits(request, events.drop_last());
}

} // verus!
