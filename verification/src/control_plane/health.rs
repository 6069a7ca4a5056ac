//! Health checks of the registered edge nodes.
//!
//! Rules:
//! - Each node is probed, with a two-second timeout.
//! - Success: mark healthy, refresh the count of active tasks.
//! - Timeout or error: mark unhealthy.

use vstd::prelude::*;

use super::state::{AppState, AppView};
use crate::common::NodeInfo;
use crate::table::{has_key, key_index, law_lookup_stored, lemma_key_index, lookup, stored};

verus! {

/// How long a probe may take, in seconds.
pub const PROBE_TIMEOUT_SECS: u64 = 2;

/// How long to wait between rounds, in seconds.
pub const CHECK_INTERVAL_SECS: u64 = 2;

/// A node after a probe: the number of active tasks that it answered, or
/// `None` for a timeout or an error.
pub open spec fn probed(node: NodeInfo, answer: Option<u32>) -> NodeInfo {
    match answer {
        Some(active_tasks) => NodeInfo { healthy: true, active_tasks: active_tasks as usize, ..node },
        None => NodeInfo { healthy: false, ..node },
    }
}

/// The nodes after a probe of one of them. A node that is no longer registered
/// is passed over.
pub open spec fn nodes_probed(nodes: Seq<(Seq<char>, NodeInfo)>, id: Seq<char>, answer: Option<u32>) -> Seq<
    (Seq<char>, NodeInfo),
> {
    match lookup(nodes, id) {
        Some(node) => stored(nodes, id, probed(node, answer)),
        None => nodes,
    }
}

/// The ids and addresses of the nodes to probe.
pub fn probe_targets(app: &AppState) -> (targets: Vec<(String, String)>)
    ensures
        targets@.len() == app@.nodes.len(),
        forall|i: int|
            0 <= i < targets@.len() ==> (#[trigger] targets@[i]).0@ == app@.nodes[i].1.id@ && targets@[i].1@
                == app@.nodes[i].1.address@,
{
    let mut targets: Vec<(String, String)> = Vec::new();
    let mut i: usize = 0;
    while i < app.nodes.len()
        invariant
            i <= app.nodes@.len(),
            targets@.len() == i,
            forall|j: int|
                0 <= j < i ==> (#[trigger] targets@[j]).0@ == app.nodes@[j].1.id@ && targets@[j].1@
                    == app.nodes@[j].1.address@,
        decreases app.nodes@.len() - i,
    {
        let node = app.nodes.value_at(i);
        targets.push((node.id.clone(), node.address.clone()));
        i = i + 1;
    }
    targets
}

/// One round of probes over all nodes.
pub struct HealthRound {
    /// The nodes that answered so far.
    pub healthy_count: usize,
}

impl HealthRound {
    pub fn new() -> (round: Self)
        ensures
            round.healthy_count == 0,
    {
        HealthRound { healthy_count: 0 }
    }

    /// Takes the outcome of the probe of a node: the number of active tasks
    /// that it answered, or `None` for a timeout or an error.
    pub fn record(&mut self, app: &mut AppState, node_id: &str, answer: Option<u32>)
        requires
            old(app).wf(),
            old(self).healthy_count < usize::MAX,
        ensures
            final(app).wf(),
            final(app)@ == (AppView { nodes: nodes_probed(old(app)@.nodes, node_id@, answer), ..old(app)@ }),
            final(self).healthy_count == old(self).healthy_count + if answer is Some { 1int } else { 0int },
            lookup(old(app)@.nodes, node_id@) is Some ==> lookup(final(app)@.nodes, node_id@) is Some && lookup(
                final(app)@.nodes,
                node_id@,
            )->0.healthy == (answer is Some),
            lookup(old(app)@.nodes, node_id@) is None ==> final(app)@ == old(app)@,
    {
        let ghost before = app@.nodes;
        proof {
            if has_key(before, node_id@) {
                let p = key_index(before, node_id@);
                assert(0 <= p < before.len() && before[p].0 == node_id@);
                law_lookup_stored(before, node_id@, probed(before[p].1, answer), node_id@);
            }
        }
        match app.nodes.get_mut(node_id) {
            Some(node) => match answer {
                Some(active_tasks) => {
                    node.healthy = true;
                    node.active_tasks = active_tasks as usize;
                },
                None => {
                    node.healthy = false;
                },
            },
            None => {},
        }
        if answer.is_some() {
            self.healthy_count = self.healthy_count + 1;
        }
    }
}

/// The nodes after a round of probes.
pub open spec fn after_round(nodes: Seq<(Seq<char>, NodeInfo)>, answers: Seq<(Seq<char>, Option<u32>)>) -> Seq<
    (Seq<char>, NodeInfo),
>
    decreases answers.len(),
{
    if answers.len() == 0 {
        nodes
    } else {
        nodes_probed(after_round(nodes, answers.drop_last()), answers.last().0, answers.last().1)
    }
}

/// After a round that probes each node once, every node is healthy exactly if
/// it answered; then its count of active tasks is the one that it answered.
/// Nothing else about it changes.
pub proof fn law_round_marks_every_node(
    nodes: Seq<(Seq<char>, NodeInfo)>,
    answers: Seq<(Seq<char>, Option<u32>)>,
    i: int,
)
    requires
        crate::table::distinct_keys(nodes),
        answers.len() <= nodes.len(),
        forall|j: int| 0 <= j < answers.len() ==> (#[trigger] answers[j]).0 == nodes[j].0,
        0 <= i < nodes.len(),
    ensures
        after_round(nodes, answers).len() == nodes.len(),
        after_round(nodes, answers)[i] == (nodes[i].0, if i < answers.len() {
            probed(nodes[i].1, answers[i].1)
        } else {
            nodes[i].1
        }),
    decreases answers.len(),
{
    if answers.len() > 0 {
        let init = answers.drop_last();
        let before = after_round(nodes, init);
        let last = answers.len() - 1;
        assert forall|j: int| 0 <= j < init.len() implies (#[trigger] init[j]).0 == nodes[j].0 by {
            assert(init[j] == answers[j]);
        }
        law_round_marks_every_node(nodes, init, i);
        law_round_marks_every_node(nodes, init, last);
        assert forall|j: int, k: int| 0 <= j < before.len() && 0 <= k < before.len() && (#[trigger] before[j]).0 == (
        #[trigger] before[k]).0 implies j == k by {
            law_round_marks_every_node(nodes, init, j);
            law_round_marks_every_node(nodes, init, k);
            assert(nodes[j].0 == nodes[k].0);
        }
        lemma_key_index(before, last);
        assert(answers.last() == answers[last]);
        assert(answers[last].0 == nodes[last].0);
        assert(lookup(before, answers[last].0) == Some(nodes[last].1));
        if i < last {
            assert(init[i] == answers[i]);
        }
    }
}

/// A probe makes the node that was probed healthy if it answered and unhealthy if it did
/// not; an answer brings its count of active tasks up to date. Nothing else about the node
/// changes, no other node changes, and no node is registered or forgotten by it.
pub proof fn law_probe_marks_its_node_alone(
    nodes: Seq<(Seq<char>, NodeInfo)>,
    id: Seq<char>,
    answer: Option<u32>,
    other: Seq<char>,
)
    requires
        crate::table::distinct_keys(nodes),
        other != id,
    ensures
        ({
            let before = lookup(nodes, id);
            let after = lookup(nodes_probed(nodes, id, answer), id);
            &&& nodes_probed(nodes, id, answer).len() == nodes.len()
            &&& lookup(nodes_probed(nodes, id, answer), other) == lookup(nodes, other)
            &&& before is None ==> after is None
            &&& before is Some ==> {
                &&& after is Some
                &&& after->0.healthy <==> answer is Some
                &&& after->0.active_tasks == (match answer {
                    Some(active_tasks) => active_tasks as usize,
                    None => before->0.active_tasks,
                })
                &&& after->0.id == before->0.id
                &&& after->0.address == before->0.address
                &&& after->0.http_address == before->0.http_address
                &&& after->0.max_concurrent_tasks == before->0.max_concurrent_tasks
            }
        }),
{
    if let Some(node) = lookup(nodes, id) {
        law_lookup_stored(nodes, id, probed(node, answer), id);
        law_lookup_stored(nodes, id, probed(node, answer), other);
    }
}

/// After a round every node is healthy exactly if it answered, with the count of active
/// tasks that it answered; one that did not answer keeps its last count.
pub proof fn law_round_tells_healthy_from_unhealthy(
    nodes: Seq<(Seq<char>, NodeInfo)>,
    answers: Seq<(Seq<char>, Option<u32>)>,
    i: int,
)
    requires
        crate::table::distinct_keys(nodes),
        answers.len() == nodes.len(),
        forall|j: int| 0 <= j < answers.len() ==> (#[trigger] answers[j]).0 == nodes[j].0,
        0 <= i < nodes.len(),
    ensures
        after_round(nodes, answers).len() == nodes.len(),
        after_round(nodes, answers)[i].0 == nodes[i].0,
        after_round(nodes, answers)[i].1.healthy <==> answers[i].1 is Some,
        after_round(nodes, answers)[i].1.active_tasks == (match answers[i].1 {
            Some(active_tasks) => active_tasks as usize,
            None => nodes[i].1.active_tasks,
        }),
        after_round(nodes, answers)[i].1.id == nodes[i].1.id,
        after_round(nodes, answers)[i].1.address == nodes[i].1.address,
        after_round(nodes, answers)[i].1.max_concurrent_tasks == nodes[i].1.max_concurrent_tasks,
{
    law_round_marks_every_node(nodes, answers, i);
}

/// A round starts two seconds after the one before, and a probe has as long to answer.
pub proof fn law_rounds_follow_every_two_seconds()
    ensures
        CHECK_INTERVAL_SECS == 2,
        PROBE_TIMEOUT_SECS == 2,
{
}

} // verus!
