//! Least-loaded scheduling strategy.
//!
//! Selects the healthy node with the fewest active tasks that still has
//! remaining capacity. When several nodes tie on `active_tasks`, the current
//! wall-clock sub-second nanoseconds choose among them.

use vstd::prelude::*;

use super::{candidates, lemma_filter_agree, lemma_filter_twice, values};
use super::round_robin::healthy_nodes;
use crate::clock::{may_be_seed, subsecond_nanos};
use crate::common::NodeInfo;
use crate::table::{IdSet, KeyedTable};

verus! {

/// The candidates that can take one more task.
pub open spec fn with_headroom(entries: Seq<(Seq<char>, NodeInfo)>, exclude: Set<Seq<char>>) -> Seq<NodeInfo> {
    candidates(entries, exclude).filter(|n: NodeInfo| n.active_tasks < n.max_concurrent_tasks)
}

/// Whether no node of `nodes` has fewer active tasks than `node`.
pub open spec fn is_least_loaded(nodes: Seq<NodeInfo>, node: NodeInfo) -> bool {
    forall|i: int| 0 <= i < nodes.len() ==> node.active_tasks <= (#[trigger] nodes[i]).active_tasks
}

/// The nodes of `nodes` that have the fewest active tasks.
pub open spec fn tied(nodes: Seq<NodeInfo>) -> Seq<NodeInfo> {
    nodes.filter(|n: NodeInfo| is_least_loaded(nodes, n))
}

/// What a least-loaded selection gives when `seed` decides between equals.
pub open spec fn least_loaded(nodes: Seq<NodeInfo>, seed: usize) -> Option<NodeInfo> {
    if nodes.len() == 0 {
        None
    } else {
        Some(tied(nodes)[seed as int % tied(nodes).len() as int])
    }
}

proof fn lemma_tied(nodes: Seq<NodeInfo>, least: int)
    requires
        0 <= least < nodes.len(),
        is_least_loaded(nodes, nodes[least]),
    ensures
        tied(nodes) == nodes.filter(|n: NodeInfo| n.active_tasks == nodes[least].active_tasks),
        tied(nodes).len() > 0,
        forall|i: int| 0 <= i < tied(nodes).len() ==>
            nodes.contains(#[trigger] tied(nodes)[i]) && is_least_loaded(nodes, tied(nodes)[i]),
{
    let p = |n: NodeInfo| is_least_loaded(nodes, n);
    let q = |n: NodeInfo| n.active_tasks == nodes[least].active_tasks;
    lemma_filter_agree(nodes, p, q);
    nodes.lemma_filter_contains(p, least);
    assert(nodes.filter(p).contains(nodes[least]));
    assert forall|i: int| 0 <= i < tied(nodes).len() implies
        nodes.contains(#[trigger] tied(nodes)[i]) && is_least_loaded(nodes, tied(nodes)[i]) by {
        nodes.lemma_filter_pred(p, i);
        assert(nodes.filter(p).contains(nodes.filter(p)[i]));
        nodes.lemma_filter_contains_rev(p, nodes.filter(p)[i]);
    }
}

/// Pick the least-loaded node, subject to the following filters:
///
/// - `node.healthy == true`
/// - `node.active_tasks < node.max_concurrent_tasks` (node still has headroom)
/// - `node.id` not in `exclude` (already tried, or its circuit is open)
///
/// Returns `None` when all candidate nodes are at capacity or excluded.
pub fn select_least_loaded<'a>(nodes: &'a KeyedTable<NodeInfo>, exclude: &IdSet) -> (r: Option<&'a NodeInfo>)
    ensures
        match r {
            Some(node) => {
                &&& with_headroom(nodes@, exclude@).contains(*node)
                &&& is_least_loaded(with_headroom(nodes@, exclude@), *node)
                &&& exists|seed: usize|
                    may_be_seed(seed) && #[trigger] least_loaded(with_headroom(nodes@, exclude@), seed) == Some(*node)
            },
            None => with_headroom(nodes@, exclude@).len() == 0,
        },
        match r {
            Some(node) => {
                &&& node.healthy
                &&& node.active_tasks < node.max_concurrent_tasks
                &&& !exclude@.contains(node.id@)
                &&& exists|i: int| 0 <= i < nodes@.len() && (#[trigger] nodes@[i]).1 == *node
                &&& forall|i: int|
                    0 <= i < nodes@.len() && (#[trigger] nodes@[i]).1.healthy && !exclude@.contains(nodes@[i].1.id@)
                        && nodes@[i].1.active_tasks < nodes@[i].1.max_concurrent_tasks ==> node.active_tasks
                        <= nodes@[i].1.active_tasks
            },
            None => forall|i: int|
                0 <= i < nodes@.len() && (#[trigger] nodes@[i]).1.healthy && !exclude@.contains(nodes@[i].1.id@)
                    ==> nodes@[i].1.active_tasks >= nodes@[i].1.max_concurrent_tasks,
        },
{
    let seed: usize = subsecond_nanos() as usize;
    let r = select_least_loaded_seeded(nodes, exclude, seed);
    proof {
        law_least_loaded_is_least(with_headroom(nodes@, exclude@), seed);
    }
    r
}

/// [`select_least_loaded`] with the number that decides between equals.
pub fn select_least_loaded_seeded<'a>(nodes: &'a KeyedTable<NodeInfo>, exclude: &IdSet, seed: usize) -> (r: Option<
    &'a NodeInfo,
>)
    ensures
        match r {
            Some(node) => least_loaded(with_headroom(nodes@, exclude@), seed) == Some(*node),
            None => least_loaded(with_headroom(nodes@, exclude@), seed) is None,
        },
        match r {
            Some(node) => {
                &&& node.healthy
                &&& node.active_tasks < node.max_concurrent_tasks
                &&& !exclude@.contains(node.id@)
                &&& exists|i: int| 0 <= i < nodes@.len() && (#[trigger] nodes@[i]).1 == *node
                &&& forall|i: int|
                    0 <= i < nodes@.len() && (#[trigger] nodes@[i]).1.healthy && !exclude@.contains(nodes@[i].1.id@)
                        && nodes@[i].1.active_tasks < nodes@[i].1.max_concurrent_tasks ==> node.active_tasks
                        <= nodes@[i].1.active_tasks
            },
            None => forall|i: int|
                0 <= i < nodes@.len() && (#[trigger] nodes@[i]).1.healthy && !exclude@.contains(nodes@[i].1.id@)
                    ==> nodes@[i].1.active_tasks >= nodes@[i].1.max_concurrent_tasks,
        },
{
    proof {
        law_least_loaded_has_headroom(nodes@, exclude@, seed);
    }
    let healthy = healthy_nodes(nodes, exclude);
    let ghost c = candidates(nodes@, exclude@);
    let ghost free = |n: NodeInfo| n.active_tasks < n.max_concurrent_tasks;
    let mut available: Vec<&'a NodeInfo> = Vec::new();
    let mut i: usize = 0;
    let mut least: usize = 0;
    proof {
        reveal(Seq::filter);
    }
    while i < healthy.len()
        invariant
            i <= healthy@.len(),
            healthy@.len() == c.len(),
            free == (|n: NodeInfo| n.active_tasks < n.max_concurrent_tasks),
            forall|j: int| 0 <= j < c.len() ==> *(#[trigger] healthy@[j]) == c[j],
            available@.len() == c.take(i as int).filter(free).len(),
            forall|j: int| 0 <= j < available@.len() ==> *(#[trigger] available@[j]) == c.take(i as int).filter(free)[j],
            available@.len() > 0 ==> least < available@.len(),
            forall|j: int| 0 <= j < available@.len() ==> available@[least as int].active_tasks <= (#[trigger] available@[j]).active_tasks,
        decreases healthy@.len() - i,
    {
        let node = healthy[i];
        proof {
            reveal(Seq::filter);
            assert(c.take(i + 1).drop_last() =~= c.take(i as int));
            assert(c.take(i + 1).last() == *node);
        }
        if node.active_tasks < node.max_concurrent_tasks {
            if available.len() > 0 {
                if node.active_tasks < available[least].active_tasks {
                    least = available.len();
                }
            } else {
                least = 0;
            }
            available.push(node);
        }
        i = i + 1;
    }
    assert(c.take(i as int) =~= c);
    let ghost all = with_headroom(nodes@, exclude@);
    assert(all == c.filter(free));
    if available.len() == 0 {
        return None;
    }
    let min_tasks: usize = available[least].active_tasks;
    let ghost same = |n: NodeInfo| n.active_tasks == all[least as int].active_tasks;
    proof {
        assert forall|j: int| 0 <= j < all.len() implies all[least as int].active_tasks <= (#[trigger] all[j]).active_tasks by {
            assert(*available@[j] == all[j]);
        }
        lemma_tied(all, least as int);
        assert(tied(all) == all.filter(same));
    }
    let mut equals: Vec<&'a NodeInfo> = Vec::new();
    let mut k: usize = 0;
    while k < available.len()
        invariant
            k <= available@.len(),
            available@.len() == all.len(),
            least < all.len(),
            min_tasks == all[least as int].active_tasks,
            same == (|n: NodeInfo| n.active_tasks == all[least as int].active_tasks),
            forall|j: int| 0 <= j < all.len() ==> *(#[trigger] available@[j]) == all[j],
            equals@.len() == all.take(k as int).filter(same).len(),
            forall|j: int| 0 <= j < equals@.len() ==> *(#[trigger] equals@[j]) == all.take(k as int).filter(same)[j],
        decreases available@.len() - k,
    {
        let node = available[k];
        proof {
            reveal(Seq::filter);
            assert(all.take(k + 1).drop_last() =~= all.take(k as int));
            assert(all.take(k + 1).last() == *node);
        }
        if node.active_tasks == min_tasks {
            equals.push(node);
        }
        k = k + 1;
    }
    assert(all.take(k as int) =~= all);
    let place: usize = seed % equals.len();
    Some(equals[place])
}

/// Whatever number decides between equals, the selected node has headroom and
/// no candidate with headroom has fewer active tasks; and one is selected
/// whenever there is one.
pub proof fn law_least_loaded_is_least(nodes: Seq<NodeInfo>, seed: usize)
    ensures
        match least_loaded(nodes, seed) {
            Some(node) => nodes.contains(node) && is_least_loaded(nodes, node),
            None => nodes.len() == 0,
        },
{
    if nodes.len() > 0 {
        let least = lemma_some_least(nodes);
        lemma_tied(nodes, least);
        let p = seed as int % tied(nodes).len() as int;
        assert(0 <= p < tied(nodes).len());
    }
}

proof fn lemma_some_least(nodes: Seq<NodeInfo>) -> (least: int)
    requires
        nodes.len() > 0,
    ensures
        0 <= least < nodes.len(),
        is_least_loaded(nodes, nodes[least]),
    decreases nodes.len(),
{
    if nodes.len() == 1 {
        0
    } else {
        let init = nodes.drop_last();
        let l = lemma_some_least(init);
        let last = nodes.len() - 1;
        if nodes[last].active_tasks < nodes[l].active_tasks {
            assert forall|i: int| 0 <= i < nodes.len() implies nodes[last].active_tasks <= (#[trigger] nodes[i]).active_tasks by {
                if i < last {
                    assert(init[i] == nodes[i]);
                }
            }
            last
        } else {
            assert forall|i: int| 0 <= i < nodes.len() implies nodes[l].active_tasks <= (#[trigger] nodes[i]).active_tasks by {
                if i < last {
                    assert(init[i] == nodes[i]);
                }
            }
            l
        }
    }
}

/// The node that a least-loaded selection gives is registered, healthy, not excluded
/// and runs fewer tasks than it can; no other such node runs fewer tasks. None is
/// given only if every registered node that is healthy and not excluded is at its
/// capacity. Of such nodes that run equally few tasks, in the order of the table, it is
/// the one whose place is the remainder of the seed divided by their number.
pub proof fn law_least_loaded_has_headroom(entries: Seq<(Seq<char>, NodeInfo)>, exclude: Set<Seq<char>>, seed: usize)
    ensures
        match least_loaded(with_headroom(entries, exclude), seed) {
            Some(node) => {
                &&& node.healthy
                &&& node.active_tasks < node.max_concurrent_tasks
                &&& !exclude.contains(node.id@)
                &&& exists|i: int| 0 <= i < entries.len() && (#[trigger] entries[i]).1 == node
                &&& forall|i: int|
                    0 <= i < entries.len() && (#[trigger] entries[i]).1.healthy && !exclude.contains(entries[i].1.id@)
                        && entries[i].1.active_tasks < entries[i].1.max_concurrent_tasks ==> node.active_tasks
                        <= entries[i].1.active_tasks
                &&& ({
                    let equals = Seq::new(entries.len(), |i: int| entries[i].1).filter(
                        |n: NodeInfo|
                            n.healthy && !exclude.contains(n.id@) && n.active_tasks < n.max_concurrent_tasks
                                && n.active_tasks == node.active_tasks,
                    );
                    equals.len() > 0 && node == equals[seed as int % equals.len() as int]
                })
            },
            None => forall|i: int|
                0 <= i < entries.len() && (#[trigger] entries[i]).1.healthy && !exclude.contains(entries[i].1.id@)
                    ==> entries[i].1.active_tasks >= entries[i].1.max_concurrent_tasks,
        },
{
    let all = values(entries);
    let keep = |n: NodeInfo| n.healthy && !exclude.contains(n.id@);
    let free = |n: NodeInfo| n.active_tasks < n.max_concurrent_tasks;
    let both = |n: NodeInfo| keep(n) && free(n);
    let room = with_headroom(entries, exclude);
    assert(all =~= Seq::new(entries.len(), |i: int| entries[i].1));
    lemma_filter_twice(all, keep, free);
    assert(room == all.filter(both));
    law_least_loaded_is_least(room, seed);
    assert forall|i: int| 0 <= i < entries.len() && both((#[trigger] entries[i]).1) implies room.contains(entries[i].1) by {
        assert(all[i] == entries[i].1);
        all.lemma_filter_contains(both, i);
    }
    match least_loaded(room, seed) {
        Some(node) => {
            all.lemma_filter_contains_rev(both, node);
            let k = choose|k: int| 0 <= k < room.len() && room[k] == node;
            all.lemma_filter_pred(both, k);
            let i = choose|i: int| 0 <= i < all.len() && all[i] == node;
            assert(entries[i].1 == node);
            assert forall|i: int| 0 <= i < entries.len() && both((#[trigger] entries[i]).1) implies node.active_tasks
                <= entries[i].1.active_tasks by {
                let j = choose|j: int| 0 <= j < room.len() && room[j] == entries[i].1;
                assert(node.active_tasks <= room[j].active_tasks);
            }
            let same = |n: NodeInfo| n.active_tasks == node.active_tasks;
            lemma_tied(room, k);
            lemma_filter_twice(all, both, same);
            let least = |n: NodeInfo| both(n) && same(n);
            let written = |n: NodeInfo|
                n.healthy && !exclude.contains(n.id@) && n.active_tasks < n.max_concurrent_tasks && n.active_tasks
                    == node.active_tasks;
            lemma_filter_agree(all, least, written);
            assert(room.filter(|n: NodeInfo| n.active_tasks == room[k].active_tasks) == room.filter(same)) by {
                lemma_filter_agree(room, |n: NodeInfo| n.active_tasks == room[k].active_tasks, same);
            }
            assert(tied(room) == all.filter(written));
        },
        None => {
            assert forall|i: int| 0 <= i < entries.len() && keep((#[trigger] entries[i]).1) implies !free(entries[i].1) by {
                if both(entries[i].1) {
                    assert(room.contains(entries[i].1));
                }
            }
        },
    }
}

} // verus!
