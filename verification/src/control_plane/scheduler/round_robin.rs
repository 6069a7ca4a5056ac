use vstd::prelude::*;

use super::{advanced, candidates, lemma_filter_agree, values, Scheduler};
use crate::common::{EdgeError, NodeInfo};
use crate::table::{IdSet, KeyedTable};

verus! {

/// Takes the healthy nodes in turn.
pub struct RoundRobinScheduler;

impl Scheduler for RoundRobinScheduler {
    fn next_node(&self, nodes: &mut KeyedTable<NodeInfo>, index: &mut usize) -> (r: Result<NodeInfo, EdgeError>)
        ensures
            ({
                let healthy = candidates(old(nodes)@, Set::empty());
                healthy.len() > 0 ==> r == Ok::<NodeInfo, EdgeError>(healthy[*old(index) as int % healthy.len() as int])
                    && *final(index) == advanced(*old(index))
            }),
    {
        proof {
            law_selects_only_candidates(nodes@, Set::empty(), *index);
            law_in_turn_among_fit_nodes(nodes@, Set::empty(), *index);
        }
        match pick_in_turn(nodes, *index, &IdSet::new()) {
            Some(node) => {
                *index = index.wrapping_add(1);
                Ok(node)
            },
            None => Err(EdgeError::NodeUnavailable("no healthy nodes registered".to_string())),
        }
    }
}

/// What a selection in turn gives: the node whose place among `nodes` is the
/// cursor modulo their number.
pub open spec fn in_turn(nodes: Seq<NodeInfo>, index: usize) -> Option<NodeInfo> {
    if nodes.len() == 0 {
        None
    } else {
        Some(nodes[index as int % nodes.len() as int])
    }
}

pub(super) fn healthy_nodes<'a>(nodes: &'a KeyedTable<NodeInfo>, exclude: &IdSet) -> (r: Vec<&'a NodeInfo>)
    ensures
        r@.len() == candidates(nodes@, exclude@).len(),
        forall|i: int| 0 <= i < r@.len() ==> *(#[trigger] r@[i]) == candidates(nodes@, exclude@)[i],
{
    let mut r: Vec<&'a NodeInfo> = Vec::new();
    let mut i: usize = 0;
    let ghost all = values(nodes@);
    let ghost keep = |n: NodeInfo| n.healthy && !exclude@.contains(n.id@);
    proof {
        reveal(Seq::filter);
    }
    while i < nodes.len()
        invariant
            i <= nodes@.len(),
            all == values(nodes@),
            keep == (|n: NodeInfo| n.healthy && !exclude@.contains(n.id@)),
            r@.len() == all.take(i as int).filter(keep).len(),
            forall|j: int| 0 <= j < r@.len() ==> *(#[trigger] r@[j]) == all.take(i as int).filter(keep)[j],
        decreases nodes@.len() - i,
    {
        let node = nodes.value_at(i);
        proof {
            reveal(Seq::filter);
            assert(all.take(i + 1).drop_last() =~= all.take(i as int));
        }
        if node.healthy && !exclude.contains(node.id.as_str()) {
            r.push(node);
        }
        i = i + 1;
    }
    assert(all.take(i as int) =~= all);
    r
}

/// The candidate whose turn it is when the cursor stands at `index`.
pub fn pick_in_turn(nodes: &KeyedTable<NodeInfo>, index: usize, exclude: &IdSet) -> (r: Option<NodeInfo>)
    ensures
        r == in_turn(candidates(nodes@, exclude@), index),
        match r {
            Some(node) => {
                &&& node.healthy
                &&& !exclude@.contains(node.id@)
                &&& exists|i: int| 0 <= i < nodes@.len() && (#[trigger] nodes@[i]).1 == node
            },
            None => forall|i: int| 0 <= i < nodes@.len() && (#[trigger] nodes@[i]).1.healthy ==> exclude@.contains(nodes@[i].1.id@),
        },
{
    proof {
        law_in_turn_among_fit_nodes(nodes@, exclude@, index);
    }
    let candidates = healthy_nodes(nodes, exclude);
    if candidates.len() == 0 {
        return None;
    }
    let position: usize = index % candidates.len();
    Some(candidates[position].clone())
}

/// Picks a healthy node. Skips unhealthy nodes; advances `index` on every call.
pub fn select_node(nodes: &KeyedTable<NodeInfo>, index: &mut usize) -> (r: Option<NodeInfo>)
    ensures
        r == in_turn(candidates(nodes@, Set::empty()), *old(index)),
        *final(index) == advanced(*old(index)),
        *final(index) == (if *old(index) == usize::MAX { 0 } else { *old(index) + 1 }),
        match r {
            Some(node) => node.healthy && exists|i: int| 0 <= i < nodes@.len() && (#[trigger] nodes@[i]).1 == node,
            None => forall|i: int| 0 <= i < nodes@.len() ==> !(#[trigger] nodes@[i]).1.healthy,
        },
{
    let selected = pick_in_turn(nodes, *index, &IdSet::new());
    *index = index.wrapping_add(1);
    selected
}

/// Like [`select_node`] but also skips nodes whose ids are in `exclude`.
///
/// Used during task retry to avoid dispatching again to nodes that failed.
pub fn select_node_excluded(nodes: &KeyedTable<NodeInfo>, index: &mut usize, exclude: &IdSet) -> (r: Option<NodeInfo>)
    ensures
        r == in_turn(candidates(nodes@, exclude@), *old(index)),
        *final(index) == advanced(*old(index)),
        *final(index) == (if *old(index) == usize::MAX { 0 } else { *old(index) + 1 }),
        match r {
            Some(node) => {
                &&& node.healthy
                &&& !exclude@.contains(node.id@)
                &&& exists|i: int| 0 <= i < nodes@.len() && (#[trigger] nodes@[i]).1 == node
            },
            None => forall|i: int| 0 <= i < nodes@.len() && (#[trigger] nodes@[i]).1.healthy ==> exclude@.contains(nodes@[i].1.id@),
        },
{
    let selected = pick_in_turn(nodes, *index, exclude);
    *index = index.wrapping_add(1);
    selected
}

/// As long as no healthy node is excluded, [`select_node_excluded`] does what
/// [`select_node`] does: both have the same candidates to choose from, and both
/// move the cursor on.
pub proof fn law_excluding_no_healthy_node(entries: Seq<(Seq<char>, NodeInfo)>, exclude: Set<Seq<char>>, index: usize)
    requires
        forall|i: int| 0 <= i < entries.len() && (#[trigger] entries[i]).1.healthy ==> !exclude.contains(entries[i].1.id@),
    ensures
        candidates(entries, exclude) == candidates(entries, Set::empty()),
        in_turn(candidates(entries, exclude), index) == in_turn(candidates(entries, Set::empty()), index),
{
    let all = values(entries);
    let p = |n: NodeInfo| n.healthy && !exclude.contains(n.id@);
    let q = |n: NodeInfo| n.healthy && !Set::<Seq<char>>::empty().contains(n.id@);
    assert forall|i: int| 0 <= i < all.len() implies p(#[trigger] all[i]) == q(all[i]) by {
        assert(all[i] == entries[i].1);
    }
    lemma_filter_agree(all, p, q);
}

/// The cursor after a number of selections.
pub open spec fn cursor_after(start: usize, calls: nat) -> usize
    decreases calls,
{
    if calls == 0 {
        start
    } else {
        advanced(cursor_after(start, (calls - 1) as nat))
    }
}

/// The nodes that calls in a row select, from cursor `start` on, as long as the
/// candidates stay the same.
pub open spec fn turns(nodes: Seq<NodeInfo>, start: usize, calls: nat) -> Seq<Option<NodeInfo>> {
    Seq::new(calls, |k: int| in_turn(nodes, cursor_after(start, k as nat)))
}

proof fn lemma_cursor(start: usize, calls: nat)
    requires
        start + calls <= usize::MAX,
    ensures
        cursor_after(start, calls) == start + calls,
    decreases calls,
{
    if calls > 0 {
        lemma_cursor(start, (calls - 1) as nat);
    }
}

/// The place among `n` candidates that the selection after `calls` others takes.
pub open spec fn place_taken(start: usize, calls: int, n: int) -> int {
    cursor_after(start, calls as nat) as int % n
}

/// Of as many selections in a row as there are candidates, each candidate gets
/// exactly one: for each place there is one call, and no other, that takes it.
/// The cursor must not pass the end of its range on the way.
pub proof fn law_round_robin_is_fair(nodes: Seq<NodeInfo>, start: usize, place: int)
    requires
        0 <= place < nodes.len(),
        start + nodes.len() <= usize::MAX,
    ensures
        exists|k: int| 0 <= k < nodes.len() && #[trigger] place_taken(start, k, nodes.len() as int) == place,
        forall|j: int, k: int|
            0 <= j < nodes.len() && 0 <= k < nodes.len() && #[trigger] place_taken(start, j, nodes.len() as int) == place
                && #[trigger] place_taken(start, k, nodes.len() as int) == place ==> j == k,
        forall|k: int|
            0 <= k < nodes.len() ==> #[trigger] turns(nodes, start, nodes.len())[k] == Some(
                nodes[place_taken(start, k, nodes.len() as int)],
            ),
{
    let n = nodes.len() as int;
    let s = start as int;
    let first = (place - s) % n;
    assert(0 <= first < n) by (nonlinear_arith)
        requires n > 0, first == (place - s) % n;
    assert((s + first) % n == place) by {
        vstd::arithmetic::div_mod::lemma_add_mod_noop_right(s, place - s, n);
        vstd::arithmetic::div_mod::lemma_small_mod(place as nat, n as nat);
        assert(s + (place - s) == place);
    }
    lemma_cursor(start, first as nat);
    assert(place_taken(start, first, n) == place);
    assert forall|j: int, k: int|
        0 <= j < n && 0 <= k < n && #[trigger] place_taken(start, j, n) == place && #[trigger] place_taken(start, k, n)
            == place implies j == k by {
        lemma_cursor(start, j as nat);
        lemma_cursor(start, k as nat);
        vstd::arithmetic::div_mod::lemma_fundamental_div_mod(s + j, n);
        vstd::arithmetic::div_mod::lemma_fundamental_div_mod(s + k, n);
        let a = (s + j) / n;
        let b = (s + k) / n;
        assert(j - k == n * (a - b)) by (nonlinear_arith)
            requires s + j == n * a + place, s + k == n * b + place;
        assert(a - b == 0) by (nonlinear_arith)
            requires j - k == n * (a - b), 0 <= j < n, 0 <= k < n;
    }
}

/// Only healthy nodes of the table that are not excluded are ever selected.
pub proof fn law_selects_only_candidates(
    entries: Seq<(Seq<char>, NodeInfo)>,
    exclude: Set<Seq<char>>,
    index: usize,
)
    ensures
        match in_turn(candidates(entries, exclude), index) {
            Some(node) => {
                &&& node.healthy
                &&& !exclude.contains(node.id@)
                &&& values(entries).contains(node)
            },
            None => forall|i: int| 0 <= i < entries.len() ==> !(#[trigger] entries[i]).1.healthy || exclude.contains(entries[i].1.id@),
        },
{
    let keep = |n: NodeInfo| n.healthy && !exclude.contains(n.id@);
    let all = values(entries);
    let c = candidates(entries, exclude);
    assert(c == all.filter(keep));
    if c.len() > 0 {
        let p = index as int % c.len() as int;
        assert(0 <= p < c.len());
        assert(c.contains(c[p]));
        all.lemma_filter_pred(keep, p);
        all.lemma_filter_contains_rev(keep, c[p]);
    } else {
        assert forall|i: int| 0 <= i < entries.len() implies !(#[trigger] entries[i]).1.healthy || exclude.contains(entries[i].1.id@) by {
            assert(all[i] == entries[i].1);
            if keep(all[i]) {
                all.lemma_filter_contains(keep, i);
                assert(c.contains(all[i]));
            }
        }
    }
}

/// A selection in turn gives a registered node that is healthy and not excluded, and
/// gives none only if there is no such node. Of the registered nodes that are healthy
/// and not excluded, in the order of the table, it takes the one whose place is the
/// remainder of the cursor divided by their number.
pub proof fn law_in_turn_among_fit_nodes(entries: Seq<(Seq<char>, NodeInfo)>, exclude: Set<Seq<char>>, index: usize)
    ensures
        match in_turn(candidates(entries, exclude), index) {
            Some(node) => {
                &&& node.healthy
                &&& !exclude.contains(node.id@)
                &&& exists|i: int| 0 <= i < entries.len() && (#[trigger] entries[i]).1 == node
            },
            None => forall|i: int| 0 <= i < entries.len() && (#[trigger] entries[i]).1.healthy ==> exclude.contains(entries[i].1.id@),
        },
        ({
            let fit = Seq::new(entries.len(), |i: int| entries[i].1).filter(
                |n: NodeInfo| n.healthy && !exclude.contains(n.id@),
            );
            in_turn(candidates(entries, exclude), index) == (if fit.len() > 0 {
                Some(fit[index as int % fit.len() as int])
            } else {
                None
            })
        }),
{
    law_selects_only_candidates(entries, exclude, index);
    assert(values(entries) =~= Seq::new(entries.len(), |i: int| entries[i].1));
    if let Some(node) = in_turn(candidates(entries, exclude), index) {
        let i = choose|i: int| 0 <= i < values(entries).len() && values(entries)[i] == node;
        assert(entries[i].1 == node);
    }
}

/// A selection moves the cursor on by one, and from the end of its range back to the
/// start.
pub proof fn law_cursor_moves_on_by_one(index: usize)
    ensures
        index < usize::MAX ==> advanced(index) == index + 1,
        index == usize::MAX ==> advanced(index) == 0,
{
}

} // verus!
