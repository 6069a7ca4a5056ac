//! Placement of tasks on nodes.

use vstd::prelude::*;

use crate::common::errors::EdgeErrorView;
use crate::common::{EdgeError, NodeInfo};
use crate::table::KeyedTable;

pub mod least_loaded;
pub mod round_robin;

pub use round_robin::RoundRobinScheduler;

verus! {

/// The values of a table, in its order.
pub open spec fn values<T>(entries: Seq<(Seq<char>, T)>) -> Seq<T> {
    entries.map_values(|e: (Seq<char>, T)| e.1)
}

/// The healthy nodes whose ids are not in `exclude`, in the table's order.
pub open spec fn candidates(entries: Seq<(Seq<char>, NodeInfo)>, exclude: Set<Seq<char>>) -> Seq<NodeInfo> {
    values(entries).filter(|n: NodeInfo| n.healthy && !exclude.contains(n.id@))
}

pub(super) proof fn lemma_filter_agree(nodes: Seq<NodeInfo>, p: spec_fn(NodeInfo) -> bool, q: spec_fn(NodeInfo) -> bool)
    requires
        forall|i: int| 0 <= i < nodes.len() ==> p(#[trigger] nodes[i]) == q(nodes[i]),
    ensures
        nodes.filter(p) == nodes.filter(q),
    decreases nodes.len(),
{
    reveal(Seq::filter);
    if nodes.len() > 0 {
        let init = nodes.drop_last();
        assert forall|i: int| 0 <= i < init.len() implies p(#[trigger] init[i]) == q(init[i]) by {
            assert(init[i] == nodes[i]);
        }
        lemma_filter_agree(init, p, q);
        assert(nodes.last() == nodes[nodes.len() - 1]);
    }
}

/// To keep some of the kept ones is to keep those for which both hold.
pub(super) proof fn lemma_filter_twice(nodes: Seq<NodeInfo>, p: spec_fn(NodeInfo) -> bool, q: spec_fn(NodeInfo) -> bool)
    ensures
        nodes.filter(p).filter(q) == nodes.filter(|n: NodeInfo| p(n) && q(n)),
    decreases nodes.len(),
{
    reveal(Seq::filter);
    if nodes.len() > 0 {
        let init = nodes.drop_last();
        lemma_filter_twice(init, p, q);
        if p(nodes.last()) {
            assert(init.filter(p).push(nodes.last()).drop_last() =~= init.filter(p));
        }
    }
}

/// A cursor moved on by one; it starts again from zero at the end of its range.
pub open spec fn advanced(index: usize) -> usize {
    if index == usize::MAX {
        0
    } else {
        (index + 1) as usize
    }
}

/// A strategy that chooses among healthy nodes.
pub trait Scheduler: Send + Sync {
    /// Select the next healthy node. Returns a clone of the selected node, or
    /// an error when no node is healthy.
    fn next_node(&self, nodes: &mut KeyedTable<NodeInfo>, index: &mut usize) -> (r: Result<NodeInfo, EdgeError>)
        ensures
            final(nodes)@ == old(nodes)@,
            match r {
                Ok(node) => {
                    &&& candidates(old(nodes)@, Set::empty()).contains(node)
                    &&& node.healthy
                    &&& exists|i: int| 0 <= i < old(nodes)@.len() && (#[trigger] old(nodes)@[i]).1 == node
                },
                Err(e) => {
                    &&& candidates(old(nodes)@, Set::empty()).len() == 0
                    &&& forall|i: int| 0 <= i < old(nodes)@.len() ==> !(#[trigger] old(nodes)@[i]).1.healthy
                    &&& *final(index) == *old(index)
                    &&& e@ == EdgeErrorView::NodeUnavailable("no healthy nodes registered"@)
                },
            },
    ;
}

} // verus!
