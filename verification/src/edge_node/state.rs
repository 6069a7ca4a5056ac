use vstd::prelude::*;

verus! {

/// The counters of an edge node.
#[derive(Debug)]
pub struct NodeState {
    pub node_id: String,
    /// Number of tasks currently executing.
    pub active_tasks: usize,
    pub total_executed: u64,
    pub total_failed: u64,
    /// Sum of execution times for completed tasks (used to compute the average).
    pub total_execution_time_ms: u64,
}

impl NodeState {
    pub fn new(node_id: &str) -> (st: Self)
        ensures
            st.node_id@ == node_id@,
            st.active_tasks == 0,
            st.total_executed == 0,
            st.total_failed == 0,
            st.total_execution_time_ms == 0,
    {
        NodeState {
            node_id: node_id.to_string(),
            active_tasks: 0,
            total_executed: 0,
            total_failed: 0,
            total_execution_time_ms: 0,
        }
    }

    /// The state once a task has been taken on.
    pub open spec fn admitted(self) -> Self {
        NodeState { active_tasks: (self.active_tasks + 1) as usize, ..self }
    }

    /// The state once a task has left the node.
    pub open spec fn released(self) -> Self {
        NodeState { active_tasks: if self.active_tasks > 0 { (self.active_tasks - 1) as usize } else { 0 }, ..self }
    }

    /// The state once a task has left the node and counts as failed.
    pub open spec fn failed(self) -> Self {
        NodeState { total_failed: (self.total_failed + 1) as u64, ..self.released() }
    }

    /// The state once a task has left the node after a success that took so
    /// many milliseconds.
    pub open spec fn succeeded(self, execution_time_ms: u64) -> Self {
        NodeState {
            total_executed: (self.total_executed + 1) as u64,
            total_execution_time_ms: (self.total_execution_time_ms + execution_time_ms) as u64,
            ..self.released()
        }
    }

    /// Takes a task on.
    pub fn take_on(&mut self)
        requires
            old(self).active_tasks < usize::MAX,
        ensures
            *final(self) == old(self).admitted(),
            final(self).active_tasks == old(self).active_tasks + 1,
    {
        self.active_tasks = self.active_tasks + 1;
    }

    /// Lets a task leave the node.
    pub fn release(&mut self)
        ensures
            *final(self) == old(self).released(),
    {
        self.active_tasks = self.active_tasks.saturating_sub(1);
    }

    /// Lets a failed task leave the node.
    pub fn record_failure(&mut self)
        requires
            old(self).total_failed < u64::MAX,
        ensures
            *final(self) == old(self).failed(),
            final(self).total_failed == old(self).total_failed + 1,
    {
        self.release();
        self.total_failed = self.total_failed + 1;
    }

    /// Lets a task that succeeded leave the node.
    pub fn record_success(&mut self, execution_time_ms: u64)
        requires
            old(self).total_executed < u64::MAX,
            old(self).total_execution_time_ms + execution_time_ms <= u64::MAX,
        ensures
            *final(self) == old(self).succeeded(execution_time_ms),
            final(self).total_executed == old(self).total_executed + 1,
            final(self).total_execution_time_ms == old(self).total_execution_time_ms + execution_time_ms,
    {
        self.release();
        self.total_executed = self.total_executed + 1;
        self.total_execution_time_ms = self.total_execution_time_ms + execution_time_ms;
    }
}

/// Taking a task on occupies one slot; every way in which it leaves frees one, as long as
/// one is occupied. A failure is counted as one failed task, a success as one executed task
/// with its time, and nothing else changes.
pub proof fn law_each_end_counts_once(st: NodeState, execution_time_ms: u64)
    requires
        st.active_tasks < usize::MAX,
        st.total_failed < u64::MAX,
        st.total_executed < u64::MAX,
        st.total_execution_time_ms + execution_time_ms <= u64::MAX,
    ensures
        st.admitted().active_tasks == st.active_tasks + 1,
        st.admitted() == (NodeState { active_tasks: st.admitted().active_tasks, ..st }),
        ({
            let left = if st.active_tasks == 0 { 0 } else { st.active_tasks - 1 };
            &&& st.released().active_tasks == left
            &&& st.failed().active_tasks == left
            &&& st.succeeded(execution_time_ms).active_tasks == left
        }),
        st.released() == (NodeState { active_tasks: st.released().active_tasks, ..st }),
        st.failed().total_failed == st.total_failed + 1,
        st.failed().total_executed == st.total_executed,
        st.failed().total_execution_time_ms == st.total_execution_time_ms,
        st.failed().node_id == st.node_id,
        st.succeeded(execution_time_ms).total_failed == st.total_failed,
        st.succeeded(execution_time_ms).total_executed == st.total_executed + 1,
        st.succeeded(execution_time_ms).total_execution_time_ms == st.total_execution_time_ms + execution_time_ms,
        st.succeeded(execution_time_ms).node_id == st.node_id,
{
}

} // verus!
