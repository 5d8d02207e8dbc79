//! Where the controller keeps nodes, jobs and tasks: the `Store` interface, and
//! what its contracts speak of.
use vstd::prelude::*;
use crate::error::StorageError;
use crate::models::{Job, JobView, Node, NodeView, Task, TaskStateView, TaskStatusUpdate, TaskView};

verus! {

pub open spec fn node_key(n: NodeView) -> u128 {
    n.id
}

pub open spec fn job_key(j: JobView) -> u128 {
    j.id
}

pub open spec fn task_key(t: TaskView) -> u128 {
    t.id
}

/// Every record of `m` is filed under its own identifier, and `m` is finite.
pub open spec fn keyed<V>(m: Map<u128, V>, key: spec_fn(V) -> u128) -> bool {
    &&& m.dom().finite()
    &&& forall|k: u128| #[trigger] m.contains_key(k) ==> key(m[k]) == k
}

/// The three collections of a store are each keyed by identifier, and no more
/// tasks are stored than a machine word counts.
pub open spec fn store_wf(nodes: Map<u128, NodeView>, jobs: Map<u128, JobView>, tasks: Map<u128, TaskView>) -> bool {
    &&& keyed(nodes, |n: NodeView| node_key(n))
    &&& keyed(jobs, |j: JobView| job_key(j))
    &&& keyed(tasks, |t: TaskView| task_key(t))
    &&& tasks.len() <= usize::MAX
}

/// `s` lists each record of `m` once, in some order.
pub open spec fn enumerates<V>(s: Seq<V>, m: Map<u128, V>, key: spec_fn(V) -> u128) -> bool {
    &&& forall|i: int| #![trigger s[i]] 0 <= i < s.len() ==> m.contains_key(key(s[i])) && m[key(s[i])] == s[i]
    &&& forall|i: int, j: int| #![trigger s[i], s[j]] 0 <= i < j < s.len() ==> key(s[i]) != key(s[j])
    &&& forall|k: u128| #[trigger] m.contains_key(k) ==> exists|i: int| 0 <= i < s.len() && key(#[trigger] s[i]) == k
}

pub open spec fn nodes_view(v: Seq<Node>) -> Seq<NodeView> {
    v.map_values(|n: Node| n@)
}

pub open spec fn jobs_view(v: Seq<Job>) -> Seq<JobView> {
    v.map_values(|j: Job| j@)
}

pub open spec fn tasks_view(v: Seq<Task>) -> Seq<TaskView> {
    v.map_values(|t: Task| t@)
}

/// The tasks of `tasks` that belong to job `job`.
pub open spec fn tasks_of_job(tasks: Map<u128, TaskView>, job: u128) -> Map<u128, TaskView> {
    Map::new(|k: u128| tasks.contains_key(k) && tasks[k].job_id == job, |k: u128| tasks[k])
}

/// `tasks` after the task `id`, if there is one, has been put in state `state`.
pub open spec fn set_task_state(tasks: Map<u128, TaskView>, id: u128, state: TaskStateView) -> Map<u128, TaskView> {
    if tasks.contains_key(id) {
        tasks.insert(id, tasks[id].with_state(state))
    } else {
        tasks
    }
}

/// Where the records of the control plane are kept.
///
/// A store is seen as three maps from identifier to record. A store that keeps
/// them elsewhere may fail; a failed write changes nothing, and a store that
/// `never_fails` answers every call with `Ok`.
pub trait Store: Sized {
    spec fn nodes(&self) -> Map<u128, NodeView>;

    spec fn jobs(&self) -> Map<u128, JobView>;

    spec fn tasks(&self) -> Map<u128, TaskView>;

    spec fn never_fails(&self) -> bool;

    /// Stores `node` under its identifier, in place of any node stored there.
    fn put_node(&mut self, node: &Node) -> (r: Result<(), StorageError>)
        requires
            store_wf(old(self).nodes(), old(self).jobs(), old(self).tasks()),
        ensures
            store_wf(final(self).nodes(), final(self).jobs(), final(self).tasks()),
            final(self).never_fails() == old(self).never_fails(),
            old(self).never_fails() ==> r is Ok,
            r is Ok ==> final(self).nodes() == old(self).nodes().insert(node.id, node@),
            r is Err ==> final(self).nodes() == old(self).nodes(),
            final(self).jobs() == old(self).jobs(),
            final(self).tasks() == old(self).tasks(),
    ;

    /// The node stored under `id`, if any.
    fn get_node(&self, id: u128) -> (r: Result<Option<Node>, StorageError>)
        requires
            store_wf(self.nodes(), self.jobs(), self.tasks()),
        ensures
            self.never_fails() ==> r is Ok,
            r matches Ok(o) ==> (o is Some <==> self.nodes().contains_key(id)),
            r matches Ok(o) ==> (o matches Some(n) ==> n@ == self.nodes()[id]),
    ;

    /// Every stored node, once each, in some order.
    fn list_nodes(&self) -> (r: Result<Vec<Node>, StorageError>)
        requires
            store_wf(self.nodes(), self.jobs(), self.tasks()),
        ensures
            self.never_fails() ==> r is Ok,
            r matches Ok(v) ==> enumerates(nodes_view(v@), self.nodes(), |n: NodeView| node_key(n)),
    ;

    /// Stores `job` under its identifier, in place of any job stored there.
    fn put_job(&mut self, job: &Job) -> (r: Result<(), StorageError>)
        requires
            store_wf(old(self).nodes(), old(self).jobs(), old(self).tasks()),
        ensures
            store_wf(final(self).nodes(), final(self).jobs(), final(self).tasks()),
            final(self).never_fails() == old(self).never_fails(),
            old(self).never_fails() ==> r is Ok,
            r is Ok ==> final(self).jobs() == old(self).jobs().insert(job.id, job@),
            r is Err ==> final(self).jobs() == old(self).jobs(),
            final(self).nodes() == old(self).nodes(),
            final(self).tasks() == old(self).tasks(),
    ;

    /// The job stored under `id`, if any.
    fn get_job(&self, id: u128) -> (r: Result<Option<Job>, StorageError>)
        requires
            store_wf(self.nodes(), self.jobs(), self.tasks()),
        ensures
            self.never_fails() ==> r is Ok,
            r matches Ok(o) ==> (o is Some <==> self.jobs().contains_key(id)),
            r matches Ok(o) ==> (o matches Some(j) ==> j@ == self.jobs()[id]),
    ;

    /// Every stored job, once each, in some order.
    fn list_jobs(&self) -> (r: Result<Vec<Job>, StorageError>)
        requires
            store_wf(self.nodes(), self.jobs(), self.tasks()),
        ensures
            self.never_fails() ==> r is Ok,
            r matches Ok(v) ==> enumerates(jobs_view(v@), self.jobs(), |j: JobView| job_key(j)),
    ;

    /// Stores `task` under its identifier, in place of any task stored there.
    fn put_task(&mut self, task: &Task) -> (r: Result<(), StorageError>)
        requires
            store_wf(old(self).nodes(), old(self).jobs(), old(self).tasks()),
        ensures
            store_wf(final(self).nodes(), final(self).jobs(), final(self).tasks()),
            final(self).never_fails() == old(self).never_fails(),
            old(self).never_fails() ==> r is Ok,
            r is Ok ==> final(self).tasks() == old(self).tasks().insert(task.id, task@),
            r is Err ==> final(self).tasks() == old(self).tasks(),
            final(self).nodes() == old(self).nodes(),
            final(self).jobs() == old(self).jobs(),
    ;

    /// The task stored under `id`, if any.
    fn get_task(&self, id: u128) -> (r: Result<Option<Task>, StorageError>)
        requires
            store_wf(self.nodes(), self.jobs(), self.tasks()),
        ensures
            self.never_fails() ==> r is Ok,
            r matches Ok(o) ==> (o is Some <==> self.tasks().contains_key(id)),
            r matches Ok(o) ==> (o matches Some(t) ==> t@ == self.tasks()[id]),
    ;

    /// Every stored task of job `job`, once each, in some order.
    fn list_tasks_by_job(&self, job: u128) -> (r: Result<Vec<Task>, StorageError>)
        requires
            store_wf(self.nodes(), self.jobs(), self.tasks()),
        ensures
            self.never_fails() ==> r is Ok,
            r matches Ok(v) ==> enumerates(tasks_view(v@), tasks_of_job(self.tasks(), job), |t: TaskView| task_key(t)),
    ;

    /// Puts the task that `upd` names, if it is stored, in the state that `upd`
    /// reports; any other task, and a task that is not stored, is left as it is.
    fn update_task_status(&mut self, upd: &TaskStatusUpdate) -> (r: Result<(), StorageError>)
        requires
            store_wf(old(self).nodes(), old(self).jobs(), old(self).tasks()),
        ensures
            store_wf(final(self).nodes(), final(self).jobs(), final(self).tasks()),
            final(self).never_fails() == old(self).never_fails(),
            old(self).never_fails() ==> r is Ok,
            r is Ok ==> final(self).tasks() == set_task_state(old(self).tasks(), upd.task_id, upd.state@),
            r is Err ==> final(self).tasks() == old(self).tasks(),
            final(self).nodes() == old(self).nodes(),
            final(self).jobs() == old(self).jobs(),
    ;
}

} // verus!

verus! {

/// Two listings of maps with no key in common, one after the other, list the
/// union of the maps.
pub proof fn lemma_enumerates_concat<V>(
    s1: Seq<V>,
    m1: Map<u128, V>,
    s2: Seq<V>,
    m2: Map<u128, V>,
    key: spec_fn(V) -> u128,
)
    requires
        enumerates(s1, m1, key),
        enumerates(s2, m2, key),
        m1.dom().disjoint(m2.dom()),
    ensures
        enumerates(s1 + s2, m1.union_prefer_right(m2), key),
{
    let s = s1 + s2;
    let m = m1.union_prefer_right(m2);
    assert forall|i: int| #![trigger s[i]] 0 <= i < s.len() implies m.contains_key(key(s[i])) && m[key(s[i])] == s[i] by {
        if i < s1.len() {
            assert(s[i] == s1[i]);
            assert(m1.contains_key(key(s1[i])));
            assert(!m2.contains_key(key(s1[i])));
        } else {
            assert(s[i] == s2[i - s1.len()]);
        }
    }
    assert forall|i: int, j: int| #![trigger s[i], s[j]] 0 <= i < j < s.len() implies key(s[i]) != key(s[j]) by {
        if j < s1.len() {
            assert(s[i] == s1[i] && s[j] == s1[j]);
        } else if i >= s1.len() {
            assert(s[i] == s2[i - s1.len()] && s[j] == s2[j - s1.len()]);
        } else {
            assert(s[i] == s1[i] && s[j] == s2[j - s1.len()]);
            assert(m1.contains_key(key(s1[i])));
            assert(m2.contains_key(key(s2[j - s1.len()])));
        }
    }
    assert forall|k: u128| #[trigger] m.contains_key(k) implies exists|i: int| 0 <= i < s.len() && key(#[trigger] s[i]) == k by {
        if m2.contains_key(k) {
            let i = choose|i: int| 0 <= i < s2.len() && key(#[trigger] s2[i]) == k;
            assert(s[i + s1.len()] == s2[i]);
        } else {
            let i = choose|i: int| 0 <= i < s1.len() && key(#[trigger] s1[i]) == k;
            assert(s[i] == s1[i]);
        }
    }
}

} // verus!
