//! The store that keeps everything in memory, one concurrent hash map per kind of
//! record.
use vstd::prelude::*;
use crate::error::StorageError;
use crate::models::{Job, JobView, Node, NodeView, Task, TaskStatusUpdate, TaskView};
use crate::store::{
    Store, enumerates, job_key, jobs_view, keyed, node_key, nodes_view, store_wf,
    task_key, tasks_of_job, tasks_view,
};
use crate::tables::{
    JobTable, NodeTable, TaskTable, job_table, job_table_entries, job_table_get, job_table_insert,
    job_table_new, lists_entries, node_table, node_table_entries, node_table_get, node_table_insert,
    node_table_new, task_table, task_table_entries, task_table_get, task_table_insert, task_table_new,
};

verus! {

/// The store that the controller runs with: nodes, jobs and tasks in memory.
pub struct InMemoryStore {
    nodes: NodeTable,
    jobs: JobTable,
    tasks: TaskTable,
}

impl Default for InMemoryStore {
    /// An empty store.
    fn default() -> (s: InMemoryStore)
        ensures
            s.nodes() == Map::<u128, NodeView>::empty(),
            s.jobs() == Map::<u128, JobView>::empty(),
            s.tasks() == Map::<u128, TaskView>::empty(),
            store_wf(s.nodes(), s.jobs(), s.tasks()),
    {
        InMemoryStore::new()
    }
}

impl Store for InMemoryStore {
    closed spec fn nodes(&self) -> Map<u128, NodeView> {
        node_table(self.nodes)
    }

    closed spec fn jobs(&self) -> Map<u128, JobView> {
        job_table(self.jobs)
    }

    closed spec fn tasks(&self) -> Map<u128, TaskView> {
        task_table(self.tasks)
    }

    open spec fn never_fails(&self) -> bool {
        true
    }

    fn put_node(&mut self, node: &Node) -> (r: Result<(), StorageError>) {
        node_table_insert(&mut self.nodes, node.id, node.copy());
        Ok(())
    }

    fn get_node(&self, id: u128) -> (r: Result<Option<Node>, StorageError>) {
        Ok(node_table_get(&self.nodes, id))
    }

    fn list_nodes(&self) -> (r: Result<Vec<Node>, StorageError>) {
        let entries = node_table_entries(&self.nodes);
        let ghost m = self.nodes();
        let mut out: Vec<Node> = Vec::new();
        let n = entries.len();
        for i in 0..n
            invariant
                n == entries@.len(),
                m == self.nodes(),
                keyed(m, |x: NodeView| node_key(x)),
                lists_entries(entries@, m),
                out@.len() == i,
                forall|p: int| #![trigger out@[p]] 0 <= p < i ==> out@[p]@ == entries@[p].1@ && out@[p]@.id == entries@[p].0,
        {
            let ghost e = i as int;
            assert(m.contains_key(entries@[e].0));
            assert(node_key(m[entries@[e].0]) == entries@[e].0);
            out.push(entries[i].1.copy());
        }
        proof {
            let s = nodes_view(out@);
            assert forall|k: u128| #[trigger] m.contains_key(k) implies
                exists|p: int| 0 <= p < s.len() && node_key(#[trigger] s[p]) == k by {
                let e = choose|e: int| 0 <= e < entries@.len() && (#[trigger] entries@[e]).0 == k;
                assert(s[e] == out@[e]@);
            }
            assert forall|p: int, q: int| #![trigger s[p], s[q]] 0 <= p < q < s.len() implies
                node_key(s[p]) != node_key(s[q]) by {
                assert(s[p].id == entries@[p].0 && s[q].id == entries@[q].0);
            }
        }
        Ok(out)
    }

    fn put_job(&mut self, job: &Job) -> (r: Result<(), StorageError>) {
        job_table_insert(&mut self.jobs, job.id, job.copy());
        Ok(())
    }

    fn get_job(&self, id: u128) -> (r: Result<Option<Job>, StorageError>) {
        Ok(job_table_get(&self.jobs, id))
    }

    fn list_jobs(&self) -> (r: Result<Vec<Job>, StorageError>) {
        let entries = job_table_entries(&self.jobs);
        let ghost m = self.jobs();
        let mut out: Vec<Job> = Vec::new();
        let n = entries.len();
        for i in 0..n
            invariant
                n == entries@.len(),
                m == self.jobs(),
                keyed(m, |x: JobView| job_key(x)),
                lists_entries(entries@, m),
                out@.len() == i,
                forall|p: int| #![trigger out@[p]] 0 <= p < i ==> out@[p]@ == entries@[p].1@ && out@[p]@.id == entries@[p].0,
        {
            let ghost e = i as int;
            assert(m.contains_key(entries@[e].0));
            assert(job_key(m[entries@[e].0]) == entries@[e].0);
            out.push(entries[i].1.copy());
        }
        proof {
            let s = jobs_view(out@);
            assert forall|k: u128| #[trigger] m.contains_key(k) implies
                exists|p: int| 0 <= p < s.len() && job_key(#[trigger] s[p]) == k by {
                let e = choose|e: int| 0 <= e < entries@.len() && (#[trigger] entries@[e]).0 == k;
                assert(s[e] == out@[e]@);
            }
            assert forall|p: int, q: int| #![trigger s[p], s[q]] 0 <= p < q < s.len() implies
                job_key(s[p]) != job_key(s[q]) by {
                assert(s[p].id == entries@[p].0 && s[q].id == entries@[q].0);
            }
        }
        Ok(out)
    }

    fn put_task(&mut self, task: &Task) -> (r: Result<(), StorageError>) {
        task_table_insert(&mut self.tasks, task.id, task.copy());
        Ok(())
    }

    fn get_task(&self, id: u128) -> (r: Result<Option<Task>, StorageError>) {
        Ok(task_table_get(&self.tasks, id))
    }

    fn list_tasks_by_job(&self, job: u128) -> (r: Result<Vec<Task>, StorageError>) {
        Ok(self.tasks_for_job(job))
    }

    fn update_task_status(&mut self, upd: &TaskStatusUpdate) -> (r: Result<(), StorageError>) {
        if let Some(t) = task_table_get(&self.tasks, upd.task_id) {
            let updated = Task {
                id: t.id,
                job_id: t.job_id,
                state: upd.state.copy(),
                attempt: t.attempt,
                priority: t.priority,
            };
            task_table_insert(&mut self.tasks, upd.task_id, updated);
        }
        Ok(())
    }
}

impl InMemoryStore {
    /// An empty store.
    pub fn new() -> (s: InMemoryStore)
        ensures
            s.nodes() == Map::<u128, NodeView>::empty(),
            s.jobs() == Map::<u128, JobView>::empty(),
            s.tasks() == Map::<u128, TaskView>::empty(),
            store_wf(s.nodes(), s.jobs(), s.tasks()),
    {
        InMemoryStore { nodes: node_table_new(), jobs: job_table_new(), tasks: task_table_new() }
    }

    /// Every stored task of job `job`, once each, in the order of the table.
    fn tasks_for_job(&self, job: u128) -> (out: Vec<Task>)
        requires
            store_wf(self.nodes(), self.jobs(), self.tasks()),
        ensures
            enumerates(tasks_view(out@), tasks_of_job(self.tasks(), job), |t: TaskView| task_key(t)),
    {
        let entries = task_table_entries(&self.tasks);
        let ghost m = self.tasks();
        let ghost sel = tasks_of_job(m, job);
        let mut out: Vec<Task> = Vec::new();
        let ghost mut idx: Seq<int> = Seq::empty();
        let n = entries.len();
        for i in 0..n
            invariant
                n == entries@.len(),
                m == self.tasks(),
                sel == tasks_of_job(m, job),
                keyed(m, |t: TaskView| task_key(t)),
                lists_entries(entries@, m),
                idx.len() == out@.len(),
                forall|p: int| #![trigger idx[p]] 0 <= p < idx.len() ==> 0 <= idx[p] < i,
                forall|p: int, q: int| #![trigger idx[p], idx[q]] 0 <= p < q < idx.len() ==> idx[p] < idx[q],
                forall|p: int| #![trigger out@[p]] 0 <= p < out@.len() ==>
                    out@[p]@ == entries@[idx[p]].1@ && out@[p]@.id == entries@[idx[p]].0
                    && out@[p]@.job_id == job,
                forall|e: int| #![trigger entries@[e]] 0 <= e < i && entries@[e].1@.job_id == job ==>
                    exists|p: int| 0 <= p < idx.len() && idx[p] == e,
        {
            let ghost e = i as int;
            let ghost old_idx = idx;
            assert(m.contains_key(entries@[e].0));
            assert(task_key(m[entries@[e].0]) == entries@[e].0);
            if entries[i].1.job_id == job {
                let t = entries[i].1.copy();
                out.push(t);
                proof {
                    idx = idx.push(i as int);
                    assert(idx[idx.len() - 1] == e);
                }
            }
            proof {
                assert forall|f: int| #![trigger entries@[f]] 0 <= f < i + 1 && entries@[f].1@.job_id == job implies
                    exists|p: int| 0 <= p < idx.len() && idx[p] == f by {
                    if f == e {
                        assert(idx[idx.len() - 1] == e);
                    } else {
                        let p = choose|p: int| 0 <= p < old_idx.len() && old_idx[p] == f;
                        assert(idx[p] == old_idx[p]);
                    }
                }
            }
        }
        let ghost s = tasks_view(out@);
        assert forall|p: int| #![trigger s[p]] 0 <= p < s.len() implies
            sel.contains_key(task_key(s[p])) && sel[task_key(s[p])] == s[p] by {
            let e = idx[p];
            assert(entries@[e].1@ == m[entries@[e].0]);
        }
        assert forall|p: int, q: int| #![trigger s[p], s[q]] 0 <= p < q < s.len() implies
            task_key(s[p]) != task_key(s[q]) by {
            assert(idx[p] < idx[q]);
            assert(s[p].id == entries@[idx[p]].0 && s[q].id == entries@[idx[q]].0);
        }
        assert forall|k: u128| #[trigger] sel.contains_key(k) implies
            exists|p: int| 0 <= p < s.len() && task_key(#[trigger] s[p]) == k by {
            assert(m.contains_key(k));
            let e = choose|e: int| 0 <= e < entries@.len() && (#[trigger] entries@[e]).0 == k;
            assert(entries@[e].1@ == m[k]);
            let p = choose|p: int| 0 <= p < idx.len() && idx[p] == e;
            assert(s[p] == out@[p]@);
        }
        out
    }
}

} // verus!
