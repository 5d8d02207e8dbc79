//! The concurrent hash maps (`dashmap::DashMap`) in which the in-memory store keeps
//! its records, keyed by identifier.
//!
//! Verus sees a table only through the map of views that it holds, named below
//! for each kind of record; the functions here are the only ones that touch a
//! table, and each states what it does to that map. A table is changed only
//! through `&mut`, so the value of a table stands for its contents.
use vstd::prelude::*;
use crate::models::{Job, JobView, Node, NodeView, Task, TaskView};

verus! {

#[verifier::external_type_specification]
#[verifier::external_body]
#[verifier::reject_recursive_types(K)]
#[verifier::reject_recursive_types(V)]
#[verifier::reject_recursive_types(S)]
pub struct ExDashMap<K, V, S>(dashmap::DashMap<K, V, S>);

/// A table of nodes.
pub type NodeTable = dashmap::DashMap<u128, Node>;

/// A table of jobs.
pub type JobTable = dashmap::DashMap<u128, Job>;

/// A table of tasks.
pub type TaskTable = dashmap::DashMap<u128, Task>;

/// The nodes that a node table holds, by key.
pub uninterp spec fn node_table(m: NodeTable) -> Map<u128, NodeView>;

/// The jobs that a job table holds, by key.
pub uninterp spec fn job_table(m: JobTable) -> Map<u128, JobView>;

/// The tasks that a task table holds, by key.
pub uninterp spec fn task_table(m: TaskTable) -> Map<u128, TaskView>;

/// `entries` lists each key of `m` once, with the view of the value that `m`
/// holds under it, in some order.
pub open spec fn lists_entries<V, W: View<V = V>>(entries: Seq<(u128, W)>, m: Map<u128, V>) -> bool {
    &&& forall|i: int| #![trigger entries[i]]
        0 <= i < entries.len() ==> m.contains_key(entries[i].0) && m[entries[i].0] == entries[i].1@
    &&& forall|i: int, j: int| #![trigger entries[i], entries[j]]
        0 <= i < j < entries.len() ==> entries[i].0 != entries[j].0
    &&& forall|k: u128| #[trigger] m.contains_key(k) ==> exists|i: int| 0 <= i < entries.len() && (#[trigger] entries[i]).0 == k
}

// ---------------------------------------------------------------- nodes

/// `DashMap::new`: an empty node table.
#[verifier::external_body]
pub(crate) fn node_table_new() -> (m: NodeTable)
    ensures
        node_table(m) =~= Map::empty(),
{
    dashmap::DashMap::new()
}

/// `DashMap::insert`: after the call the table holds `value` under `key`, and
/// everything else as before.
#[verifier::external_body]
pub(crate) fn node_table_insert(m: &mut NodeTable, key: u128, value: Node)
    ensures
        node_table(*final(m)) == node_table(*old(m)).insert(key, value@),
{
    m.insert(key, value);
}

/// `DashMap::get`, with the value cloned out of the guard: what the table holds
/// under `key`, if anything.
#[verifier::external_body]
pub(crate) fn node_table_get(m: &NodeTable, key: u128) -> (out: Option<Node>)
    ensures
        out is Some <==> node_table(*m).contains_key(key),
        out matches Some(v) ==> v@ == node_table(*m)[key],
{
    match m.get(&key) {
        Some(r) => Some(r.value().clone()),
        None => None,
    }
}

/// `DashMap::iter`, with each entry's key copied and value cloned out of its guard:
/// every entry once, in the order of the shards.
#[verifier::external_body]
pub(crate) fn node_table_entries(m: &NodeTable) -> (out: Vec<(u128, Node)>)
    ensures
        lists_entries(out@, node_table(*m)),
{
    m.iter().map(|r| (*r.key(), r.value().clone())).collect()
}

// ---------------------------------------------------------------- jobs

/// `DashMap::new`: an empty job table.
#[verifier::external_body]
pub(crate) fn job_table_new() -> (m: JobTable)
    ensures
        job_table(m) =~= Map::empty(),
{
    dashmap::DashMap::new()
}

/// `DashMap::insert`: after the call the table holds `value` under `key`, and
/// everything else as before.
#[verifier::external_body]
pub(crate) fn job_table_insert(m: &mut JobTable, key: u128, value: Job)
    ensures
        job_table(*final(m)) == job_table(*old(m)).insert(key, value@),
{
    m.insert(key, value);
}

/// `DashMap::get`, with the value cloned out of the guard: what the table holds
/// under `key`, if anything.
#[verifier::external_body]
pub(crate) fn job_table_get(m: &JobTable, key: u128) -> (out: Option<Job>)
    ensures
        out is Some <==> job_table(*m).contains_key(key),
        out matches Some(v) ==> v@ == job_table(*m)[key],
{
    match m.get(&key) {
        Some(r) => Some(r.value().clone()),
        None => None,
    }
}

/// `DashMap::iter`, with each entry's key copied and value cloned out of its guard:
/// every entry once, in the order of the shards.
#[verifier::external_body]
pub(crate) fn job_table_entries(m: &JobTable) -> (out: Vec<(u128, Job)>)
    ensures
        lists_entries(out@, job_table(*m)),
{
    m.iter().map(|r| (*r.key(), r.value().clone())).collect()
}

// ---------------------------------------------------------------- tasks

/// `DashMap::new`: an empty task table.
#[verifier::external_body]
pub(crate) fn task_table_new() -> (m: TaskTable)
    ensures
        task_table(m) =~= Map::empty(),
{
    dashmap::DashMap::new()
}

/// `DashMap::insert`: after the call the table holds `value` under `key`, and
/// everything else as before. A table in memory holds fewer entries than a
/// machine word counts (each entry takes at least the 16 bytes of its key).
#[verifier::external_body]
pub(crate) fn task_table_insert(m: &mut TaskTable, key: u128, value: Task)
    ensures
        task_table(*final(m)) == task_table(*old(m)).insert(key, value@),
        task_table(*final(m)).len() <= usize::MAX,
{
    m.insert(key, value);
}

/// `DashMap::get`, with the value cloned out of the guard: what the table holds
/// under `key`, if anything.
#[verifier::external_body]
pub(crate) fn task_table_get(m: &TaskTable, key: u128) -> (out: Option<Task>)
    ensures
        out is Some <==> task_table(*m).contains_key(key),
        out matches Some(v) ==> v@ == task_table(*m)[key],
{
    match m.get(&key) {
        Some(r) => Some(r.value().clone()),
        None => None,
    }
}

/// `DashMap::iter`, with each entry's key copied and value cloned out of its guard:
/// every entry once, in the order of the shards.
#[verifier::external_body]
pub(crate) fn task_table_entries(m: &TaskTable) -> (out: Vec<(u128, Task)>)
    ensures
        lists_entries(out@, task_table(*m)),
{
    m.iter().map(|r| (*r.key(), r.value().clone())).collect()
}

} // verus!
