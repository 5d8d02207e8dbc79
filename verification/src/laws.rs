//! Properties of the control plane that hold across operations.
use vstd::prelude::*;
use crate::agent::{command_args, command_program};
use crate::controller::{assignment_step, new_tasks, pending_part, pending_task, pending_tasks};
use crate::models::{JobView, TaskStateView, TaskView};
use crate::store::{set_task_state, tasks_of_job};

verus! {

/// Every task belongs to a stored job.
pub open spec fn tasks_reference_jobs(tasks: Map<u128, TaskView>, jobs: Map<u128, JobView>) -> bool {
    forall|k: u128| #[trigger] tasks.contains_key(k) ==> jobs.contains_key(tasks[k].job_id)
}

/// Read after write: once a record is stored under a key, the key holds exactly
/// that record, and every other key holds what it held before.
pub proof fn law_read_after_write<V>(m: Map<u128, V>, key: u128, value: V)
    ensures
        m.insert(key, value).contains_key(key),
        m.insert(key, value)[key] == value,
        forall|k: u128| k != key ==> (#[trigger] m.insert(key, value).contains_key(k) <==> m.contains_key(k)),
        forall|k: u128| k != key && m.contains_key(k) ==> #[trigger] m.insert(key, value)[k] == m[k],
{
}

/// A status update reads back: the task it names now has the reported state and
/// keeps its job, attempt and priority; every other task is unchanged; and an
/// update of a task that is not stored changes nothing.
pub proof fn law_status_update_reads_back(tasks: Map<u128, TaskView>, id: u128, state: TaskStateView)
    ensures
        tasks.contains_key(id) ==> set_task_state(tasks, id, state)[id] == (TaskView { state: state, ..tasks[id] }),
        !tasks.contains_key(id) ==> set_task_state(tasks, id, state) == tasks,
        set_task_state(tasks, id, state).dom() == tasks.dom(),
        forall|k: u128| k != id && tasks.contains_key(k) ==> #[trigger] set_task_state(tasks, id, state)[k] == tasks[k],
{
    if tasks.contains_key(id) {
        assert(tasks.insert(id, tasks[id].with_state(state)).dom() =~= tasks.dom());
    }
}

/// A new job has exactly as many tasks as it has replicas, each pending, never
/// tried, and of the job's priority: given distinct fresh task identifiers and a
/// job identifier that no stored task names.
pub proof fn law_new_job_has_one_pending_task_per_replica(
    tasks: Map<u128, TaskView>,
    ids: Seq<u128>,
    job_id: u128,
    priority: u8,
)
    requires
        tasks.dom().finite(),
        ids.no_duplicates(),
        forall|i: int| 0 <= i < ids.len() ==> !tasks.contains_key(#[trigger] ids[i]),
        forall|k: u128| #[trigger] tasks.contains_key(k) ==> tasks[k].job_id != job_id,
    ensures
        tasks_of_job(tasks.union_prefer_right(new_tasks(ids, job_id, priority)), job_id).len() == ids.len(),
        forall|k: u128| #[trigger] tasks_of_job(tasks.union_prefer_right(new_tasks(ids, job_id, priority)), job_id).contains_key(k)
            ==> tasks_of_job(tasks.union_prefer_right(new_tasks(ids, job_id, priority)), job_id)[k] == pending_task(k, job_id, priority),
{
    let all = tasks.union_prefer_right(new_tasks(ids, job_id, priority));
    let mine = tasks_of_job(all, job_id);
    assert(mine.dom() =~= ids.to_set()) by {
        assert forall|k: u128| #[trigger] mine.contains_key(k) implies ids.to_set().contains(k) by {
            if !ids.contains(k) {
                assert(tasks.contains_key(k));
            }
        }
    }
    ids.unique_seq_to_set();
}

/// Handing a task out takes exactly that task off the tasks that wait: it is not
/// handed out again while it stays assigned, and one task fewer waits.
pub proof fn law_assignment_takes_one_task_off(
    tasks: Map<u128, TaskView>,
    jobs: Map<u128, JobView>,
    id: u128,
    node_id: u128,
)
    requires
        tasks.dom().finite(),
        pending_tasks(tasks, jobs).contains_key(id),
    ensures
        pending_tasks(tasks.insert(id, tasks[id].with_state(TaskStateView::Assigned { node_id: node_id })), jobs)
            == pending_tasks(tasks, jobs).remove(id),
        pending_tasks(tasks.insert(id, tasks[id].with_state(TaskStateView::Assigned { node_id: node_id })), jobs).len()
            == pending_tasks(tasks, jobs).len() - 1,
{
    let before = pending_tasks(tasks, jobs);
    let after = pending_tasks(tasks.insert(id, tasks[id].with_state(TaskStateView::Assigned { node_id: node_id })), jobs);
    assert(after =~= before.remove(id));
    assert(before.dom().subset_of(tasks.dom()));
    vstd::set_lib::lemma_len_subset(before.dom(), tasks.dom());
}

/// Where every task belongs to a stored job, every task that waits is one that
/// the controller hands out.
pub proof fn law_every_waiting_task_is_offered(tasks: Map<u128, TaskView>, jobs: Map<u128, JobView>)
    requires
        tasks_reference_jobs(tasks, jobs),
    ensures
        pending_tasks(tasks, jobs) == pending_part(tasks),
{
    assert(pending_tasks(tasks, jobs) =~= pending_part(tasks));
}

/// Accepting a job keeps every task belonging to a stored job, for any
/// identifiers of its tasks: also where a store failed after storing the job and
/// some of its tasks.
pub proof fn law_new_job_keeps_references(
    tasks: Map<u128, TaskView>,
    jobs: Map<u128, JobView>,
    job: JobView,
    ids: Seq<u128>,
)
    requires
        tasks_reference_jobs(tasks, jobs),
    ensures
        tasks_reference_jobs(
            tasks.union_prefer_right(new_tasks(ids, job.id, job.spec.priority)),
            jobs.insert(job.id, job),
        ),
{
}

/// Putting a task in another state, as an assignment or a status update does,
/// keeps every task belonging to a stored job.
pub proof fn law_state_change_keeps_references(
    tasks: Map<u128, TaskView>,
    jobs: Map<u128, JobView>,
    id: u128,
    state: TaskStateView,
)
    requires
        tasks_reference_jobs(tasks, jobs),
    ensures
        tasks_reference_jobs(set_task_state(tasks, id, state), jobs),
        tasks.contains_key(id) ==> tasks_reference_jobs(tasks.insert(id, tasks[id].with_state(state)), jobs),
{
}

/// The tasks that the first `i` calls handed out.
pub open spec fn handed_out(outs: Seq<Option<u128>>, i: int) -> Set<u128> {
    Set::new(|id: u128| exists|j: int| 0 <= j < i && #[trigger] outs[j] == Some(id))
}

/// A run of calls that hand out tasks: `states[i]` is the task map before call
/// `i`, which hands out `outs[i]` to node `nodes[i]` and leaves `states[i + 1]`.
pub open spec fn assignment_run(
    states: Seq<Map<u128, TaskView>>,
    jobs: Map<u128, JobView>,
    nodes: Seq<u128>,
    outs: Seq<Option<u128>>,
) -> bool {
    &&& states.len() == outs.len() + 1
    &&& nodes.len() == outs.len()
    &&& states[0].dom().finite()
    &&& forall|i: int| 0 <= i < outs.len() ==> #[trigger] assignment_step(states[i], jobs, nodes[i], outs[i], states[i + 1])
}

proof fn lemma_run_prefix(
    states: Seq<Map<u128, TaskView>>,
    jobs: Map<u128, JobView>,
    nodes: Seq<u128>,
    outs: Seq<Option<u128>>,
    i: int,
)
    requires
        assignment_run(states, jobs, nodes, outs),
        0 <= i <= outs.len(),
    ensures
        states[i].dom().finite(),
        pending_tasks(states[i], jobs) == pending_tasks(states[0], jobs).remove_keys(handed_out(outs, i)),
        handed_out(outs, i).subset_of(pending_tasks(states[0], jobs).dom()),
        forall|j: int| 0 <= j < i ==> (#[trigger] outs[j] is Some <==> j < pending_tasks(states[0], jobs).len()),
        forall|j1: int, j2: int| 0 <= j1 < j2 < i && outs[j1] is Some && outs[j2] is Some ==> #[trigger] outs[j1] != #[trigger] outs[j2],
        pending_tasks(states[i], jobs).len() == if i <= pending_tasks(states[0], jobs).len() {
            pending_tasks(states[0], jobs).len() - i
        } else {
            0
        },
    decreases i,
{
    let p0 = pending_tasks(states[0], jobs);
    let big_p = p0.len();
    if i == 0 {
        assert(handed_out(outs, 0) =~= Set::<u128>::empty());
        assert(p0.remove_keys(handed_out(outs, 0)) =~= p0);
    } else {
        let j = i - 1;
        lemma_run_prefix(states, jobs, nodes, outs, j);
        assert(assignment_step(states[j], jobs, nodes[j], outs[j], states[j + 1]));
        let pj = pending_tasks(states[j], jobs);
        assert(pj.dom().subset_of(states[j].dom()));
        vstd::set_lib::lemma_len_subset(pj.dom(), states[j].dom());
        if pj.is_empty() {
            assert(outs[j] is None);
            assert(states[i] == states[j]);
            assert(handed_out(outs, i) =~= handed_out(outs, j)) by {
                assert forall|id: u128| handed_out(outs, i).contains(id) implies handed_out(outs, j).contains(id) by {
                    let k = choose|k: int| 0 <= k < i && #[trigger] outs[k] == Some(id);
                    assert(k != j);
                }
            }
            assert(pj.dom() =~= Set::<u128>::empty());
            assert(!(j < big_p));
        } else {
            let id = outs[j]->0;
            assert(outs[j] == Some(id));
            assert(pj.contains_key(id));
            crate::laws::law_assignment_takes_one_task_off(states[j], jobs, id, nodes[j]);
            assert(handed_out(outs, i) =~= handed_out(outs, j).insert(id)) by {
                assert forall|x: u128| handed_out(outs, i).contains(x) implies
                    (handed_out(outs, j).contains(x) || x == id) by {
                    let k = choose|k: int| 0 <= k < i && #[trigger] outs[k] == Some(x);
                    if k < j {
                        assert(handed_out(outs, j).contains(x));
                    }
                }
                assert forall|x: u128| handed_out(outs, j).contains(x) implies handed_out(outs, i).contains(x) by {
                    let k = choose|k: int| 0 <= k < j && #[trigger] outs[k] == Some(x);
                    assert(0 <= k < i && outs[k] == Some(x));
                }
                assert(outs[j] == Some(id));
            }
            assert(pending_tasks(states[i], jobs) =~= p0.remove_keys(handed_out(outs, i)));
            assert(pj.dom().contains(id));
            assert(j < big_p);
            assert forall|j1: int, j2: int| 0 <= j1 < j2 < i && outs[j1] is Some && outs[j2] is Some implies
                #[trigger] outs[j1] != #[trigger] outs[j2] by {
                if j2 == j {
                    assert(handed_out(outs, j).contains(outs[j1]->0));
                    assert(!pj.contains_key(outs[j1]->0));
                }
            }
        }
    }
}

/// Handed out one after another, every waiting task is handed out exactly once:
/// in a run of calls, the first calls, as many as tasks wait at the start, each
/// hand out a different waiting task, and every later call hands out none; once
/// the run is that long, every task that waited has been handed out.
pub proof fn law_each_waiting_task_handed_out_once(
    states: Seq<Map<u128, TaskView>>,
    jobs: Map<u128, JobView>,
    nodes: Seq<u128>,
    outs: Seq<Option<u128>>,
)
    requires
        assignment_run(states, jobs, nodes, outs),
    ensures
        forall|i: int| 0 <= i < outs.len() ==> (#[trigger] outs[i] is Some <==> i < pending_tasks(states[0], jobs).len()),
        forall|i: int, j: int| 0 <= i < j < outs.len() && outs[i] is Some && outs[j] is Some ==> #[trigger] outs[i] != #[trigger] outs[j],
        forall|i: int| 0 <= i < outs.len() && #[trigger] outs[i] is Some ==> pending_tasks(states[0], jobs).contains_key(outs[i]->0),
        outs.len() >= pending_tasks(states[0], jobs).len() ==> handed_out(outs, outs.len() as int) == pending_tasks(states[0], jobs).dom(),
{
    let k = outs.len() as int;
    lemma_run_prefix(states, jobs, nodes, outs, k);
    let p0 = pending_tasks(states[0], jobs);
    assert forall|i: int| 0 <= i < outs.len() && #[trigger] outs[i] is Some implies p0.contains_key(outs[i]->0) by {
        assert(handed_out(outs, k).contains(outs[i]->0));
    }
    if k >= p0.len() {
        let pk = pending_tasks(states[k], jobs);
        assert(pk.dom().finite()) by {
            assert(pk.dom().subset_of(states[k].dom()));
        }
        assert(pk.dom() =~= Set::<u128>::empty());
        assert(handed_out(outs, k) =~= p0.dom()) by {
            assert forall|x: u128| p0.dom().contains(x) implies handed_out(outs, k).contains(x) by {
                if !handed_out(outs, k).contains(x) {
                    assert(pk.contains_key(x));
                }
            }
        }
    }
}

/// A task's command runs as its first word, or `echo` when it is empty, with
/// every later word, in order, as the arguments: a command of `n >= 1` words
/// gives `n - 1` arguments.
pub proof fn law_invocation_keeps_every_later_word(command: Seq<Seq<char>>)
    ensures
        command.len() == 0 ==> command_program(command) == "echo"@ && command_args(command).len() == 0,
        command.len() >= 1 ==> command_program(command) == command[0],
        command.len() >= 1 ==> command_args(command).len() == command.len() - 1,
        forall|i: int| 0 <= i < command_args(command).len() ==> #[trigger] command_args(command)[i] == command[i + 1],
        forall|i: int| 1 <= i < command.len() ==> command_args(command).contains(#[trigger] command[i]),
{
    assert forall|i: int| 1 <= i < command.len() implies command_args(command).contains(#[trigger] command[i]) by {
        assert(command_args(command)[i - 1] == command[i]);
    }
}

/// Accepting a job under fresh, distinct task identifiers, as `create_job` draws
/// them, keeps every task stored before unchanged and adds exactly one new
/// pending task of the job per identifier: one per replica.
pub proof fn law_new_job_keeps_every_stored_task(
    tasks: Map<u128, TaskView>,
    ids: Seq<u128>,
    job_id: u128,
    priority: u8,
)
    requires
        tasks.dom().finite(),
        ids.no_duplicates(),
        forall|i: int| 0 <= i < ids.len() ==> !tasks.contains_key(#[trigger] ids[i]),
    ensures
        forall|k: u128| #[trigger] tasks.contains_key(k) ==>
            tasks.union_prefer_right(new_tasks(ids, job_id, priority)).contains_key(k)
            && tasks.union_prefer_right(new_tasks(ids, job_id, priority))[k] == tasks[k],
        tasks.union_prefer_right(new_tasks(ids, job_id, priority)).len() == tasks.len() + ids.len(),
        forall|i: int| 0 <= i < ids.len() ==>
            tasks.union_prefer_right(new_tasks(ids, job_id, priority))[#[trigger] ids[i]] == pending_task(ids[i], job_id, priority),
{
    let all = tasks.union_prefer_right(new_tasks(ids, job_id, priority));
    assert forall|k: u128| #[trigger] tasks.contains_key(k) implies all.contains_key(k) && all[k] == tasks[k] by {
        if ids.contains(k) {
            let i = choose|i: int| 0 <= i < ids.len() && ids[i] == k;
            assert(!tasks.contains_key(ids[i]));
        }
    }
    assert forall|i: int| 0 <= i < ids.len() implies all[#[trigger] ids[i]] == pending_task(ids[i], job_id, priority) by {
        assert(ids.contains(ids[i]));
    }
    assert(tasks.dom().disjoint(ids.to_set())) by {
        assert forall|k: u128| tasks.dom().contains(k) implies !ids.to_set().contains(k) by {
            if ids.contains(k) {
                let i = choose|i: int| 0 <= i < ids.len() && ids[i] == k;
                assert(!tasks.contains_key(ids[i]));
            }
        }
    }
    assert(all.dom() =~= tasks.dom().union(ids.to_set()));
    ids.unique_seq_to_set();
    vstd::set_lib::lemma_set_disjoint_lens(tasks.dom(), ids.to_set());
}

} // verus!
