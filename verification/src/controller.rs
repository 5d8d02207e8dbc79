//! What the controller does on each request of its HTTP API: register and renew
//! agents, accept jobs and split them into tasks, hand pending tasks to agents,
//! and record what agents report.
use vstd::prelude::*;
use crate::error::{ApiError, StorageError, STATUS_NO_CONTENT};
use crate::ids::{is_random_id, new_id, now_nanos};
use crate::models::{
    Assignment, Job, JobSpec, JobView, Node, NodeRegistration, NodeView, Task, TaskState,
    TaskStateView, TaskStatusUpdate, TaskView, copy_strings,
};
use crate::store::{
    Store, enumerates, job_key, jobs_view, keyed, lemma_enumerates_concat, set_task_state, store_wf,
    task_key, tasks_of_job, tasks_view,
};

verus! {

/// The tasks of `m` that wait for an agent.
pub open spec fn pending_part(m: Map<u128, TaskView>) -> Map<u128, TaskView> {
    Map::new(|k: u128| m.contains_key(k) && m[k].state is Pending, |k: u128| m[k])
}

/// The tasks that wait for an agent and whose job is stored: those that the
/// controller hands out.
pub open spec fn pending_tasks(tasks: Map<u128, TaskView>, jobs: Map<u128, JobView>) -> Map<u128, TaskView> {
    Map::new(
        |k: u128| tasks.contains_key(k) && tasks[k].state is Pending && jobs.contains_key(tasks[k].job_id),
        |k: u128| tasks[k],
    )
}

/// The pending tasks of the first `a` jobs of the listing `jobs`.
pub open spec fn pending_of_jobs(tasks: Map<u128, TaskView>, jobs: Seq<JobView>, a: int) -> Map<u128, TaskView> {
    Map::new(
        |k: u128| tasks.contains_key(k) && tasks[k].state is Pending
            && exists|b: int| 0 <= b < a && #[trigger] jobs[b].id == tasks[k].job_id,
        |k: u128| tasks[k],
    )
}

/// Whether a task waits for an agent.
pub open spec fn waiting() -> spec_fn(TaskView) -> bool {
    |t: TaskView| t.state is Pending
}

/// The waiting tasks of listings of tasks, one listing after another, each in
/// its own order.
pub open spec fn pending_listing(tss: Seq<Seq<TaskView>>) -> Seq<TaskView>
    decreases tss.len(),
{
    if tss.len() == 0 {
        Seq::empty()
    } else {
        pending_listing(tss.drop_last()) + tss.last().filter(waiting())
    }
}

/// `js` is a listing of the jobs `jobs`, and `tss[i]` a listing of the tasks of
/// the job `js[i]`: what a store may answer when asked for its jobs and then for
/// the tasks of each.
pub open spec fn lists_by_job(
    jobs: Map<u128, JobView>,
    tasks: Map<u128, TaskView>,
    js: Seq<JobView>,
    tss: Seq<Seq<TaskView>>,
) -> bool {
    &&& enumerates(js, jobs, |j: JobView| job_key(j))
    &&& tss.len() == js.len()
    &&& forall|i: int| 0 <= i < js.len() ==> enumerates(#[trigger] tss[i], tasks_of_job(tasks, js[i].id), |t: TaskView| task_key(t))
}

/// One call that hands out a task, on task map `before` and job map `jobs`, to
/// node `node_id`: it hands out `out` and leaves `after`. It hands out nothing
/// exactly when no task waits; otherwise a waiting task, which is now assigned to
/// the node.
pub open spec fn assignment_step(
    before: Map<u128, TaskView>,
    jobs: Map<u128, JobView>,
    node_id: u128,
    out: Option<u128>,
    after: Map<u128, TaskView>,
) -> bool {
    &&& (out is None <==> pending_tasks(before, jobs).is_empty())
    &&& (out is None ==> after == before)
    &&& (out matches Some(id) ==> pending_tasks(before, jobs).contains_key(id)
        && after == before.insert(id, before[id].with_state(TaskStateView::Assigned { node_id: node_id })))
}

/// The tasks of a listing that wait for an agent, in the order of the listing.
fn keep_pending(ts: Vec<Task>, Ghost(m): Ghost<Map<u128, TaskView>>) -> (out: Vec<Task>)
    requires
        enumerates(tasks_view(ts@), m, |t: TaskView| task_key(t)),
    ensures
        enumerates(tasks_view(out@), pending_part(m), |t: TaskView| task_key(t)),
        tasks_view(out@) == tasks_view(ts@).filter(waiting()),
{
    let ghost tv = tasks_view(ts@);
    let ghost sel = pending_part(m);
    let mut out: Vec<Task> = Vec::new();
    let ghost mut idx: Seq<int> = Seq::empty();
    let n = ts.len();
    for i in 0..n
        invariant
            n == ts@.len(),
            tv == tasks_view(ts@),
            sel == pending_part(m),
            enumerates(tv, m, |t: TaskView| task_key(t)),
            idx.len() == out@.len(),
            forall|p: int| #![trigger idx[p]] 0 <= p < idx.len() ==> 0 <= idx[p] < i,
            forall|p: int, q: int| #![trigger idx[p], idx[q]] 0 <= p < q < idx.len() ==> idx[p] < idx[q],
            forall|p: int| #![trigger out@[p]] 0 <= p < out@.len() ==>
                out@[p]@ == tv[idx[p]] && out@[p]@.state is Pending,
            forall|e: int| #![trigger tv[e]] 0 <= e < i && tv[e].state is Pending ==>
                exists|p: int| 0 <= p < idx.len() && idx[p] == e,
            tasks_view(out@) == tv.take(i as int).filter(waiting()),
    {
        let ghost e = i as int;
        let ghost old_idx = idx;
        let ghost old_out = tasks_view(out@);
        assert(tv[e] == ts@[e]@);
        assert(tv.take(e + 1) == tv.take(e).push(tv[e]));
        proof { tv.take(e).lemma_filter_push(tv[e], waiting()); }
        if ts[i].state.is_pending() {
            out.push(ts[i].copy());
            proof {
                idx = idx.push(e);
            }
            assert(tasks_view(out@) =~= old_out.push(tv[e]));
        }
        proof {
            assert forall|f: int| #![trigger tv[f]] 0 <= f < i + 1 && tv[f].state is Pending implies
                exists|p: int| 0 <= p < idx.len() && idx[p] == f by {
                if f == e {
                    assert(idx[idx.len() - 1] == e);
                } else {
                    let p = choose|p: int| 0 <= p < old_idx.len() && old_idx[p] == f;
                    assert(idx[p] == old_idx[p]);
                }
            }
        }
    }
    assert(tv.take(n as int) =~= tv);
    let ghost s = tasks_view(out@);
    assert forall|p: int| #![trigger s[p]] 0 <= p < s.len() implies
        sel.contains_key(task_key(s[p])) && sel[task_key(s[p])] == s[p] by {
        assert(s[p] == tv[idx[p]]);
    }
    assert forall|p: int, q: int| #![trigger s[p], s[q]] 0 <= p < q < s.len() implies
        task_key(s[p]) != task_key(s[q]) by {
        assert(s[p] == tv[idx[p]] && s[q] == tv[idx[q]]);
    }
    assert forall|k: u128| #[trigger] sel.contains_key(k) implies
        exists|p: int| 0 <= p < s.len() && task_key(#[trigger] s[p]) == k by {
        assert(m.contains_key(k));
        let e = choose|e: int| 0 <= e < tv.len() && task_key(#[trigger] tv[e]) == k;
        assert(tv[e] == m[k]);
        let p = choose|p: int| 0 <= p < idx.len() && idx[p] == e;
        assert(s[p] == out@[p]@);
    }
    out
}

/// Every task that waits for an agent and whose job is stored, once each: job by
/// job in the order in which the store lists jobs, and within a job in the order
/// in which it lists the job's tasks.
pub fn list_tasks_by_job_filter_pending<S: Store>(store: &S) -> (r: Result<Vec<Task>, StorageError>)
    requires
        store_wf(store.nodes(), store.jobs(), store.tasks()),
    ensures
        store.never_fails() ==> r is Ok,
        r matches Ok(v) ==> enumerates(tasks_view(v@), pending_tasks(store.tasks(), store.jobs()), |t: TaskView| task_key(t)),
        r matches Ok(v) ==> exists|js: Seq<JobView>, tss: Seq<Seq<TaskView>>|
            #![trigger lists_by_job(store.jobs(), store.tasks(), js, tss)]
            lists_by_job(store.jobs(), store.tasks(), js, tss) && tasks_view(v@) == pending_listing(tss),
{
    let jobs = match store.list_jobs() {
        Ok(jobs) => jobs,
        Err(e) => return Err(e),
    };
    let ghost tasks = store.tasks();
    let ghost jv = jobs_view(jobs@);
    let mut out: Vec<Task> = Vec::new();
    let ghost mut tss: Seq<Seq<TaskView>> = Seq::empty();
    let n = jobs.len();
    assert(pending_of_jobs(tasks, jv, 0) =~= Map::<u128, TaskView>::empty());
    assert(tasks_view(out@) =~= pending_listing(tss));
    for a in 0..n
        invariant
            n == jobs@.len(),
            tasks == store.tasks(),
            jv == jobs_view(jobs@),
            store_wf(store.nodes(), store.jobs(), store.tasks()),
            enumerates(jv, store.jobs(), |j: JobView| job_key(j)),
            enumerates(tasks_view(out@), pending_of_jobs(tasks, jv, a as int), |t: TaskView| task_key(t)),
            tss.len() == a,
            forall|i: int| 0 <= i < a ==> enumerates(#[trigger] tss[i], tasks_of_job(tasks, jv[i].id), |t: TaskView| task_key(t)),
            tasks_view(out@) == pending_listing(tss),
    {
        let ts = match store.list_tasks_by_job(jobs[a].id) {
            Ok(ts) => ts,
            Err(e) => return Err(e),
        };
        let ghost tsv = tasks_view(ts@);
        let ghost old_tss = tss;
        let ghost jid = jobs@[a as int].id;
        let piece = keep_pending(ts, Ghost(tasks_of_job(tasks, jid)));
        let ghost before = pending_of_jobs(tasks, jv, a as int);
        let ghost part = pending_part(tasks_of_job(tasks, jid));
        assert(jv[a as int] == jobs@[a as int]@);
        proof {
            assert(before.dom().disjoint(part.dom())) by {
                assert forall|k: u128| before.contains_key(k) implies !part.contains_key(k) by {
                    let b = choose|b: int| 0 <= b < a && #[trigger] jv[b].id == tasks[k].job_id;
                    assert(job_key(jv[b]) != job_key(jv[a as int]));
                }
            }
            lemma_enumerates_concat(tasks_view(out@), before, tasks_view(piece@), part, |t: TaskView| task_key(t));
            assert(pending_of_jobs(tasks, jv, a + 1) =~= before.union_prefer_right(part)) by {
                assert forall|k: u128| #[trigger] pending_of_jobs(tasks, jv, a + 1).contains_key(k) implies
                    before.union_prefer_right(part).contains_key(k) by {
                    let b = choose|b: int| 0 <= b < a + 1 && #[trigger] jv[b].id == tasks[k].job_id;
                    if b < a {
                        assert(before.contains_key(k));
                    }
                }
                assert forall|k: u128| #[trigger] before.union_prefer_right(part).contains_key(k) implies
                    pending_of_jobs(tasks, jv, a + 1).contains_key(k) by {
                    if part.contains_key(k) {
                        assert(jv[a as int].id == tasks[k].job_id);
                    } else {
                        let b = choose|b: int| 0 <= b < a && #[trigger] jv[b].id == tasks[k].job_id;
                        assert(jv[b].id == tasks[k].job_id);
                    }
                }
            }
        }
        let ghost out_before = out@;
        let ghost piece_before = piece@;
        let mut piece = piece;
        out.append(&mut piece);
        assert(tasks_view(out@) =~= tasks_view(out_before) + tasks_view(piece_before));
        proof {
            tss = tss.push(tsv);
            assert(tss.drop_last() =~= old_tss);
            assert(tss.last() == tsv);
            assert forall|i: int| 0 <= i < a + 1 implies enumerates(#[trigger] tss[i], tasks_of_job(tasks, jv[i].id), |t: TaskView| task_key(t)) by {
                if i < a {
                    assert(tss[i] == old_tss[i]);
                }
            }
        }
    }
    assert(lists_by_job(store.jobs(), store.tasks(), jv, tss));
    assert(pending_of_jobs(tasks, jv, n as int) =~= pending_tasks(tasks, store.jobs())) by {
        assert forall|k: u128| #[trigger] pending_tasks(tasks, store.jobs()).contains_key(k) implies
            pending_of_jobs(tasks, jv, n as int).contains_key(k) by {
            let jid = tasks[k].job_id;
            assert(store.jobs().contains_key(jid));
            let b = choose|b: int| 0 <= b < jv.len() && job_key(#[trigger] jv[b]) == jid;
            assert(jv[b].id == tasks[k].job_id);
        }
        assert forall|k: u128| #[trigger] pending_of_jobs(tasks, jv, n as int).contains_key(k) implies
            pending_tasks(tasks, store.jobs()).contains_key(k) by {
            let b = choose|b: int| 0 <= b < n && #[trigger] jv[b].id == tasks[k].job_id;
            assert(store.jobs().contains_key(job_key(jv[b])));
        }
    }
    Ok(out)
}

} // verus!

verus! {

/// The node that registration `req` becomes, with identifier `id`, heartbeat
/// `now` and lease `lease_ttl_secs`.
pub open spec fn registered_node(req: crate::models::NodeRegistrationView, id: u128, now: i128, lease_ttl_secs: u64) -> NodeView {
    NodeView { id: id, hostname: req.hostname, labels: req.labels, last_heartbeat: now, lease_ttl_secs: lease_ttl_secs }
}

/// Node `n` with its last heartbeat at `now`.
pub open spec fn with_heartbeat(n: NodeView, now: i128) -> NodeView {
    NodeView { last_heartbeat: now, ..n }
}

/// The task that waits for an agent, of job `job_id`, under identifier `id`.
pub open spec fn pending_task(id: u128, job_id: u128, priority: u8) -> TaskView {
    TaskView { id: id, job_id: job_id, state: TaskStateView::Pending, attempt: 0, priority: priority }
}

/// The pending tasks of job `job_id` under the identifiers `ids`.
pub open spec fn new_tasks(ids: Seq<u128>, job_id: u128, priority: u8) -> Map<u128, TaskView> {
    Map::new(|k: u128| ids.contains(k), |k: u128| pending_task(k, job_id, priority))
}

/// The identifier in random-UUID form numbered `x`: the low 62 bits of `x` in the
/// bits below the variant, the bits above those from bit 80 up, and the version
/// and variant bits of a random UUID.
pub open spec fn spare_id(x: u128) -> u128 {
    0x4000_8000_0000_0000_0000u128 | (x & 0x3fff_ffff_ffff_ffffu128) | ((x >> 62u128) << 80u128)
}

/// Spare identifiers are in random-UUID form, and distinct numbers below 2^110
/// give distinct identifiers.
pub proof fn lemma_spare_id(x: u128, y: u128)
    requires
        x < 0x4000_0000_0000_0000_0000_0000_0000u128,
        y < 0x4000_0000_0000_0000_0000_0000_0000u128,
    ensures
        is_random_id(spare_id(x)),
        x != y ==> spare_id(x) != spare_id(y),
{
    assert(x < 0x4000_0000_0000_0000_0000_0000_0000u128 ==>
        ((0x4000_8000_0000_0000_0000u128 | (x & 0x3fff_ffff_ffff_ffffu128) | ((x >> 62u128) << 80u128)) >> 76u128) & 0xfu128 == 4u128
        && ((0x4000_8000_0000_0000_0000u128 | (x & 0x3fff_ffff_ffff_ffffu128) | ((x >> 62u128) << 80u128)) >> 62u128) & 0x3u128 == 2u128)
        by (bit_vector);
    assert(x < 0x4000_0000_0000_0000_0000_0000_0000u128 && y < 0x4000_0000_0000_0000_0000_0000_0000u128 && x != y ==>
        (0x4000_8000_0000_0000_0000u128 | (x & 0x3fff_ffff_ffff_ffffu128) | ((x >> 62u128) << 80u128))
        != (0x4000_8000_0000_0000_0000u128 | (y & 0x3fff_ffff_ffff_ffffu128) | ((y >> 62u128) << 80u128)))
        by (bit_vector);
}

/// The spare identifier numbered `x`.
fn spare(x: u128) -> (id: u128)
    ensures
        id == spare_id(x),
{
    0x4000_8000_0000_0000_0000u128 | (x & 0x3fff_ffff_ffff_ffffu128) | ((x >> 62u128) << 80u128)
}

/// Whether `ids` holds `id`.
fn holds(ids: &Vec<u128>, id: u128) -> (b: bool)
    ensures
        b == ids@.contains(id),
{
    let n = ids.len();
    for i in 0..n
        invariant
            n == ids@.len(),
            forall|j: int| 0 <= j < i ==> ids@[j] != id,
    {
        if ids[i] == id {
            assert(ids@[i as int] == id);
            return true;
        }
    }
    false
}

/// The controller's state: where it keeps its records, and the lease that it
/// gives each node it registers.
pub struct AppState<S: Store> {
    pub store: S,
    pub lease_ttl_secs: u64,
}

impl<S: Store> AppState<S> {
    /// The store of the controller keeps each record under its identifier.
    pub open spec fn wf(&self) -> bool {
        store_wf(self.store.nodes(), self.store.jobs(), self.store.tasks())
    }

    /// Registers a node: the registration under a fresh identifier, with its
    /// heartbeat now and the controller's lease.
    pub fn register_node(&mut self, req: NodeRegistration) -> (r: Result<Node, ApiError>)
        requires
            old(self).wf(),
        ensures
            final(self).wf(),
            final(self).lease_ttl_secs == old(self).lease_ttl_secs,
            final(self).store.never_fails() == old(self).store.never_fails(),
            old(self).store.never_fails() ==> r is Ok,
            r matches Ok(n) ==> is_random_id(n.id),
            r matches Ok(n) ==> n@ == registered_node(req@, n.id, n.last_heartbeat, old(self).lease_ttl_secs),
            r matches Ok(n) ==> final(self).store.nodes() == old(self).store.nodes().insert(n.id, n@),
            r matches Err(e) ==> e is Storage && final(self).store.nodes() == old(self).store.nodes(),
            final(self).store.jobs() == old(self).store.jobs(),
            final(self).store.tasks() == old(self).store.tasks(),
    {
        let id = new_id();
        let now = now_nanos();
        self.register_node_with(req, id, now)
    }

    /// Registers a node under identifier `id` with its heartbeat at `now`.
    pub fn register_node_with(&mut self, req: NodeRegistration, id: u128, now: i128) -> (r: Result<Node, ApiError>)
        requires
            old(self).wf(),
        ensures
            final(self).wf(),
            final(self).lease_ttl_secs == old(self).lease_ttl_secs,
            final(self).store.never_fails() == old(self).store.never_fails(),
            old(self).store.never_fails() ==> r is Ok,
            r matches Ok(n) ==> n@ == registered_node(req@, id, now, old(self).lease_ttl_secs),
            r matches Ok(n) ==> final(self).store.nodes() == old(self).store.nodes().insert(id, n@),
            r matches Err(e) ==> e is Storage && final(self).store.nodes() == old(self).store.nodes(),
            final(self).store.jobs() == old(self).store.jobs(),
            final(self).store.tasks() == old(self).store.tasks(),
    {
        let node = Node {
            id: id,
            hostname: req.hostname,
            labels: req.labels,
            last_heartbeat: now,
            lease_ttl_secs: self.lease_ttl_secs,
        };
        match self.store.put_node(&node) {
            Ok(()) => Ok(node),
            Err(e) => Err(ApiError::Storage(e)),
        }
    }

    /// Renews the lease of node `id`: its heartbeat is now. Answers 204, or
    /// `NotFound` where no such node is registered.
    pub fn heartbeat(&mut self, id: u128) -> (r: Result<u16, ApiError>)
        requires
            old(self).wf(),
        ensures
            final(self).wf(),
            final(self).lease_ttl_secs == old(self).lease_ttl_secs,
            final(self).store.never_fails() == old(self).store.never_fails(),
            old(self).store.never_fails() ==> (r is Ok <==> old(self).store.nodes().contains_key(id)),
            old(self).store.never_fails() ==> (r matches Err(e) ==> e is NotFound),
            r matches Ok(code) ==> code == STATUS_NO_CONTENT && old(self).store.nodes().contains_key(id)
                && exists|now: i128| final(self).store.nodes()
                    == old(self).store.nodes().insert(id, with_heartbeat(old(self).store.nodes()[id], now)),
            r matches Err(e) ==> final(self).store.nodes() == old(self).store.nodes()
                && (e is NotFound || e is Storage)
                && (e is NotFound ==> !old(self).store.nodes().contains_key(id)),
            final(self).store.jobs() == old(self).store.jobs(),
            final(self).store.tasks() == old(self).store.tasks(),
    {
        let now = now_nanos();
        self.heartbeat_with(id, now)
    }

    /// Renews the lease of node `id` with its heartbeat at `now`.
    pub fn heartbeat_with(&mut self, id: u128, now: i128) -> (r: Result<u16, ApiError>)
        requires
            old(self).wf(),
        ensures
            final(self).wf(),
            final(self).lease_ttl_secs == old(self).lease_ttl_secs,
            final(self).store.never_fails() == old(self).store.never_fails(),
            old(self).store.never_fails() ==> (r is Ok <==> old(self).store.nodes().contains_key(id)),
            old(self).store.never_fails() ==> (r matches Err(e) ==> e is NotFound),
            r matches Ok(code) ==> code == STATUS_NO_CONTENT && old(self).store.nodes().contains_key(id)
                && final(self).store.nodes()
                    == old(self).store.nodes().insert(id, with_heartbeat(old(self).store.nodes()[id], now)),
            r matches Err(e) ==> final(self).store.nodes() == old(self).store.nodes()
                && (e is NotFound || e is Storage)
                && (e is NotFound ==> !old(self).store.nodes().contains_key(id)),
            final(self).store.jobs() == old(self).store.jobs(),
            final(self).store.tasks() == old(self).store.tasks(),
    {
        let found = match self.store.get_node(id) {
            Ok(found) => found,
            Err(e) => return Err(ApiError::Storage(e)),
        };
        let mut node = match found {
            Some(node) => node,
            None => return Err(ApiError::NotFound),
        };
        node.last_heartbeat = now;
        proof {
            let n0 = self.store.nodes()[id];
            assert(keyed(self.store.nodes(), |n: NodeView| crate::store::node_key(n)));
            assert(self.store.nodes().contains_key(id));
            assert(n0.id == id);
            assert(node@ == with_heartbeat(n0, now));
        }
        match self.store.put_node(&node) {
            Ok(()) => Ok(STATUS_NO_CONTENT),
            Err(e) => Err(ApiError::Storage(e)),
        }
    }
    /// Whether `id` is free for a new task: no stored task and none of `taken`
    /// has it.
    fn is_free_task_id(&self, id: u128, taken: &Vec<u128>) -> (r: Result<bool, StorageError>)
        requires
            self.wf(),
        ensures
            self.store.never_fails() ==> r is Ok,
            r matches Ok(b) ==> b == (!self.store.tasks().contains_key(id) && !taken@.contains(id)),
    {
        match self.store.get_task(id) {
            Ok(Some(_)) => Ok(false),
            Ok(None) => Ok(!holds(taken, id)),
            Err(e) => Err(e),
        }
    }

    /// A fresh identifier for a new task: a random one, or, should that one be
    /// taken already, the first spare identifier that is free. It is held by no
    /// stored task and by none of `taken`.
    fn fresh_task_id(&self, taken: &Vec<u128>) -> (r: Result<u128, StorageError>)
        requires
            self.wf(),
            taken@.len() <= u32::MAX,
        ensures
            self.store.never_fails() ==> r is Ok,
            r matches Ok(id) ==> is_random_id(id) && !self.store.tasks().contains_key(id) && !taken@.contains(id),
    {
        let id = new_id();
        match self.is_free_task_id(id, taken) {
            Ok(true) => return Ok(id),
            Ok(false) => {},
            Err(e) => return Err(e),
        }
        let ghost forbidden = self.store.tasks().dom().union(taken@.to_set());
        proof {
            taken@.lemma_cardinality_of_set();
            vstd::set_lib::lemma_len_union(self.store.tasks().dom(), taken@.to_set());
        }
        let ghost mut seen: Set<u128> = Set::empty();
        let mut x: u128 = 0;
        loop
            invariant
                self.wf(),
                taken@.len() <= u32::MAX,
                forbidden == self.store.tasks().dom().union(taken@.to_set()),
                forbidden.finite(),
                forbidden.len() <= usize::MAX + u32::MAX,
                seen.finite(),
                seen.len() == x,
                seen.subset_of(forbidden),
                x <= forbidden.len(),
                forall|y: u128| x <= y < 0x4000_0000_0000_0000_0000_0000_0000u128 ==> !seen.contains(#[trigger] spare_id(y)),
            decreases forbidden.len() - x,
        {
            let c = spare(x);
            proof {
                lemma_spare_id(x, x);
            }
            match self.is_free_task_id(c, taken) {
                Ok(true) => return Ok(c),
                Ok(false) => {},
                Err(e) => return Err(e),
            }
            proof {
                assert(forbidden.contains(c));
                seen = seen.insert(c);
                vstd::set_lib::lemma_len_subset(seen, forbidden);
                assert forall|y: u128| x + 1 <= y < 0x4000_0000_0000_0000_0000_0000_0000u128 implies !seen.contains(#[trigger] spare_id(y)) by {
                    lemma_spare_id(x, y);
                }
            }
            x = x + 1;
        }
    }

    /// Accepts job `spec`: stores it as a job under a fresh identifier, created
    /// now, and one pending task for each replica, each under a fresh identifier.
    pub fn create_job(&mut self, spec: JobSpec) -> (r: Result<Job, ApiError>)
        requires
            old(self).wf(),
        ensures
            final(self).wf(),
            final(self).lease_ttl_secs == old(self).lease_ttl_secs,
            final(self).store.never_fails() == old(self).store.never_fails(),
            old(self).store.never_fails() ==> r is Ok,
            r matches Ok(job) ==> is_random_id(job.id) && job@.spec == spec@,
            r matches Ok(job) ==> final(self).store.jobs() == old(self).store.jobs().insert(job.id, job@),
            r matches Ok(job) ==> exists|ids: Seq<u128>|
                #![trigger new_tasks(ids, job.id, spec.priority)]
                ids.len() == spec.replicas
                && (forall|i: int| 0 <= i < ids.len() ==> is_random_id(#[trigger] ids[i]))
                && ids.no_duplicates()
                && (forall|i: int| 0 <= i < ids.len() ==> !old(self).store.tasks().contains_key(#[trigger] ids[i]))
                && final(self).store.tasks()
                    == old(self).store.tasks().union_prefer_right(new_tasks(ids, job.id, spec.priority)),
            r matches Err(e) ==> e is Storage,
            r is Err ==> (final(self).store.jobs() == old(self).store.jobs() && final(self).store.tasks() == old(self).store.tasks())
                || exists|job: JobView, ids: Seq<u128>|
                    #![trigger new_tasks(ids, job.id, spec.priority), old(self).store.jobs().insert(job.id, job)]
                    job.spec == spec@ && is_random_id(job.id) && ids.len() <= spec.replicas
                    && (forall|i: int| 0 <= i < ids.len() ==> is_random_id(#[trigger] ids[i]))
                    && final(self).store.jobs() == old(self).store.jobs().insert(job.id, job)
                    && final(self).store.tasks()
                        == old(self).store.tasks().union_prefer_right(new_tasks(ids, job.id, spec.priority)),
            final(self).store.nodes() == old(self).store.nodes(),
    {
        let job_id = new_id();
        let created_at = now_nanos();
        let mut task_ids: Vec<u128> = Vec::new();
        let n = spec.replicas;
        for i in 0..n
            invariant
                self.wf(),
                self == old(self),
                task_ids@.len() == i,
                forall|j: int| 0 <= j < task_ids@.len() ==> is_random_id(#[trigger] task_ids@[j]),
                forall|j: int| 0 <= j < task_ids@.len() ==> !self.store.tasks().contains_key(#[trigger] task_ids@[j]),
                task_ids@.no_duplicates(),
        {
            let id = match self.fresh_task_id(&task_ids) {
                Ok(id) => id,
                Err(e) => return Err(ApiError::Storage(e)),
            };
            let ghost before = task_ids@;
            task_ids.push(id);
            proof {
                assert forall|a: int, b: int| 0 <= a < b < task_ids@.len() implies task_ids@[a] != task_ids@[b] by {
                    if b == i {
                        assert(before.contains(before[a]));
                    }
                }
            }
        }
        let ghost prio = spec.priority;
        let ghost sv = spec@;
        let r = self.create_job_with(spec, job_id, created_at, &task_ids);
        proof {
            if r is Err && !(self.store.jobs() == old(self).store.jobs() && self.store.tasks() == old(self).store.tasks()) {
                let i = choose|i: int| #![trigger task_ids@.take(i)] 0 <= i <= task_ids@.len()
                    && self.store.tasks() == old(self).store.tasks().union_prefer_right(new_tasks(task_ids@.take(i), job_id, prio));
                let job = JobView { id: job_id, spec: sv, created_at: created_at };
                let ids = task_ids@.take(i);
                assert forall|k: int| 0 <= k < ids.len() implies is_random_id(#[trigger] ids[k]) by {
                    assert(ids[k] == task_ids@[k]);
                }
                assert(new_tasks(ids, job.id, prio) == new_tasks(ids, job_id, prio));
                assert(self.store.jobs() == old(self).store.jobs().insert(job.id, job));
            }
        }
        r
    }

    /// Accepts job `spec` as job `job_id` created at `created_at`, with its tasks
    /// under the identifiers `task_ids`, one for each replica.
    pub fn create_job_with(&mut self, spec: JobSpec, job_id: u128, created_at: i128, task_ids: &Vec<u128>) -> (r: Result<Job, ApiError>)
        requires
            old(self).wf(),
            task_ids@.len() == spec.replicas,
        ensures
            final(self).wf(),
            final(self).lease_ttl_secs == old(self).lease_ttl_secs,
            final(self).store.never_fails() == old(self).store.never_fails(),
            old(self).store.never_fails() ==> r is Ok,
            r matches Ok(job) ==> job@ == (JobView { id: job_id, spec: spec@, created_at: created_at }),
            r matches Ok(job) ==> final(self).store.jobs() == old(self).store.jobs().insert(job_id, job@),
            r matches Ok(job) ==> final(self).store.tasks()
                == old(self).store.tasks().union_prefer_right(new_tasks(task_ids@, job_id, spec.priority)),
            r matches Err(e) ==> e is Storage,
            r is Err ==> (final(self).store.jobs() == old(self).store.jobs() && final(self).store.tasks() == old(self).store.tasks())
                || (final(self).store.jobs() == old(self).store.jobs().insert(job_id, JobView { id: job_id, spec: spec@, created_at: created_at })
                    && exists|i: int| #![trigger task_ids@.take(i)] 0 <= i <= task_ids@.len()
                        && final(self).store.tasks()
                            == old(self).store.tasks().union_prefer_right(new_tasks(task_ids@.take(i), job_id, spec.priority))),
            final(self).store.nodes() == old(self).store.nodes(),
    {
        let job = Job { id: job_id, spec: spec, created_at: created_at };
        match self.store.put_job(&job) {
            Ok(()) => {},
            Err(e) => return Err(ApiError::Storage(e)),
        }
        let ghost old_tasks = old(self).store.tasks();
        let ghost prio = job.spec.priority;
        let n = job.spec.replicas;
        assert(old_tasks.union_prefer_right(new_tasks(task_ids@.take(0), job_id, prio)) =~= old_tasks);
        for i in 0..n
            invariant
                n == task_ids@.len(),
                prio == job.spec.priority,
                job.id == job_id,
                job@ == (JobView { id: job_id, spec: spec@, created_at: created_at }),
                old_tasks == old(self).store.tasks(),
                self.wf(),
                self.lease_ttl_secs == old(self).lease_ttl_secs,
                self.store.never_fails() == old(self).store.never_fails(),
                self.store.nodes() == old(self).store.nodes(),
                self.store.jobs() == old(self).store.jobs().insert(job_id, job@),
                self.store.tasks() == old_tasks.union_prefer_right(new_tasks(task_ids@.take(i as int), job_id, prio)),
        {
            let t = Task {
                id: task_ids[i as usize],
                job_id: job.id,
                state: TaskState::Pending,
                attempt: 0,
                priority: job.spec.priority,
            };
            match self.store.put_task(&t) {
                Ok(()) => {},
                Err(e) => {
                    assert(0 <= i <= task_ids@.len());
                    return Err(ApiError::Storage(e));
                },
            }
            assert(old_tasks.union_prefer_right(new_tasks(task_ids@.take(i + 1), job_id, prio)) =~=
                old_tasks.union_prefer_right(new_tasks(task_ids@.take(i as int), job_id, prio)).insert(t.id, t@)) by {
                let s0 = task_ids@.take(i as int);
                let s1 = task_ids@.take(i + 1);
                assert(t@ == pending_task(t.id, job_id, prio));
                assert forall|k: u128| s1.contains(k) <==> (s0.contains(k) || k == t.id) by {
                    if s1.contains(k) {
                        let j = choose|j: int| 0 <= j < s1.len() && s1[j] == k;
                        if j < i {
                            assert(s0[j] == k);
                        }
                    }
                    if s0.contains(k) {
                        let j = choose|j: int| 0 <= j < s0.len() && s0[j] == k;
                        assert(s1[j] == k);
                    }
                    if k == t.id {
                        assert(s1[i as int] == k);
                    }
                }
            }
        }
        assert(task_ids@.take(n as int) =~= task_ids@);
        Ok(job)
    }

    /// Hands a pending task to node `node_id`: the first task that the store lists
    /// as waiting, now assigned to the node, with its job's command. `None` where
    /// no task waits.
    pub fn next_assignment(&mut self, node_id: u128) -> (r: Result<Option<Assignment>, ApiError>)
        requires
            old(self).wf(),
        ensures
            final(self).wf(),
            final(self).lease_ttl_secs == old(self).lease_ttl_secs,
            final(self).store.never_fails() == old(self).store.never_fails(),
            old(self).store.never_fails() ==> r is Ok,
            r matches Ok(o) ==> (o is None <==> pending_tasks(old(self).store.tasks(), old(self).store.jobs()).is_empty()),
            r matches Ok(None) ==> final(self).store.tasks() == old(self).store.tasks(),
            r matches Ok(Some(a)) ==> ({
                let tasks = old(self).store.tasks();
                &&& pending_tasks(tasks, old(self).store.jobs()).contains_key(a.task_id)
                &&& a.job_id == tasks[a.task_id].job_id
                &&& a@.command == old(self).store.jobs()[a.job_id].spec.command
                &&& final(self).store.tasks() == tasks.insert(
                    a.task_id,
                    tasks[a.task_id].with_state(TaskStateView::Assigned { node_id: node_id }),
                )
            }),
            r matches Ok(Some(a)) ==> exists|js: Seq<JobView>, tss: Seq<Seq<TaskView>>|
                #![trigger lists_by_job(old(self).store.jobs(), old(self).store.tasks(), js, tss)]
                lists_by_job(old(self).store.jobs(), old(self).store.tasks(), js, tss)
                && pending_listing(tss).len() > 0 && pending_listing(tss)[0].id == a.task_id,
            r matches Ok(o) ==> assignment_step(
                old(self).store.tasks(),
                old(self).store.jobs(),
                node_id,
                match o { Some(a) => Some(a.task_id), None => None },
                final(self).store.tasks(),
            ),
            r matches Err(e) ==> e is Storage && final(self).store.tasks() == old(self).store.tasks(),
            final(self).store.nodes() == old(self).store.nodes(),
            final(self).store.jobs() == old(self).store.jobs(),
    {
        let tasks = match list_tasks_by_job_filter_pending(&self.store) {
            Ok(tasks) => tasks,
            Err(e) => return Err(ApiError::Storage(e)),
        };
        let ghost pend = pending_tasks(self.store.tasks(), self.store.jobs());
        if tasks.len() == 0 {
            proof {
                assert forall|k: u128| !pend.contains_key(k) by {
                    if pend.contains_key(k) {
                        let i = choose|i: int| 0 <= i < tasks_view(tasks@).len() && task_key(#[trigger] tasks_view(tasks@)[i]) == k;
                    }
                }
                assert(pend.dom() =~= Set::<u128>::empty());
            }
            return Ok(None);
        }
        let task = &tasks[0];
        assert(tasks_view(tasks@)[0] == task@);
        assert(pend.contains_key(task.id));
        let found = match self.store.get_job(task.job_id) {
            Ok(found) => found,
            Err(e) => return Err(ApiError::Storage(e)),
        };
        match found {
            Some(job) => {
                let assigned = Task {
                    id: task.id,
                    job_id: task.job_id,
                    state: TaskState::Assigned { node_id: node_id },
                    attempt: task.attempt,
                    priority: task.priority,
                };
                match self.store.put_task(&assigned) {
                    Ok(()) => {},
                    Err(e) => return Err(ApiError::Storage(e)),
                }
                assert(!pend.is_empty()) by {
                    assert(pend.dom().contains(task.id));
                }
                Ok(Some(Assignment { task_id: task.id, job_id: task.job_id, command: copy_strings(&job.spec.command) }))
            },
            None => {
                assert(false);
                Ok(None)
            },
        }
    }

    /// Records what an agent reports of a task; answers 204.
    pub fn update_task_status(&mut self, upd: &TaskStatusUpdate) -> (r: Result<u16, ApiError>)
        requires
            old(self).wf(),
        ensures
            final(self).wf(),
            final(self).lease_ttl_secs == old(self).lease_ttl_secs,
            final(self).store.never_fails() == old(self).store.never_fails(),
            old(self).store.never_fails() ==> r is Ok,
            r matches Ok(code) ==> code == STATUS_NO_CONTENT
                && final(self).store.tasks() == set_task_state(old(self).store.tasks(), upd.task_id, upd.state@),
            r matches Err(e) ==> e is Storage && final(self).store.tasks() == old(self).store.tasks(),
            final(self).store.nodes() == old(self).store.nodes(),
            final(self).store.jobs() == old(self).store.jobs(),
    {
        match self.store.update_task_status(upd) {
            Ok(()) => Ok(STATUS_NO_CONTENT),
            Err(e) => Err(ApiError::Storage(e)),
        }
    }
}

} // verus!
