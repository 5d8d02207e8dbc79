use starling::controller::{AppState, list_tasks_by_job_filter_pending};
use starling::error::ApiError;
use starling::memory_store::InMemoryStore;
use starling::models::{JobSpec, NodeRegistration, Task, TaskState, TaskStatusUpdate};
use starling::store::Store;

fn app() -> AppState<InMemoryStore> {
    AppState { store: InMemoryStore::new(), lease_ttl_secs: 30 }
}

fn spec(replicas: u32) -> JobSpec {
    JobSpec {
        name: "echo-hello".to_string(),
        replicas,
        command: vec!["echo".to_string(), "hello from starling".to_string()],
        constraints: vec![],
        priority: 5,
    }
}

fn is_v4(id: u128) -> bool {
    (id >> 76) & 0xf == 4 && (id >> 62) & 0x3 == 2
}

#[test]
fn register_node_stores_a_fresh_node() {
    let mut st = app();
    let reg = NodeRegistration { hostname: "host-a".to_string(), labels: vec![("zone".to_string(), "local".to_string())] };
    let a = st.register_node(reg.clone()).unwrap();
    let b = st.register_node(reg).unwrap();
    assert_ne!(a.id, b.id);
    assert!(is_v4(a.id) && is_v4(b.id));
    assert_ne!(a.id, starling::ids::NIL_ID);
    assert_eq!(a.hostname, "host-a");
    assert_eq!(a.labels, vec![("zone".to_string(), "local".to_string())]);
    assert_eq!(a.lease_ttl_secs, 30);
    // the heartbeat is the clock's reading: after 2020 in nanoseconds
    assert!(a.last_heartbeat > 1_577_836_800_000_000_000);
    assert_eq!(st.store.get_node(a.id).unwrap().unwrap(), a);
    assert_eq!(st.store.list_nodes().unwrap().len(), 2);
}

#[test]
fn register_node_with_given_id_and_time() {
    let mut st = app();
    let reg = NodeRegistration { hostname: "h".to_string(), labels: vec![] };
    let n = st.register_node_with(reg, 42, 1000).unwrap();
    assert_eq!(n.id, 42);
    assert_eq!(n.last_heartbeat, 1000);
    assert_eq!(n.lease_ttl_secs, 30);
}

#[test]
fn heartbeat_renews_only_the_heartbeat() {
    let mut st = app();
    let reg = NodeRegistration { hostname: "h".to_string(), labels: vec![("k".to_string(), "v".to_string())] };
    st.register_node_with(reg, 42, 1000).unwrap();
    assert_eq!(st.heartbeat_with(42, 2000), Ok(204));
    let n = st.store.get_node(42).unwrap().unwrap();
    assert_eq!(n.last_heartbeat, 2000);
    assert_eq!(n.hostname, "h");
    assert_eq!(n.labels, vec![("k".to_string(), "v".to_string())]);
    assert_eq!(n.lease_ttl_secs, 30);
    assert_eq!(st.heartbeat(42), Ok(204));
    assert!(st.store.get_node(42).unwrap().unwrap().last_heartbeat > 2000);
}

#[test]
fn heartbeat_of_unknown_node_is_not_found() {
    let mut st = app();
    let err = st.heartbeat(7).unwrap_err();
    assert_eq!(err, ApiError::NotFound);
    assert_eq!(err.status_code(), 404);
    assert!(st.store.list_nodes().unwrap().is_empty());
}

#[test]
fn create_job_makes_one_pending_task_per_replica() {
    let mut st = app();
    let job = st.create_job(spec(3)).unwrap();
    assert!(is_v4(job.id));
    assert_eq!(job.spec, spec(3));
    assert_eq!(st.store.get_job(job.id).unwrap().unwrap(), job);
    let tasks = st.store.list_tasks_by_job(job.id).unwrap();
    assert_eq!(tasks.len(), 3);
    for t in &tasks {
        assert_eq!(t.state, TaskState::Pending);
        assert_eq!(t.attempt, 0);
        assert_eq!(t.priority, 5);
        assert_eq!(t.job_id, job.id);
        assert!(is_v4(t.id));
    }
}

#[test]
fn create_job_with_zero_replicas_makes_no_task() {
    let mut st = app();
    let job = st.create_job_with(spec(0), 9, 77, &vec![]).unwrap();
    assert_eq!(job.id, 9);
    assert_eq!(job.created_at, 77);
    assert!(st.store.list_tasks_by_job(9).unwrap().is_empty());
    assert_eq!(st.next_assignment(1), Ok(None));
}

#[test]
fn next_assignment_hands_out_each_task_once() {
    let mut st = app();
    let job = st.create_job_with(spec(2), 1, 0, &vec![100, 101]).unwrap();
    let a = st.next_assignment(55).unwrap().unwrap();
    let b = st.next_assignment(56).unwrap().unwrap();
    assert_eq!(st.next_assignment(57), Ok(None));
    let mut got = vec![a.task_id, b.task_id];
    got.sort();
    assert_eq!(got, vec![100, 101]);
    assert_eq!(a.job_id, job.id);
    assert_eq!(a.command, spec(2).command);
    let ta = st.store.get_task(a.task_id).unwrap().unwrap();
    assert_eq!(ta.state, TaskState::Assigned { node_id: 55 });
    let tb = st.store.get_task(b.task_id).unwrap().unwrap();
    assert_eq!(tb.state, TaskState::Assigned { node_id: 56 });
}

#[test]
fn next_assignment_skips_tasks_whose_job_is_missing() {
    let mut st = app();
    st.store.put_task(&Task { id: 5, job_id: 404, state: TaskState::Pending, attempt: 0, priority: 0 }).unwrap();
    assert_eq!(st.next_assignment(1), Ok(None));
    assert_eq!(st.store.get_task(5).unwrap().unwrap().state, TaskState::Pending);
}

#[test]
fn pending_filter_lists_waiting_tasks_of_stored_jobs() {
    let mut st = app();
    st.create_job_with(spec(2), 1, 0, &vec![10, 11]).unwrap();
    st.create_job_with(spec(1), 2, 0, &vec![20]).unwrap();
    st.store.put_task(&Task { id: 30, job_id: 3, state: TaskState::Pending, attempt: 0, priority: 0 }).unwrap();
    st.update_task_status(&TaskStatusUpdate { task_id: 11, state: TaskState::Succeeded { finished_at: 1 } }).unwrap();
    let mut ids: Vec<u128> = list_tasks_by_job_filter_pending(&st.store).unwrap().into_iter().map(|t| t.id).collect();
    ids.sort();
    assert_eq!(ids, vec![10, 20]);
}

#[test]
fn update_task_status_answers_no_content() {
    let mut st = app();
    st.create_job_with(spec(1), 1, 0, &vec![10]).unwrap();
    let upd = TaskStatusUpdate {
        task_id: 10,
        state: TaskState::Failed { finished_at: 5, attempts: 1, last_error: "exit: exit status: 1".to_string() },
    };
    assert_eq!(st.update_task_status(&upd), Ok(204));
    assert_eq!(st.store.get_task(10).unwrap().unwrap().state, upd.state);
    assert_eq!(st.next_assignment(1), Ok(None));
}

#[test]
fn pending_filter_lists_job_by_job() {
    let mut st = app();
    st.create_job_with(spec(3), 1, 0, &vec![10, 11, 12]).unwrap();
    st.create_job_with(spec(3), 2, 0, &vec![20, 21, 22]).unwrap();
    st.create_job_with(spec(2), 3, 0, &vec![30, 31]).unwrap();
    let jobs: Vec<u128> = list_tasks_by_job_filter_pending(&st.store).unwrap().into_iter().map(|t| t.job_id).collect();
    assert_eq!(jobs.len(), 8);
    // each job's tasks stand together
    let mut seen: Vec<u128> = vec![];
    for (i, j) in jobs.iter().enumerate() {
        if i == 0 || jobs[i - 1] != *j {
            assert!(!seen.contains(j));
            seen.push(*j);
        }
    }
    seen.sort();
    assert_eq!(seen, vec![1, 2, 3]);
}

#[test]
fn every_waiting_task_is_handed_out_exactly_once() {
    let mut st = app();
    st.create_job_with(spec(3), 1, 0, &vec![10, 11, 12]).unwrap();
    st.create_job_with(spec(2), 2, 0, &vec![20, 21]).unwrap();
    let mut handed: Vec<u128> = vec![];
    for node in 0..8u128 {
        match st.next_assignment(node).unwrap() {
            Some(a) => {
                assert!(node < 5);
                handed.push(a.task_id);
            }
            None => assert!(node >= 5),
        }
    }
    handed.sort();
    assert_eq!(handed, vec![10, 11, 12, 20, 21]);
}
