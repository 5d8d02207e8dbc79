use starling::memory_store::InMemoryStore;
use starling::models::{Job, JobSpec, Node, Task, TaskState, TaskStatusUpdate};
use starling::store::Store;

fn node(id: u128, hostname: &str) -> Node {
    Node {
        id,
        hostname: hostname.to_string(),
        labels: vec![("env".to_string(), "test".to_string())],
        last_heartbeat: 1_700_000_000_000_000_000,
        lease_ttl_secs: 30,
    }
}

fn task(id: u128, job_id: u128) -> Task {
    Task { id, job_id, state: TaskState::Pending, attempt: 0, priority: 1 }
}

#[test]
fn node_crud() {
    let mut store = InMemoryStore::new();
    let node = Node {
        id: uuid::Uuid::new_v4().as_u128(),
        hostname: "test-node".to_string(),
        labels: vec![("env".to_string(), "test".to_string())],
        last_heartbeat: 1_700_000_000_000_000_000,
        lease_ttl_secs: 30,
    };
    store.put_node(&node).unwrap();
    let back = store.get_node(node.id).unwrap().unwrap();
    assert_eq!(node.hostname, back.hostname);
    assert_eq!(node, back);
}

#[test]
fn get_of_missing_records_is_none() {
    let store = InMemoryStore::default();
    assert_eq!(store.get_node(1).unwrap(), None);
    assert_eq!(store.get_job(1).unwrap(), None);
    assert_eq!(store.get_task(1).unwrap(), None);
    assert!(store.list_nodes().unwrap().is_empty());
    assert!(store.list_jobs().unwrap().is_empty());
    assert!(store.list_tasks_by_job(1).unwrap().is_empty());
}

#[test]
fn put_replaces_record_under_same_id() {
    let mut store = InMemoryStore::new();
    store.put_node(&node(5, "a")).unwrap();
    store.put_node(&node(5, "b")).unwrap();
    store.put_node(&node(6, "c")).unwrap();
    assert_eq!(store.get_node(5).unwrap().unwrap().hostname, "b");
    assert_eq!(store.get_node(6).unwrap().unwrap().hostname, "c");
    let mut names: Vec<String> = store.list_nodes().unwrap().into_iter().map(|n| n.hostname).collect();
    names.sort();
    assert_eq!(names, vec!["b".to_string(), "c".to_string()]);
}

#[test]
fn list_jobs_lists_each_job_once() {
    let mut store = InMemoryStore::new();
    for id in 1..=4u128 {
        let job = Job {
            id,
            spec: JobSpec {
                name: format!("job-{}", id),
                replicas: 1,
                command: vec!["true".to_string()],
                constraints: vec![],
                priority: 0,
            },
            created_at: 0,
        };
        store.put_job(&job).unwrap();
    }
    let mut ids: Vec<u128> = store.list_jobs().unwrap().into_iter().map(|j| j.id).collect();
    ids.sort();
    assert_eq!(ids, vec![1, 2, 3, 4]);
    assert_eq!(store.get_job(3).unwrap().unwrap().spec.name, "job-3");
}

#[test]
fn list_tasks_by_job_keeps_only_that_job() {
    let mut store = InMemoryStore::new();
    store.put_task(&task(10, 1)).unwrap();
    store.put_task(&task(11, 2)).unwrap();
    store.put_task(&task(12, 1)).unwrap();
    let mut ids: Vec<u128> = store.list_tasks_by_job(1).unwrap().into_iter().map(|t| t.id).collect();
    ids.sort();
    assert_eq!(ids, vec![10, 12]);
    assert_eq!(store.list_tasks_by_job(2).unwrap().len(), 1);
    assert!(store.list_tasks_by_job(3).unwrap().is_empty());
}

#[test]
fn update_task_status_changes_only_the_state() {
    let mut store = InMemoryStore::new();
    store.put_task(&Task { id: 10, job_id: 1, state: TaskState::Pending, attempt: 2, priority: 7 }).unwrap();
    store.put_task(&task(11, 1)).unwrap();
    let upd = TaskStatusUpdate { task_id: 10, state: TaskState::Succeeded { finished_at: 99 } };
    store.update_task_status(&upd).unwrap();
    let t = store.get_task(10).unwrap().unwrap();
    assert_eq!(t, Task { id: 10, job_id: 1, state: TaskState::Succeeded { finished_at: 99 }, attempt: 2, priority: 7 });
    assert_eq!(store.get_task(11).unwrap().unwrap().state, TaskState::Pending);
}

#[test]
fn update_task_status_of_unknown_task_changes_nothing() {
    let mut store = InMemoryStore::new();
    store.put_task(&task(11, 1)).unwrap();
    let upd = TaskStatusUpdate { task_id: 12, state: TaskState::Assigned { node_id: 3 } };
    store.update_task_status(&upd).unwrap();
    assert_eq!(store.get_task(12).unwrap(), None);
    assert_eq!(store.get_task(11).unwrap().unwrap(), task(11, 1));
    assert_eq!(store.list_tasks_by_job(1).unwrap().len(), 1);
}
