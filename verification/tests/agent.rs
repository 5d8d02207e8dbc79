use starling::agent::{
    agent_registration, controller_url, finished_update, finished_update_at, heartbeat_url,
    next_assignment_url, poll_action, register_url, running_update, running_update_at, status_url,
    task_invocation, AgentAction, ERROR_WAIT_SECS, HEARTBEAT_INTERVAL_SECS, IDLE_WAIT_SECS,
};
use starling::models::{Assignment, TaskState};

#[test]
fn controller_url_defaults_to_local() {
    assert_eq!(controller_url(None), "http://127.0.0.1:8080");
    assert_eq!(controller_url(Some("http://ctl:8090".to_string())), "http://ctl:8090");
}

#[test]
fn registration_is_labelled_local_zone() {
    let reg = agent_registration("box".to_string());
    assert_eq!(reg.hostname, "box");
    assert_eq!(reg.labels, vec![("zone".to_string(), "local".to_string())]);
}

#[test]
fn urls_follow_the_api_routes() {
    let id: u128 = 0x67e5504410b1426f9247bb680e5fe0c8;
    assert_eq!(register_url("http://c"), "http://c/v1/nodes/register");
    assert_eq!(heartbeat_url("http://c", id), "http://c/v1/nodes/67e55044-10b1-426f-9247-bb680e5fe0c8/heartbeat");
    assert_eq!(next_assignment_url("http://c", id), "http://c/v1/agents/67e55044-10b1-426f-9247-bb680e5fe0c8/next");
    assert_eq!(status_url("http://c"), "http://c/v1/tasks/status");
}

#[test]
fn poll_actions() {
    let a = Assignment { task_id: 1, job_id: 2, command: vec!["ls".to_string()] };
    assert_eq!(poll_action(true, Some(a.clone())), AgentAction::Run(a.clone()));
    assert_eq!(poll_action(true, None), AgentAction::Wait(2));
    assert_eq!(poll_action(false, Some(a)), AgentAction::Wait(5));
    assert_eq!(poll_action(false, None), AgentAction::Wait(ERROR_WAIT_SECS));
    assert_eq!(IDLE_WAIT_SECS, 2);
    assert_eq!(HEARTBEAT_INTERVAL_SECS, 10);
}

#[test]
fn invocation_of_empty_command_is_echo() {
    let (program, args) = task_invocation(&vec![]);
    assert_eq!(program, "echo");
    assert!(args.is_empty());
}

#[test]
fn invocation_splits_program_and_arguments() {
    let cmd = vec!["echo".to_string(), "hello".to_string(), "world".to_string()];
    let (program, args) = task_invocation(&cmd);
    assert_eq!(program, "echo");
    assert_eq!(args, vec!["hello".to_string(), "world".to_string()]);
    let (program, args) = task_invocation(&vec!["true".to_string()]);
    assert_eq!(program, "true");
    assert!(args.is_empty());
}

#[test]
fn start_is_reported_as_running_on_nil_node() {
    let upd = running_update_at(7, 123);
    assert_eq!(upd.task_id, 7);
    assert_eq!(upd.state, TaskState::Running { node_id: 0, started_at: 123 });
    match running_update(8).state {
        TaskState::Running { node_id, started_at } => {
            assert_eq!(node_id, 0);
            assert!(started_at > 1_577_836_800_000_000_000);
        }
        other => panic!("unexpected state {:?}", other),
    }
}

#[test]
fn end_is_reported_by_exit_status() {
    assert_eq!(finished_update_at(7, true, 9, "exit status: 0").state, TaskState::Succeeded { finished_at: 9 });
    assert_eq!(
        finished_update_at(7, false, 9, "exit status: 3").state,
        TaskState::Failed { finished_at: 9, attempts: 1, last_error: "exit: exit status: 3".to_string() }
    );
    match finished_update(7, false, "signal: 9").state {
        TaskState::Failed { attempts, last_error, .. } => {
            assert_eq!(attempts, 1);
            assert_eq!(last_error, "exit: signal: 9");
        }
        other => panic!("unexpected state {:?}", other),
    }
}
