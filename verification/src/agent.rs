//! What an agent decides: where the controller is, how it registers, which URLs
//! it calls, what to do after each poll, which program a task runs, and what it
//! reports when a task starts and ends. The agent's loop, its HTTP calls and the
//! running of programs are the binary's.
use vstd::prelude::*;
use vstd::string::*;
use crate::ids::{NIL_ID, now_nanos};
use crate::models::{Assignment, NodeRegistration, TaskState, TaskStateView, TaskStatusUpdate, strings_view};

verus! {

/// The controller that an agent talks to when none is configured.
pub open spec fn default_controller_url() -> Seq<char> {
    "http://127.0.0.1:8080"@
}

/// Seconds between two heartbeats of an agent.
pub const HEARTBEAT_INTERVAL_SECS: u64 = 10;

/// Seconds an agent waits before it polls again when no task was waiting.
pub const IDLE_WAIT_SECS: u64 = 2;

/// Seconds an agent waits before it polls again when the poll failed.
pub const ERROR_WAIT_SECS: u64 = 5;

/// The controller's URL: the configured one, or else the default.
pub fn controller_url(configured: Option<String>) -> (url: String)
    ensures
        url@ == (match configured {
            Some(u) => u@,
            None => default_controller_url(),
        }),
{
    match configured {
        Some(u) => u,
        None => String::from_str("http://127.0.0.1:8080"),
    }
}

/// The registration an agent sends: its host name, labelled as being in the
/// local zone.
pub fn agent_registration(hostname: String) -> (reg: NodeRegistration)
    ensures
        reg@.hostname == hostname@,
        reg@.labels == seq![("zone"@, "local"@)],
{
    let mut labels: Vec<(String, String)> = Vec::new();
    labels.push((String::from_str("zone"), String::from_str("local")));
    let reg = NodeRegistration { hostname: hostname, labels: labels };
    assert(reg@.labels =~= seq![("zone"@, "local"@)]);
    reg
}

/// The lowercase hexadecimal digit of `d`, for `0 <= d < 16`.
pub open spec fn hex_digit(d: int) -> char {
    if d < 10 {
        (48 + d) as char
    } else {
        (87 + d) as char
    }
}

/// The 32 hexadecimal digits of an identifier, most significant first.
pub open spec fn uuid_hex(id: u128) -> Seq<char> {
    Seq::new(32, |k: int| hex_digit(((id >> ((124 - 4 * k) as u128)) & 0xfu128) as int))
}

/// The text of an identifier, as `uuid::Uuid`'s `Display` writes it: its 32
/// hexadecimal digits in groups of 8, 4, 4, 4 and 12, joined by hyphens.
pub open spec fn uuid_text(id: u128) -> Seq<char> {
    let h = uuid_hex(id);
    h.subrange(0, 8) + seq!['-'] + h.subrange(8, 12) + seq!['-'] + h.subrange(12, 16) + seq!['-']
        + h.subrange(16, 20) + seq!['-'] + h.subrange(20, 32)
}

/// Writes identifier `id` as text with `uuid::Uuid::from_u128` and `to_string`.
#[verifier::external_body]
fn id_text(id: u128) -> (text: String)
    ensures
        text@ == uuid_text(id),
{
    uuid::Uuid::from_u128(id).to_string()
}

/// The URL at which an agent registers.
pub fn register_url(base: &str) -> (url: String)
    ensures
        url@ == base@ + "/v1/nodes/register"@,
{
    let mut url = String::from_str(base);
    url.append("/v1/nodes/register");
    url
}

/// The URL at which node `node_id` renews its lease.
pub fn heartbeat_url(base: &str, node_id: u128) -> (url: String)
    ensures
        url@ == base@ + "/v1/nodes/"@ + uuid_text(node_id) + "/heartbeat"@,
{
    let id = id_text(node_id);
    let mut url = String::from_str(base);
    url.append("/v1/nodes/");
    url.append(id.as_str());
    url.append("/heartbeat");
    url
}

/// The URL at which node `node_id` asks for its next task.
pub fn next_assignment_url(base: &str, node_id: u128) -> (url: String)
    ensures
        url@ == base@ + "/v1/agents/"@ + uuid_text(node_id) + "/next"@,
{
    let id = id_text(node_id);
    let mut url = String::from_str(base);
    url.append("/v1/agents/");
    url.append(id.as_str());
    url.append("/next");
    url
}

/// The URL at which an agent reports what became of a task.
pub fn status_url(base: &str) -> (url: String)
    ensures
        url@ == base@ + "/v1/tasks/status"@,
{
    let mut url = String::from_str(base);
    url.append("/v1/tasks/status");
    url
}

/// What an agent does after a poll.
#[derive(Debug, Clone, PartialEq, Eq)]
pub enum AgentAction {
    /// Run the task it was handed.
    Run(Assignment),
    /// Wait this many seconds, then poll again.
    Wait(u64),
}

/// After a poll: run the task if the controller answered with one; wait a little
/// if it answered that none waits; wait longer if it did not answer with success.
pub fn poll_action(success: bool, assignment: Option<Assignment>) -> (act: AgentAction)
    ensures
        success && assignment is Some ==> act == AgentAction::Run(assignment->0),
        success && assignment is None ==> act == AgentAction::Wait(IDLE_WAIT_SECS),
        !success ==> act == AgentAction::Wait(ERROR_WAIT_SECS),
{
    if success {
        match assignment {
            Some(a) => AgentAction::Run(a),
            None => AgentAction::Wait(IDLE_WAIT_SECS),
        }
    } else {
        AgentAction::Wait(ERROR_WAIT_SECS)
    }
}

/// The program that runs a command: its first word, or `echo` for an empty command.
pub open spec fn command_program(command: Seq<Seq<char>>) -> Seq<char> {
    if command.len() == 0 {
        "echo"@
    } else {
        command[0]
    }
}

/// The arguments of the program that runs a command: its words after the first.
pub open spec fn command_args(command: Seq<Seq<char>>) -> Seq<Seq<char>> {
    if command.len() > 1 {
        command.subrange(1, command.len() as int)
    } else {
        Seq::empty()
    }
}

/// The program and arguments that run a task's command.
pub fn task_invocation(command: &Vec<String>) -> (out: (String, Vec<String>))
    ensures
        out.0@ == command_program(strings_view(command@)),
        strings_view(out.1@) == command_args(strings_view(command@)),
        command@.len() == 0 ==> out.0@ == "echo"@ && out.1@.len() == 0,
        command@.len() >= 1 ==> out.0@ == command@[0]@ && out.1@.len() == command@.len() - 1,
        forall|i: int| 0 <= i < out.1@.len() ==> (#[trigger] out.1@[i])@ == command@[i + 1]@,
{
    let program = if command.len() == 0 {
        String::from_str("echo")
    } else {
        command[0].clone()
    };
    let mut args: Vec<String> = Vec::new();
    if command.len() > 1 {
        let n = command.len();
        for i in 1..n
            invariant
                n == command@.len(),
                args@.len() == i - 1,
                forall|j: int| 0 <= j < args@.len() ==> (#[trigger] args@[j])@ == command@[j + 1]@,
        {
            args.push(command[i].clone());
        }
        assert(strings_view(args@) =~= command_args(strings_view(command@)));
    } else {
        assert(strings_view(args@) =~= command_args(strings_view(command@)));
    }
    (program, args)
}

/// What an agent reports when it starts task `task_id`, now: running, on the nil
/// node.
pub fn running_update(task_id: u128) -> (upd: TaskStatusUpdate)
    ensures
        upd.task_id == task_id,
        upd@.state matches TaskStateView::Running { node_id, started_at } && node_id == NIL_ID,
{
    let now = now_nanos();
    running_update_at(task_id, now)
}

/// What an agent reports when it starts task `task_id` at `started_at`.
pub fn running_update_at(task_id: u128, started_at: i128) -> (upd: TaskStatusUpdate)
    ensures
        upd@ == (crate::models::TaskStatusUpdateView {
            task_id: task_id,
            state: TaskStateView::Running { node_id: NIL_ID, started_at: started_at },
        }),
{
    TaskStatusUpdate { task_id: task_id, state: TaskState::Running { node_id: NIL_ID, started_at: started_at } }
}

/// The state of a task that ended at `finished_at`: succeeded if its program
/// exited with success, else failed after one attempt, with the exit status as
/// its error.
pub open spec fn finished_state(success: bool, finished_at: i128, exit_text: Seq<char>) -> TaskStateView {
    if success {
        TaskStateView::Succeeded { finished_at: finished_at }
    } else {
        TaskStateView::Failed { finished_at: finished_at, attempts: 1, last_error: "exit: "@ + exit_text }
    }
}

/// What an agent reports when task `task_id` ends, now; `exit_text` is the
/// program's exit status as text.
pub fn finished_update(task_id: u128, success: bool, exit_text: &str) -> (upd: TaskStatusUpdate)
    ensures
        upd.task_id == task_id,
        exists|t: i128| upd@.state == finished_state(success, t, exit_text@),
{
    let now = now_nanos();
    finished_update_at(task_id, success, now, exit_text)
}

/// What an agent reports when task `task_id` ends at `finished_at`.
pub fn finished_update_at(task_id: u128, success: bool, finished_at: i128, exit_text: &str) -> (upd: TaskStatusUpdate)
    ensures
        upd.task_id == task_id,
        upd@.state == finished_state(success, finished_at, exit_text@),
{
    if success {
        TaskStatusUpdate { task_id: task_id, state: TaskState::Succeeded { finished_at: finished_at } }
    } else {
        let mut last_error = String::from_str("exit: ");
        last_error.append(exit_text);
        TaskStatusUpdate {
            task_id: task_id,
            state: TaskState::Failed { finished_at: finished_at, attempts: 1, last_error: last_error },
        }
    }
}

} // verus!
