//! The records that the controller and the agents exchange and store.
//!
//! Each record has a view: the same fields with strings taken as character
//! sequences, which is what the contracts of the library speak of.
use vstd::prelude::*;

verus! {

/// A label or a constraint: a key and a value.
pub type LabelView = (Seq<char>, Seq<char>);

/// The view of a list of labels.
pub open spec fn labels_view(labels: Seq<(String, String)>) -> Seq<LabelView> {
    labels.map_values(|l: (String, String)| (l.0@, l.1@))
}

/// The view of a list of strings.
pub open spec fn strings_view(strings: Seq<String>) -> Seq<Seq<char>> {
    strings.map_values(|s: String| s@)
}

/// Copies a list of labels, string by string.
pub fn copy_labels(labels: &Vec<(String, String)>) -> (out: Vec<(String, String)>)
    ensures
        labels_view(out@) == labels_view(labels@),
{
    let mut out: Vec<(String, String)> = Vec::new();
    let n = labels.len();
    for i in 0..n
        invariant
            n == labels@.len(),
            out@.len() == i,
            forall|j: int| 0 <= j < i ==> (#[trigger] out@[j]).0@ == labels@[j].0@ && out@[j].1@ == labels@[j].1@,
    {
        let k = labels[i].0.clone();
        let v = labels[i].1.clone();
        out.push((k, v));
    }
    assert(labels_view(out@) =~= labels_view(labels@));
    out
}

/// Copies a list of strings.
pub fn copy_strings(strings: &Vec<String>) -> (out: Vec<String>)
    ensures
        strings_view(out@) == strings_view(strings@),
{
    let mut out: Vec<String> = Vec::new();
    let n = strings.len();
    for i in 0..n
        invariant
            n == strings@.len(),
            out@.len() == i,
            forall|j: int| 0 <= j < i ==> (#[trigger] out@[j])@ == strings@[j]@,
    {
        out.push(strings[i].clone());
    }
    assert(strings_view(out@) =~= strings_view(strings@));
    out
}

/// What an agent sends to register itself.
#[derive(Debug, Clone, PartialEq, Eq)]
pub struct NodeRegistration {
    pub hostname: String,
    pub labels: Vec<(String, String)>,
}

pub struct NodeRegistrationView {
    pub hostname: Seq<char>,
    pub labels: Seq<LabelView>,
}

impl View for NodeRegistration {
    type V = NodeRegistrationView;

    open spec fn view(&self) -> NodeRegistrationView {
        NodeRegistrationView { hostname: self.hostname@, labels: labels_view(self.labels@) }
    }
}

/// A registered agent.
#[derive(Debug, Clone, PartialEq, Eq)]
pub struct Node {
    pub id: u128,
    pub hostname: String,
    pub labels: Vec<(String, String)>,
    /// Nanoseconds since the Unix epoch.
    pub last_heartbeat: i128,
    pub lease_ttl_secs: u64,
}

pub struct NodeView {
    pub id: u128,
    pub hostname: Seq<char>,
    pub labels: Seq<LabelView>,
    pub last_heartbeat: i128,
    pub lease_ttl_secs: u64,
}

impl View for Node {
    type V = NodeView;

    open spec fn view(&self) -> NodeView {
        NodeView {
            id: self.id,
            hostname: self.hostname@,
            labels: labels_view(self.labels@),
            last_heartbeat: self.last_heartbeat,
            lease_ttl_secs: self.lease_ttl_secs,
        }
    }
}

impl Node {
    /// A copy of the node, field by field.
    pub fn copy(&self) -> (out: Node)
        ensures
            out@ == self@,
    {
        Node {
            id: self.id,
            hostname: self.hostname.clone(),
            labels: copy_labels(&self.labels),
            last_heartbeat: self.last_heartbeat,
            lease_ttl_secs: self.lease_ttl_secs,
        }
    }
}

/// What a client submits: a command to run on `replicas` agents.
#[derive(Debug, Clone, PartialEq, Eq)]
pub struct JobSpec {
    pub name: String,
    pub replicas: u32,
    pub command: Vec<String>,
    pub constraints: Vec<(String, String)>,
    pub priority: u8,
}

pub struct JobSpecView {
    pub name: Seq<char>,
    pub replicas: u32,
    pub command: Seq<Seq<char>>,
    pub constraints: Seq<LabelView>,
    pub priority: u8,
}

impl View for JobSpec {
    type V = JobSpecView;

    open spec fn view(&self) -> JobSpecView {
        JobSpecView {
            name: self.name@,
            replicas: self.replicas,
            command: strings_view(self.command@),
            constraints: labels_view(self.constraints@),
            priority: self.priority,
        }
    }
}

impl JobSpec {
    /// A copy of the specification, field by field.
    pub fn copy(&self) -> (out: JobSpec)
        ensures
            out@ == self@,
    {
        JobSpec {
            name: self.name.clone(),
            replicas: self.replicas,
            command: copy_strings(&self.command),
            constraints: copy_labels(&self.constraints),
            priority: self.priority,
        }
    }
}

/// A submitted job.
#[derive(Debug, Clone, PartialEq, Eq)]
pub struct Job {
    pub id: u128,
    pub spec: JobSpec,
    /// Nanoseconds since the Unix epoch.
    pub created_at: i128,
}

pub struct JobView {
    pub id: u128,
    pub spec: JobSpecView,
    pub created_at: i128,
}

impl View for Job {
    type V = JobView;

    open spec fn view(&self) -> JobView {
        JobView { id: self.id, spec: self.spec@, created_at: self.created_at }
    }
}

impl Job {
    /// A copy of the job, field by field.
    pub fn copy(&self) -> (out: Job)
        ensures
            out@ == self@,
    {
        Job { id: self.id, spec: self.spec.copy(), created_at: self.created_at }
    }
}

/// Where a task stands.
#[derive(Debug, Clone, PartialEq, Eq)]
pub enum TaskState {
    Pending,
    Assigned { node_id: u128 },
    Running { node_id: u128, started_at: i128 },
    Succeeded { finished_at: i128 },
    Failed { finished_at: i128, attempts: u32, last_error: String },
}

pub enum TaskStateView {
    Pending,
    Assigned { node_id: u128 },
    Running { node_id: u128, started_at: i128 },
    Succeeded { finished_at: i128 },
    Failed { finished_at: i128, attempts: u32, last_error: Seq<char> },
}

impl View for TaskState {
    type V = TaskStateView;

    open spec fn view(&self) -> TaskStateView {
        match self {
            TaskState::Pending => TaskStateView::Pending,
            TaskState::Assigned { node_id } => TaskStateView::Assigned { node_id: *node_id },
            TaskState::Running { node_id, started_at } => TaskStateView::Running {
                node_id: *node_id,
                started_at: *started_at,
            },
            TaskState::Succeeded { finished_at } => TaskStateView::Succeeded {
                finished_at: *finished_at,
            },
            TaskState::Failed { finished_at, attempts, last_error } => TaskStateView::Failed {
                finished_at: *finished_at,
                attempts: *attempts,
                last_error: last_error@,
            },
        }
    }
}

impl TaskState {
    /// A copy of the state.
    pub fn copy(&self) -> (out: TaskState)
        ensures
            out@ == self@,
    {
        match self {
            TaskState::Pending => TaskState::Pending,
            TaskState::Assigned { node_id } => TaskState::Assigned { node_id: *node_id },
            TaskState::Running { node_id, started_at } => TaskState::Running {
                node_id: *node_id,
                started_at: *started_at,
            },
            TaskState::Succeeded { finished_at } => TaskState::Succeeded {
                finished_at: *finished_at,
            },
            TaskState::Failed { finished_at, attempts, last_error } => TaskState::Failed {
                finished_at: *finished_at,
                attempts: *attempts,
                last_error: last_error.clone(),
            },
        }
    }

    /// Whether the task waits for an agent.
    pub fn is_pending(&self) -> (b: bool)
        ensures
            b == (self@ is Pending),
    {
        match self {
            TaskState::Pending => true,
            _ => false,
        }
    }
}

/// One run of a job's command on one agent.
#[derive(Debug, Clone, PartialEq, Eq)]
pub struct Task {
    pub id: u128,
    pub job_id: u128,
    pub state: TaskState,
    pub attempt: u32,
    pub priority: u8,
}

pub struct TaskView {
    pub id: u128,
    pub job_id: u128,
    pub state: TaskStateView,
    pub attempt: u32,
    pub priority: u8,
}

impl View for Task {
    type V = TaskView;

    open spec fn view(&self) -> TaskView {
        TaskView {
            id: self.id,
            job_id: self.job_id,
            state: self.state@,
            attempt: self.attempt,
            priority: self.priority,
        }
    }
}

impl TaskView {
    /// The same task in another state.
    pub open spec fn with_state(self, state: TaskStateView) -> TaskView {
        TaskView { state: state, ..self }
    }
}

impl Task {
    /// A copy of the task, field by field.
    pub fn copy(&self) -> (out: Task)
        ensures
            out@ == self@,
    {
        Task {
            id: self.id,
            job_id: self.job_id,
            state: self.state.copy(),
            attempt: self.attempt,
            priority: self.priority,
        }
    }
}

/// What an agent receives: a task to run and the command to run for it.
#[derive(Debug, Clone, PartialEq, Eq)]
pub struct Assignment {
    pub task_id: u128,
    pub job_id: u128,
    pub command: Vec<String>,
}

pub struct AssignmentView {
    pub task_id: u128,
    pub job_id: u128,
    pub command: Seq<Seq<char>>,
}

impl View for Assignment {
    type V = AssignmentView;

    open spec fn view(&self) -> AssignmentView {
        AssignmentView {
            task_id: self.task_id,
            job_id: self.job_id,
            command: strings_view(self.command@),
        }
    }
}

/// What an agent reports of a task.
#[derive(Debug, Clone, PartialEq, Eq)]
pub struct TaskStatusUpdate {
    pub task_id: u128,
    pub state: TaskState,
}

pub struct TaskStatusUpdateView {
    pub task_id: u128,
    pub state: TaskStateView,
}

impl View for TaskStatusUpdate {
    type V = TaskStatusUpdateView;

    open spec fn view(&self) -> TaskStatusUpdateView {
        TaskStatusUpdateView { task_id: self.task_id, state: self.state@ }
    }
}

} // verus!
