//! Task kinds, task states and the events that move them.
use uuid::Uuid;
use vstd::prelude::*;

verus! {

/// `uuid::Uuid`, carried as an opaque identifier.
#[verifier::external_type_specification]
#[verifier::external_body]
pub struct ExUuid(Uuid);

/// `Uuid::clone`: `Uuid` derives `Clone` and `Copy` over its sixteen bytes, so
/// a clone is the same identifier.
pub assume_specification[ <Uuid as Clone>::clone ](u: &Uuid) -> (r: Uuid)
    ensures
        r == *u,
;

/// What a task does, with its priority.
#[derive(Debug, Clone, Copy, PartialEq, Eq, Structural)]
pub enum TaskType {
    UserMessage { priority: u8 },
    SystemTask { priority: u8 },
    BackgroundFetch { priority: u8 },
}

impl TaskType {
    /// The priority the task was created with.
    pub fn priority(&self) -> (p: u8)
        ensures
            p == match *self {
                TaskType::UserMessage { priority } => priority,
                TaskType::SystemTask { priority } => priority,
                TaskType::BackgroundFetch { priority } => priority,
            },
    {
        match self {
            TaskType::UserMessage { priority } => *priority,
            TaskType::SystemTask { priority } => *priority,
            TaskType::BackgroundFetch { priority } => *priority,
        }
    }

    /// How often a failed task of this kind is retried: three times for a
    /// user message, twice for a system task, never for a background fetch.
    pub fn max_retries(&self) -> (n: u8)
        ensures
            n == match *self {
                TaskType::UserMessage { .. } => 3u8,
                TaskType::SystemTask { .. } => 2u8,
                TaskType::BackgroundFetch { .. } => 0u8,
            },
    {
        match self {
            TaskType::UserMessage { .. } => 3,
            TaskType::SystemTask { .. } => 2,
            TaskType::BackgroundFetch { .. } => 0,
        }
    }
}

impl Default for TaskType {
    /// A system task of priority 50.
    fn default() -> (r: Self)
        ensures
            r == (TaskType::SystemTask { priority: 50 }),
    {
        TaskType::SystemTask { priority: 50 }
    }
}

/// Why a task failed.
#[derive(Debug, Clone)]
pub enum FailedState {
    NetworkError { message: String, retry_count: u8 },
    ProviderError { message: String, provider: String, retry_count: u8 },
    Timeout { waited_secs: u64, limit_secs: u64 },
    Cancelled,
}

/// A failure may be retried: network and provider errors while retries are
/// left, a timeout always, a cancellation never.
pub open spec fn spec_retriable(f: FailedState) -> bool {
    match f {
        FailedState::NetworkError { retry_count, .. } => retry_count > 0,
        FailedState::ProviderError { retry_count, .. } => retry_count > 0,
        FailedState::Timeout { .. } => true,
        FailedState::Cancelled => false,
    }
}

/// Retries left for a failure that counts them.
pub open spec fn retries_left(f: FailedState) -> Option<u8> {
    match f {
        FailedState::NetworkError { retry_count, .. } => Some(retry_count),
        FailedState::ProviderError { retry_count, .. } => Some(retry_count),
        _ => None,
    }
}

impl FailedState {
    pub fn is_retriable(&self) -> (r: bool)
        ensures
            r == spec_retriable(*self),
    {
        match self {
            FailedState::NetworkError { retry_count, .. } => *retry_count > 0,
            FailedState::ProviderError { retry_count, .. } => *retry_count > 0,
            FailedState::Timeout { .. } => true,
            FailedState::Cancelled => false,
        }
    }

    /// The same failure with one retry used up; failures that do not count
    /// retries stay as they are.
    pub fn with_decrement(&self) -> (r: Self)
        requires
            retries_left(*self) matches Some(n) ==> n > 0,
        ensures
            match (*self, r) {
                (
                    FailedState::NetworkError { message: m0, retry_count: c0 },
                    FailedState::NetworkError { message: m1, retry_count: c1 },
                ) => m1@ == m0@ && c1 == c0 - 1,
                (
                    FailedState::ProviderError { message: m0, provider: p0, retry_count: c0 },
                    FailedState::ProviderError { message: m1, provider: p1, retry_count: c1 },
                ) => m1@ == m0@ && p1@ == p0@ && c1 == c0 - 1,
                (
                    FailedState::Timeout { waited_secs: w0, limit_secs: l0 },
                    FailedState::Timeout { waited_secs: w1, limit_secs: l1 },
                ) => w1 == w0 && l1 == l0,
                (FailedState::Cancelled, FailedState::Cancelled) => true,
                _ => false,
            },
    {
        match self {
            FailedState::NetworkError { message, retry_count } => FailedState::NetworkError {
                message: message.clone(),
                retry_count: *retry_count - 1,
            },
            FailedState::ProviderError { message, provider, retry_count } => {
                FailedState::ProviderError {
                    message: message.clone(),
                    provider: provider.clone(),
                    retry_count: *retry_count - 1,
                }
            },
            FailedState::Timeout { waited_secs, limit_secs } => FailedState::Timeout {
                waited_secs: *waited_secs,
                limit_secs: *limit_secs,
            },
            FailedState::Cancelled => FailedState::Cancelled,
        }
    }
}

/// What a running task is doing.
#[derive(Debug, Clone, Copy, PartialEq, Eq, Structural)]
pub enum RunningState {
    Initializing,
    WaitingProvider,
    StreamingChunks,
    ProcessingToolCall,
}

/// Where a task is in its life.
#[derive(Debug, Clone)]
pub enum AgentTaskState {
    Pending,
    Running(RunningState),
    Completed,
    Failed(FailedState),
    Suspended,
    Cancelled,
}

/// A task is over once it completed, failed or was cancelled.
pub open spec fn spec_terminal(s: AgentTaskState) -> bool {
    s is Completed || s is Failed || s is Cancelled
}

impl AgentTaskState {
    pub fn is_terminal(&self) -> (r: bool)
        ensures
            r == spec_terminal(*self),
    {
        match self {
            AgentTaskState::Completed | AgentTaskState::Failed(_) | AgentTaskState::Cancelled => true,
            _ => false,
        }
    }
}

/// Coordinator state with a plain list of waiting tasks.
#[derive(Debug, Clone)]
pub enum CoordinatorState {
    Idle,
    Managing { active_task_id: Uuid, pending_queue: Vec<QueuedTask> },
}

/// A waiting task with its state.
#[derive(Debug, Clone)]
pub struct QueuedTask {
    pub task_id: Uuid,
    pub task_type: TaskType,
    pub state: AgentTaskState,
}

/// What happens to tasks, as the coordinator sees it.
#[derive(Debug, Clone, Copy)]
pub enum CoordinatorEvent {
    TaskEnqueued { task_id: Uuid, task_type: TaskType },
    TaskStarted { task_id: Uuid },
    TaskCompleted { task_id: Uuid },
    TaskCancelled { task_id: Uuid },
    Preempted { high_priority: Uuid, low_priority: Uuid },
    TaskSuspended { task_id: Uuid },
    TaskResumed { task_id: Uuid },
}

/// What a task reports while it runs.
#[derive(Debug, Clone)]
pub enum TaskEvent {
    Spawned,
    Chunk { content: String },
    ToolCall { name: String, input: String },
    ToolResult { name: String, result: String },
    Completed { content: String },
    Failed { state: FailedState },
    Suspended,
    Resumed,
}

} // verus!
