//! A task run by the agent and the handle the interface keeps of it.
use uuid::Uuid;
use vstd::prelude::*;

use crate::task::events::{AgentTaskState, TaskType};

verus! {

/// A task with its identifier, kind and state.
#[derive(Debug)]
pub struct AgentTask {
    pub task_id: Uuid,
    pub task_type: TaskType,
    pub state: AgentTaskState,
}

impl AgentTask {
    /// A new task, pending.
    pub fn new(task_id: Uuid, task_type: TaskType) -> (r: Self)
        ensures
            r.task_id == task_id,
            r.task_type == task_type,
            r.state is Pending,
    {
        AgentTask { task_id, task_type, state: AgentTaskState::Pending }
    }

    /// Moves the task to `new_state`.
    pub fn transition(&mut self, new_state: AgentTaskState)
        ensures
            final(self).state == new_state,
            final(self).task_id == old(self).task_id,
            final(self).task_type == old(self).task_type,
    {
        self.state = new_state;
    }

    /// Whether a failed task of this kind is retried at all.
    pub fn can_retry(&self) -> (r: bool)
        ensures
            r == !(self.task_type is BackgroundFetch),
    {
        self.task_type.max_retries() > 0
    }

    /// How often a failed task of this kind is retried.
    pub fn max_retries(&self) -> (n: u8)
        ensures
            n == match self.task_type {
                TaskType::UserMessage { .. } => 3u8,
                TaskType::SystemTask { .. } => 2u8,
                TaskType::BackgroundFetch { .. } => 0u8,
            },
    {
        self.task_type.max_retries()
    }
}

/// What the interface keeps of a task.
#[derive(Debug, Clone)]
pub struct AgentTaskHandle {
    pub task_id: Uuid,
    pub task_type: TaskType,
}

impl AgentTaskHandle {
    pub fn new(task_id: Uuid, task_type: TaskType) -> (r: Self)
        ensures
            r.task_id == task_id,
            r.task_type == task_type,
    {
        AgentTaskHandle { task_id, task_type }
    }

    /// A handle does not know its task's state, so it never reports it over.
    pub fn is_terminal(&self) -> (r: bool)
        ensures
            !r,
    {
        false
    }
}

} // verus!
