//! The coordinator runs one task at a time; tasks enqueued meanwhile wait in
//! order and start as the running one completes or is cancelled.
use std::collections::VecDeque;
use uuid::Uuid;
use vstd::prelude::*;

use crate::task::events::{CoordinatorEvent, TaskType};

verus! {

/// A task waiting for its turn.
#[derive(Debug, Clone, Copy)]
pub struct QueuedTask {
    pub task_id: Uuid,
    pub task_type: TaskType,
}

/// Whether a task runs, and which tasks wait.
#[derive(Debug, Clone)]
pub enum CoordinatorState {
    Idle,
    Managing { active_task_id: Uuid, pending_queue: VecDeque<QueuedTask> },
}

/// The coordinator's state as values.
pub enum CoordinatorView {
    Idle,
    Managing { active: Uuid, pending: Seq<QueuedTask> },
}

impl View for CoordinatorState {
    type V = CoordinatorView;

    open spec fn view(&self) -> CoordinatorView {
        match self {
            CoordinatorState::Idle => CoordinatorView::Idle,
            CoordinatorState::Managing { active_task_id, pending_queue } => CoordinatorView::Managing {
                active: *active_task_id,
                pending: pending_queue@,
            },
        }
    }
}

/// The next state after the running task ends: the first waiting task runs,
/// or the coordinator falls idle.
pub open spec fn next_or_idle(s: CoordinatorView) -> CoordinatorView {
    match s {
        CoordinatorView::Managing { active, pending } => if pending.len() > 0 {
            CoordinatorView::Managing { active: pending[0].task_id, pending: pending.drop_first() }
        } else {
            CoordinatorView::Idle
        },
        CoordinatorView::Idle => CoordinatorView::Idle,
    }
}

/// How an event moves the coordinator: an enqueued task runs at once when
/// the coordinator is idle and waits at the back otherwise; completion or
/// cancellation ends the running task; other events change nothing.
pub open spec fn coordinator_step(s: CoordinatorView, e: CoordinatorEvent) -> CoordinatorView {
    match e {
        CoordinatorEvent::TaskEnqueued { task_id, task_type } => match s {
            CoordinatorView::Idle => CoordinatorView::Managing { active: task_id, pending: Seq::empty() },
            CoordinatorView::Managing { active, pending } => CoordinatorView::Managing {
                active,
                pending: pending.push(QueuedTask { task_id, task_type }),
            },
        },
        CoordinatorEvent::TaskCompleted { .. } => next_or_idle(s),
        CoordinatorEvent::TaskCancelled { .. } => next_or_idle(s),
        _ => s,
    }
}

/// `Uuid::new_v4`: a random identifier.
#[verifier::external_body]
fn new_task_id() -> (id: Uuid) {
    Uuid::new_v4()
}

/// Runs one task at a time and logs every event it is given.
#[derive(Debug)]
pub struct TaskCoordinator {
    state: CoordinatorState,
    event_queue: VecDeque<CoordinatorEvent>,
}

impl TaskCoordinator {
    /// The current state.
    pub closed spec fn spec_state(&self) -> CoordinatorView {
        self.state@
    }

    /// Every event handled so far, oldest first.
    pub closed spec fn events(&self) -> Seq<CoordinatorEvent> {
        self.event_queue@
    }

    pub fn new() -> (r: Self)
        ensures
            r.spec_state() is Idle,
            r.events().len() == 0,
    {
        TaskCoordinator { state: CoordinatorState::Idle, event_queue: VecDeque::new() }
    }

    /// Enqueues a task of the given kind under a fresh random identifier,
    /// which it returns; the task runs at once if nothing else does.
    pub fn enqueue(&mut self, task_type: TaskType) -> (id: Uuid)
        ensures
            final(self).events() == old(self).events().push(
                CoordinatorEvent::TaskEnqueued { task_id: id, task_type },
            ),
            final(self).spec_state() == coordinator_step(
                old(self).spec_state(),
                CoordinatorEvent::TaskEnqueued { task_id: id, task_type },
            ),
    {
        let task_id = new_task_id();
        let event = CoordinatorEvent::TaskEnqueued { task_id, task_type };
        self.event_queue.push_back(event);
        self.process_event(event);
        task_id
    }

    fn process_event(&mut self, event: CoordinatorEvent)
        ensures
            final(self).spec_state() == coordinator_step(old(self).spec_state(), event),
            final(self).events() == old(self).events(),
    {
        match event {
            CoordinatorEvent::TaskEnqueued { task_id, task_type } => {
                let mut st = CoordinatorState::Idle;
                std::mem::swap(&mut st, &mut self.state);
                match st {
                    CoordinatorState::Idle => {
                        self.state = CoordinatorState::Managing {
                            active_task_id: task_id,
                            pending_queue: VecDeque::new(),
                        };
                    },
                    CoordinatorState::Managing { active_task_id, pending_queue } => {
                        let mut q = pending_queue;
                        q.push_back(QueuedTask { task_id, task_type });
                        self.state = CoordinatorState::Managing { active_task_id, pending_queue: q };
                    },
                }
            },
            CoordinatorEvent::TaskCompleted { .. } => {
                self.transition_to_idle_or_next();
            },
            CoordinatorEvent::TaskCancelled { .. } => {
                self.transition_to_idle_or_next();
            },
            _ => {},
        }
    }

    fn transition_to_idle_or_next(&mut self)
        ensures
            final(self).spec_state() == next_or_idle(old(self).spec_state()),
            final(self).events() == old(self).events(),
    {
        let mut st = CoordinatorState::Idle;
        std::mem::swap(&mut st, &mut self.state);
        match st {
            CoordinatorState::Managing { active_task_id, pending_queue } => {
                let mut q = pending_queue;
                match q.pop_front() {
                    Some(next) => {
                        self.state = CoordinatorState::Managing {
                            active_task_id: next.task_id,
                            pending_queue: q,
                        };
                    },
                    None => {
                        self.state = CoordinatorState::Idle;
                    },
                }
            },
            CoordinatorState::Idle => {
                self.state = CoordinatorState::Idle;
            },
        }
    }

    /// The current state.
    pub fn state(&self) -> (r: &CoordinatorState)
        ensures
            r@ == self.spec_state(),
    {
        &self.state
    }

    /// Whether no task runs.
    pub fn is_idle(&self) -> (r: bool)
        ensures
            r == (self.spec_state() is Idle),
    {
        match self.state {
            CoordinatorState::Idle => true,
            _ => false,
        }
    }
}

impl Default for TaskCoordinator {
    fn default() -> (r: Self)
        ensures
            r.spec_state() is Idle,
            r.events().len() == 0,
    {
        Self::new()
    }
}

} // verus!
