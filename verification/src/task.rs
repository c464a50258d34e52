//! Agent tasks: their types, retry and failure states, and the coordinator
//! that runs one task at a time and queues the others.
pub mod agent_task;
pub mod coordinator;
pub mod events;
