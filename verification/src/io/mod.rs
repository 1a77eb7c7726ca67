//! The decisions of the tasks that talk to the broker.
pub mod receive;
pub mod send;
pub mod task;
