//! Ready-queue scheduler of a cooperative, single-processor kernel.
//!
//! The scheduler keeps the runnable tasks in a queue and hands out, on
//! demand, the one that is furthest behind in virtual time (stride
//! scheduling). Every executable function carries a contract that is
//! proved against a mathematical model of the queue.

pub mod config;
pub mod laws;
pub mod manager;
pub mod queue;
pub mod selection;
pub mod stride;
pub mod task;

pub use crate::config::BIG_STRIDE;
pub use crate::manager::{add_task, fetch_task, TaskManager};
pub use crate::task::TaskControlBlock;
