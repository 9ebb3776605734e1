//! Durable records behind the scheduler.

pub mod task;
