//! Processors: the code that does the work of one kind of task.

pub mod transcribe;

pub use transcribe::TranscribeProcessor;

use crate::schedule::types::{Task, TaskParams, TaskResult, TaskType};
use vstd::prelude::*;

verus! {

/// The work behind one kind of task. The scheduler asks a processor for its
/// kind, has it check the parameters of a submission, and hands it the tasks
/// of its kind. Nothing is known of what a processor answers.
pub trait TaskProcessor {
    fn task_type(&self) -> (r: TaskType);

    fn process(&self, task: &Task) -> (r: Result<TaskResult, String>);

    fn validate_params(&self, params: &TaskParams) -> (r: Result<(), String>);

    fn cancel(&self, task: &Task) -> (r: Result<(), String>);

    fn cleanup(&self, task: &Task) -> (r: Result<(), String>);
}

} // verus!
