//! The task routes.

use super::ApiResponse;
use crate::schedule::processors::TaskProcessor;
use crate::schedule::scheduler::task_manager::{
    checks, created, reprioritized, tally, TaskStats,
};
use crate::schedule::types::{Task, TaskConfig, TaskPriority, TaskStatus};
use crate::schedule::TaskManager;
use crate::storage::task::{holds_id, lookup, page_of, sorted_by, upserted, RowOrder};
use crate::web::Pagination;
use vstd::prelude::*;
use vstd::string::*;

verus! {

/// The body of a request for another priority.
#[derive(Debug, Clone, Copy, PartialEq, Eq, Structural)]
pub struct UpdatePriorityRequest {
    pub priority: TaskPriority,
}

/// Submits a task. Answers 201 with the task, or 400 with the refusal of
/// the submission as `created` gives it.
pub fn create_task<P: TaskProcessor, F: Fn(&Task, &str) -> Result<(), String>>(
    task_manager: &mut TaskManager<P, F>,
    config: TaskConfig,
) -> (r: (u16, ApiResponse<Task>))
    requires
        old(task_manager).wf(),
    ensures
        final(task_manager).wf(),
        final(task_manager).same_registries(old(task_manager)),
        final(task_manager).in_flight() == old(task_manager).in_flight(),
        exists|validation: Result<(), String>, token: Seq<char>, now: i64|
            {
                &&& old(task_manager).serves(config@.task_type) ==> checks(
                    old(task_manager).processor_of(config@.task_type),
                    config.params,
                    validation,
                )
                &&& match #[trigger] created(
                    old(task_manager).serves(config@.task_type),
                    holds_id(old(task_manager).tasks(), "task-"@ + token),
                    config@,
                    validation,
                    token,
                    now,
                ) {
                    Ok(stored) => {
                        &&& r.0 == 201
                        &&& r.1.success
                        &&& r.1.error is None
                        &&& r.1.data matches Some(task) && task@ == stored
                        &&& final(task_manager).tasks() == old(task_manager).tasks().push(stored)
                    },
                    Err(refusal) => {
                        &&& r.0 == 400
                        &&& !r.1.success
                        &&& r.1.data is None
                        &&& r.1.error matches Some(m) && m@ == refusal
                        &&& final(task_manager).tasks() == old(task_manager).tasks()
                    },
                }
            },
{
    match task_manager.create_task(config) {
        Ok(task) => (201, ApiResponse::success(task)),
        Err(e) => (400, ApiResponse::error(e)),
    }
}

/// Reads a task. Answers 200 with the task, or 404 with "Task not found".
pub fn get_task<P: TaskProcessor, F: Fn(&Task, &str) -> Result<(), String>>(
    task_manager: &TaskManager<P, F>,
    task_id: &str,
) -> (r: (u16, ApiResponse<Task>))
    requires
        task_manager.wf(),
    ensures
        match lookup(task_manager.tasks(), task_id@) {
            Some(t) => r.0 == 200 && r.1.success && r.1.error is None && (r.1.data matches Some(
                task,
            ) && task@ == t),
            None => r.0 == 404 && !r.1.success && r.1.data is None && (r.1.error matches Some(m)
                && m@ == "Task not found"@),
        },
{
    match task_manager.get_task(task_id) {
        Some(task) => (200, ApiResponse::success(task)),
        None => (404, ApiResponse::error(String::from_str("Task not found"))),
    }
}

/// Reads the status of a task. Answers 200 with the status, or 404 with
/// "Task not found".
pub fn get_task_status<P: TaskProcessor, F: Fn(&Task, &str) -> Result<(), String>>(
    task_manager: &TaskManager<P, F>,
    task_id: &str,
) -> (r: (u16, ApiResponse<TaskStatus>))
    requires
        task_manager.wf(),
    ensures
        match lookup(task_manager.tasks(), task_id@) {
            Some(t) => r.0 == 200 && r.1.success && r.1.error is None && (r.1.data matches Some(
                status,
            ) && status@ == t.status),
            None => r.0 == 404 && !r.1.success && r.1.data is None && (r.1.error matches Some(m)
                && m@ == "Task not found"@),
        },
{
    match task_manager.get_task_status(task_id) {
        Some(status) => (200, ApiResponse::success(status)),
        None => (404, ApiResponse::error(String::from_str("Task not found"))),
    }
}

/// Gives a pending task another priority. Answers 200, or 400 with the
/// error for a task that is not known or not pending.
pub fn update_task_priority<P: TaskProcessor, F: Fn(&Task, &str) -> Result<(), String>>(
    task_manager: &mut TaskManager<P, F>,
    task_id: &str,
    req: UpdatePriorityRequest,
) -> (r: (u16, ApiResponse<()>))
    requires
        old(task_manager).wf(),
    ensures
        final(task_manager).wf(),
        final(task_manager).same_registries(old(task_manager)),
        final(task_manager).in_flight() == old(task_manager).in_flight(),
        match lookup(old(task_manager).tasks(), task_id@) {
            Some(t) => if t.status is Pending {
                r.0 == 200 && r.1.success && r.1.error is None && exists|now: i64|
                    final(task_manager).tasks() == upserted(
                        old(task_manager).tasks(),
                        #[trigger] reprioritized(t, req.priority, now),
                    )
            } else {
                r.0 == 400 && !r.1.success && (r.1.error matches Some(m) && m@
                    == "Can only adjust priority of pending tasks"@) && final(task_manager).tasks()
                    == old(task_manager).tasks()
            },
            None => r.0 == 400 && !r.1.success && (r.1.error matches Some(m) && m@
                == "Task not found"@) && final(task_manager).tasks() == old(task_manager).tasks(),
        },
{
    match task_manager.update_task_priority(task_id, req.priority) {
        Ok(_) => (200, ApiResponse::success(())),
        Err(e) => (400, ApiResponse::error(e)),
    }
}

/// Counts the tasks of one page by status. Answers 200 with the counts.
pub fn get_task_stats<P: TaskProcessor, F: Fn(&Task, &str) -> Result<(), String>>(
    task_manager: &TaskManager<P, F>,
    pagination: &Pagination,
) -> (r: (u16, ApiResponse<TaskStats>))
    ensures
        r.0 == 200,
        r.1.success,
        r.1.error is None,
        r.1.data == Some(
            tally(page_of(sorted_by(task_manager.tasks(), RowOrder::Created), *pagination)),
        ),
{
    (200, ApiResponse::success(task_manager.get_task_stats(pagination)))
}

} // verus!
