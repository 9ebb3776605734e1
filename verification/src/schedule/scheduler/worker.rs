//! A worker: it serves one kind of task, one task at a time.

use super::task_manager::{
    after_failure, after_success, processing, pruned, tracks, Dropped, HttpDelivery,
    ProcessingInfoView, TaskManager,
};
use crate::clock::now_millis;
use crate::schedule::processors::TaskProcessor;
use crate::schedule::types::{Task, TaskResult, TaskStatusView, TaskType, TaskView};
use crate::storage::task::{
    claimable, in_order_until, lemma_moved_on, lookup, moved_on, row_index, upserted,
    with_row_status,
};
use vstd::prelude::*;
use vstd::string::*;

verus! {

/// Milliseconds a worker waits before it looks for work again when it found
/// none.
pub const DEFAULT_POLL_INTERVAL: u64 = 1_000;

/// Milliseconds a worker waits after an error.
pub const ERROR_BACKOFF: u64 = 100;

/// What one step of a worker came to.
#[derive(Debug, PartialEq, Eq)]
pub enum WorkerStep {
    /// No task of the worker's kind was pending.
    Idle,
    /// A task was claimed and run. `task` is the task as it stands
    /// afterwards, `delivery` an HTTP callback that is due, `callback_error`
    /// the error of a callback that failed.
    Done { task: Task, delivery: Option<HttpDelivery>, callback_error: Option<String> },
}

/// What a worker does between two steps.
#[derive(Debug, Clone, Copy, PartialEq, Eq, Structural)]
pub enum Pause {
    /// Go on at once.
    Resume,
    /// Wait for the given milliseconds.
    Wait(u64),
}

/// What a step holds of the report of its task: nothing for a task marked
/// for a retry; else what the report of the task answered, as
/// `answers_callback` says: a delivery that is due, or the error of the
/// callback.
pub open spec fn reports<P: TaskProcessor, F: Fn(&Task, &str) -> Result<(), String>>(
    manager: TaskManager<P, F>,
    step: WorkerStep,
) -> bool {
    step matches WorkerStep::Done { task, delivery, callback_error } && if task@.status
        is Retrying {
        delivery is None && callback_error is None
    } else {
        exists|answer: Result<Option<HttpDelivery>, String>|
            #[trigger] manager.answers_callback(&task, answer) && match answer {
                Ok(due) => delivery == due && callback_error is None,
                Err(m) => delivery is None && callback_error == Some(m),
            }
    }
}

/// The run of a claimed task, from the manager `before` to the manager
/// `after`. The first claimable task of the kind was claimed at `start`,
/// which made it `claimed`. Its run came to `outcome`, as `ran` says. At
/// `now` the outcome was recorded: a result completed the task; an error
/// marked it for a retry while retries were left, and failed it otherwise.
/// `task` is the task as it then stands, in the table too, and it has left
/// the registry of tasks in flight.
pub open spec fn settled_run<P: TaskProcessor, F: Fn(&Task, &str) -> Result<(), String>>(
    before: TaskManager<P, F>,
    kind: TaskType,
    claimed: Task,
    outcome: Result<TaskResult, String>,
    start: i64,
    now: i64,
    task: TaskView,
    after: TaskManager<P, F>,
) -> bool {
    let first = claimable(before.tasks(), kind, 1)[0];
    &&& claimed@ == first.with_status(TaskStatusView::Processing, start)
    &&& before.ran(claimed, outcome)
    &&& task == (match outcome {
        Ok(result) => after_success(claimed@, result@, now),
        Err(error) => after_failure(claimed@, error@, now),
    })
    &&& after.tasks() == upserted(
        with_row_status(before.tasks(), first.id, TaskStatusView::Processing, start),
        task,
    )
    &&& after.in_flight() == pruned(
        before.in_flight().push(ProcessingInfoView { id: first.id, started_at: start }),
        Dropped::Task(first.id),
    )
}

/// `step` is a step of a worker for `kind` that leads from `before` to
/// `after`. When nothing of the kind is claimable the step is idle and
/// nothing changes. Else the first claimable task was claimed and run, and
/// the outcome of the run was recorded, as `settled_run` says: a run that
/// answered with a result leaves the task completed with that result, a
/// run that failed leaves it failed with the error of the run, or marked
/// for a retry while retries are left. The task reads back as the step's
/// task, it is no longer in flight, and its outcome was reported as
/// `reports` says. Every row has moved on, if at all, along the state
/// machine.
pub open spec fn took_step<P: TaskProcessor, F: Fn(&Task, &str) -> Result<(), String>>(
    before: TaskManager<P, F>,
    kind: TaskType,
    step: WorkerStep,
    after: TaskManager<P, F>,
) -> bool {
    &&& after.wf()
    &&& after.same_registries(&before)
    &&& moved_on(before.tasks(), after.tasks())
    &&& step is Idle == (claimable(before.tasks(), kind, 1).len() == 0)
    &&& step is Idle ==> after.tasks() == before.tasks() && after.in_flight() == before.in_flight()
    &&& step matches WorkerStep::Done { task, delivery, callback_error } ==> {
        &&& exists|claimed: Task, outcome: Result<TaskResult, String>, start: i64, now: i64| #[trigger]
            settled_run(before, kind, claimed, outcome, start, now, task@, after)
        &&& task@.id == claimable(before.tasks(), kind, 1)[0].id
        &&& lookup(after.tasks(), task@.id) == Some(task@)
        &&& (task@.status is Completed || task@.status is Failed || task@.status is Retrying)
        &&& task@.valid()
        &&& task@.started_at is Some
        &&& !tracks(after.in_flight(), task@.id)
        &&& reports(after, step)
    }
}

/// A worker bound to one kind of task.
#[derive(Debug, Clone, Copy, PartialEq, Eq, Structural)]
pub struct TaskWorker {
    pub task_type: TaskType,
    pub interval: u64,
}

impl TaskWorker {
    /// A worker for `task_type` that polls once a second.
    pub fn new(task_type: TaskType) -> (r: Self)
        ensures
            r == (TaskWorker { task_type: task_type, interval: DEFAULT_POLL_INTERVAL }),
    {
        TaskWorker { task_type, interval: DEFAULT_POLL_INTERVAL }
    }

    /// The worker with another polling interval, in milliseconds.
    pub fn with_interval(self, interval: u64) -> (r: Self)
        ensures
            r == (TaskWorker { interval: interval, ..self }),
    {
        TaskWorker { task_type: self.task_type, interval }
    }

    /// The pause after a step: none after a task, so that a backlog is
    /// drained; the polling interval when nothing was pending; a short
    /// backoff after an error.
    pub fn pause_after(&self, step: &Result<WorkerStep, String>) -> (r: Pause)
        ensures
            r == (match step {
                Ok(WorkerStep::Done { .. }) => Pause::Resume,
                Ok(WorkerStep::Idle) => Pause::Wait(self.interval),
                Err(_) => Pause::Wait(ERROR_BACKOFF),
            }),
    {
        match step {
            Ok(WorkerStep::Done { .. }) => Pause::Resume,
            Ok(WorkerStep::Idle) => Pause::Wait(self.interval),
            Err(_) => Pause::Wait(ERROR_BACKOFF),
        }
    }

    /// The time a run of `task` may take, in milliseconds: its timeout,
    /// where it has one, kept within the machine word.
    pub fn deadline(task: &Task) -> (r: Option<u64>)
        ensures
            r == (match task@.config.timeout {
                Some(seconds) => Some(
                    if seconds * 1000 > u64::MAX {
                        u64::MAX
                    } else {
                        (seconds * 1000) as u64
                    },
                ),
                None => None,
            }),
    {
        match task.config.timeout {
            Some(seconds) => match seconds.checked_mul(1000) {
                Some(ms) => Some(ms),
                None => Some(u64::MAX),
            },
            None => None,
        }
    }

    /// Whether the input of `task` is needed no longer: a task in a terminal
    /// state is not run again.
    pub fn input_is_spent(task: &Task) -> (r: bool)
        ensures
            r == task@.status.is_terminal(),
    {
        task.status.is_terminal()
    }

    /// Reports the outcome of a task that has just been settled through the
    /// task's callback. A task marked for a retry is not reported.
    fn report<P: TaskProcessor, F: Fn(&Task, &str) -> Result<(), String>>(
        manager: &TaskManager<P, F>,
        task: Task,
    ) -> (r: WorkerStep)
        requires
            manager.wf(),
        ensures
            r matches WorkerStep::Done { task: reported, delivery, callback_error } && reported
                == task,
            reports(*manager, r),
    {
        if task.status.is_retrying() {
            return WorkerStep::Done { task, delivery: None, callback_error: None };
        }
        let answer = manager.handle_callback(&task);
        let r = match answer {
            Ok(delivery) => WorkerStep::Done { task, delivery, callback_error: None },
            Err(m) => WorkerStep::Done { task, delivery: None, callback_error: Some(m) },
        };
        assert(manager.answers_callback(&task, answer));
        r
    }

    /// Records, at `now`, how the run of a claimed task went, and reports a
    /// terminal outcome through the task's callback. A result completes the
    /// task. An error is recorded as a failure: the task is marked for a
    /// retry while retries are left, and fails otherwise. A task marked for
    /// a retry is not reported. For a task that is not being processed
    /// nothing is recorded and nothing is reported; the step then holds the
    /// task as the table has it.
    pub fn settle_at<P: TaskProcessor, F: Fn(&Task, &str) -> Result<(), String>>(
        &self,
        manager: &mut TaskManager<P, F>,
        claimed: Task,
        outcome: Result<TaskResult, String>,
        now: i64,
    ) -> (r: WorkerStep)
        requires
            old(manager).wf(),
        ensures
            final(manager).wf(),
            final(manager).same_registries(old(manager)),
            moved_on(old(manager).tasks(), final(manager).tasks()),
            in_order_until(old(manager).tasks(), now) ==> in_order_until(
                final(manager).tasks(),
                now,
            ),
            r matches WorkerStep::Done { task, delivery, callback_error } && {
                &&& !tracks(final(manager).in_flight(), claimed@.id)
                &&& task@.status is Retrying ==> delivery is None && callback_error is None
                &&& processing(old(manager).tasks(), claimed@.id) ==> {
                    &&& reports(*final(manager), r)
                    &&& lookup(final(manager).tasks(), claimed@.id) == Some(task@)
                    &&& task@ == (match outcome {
                        Ok(result) => after_success(
                            lookup(old(manager).tasks(), claimed@.id).unwrap(),
                            result@,
                            now,
                        ),
                        Err(error) => after_failure(
                            lookup(old(manager).tasks(), claimed@.id).unwrap(),
                            error@,
                            now,
                        ),
                    })
                    &&& final(manager).tasks() == upserted(old(manager).tasks(), task@)
                    &&& final(manager).in_flight() == pruned(
                        old(manager).in_flight(),
                        Dropped::Task(claimed@.id),
                    )
                    &&& task@.started_at is Some
                    &&& lookup(old(manager).tasks(), claimed@.id).unwrap().time_ordered()
                        && lookup(old(manager).tasks(), claimed@.id).unwrap().updated_at <= now
                        ==> task@.time_ordered()
                }
                &&& !processing(old(manager).tasks(), claimed@.id) ==> {
                    &&& final(manager).tasks() == old(manager).tasks()
                    &&& final(manager).in_flight() == old(manager).in_flight()
                    &&& delivery is None
                    &&& callback_error is None
                    &&& task@ == (match lookup(old(manager).tasks(), claimed@.id) {
                        Some(t) => t,
                        None => claimed@,
                    })
                }
            },
    {
        let ghost first = *manager;
        let settled = match outcome {
            Ok(result) => manager.complete_task_at(claimed.id.as_str(), result, now),
            Err(m) => manager.handle_task_error_at(claimed.id.as_str(), m, now),
        };
        proof {
            manager.lemma_not_in_flight(claimed@.id);
            lemma_moved_on(first.tasks(), manager.tasks(), manager.tasks());
            first.lemma_invariant();
            if processing(first.tasks(), claimed@.id) {
                let i = row_index(first.tasks(), claimed@.id);
                assert(first.tasks()[i].valid());
            }
        }
        match settled {
            Some(task) => Self::report(manager, task),
            None => {
                let task = match manager.get_task(claimed.id.as_str()) {
                    Some(task) => task,
                    None => claimed,
                };
                WorkerStep::Done { task, delivery: None, callback_error: None }
            },
        }
    }

    /// One step: claims the next pending task of the worker's kind, runs its
    /// processor, records the outcome, and reports a terminal outcome through
    /// the task's callback.
    ///
    /// When nothing is pending the step is idle and nothing changes. Else
    /// the claimed task is the most urgent pending one of the kind, and among
    /// equals the oldest. A run that answers with a result completes it with
    /// that result; a run that fails, or a kind without a processor, marks it
    /// for a retry while retries are left, and fails it with the error
    /// otherwise. The task is then no longer in flight. A completed and a
    /// failed task are reported once, through the callback the task names; a
    /// task marked for a retry is not reported.
    pub fn process_next_task<P: TaskProcessor, F: Fn(&Task, &str) -> Result<(), String>>(
        &self,
        manager: &mut TaskManager<P, F>,
    ) -> (r: WorkerStep)
        requires
            old(manager).wf(),
        ensures
            took_step(*old(manager), self.task_type, r, *final(manager)),
    {
        let claimed = match manager.get_next_task(self.task_type) {
            Some(task) => task,
            None => {
                proof {
                    lemma_moved_on(manager.tasks(), manager.tasks(), manager.tasks());
                }
                return WorkerStep::Idle;
            },
        };
        let ghost first = *manager;
        let ghost held = claimed;
        let outcome = manager.run_task(&claimed);
        let ghost answered = outcome;
        let now = now_millis();
        let step = self.settle_at(manager, claimed, outcome, now);
        proof {
            let rows = old(manager).tasks();
            let front = claimable(rows, self.task_type, 1)[0];
            let start = choose|start: i64|
                {
                    &&& held@ == #[trigger] front.with_status(TaskStatusView::Processing, start)
                    &&& first.tasks() == with_row_status(
                        rows,
                        held@.id,
                        TaskStatusView::Processing,
                        start,
                    )
                    &&& first.in_flight() == old(manager).in_flight().push(
                        ProcessingInfoView { id: held@.id, started_at: start },
                    )
                };
            first.lemma_same_registries(old(manager));
            manager.lemma_registries_chain(&first, old(manager));
            lemma_moved_on(rows, first.tasks(), manager.tasks());
            manager.lemma_invariant();
            let task = step->task;
            assert(lookup(manager.tasks(), task@.id) == Some(task@));
            assert(manager.tasks()[row_index(manager.tasks(), task@.id)].valid());
            assert(settled_run(
                *old(manager),
                self.task_type,
                held,
                answered,
                start,
                now,
                task@,
                *manager,
            ));
        }
        step
    }
}

} // verus!
