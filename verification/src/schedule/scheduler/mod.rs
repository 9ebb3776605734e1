//! The task manager, the workers that serve it, and the scheduler that owns
//! them.

pub mod task_manager;
pub mod worker;

pub use task_manager::TaskManager;
pub use worker::TaskWorker;

use crate::clock::now_millis;
use crate::schedule::processors::TaskProcessor;
use crate::schedule::types::{StatusKind, Task, TaskStatusView, TaskType, TaskView};
use crate::storage::task::{in_order_until, lemma_moved_on, moved_on, rows_marked, RowFilter};
use vstd::prelude::*;
use worker::{took_step, WorkerStep, DEFAULT_POLL_INTERVAL};

verus! {

/// Milliseconds between two sweeps for timed-out tasks.
pub const SWEEP_INTERVAL: i64 = 60_000;

/// Whether a sweep is due at `now`, given when the last one was made: when
/// none was made yet, or a full interval has passed since.
pub open spec fn sweep_due(last_sweep: Option<i64>, now: i64) -> bool {
    match last_sweep {
        None => true,
        Some(at) => now - at >= SWEEP_INTERVAL,
    }
}

/// The table after a sweep at `now`: every task that is being processed and
/// overdue is timed out, and then every task marked for a retry is pending
/// again.
pub open spec fn swept(rows: Seq<TaskView>, now: i64) -> Seq<TaskView> {
    rows_marked(
        rows_marked(rows, RowFilter::Overdue(now), TaskStatusView::TimedOut, now),
        RowFilter::Kind(StatusKind::Retrying),
        TaskStatusView::Pending,
        now,
    )
}

/// `steps` is a round of the workers of the kinds `kinds` that leads from
/// `before` to `after`: there are task managers, one more than workers,
/// of which the first is `before`, the last is `after`, and each worker's
/// step leads from its own to the next, as `took_step` says.
pub open spec fn round<P: TaskProcessor, F: Fn(&Task, &str) -> Result<(), String>>(
    before: TaskManager<P, F>,
    kinds: Seq<TaskType>,
    steps: Seq<WorkerStep>,
    after: TaskManager<P, F>,
) -> bool {
    exists|stages: Seq<TaskManager<P, F>>|
        {
            &&& #[trigger] stages.len() == kinds.len() + 1
            &&& steps.len() == kinds.len()
            &&& stages[0] == before
            &&& stages[kinds.len() as int] == after
            &&& forall|i: int|
                0 <= i < kinds.len() ==> took_step(
                    stages[i],
                    kinds[i],
                    #[trigger] steps[i],
                    stages[i + 1],
                )
        }
}

/// `steps` is a round of the scheduler at `now` that leads from `before`
/// to `after`: when a sweep is due, the table is swept first, as `swept`
/// says; then the workers take their steps in turn, as `round` says.
pub open spec fn ticked<P: TaskProcessor, F: Fn(&Task, &str) -> Result<(), String>>(
    before: TaskManager<P, F>,
    due: bool,
    now: i64,
    kinds: Seq<TaskType>,
    steps: Seq<WorkerStep>,
    after: TaskManager<P, F>,
) -> bool {
    exists|start: TaskManager<P, F>|
        {
            &&& start.wf()
            &&& start.same_registries(&before)
            &&& start.tasks() == if due {
                swept(before.tasks(), now)
            } else {
                before.tasks()
            }
            &&& !due ==> start == before
            &&& #[trigger] round(start, kinds, steps, after)
        }
}

/// The scheduler: it owns the task manager and the workers, and sweeps for
/// timed-out tasks.
pub struct TaskScheduler<P, F> {
    task_manager: TaskManager<P, F>,
    workers: Vec<TaskWorker>,
    last_sweep: Option<i64>,
}

impl<P: TaskProcessor, F: Fn(&Task, &str) -> Result<(), String>> TaskScheduler<P, F> {
    /// The scheduler's task manager.
    pub closed spec fn manager(&self) -> TaskManager<P, F> {
        self.task_manager
    }

    /// The workers, in the order in which they were spawned.
    pub closed spec fn crew(&self) -> Seq<TaskWorker> {
        self.workers@
    }

    /// The kinds of task the workers serve, one entry for each worker, in
    /// the order in which they were spawned.
    pub open spec fn worker_kinds(&self) -> Seq<TaskType> {
        Seq::new(self.crew().len(), |i: int| self.crew()[i].task_type)
    }

    /// When the last sweep was made.
    pub closed spec fn swept_at(&self) -> Option<i64> {
        self.last_sweep
    }

    /// The scheduler's invariant: that of its task manager.
    pub open spec fn wf(&self) -> bool {
        self.manager().wf()
    }

    /// A scheduler over `task_manager`, without workers, that has not swept
    /// yet.
    pub fn new(task_manager: TaskManager<P, F>) -> (r: Self)
        requires
            task_manager.wf(),
        ensures
            r.wf(),
            r.manager() == task_manager,
            r.crew() == Seq::<TaskWorker>::empty(),
            r.worker_kinds() == Seq::<TaskType>::empty(),
            r.swept_at() is None,
    {
        let r = TaskScheduler { task_manager, workers: Vec::new(), last_sweep: None };
        assert(r.worker_kinds() =~= Seq::<TaskType>::empty());
        r
    }

    /// The task manager.
    pub fn task_manager(&self) -> (r: &TaskManager<P, F>)
        ensures
            *r == self.manager(),
    {
        &self.task_manager
    }

    /// The task manager, for changes. The caller must leave it well formed.
    pub fn task_manager_mut(&mut self) -> (r: &mut TaskManager<P, F>)
        ensures
            *r == old(self).manager(),
            final(self).manager() == *final(r),
            final(self).crew() == old(self).crew(),
            final(self).swept_at() == old(self).swept_at(),
    {
        &mut self.task_manager
    }

    /// The workers, in the order in which they were spawned.
    pub fn workers(&self) -> (r: &Vec<TaskWorker>)
        ensures
            r@ == self.crew(),
    {
        &self.workers
    }

    /// Adds a worker for `task_type`, which polls once a second.
    pub fn spawn_worker(&mut self, task_type: TaskType)
        ensures
            final(self).manager() == old(self).manager(),
            final(self).crew() == old(self).crew().push(
                TaskWorker { task_type: task_type, interval: DEFAULT_POLL_INTERVAL },
            ),
            final(self).worker_kinds() == old(self).worker_kinds().push(task_type),
            final(self).swept_at() == old(self).swept_at(),
    {
        self.workers.push(TaskWorker::new(task_type));
        assert(self.worker_kinds() =~= old(self).worker_kinds().push(task_type));
    }

    /// One sweep at `now`: times out the overdue tasks, then queues the
    /// tasks marked for a retry again.
    pub fn sweep_at(&mut self, now: i64)
        requires
            old(self).wf(),
        ensures
            final(self).wf(),
            final(self).manager().same_registries(&old(self).manager()),
            moved_on(old(self).manager().tasks(), final(self).manager().tasks()),
            final(self).crew() == old(self).crew(),
            final(self).swept_at() == Some(now),
            final(self).manager().tasks() == swept(old(self).manager().tasks(), now),
            in_order_until(old(self).manager().tasks(), now) ==> in_order_until(
                final(self).manager().tasks(),
                now,
            ),
    {
        let ghost first = self.task_manager;
        self.task_manager.handle_timed_out_tasks_at(now);
        let ghost second = self.task_manager;
        self.task_manager.requeue_retrying_at(now);
        self.last_sweep = Some(now);
        proof {
            self.task_manager.lemma_registries_chain(&second, &first);
            lemma_moved_on(first.tasks(), second.tasks(), self.task_manager.tasks());
            lemma_moved_on(second.tasks(), self.task_manager.tasks(), second.tasks());
            lemma_moved_on(first.tasks(), second.tasks(), self.task_manager.tasks());
        }
    }

    /// Whether a sweep is due at `now`.
    pub fn is_sweep_due(&self, now: i64) -> (r: bool)
        ensures
            r == sweep_due(self.swept_at(), now),
    {
        match self.last_sweep {
            None => true,
            Some(at) => now as i128 - at as i128 >= SWEEP_INTERVAL as i128,
        }
    }

    /// One round of the scheduler at `now`: a sweep when one is due, then
    /// one step of every worker, in the order in which the workers were
    /// spawned. Returns what each worker's step came to.
    pub fn tick_at(&mut self, now: i64) -> (r: Vec<WorkerStep>)
        requires
            old(self).wf(),
        ensures
            final(self).wf(),
            final(self).manager().same_registries(&old(self).manager()),
            moved_on(old(self).manager().tasks(), final(self).manager().tasks()),
            final(self).crew() == old(self).crew(),
            final(self).swept_at() == if sweep_due(old(self).swept_at(), now) {
                Some(now)
            } else {
                old(self).swept_at()
            },
            r.len() == old(self).worker_kinds().len(),
            ticked(
                old(self).manager(),
                sweep_due(old(self).swept_at(), now),
                now,
                old(self).worker_kinds(),
                r@,
                final(self).manager(),
            ),
    {
        proof {
            self.task_manager.lemma_registries_same();
            lemma_moved_on(
                self.task_manager.tasks(),
                self.task_manager.tasks(),
                self.task_manager.tasks(),
            );
        }
        if self.is_sweep_due(now) {
            self.sweep_at(now);
        }
        let ghost start = self.task_manager;
        let ghost kinds = self.worker_kinds();
        let ghost mut stages: Seq<TaskManager<P, F>> = seq![start];
        let mut steps: Vec<WorkerStep> = Vec::new();
        let mut i: usize = 0;
        while i < self.workers.len()
            invariant
                i <= self.workers.len(),
                steps.len() == i,
                self.wf(),
                self.task_manager.same_registries(&old(self).manager()),
                moved_on(old(self).manager().tasks(), self.task_manager.tasks()),
                self.crew() == old(self).crew(),
                kinds == self.worker_kinds(),
                kinds.len() == self.workers.len(),
                self.last_sweep == (if sweep_due(old(self).swept_at(), now) {
                    Some(now)
                } else {
                    old(self).swept_at()
                }),
                stages.len() == i + 1,
                stages[0] == start,
                stages[i as int] == self.task_manager,
                forall|j: int|
                    0 <= j < i ==> took_step(
                        stages[j],
                        kinds[j],
                        #[trigger] steps@[j],
                        stages[j + 1],
                    ),
            decreases self.workers.len() - i,
        {
            let worker = self.workers[i];
            let ghost before = self.task_manager;
            let ghost so_far = stages;
            let ghost taken = steps@;
            let step = worker.process_next_task(&mut self.task_manager);
            proof {
                self.task_manager.lemma_registries_chain(&before, &old(self).manager());
                lemma_moved_on(
                    old(self).manager().tasks(),
                    before.tasks(),
                    self.task_manager.tasks(),
                );
                stages = stages.push(self.task_manager);
                assert(worker.task_type == kinds[i as int]);
            }
            steps.push(step);
            proof {
                assert forall|j: int| 0 <= j < i + 1 implies took_step(
                    stages[j],
                    kinds[j],
                    #[trigger] steps@[j],
                    stages[j + 1],
                ) by {
                    if j < i {
                        assert(steps@[j] == taken[j]);
                        assert(stages[j] == so_far[j]);
                        assert(stages[j + 1] == so_far[j + 1]);
                        assert(took_step(so_far[j], kinds[j], taken[j], so_far[j + 1]));
                    }
                }
            }
            i = i + 1;
        }
        proof {
            assert(stages.len() == kinds.len() + 1);
            assert(round(start, kinds, steps@, self.task_manager));
        }
        steps
    }

    /// One round of the scheduler at the current time. Whatever the clock
    /// reads, the round is the one `tick_at` makes for that reading.
    pub fn tick(&mut self) -> (r: Vec<WorkerStep>)
        requires
            old(self).wf(),
        ensures
            final(self).wf(),
            final(self).manager().same_registries(&old(self).manager()),
            moved_on(old(self).manager().tasks(), final(self).manager().tasks()),
            final(self).crew() == old(self).crew(),
            r.len() == old(self).worker_kinds().len(),
            exists|now: i64|
                {
                    &&& #[trigger] ticked(
                        old(self).manager(),
                        sweep_due(old(self).swept_at(), now),
                        now,
                        old(self).worker_kinds(),
                        r@,
                        final(self).manager(),
                    )
                    &&& final(self).swept_at() == if sweep_due(old(self).swept_at(), now) {
                        Some(now)
                    } else {
                        old(self).swept_at()
                    }
                },
    {
        let now = now_millis();
        self.tick_at(now)
    }
}

} // verus!
