//! Tasks, their lifecycle, and the components that move them through it.

pub mod callback;
pub mod processors;
pub mod scheduler;
pub mod types;

pub use types::{
    CallbackType, Task, TaskConfig, TaskParams, TaskPriority, TaskResult, TaskStatus, TaskType,
    TranscribeParams, TranscribeResult,
};

pub use processors::{TaskProcessor, TranscribeProcessor};
pub use scheduler::TaskManager;
use scheduler::TaskWorker;
pub use scheduler::TaskScheduler;

use crate::storage::task::{all_valid, TaskStorage};
use scheduler::task_manager::names_kind;
use vstd::prelude::*;

verus! {

/// Builds a scheduler over `storage` with the given processors bound, each
/// to the kind of task that it names, so that every one of these kinds is
/// served; of two processors of one kind the later one stays.
/// Fails with "Task table holds an invalid task" when a row of the table
/// breaks the task invariants.
pub fn create_scheduler<P: TaskProcessor, F: Fn(&Task, &str) -> Result<(), String>>(
    storage: TaskStorage,
    processors: Vec<P>,
) -> (r: Result<TaskScheduler<P, F>, String>)
    requires
        storage.wf(),
    ensures
        r is Ok == all_valid(storage@),
        r matches Ok(s) ==> {
            &&& s.wf()
            &&& s.manager().tasks() == storage@
            &&& s.crew() == Seq::<TaskWorker>::empty()
            &&& processors@.len() == 0 ==> forall|kind: TaskType| !s.manager().serves(kind)
            &&& forall|i: int|
                0 <= i < processors@.len() ==> s.manager().serves_kind_of(#[trigger] processors@[i])
        },
        r matches Err(m) ==> m@ == "Task table holds an invalid task"@,
{
    if !storage.is_valid() {
        return Err("Task table holds an invalid task".to_string());
    }
    let mut task_manager: TaskManager<P, F> = TaskManager::new(storage);
    let mut rest = processors;
    let ghost all = processors@;
    let ghost mut done: int = 0;
    while rest.len() > 0
        invariant
            task_manager.wf(),
            task_manager.tasks() == storage@,
            0 <= done <= all.len(),
            rest@ == all.subrange(done, all.len() as int),
            all.len() == 0 ==> forall|kind: TaskType| !task_manager.serves(kind),
            forall|i: int| 0 <= i < done ==> task_manager.serves_kind_of(#[trigger] all[i]),
        decreases rest.len(),
    {
        let processor = rest.remove(0);
        let ghost before = task_manager;
        proof {
            assert(processor == all[done]);
            assert(rest@ =~= all.subrange(done + 1, all.len() as int));
        }
        let kind = task_manager.register_processor(processor);
        proof {
            assert forall|i: int| 0 <= i < done + 1 implies task_manager.serves_kind_of(
                #[trigger] all[i],
            ) by {
                if i < done {
                    assert(before.serves_kind_of(all[i]));
                    let k = choose|k: TaskType|
                        #[trigger] names_kind(all[i], k) && before.serves(k);
                    assert(names_kind(all[i], k) && task_manager.serves(k));
                } else {
                    assert(names_kind(all[i], kind) && task_manager.serves(kind));
                }
            }
            done = done + 1;
        }
    }
    proof {
        assert(all.subrange(done, all.len() as int).len() == 0);
        assert(done == all.len());
    }
    Ok(TaskScheduler::new(task_manager))
}

} // verus!
