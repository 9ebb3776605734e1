use asr_rs::asr::{AsrEngine, AsrParams, RawSegment};
use asr_rs::schedule::callback::{CallbackData, EventCallback, TaskEvent};
use asr_rs::schedule::scheduler::task_manager::{CleanupStats, TaskStats};
use asr_rs::schedule::scheduler::worker::{Pause, WorkerStep};
use asr_rs::schedule::types::{
    CallbackType, Task, TaskConfig, TaskParams, TaskPriority, TaskResult, TaskStatus, TaskType,
    TranscribeParams, TranscribeResult, TranscribeSegment,
};
use asr_rs::schedule::{
    create_scheduler, TaskManager, TaskProcessor, TaskScheduler, TranscribeProcessor,
};
use asr_rs::schedule::scheduler::TaskWorker;
use asr_rs::storage::task::TaskStorage;
use asr_rs::web::Pagination;
use std::cell::RefCell;
use std::rc::Rc;

type Callback = Box<dyn Fn(&Task, &str) -> Result<(), String>>;

/// An engine that recognises every input whose path does not start with
/// "non_existent", and counts its runs.
struct FakeEngine {
    runs: Rc<RefCell<Vec<String>>>,
}

impl AsrEngine for FakeEngine {
    fn transcribe(
        &self,
        input_path: &str,
        params: AsrParams,
    ) -> Result<asr_rs::asr::TranscribeResult, String> {
        self.runs.borrow_mut().push(input_path.to_string());
        if input_path.starts_with("non_existent") {
            return Err(format!("No such file: {}", input_path));
        }
        let lang = params.language.unwrap_or("zh".to_string());
        Ok(asr_rs::asr::TranscribeResult {
            segments: vec![
                asr_rs::asr::TranscribeSegment {
                    text: "hello".to_string(),
                    speaker_id: 0,
                    start: 0,
                    end: 120,
                },
                asr_rs::asr::TranscribeSegment {
                    text: " world".to_string(),
                    speaker_id: 1,
                    start: 120,
                    end: 250,
                },
            ],
            full_text: format!("hello world [{}]", lang),
        })
    }
}

type Processor = TranscribeProcessor<FakeEngine>;
type Manager = TaskManager<Processor, Callback>;

fn setup_test_environment() -> (TaskScheduler<Processor, Callback>, Rc<RefCell<Vec<String>>>) {
    let runs = Rc::new(RefCell::new(Vec::new()));
    let processor = TranscribeProcessor::new(FakeEngine { runs: runs.clone() });
    let mut scheduler: TaskScheduler<Processor, Callback> =
        create_scheduler(TaskStorage::new(), vec![processor]).unwrap();
    scheduler.spawn_worker(TaskType::Transcribe);
    (scheduler, runs)
}

fn create_test_task_config(priority: TaskPriority, input_path: &str) -> TaskConfig {
    TaskConfig {
        task_type: TaskType::Transcribe,
        input_path: input_path.to_string(),
        callback_type: CallbackType::Http { url: "http://localhost:8080/callback".to_string() },
        params: TaskParams::Transcribe(TranscribeParams {
            language: Some("zh".to_string()),
            speaker_diarization: true,
            emotion_recognition: false,
            filter_dirty_words: false,
        }),
        priority,
        retry_count: 0,
        max_retries: 3,
        timeout: Some(300),
    }
}

#[test]
fn test_complete_task_lifecycle() {
    let (mut scheduler, _runs) = setup_test_environment();

    let config = create_test_task_config(TaskPriority::High, "./test_data/test.wav");
    let task = scheduler.task_manager_mut().create_task(config).unwrap();
    assert_eq!(task.status, TaskStatus::Pending);
    assert!(task.id.starts_with("task-"));
    assert_eq!(task.config.retry_count, 0);

    let steps = scheduler.tick();
    assert_eq!(steps.len(), 1);

    let completed_task = scheduler.task_manager().get_task(&task.id).unwrap();
    assert!(matches!(completed_task.status, TaskStatus::Completed), "Task should be completed");
    assert!(completed_task.result.is_some());
    assert!(completed_task.started_at.is_some());
    assert!(completed_task.completed_at.is_some());
    assert!(completed_task.started_at.unwrap() <= completed_task.updated_at);
    match completed_task.result.as_ref().unwrap() {
        TaskResult::Transcribe(r) => {
            assert_eq!(r.text, "hello world [zh]");
            assert_eq!(r.segments.len(), 2);
            assert_eq!(r.segments[1].speaker_id, Some(1));
            assert_eq!(r.segments[1].start_time, 120);
            assert_eq!(r.segments[1].end_time, 250);
        }
        _ => panic!("Unexpected result type"),
    }

    // Exactly one HTTP callback is due, and it reports the completion.
    match &steps[0] {
        WorkerStep::Done { task: done, delivery: Some(d), callback_error: None } => {
            assert_eq!(done, &completed_task);
            assert_eq!(d.url, "http://localhost:8080/callback");
            assert_eq!(d.payload.task_id, task.id);
            assert_eq!(d.payload.status, TaskStatus::Completed);
            assert_eq!(
                d.payload.data,
                CallbackData::Outcome(completed_task.result.clone().unwrap())
            );
        }
        other => panic!("unexpected step {:?}", other),
    }
    // Nothing is left to do, so nothing more is reported.
    let steps = scheduler.tick();
    assert_eq!(steps, vec![WorkerStep::Idle]);
}

#[test]
fn test_priority_based_scheduling() {
    let (mut scheduler, runs) = setup_test_environment();

    let priorities =
        vec![TaskPriority::Low, TaskPriority::Critical, TaskPriority::Normal, TaskPriority::High];
    let mut task_ids = Vec::new();
    for (i, priority) in priorities.iter().enumerate() {
        let config = create_test_task_config(*priority, &format!("./test_data/test{}.wav", i));
        let task = scheduler.task_manager_mut().create_task(config).unwrap();
        task_ids.push((task.id, *priority));
    }

    let mut processed_order = Vec::new();
    for _ in 0..task_ids.len() {
        for step in scheduler.tick() {
            if let WorkerStep::Done { task, .. } = step {
                assert!(matches!(task.status, TaskStatus::Completed));
                processed_order.push(task.id.clone());
            }
        }
    }

    let expected_order =
        vec![TaskPriority::Critical, TaskPriority::High, TaskPriority::Normal, TaskPriority::Low];
    assert_eq!(processed_order.len(), 4);
    for (i, task_id) in processed_order.iter().enumerate() {
        let task = scheduler.task_manager().get_task(task_id).unwrap();
        assert_eq!(task.config.priority, expected_order[i]);
    }
    assert_eq!(
        *runs.borrow(),
        vec![
            "./test_data/test1.wav",
            "./test_data/test3.wav",
            "./test_data/test2.wav",
            "./test_data/test0.wav"
        ]
    );
}

#[test]
fn test_error_handling_and_retry() {
    let (mut scheduler, runs) = setup_test_environment();

    let config = create_test_task_config(TaskPriority::Normal, "non_existent.wav");
    let task = scheduler.task_manager_mut().create_task(config).unwrap();

    let mut final_status = None;
    let mut reports = Vec::new();
    let mut now: i64 = 1_700_000_000_000;
    for _ in 0..10 {
        now += 60_000;
        for step in scheduler.tick_at(now) {
            if let WorkerStep::Done { task, delivery, .. } = step {
                if let Some(d) = delivery {
                    reports.push(d);
                }
                if let TaskStatus::Failed(_) = task.status {
                    final_status = Some(task.status.clone());
                }
            }
        }
        if final_status.is_some() {
            break;
        }
    }

    assert!(matches!(final_status, Some(TaskStatus::Failed(_))));
    let stored = scheduler.task_manager().get_task(&task.id).unwrap();
    assert_eq!(stored.status, TaskStatus::Failed("No such file: non_existent.wav".to_string()));
    assert_eq!(stored.error, Some("No such file: non_existent.wav".to_string()));
    assert_eq!(stored.config.retry_count, 3);
    assert!(stored.completed_at.is_some());
    // One attempt and three retries.
    assert_eq!(runs.borrow().len(), 4);
    // The failure is reported once.
    assert_eq!(reports.len(), 1);
    assert_eq!(reports[0].payload.task_id, task.id);
    assert_eq!(
        reports[0].payload.data,
        CallbackData::Error("No such file: non_existent.wav".to_string())
    );
}

#[test]
fn test_task_timeout() {
    let mut storage = TaskStorage::new();
    let now: i64 = 1_700_000_000_000;
    let mut task = Task {
        id: "stuck".to_string(),
        status: TaskStatus::Processing,
        config: create_test_task_config(TaskPriority::Normal, "./test_data/test.wav"),
        created_at: now - 400_000,
        updated_at: now - 301_000,
        started_at: Some(now - 301_000),
        completed_at: None,
        result: None,
        error: None,
    };
    storage.create(&task);
    task.id = "fresh".to_string();
    task.started_at = Some(now - 299_000);
    storage.create(&task);

    let mut manager: Manager = TaskManager::new(storage);
    assert_eq!(manager.get_timed_out_tasks_at(now).len(), 1);
    manager.handle_timed_out_tasks_at(now);

    let stuck = manager.get_task("stuck").unwrap();
    assert!(matches!(stuck.status, TaskStatus::TimedOut));
    assert_eq!(stuck.completed_at, Some(now));
    assert_eq!(stuck.updated_at, now);
    let fresh = manager.get_task_status("fresh").unwrap();
    assert!(matches!(fresh, TaskStatus::Processing));
    assert!(manager.get_timed_out_tasks_at(now).is_empty());
}

#[test]
fn priority_update_moves_a_task_to_the_front() {
    let (mut scheduler, _runs) = setup_test_environment();
    let manager = scheduler.task_manager_mut();
    let first = manager
        .create_task_with(create_test_task_config(TaskPriority::Normal, "a.wav"), "first", 10)
        .unwrap();
    let second = manager
        .create_task_with(create_test_task_config(TaskPriority::Normal, "b.wav"), "second", 20)
        .unwrap();
    assert_eq!(first.id, "task-first");

    manager.update_task_priority_at(&second.id, TaskPriority::Critical, 30).unwrap();
    let claimed = manager.get_next_task_at(TaskType::Transcribe, 40).unwrap();
    assert_eq!(claimed.id, second.id);
    assert_eq!(claimed.config.priority, TaskPriority::Critical);
    assert_eq!(claimed.updated_at, 40);
    assert_eq!(claimed.started_at, Some(40));

    // Only a pending task can change its priority.
    assert_eq!(
        manager.update_task_priority_at(&second.id, TaskPriority::Low, 50),
        Err("Can only adjust priority of pending tasks".to_string())
    );
    assert_eq!(
        manager.update_task_priority_at("task-nobody", TaskPriority::Low, 50),
        Err("Task not found".to_string())
    );
    let next = manager.get_next_task_at(TaskType::Transcribe, 60).unwrap();
    assert_eq!(next.id, first.id);
    assert!(manager.get_next_task_at(TaskType::Transcribe, 70).is_none());
}

#[test]
fn submission_is_refused_without_processor_or_with_bad_params() {
    let (mut scheduler, _runs) = setup_test_environment();
    let manager = scheduler.task_manager_mut();

    let mut config = create_test_task_config(TaskPriority::Normal, "a.wav");
    config.task_type = TaskType::NoiseReduction;
    assert_eq!(
        manager.create_task_with(config, "x", 1),
        Err("No processor found for task type: NoiseReduction".to_string())
    );

    let mut config = create_test_task_config(TaskPriority::Normal, "a.wav");
    config.params = TaskParams::Transcribe(TranscribeParams {
        language: Some("fr".to_string()),
        speaker_diarization: false,
        emotion_recognition: false,
        filter_dirty_words: false,
    });
    assert_eq!(
        manager.create_task_with(config, "x", 1),
        Err("Unsupported language: fr".to_string())
    );

    let mut config = create_test_task_config(TaskPriority::Normal, "a.wav");
    config.retry_count = 7;
    let task = manager.create_task_with(config, "x", 1).unwrap();
    assert_eq!(task.config.retry_count, 0);
    assert_eq!(
        manager.create_task_with(create_test_task_config(TaskPriority::Normal, "a.wav"), "x", 2),
        Err("Task id already in use".to_string())
    );
    assert_eq!(manager.storage().len(), 1);
}

#[test]
fn failure_counts_retries_then_fails() {
    let (mut scheduler, _runs) = setup_test_environment();
    let manager = scheduler.task_manager_mut();
    let mut config = create_test_task_config(TaskPriority::Normal, "a.wav");
    config.max_retries = 1;
    let task = manager.create_task_with(config, "t", 1).unwrap();

    // A task that is not being processed is left alone.
    assert!(manager.handle_task_error_at(&task.id, "early".to_string(), 2).is_none());
    assert_eq!(manager.get_task_status(&task.id), Some(TaskStatus::Pending));

    manager.get_next_task_at(TaskType::Transcribe, 3).unwrap();
    let retried = manager.handle_task_error_at(&task.id, "first".to_string(), 4).unwrap();
    assert_eq!(retried.status, TaskStatus::Retrying);
    assert_eq!(retried.config.retry_count, 1);
    assert_eq!(retried.completed_at, None);
    // A task marked for a retry waits for the next sweep.
    assert!(manager.get_next_task_at(TaskType::Transcribe, 5).is_none());
    manager.requeue_retrying_at(6);
    assert_eq!(manager.get_task_status(&task.id), Some(TaskStatus::Pending));

    let again = manager.get_next_task_at(TaskType::Transcribe, 7).unwrap();
    assert_eq!(again.started_at, Some(3));
    let failed = manager.handle_task_error_at(&task.id, "second".to_string(), 8).unwrap();
    assert_eq!(failed.status, TaskStatus::Failed("second".to_string()));
    assert_eq!(failed.config.retry_count, 1);
    assert_eq!(failed.completed_at, Some(8));
    assert_eq!(failed.error, Some("second".to_string()));
    // A second report of the failure changes nothing.
    assert!(manager.handle_task_error_at(&task.id, "third".to_string(), 9).is_none());
    assert!(manager.complete_task_at(&task.id, sample_result(), 9).is_none());
    assert_eq!(manager.get_task(&task.id).unwrap(), failed);
}

fn sample_result() -> TaskResult {
    TaskResult::Transcribe(TranscribeResult {
        text: "say \"hi\"".to_string(),
        segments: vec![TranscribeSegment {
            text: "say \"hi\"".to_string(),
            speaker_id: Some(0),
            start_time: 0,
            end_time: 9,
        }],
    })
}

#[test]
fn stats_count_one_page_by_status() {
    let mut storage = TaskStorage::new();
    let statuses = vec![
        TaskStatus::Pending,
        TaskStatus::Pending,
        TaskStatus::Retrying,
        TaskStatus::Failed("x".to_string()),
        TaskStatus::Failed("y".to_string()),
        TaskStatus::Failed("z".to_string()),
    ];
    for (i, status) in statuses.into_iter().enumerate() {
        let done = status.is_terminal();
        let error = match &status {
            TaskStatus::Failed(m) => Some(m.clone()),
            _ => None,
        };
        storage.create(&Task {
            id: format!("t{}", i),
            status,
            config: create_test_task_config(TaskPriority::Normal, "a.wav"),
            created_at: i as i64,
            updated_at: i as i64,
            started_at: None,
            completed_at: if done { Some(i as i64) } else { None },
            result: None,
            error,
        });
    }
    assert!(storage.is_valid());
    let manager: Manager = TaskManager::new(storage);
    assert_eq!(
        manager.get_task_stats(&Pagination { index: 1, size: 10 }),
        TaskStats { pending: 2, processing: 0, completed: 0, failed: 3, retrying: 1, timed_out: 0 }
    );
    assert_eq!(
        manager.get_task_stats(&Pagination { index: 2, size: 4 }),
        TaskStats { pending: 0, processing: 0, completed: 0, failed: 2, retrying: 0, timed_out: 0 }
    );
    assert_eq!(manager.get_task_stats(&Pagination { index: 3, size: 4 }), TaskStats::default());
}

#[test]
fn cleanup_is_idempotent() {
    let mut storage = TaskStorage::new();
    let day: i64 = 86_400_000;
    let now: i64 = 100 * day;
    for (id, status, updated) in [
        ("old-done", TaskStatus::Completed, now - 8 * day),
        ("old-failed", TaskStatus::Failed("x".to_string()), now - 7 * day - 1),
        ("edge-done", TaskStatus::Completed, now - 7 * day),
        ("new-failed", TaskStatus::Failed("x".to_string()), now - day),
        ("old-pending", TaskStatus::Pending, now - 30 * day),
    ] {
        let done = status.is_terminal();
        let error = match &status {
            TaskStatus::Failed(m) => Some(m.clone()),
            _ => None,
        };
        let result = match &status {
            TaskStatus::Completed => Some(sample_result()),
            _ => None,
        };
        storage.create(&Task {
            id: id.to_string(),
            status,
            config: create_test_task_config(TaskPriority::Normal, "a.wav"),
            created_at: 0,
            updated_at: updated,
            started_at: None,
            completed_at: if done { Some(updated) } else { None },
            result,
            error,
        });
    }
    assert!(storage.is_valid());
    let mut manager: Manager = TaskManager::new(storage);
    assert_eq!(manager.cleanup_tasks_at(7, now), CleanupStats { completed: 2, failed: 0 });
    assert_eq!(manager.storage().len(), 3);
    assert_eq!(manager.cleanup_tasks_at(7, now), CleanupStats { completed: 0, failed: 0 });
    assert_eq!(manager.storage().len(), 3);
    assert!(manager.get_task("edge-done").is_some());
    assert_eq!(manager.cleanup_tasks(i64::MAX), CleanupStats::default());
    assert_eq!(manager.cleanup_tasks(i64::MIN), CleanupStats { completed: 2, failed: 0 });
}

#[test]
fn stale_tasks_in_flight_are_given_up() {
    let (mut scheduler, _runs) = setup_test_environment();
    let manager = scheduler.task_manager_mut();
    let mut config = create_test_task_config(TaskPriority::Normal, "a.wav");
    config.timeout = None;
    let old = manager.create_task_with(config, "old", 0).unwrap();
    let young =
        manager.create_task_with(create_test_task_config(TaskPriority::Low, "b.wav"), "young", 0).unwrap();
    manager.get_next_task_at(TaskType::Transcribe, 0).unwrap();
    let minute: i64 = 60_000;
    manager.get_next_task_at(TaskType::Transcribe, minute).unwrap();

    // Thirty whole minutes and a bit are not more than thirty minutes.
    manager.cleanup_stale_tasks_at(31 * minute - 1);
    assert_eq!(manager.get_task_status(&old.id), Some(TaskStatus::Processing));
    manager.cleanup_stale_tasks_at(31 * minute);
    assert_eq!(manager.get_task_status(&old.id), Some(TaskStatus::TimedOut));
    assert_eq!(manager.get_task_status(&young.id), Some(TaskStatus::Processing));
    assert_eq!(manager.get_task(&old.id).unwrap().completed_at, Some(31 * minute));
    // The task that was given up is no longer in flight: its completion is refused.
    assert!(manager.complete_task_at(&old.id, sample_result(), 32 * minute).is_none());
    assert!(manager.complete_task_at(&young.id, sample_result(), 32 * minute).is_some());
}

#[test]
fn function_callback_gets_task_and_message() {
    let seen: Rc<RefCell<Vec<(String, String)>>> = Rc::new(RefCell::new(Vec::new()));
    let sink = seen.clone();
    let mut manager: Manager = TaskManager::new(TaskStorage::new());
    manager.register_function_callback(
        "notify",
        Box::new(move |task: &Task, message: &str| {
            sink.borrow_mut().push((task.id.clone(), message.to_string()));
            if message.contains("boom") {
                Err("callback refused".to_string())
            } else {
                Ok(())
            }
        }),
    );

    let mut task = Task {
        id: "t1".to_string(),
        status: TaskStatus::Completed,
        config: create_test_task_config(TaskPriority::Normal, "a.wav"),
        created_at: 0,
        updated_at: 0,
        started_at: Some(0),
        completed_at: Some(0),
        result: Some(sample_result()),
        error: None,
    };
    task.config.callback_type = CallbackType::Function { name: "notify".to_string() };
    assert_eq!(manager.handle_callback(&task), Ok(None));
    task.status = TaskStatus::Failed("boom".to_string());
    assert_eq!(manager.handle_callback(&task), Err("callback refused".to_string()));
    task.status = TaskStatus::Processing;
    assert_eq!(manager.handle_callback(&task), Ok(None));
    assert_eq!(
        *seen.borrow(),
        vec![
            (
                "t1".to_string(),
                "Task completed with result: Transcribe(\"say \\\"hi\\\"\")".to_string()
            ),
            ("t1".to_string(), "Task failed: boom".to_string()),
        ]
    );

    task.config.callback_type = CallbackType::Function { name: "missing".to_string() };
    assert_eq!(
        manager.handle_callback(&task),
        Err("Callback function not found: missing".to_string())
    );
    task.config.callback_type = CallbackType::NoCallback;
    task.status = TaskStatus::Completed;
    assert_eq!(manager.handle_callback(&task), Ok(None));
    task.config.callback_type = CallbackType::Http { url: "http://x/cb".to_string() };
    task.result = None;
    assert_eq!(manager.handle_callback(&task), Err("Completed task has no result".to_string()));
}

#[test]
fn event_callback_publishes_to_listeners() {
    let manager: Manager = TaskManager::new(TaskStorage::new());
    let mut task = Task {
        id: "t1".to_string(),
        status: TaskStatus::Failed("bad input".to_string()),
        config: create_test_task_config(TaskPriority::Normal, "a.wav"),
        created_at: 0,
        updated_at: 0,
        started_at: Some(0),
        completed_at: Some(0),
        result: None,
        error: Some("bad input".to_string()),
    };
    task.config.callback_type = CallbackType::Event;
    // Nobody listens yet.
    assert_eq!(manager.handle_callback(&task), Err("channel closed".to_string()));
    let mut listener = manager.events().sender.subscribe();
    assert_eq!(manager.handle_callback(&task), Ok(None));
    assert_eq!(
        listener.try_recv().unwrap(),
        TaskEvent::Failed { task_id: "t1".to_string(), error: "bad input".to_string() }
    );
    task.status = TaskStatus::Completed;
    task.result = Some(sample_result());
    assert_eq!(manager.handle_callback(&task), Ok(None));
    assert_eq!(
        listener.try_recv().unwrap(),
        TaskEvent::Completed { task_id: "t1".to_string(), result: sample_result() }
    );
    task.status = TaskStatus::Retrying;
    assert_eq!(manager.handle_callback(&task), Ok(None));
    assert!(listener.try_recv().is_err());
}

#[test]
fn worker_pauses() {
    let worker = TaskWorker::new(TaskType::Transcribe);
    assert_eq!(worker.interval, 1_000);
    let worker = worker.with_interval(250);
    assert_eq!(worker.pause_after(&Ok(WorkerStep::Idle)), Pause::Wait(250));
    assert_eq!(worker.pause_after(&Err("x".to_string())), Pause::Wait(100));
    let task = Task {
        id: "t".to_string(),
        status: TaskStatus::Completed,
        config: create_test_task_config(TaskPriority::Normal, "a.wav"),
        created_at: 0,
        updated_at: 0,
        started_at: Some(0),
        completed_at: Some(0),
        result: Some(sample_result()),
        error: None,
    };
    let done = WorkerStep::Done { task, delivery: None, callback_error: None };
    assert_eq!(worker.pause_after(&Ok(done)), Pause::Resume);
}

#[test]
fn scheduler_sweeps_once_a_minute() {
    let (mut scheduler, _runs) = setup_test_environment();
    assert!(scheduler.is_sweep_due(0));
    scheduler.tick_at(1_000);
    assert!(!scheduler.is_sweep_due(60_999));
    assert!(scheduler.is_sweep_due(61_000));
}

#[test]
fn scheduler_refuses_an_invalid_table() {
    let mut storage = TaskStorage::new();
    storage.create(&Task {
        id: "bad".to_string(),
        status: TaskStatus::Completed,
        config: create_test_task_config(TaskPriority::Normal, "a.wav"),
        created_at: 0,
        updated_at: 0,
        started_at: None,
        completed_at: None,
        result: None,
        error: None,
    });
    assert!(!storage.is_valid());
    let processors: Vec<Processor> = Vec::new();
    let r: Result<TaskScheduler<Processor, Callback>, String> =
        create_scheduler(storage, processors);
    assert_eq!(r.err(), Some("Task table holds an invalid task".to_string()));
}

#[test]
fn test_transcribe_processor() {
    let runs = Rc::new(RefCell::new(Vec::new()));
    let processor = TranscribeProcessor::new(FakeEngine { runs: runs.clone() });

    let task = Task {
        id: "test-task".to_string(),
        status: TaskStatus::Pending,
        config: TaskConfig {
            task_type: TaskType::Transcribe,
            input_path: "./test/1.wav".to_string(),
            callback_type: CallbackType::Http { url: "http://localhost:8000/callback".to_string() },
            params: TaskParams::Transcribe(TranscribeParams {
                language: Some("zh".to_string()),
                speaker_diarization: true,
                emotion_recognition: false,
                filter_dirty_words: false,
            }),
            priority: TaskPriority::Normal,
            retry_count: 0,
            max_retries: 3,
            timeout: Some(300),
        },
        created_at: 0,
        updated_at: 0,
        started_at: None,
        completed_at: None,
        result: None,
        error: None,
    };

    processor.validate_params(&task.config.params).unwrap();
    assert_eq!(processor.task_type(), TaskType::Transcribe);

    let result = processor.process(&task).unwrap();
    match result {
        TaskResult::Transcribe(result) => {
            assert!(!result.text.is_empty());
            assert!(!result.segments.is_empty());
        }
        _ => panic!("Unexpected result type"),
    }
    assert!(processor.cancel(&task).is_ok());
    assert!(processor.cleanup(&task).is_ok());

    // Parameters of another kind are refused, by validation and by the run.
    let other = TaskParams::NoiseReduction(asr_rs::schedule::types::NoiseReductionParams {});
    assert_eq!(
        processor.validate_params(&other),
        Err("Invalid task params type".to_string())
    );
    let mut wrong = task.clone();
    wrong.config.params = other;
    assert_eq!(processor.process(&wrong), Err("Invalid task params".to_string()));
    for lang in ["zh", "en", "ja"] {
        let p = TaskParams::Transcribe(TranscribeParams {
            language: Some(lang.to_string()),
            speaker_diarization: false,
            emotion_recognition: false,
            filter_dirty_words: false,
        });
        assert!(processor.validate_params(&p).is_ok());
    }
    let p = TaskParams::Transcribe(TranscribeParams {
        language: Some("ZH".to_string()),
        speaker_diarization: false,
        emotion_recognition: false,
        filter_dirty_words: false,
    });
    assert_eq!(processor.validate_params(&p), Err("Unsupported language: ZH".to_string()));
}

/// A processor of its own making, bound beside the transcriber.
struct Silence;

impl TaskProcessor for Silence {
    fn task_type(&self) -> TaskType {
        TaskType::NoiseReduction
    }

    fn process(&self, _task: &Task) -> Result<TaskResult, String> {
        Ok(TaskResult::NoiseReduction(asr_rs::schedule::types::NoiseReductionResult {}))
    }

    fn validate_params(&self, params: &TaskParams) -> Result<(), String> {
        match params {
            TaskParams::NoiseReduction(_) => Ok(()),
            _ => Err("not for me".to_string()),
        }
    }

    fn cancel(&self, _task: &Task) -> Result<(), String> {
        Ok(())
    }

    fn cleanup(&self, _task: &Task) -> Result<(), String> {
        Ok(())
    }
}

#[test]
fn workers_serve_only_their_kind() {
    let mut manager: TaskManager<Silence, Callback> = TaskManager::new(TaskStorage::new());
    manager.register_processor(Silence);
    let mut config = create_test_task_config(TaskPriority::Normal, "a.wav");
    config.task_type = TaskType::NoiseReduction;
    assert_eq!(manager.create_task_with(config, "n", 1), Err("not for me".to_string()));
    let mut config = create_test_task_config(TaskPriority::Normal, "a.wav");
    config.task_type = TaskType::NoiseReduction;
    config.params = TaskParams::NoiseReduction(asr_rs::schedule::types::NoiseReductionParams {});
    config.callback_type = CallbackType::NoCallback;
    let task = manager.create_task_with(config, "n", 1).unwrap();

    let transcriber = TaskWorker::new(TaskType::Transcribe);
    assert_eq!(transcriber.process_next_task(&mut manager), WorkerStep::Idle);
    assert_eq!(manager.get_task_status(&task.id), Some(TaskStatus::Pending));
    let cleaner = TaskWorker::new(TaskType::NoiseReduction);
    match cleaner.process_next_task(&mut manager) {
        WorkerStep::Done { task: done, delivery: None, callback_error: None } => {
            assert_eq!(done.id, task.id);
            assert_eq!(done.status, TaskStatus::Completed);
        }
        other => panic!("unexpected step {:?}", other),
    }
}

#[test]
fn settling_twice_reports_once() {
    let (mut scheduler, _runs) = setup_test_environment();
    let manager = scheduler.task_manager_mut();
    let mut config = create_test_task_config(TaskPriority::Normal, "a.wav");
    config.max_retries = 0;
    manager.create_task_with(config, "s", 1).unwrap();
    let claimed = manager.get_next_task_at(TaskType::Transcribe, 2).unwrap();
    assert_eq!(TaskWorker::deadline(&claimed), Some(300_000));

    let worker = TaskWorker::new(TaskType::Transcribe);
    let first = worker.settle_at(manager, claimed.clone(), Err("too slow".to_string()), 3);
    match &first {
        WorkerStep::Done { task, delivery: Some(d), callback_error: None } => {
            assert_eq!(task.status, TaskStatus::Failed("too slow".to_string()));
            assert_eq!(task.completed_at, Some(3));
            assert_eq!(d.payload.status, TaskStatus::Failed("too slow".to_string()));
        }
        other => panic!("unexpected step {:?}", other),
    }
    // The task is settled: a late result changes nothing and is not reported.
    let second = worker.settle_at(manager, claimed, Ok(sample_result()), 4);
    match second {
        WorkerStep::Done { task, delivery: None, callback_error: None } => {
            assert_eq!(task.status, TaskStatus::Failed("too slow".to_string()));
            assert_eq!(task.updated_at, 3);
            assert_eq!(task.result, None);
        }
        other => panic!("unexpected step {:?}", other),
    }
    let mut endless = create_test_task_config(TaskPriority::Normal, "a.wav");
    endless.timeout = None;
    let task = manager.create_task_with(endless, "e", 5).unwrap();
    assert_eq!(TaskWorker::deadline(&task), None);
    let mut forever = create_test_task_config(TaskPriority::Normal, "a.wav");
    forever.timeout = Some(u64::MAX);
    let task = manager.create_task_with(forever, "f", 5).unwrap();
    assert_eq!(TaskWorker::deadline(&task), Some(u64::MAX));
}

#[test]
fn a_task_without_processor_fails_after_its_retries() {
    let mut storage = TaskStorage::new();
    let mut config = create_test_task_config(TaskPriority::Normal, "a.wav");
    config.max_retries = 1;
    config.callback_type = CallbackType::NoCallback;
    storage.create(&Task {
        id: "orphan".to_string(),
        status: TaskStatus::Pending,
        config,
        created_at: 0,
        updated_at: 0,
        started_at: None,
        completed_at: None,
        result: None,
        error: None,
    });
    let mut manager: Manager = TaskManager::new(storage);
    let worker = TaskWorker::new(TaskType::Transcribe);
    match worker.process_next_task(&mut manager) {
        WorkerStep::Done { task, delivery: None, callback_error: None } => {
            assert_eq!(task.status, TaskStatus::Retrying);
            assert_eq!(task.config.retry_count, 1);
        }
        other => panic!("unexpected step {:?}", other),
    }
    assert_eq!(worker.process_next_task(&mut manager), WorkerStep::Idle);
    manager.requeue_retrying();
    match worker.process_next_task(&mut manager) {
        WorkerStep::Done { task, .. } => {
            assert_eq!(
                task.status,
                TaskStatus::Failed("No processor found for task type".to_string())
            );
            assert_eq!(task.config.retry_count, 1);
        }
        other => panic!("unexpected step {:?}", other),
    }
    assert_eq!(
        manager.process_task(&manager.get_task("orphan").unwrap()),
        Err("No processor found for task type".to_string())
    );
}

#[test]
fn segments_are_put_together_by_speaker_turns() {
    let raw = vec![
        RawSegment { text: "a".to_string(), start: 0, end: 10, speaker_turn_next: false },
        RawSegment { text: "b".to_string(), start: 10, end: 20, speaker_turn_next: true },
        RawSegment { text: "c".to_string(), start: 20, end: 30, speaker_turn_next: true },
        RawSegment { text: "d".to_string(), start: 30, end: 40, speaker_turn_next: true },
    ];
    let result = asr_rs::asr::TranscribeResult::assemble(&raw);
    assert_eq!(result.full_text, "abcd");
    let speakers: Vec<usize> = result.segments.iter().map(|s| s.speaker_id).collect();
    assert_eq!(speakers, vec![0, 0, 1, 2]);
    assert_eq!(result.segments[2].text, "c");
    assert_eq!((result.segments[2].start, result.segments[2].end), (20, 30));
    let empty = asr_rs::asr::TranscribeResult::assemble(&Vec::new());
    assert_eq!(empty.full_text, "");
    assert!(empty.segments.is_empty());
    let mut params = AsrParams::new();
    assert_eq!(params.language_or_default(), "zh");
    params.set_language(Some("en".to_string()));
    assert_eq!(params.language_or_default(), "en");
}

#[test]
fn scheduler_keeps_its_workers_in_order() {
    let (mut scheduler, _runs) = setup_test_environment();
    scheduler.spawn_worker(TaskType::NoiseReduction);
    let kinds: Vec<TaskType> = scheduler.workers().iter().map(|w| w.task_type).collect();
    assert_eq!(kinds, vec![TaskType::Transcribe, TaskType::NoiseReduction]);
    // Each worker polls once a second.
    assert_eq!(scheduler.workers()[1], TaskWorker::new(TaskType::NoiseReduction));
    assert!(scheduler.workers().iter().all(|w| w.interval == 1_000));
    assert_eq!(scheduler.tick_at(0).len(), 2);
}

#[test]
fn input_is_spent_once_the_task_has_ended() {
    let mut task = Task {
        id: "t".to_string(),
        status: TaskStatus::Retrying,
        config: create_test_task_config(TaskPriority::Normal, "a.wav"),
        created_at: 0,
        updated_at: 0,
        started_at: Some(0),
        completed_at: None,
        result: None,
        error: None,
    };
    assert!(!TaskWorker::input_is_spent(&task));
    task.status = TaskStatus::Processing;
    assert!(!TaskWorker::input_is_spent(&task));
    for status in [TaskStatus::Completed, TaskStatus::Failed("x".to_string()), TaskStatus::TimedOut] {
        task.status = status;
        assert!(TaskWorker::input_is_spent(&task));
    }
}

#[test]
fn event_channel_keeps_as_many_events_as_it_was_made_for() {
    let (callback, mut listener) = EventCallback::new(4);
    let task = Task {
        id: "t".to_string(),
        status: TaskStatus::Processing,
        config: create_test_task_config(TaskPriority::Normal, "a.wav"),
        created_at: 0,
        updated_at: 0,
        started_at: Some(0),
        completed_at: None,
        result: None,
        error: None,
    };
    for i in 0..4 {
        assert_eq!(callback.on_error(&task, &format!("e{}", i)), Ok(()));
    }
    // Four events are kept for a listener that does not keep up.
    assert_eq!(
        listener.try_recv().unwrap(),
        TaskEvent::Failed { task_id: "t".to_string(), error: "e0".to_string() }
    );
    for i in 4..9 {
        assert_eq!(callback.on_error(&task, &format!("e{}", i)), Ok(()));
    }
    // The fifth pushes the oldest out: the listener has lost events.
    assert!(listener.try_recv().is_err());
    assert_eq!(
        listener.try_recv().unwrap(),
        TaskEvent::Failed { task_id: "t".to_string(), error: "e5".to_string() }
    );
    assert_eq!(callback.on_status_change(&task, TaskStatus::Retrying), Ok(()));
    drop(listener);
    assert_eq!(
        callback.publish(EventCallback::status_event(&task, TaskStatus::Pending)),
        Err("channel closed".to_string())
    );
    assert!(EventCallback::try_new(0).is_none());
    assert!(EventCallback::try_new(usize::MAX).is_none());
    assert!(EventCallback::try_new(1).is_some());
}

#[test]
fn publication_answers_for_what_the_channel_answered() {
    assert_eq!(EventCallback::published(Ok(1)), Ok(()));
    assert_eq!(EventCallback::published(Ok(7)), Ok(()));
    let event = TaskEvent::Failed { task_id: "t".to_string(), error: "e".to_string() };
    assert_eq!(EventCallback::published(Err(event)), Err("channel closed".to_string()));
}

#[test]
fn a_run_answers_with_the_record_of_what_the_engine_reported() {
    let reported = asr_rs::asr::TranscribeResult {
        segments: vec![
            asr_rs::asr::TranscribeSegment {
                text: "one".to_string(),
                speaker_id: 0,
                start: 5,
                end: 50,
            },
            asr_rs::asr::TranscribeSegment {
                text: " two".to_string(),
                speaker_id: 3,
                start: 50,
                end: 75,
            },
        ],
        full_text: "one two".to_string(),
    };
    assert_eq!(
        Processor::recorded_outcome(Ok(reported)),
        Ok(TranscribeResult {
            text: "one two".to_string(),
            segments: vec![
                TranscribeSegment {
                    text: "one".to_string(),
                    speaker_id: Some(0),
                    start_time: 5,
                    end_time: 50,
                },
                TranscribeSegment {
                    text: " two".to_string(),
                    speaker_id: Some(3),
                    start_time: 50,
                    end_time: 75,
                },
            ],
        })
    );
    assert_eq!(
        Processor::recorded_outcome(Err("engine down".to_string())),
        Err("engine down".to_string())
    );
}

#[test]
fn the_manager_publishes_on_its_own_channel() {
    let manager: Manager = TaskManager::new(TaskStorage::new());
    let mut listener = manager.events().sender.subscribe();
    let mut task = Task {
        id: "t1".to_string(),
        status: TaskStatus::Failed("bad".to_string()),
        config: create_test_task_config(TaskPriority::Normal, "a.wav"),
        created_at: 0,
        updated_at: 0,
        started_at: Some(0),
        completed_at: Some(0),
        result: None,
        error: Some("bad".to_string()),
    };
    task.config.callback_type = CallbackType::Event;
    assert_eq!(manager.handle_callback(&task), Ok(None));
    assert_eq!(manager.events().on_error(&task, "again"), Ok(()));
    assert_eq!(
        listener.try_recv().unwrap(),
        TaskEvent::Failed { task_id: "t1".to_string(), error: "bad".to_string() }
    );
    assert_eq!(
        listener.try_recv().unwrap(),
        TaskEvent::Failed { task_id: "t1".to_string(), error: "again".to_string() }
    );
}

/// A processor that refuses every task with the task's input path as its
/// message.
struct Refusing;

impl TaskProcessor for Refusing {
    fn task_type(&self) -> TaskType {
        TaskType::VoiceprintRecognition
    }

    fn process(&self, task: &Task) -> Result<TaskResult, String> {
        Err(format!("cannot read {}", task.config.input_path))
    }

    fn validate_params(&self, _params: &TaskParams) -> Result<(), String> {
        Ok(())
    }

    fn cancel(&self, _task: &Task) -> Result<(), String> {
        Ok(())
    }

    fn cleanup(&self, _task: &Task) -> Result<(), String> {
        Ok(())
    }
}

#[test]
fn a_failed_run_hands_on_the_error_of_the_processor() {
    let mut manager: TaskManager<Refusing, Callback> = TaskManager::new(TaskStorage::new());
    assert_eq!(manager.register_processor(Refusing), TaskType::VoiceprintRecognition);
    let mut config = create_test_task_config(TaskPriority::Normal, "in.wav");
    config.task_type = TaskType::VoiceprintRecognition;
    config.max_retries = 0;
    let task = manager.create_task_with(config, "r", 1).unwrap();
    let claimed = manager.get_next_task_at(TaskType::VoiceprintRecognition, 2).unwrap();

    // The error that comes back is the processor's, and it is the one on record.
    assert_eq!(manager.process_task(&claimed), Err("cannot read in.wav".to_string()));
    let stored = manager.get_task(&task.id).unwrap();
    assert_eq!(stored.status, TaskStatus::Failed("cannot read in.wav".to_string()));
    assert_eq!(stored.error, Some("cannot read in.wav".to_string()));
    assert_eq!(stored.result, None);
    assert!(stored.completed_at.is_some());
    assert!(stored.is_valid());
    // A second run of the settled task records nothing more.
    assert_eq!(manager.process_task(&claimed), Err("cannot read in.wav".to_string()));
    assert_eq!(manager.get_task(&task.id).unwrap(), stored);
}

#[test]
fn a_valid_task_has_result_and_error_with_its_status() {
    let mut task = Task {
        id: "t".to_string(),
        status: TaskStatus::Pending,
        config: create_test_task_config(TaskPriority::Normal, "a.wav"),
        created_at: 0,
        updated_at: 0,
        started_at: None,
        completed_at: None,
        result: None,
        error: None,
    };
    assert!(task.is_valid());
    task.error = Some("x".to_string());
    assert!(!task.is_valid());
    task.error = None;
    task.result = Some(sample_result());
    assert!(!task.is_valid());
    task.set_status(TaskStatus::Completed, 5);
    assert!(task.is_valid());
    assert_eq!(task.result, Some(sample_result()));
    task.result = None;
    assert!(!task.is_valid());
    task.set_status(TaskStatus::Failed("boom".to_string()), 6);
    assert!(task.is_valid());
    assert_eq!(task.error, Some("boom".to_string()));
    task.error = Some("other".to_string());
    assert!(!task.is_valid());
    task.set_status(TaskStatus::Processing, 7);
    assert_eq!((task.error.clone(), task.result.clone()), (None, None));
    assert!(task.is_valid());
    task.started_at = None;
    assert!(!task.is_valid());
    task.set_status(TaskStatus::Retrying, 8);
    task.config.retry_count = task.config.max_retries + 1;
    assert!(!task.is_valid());
}

#[test]
fn times_of_a_run_stay_in_order_while_the_clock_goes_on() {
    let mut manager: TaskManager<Refusing, Callback> = TaskManager::new(TaskStorage::new());
    manager.register_processor(Refusing);
    let mut config = create_test_task_config(TaskPriority::Normal, "in.wav");
    config.task_type = TaskType::VoiceprintRecognition;
    config.max_retries = 1;
    let task = manager.create_task_with(config, "o", 10).unwrap();

    let claimed = manager.get_next_task_at(TaskType::VoiceprintRecognition, 20).unwrap();
    assert_eq!(claimed.status, TaskStatus::Processing);
    assert_eq!(claimed.started_at, Some(20));
    assert_eq!(claimed.updated_at, 20);

    // A failure with a retry left records no result and no error.
    let retried = manager.handle_task_error_at(&task.id, "once".to_string(), 30).unwrap();
    assert_eq!(retried.status, TaskStatus::Retrying);
    assert_eq!(retried.result, None);
    assert_eq!(retried.error, None);
    assert_eq!((retried.started_at, retried.completed_at, retried.updated_at), (Some(20), None, 30));

    manager.requeue_retrying_at(40);
    let again = manager.get_next_task_at(TaskType::VoiceprintRecognition, 50).unwrap();
    // The first start stays.
    assert_eq!(again.started_at, Some(20));
    assert_eq!(again.updated_at, 50);

    let done = manager.complete_task_at(&task.id, sample_result(), 60).unwrap();
    assert_eq!(done.status, TaskStatus::Completed);
    assert_eq!(done.result, Some(sample_result()));
    assert_eq!(done.error, None);
    assert_eq!((done.created_at, done.started_at, done.completed_at, done.updated_at), (10, Some(20), Some(60), 60));
    assert_eq!(manager.get_task(&task.id), Some(done));
}

#[test]
fn a_step_settles_the_task_as_the_run_answered() {
    let mut manager: TaskManager<Refusing, Callback> = TaskManager::new(TaskStorage::new());
    manager.register_processor(Refusing);
    let mut config = create_test_task_config(TaskPriority::Normal, "in.wav");
    config.task_type = TaskType::VoiceprintRecognition;
    config.max_retries = 1;
    let task = manager.create_task_with(config, "s", 1).unwrap();
    let worker = TaskWorker::new(TaskType::VoiceprintRecognition);

    // A failed run with a retry left: marked for a retry, nothing is reported.
    match worker.process_next_task(&mut manager) {
        WorkerStep::Done { task: settled, delivery, callback_error } => {
            assert_eq!(settled.id, task.id);
            assert_eq!(settled.status, TaskStatus::Retrying);
            assert_eq!(settled.config.retry_count, 1);
            assert_eq!(settled.error, None);
            assert_eq!(delivery, None);
            assert_eq!(callback_error, None);
            assert_eq!(manager.get_task(&task.id), Some(settled));
        }
        WorkerStep::Idle => panic!("a task was pending"),
    }
    assert_eq!(worker.process_next_task(&mut manager), WorkerStep::Idle);

    // At the limit the task fails with the error of the run, and that is
    // what the one delivery carries.
    manager.requeue_retrying_at(2);
    match worker.process_next_task(&mut manager) {
        WorkerStep::Done { task: settled, delivery, callback_error } => {
            assert_eq!(settled.status, TaskStatus::Failed("cannot read in.wav".to_string()));
            assert_eq!(settled.error, Some("cannot read in.wav".to_string()));
            assert_eq!(settled.result, None);
            assert_eq!(settled.config.retry_count, 1);
            assert!(settled.completed_at.is_some());
            assert_eq!(callback_error, None);
            let due = delivery.unwrap();
            assert_eq!(due.url, "http://localhost:8080/callback");
            assert_eq!(due.payload.task_id, task.id);
            assert_eq!(due.payload.status, settled.status);
            assert_eq!(due.payload.data, CallbackData::Error("cannot read in.wav".to_string()));
            assert_eq!(manager.get_task(&task.id), Some(settled));
        }
        WorkerStep::Idle => panic!("a task was pending"),
    }
    assert_eq!(worker.process_next_task(&mut manager), WorkerStep::Idle);
}

#[test]
fn a_run_is_not_recorded_by_itself() {
    let mut manager: TaskManager<Refusing, Callback> = TaskManager::new(TaskStorage::new());
    manager.register_processor(Refusing);
    let mut config = create_test_task_config(TaskPriority::Normal, "in.wav");
    config.task_type = TaskType::VoiceprintRecognition;
    let task = manager.create_task_with(config, "n", 1).unwrap();
    let claimed = manager.get_next_task_at(TaskType::VoiceprintRecognition, 2).unwrap();

    assert_eq!(manager.run_task(&claimed), Err("cannot read in.wav".to_string()));
    assert_eq!(manager.get_task(&task.id), Some(claimed));

    let mut other = create_test_task_config(TaskPriority::Normal, "in.wav");
    other.task_type = TaskType::Transcribe;
    let stray = Task {
        id: "stray".to_string(),
        status: TaskStatus::Processing,
        config: other,
        created_at: 0,
        updated_at: 0,
        started_at: Some(0),
        completed_at: None,
        result: None,
        error: None,
    };
    assert_eq!(manager.run_task(&stray), Err("No processor found for task type".to_string()));
}
