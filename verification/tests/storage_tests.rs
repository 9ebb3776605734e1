use asr_rs::schedule::types::{
    CallbackType, Task, TaskConfig, TaskParams, TaskPriority, TaskStatus, TaskType,
    TranscribeParams,
};
use asr_rs::storage::task::TaskStorage;
use asr_rs::web::Pagination;

const HOUR: i64 = 3_600_000;

fn create_test_task(id: &str, priority: TaskPriority, created_at: i64) -> Task {
    Task {
        id: id.to_string(),
        status: TaskStatus::Pending,
        config: TaskConfig {
            task_type: TaskType::Transcribe,
            callback_type: CallbackType::Http { url: "http://localhost:3000/callback".to_string() },
            params: TaskParams::Transcribe(TranscribeParams {
                language: None,
                speaker_diarization: false,
                emotion_recognition: false,
                filter_dirty_words: false,
            }),
            input_path: "/path/to/input".to_string(),
            priority,
            retry_count: 0,
            max_retries: 3,
            timeout: Some(300),
        },
        created_at,
        updated_at: created_at,
        started_at: None,
        completed_at: None,
        result: None,
        error: None,
    }
}

#[test]
fn test_save_and_get_task() {
    let mut storage = TaskStorage::new();
    let task = create_test_task("a", TaskPriority::Normal, 1_000);

    storage.create(&task);
    let retrieved_task = storage.get(&task.id).unwrap();

    assert_eq!(task.id, retrieved_task.id);
    assert_eq!(task.status, retrieved_task.status);
    assert_eq!(task, retrieved_task);
}

#[test]
fn test_get_pending_tasks_priority_order() {
    let mut storage = TaskStorage::new();

    let task1 = create_test_task("a", TaskPriority::Low, 1);
    let task2 = create_test_task("b", TaskPriority::High, 2);
    let task3 = create_test_task("c", TaskPriority::Normal, 3);

    storage.create(&task1);
    storage.create(&task2);
    storage.create(&task3);

    let pending_tasks = storage.get_pending_by_priority(10);

    assert_eq!(pending_tasks.len(), 3);
    assert_eq!(pending_tasks[0].config.priority, TaskPriority::High);
    assert_eq!(pending_tasks[2].config.priority, TaskPriority::Low);
}

#[test]
fn test_update_task_status() {
    let mut storage = TaskStorage::new();
    let task = create_test_task("a", TaskPriority::Normal, 1_000);

    storage.create(&task);
    storage.update(&task.id, &TaskStatus::Processing);

    let updated_task = storage.get(&task.id).unwrap();
    assert_eq!(updated_task.status, TaskStatus::Processing);
    assert!(updated_task.started_at.is_some());
}

#[test]
fn test_delete_task() {
    let mut storage = TaskStorage::new();
    let task = create_test_task("a", TaskPriority::Normal, 1_000);

    storage.create(&task);
    storage.delete(&task.id);

    let result = storage.get(&task.id);
    assert!(result.is_none());
}

#[test]
fn test_get_timed_out_tasks() {
    let mut storage = TaskStorage::new();
    let now: i64 = 1_700_000_000_000;
    let mut task = create_test_task("a", TaskPriority::Normal, now - 400_000);
    task.status = TaskStatus::Processing;
    task.started_at = Some(now - 301_000);

    storage.create(&task);

    let timed_out_tasks = storage.get_timeouted_at(now);
    assert_eq!(timed_out_tasks.len(), 1);
    assert_eq!(timed_out_tasks[0].id, task.id);
}

#[test]
fn test_cleanup_old_tasks() {
    let mut storage = TaskStorage::new();
    let now: i64 = 1_700_000_000_000;
    let mut task = create_test_task("a", TaskPriority::Normal, now - 30 * HOUR);
    task.status = TaskStatus::Completed;
    task.updated_at = now - 25 * HOUR;

    storage.create(&task);

    let cleaned = storage.cleanup_old(now - 24 * HOUR);
    assert_eq!(cleaned, 1);

    let result = storage.get(&task.id);
    assert!(result.is_none());
}

#[test]
fn test_get_tasks_by_status() {
    let mut storage = TaskStorage::new();
    let mut task = create_test_task("a", TaskPriority::Normal, 1_000);
    let status = TaskStatus::Failed("Test failure".to_string());
    task.status = status.clone();

    storage.create(&task);

    let failed_tasks = storage.get_by_status(&status);
    assert_eq!(failed_tasks.len(), 1);
    assert_eq!(failed_tasks[0].id, task.id);
}

#[test]
fn upsert_keeps_id_and_creation_time() {
    let mut storage = TaskStorage::new();
    let task = create_test_task("a", TaskPriority::Normal, 1_000);
    storage.create(&task);

    let mut again = create_test_task("a", TaskPriority::Critical, 9_000);
    again.status = TaskStatus::Retrying;
    again.updated_at = 9_500;
    storage.create(&again);

    assert_eq!(storage.len(), 1);
    let row = storage.get("a").unwrap();
    assert_eq!(row.created_at, 1_000);
    assert_eq!(row.updated_at, 9_500);
    assert_eq!(row.status, TaskStatus::Retrying);
    assert_eq!(row.config.priority, TaskPriority::Critical);
}

#[test]
fn list_pages_by_creation_time() {
    let mut storage = TaskStorage::new();
    for (i, id) in ["e", "a", "d", "b", "c"].iter().enumerate() {
        // Creation times: e=50, a=10, d=40, b=20, c=30.
        let created = [50, 10, 40, 20, 30][i];
        storage.create(&create_test_task(id, TaskPriority::Normal, created));
    }
    let page1 = storage.list(&Pagination { index: 1, size: 2 });
    let ids: Vec<&str> = page1.iter().map(|t| t.id.as_str()).collect();
    assert_eq!(ids, vec!["a", "b"]);
    let page3 = storage.list(&Pagination { index: 3, size: 2 });
    let ids: Vec<&str> = page3.iter().map(|t| t.id.as_str()).collect();
    assert_eq!(ids, vec!["e"]);
    let page4 = storage.list(&Pagination { index: 4, size: 2 });
    assert!(page4.is_empty());
    // An out-of-range request falls back to the first ten rows.
    let fallback = storage.list(&Pagination { index: 0, size: 2 });
    assert_eq!(fallback.len(), 5);
    let fallback = storage.list(&Pagination { index: 2, size: 0 });
    assert_eq!(fallback.len(), 5);
    // A page far beyond the machine word is empty.
    let far = storage.list(&Pagination { index: u64::MAX, size: u64::MAX });
    assert!(far.is_empty());
}

#[test]
fn claim_marks_rows_processing_in_priority_order() {
    let mut storage = TaskStorage::new();
    storage.create(&create_test_task("low", TaskPriority::Low, 1));
    storage.create(&create_test_task("crit", TaskPriority::Critical, 2));
    storage.create(&create_test_task("norm-late", TaskPriority::Normal, 4));
    storage.create(&create_test_task("norm-early", TaskPriority::Normal, 3));
    let mut other = create_test_task("noise", TaskPriority::Critical, 0);
    other.config.task_type = TaskType::NoiseReduction;
    storage.create(&other);

    let claimed = storage.claim_next_pending(TaskType::Transcribe, 3, 77);
    let ids: Vec<&str> = claimed.iter().map(|t| t.id.as_str()).collect();
    assert_eq!(ids, vec!["crit", "norm-early", "norm-late"]);
    for t in &claimed {
        assert_eq!(t.status, TaskStatus::Processing);
        assert_eq!(t.started_at, Some(77));
        assert_eq!(t.updated_at, 77);
        assert_eq!(storage.get(&t.id).unwrap(), *t);
    }
    assert_eq!(storage.get("low").unwrap().status, TaskStatus::Pending);
    assert_eq!(storage.get("noise").unwrap().status, TaskStatus::Pending);
    // A second claim never hands out a row twice.
    let again = storage.claim_next_pending(TaskType::Transcribe, 3, 78);
    let ids: Vec<&str> = again.iter().map(|t| t.id.as_str()).collect();
    assert_eq!(ids, vec!["low"]);
    assert!(storage.claim_next_pending(TaskType::Transcribe, 3, 79).is_empty());
}

#[test]
fn status_update_sets_times_once() {
    let mut storage = TaskStorage::new();
    storage.create(&create_test_task("a", TaskPriority::Normal, 1));
    storage.update_at("a", &TaskStatus::Processing, 10);
    storage.update_at("a", &TaskStatus::Retrying, 20);
    storage.update_at("a", &TaskStatus::Pending, 30);
    storage.update_at("a", &TaskStatus::Processing, 40);
    let row = storage.get("a").unwrap();
    assert_eq!(row.started_at, Some(10));
    assert_eq!(row.updated_at, 40);
    assert_eq!(row.completed_at, None);
    storage.update_at("a", &TaskStatus::Failed("boom".to_string()), 50);
    assert_eq!(storage.get("a").unwrap().error, Some("boom".to_string()));
    storage.update_at("a", &TaskStatus::TimedOut, 60);
    let row = storage.get("a").unwrap();
    assert_eq!(row.completed_at, Some(50));
    // The error goes with the status: a task that is not failed has none.
    assert_eq!(row.error, None);
    assert_eq!(row.updated_at, 60);
    // An unknown id changes nothing.
    storage.update_at("zzz", &TaskStatus::Completed, 70);
    assert_eq!(storage.len(), 1);
}

#[test]
fn timeout_needs_start_and_timeout() {
    let mut storage = TaskStorage::new();
    let now: i64 = 1_000_000;
    let mut no_timeout = create_test_task("no-timeout", TaskPriority::Normal, 0);
    no_timeout.status = TaskStatus::Processing;
    no_timeout.started_at = Some(0);
    no_timeout.config.timeout = None;
    storage.create(&no_timeout);
    let mut on_time = create_test_task("on-time", TaskPriority::Normal, 0);
    on_time.status = TaskStatus::Processing;
    on_time.started_at = Some(now - 300_000);
    storage.create(&on_time);
    let mut pending = create_test_task("pending", TaskPriority::Normal, 0);
    pending.started_at = Some(0);
    storage.create(&pending);
    assert!(storage.get_timeouted_at(now).is_empty());
    let late = storage.get_timeouted_at(now + 1);
    assert_eq!(late.len(), 1);
    assert_eq!(late[0].id, "on-time");
}

#[test]
fn sweep_spares_recent_and_unfinished_rows() {
    let mut storage = TaskStorage::new();
    let mut old_done = create_test_task("old-done", TaskPriority::Normal, 0);
    old_done.status = TaskStatus::Completed;
    old_done.updated_at = 10;
    let mut old_failed = create_test_task("old-failed", TaskPriority::Normal, 0);
    old_failed.status = TaskStatus::Failed("x".to_string());
    old_failed.updated_at = 10;
    let mut old_timed_out = create_test_task("old-timed-out", TaskPriority::Normal, 0);
    old_timed_out.status = TaskStatus::TimedOut;
    old_timed_out.updated_at = 10;
    let mut new_done = create_test_task("new-done", TaskPriority::Normal, 0);
    new_done.status = TaskStatus::Completed;
    new_done.updated_at = 100;
    let old_pending = create_test_task("old-pending", TaskPriority::Normal, 0);
    for t in [&old_done, &old_failed, &old_timed_out, &new_done, &old_pending] {
        storage.create(t);
    }
    assert_eq!(storage.cleanup_old(100), 2);
    assert_eq!(storage.len(), 3);
    assert!(storage.get("old-done").is_none());
    assert!(storage.get("old-failed").is_none());
    assert!(storage.get("new-done").is_some());
    assert_eq!(storage.cleanup_old(100), 0);
}
