use asr_rs::asr::AsrParams;
use asr_rs::auth::{Auth, Permission, RateLimit};
use asr_rs::clock::{add_days, day_index, days_between};
use asr_rs::schedule::callback::{FunctionCallback, HttpCallback};
use asr_rs::schedule::processors::TaskProcessor;
use asr_rs::schedule::types::{
    CallbackType, StatusKind, Task, TaskConfig, TaskParams, TaskPriority, TaskResult,
    TaskStatus, TaskType, TranscribeParams, VoiceprintParams, VoiceprintResult,
};
use asr_rs::schedule::TaskManager;
use asr_rs::storage::task::TaskStorage;
use asr_rs::text::{after_last, is_whitespace, last_token_of};
use asr_rs::utils::http::{download_target, HttpResponse};
use asr_rs::web::handlers::asr::{
    transcribe_begin, transcribe_config, transcribe_finish, TranscribeRequest,
};
use asr_rs::web::handlers::auth::{
    create_api_key, get_key_stats, get_key_usage_report, revoke_api_key, CreateApiKeyRequest,
};
use asr_rs::web::handlers::schedule::{
    create_task, get_task, get_task_stats, get_task_status, update_task_priority,
    UpdatePriorityRequest,
};
use asr_rs::web::handlers::ApiResponse;
use asr_rs::web::Pagination;
use asr_rs::{audio_path, resolve_setting, sqlite_path};

type Callback = fn(&Task, &str) -> Result<(), String>;

struct AnyTranscription;

impl TaskProcessor for AnyTranscription {
    fn task_type(&self) -> TaskType {
        TaskType::Transcribe
    }

    fn process(&self, _task: &Task) -> Result<TaskResult, String> {
        Ok(TaskResult::VoiceprintRecognition(VoiceprintResult {}))
    }

    fn validate_params(&self, params: &TaskParams) -> Result<(), String> {
        match params {
            TaskParams::Transcribe(p) if p.language.as_deref() == Some("xx") => {
                Err("no such language".to_string())
            }
            _ => Ok(()),
        }
    }

    fn cancel(&self, _task: &Task) -> Result<(), String> {
        Ok(())
    }

    fn cleanup(&self, _task: &Task) -> Result<(), String> {
        Ok(())
    }
}

fn manager() -> TaskManager<AnyTranscription, Callback> {
    let mut m = TaskManager::new(TaskStorage::new());
    assert_eq!(m.register_processor(AnyTranscription), TaskType::Transcribe);
    m
}

fn request(language: Option<&str>) -> TranscribeRequest {
    TranscribeRequest {
        audio_url: "https://cdn.example.com/audio/a/b/sample.mp3".to_string(),
        callback_url: "http://localhost:8080/callback".to_string(),
        language: language.map(|l| l.to_string()),
        speaker_diarization: true,
        emotion_recognition: false,
        filter_dirty_words: true,
    }
}

#[test]
fn pagination_offsets_and_fallback() {
    let p = Pagination { index: 3, size: 5 };
    assert_eq!(p.offset(), 10);
    assert_eq!(p.limit(), 5);
    assert_eq!(p.check(), p);
    assert_eq!(Pagination::default(), Pagination { index: 1, size: 10 });
    assert_eq!(Pagination { index: 0, size: 5 }.check(), Pagination::default());
    assert_eq!(Pagination { index: 2, size: 0 }.check(), Pagination::default());
    assert_eq!(Pagination { index: 1, size: 1 }.offset(), 0);
    assert_eq!(Pagination { index: 0, size: 5 }.checked_offset(), None);
    assert_eq!(Pagination { index: u64::MAX, size: 2 }.checked_offset(), None);
    assert_eq!(Pagination { index: 4, size: 7 }.checked_offset(), Some(21));
}

#[test]
fn text_after_the_last_separator() {
    assert_eq!(after_last("Bearer key-1", ' '), "key-1");
    assert_eq!(after_last("key-1", ' '), "key-1");
    assert_eq!(after_last("a b  c", ' '), "c");
    assert_eq!(after_last("trailing ", ' '), "");
    assert_eq!(after_last("", ' '), "");
    assert_eq!(after_last("https://h/p/ä/ö.wav", '/'), "ö.wav");
    assert_eq!(download_target("https://h/p/x.wav", "./asr_data/audio/"), "./asr_data/audio/x.wav");
    assert_eq!(download_target("https://h/p/x.wav", "./asr_data/audio"), "./asr_data/audio/x.wav");
    assert_eq!(download_target("x.wav", ""), "x.wav");
}

#[test]
fn clock_arithmetic() {
    let day: i64 = 86_400_000;
    assert_eq!(day_index(0), 0);
    assert_eq!(day_index(day - 1), 0);
    assert_eq!(day_index(day), 1);
    assert_eq!(day_index(-1), -1);
    assert_eq!(day_index(-day), -1);
    assert_eq!(day_index(-day - 1), -2);
    assert_eq!(days_between(0, 2 * day - 1), 1);
    assert_eq!(days_between(2 * day - 1, 0), -1);
    assert_eq!(days_between(0, -day), -1);
    assert_eq!(days_between(i64::MIN, i64::MAX), 213_503_982_334);
    assert_eq!(add_days(5, 2), Some(5 + 2 * day));
    assert_eq!(add_days(5, -2), Some(5 - 2 * day));
    assert_eq!(add_days(i64::MAX, 1), None);
    assert_eq!(add_days(0, i64::MIN), None);
}

#[test]
fn settings_prefer_environment_then_file() {
    assert_eq!(sqlite_path(None, None), "sqlite://./asr_data/database/storage.db?mode=rwc");
    assert_eq!(audio_path(None, None), "./asr_data/audio/");
    assert_eq!(audio_path(Some("/e".to_string()), Some("/f".to_string())), "/e");
    assert_eq!(audio_path(None, Some("/f".to_string())), "/f");
    assert_eq!(resolve_setting(None, None, "d"), "d");
}

#[test]
fn status_names_round_trip() {
    for (name, status, kind) in [
        ("Pending", TaskStatus::Pending, StatusKind::Pending),
        ("Processing", TaskStatus::Processing, StatusKind::Processing),
        ("Completed", TaskStatus::Completed, StatusKind::Completed),
        ("Failed", TaskStatus::Failed(String::new()), StatusKind::Failed),
        ("Retrying", TaskStatus::Retrying, StatusKind::Retrying),
        ("TimedOut", TaskStatus::TimedOut, StatusKind::TimedOut),
    ] {
        assert_eq!(TaskStatus::try_from(name.to_string()), Ok(status.clone()));
        assert_eq!(status.kind(), kind);
        assert!(status.same_kind(&status));
    }
    assert_eq!(
        TaskStatus::try_from("pending".to_string()),
        Err("Invalid task status: pending".to_string())
    );
    assert_eq!(TaskStatus::Pending.to_string(), "Pending");
    assert_eq!(TaskStatus::Failed("a \"b\"\n".to_string()).to_string(), "Failed(\"a \\\"b\\\"\\n\")");
    assert!(TaskStatus::Failed("a".to_string()).same_kind(&TaskStatus::Failed("b".to_string())));
    assert!(!TaskStatus::Completed.same_kind(&TaskStatus::TimedOut));
    assert!(TaskStatus::TimedOut.is_terminal());
    assert!(TaskStatus::Completed.is_terminal());
    assert!(TaskStatus::Failed(String::new()).is_terminal());
    assert!(!TaskStatus::Retrying.is_terminal());
    assert!(!TaskStatus::Pending.is_terminal());
    assert!(!TaskStatus::Processing.is_terminal());
    assert_eq!(TaskType::VoiceprintRecognition.to_string(), "VoiceprintRecognition");
    assert_eq!(TaskPriority::default(), TaskPriority::Normal);
    let ranks: Vec<i32> = [
        TaskPriority::Critical,
        TaskPriority::High,
        TaskPriority::Normal,
        TaskPriority::Low,
    ]
    .iter()
    .map(|p| p.rank())
    .collect();
    assert_eq!(ranks, vec![0, 1, 2, 3]);
    let _ = TaskParams::VoiceprintRecognition(VoiceprintParams {});
}

#[test]
fn asr_params_setters() {
    let mut params = AsrParams::new();
    assert_eq!(params.language, None);
    assert!(!params.single_segment && !params.speaker_diarization);
    params.set_language(Some("zh".to_string()));
    params.set_speaker_diarization(true);
    assert_eq!(params.set_single_segment(true).language, Some("zh".to_string()));
    params.set_emotion_recognition(true);
    let after = params.set_filter_dirty_words(true).clone();
    assert_eq!(
        after,
        AsrParams {
            language: Some("zh".to_string()),
            single_segment: true,
            speaker_diarization: true,
            emotion_recognition: true,
            filter_dirty_words: true,
        }
    );
}

#[test]
fn envelopes() {
    let r = HttpResponse::new(404, "nope".to_string(), 7u8);
    assert_eq!((r.code, r.message.as_str(), r.body), (404, "nope", 7));
    let ok = ApiResponse::success(3);
    assert_eq!((ok.success, ok.data, ok.error), (true, Some(3), None));
    let bad: ApiResponse<u8> = ApiResponse::error("e".to_string());
    assert_eq!((bad.success, bad.data, bad.error), (false, None, Some("e".to_string())));
}

#[test]
fn function_callback_messages() {
    let log = std::cell::RefCell::new(Vec::new());
    let callback = FunctionCallback::new(|task: &Task, message: &str| {
        log.borrow_mut().push(format!("{}: {}", task.id, message));
        Ok(())
    });
    let task = Task {
        id: "t".to_string(),
        status: TaskStatus::Pending,
        config: transcribe_config(&request(None), "in.wav".to_string()),
        created_at: 0,
        updated_at: 0,
        started_at: None,
        completed_at: None,
        result: None,
        error: None,
    };
    callback.on_status_change(&task, TaskStatus::Failed("x".to_string())).unwrap();
    callback.on_error(&task, "bad").unwrap();
    callback
        .on_complete(&task, &TaskResult::VoiceprintRecognition(VoiceprintResult {}))
        .unwrap();
    assert_eq!(
        *log.borrow(),
        vec![
            "t: Status changed to: Failed(\"x\")",
            "t: Task failed: bad",
            "t: Task completed with result: VoiceprintRecognition",
        ]
    );
    let http = HttpCallback::new("http://cb".to_string());
    let payload = http.on_status_change(&task, TaskStatus::Processing);
    assert_eq!(payload.task_id, "t");
    assert_eq!(payload.status, TaskStatus::Processing);
}

#[test]
fn transcribe_route() {
    let mut auth = Auth::new_with_memory_storage();
    let mut tasks = manager();
    let req = request(Some("en"));

    let refused = transcribe_begin(&mut auth, None, &req, "./asr_data/audio/").unwrap_err();
    assert_eq!(refused.0, 401);
    assert_eq!(refused.1.code, 401);
    assert_eq!(refused.1.message, "Authentication failed");
    assert_eq!(refused.1.body, "MissingApiKey");

    let order =
        transcribe_begin(&mut auth, Some("Bearer test-key-123"), &req, "./asr_data/audio/").unwrap();
    assert_eq!(order.url, req.audio_url);
    assert_eq!(order.dest_path, "./asr_data/audio/sample.mp3");

    let failed = transcribe_finish(&mut tasks, request(Some("en")), Err("timeout".to_string()));
    assert_eq!(failed.0, 500);
    assert_eq!(failed.1, HttpResponse::new(500, "Failed to download audio".to_string(), "timeout".to_string()));
    assert_eq!(tasks.storage().len(), 0);

    let refused = transcribe_finish(&mut tasks, request(Some("xx")), Ok(order.dest_path.clone()));
    assert_eq!(
        refused,
        (500, HttpResponse::new(500, "Failed to create task".to_string(), "no such language".to_string()))
    );
    assert_eq!(tasks.storage().len(), 0);

    let done = transcribe_finish(&mut tasks, req, Ok(order.dest_path.clone()));
    assert_eq!(
        done,
        (
            200,
            HttpResponse::new(
                0,
                "Task added successfully".to_string(),
                "https://cdn.example.com/audio/a/b/sample.mp3".to_string()
            )
        )
    );
    let stored = tasks.storage().list(&Pagination::default());
    assert_eq!(stored.len(), 1);
    assert_eq!(
        stored[0].config,
        TaskConfig {
            task_type: TaskType::Transcribe,
            input_path: "./asr_data/audio/sample.mp3".to_string(),
            callback_type: CallbackType::Http { url: "http://localhost:8080/callback".to_string() },
            params: TaskParams::Transcribe(TranscribeParams {
                language: Some("en".to_string()),
                speaker_diarization: true,
                emotion_recognition: false,
                filter_dirty_words: true,
            }),
            priority: TaskPriority::Normal,
            retry_count: 0,
            max_retries: 3,
            timeout: None,
        }
    );
    assert_eq!(stored[0].status, TaskStatus::Pending);
}

#[test]
fn key_routes() {
    let mut auth = Auth::new_with_memory_storage();
    let (status, body) = create_api_key(
        &mut auth,
        CreateApiKeyRequest {
            name: "n".to_string(),
            permissions: vec![Permission::Admin],
            rate_limit: RateLimit { requests_per_minute: 1, requests_per_hour: 2, requests_per_day: 3 },
            expires_in_days: None,
        },
    );
    assert_eq!(status, 201);
    assert!(body.success);
    let key = body.data.unwrap().key_info.key;
    let (status, body) = create_api_key(
        &mut auth,
        CreateApiKeyRequest {
            name: "n".to_string(),
            permissions: vec![],
            rate_limit: RateLimit::default(),
            expires_in_days: Some(i64::MIN),
        },
    );
    assert_eq!(status, 500);
    assert_eq!(body.error, Some("expiry out of range".to_string()));

    assert_eq!(get_key_stats(&auth, &key).0, 200);
    assert_eq!(get_key_usage_report(&auth, &key).0, 200);
    assert_eq!(revoke_api_key(&mut auth, &key), (200, ApiResponse::success(())));
    assert_eq!(
        revoke_api_key(&mut auth, "nobody"),
        (404, ApiResponse::error("API key not found".to_string()))
    );
    assert_eq!(get_key_stats(&auth, "nobody").0, 404);
    assert_eq!(
        get_key_usage_report(&auth, "nobody").1.error,
        Some("API key not found".to_string())
    );
}

#[test]
fn task_routes() {
    let mut tasks = manager();
    let config = transcribe_config(&request(None), "in.wav".to_string());
    let (status, body) = create_task(&mut tasks, config.clone());
    assert_eq!(status, 201);
    let task = body.data.unwrap();
    assert_eq!(task.config, config);

    let mut unknown = config.clone();
    unknown.task_type = TaskType::NoiseReduction;
    let (status, body) = create_task(&mut tasks, unknown);
    assert_eq!(status, 400);
    assert_eq!(body.error, Some("No processor found for task type: NoiseReduction".to_string()));

    assert_eq!(get_task(&tasks, &task.id), (200, ApiResponse::success(task.clone())));
    assert_eq!(get_task(&tasks, "x"), (404, ApiResponse::error("Task not found".to_string())));
    assert_eq!(get_task_status(&tasks, &task.id), (200, ApiResponse::success(TaskStatus::Pending)));
    assert_eq!(get_task_status(&tasks, "x").0, 404);

    let req = UpdatePriorityRequest { priority: TaskPriority::High };
    assert_eq!(update_task_priority(&mut tasks, &task.id, req), (200, ApiResponse::success(())));
    assert_eq!(tasks.get_task(&task.id).unwrap().config.priority, TaskPriority::High);
    assert_eq!(
        update_task_priority(&mut tasks, "x", req),
        (400, ApiResponse::error("Task not found".to_string()))
    );
    tasks.get_next_task(TaskType::Transcribe).unwrap();
    assert_eq!(
        update_task_priority(&mut tasks, &task.id, req),
        (400, ApiResponse::error("Can only adjust priority of pending tasks".to_string()))
    );
    let (status, body) = get_task_stats(&tasks, &Pagination::default());
    assert_eq!(status, 200);
    assert_eq!(body.data.unwrap().processing, 1);
}

#[test]
fn last_token_of_a_text() {
    assert_eq!(last_token_of("Bearer key-1"), "key-1");
    assert_eq!(last_token_of("key-1"), "key-1");
    assert_eq!(last_token_of("a\tb\n c  "), "c");
    assert_eq!(last_token_of("  \t"), "");
    assert_eq!(last_token_of(""), "");
    assert_eq!(last_token_of("scheme\u{2003}k\u{e4}y\u{a0}"), "k\u{e4}y");
    // The library's white space is the standard library's.
    for code in 0u32..0x3100 {
        if let Some(c) = char::from_u32(code) {
            assert_eq!(is_whitespace(c), c.is_whitespace(), "U+{:04X}", code);
        }
    }
    let text = "one two\tthree\u{3000}four ";
    assert_eq!(last_token_of(text), text.split_whitespace().last().unwrap());
}
