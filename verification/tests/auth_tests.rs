use asr_rs::auth::middleware::{auth_middleware, refusal};
use asr_rs::auth::stats::{ApiKeyStats, DailyAverage, DayCount};
use asr_rs::auth::storage::{InMemoryApiKeyStatsStorage, InMemoryApiKeyStorage};
use asr_rs::auth::{ApiKeyInfo, Auth, AuthError, KeyStatus, Permission, RateLimit};
use std::time::{Duration, Instant};

const DAY: i64 = 86_400_000;

fn setup_test_auth() -> Auth {
    Auth::new_with_memory_storage()
}

fn wait(d: Duration) {
    let start = Instant::now();
    while start.elapsed() < d {
        std::hint::spin_loop();
    }
}

fn limits(rpm: u32) -> RateLimit {
    RateLimit { requests_per_minute: rpm, requests_per_hour: 1000, requests_per_day: 10000 }
}

#[test]
fn test_api_key_basic_lifecycle() {
    let mut auth = setup_test_auth();

    let key_info = auth
        .create_api_key("Test Key".to_string(), vec![Permission::Transcribe], limits(60), Some(30))
        .unwrap();

    assert_eq!(key_info.name, "Test Key");
    assert!(key_info.key.starts_with("key-"));
    assert_eq!(key_info.permissions, vec![Permission::Transcribe]);
    assert_eq!(key_info.status, KeyStatus::Active);

    assert!(auth.verify_api_key(Some(&key_info.key), Permission::Transcribe).is_ok());

    auth.revoke_api_key(&key_info.key).unwrap();
    assert!(auth.verify_api_key(Some(&key_info.key), Permission::Transcribe).is_err());
}

#[test]
fn test_api_key_permissions() {
    let mut auth = setup_test_auth();

    let key_info = auth
        .create_api_key(
            "Multi-Permission Key".to_string(),
            vec![Permission::Transcribe, Permission::SpeakerDiarization],
            limits(60),
            None,
        )
        .unwrap();

    assert!(auth.verify_api_key(Some(&key_info.key), Permission::Transcribe).is_ok());
    assert!(auth.verify_api_key(Some(&key_info.key), Permission::SpeakerDiarization).is_ok());

    assert!(matches!(
        auth.verify_api_key(Some(&key_info.key), Permission::Admin),
        Err(AuthError::InsufficientPermissions)
    ));
}

#[test]
fn test_api_key_expiration() {
    let mut auth = setup_test_auth();

    let key_info = auth
        .create_api_key(
            "Expiring Key".to_string(),
            vec![Permission::Transcribe],
            limits(60),
            Some(0),
        )
        .unwrap();
    assert_eq!(key_info.expires_at, Some(key_info.created_at));

    wait(Duration::from_secs(1));
    assert!(matches!(
        auth.verify_api_key(Some(&key_info.key), Permission::Transcribe),
        Err(AuthError::KeyExpired)
    ));

    let key_info = auth
        .create_api_key("Valid Key".to_string(), vec![Permission::Transcribe], limits(60), Some(30))
        .unwrap();
    assert_eq!(key_info.expires_at, Some(key_info.created_at + 30 * DAY));

    assert!(auth.verify_api_key(Some(&key_info.key), Permission::Transcribe).is_ok());
}

#[test]
fn test_rate_limiting() {
    let mut auth = setup_test_auth();

    let key_info = auth
        .create_api_key(
            "Rate Limited Key".to_string(),
            vec![Permission::Transcribe],
            limits(2),
            None,
        )
        .unwrap();

    assert!(auth.verify_api_key(Some(&key_info.key), Permission::Transcribe).is_ok());
    wait(Duration::from_millis(100));
    assert!(auth.verify_api_key(Some(&key_info.key), Permission::Transcribe).is_ok());
    wait(Duration::from_millis(100));

    let result = auth.verify_api_key(Some(&key_info.key), Permission::Transcribe);
    assert!(matches!(result, Err(AuthError::RateLimitExceeded)));
    // A refused request is not counted.
    assert_eq!(auth.get_key_stats(&key_info.key).unwrap().total_requests, 2);
}

#[test]
fn a_small_cap_is_refilled_with_time() {
    let mut auth = setup_test_auth();
    // Six a minute: the bucket holds six, and gets one more every ten seconds.
    let key_info = auth
        .create_api_key("Slow Key".to_string(), vec![Permission::Transcribe], limits(6), None)
        .unwrap();
    for _ in 0..6 {
        assert!(auth.verify_api_key(Some(&key_info.key), Permission::Transcribe).is_ok());
    }
    let result = auth.verify_api_key(Some(&key_info.key), Permission::Transcribe);
    assert!(matches!(result, Err(AuthError::RateLimitExceeded)));

    wait(Duration::from_millis(10_500));
    assert!(auth.verify_api_key(Some(&key_info.key), Permission::Transcribe).is_ok());
    // One token came, and no more.
    let result = auth.verify_api_key(Some(&key_info.key), Permission::Transcribe);
    assert!(matches!(result, Err(AuthError::RateLimitExceeded)));
    assert_eq!(auth.get_key_stats(&key_info.key).unwrap().total_requests, 7);
}

#[test]
fn test_stats_and_usage_report() {
    let mut auth = setup_test_auth();

    let key_info = auth
        .create_api_key(
            "Stats Test Key".to_string(),
            vec![Permission::Transcribe],
            limits(60),
            Some(30),
        )
        .unwrap();

    for _ in 0..5 {
        auth.verify_api_key(Some(&key_info.key), Permission::Transcribe).unwrap();
    }

    let stats = auth.get_key_stats(&key_info.key).unwrap();
    assert_eq!(stats.total_requests, 5);
    assert_eq!(stats.requests_today, 5);

    let report = auth.get_key_usage_report(&key_info.key).unwrap();
    assert_eq!(report.stats.total_requests, 5);
    let average = report.usage_summary.average_daily_requests;
    assert!(average.whole as f64 + average.thirtieths as f64 / 30.0 > 0.0);
    assert_eq!(average, DailyAverage { whole: 0, thirtieths: 5 });
    assert_eq!(report.usage_summary.peak_daily_requests, 5);
    assert!(report.usage_summary.days_until_expiry > 0);
}

#[test]
fn test_invalid_api_keys() {
    let mut auth = setup_test_auth();

    assert!(matches!(
        auth.verify_api_key(None, Permission::Transcribe),
        Err(AuthError::MissingApiKey)
    ));

    assert!(matches!(
        auth.verify_api_key(Some("invalid-key"), Permission::Transcribe),
        Err(AuthError::InvalidApiKey)
    ));

    let key_info = auth
        .create_api_key("Revoked Key".to_string(), vec![Permission::Transcribe], limits(60), None)
        .unwrap();

    auth.revoke_api_key(&key_info.key).unwrap();
    assert!(matches!(
        auth.verify_api_key(Some(&key_info.key), Permission::Transcribe),
        Err(AuthError::KeySuspended)
    ));
    // Revoking again changes nothing.
    auth.revoke_api_key(&key_info.key).unwrap();
    assert!(matches!(
        auth.verify_api_key(Some(&key_info.key), Permission::Transcribe),
        Err(AuthError::KeySuspended)
    ));
    assert_eq!(auth.revoke_api_key("key-unknown"), Err("API key not found".to_string()));
}

#[test]
fn key_is_taken_from_behind_the_scheme_word() {
    let mut auth = setup_test_auth();
    // The seed key of a new store.
    assert!(auth.verify_api_key(Some("test-key-123"), Permission::Transcribe).is_ok());
    assert!(auth.verify_api_key(Some("Bearer test-key-123"), Permission::Transcribe).is_ok());
    assert!(auth.verify_api_key(Some("a b test-key-123"), Permission::Transcribe).is_ok());
    // Any white space separates, and white space behind the key does not count.
    assert!(auth.verify_api_key(Some("Bearer\ttest-key-123"), Permission::Transcribe).is_ok());
    assert!(auth.verify_api_key(Some("Bearer \t  test-key-123"), Permission::Transcribe).is_ok());
    assert!(auth.verify_api_key(Some("test-key-123 "), Permission::Transcribe).is_ok());
    assert!(auth.verify_api_key(Some(" Bearer\u{3000}test-key-123\r\n"), Permission::Transcribe).is_ok());
    for nothing in ["", " ", "\t \n"] {
        assert!(matches!(
            auth.verify_api_key(Some(nothing), Permission::Transcribe),
            Err(AuthError::InvalidApiKey)
        ));
    }
    // The scheme word alone is no key, and a key is not found inside a word.
    assert!(matches!(
        auth.verify_api_key(Some("test-key-123 Bearer"), Permission::Transcribe),
        Err(AuthError::InvalidApiKey)
    ));
    assert!(matches!(
        auth.verify_api_key(Some("Bearer-test-key-123"), Permission::Transcribe),
        Err(AuthError::InvalidApiKey)
    ));
    assert_eq!(auth.get_key_stats("test-key-123").unwrap().total_requests, 7);
    assert!(matches!(
        auth.verify_api_key(Some("test-key-123"), Permission::Admin),
        Err(AuthError::InsufficientPermissions)
    ));
}

#[test]
fn screening_goes_step_by_step() {
    let mut auth = Auth::new(InMemoryApiKeyStorage::new_at(0), InMemoryApiKeyStatsStorage::new());
    let now = 1_000 * DAY;
    let key = auth
        .create_api_key_with(
            "K".to_string(),
            vec![Permission::Transcribe],
            limits(0),
            Some(10),
            "abc",
            now,
        )
        .unwrap();
    assert_eq!(key.key, "key-abc");
    assert_eq!(key.created_at, now);
    assert_eq!(key.expires_at, Some(now + 10 * DAY));
    assert_eq!(key.status, KeyStatus::Active);

    let at_expiry = now + 10 * DAY;
    assert_eq!(auth.screen(Some("key-abc"), Permission::Transcribe, at_expiry), Ok(key.clone()));
    assert_eq!(
        auth.screen(Some("key-abc"), Permission::Transcribe, at_expiry + 1),
        Err(AuthError::KeyExpired)
    );
    // Expiry is checked before the permission.
    assert_eq!(
        auth.screen(Some("key-abc"), Permission::Admin, at_expiry + 1),
        Err(AuthError::KeyExpired)
    );
    assert_eq!(
        auth.screen(Some("key-abc"), Permission::Admin, at_expiry),
        Err(AuthError::InsufficientPermissions)
    );
    assert_eq!(auth.screen(None, Permission::Admin, 0), Err(AuthError::MissingApiKey));

    // A cap of zero requests a minute admits nothing.
    assert_eq!(auth.conclude(&key, true, now), Err(AuthError::RateLimitExceeded));
    auth.create_api_key_with("Z".to_string(), vec![Permission::Transcribe], limits(0), None, "zero", now)
        .unwrap();
    assert_eq!(
        auth.verify_api_key(Some("key-zero"), Permission::Transcribe),
        Err(AuthError::RateLimitExceeded)
    );
    let mut other = key.clone();
    other.rate_limit = limits(5);
    assert_eq!(auth.conclude(&other, false, now), Err(AuthError::RateLimitExceeded));
    assert_eq!(auth.get_key_stats_at("key-abc", 5).unwrap(), ApiKeyStats::new_at(5));
    assert_eq!(auth.conclude(&other, true, now), Ok(()));
    let stats = auth.get_key_stats_at("key-abc", 5).unwrap();
    assert_eq!(stats.total_requests, 1);
    assert_eq!(stats.last_used_at, now);
    assert_eq!(stats.requests_per_day, vec![DayCount { day: 1_000, count: 1 }]);

    // An expiry beyond the machine word is refused and stores nothing.
    assert_eq!(
        auth.create_api_key_with("K".to_string(), vec![], limits(1), Some(i64::MAX), "x", now),
        Err("expiry out of range".to_string())
    );
    assert_eq!(auth.get_key_stats_at("key-x", 0), Err("API key not found".to_string()));
}

#[test]
fn stats_keep_thirty_days() {
    let mut stats = ApiKeyStats::new_at(0);
    let start = 100 * DAY;
    stats.update_at(start);
    stats.update_at(start + 1);
    stats.update_at(start + DAY - 1);
    assert_eq!(stats.requests_today, 3);
    stats.update_at(start + DAY);
    assert_eq!(stats.requests_today, 1);
    assert_eq!(stats.total_requests, 4);
    assert_eq!(
        stats.requests_per_day,
        vec![DayCount { day: 100, count: 3 }, DayCount { day: 101, count: 1 }]
    );
    assert_eq!(stats.peak_daily_requests(), 3);
    // Thirty days later day 100 is still kept, a day more and it is dropped.
    stats.update_at(start + 30 * DAY);
    assert_eq!(stats.requests_per_day.len(), 3);
    stats.update_at(start + 31 * DAY + 5);
    assert_eq!(
        stats.requests_per_day,
        vec![
            DayCount { day: 101, count: 1 },
            DayCount { day: 130, count: 1 },
            DayCount { day: 131, count: 1 }
        ]
    );
    assert_eq!(stats.total_requests, 6);
    assert_eq!(stats.last_used_at, start + 31 * DAY + 5);
    assert_eq!(stats.peak_daily_requests(), 1);
    assert_eq!(ApiKeyStats::new_at(7).peak_daily_requests(), 0);
    // Instants before the epoch fall on negative days.
    let mut early = ApiKeyStats::new_at(0);
    early.update_at(-1);
    assert_eq!(early.requests_per_day, vec![DayCount { day: -1, count: 1 }]);
}

#[test]
fn usage_report_figures() {
    let mut auth = Auth::new(InMemoryApiKeyStorage::new_at(0), InMemoryApiKeyStatsStorage::new());
    let now = 1_000 * DAY;
    let key = auth
        .create_api_key_with("K".to_string(), vec![Permission::Admin], limits(5), Some(2), "r", now)
        .unwrap();
    for i in 0..61 {
        auth.conclude(&key, true, now + (i % 2) * DAY).unwrap();
    }
    let report = auth.get_key_usage_report_at(&key.key, now + DAY).unwrap();
    assert_eq!(report.key_info, key);
    assert_eq!(report.stats.total_requests, 61);
    assert_eq!(
        report.usage_summary.average_daily_requests,
        DailyAverage { whole: 2, thirtieths: 1 }
    );
    assert_eq!(report.usage_summary.peak_daily_requests, 31);
    assert_eq!(report.usage_summary.days_until_expiry, 1);
    // Whole days, rounded toward zero, also once the key has expired.
    let late = auth.get_key_usage_report_at(&key.key, now + 3 * DAY + 1).unwrap();
    assert_eq!(late.usage_summary.days_until_expiry, -1);
    let just_late = auth.get_key_usage_report_at(&key.key, now + 2 * DAY + 1).unwrap();
    assert_eq!(just_late.usage_summary.days_until_expiry, 0);
    // A key without expiry reports -1.
    let seed = auth.get_key_usage_report_at("test-key-123", now).unwrap();
    assert_eq!(seed.usage_summary.days_until_expiry, -1);
    assert_eq!(seed.usage_summary.peak_daily_requests, 0);
    assert_eq!(
        auth.get_key_usage_report_at("nobody", now).err(),
        Some("API key not found".to_string())
    );
}

#[test]
fn key_storage_files_under_the_key() {
    let mut storage = InMemoryApiKeyStorage::new_at(5);
    let seed = storage.get_key_info("test-key-123").unwrap();
    assert_eq!(seed.name, "Test Key");
    assert_eq!(seed.created_at, 5);
    assert_eq!(seed.permissions, vec![Permission::Transcribe]);
    assert_eq!(seed.rate_limit, limits(60));
    assert_eq!(seed.status, KeyStatus::Active);

    let mut info = ApiKeyInfo::default();
    assert_eq!(info.status, KeyStatus::Expired);
    assert_eq!(KeyStatus::default(), KeyStatus::Expired);
    assert_eq!(RateLimit::default(), limits(0).clone_with(0, 0));
    info.name = "second".to_string();
    storage.set_key_info("k2".to_string(), info.clone());
    assert_eq!(storage.get_key_info("k2").unwrap().key, "k2");
    assert_eq!(storage.list_keys().len(), 2);
    info.name = "third".to_string();
    storage.set_key_info("k2".to_string(), info);
    assert_eq!(storage.list_keys().len(), 2);
    assert_eq!(storage.get_key_info("k2").unwrap().name, "third");
    assert_eq!(storage.update_key_status("k2", KeyStatus::Active), Ok(()));
    assert_eq!(storage.get_key_info("k2").unwrap().status, KeyStatus::Active);
    assert_eq!(
        storage.update_key_status("k3", KeyStatus::Active),
        Err("API key not found".to_string())
    );
    storage.remove_key("test-key-123");
    storage.remove_key("test-key-123");
    assert!(storage.get_key_info("test-key-123").is_none());
    assert_eq!(storage.list_keys().len(), 1);
}

trait CloneWith {
    fn clone_with(&self, hour: u32, day: u32) -> RateLimit;
}

impl CloneWith for RateLimit {
    fn clone_with(&self, hour: u32, day: u32) -> RateLimit {
        RateLimit {
            requests_per_minute: self.requests_per_minute,
            requests_per_hour: hour,
            requests_per_day: day,
        }
    }
}

#[test]
fn refusals_map_to_status_and_message() {
    let cases = [
        (AuthError::MissingApiKey, 401, "Missing API key", "MissingApiKey"),
        (AuthError::InvalidApiKey, 401, "Invalid API key", "InvalidApiKey"),
        (AuthError::KeyExpired, 403, "API key has expired", "KeyExpired"),
        (AuthError::KeySuspended, 403, "API key is suspended", "KeySuspended"),
        (
            AuthError::InsufficientPermissions,
            403,
            "Insufficient permissions",
            "InsufficientPermissions",
        ),
        (AuthError::RateLimitExceeded, 429, "Rate limit exceeded", "RateLimitExceeded"),
        (
            AuthError::StorageError("disk \"a\"".to_string()),
            500,
            "Internal server error",
            "StorageError(\"disk \\\"a\\\"\")",
        ),
    ];
    for (error, status, message, text) in cases {
        let (code, body) = refusal(&error);
        assert_eq!(code, status);
        assert_eq!(body.code, status);
        assert_eq!(body.message, message);
        assert_eq!(body.body, "");
        assert_eq!(error.to_string(), text);
    }
    assert_eq!(
        AuthError::from("lock poisoned".to_string()),
        AuthError::StorageError("lock poisoned".to_string())
    );

    let mut auth = setup_test_auth();
    assert!(auth_middleware(&mut auth, Some("test-key-123"), Permission::Transcribe).is_ok());
    let refused = auth_middleware(&mut auth, None, Permission::Transcribe).unwrap_err();
    assert_eq!(refused.0, 401);
    assert_eq!(refused.1.message, "Missing API key");
}

#[test]
fn keys_are_fresh_and_stamped_with_the_clock() {
    let mut auth = setup_test_auth();
    let a = auth
        .create_api_key("A".to_string(), vec![Permission::Transcribe], limits(60), None)
        .unwrap();
    let b = auth
        .create_api_key("B".to_string(), vec![Permission::Transcribe], limits(60), None)
        .unwrap();
    // "key-" and a hyphenated UUID.
    assert_eq!(a.key.len(), 40);
    assert_eq!(a.key.matches('-').count(), 5);
    assert_ne!(a.key, b.key);
    // The clock reads a time of this century, in milliseconds.
    assert!(a.created_at > 1_600_000_000_000);
    assert!(a.created_at < 4_102_444_800_000);
    assert!(b.created_at >= a.created_at);
    assert_eq!(a.expires_at, None);
    assert!(auth.verify_api_key(Some(&a.key), Permission::Transcribe).is_ok());
    let stats = auth.get_key_stats(&a.key).unwrap();
    assert!(stats.last_used_at >= a.created_at);
    assert_eq!(stats.requests_per_day.len(), 1);
    assert_eq!(stats.requests_per_day[0].day, stats.last_used_at.div_euclid(86_400_000));
}

#[test]
fn a_full_request_counter_is_a_storage_error() {
    let mut stats_storage = InMemoryApiKeyStatsStorage::new();
    stats_storage.update_stats(
        "test-key-123",
        ApiKeyStats {
            total_requests: u64::MAX,
            requests_today: 0,
            last_used_at: 0,
            requests_per_day: Vec::new(),
        },
    );
    let mut auth = Auth::new(InMemoryApiKeyStorage::new_at(0), stats_storage);
    assert_eq!(
        auth.verify_api_key(Some("test-key-123"), Permission::Transcribe),
        Err(AuthError::StorageError("request counter is full".to_string()))
    );
    assert_eq!(auth.get_key_stats("test-key-123").unwrap().total_requests, u64::MAX);
    let refused = auth_middleware(&mut auth, Some("test-key-123"), Permission::Transcribe);
    assert_eq!(refused.unwrap_err().0, 500);
}
