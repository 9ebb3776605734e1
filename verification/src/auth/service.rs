//! The service itself: it screens a presented key, takes a token from the key's
//! bucket, and records the request.

use super::error::{AuthError, AuthErrorView};
use super::limiter::RateLimiters;
use super::stats::{
    peak, ApiKeyStats, ApiKeyStatsView, ApiKeyUsageReport, DailyAverage, UsageSummary,
};
use super::storage::{
    holds_key, key_lookup, key_stored, key_with_status, stats_lookup, stats_stored,
    InMemoryApiKeyStatsStorage, InMemoryApiKeyStorage, StatsEntryView,
};
use super::types::{ApiKeyInfo, ApiKeyInfoView, KeyStatus, Permission, RateLimit};
use crate::clock::{add_days, days_between, now_millis, whole_days, MILLIS_PER_DAY};
use crate::ident::fresh_uuid;
use crate::text::{is_space, join, last_token, last_token_of, lemma_token_behind_space};
use crate::views::result_view;
use vstd::prelude::*;
use vstd::string::*;

verus! {

/// The key string in what a client presents: the last token that white
/// space separates, so that a scheme word in front of the key is skipped
/// and white space around the key does not count.
pub open spec fn presented_key(presented: Seq<char>) -> Seq<char> {
    last_token(presented)
}

/// The screening of a presented key at `now`, in this order: nothing
/// presented; no key in what is presented, or no such key; key suspended;
/// key expired, by status or by its expiry; permission not granted. A key
/// that passes is handed on.
pub open spec fn screening(
    keys: Seq<ApiKeyInfoView>,
    presented: Option<Seq<char>>,
    required: Permission,
    now: i64,
) -> Result<ApiKeyInfoView, AuthErrorView> {
    match presented {
        None => Err(AuthErrorView::MissingApiKey),
        Some(p) => if presented_key(p).len() == 0 {
            Err(AuthErrorView::InvalidApiKey)
        } else {
            match key_lookup(keys, presented_key(p)) {
                None => Err(AuthErrorView::InvalidApiKey),
                Some(info) => if info.status == KeyStatus::Suspended {
                    Err(AuthErrorView::KeySuspended)
                } else if info.status == KeyStatus::Expired || info.lapsed_at(now) {
                    Err(AuthErrorView::KeyExpired)
                } else if !info.permissions.contains(required) {
                    Err(AuthErrorView::InsufficientPermissions)
                } else {
                    Ok(info)
                },
            }
        },
    }
}

/// The usage records after a request of `key` at `now` was counted: the
/// key's record, or an empty one when it has none, with one request more.
pub open spec fn counted(rows: Seq<StatsEntryView>, key: Seq<char>, now: i64) -> Seq<
    StatsEntryView,
> {
    let record = match stats_lookup(rows, key) {
        Some(s) => s,
        None => ApiKeyStatsView::fresh(now),
    };
    stats_stored(rows, key, record.after_request(now))
}

/// The request counters of `key` can take one more request at `now`.
pub open spec fn countable(rows: Seq<StatsEntryView>, key: Seq<char>, now: i64) -> bool {
    match stats_lookup(rows, key) {
        Some(s) => s.countable_at(now),
        None => true,
    }
}

/// What a verification at `now` answers, given whether the key's bucket
/// `granted` a token: the screening's refusal; else a refusal for the rate
/// when the bucket gave no token or the key's cap per minute is zero; else a
/// storage error when the request counter is full; else admission.
pub open spec fn verdict(
    keys: Seq<ApiKeyInfoView>,
    stats: Seq<StatsEntryView>,
    presented: Option<Seq<char>>,
    required: Permission,
    now: i64,
    granted: bool,
) -> Result<(), AuthErrorView> {
    match screening(keys, presented, required, now) {
        Err(e) => Err(e),
        Ok(info) => if info.rate_limit.requests_per_minute == 0 || !granted {
            Err(AuthErrorView::RateLimitExceeded)
        } else if !countable(stats, info.key, now) {
            Err(AuthErrorView::StorageError("request counter is full"@))
        } else {
            Ok(())
        },
    }
}

/// The usage records after a verification: one request more for the key on
/// admission, unchanged otherwise.
pub open spec fn records_after(
    keys: Seq<ApiKeyInfoView>,
    stats: Seq<StatsEntryView>,
    presented: Option<Seq<char>>,
    required: Permission,
    now: i64,
    granted: bool,
) -> Seq<StatsEntryView> {
    if verdict(keys, stats, presented, required, now, granted) is Ok {
        counted(stats, presented_key(presented.unwrap()), now)
    } else {
        stats
    }
}

/// The keys that have a bucket after a verification at `now`: a key that
/// passes the screening gets a bucket of its own when it has none yet and
/// its cap per minute is not zero; every other verification makes no bucket.
pub open spec fn buckets_after(
    buckets: Seq<Seq<char>>,
    keys: Seq<ApiKeyInfoView>,
    presented: Option<Seq<char>>,
    required: Permission,
    now: i64,
) -> Seq<Seq<char>> {
    match screening(keys, presented, required, now) {
        Ok(info) => if info.rate_limit.requests_per_minute == 0 || buckets.contains(info.key) {
            buckets
        } else {
            buckets.push(info.key)
        },
        Err(_) => buckets,
    }
}

/// The requests per minute that the buckets were made for after a
/// verification at `now`: a bucket that is made is made for the cap per
/// minute of its key; the buckets that there are keep theirs.
pub open spec fn limits_after(
    limits: Seq<nat>,
    buckets: Seq<Seq<char>>,
    keys: Seq<ApiKeyInfoView>,
    presented: Option<Seq<char>>,
    required: Permission,
    now: i64,
) -> Seq<nat> {
    match screening(keys, presented, required, now) {
        Ok(info) => if info.rate_limit.requests_per_minute == 0 || buckets.contains(info.key) {
            limits
        } else {
            limits.push(info.rate_limit.requests_per_minute as nat)
        },
        Err(_) => limits,
    }
}

/// Law of the scheme word: a key that holds no white space is screened the
/// same whether it is presented alone or behind a scheme word and white
/// space, with or without white space behind it.
pub proof fn lemma_scheme_word_is_skipped(
    keys: Seq<ApiKeyInfoView>,
    head: Seq<char>,
    key: Seq<char>,
    tail: Seq<char>,
    required: Permission,
    now: i64,
)
    requires
        key.len() > 0,
        forall|i: int| 0 <= i < key.len() ==> !is_space(key[i]),
        head.len() == 0 || is_space(head.last()),
        forall|i: int| 0 <= i < tail.len() ==> is_space(tail[i]),
    ensures
        presented_key(head + key + tail) == key,
        screening(keys, Some(head + key + tail), required, now) == screening(
            keys,
            Some(key),
            required,
            now,
        ),
    decreases tail.len(),
{
    lemma_token_behind_space(head, key);
    if tail.len() > 0 {
        let rest = tail.drop_last();
        assert forall|i: int| 0 <= i < rest.len() implies is_space(rest[i]) by {
            assert(rest[i] == tail[i]);
        }
        lemma_scheme_word_is_skipped(keys, head, key, rest, required, now);
        assert((head + key + rest).push(tail.last()) =~= head + key + tail);
        crate::text::lemma_token_before_space(head + key + rest, tail.last());
    } else {
        assert(head + key + tail =~= head + key);
    }
}

/// The key that `create_api_key` makes from a fresh token at `now`.
pub open spec fn minted(
    token: Seq<char>,
    name: Seq<char>,
    permissions: Seq<Permission>,
    rate_limit: RateLimit,
    expires_in_days: Option<i64>,
    now: i64,
) -> ApiKeyInfoView {
    ApiKeyInfoView {
        key: "key-"@ + token,
        name: name,
        created_at: now,
        expires_at: match expires_in_days {
            Some(d) => Some((now + d * MILLIS_PER_DAY) as i64),
            None => None,
        },
        permissions: permissions,
        rate_limit: rate_limit,
        status: KeyStatus::Active,
    }
}

/// The expiry of a key made at `now` for `expires_in_days` days fits the
/// machine word.
pub open spec fn expiry_fits(expires_in_days: Option<i64>, now: i64) -> bool {
    expires_in_days matches Some(d) ==> i64::MIN <= now + d * MILLIS_PER_DAY <= i64::MAX
}

/// The figures of the usage report of a key at `now`.
pub open spec fn summary_of(info: ApiKeyInfoView, stats: ApiKeyStatsView, now: i64) -> UsageSummary {
    UsageSummary {
        average_daily_requests: DailyAverage {
            whole: stats.total_requests / 30,
            thirtieths: stats.total_requests % 30,
        },
        peak_daily_requests: peak(stats.requests_per_day) as u64,
        days_until_expiry: match info.expires_at {
            Some(e) => whole_days(e - now) as i64,
            None => -1i64,
        },
    }
}

/// Law of revocation: a revoked key is refused as suspended, whatever the
/// permission asked for and whenever it is presented.
pub proof fn lemma_revoked_key_is_refused(
    keys: Seq<ApiKeyInfoView>,
    presented: Seq<char>,
    required: Permission,
    now: i64,
)
    requires
        super::storage::unique_keys(keys),
        holds_key(keys, presented_key(presented)),
        presented_key(presented).len() > 0,
    ensures
        screening(
            key_with_status(keys, presented_key(presented), KeyStatus::Suspended),
            Some(presented),
            required,
            now,
        ) == Err::<ApiKeyInfoView, AuthErrorView>(AuthErrorView::KeySuspended),
{
    let key = presented_key(presented);
    let i = super::storage::key_index(keys, key);
    let after = key_with_status(keys, key, KeyStatus::Suspended);
    assert(after[i].key == key);
    assert(super::storage::unique_keys(after)) by {
        assert forall|a: int, b: int| 0 <= a < b < after.len() implies after[a].key
            != after[b].key by {
            assert(keys[a].key != keys[b].key);
        }
    }
    super::storage::lemma_key_index(after, i);
}

/// Law of revocation: revoking a key twice is revoking it once.
pub proof fn lemma_revoke_twice(keys: Seq<ApiKeyInfoView>, key: Seq<char>)
    requires
        super::storage::unique_keys(keys),
    ensures
        key_with_status(key_with_status(keys, key, KeyStatus::Suspended), key, KeyStatus::Suspended)
            == key_with_status(keys, key, KeyStatus::Suspended),
{
    let once = key_with_status(keys, key, KeyStatus::Suspended);
    if holds_key(keys, key) {
        let i = super::storage::key_index(keys, key);
        assert(once[i].key == key);
        assert(super::storage::unique_keys(once)) by {
            assert forall|a: int, b: int| 0 <= a < b < once.len() implies once[a].key
                != once[b].key by {
                assert(keys[a].key != keys[b].key);
            }
        }
        super::storage::lemma_key_index(once, i);
        assert(key_with_status(once, key, KeyStatus::Suspended) =~= once);
    } else {
        assert(!holds_key(once, key));
    }
}

/// Law of the expiry: a key made for zero days expires at the instant it is
/// made, and is refused as expired at every later instant.
pub proof fn lemma_zero_days_expire_at_once(
    token: Seq<char>,
    name: Seq<char>,
    permissions: Seq<Permission>,
    rate_limit: RateLimit,
    now: i64,
    later: i64,
)
    requires
        later > now,
    ensures
        minted(token, name, permissions, rate_limit, Some(0), now).expires_at == Some(now),
        minted(token, name, permissions, rate_limit, Some(0), now).lapsed_at(later),
        !minted(token, name, permissions, rate_limit, Some(0), now).lapsed_at(now),
{
}

/// Law of the cap: a key whose cap per minute is zero is never admitted.
pub proof fn lemma_zero_cap_admits_nothing(
    keys: Seq<ApiKeyInfoView>,
    stats: Seq<StatsEntryView>,
    presented: Option<Seq<char>>,
    required: Permission,
    now: i64,
    granted: bool,
)
    requires
        screening(keys, presented, required, now) matches Ok(info)
            && info.rate_limit.requests_per_minute == 0,
    ensures
        verdict(keys, stats, presented, required, now, granted) == Err::<(), AuthErrorView>(
            AuthErrorView::RateLimitExceeded,
        ),
        records_after(keys, stats, presented, required, now, granted) == stats,
{
}

/// The credential service.
pub struct Auth {
    key_storage: InMemoryApiKeyStorage,
    stats_storage: InMemoryApiKeyStatsStorage,
    rate_limiters: RateLimiters,
}

impl Auth {
    /// The keys the service knows.
    pub closed spec fn keys(&self) -> Seq<ApiKeyInfoView> {
        self.key_storage@
    }

    /// The usage records the service keeps.
    pub closed spec fn stats(&self) -> Seq<StatsEntryView> {
        self.stats_storage@
    }

    /// The keys that have a token bucket, in the order in which the buckets
    /// were made.
    pub closed spec fn limited_keys(&self) -> Seq<Seq<char>> {
        self.rate_limiters.keys()
    }

    /// The requests per minute that each bucket was made for, in the order
    /// of `limited_keys`.
    pub closed spec fn limits(&self) -> Seq<nat> {
        self.rate_limiters.quotas()
    }

    /// Law of the service's state: no two keys are the same, no key has two
    /// usage records, every usage record counts each day once, and no key
    /// has two buckets.
    pub proof fn lemma_invariant(&self)
        requires
            self.wf(),
        ensures
            super::storage::unique_keys(self.keys()),
            super::storage::stats_wf(self.stats()),
            self.limits().len() == self.limited_keys().len(),
            forall|i: int, j: int|
                0 <= i < j < self.limited_keys().len() ==> self.limited_keys()[i]
                    != self.limited_keys()[j],
    {
    }

    /// The invariant of the service: its stores and its buckets are well formed.
    pub closed spec fn wf(&self) -> bool {
        &&& self.key_storage.wf()
        &&& self.stats_storage.wf()
        &&& self.rate_limiters.wf()
    }

    /// A service over the given stores, which has made no token bucket yet.
    pub fn new(key_storage: InMemoryApiKeyStorage, stats_storage: InMemoryApiKeyStatsStorage) -> (r:
        Self)
        requires
            key_storage.wf(),
            stats_storage.wf(),
        ensures
            r.wf(),
            r.keys() == key_storage@,
            r.stats() == stats_storage@,
            r.limited_keys() == Seq::<Seq<char>>::empty(),
            r.limits() == Seq::<nat>::empty(),
    {
        Auth { key_storage, stats_storage, rate_limiters: RateLimiters::new() }
    }

    /// A service over new stores: it knows the seed key, has no usage
    /// records, and has made no token bucket yet.
    pub fn new_with_memory_storage() -> (r: Self)
        ensures
            r.wf(),
            exists|now: i64| r.keys() == seq![super::storage::seed_key(now)],
            r.stats() == Seq::<StatsEntryView>::empty(),
            r.limited_keys() == Seq::<Seq<char>>::empty(),
            r.limits() == Seq::<nat>::empty(),
    {
        Auth {
            key_storage: InMemoryApiKeyStorage::new(),
            stats_storage: InMemoryApiKeyStatsStorage::new(),
            rate_limiters: RateLimiters::new(),
        }
    }

    /// Screens a presented key at `now`: the first four steps of a
    /// verification, which change nothing.
    pub fn screen(&self, api_key: Option<&str>, required_permission: Permission, now: i64) -> (r:
        Result<ApiKeyInfo, AuthError>)
        requires
            self.wf(),
        ensures
            result_view(r) == screening(self.keys(), api_key.deep_view(), required_permission, now),
    {
        let presented = match api_key {
            Some(p) => p,
            None => {
                return Err(AuthError::MissingApiKey);
            },
        };
        let key = last_token_of(presented);
        if key.as_str().unicode_len() == 0 {
            return Err(AuthError::InvalidApiKey);
        }
        let info = match self.key_storage.get_key_info(key.as_str()) {
            Some(info) => info,
            None => {
                return Err(AuthError::InvalidApiKey);
            },
        };
        match info.status {
            KeyStatus::Suspended => {
                return Err(AuthError::KeySuspended);
            },
            KeyStatus::Expired => {
                return Err(AuthError::KeyExpired);
            },
            KeyStatus::Active => {},
        }
        if let Some(expires_at) = info.expires_at {
            if expires_at < now {
                return Err(AuthError::KeyExpired);
            }
        }
        if !info.allows(required_permission) {
            return Err(AuthError::InsufficientPermissions);
        }
        Ok(info)
    }

    /// Counts a request of `api_key` made at `now`.
    fn update_key_stats(&mut self, api_key: &str, now: i64) -> (r: Result<(), String>)
        requires
            old(self).wf(),
        ensures
            final(self).wf(),
            final(self).limited_keys() == old(self).limited_keys(),
            final(self).limits() == old(self).limits(),
            final(self).keys() == old(self).keys(),
            r is Ok == countable(old(self).stats(), api_key@, now),
            r is Ok ==> final(self).stats() == counted(old(self).stats(), api_key@, now),
            r matches Err(m) ==> m@ == "request counter is full"@ && final(self).stats() == old(
                self,
            ).stats(),
    {
        let mut stats = match self.stats_storage.get_stats(api_key) {
            Some(s) => s,
            None => ApiKeyStats::new_at(now),
        };
        if !stats.can_count_at(now) {
            return Err(String::from_str("request counter is full"));
        }
        stats.update_at(now);
        self.stats_storage.update_stats(api_key, stats);
        Ok(())
    }

    /// Concludes a verification of a key that passed the screening, given
    /// whether its bucket `granted` a token: the last two steps.
    pub fn conclude(&mut self, info: &ApiKeyInfo, granted: bool, now: i64) -> (r: Result<
        (),
        AuthError,
    >)
        requires
            old(self).wf(),
        ensures
            final(self).wf(),
            final(self).limited_keys() == old(self).limited_keys(),
            final(self).limits() == old(self).limits(),
            final(self).keys() == old(self).keys(),
            result_view(r) == (if info@.rate_limit.requests_per_minute == 0 || !granted {
                Err(AuthErrorView::RateLimitExceeded)
            } else if !countable(old(self).stats(), info@.key, now) {
                Err(AuthErrorView::StorageError("request counter is full"@))
            } else {
                Ok(())
            }),
            final(self).stats() == if r is Ok {
                counted(old(self).stats(), info@.key, now)
            } else {
                old(self).stats()
            },
    {
        if info.rate_limit.requests_per_minute == 0 || !granted {
            return Err(AuthError::RateLimitExceeded);
        }
        match self.update_key_stats(info.key.as_str(), now) {
            Ok(()) => Ok(()),
            Err(m) => Err(AuthError::StorageError(m)),
        }
    }

    /// Verifies a presented key for a permission. Whatever the clock reads
    /// and the key's bucket answers, the result and the usage records are
    /// those that `verdict` and `records_after` give for that reading and
    /// that answer; a key that passes the screening for the first time gets
    /// its bucket, as `buckets_after` says; the keys stay as they are.
    pub fn verify_api_key(&mut self, api_key: Option<&str>, required_permission: Permission) -> (r:
        Result<(), AuthError>)
        requires
            old(self).wf(),
        ensures
            final(self).wf(),
            final(self).keys() == old(self).keys(),
            exists|now: i64, granted: bool|
                {
                    &&& result_view(r) == #[trigger] verdict(
                        old(self).keys(),
                        old(self).stats(),
                        api_key.deep_view(),
                        required_permission,
                        now,
                        granted,
                    )
                    &&& final(self).stats() == records_after(
                        old(self).keys(),
                        old(self).stats(),
                        api_key.deep_view(),
                        required_permission,
                        now,
                        granted,
                    )
                    &&& final(self).limited_keys() == buckets_after(
                        old(self).limited_keys(),
                        old(self).keys(),
                        api_key.deep_view(),
                        required_permission,
                        now,
                    )
                    &&& final(self).limits() == limits_after(
                        old(self).limits(),
                        old(self).limited_keys(),
                        old(self).keys(),
                        api_key.deep_view(),
                        required_permission,
                        now,
                    )
                },
    {
        let now = now_millis();
        let ghost keys = self.keys();
        let ghost stats = self.stats();
        let info = match self.screen(api_key, required_permission, now) {
            Ok(info) => info,
            Err(e) => {
                assert(verdict(keys, stats, api_key.deep_view(), required_permission, now, true)
                    == Err::<(), AuthErrorView>(e@));
                return Err(e);
            },
        };
        proof {
            let p = api_key.deep_view().unwrap();
            assert(key_lookup(keys, presented_key(p)) == Some(info@));
            assert(holds_key(keys, presented_key(p)));
            assert(info@.key == presented_key(p));
        }
        let rpm = info.rate_limit.requests_per_minute;
        let granted = if rpm == 0 {
            false
        } else {
            self.rate_limiters.take_token(info.key.as_str(), rpm)
        };
        let r = self.conclude(&info, granted, now);
        assert(result_view(r) == verdict(
            keys,
            stats,
            api_key.deep_view(),
            required_permission,
            now,
            granted,
        ));
        r
    }

    /// Makes a key from a fresh `token` at `now` and stores it. Fails with
    /// "expiry out of range" when the expiry does not fit the machine word.
    pub fn create_api_key_with(
        &mut self,
        name: String,
        permissions: Vec<Permission>,
        rate_limit: RateLimit,
        expires_in_days: Option<i64>,
        token: &str,
        now: i64,
    ) -> (r: Result<ApiKeyInfo, String>)
        requires
            old(self).wf(),
        ensures
            final(self).wf(),
            final(self).limited_keys() == old(self).limited_keys(),
            final(self).limits() == old(self).limits(),
            final(self).stats() == old(self).stats(),
            r is Ok == expiry_fits(expires_in_days, now),
            r matches Ok(info) ==> {
                &&& info@ == minted(token@, name@, permissions@, rate_limit, expires_in_days, now)
                &&& final(self).keys() == key_stored(old(self).keys(), info@.key, info@)
            },
            r matches Err(m) ==> m@ == "expiry out of range"@ && final(self).keys() == old(
                self,
            ).keys(),
    {
        let expires_at = match expires_in_days {
            Some(days) => match add_days(now, days) {
                Some(t) => Some(t),
                None => {
                    return Err(String::from_str("expiry out of range"));
                },
            },
            None => None,
        };
        let key = join("key-", token);
        let key_info = ApiKeyInfo {
            key: key.clone(),
            name,
            created_at: now,
            expires_at,
            permissions,
            rate_limit,
            status: KeyStatus::Active,
        };
        self.key_storage.set_key_info(key, key_info.clone());
        Ok(key_info)
    }

    /// Makes a key under a random token, created now, and stores it.
    /// Whatever the token and the clock's reading, the key is the one that
    /// `create_api_key_with` makes of them.
    pub fn create_api_key(
        &mut self,
        name: String,
        permissions: Vec<Permission>,
        rate_limit: RateLimit,
        expires_in_days: Option<i64>,
    ) -> (r: Result<ApiKeyInfo, String>)
        requires
            old(self).wf(),
        ensures
            final(self).wf(),
            final(self).limited_keys() == old(self).limited_keys(),
            final(self).limits() == old(self).limits(),
            final(self).stats() == old(self).stats(),
            exists|token: Seq<char>, now: i64|
                {
                    &&& r is Ok == #[trigger] expiry_fits(expires_in_days, now)
                    &&& r matches Ok(info) ==> {
                        &&& info@ == #[trigger] minted(
                            token,
                            name@,
                            permissions@,
                            rate_limit,
                            expires_in_days,
                            now,
                        )
                        &&& final(self).keys() == key_stored(old(self).keys(), info@.key, info@)
                    }
                    &&& r is Err ==> final(self).keys() == old(self).keys()
                },
            r matches Err(m) ==> m@ == "expiry out of range"@,
    {
        let token = fresh_uuid();
        let now = now_millis();
        let ghost n = name@;
        let ghost p = permissions@;
        let r = self.create_api_key_with(
            name,
            permissions,
            rate_limit,
            expires_in_days,
            token.as_str(),
            now,
        );
        proof {
            assert(r is Ok == expiry_fits(expires_in_days, now));
            if r is Ok {
                assert(r.unwrap()@ == minted(token@, n, p, rate_limit, expires_in_days, now));
            }
        }
        r
    }

    /// Suspends a key. Fails with "API key not found" when the service does not
    /// know it. Suspending a suspended key changes nothing.
    pub fn revoke_api_key(&mut self, api_key: &str) -> (r: Result<(), String>)
        requires
            old(self).wf(),
        ensures
            final(self).wf(),
            final(self).limited_keys() == old(self).limited_keys(),
            final(self).limits() == old(self).limits(),
            final(self).stats() == old(self).stats(),
            final(self).keys() == key_with_status(old(self).keys(), api_key@, KeyStatus::Suspended),
            r is Ok == holds_key(old(self).keys(), api_key@),
            r matches Err(m) ==> m@ == "API key not found"@,
    {
        self.key_storage.update_key_status(api_key, KeyStatus::Suspended)
    }

    /// The usage record of a key as of `now`: the stored record, or an empty
    /// one for a key that was never used. Fails with "API key not found" when
    /// the service does not know the key.
    pub fn get_key_stats_at(&self, api_key: &str, now: i64) -> (r: Result<ApiKeyStats, String>)
        requires
            self.wf(),
        ensures
            r is Ok == holds_key(self.keys(), api_key@),
            r matches Ok(s) ==> s@ == (match stats_lookup(self.stats(), api_key@) {
                Some(found) => found,
                None => ApiKeyStatsView::fresh(now),
            }),
            r matches Err(m) ==> m@ == "API key not found"@,
    {
        if self.key_storage.get_key_info(api_key).is_none() {
            return Err(String::from_str("API key not found"));
        }
        match self.stats_storage.get_stats(api_key) {
            Some(s) => Ok(s),
            None => Ok(ApiKeyStats::new_at(now)),
        }
    }

    /// The usage record of a key as of the current time.
    pub fn get_key_stats(&self, api_key: &str) -> (r: Result<ApiKeyStats, String>)
        requires
            self.wf(),
        ensures
            r is Ok == holds_key(self.keys(), api_key@),
            r matches Ok(s) ==> (match stats_lookup(self.stats(), api_key@) {
                Some(found) => s@ == found,
                None => exists|now: i64| s@ == ApiKeyStatsView::fresh(now),
            }),
            r matches Err(m) ==> m@ == "API key not found"@,
    {
        let now = now_millis();
        self.get_key_stats_at(api_key, now)
    }

    /// The usage report of a key at `now`: the key, its usage record, the
    /// average over thirty days, the busiest day, and the whole days until
    /// the key expires (-1 for a key that does not expire). Fails with
    /// "API key not found" when the service does not know the key.
    pub fn get_key_usage_report_at(&self, api_key: &str, now: i64) -> (r: Result<
        ApiKeyUsageReport,
        String,
    >)
        requires
            self.wf(),
        ensures
            r is Ok == holds_key(self.keys(), api_key@),
            r matches Ok(report) ==> {
                &&& Some(report@.key_info) == key_lookup(self.keys(), api_key@)
                &&& report@.stats == (match stats_lookup(self.stats(), api_key@) {
                    Some(found) => found,
                    None => ApiKeyStatsView::fresh(now),
                })
                &&& report@.usage_summary == summary_of(report@.key_info, report@.stats, now)
            },
            r matches Err(m) ==> m@ == "API key not found"@,
    {
        let stats = match self.get_key_stats_at(api_key, now) {
            Ok(s) => s,
            Err(m) => {
                return Err(m);
            },
        };
        let key_info = match self.key_storage.get_key_info(api_key) {
            Some(info) => info,
            None => {
                return Err(String::from_str("API key not found"));
            },
        };
        let days_until_expiry = match key_info.expires_at {
            Some(e) => days_between(now, e),
            None => -1,
        };
        let usage_summary = UsageSummary {
            average_daily_requests: DailyAverage::of_total(stats.total_requests),
            peak_daily_requests: stats.peak_daily_requests(),
            days_until_expiry,
        };
        Ok(ApiKeyUsageReport { key_info, stats, usage_summary })
    }

    /// The usage report of a key at the current time. Whatever the clock
    /// reads, the report is the one `get_key_usage_report_at` gives for that
    /// reading.
    pub fn get_key_usage_report(&self, api_key: &str) -> (r: Result<ApiKeyUsageReport, String>)
        requires
            self.wf(),
        ensures
            r is Ok == holds_key(self.keys(), api_key@),
            r matches Ok(report) ==> exists|now: i64|
                {
                    &&& Some(report@.key_info) == key_lookup(self.keys(), api_key@)
                    &&& report@.stats == (match stats_lookup(self.stats(), api_key@) {
                        Some(found) => found,
                        None => ApiKeyStatsView::fresh(now),
                    })
                    &&& report@.usage_summary == #[trigger] summary_of(
                        report@.key_info,
                        report@.stats,
                        now,
                    )
                },
            r matches Err(m) ==> m@ == "API key not found"@,
    {
        let now = now_millis();
        self.get_key_usage_report_at(api_key, now)
    }
}

} // verus!
