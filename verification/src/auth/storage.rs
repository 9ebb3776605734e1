//! Where API keys and their usage records are kept.

use super::stats::{ApiKeyStats, ApiKeyStatsView};
use super::types::{ApiKeyInfo, ApiKeyInfoView, KeyStatus, Permission, RateLimit};
use crate::clock::now_millis;
use crate::text::str_eq;
use vstd::prelude::*;
use vstd::string::*;

verus! {

/// No two entries share a key.
pub open spec fn unique_keys(rows: Seq<ApiKeyInfoView>) -> bool {
    forall|i: int, j: int| 0 <= i < j < rows.len() ==> rows[i].key != rows[j].key
}

/// Some entry has this key.
pub open spec fn holds_key(rows: Seq<ApiKeyInfoView>, key: Seq<char>) -> bool {
    exists|i: int| 0 <= i < rows.len() && (#[trigger] rows[i]).key == key
}

/// The place of the entry with this key, where there is one.
pub open spec fn key_index(rows: Seq<ApiKeyInfoView>, key: Seq<char>) -> int {
    choose|i: int| 0 <= i < rows.len() && (#[trigger] rows[i]).key == key
}

/// The entry with this key.
pub open spec fn key_lookup(rows: Seq<ApiKeyInfoView>, key: Seq<char>) -> Option<ApiKeyInfoView> {
    if holds_key(rows, key) {
        Some(rows[key_index(rows, key)])
    } else {
        None
    }
}

/// The entries after `info` was stored under `key`: it replaces the entry
/// filed under `key`, or is appended when there is none.
pub open spec fn key_stored(
    rows: Seq<ApiKeyInfoView>,
    key: Seq<char>,
    info: ApiKeyInfoView,
) -> Seq<ApiKeyInfoView> {
    let filed = ApiKeyInfoView { key: key, ..info };
    if holds_key(rows, key) {
        rows.update(key_index(rows, key), filed)
    } else {
        rows.push(filed)
    }
}

/// The entries after the status of `key` was set; unchanged when there is no
/// such key.
pub open spec fn key_with_status(
    rows: Seq<ApiKeyInfoView>,
    key: Seq<char>,
    status: KeyStatus,
) -> Seq<ApiKeyInfoView> {
    if holds_key(rows, key) {
        let i = key_index(rows, key);
        rows.update(i, ApiKeyInfoView { status: status, ..rows[i] })
    } else {
        rows
    }
}

/// The entries without `key`.
pub open spec fn key_removed(rows: Seq<ApiKeyInfoView>, key: Seq<char>) -> Seq<ApiKeyInfoView> {
    if holds_key(rows, key) {
        rows.remove(key_index(rows, key))
    } else {
        rows
    }
}

/// The key that a new store holds from the start.
pub open spec fn seed_key(now: i64) -> ApiKeyInfoView {
    ApiKeyInfoView {
        key: "test-key-123"@,
        name: "Test Key"@,
        created_at: now,
        expires_at: None,
        permissions: seq![Permission::Transcribe],
        rate_limit: RateLimit {
            requests_per_minute: 60,
            requests_per_hour: 1000,
            requests_per_day: 10000,
        },
        status: KeyStatus::Active,
    }
}

/// With unique keys, an entry found under a key is the entry that
/// `key_index` names.
pub proof fn lemma_key_index(rows: Seq<ApiKeyInfoView>, i: int)
    requires
        unique_keys(rows),
        0 <= i < rows.len(),
    ensures
        holds_key(rows, rows[i].key),
        key_index(rows, rows[i].key) == i,
        key_lookup(rows, rows[i].key) == Some(rows[i]),
{
    let key = rows[i].key;
    assert(holds_key(rows, key));
    let j = key_index(rows, key);
    if j < i {
        assert(rows[j].key != rows[i].key);
    } else if i < j {
        assert(rows[i].key != rows[j].key);
    }
}

/// API keys held in memory, each filed under its key string.
pub struct InMemoryApiKeyStorage {
    keys: Vec<ApiKeyInfo>,
}

impl View for InMemoryApiKeyStorage {
    type V = Seq<ApiKeyInfoView>;

    closed spec fn view(&self) -> Seq<ApiKeyInfoView> {
        self.keys.deep_view()
    }
}

impl InMemoryApiKeyStorage {
    /// The store's invariant: keys are unique.
    pub open spec fn wf(&self) -> bool {
        unique_keys(self@)
    }

    /// A store that holds the seed key, created at `now`.
    pub fn new_at(now: i64) -> (r: Self)
        ensures
            r@ == seq![seed_key(now)],
            r.wf(),
    {
        let mut permissions: Vec<Permission> = Vec::new();
        permissions.push(Permission::Transcribe);
        let info = ApiKeyInfo {
            key: String::from_str("test-key-123"),
            name: String::from_str("Test Key"),
            created_at: now,
            expires_at: None,
            permissions,
            rate_limit: RateLimit {
                requests_per_minute: 60,
                requests_per_hour: 1000,
                requests_per_day: 10000,
            },
            status: KeyStatus::Active,
        };
        assert(info@.permissions =~= seq![Permission::Transcribe]);
        let mut keys: Vec<ApiKeyInfo> = Vec::new();
        keys.push(info);
        let r = InMemoryApiKeyStorage { keys };
        assert(r@ =~= seq![seed_key(now)]);
        r
    }

    /// A store that holds the seed key, created at the current time.
    pub fn new() -> (r: Self)
        ensures
            exists|now: i64| r@ == seq![seed_key(now)],
            r.wf(),
    {
        let now = now_millis();
        Self::new_at(now)
    }

    fn find(&self, key: &str) -> (r: Option<usize>)
        requires
            self.wf(),
        ensures
            r is Some == holds_key(self@, key@),
            r matches Some(i) ==> i < self.keys.len() && i == key_index(self@, key@)
                && self.keys[i as int]@ == self@[i as int],
    {
        let mut i: usize = 0;
        while i < self.keys.len()
            invariant
                i <= self.keys.len(),
                self.wf(),
                forall|j: int| 0 <= j < i ==> self@[j].key != key@,
            decreases self.keys.len() - i,
        {
            if str_eq(self.keys[i].key.as_str(), key) {
                proof {
                    assert(self@[i as int].key == key@);
                    lemma_key_index(self@, i as int);
                }
                return Some(i);
            }
            i = i + 1;
        }
        None
    }

    /// The entry filed under `api_key`.
    pub fn get_key_info(&self, api_key: &str) -> (r: Option<ApiKeyInfo>)
        requires
            self.wf(),
        ensures
            r.deep_view() == key_lookup(self@, api_key@),
    {
        match self.find(api_key) {
            Some(i) => Some(self.keys[i].clone()),
            None => None,
        }
    }

    /// Files `info` under `api_key`, in place of what was filed there.
    pub fn set_key_info(&mut self, api_key: String, info: ApiKeyInfo)
        requires
            old(self).wf(),
        ensures
            final(self)@ == key_stored(old(self)@, api_key@, info@),
            final(self).wf(),
    {
        let ghost before = self@;
        let ghost filed = ApiKeyInfoView { key: api_key@, ..info@ };
        let found = self.find(api_key.as_str());
        let mut entry = info;
        entry.key = api_key;
        match found {
            Some(i) => {
                self.keys.set(i, entry);
                assert(self@ =~= before.update(i as int, filed));
            },
            None => {
                self.keys.push(entry);
                assert(self@ =~= before.push(filed));
            },
        }
    }

    /// Removes the entry filed under `api_key`.
    pub fn remove_key(&mut self, api_key: &str)
        requires
            old(self).wf(),
        ensures
            final(self)@ == key_removed(old(self)@, api_key@),
            final(self).wf(),
    {
        let ghost before = self@;
        match self.find(api_key) {
            Some(i) => {
                self.keys.remove(i);
                assert(self@ =~= before.remove(i as int));
            },
            None => {},
        }
    }

    /// Every entry, in the order in which the keys were first filed.
    pub fn list_keys(&self) -> (r: Vec<ApiKeyInfo>)
        ensures
            r.deep_view() == self@,
    {
        let mut out: Vec<ApiKeyInfo> = Vec::new();
        let mut i: usize = 0;
        while i < self.keys.len()
            invariant
                i <= self.keys.len(),
                out.len() == i,
                forall|j: int| 0 <= j < i ==> out[j]@ == self.keys[j]@,
            decreases self.keys.len() - i,
        {
            out.push(self.keys[i].clone());
            i = i + 1;
        }
        assert(out.deep_view() =~= self@);
        out
    }

    /// Sets the status of `api_key`. Fails with "API key not found" when no
    /// entry is filed under it.
    pub fn update_key_status(&mut self, api_key: &str, status: KeyStatus) -> (r: Result<(), String>)
        requires
            old(self).wf(),
        ensures
            final(self)@ == key_with_status(old(self)@, api_key@, status),
            final(self).wf(),
            r is Ok == holds_key(old(self)@, api_key@),
            r matches Err(m) ==> m@ == "API key not found"@,
    {
        let ghost before = self@;
        match self.find(api_key) {
            Some(i) => {
                let mut entry = self.keys[i].clone();
                entry.status = status;
                self.keys.set(i, entry);
                assert(self@ =~= before.update(
                    i as int,
                    ApiKeyInfoView { status: status, ..before[i as int] },
                ));
                Ok(())
            },
            None => Err(String::from_str("API key not found")),
        }
    }
}

/// The usage record of one key.
pub struct StatsEntry {
    pub key: String,
    pub stats: ApiKeyStats,
}

/// The mathematical view of a `StatsEntry`: texts are sequences of characters,
/// vectors are sequences.
pub struct StatsEntryView {
    pub key: Seq<char>,
    pub stats: ApiKeyStatsView,
}

impl DeepView for StatsEntry {
    type V = StatsEntryView;

    open spec fn deep_view(&self) -> StatsEntryView {
        StatsEntryView { key: self.key@, stats: self.stats@ }
    }
}

/// Some record is filed under this key.
pub open spec fn holds_stats(rows: Seq<StatsEntryView>, key: Seq<char>) -> bool {
    exists|i: int| 0 <= i < rows.len() && (#[trigger] rows[i]).key == key
}

/// The place of the record of this key, where there is one.
pub open spec fn stats_index(rows: Seq<StatsEntryView>, key: Seq<char>) -> int {
    choose|i: int| 0 <= i < rows.len() && (#[trigger] rows[i]).key == key
}

/// The record of this key.
pub open spec fn stats_lookup(rows: Seq<StatsEntryView>, key: Seq<char>) -> Option<ApiKeyStatsView> {
    if holds_stats(rows, key) {
        Some(rows[stats_index(rows, key)].stats)
    } else {
        None
    }
}

/// The records after `stats` was filed under `key`.
pub open spec fn stats_stored(
    rows: Seq<StatsEntryView>,
    key: Seq<char>,
    stats: ApiKeyStatsView,
) -> Seq<StatsEntryView> {
    let filed = StatsEntryView { key: key, stats: stats };
    if holds_stats(rows, key) {
        rows.update(stats_index(rows, key), filed)
    } else {
        rows.push(filed)
    }
}

/// No key has two records, and every record is well formed.
pub open spec fn stats_wf(rows: Seq<StatsEntryView>) -> bool {
    &&& forall|i: int, j: int| 0 <= i < j < rows.len() ==> rows[i].key != rows[j].key
    &&& forall|i: int| 0 <= i < rows.len() ==> (#[trigger] rows[i]).stats.wf()
}

/// Usage records held in memory, each filed under its key string.
pub struct InMemoryApiKeyStatsStorage {
    stats: Vec<StatsEntry>,
}

impl View for InMemoryApiKeyStatsStorage {
    type V = Seq<StatsEntryView>;

    closed spec fn view(&self) -> Seq<StatsEntryView> {
        self.stats.deep_view()
    }
}

impl InMemoryApiKeyStatsStorage {
    /// The store's invariant.
    pub open spec fn wf(&self) -> bool {
        stats_wf(self@)
    }

    /// A store without records.
    pub fn new() -> (r: Self)
        ensures
            r@ == Seq::<StatsEntryView>::empty(),
            r.wf(),
    {
        let r = InMemoryApiKeyStatsStorage { stats: Vec::new() };
        assert(r@ =~= Seq::<StatsEntryView>::empty());
        r
    }

    fn find(&self, key: &str) -> (r: Option<usize>)
        requires
            self.wf(),
        ensures
            r is Some == holds_stats(self@, key@),
            r matches Some(i) ==> i < self.stats.len() && i == stats_index(self@, key@)
                && self.stats[i as int].deep_view() == self@[i as int],
    {
        let mut i: usize = 0;
        while i < self.stats.len()
            invariant
                i <= self.stats.len(),
                self.wf(),
                forall|j: int| 0 <= j < i ==> self@[j].key != key@,
            decreases self.stats.len() - i,
        {
            if str_eq(self.stats[i].key.as_str(), key) {
                proof {
                    assert(self@[i as int].key == key@);
                    assert(holds_stats(self@, key@));
                    let j = stats_index(self@, key@);
                    if j < i {
                        assert(self@[j].key != self@[i as int].key);
                    } else if i < j {
                        assert(self@[i as int].key != self@[j].key);
                    }
                }
                return Some(i);
            }
            i = i + 1;
        }
        None
    }

    /// The record filed under `api_key`.
    pub fn get_stats(&self, api_key: &str) -> (r: Option<ApiKeyStats>)
        requires
            self.wf(),
        ensures
            r.deep_view() == stats_lookup(self@, api_key@),
            r matches Some(s) ==> s@.wf(),
    {
        match self.find(api_key) {
            Some(i) => {
                assert(self@[i as int].stats.wf());
                Some(self.stats[i].stats.clone())
            },
            None => None,
        }
    }

    /// Files `stats` under `api_key`, in place of what was filed there.
    pub fn update_stats(&mut self, api_key: &str, stats: ApiKeyStats)
        requires
            old(self).wf(),
            stats@.wf(),
        ensures
            final(self)@ == stats_stored(old(self)@, api_key@, stats@),
            final(self).wf(),
    {
        let ghost before = self@;
        let ghost filed = StatsEntryView { key: api_key@, stats: stats@ };
        let entry = StatsEntry { key: String::from_str(api_key), stats };
        match self.find(api_key) {
            Some(i) => {
                self.stats.set(i, entry);
                assert(self@ =~= before.update(i as int, filed));
            },
            None => {
                self.stats.push(entry);
                assert(self@ =~= before.push(filed));
            },
        }
    }
}

} // verus!
