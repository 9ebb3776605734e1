use vstd::prelude::*;
use vstd::string::*;

verus! {

/// What a key may be used for.
#[derive(Debug, Clone, Copy, PartialEq, Eq, Structural)]
pub enum Permission {
    Transcribe,
    SpeakerDiarization,
    EmotionRecognition,
    Admin,
}

/// The request caps of a key. Only the cap per minute is enforced.
#[derive(Debug, Clone, Copy, PartialEq, Eq, Structural)]
pub struct RateLimit {
    pub requests_per_minute: u32,
    pub requests_per_hour: u32,
    pub requests_per_day: u32,
}

impl Default for RateLimit {
    fn default() -> (r: Self)
        ensures
            r == (RateLimit { requests_per_minute: 0, requests_per_hour: 0, requests_per_day: 0 }),
    {
        RateLimit { requests_per_minute: 0, requests_per_hour: 0, requests_per_day: 0 }
    }
}

/// Whether a key is in use.
#[derive(Debug, Clone, Copy, PartialEq, Eq, Structural)]
pub enum KeyStatus {
    Active,
    Suspended,
    Expired,
}

impl Default for KeyStatus {
    fn default() -> (r: Self)
        ensures
            r == KeyStatus::Expired,
    {
        KeyStatus::Expired
    }
}

/// An API key and what it grants. Times are milliseconds since the Unix
/// epoch.
#[derive(Debug, PartialEq, Eq)]
pub struct ApiKeyInfo {
    pub key: String,
    pub name: String,
    pub created_at: i64,
    pub expires_at: Option<i64>,
    pub permissions: Vec<Permission>,
    pub rate_limit: RateLimit,
    pub status: KeyStatus,
}

/// The mathematical view of an `ApiKeyInfo`: texts are sequences of characters,
/// vectors are sequences.
pub struct ApiKeyInfoView {
    pub key: Seq<char>,
    pub name: Seq<char>,
    pub created_at: i64,
    pub expires_at: Option<i64>,
    pub permissions: Seq<Permission>,
    pub rate_limit: RateLimit,
    pub status: KeyStatus,
}

impl ApiKeyInfoView {
    /// The key's time has run out at `now`: it has an expiry that lies
    /// before `now`.
    pub open spec fn lapsed_at(self, now: i64) -> bool {
        self.expires_at matches Some(e) && e < now
    }
}

impl DeepView for ApiKeyInfo {
    type V = ApiKeyInfoView;

    open spec fn deep_view(&self) -> ApiKeyInfoView {
        ApiKeyInfoView {
            key: self.key@,
            name: self.name@,
            created_at: self.created_at,
            expires_at: self.expires_at,
            permissions: self.permissions@,
            rate_limit: self.rate_limit,
            status: self.status,
        }
    }
}

impl View for ApiKeyInfo {
    type V = ApiKeyInfoView;

    open spec fn view(&self) -> ApiKeyInfoView {
        self.deep_view()
    }
}

impl Clone for ApiKeyInfo {
    fn clone(&self) -> (r: Self)
        ensures
            r@ == self@,
    {
        let mut permissions: Vec<Permission> = Vec::new();
        let mut i: usize = 0;
        while i < self.permissions.len()
            invariant
                i <= self.permissions.len(),
                permissions@ == self.permissions@.subrange(0, i as int),
            decreases self.permissions.len() - i,
        {
            permissions.push(self.permissions[i]);
            i = i + 1;
        }
        assert(permissions@ =~= self.permissions@);
        ApiKeyInfo {
            key: self.key.clone(),
            name: self.name.clone(),
            created_at: self.created_at,
            expires_at: self.expires_at,
            permissions,
            rate_limit: self.rate_limit,
            status: self.status,
        }
    }
}

impl Default for ApiKeyInfo {
    /// A nameless key that grants nothing and is already expired.
    fn default() -> (r: Self)
        ensures
            r@ == (ApiKeyInfoView {
                key: Seq::empty(),
                name: Seq::empty(),
                created_at: 0,
                expires_at: None,
                permissions: Seq::empty(),
                rate_limit: RateLimit {
                    requests_per_minute: 0,
                    requests_per_hour: 0,
                    requests_per_day: 0,
                },
                status: KeyStatus::Expired,
            }),
    {
        ApiKeyInfo {
            key: String::new(),
            name: String::new(),
            created_at: 0,
            expires_at: None,
            permissions: Vec::new(),
            rate_limit: RateLimit { requests_per_minute: 0, requests_per_hour: 0, requests_per_day: 0 },
            status: KeyStatus::Expired,
        }
    }
}

impl ApiKeyInfo {
    /// Whether the key grants `permission`.
    pub fn allows(&self, permission: Permission) -> (r: bool)
        ensures
            r == self@.permissions.contains(permission),
    {
        let mut i: usize = 0;
        while i < self.permissions.len()
            invariant
                i <= self.permissions.len(),
                forall|j: int| 0 <= j < i ==> self.permissions@[j] != permission,
            decreases self.permissions.len() - i,
        {
            if self.permissions[i] == permission {
                return true;
            }
            i = i + 1;
        }
        false
    }
}

} // verus!
