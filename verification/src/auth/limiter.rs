//! One token bucket per API key, refilled continuously to a cap per minute.

use crate::text::str_eq;
use vstd::prelude::*;

verus! {

/// A token bucket of the `governor` crate: a direct, in-memory rate limiter
/// on the system's monotonic clock. Opaque to the verifier.
#[verifier::external_body]
pub struct MinuteLimiter {
    inner: governor::DefaultDirectRateLimiter,
}

/// The number of requests per minute that a bucket was made for.
pub uninterp spec fn limiter_quota(l: MinuteLimiter) -> nat;

impl MinuteLimiter {
    /// Makes a bucket with `governor::RateLimiter::direct` over
    /// `Quota::per_minute`. Trusted: the bucket's quota is `rpm`. A quota of
    /// zero cannot be made.
    #[verifier::external_body]
    pub(crate) fn per_minute(rpm: u32) -> (r: MinuteLimiter)
        requires
            rpm > 0,
        ensures
            limiter_quota(r) == rpm,
    {
        let quota = governor::Quota::per_minute(std::num::NonZeroU32::new(rpm).unwrap());
        MinuteLimiter { inner: governor::RateLimiter::direct(quota) }
    }

    /// Asks the bucket for one token with `RateLimiter::check`. Nothing is
    /// claimed of the answer: it depends on the time and on the tokens taken
    /// before.
    #[verifier::external_body]
    pub(crate) fn check(&self) -> (r: bool) {
        self.inner.check().is_ok()
    }
}

/// The bucket of one key.
pub struct LimiterEntry {
    pub key: String,
    pub limiter: MinuteLimiter,
}

/// The buckets of the keys seen so far, made on first use.
pub struct RateLimiters {
    entries: Vec<LimiterEntry>,
}

impl RateLimiters {
    /// The keys that have a bucket, in the order in which they were first
    /// seen.
    pub closed spec fn keys(&self) -> Seq<Seq<char>> {
        Seq::new(self.entries@.len(), |i: int| self.entries@[i].key@)
    }

    /// The requests per minute that each bucket was made for, in the order
    /// of `keys`.
    pub closed spec fn quotas(&self) -> Seq<nat> {
        Seq::new(self.entries@.len(), |i: int| limiter_quota(self.entries@[i].limiter))
    }

    /// No key has two buckets.
    pub open spec fn wf(&self) -> bool {
        &&& self.quotas().len() == self.keys().len()
        &&& forall|i: int, j: int|
            0 <= i < j < self.keys().len() ==> self.keys()[i] != self.keys()[j]
    }

    /// No buckets yet.
    pub fn new() -> (r: Self)
        ensures
            r.keys() == Seq::<Seq<char>>::empty(),
            r.quotas() == Seq::<nat>::empty(),
            r.wf(),
    {
        let r = RateLimiters { entries: Vec::new() };
        assert(r.keys() =~= Seq::<Seq<char>>::empty());
        assert(r.quotas() =~= Seq::<nat>::empty());
        r
    }

    /// Takes one token from the bucket of `key`, making a bucket of `rpm`
    /// requests per minute when the key has none yet. The answer is the
    /// bucket's; a key seen before keeps the bucket it has, with the quota
    /// that bucket was made for.
    pub fn take_token(&mut self, key: &str, rpm: u32) -> (r: bool)
        requires
            old(self).wf(),
            rpm > 0,
        ensures
            final(self).wf(),
            final(self).keys() == if old(self).keys().contains(key@) {
                old(self).keys()
            } else {
                old(self).keys().push(key@)
            },
            final(self).quotas() == if old(self).keys().contains(key@) {
                old(self).quotas()
            } else {
                old(self).quotas().push(rpm as nat)
            },
    {
        let mut i: usize = 0;
        while i < self.entries.len()
            invariant
                i <= self.entries.len(),
                self.wf(),
                self.entries == old(self).entries,
                forall|j: int| 0 <= j < i ==> self.keys()[j] != key@,
            decreases self.entries.len() - i,
        {
            if str_eq(self.entries[i].key.as_str(), key) {
                assert(self.keys()[i as int] == key@);
                return self.entries[i].limiter.check();
            }
            i = i + 1;
        }
        let ghost before = self.keys();
        let ghost made = self.quotas();
        let limiter = MinuteLimiter::per_minute(rpm);
        let granted = limiter.check();
        self.entries.push(LimiterEntry { key: String::from_str(key), limiter });
        assert(self.keys() =~= before.push(key@));
        assert(self.quotas() =~= made.push(rpm as nat));
        granted
    }
}

} // verus!
