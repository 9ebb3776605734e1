//! Usage recorded for an API key: totals, and a count for each of the last
//! thirty days.

use super::types::{ApiKeyInfo, ApiKeyInfoView};
use crate::clock::{day_index, day_of, now_millis};
use vstd::prelude::*;

verus! {

/// Days of usage that are kept besides the current one.
pub const RETAINED_DAYS: i64 = 30;

/// Requests counted on one UTC day; `day` is the number of the day, counted
/// from the epoch.
#[derive(Debug, Clone, Copy, PartialEq, Eq, Structural)]
pub struct DayCount {
    pub day: i64,
    pub count: u64,
}

/// No day is recorded twice.
pub open spec fn unique_days(days: Seq<DayCount>) -> bool {
    forall|i: int, j: int| 0 <= i < j < days.len() ==> days[i].day != days[j].day
}

/// Some entry records `day`.
pub open spec fn has_day(days: Seq<DayCount>, day: i64) -> bool {
    exists|i: int| 0 <= i < days.len() && (#[trigger] days[i]).day == day
}

/// The place of the entry for `day`, where there is one.
pub open spec fn day_place(days: Seq<DayCount>, day: i64) -> int {
    choose|i: int| 0 <= i < days.len() && (#[trigger] days[i]).day == day
}

/// Requests counted on `day`; zero for a day without an entry.
pub open spec fn count_on(days: Seq<DayCount>, day: i64) -> int {
    if has_day(days, day) {
        days[day_place(days, day)].count as int
    } else {
        0
    }
}

/// The entries after one more request was counted on `day`.
pub open spec fn bumped(days: Seq<DayCount>, day: i64) -> Seq<DayCount> {
    if has_day(days, day) {
        let i = day_place(days, day);
        days.update(i, DayCount { day: day, count: (days[i].count + 1) as u64 })
    } else {
        days.push(DayCount { day: day, count: 1 })
    }
}

/// The entries that are not older than `RETAINED_DAYS` days on the day
/// `today`.
pub open spec fn recent(days: Seq<DayCount>, today: i64) -> Seq<DayCount> {
    days.filter(|d: DayCount| d.day >= today - RETAINED_DAYS)
}

/// The largest count of any day; zero when no day is recorded.
pub open spec fn peak(days: Seq<DayCount>) -> int
    decreases days.len(),
{
    if days.len() == 0 {
        0
    } else if days.last().count >= peak(days.drop_last()) {
        days.last().count as int
    } else {
        peak(days.drop_last())
    }
}

/// The peak is at least every day's count, and some day reaches it unless no
/// day is recorded.
pub proof fn lemma_peak(days: Seq<DayCount>)
    ensures
        forall|i: int| 0 <= i < days.len() ==> (#[trigger] days[i]).count <= peak(days),
        days.len() == 0 ==> peak(days) == 0,
        days.len() > 0 ==> exists|i: int| 0 <= i < days.len() && (#[trigger] days[i]).count == peak(days),
    decreases days.len(),
{
    if days.len() > 0 {
        let rest = days.drop_last();
        lemma_peak(rest);
        assert forall|i: int| 0 <= i < days.len() implies (#[trigger] days[i]).count <= peak(
            days,
        ) by {
            if i < rest.len() {
                assert(rest[i] == days[i]);
            }
        }
        if days.last().count >= peak(rest) {
            assert(days[days.len() - 1].count == peak(days));
        } else {
            let i = choose|i: int| 0 <= i < rest.len() && (#[trigger] rest[i]).count == peak(rest);
            assert(days[i] == rest[i]);
        }
    }
}

/// Usage recorded for one key.
#[derive(Debug, PartialEq, Eq)]
pub struct ApiKeyStats {
    pub total_requests: u64,
    pub requests_today: u64,
    pub last_used_at: i64,
    pub requests_per_day: Vec<DayCount>,
}

/// The mathematical view of an `ApiKeyStats`: texts are sequences of characters,
/// vectors are sequences.
pub struct ApiKeyStatsView {
    pub total_requests: u64,
    pub requests_today: u64,
    pub last_used_at: i64,
    pub requests_per_day: Seq<DayCount>,
}

impl ApiKeyStatsView {
    /// The record maps days to counts: no day is recorded twice.
    pub open spec fn wf(self) -> bool {
        unique_days(self.requests_per_day)
    }

    /// One more request at `now` can be counted: neither the total nor the
    /// count of the day is at the end of the machine word.
    pub open spec fn countable_at(self, now: i64) -> bool {
        &&& self.total_requests < u64::MAX
        &&& count_on(self.requests_per_day, day_of(now as int) as i64) < u64::MAX
    }

    /// Nothing recorded yet, as of `now`.
    pub open spec fn fresh(now: i64) -> ApiKeyStatsView {
        ApiKeyStatsView {
            total_requests: 0,
            requests_today: 0,
            last_used_at: now,
            requests_per_day: Seq::empty(),
        }
    }

    /// The record after one more request at `now`: the total and the count of
    /// the day of `now` grow by one, the day's count is the count of today,
    /// and days older than thirty days are dropped.
    pub open spec fn after_request(self, now: i64) -> ApiKeyStatsView {
        let today = day_of(now as int) as i64;
        let days = bumped(self.requests_per_day, today);
        ApiKeyStatsView {
            total_requests: (self.total_requests + 1) as u64,
            requests_today: count_on(days, today) as u64,
            last_used_at: now,
            requests_per_day: recent(days, today),
        }
    }
}

impl DeepView for ApiKeyStats {
    type V = ApiKeyStatsView;

    open spec fn deep_view(&self) -> ApiKeyStatsView {
        ApiKeyStatsView {
            total_requests: self.total_requests,
            requests_today: self.requests_today,
            last_used_at: self.last_used_at,
            requests_per_day: self.requests_per_day@,
        }
    }
}

impl View for ApiKeyStats {
    type V = ApiKeyStatsView;

    open spec fn view(&self) -> ApiKeyStatsView {
        self.deep_view()
    }
}

impl Clone for ApiKeyStats {
    fn clone(&self) -> (r: Self)
        ensures
            r@ == self@,
    {
        let mut days: Vec<DayCount> = Vec::new();
        let mut i: usize = 0;
        while i < self.requests_per_day.len()
            invariant
                i <= self.requests_per_day.len(),
                days@ == self.requests_per_day@.subrange(0, i as int),
            decreases self.requests_per_day.len() - i,
        {
            days.push(self.requests_per_day[i]);
            i = i + 1;
        }
        assert(days@ =~= self.requests_per_day@);
        ApiKeyStats {
            total_requests: self.total_requests,
            requests_today: self.requests_today,
            last_used_at: self.last_used_at,
            requests_per_day: days,
        }
    }
}

impl ApiKeyStats {
    /// An empty record, last used at `now`.
    pub fn new_at(now: i64) -> (r: Self)
        ensures
            r@ == ApiKeyStatsView::fresh(now),
            r@.wf(),
    {
        ApiKeyStats {
            total_requests: 0,
            requests_today: 0,
            last_used_at: now,
            requests_per_day: Vec::new(),
        }
    }

    /// An empty record, last used at the current time, whatever the clock
    /// reads.
    pub fn new() -> (r: Self)
        ensures
            exists|now: i64| r@ == ApiKeyStatsView::fresh(now),
            r@.wf(),
    {
        let now = now_millis();
        Self::new_at(now)
    }

    /// Requests counted on `day`.
    pub fn requests_on(&self, day: i64) -> (r: u64)
        requires
            self@.wf(),
        ensures
            r == count_on(self@.requests_per_day, day),
    {
        let mut i: usize = 0;
        while i < self.requests_per_day.len()
            invariant
                i <= self.requests_per_day.len(),
                self@.wf(),
                forall|j: int| 0 <= j < i ==> self.requests_per_day@[j].day != day,
            decreases self.requests_per_day.len() - i,
        {
            if self.requests_per_day[i].day == day {
                proof {
                    let days = self.requests_per_day@;
                    assert(has_day(days, day));
                    let q = day_place(days, day);
                    if q < i {
                        assert(days[q].day != days[i as int].day);
                    } else if i < q {
                        assert(days[i as int].day != days[q].day);
                    }
                }
                return self.requests_per_day[i].count;
            }
            i = i + 1;
        }
        0
    }

    /// Whether one more request at `now` can be counted.
    pub fn can_count_at(&self, now: i64) -> (r: bool)
        requires
            self@.wf(),
        ensures
            r == self@.countable_at(now),
    {
        self.total_requests < u64::MAX && self.requests_on(day_index(now)) < u64::MAX
    }

    /// Counts one request made at `now`.
    pub fn update_at(&mut self, now: i64)
        requires
            old(self)@.wf(),
            old(self)@.countable_at(now),
        ensures
            final(self)@ == old(self)@.after_request(now),
            final(self)@.wf(),
    {
        let today = day_index(now);
        let ghost before = self.requests_per_day@;
        self.total_requests = self.total_requests + 1;
        self.last_used_at = now;
        // Count the request on its day.
        let mut i: usize = 0;
        let mut found: Option<usize> = None;
        while i < self.requests_per_day.len()
            invariant_except_break
                found is None,
                forall|j: int| 0 <= j < i ==> before[j].day != today,
            invariant
                i <= self.requests_per_day.len(),
                self.requests_per_day@ == before,
            ensures
                self.requests_per_day@ == before,
                found matches Some(p) ==> p < before.len() && before[p as int].day == today,
                found is None ==> forall|j: int| 0 <= j < before.len() ==> before[j].day != today,
            decreases self.requests_per_day.len() - i,
        {
            if self.requests_per_day[i].day == today {
                found = Some(i);
                break ;
            }
            i = i + 1;
        }
        match found {
            Some(p) => {
                proof {
                    assert(has_day(before, today));
                    let q = day_place(before, today);
                    assert(q == p) by {
                        if q < p {
                            assert(before[q].day != before[p as int].day);
                        } else if p < q {
                            assert(before[p as int].day != before[q].day);
                        }
                    }
                }
                let count = self.requests_per_day[p].count + 1;
                self.requests_per_day.set(p, DayCount { day: today, count });
                self.requests_today = count;
            },
            None => {
                assert(!has_day(before, today));
                self.requests_per_day.push(DayCount { day: today, count: 1 });
                self.requests_today = 1;
            },
        }
        let ghost counted = self.requests_per_day@;
        proof {
            assert(counted == bumped(before, today));
            assert(unique_days(counted));
            let at = if found is Some { found.unwrap() as int } else { before.len() as int };
            assert(counted[at].day == today);
            assert(has_day(counted, today));
            let q = day_place(counted, today);
            if q < at {
                assert(counted[q].day != counted[at].day);
            } else if at < q {
                assert(counted[at].day != counted[q].day);
            }
            assert(count_on(counted, today) == self.requests_today);
        }
        // Drop the days that are too old.
        let mut k: usize = 0;
        proof {
            reveal(Seq::filter);
            assert(counted.subrange(0, 0) =~= Seq::<DayCount>::empty());
            assert(self.requests_per_day@.subrange(0, 0) =~= recent(counted.subrange(0, 0), today));
        }
        let ghost mut dropped: int = 0;
        while k < self.requests_per_day.len()
            invariant
                k <= self.requests_per_day.len(),
                dropped >= 0,
                self.requests_per_day@.len() + dropped == counted.len(),
                self.requests_per_day@.subrange(0, k as int) == recent(
                    counted.subrange(0, k + dropped),
                    today,
                ),
                forall|j: int|
                    k <= j < self.requests_per_day@.len() ==> #[trigger] self.requests_per_day@[j]
                        == counted[j + dropped],
                unique_days(self.requests_per_day@),
                self.total_requests == old(self).total_requests + 1,
                self.last_used_at == now,
                self.requests_today == count_on(counted, today),
            decreases self.requests_per_day.len() - k,
        {
            let ghost cur = self.requests_per_day@;
            let ghost seen = counted.subrange(0, k + dropped);
            proof {
                assert(cur[k as int] == counted[k + dropped]);
                assert(counted.subrange(0, k + dropped + 1) =~= seen.push(counted[k + dropped]));
                seen.lemma_filter_push(
                    counted[k + dropped],
                    |d: DayCount| d.day >= today - RETAINED_DAYS,
                );
            }
            let entry = self.requests_per_day[k];
            if (entry.day as i128) < (today as i128) - (RETAINED_DAYS as i128) {
                self.requests_per_day.remove(k);
                proof {
                    dropped = dropped + 1;
                    assert(self.requests_per_day@ =~= cur.remove(k as int));
                    assert(self.requests_per_day@.subrange(0, k as int) =~= cur.subrange(
                        0,
                        k as int,
                    ));
                    assert forall|j: int|
                        k <= j < self.requests_per_day@.len() implies #[trigger] self.requests_per_day@[j]
                        == counted[j + dropped] by {
                        assert(self.requests_per_day@[j] == cur[j + 1]);
                    }
                    assert forall|i: int, j: int|
                        0 <= i < j < self.requests_per_day@.len() implies self.requests_per_day@[i].day
                        != self.requests_per_day@[j].day by {
                        let a = if i < k { i } else { i + 1 };
                        let b = if j < k { j } else { j + 1 };
                        assert(cur[a].day != cur[b].day);
                    }
                }
            } else {
                k = k + 1;
                proof {
                    assert(self.requests_per_day@.subrange(0, k as int) =~= cur.subrange(
                        0,
                        k - 1,
                    ).push(cur[k - 1]));
                }
            }
        }
        proof {
            assert(self.requests_per_day@.subrange(0, k as int) =~= self.requests_per_day@);
            assert(counted.subrange(0, k + dropped) =~= counted);
        }
    }

    /// Counts one request made now. Whatever the clock reads, the record is
    /// updated as `update_at` does for that reading.
    pub fn update(&mut self)
        requires
            old(self)@.wf(),
            forall|now: i64| old(self)@.countable_at(now),
        ensures
            exists|now: i64| final(self)@ == old(self)@.after_request(now),
            final(self)@.wf(),
    {
        let now = now_millis();
        self.update_at(now);
    }

    /// The largest count of any recorded day.
    pub fn peak_daily_requests(&self) -> (r: u64)
        ensures
            r == peak(self@.requests_per_day),
    {
        let mut best: u64 = 0;
        let mut i: usize = 0;
        while i < self.requests_per_day.len()
            invariant
                i <= self.requests_per_day.len(),
                best == peak(self.requests_per_day@.subrange(0, i as int)),
            decreases self.requests_per_day.len() - i,
        {
            proof {
                let next = self.requests_per_day@.subrange(0, i + 1);
                assert(next.drop_last() =~= self.requests_per_day@.subrange(0, i as int));
                assert(next.last() == self.requests_per_day@[i as int]);
            }
            if self.requests_per_day[i].count >= best {
                best = self.requests_per_day[i].count;
            }
            i = i + 1;
        }
        assert(self.requests_per_day@.subrange(0, i as int) =~= self.requests_per_day@);
        best
    }
}

/// Requests per day averaged over thirty days, as a whole part and
/// thirtieths.
#[derive(Debug, Clone, Copy, PartialEq, Eq, Structural)]
pub struct DailyAverage {
    pub whole: u64,
    pub thirtieths: u64,
}

impl DailyAverage {
    /// Thirty times the average.
    pub open spec fn times_thirty(self) -> int {
        self.whole * 30 + self.thirtieths
    }

    /// The average of `total` requests over thirty days.
    pub fn of_total(total: u64) -> (r: Self)
        ensures
            r.times_thirty() == total,
            r.thirtieths < 30,
    {
        DailyAverage { whole: total / 30, thirtieths: total % 30 }
    }
}

/// The figures of a usage report. `days_until_expiry` is -1 for a key that
/// does not expire.
#[derive(Debug, Clone, Copy, PartialEq, Eq, Structural)]
pub struct UsageSummary {
    pub average_daily_requests: DailyAverage,
    pub peak_daily_requests: u64,
    pub days_until_expiry: i64,
}

/// A key, its usage, and the figures drawn from both.
#[derive(Debug, PartialEq, Eq)]
pub struct ApiKeyUsageReport {
    pub key_info: ApiKeyInfo,
    pub stats: ApiKeyStats,
    pub usage_summary: UsageSummary,
}

/// The mathematical view of an `ApiKeyUsageReport`: texts are sequences of characters,
/// vectors are sequences.
pub struct ApiKeyUsageReportView {
    pub key_info: ApiKeyInfoView,
    pub stats: ApiKeyStatsView,
    pub usage_summary: UsageSummary,
}

impl DeepView for ApiKeyUsageReport {
    type V = ApiKeyUsageReportView;

    open spec fn deep_view(&self) -> ApiKeyUsageReportView {
        ApiKeyUsageReportView {
            key_info: self.key_info@,
            stats: self.stats@,
            usage_summary: self.usage_summary,
        }
    }
}

impl View for ApiKeyUsageReport {
    type V = ApiKeyUsageReportView;

    open spec fn view(&self) -> ApiKeyUsageReportView {
        self.deep_view()
    }
}

} // verus!
