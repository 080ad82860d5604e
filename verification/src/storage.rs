//! How long data is kept.
use vstd::prelude::*;

verus! {

/// For how many days each kind of data is kept.
#[derive(Debug, Clone, Copy)]
pub struct RetentionPolicy {
    pub incident_days: u64,
    pub delivery_ledger_days: u64,
    pub operation_days: u64,
}

/// What was removed.
#[derive(Debug, Clone, Copy, Default, PartialEq, Eq)]
pub struct PruneStats {
    pub incidents: usize,
    pub delivery_records: usize,
    pub events: usize,
}

/// What waits to be processed.
#[derive(Debug, Clone, Copy, Default, PartialEq, Eq)]
pub struct BacklogCounts {
    pub inbox: usize,
    pub match_jobs: usize,
    pub delivery_batches: usize,
    pub retries: usize,
}

impl PruneStats {
    /// How much was removed in all, as far as the number reaches.
    #[must_use]
    pub fn total(self) -> (r: usize)
        ensures
            r == (if self.incidents + self.delivery_records + self.events > usize::MAX {
                usize::MAX as int
            } else {
                self.incidents + self.delivery_records + self.events
            }),
    {
        self.incidents.saturating_add(self.delivery_records).saturating_add(self.events)
    }
}

/// What waits to be processed, as it is shown.
#[derive(Debug, Clone, Copy, Default, PartialEq, Eq)]
pub struct DurableBacklogSnapshot {
    pub inbox_pending: usize,
    pub match_jobs_pending: usize,
    pub delivery_batches_pending: usize,
    pub retries_pending: usize,
    pub subscription_confirmations_pending: usize,
}

/// What waits to be processed, with the subscriptions that wait for their confirmation.
pub fn durable_backlog(backlog: BacklogCounts, confirmations: usize) -> (r: DurableBacklogSnapshot)
    ensures
        r.inbox_pending == backlog.inbox,
        r.match_jobs_pending == backlog.match_jobs,
        r.delivery_batches_pending == backlog.delivery_batches,
        r.retries_pending == backlog.retries,
        r.subscription_confirmations_pending == confirmations,
{
    DurableBacklogSnapshot {
        inbox_pending: backlog.inbox,
        match_jobs_pending: backlog.match_jobs,
        delivery_batches_pending: backlog.delivery_batches,
        retries_pending: backlog.retries,
        subscription_confirmations_pending: confirmations,
    }
}

/// So many days in milliseconds, as far as the number reaches.
pub open spec fn day_millis(days: u64) -> int {
    if days * 86400000 > i64::MAX {
        i64::MAX as int
    } else {
        days * 86400000
    }
}

pub fn days_ms(days: u64) -> (r: i64)
    ensures
        r == day_millis(days),
{
    if days > 106751991167 {
        i64::MAX
    } else {
        (days * 86400000) as i64
    }
}

/// A difference, as far as the number reaches.
pub open spec fn saturating_difference(a: i64, b: i64) -> int {
    if a - b < i64::MIN {
        i64::MIN as int
    } else if a - b > i64::MAX {
        i64::MAX as int
    } else {
        a - b
    }
}

fn saturating_sub(a: i64, b: i64) -> (r: i64)
    ensures
        r == saturating_difference(a, b),
{
    let exact: i128 = a as i128 - b as i128;
    if exact < i64::MIN as i128 {
        i64::MIN
    } else if exact > i64::MAX as i128 {
        i64::MAX
    } else {
        exact as i64
    }
}

/// The moments before which each kind of data is removed.
#[derive(Debug, Clone, Copy, PartialEq, Eq)]
pub struct RetentionCutoffs {
    pub incidents_before_ms: i64,
    pub deliveries_before_ms: i64,
    pub operations_before_ms: i64,
}

/// The moments before which each kind of data is removed.
pub fn retention_cutoffs(now_ms: i64, policy: RetentionPolicy) -> (r: RetentionCutoffs)
    ensures
        r.incidents_before_ms == saturating_difference(
            now_ms,
            day_millis(policy.incident_days) as i64,
        ),
        r.deliveries_before_ms == saturating_difference(
            now_ms,
            day_millis(policy.delivery_ledger_days) as i64,
        ),
        r.operations_before_ms == saturating_difference(
            now_ms,
            day_millis(policy.operation_days) as i64,
        ),
{
    RetentionCutoffs {
        incidents_before_ms: saturating_sub(now_ms, days_ms(policy.incident_days)),
        deliveries_before_ms: saturating_sub(now_ms, days_ms(policy.delivery_ledger_days)),
        operations_before_ms: saturating_sub(now_ms, days_ms(policy.operation_days)),
    }
}

/// Data that is kept longer is never removed earlier, and none is removed that is newer than now.
pub proof fn law_longer_retention_removes_less(now_ms: i64, fewer: u64, more: u64)
    requires
        fewer <= more,
    ensures
        saturating_difference(now_ms, day_millis(more) as i64) <= saturating_difference(
            now_ms,
            day_millis(fewer) as i64,
        ) <= now_ms,
{
}

/// What waits is shown as it was counted, each kind under its own name.
pub proof fn law_backlog_is_shown_as_counted(
    backlog: BacklogCounts,
    confirmations: usize,
    r: DurableBacklogSnapshot,
)
    requires
        call_ensures(durable_backlog, (backlog, confirmations), r),
    ensures
        r.inbox_pending == backlog.inbox,
        r.match_jobs_pending == backlog.match_jobs,
        r.delivery_batches_pending == backlog.delivery_batches,
        r.retries_pending == backlog.retries,
        r.subscription_confirmations_pending == confirmations,
{
}

/// What was removed in all is the sum of what was removed of each kind.
pub proof fn law_all_removals_count(stats: PruneStats, r: usize)
    requires
        call_ensures(PruneStats::total, (stats,), r),
    ensures
        stats.incidents + stats.delivery_records + stats.events <= usize::MAX ==> r
            == stats.incidents + stats.delivery_records + stats.events,
        stats.incidents + stats.delivery_records + stats.events > usize::MAX ==> r == usize::MAX,
        stats.incidents <= r,
        stats.delivery_records <= r,
        stats.events <= r,
{
}

/// A day has 24 hours of 60 minutes of 60 seconds of 1000 milliseconds, as far as the number reaches.
pub proof fn law_days_in_milliseconds(days: u64, r: i64)
    requires
        call_ensures(days_ms, (days,), r),
    ensures
        days * 24 * 60 * 60 * 1000 <= i64::MAX ==> r == days * 24 * 60 * 60 * 1000,
        days * 24 * 60 * 60 * 1000 > i64::MAX ==> r == i64::MAX,
{
}

/// Each kind of data is kept for as many days as the policy says for that kind, as far as the numbers
/// reach.
pub proof fn law_each_kind_is_kept_as_long_as_its_policy(
    now_ms: i64,
    policy: RetentionPolicy,
    r: RetentionCutoffs,
    incidents: i64,
    deliveries: i64,
    operations: i64,
)
    requires
        call_ensures(retention_cutoffs, (now_ms, policy), r),
        call_ensures(days_ms, (policy.incident_days,), incidents),
        call_ensures(days_ms, (policy.delivery_ledger_days,), deliveries),
        call_ensures(days_ms, (policy.operation_days,), operations),
    ensures
        now_ms - incidents >= i64::MIN ==> r.incidents_before_ms == now_ms - incidents,
        now_ms - incidents < i64::MIN ==> r.incidents_before_ms == i64::MIN,
        now_ms - deliveries >= i64::MIN ==> r.deliveries_before_ms == now_ms - deliveries,
        now_ms - deliveries < i64::MIN ==> r.deliveries_before_ms == i64::MIN,
        now_ms - operations >= i64::MIN ==> r.operations_before_ms == now_ms - operations,
        now_ms - operations < i64::MIN ==> r.operations_before_ms == i64::MIN,
{
}

} // verus!
