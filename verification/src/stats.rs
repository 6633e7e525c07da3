//! The statistics that clients read, and the operations on them.

use vstd::prelude::*;

use crate::catalog::DurableCatalogStore;
use crate::errors;
use crate::errors::{PwbError, PwbErrorView, PwbResult};
use crate::guc::GucSettings;
use crate::privileges::{require, InvokingUser, PrivilegeGate};
use crate::profile;
use crate::profile_store::delete_profiles_with;
use crate::seqs;
use crate::shmem;
use crate::shmem::profiles;
use crate::shmem::records::{
    BudgetBucketSnapshot, PwbCounters, QueryProfileSnapshot, RecentDecisionRecord,
};
use crate::shmem::{SharedMemory, SharedMemoryView};
use crate::types::{EpochMillis, WalBytes};

verus! {

/// The counters as clients read them.
#[derive(Debug, Clone, Copy, PartialEq, Eq)]
pub struct CountersRow {
    pub accepted_statements: i64,
    pub rejected_statements: i64,
    pub shadow_would_reject_count: i64,
    pub predicted_wal_bytes: i64,
    pub actual_wal_bytes: i64,
    pub absolute_prediction_error: i64,
    pub scope_debt_bytes: i64,
    pub missing_actual_wal_count: i64,
    pub internal_fail_open_count: i64,
    pub aborted_after_charge_count: i64,
}

/// A bucket as clients read it.
#[derive(Debug, Clone, Copy, PartialEq, Eq)]
pub struct ScopeStatsRow {
    pub policy_id: i32,
    pub scope_hash: i64,
    pub available_bytes: i64,
    pub max_burst_bytes: i64,
    pub rate_bytes_per_sec: i64,
    pub debt_bytes: i64,
    pub last_refill_epoch_ms: i64,
}

/// A query profile as clients read it.
#[derive(Debug, Clone, Copy, PartialEq, Eq)]
pub struct QueryProfileRow {
    pub scope_hash: Option<i64>,
    pub query_id: i64,
    pub calls: i64,
    pub ewma_wal_bytes: i64,
    pub max_wal_bytes: i64,
    pub last_seen_epoch_ms: i64,
    pub is_global: bool,
}

/// A decision as clients read it.
#[derive(Debug, Clone, Copy, PartialEq, Eq)]
pub struct RecentDecisionRow {
    pub timestamp_epoch_ms: i64,
    pub decision_kind: &'static str,
    pub policy_id: Option<i32>,
    pub scope_kind: &'static str,
    pub scope_hash: i64,
    pub query_id: Option<i64>,
    pub statement_class: &'static str,
    pub predicted_wal_bytes: i64,
    pub actual_wal_bytes: Option<i64>,
    pub available_before: i64,
    pub available_after: i64,
    pub reason_code: &'static str,
}

/// A number as an SQL bigint, cut off at the largest one.
pub open spec fn bigint(value: u64) -> i64 {
    if value > i64::MAX {
        i64::MAX
    } else {
        value as i64
    }
}

/// An optional number as an SQL bigint.
pub open spec fn opt_bigint(value: Option<u64>) -> Option<i64> {
    match value {
        Some(value) => Some(bigint(value)),
        None => None,
    }
}

pub fn u64_to_i64_saturating(value: u64) -> (r: i64)
    ensures
        r == bigint(value),
{
    if value > i64::MAX as u64 {
        i64::MAX
    } else {
        value as i64
    }
}

pub fn wal_bytes_to_i64_saturating(value: WalBytes) -> (r: i64)
    ensures
        r == bigint(value),
{
    u64_to_i64_saturating(value)
}

fn optional_to_i64_saturating(value: Option<u64>) -> (r: Option<i64>)
    ensures
        r == opt_bigint(value),
{
    match value {
        Some(value) => Some(u64_to_i64_saturating(value)),
        None => None,
    }
}

pub fn counters_row(counters: PwbCounters) -> (r: CountersRow)
    ensures
        r == (CountersRow {
            accepted_statements: bigint(counters.accepted_statements),
            rejected_statements: bigint(counters.rejected_statements),
            shadow_would_reject_count: bigint(counters.shadow_would_reject_count),
            predicted_wal_bytes: bigint(counters.predicted_wal_bytes),
            actual_wal_bytes: bigint(counters.actual_wal_bytes),
            absolute_prediction_error: bigint(counters.absolute_prediction_error),
            scope_debt_bytes: bigint(counters.scope_debt_bytes),
            missing_actual_wal_count: bigint(counters.missing_actual_wal_count),
            internal_fail_open_count: bigint(counters.internal_fail_open_count),
            aborted_after_charge_count: bigint(counters.aborted_after_charge_count),
        }),
{
    CountersRow {
        accepted_statements: u64_to_i64_saturating(counters.accepted_statements),
        rejected_statements: u64_to_i64_saturating(counters.rejected_statements),
        shadow_would_reject_count: u64_to_i64_saturating(counters.shadow_would_reject_count),
        predicted_wal_bytes: u64_to_i64_saturating(counters.predicted_wal_bytes),
        actual_wal_bytes: u64_to_i64_saturating(counters.actual_wal_bytes),
        absolute_prediction_error: u64_to_i64_saturating(counters.absolute_prediction_error),
        scope_debt_bytes: u64_to_i64_saturating(counters.scope_debt_bytes),
        missing_actual_wal_count: u64_to_i64_saturating(counters.missing_actual_wal_count),
        internal_fail_open_count: u64_to_i64_saturating(counters.internal_fail_open_count),
        aborted_after_charge_count: u64_to_i64_saturating(counters.aborted_after_charge_count),
    }
}

pub fn scope_stats_row(bucket: BudgetBucketSnapshot) -> (r: ScopeStatsRow)
    ensures
        r == (ScopeStatsRow {
            policy_id: bucket.policy_id,
            scope_hash: bigint(bucket.scope_hash),
            available_bytes: bigint(bucket.available_bytes),
            max_burst_bytes: bigint(bucket.max_burst_bytes),
            rate_bytes_per_sec: bigint(bucket.rate_bytes_per_sec),
            debt_bytes: bigint(bucket.debt_bytes),
            last_refill_epoch_ms: bigint(bucket.last_refill_epoch_ms),
        }),
{
    ScopeStatsRow {
        policy_id: bucket.policy_id,
        scope_hash: u64_to_i64_saturating(bucket.scope_hash),
        available_bytes: wal_bytes_to_i64_saturating(bucket.available_bytes),
        max_burst_bytes: wal_bytes_to_i64_saturating(bucket.max_burst_bytes),
        rate_bytes_per_sec: wal_bytes_to_i64_saturating(bucket.rate_bytes_per_sec),
        debt_bytes: wal_bytes_to_i64_saturating(bucket.debt_bytes),
        last_refill_epoch_ms: u64_to_i64_saturating(bucket.last_refill_epoch_ms),
    }
}

pub fn query_profile_row(snapshot: QueryProfileSnapshot) -> (r: QueryProfileRow)
    ensures
        r == (QueryProfileRow {
            scope_hash: opt_bigint(snapshot.scope_hash),
            query_id: bigint(snapshot.query_id),
            calls: bigint(snapshot.profile.calls),
            ewma_wal_bytes: bigint(snapshot.profile.ewma_wal_bytes),
            max_wal_bytes: bigint(snapshot.profile.max_wal_bytes),
            last_seen_epoch_ms: bigint(snapshot.profile.last_seen_epoch_ms),
            is_global: snapshot.scope_hash is None,
        }),
{
    QueryProfileRow {
        scope_hash: optional_to_i64_saturating(snapshot.scope_hash),
        query_id: u64_to_i64_saturating(snapshot.query_id),
        calls: u64_to_i64_saturating(snapshot.profile.calls),
        ewma_wal_bytes: wal_bytes_to_i64_saturating(snapshot.profile.ewma_wal_bytes),
        max_wal_bytes: wal_bytes_to_i64_saturating(snapshot.profile.max_wal_bytes),
        last_seen_epoch_ms: u64_to_i64_saturating(snapshot.profile.last_seen_epoch_ms),
        is_global: snapshot.scope_hash.is_none(),
    }
}

pub fn recent_decision_row(record: RecentDecisionRecord) -> (r: RecentDecisionRow)
    ensures
        r.timestamp_epoch_ms == bigint(record.timestamp_epoch_ms),
        r.decision_kind@ == record.decision_kind.sql_name(),
        r.policy_id == record.policy_id,
        r.scope_kind@ == record.scope_kind.sql_name(),
        r.scope_hash == bigint(record.scope_hash),
        r.query_id == opt_bigint(record.query_id),
        r.statement_class@ == record.statement_class.sql_name(),
        r.predicted_wal_bytes == bigint(record.predicted_wal_bytes),
        r.actual_wal_bytes == opt_bigint(record.actual_wal_bytes),
        r.available_before == bigint(record.available_before),
        r.available_after == bigint(record.available_after),
        r.reason_code@ == record.reason_code.sql_name(),
{
    RecentDecisionRow {
        timestamp_epoch_ms: u64_to_i64_saturating(record.timestamp_epoch_ms),
        decision_kind: record.decision_kind.as_sql_str(),
        policy_id: record.policy_id,
        scope_kind: record.scope_kind.as_sql_str(),
        scope_hash: u64_to_i64_saturating(record.scope_hash),
        query_id: optional_to_i64_saturating(record.query_id),
        statement_class: record.statement_class.as_sql_str(),
        predicted_wal_bytes: wal_bytes_to_i64_saturating(record.predicted_wal_bytes),
        actual_wal_bytes: optional_to_i64_saturating(record.actual_wal_bytes),
        available_before: wal_bytes_to_i64_saturating(record.available_before),
        available_after: wal_bytes_to_i64_saturating(record.available_after),
        reason_code: record.reason_code.as_sql_str(),
    }
}

/// The number of decisions to read for an SQL limit, where a negative limit means none.
pub fn recent_decision_limit(limit: i32) -> (r: usize)
    ensures
        r == if limit < 0 {
            0int
        } else {
            limit as int
        },
{
    if limit < 0 {
        0
    } else {
        limit as usize
    }
}

/// Whether the library is fully loaded, in the words that clients read.
pub fn preload_status(memory: &SharedMemory) -> (r: &'static str)
    ensures
        r@ == if memory.lock_initialized && memory@.region is Some
            && memory@.region->0.compatible() {
            "preloaded"@
        } else {
            "sql_only_loaded"@
        },
{
    if shmem::is_available(memory) {
        "preloaded"
    } else {
        "sql_only_loaded"
    }
}

pub fn reset_stats_impl(memory: &mut SharedMemory, user: &InvokingUser) -> (r: PwbResult<()>)
    requires
        old(memory).wf(),
    ensures
        final(memory).wf(),
        if !PrivilegeGate::Admin.admits(*user) {
            &&& errors::fails_with(
                r,
                PwbErrorView::InsufficientPrivilege { operation: "reset pg_wal_budget stats"@ },
            )
            &&& final(memory)@ == old(memory)@
        } else {
            match old(memory)@.access() {
                Err(error) => errors::fails_with(r, error) && final(memory)@ == old(memory)@,
                Ok(region) => {
                    &&& r is Ok
                    &&& final(memory)@ == old(memory)@.holding(region.without_stats())
                },
            }
        },
{
    require(PrivilegeGate::Admin, "reset pg_wal_budget stats", user)?;
    shmem::reset_stats(memory)
}

pub fn reset_profiles_impl<S: DurableCatalogStore>(
    memory: &mut SharedMemory,
    store: &mut S,
    user: &InvokingUser,
) -> (r: PwbResult<()>)
    requires
        old(memory).wf(),
    ensures
        final(memory).wf(),
        if !PrivilegeGate::Admin.admits(*user) {
            &&& errors::fails_with(
                r,
                PwbErrorView::InsufficientPrivilege {
                    operation: "reset pg_wal_budget query profiles"@,
                },
            )
            &&& final(memory)@ == old(memory)@
            &&& *final(store) == *old(store)
        } else {
            exists|s: &mut S, deleted: PwbResult<()>|
                {
                    &&& *s == *old(store)
                    &&& *final(s) == *final(store)
                    &&& #[trigger] call_ensures(S::delete_profiles, (s,), deleted)
                    &&& match (deleted, old(memory)@.access()) {
                        (Err(error), _) => {
                            &&& r == Err::<(), PwbError>(error)
                            &&& final(memory)@ == old(memory)@
                        },
                        (_, Err(error)) => {
                            &&& errors::fails_with(r, error)
                            &&& final(memory)@ == old(memory)@
                        },
                        (Ok(_), Ok(region)) => {
                            &&& r is Ok
                            &&& final(memory)@ == old(memory)@.holding(region.without_profiles())
                        },
                    }
                }
        },
{
    require(PrivilegeGate::Admin, "reset pg_wal_budget query profiles", user)?;
    delete_profiles_with(store)?;
    profiles::reset_profiles(memory)
}

/// Begins a flush for a client: who may flush, and whether stored profiles have to be loaded first.
pub fn begin_profile_flush(
    memory: &mut SharedMemory,
    user: &InvokingUser,
    now_epoch_ms: EpochMillis,
) -> (r: PwbResult<bool>)
    requires
        old(memory).wf(),
    ensures
        final(memory).wf(),
        if !PrivilegeGate::Admin.admits(*user) {
            &&& errors::fails_with(
                r,
                PwbErrorView::InsufficientPrivilege {
                    operation: "flush pg_wal_budget query profiles"@,
                },
            )
            &&& final(memory)@ == old(memory)@
        } else {
            &&& final(memory)@ == profile::load_begun(old(memory)@, now_epoch_ms)
            &&& match old(memory)@.access() {
                Err(error) => errors::fails_with(r, error),
                Ok(_) => r == Ok::<bool, PwbError>(
                    profile::load_needed(old(memory)@, now_epoch_ms),
                ),
            }
        },
{
    require(PrivilegeGate::Admin, "flush pg_wal_budget query profiles", user)?;
    profile::begin_profile_load(memory, now_epoch_ms)
}

pub fn flush_profiles_impl<S: DurableCatalogStore>(
    memory: &mut SharedMemory,
    store: &mut S,
    settings: &GucSettings,
    user: &InvokingUser,
    now_epoch_ms: EpochMillis,
) -> (r: PwbResult<()>)
    requires
        old(memory).wf(),
    ensures
        final(memory).wf(),
        if !PrivilegeGate::Admin.admits(*user) {
            &&& errors::fails_with(
                r,
                PwbErrorView::InsufficientPrivilege {
                    operation: "flush pg_wal_budget query profiles"@,
                },
            )
            &&& final(memory)@ == old(memory)@
            &&& *final(store) == *old(store)
        } else {
            exists|loaded: SharedMemoryView, ensured: PwbResult<()>|
                {
                    &&& #[trigger] profile::profiles_ensured(
                        old(store),
                        settings.capacity(settings.profile_cache_capacity) as usize,
                        now_epoch_ms,
                        old(memory)@,
                        loaded,
                        ensured,
                    )
                    &&& match (ensured, loaded.access()) {
                        (Err(error), _) => {
                            &&& r == Err::<(), PwbError>(error)
                            &&& final(memory)@ == loaded
                            &&& *final(store) == *old(store)
                        },
                        (_, Err(error)) => {
                            &&& errors::fails_with(r, error)
                            &&& final(memory)@ == loaded
                            &&& *final(store) == *old(store)
                        },
                        (Ok(_), Ok(region)) => {
                            &&& exists|s: &mut S, snapshots: &[QueryProfileSnapshot]|
                                {
                                    &&& *s == *old(store)
                                    &&& *final(s) == *final(store)
                                    &&& profiles::snapshots_of(region.profiles) == Ok::<
                                        Seq<QueryProfileSnapshot>,
                                        PwbErrorView,
                                    >(snapshots@)
                                    &&& #[trigger] call_ensures(
                                        S::persist_profiles,
                                        (s, snapshots),
                                        r,
                                    )
                                }
                            &&& final(memory)@ == loaded.holding(
                                shmem::transactions::persisted(region, now_epoch_ms, r is Ok),
                            )
                        },
                    }
                }
        },
{
    require(PrivilegeGate::Admin, "flush pg_wal_budget query profiles", user)?;
    profile::flush_profiles(memory, store, settings, now_epoch_ms)
}

/// Resetting the statistics empties the counters and the ring, and leaves profiles, buckets and scope
/// names as they are; resetting the profiles does the reverse for the profiles.
pub proof fn law_resets_are_separate(region: shmem::RegionView)
    ensures
        ({
            let after = region.without_stats();
            &&& after.state.counters == PwbCounters::zero()
            &&& after.state.recent_decision_count == 0
            &&& after.profiles == region.profiles
            &&& after.budget_buckets == region.budget_buckets
            &&& after.scope_names == region.scope_names
            &&& after.state.profiles_len == region.state.profiles_len
            &&& after.state.profile_dirty_count == region.state.profile_dirty_count
            &&& after.state.profile_restore_state == region.state.profile_restore_state
            &&& after.state.budget_buckets_len == region.state.budget_buckets_len
            &&& after.state.recent_decision_capacity == region.state.recent_decision_capacity
            &&& after.state.counters.accepted_statements == 0
            &&& after.state.counters.rejected_statements == 0
        }),
        ({
            let after = region.without_profiles();
            &&& after.state.counters == region.state.counters
            &&& after.recent_decisions == region.recent_decisions
            &&& after.budget_buckets == region.budget_buckets
            &&& after.scope_names == region.scope_names
            &&& after.state.profiles_len == 0
            &&& after.state.profile_restore_state == 2
            &&& after.state.profile_dirty_count == 0
            &&& after.state.budget_buckets_len == region.state.budget_buckets_len
            &&& after.state.profile_cache_capacity == region.state.profile_cache_capacity
            &&& after.state.recent_decision_count == region.state.recent_decision_count
            &&& forall|scope: Option<u64>, query: u64| #[trigger]
                profiles::profile_at(after.profiles, scope, query) is None
        }),
{
    let after = region.without_profiles();
    assert forall|scope: Option<u64>, query: u64| #[trigger]
        profiles::profile_at(after.profiles, scope, query) is None by {
        seqs::lemma_first_where(after.profiles, profiles::holds_key(scope, query));
    }
}

/// Clients read every counter in its own column, as it is or, where it does not fit, as the largest number
/// that does.
pub proof fn law_counters_are_read_in_their_columns(counters: PwbCounters, row: CountersRow)
    requires
        call_ensures(counters_row, (counters,), row),
    ensures
        ({
            &&& counters.accepted_statements <= i64::MAX ==> row.accepted_statements == counters.accepted_statements
            &&& counters.accepted_statements > i64::MAX ==> row.accepted_statements == i64::MAX
            &&& counters.rejected_statements <= i64::MAX ==> row.rejected_statements == counters.rejected_statements
            &&& counters.rejected_statements > i64::MAX ==> row.rejected_statements == i64::MAX
            &&& counters.shadow_would_reject_count <= i64::MAX ==> row.shadow_would_reject_count == counters.shadow_would_reject_count
            &&& counters.shadow_would_reject_count > i64::MAX ==> row.shadow_would_reject_count == i64::MAX
            &&& counters.predicted_wal_bytes <= i64::MAX ==> row.predicted_wal_bytes == counters.predicted_wal_bytes
            &&& counters.predicted_wal_bytes > i64::MAX ==> row.predicted_wal_bytes == i64::MAX
            &&& counters.actual_wal_bytes <= i64::MAX ==> row.actual_wal_bytes == counters.actual_wal_bytes
            &&& counters.actual_wal_bytes > i64::MAX ==> row.actual_wal_bytes == i64::MAX
            &&& counters.absolute_prediction_error <= i64::MAX ==> row.absolute_prediction_error == counters.absolute_prediction_error
            &&& counters.absolute_prediction_error > i64::MAX ==> row.absolute_prediction_error == i64::MAX
            &&& counters.scope_debt_bytes <= i64::MAX ==> row.scope_debt_bytes == counters.scope_debt_bytes
            &&& counters.scope_debt_bytes > i64::MAX ==> row.scope_debt_bytes == i64::MAX
            &&& counters.missing_actual_wal_count <= i64::MAX ==> row.missing_actual_wal_count == counters.missing_actual_wal_count
            &&& counters.missing_actual_wal_count > i64::MAX ==> row.missing_actual_wal_count == i64::MAX
            &&& counters.internal_fail_open_count <= i64::MAX ==> row.internal_fail_open_count == counters.internal_fail_open_count
            &&& counters.internal_fail_open_count > i64::MAX ==> row.internal_fail_open_count == i64::MAX
            &&& counters.aborted_after_charge_count <= i64::MAX ==> row.aborted_after_charge_count == counters.aborted_after_charge_count
            &&& counters.aborted_after_charge_count > i64::MAX ==> row.aborted_after_charge_count == i64::MAX
        }),
{
}

/// Clients read a bucket and a query profile in their columns, numbers that do not fit as the largest that
/// does. A profile without a scope is the global one.
pub proof fn law_buckets_and_profiles_are_read_in_their_columns(
    bucket: BudgetBucketSnapshot,
    bucket_row: ScopeStatsRow,
    profile: QueryProfileSnapshot,
    profile_row: QueryProfileRow,
)
    requires
        call_ensures(scope_stats_row, (bucket,), bucket_row),
        call_ensures(query_profile_row, (profile,), profile_row),
    ensures
        bucket_row.policy_id == bucket.policy_id,
        profile_row.is_global <==> profile.scope_hash is None,
        ({
            &&& bucket.scope_hash <= i64::MAX ==> bucket_row.scope_hash == bucket.scope_hash
            &&& bucket.scope_hash > i64::MAX ==> bucket_row.scope_hash == i64::MAX
            &&& bucket.available_bytes <= i64::MAX ==> bucket_row.available_bytes == bucket.available_bytes
            &&& bucket.available_bytes > i64::MAX ==> bucket_row.available_bytes == i64::MAX
            &&& bucket.max_burst_bytes <= i64::MAX ==> bucket_row.max_burst_bytes == bucket.max_burst_bytes
            &&& bucket.max_burst_bytes > i64::MAX ==> bucket_row.max_burst_bytes == i64::MAX
            &&& bucket.rate_bytes_per_sec <= i64::MAX ==> bucket_row.rate_bytes_per_sec == bucket.rate_bytes_per_sec
            &&& bucket.rate_bytes_per_sec > i64::MAX ==> bucket_row.rate_bytes_per_sec == i64::MAX
            &&& bucket.debt_bytes <= i64::MAX ==> bucket_row.debt_bytes == bucket.debt_bytes
            &&& bucket.debt_bytes > i64::MAX ==> bucket_row.debt_bytes == i64::MAX
            &&& bucket.last_refill_epoch_ms <= i64::MAX ==> bucket_row.last_refill_epoch_ms == bucket.last_refill_epoch_ms
            &&& bucket.last_refill_epoch_ms > i64::MAX ==> bucket_row.last_refill_epoch_ms == i64::MAX
            &&& profile.query_id <= i64::MAX ==> profile_row.query_id == profile.query_id
            &&& profile.query_id > i64::MAX ==> profile_row.query_id == i64::MAX
            &&& profile.profile.calls <= i64::MAX ==> profile_row.calls == profile.profile.calls
            &&& profile.profile.calls > i64::MAX ==> profile_row.calls == i64::MAX
            &&& profile.profile.ewma_wal_bytes <= i64::MAX ==> profile_row.ewma_wal_bytes == profile.profile.ewma_wal_bytes
            &&& profile.profile.ewma_wal_bytes > i64::MAX ==> profile_row.ewma_wal_bytes == i64::MAX
            &&& profile.profile.max_wal_bytes <= i64::MAX ==> profile_row.max_wal_bytes == profile.profile.max_wal_bytes
            &&& profile.profile.max_wal_bytes > i64::MAX ==> profile_row.max_wal_bytes == i64::MAX
            &&& profile.profile.last_seen_epoch_ms <= i64::MAX ==> profile_row.last_seen_epoch_ms == profile.profile.last_seen_epoch_ms
            &&& profile.profile.last_seen_epoch_ms > i64::MAX ==> profile_row.last_seen_epoch_ms == i64::MAX
        }),
        ({
            &&& profile.scope_hash is None <==> profile_row.scope_hash is None
            &&& profile.scope_hash matches Some(n) ==> (n <= i64::MAX ==> profile_row.scope_hash == Some(n as i64))
            &&& profile.scope_hash matches Some(n) ==> (n > i64::MAX ==> profile_row.scope_hash == Some(i64::MAX))
        }),
{
}

/// Clients read a decision in its columns, with the SQL names of its kinds and its reason.
pub proof fn law_decisions_are_read_in_their_columns(
    record: RecentDecisionRecord,
    row: RecentDecisionRow,
)
    requires
        call_ensures(recent_decision_row, (record,), row),
    ensures
        row.policy_id == record.policy_id,
        row.decision_kind@ == record.decision_kind.sql_name(),
        row.scope_kind@ == record.scope_kind.sql_name(),
        row.statement_class@ == record.statement_class.sql_name(),
        row.reason_code@ == record.reason_code.sql_name(),
        ({
            &&& record.timestamp_epoch_ms <= i64::MAX ==> row.timestamp_epoch_ms == record.timestamp_epoch_ms
            &&& record.timestamp_epoch_ms > i64::MAX ==> row.timestamp_epoch_ms == i64::MAX
            &&& record.scope_hash <= i64::MAX ==> row.scope_hash == record.scope_hash
            &&& record.scope_hash > i64::MAX ==> row.scope_hash == i64::MAX
            &&& record.predicted_wal_bytes <= i64::MAX ==> row.predicted_wal_bytes == record.predicted_wal_bytes
            &&& record.predicted_wal_bytes > i64::MAX ==> row.predicted_wal_bytes == i64::MAX
            &&& record.available_before <= i64::MAX ==> row.available_before == record.available_before
            &&& record.available_before > i64::MAX ==> row.available_before == i64::MAX
            &&& record.available_after <= i64::MAX ==> row.available_after == record.available_after
            &&& record.available_after > i64::MAX ==> row.available_after == i64::MAX
            &&& record.query_id is None <==> row.query_id is None
            &&& record.query_id matches Some(n) ==> (n <= i64::MAX ==> row.query_id == Some(n as i64))
            &&& record.query_id matches Some(n) ==> (n > i64::MAX ==> row.query_id == Some(i64::MAX))
            &&& record.actual_wal_bytes is None <==> row.actual_wal_bytes is None
            &&& record.actual_wal_bytes matches Some(n) ==> (n <= i64::MAX ==> row.actual_wal_bytes == Some(n as i64))
            &&& record.actual_wal_bytes matches Some(n) ==> (n > i64::MAX ==> row.actual_wal_bytes == Some(i64::MAX))
        }),
{
}

} // verus!
