//! The operations on the shared region as the rest of the library uses them. Each one sees and leaves
//! the region in order.

use vstd::prelude::*;

use crate::catalog::DurableCatalogStore;
use crate::errors;
use crate::errors::{PwbError, PwbErrorView, PwbResult};
use crate::profile_store;
use crate::seqs;
use crate::shmem::budget_buckets;
use crate::shmem::counters;
use crate::shmem::profiles;
use crate::shmem::recent_decisions;
use crate::shmem::records;
use crate::shmem::records::{
    BudgetBucketSnapshot, BudgetBucketState, CounterDelta, PwbCounters, QueryProfileSnapshot,
    RecentDecisionRecord, ScopeNameSnapshot,
};
use crate::shmem::scope_names;
use crate::shmem::{RegionView, SharedMemory};
use crate::types;
use crate::types::{EpochMillis, PolicyId, ScopeHash, ScopeKey, WalBytes};

verus! {

/// Whether recording the name of a scope may turn the scope names into `names2`. A scope without a
/// readable value leaves them alone.
pub open spec fn scope_seen(
    names: Seq<records::PwbScopeName>,
    scope: types::ScopeKeyView,
    now_epoch_ms: EpochMillis,
    names2: Seq<records::PwbScopeName>,
) -> bool {
    match scope.debug_value {
        Some(value) => scope_names::name_recorded(
            names,
            scope.kind,
            scope.value_hash,
            value,
            now_epoch_ms,
            names2,
        ),
        None => names2 == names,
    }
}

pub fn record_admission_telemetry(
    shmem: &mut SharedMemory,
    delta: CounterDelta,
    recent_decision: RecentDecisionRecord,
    scope: &ScopeKey,
    now_epoch_ms: EpochMillis,
) -> (r: PwbResult<()>)
    requires
        old(shmem).wf(),
    ensures
        final(shmem).wf(),
        match old(shmem)@.access() {
            Err(error) => errors::fails_with(r, error) && final(shmem)@ == old(shmem)@,
            Ok(region) => {
                let counted = region.with_counters(region.state.counters.plus(delta)).with_decision(
                    recent_decision,
                );
                &&& r is Ok
                &&& final(shmem)@.access() matches Ok(region2) && {
                    &&& final(shmem)@ == old(shmem)@.holding(
                        RegionView { scope_names: region2.scope_names, ..counted },
                    )
                    &&& scope_seen(region.scope_names, scope@, now_epoch_ms, region2.scope_names)
                }
            },
        },
{
    counters::add_counters(shmem, delta)?;
    recent_decisions::record_recent_decision(shmem, recent_decision)?;
    let region = shmem.locked()?;
    if let Some(value) = &scope.debug_value {
        let ghost names = region.scope_names@;
        let _ = scope_names::record_scope_name_in_slice(
            region.scope_names.as_mut_slice(),
            scope.kind,
            scope.value_hash,
            value.as_str(),
            now_epoch_ms,
        );
        proof {
            scope_names::law_recording_keeps_names(
                names,
                scope.kind,
                scope.value_hash,
                value@,
                now_epoch_ms,
                region.scope_names@,
            );
        }
    }
    Ok(())
}

pub fn record_decision_telemetry(
    shmem: &mut SharedMemory,
    delta: CounterDelta,
    recent_decision: RecentDecisionRecord,
) -> (r: PwbResult<()>)
    requires
        old(shmem).wf(),
    ensures
        final(shmem).wf(),
        match old(shmem)@.access() {
            Err(error) => errors::fails_with(r, error) && final(shmem)@ == old(shmem)@,
            Ok(region) => {
                &&& r is Ok
                &&& final(shmem)@ == old(shmem)@.holding(
                    region.with_counters(region.state.counters.plus(delta)).with_decision(
                        recent_decision,
                    ),
                )
            },
        },
{
    counters::add_counters(shmem, delta)?;
    recent_decisions::record_recent_decision(shmem, recent_decision)
}

pub fn add_counter_delta(shmem: &mut SharedMemory, delta: CounterDelta) -> (r: PwbResult<()>)
    requires
        old(shmem).wf(),
    ensures
        final(shmem).wf(),
        match old(shmem)@.access() {
            Err(error) => errors::fails_with(r, error) && final(shmem)@ == old(shmem)@,
            Ok(region) => {
                &&& r is Ok
                &&& final(shmem)@ == old(shmem)@.holding(
                    region.with_counters(region.state.counters.plus(delta)),
                )
            },
        },
{
    counters::add_counters(shmem, delta)
}

pub fn admit_with_budget_bucket<
    R,
    I: FnOnce() -> BudgetBucketState,
    F: FnOnce(&mut BudgetBucketState) -> PwbResult<R>,
>(
    shmem: &mut SharedMemory,
    policy_id: PolicyId,
    scope_hash: ScopeHash,
    initialize: I,
    callback: F,
) -> (r: PwbResult<R>)
    requires
        old(shmem).wf(),
        initialize.requires(()),
        forall|bucket: &mut BudgetBucketState| callback.requires((bucket,)),
    ensures
        final(shmem).wf(),
        match old(shmem)@.access() {
            Err(error) => errors::fails_with(r, error) && final(shmem)@ == old(shmem)@,
            Ok(region) => if region.no_bucket_room(policy_id, scope_hash) {
                &&& errors::fails_with(r, budget_buckets::bucket_capacity_error())
                &&& final(shmem)@ == old(shmem)@
            } else {
                exists|bucket: &mut BudgetBucketState|
                    {
                        &&& budget_buckets::found_or_made(
                            region.state,
                            region.budget_buckets,
                            policy_id,
                            scope_hash,
                            initialize,
                            *bucket,
                        )
                        &&& #[trigger] callback.ensures((bucket,), r)
                        &&& final(shmem)@ == old(shmem)@.holding(
                            if r is Ok {
                                region.with_bucket(policy_id, scope_hash, *final(bucket))
                            } else {
                                region
                            },
                        )
                    }
            },
        },
{
    budget_buckets::with_budget_bucket(shmem, policy_id, scope_hash, initialize, callback)
}

pub fn with_existing_budget_bucket<R, F: FnOnce(&mut BudgetBucketState) -> PwbResult<R>>(
    shmem: &mut SharedMemory,
    policy_id: PolicyId,
    scope_hash: ScopeHash,
    callback: F,
) -> (r: PwbResult<Option<R>>)
    requires
        old(shmem).wf(),
        forall|bucket: &mut BudgetBucketState| callback.requires((bucket,)),
    ensures
        final(shmem).wf(),
        match old(shmem)@.access() {
            Err(error) => errors::fails_with(r, error) && final(shmem)@ == old(shmem)@,
            Ok(region) => match region.bucket(policy_id, scope_hash) {
                None => {
                    &&& r == Ok::<Option<R>, PwbError>(None)
                    &&& final(shmem)@ == old(shmem)@
                },
                Some(before) => exists|bucket: &mut BudgetBucketState, result: PwbResult<R>|
                    {
                        &&& *bucket == before
                        &&& #[trigger] callback.ensures((bucket,), result)
                        &&& r == budget_buckets::wrapped(result)
                        &&& final(shmem)@ == old(shmem)@.holding(
                            if result is Ok {
                                region.with_bucket(policy_id, scope_hash, *final(bucket))
                            } else {
                                region
                            },
                        )
                    },
            },
        },
{
    budget_buckets::with_existing_budget_bucket(shmem, policy_id, scope_hash, callback)
}

/// A bucket that `bytes` were given back to, up to its burst.
pub open spec fn refunded(bucket: BudgetBucketState, bytes: WalBytes) -> BudgetBucketState {
    BudgetBucketState {
        available_bytes: types::smaller(
            types::sat_add(bucket.available_bytes as int, bytes as int),
            bucket.max_burst_bytes,
        ),
        ..bucket
    }
}

/// A bucket that owes `bytes` more.
pub open spec fn indebted(bucket: BudgetBucketState, bytes: WalBytes) -> BudgetBucketState {
    BudgetBucketState {
        debt_bytes: types::sat_add(bucket.debt_bytes as int, bytes as int),
        ..bucket
    }
}

impl RegionView {
    /// The region after `bytes` were given back to a bucket, if there is one.
    pub open spec fn with_refund(
        self,
        policy_id: PolicyId,
        scope_hash: ScopeHash,
        bytes: WalBytes,
    ) -> RegionView {
        match self.bucket(policy_id, scope_hash) {
            Some(bucket) => self.with_bucket(policy_id, scope_hash, refunded(bucket, bytes)),
            None => self,
        }
    }

    /// The region after a bucket, if there is one, was made to owe `bytes` more.
    pub open spec fn with_debt(
        self,
        policy_id: PolicyId,
        scope_hash: ScopeHash,
        bytes: WalBytes,
    ) -> RegionView {
        match self.bucket(policy_id, scope_hash) {
            Some(bucket) => self.with_bucket(policy_id, scope_hash, indebted(bucket, bytes)),
            None => self,
        }
    }
}

pub fn refund_budget_charge(
    shmem: &mut SharedMemory,
    policy_id: PolicyId,
    scope_hash: ScopeHash,
    bytes: WalBytes,
) -> (r: PwbResult<()>)
    requires
        old(shmem).wf(),
    ensures
        final(shmem).wf(),
        match old(shmem)@.access() {
            Err(error) => errors::fails_with(r, error) && final(shmem)@ == old(shmem)@,
            Ok(region) => {
                &&& r is Ok
                &&& final(shmem)@ == old(shmem)@.holding(
                    region.with_refund(policy_id, scope_hash, bytes),
                )
            },
        },
{
    let refund = |bucket: &mut BudgetBucketState| -> (r: PwbResult<()>)
        ensures
            r is Ok,
            *final(bucket) == refunded(*old(bucket), bytes),
    {
        let refilled: u64 = bucket.available_bytes.saturating_add(bytes);
        bucket.available_bytes = if refilled <= bucket.max_burst_bytes {
            refilled
        } else {
            bucket.max_burst_bytes
        };
        Ok(())
    };
    let _ = budget_buckets::with_existing_budget_bucket(shmem, policy_id, scope_hash, refund)?;
    Ok(())
}

pub fn record_budget_debt(
    shmem: &mut SharedMemory,
    policy_id: PolicyId,
    scope_hash: ScopeHash,
    bytes: WalBytes,
) -> (r: PwbResult<()>)
    requires
        old(shmem).wf(),
    ensures
        final(shmem).wf(),
        match old(shmem)@.access() {
            Err(error) => errors::fails_with(r, error) && final(shmem)@ == old(shmem)@,
            Ok(region) => {
                &&& r is Ok
                &&& final(shmem)@ == old(shmem)@.holding(
                    region.with_debt(policy_id, scope_hash, bytes),
                )
            },
        },
{
    let owe = |bucket: &mut BudgetBucketState| -> (r: PwbResult<()>)
        ensures
            r is Ok,
            *final(bucket) == indebted(*old(bucket), bytes),
    {
        bucket.debt_bytes = bucket.debt_bytes.saturating_add(bytes);
        Ok(())
    };
    let _ = budget_buckets::with_existing_budget_bucket(shmem, policy_id, scope_hash, owe)?;
    Ok(())
}

/// Whether ending a restore, where loading gave `loaded`, turns `region` into `region2` and returns
/// `result`. A restore that fails is marked so that it can be tried again.
pub open spec fn restore_settled(
    region: RegionView,
    loaded: PwbResult<Vec<QueryProfileSnapshot>>,
    region2: RegionView,
    result: PwbResult<()>,
) -> bool {
    let failed = region.with_state(profiles::restore_failed(region.state));
    match loaded {
        Err(error) => result == Err::<(), PwbError>(error) && region2 == failed,
        Ok(snapshots) => match profiles::restored_region(region, snapshots@) {
            Ok(restored) => result is Ok && region2 == restored,
            Err(error) => errors::fails_with(result, error) && region2 == failed,
        },
    }
}

/// Ends a restore with what loading the stored profiles gave.
pub fn settle_profile_restore(
    shmem: &mut SharedMemory,
    loaded: PwbResult<Vec<QueryProfileSnapshot>>,
) -> (r: PwbResult<()>)
    requires
        old(shmem).wf(),
    ensures
        final(shmem).wf(),
        match old(shmem)@.access() {
            Err(error) => errors::fails_with(r, error) && final(shmem)@ == old(shmem)@,
            Ok(region) => exists|region2: RegionView|
                #[trigger] restore_settled(region, loaded, region2, r) && final(shmem)@ == old(
                    shmem,
                )@.holding(region2),
        },
{
    let ghost region = shmem@.access()->Ok_0;
    let ghost usable = shmem@.access() is Ok;
    let ghost outcome = loaded;
    match loaded {
        Err(error) => {
            profiles::mark_profile_restore_failed(shmem)?;
            assert(usable ==> restore_settled(region, outcome, shmem@.region->0, Err(error)));
            Err(error)
        },
        Ok(snapshots) => match profiles::finish_profile_restore(shmem, snapshots.as_slice()) {
            Ok(()) => {
                assert(restore_settled(region, outcome, shmem@.region->0, Ok(())));
                Ok(())
            },
            Err(error) => {
                profiles::mark_profile_restore_failed(shmem)?;
                assert(usable ==> restore_settled(region, outcome, shmem@.region->0, Err(error)));
                Err(error)
            },
        },
    }
}

/// Whether loading the stored profiles may turn `region` into `region2` and return `result`, where
/// loading gave `loaded`.
pub open spec fn profiles_loaded(
    region: RegionView,
    now_epoch_ms: EpochMillis,
    loaded: PwbResult<Vec<QueryProfileSnapshot>>,
    region2: RegionView,
    result: PwbResult<()>,
) -> bool {
    let begun = region.with_state(profiles::restore_begun(region.state, now_epoch_ms));
    restore_settled(begun, loaded, region2, result)
}

pub fn ensure_profiles_loaded<F: FnOnce() -> PwbResult<Vec<QueryProfileSnapshot>>>(
    shmem: &mut SharedMemory,
    now_epoch_ms: EpochMillis,
    stale_after_ms: EpochMillis,
    load_profiles: F,
) -> (r: PwbResult<()>)
    requires
        old(shmem).wf(),
        load_profiles.requires(()),
    ensures
        final(shmem).wf(),
        match old(shmem)@.access() {
            Err(error) => errors::fails_with(r, error) && final(shmem)@ == old(shmem)@,
            Ok(region) => if !profiles::restore_may_begin(
                region.state,
                now_epoch_ms,
                stale_after_ms,
            ) {
                r is Ok && final(shmem)@ == old(shmem)@
            } else {
                exists|loaded: PwbResult<Vec<QueryProfileSnapshot>>, region2: RegionView|
                    {
                        &&& load_profiles.ensures((), loaded)
                        &&& #[trigger] profiles_loaded(region, now_epoch_ms, loaded, region2, r)
                        &&& final(shmem)@ == old(shmem)@.holding(region2)
                    }
            },
        },
{
    if !profiles::begin_profile_restore(shmem, now_epoch_ms, stale_after_ms)? {
        return Ok(());
    }
    let ghost region = old(shmem)@.access()->Ok_0;
    let loaded = load_profiles();
    let ghost outcome = loaded;
    let result = settle_profile_restore(shmem, loaded);
    assert(profiles_loaded(region, now_epoch_ms, outcome, shmem@.region->0, result));
    result
}

/// The region after the profiles were handed over to be stored.
pub open spec fn persisted(region: RegionView, now_epoch_ms: EpochMillis, success: bool) -> RegionView {
    region.with_state(
        profiles::persist_completed(
            profiles::persist_attempted(region.state, now_epoch_ms),
            success,
        ),
    )
}

/// Ends handing over the profiles with what the store answered.
pub fn settle_profile_persist(shmem: &mut SharedMemory, stored: PwbResult<()>) -> (r: PwbResult<()>)
    requires
        old(shmem).wf(),
    ensures
        final(shmem).wf(),
        match old(shmem)@.access() {
            Err(error) => errors::fails_with(r, error) && final(shmem)@ == old(shmem)@,
            Ok(region) => {
                &&& r == stored
                &&& final(shmem)@ == old(shmem)@.holding(
                    region.with_state(profiles::persist_completed(region.state, stored is Ok)),
                )
            },
        },
{
    profiles::complete_profile_persist(shmem, stored.is_ok())?;
    stored
}

pub fn persist_profiles_if_due<S: DurableCatalogStore>(
    shmem: &mut SharedMemory,
    now_epoch_ms: EpochMillis,
    interval_ms: EpochMillis,
    store: &mut S,
) -> (r: PwbResult<()>)
    requires
        old(shmem).wf(),
    ensures
        final(shmem).wf(),
        match old(shmem)@.access() {
            Err(error) => {
                &&& errors::fails_with(r, error)
                &&& final(shmem)@ == old(shmem)@
                &&& *final(store) == *old(store)
            },
            Ok(region) => if !profiles::persist_is_due(region.state, now_epoch_ms, interval_ms) {
                &&& r is Ok
                &&& final(shmem)@ == old(shmem)@
                &&& *final(store) == *old(store)
            } else {
                &&& exists|s: &mut S, snapshots: &[QueryProfileSnapshot]|
                    {
                        &&& *s == *old(store)
                        &&& *final(s) == *final(store)
                        &&& profiles::snapshots_of(region.profiles) == Ok::<
                            Seq<QueryProfileSnapshot>,
                            PwbErrorView,
                        >(snapshots@)
                        &&& #[trigger] call_ensures(S::persist_profiles, (s, snapshots), r)
                    }
                &&& final(shmem)@ == old(shmem)@.holding(persisted(region, now_epoch_ms, r is Ok))
            },
        },
{
    match profiles::reserve_profile_persist(shmem, now_epoch_ms, interval_ms)? {
        None => Ok(()),
        Some(snapshots) => {
            let stored = profile_store::persist_profiles_with(store, snapshots.as_slice());
            settle_profile_persist(shmem, stored)
        },
    }
}

pub fn persist_profiles_now<S: DurableCatalogStore>(
    shmem: &mut SharedMemory,
    now_epoch_ms: EpochMillis,
    store: &mut S,
) -> (r: PwbResult<()>)
    requires
        old(shmem).wf(),
    ensures
        final(shmem).wf(),
        match old(shmem)@.access() {
            Err(error) => {
                &&& errors::fails_with(r, error)
                &&& final(shmem)@ == old(shmem)@
                &&& *final(store) == *old(store)
            },
            Ok(region) => {
                &&& exists|s: &mut S, snapshots: &[QueryProfileSnapshot]|
                    {
                        &&& *s == *old(store)
                        &&& *final(s) == *final(store)
                        &&& profiles::snapshots_of(region.profiles) == Ok::<
                            Seq<QueryProfileSnapshot>,
                            PwbErrorView,
                        >(snapshots@)
                        &&& #[trigger] call_ensures(S::persist_profiles, (s, snapshots), r)
                    }
                &&& final(shmem)@ == old(shmem)@.holding(persisted(region, now_epoch_ms, r is Ok))
            },
        },
{
    let snapshots = profiles::snapshot_profiles_for_persist(shmem, now_epoch_ms)?;
    let stored = profile_store::persist_profiles_with(store, snapshots.as_slice());
    settle_profile_persist(shmem, stored)
}

pub fn counters_snapshot(shmem: &SharedMemory) -> (r: PwbResult<PwbCounters>)
    ensures
        errors::same_result(
            r,
            match shmem@.access() {
                Err(error) => Err(error),
                Ok(region) => Ok(region.state.counters),
            },
        ),
{
    counters::snapshot_counters(shmem)
}

pub fn budget_bucket_snapshots(shmem: &SharedMemory) -> (r: PwbResult<Vec<BudgetBucketSnapshot>>)
    ensures
        seqs::same_values(
            r,
            match shmem@.access() {
                Err(error) => Err(error),
                Ok(region) => Ok(
                    budget_buckets::bucket_snapshots(
                        region.budget_buckets,
                        region.state.budget_buckets_len as int,
                    ),
                ),
            },
        ),
{
    budget_buckets::snapshot_budget_buckets(shmem)
}

pub fn query_profile_snapshots(shmem: &SharedMemory) -> (r: PwbResult<Vec<QueryProfileSnapshot>>)
    ensures
        seqs::same_values(
            r,
            match shmem@.access() {
                Err(error) => Err(error),
                Ok(region) => profiles::snapshots_of(region.profiles),
            },
        ),
{
    profiles::snapshot_query_profiles(shmem)
}

pub fn recent_decision_snapshots(shmem: &SharedMemory, limit: usize) -> (r: PwbResult<
    Vec<RecentDecisionRecord>,
>)
    requires
        shmem.wf(),
    ensures
        seqs::same_values(
            r,
            match shmem@.access() {
                Err(error) => Err(error),
                Ok(region) => recent_decisions::recent_snapshot(
                    region.state,
                    region.recent_decisions,
                    limit as int,
                ),
            },
        ),
{
    recent_decisions::snapshot_recent_decisions(shmem, limit)
}

pub fn scope_name_snapshots(shmem: &SharedMemory) -> (r: PwbResult<Vec<ScopeNameSnapshot>>)
    ensures
        scope_names::same_name_snapshots(
            r,
            match shmem@.access() {
                Err(error) => Err(error),
                Ok(region) => scope_names::name_snapshots(region.scope_names),
            },
        ),
{
    scope_names::snapshot_scope_names(shmem)
}

/// Giving bytes back raises what a bucket holds by them, up to its burst, and changes nothing else of it.
/// Owing bytes adds them to its debt and changes nothing else. The region changes in that bucket only,
/// and not at all where there is no such bucket.
pub proof fn law_refund_and_debt_change_one_bucket(
    region: RegionView,
    policy_id: PolicyId,
    scope_hash: ScopeHash,
    bytes: WalBytes,
    other_policy: PolicyId,
    other_scope: ScopeHash,
)
    requires
        budget_buckets::buckets_wf(region.state, region.budget_buckets),
        budget_buckets::bucket_keys_differ(region.budget_buckets),
        other_policy != policy_id || other_scope != scope_hash,
    ensures
        match region.bucket(policy_id, scope_hash) {
            None => region.with_refund(policy_id, scope_hash, bytes) == region && region.with_debt(
                policy_id,
                scope_hash,
                bytes,
            ) == region,
            Some(bucket) => {
                let refund = region.with_refund(policy_id, scope_hash, bytes);
                let debt = region.with_debt(policy_id, scope_hash, bytes);
                &&& refund.bucket(policy_id, scope_hash) == Some(
                    BudgetBucketState {
                        available_bytes: if bucket.available_bytes + bytes
                            <= bucket.max_burst_bytes {
                            (bucket.available_bytes + bytes) as u64
                        } else {
                            bucket.max_burst_bytes
                        },
                        ..bucket
                    },
                )
                &&& debt.bucket(policy_id, scope_hash) == Some(
                    BudgetBucketState {
                        debt_bytes: if bucket.debt_bytes + bytes <= u64::MAX {
                            (bucket.debt_bytes + bytes) as u64
                        } else {
                            u64::MAX
                        },
                        ..bucket
                    },
                )
                &&& refund.bucket(other_policy, other_scope) == region.bucket(
                    other_policy,
                    other_scope,
                )
                &&& debt.bucket(other_policy, other_scope) == region.bucket(
                    other_policy,
                    other_scope,
                )
                &&& refund.state == region.state && debt.state == region.state
                &&& refund.profiles == region.profiles && debt.profiles == region.profiles
                &&& refund.recent_decisions == region.recent_decisions && debt.recent_decisions
                    == region.recent_decisions
                &&& refund.scope_names == region.scope_names && debt.scope_names
                    == region.scope_names
            },
        },
{
    let prefix = region.budget_buckets.take(region.state.budget_buckets_len as int);
    let p = budget_buckets::holds_bucket(policy_id, scope_hash);
    seqs::lemma_first_where(prefix, p);
    if let Some(bucket) = region.bucket(policy_id, scope_hash) {
        let i = budget_buckets::bucket_slot(
            region.state,
            region.budget_buckets,
            policy_id,
            scope_hash,
        )->0;
        assert(p(prefix[i]));
        budget_buckets::law_storing_a_bucket_changes_no_other(
            region,
            refunded(bucket, bytes),
            other_policy,
            other_scope,
        );
        budget_buckets::law_storing_a_bucket_changes_no_other(
            region,
            indebted(bucket, bytes),
            other_policy,
            other_scope,
        );
    }
}

} // verus!
