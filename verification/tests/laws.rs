use std::mem::{align_of, size_of};

use pg_wal_budget::admission::counter_delta_for_decision;
use pg_wal_budget::budget::{
    ChargeAttempt, EffectivePolicy, admit_reject_with_bucket, admit_shadow_with_bucket,
    admit_statement, attempt_queue_charge, charge_available, initial_bucket_state,
    record_underprediction_debt, refill_available_bytes, refresh_bucket, refund_available,
    refund_charged_bytes, wait_ms_for_deficit,
};
use pg_wal_budget::catalog::{
    DurableCatalogStore, DurablePolicyRow, MemoryCatalogStore, RawQueryProfile, SqlQueryProfile,
    decode_profile,
};
use pg_wal_budget::errors::PwbError;
use pg_wal_budget::guc::{
    GucSettings, GucValue, budget_bucket_capacity, profile_cache_capacity,
    recent_decision_capacity, register_gucs, requested_layout, shmem_capacity,
};
use pg_wal_budget::lifecycle::{
    AdmissionBypassGuard, LifecycleState, admission_is_bypassed, with_admission_bypass,
};
use pg_wal_budget::policy::{validate_policy_budget_update, validate_policy_definition};
use pg_wal_budget::policy_cache::{find_effective_policy, load_policy_cache_from};
use pg_wal_budget::predict::predict_wal_bytes;
use pg_wal_budget::privileges::{InvokingUser, PrivilegeGate, require};
use pg_wal_budget::reconcile::{BudgetReconciliation, budget_reconciliation};
use pg_wal_budget::scope::{
    BackendScopeState, SessionNames, classify_current_scope, hash_scope_value, set_tenant_impl,
};
use pg_wal_budget::shmem::budget_buckets::{
    find_budget_bucket_slot, find_empty_budget_bucket_slot, snapshot_budget_buckets,
    with_budget_bucket,
};
use pg_wal_budget::shmem::counters::{add_counters, reset_counters, snapshot_counters};
use pg_wal_budget::shmem::layout::{SharedCapacities, compute_layout};
use pg_wal_budget::shmem::profiles::{
    finish_profile_restore, lookup_query_profile, lookup_scoped_or_global_query_profile,
    reset_profiles, snapshot_query_profiles, upsert_query_profile,
    upsert_scoped_and_global_query_profiles,
};
use pg_wal_budget::shmem::recent_decisions::{
    record_recent_decision, reset_recent_decisions, snapshot_recent_decisions,
};
use pg_wal_budget::shmem::records::{
    BudgetBucketState, CounterDelta, PwbBudgetBucket, PwbCounters, PwbProfileEntry,
    PwbRecentDecision, PwbScopeName, PwbSharedState, QueryProfileSnapshot, RecentDecisionRecord,
    decode_decision_kind, decode_reason_code, decode_scope_kind, decode_statement_class,
    encode_decision_kind, encode_reason_code, encode_scope_kind, encode_statement_class,
};
use pg_wal_budget::shmem::scope_names::{
    record_scope_name_in_slice, snapshot_scope_names_from_slice,
};
use pg_wal_budget::shmem::{AttachedRegion, SharedMemory, reset_stats, shmem_startup};
use pg_wal_budget::time::next_sleep_chunk;
use pg_wal_budget::types::{
    ActiveStatementState, AdmissionContext, AdmissionDecision, BudgetMode, DecisionKind,
    ProfileEwmaWeights, QueryWalProfile, ReasonCode, ScopeKey, ScopeKind, StatementClass,
    WalMeasurementKind,
};
use pg_wal_budget::utility::{
    NodeTag, classify_utility_node_tag, is_known_read_only_utility, is_known_wal_candidate_utility,
};

fn memory(capacity: usize) -> SharedMemory {
    let layout = compute_layout(SharedCapacities {
        recent_decisions: capacity,
        profiles: capacity,
        budget_buckets: capacity,
        scope_names: capacity,
    })
    .unwrap_or_else(|error| panic!("{error:?}"));
    match shmem_startup(layout, true, AttachedRegion::Created) {
        Ok(memory) => memory,
        Err(error) => panic!("{error:?}"),
    }
}

fn policy(mode: BudgetMode) -> EffectivePolicy {
    EffectivePolicy {
        policy_id: 7,
        enabled: true,
        mode,
        wal_rate_bytes_per_sec: 1000,
        wal_burst_bytes: 5000,
    }
}

fn bucket(available_bytes: u64) -> BudgetBucketState {
    BudgetBucketState {
        policy_id: 7,
        scope_hash: 99,
        available_bytes,
        max_burst_bytes: 5000,
        rate_bytes_per_sec: 1000,
        last_refill_epoch_ms: 1000,
        debt_bytes: 0,
    }
}

fn context(predicted_wal_bytes: u64) -> AdmissionContext {
    AdmissionContext {
        query_id: Some(42),
        scope: ScopeKey::with_debug_value(ScopeKind::Tenant, 99, "tenant-a"),
        statement_class: StatementClass::Write,
        predicted_wal_bytes,
    }
}

fn weights() -> ProfileEwmaWeights {
    ProfileEwmaWeights::new(1, 2).unwrap_or_else(|error| panic!("{error:?}"))
}

fn decision(timestamp_epoch_ms: u64) -> RecentDecisionRecord {
    RecentDecisionRecord {
        timestamp_epoch_ms,
        decision_kind: DecisionKind::Allowed,
        policy_id: Some(7),
        scope_kind: ScopeKind::Tenant,
        scope_hash: 99,
        query_id: None,
        statement_class: StatementClass::Write,
        predicted_wal_bytes: 10,
        actual_wal_bytes: None,
        available_before: 20,
        available_after: 10,
        reason_code: ReasonCode::BudgetAvailable,
    }
}

#[test]
fn a_moving_average_stays_between_its_old_value_and_the_observation() {
    for (old, actual, numerator, denominator, expected) in [
        (100u64, 300u64, 1u64, 2u64, 200u64),
        (300, 100, 1, 2, 200),
        (100, 100, 1, 3, 100),
        (0, u64::MAX, 1, 1_000_000, 18_446_744_073_709),
        (u64::MAX, u64::MAX, 1, 1_000_000, u64::MAX),
        (10, 20, 1, 1, 20),
    ] {
        let mut profile = QueryWalProfile::new(old, 1);
        profile.record_observation(actual, 2, numerator, denominator);
        assert_eq!(profile.ewma_wal_bytes, expected);
        assert!(old.min(actual) <= profile.ewma_wal_bytes);
        assert!(profile.ewma_wal_bytes <= old.max(actual));
        assert_eq!(profile.max_wal_bytes, old.max(actual));
        assert_eq!(profile.calls, 2);
    }
}

#[test]
fn names_of_modes_and_scope_kinds_are_read_back() {
    for mode in [
        BudgetMode::Off,
        BudgetMode::Observe,
        BudgetMode::Shadow,
        BudgetMode::Reject,
        BudgetMode::Queue,
    ] {
        assert_eq!(BudgetMode::parse_sql(mode.as_sql_str()), Ok(mode));
    }
    for kind in [
        ScopeKind::Database,
        ScopeKind::Role,
        ScopeKind::Application,
        ScopeKind::Tenant,
        ScopeKind::Composite,
    ] {
        assert_eq!(ScopeKind::parse_sql(kind.as_sql_str()), Ok(kind));
    }
}

#[test]
fn counters_saturate_and_do_not_depend_on_the_order() {
    let first = CounterDelta {
        accepted_statements: 1,
        predicted_wal_bytes: u64::MAX,
        ..CounterDelta::default()
    };
    let second = CounterDelta {
        rejected_statements: 2,
        predicted_wal_bytes: 5,
        ..CounterDelta::default()
    };
    let mut forward = PwbCounters::default();
    forward.saturating_add_delta(first);
    forward.saturating_add_delta(second);
    let mut backward = PwbCounters::default();
    backward.saturating_add_delta(second);
    backward.saturating_add_delta(first);
    assert_eq!(forward, backward);
    assert_eq!(forward.accepted_statements, 1);
    assert_eq!(forward.rejected_statements, 2);
    assert_eq!(forward.predicted_wal_bytes, u64::MAX);
}

#[test]
fn enum_bytes_are_read_back_and_others_refused() {
    for byte in 0..=255u8 {
        if let Ok(kind) = decode_decision_kind(byte) {
            assert_eq!(encode_decision_kind(kind), byte);
        }
        if let Ok(code) = decode_reason_code(byte) {
            assert_eq!(encode_reason_code(code), byte);
        }
        if let Ok(kind) = decode_scope_kind(byte) {
            assert_eq!(encode_scope_kind(kind), byte);
        }
        if let Ok(class) = decode_statement_class(byte) {
            assert_eq!(encode_statement_class(class), byte);
        }
    }
    assert_eq!((0..=255).filter(|b| decode_decision_kind(*b).is_ok()).count(), 6);
    assert_eq!((0..=255).filter(|b| decode_reason_code(*b).is_ok()).count(), 10);
    assert_eq!((0..=255).filter(|b| decode_scope_kind(*b).is_ok()).count(), 5);
    assert_eq!((0..=255).filter(|b| decode_statement_class(*b).is_ok()).count(), 5);
}

#[test]
fn tables_of_a_layout_do_not_overlap() {
    let layout = compute_layout(SharedCapacities {
        recent_decisions: 3,
        profiles: 1,
        budget_buckets: 5,
        scope_names: 2,
    })
    .unwrap_or_else(|error| panic!("{error:?}"));
    assert!(size_of::<PwbSharedState>() <= layout.recent_decisions_offset);
    assert!(
        layout.recent_decisions_offset + 3 * size_of::<PwbRecentDecision>()
            <= layout.profiles_offset
    );
    assert!(layout.profiles_offset + size_of::<PwbProfileEntry>() <= layout.budget_buckets_offset);
    assert!(
        layout.budget_buckets_offset + 5 * size_of::<PwbBudgetBucket>()
            <= layout.scope_names_offset
    );
    assert_eq!(
        layout.scope_names_offset + 2 * size_of::<PwbScopeName>(),
        layout.total_bytes
    );
    assert_eq!(layout.scope_names_offset % align_of::<PwbScopeName>(), 0);
}

#[test]
fn the_ring_gives_the_newest_decisions_first() {
    let mut memory = memory(3);
    for timestamp in 1..=5 {
        assert_eq!(record_recent_decision(&mut memory, decision(timestamp)), Ok(()));
        let newest = snapshot_recent_decisions(&memory, 1);
        assert_eq!(newest, Ok(vec![decision(timestamp)]));
    }
    assert_eq!(
        snapshot_recent_decisions(&memory, 100),
        Ok(vec![decision(5), decision(4), decision(3)])
    );
    assert_eq!(snapshot_recent_decisions(&memory, 0), Ok(Vec::new()));
}

#[test]
fn the_ring_starts_over_where_its_sequence_ends() {
    let mut memory = memory(2);
    assert_eq!(record_recent_decision(&mut memory, decision(1)), Ok(()));
    if let Some(region) = memory.region.as_mut() {
        region.state.recent_decision_head = u64::MAX;
    }
    assert_eq!(record_recent_decision(&mut memory, decision(2)), Ok(()));
    assert_eq!(snapshot_recent_decisions(&memory, 10), Ok(vec![decision(2)]));
}

#[test]
fn a_stored_bucket_is_found_and_the_empty_ones_are_behind_it() {
    let mut memory = memory(3);
    for scope_hash in [5u64, 6] {
        let stored = with_budget_bucket(
            &mut memory,
            7,
            scope_hash,
            || BudgetBucketState {
                scope_hash,
                ..bucket(100)
            },
            |_bucket| Ok(()),
        );
        assert_eq!(stored, Ok(()));
    }
    let region = match &memory.region {
        Some(region) => region,
        None => panic!("the region is attached"),
    };
    assert_eq!(find_budget_bucket_slot(&region.budget_buckets, 7, 5), Some(0));
    assert_eq!(find_budget_bucket_slot(&region.budget_buckets, 7, 6), Some(1));
    assert_eq!(find_budget_bucket_slot(&region.budget_buckets, 8, 6), None);
    assert_eq!(find_empty_budget_bucket_slot(&region.budget_buckets), Some(2));
}

#[test]
fn an_observed_query_has_a_profile_in_every_scope() {
    let mut memory = memory(4);
    assert_eq!(
        upsert_scoped_and_global_query_profiles(&mut memory, 99, 42, 100, 1, weights()),
        Ok(())
    );
    assert_eq!(
        upsert_query_profile(&mut memory, Some(99), 42, 300, 2, weights()),
        Ok(())
    );
    assert_eq!(
        lookup_scoped_or_global_query_profile(&memory, 99, 42).map(|p| p.map(|p| p.ewma_wal_bytes)),
        Ok(Some(200))
    );
    assert_eq!(
        lookup_scoped_or_global_query_profile(&memory, 5, 42).map(|p| p.map(|p| p.ewma_wal_bytes)),
        Ok(Some(100))
    );
    assert_eq!(lookup_query_profile(&memory, Some(5), 42), Ok(None));
    assert_eq!(lookup_scoped_or_global_query_profile(&memory, 99, 43), Ok(None));
}

#[test]
fn restoring_does_not_replace_what_was_seen_later() {
    let mut memory = memory(1);
    let snapshot = |query_id: u64, seen: u64| QueryProfileSnapshot {
        scope_hash: None,
        query_id,
        profile: QueryWalProfile::new(query_id * 10, seen),
    };
    assert_eq!(finish_profile_restore(&mut memory, &[snapshot(1, 100)]), Ok(()));
    assert_eq!(finish_profile_restore(&mut memory, &[snapshot(2, 99)]), Ok(()));
    assert_eq!(snapshot_query_profiles(&memory), Ok(vec![snapshot(1, 100)]));
    assert_eq!(finish_profile_restore(&mut memory, &[snapshot(1, 50)]), Ok(()));
    assert_eq!(snapshot_query_profiles(&memory), Ok(vec![snapshot(1, 100)]));
    assert_eq!(finish_profile_restore(&mut memory, &[snapshot(2, 100)]), Ok(()));
    assert_eq!(snapshot_query_profiles(&memory), Ok(vec![snapshot(2, 100)]));
}

#[test]
fn profiles_outlive_the_shared_memory_they_were_in() {
    let mut before = memory(4);
    let mut store = MemoryCatalogStore::with_rows(Vec::new(), Vec::new());
    assert_eq!(
        upsert_scoped_and_global_query_profiles(&mut before, 99, 42, 100, 1, weights()),
        Ok(())
    );
    assert_eq!(
        upsert_query_profile(&mut before, Some(5), 43, 700, 2, weights()),
        Ok(())
    );
    let snapshots = snapshot_query_profiles(&before).unwrap_or_else(|error| panic!("{error:?}"));
    assert_eq!(store.persist_profiles(&snapshots), Ok(()));

    let mut after = memory(3);
    let loaded = store
        .load_profiles(3)
        .unwrap_or_else(|error| panic!("{error:?}"));
    assert_eq!(finish_profile_restore(&mut after, &loaded), Ok(()));
    for (scope_hash, query_id) in [(Some(99), 42), (None, 42), (Some(5), 43), (None, 43)] {
        assert_eq!(
            lookup_query_profile(&after, scope_hash, query_id),
            lookup_query_profile(&before, scope_hash, query_id)
        );
    }
}

#[test]
fn recording_names_keeps_the_names_that_are_there() {
    let mut names = [PwbScopeName::default(); 2];
    record_scope_name_in_slice(&mut names, ScopeKind::Tenant, 1, "a", 10);
    record_scope_name_in_slice(&mut names, ScopeKind::Role, 1, "b", 20);
    record_scope_name_in_slice(&mut names, ScopeKind::Tenant, 2, "c", 30);
    let snapshots =
        snapshot_scope_names_from_slice(&names).unwrap_or_else(|error| panic!("{error:?}"));
    let values: Vec<&str> = snapshots.iter().map(|name| name.scope_value.as_str()).collect();
    assert_eq!(values, vec!["a", "b"]);
}

#[test]
fn long_names_are_cut_off() {
    let long: String = "\u{e4}".repeat(300);
    let name = PwbScopeName::encode_value(ScopeKind::Tenant, 1, &long, 10, 10, 1);
    let snapshot = name.decode().unwrap_or_else(|error| panic!("{error:?}"));
    assert_eq!(snapshot.scope_value, "\u{e4}".repeat(256));
}

#[test]
fn a_refill_never_exceeds_the_burst_nor_the_rate() {
    let result = refill_available_bytes(4000, 5000, 1000, 0, 500);
    assert_eq!(result.available_bytes, 4500);
    let result = refill_available_bytes(4000, 5000, 1000, 0, 1_000_000);
    assert_eq!(result.available_bytes, 5000);
}

#[test]
fn refilling_twice_gains_no_more_than_refilling_once() {
    let once = refill_available_bytes(0, 5000, 3, 0, 2000);
    let half = refill_available_bytes(0, 5000, 3, 0, 500);
    let twice = refill_available_bytes(
        half.available_bytes,
        5000,
        3,
        half.last_refill_epoch_ms,
        2000,
    );
    assert_eq!(once.available_bytes, 6);
    assert_eq!(half.available_bytes, 1);
    assert_eq!(twice.available_bytes, 5);
}

#[test]
fn a_refund_undoes_a_charge() {
    assert_eq!(refund_available(charge_available(3000, 1200), 5000, 1200), 3000);
}

#[test]
fn shadow_mode_foretells_what_reject_mode_does() {
    for predicted in [0, 2999, 3000, 3001] {
        let shadow =
            admit_shadow_with_bucket(predicted, &policy(BudgetMode::Shadow), 1000, &mut bucket(3000));
        let reject =
            admit_reject_with_bucket(predicted, &policy(BudgetMode::Reject), 1000, &mut bucket(3000));
        assert_eq!(shadow.kind == DecisionKind::Allowed, reject.is_ok());
    }
}

#[test]
fn queue_mode_admits_what_reject_mode_admits_and_waits_long_enough() {
    let policy = policy(BudgetMode::Queue);
    let mut queued = bucket(1000);
    let wait = match attempt_queue_charge(2500, &policy, 1000, &mut queued) {
        ChargeAttempt::WouldWait(wait) => wait.wait_ms,
        other => panic!("expected a wait, got {other:?}"),
    };
    assert_eq!(wait, 1500);

    let mut too_early = queued;
    let attempt = attempt_queue_charge(2500, &policy, 1000 + wait - 1, &mut too_early);
    assert!(matches!(attempt, ChargeAttempt::WouldWait(_)));

    let attempt = attempt_queue_charge(2500, &policy, 1000 + wait, &mut queued);
    assert!(matches!(attempt, ChargeAttempt::Admitted(_)));
    assert_eq!(queued.available_bytes, 0);
}

#[test]
fn waits_are_rounded_up_and_cut_off() {
    assert_eq!(wait_ms_for_deficit(0, 0), Ok(0));
    assert_eq!(wait_ms_for_deficit(1000, 1000), Ok(1000));
    assert_eq!(wait_ms_for_deficit(1001, 1000), Ok(1001));
    assert_eq!(wait_ms_for_deficit(u64::MAX, 1), Ok(u64::MAX));
}

#[test]
fn what_is_let_through_is_bounded_by_burst_and_rate() {
    let policy = policy(BudgetMode::Reject);
    let mut bucket = initial_bucket_state(&policy, 99, 0);
    let mut admitted = 0;
    for step in 1..=200u64 {
        let now = step * 37;
        if admit_reject_with_bucket(700, &policy, now, &mut bucket).is_ok() {
            admitted += 700;
        }
        assert!(admitted <= 5000 + 1000 * now / 1000);
    }
    assert!(admitted > 5000);
}

#[test]
fn a_refused_statement_is_not_charged() {
    let mut memory = memory(2);
    let policy = policy(BudgetMode::Reject);
    let charged = admit_statement(&mut memory, &context(4000), &policy, 1000);
    assert!(matches!(charged, Ok(ChargeAttempt::Admitted(_))));
    let before = snapshot_budget_buckets(&memory);
    assert_eq!(
        admit_statement(&mut memory, &context(4000), &policy, 1000),
        Err(PwbError::BudgetExceeded {
            policy_id: 7,
            predicted_wal_bytes: 4000,
            available_wal_bytes: 1000,
        })
    );
    assert_eq!(snapshot_budget_buckets(&memory), before);
}

#[test]
fn buckets_stay_within_the_burst() {
    let mut memory = memory(1);
    let policy = policy(BudgetMode::Reject);
    assert!(admit_statement(&mut memory, &context(10), &policy, 1000).is_ok());
    assert_eq!(refund_charged_bytes(&mut memory, 7, 99, u64::MAX), Ok(()));
    assert_eq!(record_underprediction_debt(&mut memory, 7, 99, 30), Ok(()));
    assert_eq!(refund_charged_bytes(&mut memory, 8, 99, 10), Ok(()));
    let buckets = snapshot_budget_buckets(&memory).unwrap_or_else(|error| panic!("{error:?}"));
    assert_eq!(buckets.len(), 1);
    assert_eq!(buckets[0].available_bytes, 5000);
    assert_eq!(buckets[0].debt_bytes, 30);
    let mut bucket = bucket(u64::MAX);
    assert_eq!(refresh_bucket(&policy, 5000, &mut bucket), 5000);
}

#[test]
fn a_written_profile_is_read_back() {
    let snapshot = QueryProfileSnapshot {
        scope_hash: Some(u64::MAX),
        query_id: 42,
        profile: QueryWalProfile::new(0, 1234),
    };
    let written = SqlQueryProfile::from_snapshot(snapshot);
    let read = decode_profile(&RawQueryProfile {
        scope_hash: written.scope_hash,
        query_id: Some(written.query_id),
        calls: Some(written.calls),
        ewma_wal_bytes: Some(written.ewma_wal_bytes),
        max_wal_bytes: Some(written.max_wal_bytes),
        last_seen_epoch_ms: Some(written.last_seen_epoch_ms),
    });
    assert_eq!(read, Ok(snapshot));
}

#[test]
fn sleep_chunks_add_up_to_the_sleep() {
    let mut remaining = 250;
    let mut chunks = Vec::new();
    while let Some((chunk, rest)) = next_sleep_chunk(remaining) {
        chunks.push(chunk);
        remaining = rest;
    }
    assert_eq!(chunks, vec![100, 100, 50]);
    assert_eq!(next_sleep_chunk(0), None);
}

#[test]
fn capacities_follow_the_settings() {
    let mut settings = GucSettings::default();
    assert_eq!(shmem_capacity(&settings), 4096);
    assert_eq!(recent_decision_capacity(&settings), 4096);
    assert_eq!(profile_cache_capacity(&settings), 4096);
    assert_eq!(budget_bucket_capacity(&settings), 4096);
    settings.shmem_capacity = 10;
    settings.profile_cache_capacity = 20;
    settings.budget_bucket_capacity = 0;
    let layout = requested_layout(&settings).unwrap_or_else(|error| panic!("{error:?}"));
    assert_eq!(layout.recent_decision_capacity, 10);
    assert_eq!(layout.profile_cache_capacity, 20);
    assert_eq!(layout.budget_bucket_capacity, 0);
}

#[test]
fn settings_start_with_a_value_they_accept() {
    let definitions = register_gucs();
    assert_eq!(definitions.len(), 12);
    for definition in &definitions {
        assert!(definition.name.starts_with("pwb."));
        if let GucValue::Int { default, min, max } = definition.value {
            assert!(min <= default && default <= max);
        }
    }
    assert_eq!(definitions[2].name, "pwb.default_write_wal_bytes");
    assert!(definitions[2].unit_is_byte);
    assert!(matches!(
        definitions[2].value,
        GucValue::Int {
            default: 16_384,
            min: 0,
            ..
        }
    ));
}

#[test]
fn predictions_stay_below_their_bound() {
    let mut settings = GucSettings::default();
    settings.max_prediction_bytes = 1000;
    let profile = QueryWalProfile::new(4000, 1);
    assert_eq!(predict_wal_bytes(&settings, StatementClass::Write, Some(profile)), 1000);
    assert_eq!(predict_wal_bytes(&settings, StatementClass::Write, None), 1000);
    assert_eq!(predict_wal_bytes(&settings, StatementClass::ReadOnly, Some(profile)), 0);
    settings.max_prediction_bytes = 1_000_000;
    assert_eq!(predict_wal_bytes(&settings, StatementClass::Write, Some(profile)), 4000);
    assert_eq!(predict_wal_bytes(&settings, StatementClass::Write, None), 16_384);
}

#[test]
fn valid_policies_have_budgets_that_stay_valid() {
    let policy = validate_policy_definition("tenant", Some("a"), 10, 10, "queue", 1)
        .unwrap_or_else(|error| panic!("{error:?}"));
    assert!(policy.wal_rate_bytes_per_sec > 0);
    assert!(policy.wal_burst_bytes >= policy.wal_rate_bytes_per_sec);
    for (rate, burst, field) in [
        (0, 10, "wal_rate_bytes_per_sec"),
        (-5, 10, "wal_rate_bytes_per_sec"),
        (5, 0, "wal_burst_bytes"),
        (5, 4, "wal_burst_bytes"),
    ] {
        match validate_policy_budget_update(rate, burst) {
            Err(PwbError::InvalidPolicyValue { field: found, .. }) => assert_eq!(found, field),
            other => panic!("expected an invalid value, got {other:?}"),
        }
    }
}

fn row(policy_id: i32, scope_value: Option<&str>) -> DurablePolicyRow {
    DurablePolicyRow {
        policy_id,
        scope_kind: "tenant".to_string(),
        scope_value: scope_value.map(ToString::to_string),
        enabled: true,
        mode: "reject".to_string(),
        wal_rate_bytes_per_sec: 100,
        wal_burst_bytes: 500,
    }
}

#[test]
fn the_first_policy_that_covers_a_scope_decides() {
    let mut disabled = row(1, Some("a"));
    disabled.enabled = false;
    let rows = vec![disabled, row(2, Some("b")), row(3, None), row(4, Some("a"))];
    let store = MemoryCatalogStore::with_rows(rows, Vec::new());
    let cache = load_policy_cache_from(&store, 0).unwrap_or_else(|error| panic!("{error:?}"));
    for (value, policy_id) in [("a", 3), ("b", 2), ("c", 3)] {
        let scope = ScopeKey::with_debug_value(ScopeKind::Tenant, 1, value);
        assert_eq!(
            find_effective_policy(&cache, &scope).map(|policy| policy.policy_id),
            Some(policy_id)
        );
    }
    let scope = ScopeKey::with_debug_value(ScopeKind::Role, 1, "a");
    assert_eq!(find_effective_policy(&cache, &scope), None);
}

#[test]
fn a_stored_policy_that_is_not_valid_is_not_cached() {
    let mut bad = row(1, None);
    bad.wal_burst_bytes = 99;
    let store = MemoryCatalogStore::with_rows(vec![bad], Vec::new());
    assert!(load_policy_cache_from(&store, 0).is_err());
    let mut bad = row(1, None);
    bad.mode = "enforce".to_string();
    let store = MemoryCatalogStore::with_rows(vec![bad], Vec::new());
    assert_eq!(
        load_policy_cache_from(&store, 0),
        Err(PwbError::InvalidBudgetMode {
            value: "enforce".to_string()
        })
    );
}

#[test]
fn admins_may_do_what_tenant_setters_may() {
    let user = |is_superuser: bool, roles: &[&str]| InvokingUser {
        is_superuser,
        roles: roles.iter().map(ToString::to_string).collect(),
    };
    let refused = Err(PwbError::InsufficientPrivilege { operation: "try" });
    let setter = PrivilegeGate::TenantSetter;
    assert_eq!(require(PrivilegeGate::Admin, "try", &user(true, &[])), Ok(()));
    assert_eq!(require(PrivilegeGate::Admin, "try", &user(false, &["pwb_admin"])), Ok(()));
    assert_eq!(require(setter, "try", &user(false, &["x", "pwb_admin"])), Ok(()));
    assert_eq!(require(setter, "try", &user(false, &["pwb_tenant_setter"])), Ok(()));
    assert_eq!(
        require(PrivilegeGate::Admin, "try", &user(false, &["pwb_tenant_setter"])),
        refused
    );
    assert_eq!(require(setter, "try", &user(false, &["pwb_monitor"])), refused);
}

#[test]
fn scopes_are_classified_by_precedence() {
    let names = |role: &str, database: &str, application: &str| SessionNames {
        role: Some(role.to_string()),
        database: Some(database.to_string()),
        application: Some(application.to_string()),
    };
    let mut state = BackendScopeState::default();
    for (names, kind, value) in [
        (names(" app ", "db", "psql"), ScopeKind::Role, "app"),
        (names(" ", "db", "psql"), ScopeKind::Database, "db"),
        (names("", "", "psql"), ScopeKind::Application, "psql"),
    ] {
        let scope = classify_current_scope(&mut state, false, &names)
            .unwrap_or_else(|error| panic!("{error:?}"));
        assert_eq!(scope.kind, kind);
        assert_eq!(scope.debug_value.as_deref(), Some(value));
        assert_eq!(scope.value_hash, hash_scope_value(kind, value));
        assert_eq!(state.last_scope_hash, Some(scope.value_hash));
    }
    assert_eq!(
        classify_current_scope(&mut state, true, &names("", " ", "")),
        Err(PwbError::MissingScope)
    );
    assert_eq!(set_tenant_impl(&mut state, " tenant-a "), Ok(()));
    let scope = classify_current_scope(&mut state, false, &names("app", "db", "psql"));
    assert_eq!(scope.map(|scope| scope.kind), Ok(ScopeKind::Tenant));
}

#[test]
fn composite_scopes_join_what_is_there() {
    let mut state = BackendScopeState::default();
    assert_eq!(set_tenant_impl(&mut state, "tenant-a"), Ok(()));
    let mut names = SessionNames {
        role: Some("app_user".to_string()),
        database: Some("postgres".to_string()),
        application: None,
    };
    let scope = classify_current_scope(&mut state, true, &names)
        .unwrap_or_else(|error| panic!("{error:?}"));
    assert_eq!(scope.kind, ScopeKind::Composite);
    assert_eq!(
        scope.debug_value.as_deref(),
        Some("tenant=tenant-a|role=app_user|database=postgres")
    );
    names.role = None;
    names.database = None;
    let scope = classify_current_scope(&mut state, true, &names);
    assert_eq!(scope.map(|scope| scope.kind), Ok(ScopeKind::Tenant));
}

#[test]
fn scope_hashes_are_fnv1a_over_kind_and_value() {
    let mut expected: u64 = 0xcbf2_9ce4_8422_2325;
    for byte in "t:gr\u{fc}n".bytes() {
        expected = (expected ^ u64::from(byte)).wrapping_mul(0x0000_0100_0000_01b3);
    }
    assert_eq!(hash_scope_value(ScopeKind::Tenant, "gr\u{fc}n"), expected);
}

#[test]
fn utilities_are_told_apart() {
    for tag in [NodeTag::VacuumStmt, NodeTag::DropSubscriptionStmt, NodeTag::DoStmt] {
        assert!(is_known_wal_candidate_utility(tag));
        assert!(!is_known_read_only_utility(tag));
        for read_only_tree in [false, true] {
            assert_eq!(
                classify_utility_node_tag(tag, None, read_only_tree),
                StatementClass::Utility
            );
        }
    }
    for tag in [NodeTag::DeallocateStmt, NodeTag::TransactionStmt] {
        assert!(!is_known_wal_candidate_utility(tag));
        for read_only_tree in [false, true] {
            assert_eq!(
                classify_utility_node_tag(tag, None, read_only_tree),
                StatementClass::ReadOnly
            );
        }
    }
    assert_eq!(
        classify_utility_node_tag(NodeTag::CopyStmt, None, true),
        StatementClass::Copy
    );
}

#[test]
fn every_decision_is_counted_once() {
    for decision in [
        AdmissionDecision::allowed(Some(7), 5, ReasonCode::BudgetAvailable),
        AdmissionDecision::would_reject(7, 5),
        AdmissionDecision::rejected(7, 5),
        AdmissionDecision::no_matching_policy(),
        AdmissionDecision::internal_error_fail_open(),
    ] {
        let delta = counter_delta_for_decision(decision, 2048);
        assert_eq!(delta.accepted_statements + delta.rejected_statements, 1);
        assert_eq!(
            delta.rejected_statements,
            u64::from(decision.kind == DecisionKind::Rejected)
        );
        assert_eq!(delta.predicted_wal_bytes, 2048);
        assert_eq!(delta.actual_wal_bytes, 0);
    }
}

#[test]
fn adjustments_make_up_the_difference() {
    let statement = ActiveStatementState {
        decision: AdmissionDecision::allowed(Some(7), 100, ReasonCode::BudgetAvailable),
        start_wal_bytes: Some(0),
        measurement_kind: WalMeasurementKind::ExactBackend,
        query_id: None,
        scope_kind: ScopeKind::Tenant,
        scope_hash: 99,
        statement_class: StatementClass::Write,
        predicted_wal_bytes: 100,
    };
    for actual in [0, 99, 100, 101, u64::MAX] {
        let made_up = match budget_reconciliation(&statement, actual) {
            BudgetReconciliation::Unchanged => 100,
            BudgetReconciliation::Refund(bytes) => 100 - bytes,
            BudgetReconciliation::Debt(bytes) => 100 + bytes,
        };
        assert_eq!(made_up, actual);
    }
}

#[test]
fn bypasses_nest() {
    let mut state = LifecycleState::default();
    let outer = AdmissionBypassGuard::enter(&mut state);
    let inner = AdmissionBypassGuard::enter(&mut state);
    inner.leave(&mut state);
    assert!(admission_is_bypassed(&state));
    outer.leave(&mut state);
    assert!(!admission_is_bypassed(&state));
    assert_eq!(state, LifecycleState::default());

    for depth in [0, 1, usize::MAX - 1, usize::MAX] {
        let mut state = LifecycleState {
            bypass_depth: depth,
            ..LifecycleState::default()
        };
        let before = admission_is_bypassed(&state);
        let value = with_admission_bypass(&mut state, |state| {
            assert!(admission_is_bypassed(state));
            with_admission_bypass(state, |state| assert!(admission_is_bypassed(state)));
            assert!(admission_is_bypassed(state));
            17
        });
        assert_eq!(value, 17);
        assert_eq!(admission_is_bypassed(&state), before);
        if depth < usize::MAX - 1 {
            assert_eq!(state.bypass_depth, depth);
        }
    }
}

#[test]
fn resets_leave_the_other_tables_alone() {
    let mut memory = memory(2);
    let delta = CounterDelta {
        accepted_statements: 3,
        ..CounterDelta::default()
    };
    assert_eq!(add_counters(&mut memory, delta), Ok(()));
    assert_eq!(record_recent_decision(&mut memory, decision(1)), Ok(()));
    assert_eq!(
        upsert_query_profile(&mut memory, None, 42, 100, 1, weights()),
        Ok(())
    );
    assert_eq!(reset_recent_decisions(&mut memory), Ok(()));
    assert_eq!(snapshot_counters(&memory).map(|c| c.accepted_statements), Ok(3));
    assert_eq!(snapshot_recent_decisions(&memory, 5), Ok(Vec::new()));
    assert_eq!(reset_stats(&mut memory), Ok(()));
    assert_eq!(snapshot_counters(&memory), Ok(PwbCounters::default()));
    assert_eq!(snapshot_query_profiles(&memory).map(|p| p.len()), Ok(1));
    assert_eq!(add_counters(&mut memory, delta), Ok(()));
    assert_eq!(reset_profiles(&mut memory), Ok(()));
    assert_eq!(snapshot_query_profiles(&memory), Ok(Vec::new()));
    assert_eq!(snapshot_counters(&memory).map(|c| c.accepted_statements), Ok(3));
    assert_eq!(reset_counters(&mut memory), Ok(()));
    assert_eq!(snapshot_counters(&memory), Ok(PwbCounters::default()));
}
