use pg_wal_budget::errors::PwbError;
use pg_wal_budget::shmem::{LAYOUT_VERSION, MAGIC};
use pg_wal_budget::shmem::budget_buckets::{apply_budget_bucket, snapshot_budget_buckets_from_slice};
use pg_wal_budget::shmem::layout::{SharedCapacities, compute_layout};
use pg_wal_budget::shmem::profiles::{
    find_profile_slot, initial_profile_restore_state, snapshot_profiles_from_slice,
    upsert_query_profile_locked, upsert_scoped_and_global_query_profiles_locked,
};
use pg_wal_budget::shmem::recent_decisions::ring_slot;
use pg_wal_budget::shmem::records::{
    BudgetBucketState, PwbBudgetBucket, PwbCounters, PwbProfileEntry, PwbQueryWalProfile,
    PwbRecentDecision, PwbSharedState, RecentDecisionRecord,
};
use pg_wal_budget::types::{
    DecisionKind, EpochMillis, ProfileEwmaWeights, QueryWalProfile, ReasonCode, ScopeKind,
    StatementClass, WalBytes,
};

use std::mem::{align_of, size_of};

const UNSET_ENUM: u8 = 0;

/// One capacity for the decisions, one for the profiles and the buckets.
fn capacities(recent_decisions: usize, profiles: usize) -> SharedCapacities {
    SharedCapacities {
        recent_decisions,
        profiles,
        budget_buckets: profiles,
        scope_names: 0,
    }
}

fn test_state(budget_bucket_capacity: u32) -> PwbSharedState {
    PwbSharedState {
        magic: MAGIC,
        layout_version: LAYOUT_VERSION,
        recent_decision_capacity: 0,
        profile_cache_capacity: 0,
        budget_bucket_capacity,
        scope_name_capacity: 0,
        recent_decision_head: 0,
        recent_decision_count: 0,
        profiles_len: 0,
        budget_buckets_len: 0,
        profile_restore_state: initial_profile_restore_state(),
        profile_restore_started_epoch_ms: 0,
        last_profile_persist_epoch_ms: 0,
        profile_dirty_count: 0,
        counters: PwbCounters::default(),
    }
}

#[test]
fn shmem_computes_aligned_layout() {
    let layout = compute_layout(capacities(7, 11)).unwrap_or_else(|error| panic!("{error:?}"));

    assert!(layout.total_bytes >= size_of::<PwbSharedState>());
    assert_eq!(
        layout.recent_decisions_offset % align_of::<PwbRecentDecision>(),
        0
    );
    assert_eq!(layout.profiles_offset % align_of::<PwbProfileEntry>(), 0);
    assert_eq!(
        layout.budget_buckets_offset % align_of::<PwbBudgetBucket>(),
        0
    );
    assert_eq!(layout.recent_decision_capacity, 7);
    assert_eq!(layout.profile_cache_capacity, 11);
    assert_eq!(layout.budget_bucket_capacity, 11);
}

#[test]
fn shmem_allows_zero_capacity_layout() {
    let layout = compute_layout(capacities(0, 0)).unwrap_or_else(|error| panic!("{error:?}"));

    assert!(layout.total_bytes >= size_of::<PwbSharedState>());
    assert_eq!(layout.recent_decision_capacity, 0);
    assert_eq!(layout.profile_cache_capacity, 0);
}

#[test]
fn shmem_rejects_layout_overflow() {
    assert!(compute_layout(capacities(usize::MAX, 1)).is_err());
}

#[test]
fn shmem_maps_ring_sequence_to_slot() {
    assert_eq!(ring_slot(0, 4), 0);
    assert_eq!(ring_slot(3, 4), 3);
    assert_eq!(ring_slot(4, 4), 0);
    assert_eq!(ring_slot(9, 4), 1);
}

#[test]
fn shmem_encodes_and_decodes_recent_decision() {
    let record = RecentDecisionRecord {
        timestamp_epoch_ms: 123,
        decision_kind: DecisionKind::WouldReject,
        policy_id: Some(7),
        scope_kind: ScopeKind::Tenant,
        scope_hash: 99,
        query_id: Some(42),
        statement_class: StatementClass::Write,
        predicted_wal_bytes: 2048,
        actual_wal_bytes: Some(1024),
        available_before: 4096,
        available_after: 2048,
        reason_code: ReasonCode::BudgetExceeded,
    };

    let encoded = PwbRecentDecision::encode(record);
    let decoded = encoded.decode().unwrap_or_else(|error| panic!("{error:?}"));

    assert_eq!(decoded, record);
}

#[test]
fn shmem_encodes_and_decodes_budget_bucket() {
    let bucket = BudgetBucketState {
        policy_id: 7,
        scope_hash: 99,
        available_bytes: 1024,
        max_burst_bytes: 4096,
        rate_bytes_per_sec: 512,
        last_refill_epoch_ms: 123,
        debt_bytes: 64,
    };

    let encoded = PwbBudgetBucket::encode(bucket);
    let decoded = encoded.decode().unwrap_or_else(|error| panic!("{error:?}"));

    assert_eq!(decoded, bucket);
}

#[test]
fn shmem_snapshots_only_occupied_budget_buckets() {
    let buckets = [
        PwbBudgetBucket::encode(BudgetBucketState {
            policy_id: 7,
            scope_hash: 99,
            available_bytes: 1024,
            max_burst_bytes: 4096,
            rate_bytes_per_sec: 512,
            last_refill_epoch_ms: 123,
            debt_bytes: 64,
        }),
        PwbBudgetBucket::default(),
    ];

    let snapshots =
        snapshot_budget_buckets_from_slice(&buckets, buckets.len()).unwrap_or_else(|error| panic!("{error:?}"));

    assert_eq!(snapshots.len(), 1);
    assert_eq!(snapshots[0].policy_id, 7);
    assert_eq!(snapshots[0].scope_hash, 99);
    assert_eq!(snapshots[0].debt_bytes, 64);
}

#[test]
fn shmem_encodes_and_decodes_scoped_and_global_profiles() {
    let scoped =
        PwbProfileEntry::encode(Some(99), 42, PwbQueryWalProfile::from(profile(100, 1)));
    let global = PwbProfileEntry::encode(None, 42, PwbQueryWalProfile::from(profile(200, 2)));

    let decoded_scoped = scoped.decode().unwrap_or_else(|error| panic!("{error:?}"));
    let decoded_global = global.decode().unwrap_or_else(|error| panic!("{error:?}"));

    assert_eq!(decoded_scoped.scope_hash, Some(99));
    assert_eq!(decoded_scoped.query_id, 42);
    assert_eq!(decoded_scoped.profile.ewma_wal_bytes, 100);
    assert_eq!(decoded_global.scope_hash, None);
    assert_eq!(decoded_global.query_id, 42);
    assert_eq!(decoded_global.profile.ewma_wal_bytes, 200);
}

#[test]
fn shmem_finds_scoped_and_global_profile_slots_separately() {
    let profiles = [
        PwbProfileEntry::encode(Some(99), 42, PwbQueryWalProfile::from(profile(100, 1))),
        PwbProfileEntry::encode(None, 42, PwbQueryWalProfile::from(profile(200, 2))),
    ];

    assert_eq!(find_profile_slot(&profiles, Some(99), 42), Some(0));
    assert_eq!(find_profile_slot(&profiles, None, 42), Some(1));
    assert_eq!(find_profile_slot(&profiles, Some(100), 42), None);
}

#[test]
fn shmem_snapshots_only_occupied_profiles() {
    let profiles = [
        PwbProfileEntry::encode(Some(99), 42, PwbQueryWalProfile::from(profile(100, 1))),
        PwbProfileEntry::default(),
        PwbProfileEntry::encode(None, 42, PwbQueryWalProfile::from(profile(200, 2))),
    ];

    let snapshots =
        snapshot_profiles_from_slice(&profiles).unwrap_or_else(|error| panic!("{error:?}"));

    assert_eq!(snapshots.len(), 2);
    assert_eq!(snapshots[0].scope_hash, Some(99));
    assert_eq!(snapshots[1].scope_hash, None);
    assert_eq!(snapshots[1].profile.ewma_wal_bytes, 200);
}

#[test]
fn shmem_upserts_profile_into_first_empty_slot() {
    let mut state = test_state(0);
    state.profile_cache_capacity = 2;
    let mut profiles = [PwbProfileEntry::default(), PwbProfileEntry::default()];

    upsert_query_profile_locked(
        &mut state,
        &mut profiles,
        Some(99),
        42,
        100,
        1,
        test_profile_weights(),
    )
    .unwrap_or_else(|error| panic!("{error:?}"));

    assert_eq!(state.profiles_len, 1);
    let decoded = profiles[0]
        .decode()
        .unwrap_or_else(|error| panic!("{error:?}"));
    assert_eq!(decoded.scope_hash, Some(99));
    assert_eq!(decoded.query_id, 42);
    assert_eq!(decoded.profile.ewma_wal_bytes, 100);
}

#[test]
fn shmem_upserts_existing_profile_with_ewma() {
    let mut state = test_state(0);
    state.profile_cache_capacity = 1;
    state.profiles_len = 1;
    let mut profiles = [PwbProfileEntry::encode(
        Some(99),
        42,
        PwbQueryWalProfile::from(profile(100, 1)),
    )];

    upsert_query_profile_locked(
        &mut state,
        &mut profiles,
        Some(99),
        42,
        300,
        2,
        test_profile_weights(),
    )
    .unwrap_or_else(|error| panic!("{error:?}"));

    let decoded = profiles[0]
        .decode()
        .unwrap_or_else(|error| panic!("{error:?}"));
    assert_eq!(decoded.profile.calls, 2);
    assert_eq!(decoded.profile.ewma_wal_bytes, 200);
    assert_eq!(decoded.profile.max_wal_bytes, 300);
    assert_eq!(decoded.profile.last_seen_epoch_ms, 2);
}

#[test]
fn shmem_evicts_oldest_profile_when_capacity_is_full() {
    let mut state = test_state(0);
    state.profile_cache_capacity = 2;
    state.profiles_len = 2;
    let mut profiles = [
        PwbProfileEntry::encode(Some(1), 1, PwbQueryWalProfile::from(profile(100, 10))),
        PwbProfileEntry::encode(Some(2), 2, PwbQueryWalProfile::from(profile(200, 5))),
    ];

    upsert_query_profile_locked(
        &mut state,
        &mut profiles,
        Some(3),
        3,
        300,
        20,
        test_profile_weights(),
    )
    .unwrap_or_else(|error| panic!("{error:?}"));

    assert_eq!(find_profile_slot(&profiles, Some(1), 1), Some(0));
    assert_eq!(find_profile_slot(&profiles, Some(2), 2), None);
    assert_eq!(find_profile_slot(&profiles, Some(3), 3), Some(1));
    assert_eq!(state.profiles_len, 2);
}

#[test]
fn shmem_rejects_profile_upsert_when_capacity_is_zero() {
    let mut state = test_state(0);
    let mut profiles = [];

    assert!(
        upsert_query_profile_locked(
            &mut state,
            &mut profiles,
            Some(99),
            42,
            100,
            1,
            test_profile_weights(),
        )
        .is_err()
    );
}

#[test]
fn shmem_batched_profile_upsert_with_capacity_one_keeps_one_profile() {
    let mut state = test_state(0);
    state.profile_cache_capacity = 1;
    let mut profiles = [PwbProfileEntry::default()];

    upsert_scoped_and_global_query_profiles_locked(
        &mut state,
        &mut profiles,
        99,
        42,
        100,
        1,
        test_profile_weights(),
    )
    .unwrap_or_else(|error| panic!("{error:?}"));

    assert_eq!(state.profiles_len, 1);
    assert_eq!(
        profiles
            .iter()
            .filter(|profile| profile.occupied == 1)
            .count(),
        1
    );
}

#[test]
fn shmem_batched_profile_upsert_updates_scoped_and_global_entries_when_capacity_allows() {
    let mut state = test_state(0);
    state.profile_cache_capacity = 2;
    let mut profiles = [PwbProfileEntry::default(), PwbProfileEntry::default()];

    upsert_scoped_and_global_query_profiles_locked(
        &mut state,
        &mut profiles,
        99,
        42,
        100,
        1,
        test_profile_weights(),
    )
    .unwrap_or_else(|error| panic!("{error:?}"));

    assert_eq!(find_profile_slot(&profiles, Some(99), 42), Some(0));
    assert_eq!(find_profile_slot(&profiles, None, 42), Some(1));
    assert_eq!(state.profiles_len, 2);
}

#[test]
fn shmem_batched_profile_upsert_can_evict_twice_when_full() {
    let mut state = test_state(0);
    state.profile_cache_capacity = 2;
    state.profiles_len = 2;
    let mut profiles = [
        PwbProfileEntry::encode(Some(1), 1, PwbQueryWalProfile::from(profile(100, 1))),
        PwbProfileEntry::encode(Some(2), 2, PwbQueryWalProfile::from(profile(200, 2))),
    ];

    upsert_scoped_and_global_query_profiles_locked(
        &mut state,
        &mut profiles,
        99,
        42,
        300,
        3,
        test_profile_weights(),
    )
    .unwrap_or_else(|error| panic!("{error:?}"));

    assert_eq!(find_profile_slot(&profiles, Some(99), 42), Some(0));
    assert_eq!(find_profile_slot(&profiles, None, 42), Some(1));
    assert_eq!(find_profile_slot(&profiles, Some(1), 1), None);
    assert_eq!(find_profile_slot(&profiles, Some(2), 2), None);
    assert_eq!(state.profiles_len, 2);
}

#[test]
fn shmem_new_budget_bucket_is_not_persisted_when_callback_errors() {
    let mut state = test_state(1);
    let mut buckets = [PwbBudgetBucket::default()];
    let error = match apply_budget_bucket(
        &mut state,
        &mut buckets,
        7,
        99,
        || BudgetBucketState {
            policy_id: 7,
            scope_hash: 99,
            available_bytes: 1024,
            max_burst_bytes: 4096,
            rate_bytes_per_sec: 512,
            last_refill_epoch_ms: 123,
            debt_bytes: 0,
        },
        |_bucket| {
            Err(PwbError::BudgetExceeded {
                policy_id: 7,
                predicted_wal_bytes: 2048,
                available_wal_bytes: 1024,
            })
        },
    ) {
        Ok(()) => panic!("expected callback error"),
        Err(error) => error,
    };

    assert!(matches!(error, PwbError::BudgetExceeded { .. }));
    assert_eq!(state.budget_buckets_len, 0);
    assert_eq!(buckets[0], PwbBudgetBucket::default());
}

#[test]
fn shmem_existing_budget_bucket_is_persisted_when_callback_succeeds() {
    let mut state = test_state(1);
    state.budget_buckets_len = 1;
    let initial = BudgetBucketState {
        policy_id: 7,
        scope_hash: 99,
        available_bytes: 1024,
        max_burst_bytes: 4096,
        rate_bytes_per_sec: 512,
        last_refill_epoch_ms: 123,
        debt_bytes: 0,
    };
    let mut buckets = [PwbBudgetBucket::encode(initial)];

    apply_budget_bucket(
        &mut state,
        &mut buckets,
        7,
        99,
        || panic!("existing bucket should not be initialized"),
        |bucket| {
            bucket.available_bytes = 256;
            Ok(())
        },
    )
    .unwrap_or_else(|error| panic!("{error:?}"));

    assert_eq!(state.budget_buckets_len, 1);
    assert_eq!(
        buckets[0]
            .decode()
            .unwrap_or_else(|error| panic!("{error:?}"))
            .available_bytes,
        256
    );
}

#[test]
fn shmem_rejects_invalid_enum_decode() {
    let mut encoded = PwbRecentDecision::encode(RecentDecisionRecord {
        timestamp_epoch_ms: 123,
        decision_kind: DecisionKind::Allowed,
        policy_id: None,
        scope_kind: ScopeKind::Database,
        scope_hash: 99,
        query_id: None,
        statement_class: StatementClass::ReadOnly,
        predicted_wal_bytes: 0,
        actual_wal_bytes: None,
        available_before: 0,
        available_after: 0,
        reason_code: ReasonCode::BudgetAvailable,
    });
    encoded.decision_kind = UNSET_ENUM;

    assert!(encoded.decode().is_err());
}

fn profile(ewma_wal_bytes: WalBytes, last_seen_epoch_ms: EpochMillis) -> QueryWalProfile {
    QueryWalProfile {
        calls: 1,
        ewma_wal_bytes,
        max_wal_bytes: ewma_wal_bytes,
        last_seen_epoch_ms,
    }
}

fn test_profile_weights() -> ProfileEwmaWeights {
    ProfileEwmaWeights::new(1, 2).unwrap_or_else(|error| panic!("{error:?}"))
}
