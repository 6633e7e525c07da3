use pg_wal_budget::shmem::{LAYOUT_VERSION, MAGIC};
use pg_wal_budget::shmem::profiles::{
    find_profile_slot, initial_profile_restore_state, snapshot_profiles_from_slice,
    upsert_query_profile_locked, upsert_scoped_and_global_query_profiles_locked,
};
use pg_wal_budget::shmem::records::{
    PwbCounters, PwbProfileEntry, PwbQueryWalProfile, PwbSharedState,
};
use pg_wal_budget::types::{EpochMillis, ProfileEwmaWeights, QueryWalProfile, WalBytes};

fn test_state(budget_bucket_capacity: u32) -> PwbSharedState {
    PwbSharedState {
        magic: MAGIC,
        layout_version: LAYOUT_VERSION,
        recent_decision_capacity: 0,
        profile_cache_capacity: 0,
        budget_bucket_capacity,
        scope_name_capacity: 0,
        recent_decision_head: 0,
        recent_decision_count: 0,
        profiles_len: 0,
        budget_buckets_len: 0,
        profile_restore_state: initial_profile_restore_state(),
        profile_restore_started_epoch_ms: 0,
        last_profile_persist_epoch_ms: 0,
        profile_dirty_count: 0,
        counters: PwbCounters::default(),
    }
}

#[test]
fn profiles_finds_scoped_and_global_profile_slots_separately() {
    let profiles = [
        PwbProfileEntry::encode(Some(99), 42, PwbQueryWalProfile::from(profile(100, 1))),
        PwbProfileEntry::encode(None, 42, PwbQueryWalProfile::from(profile(200, 2))),
    ];

    assert_eq!(find_profile_slot(&profiles, Some(99), 42), Some(0));
    assert_eq!(find_profile_slot(&profiles, None, 42), Some(1));
    assert_eq!(find_profile_slot(&profiles, Some(100), 42), None);
}

#[test]
fn profiles_snapshots_only_occupied_profiles() {
    let profiles = [
        PwbProfileEntry::encode(Some(99), 42, PwbQueryWalProfile::from(profile(100, 1))),
        PwbProfileEntry::default(),
        PwbProfileEntry::encode(None, 42, PwbQueryWalProfile::from(profile(200, 2))),
    ];

    let snapshots =
        snapshot_profiles_from_slice(&profiles).unwrap_or_else(|error| panic!("{error:?}"));

    assert_eq!(snapshots.len(), 2);
    assert_eq!(snapshots[0].scope_hash, Some(99));
    assert_eq!(snapshots[1].scope_hash, None);
    assert_eq!(snapshots[1].profile.ewma_wal_bytes, 200);
}

#[test]
fn profiles_upserts_profile_into_first_empty_slot() {
    let mut state = test_state(0);
    state.profile_cache_capacity = 2;
    let mut profiles = [PwbProfileEntry::default(), PwbProfileEntry::default()];

    upsert_query_profile_locked(
        &mut state,
        &mut profiles,
        Some(99),
        42,
        100,
        1,
        test_profile_weights(),
    )
    .unwrap_or_else(|error| panic!("{error:?}"));

    assert_eq!(state.profiles_len, 1);
    let decoded = profiles[0]
        .decode()
        .unwrap_or_else(|error| panic!("{error:?}"));
    assert_eq!(decoded.scope_hash, Some(99));
    assert_eq!(decoded.query_id, 42);
    assert_eq!(decoded.profile.ewma_wal_bytes, 100);
}

#[test]
fn profiles_upserts_existing_profile_with_ewma() {
    let mut state = test_state(0);
    state.profile_cache_capacity = 1;
    state.profiles_len = 1;
    let mut profiles = [PwbProfileEntry::encode(
        Some(99),
        42,
        PwbQueryWalProfile::from(profile(100, 1)),
    )];

    upsert_query_profile_locked(
        &mut state,
        &mut profiles,
        Some(99),
        42,
        300,
        2,
        test_profile_weights(),
    )
    .unwrap_or_else(|error| panic!("{error:?}"));

    let decoded = profiles[0]
        .decode()
        .unwrap_or_else(|error| panic!("{error:?}"));
    assert_eq!(decoded.profile.calls, 2);
    assert_eq!(decoded.profile.ewma_wal_bytes, 200);
    assert_eq!(decoded.profile.max_wal_bytes, 300);
    assert_eq!(decoded.profile.last_seen_epoch_ms, 2);
}

#[test]
fn profiles_evicts_oldest_profile_when_capacity_is_full() {
    let mut state = test_state(0);
    state.profile_cache_capacity = 2;
    state.profiles_len = 2;
    let mut profiles = [
        PwbProfileEntry::encode(Some(1), 1, PwbQueryWalProfile::from(profile(100, 10))),
        PwbProfileEntry::encode(Some(2), 2, PwbQueryWalProfile::from(profile(200, 5))),
    ];

    upsert_query_profile_locked(
        &mut state,
        &mut profiles,
        Some(3),
        3,
        300,
        20,
        test_profile_weights(),
    )
    .unwrap_or_else(|error| panic!("{error:?}"));

    assert_eq!(find_profile_slot(&profiles, Some(1), 1), Some(0));
    assert_eq!(find_profile_slot(&profiles, Some(2), 2), None);
    assert_eq!(find_profile_slot(&profiles, Some(3), 3), Some(1));
    assert_eq!(state.profiles_len, 2);
}

#[test]
fn profiles_rejects_profile_upsert_when_capacity_is_zero() {
    let mut state = test_state(0);
    let mut profiles = [];

    assert!(
        upsert_query_profile_locked(
            &mut state,
            &mut profiles,
            Some(99),
            42,
            100,
            1,
            test_profile_weights(),
        )
        .is_err()
    );
}

#[test]
fn profiles_batched_profile_upsert_with_capacity_one_keeps_one_profile() {
    let mut state = test_state(0);
    state.profile_cache_capacity = 1;
    let mut profiles = [PwbProfileEntry::default()];

    upsert_scoped_and_global_query_profiles_locked(
        &mut state,
        &mut profiles,
        99,
        42,
        100,
        1,
        test_profile_weights(),
    )
    .unwrap_or_else(|error| panic!("{error:?}"));

    assert_eq!(state.profiles_len, 1);
    assert_eq!(
        profiles
            .iter()
            .filter(|profile| profile.occupied == 1)
            .count(),
        1
    );
}

#[test]
fn profiles_batched_profile_upsert_updates_scoped_and_global_entries_when_capacity_allows() {
    let mut state = test_state(0);
    state.profile_cache_capacity = 2;
    let mut profiles = [PwbProfileEntry::default(), PwbProfileEntry::default()];

    upsert_scoped_and_global_query_profiles_locked(
        &mut state,
        &mut profiles,
        99,
        42,
        100,
        1,
        test_profile_weights(),
    )
    .unwrap_or_else(|error| panic!("{error:?}"));

    assert_eq!(find_profile_slot(&profiles, Some(99), 42), Some(0));
    assert_eq!(find_profile_slot(&profiles, None, 42), Some(1));
    assert_eq!(state.profiles_len, 2);
}

#[test]
fn profiles_batched_profile_upsert_can_evict_twice_when_full() {
    let mut state = test_state(0);
    state.profile_cache_capacity = 2;
    state.profiles_len = 2;
    let mut profiles = [
        PwbProfileEntry::encode(Some(1), 1, PwbQueryWalProfile::from(profile(100, 1))),
        PwbProfileEntry::encode(Some(2), 2, PwbQueryWalProfile::from(profile(200, 2))),
    ];

    upsert_scoped_and_global_query_profiles_locked(
        &mut state,
        &mut profiles,
        99,
        42,
        300,
        3,
        test_profile_weights(),
    )
    .unwrap_or_else(|error| panic!("{error:?}"));

    assert_eq!(find_profile_slot(&profiles, Some(99), 42), Some(0));
    assert_eq!(find_profile_slot(&profiles, None, 42), Some(1));
    assert_eq!(find_profile_slot(&profiles, Some(1), 1), None);
    assert_eq!(find_profile_slot(&profiles, Some(2), 2), None);
    assert_eq!(state.profiles_len, 2);
}

fn profile(ewma_wal_bytes: WalBytes, last_seen_epoch_ms: EpochMillis) -> QueryWalProfile {
    QueryWalProfile {
        calls: 1,
        ewma_wal_bytes,
        max_wal_bytes: ewma_wal_bytes,
        last_seen_epoch_ms,
    }
}

fn test_profile_weights() -> ProfileEwmaWeights {
    ProfileEwmaWeights::new(1, 2).unwrap_or_else(|error| panic!("{error:?}"))
}
