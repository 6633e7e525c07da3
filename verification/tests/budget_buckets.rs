use pg_wal_budget::errors::PwbError;
use pg_wal_budget::shmem::{LAYOUT_VERSION, MAGIC};
use pg_wal_budget::shmem::budget_buckets::{
    apply_budget_bucket, budget_bucket_capacity_exhausted, snapshot_budget_buckets_from_slice,
};
use pg_wal_budget::shmem::profiles::initial_profile_restore_state;
use pg_wal_budget::shmem::records::{
    BudgetBucketState, PwbBudgetBucket, PwbCounters, PwbSharedState,
};

fn test_state(budget_bucket_capacity: u32) -> PwbSharedState {
    PwbSharedState {
        magic: MAGIC,
        layout_version: LAYOUT_VERSION,
        recent_decision_capacity: 0,
        profile_cache_capacity: 0,
        budget_bucket_capacity,
        scope_name_capacity: 0,
        recent_decision_head: 0,
        recent_decision_count: 0,
        profiles_len: 0,
        budget_buckets_len: 0,
        profile_restore_state: initial_profile_restore_state(),
        profile_restore_started_epoch_ms: 0,
        last_profile_persist_epoch_ms: 0,
        profile_dirty_count: 0,
        counters: PwbCounters::default(),
    }
}

#[test]
fn budget_buckets_snapshots_only_occupied_budget_buckets() {
    let buckets = [
        PwbBudgetBucket::encode(BudgetBucketState {
            policy_id: 7,
            scope_hash: 99,
            available_bytes: 1024,
            max_burst_bytes: 4096,
            rate_bytes_per_sec: 512,
            last_refill_epoch_ms: 123,
            debt_bytes: 64,
        }),
        PwbBudgetBucket::default(),
    ];

    let snapshots = snapshot_budget_buckets_from_slice(&buckets, 1)
        .unwrap_or_else(|error| panic!("{error:?}"));

    assert_eq!(snapshots.len(), 1);
    assert_eq!(snapshots[0].policy_id, 7);
    assert_eq!(snapshots[0].scope_hash, 99);
    assert_eq!(snapshots[0].debt_bytes, 64);
}

#[test]
fn budget_buckets_new_budget_bucket_is_not_persisted_when_callback_errors() {
    let mut state = test_state(1);
    let mut buckets = [PwbBudgetBucket::default()];
    let error = match apply_budget_bucket(
        &mut state,
        &mut buckets,
        7,
        99,
        || BudgetBucketState {
            policy_id: 7,
            scope_hash: 99,
            available_bytes: 1024,
            max_burst_bytes: 4096,
            rate_bytes_per_sec: 512,
            last_refill_epoch_ms: 123,
            debt_bytes: 0,
        },
        |_bucket| {
            Err(PwbError::BudgetExceeded {
                policy_id: 7,
                predicted_wal_bytes: 2048,
                available_wal_bytes: 1024,
            })
        },
    ) {
        Ok(()) => panic!("expected callback error"),
        Err(error) => error,
    };

    assert!(matches!(error, PwbError::BudgetExceeded { .. }));
    assert_eq!(state.budget_buckets_len, 0);
    assert_eq!(buckets[0], PwbBudgetBucket::default());
}

#[test]
fn new_budget_bucket_errors_without_capacity() {
    let mut state = test_state(0);
    let mut buckets = [];

    let error = match apply_budget_bucket(
        &mut state,
        &mut buckets,
        7,
        99,
        || BudgetBucketState {
            policy_id: 7,
            scope_hash: 99,
            available_bytes: 1024,
            max_burst_bytes: 4096,
            rate_bytes_per_sec: 512,
            last_refill_epoch_ms: 123,
            debt_bytes: 0,
        },
        |_bucket| Ok(()),
    ) {
        Ok(()) => panic!("expected capacity error"),
        Err(error) => error,
    };

    assert_eq!(error, budget_bucket_capacity_exhausted());
    assert_eq!(state.budget_buckets_len, 0);
}

#[test]
fn new_budget_bucket_errors_when_capacity_is_full() {
    let mut state = test_state(1);
    state.budget_buckets_len = 1;
    let initial = BudgetBucketState {
        policy_id: 7,
        scope_hash: 99,
        available_bytes: 1024,
        max_burst_bytes: 4096,
        rate_bytes_per_sec: 512,
        last_refill_epoch_ms: 123,
        debt_bytes: 0,
    };
    let mut buckets = [PwbBudgetBucket::encode(initial)];

    let error = match apply_budget_bucket(
        &mut state,
        &mut buckets,
        7,
        100,
        || BudgetBucketState {
            policy_id: 7,
            scope_hash: 100,
            available_bytes: 1024,
            max_burst_bytes: 4096,
            rate_bytes_per_sec: 512,
            last_refill_epoch_ms: 123,
            debt_bytes: 0,
        },
        |_bucket| Ok(()),
    ) {
        Ok(()) => panic!("expected capacity error"),
        Err(error) => error,
    };

    assert_eq!(error, budget_bucket_capacity_exhausted());
    assert_eq!(state.budget_buckets_len, 1);
    assert_eq!(buckets[0], PwbBudgetBucket::encode(initial));
}

#[test]
fn budget_buckets_existing_budget_bucket_is_persisted_when_callback_succeeds() {
    let mut state = test_state(1);
    state.budget_buckets_len = 1;
    let initial = BudgetBucketState {
        policy_id: 7,
        scope_hash: 99,
        available_bytes: 1024,
        max_burst_bytes: 4096,
        rate_bytes_per_sec: 512,
        last_refill_epoch_ms: 123,
        debt_bytes: 0,
    };
    let mut buckets = [PwbBudgetBucket::encode(initial)];

    apply_budget_bucket(
        &mut state,
        &mut buckets,
        7,
        99,
        || panic!("existing bucket should not be initialized"),
        |bucket| {
            bucket.available_bytes = 256;
            Ok(())
        },
    )
    .unwrap_or_else(|error| panic!("{error:?}"));

    assert_eq!(state.budget_buckets_len, 1);
    assert_eq!(
        buckets[0]
            .decode()
            .unwrap_or_else(|error| panic!("{error:?}"))
            .available_bytes,
        256
    );
}

#[test]
fn new_budget_bucket_appends_after_occupied_prefix() {
    let mut state = test_state(2);
    state.budget_buckets_len = 1;
    let initial = BudgetBucketState {
        policy_id: 7,
        scope_hash: 99,
        available_bytes: 1024,
        max_burst_bytes: 4096,
        rate_bytes_per_sec: 512,
        last_refill_epoch_ms: 123,
        debt_bytes: 0,
    };
    let appended = BudgetBucketState {
        policy_id: 8,
        scope_hash: 100,
        available_bytes: 2048,
        max_burst_bytes: 8192,
        rate_bytes_per_sec: 1024,
        last_refill_epoch_ms: 456,
        debt_bytes: 0,
    };
    let mut buckets = [PwbBudgetBucket::encode(initial), PwbBudgetBucket::default()];

    apply_budget_bucket(
        &mut state,
        &mut buckets,
        appended.policy_id,
        appended.scope_hash,
        || appended,
        |_bucket| Ok(()),
    )
    .unwrap_or_else(|error| panic!("{error:?}"));

    assert_eq!(state.budget_buckets_len, 2);
    assert_eq!(buckets[0], PwbBudgetBucket::encode(initial));
    assert_eq!(buckets[1], PwbBudgetBucket::encode(appended));
}
