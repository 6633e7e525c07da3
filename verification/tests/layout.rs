use pg_wal_budget::shmem::layout::{SharedCapacities, compute_layout};
use pg_wal_budget::shmem::records::{
    PwbBudgetBucket, PwbProfileEntry, PwbRecentDecision, PwbScopeName, PwbSharedState,
};

use std::mem::{align_of, size_of};

#[test]
fn layout_computes_aligned_layout() {
    let layout = compute_layout(SharedCapacities {
        recent_decisions: 3,
        profiles: 5,
        budget_buckets: 7,
        scope_names: 11,
    })
    .unwrap_or_else(|error| panic!("{error:?}"));

    assert!(layout.total_bytes >= size_of::<PwbSharedState>());
    assert_eq!(
        layout.recent_decisions_offset % align_of::<PwbRecentDecision>(),
        0
    );
    assert_eq!(layout.profiles_offset % align_of::<PwbProfileEntry>(), 0);
    assert_eq!(
        layout.budget_buckets_offset % align_of::<PwbBudgetBucket>(),
        0
    );
    assert_eq!(layout.scope_names_offset % align_of::<PwbScopeName>(), 0);
    assert_eq!(layout.recent_decision_capacity, 3);
    assert_eq!(layout.profile_cache_capacity, 5);
    assert_eq!(layout.budget_bucket_capacity, 7);
    assert_eq!(layout.scope_name_capacity, 11);
}

#[test]
fn layout_allows_zero_capacity_layout() {
    let layout = compute_layout(SharedCapacities {
        recent_decisions: 0,
        profiles: 0,
        budget_buckets: 0,
        scope_names: 0,
    })
    .unwrap_or_else(|error| panic!("{error:?}"));

    assert_eq!(layout.recent_decision_capacity, 0);
    assert_eq!(layout.profile_cache_capacity, 0);
    assert_eq!(layout.budget_bucket_capacity, 0);
    assert_eq!(layout.scope_name_capacity, 0);
}

#[test]
fn layout_rejects_layout_overflow() {
    assert!(
        compute_layout(SharedCapacities {
            recent_decisions: usize::MAX,
            profiles: 0,
            budget_buckets: 0,
            scope_names: 0,
        })
        .is_err()
    );
}
