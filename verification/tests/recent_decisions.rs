use pg_wal_budget::shmem::{LAYOUT_VERSION, MAGIC};
use pg_wal_budget::shmem::profiles::initial_profile_restore_state;
use pg_wal_budget::shmem::recent_decisions::{ring_slot, snapshot_recent_decisions_from_slice};
use pg_wal_budget::shmem::records::{PwbCounters, PwbRecentDecision, PwbSharedState};

fn test_state(budget_bucket_capacity: u32) -> PwbSharedState {
    PwbSharedState {
        magic: MAGIC,
        layout_version: LAYOUT_VERSION,
        recent_decision_capacity: 0,
        profile_cache_capacity: 0,
        budget_bucket_capacity,
        scope_name_capacity: 0,
        recent_decision_head: 0,
        recent_decision_count: 0,
        profiles_len: 0,
        budget_buckets_len: 0,
        profile_restore_state: initial_profile_restore_state(),
        profile_restore_started_epoch_ms: 0,
        last_profile_persist_epoch_ms: 0,
        profile_dirty_count: 0,
        counters: PwbCounters::default(),
    }
}

#[test]
fn recent_decisions_maps_ring_sequence_to_slot() {
    assert_eq!(ring_slot(0, 4), 0);
    assert_eq!(ring_slot(3, 4), 3);
    assert_eq!(ring_slot(4, 4), 0);
    assert_eq!(ring_slot(9, 4), 1);
}

#[test]
fn snapshots_empty_ring_without_underflow() {
    let state = PwbSharedState {
        recent_decision_capacity: 4,
        ..test_state(0)
    };
    let recent_decisions = [PwbRecentDecision::default(); 4];

    let snapshot = snapshot_recent_decisions_from_slice(&state, &recent_decisions, 20)
        .unwrap_or_else(|error| panic!("{error:?}"));

    assert!(snapshot.is_empty());
}
