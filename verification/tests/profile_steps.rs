use pg_wal_budget::catalog::{DurableCatalogStore, DurablePolicyRow, MemoryCatalogStore};
use pg_wal_budget::errors::{PwbError, PwbResult};
use pg_wal_budget::guc::{GucSettings, PredictorKind};
use pg_wal_budget::privileges::InvokingUser;
use pg_wal_budget::profile::{
    PROFILE_PERSIST_INTERVAL_MS, PredictionContext, begin_profile_load, flush_profiles,
    plan_profile_flush, predict_context, profile_wanted,
};
use pg_wal_budget::shmem::layout::{SharedCapacities, compute_layout};
use pg_wal_budget::shmem::profiles::{
    snapshot_query_profiles, upsert_scoped_and_global_query_profiles,
};
use pg_wal_budget::shmem::recent_decisions::{
    record_recent_decision, snapshot_recent_decisions_from_slice,
};
use pg_wal_budget::shmem::records::{
    PwbScopeName, PwbSharedState, QueryProfileSnapshot, RecentDecisionRecord,
};
use pg_wal_budget::shmem::scope_names::{ScopeNameRecordResult, record_scope_name_in_slice};
use pg_wal_budget::shmem::transactions::settle_profile_persist;
use pg_wal_budget::shmem::{
    AttachedRegion, SharedMemory, SharedRegion, region_is_in_order, shmem_startup,
};
use pg_wal_budget::stats::begin_profile_flush;
use pg_wal_budget::types::{
    DecisionKind, ProfileEwmaWeights, QueryWalProfile, ReasonCode, ScopeKind, StatementClass,
};

struct FailingStore {
    handed: Vec<QueryProfileSnapshot>,
    calls: usize,
}

fn failure() -> PwbError {
    PwbError::Internal {
        message: "the table is gone".to_string(),
    }
}

impl DurableCatalogStore for FailingStore {
    fn load_enabled_policy_rows(&self) -> PwbResult<Vec<DurablePolicyRow>> {
        Ok(Vec::new())
    }

    fn load_profiles(&self, _limit: usize) -> PwbResult<Vec<QueryProfileSnapshot>> {
        Ok(Vec::new())
    }

    fn persist_profiles(&mut self, profiles: &[QueryProfileSnapshot]) -> PwbResult<()> {
        self.handed = profiles.to_vec();
        self.calls += 1;
        Err(failure())
    }

    fn delete_profiles(&mut self) -> PwbResult<()> {
        Err(failure())
    }
}

fn memory(capacity: usize) -> SharedMemory {
    let layout = compute_layout(SharedCapacities {
        recent_decisions: capacity,
        profiles: capacity,
        budget_buckets: capacity,
        scope_names: capacity,
    })
    .unwrap_or_else(|error| panic!("{error:?}"));
    match shmem_startup(layout, true, AttachedRegion::Created) {
        Ok(memory) => memory,
        Err(error) => panic!("{error:?}"),
    }
}

fn region(memory: &mut SharedMemory) -> &mut SharedRegion {
    match memory.region.as_mut() {
        Some(region) => region,
        None => panic!("the region is attached"),
    }
}

fn observe(memory: &mut SharedMemory, query_id: u64, actual_wal_bytes: u64, now_epoch_ms: u64) {
    let weights = ProfileEwmaWeights::new(1, 2).unwrap_or_else(|error| panic!("{error:?}"));
    upsert_scoped_and_global_query_profiles(
        memory,
        99,
        query_id,
        actual_wal_bytes,
        now_epoch_ms,
        weights,
    )
    .unwrap_or_else(|error| panic!("{error:?}"));
}

fn decision(timestamp_epoch_ms: u64) -> RecentDecisionRecord {
    RecentDecisionRecord {
        timestamp_epoch_ms,
        decision_kind: DecisionKind::Allowed,
        policy_id: Some(1),
        scope_kind: ScopeKind::Role,
        scope_hash: 99,
        query_id: Some(42),
        statement_class: StatementClass::Write,
        predicted_wal_bytes: 10,
        actual_wal_bytes: None,
        available_before: 20,
        available_after: 10,
        reason_code: ReasonCode::BudgetAvailable,
    }
}

fn write(query_id: Option<u64>) -> PredictionContext {
    PredictionContext {
        statement_class: StatementClass::Write,
        query_id,
        scope_hash: 99,
    }
}

#[test]
fn a_profile_is_wanted_for_known_queries_that_write() {
    let settings = GucSettings::default();
    assert!(profile_wanted(&settings, StatementClass::Write, Some(42)));
    assert!(profile_wanted(&settings, StatementClass::Utility, Some(0)));
    assert!(!profile_wanted(&settings, StatementClass::ReadOnly, Some(42)));
    assert!(!profile_wanted(&settings, StatementClass::Write, None));
    let fallback = GucSettings {
        predictor: PredictorKind::StatementClassFallback,
        ..GucSettings::default()
    };
    assert!(!profile_wanted(&fallback, StatementClass::Write, Some(42)));
}

#[test]
fn profiles_stay_due_where_the_store_fails() {
    let mut memory = memory(4);
    let mut store = FailingStore {
        handed: Vec::new(),
        calls: 0,
    };
    let settings = GucSettings::default();
    assert_eq!(predict_context(&mut memory, &mut store, &settings, &write(Some(42)), 0), 16_384);
    observe(&mut memory, 42, 700, 5);
    let due = PROFILE_PERSIST_INTERVAL_MS;
    assert_eq!(
        predict_context(&mut memory, &mut store, &settings, &write(Some(42)), due - 1),
        700
    );
    assert_eq!(store.calls, 0);
    assert_eq!(predict_context(&mut memory, &mut store, &settings, &write(None), due), 16_384);
    assert_eq!(store.calls, 0);
    assert_eq!(predict_context(&mut memory, &mut store, &settings, &write(Some(42)), due), 700);
    assert_eq!(store.calls, 1);
    assert_eq!(Ok(store.handed.clone()), snapshot_query_profiles(&memory));
    assert_eq!(store.handed.len(), 2);
    let state: PwbSharedState = region(&mut memory).state;
    assert_ne!(state.profile_dirty_count, 0);
    assert_eq!(state.last_profile_persist_epoch_ms, due);
    assert_eq!(predict_context(&mut memory, &mut store, &settings, &write(Some(42)), due), 700);
    assert_eq!(store.calls, 1);

    let mut sound = MemoryCatalogStore::with_rows(Vec::new(), Vec::new());
    assert_eq!(
        predict_context(&mut memory, &mut sound, &settings, &write(Some(42)), 2 * due),
        700
    );
    assert_eq!(sound.profiles.len(), 2);
    assert_eq!(region(&mut memory).state.profile_dirty_count, 0);
}

#[test]
fn a_flush_in_steps_comes_to_a_flush_at_once() {
    let admin = InvokingUser {
        is_superuser: true,
        roles: Vec::new(),
    };
    let other = InvokingUser {
        is_superuser: false,
        roles: Vec::new(),
    };
    let stored = QueryProfileSnapshot {
        scope_hash: Some(7),
        query_id: 1,
        profile: QueryWalProfile::new(300, 4),
    };
    let settings = GucSettings::default();

    let mut at_once = memory(4);
    observe(&mut at_once, 42, 700, 5);
    let mut store = MemoryCatalogStore::with_rows(Vec::new(), vec![stored]);
    assert_eq!(flush_profiles(&mut at_once, &mut store, &settings, 1000), Ok(()));

    let mut in_steps = memory(4);
    observe(&mut in_steps, 42, 700, 5);
    assert_eq!(
        begin_profile_flush(&mut in_steps, &other, 1000),
        Err(PwbError::InsufficientPrivilege {
            operation: "flush pg_wal_budget query profiles"
        })
    );
    assert_eq!(begin_profile_flush(&mut in_steps, &admin, 1000), Ok(true));
    let profiles = plan_profile_flush(&mut in_steps, Some(Ok(vec![stored])), 1000)
        .unwrap_or_else(|error| panic!("{error:?}"));
    assert_eq!(profiles.len(), 3);
    assert_eq!(settle_profile_persist(&mut in_steps, Ok(())), Ok(()));

    assert_eq!(snapshot_query_profiles(&in_steps), snapshot_query_profiles(&at_once));
    assert_eq!(region(&mut in_steps).state, region(&mut at_once).state);
    assert_eq!(store.profiles.len(), 3);

    assert_eq!(begin_profile_load(&mut in_steps, 1001), Ok(false));
    assert_eq!(plan_profile_flush(&mut in_steps, None, 1001), Ok(profiles));
    assert_eq!(settle_profile_persist(&mut in_steps, Err(failure())), Err(failure()));
}

#[test]
fn a_flush_stops_where_loading_fails() {
    let mut memory = memory(4);
    assert_eq!(begin_profile_load(&mut memory, 1000), Ok(true));
    assert_eq!(plan_profile_flush(&mut memory, Some(Err(failure())), 1000), Err(failure()));
    assert_eq!(region(&mut memory).state.last_profile_persist_epoch_ms, 0);
    assert_eq!(begin_profile_load(&mut memory, 1001), Ok(true));
}

#[test]
fn a_new_region_is_blank_and_in_order() {
    let mut memory = memory(3);
    let region = region(&mut memory);
    assert!(region_is_in_order(region));
    assert_eq!(region.scope_names, vec![PwbScopeName::default(); 3]);
    assert_eq!(region.scope_names[2].value, ['\0'; 256]);
}

#[test]
fn tables_out_of_order_are_told_apart() {
    let mut memory = memory(4);
    for now_epoch_ms in 1..7 {
        record_recent_decision(&mut memory, decision(now_epoch_ms))
            .unwrap_or_else(|error| panic!("{error:?}"));
    }
    observe(&mut memory, 42, 700, 5);
    let region = region(&mut memory);
    assert_eq!(
        record_scope_name_in_slice(&mut region.scope_names, ScopeKind::Role, 99, "app", 1),
        ScopeNameRecordResult::Recorded
    );
    assert!(region_is_in_order(region));

    region.state.recent_decision_count = 3;
    assert!(!region_is_in_order(region));
    region.state.recent_decision_count = 4;

    let kind = region.recent_decisions[0].decision_kind;
    region.recent_decisions[0].decision_kind = 200;
    assert!(!region_is_in_order(region));
    region.recent_decisions[0].decision_kind = kind;

    region.state.profiles_len = 1;
    assert!(!region_is_in_order(region));
    region.state.profiles_len = 2;

    let free = region.profiles[3];
    region.profiles[3] = region.profiles[0];
    region.state.profiles_len = 3;
    assert!(!region_is_in_order(region));
    region.profiles[3] = free;
    region.state.profiles_len = 2;

    region.budget_buckets[1].occupied = 1;
    assert!(!region_is_in_order(region));
    region.budget_buckets[1].occupied = 0;

    region.scope_names[1] = region.scope_names[0];
    assert!(!region_is_in_order(region));
    region.scope_names[1] = PwbScopeName::default();

    assert!(region_is_in_order(region));
    region.profiles.pop();
    assert!(!region_is_in_order(region));
}

#[test]
fn a_count_beyond_the_ring_counts_as_the_whole_ring() {
    let mut memory = memory(2);
    for now_epoch_ms in 1..4 {
        record_recent_decision(&mut memory, decision(now_epoch_ms))
            .unwrap_or_else(|error| panic!("{error:?}"));
    }
    let region = region(&mut memory);
    region.state.recent_decision_count = 9;
    assert_eq!(
        snapshot_recent_decisions_from_slice(&region.state, &region.recent_decisions, 20),
        Ok(vec![decision(3), decision(2)])
    );
}
