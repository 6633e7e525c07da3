use pg_wal_budget::catalog::MemoryCatalogStore;
use pg_wal_budget::profile_store::{delete_profiles_with, load_profiles_from, persist_profiles_with};
use pg_wal_budget::shmem::records::QueryProfileSnapshot;
use pg_wal_budget::types::QueryWalProfile;

#[test]
fn profile_store_entrypoints_work_with_memory_store() {
    let mut store = MemoryCatalogStore::with_rows(Vec::new(), Vec::new());
    let snapshot = QueryProfileSnapshot {
        scope_hash: Some(7),
        query_id: 42,
        profile: QueryWalProfile {
            calls: 1,
            ewma_wal_bytes: 10,
            max_wal_bytes: 10,
            last_seen_epoch_ms: 100,
        },
    };

    persist_profiles_with(&mut store, &[snapshot]).unwrap_or_else(|error| panic!("{error:?}"));
    let loaded = load_profiles_from(&store, 10).unwrap_or_else(|error| panic!("{error:?}"));
    assert_eq!(loaded, vec![snapshot]);
    delete_profiles_with(&mut store).unwrap_or_else(|error| panic!("{error:?}"));
    let loaded = load_profiles_from(&store, 10).unwrap_or_else(|error| panic!("{error:?}"));
    assert!(loaded.is_empty());
}
