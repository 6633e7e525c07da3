use pg_wal_budget::catalog::{DurableCatalogStore, MemoryCatalogStore, RawQueryProfile, decode_profile};
use pg_wal_budget::errors::PwbError;
use pg_wal_budget::shmem::records::QueryProfileSnapshot;
use pg_wal_budget::types::QueryWalProfile;

#[test]
fn decodes_global_profile() {
    let profile = decode_profile(&RawQueryProfile {
        scope_hash: None,
        query_id: Some("42".to_string()),
        calls: Some("2".to_string()),
        ewma_wal_bytes: Some("1024".to_string()),
        max_wal_bytes: Some("2048".to_string()),
        last_seen_epoch_ms: Some("1234".to_string()),
    })
    .unwrap_or_else(|error| panic!("{error:?}"));

    assert_eq!(profile.scope_hash, None);
    assert_eq!(profile.query_id, 42);
    assert_eq!(profile.profile.calls, 2);
}

#[test]
fn rejects_negative_profile_values() {
    let result = decode_profile(&RawQueryProfile {
        scope_hash: None,
        query_id: Some("-1".to_string()),
        calls: Some("2".to_string()),
        ewma_wal_bytes: Some("1024".to_string()),
        max_wal_bytes: Some("2048".to_string()),
        last_seen_epoch_ms: Some("1234".to_string()),
    });
    let error = match result {
        Ok(profile) => panic!("negative query_id should be rejected, got {profile:?}"),
        Err(error) => error,
    };

    assert!(matches!(error, PwbError::Internal { .. }));
}

#[test]
fn memory_store_persists_and_deletes_profiles() {
    let mut store = MemoryCatalogStore::with_rows(Vec::new(), Vec::new());
    let snapshot = QueryProfileSnapshot {
        scope_hash: Some(7),
        query_id: 42,
        profile: QueryWalProfile {
            calls: 1,
            ewma_wal_bytes: 10,
            max_wal_bytes: 10,
            last_seen_epoch_ms: 100,
        },
    };

    store
        .persist_profiles(&[snapshot])
        .unwrap_or_else(|error| panic!("{error:?}"));
    let loaded = store
        .load_profiles(10)
        .unwrap_or_else(|error| panic!("{error:?}"));
    assert_eq!(loaded, vec![snapshot]);
    store
        .delete_profiles()
        .unwrap_or_else(|error| panic!("{error:?}"));
    let loaded = store
        .load_profiles(10)
        .unwrap_or_else(|error| panic!("{error:?}"));
    assert!(loaded.is_empty());
}

#[test]
fn memory_store_orders_profiles_like_production_before_limiting() {
    let older = QueryProfileSnapshot {
        scope_hash: Some(9),
        query_id: 2,
        profile: QueryWalProfile {
            calls: 1,
            ewma_wal_bytes: 10,
            max_wal_bytes: 10,
            last_seen_epoch_ms: 100,
        },
    };
    let latest_query_two_null_scope = QueryProfileSnapshot {
        scope_hash: None,
        query_id: 2,
        profile: QueryWalProfile {
            calls: 1,
            ewma_wal_bytes: 10,
            max_wal_bytes: 10,
            last_seen_epoch_ms: 200,
        },
    };
    let latest_query_one = QueryProfileSnapshot {
        scope_hash: Some(7),
        query_id: 1,
        profile: QueryWalProfile {
            calls: 1,
            ewma_wal_bytes: 10,
            max_wal_bytes: 10,
            last_seen_epoch_ms: 200,
        },
    };
    let latest_query_two_scoped = QueryProfileSnapshot {
        scope_hash: Some(5),
        query_id: 2,
        profile: QueryWalProfile {
            calls: 1,
            ewma_wal_bytes: 10,
            max_wal_bytes: 10,
            last_seen_epoch_ms: 200,
        },
    };
    let store = MemoryCatalogStore::with_rows(
        Vec::new(),
        vec![
            older,
            latest_query_two_scoped,
            latest_query_two_null_scope,
            latest_query_one,
        ],
    );

    let loaded = store
        .load_profiles(3)
        .unwrap_or_else(|error| panic!("{error:?}"));

    assert_eq!(
        loaded,
        vec![
            latest_query_one,
            latest_query_two_null_scope,
            latest_query_two_scoped
        ]
    );
}

#[test]
fn memory_store_missing_tables_are_empty_and_noop() {
    let mut store = MemoryCatalogStore::missing_tables();
    let policies = store
        .load_enabled_policy_rows()
        .unwrap_or_else(|error| panic!("{error:?}"));
    assert!(policies.is_empty());
    let profiles = store
        .load_profiles(10)
        .unwrap_or_else(|error| panic!("{error:?}"));
    assert!(profiles.is_empty());
    store
        .persist_profiles(&[])
        .unwrap_or_else(|error| panic!("{error:?}"));
    store
        .delete_profiles()
        .unwrap_or_else(|error| panic!("{error:?}"));
}
