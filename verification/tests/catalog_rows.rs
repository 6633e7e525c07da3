use pg_wal_budget::catalog::{
    DurableCatalogStore, DurablePolicyRow, MemoryCatalogStore, RawPolicyRow, RawQueryProfile,
    catalog_spi_error, decode_policy_rows, decode_profile, decode_profiles, parse_u64,
    policy_spi_error, profile_limit, profile_spi_error, required_parse_u64, required_policy_field,
};
use pg_wal_budget::errors::{PwbError, PwbResult};
use pg_wal_budget::shmem::records::QueryProfileSnapshot;
use pg_wal_budget::types::QueryWalProfile;

fn raw_policy() -> RawPolicyRow {
    RawPolicyRow {
        policy_id: Some(3),
        scope_kind: Some("role".to_string()),
        scope_value: None,
        enabled: Some(true),
        mode: Some("shadow".to_string()),
        wal_rate_bytes_per_sec: Some(10),
        wal_burst_bytes: Some(20),
    }
}

fn raw_profile() -> RawQueryProfile {
    RawQueryProfile {
        scope_hash: Some("7".to_string()),
        query_id: Some("42".to_string()),
        calls: Some("2".to_string()),
        ewma_wal_bytes: Some("10".to_string()),
        max_wal_bytes: Some("20".to_string()),
        last_seen_epoch_ms: Some("30".to_string()),
    }
}

fn internal<T>(message: &str) -> PwbResult<T> {
    Err(PwbError::Internal {
        message: message.to_string(),
    })
}

#[test]
fn complete_policy_rows_are_decoded_in_order() {
    let mut second = raw_policy();
    second.policy_id = Some(4);
    second.scope_value = Some("app".to_string());
    let rows = decode_policy_rows(vec![raw_policy(), second]);
    let expected = |policy_id: i32, scope_value: Option<&str>| DurablePolicyRow {
        policy_id,
        scope_kind: "role".to_string(),
        scope_value: scope_value.map(ToString::to_string),
        enabled: true,
        mode: "shadow".to_string(),
        wal_rate_bytes_per_sec: 10,
        wal_burst_bytes: 20,
    };
    assert_eq!(rows, Ok(vec![expected(3, None), expected(4, Some("app"))]));
}

#[test]
fn policy_rows_that_lack_a_field_are_refused() {
    let without = |change: fn(&mut RawPolicyRow)| {
        let mut row = raw_policy();
        change(&mut row);
        decode_policy_rows(vec![raw_policy(), row])
    };
    assert_eq!(
        without(|row| row.policy_id = None),
        internal("effective policy row is missing policy_id")
    );
    assert_eq!(
        without(|row| row.scope_kind = None),
        internal("effective policy row is missing scope_kind")
    );
    assert_eq!(
        without(|row| row.enabled = None),
        internal("effective policy row is missing enabled")
    );
    assert_eq!(
        without(|row| row.mode = None),
        internal("effective policy row is missing mode")
    );
    assert_eq!(
        without(|row| row.wal_rate_bytes_per_sec = None),
        internal("effective policy row is missing wal_rate_bytes_per_sec")
    );
    assert_eq!(
        without(|row| row.wal_burst_bytes = None),
        internal("effective policy row is missing wal_burst_bytes")
    );
    assert_eq!(required_policy_field("mode", Some(5)), Ok(5));
}

#[test]
fn profile_rows_are_decoded_or_refused() {
    let snapshot = QueryProfileSnapshot {
        scope_hash: Some(7),
        query_id: 42,
        profile: QueryWalProfile {
            calls: 2,
            ewma_wal_bytes: 10,
            max_wal_bytes: 20,
            last_seen_epoch_ms: 30,
        },
    };
    assert_eq!(decode_profile(&raw_profile()), Ok(snapshot));
    assert_eq!(
        decode_profiles(&[raw_profile(), raw_profile()]),
        Ok(vec![snapshot, snapshot])
    );
    let mut broken = raw_profile();
    broken.calls = None;
    broken.query_id = Some("x".to_string());
    assert_eq!(
        decode_profiles(&[raw_profile(), broken.clone()]),
        internal("durable query profile field query_id is not a valid u64: x")
    );
    broken.query_id = Some("1".to_string());
    assert_eq!(
        decode_profile(&broken),
        internal("durable query profile row is missing calls")
    );
    broken.scope_hash = Some("1e3".to_string());
    assert_eq!(
        decode_profile(&broken),
        internal("durable query profile field scope_hash is not a valid u64: 1e3")
    );
    assert_eq!(parse_u64("calls", "18446744073709551615"), Ok(u64::MAX));
    assert_eq!(
        required_parse_u64("calls", None),
        internal("durable query profile row is missing calls")
    );
}

#[test]
fn limits_must_fit_a_bigint() {
    assert_eq!(profile_limit(0), Ok(0));
    assert_eq!(profile_limit(4096), Ok(4096));
    assert_eq!(
        profile_limit(usize::MAX),
        internal(&format!(
            "profile cache capacity does not fit PostgreSQL bigint: {}",
            usize::MAX
        ))
    );
}

#[test]
fn failures_of_the_database_say_what_failed() {
    assert_eq!(
        catalog_spi_error("policy", "gone").detail(),
        "internal error: SPI policy operation failed: gone"
    );
    assert_eq!(policy_spi_error("gone"), catalog_spi_error("policy", "gone"));
    assert_eq!(profile_spi_error("gone"), catalog_spi_error("query profile", "gone"));
}

#[test]
fn stored_profiles_are_replaced_by_key() {
    let snapshot = |scope_hash: Option<u64>, ewma: u64, seen: u64| QueryProfileSnapshot {
        scope_hash,
        query_id: 42,
        profile: QueryWalProfile::new(ewma, seen),
    };
    let mut store = MemoryCatalogStore::with_rows(Vec::new(), Vec::new());
    let first = [snapshot(None, 1, 1), snapshot(Some(7), 2, 2)];
    assert_eq!(store.persist_profiles(&first), Ok(()));
    assert_eq!(store.persist_profiles(&[snapshot(None, 3, 3)]), Ok(()));
    assert_eq!(
        store.load_profiles(10),
        Ok(vec![snapshot(None, 3, 3), snapshot(Some(7), 2, 2)])
    );
    assert_eq!(store.load_profiles(1), Ok(vec![snapshot(None, 3, 3)]));
}
