use pg_wal_budget::shmem::records::PwbScopeName;
use pg_wal_budget::shmem::scope_names::{
    ScopeNameRecordResult, record_scope_name_in_slice, snapshot_scope_names_from_slice,
};
use pg_wal_budget::types::ScopeKind;

#[test]
fn records_new_scope_name() {
    let mut scope_names = [PwbScopeName::default()];

    record_scope_name_in_slice(&mut scope_names, ScopeKind::Tenant, 99, "tenant-a", 123);

    let snapshots =
        snapshot_scope_names_from_slice(&scope_names).unwrap_or_else(|error| panic!("{error:?}"));
    assert_eq!(snapshots.len(), 1);
    assert_eq!(snapshots[0].scope_kind, ScopeKind::Tenant);
    assert_eq!(snapshots[0].scope_hash, 99);
    assert_eq!(snapshots[0].scope_value, "tenant-a");
    assert_eq!(snapshots[0].first_seen_epoch_ms, 123);
    assert_eq!(snapshots[0].last_seen_epoch_ms, 123);
    assert_eq!(snapshots[0].seen_count, 1);
}

#[test]
fn updates_existing_scope_name_without_replacing_value() {
    let mut scope_names = [PwbScopeName::default()];

    record_scope_name_in_slice(&mut scope_names, ScopeKind::Tenant, 99, "tenant-a", 123);
    record_scope_name_in_slice(
        &mut scope_names,
        ScopeKind::Tenant,
        99,
        "tenant-renamed",
        456,
    );

    let snapshots =
        snapshot_scope_names_from_slice(&scope_names).unwrap_or_else(|error| panic!("{error:?}"));
    assert_eq!(snapshots.len(), 1);
    assert_eq!(snapshots[0].scope_value, "tenant-a");
    assert_eq!(snapshots[0].first_seen_epoch_ms, 123);
    assert_eq!(snapshots[0].last_seen_epoch_ms, 456);
    assert_eq!(snapshots[0].seen_count, 2);
}

#[test]
fn drops_new_scope_name_when_capacity_is_full() {
    let mut scope_names = [PwbScopeName::encode_value(
        ScopeKind::Tenant,
        99,
        "tenant-a",
        123,
        123,
        1,
    )];

    let result =
        record_scope_name_in_slice(&mut scope_names, ScopeKind::Tenant, 100, "tenant-b", 456);

    let snapshots =
        snapshot_scope_names_from_slice(&scope_names).unwrap_or_else(|error| panic!("{error:?}"));
    assert_eq!(result, ScopeNameRecordResult::Dropped);
    assert_eq!(snapshots.len(), 1);
    assert_eq!(snapshots[0].scope_hash, 99);
}
