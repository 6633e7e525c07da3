use pg_wal_budget::scope::{
    BackendScopeState, clear_tenant_impl, current_tenant, hash_scope_value, normalize_tenant_value,
};
use pg_wal_budget::types::ScopeKind;

#[test]
fn normalizes_tenant_values() {
    assert_eq!(
        normalize_tenant_value(" tenant-a ").unwrap_or_else(|error| panic!("{error:?}")),
        "tenant-a"
    );
}

#[test]
fn rejects_empty_tenant_values() {
    assert!(normalize_tenant_value("   ").is_err());
}

#[test]
fn scope_hash_includes_kind() {
    assert_ne!(
        hash_scope_value(ScopeKind::Tenant, "same-value"),
        hash_scope_value(ScopeKind::Role, "same-value")
    );
}

#[test]
fn scope_hash_is_stable_for_same_kind_and_value() {
    assert_eq!(
        hash_scope_value(ScopeKind::Tenant, "tenant-a"),
        hash_scope_value(ScopeKind::Tenant, "tenant-a")
    );
}

#[test]
fn clearing_tenant_state_clears_backend_scope_state() {
    let mut state = BackendScopeState::default();
    state.tenant = Some("tenant-a".to_string());
    state.last_scope_hash = Some(42);

    clear_tenant_impl(&mut state);

    assert_eq!(current_tenant(&state), None);
    assert_eq!(state.last_scope_hash, None);
}
