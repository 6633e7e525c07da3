use pg_wal_budget::budget::EffectivePolicy;
use pg_wal_budget::catalog::{DurablePolicyRow, MemoryCatalogStore};
use pg_wal_budget::policy_cache::{
    CachedEffectivePolicy, PolicyCache, cache_is_stale, find_effective_policy,
    load_policy_cache_from,
};
use pg_wal_budget::types::{BudgetMode, PolicyId, ScopeHash, ScopeKey, ScopeKind};

const POLICY_ID: PolicyId = 11;
const SCOPE_HASH: ScopeHash = 99;

#[test]
fn policy_cache_matches_first_enabled_policy_by_scope_order() {
    let cache = PolicyCache {
        refreshed_epoch_ms: 1000,
        policies: vec![
            cached_policy(POLICY_ID, ScopeKind::Tenant, Some("tenant-a")),
            cached_policy(POLICY_ID + 1, ScopeKind::Tenant, None),
        ],
    };
    let scope = ScopeKey::with_debug_value(ScopeKind::Tenant, SCOPE_HASH, "tenant-a");

    assert_eq!(
        find_effective_policy(&cache, &scope).map(|policy| policy.policy_id),
        Some(POLICY_ID)
    );
}

#[test]
fn builds_policy_cache_entries_from_memory_store() {
    let store = MemoryCatalogStore::with_rows(
        vec![DurablePolicyRow {
            policy_id: POLICY_ID,
            scope_kind: "tenant".to_string(),
            scope_value: Some(" tenant-a ".to_string()),
            enabled: true,
            mode: "reject".to_string(),
            wal_rate_bytes_per_sec: 100,
            wal_burst_bytes: 500,
        }],
        Vec::new(),
    );
    let cache = load_policy_cache_from(&store, 1000).unwrap_or_else(|error| panic!("{error:?}"));
    let scope = ScopeKey::with_debug_value(ScopeKind::Tenant, SCOPE_HASH, "tenant-a");

    let policy =
        find_effective_policy(&cache, &scope).unwrap_or_else(|| panic!("policy should match"));
    assert_eq!(policy.policy_id, POLICY_ID);
    assert_eq!(policy.mode, BudgetMode::Reject);
    assert_eq!(policy.wal_burst_bytes, 500);
}

#[test]
fn policy_cache_uses_wildcard_scope_when_exact_value_does_not_match() {
    let cache = PolicyCache {
        refreshed_epoch_ms: 1000,
        policies: vec![
            cached_policy(POLICY_ID, ScopeKind::Tenant, Some("tenant-a")),
            cached_policy(POLICY_ID + 1, ScopeKind::Tenant, None),
        ],
    };
    let scope = ScopeKey::with_debug_value(ScopeKind::Tenant, SCOPE_HASH, "tenant-b");

    assert_eq!(
        find_effective_policy(&cache, &scope).map(|policy| policy.policy_id),
        Some(POLICY_ID + 1)
    );
}

#[test]
fn policy_cache_matches_composite_scope() {
    let composite = "tenant=tenant-a|role=app_user|database=postgres";
    let cache = PolicyCache {
        refreshed_epoch_ms: 1000,
        policies: vec![
            cached_policy(POLICY_ID, ScopeKind::Composite, Some(composite)),
            cached_policy(POLICY_ID + 1, ScopeKind::Composite, None),
        ],
    };
    let scope = ScopeKey::with_debug_value(ScopeKind::Composite, SCOPE_HASH, composite);

    assert_eq!(
        find_effective_policy(&cache, &scope).map(|policy| policy.policy_id),
        Some(POLICY_ID)
    );
}

#[test]
fn policy_cache_does_not_match_missing_debug_value_to_exact_policy() {
    let cache = PolicyCache {
        refreshed_epoch_ms: 1000,
        policies: vec![cached_policy(
            POLICY_ID,
            ScopeKind::Tenant,
            Some("tenant-a"),
        )],
    };
    let scope = ScopeKey {
        kind: ScopeKind::Tenant,
        value_hash: SCOPE_HASH,
        debug_value: None,
    };

    assert_eq!(find_effective_policy(&cache, &scope), None);
}

#[test]
fn policy_cache_refresh_interval_bounds_staleness() {
    let cache = PolicyCache {
        refreshed_epoch_ms: 1000,
        policies: Vec::new(),
    };

    assert!(!cache_is_stale(&cache, 1999));
    assert!(cache_is_stale(&cache, 2000));
}

fn cached_policy(
    policy_id: PolicyId,
    scope_kind: ScopeKind,
    scope_value: Option<&str>,
) -> CachedEffectivePolicy {
    CachedEffectivePolicy {
        scope_kind,
        scope_value: scope_value.map(ToString::to_string),
        policy: EffectivePolicy {
            policy_id,
            enabled: true,
            mode: BudgetMode::Reject,
            wal_rate_bytes_per_sec: 100,
            wal_burst_bytes: 100,
        },
    }
}
