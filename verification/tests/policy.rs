use pg_wal_budget::errors::PwbError;
use pg_wal_budget::policy::{require_policy_updated, validate_policy_definition};
use pg_wal_budget::types::{BudgetMode, ScopeKind};

#[test]
fn validates_and_normalizes_policy_definition() {
    let policy =
        match validate_policy_definition(" ROLE ", Some(" tenant-a "), 100, 500, "SHADOW", 7) {
            Ok(policy) => policy,
            Err(error) => panic!("expected valid policy, got {error:?}"),
        };

    assert!(policy.enabled);
    assert_eq!(policy.mode, BudgetMode::Shadow);
    assert_eq!(policy.scope_kind, ScopeKind::Role);
    assert_eq!(policy.scope_value, Some("tenant-a".to_string()));
    assert_eq!(policy.wal_rate_bytes_per_sec, 100);
    assert_eq!(policy.wal_burst_bytes, 500);
    assert_eq!(policy.priority, 7);
}

#[test]
fn validates_queue_policy_mode() {
    let policy = match validate_policy_definition("role", None, 100, 500, " QUEUE ", 7) {
        Ok(policy) => policy,
        Err(error) => panic!("expected valid queue policy, got {error:?}"),
    };

    assert_eq!(policy.mode, BudgetMode::Queue);
}

#[test]
fn normalizes_empty_scope_value_to_none() {
    let policy = match validate_policy_definition("database", Some("   "), 1, 1, "observe", 100)
    {
        Ok(policy) => policy,
        Err(error) => panic!("expected valid policy, got {error:?}"),
    };

    assert_eq!(policy.scope_value, None);
}

#[test]
fn rejects_nonpositive_rate() {
    let error = match validate_policy_definition("database", None, 0, 1, "observe", 100) {
        Ok(policy) => panic!("expected invalid rate, got {policy:?}"),
        Err(error) => error,
    };

    assert!(matches!(
        error,
        PwbError::InvalidPolicyValue {
            field: "wal_rate_bytes_per_sec",
            ..
        }
    ));
}

#[test]
fn rejects_burst_below_rate() {
    let error = match validate_policy_definition("database", None, 10, 9, "observe", 100) {
        Ok(policy) => panic!("expected invalid burst, got {policy:?}"),
        Err(error) => error,
    };

    assert!(matches!(
        error,
        PwbError::InvalidPolicyValue {
            field: "wal_burst_bytes",
            ..
        }
    ));
}

#[test]
fn rejects_missing_policy_update() {
    let error = match require_policy_updated(42, None) {
        Ok(()) => panic!("expected missing policy error"),
        Err(error) => error,
    };

    assert!(matches!(
        error,
        PwbError::InvalidPolicyValue {
            field: "policy_id",
            ..
        }
    ));
}
