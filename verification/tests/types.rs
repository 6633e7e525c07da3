use pg_wal_budget::errors::PwbError;
use pg_wal_budget::types::{BudgetMode, QueryWalProfile, ScopeKind, WalBytes};

#[test]
fn parses_budget_modes_from_sql_strings() {
    assert_eq!(BudgetMode::parse_sql("off"), Ok(BudgetMode::Off));
    assert_eq!(BudgetMode::parse_sql(" OBSERVE "), Ok(BudgetMode::Observe));
    assert_eq!(BudgetMode::parse_sql("shadow"), Ok(BudgetMode::Shadow));
    assert_eq!(BudgetMode::parse_sql("reject"), Ok(BudgetMode::Reject));

    assert!(matches!(
        BudgetMode::parse_sql("enforce"),
        Err(PwbError::InvalidBudgetMode { value }) if value == "enforce"
    ));
}

#[test]
fn emits_budget_mode_sql_strings() {
    assert_eq!(BudgetMode::Off.as_sql_str(), "off");
    assert_eq!(BudgetMode::Observe.as_sql_str(), "observe");
    assert_eq!(BudgetMode::Shadow.as_sql_str(), "shadow");
    assert_eq!(BudgetMode::Reject.as_sql_str(), "reject");
}

#[test]
fn parses_scope_kinds_from_sql_strings() {
    assert_eq!(ScopeKind::parse_sql("database"), Ok(ScopeKind::Database));
    assert_eq!(ScopeKind::parse_sql("ROLE"), Ok(ScopeKind::Role));
    assert_eq!(
        ScopeKind::parse_sql(" application "),
        Ok(ScopeKind::Application)
    );
    assert_eq!(ScopeKind::parse_sql("tenant"), Ok(ScopeKind::Tenant));
    assert_eq!(ScopeKind::parse_sql("composite"), Ok(ScopeKind::Composite));

    assert!(matches!(
        ScopeKind::parse_sql("user"),
        Err(PwbError::InvalidScopeKind { value }) if value == "user"
    ));
}

#[test]
fn emits_scope_kind_sql_strings() {
    assert_eq!(ScopeKind::Database.as_sql_str(), "database");
    assert_eq!(ScopeKind::Role.as_sql_str(), "role");
    assert_eq!(ScopeKind::Application.as_sql_str(), "application");
    assert_eq!(ScopeKind::Tenant.as_sql_str(), "tenant");
    assert_eq!(ScopeKind::Composite.as_sql_str(), "composite");
}

#[test]
fn updates_query_profile_with_integer_ewma() {
    let mut profile = QueryWalProfile::new(100, 10);

    profile.record_observation(300, 20, 1, 2);

    assert_eq!(profile.calls, 2);
    assert_eq!(profile.ewma_wal_bytes, 200);
    assert_eq!(profile.max_wal_bytes, 300);
    assert_eq!(profile.last_seen_epoch_ms, 20);
}

#[test]
fn updates_query_profile_without_saturating_intermediate_sum() {
    let mut profile = QueryWalProfile::new(WalBytes::MAX - 1, 10);

    profile.record_observation(WalBytes::MAX - 1, 20, 1, 2);

    assert_eq!(profile.ewma_wal_bytes, WalBytes::MAX - 1);
}
