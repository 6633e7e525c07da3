use pg_wal_budget::reconcile::{
    BudgetReconciliation, budget_reconciliation, prediction_error, should_reconcile_budget,
    should_record_profile_observation, wal_delta,
};
use pg_wal_budget::types::{
    ActiveStatementState, AdmissionDecision, ReasonCode, ScopeKind, StatementClass,
    WalMeasurementKind,
};

#[test]
fn computes_saturating_wal_delta() {
    assert_eq!(wal_delta(10, 25), 15);
    assert_eq!(wal_delta(25, 10), 0);
}

#[test]
fn computes_absolute_prediction_error() {
    assert_eq!(prediction_error(100, 125), 25);
    assert_eq!(prediction_error(125, 100), 25);
}

#[test]
fn only_reconciles_budget_for_charged_allowed_statements() {
    let mut statement = test_statement(AdmissionDecision::allowed(
        Some(7),
        100,
        ReasonCode::BudgetAvailable,
    ));
    assert!(should_reconcile_budget(&statement));

    statement.decision = AdmissionDecision::would_reject(7, 100);
    assert!(!should_reconcile_budget(&statement));

    statement.decision = AdmissionDecision::allowed(Some(7), 0, ReasonCode::ObserveMode);
    assert!(!should_reconcile_budget(&statement));

    statement.decision = AdmissionDecision::allowed(Some(7), 100, ReasonCode::BudgetAvailable);
    statement.measurement_kind = WalMeasurementKind::ApproximateInsertLsn;
    assert!(!should_reconcile_budget(&statement));
}

#[test]
fn profile_observations_require_exact_measurement_and_query_id() {
    let mut statement = test_statement(AdmissionDecision::allowed(
        Some(7),
        100,
        ReasonCode::BudgetAvailable,
    ));
    assert!(should_record_profile_observation(&statement));

    statement.measurement_kind = WalMeasurementKind::ApproximateInsertLsn;
    assert!(!should_record_profile_observation(&statement));

    statement.measurement_kind = WalMeasurementKind::ExactBackend;
    statement.query_id = None;
    assert!(!should_record_profile_observation(&statement));
}

#[test]
fn budget_reconciliation_refunds_or_records_debt_only_for_exact_charges() {
    let mut statement = test_statement(AdmissionDecision::allowed(
        Some(7),
        100,
        ReasonCode::BudgetAvailable,
    ));

    assert_eq!(
        budget_reconciliation(&statement, 60),
        BudgetReconciliation::Refund(40)
    );
    assert_eq!(
        budget_reconciliation(&statement, 140),
        BudgetReconciliation::Debt(40)
    );
    assert_eq!(
        budget_reconciliation(&statement, 100),
        BudgetReconciliation::Unchanged
    );

    statement.measurement_kind = WalMeasurementKind::ApproximateInsertLsn;
    assert_eq!(
        budget_reconciliation(&statement, 140),
        BudgetReconciliation::Unchanged
    );

    statement.measurement_kind = WalMeasurementKind::ExactBackend;
    statement.decision = AdmissionDecision::allowed(Some(7), 0, ReasonCode::ObserveMode);
    assert_eq!(
        budget_reconciliation(&statement, 140),
        BudgetReconciliation::Unchanged
    );
}

fn test_statement(decision: AdmissionDecision) -> ActiveStatementState {
    ActiveStatementState {
        decision: decision.with_availability(200, 100),
        start_wal_bytes: Some(10),
        measurement_kind: WalMeasurementKind::ExactBackend,
        query_id: Some(42),
        scope_kind: ScopeKind::Tenant,
        scope_hash: 99,
        statement_class: StatementClass::Write,
        predicted_wal_bytes: 100,
    }
}
