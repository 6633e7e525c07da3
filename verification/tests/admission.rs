use pg_wal_budget::admission::{
    AdmissionErrorContext, counter_delta_for_decision, internal_fail_open_recent_decision,
};
use pg_wal_budget::types::{
    AdmissionContext, AdmissionDecision, DecisionKind, ScopeKey, ScopeKind, StatementClass,
};

#[test]
fn fail_open_recent_decision_preserves_sentinel_context_when_none_available() {
    let decision = AdmissionDecision::internal_error_fail_open();
    let record = internal_fail_open_recent_decision(None, decision, 123);

    assert_eq!(record.timestamp_epoch_ms, 123);
    assert_eq!(record.decision_kind, DecisionKind::InternalErrorFailOpen);
    assert_eq!(record.reason_code, decision.reason_code);
    assert_eq!(record.policy_id, None);
    assert_eq!(record.scope_kind, ScopeKind::Composite);
    assert_eq!(record.scope_hash, 0);
    assert_eq!(record.query_id, None);
    assert_eq!(record.statement_class, StatementClass::Unknown);
    assert_eq!(record.predicted_wal_bytes, 0);
}

#[test]
fn fail_open_recent_decision_records_statement_context_when_scope_is_missing() {
    let decision = AdmissionDecision::internal_error_fail_open();
    let context = AdmissionErrorContext::from_statement(Some(42), StatementClass::Write);
    let record = internal_fail_open_recent_decision(Some(context), decision, 123);

    assert_eq!(record.scope_kind, ScopeKind::Composite);
    assert_eq!(record.scope_hash, 0);
    assert_eq!(record.policy_id, None);
    assert_eq!(record.query_id, Some(42));
    assert_eq!(record.statement_class, StatementClass::Write);
    assert_eq!(record.predicted_wal_bytes, 0);
}

#[test]
fn fail_open_recent_decision_records_full_admission_context() {
    let decision = AdmissionDecision::internal_error_fail_open();
    let context = AdmissionContext {
        query_id: Some(42),
        scope: ScopeKey {
            kind: ScopeKind::Tenant,
            value_hash: 99,
            debug_value: Some("tenant-a".to_string()),
        },
        statement_class: StatementClass::Write,
        predicted_wal_bytes: 2048,
    };
    let record = internal_fail_open_recent_decision(
        Some(AdmissionErrorContext::from_admission_context(&context).with_policy_id(7)),
        decision,
        123,
    );

    assert_eq!(record.policy_id, Some(7));
    assert_eq!(record.scope_kind, ScopeKind::Tenant);
    assert_eq!(record.scope_hash, 99);
    assert_eq!(record.query_id, Some(42));
    assert_eq!(record.statement_class, StatementClass::Write);
    assert_eq!(record.predicted_wal_bytes, 2048);
}

#[test]
fn fail_open_counter_delta_includes_prediction_when_context_has_prediction() {
    let delta = counter_delta_for_decision(
        AdmissionDecision::internal_error_fail_open(),
        AdmissionErrorContext {
            policy_id: Some(7),
            scope_kind: Some(ScopeKind::Tenant),
            scope_hash: Some(99),
            query_id: Some(42),
            statement_class: StatementClass::Write,
            predicted_wal_bytes: Some(2048),
        }
        .predicted_wal_bytes
        .unwrap_or(0),
    );

    assert_eq!(delta.accepted_statements, 1);
    assert_eq!(delta.internal_fail_open_count, 1);
    assert_eq!(delta.predicted_wal_bytes, 2048);
}
