use pg_wal_budget::catalog::MemoryCatalogStore;
use pg_wal_budget::guc::GucSettings;
use pg_wal_budget::lifecycle::{
    LifecycleState, admission_is_bypassed, drain_active_statements, executor_statement_complete,
    pop_executor_admission_marker, push_active_statement, push_executor_admission_marker,
    with_admission_bypass,
};
use pg_wal_budget::reconcile::WalPositions;
use pg_wal_budget::shmem::SharedMemory;
use pg_wal_budget::types::{
    ActiveStatementState, AdmissionDecision, DecisionKind, ReasonCode, ScopeKind, StatementClass,
    WalMeasurementKind,
};

#[test]
fn admission_bypass_is_scoped_and_nested() {
    let mut state = LifecycleState::default();
    assert!(!admission_is_bypassed(&state));

    with_admission_bypass(&mut state, |state| {
        assert!(admission_is_bypassed(state));
        with_admission_bypass(state, |state| assert!(admission_is_bypassed(state)));
        assert!(admission_is_bypassed(state));
    });

    assert!(!admission_is_bypassed(&state));
}

#[test]
fn executor_completion_pops_only_admitted_markers() {
    let mut state = LifecycleState::default();
    push_active_statement(&mut state, test_statement(11));
    push_executor_admission_marker(&mut state, true);
    push_executor_admission_marker(&mut state, false);

    complete(&mut state);
    assert_eq!(state.active_statements.len(), 1);
    complete(&mut state);
    assert_eq!(state.active_statements.len(), 0);
}

#[test]
fn drain_active_statements_clears_markers_and_preserves_lifo_order() {
    let mut state = LifecycleState::default();
    push_active_statement(&mut state, test_statement(1));
    push_active_statement(&mut state, test_statement(2));
    push_executor_admission_marker(&mut state, true);
    push_executor_admission_marker(&mut state, true);

    let drained = drain_active_statements(&mut state);

    assert_eq!(
        drained
            .iter()
            .map(|statement| statement.scope_hash)
            .collect::<Vec<_>>(),
        vec![2, 1]
    );
    assert_eq!(state.active_statements.len(), 0);
    assert!(!pop_executor_admission_marker(&mut state));
}

fn complete(state: &mut LifecycleState) {
    executor_statement_complete(
        state,
        &mut SharedMemory::unavailable(),
        &MemoryCatalogStore::missing_tables(),
        &GucSettings::default(),
        &WalPositions {
            backend_wal_bytes: None,
            insert_lsn: None,
        },
        0,
    );
}

fn test_statement(scope_hash: u64) -> ActiveStatementState {
    ActiveStatementState {
        decision: AdmissionDecision {
            kind: DecisionKind::NoMatchingPolicy,
            policy_id: None,
            charged_bytes: 0,
            available_before: 0,
            available_after: 0,
            reason_code: ReasonCode::NoMatchingPolicy,
        },
        start_wal_bytes: None,
        measurement_kind: WalMeasurementKind::Unavailable,
        query_id: None,
        scope_kind: ScopeKind::Database,
        scope_hash,
        statement_class: StatementClass::Write,
        predicted_wal_bytes: 0,
    }
}
