use pg_wal_budget::admission::record_missing_actual_wal;
use pg_wal_budget::catalog::{DurableCatalogStore, DurablePolicyRow, MemoryCatalogStore};
use pg_wal_budget::errors::{PwbError, PwbResult};
use pg_wal_budget::guc::{GucSettings, ProfileEwmaAlpha, profile_ewma_alpha_weights};
use pg_wal_budget::lifecycle::{
    AdmissionEnvironment, BackendState, LifecycleState, QueryDesc, StartStep, XactEvent,
    begin_executor_statement, begin_utility_statement, executor_statement_complete,
    executor_statement_start, resume_statement, transaction_ending, utility_statement_complete,
    utility_statement_start,
};
use pg_wal_budget::policy::{
    finish_policy_creation, finish_policy_update, plan_policy_budget_update, plan_policy_creation,
};
use pg_wal_budget::policy_cache::PolicyCache;
use pg_wal_budget::privileges::InvokingUser;
use pg_wal_budget::profile::{PROFILE_PERSIST_INTERVAL_MS, PredictionContext, predict_context};
use pg_wal_budget::reconcile::WalPositions;
use pg_wal_budget::scope::{BackendScopeState, SessionNames, hash_scope_value};
use pg_wal_budget::shmem::layout::{SharedCapacities, SharedLayout, compute_layout};
use pg_wal_budget::shmem::profiles::begin_profile_restore;
use pg_wal_budget::shmem::records::{PwbCounters, QueryProfileSnapshot};
use pg_wal_budget::shmem::transactions::{
    budget_bucket_snapshots, counters_snapshot, query_profile_snapshots,
    recent_decision_snapshots, scope_name_snapshots, settle_profile_restore,
};
use pg_wal_budget::shmem::{AttachedRegion, SharedMemory, is_available, shmem_startup};
use pg_wal_budget::stats::{
    counters_row, flush_profiles_impl, preload_status, query_profile_row, recent_decision_limit,
    recent_decision_row, reset_profiles_impl, reset_stats_impl, scope_stats_row,
};
use pg_wal_budget::time::current_epoch_ms;
use pg_wal_budget::types::{
    ActiveStatementState, AdmissionDecision, DecisionKind, ProfileEwmaWeights, QueryWalProfile,
    ReasonCode, ScopeKind, StatementClass, WalMeasurementKind,
};
use pg_wal_budget::utility::{
    CommandType, DefElem, DefElemArg, NodeTag, PlannedStatement, UtilityNode,
    classify_utility_statement, is_pg_wal_budget_create_extension,
};

fn memory(capacity: usize) -> SharedMemory {
    let layout = compute_layout(SharedCapacities {
        recent_decisions: capacity,
        profiles: capacity,
        budget_buckets: capacity,
        scope_names: capacity,
    })
    .unwrap_or_else(|error| panic!("{error:?}"));
    match shmem_startup(layout, true, AttachedRegion::Created) {
        Ok(memory) => memory,
        Err(error) => panic!("{error:?}"),
    }
}

fn store(mode: &str) -> MemoryCatalogStore {
    MemoryCatalogStore::with_rows(
        vec![DurablePolicyRow {
            policy_id: 7,
            scope_kind: "role".to_string(),
            scope_value: Some("app".to_string()),
            enabled: true,
            mode: mode.to_string(),
            wal_rate_bytes_per_sec: 1000,
            wal_burst_bytes: 20_000,
        }],
        Vec::new(),
    )
}

fn environment(now_epoch_ms: u64) -> AdmissionEnvironment {
    AdmissionEnvironment {
        settings: GucSettings::default(),
        names: SessionNames {
            role: Some("app".to_string()),
            database: Some("postgres".to_string()),
            application: None,
        },
        now_epoch_ms,
    }
}

fn backend() -> BackendState {
    BackendState {
        lifecycle: LifecycleState::default(),
        scope: BackendScopeState::default(),
        policies: None,
    }
}

fn insert() -> QueryDesc {
    QueryDesc {
        planned_statement: Some(PlannedStatement {
            command_type: CommandType::Insert,
            has_modifying_cte: false,
            query_id: 42,
            utility: None,
        }),
    }
}

fn positions(bytes: u64) -> WalPositions {
    WalPositions {
        backend_wal_bytes: Some(bytes),
        insert_lsn: Some(1),
    }
}

fn counters(memory: &SharedMemory) -> PwbCounters {
    counters_snapshot(memory).unwrap_or_else(|error| panic!("{error:?}"))
}

fn admitted(step: PwbResult<StartStep>) -> ActiveStatementState {
    match step {
        Ok(StartStep::Admitted(statement)) => statement,
        other => panic!("expected an admitted statement, got {other:?}"),
    }
}

#[test]
fn a_write_is_charged_and_refunded_what_it_did_not_use() {
    let mut memory = memory(8);
    let mut store = store("reject");
    let mut backend = backend();
    let step = begin_executor_statement(
        &environment(1000),
        &mut backend,
        &mut memory,
        &mut store,
        Some(&insert()),
    );
    let statement = admitted(step);
    assert_eq!(statement.decision.charged_bytes, 16_384);
    assert_eq!(statement.decision.available_before, 20_000);
    assert_eq!(statement.decision.available_after, 3616);
    assert_eq!(statement.scope_hash, hash_scope_value(ScopeKind::Role, "app"));

    executor_statement_start(&mut backend.lifecycle, Some(statement), &positions(500));
    executor_statement_complete(
        &mut backend.lifecycle,
        &mut memory,
        &store,
        &GucSettings::default(),
        &positions(1500),
        1000,
    );
    assert_eq!(backend.lifecycle, LifecycleState::default());
    let buckets = budget_bucket_snapshots(&memory).unwrap_or_else(|error| panic!("{error:?}"));
    assert_eq!(buckets[0].available_bytes, 19_000);
    let counters = counters(&memory);
    assert_eq!(counters.accepted_statements, 1);
    assert_eq!(counters.predicted_wal_bytes, 16_384);
    assert_eq!(counters.actual_wal_bytes, 1000);
    assert_eq!(counters.absolute_prediction_error, 15_384);
    assert_eq!(counters.scope_debt_bytes, 0);
    let decisions =
        recent_decision_snapshots(&memory, 10).unwrap_or_else(|error| panic!("{error:?}"));
    assert_eq!(decisions.len(), 2);
    assert_eq!(decisions[0].actual_wal_bytes, Some(1000));
    assert_eq!(decisions[1].actual_wal_bytes, None);
    let names = scope_name_snapshots(&memory).unwrap_or_else(|error| panic!("{error:?}"));
    assert_eq!(names[0].scope_value, "app");

    let prediction = predict_context(
        &mut memory,
        &mut store,
        &GucSettings::default(),
        &PredictionContext {
            statement_class: StatementClass::Write,
            query_id: Some(42),
            scope_hash: statement.scope_hash,
        },
        1000,
    );
    assert_eq!(prediction, 1000);
}

#[test]
fn an_underpredicted_write_leaves_a_debt() {
    let mut memory = memory(8);
    let mut store = store("reject");
    let mut backend = backend();
    let statement = admitted(begin_executor_statement(
        &environment(1000),
        &mut backend,
        &mut memory,
        &mut store,
        Some(&insert()),
    ));
    let was_admitted = utility_statement_start(
        &mut backend.lifecycle,
        Some(statement),
        &positions(0),
    );
    assert!(was_admitted);
    utility_statement_complete(
        &mut backend.lifecycle,
        &mut memory,
        &store,
        &GucSettings::default(),
        was_admitted,
        &positions(20_000),
        1000,
    );
    let buckets = budget_bucket_snapshots(&memory).unwrap_or_else(|error| panic!("{error:?}"));
    assert_eq!(buckets[0].available_bytes, 3616);
    assert_eq!(buckets[0].debt_bytes, 3616);
    assert_eq!(counters(&memory).scope_debt_bytes, 3616);
}

#[test]
fn a_refused_write_is_recorded_and_not_charged() {
    let mut memory = memory(8);
    let mut store = store("reject");
    let mut backend = backend();
    let first = begin_executor_statement(
        &environment(1000),
        &mut backend,
        &mut memory,
        &mut store,
        Some(&insert()),
    );
    assert!(matches!(first, Ok(StartStep::Admitted(_))));
    let second = begin_executor_statement(
        &environment(1100),
        &mut backend,
        &mut memory,
        &mut store,
        Some(&insert()),
    );
    assert_eq!(
        second,
        Err(PwbError::BudgetExceeded {
            policy_id: 7,
            predicted_wal_bytes: 16_384,
            available_wal_bytes: 3716,
        })
    );
    assert_eq!(counters(&memory).rejected_statements, 1);
    let decisions =
        recent_decision_snapshots(&memory, 1).unwrap_or_else(|error| panic!("{error:?}"));
    assert_eq!(decisions[0].decision_kind, DecisionKind::Rejected);
    assert_eq!(decisions[0].reason_code, ReasonCode::BudgetExceeded);
    let buckets = budget_bucket_snapshots(&memory).unwrap_or_else(|error| panic!("{error:?}"));
    assert_eq!(buckets[0].available_bytes, 3616);
}

#[test]
fn a_queued_write_waits_and_leaves_no_trace_until_it_is_charged() {
    let mut memory = memory(8);
    let mut store = store("queue");
    let mut backend = backend();
    let environment = environment(1000);
    let first = begin_executor_statement(
        &environment,
        &mut backend,
        &mut memory,
        &mut store,
        Some(&insert()),
    );
    assert!(matches!(first, Ok(StartStep::Admitted(_))));
    let before = counters(&memory);
    let second = begin_executor_statement(
        &environment,
        &mut backend,
        &mut memory,
        &mut store,
        Some(&insert()),
    );
    let pending = match second {
        Ok(StartStep::Wait(pending)) => pending,
        other => panic!("expected a wait, got {other:?}"),
    };
    assert_eq!(pending.wait_ms, 12_768);
    assert_eq!(counters(&memory), before);

    let wait_ms = pending.wait_ms;
    let early = resume_statement(
        &mut memory,
        &environment.settings,
        pending,
        1000 + wait_ms - 1,
    );
    let pending = match early {
        Ok(StartStep::Wait(pending)) => pending,
        other => panic!("expected a wait, got {other:?}"),
    };
    assert_eq!(pending.wait_ms, 1);
    let resumed = admitted(resume_statement(
        &mut memory,
        &environment.settings,
        pending,
        1000 + wait_ms,
    ));
    assert_eq!(resumed.decision.available_after, 0);
    assert_eq!(counters(&memory).accepted_statements, 2);
}

#[test]
fn shadow_and_observe_modes_let_everything_through() {
    for (mode, kinds) in [
        ("observe", [DecisionKind::Allowed, DecisionKind::Allowed]),
        ("off", [DecisionKind::Allowed, DecisionKind::Allowed]),
        ("shadow", [DecisionKind::WouldReject, DecisionKind::WouldReject]),
    ] {
        let mut memory = memory(8);
        let mut store = store(mode);
        store.policy_rows[0].wal_burst_bytes = 1000;
        let mut backend = backend();
        for kind in kinds {
            let statement = admitted(begin_executor_statement(
                &environment(1000),
                &mut backend,
                &mut memory,
                &mut store,
                Some(&insert()),
            ));
            assert_eq!(statement.decision.kind, kind);
        }
        assert_eq!(budget_bucket_snapshots(&memory), Ok(Vec::new()));
    }
}

#[test]
fn statements_without_a_policy_are_accepted_and_counted() {
    let mut memory = memory(8);
    let mut store = MemoryCatalogStore::missing_tables();
    let mut backend = backend();
    let statement = admitted(begin_executor_statement(
        &environment(1000),
        &mut backend,
        &mut memory,
        &mut store,
        Some(&insert()),
    ));
    assert_eq!(statement.decision.kind, DecisionKind::NoMatchingPolicy);
    assert_eq!(counters(&memory).accepted_statements, 1);
}

#[test]
fn reads_disabled_settings_and_bypasses_leave_statements_alone() {
    let mut memory = memory(8);
    let mut store = store("reject");
    let mut backend = backend();
    let mut select = insert();
    if let Some(statement) = select.planned_statement.as_mut() {
        statement.command_type = CommandType::Select;
    }
    let mut disabled = environment(1000);
    disabled.settings.enabled = false;
    let mut bypassing = backend.clone();
    bypassing.lifecycle.bypass_depth = 1;
    for (environment, backend, desc) in [
        (&environment(1000), &mut backend.clone(), &select),
        (&disabled, &mut backend, &insert()),
        (&environment(1000), &mut bypassing, &insert()),
    ] {
        let step =
            begin_executor_statement(environment, backend, &mut memory, &mut store, Some(desc));
        assert_eq!(step, Ok(StartStep::NotAdmitted));
    }
    assert_eq!(counters(&memory), PwbCounters::default());
}

#[test]
fn internal_errors_let_statements_through_only_where_the_settings_say_so() {
    let mut memory = memory(8);
    let mut store = store("reject");
    let mut backend = backend();
    let mut environment = environment(1000);
    let error = PwbError::Internal {
        message: "executor start received a null QueryDesc".to_string(),
    };
    let step = begin_executor_statement(&environment, &mut backend, &mut memory, &mut store, None);
    assert_eq!(step, Ok(StartStep::NotAdmitted));
    assert_eq!(counters(&memory).internal_fail_open_count, 1);

    environment.settings.fail_open = false;
    let step = begin_executor_statement(&environment, &mut backend, &mut memory, &mut store, None);
    assert_eq!(step, Err(error));
    let step = begin_executor_statement(
        &environment,
        &mut backend,
        &mut memory,
        &mut store,
        Some(&QueryDesc {
            planned_statement: None,
        }),
    );
    assert_eq!(
        step,
        Err(PwbError::Internal {
            message: "executor start received a QueryDesc without a PlannedStmt".to_string(),
        })
    );
    assert_eq!(counters(&memory).internal_fail_open_count, 1);
}

#[test]
fn without_a_scope_a_statement_fails_open() {
    let mut memory = memory(8);
    let mut store = store("reject");
    let mut backend = backend();
    let mut environment = environment(1000);
    environment.names = SessionNames {
        role: None,
        database: None,
        application: None,
    };
    environment.settings.fail_open = false;
    let step = begin_executor_statement(
        &environment,
        &mut backend,
        &mut memory,
        &mut store,
        Some(&insert()),
    );
    assert_eq!(step, Err(PwbError::MissingScope));
}

fn utility(tag: NodeTag) -> PlannedStatement {
    PlannedStatement {
        command_type: CommandType::Utility,
        has_modifying_cte: false,
        query_id: 0,
        utility: Some(UtilityNode {
            tag,
            is_from: true,
            options: Vec::new(),
            extension_name: None,
        }),
    }
}

#[test]
fn utility_statements_are_admitted_by_class() {
    let mut memory = memory(8);
    let mut store = store("observe");
    let mut backend = backend();
    for (tag, class, predicted) in [
        (NodeTag::IndexStmt, StatementClass::Utility, 1_048_576),
        (NodeTag::CopyStmt, StatementClass::Copy, 1_048_576),
        (NodeTag::FetchStmt, StatementClass::ReadOnly, 0),
    ] {
        let statement = admitted(begin_utility_statement(
            &environment(1000),
            &mut backend,
            &mut memory,
            &mut store,
            Some(&utility(tag)),
            false,
        ));
        assert_eq!(statement.statement_class, class);
        assert_eq!(statement.predicted_wal_bytes, predicted);
        assert_eq!(statement.query_id, None);
    }
    let mut own = utility(NodeTag::CreateExtensionStmt);
    if let Some(node) = own.utility.as_mut() {
        node.extension_name = Some("pg_wal_budget".to_string());
    }
    assert!(is_pg_wal_budget_create_extension(Some(&own)));
    let step = begin_utility_statement(
        &environment(1000),
        &mut backend,
        &mut memory,
        &mut store,
        Some(&own),
        false,
    );
    assert_eq!(step, Ok(StartStep::NotAdmitted));
    assert!(matches!(
        classify_utility_statement(None, false),
        Err(PwbError::Internal { .. })
    ));
}

#[test]
fn explain_counts_where_it_analyzes() {
    let option = |name: &str, arg: DefElemArg| {
        Some(DefElem {
            name: Some(name.to_string()),
            arg,
        })
    };
    for (options, class) in [
        (Vec::new(), StatementClass::ReadOnly),
        (vec![None, option("verbose", DefElemArg::Missing)], StatementClass::ReadOnly),
        (vec![option("analyze", DefElemArg::Missing)], StatementClass::Utility),
        (vec![option("analyze", DefElemArg::Other)], StatementClass::Utility),
        (vec![option("analyze", DefElemArg::Boolean(false))], StatementClass::ReadOnly),
        (
            vec![
                option("analyze", DefElemArg::Boolean(true)),
                option("analyze", DefElemArg::Boolean(false)),
            ],
            StatementClass::Utility,
        ),
    ] {
        let mut explain = utility(NodeTag::ExplainStmt);
        if let Some(node) = explain.utility.as_mut() {
            node.options = options;
        }
        assert_eq!(classify_utility_statement(Some(&explain), true), Ok(class));
    }
}

#[test]
fn statements_under_way_are_given_up_with_their_transaction() {
    let statement = |charged: u64| ActiveStatementState {
        decision: AdmissionDecision::allowed(
            Some(7),
            charged,
            ReasonCode::BudgetAvailable,
        ),
        start_wal_bytes: Some(0),
        measurement_kind: WalMeasurementKind::ExactBackend,
        query_id: None,
        scope_kind: ScopeKind::Role,
        scope_hash: 1,
        statement_class: StatementClass::Write,
        predicted_wal_bytes: charged,
    };
    for (event, aborted, missing) in [
        (XactEvent::Abort, 1, 0),
        (XactEvent::ParallelAbort, 1, 0),
        (XactEvent::Commit, 0, 2),
        (XactEvent::ParallelCommit, 0, 2),
    ] {
        let mut memory = memory(4);
        let mut state = LifecycleState::default();
        for charged in [0, 10] {
            executor_statement_start(&mut state, Some(statement(charged)), &positions(5));
        }
        transaction_ending(&mut state, &mut memory, XactEvent::Other);
        assert_eq!(state.active_statements.len(), 2);
        transaction_ending(&mut state, &mut memory, event);
        assert_eq!(state, LifecycleState::default());
        assert_eq!(counters(&memory).aborted_after_charge_count, aborted);
        assert_eq!(counters(&memory).missing_actual_wal_count, missing);
    }
}

#[test]
fn approximate_measurements_touch_neither_profiles_nor_buckets() {
    let mut memory = memory(8);
    let mut store = store("reject");
    let mut backend = backend();
    let statement = admitted(begin_executor_statement(
        &environment(1000),
        &mut backend,
        &mut memory,
        &mut store,
        Some(&insert()),
    ));
    let approximate = |lsn: u64| WalPositions {
        backend_wal_bytes: None,
        insert_lsn: Some(lsn),
    };
    executor_statement_start(&mut backend.lifecycle, Some(statement), &approximate(100));
    executor_statement_complete(
        &mut backend.lifecycle,
        &mut memory,
        &store,
        &GucSettings::default(),
        &approximate(300),
        1000,
    );
    assert_eq!(counters(&memory).actual_wal_bytes, 200);
    assert_eq!(query_profile_snapshots(&memory), Ok(Vec::new()));
    let buckets = budget_bucket_snapshots(&memory).unwrap_or_else(|error| panic!("{error:?}"));
    assert_eq!(buckets[0].available_bytes, 3616);
}

#[test]
fn profiles_are_restored_once_and_stored_when_due() {
    let stored = QueryProfileSnapshot {
        scope_hash: None,
        query_id: 42,
        profile: QueryWalProfile::new(5000, 10),
    };
    let mut memory = memory(4);
    let mut store = MemoryCatalogStore::with_rows(Vec::new(), vec![stored]);
    let settings = GucSettings::default();
    let context = PredictionContext {
        statement_class: StatementClass::Write,
        query_id: Some(42),
        scope_hash: 99,
    };
    assert_eq!(predict_context(&mut memory, &mut store, &settings, &context, 1000), 5000);

    let statement = ActiveStatementState {
        decision: AdmissionDecision::no_matching_policy(),
        start_wal_bytes: None,
        measurement_kind: WalMeasurementKind::Unavailable,
        query_id: Some(42),
        scope_kind: ScopeKind::Role,
        scope_hash: 99,
        statement_class: StatementClass::Write,
        predicted_wal_bytes: 5000,
    };
    let mut state = LifecycleState::default();
    executor_statement_start(&mut state, Some(statement), &positions(0));
    executor_statement_complete(&mut state, &mut memory, &store, &settings, &positions(7000), 2000);
    assert_eq!(predict_context(&mut memory, &mut store, &settings, &context, 2000), 7000);
    assert_eq!(store.profiles, vec![stored]);
    let due = PROFILE_PERSIST_INTERVAL_MS + 2000;
    assert_eq!(predict_context(&mut memory, &mut store, &settings, &context, due), 7000);
    assert_eq!(store.profiles.len(), 2);
    assert_eq!(store.profiles[0].profile.ewma_wal_bytes, 6000);
}

#[test]
fn a_restore_that_fails_can_be_tried_again() {
    let mut memory = memory(4);
    assert_eq!(begin_profile_restore(&mut memory, 1000, 60_000), Ok(true));
    assert_eq!(begin_profile_restore(&mut memory, 1001, 60_000), Ok(false));
    let failure = PwbError::Internal {
        message: "no table".to_string(),
    };
    assert_eq!(
        settle_profile_restore(&mut memory, Err(failure.clone())),
        Err(failure)
    );
    assert_eq!(begin_profile_restore(&mut memory, 1002, 60_000), Ok(true));
    assert_eq!(begin_profile_restore(&mut memory, 61_002, 60_000), Ok(true));
    assert_eq!(settle_profile_restore(&mut memory, Ok(Vec::new())), Ok(()));
    assert_eq!(begin_profile_restore(&mut memory, u64::MAX, 60_000), Ok(false));
}

#[test]
fn shared_memory_must_be_attached_and_of_this_version() {
    let failed = |lock_resolved: bool, attached: AttachedRegion| {
        match shmem_startup(SharedLayout::empty(), lock_resolved, attached) {
            Ok(_) => panic!("expected an error"),
            Err(error) => error.detail(),
        }
    };
    assert_eq!(
        failed(false, AttachedRegion::Created),
        "internal error: failed to resolve pg_wal_budget LWLock tranche"
    );
    assert_eq!(
        failed(true, AttachedRegion::Failed),
        "internal error: failed to initialize pg_wal_budget shared memory"
    );
    let mut other = memory(1);
    if let Some(region) = other.region.as_mut() {
        region.state.layout_version = 2;
    }
    assert!(!is_available(&other));
    assert_eq!(
        counters_snapshot(&other).map_err(|error| error.detail()),
        Err("internal error: pg_wal_budget shared memory has an incompatible layout".to_string())
    );
    match other.region {
        Some(region) => assert_eq!(
            failed(true, AttachedRegion::Found(region)),
            "internal error: pg_wal_budget shared memory layout mismatch: magic=1347895809, version=2"
        ),
        None => panic!("the region is attached"),
    }
    assert_eq!(preload_status(&SharedMemory::unavailable()), "sql_only_loaded");
    assert_eq!(preload_status(&memory(1)), "preloaded");
}

#[test]
fn administration_needs_the_admin_role() {
    let admin = InvokingUser {
        is_superuser: false,
        roles: vec!["pwb_admin".to_string()],
    };
    let other = InvokingUser {
        is_superuser: false,
        roles: vec!["pwb_monitor".to_string()],
    };
    let mut memory = memory(4);
    let mut store = MemoryCatalogStore::with_rows(Vec::new(), Vec::new());
    let settings = GucSettings::default();
    record_missing_actual_wal(&mut memory);
    assert_eq!(
        reset_stats_impl(&mut memory, &other),
        Err(PwbError::InsufficientPrivilege {
            operation: "reset pg_wal_budget stats"
        })
    );
    assert_eq!(counters(&memory).missing_actual_wal_count, 1);
    assert_eq!(reset_stats_impl(&mut memory, &admin), Ok(()));
    assert_eq!(counters(&memory), PwbCounters::default());
    assert_eq!(flush_profiles_impl(&mut memory, &mut store, &settings, &admin, 1), Ok(()));
    assert!(flush_profiles_impl(&mut memory, &mut store, &settings, &other, 1).is_err());
    assert_eq!(reset_profiles_impl(&mut memory, &mut store, &admin), Ok(()));
    assert!(reset_profiles_impl(&mut memory, &mut store, &other).is_err());
    assert_eq!(store.load_profiles(10), Ok(Vec::new()));
}

#[test]
fn rows_saturate_at_the_largest_bigint() {
    let row = counters_row(PwbCounters {
        accepted_statements: 3,
        actual_wal_bytes: u64::MAX,
        ..PwbCounters::default()
    });
    assert_eq!(row.accepted_statements, 3);
    assert_eq!(row.actual_wal_bytes, i64::MAX);

    let mut memory = memory(2);
    let mut store = store("reject");
    let mut backend = backend();
    let statement = admitted(begin_executor_statement(
        &environment(1000),
        &mut backend,
        &mut memory,
        &mut store,
        Some(&insert()),
    ));
    let bucket = budget_bucket_snapshots(&memory).unwrap_or_else(|error| panic!("{error:?}"))[0];
    let row = scope_stats_row(bucket);
    assert_eq!(row.policy_id, 7);
    assert_eq!(row.available_bytes, 3616);
    assert_eq!(row.last_refill_epoch_ms, 1000);
    let record = recent_decision_snapshots(&memory, recent_decision_limit(5))
        .unwrap_or_else(|error| panic!("{error:?}"))[0];
    let row = recent_decision_row(record);
    assert_eq!(row.decision_kind, "allowed");
    assert_eq!(row.scope_kind, "role");
    assert_eq!(row.statement_class, "write");
    assert_eq!(row.reason_code, "budget_available");
    assert_eq!(row.query_id, Some(42));
    assert_eq!(row.actual_wal_bytes, None);
    assert_eq!(recent_decision_limit(-3), 0);
    let row = query_profile_row(QueryProfileSnapshot {
        scope_hash: None,
        query_id: 42,
        profile: QueryWalProfile::new(10, statement.scope_hash),
    });
    assert!(row.is_global);
    assert_eq!(row.calls, 1);
}

#[test]
fn policy_changes_drop_the_cached_policies() {
    let cached = || {
        Some(PolicyCache {
            refreshed_epoch_ms: 1,
            policies: Vec::new(),
        })
    };
    let planned = plan_policy_creation(" Role ", Some(" app "), 100, 500, "QUEUE", 5)
        .unwrap_or_else(|error| panic!("{error:?}"));
    assert_eq!(planned.mode, "queue");
    assert_eq!(planned.scope_kind, "role");
    assert_eq!(planned.scope_value.as_deref(), Some("app"));
    assert_eq!(planned.wal_burst_bytes, 500);
    assert_eq!(plan_policy_budget_update(100, 500), Ok((100, 500)));
    assert!(plan_policy_budget_update(100, 99).is_err());

    let mut cache = cached();
    assert_eq!(finish_policy_creation(&mut cache, Some(9)), Ok(9));
    assert_eq!(cache, None);
    let mut cache = cached();
    assert!(finish_policy_creation(&mut cache, None).is_err());
    assert_eq!(cache, cached());
    assert_eq!(finish_policy_update(&mut cache, 9, Some(true)), Ok(()));
    assert_eq!(cache, None);
    let mut cache = cached();
    for updated in [None, Some(false)] {
        assert!(matches!(
            finish_policy_update(&mut cache, 9, updated),
            Err(PwbError::InvalidPolicyValue {
                field: "policy_id",
                ..
            })
        ));
        assert_eq!(cache, cached());
    }
}

#[test]
fn smoothing_factors_are_kept_in_their_range() {
    let mut settings = GucSettings::default();
    for (scaled, numerator) in [
        (500_000, 500_000),
        (0, 1),
        (1, 1),
        (1_000_000, 1_000_000),
        (1_000_001, 1_000_000),
    ] {
        settings.profile_ewma_alpha = ProfileEwmaAlpha::Scaled(scaled);
        let weights =
            profile_ewma_alpha_weights(&settings).unwrap_or_else(|error| panic!("{error:?}"));
        assert_eq!((weights.numerator, weights.denominator), (numerator, 1_000_000));
    }
    settings.profile_ewma_alpha = ProfileEwmaAlpha::Invalid("NaN".to_string());
    assert_eq!(
        profile_ewma_alpha_weights(&settings),
        Err(PwbError::Internal {
            message: "invalid profile EWMA alpha: NaN".to_string(),
        })
    );
    for (numerator, denominator) in [(0, 1), (1, 0), (2, 1)] {
        assert_eq!(
            ProfileEwmaWeights::new(numerator, denominator),
            Err(PwbError::Internal {
                message: format!("invalid profile EWMA weights: {numerator}/{denominator}"),
            })
        );
    }
}

#[test]
fn the_clock_is_cut_off_at_its_ends() {
    assert_eq!(current_epoch_ms(None), 0);
    assert_eq!(current_epoch_ms(Some(1234)), 1234);
    assert_eq!(current_epoch_ms(Some(u128::MAX)), u64::MAX);
}
