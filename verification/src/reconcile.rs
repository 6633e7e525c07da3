//! Reconciliation: what a statement was predicted to write against what it wrote.

use vstd::prelude::*;

use crate::admission;
use crate::admission::record_missing_actual_wal;
use crate::budget;
use crate::budget::{record_underprediction_debt, refund_charged_bytes, EffectivePolicy};
use crate::catalog::DurableCatalogStore;
use crate::errors;
use crate::errors::{PwbError, PwbResult};
use crate::guc::GucSettings;
use crate::profile;
use crate::profile::record_query_observation;
use crate::shmem::counters;
use crate::shmem::profiles;
use crate::shmem::recent_decisions;
use crate::shmem::records::{BudgetBucketState, CounterDelta, RecentDecisionRecord};
use crate::shmem::transactions;
use crate::shmem::{SharedMemory, SharedMemoryView};
use crate::types::{
    ActiveStatementState, DecisionKind, EpochMillis, QueryId, ScopeHash, WalBytes,
    WalMeasurementKind,
};

verus! {

/// How a bucket is to be set right after a statement.
#[derive(Debug, Clone, Copy, PartialEq, Eq)]
pub enum BudgetReconciliation {
    Unchanged,
    Refund(WalBytes),
    Debt(WalBytes),
}

/// The positions of the WAL at some time, where the server gives them: what this backend has written,
/// and the position up to which all backends have.
#[derive(Debug, Clone, Copy, PartialEq, Eq)]
pub struct WalPositions {
    pub backend_wal_bytes: Option<WalBytes>,
    pub insert_lsn: Option<WalBytes>,
}

impl WalPositions {
    /// The position that measurements of a kind are made from.
    pub open spec fn of_kind(self, kind: WalMeasurementKind) -> Option<WalBytes> {
        match kind {
            WalMeasurementKind::ExactBackend => self.backend_wal_bytes,
            WalMeasurementKind::ApproximateInsertLsn => self.insert_lsn,
            WalMeasurementKind::Unavailable => None,
        }
    }

    /// The best kind of measurement that there is a position for.
    pub open spec fn best_kind(self) -> WalMeasurementKind {
        if self.backend_wal_bytes is Some {
            WalMeasurementKind::ExactBackend
        } else if self.insert_lsn is Some {
            WalMeasurementKind::ApproximateInsertLsn
        } else {
            WalMeasurementKind::Unavailable
        }
    }
}

/// Whether the bucket of a statement may be set right: only for what was charged, and only by an exact
/// measurement.
pub open spec fn adjusts_budget(statement: ActiveStatementState) -> bool {
    &&& statement.decision.kind == DecisionKind::Allowed
    &&& statement.decision.charged_bytes > 0
    &&& statement.measurement_kind == WalMeasurementKind::ExactBackend
}

/// How the bucket of a statement is to be set right.
pub open spec fn adjustment(
    statement: ActiveStatementState,
    actual: WalBytes,
) -> BudgetReconciliation {
    let charged = statement.decision.charged_bytes;
    if !adjusts_budget(statement) || actual == charged {
        BudgetReconciliation::Unchanged
    } else if actual < charged {
        BudgetReconciliation::Refund((charged - actual) as u64)
    } else {
        BudgetReconciliation::Debt((actual - charged) as u64)
    }
}

/// The debt that a statement leaves.
pub open spec fn debt(statement: ActiveStatementState, actual: WalBytes) -> WalBytes {
    match adjustment(statement, actual) {
        BudgetReconciliation::Debt(bytes) => bytes,
        _ => 0,
    }
}

/// The distance between two numbers.
pub open spec fn distance(a: WalBytes, b: WalBytes) -> WalBytes {
    if a >= b {
        (a - b) as u64
    } else {
        (b - a) as u64
    }
}

/// The WAL between two positions, none where they went backwards.
pub open spec fn wal_between(start: WalBytes, end: WalBytes) -> WalBytes {
    if end >= start {
        (end - start) as u64
    } else {
        0
    }
}

/// What a measured statement adds to the counters.
pub open spec fn measured_delta(statement: ActiveStatementState, actual: WalBytes) -> CounterDelta {
    CounterDelta {
        actual_wal_bytes: actual,
        absolute_prediction_error: distance(statement.predicted_wal_bytes, actual),
        scope_debt_bytes: debt(statement, actual),
        ..CounterDelta::zero()
    }
}

/// The record of a measured statement.
pub open spec fn measured_record(
    statement: ActiveStatementState,
    actual: WalBytes,
    now_epoch_ms: EpochMillis,
) -> RecentDecisionRecord {
    RecentDecisionRecord {
        timestamp_epoch_ms: now_epoch_ms,
        decision_kind: statement.decision.kind,
        policy_id: statement.decision.policy_id,
        scope_kind: statement.scope_kind,
        scope_hash: statement.scope_hash,
        query_id: statement.query_id,
        statement_class: statement.statement_class,
        predicted_wal_bytes: statement.predicted_wal_bytes,
        actual_wal_bytes: Some(actual),
        available_before: statement.decision.available_before,
        available_after: statement.decision.available_after,
        reason_code: statement.decision.reason_code,
    }
}

/// What a failure in reconciliation adds to the counters.
pub open spec fn failure_delta() -> CounterDelta {
    CounterDelta { internal_fail_open_count: 1, ..CounterDelta::zero() }
}

/// The memory after a measured statement was counted and recorded.
pub open spec fn measured(
    memory: SharedMemoryView,
    statement: ActiveStatementState,
    actual: WalBytes,
    now_epoch_ms: EpochMillis,
) -> SharedMemoryView {
    match memory.access() {
        Err(_) => memory,
        Ok(region) => memory.holding(
            region.with_counters(
                region.state.counters.plus(measured_delta(statement, actual)),
            ).with_decision(measured_record(statement, actual, now_epoch_ms)),
        ),
    }
}

/// Whether a statement tells something about its query: only an exact measurement of a query with an
/// identity does.
pub open spec fn observes_query(statement: ActiveStatementState) -> bool {
    statement.measurement_kind == WalMeasurementKind::ExactBackend && statement.query_id is Some
}

/// Whether adding an observation to the profiles may turn `before` into `after` and return `result`.
pub open spec fn query_observed<S: DurableCatalogStore>(
    store: &S,
    settings: GucSettings,
    statement: ActiveStatementState,
    actual: WalBytes,
    now_epoch_ms: EpochMillis,
    before: SharedMemoryView,
    after: SharedMemoryView,
    result: PwbResult<()>,
) -> bool {
    exists|loaded: SharedMemoryView, ensured: PwbResult<()>|
        {
            &&& #[trigger] profile::profiles_ensured(
                store,
                settings.capacity(settings.profile_cache_capacity) as usize,
                now_epoch_ms,
                before,
                loaded,
                ensured,
            )
            &&& match ensured {
                Err(error) => result == Err::<(), PwbError>(error) && after == loaded,
                Ok(_) => profile::observation_recorded(
                    settings,
                    statement.scope_hash,
                    statement.query_id->0,
                    actual,
                    now_epoch_ms,
                    loaded,
                    after,
                    result,
                ),
            }
        }
}

/// Whether learning from a statement may turn `before` into `after`. A failure is counted.
pub open spec fn learned<S: DurableCatalogStore>(
    store: &S,
    settings: GucSettings,
    statement: ActiveStatementState,
    actual: WalBytes,
    now_epoch_ms: EpochMillis,
    before: SharedMemoryView,
    after: SharedMemoryView,
) -> bool {
    if !observes_query(statement) {
        after == before
    } else {
        exists|observed: SharedMemoryView, result: PwbResult<()>|
            {
                &&& #[trigger] query_observed(
                    store,
                    settings,
                    statement,
                    actual,
                    now_epoch_ms,
                    before,
                    observed,
                    result,
                )
                &&& after == if result is Ok {
                    observed
                } else {
                    admission::counted(observed, failure_delta())
                }
            }
    }
}

/// The memory after the bucket of a statement was set right.
pub open spec fn adjusted(
    memory: SharedMemoryView,
    statement: ActiveStatementState,
    actual: WalBytes,
) -> SharedMemoryView {
    match (memory.access(), statement.decision.policy_id) {
        (Ok(region), Some(policy_id)) => match adjustment(statement, actual) {
            BudgetReconciliation::Unchanged => memory,
            BudgetReconciliation::Refund(bytes) => memory.holding(
                region.with_refund(policy_id, statement.scope_hash, bytes),
            ),
            BudgetReconciliation::Debt(bytes) => memory.holding(
                region.with_debt(policy_id, statement.scope_hash, bytes),
            ),
        },
        _ => memory,
    }
}

/// The WAL that a statement wrote, where it could be measured at its start and at its end.
pub open spec fn measurement(statement: ActiveStatementState, end: WalPositions) -> Option<WalBytes> {
    match (statement.start_wal_bytes, end.of_kind(statement.measurement_kind)) {
        (Some(start), Some(end)) => Some(wal_between(start, end)),
        _ => None,
    }
}

pub fn capture_start(statement: ActiveStatementState, positions: &WalPositions) -> (r:
    ActiveStatementState)
    ensures
        r == (ActiveStatementState {
            measurement_kind: positions.best_kind(),
            start_wal_bytes: positions.of_kind(positions.best_kind()),
            ..statement
        }),
{
    let mut statement = statement;
    if let Some(wal_bytes) = positions.backend_wal_bytes {
        statement.start_wal_bytes = Some(wal_bytes);
        statement.measurement_kind = WalMeasurementKind::ExactBackend;
    } else if let Some(lsn) = positions.insert_lsn {
        statement.start_wal_bytes = Some(lsn);
        statement.measurement_kind = WalMeasurementKind::ApproximateInsertLsn;
    } else {
        statement.start_wal_bytes = None;
        statement.measurement_kind = WalMeasurementKind::Unavailable;
    }
    statement
}

pub fn current_measurement_for_kind(positions: &WalPositions, kind: WalMeasurementKind) -> (r:
    Option<WalBytes>)
    ensures
        r == positions.of_kind(kind),
{
    match kind {
        WalMeasurementKind::ExactBackend => positions.backend_wal_bytes,
        WalMeasurementKind::ApproximateInsertLsn => positions.insert_lsn,
        WalMeasurementKind::Unavailable => None,
    }
}

pub fn should_record_profile_observation(statement: &ActiveStatementState) -> (r: bool)
    ensures
        r == observes_query(*statement),
{
    statement.measurement_kind == WalMeasurementKind::ExactBackend && statement.query_id.is_some()
}

pub fn should_reconcile_budget(statement: &ActiveStatementState) -> (r: bool)
    ensures
        r == adjusts_budget(*statement),
{
    statement.decision.kind == DecisionKind::Allowed && statement.decision.charged_bytes > 0
        && statement.measurement_kind == WalMeasurementKind::ExactBackend
}

pub fn wal_delta(start: WalBytes, end: WalBytes) -> (r: WalBytes)
    ensures
        r == wal_between(start, end),
{
    end.saturating_sub(start)
}

pub fn prediction_error(predicted: WalBytes, actual: WalBytes) -> (r: WalBytes)
    ensures
        r == distance(predicted, actual),
{
    if predicted >= actual {
        predicted - actual
    } else {
        actual - predicted
    }
}

pub fn exact_reconciliation_debt_bytes(
    statement: &ActiveStatementState,
    actual_wal_bytes: WalBytes,
) -> (r: WalBytes)
    ensures
        r == debt(*statement, actual_wal_bytes),
{
    if should_reconcile_budget(statement) && actual_wal_bytes > statement.decision.charged_bytes {
        actual_wal_bytes - statement.decision.charged_bytes
    } else {
        0
    }
}

pub fn budget_reconciliation(statement: &ActiveStatementState, actual_wal_bytes: WalBytes) -> (r:
    BudgetReconciliation)
    ensures
        r == adjustment(*statement, actual_wal_bytes),
{
    if !should_reconcile_budget(statement) {
        return BudgetReconciliation::Unchanged;
    }
    if actual_wal_bytes < statement.decision.charged_bytes {
        BudgetReconciliation::Refund(statement.decision.charged_bytes - actual_wal_bytes)
    } else if actual_wal_bytes > statement.decision.charged_bytes {
        BudgetReconciliation::Debt(actual_wal_bytes - statement.decision.charged_bytes)
    } else {
        BudgetReconciliation::Unchanged
    }
}

pub fn reconcile_budget(
    shmem: &mut SharedMemory,
    statement: &ActiveStatementState,
    actual_wal_bytes: WalBytes,
) -> (r: PwbResult<()>)
    requires
        old(shmem).wf(),
    ensures
        final(shmem).wf(),
        final(shmem)@ == adjusted(old(shmem)@, *statement, actual_wal_bytes),
        match old(shmem)@.access() {
            Err(error) => if statement.decision.policy_id is Some && adjustment(
                *statement,
                actual_wal_bytes,
            ) != BudgetReconciliation::Unchanged {
                errors::fails_with(r, error)
            } else {
                r is Ok
            },
            Ok(_) => r is Ok,
        },
{
    if !should_reconcile_budget(statement) {
        return Ok(());
    }
    let policy_id: i32 = match statement.decision.policy_id {
        Some(policy_id) => policy_id,
        None => {
            return Ok(());
        },
    };
    match budget_reconciliation(statement, actual_wal_bytes) {
        BudgetReconciliation::Unchanged => Ok(()),
        BudgetReconciliation::Refund(refund_bytes) => refund_charged_bytes(
            shmem,
            policy_id,
            statement.scope_hash,
            refund_bytes,
        ),
        BudgetReconciliation::Debt(debt_bytes) => record_underprediction_debt(
            shmem,
            policy_id,
            statement.scope_hash,
            debt_bytes,
        ),
    }
}

pub fn record_reconciliation_result(shmem: &mut SharedMemory, result: &PwbResult<()>)
    requires
        old(shmem).wf(),
    ensures
        final(shmem).wf(),
        final(shmem)@ == if result is Ok {
            old(shmem)@
        } else {
            admission::counted(old(shmem)@, failure_delta())
        },
{
    if result.is_err() {
        let mut delta = CounterDelta::default();
        delta.internal_fail_open_count = 1;
        let _ = counters::add_counters(shmem, delta);
    }
}

/// Whether reconciling a completed statement may turn `before` into `after`.
pub open spec fn reconciled<S: DurableCatalogStore>(
    store: &S,
    settings: GucSettings,
    statement: ActiveStatementState,
    end: WalPositions,
    now_epoch_ms: EpochMillis,
    before: SharedMemoryView,
    after: SharedMemoryView,
) -> bool {
    match measurement(statement, end) {
        None => after == admission::counted(before, admission::missing_delta()),
        Some(actual) => exists|learning: SharedMemoryView|
            {
                &&& #[trigger] learned(
                    store,
                    settings,
                    statement,
                    actual,
                    now_epoch_ms,
                    measured(before, statement, actual, now_epoch_ms),
                    learning,
                )
                &&& after == adjusted(learning, statement, actual)
            },
    }
}

/// Reconciles a completed statement: counts and records what it wrote, learns from it, and sets its
/// bucket right. A statement whose WAL is not known is only counted as such.
pub fn reconcile_completed_statement<S: DurableCatalogStore>(
    shmem: &mut SharedMemory,
    store: &S,
    settings: &GucSettings,
    statement: &ActiveStatementState,
    end: &WalPositions,
    now_epoch_ms: EpochMillis,
)
    requires
        old(shmem).wf(),
    ensures
        final(shmem).wf(),
        reconciled(
            store,
            *settings,
            *statement,
            *end,
            now_epoch_ms,
            old(shmem)@,
            final(shmem)@,
        ),
{
    let start_wal_bytes: u64 = match statement.start_wal_bytes {
        Some(start_wal_bytes) => start_wal_bytes,
        None => {
            record_missing_actual_wal(shmem);
            return ;
        },
    };
    let end_wal_bytes: u64 = match current_measurement_for_kind(end, statement.measurement_kind) {
        Some(end_wal_bytes) => end_wal_bytes,
        None => {
            record_missing_actual_wal(shmem);
            return ;
        },
    };
    let actual_wal_bytes: u64 = wal_delta(start_wal_bytes, end_wal_bytes);
    let mut delta = CounterDelta::default();
    delta.actual_wal_bytes = actual_wal_bytes;
    delta.absolute_prediction_error = prediction_error(
        statement.predicted_wal_bytes,
        actual_wal_bytes,
    );
    delta.scope_debt_bytes = exact_reconciliation_debt_bytes(statement, actual_wal_bytes);
    let result = counters::add_counters(shmem, delta);
    record_reconciliation_result(shmem, &result);
    let result = recent_decisions::record_recent_decision(
        shmem,
        RecentDecisionRecord {
            timestamp_epoch_ms: now_epoch_ms,
            decision_kind: statement.decision.kind,
            policy_id: statement.decision.policy_id,
            scope_kind: statement.scope_kind,
            scope_hash: statement.scope_hash,
            query_id: statement.query_id,
            statement_class: statement.statement_class,
            predicted_wal_bytes: statement.predicted_wal_bytes,
            actual_wal_bytes: Some(actual_wal_bytes),
            available_before: statement.decision.available_before,
            available_after: statement.decision.available_after,
            reason_code: statement.decision.reason_code,
        },
    );
    record_reconciliation_result(shmem, &result);
    let ghost recorded = shmem@;
    assert(recorded == measured(old(shmem)@, *statement, actual_wal_bytes, now_epoch_ms));
    if should_record_profile_observation(statement) {
        if let Some(query_id) = statement.query_id {
            let result = record_query_observation(
                shmem,
                store,
                settings,
                statement.scope_hash,
                query_id,
                actual_wal_bytes,
                now_epoch_ms,
            );
            assert(query_observed(
                store,
                *settings,
                *statement,
                actual_wal_bytes,
                now_epoch_ms,
                recorded,
                shmem@,
                result,
            ));
            record_reconciliation_result(shmem, &result);
        }
    }
    assert(learned(
        store,
        *settings,
        *statement,
        actual_wal_bytes,
        now_epoch_ms,
        recorded,
        shmem@,
    ));
    let result = reconcile_budget(shmem, statement, actual_wal_bytes);
    record_reconciliation_result(shmem, &result);
}

/// What a statement that was aborted adds to the counters, where something was charged for it.
pub open spec fn aborted_delta() -> CounterDelta {
    CounterDelta { aborted_after_charge_count: 1, ..CounterDelta::zero() }
}

pub fn record_aborted_statement(shmem: &mut SharedMemory, statement: &ActiveStatementState) -> (r:
    PwbResult<()>)
    requires
        old(shmem).wf(),
    ensures
        final(shmem).wf(),
        if statement.decision.charged_bytes == 0 {
            r is Ok && final(shmem)@ == old(shmem)@
        } else {
            &&& final(shmem)@ == admission::counted(old(shmem)@, aborted_delta())
            &&& match old(shmem)@.access() {
                Err(error) => errors::fails_with(r, error),
                Ok(_) => r is Ok,
            }
        },
{
    if statement.decision.charged_bytes > 0 {
        let mut delta = CounterDelta::default();
        delta.aborted_after_charge_count = 1;
        counters::add_counters(shmem, delta)?;
    }
    Ok(())
}

/// What was charged, less what is given back, plus what is owed, is what the statement wrote.
pub proof fn law_adjustment_makes_up_the_difference(
    statement: ActiveStatementState,
    actual: WalBytes,
)
    requires
        adjusts_budget(statement),
    ensures
        match adjustment(statement, actual) {
            BudgetReconciliation::Unchanged => statement.decision.charged_bytes == actual,
            BudgetReconciliation::Refund(bytes) => statement.decision.charged_bytes - bytes == actual
                && bytes > 0,
            BudgetReconciliation::Debt(bytes) => statement.decision.charged_bytes + bytes == actual
                && bytes > 0,
        },
{
}

/// Measurements that include the WAL of other backends never touch a bucket, nor do statements that
/// nothing was charged for; the counters owe nothing then either.
pub proof fn law_only_exact_charges_are_adjusted(
    memory: SharedMemoryView,
    statement: ActiveStatementState,
    actual: WalBytes,
)
    requires
        statement.measurement_kind != WalMeasurementKind::ExactBackend
            || statement.decision.charged_bytes == 0 || statement.decision.kind
            != DecisionKind::Allowed,
    ensures
        adjusted(memory, statement, actual) == memory,
        measured_delta(statement, actual).scope_debt_bytes == 0,
{
}

/// A statement that wrote less than was charged ends up having taken out of its bucket exactly what it
/// wrote, as long as nobody else used the bucket meanwhile.
pub proof fn law_refund_leaves_actual_charge(
    bucket: BudgetBucketState,
    policy: EffectivePolicy,
    predicted: WalBytes,
    actual: WalBytes,
    now_epoch_ms: EpochMillis,
)
    requires
        budget::reject_outcome(predicted, policy, now_epoch_ms, bucket) is Ok,
        actual <= predicted,
    ensures
        transactions::refunded(
            budget::bucket_after_charge(predicted, policy, now_epoch_ms, bucket),
            (predicted - actual) as u64,
        ).available_bytes == budget::refreshed(policy, now_epoch_ms, bucket).available_bytes - actual,
{
    budget::law_bucket_stays_within_burst(
        bucket,
        policy,
        predicted,
        actual,
        bucket.scope_hash,
        now_epoch_ms,
    );
}

/// Whatever its class, its policy or its reason: a statement that was let through and charged, and that
/// was measured exactly, ends up charged what it wrote. What was charged, less what is given back, plus
/// what is owed, is what it wrote, and it never both gets back and owes.
pub proof fn law_exact_statements_pay_what_they_wrote(
    statement: ActiveStatementState,
    actual: WalBytes,
)
    requires
        statement.decision.kind == DecisionKind::Allowed,
        statement.decision.charged_bytes > 0,
        statement.measurement_kind == WalMeasurementKind::ExactBackend,
    ensures
        ({
            let refund = match adjustment(statement, actual) {
                BudgetReconciliation::Refund(bytes) => bytes as int,
                _ => 0,
            };
            let owed = match adjustment(statement, actual) {
                BudgetReconciliation::Debt(bytes) => bytes as int,
                _ => 0,
            };
            &&& statement.decision.charged_bytes - refund + owed == actual
            &&& refund == 0 || owed == 0
            &&& debt(statement, actual) == owed
        }),
{
}

/// Which statements pay, and which teach, is told by these fields alone: the kind of the decision, the
/// charge and the kind of the measurement; and the kind of the measurement and the identity of the query.
pub proof fn law_reconciliation_is_told_by_the_measurement(statement: ActiveStatementState)
    ensures
        adjusts_budget(statement) <==> statement.decision.kind == DecisionKind::Allowed
            && statement.decision.charged_bytes > 0 && statement.measurement_kind
            == WalMeasurementKind::ExactBackend,
        observes_query(statement) <==> statement.measurement_kind
            == WalMeasurementKind::ExactBackend && statement.query_id is Some,
{
}

/// The WAL of a statement is the distance from its start to its end on the same scale, none where the
/// scale went back: what the backend wrote where the server tells it, else the position of all backends.
/// It is not known where either end is missing.
pub proof fn law_measurement_is_the_distance(
    statement: ActiveStatementState,
    start: WalPositions,
    end: WalPositions,
)
    ensures
        ({
            let kind = start.best_kind();
            &&& start.backend_wal_bytes is Some <==> kind == WalMeasurementKind::ExactBackend
            &&& start.backend_wal_bytes is None && start.insert_lsn is Some <==> kind
                == WalMeasurementKind::ApproximateInsertLsn
            &&& start.backend_wal_bytes is None && start.insert_lsn is None <==> kind
                == WalMeasurementKind::Unavailable
            &&& start.of_kind(WalMeasurementKind::ExactBackend) == start.backend_wal_bytes
            &&& start.of_kind(WalMeasurementKind::ApproximateInsertLsn) == start.insert_lsn
            &&& start.of_kind(WalMeasurementKind::Unavailable) is None
        }),
        ({
            let position = if statement.measurement_kind == WalMeasurementKind::ExactBackend {
                end.backend_wal_bytes
            } else if statement.measurement_kind == WalMeasurementKind::ApproximateInsertLsn {
                end.insert_lsn
            } else {
                None
            };
            match measurement(statement, end) {
                Some(actual) => {
                    &&& statement.start_wal_bytes is Some
                    &&& position is Some
                    &&& position->0 >= statement.start_wal_bytes->0
                        ==> statement.start_wal_bytes->0 + actual == position->0
                    &&& position->0 < statement.start_wal_bytes->0 ==> actual == 0
                },
                None => statement.start_wal_bytes is None || position is None,
            }
        }),
{
}

proof fn lemma_learning_keeps_buckets<S: DurableCatalogStore>(
    store: &S,
    settings: GucSettings,
    statement: ActiveStatementState,
    actual: WalBytes,
    now_epoch_ms: EpochMillis,
    before: SharedMemoryView,
    after: SharedMemoryView,
)
    requires
        learned(store, settings, statement, actual, now_epoch_ms, before, after),
        before.access() matches Ok(region) && region.wf(),
    ensures
        after.access() matches Ok(region2) && {
            let region = before.access()->Ok_0;
            &&& region2.budget_buckets == region.budget_buckets
            &&& region2.state.budget_buckets_len == region.state.budget_buckets_len
            &&& region2.state.budget_bucket_capacity == region.state.budget_bucket_capacity
            &&& region2.recent_decisions == region.recent_decisions
            &&& region2.state.recent_decision_head == region.state.recent_decision_head
            &&& region2.state.recent_decision_count == region.state.recent_decision_count
            &&& region2.state.recent_decision_capacity == region.state.recent_decision_capacity
            &&& region2.scope_names == region.scope_names
            &&& region2.state.counters.actual_wal_bytes == region.state.counters.actual_wal_bytes
            &&& region2.state.counters.absolute_prediction_error
                == region.state.counters.absolute_prediction_error
            &&& region2.state.counters.scope_debt_bytes == region.state.counters.scope_debt_bytes
        },
{
    let region = before.access()->Ok_0;
    if statement.measurement_kind == WalMeasurementKind::ExactBackend && statement.query_id is Some {
        let (observed, result) = choose|observed: SharedMemoryView, result: PwbResult<()>|
            {
                &&& #[trigger] query_observed(
                    store,
                    settings,
                    statement,
                    actual,
                    now_epoch_ms,
                    before,
                    observed,
                    result,
                )
                &&& after == if result is Ok {
                    observed
                } else {
                    admission::counted(observed, failure_delta())
                }
            };
        let limit = settings.capacity(settings.profile_cache_capacity) as usize;
        let (loaded, ensured) = choose|loaded: SharedMemoryView, ensured: PwbResult<()>|
            {
                &&& #[trigger] profile::profiles_ensured(
                    store,
                    limit,
                    now_epoch_ms,
                    before,
                    loaded,
                    ensured,
                )
                &&& match ensured {
                    Err(error) => result == Err::<(), PwbError>(error) && observed == loaded,
                    Ok(_) => profile::observation_recorded(
                        settings,
                        statement.scope_hash,
                        statement.query_id->0,
                        actual,
                        now_epoch_ms,
                        loaded,
                        observed,
                        result,
                    ),
                }
            };
        profile::lemma_loading_changes_profiles_only(
            store,
            limit,
            now_epoch_ms,
            before,
            loaded,
            ensured,
        );
    }
}

/// Reconciling a statement that was let through, charged and measured exactly sets the bucket of its
/// policy and scope right by the difference: what it did not write is given back, up to the burst, and
/// what it wrote beyond its charge is owed. What it wrote, how far the prediction was off and what it
/// owes are counted.
pub proof fn law_reconciling_sets_the_bucket_right<S: DurableCatalogStore>(
    store: &S,
    settings: GucSettings,
    statement: ActiveStatementState,
    end: WalPositions,
    now_epoch_ms: EpochMillis,
    before: SharedMemoryView,
    after: SharedMemoryView,
    start: WalBytes,
    stop: WalBytes,
)
    requires
        reconciled(store, settings, statement, end, now_epoch_ms, before, after),
        before.access() matches Ok(region) && region.wf() && budget::budgets_wf(region),
        statement.decision.kind == DecisionKind::Allowed,
        statement.decision.charged_bytes > 0,
        statement.measurement_kind == WalMeasurementKind::ExactBackend,
        statement.start_wal_bytes == Some(start),
        end.backend_wal_bytes == Some(stop),
        start <= stop,
    ensures
        after.access() matches Ok(region2) && {
            let region = before.access()->Ok_0;
            let actual = stop - start;
            let charged = statement.decision.charged_bytes as int;
            let old = region.state.counters;
            let new = region2.state.counters;
            &&& old.actual_wal_bytes + actual <= u64::MAX ==> new.actual_wal_bytes
                == old.actual_wal_bytes + actual
            &&& actual > charged && old.scope_debt_bytes + actual - charged <= u64::MAX
                ==> new.scope_debt_bytes == old.scope_debt_bytes + actual - charged
            &&& actual <= charged ==> new.scope_debt_bytes == old.scope_debt_bytes
            &&& statement.decision.policy_id matches Some(policy_id) ==> (region.bucket(
                policy_id,
                statement.scope_hash,
            ) matches Some(bucket) ==> (region2.bucket(policy_id, statement.scope_hash) matches Some(
                bucket2,
            ) && {
                &&& actual <= charged ==> bucket2.debt_bytes == bucket.debt_bytes
                    && bucket2.available_bytes == if bucket.available_bytes + (charged - actual)
                    <= bucket.max_burst_bytes {
                    bucket.available_bytes + (charged - actual)
                } else {
                    bucket.max_burst_bytes as int
                }
                &&& actual > charged ==> bucket2.available_bytes == bucket.available_bytes
                    && bucket2.debt_bytes == if bucket.debt_bytes + (actual - charged) <= u64::MAX {
                    bucket.debt_bytes + (actual - charged)
                } else {
                    u64::MAX as int
                }
                &&& bucket2.max_burst_bytes == bucket.max_burst_bytes
                &&& bucket2.rate_bytes_per_sec == bucket.rate_bytes_per_sec
                &&& bucket2.last_refill_epoch_ms == bucket.last_refill_epoch_ms
            }))
        },
{
    let actual: WalBytes = (stop - start) as u64;
    let counting = measured(before, statement, actual, now_epoch_ms);
    let learning = choose|learning: SharedMemoryView|
        {
            &&& #[trigger] learned(
                store,
                settings,
                statement,
                actual,
                now_epoch_ms,
                counting,
                learning,
            )
            &&& after == adjusted(learning, statement, actual)
        };
    let region = before.access()->Ok_0;
    let counted = counting.access()->Ok_0;
    if region.state.recent_decision_capacity > 0 {
        recent_decisions::law_recorded_decision_is_newest(
            region.with_counters(region.state.counters.plus(measured_delta(statement, actual))).state,
            region.recent_decisions,
            measured_record(statement, actual, now_epoch_ms),
        );
    }
    assert(counted.wf());
    lemma_learning_keeps_buckets(
        store,
        settings,
        statement,
        actual,
        now_epoch_ms,
        counting,
        learning,
    );
    let learned_region = learning.access()->Ok_0;
    if let Some(policy_id) = statement.decision.policy_id {
        assert(learned_region.bucket(policy_id, statement.scope_hash) == region.bucket(
            policy_id,
            statement.scope_hash,
        ));
        budget::lemma_bucket_has_its_key(region, policy_id, statement.scope_hash);
        if let Some(bucket) = region.bucket(policy_id, statement.scope_hash) {
            let bytes: WalBytes = if actual <= statement.decision.charged_bytes {
                (statement.decision.charged_bytes - actual) as u64
            } else {
                (actual - statement.decision.charged_bytes) as u64
            };
            let other: ScopeHash = if statement.scope_hash == 0 {
                1
            } else {
                0
            };
            transactions::law_refund_and_debt_change_one_bucket(
                learned_region,
                policy_id,
                statement.scope_hash,
                bytes,
                policy_id,
                other,
            );
        }
    }
}

/// Reconciling a statement of a query that was measured exactly teaches the profiles, whatever the decision
/// on the statement, its reason or its class: where the stored profiles are loaded and the table has room,
/// the profile of the query in its scope and its global profile have one call more, or one where they are
/// new, and their means take in what the statement wrote.
pub proof fn law_reconciling_teaches_both_profiles<S: DurableCatalogStore>(
    store: &S,
    settings: GucSettings,
    statement: ActiveStatementState,
    end: WalPositions,
    now_epoch_ms: EpochMillis,
    before: SharedMemoryView,
    after: SharedMemoryView,
    start: WalBytes,
    stop: WalBytes,
    query_id: QueryId,
    key: Option<ScopeHash>,
)
    requires
        reconciled(store, settings, statement, end, now_epoch_ms, before, after),
        before.access() matches Ok(region) && region.wf() && region.state.profile_restore_state
            == 2 && region.state.profiles_len + (if profiles::profile_at(
            region.profiles,
            Some(statement.scope_hash),
            query_id,
        ) is None {
            1int
        } else {
            0int
        }) + (if profiles::profile_at(region.profiles, None, query_id) is None {
            1int
        } else {
            0int
        }) <= region.state.profile_cache_capacity,
        statement.measurement_kind == WalMeasurementKind::ExactBackend,
        statement.query_id == Some(query_id),
        statement.start_wal_bytes == Some(start),
        end.backend_wal_bytes == Some(stop),
        start <= stop,
        settings.profile_ewma_alpha is Scaled,
        key == Some(statement.scope_hash) || key is None,
    ensures
        after.access() matches Ok(region2) && {
            let region = before.access()->Ok_0;
            let actual = stop - start;
            &&& region.state.profile_dirty_count < u64::MAX ==> region2.state.profile_dirty_count
                == region.state.profile_dirty_count + 1
            &&& profiles::profile_at(region2.profiles, key, query_id) matches Some(learned_profile) && {
                &&& learned_profile.last_seen_epoch_ms == now_epoch_ms
                &&& match profiles::profile_at(region.profiles, key, query_id) {
                    None => {
                        &&& learned_profile.calls == 1
                        &&& learned_profile.ewma_wal_bytes == actual
                        &&& learned_profile.max_wal_bytes == actual
                    },
                    Some(old) => {
                        let weight = settings.ewma_weights()->Ok_0;
                        let weighed = (weight.denominator - weight.numerator) * old.ewma_wal_bytes
                            + weight.numerator * actual;
                        &&& old.calls < u64::MAX ==> learned_profile.calls == old.calls + 1
                        &&& weight.denominator * learned_profile.ewma_wal_bytes <= weighed
                            < weight.denominator * learned_profile.ewma_wal_bytes
                            + weight.denominator
                        &&& learned_profile.max_wal_bytes >= actual
                    },
                }
            }
        },
{
    let actual: WalBytes = (stop - start) as u64;
    let counting = measured(before, statement, actual, now_epoch_ms);
    let learning = choose|learning: SharedMemoryView|
        {
            &&& #[trigger] learned(
                store,
                settings,
                statement,
                actual,
                now_epoch_ms,
                counting,
                learning,
            )
            &&& after == adjusted(learning, statement, actual)
        };
    let counted = counting.access()->Ok_0;
    let region = before.access()->Ok_0;
    let weights = settings.ewma_weights()->Ok_0;
    let other: QueryId = if query_id == 0 {
        1
    } else {
        0
    };
    profiles::law_observation_reaches_both_profiles(
        counted.state,
        counted.profiles,
        statement.scope_hash,
        query_id,
        actual,
        now_epoch_ms,
        weights,
        key,
        None,
        other,
    );
}

/// A measured statement adds what it wrote, how far its prediction was off and what it owes to the
/// counters, and is recorded with what it wrote and all that was decided on it. Nothing else is counted.
pub proof fn law_measured_statements_are_counted_and_recorded(
    statement: ActiveStatementState,
    actual: WalBytes,
    now_epoch_ms: EpochMillis,
)
    ensures
        ({
            let delta = measured_delta(statement, actual);
            let off = statement.predicted_wal_bytes - actual;
            &&& delta.actual_wal_bytes == actual
            &&& off >= 0 ==> delta.absolute_prediction_error == off
            &&& off < 0 ==> delta.absolute_prediction_error == -off
            &&& delta.scope_debt_bytes > 0 ==> statement.decision.charged_bytes
                + delta.scope_debt_bytes == actual && statement.measurement_kind
                == WalMeasurementKind::ExactBackend
            &&& delta.accepted_statements == 0 && delta.rejected_statements == 0
            &&& delta.shadow_would_reject_count == 0 && delta.predicted_wal_bytes == 0
            &&& delta.missing_actual_wal_count == 0 && delta.internal_fail_open_count == 0
            &&& delta.aborted_after_charge_count == 0
        }),
        ({
            let record = measured_record(statement, actual, now_epoch_ms);
            &&& record.timestamp_epoch_ms == now_epoch_ms
            &&& record.decision_kind == statement.decision.kind
            &&& record.reason_code == statement.decision.reason_code
            &&& record.policy_id == statement.decision.policy_id
            &&& record.scope_kind == statement.scope_kind
            &&& record.scope_hash == statement.scope_hash
            &&& record.query_id == statement.query_id
            &&& record.statement_class == statement.statement_class
            &&& record.predicted_wal_bytes == statement.predicted_wal_bytes
            &&& record.actual_wal_bytes == Some(actual)
            &&& record.available_before == statement.decision.available_before
            &&& record.available_after == statement.decision.available_after
        }),
        failure_delta().internal_fail_open_count == 1 && failure_delta().accepted_statements == 0
            && failure_delta().rejected_statements == 0,
        aborted_delta().aborted_after_charge_count == 1 && aborted_delta().missing_actual_wal_count
            == 0 && aborted_delta().accepted_statements == 0,
{
}

/// A statement whose WAL is not known is counted as such, and nothing else happens: no bucket is touched,
/// nothing is learned and nothing is recorded.
pub proof fn law_unmeasured_statements_are_only_counted<S: DurableCatalogStore>(
    store: &S,
    settings: GucSettings,
    statement: ActiveStatementState,
    end: WalPositions,
    now_epoch_ms: EpochMillis,
    before: SharedMemoryView,
    after: SharedMemoryView,
)
    requires
        reconciled(store, settings, statement, end, now_epoch_ms, before, after),
        before.access() is Ok,
        statement.start_wal_bytes is None || statement.measurement_kind
            == WalMeasurementKind::Unavailable || (statement.measurement_kind
            == WalMeasurementKind::ExactBackend && end.backend_wal_bytes is None) || (
        statement.measurement_kind == WalMeasurementKind::ApproximateInsertLsn && end.insert_lsn
            is None),
    ensures
        after.access() matches Ok(region2) && {
            let region = before.access()->Ok_0;
            &&& region.state.counters.missing_actual_wal_count < u64::MAX
                ==> region2.state.counters.missing_actual_wal_count
                == region.state.counters.missing_actual_wal_count + 1
            &&& region2.state.counters.actual_wal_bytes == region.state.counters.actual_wal_bytes
            &&& region2.budget_buckets == region.budget_buckets
            &&& region2.profiles == region.profiles
            &&& region2.recent_decisions == region.recent_decisions
            &&& region2.scope_names == region.scope_names
        },
{
}

/// Every statement whose WAL is known, exactly or not, is counted with what it wrote and with how far its
/// prediction was off, and is the newest in the ring, with what it wrote.
pub proof fn law_measured_statements_are_shown_first<S: DurableCatalogStore>(
    store: &S,
    settings: GucSettings,
    statement: ActiveStatementState,
    end: WalPositions,
    now_epoch_ms: EpochMillis,
    before: SharedMemoryView,
    after: SharedMemoryView,
    start: WalBytes,
    stop: WalBytes,
)
    requires
        reconciled(store, settings, statement, end, now_epoch_ms, before, after),
        before.access() matches Ok(region) && region.wf() && region.state.recent_decision_capacity
            > 0 && region.state.recent_decision_head < u64::MAX,
        statement.start_wal_bytes == Some(start),
        start <= stop,
        (statement.measurement_kind == WalMeasurementKind::ExactBackend && end.backend_wal_bytes
            == Some(stop)) || (statement.measurement_kind
            == WalMeasurementKind::ApproximateInsertLsn && end.insert_lsn == Some(stop)),
    ensures
        after.access() matches Ok(region2) && {
            let old = before.access()->Ok_0.state.counters;
            let new = region2.state.counters;
            let actual = stop - start;
            let off = if actual >= statement.predicted_wal_bytes {
                actual - statement.predicted_wal_bytes
            } else {
                statement.predicted_wal_bytes - actual
            };
            &&& old.actual_wal_bytes + actual <= u64::MAX ==> new.actual_wal_bytes
                == old.actual_wal_bytes + actual
            &&& old.absolute_prediction_error + off <= u64::MAX ==> new.absolute_prediction_error
                == old.absolute_prediction_error + off
            &&& recent_decisions::recent_snapshot(region2.state, region2.recent_decisions, 1)
                matches Ok(newest) && newest.len() == 1 && {
                &&& newest[0].timestamp_epoch_ms == now_epoch_ms
                &&& newest[0].actual_wal_bytes == Some(actual as u64)
                &&& newest[0].decision_kind == statement.decision.kind
                &&& newest[0].policy_id == statement.decision.policy_id
                &&& newest[0].scope_hash == statement.scope_hash
                &&& newest[0].query_id == statement.query_id
                &&& newest[0].predicted_wal_bytes == statement.predicted_wal_bytes
            }
            &&& statement.measurement_kind == WalMeasurementKind::ApproximateInsertLsn ==> {
                &&& region2.budget_buckets == before.access()->Ok_0.budget_buckets
                &&& region2.profiles == before.access()->Ok_0.profiles
                &&& new.scope_debt_bytes == old.scope_debt_bytes
            }
        },
{
    let actual: WalBytes = (stop - start) as u64;
    let counting = measured(before, statement, actual, now_epoch_ms);
    let learning = choose|learning: SharedMemoryView|
        {
            &&& #[trigger] learned(
                store,
                settings,
                statement,
                actual,
                now_epoch_ms,
                counting,
                learning,
            )
            &&& after == adjusted(learning, statement, actual)
        };
    let region = before.access()->Ok_0;
    let counted = region.with_counters(
        region.state.counters.plus(measured_delta(statement, actual)),
    );
    let record = measured_record(statement, actual, now_epoch_ms);
    recent_decisions::law_recorded_decision_is_newest(
        counted.state,
        counted.recent_decisions,
        record,
    );
    recent_decisions::law_recorded_decision_is_read_back(
        counted.state,
        counted.recent_decisions,
        record,
    );
    lemma_learning_keeps_buckets(
        store,
        settings,
        statement,
        actual,
        now_epoch_ms,
        counting,
        learning,
    );
    let ring = counting.access()->Ok_0;
    let shown = after.access()->Ok_0;
    assert(recent_decisions::newest(shown.state, shown.recent_decisions)
        =~= recent_decisions::newest(ring.state, ring.recent_decisions));
}

} // verus!
