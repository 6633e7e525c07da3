//! Admission: the decision on a statement, and its record.

use vstd::prelude::*;

use crate::budget;
use crate::budget::{
    admit_queue_with_retry, admit_statement, ChargeAttemptView, EffectivePolicy, QueueStep,
};
use crate::catalog::{DurableCatalogStore, DurablePolicyRow};
use crate::errors::{PwbError, PwbErrorView, PwbResult};
use crate::policy_cache;
use crate::policy_cache::{effective_policy_for_scope, PolicyCache};
use crate::seqs;
use crate::shmem::counters;
use crate::shmem::recent_decisions;
use crate::shmem::records::{CounterDelta, RecentDecisionRecord};
use crate::shmem::transactions;
use crate::shmem::{RegionView, SharedMemory, SharedMemoryView};
use crate::types::{
    ActiveStatementState, AdmissionContext, AdmissionDecision, BudgetMode, DecisionKind,
    EpochMillis, PolicyId, QueryId, ReasonCode, ScopeHash, ScopeKeyView, ScopeKind, StatementClass,
    WalBytes, WalMeasurementKind,
};

verus! {

/// What is known of a statement whose admission failed.
#[derive(Debug, Clone, Copy, PartialEq, Eq)]
pub struct AdmissionErrorContext {
    pub policy_id: Option<PolicyId>,
    pub scope_kind: Option<ScopeKind>,
    pub scope_hash: Option<ScopeHash>,
    pub query_id: Option<QueryId>,
    pub statement_class: StatementClass,
    pub predicted_wal_bytes: Option<WalBytes>,
}

/// Why a statement was not admitted.
#[derive(Debug, PartialEq, Eq)]
pub enum AdmissionError {
    Internal { error: PwbError, context: Option<AdmissionErrorContext> },
    Rejected {
        policy_id: PolicyId,
        predicted_wal_bytes: WalBytes,
        available_wal_bytes: WalBytes,
    },
}

/// Why a statement was not admitted, with the error by what it says.
pub enum AdmissionErrorView {
    Internal { error: PwbErrorView, context: Option<AdmissionErrorContext> },
    Rejected {
        policy_id: PolicyId,
        predicted_wal_bytes: WalBytes,
        available_wal_bytes: WalBytes,
    },
}

impl View for AdmissionError {
    type V = AdmissionErrorView;

    open spec fn view(&self) -> AdmissionErrorView {
        match *self {
            AdmissionError::Internal { error, context } => AdmissionErrorView::Internal {
                error: error@,
                context,
            },
            AdmissionError::Rejected { policy_id, predicted_wal_bytes, available_wal_bytes } =>
                AdmissionErrorView::Rejected { policy_id, predicted_wal_bytes, available_wal_bytes },
        }
    }
}

/// What admission came to so far: an answer, or a wait after which the same policy is asked again.
#[derive(Debug, PartialEq, Eq)]
pub enum AdmissionStep {
    Done(Result<ActiveStatementState, AdmissionError>),
    Wait { policy: EffectivePolicy, wait_ms: EpochMillis },
}

/// What admission came to so far, with the error by what it says.
pub enum AdmissionStepView {
    Done(Result<ActiveStatementState, AdmissionErrorView>),
    Wait { policy: EffectivePolicy, wait_ms: EpochMillis },
}

impl View for AdmissionStep {
    type V = AdmissionStepView;

    open spec fn view(&self) -> AdmissionStepView {
        match *self {
            AdmissionStep::Done(Ok(statement)) => AdmissionStepView::Done(Ok(statement)),
            AdmissionStep::Done(Err(error)) => AdmissionStepView::Done(Err(error@)),
            AdmissionStep::Wait { policy, wait_ms } => AdmissionStepView::Wait { policy, wait_ms },
        }
    }
}

impl AdmissionErrorContext {
    /// What the context of an admission says.
    pub open spec fn of(context: AdmissionContext) -> AdmissionErrorContext {
        AdmissionErrorContext {
            policy_id: None,
            scope_kind: Some(context.scope.kind),
            scope_hash: Some(context.scope.value_hash),
            query_id: context.query_id,
            statement_class: context.statement_class,
            predicted_wal_bytes: Some(context.predicted_wal_bytes),
        }
    }

    pub fn from_statement(query_id: Option<QueryId>, statement_class: StatementClass) -> (r:
        AdmissionErrorContext)
        ensures
            r == (AdmissionErrorContext {
                policy_id: None,
                scope_kind: None,
                scope_hash: None,
                query_id,
                statement_class,
                predicted_wal_bytes: None,
            }),
    {
        AdmissionErrorContext {
            policy_id: None,
            scope_kind: None,
            scope_hash: None,
            query_id,
            statement_class,
            predicted_wal_bytes: None,
        }
    }

    pub fn from_admission_context(context: &AdmissionContext) -> (r: AdmissionErrorContext)
        ensures
            r == AdmissionErrorContext::of(*context),
    {
        AdmissionErrorContext {
            policy_id: None,
            scope_kind: Some(context.scope.kind),
            scope_hash: Some(context.scope.value_hash),
            query_id: context.query_id,
            statement_class: context.statement_class,
            predicted_wal_bytes: Some(context.predicted_wal_bytes),
        }
    }

    pub fn with_policy_id(self, policy_id: PolicyId) -> (r: AdmissionErrorContext)
        ensures
            r == (AdmissionErrorContext { policy_id: Some(policy_id), ..self }),
    {
        AdmissionErrorContext {
            policy_id: Some(policy_id),
            scope_kind: self.scope_kind,
            scope_hash: self.scope_hash,
            query_id: self.query_id,
            statement_class: self.statement_class,
            predicted_wal_bytes: self.predicted_wal_bytes,
        }
    }
}

impl AdmissionError {
    pub fn internal(error: PwbError) -> (r: AdmissionError)
        ensures
            r == (AdmissionError::Internal { error, context: None }),
    {
        AdmissionError::Internal { error, context: None }
    }

    pub fn internal_with_context(error: PwbError, context: AdmissionErrorContext) -> (r:
        AdmissionError)
        ensures
            r == (AdmissionError::Internal { error, context: Some(context) }),
    {
        AdmissionError::Internal { error, context: Some(context) }
    }

    pub fn internal_from_admission_context(error: PwbError, context: &AdmissionContext) -> (r:
        AdmissionError)
        ensures
            r == (AdmissionError::Internal {
                error,
                context: Some(AdmissionErrorContext::of(*context)),
            }),
    {
        AdmissionError::internal_with_context(
            error,
            AdmissionErrorContext::from_admission_context(context),
        )
    }
}

/// The statement that a decision admits.
pub open spec fn admitted_statement(
    context: AdmissionContext,
    decision: AdmissionDecision,
) -> ActiveStatementState {
    ActiveStatementState {
        decision,
        start_wal_bytes: None,
        measurement_kind: WalMeasurementKind::Unavailable,
        query_id: context.query_id,
        scope_kind: context.scope.kind,
        scope_hash: context.scope.value_hash,
        statement_class: context.statement_class,
        predicted_wal_bytes: context.predicted_wal_bytes,
    }
}

/// What a decision adds to the counters.
pub open spec fn decision_delta(decision: AdmissionDecision, predicted: WalBytes) -> CounterDelta {
    let counted = CounterDelta { predicted_wal_bytes: predicted, ..CounterDelta::zero() };
    match decision.kind {
        DecisionKind::Allowed => CounterDelta { accepted_statements: 1, ..counted },
        DecisionKind::NoMatchingPolicy => CounterDelta { accepted_statements: 1, ..counted },
        DecisionKind::MissingScope => CounterDelta { accepted_statements: 1, ..counted },
        DecisionKind::WouldReject => CounterDelta {
            accepted_statements: 1,
            shadow_would_reject_count: 1,
            ..counted
        },
        DecisionKind::Rejected => CounterDelta { rejected_statements: 1, ..counted },
        DecisionKind::InternalErrorFailOpen => CounterDelta {
            accepted_statements: 1,
            internal_fail_open_count: 1,
            ..counted
        },
    }
}

/// The record of a decision.
pub open spec fn decision_record(
    context: AdmissionContext,
    decision: AdmissionDecision,
    now_epoch_ms: EpochMillis,
) -> RecentDecisionRecord {
    RecentDecisionRecord {
        timestamp_epoch_ms: now_epoch_ms,
        decision_kind: decision.kind,
        policy_id: decision.policy_id,
        scope_kind: context.scope.kind,
        scope_hash: context.scope.value_hash,
        query_id: context.query_id,
        statement_class: context.statement_class,
        predicted_wal_bytes: context.predicted_wal_bytes,
        actual_wal_bytes: None,
        available_before: decision.available_before,
        available_after: decision.available_after,
        reason_code: decision.reason_code,
    }
}

/// Whether recording a decision may turn `before` into `after`: it is counted and put into the ring, and
/// the name of its scope is noted. Without a region nothing is recorded.
pub open spec fn decision_recorded(
    before: SharedMemoryView,
    context: AdmissionContext,
    decision: AdmissionDecision,
    now_epoch_ms: EpochMillis,
    after: SharedMemoryView,
) -> bool {
    match before.access() {
        Err(_) => after == before,
        Ok(region) => {
            let delta = decision_delta(decision, context.predicted_wal_bytes);
            let counted = region.with_counters(region.state.counters.plus(delta)).with_decision(
                decision_record(context, decision, now_epoch_ms),
            );
            after.access() matches Ok(region2) && {
                &&& after == before.holding(
                    RegionView { scope_names: region2.scope_names, ..counted },
                )
                &&& transactions::scope_seen(
                    region.scope_names,
                    context.scope@,
                    now_epoch_ms,
                    region2.scope_names,
                )
            }
        },
    }
}

/// The decision on a statement that no policy covers.
pub open spec fn uncovered() -> AdmissionDecision {
    AdmissionDecision {
        kind: DecisionKind::NoMatchingPolicy,
        policy_id: None,
        charged_bytes: 0,
        available_before: 0,
        available_after: 0,
        reason_code: ReasonCode::NoMatchingPolicy,
    }
}

/// The decision on a statement that was refused.
pub open spec fn refused(
    policy_id: PolicyId,
    predicted: WalBytes,
    available: WalBytes,
) -> AdmissionDecision {
    AdmissionDecision {
        kind: DecisionKind::Rejected,
        policy_id: Some(policy_id),
        charged_bytes: predicted,
        available_before: available,
        available_after: available,
        reason_code: ReasonCode::BudgetExceeded,
    }
}

/// The decision to let a statement through because of an internal error.
pub open spec fn failed_open() -> AdmissionDecision {
    AdmissionDecision {
        kind: DecisionKind::InternalErrorFailOpen,
        policy_id: None,
        charged_bytes: 0,
        available_before: 0,
        available_after: 0,
        reason_code: ReasonCode::InternalErrorFailOpen,
    }
}

/// Whether putting a statement to its policy may turn `before` into `after` and come to `step`. The
/// decision bears the time at which admission started, not that of the last attempt.
pub open spec fn policy_asked(
    before: SharedMemoryView,
    context: AdmissionContext,
    policy: EffectivePolicy,
    started_epoch_ms: EpochMillis,
    now_epoch_ms: EpochMillis,
    after: SharedMemoryView,
    step: AdmissionStepView,
) -> bool {
    let (result, charged) = budget::admission(
        before,
        context.predicted_wal_bytes,
        policy,
        context.scope.value_hash,
        now_epoch_ms,
    );
    match result {
        Ok(ChargeAttemptView::Admitted(decision)) => {
            &&& step == AdmissionStepView::Done(Ok(admitted_statement(context, decision)))
            &&& decision_recorded(charged, context, decision, started_epoch_ms, after)
        },
        Ok(ChargeAttemptView::WouldWait(wait)) => {
            &&& step == (AdmissionStepView::Wait { policy, wait_ms: wait.wait_ms })
            &&& after == charged
        },
        Ok(ChargeAttemptView::Failed(error)) => {
            &&& step == AdmissionStepView::Done(Err(internal_failure(error, context, policy)))
            &&& after == charged
        },
        Err(
            PwbErrorView::BudgetExceeded { policy_id, predicted_wal_bytes, available_wal_bytes },
        ) => {
            &&& step == AdmissionStepView::Done(
                Err(
                    AdmissionErrorView::Rejected {
                        policy_id,
                        predicted_wal_bytes,
                        available_wal_bytes,
                    },
                ),
            )
            &&& decision_recorded(
                charged,
                context,
                refused(policy_id, predicted_wal_bytes, available_wal_bytes),
                started_epoch_ms,
                after,
            )
        },
        Err(error) => {
            &&& step == AdmissionStepView::Done(Err(internal_failure(error, context, policy)))
            &&& after == charged
        },
    }
}

/// The failure of an admission under a policy.
pub open spec fn internal_failure(
    error: PwbErrorView,
    context: AdmissionContext,
    policy: EffectivePolicy,
) -> AdmissionErrorView {
    AdmissionErrorView::Internal {
        error,
        context: Some(
            AdmissionErrorContext {
                policy_id: Some(policy.policy_id),
                ..AdmissionErrorContext::of(context)
            },
        ),
    }
}

pub fn active_statement_from_context(context: &AdmissionContext, decision: AdmissionDecision) -> (r:
    ActiveStatementState)
    ensures
        r == admitted_statement(*context, decision),
{
    ActiveStatementState {
        decision,
        start_wal_bytes: None,
        measurement_kind: WalMeasurementKind::Unavailable,
        query_id: context.query_id,
        scope_kind: context.scope.kind,
        scope_hash: context.scope.value_hash,
        statement_class: context.statement_class,
        predicted_wal_bytes: context.predicted_wal_bytes,
    }
}

pub fn counter_delta_for_decision(decision: AdmissionDecision, predicted_wal_bytes: WalBytes) -> (r:
    CounterDelta)
    ensures
        r == decision_delta(decision, predicted_wal_bytes),
{
    let mut delta = CounterDelta::default();
    delta.predicted_wal_bytes = predicted_wal_bytes;
    match decision.kind {
        DecisionKind::Allowed | DecisionKind::NoMatchingPolicy | DecisionKind::MissingScope => {
            delta.accepted_statements = 1;
        },
        DecisionKind::WouldReject => {
            delta.accepted_statements = 1;
            delta.shadow_would_reject_count = 1;
        },
        DecisionKind::Rejected => {
            delta.rejected_statements = 1;
        },
        DecisionKind::InternalErrorFailOpen => {
            delta.accepted_statements = 1;
            delta.internal_fail_open_count = 1;
        },
    }
    delta
}

pub fn record_admission_decision(
    shmem: &mut SharedMemory,
    context: &AdmissionContext,
    decision: AdmissionDecision,
    now_epoch_ms: EpochMillis,
)
    requires
        old(shmem).wf(),
    ensures
        final(shmem).wf(),
        decision_recorded(old(shmem)@, *context, decision, now_epoch_ms, final(shmem)@),
{
    let delta = counter_delta_for_decision(decision, context.predicted_wal_bytes);
    let recent_decision = RecentDecisionRecord {
        timestamp_epoch_ms: now_epoch_ms,
        decision_kind: decision.kind,
        policy_id: decision.policy_id,
        scope_kind: context.scope.kind,
        scope_hash: context.scope.value_hash,
        query_id: context.query_id,
        statement_class: context.statement_class,
        predicted_wal_bytes: context.predicted_wal_bytes,
        actual_wal_bytes: None,
        available_before: decision.available_before,
        available_after: decision.available_after,
        reason_code: decision.reason_code,
    };
    let _ = transactions::record_admission_telemetry(
        shmem,
        delta,
        recent_decision,
        &context.scope,
        now_epoch_ms,
    );
}

/// Puts a statement to its policy. After a wait the same statement is put to the same policy again, with
/// the time at which its admission started.
pub fn admit_context_with_policy(
    shmem: &mut SharedMemory,
    context: &AdmissionContext,
    policy: &EffectivePolicy,
    started_epoch_ms: EpochMillis,
    now_epoch_ms: EpochMillis,
) -> (r: AdmissionStep)
    requires
        old(shmem).wf(),
    ensures
        final(shmem).wf(),
        policy_asked(
            old(shmem)@,
            *context,
            *policy,
            started_epoch_ms,
            now_epoch_ms,
            final(shmem)@,
            r@,
        ),
{
    match admit_queue_with_retry(admit_statement(shmem, context, policy, now_epoch_ms)) {
        QueueStep::Return(Ok(decision)) => {
            record_admission_decision(shmem, context, decision, started_epoch_ms);
            AdmissionStep::Done(Ok(active_statement_from_context(context, decision)))
        },
        QueueStep::Sleep(wait_ms) => AdmissionStep::Wait { policy: *policy, wait_ms },
        QueueStep::Return(
            Err(PwbError::BudgetExceeded { policy_id, predicted_wal_bytes, available_wal_bytes }),
        ) => {
            let decision = AdmissionDecision::rejected(
                policy_id,
                predicted_wal_bytes,
            ).with_availability(available_wal_bytes, available_wal_bytes);
            record_admission_decision(shmem, context, decision, started_epoch_ms);
            AdmissionStep::Done(
                Err(
                    AdmissionError::Rejected {
                        policy_id,
                        predicted_wal_bytes,
                        available_wal_bytes,
                    },
                ),
            )
        },
        QueueStep::Return(Err(error)) => AdmissionStep::Done(
            Err(
                AdmissionError::internal_with_context(
                    error,
                    AdmissionErrorContext::from_admission_context(context).with_policy_id(
                        policy.policy_id,
                    ),
                ),
            ),
        ),
    }
}

/// Whether admitting a statement may turn the memory and the cached policies into `after` and
/// `cache_after` and come to `step`. A statement that no policy covers is let through.
pub open spec fn context_admitted<S: DurableCatalogStore>(
    store: &S,
    context: AdmissionContext,
    now_epoch_ms: EpochMillis,
    before: SharedMemoryView,
    cache_before: Option<PolicyCache>,
    after: SharedMemoryView,
    cache_after: Option<PolicyCache>,
    step: AdmissionStepView,
) -> bool {
    exists|found: PwbResult<Option<EffectivePolicy>>|
        {
            &&& #[trigger] policy_looked_up(
                cache_before,
                store,
                context.scope@,
                now_epoch_ms,
                cache_after,
                found,
            )
            &&& match found {
                Err(error) => {
                    &&& step == AdmissionStepView::Done(
                        Err(
                            AdmissionErrorView::Internal {
                                error: error@,
                                context: Some(AdmissionErrorContext::of(context)),
                            },
                        ),
                    )
                    &&& after == before
                },
                Ok(None) => {
                    &&& step == AdmissionStepView::Done(
                        Ok(admitted_statement(context, uncovered())),
                    )
                    &&& decision_recorded(before, context, uncovered(), now_epoch_ms, after)
                },
                Ok(Some(policy)) => policy_asked(
                    before,
                    context,
                    policy,
                    now_epoch_ms,
                    now_epoch_ms,
                    after,
                    step,
                ),
            }
        }
}

/// Admits a statement: finds the policy that its scope falls under and puts the statement to it.
pub fn admit_context<S: DurableCatalogStore>(
    shmem: &mut SharedMemory,
    cache: &mut Option<PolicyCache>,
    store: &S,
    context: &AdmissionContext,
    now_epoch_ms: EpochMillis,
) -> (r: AdmissionStep)
    requires
        old(shmem).wf(),
    ensures
        final(shmem).wf(),
        context_admitted(
            store,
            *context,
            now_epoch_ms,
            old(shmem)@,
            *old(cache),
            final(shmem)@,
            *final(cache),
            r@,
        ),
{
    let found = effective_policy_for_scope(cache, store, &context.scope, now_epoch_ms);
    assert(policy_looked_up(
        *old(cache),
        store,
        context.scope@,
        now_epoch_ms,
        *cache,
        found,
    ));
    match found {
        Err(error) => AdmissionStep::Done(
            Err(AdmissionError::internal_from_admission_context(error, context)),
        ),
        Ok(None) => {
            let decision = AdmissionDecision::no_matching_policy();
            record_admission_decision(shmem, context, decision, now_epoch_ms);
            AdmissionStep::Done(Ok(active_statement_from_context(context, decision)))
        },
        Ok(Some(policy)) => admit_context_with_policy(
            shmem,
            context,
            &policy,
            now_epoch_ms,
            now_epoch_ms,
        ),
    }
}

/// Whether looking up the policy of a scope may turn the cache into `after` and come to `found`.
pub open spec fn policy_looked_up<S: DurableCatalogStore>(
    before: Option<PolicyCache>,
    store: &S,
    scope: ScopeKeyView,
    now_epoch_ms: EpochMillis,
    after: Option<PolicyCache>,
    found: PwbResult<Option<EffectivePolicy>>,
) -> bool {
    if before is Some && !policy_cache::is_stale(before->0, now_epoch_ms) {
        &&& after == before
        &&& found == Ok::<Option<EffectivePolicy>, PwbError>(
            policy_cache::effective(
                policy_cache::policy_views(before->0.policies@),
                scope,
            ),
        )
    } else {
        exists|loaded: PwbResult<PolicyCache>|
            {
                &&& #[trigger] policy_cache::cache_loaded(store, now_epoch_ms, loaded)
                &&& match loaded {
                    Err(error) => {
                        &&& found == Err::<Option<EffectivePolicy>, PwbError>(error)
                        &&& after == before
                    },
                    Ok(fresh) => {
                        &&& after == Some(fresh)
                        &&& found == Ok::<Option<EffectivePolicy>, PwbError>(
                            policy_cache::effective(
                                policy_cache::policy_views(fresh.policies@),
                                scope,
                            ),
                        )
                    },
                }
            }
    }
}

/// The predicted WAL of a statement whose admission failed, as far as it was known.
pub open spec fn known_prediction(context: Option<AdmissionErrorContext>) -> WalBytes {
    match context {
        Some(context) => match context.predicted_wal_bytes {
            Some(predicted) => predicted,
            None => 0,
        },
        None => 0,
    }
}

/// The record of a statement that was let through because of an internal error. What is not known of it
/// is recorded as a composite scope, a hash of zero, an unknown class and no prediction.
pub open spec fn fail_open_record(
    context: Option<AdmissionErrorContext>,
    decision: AdmissionDecision,
    now_epoch_ms: EpochMillis,
) -> RecentDecisionRecord {
    RecentDecisionRecord {
        timestamp_epoch_ms: now_epoch_ms,
        decision_kind: decision.kind,
        policy_id: if context is Some {
            context->0.policy_id
        } else {
            None
        },
        scope_kind: if context is Some && context->0.scope_kind is Some {
            context->0.scope_kind->0
        } else {
            ScopeKind::Composite
        },
        scope_hash: if context is Some && context->0.scope_hash is Some {
            context->0.scope_hash->0
        } else {
            0
        },
        query_id: if context is Some {
            context->0.query_id
        } else {
            None
        },
        statement_class: if context is Some {
            context->0.statement_class
        } else {
            StatementClass::Unknown
        },
        predicted_wal_bytes: known_prediction(context),
        actual_wal_bytes: None,
        available_before: 0,
        available_after: 0,
        reason_code: decision.reason_code,
    }
}

pub fn internal_fail_open_recent_decision(
    context: Option<AdmissionErrorContext>,
    decision: AdmissionDecision,
    now_epoch_ms: EpochMillis,
) -> (r: RecentDecisionRecord)
    ensures
        r == fail_open_record(context, decision, now_epoch_ms),
{
    let context: AdmissionErrorContext = match context {
        Some(context) => context,
        None => AdmissionErrorContext::from_statement(None, StatementClass::Unknown),
    };
    RecentDecisionRecord {
        timestamp_epoch_ms: now_epoch_ms,
        decision_kind: decision.kind,
        policy_id: context.policy_id,
        scope_kind: match context.scope_kind {
            Some(scope_kind) => scope_kind,
            None => ScopeKind::Composite,
        },
        scope_hash: match context.scope_hash {
            Some(scope_hash) => scope_hash,
            None => 0,
        },
        query_id: context.query_id,
        statement_class: context.statement_class,
        predicted_wal_bytes: match context.predicted_wal_bytes {
            Some(predicted_wal_bytes) => predicted_wal_bytes,
            None => 0,
        },
        actual_wal_bytes: None,
        available_before: 0,
        available_after: 0,
        reason_code: decision.reason_code,
    }
}

/// The memory after a statement was let through because of an internal error.
pub open spec fn fail_open_recorded(
    memory: SharedMemoryView,
    context: Option<AdmissionErrorContext>,
    now_epoch_ms: EpochMillis,
) -> SharedMemoryView {
    match memory.access() {
        Err(_) => memory,
        Ok(region) => memory.holding(
            region.with_counters(
                region.state.counters.plus(
                    decision_delta(failed_open(), known_prediction(context)),
                ),
            ).with_decision(fail_open_record(context, failed_open(), now_epoch_ms)),
        ),
    }
}

pub fn record_internal_fail_open(
    shmem: &mut SharedMemory,
    context: Option<AdmissionErrorContext>,
    now_epoch_ms: EpochMillis,
)
    requires
        old(shmem).wf(),
    ensures
        final(shmem).wf(),
        final(shmem)@ == fail_open_recorded(old(shmem)@, context, now_epoch_ms),
{
    let decision = AdmissionDecision::internal_error_fail_open();
    let recent_decision = internal_fail_open_recent_decision(context, decision, now_epoch_ms);
    let delta = counter_delta_for_decision(decision, recent_decision.predicted_wal_bytes);
    let _ = counters::add_counters(shmem, delta);
    let _ = recent_decisions::record_recent_decision(shmem, recent_decision);
}

/// What a statement whose WAL is not known adds to the counters.
pub open spec fn missing_delta() -> CounterDelta {
    CounterDelta { missing_actual_wal_count: 1, ..CounterDelta::zero() }
}

/// The memory after something was counted. Without a region nothing is.
pub open spec fn counted(memory: SharedMemoryView, delta: CounterDelta) -> SharedMemoryView {
    match memory.access() {
        Err(_) => memory,
        Ok(region) => memory.holding(region.with_counters(region.state.counters.plus(delta))),
    }
}

pub fn record_missing_actual_wal(shmem: &mut SharedMemory)
    requires
        old(shmem).wf(),
    ensures
        final(shmem).wf(),
        final(shmem)@ == counted(old(shmem)@, missing_delta()),
{
    let mut delta = CounterDelta::default();
    delta.missing_actual_wal_count = 1;
    let _ = counters::add_counters(shmem, delta);
}

/// Every decision counts exactly one statement, as accepted or as rejected, and as rejected only where
/// it refuses the statement.
pub proof fn law_decision_counts_once(decision: AdmissionDecision, predicted: WalBytes)
    ensures
        ({
            let delta = decision_delta(decision, predicted);
            &&& delta.accepted_statements + delta.rejected_statements == 1
            &&& delta.rejected_statements == 1 <==> decision.kind == DecisionKind::Rejected
            &&& delta.predicted_wal_bytes == predicted
            &&& delta.actual_wal_bytes == 0 && delta.scope_debt_bytes == 0
        }),
{
}

/// A statement is refused only by a policy in reject or queue mode that it does not fit; every other
/// policy lets it through, or fails for an internal reason.
pub proof fn law_only_enforcing_policies_refuse(
    before: SharedMemoryView,
    context: AdmissionContext,
    policy: EffectivePolicy,
    started_epoch_ms: EpochMillis,
    now_epoch_ms: EpochMillis,
    after: SharedMemoryView,
    step: AdmissionStepView,
)
    requires
        policy_asked(before, context, policy, started_epoch_ms, now_epoch_ms, after, step),
        step matches AdmissionStepView::Done(Err(AdmissionErrorView::Rejected { .. })),
    ensures
        policy.enabled,
        policy.mode == BudgetMode::Reject || policy.mode
            == BudgetMode::Queue,
        step matches AdmissionStepView::Done(
            Err(
                AdmissionErrorView::Rejected { policy_id, predicted_wal_bytes, available_wal_bytes },
            ),
        ) && policy_id == policy.policy_id && predicted_wal_bytes == context.predicted_wal_bytes
            && available_wal_bytes < predicted_wal_bytes,
{
}

/// A statement that waits is neither counted nor recorded, and nothing is charged or owed for it.
pub proof fn law_waiting_is_neither_counted_nor_charged(
    before: SharedMemoryView,
    context: AdmissionContext,
    policy: EffectivePolicy,
    started_epoch_ms: EpochMillis,
    now_epoch_ms: EpochMillis,
    after: SharedMemoryView,
    step: AdmissionStepView,
)
    requires
        before.access() matches Ok(region) && region.wf() && budget::budgets_wf(region),
        policy_asked(before, context, policy, started_epoch_ms, now_epoch_ms, after, step),
        step is Wait,
    ensures
        ({
            let region = before.access()->Ok_0;
            let bucket = budget::bucket_or_full(
                region,
                policy,
                context.scope.value_hash,
                now_epoch_ms,
            );
            after.access() matches Ok(region2) && {
                &&& region2.state.counters == region.state.counters
                &&& region2.recent_decisions == region.recent_decisions
                &&& region2.profiles == region.profiles
                &&& region2.scope_names == region.scope_names
                &&& region2.bucket(policy.policy_id, context.scope.value_hash) == Some(
                    budget::refreshed(policy, now_epoch_ms, bucket),
                )
                &&& budget::refreshed(policy, now_epoch_ms, bucket).debt_bytes == bucket.debt_bytes
            }
        }),
{
    budget::law_refused_statement_is_not_charged(
        before,
        context.predicted_wal_bytes,
        policy,
        context.scope.value_hash,
        now_epoch_ms,
    );
}

/// Whether the profiles of a region that can be used are the same before and after.
pub open spec fn keeps_profiles(before: SharedMemoryView, after: SharedMemoryView) -> bool {
    match before.access() {
        Err(_) => after == before,
        Ok(region) => after.access() matches Ok(region2) && region2.profiles == region.profiles,
    }
}

/// Putting a statement to its policy leaves the profiles alone.
pub proof fn law_policies_leave_profiles_alone(
    before: SharedMemoryView,
    context: AdmissionContext,
    policy: EffectivePolicy,
    started_epoch_ms: EpochMillis,
    now_epoch_ms: EpochMillis,
    after: SharedMemoryView,
    step: AdmissionStepView,
)
    requires
        policy_asked(before, context, policy, started_epoch_ms, now_epoch_ms, after, step),
    ensures
        keeps_profiles(before, after),
{
    let (result, charged) = budget::admission(
        before,
        context.predicted_wal_bytes,
        policy,
        context.scope.value_hash,
        now_epoch_ms,
    );
    assert(keeps_profiles(before, charged));
}

/// Admission leaves the profiles alone.
pub proof fn law_admission_leaves_profiles_alone<S: DurableCatalogStore>(
    store: &S,
    context: AdmissionContext,
    now_epoch_ms: EpochMillis,
    before: SharedMemoryView,
    cache_before: Option<PolicyCache>,
    after: SharedMemoryView,
    cache_after: Option<PolicyCache>,
    step: AdmissionStepView,
)
    requires
        context_admitted(
            store,
            context,
            now_epoch_ms,
            before,
            cache_before,
            after,
            cache_after,
            step,
        ),
    ensures
        keeps_profiles(before, after),
{
    let found = choose|found: PwbResult<Option<EffectivePolicy>>|
        {
            &&& #[trigger] policy_looked_up(
                cache_before,
                store,
                context.scope@,
                now_epoch_ms,
                cache_after,
                found,
            )
            &&& match found {
                Err(_) => after == before,
                Ok(None) => decision_recorded(before, context, uncovered(), now_epoch_ms, after),
                Ok(Some(policy)) => policy_asked(
                    before,
                    context,
                    policy,
                    now_epoch_ms,
                    now_epoch_ms,
                    after,
                    step,
                ),
            }
        };
    if let Ok(Some(policy)) = found {
        law_policies_leave_profiles_alone(
            before,
            context,
            policy,
            now_epoch_ms,
            now_epoch_ms,
            after,
            step,
        );
    }
}

/// A decision is counted by its kind: one that would refuse also as such, one that lets through because of
/// an internal error also as such, and no other as either.
pub proof fn law_counters_tell_decisions_apart(decision: AdmissionDecision, predicted: WalBytes)
    ensures
        ({
            let delta = decision_delta(decision, predicted);
            &&& decision.kind == DecisionKind::Rejected <==> delta.accepted_statements == 0
            &&& delta.accepted_statements == 0 ==> delta.rejected_statements == 1
            &&& delta.accepted_statements != 0 ==> delta.accepted_statements == 1
                && delta.rejected_statements == 0
            &&& decision.kind == DecisionKind::WouldReject <==> delta.shadow_would_reject_count
                == 1
            &&& delta.shadow_would_reject_count <= 1
            &&& decision.kind == DecisionKind::InternalErrorFailOpen
                <==> delta.internal_fail_open_count == 1
            &&& delta.internal_fail_open_count <= 1
            &&& delta.predicted_wal_bytes == predicted
            &&& delta.actual_wal_bytes == 0 && delta.absolute_prediction_error == 0
            &&& delta.scope_debt_bytes == 0 && delta.missing_actual_wal_count == 0
            &&& delta.aborted_after_charge_count == 0
        }),
        ({
            let missing = missing_delta();
            &&& missing.missing_actual_wal_count == 1
            &&& missing.accepted_statements == 0 && missing.rejected_statements == 0
            &&& missing.internal_fail_open_count == 0 && missing.aborted_after_charge_count == 0
        }),
{
}

/// A decision is recorded with what it was about and what it was. An admitted statement carries both on to
/// its end. Nothing is charged for a statement without a policy or one let through by an internal error.
pub proof fn law_decisions_are_recorded_as_they_were(
    context: AdmissionContext,
    decision: AdmissionDecision,
    error: Option<AdmissionErrorContext>,
    now_epoch_ms: EpochMillis,
)
    ensures
        ({
            let record = decision_record(context, decision, now_epoch_ms);
            &&& record.timestamp_epoch_ms == now_epoch_ms
            &&& record.decision_kind == decision.kind
            &&& record.reason_code == decision.reason_code
            &&& record.policy_id == decision.policy_id
            &&& record.scope_kind == context.scope.kind
            &&& record.scope_hash == context.scope.value_hash
            &&& record.query_id == context.query_id
            &&& record.statement_class == context.statement_class
            &&& record.predicted_wal_bytes == context.predicted_wal_bytes
            &&& record.actual_wal_bytes is None
            &&& record.available_before == decision.available_before
            &&& record.available_after == decision.available_after
        }),
        ({
            let statement = admitted_statement(context, decision);
            &&& statement.decision == decision
            &&& statement.query_id == context.query_id
            &&& statement.scope_kind == context.scope.kind
            &&& statement.scope_hash == context.scope.value_hash
            &&& statement.statement_class == context.statement_class
            &&& statement.predicted_wal_bytes == context.predicted_wal_bytes
            &&& statement.start_wal_bytes is None
        }),
        uncovered().kind == DecisionKind::NoMatchingPolicy && uncovered().policy_id is None
            && uncovered().charged_bytes == 0 && uncovered().reason_code
            == ReasonCode::NoMatchingPolicy,
        failed_open().kind == DecisionKind::InternalErrorFailOpen && failed_open().policy_id is None
            && failed_open().charged_bytes == 0 && failed_open().reason_code
            == ReasonCode::InternalErrorFailOpen,
        ({
            let record = fail_open_record(error, failed_open(), now_epoch_ms);
            &&& record.timestamp_epoch_ms == now_epoch_ms
            &&& record.decision_kind == DecisionKind::InternalErrorFailOpen
            &&& record.reason_code == ReasonCode::InternalErrorFailOpen
            &&& record.actual_wal_bytes is None
            &&& match error {
                None => record.policy_id is None && record.query_id is None && record.scope_hash
                    == 0 && record.predicted_wal_bytes == 0 && record.scope_kind
                    == ScopeKind::Composite && record.statement_class == StatementClass::Unknown,
                Some(known) => {
                    &&& record.policy_id == known.policy_id
                    &&& record.query_id == known.query_id
                    &&& record.statement_class == known.statement_class
                    &&& known.scope_kind matches Some(kind) ==> record.scope_kind == kind
                    &&& known.scope_hash matches Some(hash) ==> record.scope_hash == hash
                    &&& known.predicted_wal_bytes matches Some(predicted)
                        ==> record.predicted_wal_bytes == predicted
                },
            }
        }),
{
}

/// The answer of a policy is obeyed and written down: a statement that is let through goes on with the
/// decision and is counted as accepted, one that is refused is counted as rejected and fails with what the
/// policy said, and one that waits is not counted yet. The buckets are left as the policy left them.
pub proof fn law_answer_of_a_policy_is_obeyed(
    before: SharedMemoryView,
    context: AdmissionContext,
    policy: EffectivePolicy,
    started_epoch_ms: EpochMillis,
    now_epoch_ms: EpochMillis,
    after: SharedMemoryView,
    step: AdmissionStepView,
    scope: ScopeHash,
    id: PolicyId,
)
    requires
        policy_asked(before, context, policy, started_epoch_ms, now_epoch_ms, after, step),
        before.access() matches Ok(region) && region.wf() && budget::budgets_wf(region),
    ensures
        ({
            let (answer, charged) = budget::admission(
                before,
                context.predicted_wal_bytes,
                policy,
                context.scope.value_hash,
                now_epoch_ms,
            );
            &&& after.access() matches Ok(region2) && charged.access() matches Ok(region1) && {
                let old = before.access()->Ok_0.state.counters;
                let new = region2.state.counters;
                &&& region2.bucket(id, scope) == region1.bucket(id, scope)
                &&& region2.profiles == before.access()->Ok_0.profiles
                &&& match answer {
                    Ok(ChargeAttemptView::Admitted(decision)) => {
                        &&& step matches AdmissionStepView::Done(Ok(statement))
                            && statement.decision == decision && statement.scope_hash
                            == context.scope.value_hash && statement.predicted_wal_bytes
                            == context.predicted_wal_bytes && statement.query_id
                            == context.query_id
                        &&& decision.kind != DecisionKind::Rejected && old.accepted_statements
                            < u64::MAX ==> new.accepted_statements == old.accepted_statements + 1
                            && new.rejected_statements == old.rejected_statements
                    },
                    Ok(ChargeAttemptView::WouldWait(wait)) => {
                        &&& step matches AdmissionStepView::Wait { policy: again, wait_ms } && again
                            == policy && wait_ms == wait.wait_ms
                        &&& new == old
                    },
                    Err(
                        PwbErrorView::BudgetExceeded {
                            policy_id,
                            predicted_wal_bytes,
                            available_wal_bytes,
                        },
                    ) => {
                        &&& step == AdmissionStepView::Done(
                            Err(
                                AdmissionErrorView::Rejected {
                                    policy_id,
                                    predicted_wal_bytes,
                                    available_wal_bytes,
                                },
                            ),
                        )
                        &&& old.rejected_statements < u64::MAX ==> new.rejected_statements
                            == old.rejected_statements + 1
                        &&& new.accepted_statements == old.accepted_statements
                    },
                    _ => {
                        &&& step matches AdmissionStepView::Done(
                            Err(AdmissionErrorView::Internal { .. }),
                        )
                        &&& new == old
                    },
                }
            }
        }),
{
    budget::law_budget_operations_keep_buckets_in_order(
        before,
        context.predicted_wal_bytes,
        policy,
        context.scope.value_hash,
        now_epoch_ms,
        0,
    );
    law_policies_leave_profiles_alone(
        before,
        context,
        policy,
        started_epoch_ms,
        now_epoch_ms,
        after,
        step,
    );
}

/// With policies at hand that are less than a second old, a statement is put to the first of them that
/// covers its scope: of its kind, and either of its value or of no value. Without one it is let through,
/// uncharged. The policies at hand stay as they are.
pub proof fn law_statements_are_put_to_the_first_covering_policy<S: DurableCatalogStore>(
    store: &S,
    context: AdmissionContext,
    now_epoch_ms: EpochMillis,
    before: SharedMemoryView,
    cache: PolicyCache,
    after: SharedMemoryView,
    cache_after: Option<PolicyCache>,
    step: AdmissionStepView,
    i: int,
)
    requires
        context_admitted(
            store,
            context,
            now_epoch_ms,
            before,
            Some(cache),
            after,
            cache_after,
            step,
        ),
        now_epoch_ms - cache.refreshed_epoch_ms < 1000,
        0 <= i <= cache.policies@.len(),
        forall|j: int|
            0 <= j < i ==> !((#[trigger] cache.policies@[j]).scope_kind == context.scope.kind && (
            cache.policies@[j].scope_value is None || (context.scope.debug_value is Some
                && cache.policies@[j].scope_value->0@ == context.scope.debug_value->0@))),
        i < cache.policies@.len() ==> cache.policies@[i].scope_kind == context.scope.kind && (
        cache.policies@[i].scope_value is None || (context.scope.debug_value is Some
            && cache.policies@[i].scope_value->0@ == context.scope.debug_value->0@)),
    ensures
        cache_after == Some(cache),
        i < cache.policies@.len() ==> policy_asked(
            before,
            context,
            cache.policies@[i].policy,
            now_epoch_ms,
            now_epoch_ms,
            after,
            step,
        ),
        i == cache.policies@.len() ==> (step matches AdmissionStepView::Done(Ok(statement))
            && statement.decision.kind == DecisionKind::NoMatchingPolicy
            && statement.decision.charged_bytes == 0 && statement.decision.policy_id is None),
{
    let policies = policy_cache::policy_views(cache.policies@);
    let p = policy_cache::covers_scope(context.scope@);
    assert forall|j: int| 0 <= j < i implies !p(#[trigger] policies[j]) by {
        let policy = cache.policies@[j];
    }
    if i < cache.policies@.len() {
        assert(p(policies[i]));
        seqs::lemma_first_where_is_unique(policies, p, Some(i));
    } else {
        seqs::lemma_first_where_is_unique(policies, p, None);
    }
}

/// A recorded decision is counted, is the newest in the ring, as it was and with its time, and the name of
/// its scope is noted. The buckets and the profiles stay as they are.
pub proof fn law_recorded_decisions_are_shown_first(
    before: SharedMemoryView,
    context: AdmissionContext,
    decision: AdmissionDecision,
    now_epoch_ms: EpochMillis,
    after: SharedMemoryView,
)
    requires
        decision_recorded(before, context, decision, now_epoch_ms, after),
        before.access() matches Ok(region) && region.wf() && region.state.recent_decision_capacity
            > 0 && region.state.recent_decision_head < u64::MAX,
    ensures
        after.access() matches Ok(region2) && {
            let region = before.access()->Ok_0;
            let old = region.state.counters;
            let new = region2.state.counters;
            &&& recent_decisions::recent_snapshot(region2.state, region2.recent_decisions, 1)
                matches Ok(newest) && newest.len() == 1 && {
                &&& newest[0].timestamp_epoch_ms == now_epoch_ms
                &&& newest[0].decision_kind == decision.kind
                &&& newest[0].policy_id == decision.policy_id
                &&& newest[0].scope_hash == context.scope.value_hash
                &&& newest[0].query_id == context.query_id
                &&& newest[0].predicted_wal_bytes == context.predicted_wal_bytes
                &&& newest[0].actual_wal_bytes is None
                &&& newest[0].reason_code == decision.reason_code
            }
            &&& decision.kind != DecisionKind::Rejected && old.accepted_statements < u64::MAX
                ==> new.accepted_statements == old.accepted_statements + 1
            &&& decision.kind == DecisionKind::Rejected && old.rejected_statements < u64::MAX
                ==> new.rejected_statements == old.rejected_statements + 1
            &&& decision.kind == DecisionKind::WouldReject && old.shadow_would_reject_count
                < u64::MAX ==> new.shadow_would_reject_count == old.shadow_would_reject_count + 1
            &&& old.predicted_wal_bytes + context.predicted_wal_bytes <= u64::MAX
                ==> new.predicted_wal_bytes == old.predicted_wal_bytes
                + context.predicted_wal_bytes
            &&& region2.budget_buckets == region.budget_buckets
            &&& region2.profiles == region.profiles
            &&& context.scope.debug_value is None ==> region2.scope_names == region.scope_names
        },
{
    let region = before.access()->Ok_0;
    let delta = decision_delta(decision, context.predicted_wal_bytes);
    let counted = region.with_counters(region.state.counters.plus(delta));
    recent_decisions::law_recorded_decision_is_read_back(
        counted.state,
        counted.recent_decisions,
        decision_record(context, decision, now_epoch_ms),
    );
}

/// What a policy answered is the newest in the ring, under the time at which admission started: the
/// decision where the statement goes on, a refusal with what was predicted and available where it does
/// not.
#[verifier::spinoff_prover]
#[verifier::rlimit(40)]
pub proof fn law_answers_of_policies_are_shown_first(
    before: SharedMemoryView,
    context: AdmissionContext,
    policy: EffectivePolicy,
    started_epoch_ms: EpochMillis,
    now_epoch_ms: EpochMillis,
    after: SharedMemoryView,
    step: AdmissionStepView,
)
    requires
        policy_asked(before, context, policy, started_epoch_ms, now_epoch_ms, after, step),
        before.access() matches Ok(region) && region.wf() && budget::budgets_wf(region)
            && region.state.recent_decision_capacity > 0 && region.state.recent_decision_head
            < u64::MAX,
    ensures
        after.access() matches Ok(region2) && {
            let shown = recent_decisions::recent_snapshot(
                region2.state,
                region2.recent_decisions,
                1,
            );
            &&& step matches AdmissionStepView::Done(Ok(statement)) ==> (shown matches Ok(newest)
                && newest.len() == 1 && newest[0].timestamp_epoch_ms == started_epoch_ms
                && newest[0].decision_kind == statement.decision.kind && newest[0].policy_id
                == statement.decision.policy_id && newest[0].reason_code
                == statement.decision.reason_code && newest[0].scope_hash
                == context.scope.value_hash && newest[0].query_id == context.query_id
                && newest[0].predicted_wal_bytes == context.predicted_wal_bytes
                && newest[0].available_before == statement.decision.available_before
                && newest[0].available_after == statement.decision.available_after)
            &&& step matches AdmissionStepView::Done(
                Err(
                    AdmissionErrorView::Rejected {
                        policy_id,
                        predicted_wal_bytes,
                        available_wal_bytes,
                    },
                ),
            ) ==> (shown matches Ok(newest) && newest.len() == 1 && newest[0].timestamp_epoch_ms
                == started_epoch_ms && newest[0].decision_kind == DecisionKind::Rejected
                && newest[0].reason_code == ReasonCode::BudgetExceeded && newest[0].policy_id
                == Some(policy_id) && newest[0].scope_hash == context.scope.value_hash
                && newest[0].query_id == context.query_id && newest[0].predicted_wal_bytes
                == context.predicted_wal_bytes && newest[0].available_before
                == available_wal_bytes && newest[0].available_after == available_wal_bytes)
        },
{
    let (result, charged) = budget::admission(
        before,
        context.predicted_wal_bytes,
        policy,
        context.scope.value_hash,
        now_epoch_ms,
    );
    budget::law_budget_operations_keep_buckets_in_order(
        before,
        context.predicted_wal_bytes,
        policy,
        context.scope.value_hash,
        now_epoch_ms,
        0,
    );
    let decision = match result {
        Ok(ChargeAttemptView::Admitted(decision)) => decision,
        Err(
            PwbErrorView::BudgetExceeded { policy_id, predicted_wal_bytes, available_wal_bytes },
        ) => refused(policy_id, predicted_wal_bytes, available_wal_bytes),
        _ => uncovered(),
    };
    let region = charged.access()->Ok_0;
    let delta = decision_delta(decision, context.predicted_wal_bytes);
    let counted = region.with_counters(region.state.counters.plus(delta));
    recent_decisions::law_recorded_decision_is_read_back(
        counted.state,
        counted.recent_decisions,
        decision_record(context, decision, started_epoch_ms),
    );
}

/// A statement that no policy at hand covers is counted as accepted and is the newest in the ring, without
/// a policy. Nothing is charged to any bucket for it.
pub proof fn law_uncovered_statements_are_counted<S: DurableCatalogStore>(
    store: &S,
    context: AdmissionContext,
    now_epoch_ms: EpochMillis,
    before: SharedMemoryView,
    cache: PolicyCache,
    after: SharedMemoryView,
    cache_after: Option<PolicyCache>,
    step: AdmissionStepView,
)
    requires
        context_admitted(
            store,
            context,
            now_epoch_ms,
            before,
            Some(cache),
            after,
            cache_after,
            step,
        ),
        now_epoch_ms - cache.refreshed_epoch_ms < 1000,
        forall|j: int|
            0 <= j < cache.policies@.len() ==> (#[trigger] cache.policies@[j]).scope_kind
                != context.scope.kind,
        before.access() matches Ok(region) && region.wf() && region.state.recent_decision_capacity
            > 0 && region.state.recent_decision_head < u64::MAX,
    ensures
        after.access() matches Ok(region2) && {
            let old = before.access()->Ok_0.state.counters;
            let new = region2.state.counters;
            &&& old.accepted_statements < u64::MAX ==> new.accepted_statements
                == old.accepted_statements + 1
            &&& new.rejected_statements == old.rejected_statements
            &&& old.predicted_wal_bytes + context.predicted_wal_bytes <= u64::MAX
                ==> new.predicted_wal_bytes == old.predicted_wal_bytes
                + context.predicted_wal_bytes
            &&& region2.budget_buckets == before.access()->Ok_0.budget_buckets
            &&& recent_decisions::recent_snapshot(region2.state, region2.recent_decisions, 1)
                matches Ok(newest) && newest.len() == 1 && newest[0].decision_kind
                == DecisionKind::NoMatchingPolicy && newest[0].policy_id is None
                && newest[0].timestamp_epoch_ms == now_epoch_ms && newest[0].scope_hash
                == context.scope.value_hash
        },
{
    law_statements_are_put_to_the_first_covering_policy(
        store,
        context,
        now_epoch_ms,
        before,
        cache,
        after,
        cache_after,
        step,
        cache.policies@.len() as int,
    );
    let policies = policy_cache::policy_views(cache.policies@);
    let p = policy_cache::covers_scope(context.scope@);
    assert forall|j: int| 0 <= j < policies.len() implies !p(#[trigger] policies[j]) by {
        let policy = cache.policies@[j];
    }
    seqs::lemma_first_where_is_unique(policies, p, None);
    law_recorded_decisions_are_shown_first(before, context, uncovered(), now_epoch_ms, after);
}

/// Without policies at hand, or with policies that are a second old or more, those that the store has are
/// asked. Where it fails, the statement fails with its error and nothing changes; else they are at hand
/// from then on, as of now, and the first that covers the scope decides.
pub proof fn law_old_policies_are_loaded_again<S: DurableCatalogStore>(
    store: &S,
    context: AdmissionContext,
    now_epoch_ms: EpochMillis,
    before: SharedMemoryView,
    cache_before: Option<PolicyCache>,
    after: SharedMemoryView,
    cache_after: Option<PolicyCache>,
    step: AdmissionStepView,
)
    requires
        context_admitted(
            store,
            context,
            now_epoch_ms,
            before,
            cache_before,
            after,
            cache_after,
            step,
        ),
        cache_before is None || now_epoch_ms - cache_before->0.refreshed_epoch_ms >= 1000,
    ensures
        exists|rows: PwbResult<Vec<DurablePolicyRow>>|
            {
                &&& #[trigger] call_ensures(S::load_enabled_policy_rows, (store,), rows)
                &&& rows matches Err(error) ==> (step matches AdmissionStepView::Done(
                    Err(AdmissionErrorView::Internal { error: e, context: Some(told) }),
                ) && e == error@ && told.policy_id is None && told.query_id == context.query_id
                    && told.scope_hash == Some(context.scope.value_hash)
                    && told.predicted_wal_bytes == Some(context.predicted_wal_bytes) && after
                    == before && cache_after == cache_before)
                &&& rows matches Ok(stored) ==> (policy_cache::all_cached(stored@) is Err ==> step
                    is Done && step->Done_0 is Err && after == before && cache_after
                    == cache_before)
                &&& rows matches Ok(stored) ==> (policy_cache::all_cached(stored@) is Ok
                    ==> cache_after is Some && cache_after->0.refreshed_epoch_ms == now_epoch_ms
                    && policy_cache::policy_views(cache_after->0.policies@)
                    == policy_cache::all_cached(stored@)->Ok_0 && context_admitted(
                    store,
                    context,
                    now_epoch_ms,
                    before,
                    cache_after,
                    after,
                    cache_after,
                    step,
                ))
            },
{
    let found = choose|found: PwbResult<Option<EffectivePolicy>>|
        {
            &&& #[trigger] policy_looked_up(
                cache_before,
                store,
                context.scope@,
                now_epoch_ms,
                cache_after,
                found,
            )
            &&& match found {
                Err(error) => {
                    &&& step == AdmissionStepView::Done(
                        Err(
                            AdmissionErrorView::Internal {
                                error: error@,
                                context: Some(AdmissionErrorContext::of(context)),
                            },
                        ),
                    )
                    &&& after == before
                },
                Ok(None) => {
                    &&& step == AdmissionStepView::Done(
                        Ok(admitted_statement(context, uncovered())),
                    )
                    &&& decision_recorded(before, context, uncovered(), now_epoch_ms, after)
                },
                Ok(Some(policy)) => policy_asked(
                    before,
                    context,
                    policy,
                    now_epoch_ms,
                    now_epoch_ms,
                    after,
                    step,
                ),
            }
        };
    if found is Ok {
        assert(policy_looked_up(
            cache_after,
            store,
            context.scope@,
            now_epoch_ms,
            cache_after,
            found,
        ));
    }
}

/// Letting a statement through because of an internal error counts it as accepted and as let through so,
/// adds its prediction where it is known, and puts it first in the ring. No bucket and no profile changes.
pub proof fn law_failing_open_is_counted_and_shown(
    memory: SharedMemoryView,
    context: Option<AdmissionErrorContext>,
    now_epoch_ms: EpochMillis,
)
    requires
        memory.access() matches Ok(region) && region.wf() && region.state.recent_decision_capacity
            > 0 && region.state.recent_decision_head < u64::MAX,
    ensures
        fail_open_recorded(memory, context, now_epoch_ms).access() matches Ok(region2) && {
            let region = memory.access()->Ok_0;
            let old = region.state.counters;
            let new = region2.state.counters;
            let predicted: int = if context is Some && context->0.predicted_wal_bytes is Some {
                context->0.predicted_wal_bytes->0 as int
            } else {
                0
            };
            &&& old.accepted_statements < u64::MAX ==> new.accepted_statements
                == old.accepted_statements + 1
            &&& old.internal_fail_open_count < u64::MAX ==> new.internal_fail_open_count
                == old.internal_fail_open_count + 1
            &&& old.predicted_wal_bytes + predicted <= u64::MAX ==> new.predicted_wal_bytes
                == old.predicted_wal_bytes + predicted
            &&& new.rejected_statements == old.rejected_statements
            &&& region2.budget_buckets == region.budget_buckets
            &&& region2.profiles == region.profiles
            &&& region2.scope_names == region.scope_names
            &&& recent_decisions::recent_snapshot(region2.state, region2.recent_decisions, 1)
                matches Ok(newest) && newest.len() == 1 && newest[0].decision_kind
                == DecisionKind::InternalErrorFailOpen && newest[0].timestamp_epoch_ms
                == now_epoch_ms && newest[0].predicted_wal_bytes == predicted
        },
{
    let region = memory.access()->Ok_0;
    let counted = region.with_counters(
        region.state.counters.plus(decision_delta(failed_open(), known_prediction(context))),
    );
    recent_decisions::law_recorded_decision_is_read_back(
        counted.state,
        counted.recent_decisions,
        fail_open_record(context, failed_open(), now_epoch_ms),
    );
}

} // verus!
