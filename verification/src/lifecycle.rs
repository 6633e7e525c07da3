//! The course of statements in a backend: from their start over their admission to their end.

use vstd::prelude::*;

use crate::admission;
use crate::admission::{
    admit_context, admit_context_with_policy, record_internal_fail_open, record_missing_actual_wal,
    AdmissionError, AdmissionErrorContext, AdmissionErrorView, AdmissionStep, AdmissionStepView,
};
use crate::budget;
use crate::budget::EffectivePolicy;
use crate::catalog::DurableCatalogStore;
use crate::errors;
use crate::errors::{internal_error, PwbError, PwbErrorView, PwbResult};
use crate::guc;
use crate::guc::GucSettings;
use crate::policy_cache::PolicyCache;
use crate::profile;
use crate::profile::{predict_context, PredictionContext};
use crate::reconcile;
use crate::reconcile::{
    capture_start, reconcile_completed_statement, record_aborted_statement, WalPositions,
};
use crate::scope;
use crate::scope::{classify_current_scope, BackendScopeState, SessionNames};
use crate::shmem::records::{PwbCounters, QueryProfileSnapshot};
use crate::shmem::{SharedMemory, SharedMemoryView};
use crate::types::{
    ActiveStatementState, AdmissionContext, BudgetMode, EpochMillis, QueryId, ScopeKeyView,
    StatementClass, WalBytes, WalMeasurementKind,
};
use crate::utility;
use crate::utility::{
    classify_planned_statement, classify_utility_statement, extract_query_id,
    extract_utility_query_id, is_pg_wal_budget_create_extension, PlannedStatement,
};

verus! {

/// The statements that are under way in a backend.
#[derive(Debug, Clone, PartialEq, Eq)]
pub struct LifecycleState {
    /// The admitted statements, the innermost last.
    pub active_statements: Vec<ActiveStatementState>,
    /// Of every executor run under way whether it was admitted, the innermost last.
    pub executor_admission_stack: Vec<bool>,
    /// How many times admission is to be bypassed.
    pub bypass_depth: usize,
}

/// The statements that are under way, as sequences.
#[verifier::ext_equal]
pub struct LifecycleView {
    pub active_statements: Seq<ActiveStatementState>,
    pub executor_admission_stack: Seq<bool>,
    pub bypass_depth: usize,
}

impl View for LifecycleState {
    type V = LifecycleView;

    open spec fn view(&self) -> LifecycleView {
        LifecycleView {
            active_statements: self.active_statements@,
            executor_admission_stack: self.executor_admission_stack@,
            bypass_depth: self.bypass_depth,
        }
    }
}

impl Default for LifecycleState {
    fn default() -> (r: LifecycleState)
        ensures
            r@ == (LifecycleView {
                active_statements: Seq::empty(),
                executor_admission_stack: Seq::empty(),
                bypass_depth: 0,
            }),
    {
        LifecycleState {
            active_statements: Vec::new(),
            executor_admission_stack: Vec::new(),
            bypass_depth: 0,
        }
    }
}

impl LifecycleView {
    /// The state with one more reason to bypass admission.
    pub open spec fn bypassing(self) -> LifecycleView {
        LifecycleView {
            bypass_depth: if self.bypass_depth < usize::MAX {
                (self.bypass_depth + 1) as usize
            } else {
                usize::MAX
            },
            ..self
        }
    }

    /// The state with one reason less to bypass admission.
    pub open spec fn after_bypass(self) -> LifecycleView {
        LifecycleView {
            bypass_depth: if self.bypass_depth > 0 {
                (self.bypass_depth - 1) as usize
            } else {
                0
            },
            ..self
        }
    }
}

/// What a backend keeps from statement to statement.
#[derive(Debug, Clone, PartialEq, Eq)]
pub struct BackendState {
    pub lifecycle: LifecycleState,
    pub scope: BackendScopeState,
    pub policies: Option<PolicyCache>,
}

/// What admission is made under: the settings, the names of the session and the time.
#[derive(Debug, Clone, PartialEq, Eq)]
pub struct AdmissionEnvironment {
    pub settings: GucSettings,
    pub names: SessionNames,
    pub now_epoch_ms: EpochMillis,
}

/// A statement that waits for its budget.
#[derive(Debug, Clone, PartialEq, Eq)]
pub struct PendingAdmission {
    pub context: AdmissionContext,
    pub policy: EffectivePolicy,
    pub started_epoch_ms: EpochMillis,
    pub wait_ms: EpochMillis,
}

/// How far a statement got: it runs unobserved, it was admitted, or it has to wait.
#[derive(Debug, PartialEq, Eq)]
pub enum StartStep {
    NotAdmitted,
    Admitted(ActiveStatementState),
    Wait(PendingAdmission),
}

/// What the executor is handed to run.
#[derive(Debug, Clone, PartialEq, Eq)]
pub struct QueryDesc {
    pub planned_statement: Option<PlannedStatement>,
}

/// How a transaction ends, as far as that is told apart.
#[derive(Debug, Clone, Copy, PartialEq, Eq, Structural)]
pub enum XactEvent {
    Commit,
    ParallelCommit,
    Abort,
    ParallelAbort,
    /// An event that does not end the transaction.
    Other,
}

/// Marks the time during which admission is bypassed.
pub struct AdmissionBypassGuard;

impl AdmissionBypassGuard {
    pub fn enter(state: &mut LifecycleState) -> (r: AdmissionBypassGuard)
        ensures
            final(state)@ == old(state)@.bypassing(),
            final(state).active_statements == old(state).active_statements,
            final(state).executor_admission_stack == old(state).executor_admission_stack,
    {
        state.bypass_depth = state.bypass_depth.saturating_add(1);
        AdmissionBypassGuard
    }

    pub fn leave(self, state: &mut LifecycleState)
        ensures
            final(state)@ == old(state)@.after_bypass(),
            final(state).active_statements == old(state).active_statements,
            final(state).executor_admission_stack == old(state).executor_admission_stack,
    {
        state.bypass_depth = state.bypass_depth.saturating_sub(1);
    }
}

pub fn admission_is_bypassed(state: &LifecycleState) -> (r: bool)
    ensures
        r == (state.bypass_depth > 0),
{
    state.bypass_depth > 0
}

/// Runs `callback` with admission bypassed. Where the callback leaves the bypasses as it found them, as
/// one does that only bypasses admission again, admission is bypassed after the call exactly if it was
/// before.
pub fn with_admission_bypass<R, F: FnOnce(&mut LifecycleState) -> R>(
    state: &mut LifecycleState,
    callback: F,
) -> (r: R)
    requires
        forall|inner: &mut LifecycleState|
            (*inner)@ == old(state)@.bypassing() ==> #[trigger] callback.requires((inner,)),
    ensures
        exists|inner: &mut LifecycleState|
            {
                &&& (*inner)@ == old(state)@.bypassing()
                &&& inner.bypass_depth > 0
                &&& final(state)@ == (*final(inner))@.after_bypass()
                &&& #[trigger] callback.ensures((inner,), r)
            },
        (forall|inner: &mut LifecycleState, value: R|
            (*inner)@ == old(state)@.bypassing() && #[trigger] callback.ensures((inner,), value)
                ==> final(inner).bypass_depth == inner.bypass_depth) ==> {
            &&& (final(state).bypass_depth > 0) == (old(state).bypass_depth > 0)
            &&& old(state).bypass_depth < usize::MAX ==> final(state).bypass_depth == old(
                state,
            ).bypass_depth
        },
{
    let guard = AdmissionBypassGuard::enter(state);
    let result = callback(state);
    guard.leave(state);
    result
}

pub fn push_active_statement(state: &mut LifecycleState, statement: ActiveStatementState)
    ensures
        final(state)@ == (LifecycleView {
            active_statements: old(state)@.active_statements.push(statement),
            ..old(state)@
        }),
{
    state.active_statements.push(statement);
}

pub fn pop_active_statement(state: &mut LifecycleState) -> (r: Option<ActiveStatementState>)
    ensures
        if old(state)@.active_statements.len() == 0 {
            r is None && final(state)@ == old(state)@
        } else {
            &&& r == Some(old(state)@.active_statements.last())
            &&& final(state)@ == (LifecycleView {
                active_statements: old(state)@.active_statements.drop_last(),
                ..old(state)@
            })
        },
{
    state.active_statements.pop()
}

pub fn push_executor_admission_marker(state: &mut LifecycleState, admitted: bool)
    ensures
        final(state)@ == (LifecycleView {
            executor_admission_stack: old(state)@.executor_admission_stack.push(admitted),
            ..old(state)@
        }),
{
    state.executor_admission_stack.push(admitted);
}

pub fn pop_executor_admission_marker(state: &mut LifecycleState) -> (r: bool)
    ensures
        if old(state)@.executor_admission_stack.len() == 0 {
            !r && final(state)@ == old(state)@
        } else {
            &&& r == old(state)@.executor_admission_stack.last()
            &&& final(state)@ == (LifecycleView {
                executor_admission_stack: old(state)@.executor_admission_stack.drop_last(),
                ..old(state)@
            })
        },
{
    match state.executor_admission_stack.pop() {
        Some(admitted) => admitted,
        None => false,
    }
}

pub fn drain_active_statements(state: &mut LifecycleState) -> (r: Vec<ActiveStatementState>)
    ensures
        r@ == old(state)@.active_statements.reverse(),
        final(state)@ == (LifecycleView {
            active_statements: Seq::empty(),
            executor_admission_stack: Seq::empty(),
            ..old(state)@
        }),
{
    state.executor_admission_stack = Vec::new();
    let mut drained: Vec<ActiveStatementState> = Vec::new();
    let ghost all = state.active_statements@;
    while state.active_statements.len() > 0
        invariant
            all == old(state)@.active_statements,
            state.executor_admission_stack@ == Seq::<bool>::empty(),
            state.bypass_depth == old(state).bypass_depth,
            state.active_statements@.len() + drained@.len() == all.len(),
            state.active_statements@ == all.take(state.active_statements@.len() as int),
            drained@ == all.reverse().take(drained@.len() as int),
        decreases state.active_statements@.len(),
    {
        let ghost before = state.active_statements@;
        let ghost earlier = drained@;
        if let Some(statement) = state.active_statements.pop() {
            drained.push(statement);
            assert(state.active_statements@ =~= all.take(state.active_statements@.len() as int));
            assert(statement == all[before.len() - 1]);
            assert(drained@ =~= all.reverse().take(drained@.len() as int));
        }
    }
    assert(drained@ =~= all.reverse());
    assert(state.active_statements@ =~= Seq::empty());
    drained
}

/// How the admission of a statement goes on: it is finished, or it waits.
pub enum AdmissionProgress {
    Done(Result<Option<ActiveStatementState>, AdmissionError>),
    Wait(PendingAdmission),
}

/// The progress that a step of an admission makes.
pub open spec fn progress_matches(
    progress: AdmissionProgress,
    step: AdmissionStepView,
    context: AdmissionContext,
    started_epoch_ms: EpochMillis,
) -> bool {
    match step {
        AdmissionStepView::Done(Ok(statement)) => progress == AdmissionProgress::Done(
            Ok(Some(statement)),
        ),
        AdmissionStepView::Done(Err(error)) => progress matches AdmissionProgress::Done(Err(e)) && e@
            == error,
        AdmissionStepView::Wait { policy, wait_ms } => progress == AdmissionProgress::Wait(
            PendingAdmission { context, policy, started_epoch_ms, wait_ms },
        ),
    }
}

fn progress_of(
    step: AdmissionStep,
    context: AdmissionContext,
    started_epoch_ms: EpochMillis,
) -> (r: AdmissionProgress)
    ensures
        progress_matches(r, step@, context, started_epoch_ms),
{
    match step {
        AdmissionStep::Done(Ok(statement)) => AdmissionProgress::Done(Ok(Some(statement))),
        AdmissionStep::Done(Err(error)) => AdmissionProgress::Done(Err(error)),
        AdmissionStep::Wait { policy, wait_ms } => AdmissionProgress::Wait(
            PendingAdmission { context, policy, started_epoch_ms, wait_ms },
        ),
    }
}

/// What the admission of a statement is about.
pub open spec fn context_of(
    context: AdmissionContext,
    scope: ScopeKeyView,
    statement_class: StatementClass,
    query_id: Option<QueryId>,
    predicted: WalBytes,
) -> bool {
    &&& context.scope@ == scope
    &&& context.statement_class == statement_class
    &&& context.query_id == query_id
    &&& context.predicted_wal_bytes == predicted
}

/// Whether admitting a statement of a class may go this way, from the store, memory and cached policies
/// before to those after: its scope is found, its WAL is predicted, and it is put to its policy. `stored`
/// is what the store answered if predicting handed it profiles.
pub open spec fn statement_admitted<S: DurableCatalogStore>(
    environment: AdmissionEnvironment,
    scope_state: BackendScopeState,
    statement_class: StatementClass,
    query_id: Option<QueryId>,
    store: &S,
    before: SharedMemoryView,
    cache_before: Option<PolicyCache>,
    stored: Option<PwbResult<()>>,
    store_after: &S,
    after: SharedMemoryView,
    cache_after: Option<PolicyCache>,
    progress: AdmissionProgress,
) -> bool {
    match scope::session_scope(
        scope_state,
        environment.settings.composite_scope_enabled,
        environment.names,
    ) {
        Err(error) => {
            &&& progress matches AdmissionProgress::Done(Err(e)) && e@
                == (AdmissionErrorView::Internal {
                error,
                context: Some(
                    AdmissionErrorContext {
                        policy_id: None,
                        scope_kind: None,
                        scope_hash: None,
                        query_id,
                        statement_class,
                        predicted_wal_bytes: None,
                    },
                ),
            })
            &&& after == before
            &&& cache_after == cache_before
            &&& stored is None
        },
        Ok(key) => exists|
            predicted: WalBytes,
            predicting: SharedMemoryView,
            context: AdmissionContext,
            step: AdmissionStepView,
        |
            {
                &&& #[trigger] profile::prediction_made(
                    store,
                    environment.settings,
                    PredictionContext { statement_class, query_id, scope_hash: key.value_hash },
                    environment.now_epoch_ms,
                    before,
                    stored,
                    predicting,
                    predicted,
                )
                &&& context_of(context, key, statement_class, query_id, predicted)
                &&& #[trigger] admission::context_admitted(
                    store_after,
                    context,
                    environment.now_epoch_ms,
                    predicting,
                    cache_before,
                    after,
                    cache_after,
                    step,
                )
                &&& progress_matches(progress, step, context, environment.now_epoch_ms)
            },
    }
}

/// Admits a statement of a class.
pub fn admit_classified_statement<S: DurableCatalogStore>(
    environment: &AdmissionEnvironment,
    scope_state: &mut BackendScopeState,
    cache: &mut Option<PolicyCache>,
    shmem: &mut SharedMemory,
    store: &mut S,
    statement_class: StatementClass,
    query_id: Option<QueryId>,
) -> (r: AdmissionProgress)
    requires
        old(shmem).wf(),
    ensures
        final(shmem).wf(),
        *final(scope_state) == scope::scope_noted(
            *old(scope_state),
            environment.settings.composite_scope_enabled,
            environment.names,
        ),
        exists|stored: Option<PwbResult<()>>|
            {
                &&& #[trigger] statement_admitted(
                    *environment,
                    *old(scope_state),
                    statement_class,
                    query_id,
                    old(store),
                    old(shmem)@,
                    *old(cache),
                    stored,
                    final(store),
                    final(shmem)@,
                    *final(cache),
                    r,
                )
                &&& match stored {
                    None => *final(store) == *old(store),
                    Some(answer) => exists|s: &mut S, snapshots: &[QueryProfileSnapshot]|
                        {
                            &&& *s == *old(store)
                            &&& *final(s) == *final(store)
                            &&& profile::profiles_held(final(shmem)@, snapshots@)
                            &&& #[trigger] call_ensures(S::persist_profiles, (s, snapshots), answer)
                        },
                }
            },
{
    let scope = match classify_current_scope(
        scope_state,
        guc::composite_scope_enabled(&environment.settings),
        &environment.names,
    ) {
        Ok(scope) => scope,
        Err(error) => {
            let progress = AdmissionProgress::Done(
                Err(
                    AdmissionError::internal_with_context(
                        error,
                        AdmissionErrorContext::from_statement(query_id, statement_class),
                    ),
                ),
            );
            assert(statement_admitted(
                *environment,
                *old(scope_state),
                statement_class,
                query_id,
                old(store),
                old(shmem)@,
                *old(cache),
                None,
                store,
                shmem@,
                *cache,
                progress,
            ));
            return progress;
        },
    };
    let predicted_wal_bytes: u64 = predict_context(
        shmem,
        store,
        &environment.settings,
        &PredictionContext { statement_class, query_id, scope_hash: scope.value_hash },
        environment.now_epoch_ms,
    );
    let context = AdmissionContext { query_id, scope, statement_class, predicted_wal_bytes };
    let ghost predicting = shmem@;
    let step = admit_context(shmem, cache, store, &context, environment.now_epoch_ms);
    proof {
        admission::law_admission_leaves_profiles_alone(
            store,
            context,
            environment.now_epoch_ms,
            predicting,
            *old(cache),
            shmem@,
            *cache,
            step@,
        );
    }
    let ghost taken = step@;
    let progress = progress_of(step, context, environment.now_epoch_ms);
    assert forall|stored: Option<PwbResult<()>>| #[trigger]
        profile::prediction_made(
            old(store),
            environment.settings,
            PredictionContext { statement_class, query_id, scope_hash: context.scope.value_hash },
            environment.now_epoch_ms,
            old(shmem)@,
            stored,
            predicting,
            predicted_wal_bytes,
        ) implies statement_admitted(
        *environment,
        *old(scope_state),
        statement_class,
        query_id,
        old(store),
        old(shmem)@,
        *old(cache),
        stored,
        store,
        shmem@,
        *cache,
        progress,
    ) by {
        assert(progress_matches(progress, taken, context, environment.now_epoch_ms));
    }
    progress
}

/// The statement that the executor is handed, or the error that says what is missing.
pub open spec fn executor_statement(query_desc: Option<QueryDesc>) -> Result<
    PlannedStatement,
    PwbErrorView,
> {
    match query_desc {
        None => Err(errors::internal("executor start received a null QueryDesc"@)),
        Some(desc) => match desc.planned_statement {
            None => Err(
                errors::internal("executor start received a QueryDesc without a PlannedStmt"@),
            ),
            Some(statement) => Ok(statement),
        },
    }
}

/// The description behind an optional reference.
pub open spec fn desc_of(query_desc: Option<&QueryDesc>) -> Option<QueryDesc> {
    match query_desc {
        Some(desc) => Some(*desc),
        None => None,
    }
}

pub fn planned_statement_ref(query_desc: Option<&QueryDesc>) -> (r: PwbResult<&PlannedStatement>)
    ensures
        match executor_statement(desc_of(query_desc)) {
            Ok(statement) => r matches Ok(found) && *found == statement,
            Err(error) => errors::fails_with(r, error),
        },
{
    match query_desc {
        None => Err(internal_error("executor start received a null QueryDesc".to_owned())),
        Some(desc) => match &desc.planned_statement {
            None => Err(
                internal_error(
                    "executor start received a QueryDesc without a PlannedStmt".to_owned(),
                ),
            ),
            Some(statement) => Ok(statement),
        },
    }
}

/// Whether a progress is a failure without a context.
pub open spec fn failed_blindly(progress: AdmissionProgress, error: PwbErrorView) -> bool {
    progress matches AdmissionProgress::Done(Err(e)) && e@ == (AdmissionErrorView::Internal {
        error,
        context: None,
    })
}

/// Whether the admission of an executor statement may go this way. Statements that only read are left
/// alone.
pub open spec fn normal_statement_admitted<S: DurableCatalogStore>(
    environment: AdmissionEnvironment,
    scope_state: BackendScopeState,
    query_desc: Option<QueryDesc>,
    store: &S,
    before: SharedMemoryView,
    cache_before: Option<PolicyCache>,
    stored: Option<PwbResult<()>>,
    store_after: &S,
    after: SharedMemoryView,
    cache_after: Option<PolicyCache>,
    progress: AdmissionProgress,
) -> bool {
    let untouched = after == before && cache_after == cache_before && stored is None;
    match executor_statement(query_desc) {
        Err(error) => failed_blindly(progress, error) && untouched,
        Ok(statement) => {
            let statement_class = utility::executor_statement_class(statement);
            if statement_class == StatementClass::ReadOnly {
                progress == AdmissionProgress::Done(Ok(None)) && untouched
            } else {
                statement_admitted(
                    environment,
                    scope_state,
                    statement_class,
                    utility::query_identity(statement),
                    store,
                    before,
                    cache_before,
                    stored,
                    store_after,
                    after,
                    cache_after,
                    progress,
                )
            }
        },
    }
}

/// The scope state after an executor statement was put to admission.
pub open spec fn scope_after_executor(
    environment: AdmissionEnvironment,
    scope_state: BackendScopeState,
    query_desc: Option<QueryDesc>,
) -> BackendScopeState {
    match executor_statement(query_desc) {
        Ok(statement) if utility::executor_statement_class(statement) != StatementClass::ReadOnly => {
            scope::scope_noted(
                scope_state,
                environment.settings.composite_scope_enabled,
                environment.names,
            )
        },
        _ => scope_state,
    }
}

pub fn admit_normal_statement<S: DurableCatalogStore>(
    environment: &AdmissionEnvironment,
    scope_state: &mut BackendScopeState,
    cache: &mut Option<PolicyCache>,
    shmem: &mut SharedMemory,
    store: &mut S,
    query_desc: Option<&QueryDesc>,
) -> (r: AdmissionProgress)
    requires
        old(shmem).wf(),
    ensures
        final(shmem).wf(),
        *final(scope_state) == scope_after_executor(
            *environment,
            *old(scope_state),
            desc_of(query_desc),
        ),
        exists|stored: Option<PwbResult<()>>|
            {
                &&& #[trigger] normal_statement_admitted(
                    *environment,
                    *old(scope_state),
                    desc_of(query_desc),
                    old(store),
                    old(shmem)@,
                    *old(cache),
                    stored,
                    final(store),
                    final(shmem)@,
                    *final(cache),
                    r,
                )
                &&& match stored {
                    None => *final(store) == *old(store),
                    Some(answer) => exists|s: &mut S, snapshots: &[QueryProfileSnapshot]|
                        {
                            &&& *s == *old(store)
                            &&& *final(s) == *final(store)
                            &&& profile::profiles_held(final(shmem)@, snapshots@)
                            &&& #[trigger] call_ensures(S::persist_profiles, (s, snapshots), answer)
                        },
                }
            },
{
    let planned_statement = match planned_statement_ref(query_desc) {
        Ok(planned_statement) => planned_statement,
        Err(error) => {
            let progress = AdmissionProgress::Done(Err(AdmissionError::internal(error)));
            assert(normal_statement_admitted(
                *environment,
                *old(scope_state),
                desc_of(query_desc),
                old(store),
                old(shmem)@,
                *old(cache),
                None,
                store,
                shmem@,
                *cache,
                progress,
            ));
            return progress;
        },
    };
    let statement_class = classify_planned_statement(planned_statement);
    if statement_class == StatementClass::ReadOnly {
        let progress = AdmissionProgress::Done(Ok(None));
        assert(normal_statement_admitted(
            *environment,
            *old(scope_state),
            desc_of(query_desc),
            old(store),
            old(shmem)@,
            *old(cache),
            None,
            store,
            shmem@,
            *cache,
            progress,
        ));
        return progress;
    }
    let query_id = extract_query_id(planned_statement);
    let progress = admit_classified_statement(
        environment,
        scope_state,
        cache,
        shmem,
        store,
        statement_class,
        query_id,
    );
    assert forall|stored: Option<PwbResult<()>>| #[trigger]
        statement_admitted(
            *environment,
            *old(scope_state),
            statement_class,
            query_id,
            old(store),
            old(shmem)@,
            *old(cache),
            stored,
            store,
            shmem@,
            *cache,
            progress,
        ) implies normal_statement_admitted(
        *environment,
        *old(scope_state),
        desc_of(query_desc),
        old(store),
        old(shmem)@,
        *old(cache),
        stored,
        store,
        shmem@,
        *cache,
        progress,
    ) by {}
    progress
}

/// The statement behind an optional reference.
pub open spec fn statement_of(pstmt: Option<&PlannedStatement>) -> Option<PlannedStatement> {
    match pstmt {
        Some(statement) => Some(*statement),
        None => None,
    }
}

/// Whether the admission of a utility statement may go this way. Those that only read are admitted too,
/// with no WAL predicted.
pub open spec fn utility_statement_admitted<S: DurableCatalogStore>(
    environment: AdmissionEnvironment,
    scope_state: BackendScopeState,
    pstmt: Option<PlannedStatement>,
    read_only_tree: bool,
    store: &S,
    before: SharedMemoryView,
    cache_before: Option<PolicyCache>,
    stored: Option<PwbResult<()>>,
    store_after: &S,
    after: SharedMemoryView,
    cache_after: Option<PolicyCache>,
    progress: AdmissionProgress,
) -> bool {
    match pstmt {
        None => {
            &&& failed_blindly(progress, utility::missing_statement_error())
            &&& after == before
            &&& cache_after == cache_before
            &&& stored is None
        },
        Some(statement) => statement_admitted(
            environment,
            scope_state,
            utility::utility_statement_class(statement, read_only_tree),
            utility::query_identity(statement),
            store,
            before,
            cache_before,
            stored,
            store_after,
            after,
            cache_after,
            progress,
        ),
    }
}

/// The scope state after a utility statement was put to admission.
pub open spec fn scope_after_utility(
    environment: AdmissionEnvironment,
    scope_state: BackendScopeState,
    pstmt: Option<PlannedStatement>,
) -> BackendScopeState {
    match pstmt {
        Some(_) => scope::scope_noted(
            scope_state,
            environment.settings.composite_scope_enabled,
            environment.names,
        ),
        None => scope_state,
    }
}

pub fn admit_utility_statement<S: DurableCatalogStore>(
    environment: &AdmissionEnvironment,
    scope_state: &mut BackendScopeState,
    cache: &mut Option<PolicyCache>,
    shmem: &mut SharedMemory,
    store: &mut S,
    pstmt: Option<&PlannedStatement>,
    read_only_tree: bool,
) -> (r: AdmissionProgress)
    requires
        old(shmem).wf(),
    ensures
        final(shmem).wf(),
        *final(scope_state) == scope_after_utility(
            *environment,
            *old(scope_state),
            statement_of(pstmt),
        ),
        exists|stored: Option<PwbResult<()>>|
            {
                &&& #[trigger] utility_statement_admitted(
                    *environment,
                    *old(scope_state),
                    statement_of(pstmt),
                    read_only_tree,
                    old(store),
                    old(shmem)@,
                    *old(cache),
                    stored,
                    final(store),
                    final(shmem)@,
                    *final(cache),
                    r,
                )
                &&& match stored {
                    None => *final(store) == *old(store),
                    Some(answer) => exists|s: &mut S, snapshots: &[QueryProfileSnapshot]|
                        {
                            &&& *s == *old(store)
                            &&& *final(s) == *final(store)
                            &&& profile::profiles_held(final(shmem)@, snapshots@)
                            &&& #[trigger] call_ensures(S::persist_profiles, (s, snapshots), answer)
                        },
                }
            },
{
    let statement_class = match classify_utility_statement(pstmt, read_only_tree) {
        Ok(statement_class) => statement_class,
        Err(error) => {
            let progress = AdmissionProgress::Done(Err(AdmissionError::internal(error)));
            assert(utility_statement_admitted(
                *environment,
                *old(scope_state),
                statement_of(pstmt),
                read_only_tree,
                old(store),
                old(shmem)@,
                *old(cache),
                None,
                store,
                shmem@,
                *cache,
                progress,
            ));
            return progress;
        },
    };
    let query_id = extract_utility_query_id(pstmt);
    let progress = admit_classified_statement(
        environment,
        scope_state,
        cache,
        shmem,
        store,
        statement_class,
        query_id,
    );
    assert forall|stored: Option<PwbResult<()>>| #[trigger]
        statement_admitted(
            *environment,
            *old(scope_state),
            statement_class,
            query_id,
            old(store),
            old(shmem)@,
            *old(cache),
            stored,
            store,
            shmem@,
            *cache,
            progress,
        ) implies utility_statement_admitted(
        *environment,
        *old(scope_state),
        statement_of(pstmt),
        read_only_tree,
        old(store),
        old(shmem)@,
        *old(cache),
        stored,
        store,
        shmem@,
        *cache,
        progress,
    ) by {}
    progress
}

/// The answer to a statement whose admission is finished: admitted statements run, refused ones fail.
/// After an internal error the statement runs unobserved where the settings say so, else it fails.
pub open spec fn admission_answer(
    settings: GucSettings,
    result: Result<Option<ActiveStatementState>, AdmissionErrorView>,
) -> Result<Option<ActiveStatementState>, PwbErrorView> {
    match result {
        Ok(statement) => Ok(statement),
        Err(
            AdmissionErrorView::Rejected { policy_id, predicted_wal_bytes, available_wal_bytes },
        ) => Err(
            PwbErrorView::BudgetExceeded { policy_id, predicted_wal_bytes, available_wal_bytes },
        ),
        Err(AdmissionErrorView::Internal { error, .. }) => if settings.fail_open {
            Ok(None)
        } else {
            Err(error)
        },
    }
}

/// The memory after the answer was given.
pub open spec fn answered(
    settings: GucSettings,
    result: Result<Option<ActiveStatementState>, AdmissionErrorView>,
    now_epoch_ms: EpochMillis,
    memory: SharedMemoryView,
) -> SharedMemoryView {
    match result {
        Err(AdmissionErrorView::Internal { context, .. }) => if settings.fail_open {
            admission::fail_open_recorded(memory, context, now_epoch_ms)
        } else {
            memory
        },
        _ => memory,
    }
}

/// The outcome of an admission, with its error by what it says.
pub open spec fn outcome_view(
    result: Result<Option<ActiveStatementState>, AdmissionError>,
) -> Result<Option<ActiveStatementState>, AdmissionErrorView> {
    match result {
        Ok(statement) => Ok(statement),
        Err(error) => Err(error@),
    }
}

pub fn handle_internal_admission_error(
    shmem: &mut SharedMemory,
    settings: &GucSettings,
    error: PwbError,
    context: Option<AdmissionErrorContext>,
    now_epoch_ms: EpochMillis,
) -> (r: PwbResult<()>)
    requires
        old(shmem).wf(),
    ensures
        final(shmem).wf(),
        if settings.fail_open {
            &&& r is Ok
            &&& final(shmem)@ == admission::fail_open_recorded(
                old(shmem)@,
                context,
                now_epoch_ms,
            )
        } else {
            &&& r == Err::<(), PwbError>(error)
            &&& final(shmem)@ == old(shmem)@
        },
{
    if guc::fail_open(settings) {
        record_internal_fail_open(shmem, context, now_epoch_ms);
        return Ok(());
    }
    Err(error)
}

pub fn handle_admission_result(
    shmem: &mut SharedMemory,
    settings: &GucSettings,
    result: Result<Option<ActiveStatementState>, AdmissionError>,
    now_epoch_ms: EpochMillis,
) -> (r: PwbResult<Option<ActiveStatementState>>)
    requires
        old(shmem).wf(),
    ensures
        final(shmem).wf(),
        errors::same_result(r, admission_answer(*settings, outcome_view(result))),
        final(shmem)@ == answered(*settings, outcome_view(result), now_epoch_ms, old(shmem)@),
{
    match result {
        Ok(active_statement) => Ok(active_statement),
        Err(
            AdmissionError::Rejected { policy_id, predicted_wal_bytes, available_wal_bytes },
        ) => Err(
            PwbError::BudgetExceeded { policy_id, predicted_wal_bytes, available_wal_bytes },
        ),
        Err(AdmissionError::Internal { error, context }) => {
            handle_internal_admission_error(shmem, settings, error, context, now_epoch_ms)?;
            Ok(None)
        },
    }
}

/// Whether answering a progress may turn `before` into `after` and come to `step`.
pub open spec fn progress_answered(
    settings: GucSettings,
    progress: AdmissionProgress,
    now_epoch_ms: EpochMillis,
    before: SharedMemoryView,
    after: SharedMemoryView,
    step: PwbResult<StartStep>,
) -> bool {
    match progress {
        AdmissionProgress::Wait(pending) => {
            &&& step == Ok::<StartStep, PwbError>(StartStep::Wait(pending))
            &&& after == before
        },
        AdmissionProgress::Done(result) => {
            &&& after == answered(settings, outcome_view(result), now_epoch_ms, before)
            &&& match admission_answer(settings, outcome_view(result)) {
                Ok(Some(statement)) => step == Ok::<StartStep, PwbError>(
                    StartStep::Admitted(statement),
                ),
                Ok(None) => step == Ok::<StartStep, PwbError>(StartStep::NotAdmitted),
                Err(error) => errors::fails_with(step, error),
            }
        },
    }
}

fn answer_progress(
    shmem: &mut SharedMemory,
    settings: &GucSettings,
    progress: AdmissionProgress,
    now_epoch_ms: EpochMillis,
) -> (r: PwbResult<StartStep>)
    requires
        old(shmem).wf(),
    ensures
        final(shmem).wf(),
        progress_answered(*settings, progress, now_epoch_ms, old(shmem)@, final(shmem)@, r),
{
    match progress {
        AdmissionProgress::Wait(pending) => Ok(StartStep::Wait(pending)),
        AdmissionProgress::Done(result) => match handle_admission_result(
            shmem,
            settings,
            result,
            now_epoch_ms,
        )? {
            Some(statement) => Ok(StartStep::Admitted(statement)),
            None => Ok(StartStep::NotAdmitted),
        },
    }
}

proof fn lemma_answer_keeps_profiles(
    settings: GucSettings,
    progress: AdmissionProgress,
    now_epoch_ms: EpochMillis,
    before: SharedMemoryView,
    after: SharedMemoryView,
    step: PwbResult<StartStep>,
)
    requires
        progress_answered(settings, progress, now_epoch_ms, before, after, step),
    ensures
        forall|snapshots: Seq<QueryProfileSnapshot>| #[trigger]
            profile::profiles_held(after, snapshots) == profile::profiles_held(before, snapshots),
{
}

/// Whether statements are put to admission at all.
pub open spec fn admission_applies(environment: AdmissionEnvironment, backend: BackendState) -> bool {
    environment.settings.enabled && backend.lifecycle.bypass_depth == 0
}

/// Begins an executor statement: decides whether it may run. A statement that has to wait is resumed
/// after its wait.
#[verifier::spinoff_prover]
#[verifier::rlimit(60)]
pub fn begin_executor_statement<S: DurableCatalogStore>(
    environment: &AdmissionEnvironment,
    backend: &mut BackendState,
    shmem: &mut SharedMemory,
    store: &mut S,
    query_desc: Option<&QueryDesc>,
) -> (r: PwbResult<StartStep>)
    requires
        old(shmem).wf(),
    ensures
        final(shmem).wf(),
        final(backend).lifecycle@ == old(backend).lifecycle@,
        if !admission_applies(*environment, *old(backend)) {
            &&& r == Ok::<StartStep, PwbError>(StartStep::NotAdmitted)
            &&& final(shmem)@ == old(shmem)@
            &&& final(backend).scope == old(backend).scope
            &&& final(backend).policies == old(backend).policies
            &&& *final(store) == *old(store)
        } else {
            &&& final(backend).scope == scope_after_executor(
                *environment,
                old(backend).scope,
                desc_of(query_desc),
            )
            &&& exists|
                stored: Option<PwbResult<()>>,
                admitting: SharedMemoryView,
                progress: AdmissionProgress,
            |
                {
                    &&& #[trigger] normal_statement_admitted(
                        *environment,
                        old(backend).scope,
                        desc_of(query_desc),
                        old(store),
                        old(shmem)@,
                        old(backend).policies,
                        stored,
                        final(store),
                        admitting,
                        final(backend).policies,
                        progress,
                    )
                    &&& progress_answered(
                        environment.settings,
                        progress,
                        environment.now_epoch_ms,
                        admitting,
                        final(shmem)@,
                        r,
                    )
                    &&& match stored {
                        None => *final(store) == *old(store),
                        Some(answer) => exists|s: &mut S, snapshots: &[QueryProfileSnapshot]|
                            {
                                &&& *s == *old(store)
                                &&& *final(s) == *final(store)
                                &&& profile::profiles_held(final(shmem)@, snapshots@)
                                &&& #[trigger] call_ensures(S::persist_profiles, (s, snapshots), answer)
                            },
                    }
                }
        },
{
    if !guc::enabled(&environment.settings) || admission_is_bypassed(&backend.lifecycle) {
        return Ok(StartStep::NotAdmitted);
    }
    let guard = AdmissionBypassGuard::enter(&mut backend.lifecycle);
    let progress = admit_normal_statement(
        environment,
        &mut backend.scope,
        &mut backend.policies,
        shmem,
        store,
        query_desc,
    );
    guard.leave(&mut backend.lifecycle);
    let ghost admitting = shmem@;
    let ghost outcome = progress;
    let step = answer_progress(shmem, &environment.settings, progress, environment.now_epoch_ms);
    proof {
        lemma_answer_keeps_profiles(
            environment.settings,
            outcome,
            environment.now_epoch_ms,
            admitting,
            shmem@,
            step,
        );
    }
    step
}

/// Begins a utility statement: decides whether it may run. The statement that creates this extension is
/// left alone.
#[verifier::spinoff_prover]
#[verifier::rlimit(60)]
pub fn begin_utility_statement<S: DurableCatalogStore>(
    environment: &AdmissionEnvironment,
    backend: &mut BackendState,
    shmem: &mut SharedMemory,
    store: &mut S,
    pstmt: Option<&PlannedStatement>,
    read_only_tree: bool,
) -> (r: PwbResult<StartStep>)
    requires
        old(shmem).wf(),
    ensures
        final(shmem).wf(),
        final(backend).lifecycle@ == old(backend).lifecycle@,
        if !admission_applies(*environment, *old(backend)) || (pstmt is Some
            && utility::creates_this_extension(*pstmt->0)) {
            &&& r == Ok::<StartStep, PwbError>(StartStep::NotAdmitted)
            &&& final(shmem)@ == old(shmem)@
            &&& final(backend).scope == old(backend).scope
            &&& final(backend).policies == old(backend).policies
            &&& *final(store) == *old(store)
        } else {
            &&& final(backend).scope == scope_after_utility(
                *environment,
                old(backend).scope,
                statement_of(pstmt),
            )
            &&& exists|
                stored: Option<PwbResult<()>>,
                admitting: SharedMemoryView,
                progress: AdmissionProgress,
            |
                {
                    &&& #[trigger] utility_statement_admitted(
                        *environment,
                        old(backend).scope,
                        statement_of(pstmt),
                        read_only_tree,
                        old(store),
                        old(shmem)@,
                        old(backend).policies,
                        stored,
                        final(store),
                        admitting,
                        final(backend).policies,
                        progress,
                    )
                    &&& progress_answered(
                        environment.settings,
                        progress,
                        environment.now_epoch_ms,
                        admitting,
                        final(shmem)@,
                        r,
                    )
                    &&& match stored {
                        None => *final(store) == *old(store),
                        Some(answer) => exists|s: &mut S, snapshots: &[QueryProfileSnapshot]|
                            {
                                &&& *s == *old(store)
                                &&& *final(s) == *final(store)
                                &&& profile::profiles_held(final(shmem)@, snapshots@)
                                &&& #[trigger] call_ensures(S::persist_profiles, (s, snapshots), answer)
                            },
                    }
                }
        },
{
    if !guc::enabled(&environment.settings) || admission_is_bypassed(&backend.lifecycle) {
        return Ok(StartStep::NotAdmitted);
    }
    if is_pg_wal_budget_create_extension(pstmt) {
        return Ok(StartStep::NotAdmitted);
    }
    let guard = AdmissionBypassGuard::enter(&mut backend.lifecycle);
    let progress = admit_utility_statement(
        environment,
        &mut backend.scope,
        &mut backend.policies,
        shmem,
        store,
        pstmt,
        read_only_tree,
    );
    guard.leave(&mut backend.lifecycle);
    let ghost admitting = shmem@;
    let ghost outcome = progress;
    let step = answer_progress(shmem, &environment.settings, progress, environment.now_epoch_ms);
    proof {
        lemma_answer_keeps_profiles(
            environment.settings,
            outcome,
            environment.now_epoch_ms,
            admitting,
            shmem@,
            step,
        );
    }
    step
}

/// Resumes a statement that has slept out its wait: it is put to its policy once more.
pub fn resume_statement(
    shmem: &mut SharedMemory,
    settings: &GucSettings,
    pending: PendingAdmission,
    now_epoch_ms: EpochMillis,
) -> (r: PwbResult<StartStep>)
    requires
        old(shmem).wf(),
    ensures
        final(shmem).wf(),
        exists|asked: SharedMemoryView, step: AdmissionStepView, progress: AdmissionProgress|
            {
                &&& #[trigger] admission::policy_asked(
                    old(shmem)@,
                    pending.context,
                    pending.policy,
                    pending.started_epoch_ms,
                    now_epoch_ms,
                    asked,
                    step,
                )
                &&& #[trigger] progress_matches(
                    progress,
                    step,
                    pending.context,
                    pending.started_epoch_ms,
                )
                &&& progress_answered(*settings, progress, now_epoch_ms, asked, final(shmem)@, r)
            },
{
    let step = admit_context_with_policy(
        shmem,
        &pending.context,
        &pending.policy,
        pending.started_epoch_ms,
        now_epoch_ms,
    );
    let progress = progress_of(step, pending.context, pending.started_epoch_ms);
    answer_progress(shmem, settings, progress, now_epoch_ms)
}

/// A statement measured from its start.
pub open spec fn started(
    statement: ActiveStatementState,
    positions: WalPositions,
) -> ActiveStatementState {
    ActiveStatementState {
        measurement_kind: positions.best_kind(),
        start_wal_bytes: positions.of_kind(positions.best_kind()),
        ..statement
    }
}

/// Notes that an executor statement runs from here, admitted or not.
pub fn executor_statement_start(
    state: &mut LifecycleState,
    admitted: Option<ActiveStatementState>,
    positions: &WalPositions,
)
    ensures
        final(state)@ == (LifecycleView {
            active_statements: match admitted {
                Some(statement) => old(state)@.active_statements.push(
                    started(statement, *positions),
                ),
                None => old(state)@.active_statements,
            },
            executor_admission_stack: old(state)@.executor_admission_stack.push(admitted is Some),
            ..old(state)@
        }),
{
    let admitted: bool = match admitted {
        Some(active_statement) => {
            push_active_statement(state, capture_start(active_statement, positions));
            true
        },
        None => false,
    };
    push_executor_admission_marker(state, admitted);
}

/// Notes that a utility statement runs from here, and returns whether it was admitted.
pub fn utility_statement_start(
    state: &mut LifecycleState,
    admitted: Option<ActiveStatementState>,
    positions: &WalPositions,
) -> (r: bool)
    ensures
        r == (admitted is Some),
        final(state)@ == (LifecycleView {
            active_statements: match admitted {
                Some(statement) => old(state)@.active_statements.push(
                    started(statement, *positions),
                ),
                None => old(state)@.active_statements,
            },
            ..old(state)@
        }),
{
    match admitted {
        Some(active_statement) => {
            push_active_statement(state, capture_start(active_statement, positions));
            true
        },
        None => false,
    }
}

/// Whether completing the innermost active statement, if there is one, may turn the memory and the
/// active statements into these.
pub open spec fn statement_completed<S: DurableCatalogStore>(
    store: &S,
    settings: GucSettings,
    end: WalPositions,
    now_epoch_ms: EpochMillis,
    before: SharedMemoryView,
    active: Seq<ActiveStatementState>,
    after: SharedMemoryView,
    active_after: Seq<ActiveStatementState>,
) -> bool {
    if active.len() == 0 {
        after == before && active_after == active
    } else {
        &&& active_after == active.drop_last()
        &&& reconcile::reconciled(
            store,
            settings,
            active.last(),
            end,
            now_epoch_ms,
            before,
            after,
        )
    }
}

/// Completes the innermost executor statement. It is reconciled where it was admitted.
pub fn executor_statement_complete<S: DurableCatalogStore>(
    state: &mut LifecycleState,
    shmem: &mut SharedMemory,
    store: &S,
    settings: &GucSettings,
    end: &WalPositions,
    now_epoch_ms: EpochMillis,
)
    requires
        old(shmem).wf(),
    ensures
        final(shmem).wf(),
        ({
            let markers = old(state)@.executor_admission_stack;
            let active = old(state)@.active_statements;
            &&& final(state)@.bypass_depth == old(state)@.bypass_depth
            &&& final(state)@.executor_admission_stack == if markers.len() == 0 {
                markers
            } else {
                markers.drop_last()
            }
            &&& if markers.len() > 0 && markers.last() {
                statement_completed(
                    store,
                    *settings,
                    *end,
                    now_epoch_ms,
                    old(shmem)@,
                    active,
                    final(shmem)@,
                    final(state)@.active_statements,
                )
            } else {
                final(shmem)@ == old(shmem)@ && final(state)@.active_statements == active
            }
        }),
{
    if pop_executor_admission_marker(state) {
        if let Some(active_statement) = pop_active_statement(state) {
            reconcile_completed_statement(
                shmem,
                store,
                settings,
                &active_statement,
                end,
                now_epoch_ms,
            );
        }
    }
}

/// Completes the innermost utility statement. It is reconciled where it was admitted.
pub fn utility_statement_complete<S: DurableCatalogStore>(
    state: &mut LifecycleState,
    shmem: &mut SharedMemory,
    store: &S,
    settings: &GucSettings,
    admitted: bool,
    end: &WalPositions,
    now_epoch_ms: EpochMillis,
)
    requires
        old(shmem).wf(),
    ensures
        final(shmem).wf(),
        final(state)@.bypass_depth == old(state)@.bypass_depth,
        final(state)@.executor_admission_stack == old(state)@.executor_admission_stack,
        if admitted {
            statement_completed(
                store,
                *settings,
                *end,
                now_epoch_ms,
                old(shmem)@,
                old(state)@.active_statements,
                final(shmem)@,
                final(state)@.active_statements,
            )
        } else {
            &&& final(shmem)@ == old(shmem)@
            &&& final(state)@.active_statements == old(state)@.active_statements
        },
{
    if admitted {
        if let Some(active_statement) = pop_active_statement(state) {
            reconcile_completed_statement(
                shmem,
                store,
                settings,
                &active_statement,
                end,
                now_epoch_ms,
            );
        }
    }
}

impl XactEvent {
    /// Whether the event ends the transaction.
    pub open spec fn ends_transaction(self) -> bool {
        self != XactEvent::Other
    }

    /// Whether the event aborts the transaction.
    pub open spec fn aborts(self) -> bool {
        self == XactEvent::Abort || self == XactEvent::ParallelAbort
    }
}

/// The memory after a statement that was still under way when its transaction ended was counted: as
/// aborted where the transaction was and something had been charged for it, as not measured where the
/// transaction was committed.
pub open spec fn abandoned(
    memory: SharedMemoryView,
    statement: ActiveStatementState,
    aborting: bool,
) -> SharedMemoryView {
    if !aborting {
        admission::counted(memory, admission::missing_delta())
    } else if statement.decision.charged_bytes > 0 {
        admission::counted(memory, reconcile::aborted_delta())
    } else {
        memory
    }
}

/// The memory after several statements were abandoned one after the other.
pub open spec fn all_abandoned(
    memory: SharedMemoryView,
    statements: Seq<ActiveStatementState>,
    aborting: bool,
) -> SharedMemoryView
    decreases statements.len(),
{
    if statements.len() == 0 {
        memory
    } else {
        abandoned(
            all_abandoned(memory, statements.drop_last(), aborting),
            statements.last(),
            aborting,
        )
    }
}

/// Ends a transaction: every statement that is still under way is given up, the innermost first.
pub fn transaction_ending(state: &mut LifecycleState, shmem: &mut SharedMemory, event: XactEvent)
    requires
        old(shmem).wf(),
    ensures
        final(shmem).wf(),
        if !event.ends_transaction() {
            final(state)@ == old(state)@ && final(shmem)@ == old(shmem)@
        } else {
            &&& final(state)@ == (LifecycleView {
                active_statements: Seq::empty(),
                executor_admission_stack: Seq::empty(),
                ..old(state)@
            })
            &&& final(shmem)@ == all_abandoned(
                old(shmem)@,
                old(state)@.active_statements.reverse(),
                event.aborts(),
            )
        },
{
    if event == XactEvent::Other {
        return ;
    }
    let aborting: bool = event == XactEvent::Abort || event == XactEvent::ParallelAbort;
    let drained = drain_active_statements(state);
    let mut i: usize = 0;
    assert(drained@.take(0) =~= Seq::empty());
    while i < drained.len()
        invariant
            i <= drained@.len(),
            shmem.wf(),
            aborting == event.aborts(),
            shmem@ == all_abandoned(old(shmem)@, drained@.take(i as int), aborting),
        decreases drained@.len() - i,
    {
        assert(drained@.take(i + 1).drop_last() =~= drained@.take(i as int));
        if aborting {
            let _ = record_aborted_statement(shmem, &drained[i]);
        } else {
            record_missing_actual_wal(shmem);
        }
        i += 1;
    }
    assert(drained@.take(i as int) =~= drained@);
}

/// Where internal errors are to be let through, only a refusal by a policy makes a statement fail.
pub proof fn law_fail_open_never_fails_internally(
    settings: GucSettings,
    result: Result<Option<ActiveStatementState>, AdmissionErrorView>,
)
    requires
        settings.fail_open,
    ensures
        admission_answer(settings, result) is Err <==> result matches Err(
            AdmissionErrorView::Rejected { .. },
        ),
        admission_answer(settings, result) matches Err(error) ==> error is BudgetExceeded,
{
}

/// A bypass is in force until it ends, also after another one inside of it has ended, and admission is
/// bypassed behind it exactly if it was before. Short of the largest depth it leaves nothing behind.
pub proof fn law_bypass_nests(state: LifecycleView)
    ensures
        state.bypassing().bypass_depth > 0,
        state.bypassing().bypassing().after_bypass().bypass_depth > 0,
        (state.bypassing().after_bypass().bypass_depth > 0) == (state.bypass_depth > 0),
        state.bypass_depth < usize::MAX ==> state.bypassing().after_bypass() == state,
        state.bypassing().bypass_depth < usize::MAX ==> state.bypassing().bypassing().after_bypass()
            == state.bypassing(),
{
}

/// A statement that the executor is handed is put to its policy wherever it writes: every insert, update,
/// delete and merge, and every select with a modifying common table expression. It is never let through
/// unobserved: it is classed as a write, predicted, and admitted, refused or made to wait, or it fails.
pub proof fn law_writes_are_put_to_their_policy<S: DurableCatalogStore>(
    environment: AdmissionEnvironment,
    scope_state: BackendScopeState,
    query_desc: QueryDesc,
    statement: PlannedStatement,
    store: &S,
    before: SharedMemoryView,
    cache_before: Option<PolicyCache>,
    stored: Option<PwbResult<()>>,
    store_after: &S,
    after: SharedMemoryView,
    cache_after: Option<PolicyCache>,
    progress: AdmissionProgress,
    key: ScopeKeyView,
)
    requires
        normal_statement_admitted(
            environment,
            scope_state,
            Some(query_desc),
            store,
            before,
            cache_before,
            stored,
            store_after,
            after,
            cache_after,
            progress,
        ),
        query_desc.planned_statement == Some(statement),
        statement.command_type == utility::CommandType::Insert || statement.command_type
            == utility::CommandType::Update || statement.command_type
            == utility::CommandType::Delete || statement.command_type
            == utility::CommandType::Merge || (statement.command_type
            == utility::CommandType::Select && statement.has_modifying_cte),
    ensures
        !(progress matches AdmissionProgress::Done(Ok(None))),
        scope::session_scope(
            scope_state,
            environment.settings.composite_scope_enabled,
            environment.names,
        ) == Ok::<ScopeKeyView, PwbErrorView>(key) ==> exists|
            predicted: WalBytes,
            predicting: SharedMemoryView,
            context: AdmissionContext,
            step: AdmissionStepView,
        |
            {
                &&& #[trigger] profile::prediction_made(
                    store,
                    environment.settings,
                    PredictionContext {
                        statement_class: StatementClass::Write,
                        query_id: context.query_id,
                        scope_hash: key.value_hash,
                    },
                    environment.now_epoch_ms,
                    before,
                    stored,
                    predicting,
                    predicted,
                )
                &&& context.statement_class == StatementClass::Write
                &&& context.predicted_wal_bytes == predicted
                &&& context.scope.kind == key.kind
                &&& context.scope.value_hash == key.value_hash
                &&& context.scope.debug_value is Some <==> key.debug_value is Some
                &&& context.scope.debug_value matches Some(value) ==> value@ == key.debug_value->0
                &&& context.query_id == if statement.query_id == 0 {
                    None
                } else {
                    Some(statement.query_id)
                }
                &&& #[trigger] admission::context_admitted(
                    store_after,
                    context,
                    environment.now_epoch_ms,
                    predicting,
                    cache_before,
                    after,
                    cache_after,
                    step,
                )
                &&& match progress {
                    AdmissionProgress::Done(Ok(admitted)) => admitted is Some && step
                        == AdmissionStepView::Done(Ok(admitted->0)),
                    AdmissionProgress::Done(Err(error)) => step == AdmissionStepView::Done(
                        Err(error@),
                    ),
                    AdmissionProgress::Wait(pending) => {
                        &&& pending.context == context
                        &&& pending.started_epoch_ms == environment.now_epoch_ms
                        &&& step == (AdmissionStepView::Wait {
                            policy: pending.policy,
                            wait_ms: pending.wait_ms,
                        })
                    },
                }
            },
{
    if let Ok(key) = scope::session_scope(
        scope_state,
        environment.settings.composite_scope_enabled,
        environment.names,
    ) {
        let query_id = utility::query_identity(statement);
        let (predicted, predicting, context, step) = choose|
            predicted: WalBytes,
            predicting: SharedMemoryView,
            context: AdmissionContext,
            step: AdmissionStepView,
        |
            {
                &&& #[trigger] profile::prediction_made(
                    store,
                    environment.settings,
                    PredictionContext {
                        statement_class: StatementClass::Write,
                        query_id,
                        scope_hash: key.value_hash,
                    },
                    environment.now_epoch_ms,
                    before,
                    stored,
                    predicting,
                    predicted,
                )
                &&& context_of(context, key, StatementClass::Write, query_id, predicted)
                &&& #[trigger] admission::context_admitted(
                    store_after,
                    context,
                    environment.now_epoch_ms,
                    predicting,
                    cache_before,
                    after,
                    cache_after,
                    step,
                )
                &&& progress_matches(progress, step, context, environment.now_epoch_ms)
            };
        assert(context.scope@.value_hash == key.value_hash);
        assert(profile::prediction_made(
            store,
            environment.settings,
            PredictionContext {
                statement_class: StatementClass::Write,
                query_id: context.query_id,
                scope_hash: key.value_hash,
            },
            environment.now_epoch_ms,
            before,
            stored,
            predicting,
            predicted,
        ));
    }
}

/// A select without a modifying common table expression is let through unobserved, and nothing changes.
pub proof fn law_plain_selects_are_left_alone<S: DurableCatalogStore>(
    environment: AdmissionEnvironment,
    scope_state: BackendScopeState,
    query_desc: QueryDesc,
    statement: PlannedStatement,
    store: &S,
    before: SharedMemoryView,
    cache_before: Option<PolicyCache>,
    stored: Option<PwbResult<()>>,
    store_after: &S,
    after: SharedMemoryView,
    cache_after: Option<PolicyCache>,
    progress: AdmissionProgress,
)
    requires
        normal_statement_admitted(
            environment,
            scope_state,
            Some(query_desc),
            store,
            before,
            cache_before,
            stored,
            store_after,
            after,
            cache_after,
            progress,
        ),
        query_desc.planned_statement == Some(statement),
        statement.command_type == utility::CommandType::Select,
        !statement.has_modifying_cte,
    ensures
        progress == AdmissionProgress::Done(Ok(None)),
        after == before,
        cache_after == cache_before,
        stored is None,
        scope_after_executor(environment, scope_state, Some(query_desc)) == scope_state,
{
}

/// A utility statement is always put to admission, never let through unobserved, and one that copies into a
/// table is admitted as a copy.
pub proof fn law_utilities_are_put_to_admission<S: DurableCatalogStore>(
    environment: AdmissionEnvironment,
    scope_state: BackendScopeState,
    statement: PlannedStatement,
    read_only_tree: bool,
    store: &S,
    before: SharedMemoryView,
    cache_before: Option<PolicyCache>,
    stored: Option<PwbResult<()>>,
    store_after: &S,
    after: SharedMemoryView,
    cache_after: Option<PolicyCache>,
    progress: AdmissionProgress,
    key: ScopeKeyView,
)
    requires
        utility_statement_admitted(
            environment,
            scope_state,
            Some(statement),
            read_only_tree,
            store,
            before,
            cache_before,
            stored,
            store_after,
            after,
            cache_after,
            progress,
        ),
        scope::session_scope(
            scope_state,
            environment.settings.composite_scope_enabled,
            environment.names,
        ) == Ok::<ScopeKeyView, PwbErrorView>(key),
    ensures
        !(progress matches AdmissionProgress::Done(Ok(None))),
        exists|predicting: SharedMemoryView, context: AdmissionContext, step: AdmissionStepView|
            {
                &&& #[trigger] admission::context_admitted(
                    store_after,
                    context,
                    environment.now_epoch_ms,
                    predicting,
                    cache_before,
                    after,
                    cache_after,
                    step,
                )
                &&& context.scope.kind == key.kind
                &&& context.scope.value_hash == key.value_hash
                &&& context.statement_class == utility::utility_statement_class(
                    statement,
                    read_only_tree,
                )
                &&& context.scope.debug_value is Some <==> key.debug_value is Some
                &&& context.scope.debug_value matches Some(value) ==> value@ == key.debug_value->0
                &&& context.query_id == if statement.query_id == 0 {
                    None
                } else {
                    Some(statement.query_id)
                }
                &&& profile::prediction_made(
                    store,
                    environment.settings,
                    PredictionContext {
                        statement_class: context.statement_class,
                        query_id: context.query_id,
                        scope_hash: key.value_hash,
                    },
                    environment.now_epoch_ms,
                    before,
                    stored,
                    predicting,
                    context.predicted_wal_bytes,
                )
                &&& progress matches AdmissionProgress::Done(Err(error)) ==> step
                    == AdmissionStepView::Done(Err(error@))
                &&& progress matches AdmissionProgress::Wait(pending) ==> pending.context == context
                    && pending.started_epoch_ms == environment.now_epoch_ms && step == (
                AdmissionStepView::Wait { policy: pending.policy, wait_ms: pending.wait_ms })
                &&& statement.command_type == utility::CommandType::Utility && (
                statement.utility matches Some(node) && node.tag == utility::NodeTag::CopyStmt
                    && node.is_from) ==> context.statement_class == StatementClass::Copy
                &&& progress matches AdmissionProgress::Done(Ok(Some(admitted))) ==> step
                    == AdmissionStepView::Done(Ok(admitted))
            },
{
    let statement_class = utility::utility_statement_class(statement, read_only_tree);
    let query_id = utility::query_identity(statement);
    let (predicted, predicting, context, step) = choose|
        predicted: WalBytes,
        predicting: SharedMemoryView,
        context: AdmissionContext,
        step: AdmissionStepView,
    |
        {
            &&& #[trigger] profile::prediction_made(
                store,
                environment.settings,
                PredictionContext { statement_class, query_id, scope_hash: key.value_hash },
                environment.now_epoch_ms,
                before,
                stored,
                predicting,
                predicted,
            )
            &&& context_of(context, key, statement_class, query_id, predicted)
            &&& #[trigger] admission::context_admitted(
                store_after,
                context,
                environment.now_epoch_ms,
                predicting,
                cache_before,
                after,
                cache_after,
                step,
            )
            &&& progress_matches(progress, step, context, environment.now_epoch_ms)
        };
    assert(context.scope@.value_hash == key.value_hash && context.scope@.kind == key.kind);
}

/// Admission applies exactly where the extension is enabled and not bypassed. A refused statement fails with
/// what its policy said, an admitted one runs, one that waits is asked again; and after an internal error a
/// statement runs unobserved where the settings say so, and fails with that error where they do not.
pub proof fn law_answers_reach_the_client(
    environment: AdmissionEnvironment,
    backend: BackendState,
    progress: AdmissionProgress,
    now_epoch_ms: EpochMillis,
    before: SharedMemoryView,
    after: SharedMemoryView,
    step: PwbResult<StartStep>,
)
    requires
        progress_answered(environment.settings, progress, now_epoch_ms, before, after, step),
    ensures
        admission_applies(environment, backend) <==> environment.settings.enabled
            && backend.lifecycle.bypass_depth == 0,
        match progress {
            AdmissionProgress::Wait(pending) => step == Ok::<StartStep, PwbError>(
                StartStep::Wait(pending),
            ) && after == before,
            AdmissionProgress::Done(Ok(Some(statement))) => step == Ok::<StartStep, PwbError>(
                StartStep::Admitted(statement),
            ) && after == before,
            AdmissionProgress::Done(Ok(None)) => step == Ok::<StartStep, PwbError>(
                StartStep::NotAdmitted,
            ) && after == before,
            AdmissionProgress::Done(
                Err(
                    AdmissionError::Rejected {
                        policy_id,
                        predicted_wal_bytes,
                        available_wal_bytes,
                    },
                ),
            ) => {
                &&& step matches Err(error) && error@ == (PwbErrorView::BudgetExceeded {
                    policy_id,
                    predicted_wal_bytes,
                    available_wal_bytes,
                })
                &&& after == before
            },
            AdmissionProgress::Done(Err(AdmissionError::Internal { error, context })) => {
                &&& environment.settings.fail_open ==> step == Ok::<StartStep, PwbError>(
                    StartStep::NotAdmitted,
                )
                &&& !environment.settings.fail_open ==> (step matches Err(e) && e@ == error@)
                    && after == before
                &&& environment.settings.fail_open && before.access() is Ok ==> (
                after.access() matches Ok(region2) && {
                    let old = before.access()->Ok_0.state.counters;
                    &&& old.internal_fail_open_count < u64::MAX
                        ==> region2.state.counters.internal_fail_open_count
                        == old.internal_fail_open_count + 1
                    &&& old.accepted_statements < u64::MAX
                        ==> region2.state.counters.accepted_statements == old.accepted_statements
                        + 1
                    &&& region2.budget_buckets == before.access()->Ok_0.budget_buckets
                    &&& region2.profiles == before.access()->Ok_0.profiles
                })
            },
        },
{
}

/// A statement is measured from its start by what the server tells best, and that is all that its start
/// changes. At its end the innermost statement is taken off and reconciled, and no other.
pub proof fn law_innermost_statement_is_completed<S: DurableCatalogStore>(
    statement: ActiveStatementState,
    positions: WalPositions,
    store: &S,
    settings: GucSettings,
    end: WalPositions,
    now_epoch_ms: EpochMillis,
    before: SharedMemoryView,
    active: Seq<ActiveStatementState>,
    after: SharedMemoryView,
    active_after: Seq<ActiveStatementState>,
)
    requires
        statement_completed(
            store,
            settings,
            end,
            now_epoch_ms,
            before,
            active.push(statement),
            after,
            active_after,
        ),
    ensures
        active_after == active,
        reconcile::reconciled(store, settings, statement, end, now_epoch_ms, before, after),
        ({
            let measured = started(statement, positions);
            &&& measured.decision == statement.decision
            &&& measured.query_id == statement.query_id
            &&& measured.scope_hash == statement.scope_hash
            &&& measured.scope_kind == statement.scope_kind
            &&& measured.statement_class == statement.statement_class
            &&& measured.predicted_wal_bytes == statement.predicted_wal_bytes
            &&& positions.backend_wal_bytes is Some ==> measured.start_wal_bytes
                == positions.backend_wal_bytes && measured.measurement_kind
                == WalMeasurementKind::ExactBackend
            &&& positions.backend_wal_bytes is None ==> measured.start_wal_bytes
                == positions.insert_lsn
            &&& positions.backend_wal_bytes is None && positions.insert_lsn is Some
                ==> measured.measurement_kind == WalMeasurementKind::ApproximateInsertLsn
            &&& positions.backend_wal_bytes is None && positions.insert_lsn is None
                ==> measured.measurement_kind == WalMeasurementKind::Unavailable
        }),
{
    assert(active.push(statement).drop_last() =~= active);
}

/// When a transaction ends, every statement still under way is counted once: those that something was
/// charged for as aborted where the transaction was aborted, all of them as not measured where it was
/// committed. No bucket, profile or record changes. Other events end nothing.
pub proof fn law_abandoned_statements_are_counted_once(
    memory: SharedMemoryView,
    statements: Seq<ActiveStatementState>,
    event: XactEvent,
)
    requires
        memory.access() matches Ok(region)
            && region.state.counters.aborted_after_charge_count + statements.len() <= u64::MAX
            && region.state.counters.missing_actual_wal_count + statements.len() <= u64::MAX,
    ensures
        event.ends_transaction() <==> event == XactEvent::Commit || event
            == XactEvent::ParallelCommit || event == XactEvent::Abort || event
            == XactEvent::ParallelAbort,
        event.aborts() <==> event == XactEvent::Abort || event == XactEvent::ParallelAbort,
        ({
            let charged = statements.filter(
                |statement: ActiveStatementState| statement.decision.charged_bytes > 0,
            ).len();
            let region = memory.access()->Ok_0;
            &&& charged <= statements.len()
            &&& all_abandoned(memory, statements, true).access() matches Ok(region2) && {
                &&& region2.state.counters.aborted_after_charge_count
                    == region.state.counters.aborted_after_charge_count + charged
                &&& region2.state.counters == (PwbCounters {
                    aborted_after_charge_count: region2.state.counters.aborted_after_charge_count,
                    ..region.state.counters
                })
                &&& region2.budget_buckets == region.budget_buckets
                &&& region2.profiles == region.profiles
                &&& region2.recent_decisions == region.recent_decisions
            }
            &&& all_abandoned(memory, statements, false).access() matches Ok(region2) && {
                &&& region2.state.counters.missing_actual_wal_count
                    == region.state.counters.missing_actual_wal_count + statements.len()
                &&& region2.state.counters == (PwbCounters {
                    missing_actual_wal_count: region2.state.counters.missing_actual_wal_count,
                    ..region.state.counters
                })
                &&& region2.budget_buckets == region.budget_buckets
                &&& region2.profiles == region.profiles
                &&& region2.recent_decisions == region.recent_decisions
            }
        }),
    decreases statements.len(),
{
    reveal(Seq::filter);
    if statements.len() > 0 {
        law_abandoned_statements_are_counted_once(memory, statements.drop_last(), event);
    }
}

/// A statement whose scope cannot be told fails internally with the reason, and nothing else happens:
/// nothing is predicted, loaded or charged.
pub proof fn law_statements_without_a_scope_fail<S: DurableCatalogStore>(
    environment: AdmissionEnvironment,
    scope_state: BackendScopeState,
    statement_class: StatementClass,
    query_id: Option<QueryId>,
    store: &S,
    before: SharedMemoryView,
    cache_before: Option<PolicyCache>,
    stored: Option<PwbResult<()>>,
    store_after: &S,
    after: SharedMemoryView,
    cache_after: Option<PolicyCache>,
    progress: AdmissionProgress,
    reason: PwbErrorView,
)
    requires
        statement_admitted(
            environment,
            scope_state,
            statement_class,
            query_id,
            store,
            before,
            cache_before,
            stored,
            store_after,
            after,
            cache_after,
            progress,
        ),
        scope::session_scope(
            scope_state,
            environment.settings.composite_scope_enabled,
            environment.names,
        ) == Err::<ScopeKeyView, PwbErrorView>(reason),
    ensures
        progress matches AdmissionProgress::Done(
            Err(AdmissionError::Internal { error, context: Some(told) }),
        ) && error@ == reason && told.query_id == query_id && told.statement_class
            == statement_class && told.policy_id is None && told.predicted_wal_bytes is None,
        after == before,
        cache_after == cache_before,
        stored is None,
{
}

/// Where the server hands over no statement, starting one fails internally and nothing else happens.
pub proof fn law_missing_statements_fail<S: DurableCatalogStore>(
    environment: AdmissionEnvironment,
    scope_state: BackendScopeState,
    query_desc: Option<QueryDesc>,
    read_only_tree: bool,
    store: &S,
    before: SharedMemoryView,
    cache_before: Option<PolicyCache>,
    stored: Option<PwbResult<()>>,
    store_after: &S,
    after: SharedMemoryView,
    cache_after: Option<PolicyCache>,
    progress: AdmissionProgress,
)
    requires
        query_desc is None || query_desc->0.planned_statement is None,
        normal_statement_admitted(
            environment,
            scope_state,
            query_desc,
            store,
            before,
            cache_before,
            stored,
            store_after,
            after,
            cache_after,
            progress,
        ) || utility_statement_admitted(
            environment,
            scope_state,
            None,
            read_only_tree,
            store,
            before,
            cache_before,
            stored,
            store_after,
            after,
            cache_after,
            progress,
        ),
    ensures
        progress matches AdmissionProgress::Done(
            Err(AdmissionError::Internal { error, context: None }),
        ) && error@ is Internal,
        after == before,
        cache_after == cache_before,
        stored is None,
        scope_after_executor(environment, scope_state, query_desc) == scope_state,
        scope_after_utility(environment, scope_state, None) == scope_state,
{
}

/// Without a statement under way, none is completed.
pub proof fn law_nothing_is_completed_without_a_statement<S: DurableCatalogStore>(
    store: &S,
    settings: GucSettings,
    end: WalPositions,
    now_epoch_ms: EpochMillis,
    before: SharedMemoryView,
    after: SharedMemoryView,
    active_after: Seq<ActiveStatementState>,
)
    requires
        statement_completed(
            store,
            settings,
            end,
            now_epoch_ms,
            before,
            Seq::empty(),
            after,
            active_after,
        ),
    ensures
        after == before,
        active_after.len() == 0,
{
}

/// What the session was charged to is noted wherever a statement is put to admission.
pub proof fn law_scope_of_a_statement_is_noted(
    environment: AdmissionEnvironment,
    scope_state: BackendScopeState,
    query_desc: QueryDesc,
    statement: PlannedStatement,
)
    requires
        query_desc.planned_statement == Some(statement),
        statement.command_type != utility::CommandType::Select || statement.has_modifying_cte,
    ensures
        scope_after_executor(environment, scope_state, Some(query_desc)) == scope::scope_noted(
            scope_state,
            environment.settings.composite_scope_enabled,
            environment.names,
        ),
        scope_after_utility(environment, scope_state, Some(statement)) == scope::scope_noted(
            scope_state,
            environment.settings.composite_scope_enabled,
            environment.names,
        ),
{
}

/// From the executor hook to the client: a write under an enabled policy in reject mode that covers the
/// session's whole kind of scope runs exactly where its prediction fits the bucket of the policy and the
/// scope. It then runs with that much charged, and the bucket holds that much less; else it fails with
/// the refusal, and the bucket stays as it was. Here the prediction is the fallback for writes and there
/// is no bucket yet.
pub proof fn law_writes_run_where_their_budget_allows<S: DurableCatalogStore>(
    environment: AdmissionEnvironment,
    scope_state: BackendScopeState,
    query_desc: QueryDesc,
    statement: PlannedStatement,
    store: &S,
    before: SharedMemoryView,
    cache: PolicyCache,
    stored: Option<PwbResult<()>>,
    store_after: &S,
    admitting: SharedMemoryView,
    cache_after: Option<PolicyCache>,
    progress: AdmissionProgress,
    after: SharedMemoryView,
    step: PwbResult<StartStep>,
    key: ScopeKeyView,
)
    requires
        normal_statement_admitted(
            environment,
            scope_state,
            Some(query_desc),
            store,
            before,
            Some(cache),
            stored,
            store_after,
            admitting,
            cache_after,
            progress,
        ),
        progress_answered(
            environment.settings,
            progress,
            environment.now_epoch_ms,
            admitting,
            after,
            step,
        ),
        query_desc.planned_statement == Some(statement),
        statement.command_type == utility::CommandType::Insert || statement.command_type
            == utility::CommandType::Update || statement.command_type
            == utility::CommandType::Delete || statement.command_type
            == utility::CommandType::Merge || (statement.command_type
            == utility::CommandType::Select && statement.has_modifying_cte),
        scope::session_scope(
            scope_state,
            environment.settings.composite_scope_enabled,
            environment.names,
        ) == Ok::<ScopeKeyView, PwbErrorView>(key),
        environment.settings.predictor == guc::PredictorKind::StatementClassFallback,
        0 <= environment.settings.default_write_wal_bytes
            <= environment.settings.max_prediction_bytes,
        environment.now_epoch_ms - cache.refreshed_epoch_ms < 1000,
        cache.policies@.len() > 0,
        cache.policies@[0].scope_kind == key.kind && cache.policies@[0].scope_value is None,
        cache.policies@[0].policy.enabled && cache.policies@[0].policy.mode == BudgetMode::Reject,
        before.access() matches Ok(region) && region.wf() && budget::budgets_wf(region)
            && region.bucket(cache.policies@[0].policy.policy_id, key.value_hash) is None
            && !region.no_bucket_room(cache.policies@[0].policy.policy_id, key.value_hash),
    ensures
        ({
            let policy = cache.policies@[0].policy;
            let predicted = environment.settings.default_write_wal_bytes;
            &&& predicted <= policy.wal_burst_bytes ==> {
                &&& step matches Ok(StartStep::Admitted(running)) && running.decision.charged_bytes
                    == predicted && running.decision.policy_id == Some(policy.policy_id)
                    && running.scope_hash == key.value_hash && running.predicted_wal_bytes
                    == predicted
                &&& after.access() matches Ok(region2) && region2.bucket(
                    policy.policy_id,
                    key.value_hash,
                ) matches Some(bucket) && bucket.available_bytes == policy.wal_burst_bytes
                    - predicted
            }
            &&& predicted > policy.wal_burst_bytes ==> {
                &&& step matches Err(error) && error@ == (PwbErrorView::BudgetExceeded {
                    policy_id: policy.policy_id,
                    predicted_wal_bytes: predicted as u64,
                    available_wal_bytes: policy.wal_burst_bytes,
                })
                &&& after.access() matches Ok(region2) && region2.bucket(
                    policy.policy_id,
                    key.value_hash,
                ) is None
            }
        }),
{
    law_writes_are_put_to_their_policy(
        environment,
        scope_state,
        query_desc,
        statement,
        store,
        before,
        Some(cache),
        stored,
        store_after,
        admitting,
        cache_after,
        progress,
        key,
    );
    let now = environment.now_epoch_ms;
    let (predicted, predicting, context, asked) = choose|
        predicted: WalBytes,
        predicting: SharedMemoryView,
        context: AdmissionContext,
        asked: AdmissionStepView,
    |
        {
            &&& #[trigger] profile::prediction_made(
                store,
                environment.settings,
                PredictionContext {
                    statement_class: StatementClass::Write,
                    query_id: context.query_id,
                    scope_hash: key.value_hash,
                },
                now,
                before,
                stored,
                predicting,
                predicted,
            )
            &&& context.statement_class == StatementClass::Write
            &&& context.predicted_wal_bytes == predicted
            &&& context.scope.kind == key.kind
            &&& context.scope.value_hash == key.value_hash
            &&& #[trigger] admission::context_admitted(
                store_after,
                context,
                now,
                predicting,
                Some(cache),
                admitting,
                cache_after,
                asked,
            )
            &&& match progress {
                AdmissionProgress::Done(Ok(admitted)) => admitted is Some && asked
                    == AdmissionStepView::Done(Ok(admitted->0)),
                AdmissionProgress::Done(Err(error)) => asked == AdmissionStepView::Done(
                    Err(error@),
                ),
                AdmissionProgress::Wait(pending) => asked == (AdmissionStepView::Wait {
                    policy: pending.policy,
                    wait_ms: pending.wait_ms,
                }),
            }
        };
    profile::law_other_statements_are_predicted_by_class(
        store,
        environment.settings,
        PredictionContext {
            statement_class: StatementClass::Write,
            query_id: context.query_id,
            scope_hash: key.value_hash,
        },
        now,
        before,
        stored,
        predicting,
        predicted,
    );
    admission::law_statements_are_put_to_the_first_covering_policy(
        store_after,
        context,
        now,
        before,
        cache,
        admitting,
        cache_after,
        asked,
        0,
    );
    let policy = cache.policies@[0].policy;
    admission::law_answer_of_a_policy_is_obeyed(
        before,
        context,
        policy,
        now,
        now,
        admitting,
        asked,
        key.value_hash,
        policy.policy_id,
    );
    budget::law_reject_charges_what_fits_and_refuses_the_rest(
        before,
        predicted,
        policy,
        key.value_hash,
        now,
    );
}

} // verus!
