//! Learned query profiles: predictions from them, observations for them, and their restore and
//! persistence.

use vstd::prelude::*;

use crate::catalog::DurableCatalogStore;
use crate::errors;
use crate::errors::{PwbError, PwbErrorView, PwbResult};
use crate::guc;
use crate::guc::{GucSettings, PredictorKind};
use crate::predict;
use crate::profile_store;
use crate::shmem::profiles;
use crate::shmem::records::{PwbSharedState, QueryProfileSnapshot};
use crate::shmem::transactions;
use crate::shmem::{RegionView, SharedMemory, SharedMemoryView};
use crate::types::{EpochMillis, QueryId, QueryWalProfile, ScopeHash, StatementClass, WalBytes};

verus! {

pub const PROFILE_PERSIST_INTERVAL_MS: EpochMillis = 60_000;

pub const PROFILE_RESTORE_STALE_MS: EpochMillis = 60_000;

/// What a prediction is made for.
#[derive(Debug, Clone, Copy, PartialEq, Eq)]
pub struct PredictionContext {
    pub statement_class: StatementClass,
    pub query_id: Option<QueryId>,
    pub scope_hash: ScopeHash,
}

/// Whether making sure that the stored profiles were loaded may turn `before` into `after` and return
/// `result`.
pub open spec fn profiles_ensured<S: DurableCatalogStore>(
    store: &S,
    limit: usize,
    now_epoch_ms: EpochMillis,
    before: SharedMemoryView,
    after: SharedMemoryView,
    result: PwbResult<()>,
) -> bool {
    match before.access() {
        Err(error) => errors::fails_with(result, error) && after == before,
        Ok(region) => if !profiles::restore_may_begin(
            region.state,
            now_epoch_ms,
            PROFILE_RESTORE_STALE_MS,
        ) {
            result is Ok && after == before
        } else {
            exists|loaded: PwbResult<Vec<QueryProfileSnapshot>>, region2: RegionView|
                {
                    &&& call_ensures(S::load_profiles, (store, limit), loaded)
                    &&& #[trigger] transactions::profiles_loaded(
                        region,
                        now_epoch_ms,
                        loaded,
                        region2,
                        result,
                    )
                    &&& after == before.holding(region2)
                }
        },
    }
}

/// Whether handing over changed profiles to be stored turns `before` into `after`. It happens where it
/// is due, and then `stored` is what the store answered; the profiles count as stored where it did not
/// fail.
pub open spec fn profiles_persisted_if_due(
    before: SharedMemoryView,
    now_epoch_ms: EpochMillis,
    stored: Option<PwbResult<()>>,
    after: SharedMemoryView,
) -> bool {
    match before.access() {
        Ok(region) if profiles::persist_is_due(
            region.state,
            now_epoch_ms,
            PROFILE_PERSIST_INTERVAL_MS,
        ) => {
            &&& stored matches Some(answer) && after == before.holding(
                transactions::persisted(region, now_epoch_ms, answer is Ok),
            )
        },
        _ => stored is None && after == before,
    }
}

/// What a lookup finds in the shared region.
pub open spec fn found_profile(
    memory: SharedMemoryView,
    scope_hash: ScopeHash,
    query_id: QueryId,
) -> Result<Option<QueryWalProfile>, PwbErrorView> {
    match memory.access() {
        Err(error) => Err(error),
        Ok(region) => Ok(profiles::scoped_or_global(region.profiles, scope_hash, query_id)),
    }
}

/// Whether looking up the profile of a query may turn `before` into `after` and return `result`, where
/// `stored` is what the store answered if it was handed profiles. A query without an identity has no
/// profile.
pub open spec fn profile_looked_up<S: DurableCatalogStore>(
    store: &S,
    limit: usize,
    scope_hash: ScopeHash,
    query_id: Option<QueryId>,
    now_epoch_ms: EpochMillis,
    before: SharedMemoryView,
    stored: Option<PwbResult<()>>,
    after: SharedMemoryView,
    result: PwbResult<Option<QueryWalProfile>>,
) -> bool {
    match query_id {
        None => {
            &&& result == Ok::<Option<QueryWalProfile>, PwbError>(None)
            &&& stored is None
            &&& after == before
        },
        Some(query_id) => exists|loaded: SharedMemoryView, ensured: PwbResult<()>|
            {
                &&& #[trigger] profiles_ensured(
                    store,
                    limit,
                    now_epoch_ms,
                    before,
                    loaded,
                    ensured,
                )
                &&& match ensured {
                    Err(error) => {
                        &&& result == Err::<Option<QueryWalProfile>, PwbError>(error)
                        &&& stored is None
                        &&& after == loaded
                    },
                    Ok(_) => {
                        &&& errors::same_result(
                            result,
                            found_profile(loaded, scope_hash, query_id),
                        )
                        &&& profiles_persisted_if_due(loaded, now_epoch_ms, stored, after)
                    },
                }
            },
    }
}

pub fn ensure_profiles_loaded<S: DurableCatalogStore>(
    shmem: &mut SharedMemory,
    store: &S,
    settings: &GucSettings,
    now_epoch_ms: EpochMillis,
) -> (r: PwbResult<()>)
    requires
        old(shmem).wf(),
    ensures
        final(shmem).wf(),
        profiles_ensured(
            store,
            settings.capacity(settings.profile_cache_capacity) as usize,
            now_epoch_ms,
            old(shmem)@,
            final(shmem)@,
            r,
        ),
{
    let limit: usize = guc::profile_cache_capacity(settings);
    let load = || -> (r: PwbResult<Vec<QueryProfileSnapshot>>)
        ensures
            call_ensures(S::load_profiles, (store, limit), r),
    { profile_store::load_profiles_from(store, limit) };
    transactions::ensure_profiles_loaded(shmem, now_epoch_ms, PROFILE_RESTORE_STALE_MS, load)
}

pub fn maybe_persist_profiles<S: DurableCatalogStore>(
    shmem: &mut SharedMemory,
    store: &mut S,
    now_epoch_ms: EpochMillis,
) -> (r: PwbResult<()>)
    requires
        old(shmem).wf(),
    ensures
        final(shmem).wf(),
        match old(shmem)@.access() {
            Err(error) => {
                &&& errors::fails_with(r, error)
                &&& final(shmem)@ == old(shmem)@
                &&& *final(store) == *old(store)
            },
            Ok(region) => if !profiles::persist_is_due(
                region.state,
                now_epoch_ms,
                PROFILE_PERSIST_INTERVAL_MS,
            ) {
                &&& r is Ok
                &&& final(shmem)@ == old(shmem)@
                &&& *final(store) == *old(store)
            } else {
                &&& exists|s: &mut S, snapshots: &[QueryProfileSnapshot]|
                    {
                        &&& *s == *old(store)
                        &&& *final(s) == *final(store)
                        &&& profiles::snapshots_of(region.profiles) == Ok::<
                            Seq<QueryProfileSnapshot>,
                            PwbErrorView,
                        >(snapshots@)
                        &&& #[trigger] call_ensures(S::persist_profiles, (s, snapshots), r)
                    }
                &&& final(shmem)@ == old(shmem)@.holding(
                    transactions::persisted(region, now_epoch_ms, r is Ok),
                )
            },
        },
{
    transactions::persist_profiles_if_due(shmem, now_epoch_ms, PROFILE_PERSIST_INTERVAL_MS, store)
}

/// Whether these are the profiles that the shared region holds.
pub open spec fn profiles_held(
    memory: SharedMemoryView,
    snapshots: Seq<QueryProfileSnapshot>,
) -> bool {
    memory.access() matches Ok(region) && profiles::snapshots_of(region.profiles) == Ok::<
        Seq<QueryProfileSnapshot>,
        PwbErrorView,
    >(snapshots)
}

/// Looks up the profile that a prediction is made from. On the way, stored profiles are loaded where
/// that has not happened yet, and changed ones are stored where that is due.
pub fn lookup_prediction_profile<S: DurableCatalogStore>(
    shmem: &mut SharedMemory,
    store: &mut S,
    settings: &GucSettings,
    scope_hash: ScopeHash,
    query_id: Option<QueryId>,
    now_epoch_ms: EpochMillis,
) -> (r: PwbResult<Option<QueryWalProfile>>)
    requires
        old(shmem).wf(),
    ensures
        final(shmem).wf(),
        exists|stored: Option<PwbResult<()>>|
            {
                &&& #[trigger] profile_looked_up(
                    old(store),
                    settings.capacity(settings.profile_cache_capacity) as usize,
                    scope_hash,
                    query_id,
                    now_epoch_ms,
                    old(shmem)@,
                    stored,
                    final(shmem)@,
                    r,
                )
                &&& match stored {
                    None => *final(store) == *old(store),
                    Some(answer) => exists|s: &mut S, snapshots: &[QueryProfileSnapshot]|
                        {
                            &&& *s == *old(store)
                            &&& *final(s) == *final(store)
                            &&& profiles_held(final(shmem)@, snapshots@)
                            &&& #[trigger] call_ensures(S::persist_profiles, (s, snapshots), answer)
                        },
                }
            },
{
    let wanted: u64 = match query_id {
        Some(query_id) => query_id,
        None => {
            assert(profile_looked_up(
                old(store),
                settings.capacity(settings.profile_cache_capacity) as usize,
                scope_hash,
                query_id,
                now_epoch_ms,
                old(shmem)@,
                None,
                shmem@,
                Ok(None),
            ));
            return Ok(None);
        },
    };
    let ensured = ensure_profiles_loaded(shmem, store, settings, now_epoch_ms);
    let ghost loaded = shmem@;
    match ensured {
        Ok(()) => {},
        Err(error) => {
            assert(profile_looked_up(
                old(store),
                settings.capacity(settings.profile_cache_capacity) as usize,
                scope_hash,
                query_id,
                now_epoch_ms,
                old(shmem)@,
                None,
                shmem@,
                Err(error),
            ));
            return Err(error);
        },
    }
    let profile = match profiles::lookup_scoped_or_global_query_profile(shmem, scope_hash, wanted) {
        Ok(profile) => profile,
        Err(error) => {
            assert(profile_looked_up(
                old(store),
                settings.capacity(settings.profile_cache_capacity) as usize,
                scope_hash,
                query_id,
                now_epoch_ms,
                old(shmem)@,
                None,
                shmem@,
                Err(error),
            ));
            return Err(error);
        },
    };
    let answer = maybe_persist_profiles(shmem, store, now_epoch_ms);
    proof {
        let due = profiles::persist_is_due(
            loaded.access()->Ok_0.state,
            now_epoch_ms,
            PROFILE_PERSIST_INTERVAL_MS,
        );
        let stored = if due {
            Some(answer)
        } else {
            None
        };
        assert(profile_looked_up(
            old(store),
            settings.capacity(settings.profile_cache_capacity) as usize,
            scope_hash,
            query_id,
            now_epoch_ms,
            old(shmem)@,
            stored,
            shmem@,
            Ok(profile),
        ));
    }
    Ok(profile)
}

/// The profile that a lookup came to, where one that failed counts as none.
pub open spec fn usable(found: PwbResult<Option<QueryWalProfile>>) -> Option<QueryWalProfile> {
    match found {
        Ok(profile) => profile,
        Err(_) => None,
    }
}

/// Whether the WAL of a statement is predicted from its profile.
pub open spec fn wants_profile(
    settings: GucSettings,
    statement_class: StatementClass,
    query_id: Option<QueryId>,
) -> bool {
    &&& statement_class != StatementClass::ReadOnly
    &&& query_id is Some
    &&& settings.predictor == PredictorKind::ProfileEwma
}

/// Tells whether the WAL of a statement is predicted from its profile.
pub fn profile_wanted(
    settings: &GucSettings,
    statement_class: StatementClass,
    query_id: Option<QueryId>,
) -> (r: bool)
    ensures
        r == wants_profile(*settings, statement_class, query_id),
{
    statement_class != StatementClass::ReadOnly && query_id.is_some() && guc::predictor_kind(
        settings,
    ) == PredictorKind::ProfileEwma
}

/// Whether predicting the WAL of a statement may turn `before` into `after` and come to `prediction`,
/// where `stored` is what the store answered if it was handed profiles.
pub open spec fn prediction_made<S: DurableCatalogStore>(
    store: &S,
    settings: GucSettings,
    context: PredictionContext,
    now_epoch_ms: EpochMillis,
    before: SharedMemoryView,
    stored: Option<PwbResult<()>>,
    after: SharedMemoryView,
    prediction: WalBytes,
) -> bool {
    if !wants_profile(settings, context.statement_class, context.query_id) {
        &&& prediction == predict::predicted(settings, context.statement_class, None)
        &&& stored is None
        &&& after == before
    } else {
        exists|found: PwbResult<Option<QueryWalProfile>>|
            {
                &&& prediction == predict::predicted(
                    settings,
                    context.statement_class,
                    usable(found),
                )
                &&& #[trigger] profile_looked_up(
                    store,
                    settings.capacity(settings.profile_cache_capacity) as usize,
                    context.scope_hash,
                    context.query_id,
                    now_epoch_ms,
                    before,
                    stored,
                    after,
                    found,
                )
            }
    }
}

pub fn predict_context<S: DurableCatalogStore>(
    shmem: &mut SharedMemory,
    store: &mut S,
    settings: &GucSettings,
    context: &PredictionContext,
    now_epoch_ms: EpochMillis,
) -> (r: WalBytes)
    requires
        old(shmem).wf(),
    ensures
        final(shmem).wf(),
        exists|stored: Option<PwbResult<()>>|
            {
                &&& #[trigger] prediction_made(
                    old(store),
                    *settings,
                    *context,
                    now_epoch_ms,
                    old(shmem)@,
                    stored,
                    final(shmem)@,
                    r,
                )
                &&& match stored {
                    None => *final(store) == *old(store),
                    Some(answer) => exists|s: &mut S, snapshots: &[QueryProfileSnapshot]|
                        {
                            &&& *s == *old(store)
                            &&& *final(s) == *final(store)
                            &&& profiles_held(final(shmem)@, snapshots@)
                            &&& #[trigger] call_ensures(S::persist_profiles, (s, snapshots), answer)
                        },
                }
            },
{
    if !profile_wanted(settings, context.statement_class, context.query_id) {
        let prediction: u64 = predict::predict_wal_bytes(settings, context.statement_class, None);
        assert(prediction_made(
            old(store),
            *settings,
            *context,
            now_epoch_ms,
            old(shmem)@,
            None,
            shmem@,
            prediction,
        ));
        return prediction;
    }
    let found = lookup_prediction_profile(
        shmem,
        store,
        settings,
        context.scope_hash,
        context.query_id,
        now_epoch_ms,
    );
    let ghost outcome = found;
    let profile: Option<QueryWalProfile> = match found {
        Ok(profile) => profile,
        Err(_) => None,
    };
    let prediction: u64 = predict::predict_wal_bytes(settings, context.statement_class, profile);
    assert forall|stored: Option<PwbResult<()>>| #[trigger]
        profile_looked_up(
            old(store),
            settings.capacity(settings.profile_cache_capacity) as usize,
            context.scope_hash,
            context.query_id,
            now_epoch_ms,
            old(shmem)@,
            stored,
            shmem@,
            outcome,
        ) implies prediction_made(
        old(store),
        *settings,
        *context,
        now_epoch_ms,
        old(shmem)@,
        stored,
        shmem@,
        prediction,
    ) by {}
    prediction
}

/// Whether recording an observation may turn `before` into `after` and return `result`, once the stored
/// profiles were loaded.
pub open spec fn observation_recorded(
    settings: GucSettings,
    scope_hash: ScopeHash,
    query_id: QueryId,
    actual_wal_bytes: WalBytes,
    now_epoch_ms: EpochMillis,
    before: SharedMemoryView,
    after: SharedMemoryView,
    result: PwbResult<()>,
) -> bool {
    match (settings.ewma_weights(), before.access()) {
        (Err(error), _) => errors::fails_with(result, error) && after == before,
        (_, Err(error)) => errors::fails_with(result, error) && after == before,
        (Ok(weights), Ok(region)) => match profiles::observed_region(
            region,
            scope_hash,
            query_id,
            actual_wal_bytes,
            now_epoch_ms,
            weights,
        ) {
            Err(error) => errors::fails_with(result, error) && after == before,
            Ok(region2) => result is Ok && after == before.holding(region2),
        },
    }
}

pub fn record_query_observation<S: DurableCatalogStore>(
    shmem: &mut SharedMemory,
    store: &S,
    settings: &GucSettings,
    scope_hash: ScopeHash,
    query_id: QueryId,
    actual_wal_bytes: WalBytes,
    now_epoch_ms: EpochMillis,
) -> (r: PwbResult<()>)
    requires
        old(shmem).wf(),
    ensures
        final(shmem).wf(),
        exists|loaded: SharedMemoryView, ensured: PwbResult<()>|
            {
                &&& #[trigger] profiles_ensured(
                    store,
                    settings.capacity(settings.profile_cache_capacity) as usize,
                    now_epoch_ms,
                    old(shmem)@,
                    loaded,
                    ensured,
                )
                &&& match ensured {
                    Err(error) => r == Err::<(), PwbError>(error) && final(shmem)@ == loaded,
                    Ok(_) => observation_recorded(
                        *settings,
                        scope_hash,
                        query_id,
                        actual_wal_bytes,
                        now_epoch_ms,
                        loaded,
                        final(shmem)@,
                        r,
                    ),
                }
            },
{
    ensure_profiles_loaded(shmem, store, settings, now_epoch_ms)?;
    let ewma_weights = guc::profile_ewma_alpha_weights(settings)?;
    profiles::upsert_scoped_and_global_query_profiles(
        shmem,
        scope_hash,
        query_id,
        actual_wal_bytes,
        now_epoch_ms,
        ewma_weights,
    )
}

/// Whether the stored profiles have to be loaded.
pub open spec fn load_needed(memory: SharedMemoryView, now_epoch_ms: EpochMillis) -> bool {
    memory.access() matches Ok(region) && profiles::restore_may_begin(
        region.state,
        now_epoch_ms,
        PROFILE_RESTORE_STALE_MS,
    )
}

/// The memory once loading the stored profiles began, where they have to be loaded.
pub open spec fn load_begun(
    memory: SharedMemoryView,
    now_epoch_ms: EpochMillis,
) -> SharedMemoryView {
    match memory.access() {
        Ok(region) if load_needed(memory, now_epoch_ms) => memory.holding(
            region.with_state(profiles::restore_begun(region.state, now_epoch_ms)),
        ),
        _ => memory,
    }
}

/// Begins loading the stored profiles where that has not happened yet. Returns whether they have to be
/// loaded.
pub fn begin_profile_load(shmem: &mut SharedMemory, now_epoch_ms: EpochMillis) -> (r: PwbResult<bool>)
    requires
        old(shmem).wf(),
    ensures
        final(shmem).wf(),
        final(shmem)@ == load_begun(old(shmem)@, now_epoch_ms),
        match old(shmem)@.access() {
            Err(error) => errors::fails_with(r, error),
            Ok(_) => r == Ok::<bool, PwbError>(load_needed(old(shmem)@, now_epoch_ms)),
        },
{
    profiles::begin_profile_restore(shmem, now_epoch_ms, PROFILE_RESTORE_STALE_MS)
}

/// Whether ending a load that gave `loaded` may turn `before` into `after` and return `result`. Where
/// nothing had to be loaded nothing changes.
pub open spec fn load_settled(
    before: SharedMemoryView,
    loaded: Option<PwbResult<Vec<QueryProfileSnapshot>>>,
    after: SharedMemoryView,
    result: PwbResult<()>,
) -> bool {
    match (loaded, before.access()) {
        (None, _) => result is Ok && after == before,
        (_, Err(error)) => errors::fails_with(result, error) && after == before,
        (Some(loaded), Ok(region)) => exists|region2: RegionView|
            {
                &&& #[trigger] transactions::restore_settled(region, loaded, region2, result)
                &&& after == before.holding(region2)
            },
    }
}

/// The profiles that a flush hands to the store, once `loaded` was loaded where that had to happen.
pub fn plan_profile_flush(
    shmem: &mut SharedMemory,
    loaded: Option<PwbResult<Vec<QueryProfileSnapshot>>>,
    now_epoch_ms: EpochMillis,
) -> (r: PwbResult<Vec<QueryProfileSnapshot>>)
    requires
        old(shmem).wf(),
    ensures
        final(shmem).wf(),
        exists|settled: SharedMemoryView, result: PwbResult<()>|
            {
                &&& #[trigger] load_settled(old(shmem)@, loaded, settled, result)
                &&& match (result, settled.access()) {
                    (Err(error), _) => {
                        &&& r == Err::<Vec<QueryProfileSnapshot>, PwbError>(error)
                        &&& final(shmem)@ == settled
                    },
                    (_, Err(error)) => errors::fails_with(r, error) && final(shmem)@ == settled,
                    (Ok(_), Ok(region)) => {
                        &&& r matches Ok(snapshots) && profiles::snapshots_of(region.profiles)
                            == Ok::<Seq<QueryProfileSnapshot>, PwbErrorView>(snapshots@)
                        &&& final(shmem)@ == settled.holding(
                            region.with_state(
                                profiles::persist_attempted(region.state, now_epoch_ms),
                            ),
                        )
                    },
                }
            },
{
    let ghost had = loaded;
    let result = match loaded {
        Some(loaded) => transactions::settle_profile_restore(shmem, loaded),
        None => Ok(()),
    };
    assert(load_settled(old(shmem)@, had, shmem@, result));
    result?;
    profiles::snapshot_profiles_for_persist(shmem, now_epoch_ms)
}

pub fn flush_profiles<S: DurableCatalogStore>(
    shmem: &mut SharedMemory,
    store: &mut S,
    settings: &GucSettings,
    now_epoch_ms: EpochMillis,
) -> (r: PwbResult<()>)
    requires
        old(shmem).wf(),
    ensures
        final(shmem).wf(),
        exists|loaded: SharedMemoryView, ensured: PwbResult<()>|
            {
                &&& #[trigger] profiles_ensured(
                    old(store),
                    settings.capacity(settings.profile_cache_capacity) as usize,
                    now_epoch_ms,
                    old(shmem)@,
                    loaded,
                    ensured,
                )
                &&& match (ensured, loaded.access()) {
                    (Err(error), _) => {
                        &&& r == Err::<(), PwbError>(error)
                        &&& final(shmem)@ == loaded
                        &&& *final(store) == *old(store)
                    },
                    (_, Err(error)) => {
                        &&& errors::fails_with(r, error)
                        &&& final(shmem)@ == loaded
                        &&& *final(store) == *old(store)
                    },
                    (Ok(_), Ok(region)) => {
                        &&& exists|s: &mut S, snapshots: &[QueryProfileSnapshot]|
                            {
                                &&& *s == *old(store)
                                &&& *final(s) == *final(store)
                                &&& profiles::snapshots_of(region.profiles) == Ok::<
                                    Seq<QueryProfileSnapshot>,
                                    PwbErrorView,
                                >(snapshots@)
                                &&& #[trigger] call_ensures(S::persist_profiles, (s, snapshots), r)
                            }
                        &&& final(shmem)@ == loaded.holding(
                            transactions::persisted(region, now_epoch_ms, r is Ok),
                        )
                    },
                }
            },
{
    ensure_profiles_loaded(shmem, store, settings, now_epoch_ms)?;
    transactions::persist_profiles_now(shmem, now_epoch_ms, store)
}

/// Loading the stored profiles in steps comes to what loading them at once may come to: the load is
/// begun, the store is asked where that is needed, and the load is settled with its answer.
pub proof fn law_loading_in_steps<S: DurableCatalogStore>(
    store: &S,
    limit: usize,
    now_epoch_ms: EpochMillis,
    before: SharedMemoryView,
    loaded: Option<PwbResult<Vec<QueryProfileSnapshot>>>,
    after: SharedMemoryView,
    result: PwbResult<()>,
)
    requires
        before.access() is Ok,
        loaded is Some == load_needed(before, now_epoch_ms),
        loaded matches Some(answer) ==> call_ensures(S::load_profiles, (store, limit), answer),
        load_settled(load_begun(before, now_epoch_ms), loaded, after, result),
    ensures
        profiles_ensured(store, limit, now_epoch_ms, before, after, result),
{
    if let (Some(answer), Ok(region)) = (loaded, before.access()) {
        let begun = load_begun(before, now_epoch_ms);
        let region2 = choose|region2: RegionView|
            {
                &&& #[trigger] transactions::restore_settled(
                    begun.access()->Ok_0,
                    answer,
                    region2,
                    result,
                )
                &&& after == begun.holding(region2)
            };
        assert(transactions::profiles_loaded(region, now_epoch_ms, answer, region2, result));
    }
}

/// Making sure that the stored profiles were loaded changes nothing but the profiles and their upkeep.
pub proof fn lemma_loading_changes_profiles_only<S: DurableCatalogStore>(
    store: &S,
    limit: usize,
    now_epoch_ms: EpochMillis,
    before: SharedMemoryView,
    after: SharedMemoryView,
    result: PwbResult<()>,
)
    requires
        profiles_ensured(store, limit, now_epoch_ms, before, after, result),
        before.access() matches Ok(region) && region.wf(),
    ensures
        after.access() matches Ok(region2) && {
            let region = before.access()->Ok_0;
            &&& region2.budget_buckets == region.budget_buckets
            &&& region2.recent_decisions == region.recent_decisions
            &&& region2.scope_names == region.scope_names
            &&& region2.state == (PwbSharedState {
                profiles_len: region2.state.profiles_len,
                profile_restore_state: region2.state.profile_restore_state,
                profile_restore_started_epoch_ms: region2.state.profile_restore_started_epoch_ms,
                ..region.state
            })
            &&& profiles::profiles_wf(region2.state, region2.profiles)
        },
{
    let region = before.access()->Ok_0;
    if profiles::restore_may_begin(region.state, now_epoch_ms, PROFILE_RESTORE_STALE_MS) {
        let (loaded, region2) = choose|
            loaded: PwbResult<Vec<QueryProfileSnapshot>>,
            region2: RegionView,
        |
            {
                &&& call_ensures(S::load_profiles, (store, limit), loaded)
                &&& #[trigger] transactions::profiles_loaded(
                    region,
                    now_epoch_ms,
                    loaded,
                    region2,
                    result,
                )
                &&& after == before.holding(region2)
            };
        let begun = region.with_state(profiles::restore_begun(region.state, now_epoch_ms));
        if let Ok(snapshots) = loaded {
            profiles::law_restore_keeps_order(begun.state, begun.profiles, snapshots@);
        }
    }
}

/// A profile is wanted for statements that may write, of queries that have an identity, where the settings
/// predict by profiles; and for no others.
pub proof fn law_profiles_are_wanted_for_known_writes(
    settings: GucSettings,
    statement_class: StatementClass,
    query_id: Option<QueryId>,
)
    ensures
        wants_profile(settings, statement_class, query_id) <==> statement_class
            != StatementClass::ReadOnly && query_id is Some && settings.predictor
            == PredictorKind::ProfileEwma,
{
}

/// Once the stored profiles are loaded, a statement that may write and whose query has an identity is
/// predicted by the mean of its query in its scope or, without that profile, by the global mean, cut off
/// at the largest prediction; where neither is there, by its class. Predicting leaves the profiles as they
/// are, and stores them exactly where some have changed and a minute has passed.
pub proof fn law_prediction_comes_from_the_profile_of_the_scope<S: DurableCatalogStore>(
    store: &S,
    settings: GucSettings,
    context: PredictionContext,
    query_id: QueryId,
    now_epoch_ms: EpochMillis,
    before: SharedMemoryView,
    stored: Option<PwbResult<()>>,
    after: SharedMemoryView,
    prediction: WalBytes,
)
    requires
        prediction_made(
            store,
            settings,
            context,
            now_epoch_ms,
            before,
            stored,
            after,
            prediction,
        ),
        before.access() matches Ok(region) && region.state.profile_restore_state == 2,
        context.statement_class != StatementClass::ReadOnly,
        context.query_id == Some(query_id),
        settings.predictor == PredictorKind::ProfileEwma,
        settings.max_prediction_bytes >= 0,
    ensures
        ({
            let region = before.access()->Ok_0;
            let scoped = profiles::profile_at(
                region.profiles,
                Some(context.scope_hash),
                query_id,
            );
            let global = profiles::profile_at(region.profiles, None, query_id);
            let found = if scoped is Some {
                scoped
            } else {
                global
            };
            &&& found matches Some(profile) ==> prediction == if profile.ewma_wal_bytes
                <= settings.max_prediction_bytes {
                profile.ewma_wal_bytes as int
            } else {
                settings.max_prediction_bytes as int
            }
            &&& found is None ==> prediction == predict::predicted(
                settings,
                context.statement_class,
                None,
            )
            &&& stored is Some <==> region.state.profile_dirty_count > 0 && now_epoch_ms
                - region.state.last_profile_persist_epoch_ms >= 60_000
            &&& after.access() matches Ok(region2) && region2.profiles == region.profiles
                && region2.budget_buckets == region.budget_buckets
            &&& stored matches Some(answer) ==> (after.access() matches Ok(region2)
                && region2.state.last_profile_persist_epoch_ms == now_epoch_ms
                && region2.state.profile_dirty_count == if answer is Ok {
                0
            } else {
                region.state.profile_dirty_count
            })
            &&& stored is None ==> after == before
        }),
{
    predict::law_prediction_is_the_learned_mean(
        settings,
        context.statement_class,
        QueryWalProfile { calls: 0, ewma_wal_bytes: 0, max_wal_bytes: 0, last_seen_epoch_ms: 0 },
        QueryWalProfile { calls: 0, ewma_wal_bytes: 0, max_wal_bytes: 0, last_seen_epoch_ms: 0 },
    );
}

/// A statement for which no profile is wanted is predicted by its class, zero where it only reads, and
/// nothing changes.
pub proof fn law_other_statements_are_predicted_by_class<S: DurableCatalogStore>(
    store: &S,
    settings: GucSettings,
    context: PredictionContext,
    now_epoch_ms: EpochMillis,
    before: SharedMemoryView,
    stored: Option<PwbResult<()>>,
    after: SharedMemoryView,
    prediction: WalBytes,
)
    requires
        prediction_made(
            store,
            settings,
            context,
            now_epoch_ms,
            before,
            stored,
            after,
            prediction,
        ),
        context.statement_class == StatementClass::ReadOnly || context.query_id is None
            || settings.predictor == PredictorKind::StatementClassFallback,
    ensures
        after == before,
        stored is None,
        context.statement_class == StatementClass::ReadOnly ==> prediction == 0,
        context.statement_class == StatementClass::Write && 0 <= settings.default_write_wal_bytes
            <= settings.max_prediction_bytes ==> prediction == settings.default_write_wal_bytes,
        context.statement_class != StatementClass::Write && context.statement_class
            != StatementClass::ReadOnly && 0 <= settings.default_utility_wal_bytes
            <= settings.max_prediction_bytes ==> prediction == settings.default_utility_wal_bytes,
{
}

/// The stored profiles are asked for where no restore was tried or the last one failed, and never once they
/// are loaded; a restore under way is given a minute. What the store answers decides: its profiles are
/// put back, or its error is returned and the restore can be tried again.
pub proof fn law_profiles_are_loaded_once<S: DurableCatalogStore>(
    store: &S,
    limit: usize,
    now_epoch_ms: EpochMillis,
    before: SharedMemoryView,
    after: SharedMemoryView,
    result: PwbResult<()>,
)
    requires
        profiles_ensured(store, limit, now_epoch_ms, before, after, result),
        before.access() is Ok,
    ensures
        ({
            let state = before.access()->Ok_0.state;
            let restored = state.profile_restore_state;
            let ask = restored == 0 || restored == 3 || (restored == 1 && now_epoch_ms
                - state.profile_restore_started_epoch_ms >= 60_000);
            &&& !ask ==> result is Ok && after == before
            &&& ask ==> exists|loaded: PwbResult<Vec<QueryProfileSnapshot>>|
                {
                    &&& #[trigger] call_ensures(S::load_profiles, (store, limit), loaded)
                    &&& after.access() matches Ok(region2) && match loaded {
                        Err(error) => {
                            &&& result == Err::<(), PwbError>(error)
                            &&& region2.profiles == before.access()->Ok_0.profiles
                            &&& region2.state.profile_restore_state == 3
                        },
                        Ok(snapshots) => result is Ok ==> region2.state.profile_restore_state == 2
                            && region2.profiles == profiles::restored_all(
                            state,
                            before.access()->Ok_0.profiles,
                            snapshots@,
                        )->Ok_0.1,
                    }
                }
        }),
{
    let region = before.access()->Ok_0;
    if profiles::restore_may_begin(region.state, now_epoch_ms, PROFILE_RESTORE_STALE_MS) {
        let (loaded, region2) = choose|
            loaded: PwbResult<Vec<QueryProfileSnapshot>>,
            region2: RegionView,
        |
            {
                &&& call_ensures(S::load_profiles, (store, limit), loaded)
                &&& #[trigger] transactions::profiles_loaded(
                    region,
                    now_epoch_ms,
                    loaded,
                    region2,
                    result,
                )
                &&& after == before.holding(region2)
            };
        let begun = region.with_state(profiles::restore_begun(region.state, now_epoch_ms));
        if let Ok(snapshots) = loaded {
            profiles::lemma_restored_all_ignores_upkeep(
                begun.state,
                region.state,
                region.profiles,
                snapshots@,
            );
        }
        assert(call_ensures(S::load_profiles, (store, limit), loaded));
    }
}

/// Without a region a statement is predicted by its class, and the failing lookup fails nothing else.
pub proof fn law_prediction_does_without_a_region<S: DurableCatalogStore>(
    store: &S,
    settings: GucSettings,
    context: PredictionContext,
    now_epoch_ms: EpochMillis,
    before: SharedMemoryView,
    stored: Option<PwbResult<()>>,
    after: SharedMemoryView,
    prediction: WalBytes,
)
    requires
        prediction_made(
            store,
            settings,
            context,
            now_epoch_ms,
            before,
            stored,
            after,
            prediction,
        ),
        before.access() is Err,
    ensures
        after == before,
        stored is None,
        context.statement_class == StatementClass::ReadOnly ==> prediction == 0,
        context.statement_class == StatementClass::Write && 0 <= settings.default_write_wal_bytes
            <= settings.max_prediction_bytes ==> prediction == settings.default_write_wal_bytes,
        context.statement_class != StatementClass::Write && context.statement_class
            != StatementClass::ReadOnly && 0 <= settings.default_utility_wal_bytes
            <= settings.max_prediction_bytes ==> prediction == settings.default_utility_wal_bytes,
{
}

} // verus!
