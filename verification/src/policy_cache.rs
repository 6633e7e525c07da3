//! The policies that a backend has at hand, and the one that a statement falls under.

use vstd::prelude::*;

use crate::budget::EffectivePolicy;
use crate::catalog::{DurableCatalogStore, DurablePolicyRow, DurablePolicyRowView};
use crate::errors;
use crate::errors::{internal_error, PwbErrorView, PwbResult};
use crate::policy;
use crate::policy::{normalize_scope_value, validate_policy_budget_update};
use crate::seqs;
use crate::text;
use crate::types;
use crate::types::{BudgetMode, EpochMillis, ScopeKey, ScopeKeyView, ScopeKind};

verus! {

pub const POLICY_CACHE_REFRESH_INTERVAL_MS: EpochMillis = 1000;

/// A policy and the scopes that it covers: those of a kind, or of these the one with a value.
#[derive(Debug, Clone, PartialEq, Eq)]
pub struct CachedEffectivePolicy {
    pub scope_kind: ScopeKind,
    pub scope_value: Option<String>,
    pub policy: EffectivePolicy,
}

/// A cached policy with its scope value as a character sequence.
pub struct CachedPolicyView {
    pub scope_kind: ScopeKind,
    pub scope_value: Option<Seq<char>>,
    pub policy: EffectivePolicy,
}

impl View for CachedEffectivePolicy {
    type V = CachedPolicyView;

    open spec fn view(&self) -> CachedPolicyView {
        CachedPolicyView {
            scope_kind: self.scope_kind,
            scope_value: types::opt_chars(self.scope_value),
            policy: self.policy,
        }
    }
}

/// The policies in the order in which they are matched, and when they were loaded.
#[derive(Debug, Clone, PartialEq, Eq)]
pub struct PolicyCache {
    pub refreshed_epoch_ms: EpochMillis,
    pub policies: Vec<CachedEffectivePolicy>,
}

/// The views of a sequence of policies.
pub open spec fn policy_views(policies: Seq<CachedEffectivePolicy>) -> Seq<CachedPolicyView> {
    Seq::new(policies.len(), |i: int| policies[i]@)
}

impl CachedPolicyView {
    /// Whether the policy covers a scope.
    pub open spec fn covers(self, scope: ScopeKeyView) -> bool {
        &&& self.scope_kind == scope.kind
        &&& self.scope_value is None || self.scope_value == scope.debug_value
    }
}

pub open spec fn covers_scope(scope: ScopeKeyView) -> spec_fn(CachedPolicyView) -> bool {
    |policy: CachedPolicyView| policy.covers(scope)
}

/// The policy that a scope falls under: the first that covers it.
pub open spec fn effective(policies: Seq<CachedPolicyView>, scope: ScopeKeyView) -> Option<
    EffectivePolicy,
> {
    match seqs::first_where(policies, covers_scope(scope)) {
        Some(i) => Some(policies[i].policy),
        None => None,
    }
}

/// The policy in a stored row, or the error of its first part that is not valid: the budget, the scope
/// kind, then the mode.
pub open spec fn cached(row: DurablePolicyRowView) -> Result<CachedPolicyView, PwbErrorView> {
    match (
        policy::valid_budget(row.wal_rate_bytes_per_sec, row.wal_burst_bytes),
        ScopeKind::parsed(row.scope_kind),
        BudgetMode::parsed(row.mode),
    ) {
        (Err(error), _, _) => Err(error),
        (_, Err(error), _) => Err(error),
        (_, _, Err(error)) => Err(error),
        (Ok(budget), Ok(scope_kind), Ok(mode)) => Ok(
            CachedPolicyView {
                scope_kind,
                scope_value: policy::normalized(row.scope_value),
                policy: EffectivePolicy {
                    policy_id: row.policy_id,
                    enabled: row.enabled,
                    mode,
                    wal_rate_bytes_per_sec: budget.wal_rate_bytes_per_sec,
                    wal_burst_bytes: budget.wal_burst_bytes,
                },
            },
        ),
    }
}

pub open spec fn to_cached() -> spec_fn(DurablePolicyRow) -> Result<
    CachedPolicyView,
    PwbErrorView,
> {
    |row: DurablePolicyRow| cached(row@)
}

/// The policies in stored rows, in their order, or the first error among them.
pub open spec fn all_cached(rows: Seq<DurablePolicyRow>) -> Result<
    Seq<CachedPolicyView>,
    PwbErrorView,
> {
    seqs::all_ok(rows.map_values(to_cached()))
}

fn cache_policy_row(row: &DurablePolicyRow) -> (r: PwbResult<CachedEffectivePolicy>)
    ensures
        match cached(row@) {
            Ok(policy) => r matches Ok(p) && p@ == policy,
            Err(error) => errors::fails_with(r, error),
        },
{
    let budget = validate_policy_budget_update(row.wal_rate_bytes_per_sec, row.wal_burst_bytes)?;
    let scope_kind = ScopeKind::parse_sql(row.scope_kind.as_str())?;
    let scope_value = match &row.scope_value {
        Some(value) => normalize_scope_value(Some(value.as_str())),
        None => None,
    };
    let mode = BudgetMode::parse_sql(row.mode.as_str())?;
    Ok(
        CachedEffectivePolicy {
            scope_kind,
            scope_value,
            policy: EffectivePolicy {
                policy_id: row.policy_id,
                enabled: row.enabled,
                mode,
                wal_rate_bytes_per_sec: budget.wal_rate_bytes_per_sec,
                wal_burst_bytes: budget.wal_burst_bytes,
            },
        },
    )
}

pub fn load_policy_rows(rows: Vec<DurablePolicyRow>) -> (r: PwbResult<Vec<CachedEffectivePolicy>>)
    ensures
        match all_cached(rows@) {
            Ok(policies) => r matches Ok(p) && policy_views(p@) == policies,
            Err(error) => errors::fails_with(r, error),
        },
{
    let ghost results = rows@.map_values(to_cached());
    let mut policies: Vec<CachedEffectivePolicy> = Vec::new();
    let mut i: usize = 0;
    assert(results.take(0) =~= Seq::empty());
    assert(policy_views(policies@) =~= Seq::empty());
    while i < rows.len()
        invariant
            i <= rows@.len(),
            results == rows@.map_values(to_cached()),
            seqs::all_ok(results.take(i as int)) == Ok::<Seq<CachedPolicyView>, PwbErrorView>(
                policy_views(policies@),
            ),
        decreases rows@.len() - i,
    {
        proof {
            seqs::lemma_all_ok_step(results, i as int);
        }
        let ghost before = policies@;
        match cache_policy_row(&rows[i]) {
            Ok(policy) => {
                policies.push(policy);
                assert(policy_views(policies@) =~= policy_views(before).push(policy@));
            },
            Err(error) => {
                proof {
                    seqs::lemma_all_ok_keeps_error(results, i + 1);
                }
                return Err(error);
            },
        }
        i += 1;
    }
    assert(results.take(i as int) =~= results);
    Ok(policies)
}

/// Whether loading the policies may come to `result`.
pub open spec fn cache_loaded<S: DurableCatalogStore>(
    store: &S,
    now_epoch_ms: EpochMillis,
    result: PwbResult<PolicyCache>,
) -> bool {
    exists|rows: PwbResult<Vec<DurablePolicyRow>>|
        {
            &&& #[trigger] call_ensures(S::load_enabled_policy_rows, (store,), rows)
            &&& match rows {
                Err(error) => result == Err::<PolicyCache, errors::PwbError>(error),
                Ok(rows) => match all_cached(rows@) {
                    Err(error) => errors::fails_with(result, error),
                    Ok(policies) => result matches Ok(cache) && cache.refreshed_epoch_ms
                        == now_epoch_ms && policy_views(cache.policies@) == policies,
                },
            }
        }
}

pub fn load_policy_cache_from<S: DurableCatalogStore>(store: &S, now_epoch_ms: EpochMillis) -> (r:
    PwbResult<PolicyCache>)
    ensures
        cache_loaded(store, now_epoch_ms, r),
{
    let rows = store.load_enabled_policy_rows()?;
    let policies = load_policy_rows(rows)?;
    Ok(PolicyCache { refreshed_epoch_ms: now_epoch_ms, policies })
}

/// Whether a cache is so old that its policies have to be loaded again.
pub open spec fn is_stale(cache: PolicyCache, now_epoch_ms: EpochMillis) -> bool {
    now_epoch_ms - cache.refreshed_epoch_ms >= POLICY_CACHE_REFRESH_INTERVAL_MS
}

pub fn cache_is_stale(cache: &PolicyCache, now_epoch_ms: EpochMillis) -> (r: bool)
    ensures
        r == is_stale(*cache, now_epoch_ms),
{
    now_epoch_ms.saturating_sub(cache.refreshed_epoch_ms) >= POLICY_CACHE_REFRESH_INTERVAL_MS
}

pub fn policy_matches_scope(policy: &CachedEffectivePolicy, scope: &ScopeKey) -> (r: bool)
    ensures
        r == policy@.covers(scope@),
{
    if policy.scope_kind != scope.kind {
        return false;
    }
    match (&policy.scope_value, &scope.debug_value) {
        (None, _) => true,
        (Some(policy_scope), Some(value)) => text::str_eq(policy_scope.as_str(), value.as_str()),
        (Some(_), None) => false,
    }
}

pub fn find_effective_policy(cache: &PolicyCache, scope: &ScopeKey) -> (r: Option<EffectivePolicy>)
    ensures
        r == effective(policy_views(cache.policies@), scope@),
{
    let ghost views = policy_views(cache.policies@);
    let ghost p = covers_scope(scope@);
    let mut i: usize = 0;
    while i < cache.policies.len()
        invariant
            i <= cache.policies@.len(),
            views == policy_views(cache.policies@),
            p == covers_scope(scope@),
            forall|j: int| 0 <= j < i ==> !p(#[trigger] views[j]),
        decreases cache.policies@.len() - i,
    {
        if policy_matches_scope(&cache.policies[i], scope) {
            proof {
                seqs::lemma_first_where_is_unique(views, p, Some(i as int));
            }
            return Some(cache.policies[i].policy);
        }
        i += 1;
    }
    proof {
        seqs::lemma_first_where_is_unique(views, p, None);
    }
    None
}

pub fn invalidate_backend_policy_cache(cache: &mut Option<PolicyCache>)
    ensures
        *final(cache) is None,
{
    *cache = None;
}

/// Finds the policy that a scope falls under, in policies that are loaded again where those at hand are
/// missing or stale.
pub fn effective_policy_for_scope<S: DurableCatalogStore>(
    cache: &mut Option<PolicyCache>,
    store: &S,
    scope: &ScopeKey,
    now_epoch_ms: EpochMillis,
) -> (r: PwbResult<Option<EffectivePolicy>>)
    ensures
        if *old(cache) is Some && !is_stale((*old(cache))->0, now_epoch_ms) {
            &&& *final(cache) == *old(cache)
            &&& r == Ok::<Option<EffectivePolicy>, errors::PwbError>(
                effective(policy_views((*old(cache))->0.policies@), scope@),
            )
        } else {
            exists|loaded: PwbResult<PolicyCache>|
                {
                    &&& #[trigger] cache_loaded(store, now_epoch_ms, loaded)
                    &&& match loaded {
                        Err(error) => {
                            &&& r == Err::<Option<EffectivePolicy>, errors::PwbError>(error)
                            &&& *final(cache) == *old(cache)
                        },
                        Ok(fresh) => {
                            &&& *final(cache) == Some(fresh)
                            &&& r == Ok::<Option<EffectivePolicy>, errors::PwbError>(
                                effective(policy_views(fresh.policies@), scope@),
                            )
                        },
                    }
                }
        },
{
    let should_reload: bool = match cache {
        Some(cache) => cache_is_stale(cache, now_epoch_ms),
        None => true,
    };
    if should_reload {
        let loaded = load_policy_cache_from(store, now_epoch_ms)?;
        let policy = find_effective_policy(&loaded, scope);
        *cache = Some(loaded);
        return Ok(policy);
    }
    match cache {
        Some(cache) => Ok(find_effective_policy(cache, scope)),
        None => Err(internal_error("policy cache was not initialized".to_owned())),
    }
}

/// Every policy that was loaded has a positive rate that does not exceed its burst.
pub proof fn law_cached_policies_have_budgets(rows: Seq<DurablePolicyRow>)
    ensures
        all_cached(rows) matches Ok(policies) ==> policies.len() == rows.len() && forall|i: int|
            0 <= i < policies.len() ==> 0 < (#[trigger] policies[i]).policy.wal_rate_bytes_per_sec
                <= policies[i].policy.wal_burst_bytes,
    decreases rows.len(),
{
    let results = rows.map_values(to_cached());
    if rows.len() > 0 {
        law_cached_policies_have_budgets(rows.drop_last());
        assert(results.drop_last() =~= rows.drop_last().map_values(to_cached()));
        assert(results.last() == cached(rows.last()@));
    }
}

/// Of the policies that cover a scope the one that stands first decides, whatever comes behind it: a
/// policy of that very value in front of one of the whole kind wins over it.
pub proof fn law_first_covering_policy_decides(
    policies: Seq<CachedPolicyView>,
    scope: ScopeKeyView,
    i: int,
)
    requires
        0 <= i < policies.len(),
        policies[i].covers(scope),
        forall|j: int| 0 <= j < i ==> !(#[trigger] policies[j]).covers(scope),
    ensures
        effective(policies, scope) == Some(policies[i].policy),
{
    let p = covers_scope(scope);
    assert forall|j: int| 0 <= j < i implies !p(#[trigger] policies[j]) by {
        assert(!policies[j].covers(scope));
    }
    seqs::lemma_first_where_is_unique(policies, p, Some(i));
}

/// A stored policy is taken over as it is: the kind and the mode that its texts name, its value without the
/// white space around it, its budget, and whether it is enabled. It covers the scopes of its kind, all of
/// them without a value, else those of that value.
pub proof fn law_stored_policies_are_taken_over(row: DurablePolicyRowView, scope: ScopeKeyView)
    ensures
        cached(row) is Ok <==> 0 < row.wal_rate_bytes_per_sec <= row.wal_burst_bytes
            && ScopeKind::parsed(row.scope_kind) is Ok && BudgetMode::parsed(row.mode) is Ok,
        cached(row) matches Ok(policy) ==> {
            &&& ScopeKind::parsed(row.scope_kind) == Ok::<ScopeKind, PwbErrorView>(
                policy.scope_kind,
            )
            &&& BudgetMode::parsed(row.mode) == Ok::<BudgetMode, PwbErrorView>(policy.policy.mode)
            &&& policy.policy.policy_id == row.policy_id
            &&& policy.policy.enabled == row.enabled
            &&& policy.policy.wal_rate_bytes_per_sec == row.wal_rate_bytes_per_sec
            &&& policy.policy.wal_burst_bytes == row.wal_burst_bytes
            &&& row.scope_value is None ==> policy.scope_value is None
            &&& row.scope_value matches Some(value) ==> policy.scope_value
                == if text::trimmed(value).len() == 0 {
                None::<Seq<char>>
            } else {
                Some(text::trimmed(value))
            }
            &&& policy.covers(scope) <==> policy.scope_kind == scope.kind && (policy.scope_value
                is None || scope.debug_value is Some && policy.scope_value->0
                == scope.debug_value->0)
        },
{
}

/// Policies at hand are kept for less than a second; a clock that went back does not age them.
pub proof fn law_policies_age_in_a_second(cache: PolicyCache, now_epoch_ms: EpochMillis)
    ensures
        is_stale(cache, now_epoch_ms) <==> now_epoch_ms >= cache.refreshed_epoch_ms + 1000,
{
}

} // verus!
