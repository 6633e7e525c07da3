//! Policies: what makes one valid, and how one is changed.

use vstd::prelude::*;

use crate::errors;
use crate::errors::{internal_error, PwbError, PwbErrorView, PwbResult};
use crate::policy_cache::{invalidate_backend_policy_cache, PolicyCache};
use crate::text;
use crate::types;
use crate::types::{BudgetMode, PolicyId, ScopeKind, WalBytes};

verus! {

/// A valid policy.
#[derive(Debug, Clone, PartialEq, Eq)]
pub struct PolicyDefinition {
    pub enabled: bool,
    pub mode: BudgetMode,
    pub scope_kind: ScopeKind,
    pub scope_value: Option<String>,
    pub wal_rate_bytes_per_sec: WalBytes,
    pub wal_burst_bytes: WalBytes,
    pub priority: i32,
}

/// A policy with its scope value as a character sequence.
pub struct PolicyDefinitionView {
    pub enabled: bool,
    pub mode: BudgetMode,
    pub scope_kind: ScopeKind,
    pub scope_value: Option<Seq<char>>,
    pub wal_rate_bytes_per_sec: WalBytes,
    pub wal_burst_bytes: WalBytes,
    pub priority: i32,
}

impl View for PolicyDefinition {
    type V = PolicyDefinitionView;

    open spec fn view(&self) -> PolicyDefinitionView {
        PolicyDefinitionView {
            enabled: self.enabled,
            mode: self.mode,
            scope_kind: self.scope_kind,
            scope_value: types::opt_chars(self.scope_value),
            wal_rate_bytes_per_sec: self.wal_rate_bytes_per_sec,
            wal_burst_bytes: self.wal_burst_bytes,
            priority: self.priority,
        }
    }
}

/// The budget of a valid policy.
#[derive(Debug, Clone, Copy, PartialEq, Eq)]
pub struct PolicyBudgetUpdate {
    pub wal_rate_bytes_per_sec: WalBytes,
    pub wal_burst_bytes: WalBytes,
}

/// The error for a policy value that is out of range.
pub open spec fn invalid_value(field: Seq<char>, value: Seq<char>, reason: Seq<char>) -> PwbErrorView {
    PwbErrorView::InvalidPolicyValue { field, value, reason }
}

/// A number of WAL bytes in a policy, which must be positive.
pub open spec fn positive(field: Seq<char>, value: i64) -> Result<WalBytes, PwbErrorView> {
    if value <= 0 {
        Err(
            invalid_value(
                field,
                text::signed_decimal(value as int),
                "must be greater than zero"@,
            ),
        )
    } else {
        Ok(value as u64)
    }
}

/// The budget that a rate and a burst make: both positive, and the burst not below the rate.
pub open spec fn valid_budget(rate: i64, burst: i64) -> Result<PolicyBudgetUpdate, PwbErrorView> {
    match (
        positive("wal_rate_bytes_per_sec"@, rate),
        positive("wal_burst_bytes"@, burst),
    ) {
        (Err(error), _) => Err(error),
        (_, Err(error)) => Err(error),
        (Ok(rate), Ok(burst)) => if burst < rate {
            Err(
                invalid_value(
                    "wal_burst_bytes"@,
                    text::decimal(burst as nat),
                    "must be greater than or equal to wal_rate_bytes_per_sec"@,
                ),
            )
        } else {
            Ok(PolicyBudgetUpdate { wal_rate_bytes_per_sec: rate, wal_burst_bytes: burst })
        },
    }
}

/// A scope value without the white space around it; an empty one is none.
pub open spec fn normalized(scope_value: Option<Seq<char>>) -> Option<Seq<char>> {
    match scope_value {
        Some(value) => if text::trimmed(value).len() == 0 {
            None
        } else {
            Some(text::trimmed(value))
        },
        None => None,
    }
}

/// The characters of an optional text.
pub open spec fn opt_text(value: Option<&str>) -> Option<Seq<char>> {
    match value {
        Some(value) => Some(value@),
        None => None,
    }
}

/// The policy that its parts make, or the error of the first part that is not valid: the mode, the
/// scope kind, then the budget.
pub open spec fn valid_policy(
    scope_kind: Seq<char>,
    scope_value: Option<Seq<char>>,
    rate: i64,
    burst: i64,
    mode: Seq<char>,
    priority: i32,
) -> Result<PolicyDefinitionView, PwbErrorView> {
    match (BudgetMode::parsed(mode), ScopeKind::parsed(scope_kind), valid_budget(rate, burst)) {
        (Err(error), _, _) => Err(error),
        (_, Err(error), _) => Err(error),
        (_, _, Err(error)) => Err(error),
        (Ok(mode), Ok(scope_kind), Ok(budget)) => Ok(
            PolicyDefinitionView {
                enabled: true,
                mode,
                scope_kind,
                scope_value: normalized(scope_value),
                wal_rate_bytes_per_sec: budget.wal_rate_bytes_per_sec,
                wal_burst_bytes: budget.wal_burst_bytes,
                priority,
            },
        ),
    }
}

pub fn validate_policy_definition(
    scope_kind: &str,
    scope_value: Option<&str>,
    wal_rate_bytes_per_sec: i64,
    wal_burst_bytes: i64,
    mode: &str,
    priority: i32,
) -> (r: PwbResult<PolicyDefinition>)
    ensures
        match valid_policy(
            scope_kind@,
            opt_text(scope_value),
            wal_rate_bytes_per_sec,
            wal_burst_bytes,
            mode@,
            priority,
        ) {
            Ok(policy) => r matches Ok(p) && p@ == policy,
            Err(error) => errors::fails_with(r, error),
        },
{
    let mode = BudgetMode::parse_sql(mode)?;
    let scope_kind = ScopeKind::parse_sql(scope_kind)?;
    let budget = validate_policy_budget_update(wal_rate_bytes_per_sec, wal_burst_bytes)?;
    Ok(
        PolicyDefinition {
            enabled: true,
            mode,
            scope_kind,
            scope_value: normalize_scope_value(scope_value),
            wal_rate_bytes_per_sec: budget.wal_rate_bytes_per_sec,
            wal_burst_bytes: budget.wal_burst_bytes,
            priority,
        },
    )
}

pub fn validate_policy_mode(mode: &str) -> (r: PwbResult<BudgetMode>)
    ensures
        errors::same_result(r, BudgetMode::parsed(mode@)),
{
    BudgetMode::parse_sql(mode)
}

pub fn validate_policy_budget_update(wal_rate_bytes_per_sec: i64, wal_burst_bytes: i64) -> (r:
    PwbResult<PolicyBudgetUpdate>)
    ensures
        errors::same_result(r, valid_budget(wal_rate_bytes_per_sec, wal_burst_bytes)),
{
    let wal_rate_bytes_per_sec: u64 = validate_positive_wal_bytes(
        "wal_rate_bytes_per_sec",
        wal_rate_bytes_per_sec,
    )?;
    let wal_burst_bytes: u64 = validate_positive_wal_bytes("wal_burst_bytes", wal_burst_bytes)?;
    if wal_burst_bytes < wal_rate_bytes_per_sec {
        return Err(
            PwbError::InvalidPolicyValue {
                field: "wal_burst_bytes",
                value: text::u64_to_decimal(wal_burst_bytes),
                reason: "must be greater than or equal to wal_rate_bytes_per_sec",
            },
        );
    }
    Ok(PolicyBudgetUpdate { wal_rate_bytes_per_sec, wal_burst_bytes })
}

pub fn validate_positive_wal_bytes(field: &'static str, value: i64) -> (r: PwbResult<WalBytes>)
    ensures
        errors::same_result(r, positive(field@, value)),
{
    if value <= 0 {
        return Err(
            PwbError::InvalidPolicyValue {
                field,
                value: text::i64_to_decimal(value),
                reason: "must be greater than zero",
            },
        );
    }
    Ok(value as u64)
}

/// A number of WAL bytes as the database stores it.
pub open spec fn as_bigint(field: Seq<char>, value: WalBytes) -> Result<i64, PwbErrorView> {
    if value <= i64::MAX {
        Ok(value as i64)
    } else {
        Err(
            invalid_value(
                field,
                text::decimal(value as nat),
                "must fit in PostgreSQL bigint"@,
            ),
        )
    }
}

pub fn wal_bytes_to_i64(field: &'static str, value: WalBytes) -> (r: PwbResult<i64>)
    ensures
        errors::same_result(r, as_bigint(field@, value)),
{
    if value <= i64::MAX as u64 {
        Ok(value as i64)
    } else {
        Err(
            PwbError::InvalidPolicyValue {
                field,
                value: text::u64_to_decimal(value),
                reason: "must fit in PostgreSQL bigint",
            },
        )
    }
}

pub fn normalize_scope_value(scope_value: Option<&str>) -> (r: Option<String>)
    ensures
        types::opt_chars(r) == normalized(opt_text(scope_value)),
{
    match scope_value {
        None => None,
        Some(value) => {
            let value = text::trim(value);
            if value.unicode_len() == 0 {
                None
            } else {
                Some(value.to_owned())
            }
        },
    }
}

/// Whether a policy was changed: an update that touched no policy is an error.
pub open spec fn update_outcome(policy_id: PolicyId, updated: Option<bool>) -> Result<
    (),
    PwbErrorView,
> {
    if updated == Some(true) {
        Ok(())
    } else {
        Err(
            invalid_value(
                "policy_id"@,
                text::signed_decimal(policy_id as int),
                "policy does not exist"@,
            ),
        )
    }
}

pub fn require_policy_updated(policy_id: PolicyId, updated: Option<bool>) -> (r: PwbResult<()>)
    ensures
        errors::same_result(r, update_outcome(policy_id, updated)),
{
    match updated {
        Some(true) => Ok(()),
        _ => Err(
            PwbError::InvalidPolicyValue {
                field: "policy_id",
                value: text::i64_to_decimal(policy_id as i64),
                reason: "policy does not exist",
            },
        ),
    }
}

/// The columns of a policy to insert.
#[derive(Debug, Clone, PartialEq, Eq)]
pub struct PolicyInsert {
    pub enabled: bool,
    pub mode: &'static str,
    pub scope_kind: &'static str,
    pub scope_value: Option<String>,
    pub wal_rate_bytes_per_sec: i64,
    pub wal_burst_bytes: i64,
    pub priority: i32,
}

/// Prepares the creation of a policy: the columns to insert, or the error that says what is not valid.
pub fn plan_policy_creation(
    scope_kind: &str,
    scope_value: Option<&str>,
    wal_rate_bytes_per_sec: i64,
    wal_burst_bytes: i64,
    mode: &str,
    priority: i32,
) -> (r: PwbResult<PolicyInsert>)
    ensures
        match valid_policy(
            scope_kind@,
            opt_text(scope_value),
            wal_rate_bytes_per_sec,
            wal_burst_bytes,
            mode@,
            priority,
        ) {
            Ok(policy) => r matches Ok(insert) && {
                &&& insert.enabled
                &&& insert.mode@ == policy.mode.sql_name()
                &&& insert.scope_kind@ == policy.scope_kind.sql_name()
                &&& types::opt_chars(insert.scope_value) == policy.scope_value
                &&& insert.wal_rate_bytes_per_sec == wal_rate_bytes_per_sec
                &&& insert.wal_burst_bytes == wal_burst_bytes
                &&& insert.priority == priority
            },
            Err(error) => errors::fails_with(r, error),
        },
{
    let policy = validate_policy_definition(
        scope_kind,
        scope_value,
        wal_rate_bytes_per_sec,
        wal_burst_bytes,
        mode,
        priority,
    )?;
    let rate: i64 = wal_bytes_to_i64("wal_rate_bytes_per_sec", policy.wal_rate_bytes_per_sec)?;
    let burst: i64 = wal_bytes_to_i64("wal_burst_bytes", policy.wal_burst_bytes)?;
    Ok(
        PolicyInsert {
            enabled: policy.enabled,
            mode: policy.mode.as_sql_str(),
            scope_kind: policy.scope_kind.as_sql_str(),
            scope_value: policy.scope_value,
            wal_rate_bytes_per_sec: rate,
            wal_burst_bytes: burst,
            priority: policy.priority,
        },
    )
}

/// Finishes the creation of a policy, given what the insert returned. The cached policies are then out
/// of date.
pub fn finish_policy_creation(cache: &mut Option<PolicyCache>, policy_id: Option<PolicyId>) -> (r:
    PwbResult<PolicyId>)
    ensures
        match policy_id {
            Some(policy_id) => {
                &&& r == Ok::<PolicyId, PwbError>(policy_id)
                &&& *final(cache) is None
            },
            None => {
                &&& errors::fails_with(
                    r,
                    errors::internal("policy insert did not return policy_id"@),
                )
                &&& *final(cache) == *old(cache)
            },
        },
{
    match policy_id {
        Some(policy_id) => {
            invalidate_backend_policy_cache(cache);
            Ok(policy_id)
        },
        None => Err(internal_error("policy insert did not return policy_id".to_owned())),
    }
}

/// The rate and the burst to write for a changed budget.
pub fn plan_policy_budget_update(wal_rate_bytes_per_sec: i64, wal_burst_bytes: i64) -> (r: PwbResult<
    (i64, i64),
>)
    ensures
        match valid_budget(wal_rate_bytes_per_sec, wal_burst_bytes) {
            Ok(_) => r == Ok::<(i64, i64), PwbError>((wal_rate_bytes_per_sec, wal_burst_bytes)),
            Err(error) => errors::fails_with(r, error),
        },
{
    let budget = validate_policy_budget_update(wal_rate_bytes_per_sec, wal_burst_bytes)?;
    let rate: i64 = wal_bytes_to_i64("wal_rate_bytes_per_sec", budget.wal_rate_bytes_per_sec)?;
    let burst: i64 = wal_bytes_to_i64("wal_burst_bytes", budget.wal_burst_bytes)?;
    Ok((rate, burst))
}

/// Finishes a change of a policy, given whether a policy was changed. The cached policies are then out
/// of date.
pub fn finish_policy_update(
    cache: &mut Option<PolicyCache>,
    policy_id: PolicyId,
    updated: Option<bool>,
) -> (r: PwbResult<()>)
    ensures
        errors::same_result(r, update_outcome(policy_id, updated)),
        if r is Ok {
            *final(cache) is None
        } else {
            *final(cache) == *old(cache)
        },
{
    require_policy_updated(policy_id, updated)?;
    invalidate_backend_policy_cache(cache);
    Ok(())
}

/// A valid policy has a positive rate that does not exceed its burst, and both fit the columns that they
/// are stored in.
pub proof fn law_valid_policy_has_budget(
    scope_kind: Seq<char>,
    scope_value: Option<Seq<char>>,
    rate: i64,
    burst: i64,
    mode: Seq<char>,
    priority: i32,
)
    ensures
        valid_policy(scope_kind, scope_value, rate, burst, mode, priority) matches Ok(policy) ==> {
            &&& 0 < policy.wal_rate_bytes_per_sec <= policy.wal_burst_bytes
            &&& as_bigint("wal_rate_bytes_per_sec"@, policy.wal_rate_bytes_per_sec) == Ok::<
                i64,
                PwbErrorView,
            >(rate)
            &&& as_bigint("wal_burst_bytes"@, policy.wal_burst_bytes) == Ok::<i64, PwbErrorView>(
                burst,
            )
        },
{
}

/// Validating again what a valid policy is stored as gives the same policy.
pub proof fn law_stored_policy_stays_valid(
    scope_kind: Seq<char>,
    scope_value: Option<Seq<char>>,
    rate: i64,
    burst: i64,
    mode: Seq<char>,
    priority: i32,
)
    ensures
        valid_policy(scope_kind, scope_value, rate, burst, mode, priority) matches Ok(policy)
            ==> valid_policy(
            policy.scope_kind.sql_name(),
            policy.scope_value,
            rate,
            burst,
            policy.mode.sql_name(),
            priority,
        ) == Ok::<PolicyDefinitionView, PwbErrorView>(policy),
{
    if let Ok(policy) = valid_policy(scope_kind, scope_value, rate, burst, mode, priority) {
        types::law_budget_mode_name_round_trip(policy.mode);
        types::law_scope_kind_name_round_trip(policy.scope_kind);
        if let Some(value) = scope_value {
            text::lemma_trimmed_is_idempotent(value);
        }
    }
}

/// A budget is accepted exactly where the rate is positive and the burst is not below it, and it is then
/// taken as given.
pub proof fn law_budget_is_accepted_where_burst_covers_rate(rate: i64, burst: i64)
    ensures
        valid_budget(rate, burst) is Ok <==> 0 < rate <= burst,
        valid_budget(rate, burst) matches Ok(budget) ==> budget.wal_rate_bytes_per_sec == rate
            && budget.wal_burst_bytes == burst,
        valid_budget(rate, burst) matches Err(error) ==> error is InvalidPolicyValue,
{
}

/// A policy is accepted exactly where its mode and its kind of scope have names and its budget is accepted.
/// It is then enabled and has these parts and this priority. Its scope value is taken without the white
/// space around it, and an empty one is none.
pub proof fn law_policy_is_accepted_part_by_part(
    scope_kind: Seq<char>,
    scope_value: Option<Seq<char>>,
    rate: i64,
    burst: i64,
    mode: Seq<char>,
    priority: i32,
)
    ensures
        ({
            let result = valid_policy(scope_kind, scope_value, rate, burst, mode, priority);
            &&& result is Ok <==> BudgetMode::parsed(mode) is Ok && ScopeKind::parsed(scope_kind)
                is Ok && 0 < rate <= burst
            &&& result matches Ok(policy) ==> {
                &&& policy.enabled
                &&& BudgetMode::parsed(mode) == Ok::<BudgetMode, PwbErrorView>(policy.mode)
                &&& ScopeKind::parsed(scope_kind) == Ok::<ScopeKind, PwbErrorView>(
                    policy.scope_kind,
                )
                &&& policy.wal_rate_bytes_per_sec == rate
                &&& policy.wal_burst_bytes == burst
                &&& policy.priority == priority
                &&& scope_value is None ==> policy.scope_value is None
                &&& scope_value matches Some(value) ==> (policy.scope_value is None
                    <==> text::trimmed(value).len() == 0)
                &&& scope_value matches Some(value) ==> (policy.scope_value matches Some(kept)
                    ==> kept == text::trimmed(value))
            }
        }),
        forall|policy_id: PolicyId, updated: Option<bool>| #[trigger]
            update_outcome(policy_id, updated) is Ok <==> updated == Some(true),
        forall|field: Seq<char>, value: WalBytes|
            {
                &&& (#[trigger] as_bigint(field, value)) is Ok <==> value <= i64::MAX
                &&& as_bigint(field, value) matches Ok(stored) ==> stored == value
            },
{
}

} // verus!
