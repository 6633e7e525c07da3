//! The records of the shared tables and their encoding.

use vstd::prelude::*;

use crate::errors;
use crate::errors::{internal_error, PwbErrorView, PwbResult};
use crate::text;
use crate::types::{
    DecisionKind, EpochMillis, PolicyId, QueryId, QueryWalProfile, ReasonCode, ScopeHash, ScopeKind,
    StatementClass, WalBytes,
};
use crate::types;

verus! {

/// The head of the shared region: its identity, the capacities and fill of its tables, the state of
/// profile restore and persistence, and the counters.
#[derive(Debug, Clone, Copy, PartialEq, Eq)]
pub struct PwbSharedState {
    pub magic: u32,
    pub layout_version: u32,
    pub recent_decision_capacity: u32,
    pub profile_cache_capacity: u32,
    pub budget_bucket_capacity: u32,
    pub scope_name_capacity: u32,
    pub recent_decision_head: u64,
    pub recent_decision_count: u32,
    pub profiles_len: u32,
    pub budget_buckets_len: u32,
    pub profile_restore_state: u8,
    pub profile_restore_started_epoch_ms: EpochMillis,
    pub last_profile_persist_epoch_ms: EpochMillis,
    pub profile_dirty_count: u64,
    pub counters: PwbCounters,
}

#[derive(Debug, Clone, Copy, PartialEq, Eq)]
pub struct PwbCounters {
    pub accepted_statements: u64,
    pub rejected_statements: u64,
    pub shadow_would_reject_count: u64,
    pub predicted_wal_bytes: u64,
    pub actual_wal_bytes: u64,
    pub absolute_prediction_error: u64,
    pub scope_debt_bytes: u64,
    pub missing_actual_wal_count: u64,
    pub internal_fail_open_count: u64,
    pub aborted_after_charge_count: u64,
}

/// What one event adds to the counters.
#[derive(Debug, Clone, Copy, PartialEq, Eq)]
pub struct CounterDelta {
    pub accepted_statements: u64,
    pub rejected_statements: u64,
    pub shadow_would_reject_count: u64,
    pub predicted_wal_bytes: u64,
    pub actual_wal_bytes: u64,
    pub absolute_prediction_error: u64,
    pub scope_debt_bytes: u64,
    pub missing_actual_wal_count: u64,
    pub internal_fail_open_count: u64,
    pub aborted_after_charge_count: u64,
}

impl PwbCounters {
    /// Counters at zero.
    pub open spec fn zero() -> PwbCounters {
        PwbCounters {
            accepted_statements: 0,
            rejected_statements: 0,
            shadow_would_reject_count: 0,
            predicted_wal_bytes: 0,
            actual_wal_bytes: 0,
            absolute_prediction_error: 0,
            scope_debt_bytes: 0,
            missing_actual_wal_count: 0,
            internal_fail_open_count: 0,
            aborted_after_charge_count: 0,
        }
    }

    /// The counters with `delta` added, each one stopping at the largest number.
    pub open spec fn plus(self, delta: CounterDelta) -> PwbCounters {
        PwbCounters {
            accepted_statements: types::sat_add(
                self.accepted_statements as int,
                delta.accepted_statements as int,
            ),
            rejected_statements: types::sat_add(
                self.rejected_statements as int,
                delta.rejected_statements as int,
            ),
            shadow_would_reject_count: types::sat_add(
                self.shadow_would_reject_count as int,
                delta.shadow_would_reject_count as int,
            ),
            predicted_wal_bytes: types::sat_add(
                self.predicted_wal_bytes as int,
                delta.predicted_wal_bytes as int,
            ),
            actual_wal_bytes: types::sat_add(
                self.actual_wal_bytes as int,
                delta.actual_wal_bytes as int,
            ),
            absolute_prediction_error: types::sat_add(
                self.absolute_prediction_error as int,
                delta.absolute_prediction_error as int,
            ),
            scope_debt_bytes: types::sat_add(
                self.scope_debt_bytes as int,
                delta.scope_debt_bytes as int,
            ),
            missing_actual_wal_count: types::sat_add(
                self.missing_actual_wal_count as int,
                delta.missing_actual_wal_count as int,
            ),
            internal_fail_open_count: types::sat_add(
                self.internal_fail_open_count as int,
                delta.internal_fail_open_count as int,
            ),
            aborted_after_charge_count: types::sat_add(
                self.aborted_after_charge_count as int,
                delta.aborted_after_charge_count as int,
            ),
        }
    }

    /// Whether no counter of `self` exceeds its counterpart in `other`.
    pub open spec fn at_most(self, other: PwbCounters) -> bool {
        &&& self.accepted_statements <= other.accepted_statements
        &&& self.rejected_statements <= other.rejected_statements
        &&& self.shadow_would_reject_count <= other.shadow_would_reject_count
        &&& self.predicted_wal_bytes <= other.predicted_wal_bytes
        &&& self.actual_wal_bytes <= other.actual_wal_bytes
        &&& self.absolute_prediction_error <= other.absolute_prediction_error
        &&& self.scope_debt_bytes <= other.scope_debt_bytes
        &&& self.missing_actual_wal_count <= other.missing_actual_wal_count
        &&& self.internal_fail_open_count <= other.internal_fail_open_count
        &&& self.aborted_after_charge_count <= other.aborted_after_charge_count
    }

    pub fn saturating_add_delta(&mut self, delta: CounterDelta)
        ensures
            *final(self) == old(self).plus(delta),
    {
        self.accepted_statements = self.accepted_statements.saturating_add(
            delta.accepted_statements,
        );
        self.rejected_statements = self.rejected_statements.saturating_add(
            delta.rejected_statements,
        );
        self.shadow_would_reject_count = self.shadow_would_reject_count.saturating_add(
            delta.shadow_would_reject_count,
        );
        self.predicted_wal_bytes = self.predicted_wal_bytes.saturating_add(
            delta.predicted_wal_bytes,
        );
        self.actual_wal_bytes = self.actual_wal_bytes.saturating_add(delta.actual_wal_bytes);
        self.absolute_prediction_error = self.absolute_prediction_error.saturating_add(
            delta.absolute_prediction_error,
        );
        self.scope_debt_bytes = self.scope_debt_bytes.saturating_add(delta.scope_debt_bytes);
        self.missing_actual_wal_count = self.missing_actual_wal_count.saturating_add(
            delta.missing_actual_wal_count,
        );
        self.internal_fail_open_count = self.internal_fail_open_count.saturating_add(
            delta.internal_fail_open_count,
        );
        self.aborted_after_charge_count = self.aborted_after_charge_count.saturating_add(
            delta.aborted_after_charge_count,
        );
    }
}

impl Default for PwbCounters {
    fn default() -> (r: PwbCounters)
        ensures
            r == PwbCounters::zero(),
    {
        PwbCounters {
            accepted_statements: 0,
            rejected_statements: 0,
            shadow_would_reject_count: 0,
            predicted_wal_bytes: 0,
            actual_wal_bytes: 0,
            absolute_prediction_error: 0,
            scope_debt_bytes: 0,
            missing_actual_wal_count: 0,
            internal_fail_open_count: 0,
            aborted_after_charge_count: 0,
        }
    }
}

impl CounterDelta {
    /// The delta that adds nothing.
    pub open spec fn zero() -> CounterDelta {
        CounterDelta {
            accepted_statements: 0,
            rejected_statements: 0,
            shadow_would_reject_count: 0,
            predicted_wal_bytes: 0,
            actual_wal_bytes: 0,
            absolute_prediction_error: 0,
            scope_debt_bytes: 0,
            missing_actual_wal_count: 0,
            internal_fail_open_count: 0,
            aborted_after_charge_count: 0,
        }
    }
}

impl Default for CounterDelta {
    fn default() -> (r: CounterDelta)
        ensures
            r == CounterDelta::zero(),
    {
        CounterDelta {
            accepted_statements: 0,
            rejected_statements: 0,
            shadow_would_reject_count: 0,
            predicted_wal_bytes: 0,
            actual_wal_bytes: 0,
            absolute_prediction_error: 0,
            scope_debt_bytes: 0,
            missing_actual_wal_count: 0,
            internal_fail_open_count: 0,
            aborted_after_charge_count: 0,
        }
    }
}

/// Counting never lowers a counter, and counting nothing leaves the counters alone.
pub proof fn law_counters_never_decrease(counters: PwbCounters, delta: CounterDelta)
    ensures
        counters.at_most(counters.plus(delta)),
        counters.plus(CounterDelta::zero()) == counters,
{
}

/// The order in which two events are counted does not matter.
pub proof fn law_counting_commutes(counters: PwbCounters, first: CounterDelta, second: CounterDelta)
    ensures
        counters.plus(first).plus(second) == counters.plus(second).plus(first),
{
}

/// A decision as the ring of recent decisions holds it.
#[derive(Debug, Clone, Copy, PartialEq, Eq)]
pub struct PwbRecentDecision {
    pub timestamp_epoch_ms: EpochMillis,
    pub decision_kind: u8,
    pub reason_code: u8,
    pub scope_kind: u8,
    pub statement_class: u8,
    pub has_policy_id: u8,
    pub has_query_id: u8,
    pub has_actual_wal_bytes: u8,
    pub policy_id: PolicyId,
    pub query_id: QueryId,
    pub scope_hash: ScopeHash,
    pub predicted_wal_bytes: WalBytes,
    pub actual_wal_bytes: WalBytes,
    pub available_before: WalBytes,
    pub available_after: WalBytes,
}

/// A slot of the query profile table.
#[derive(Debug, Clone, Copy, PartialEq, Eq)]
pub struct PwbProfileEntry {
    pub occupied: u8,
    pub has_scope_hash: u8,
    pub scope_hash: ScopeHash,
    pub query_id: QueryId,
    pub profile: PwbQueryWalProfile,
}

#[derive(Debug, Clone, Copy, PartialEq, Eq)]
pub struct PwbQueryWalProfile {
    pub calls: u64,
    pub ewma_wal_bytes: WalBytes,
    pub max_wal_bytes: WalBytes,
    pub last_seen_epoch_ms: EpochMillis,
}

impl PwbQueryWalProfile {
    /// The stored form of a profile.
    pub open spec fn of(profile: QueryWalProfile) -> PwbQueryWalProfile {
        PwbQueryWalProfile {
            calls: profile.calls,
            ewma_wal_bytes: profile.ewma_wal_bytes,
            max_wal_bytes: profile.max_wal_bytes,
            last_seen_epoch_ms: profile.last_seen_epoch_ms,
        }
    }

    /// The profile that is stored.
    pub open spec fn profile(self) -> QueryWalProfile {
        QueryWalProfile {
            calls: self.calls,
            ewma_wal_bytes: self.ewma_wal_bytes,
            max_wal_bytes: self.max_wal_bytes,
            last_seen_epoch_ms: self.last_seen_epoch_ms,
        }
    }
}

impl From<QueryWalProfile> for PwbQueryWalProfile {
    fn from(profile: QueryWalProfile) -> (r: PwbQueryWalProfile) {
        PwbQueryWalProfile {
            calls: profile.calls,
            ewma_wal_bytes: profile.ewma_wal_bytes,
            max_wal_bytes: profile.max_wal_bytes,
            last_seen_epoch_ms: profile.last_seen_epoch_ms,
        }
    }
}

impl vstd::std_specs::convert::FromSpecImpl<QueryWalProfile> for PwbQueryWalProfile {
    open spec fn obeys_from_spec() -> bool {
        true
    }

    open spec fn from_spec(profile: QueryWalProfile) -> PwbQueryWalProfile {
        PwbQueryWalProfile::of(profile)
    }
}

impl From<PwbQueryWalProfile> for QueryWalProfile {
    fn from(profile: PwbQueryWalProfile) -> (r: QueryWalProfile) {
        QueryWalProfile {
            calls: profile.calls,
            ewma_wal_bytes: profile.ewma_wal_bytes,
            max_wal_bytes: profile.max_wal_bytes,
            last_seen_epoch_ms: profile.last_seen_epoch_ms,
        }
    }
}

impl vstd::std_specs::convert::FromSpecImpl<PwbQueryWalProfile> for QueryWalProfile {
    open spec fn obeys_from_spec() -> bool {
        true
    }

    open spec fn from_spec(profile: PwbQueryWalProfile) -> QueryWalProfile {
        profile.profile()
    }
}

/// A slot of the budget bucket table.
#[derive(Debug, Clone, Copy, PartialEq, Eq)]
pub struct PwbBudgetBucket {
    pub occupied: u8,
    pub policy_id: PolicyId,
    pub scope_hash: ScopeHash,
    pub available_bytes: WalBytes,
    pub max_burst_bytes: WalBytes,
    pub rate_bytes_per_sec: WalBytes,
    pub last_refill_epoch_ms: EpochMillis,
    pub debt_bytes: WalBytes,
}

/// The token bucket of one policy and one scope value.
#[derive(Debug, Clone, Copy, PartialEq, Eq)]
pub struct BudgetBucketState {
    pub policy_id: PolicyId,
    pub scope_hash: ScopeHash,
    pub available_bytes: WalBytes,
    pub max_burst_bytes: WalBytes,
    pub rate_bytes_per_sec: WalBytes,
    pub last_refill_epoch_ms: EpochMillis,
    pub debt_bytes: WalBytes,
}

#[derive(Debug, Clone, Copy, PartialEq, Eq)]
pub struct QueryProfileSnapshot {
    pub scope_hash: Option<ScopeHash>,
    pub query_id: QueryId,
    pub profile: QueryWalProfile,
}

#[derive(Debug, Clone, Copy, PartialEq, Eq)]
pub struct BudgetBucketSnapshot {
    pub policy_id: PolicyId,
    pub scope_hash: ScopeHash,
    pub available_bytes: WalBytes,
    pub max_burst_bytes: WalBytes,
    pub rate_bytes_per_sec: WalBytes,
    pub last_refill_epoch_ms: EpochMillis,
    pub debt_bytes: WalBytes,
}

#[derive(Debug, Clone, Copy, PartialEq, Eq)]
pub struct RecentDecisionRecord {
    pub timestamp_epoch_ms: EpochMillis,
    pub decision_kind: DecisionKind,
    pub policy_id: Option<PolicyId>,
    pub scope_kind: ScopeKind,
    pub scope_hash: ScopeHash,
    pub query_id: Option<QueryId>,
    pub statement_class: StatementClass,
    pub predicted_wal_bytes: WalBytes,
    pub actual_wal_bytes: Option<WalBytes>,
    pub available_before: WalBytes,
    pub available_after: WalBytes,
    pub reason_code: ReasonCode,
}

#[derive(Debug, Clone, Copy, PartialEq, Eq)]
pub struct DecodedProfileEntry {
    pub scope_hash: Option<ScopeHash>,
    pub query_id: QueryId,
    pub profile: PwbQueryWalProfile,
}

/// The longest scope value, in characters, that the scope name table keeps whole.
pub const SCOPE_NAME_CHARS: usize = 256;

/// A slot of the scope name table. The value is cut off after `SCOPE_NAME_CHARS` characters.
#[derive(Debug, Clone, Copy, PartialEq, Eq)]
pub struct PwbScopeName {
    pub occupied: u8,
    pub scope_kind: u8,
    pub value_len: u32,
    pub scope_hash: ScopeHash,
    pub first_seen_epoch_ms: EpochMillis,
    pub last_seen_epoch_ms: EpochMillis,
    pub seen_count: u64,
    pub value: [char; SCOPE_NAME_CHARS],
}

#[derive(Debug, Clone, PartialEq, Eq)]
pub struct ScopeNameSnapshot {
    pub scope_kind: ScopeKind,
    pub scope_hash: ScopeHash,
    pub scope_value: String,
    pub first_seen_epoch_ms: EpochMillis,
    pub last_seen_epoch_ms: EpochMillis,
    pub seen_count: u64,
}

/// A scope name snapshot with its value as a character sequence.
pub struct ScopeNameSnapshotView {
    pub scope_kind: ScopeKind,
    pub scope_hash: ScopeHash,
    pub scope_value: Seq<char>,
    pub first_seen_epoch_ms: EpochMillis,
    pub last_seen_epoch_ms: EpochMillis,
    pub seen_count: u64,
}

impl View for ScopeNameSnapshot {
    type V = ScopeNameSnapshotView;

    open spec fn view(&self) -> ScopeNameSnapshotView {
        ScopeNameSnapshotView {
            scope_kind: self.scope_kind,
            scope_hash: self.scope_hash,
            scope_value: self.scope_value@,
            first_seen_epoch_ms: self.first_seen_epoch_ms,
            last_seen_epoch_ms: self.last_seen_epoch_ms,
            seen_count: self.seen_count,
        }
    }
}

/// The byte that stands for a `DecisionKind` in a record.
pub open spec fn decision_kind_byte(value: DecisionKind) -> u8 {
    match value {
        DecisionKind::Allowed => 1,
        DecisionKind::WouldReject => 2,
        DecisionKind::Rejected => 3,
        DecisionKind::NoMatchingPolicy => 4,
        DecisionKind::MissingScope => 5,
        DecisionKind::InternalErrorFailOpen => 6,
    }
}

/// The `DecisionKind` that a byte of a record stands for.
pub open spec fn decision_kind_of_byte(byte: u8) -> Result<DecisionKind, PwbErrorView> {
    match byte {
        1 => Ok(DecisionKind::Allowed),
        2 => Ok(DecisionKind::WouldReject),
        3 => Ok(DecisionKind::Rejected),
        4 => Ok(DecisionKind::NoMatchingPolicy),
        5 => Ok(DecisionKind::MissingScope),
        6 => Ok(DecisionKind::InternalErrorFailOpen),
        _ => Err(invalid_enum_error("decision_kind"@, byte)),
    }
}

pub fn encode_decision_kind(value: DecisionKind) -> (r: u8)
    ensures
        r == decision_kind_byte(value),
{
    match value {
        DecisionKind::Allowed => 1,
        DecisionKind::WouldReject => 2,
        DecisionKind::Rejected => 3,
        DecisionKind::NoMatchingPolicy => 4,
        DecisionKind::MissingScope => 5,
        DecisionKind::InternalErrorFailOpen => 6,
    }
}

pub fn decode_decision_kind(value: u8) -> (r: PwbResult<DecisionKind>)
    ensures
        errors::same_result(r, decision_kind_of_byte(value)),
{
    match value {
        1 => Ok(DecisionKind::Allowed),
        2 => Ok(DecisionKind::WouldReject),
        3 => Ok(DecisionKind::Rejected),
        4 => Ok(DecisionKind::NoMatchingPolicy),
        5 => Ok(DecisionKind::MissingScope),
        6 => Ok(DecisionKind::InternalErrorFailOpen),
        _ => invalid_enum("decision_kind", value),
    }
}

/// The byte that stands for a `ReasonCode` in a record.
pub open spec fn reason_code_byte(value: ReasonCode) -> u8 {
    match value {
        ReasonCode::PolicyDisabled => 1,
        ReasonCode::PolicyMatched => 2,
        ReasonCode::BudgetAvailable => 3,
        ReasonCode::BudgetExceeded => 4,
        ReasonCode::ObserveMode => 5,
        ReasonCode::ShadowMode => 6,
        ReasonCode::NoMatchingPolicy => 7,
        ReasonCode::MissingScope => 8,
        ReasonCode::PredictionUnavailable => 9,
        ReasonCode::InternalErrorFailOpen => 10,
    }
}

/// The `ReasonCode` that a byte of a record stands for.
pub open spec fn reason_code_of_byte(byte: u8) -> Result<ReasonCode, PwbErrorView> {
    match byte {
        1 => Ok(ReasonCode::PolicyDisabled),
        2 => Ok(ReasonCode::PolicyMatched),
        3 => Ok(ReasonCode::BudgetAvailable),
        4 => Ok(ReasonCode::BudgetExceeded),
        5 => Ok(ReasonCode::ObserveMode),
        6 => Ok(ReasonCode::ShadowMode),
        7 => Ok(ReasonCode::NoMatchingPolicy),
        8 => Ok(ReasonCode::MissingScope),
        9 => Ok(ReasonCode::PredictionUnavailable),
        10 => Ok(ReasonCode::InternalErrorFailOpen),
        _ => Err(invalid_enum_error("reason_code"@, byte)),
    }
}

pub fn encode_reason_code(value: ReasonCode) -> (r: u8)
    ensures
        r == reason_code_byte(value),
{
    match value {
        ReasonCode::PolicyDisabled => 1,
        ReasonCode::PolicyMatched => 2,
        ReasonCode::BudgetAvailable => 3,
        ReasonCode::BudgetExceeded => 4,
        ReasonCode::ObserveMode => 5,
        ReasonCode::ShadowMode => 6,
        ReasonCode::NoMatchingPolicy => 7,
        ReasonCode::MissingScope => 8,
        ReasonCode::PredictionUnavailable => 9,
        ReasonCode::InternalErrorFailOpen => 10,
    }
}

pub fn decode_reason_code(value: u8) -> (r: PwbResult<ReasonCode>)
    ensures
        errors::same_result(r, reason_code_of_byte(value)),
{
    match value {
        1 => Ok(ReasonCode::PolicyDisabled),
        2 => Ok(ReasonCode::PolicyMatched),
        3 => Ok(ReasonCode::BudgetAvailable),
        4 => Ok(ReasonCode::BudgetExceeded),
        5 => Ok(ReasonCode::ObserveMode),
        6 => Ok(ReasonCode::ShadowMode),
        7 => Ok(ReasonCode::NoMatchingPolicy),
        8 => Ok(ReasonCode::MissingScope),
        9 => Ok(ReasonCode::PredictionUnavailable),
        10 => Ok(ReasonCode::InternalErrorFailOpen),
        _ => invalid_enum("reason_code", value),
    }
}

/// The byte that stands for a `ScopeKind` in a record.
pub open spec fn scope_kind_byte(value: ScopeKind) -> u8 {
    match value {
        ScopeKind::Database => 1,
        ScopeKind::Role => 2,
        ScopeKind::Application => 3,
        ScopeKind::Tenant => 4,
        ScopeKind::Composite => 5,
    }
}

/// The `ScopeKind` that a byte of a record stands for.
pub open spec fn scope_kind_of_byte(byte: u8) -> Result<ScopeKind, PwbErrorView> {
    match byte {
        1 => Ok(ScopeKind::Database),
        2 => Ok(ScopeKind::Role),
        3 => Ok(ScopeKind::Application),
        4 => Ok(ScopeKind::Tenant),
        5 => Ok(ScopeKind::Composite),
        _ => Err(invalid_enum_error("scope_kind"@, byte)),
    }
}

pub fn encode_scope_kind(value: ScopeKind) -> (r: u8)
    ensures
        r == scope_kind_byte(value),
{
    match value {
        ScopeKind::Database => 1,
        ScopeKind::Role => 2,
        ScopeKind::Application => 3,
        ScopeKind::Tenant => 4,
        ScopeKind::Composite => 5,
    }
}

pub fn decode_scope_kind(value: u8) -> (r: PwbResult<ScopeKind>)
    ensures
        errors::same_result(r, scope_kind_of_byte(value)),
{
    match value {
        1 => Ok(ScopeKind::Database),
        2 => Ok(ScopeKind::Role),
        3 => Ok(ScopeKind::Application),
        4 => Ok(ScopeKind::Tenant),
        5 => Ok(ScopeKind::Composite),
        _ => invalid_enum("scope_kind", value),
    }
}

/// The byte that stands for a `StatementClass` in a record.
pub open spec fn statement_class_byte(value: StatementClass) -> u8 {
    match value {
        StatementClass::ReadOnly => 1,
        StatementClass::Write => 2,
        StatementClass::Utility => 3,
        StatementClass::Copy => 4,
        StatementClass::Unknown => 5,
    }
}

/// The `StatementClass` that a byte of a record stands for.
pub open spec fn statement_class_of_byte(byte: u8) -> Result<StatementClass, PwbErrorView> {
    match byte {
        1 => Ok(StatementClass::ReadOnly),
        2 => Ok(StatementClass::Write),
        3 => Ok(StatementClass::Utility),
        4 => Ok(StatementClass::Copy),
        5 => Ok(StatementClass::Unknown),
        _ => Err(invalid_enum_error("statement_class"@, byte)),
    }
}

pub fn encode_statement_class(value: StatementClass) -> (r: u8)
    ensures
        r == statement_class_byte(value),
{
    match value {
        StatementClass::ReadOnly => 1,
        StatementClass::Write => 2,
        StatementClass::Utility => 3,
        StatementClass::Copy => 4,
        StatementClass::Unknown => 5,
    }
}

pub fn decode_statement_class(value: u8) -> (r: PwbResult<StatementClass>)
    ensures
        errors::same_result(r, statement_class_of_byte(value)),
{
    match value {
        1 => Ok(StatementClass::ReadOnly),
        2 => Ok(StatementClass::Write),
        3 => Ok(StatementClass::Utility),
        4 => Ok(StatementClass::Copy),
        5 => Ok(StatementClass::Unknown),
        _ => invalid_enum("statement_class", value),
    }
}

/// The error for a byte that stands for no value of the field.
pub open spec fn invalid_enum_error(field: Seq<char>, value: u8) -> PwbErrorView {
    errors::internal(
        "invalid "@ + field + " enum value in shared memory: "@ + text::decimal(value as nat),
    )
}

pub fn invalid_enum<T>(field: &'static str, value: u8) -> (r: PwbResult<T>)
    ensures
        errors::fails_with(r, invalid_enum_error(field@, value)),
{
    Err(
        internal_error(
            text::join4(
                "invalid ",
                field,
                " enum value in shared memory: ",
                text::u64_to_decimal(value as u64).as_str(),
            ),
        ),
    )
}

/// The optional value that a flag and a value stand for.
pub open spec fn optional_of_flag<T>(flag: u8, value: T) -> Result<Option<T>, PwbErrorView> {
    if flag == 0 {
        Ok(None)
    } else if flag == 1 {
        Ok(Some(value))
    } else {
        Err(
            errors::internal(
                "invalid optional field flag in shared memory: "@ + text::decimal(flag as nat),
            ),
        )
    }
}

pub fn decode_optional<T: Copy>(flag: u8, value: T) -> (r: PwbResult<Option<T>>)
    ensures
        errors::same_result(r, optional_of_flag(flag, value)),
{
    match flag {
        0 => Ok(None),
        1 => Ok(Some(value)),
        _ => Err(
            internal_error(
                text::join2(
                    "invalid optional field flag in shared memory: ",
                    text::u64_to_decimal(flag as u64).as_str(),
                ),
            ),
        ),
    }
}

/// The flag of an optional value.
pub open spec fn flag_of<T>(value: Option<T>) -> u8 {
    if value is Some {
        1
    } else {
        0
    }
}

fn encode_flag<T>(value: &Option<T>) -> (r: u8)
    ensures
        r == flag_of(*value),
{
    if value.is_some() {
        1
    } else {
        0
    }
}

impl PwbRecentDecision {
    /// A slot that holds no decision.
    pub open spec fn empty() -> PwbRecentDecision {
        PwbRecentDecision {
            timestamp_epoch_ms: 0,
            decision_kind: 0,
            reason_code: 0,
            scope_kind: 0,
            statement_class: 0,
            has_policy_id: 0,
            has_query_id: 0,
            has_actual_wal_bytes: 0,
            policy_id: 0,
            query_id: 0,
            scope_hash: 0,
            predicted_wal_bytes: 0,
            actual_wal_bytes: 0,
            available_before: 0,
            available_after: 0,
        }
    }

    /// The stored form of a decision.
    pub open spec fn encoded(record: RecentDecisionRecord) -> PwbRecentDecision {
        PwbRecentDecision {
            timestamp_epoch_ms: record.timestamp_epoch_ms,
            decision_kind: decision_kind_byte(record.decision_kind),
            reason_code: reason_code_byte(record.reason_code),
            scope_kind: scope_kind_byte(record.scope_kind),
            statement_class: statement_class_byte(record.statement_class),
            has_policy_id: flag_of(record.policy_id),
            has_query_id: flag_of(record.query_id),
            has_actual_wal_bytes: flag_of(record.actual_wal_bytes),
            policy_id: if record.policy_id is Some {
                record.policy_id->0
            } else {
                0
            },
            query_id: if record.query_id is Some {
                record.query_id->0
            } else {
                0
            },
            scope_hash: record.scope_hash,
            predicted_wal_bytes: record.predicted_wal_bytes,
            actual_wal_bytes: if record.actual_wal_bytes is Some {
                record.actual_wal_bytes->0
            } else {
                0
            },
            available_before: record.available_before,
            available_after: record.available_after,
        }
    }

    /// The decision that a slot stands for, or the error of its first field that stands for nothing.
    pub open spec fn decoded(self) -> Result<RecentDecisionRecord, PwbErrorView> {
        match (
            decision_kind_of_byte(self.decision_kind),
            optional_of_flag(self.has_policy_id, self.policy_id),
            scope_kind_of_byte(self.scope_kind),
            optional_of_flag(self.has_query_id, self.query_id),
            statement_class_of_byte(self.statement_class),
            optional_of_flag(self.has_actual_wal_bytes, self.actual_wal_bytes),
            reason_code_of_byte(self.reason_code),
        ) {
            (Err(error), _, _, _, _, _, _) => Err(error),
            (_, Err(error), _, _, _, _, _) => Err(error),
            (_, _, Err(error), _, _, _, _) => Err(error),
            (_, _, _, Err(error), _, _, _) => Err(error),
            (_, _, _, _, Err(error), _, _) => Err(error),
            (_, _, _, _, _, Err(error), _) => Err(error),
            (_, _, _, _, _, _, Err(error)) => Err(error),
            (
                Ok(decision_kind),
                Ok(policy_id),
                Ok(scope_kind),
                Ok(query_id),
                Ok(statement_class),
                Ok(actual_wal_bytes),
                Ok(reason_code),
            ) => Ok(
                RecentDecisionRecord {
                    timestamp_epoch_ms: self.timestamp_epoch_ms,
                    decision_kind,
                    policy_id,
                    scope_kind,
                    scope_hash: self.scope_hash,
                    query_id,
                    statement_class,
                    predicted_wal_bytes: self.predicted_wal_bytes,
                    actual_wal_bytes,
                    available_before: self.available_before,
                    available_after: self.available_after,
                    reason_code,
                },
            ),
        }
    }

    pub fn encode(record: RecentDecisionRecord) -> (r: PwbRecentDecision)
        ensures
            r == PwbRecentDecision::encoded(record),
    {
        PwbRecentDecision {
            timestamp_epoch_ms: record.timestamp_epoch_ms,
            decision_kind: encode_decision_kind(record.decision_kind),
            reason_code: encode_reason_code(record.reason_code),
            scope_kind: encode_scope_kind(record.scope_kind),
            statement_class: encode_statement_class(record.statement_class),
            has_policy_id: encode_flag(&record.policy_id),
            has_query_id: encode_flag(&record.query_id),
            has_actual_wal_bytes: encode_flag(&record.actual_wal_bytes),
            policy_id: record.policy_id.unwrap_or(0),
            query_id: record.query_id.unwrap_or(0),
            scope_hash: record.scope_hash,
            predicted_wal_bytes: record.predicted_wal_bytes,
            actual_wal_bytes: record.actual_wal_bytes.unwrap_or(0),
            available_before: record.available_before,
            available_after: record.available_after,
        }
    }

    pub fn decode(self) -> (r: PwbResult<RecentDecisionRecord>)
        ensures
            errors::same_result(r, self.decoded()),
    {
        let decision_kind = decode_decision_kind(self.decision_kind)?;
        let policy_id = decode_optional(self.has_policy_id, self.policy_id)?;
        let scope_kind = decode_scope_kind(self.scope_kind)?;
        let query_id = decode_optional(self.has_query_id, self.query_id)?;
        let statement_class = decode_statement_class(self.statement_class)?;
        let actual_wal_bytes = decode_optional(self.has_actual_wal_bytes, self.actual_wal_bytes)?;
        let reason_code = decode_reason_code(self.reason_code)?;
        Ok(
            RecentDecisionRecord {
                timestamp_epoch_ms: self.timestamp_epoch_ms,
                decision_kind,
                policy_id,
                scope_kind,
                scope_hash: self.scope_hash,
                query_id,
                statement_class,
                predicted_wal_bytes: self.predicted_wal_bytes,
                actual_wal_bytes,
                available_before: self.available_before,
                available_after: self.available_after,
                reason_code,
            },
        )
    }
}

impl Default for PwbRecentDecision {
    fn default() -> (r: PwbRecentDecision)
        ensures
            r == PwbRecentDecision::empty(),
    {
        PwbRecentDecision {
            timestamp_epoch_ms: 0,
            decision_kind: 0,
            reason_code: 0,
            scope_kind: 0,
            statement_class: 0,
            has_policy_id: 0,
            has_query_id: 0,
            has_actual_wal_bytes: 0,
            policy_id: 0,
            query_id: 0,
            scope_hash: 0,
            predicted_wal_bytes: 0,
            actual_wal_bytes: 0,
            available_before: 0,
            available_after: 0,
        }
    }
}

/// Decoding an encoded decision gives the decision back.
pub proof fn law_recent_decision_round_trip(record: RecentDecisionRecord)
    ensures
        PwbRecentDecision::encoded(record).decoded() == Ok::<RecentDecisionRecord, PwbErrorView>(
            record,
        ),
{
}

impl PwbProfileEntry {
    /// A slot that holds no profile.
    pub open spec fn empty() -> PwbProfileEntry {
        PwbProfileEntry {
            occupied: 0,
            has_scope_hash: 0,
            scope_hash: 0,
            query_id: 0,
            profile: PwbQueryWalProfile {
                calls: 0,
                ewma_wal_bytes: 0,
                max_wal_bytes: 0,
                last_seen_epoch_ms: 0,
            },
        }
    }

    /// The slot that holds a profile under its key.
    pub open spec fn encoded(
        scope_hash: Option<ScopeHash>,
        query_id: QueryId,
        profile: PwbQueryWalProfile,
    ) -> PwbProfileEntry {
        PwbProfileEntry {
            occupied: 1,
            has_scope_hash: flag_of(scope_hash),
            scope_hash: if scope_hash is Some {
                scope_hash->0
            } else {
                0
            },
            query_id,
            profile,
        }
    }

    /// What a slot holds.
    pub open spec fn decoded(self) -> Result<DecodedProfileEntry, PwbErrorView> {
        if self.occupied != 1 {
            Err(
                errors::internal(
                    "invalid profile occupied flag: "@ + text::decimal(self.occupied as nat),
                ),
            )
        } else {
            match optional_of_flag(self.has_scope_hash, self.scope_hash) {
                Err(error) => Err(error),
                Ok(scope_hash) => Ok(
                    DecodedProfileEntry {
                        scope_hash,
                        query_id: self.query_id,
                        profile: self.profile,
                    },
                ),
            }
        }
    }

    pub fn encode(
        scope_hash: Option<ScopeHash>,
        query_id: QueryId,
        profile: PwbQueryWalProfile,
    ) -> (r: PwbProfileEntry)
        ensures
            r == PwbProfileEntry::encoded(scope_hash, query_id, profile),
    {
        PwbProfileEntry {
            occupied: 1,
            has_scope_hash: encode_flag(&scope_hash),
            scope_hash: match scope_hash {
                Some(scope_hash) => scope_hash,
                None => 0,
            },
            query_id,
            profile,
        }
    }

    pub fn decode(self) -> (r: PwbResult<DecodedProfileEntry>)
        ensures
            errors::same_result(r, self.decoded()),
    {
        if self.occupied != 1 {
            return Err(
                internal_error(
                    text::join2(
                        "invalid profile occupied flag: ",
                        text::u64_to_decimal(self.occupied as u64).as_str(),
                    ),
                ),
            );
        }
        let scope_hash = decode_optional(self.has_scope_hash, self.scope_hash)?;
        Ok(DecodedProfileEntry { scope_hash, query_id: self.query_id, profile: self.profile })
    }
}

impl Default for PwbProfileEntry {
    fn default() -> (r: PwbProfileEntry)
        ensures
            r == PwbProfileEntry::empty(),
    {
        PwbProfileEntry {
            occupied: 0,
            has_scope_hash: 0,
            scope_hash: 0,
            query_id: 0,
            profile: PwbQueryWalProfile {
                calls: 0,
                ewma_wal_bytes: 0,
                max_wal_bytes: 0,
                last_seen_epoch_ms: 0,
            },
        }
    }
}

/// Decoding an encoded profile gives its key and the profile back.
pub proof fn law_profile_entry_round_trip(
    scope_hash: Option<ScopeHash>,
    query_id: QueryId,
    profile: QueryWalProfile,
)
    ensures
        PwbProfileEntry::encoded(scope_hash, query_id, PwbQueryWalProfile::of(profile)).decoded()
            == Ok::<DecodedProfileEntry, PwbErrorView>(
            DecodedProfileEntry { scope_hash, query_id, profile: PwbQueryWalProfile::of(profile) },
        ),
        PwbQueryWalProfile::of(profile).profile() == profile,
{
}

impl PwbBudgetBucket {
    /// A slot that holds no bucket.
    pub open spec fn empty() -> PwbBudgetBucket {
        PwbBudgetBucket {
            occupied: 0,
            policy_id: 0,
            scope_hash: 0,
            available_bytes: 0,
            max_burst_bytes: 0,
            rate_bytes_per_sec: 0,
            last_refill_epoch_ms: 0,
            debt_bytes: 0,
        }
    }

    /// The slot that holds a bucket.
    pub open spec fn encoded(bucket: BudgetBucketState) -> PwbBudgetBucket {
        PwbBudgetBucket {
            occupied: 1,
            policy_id: bucket.policy_id,
            scope_hash: bucket.scope_hash,
            available_bytes: bucket.available_bytes,
            max_burst_bytes: bucket.max_burst_bytes,
            rate_bytes_per_sec: bucket.rate_bytes_per_sec,
            last_refill_epoch_ms: bucket.last_refill_epoch_ms,
            debt_bytes: bucket.debt_bytes,
        }
    }

    /// The bucket in a slot, whether the slot is marked occupied or not.
    pub open spec fn bucket(self) -> BudgetBucketState {
        BudgetBucketState {
            policy_id: self.policy_id,
            scope_hash: self.scope_hash,
            available_bytes: self.available_bytes,
            max_burst_bytes: self.max_burst_bytes,
            rate_bytes_per_sec: self.rate_bytes_per_sec,
            last_refill_epoch_ms: self.last_refill_epoch_ms,
            debt_bytes: self.debt_bytes,
        }
    }

    /// What a slot holds.
    pub open spec fn decoded(self) -> Result<BudgetBucketState, PwbErrorView> {
        if self.occupied != 1 {
            Err(
                errors::internal(
                    "invalid budget bucket occupied flag: "@ + text::decimal(self.occupied as nat),
                ),
            )
        } else {
            Ok(self.bucket())
        }
    }

    pub fn encode(bucket: BudgetBucketState) -> (r: PwbBudgetBucket)
        ensures
            r == PwbBudgetBucket::encoded(bucket),
    {
        PwbBudgetBucket {
            occupied: 1,
            policy_id: bucket.policy_id,
            scope_hash: bucket.scope_hash,
            available_bytes: bucket.available_bytes,
            max_burst_bytes: bucket.max_burst_bytes,
            rate_bytes_per_sec: bucket.rate_bytes_per_sec,
            last_refill_epoch_ms: bucket.last_refill_epoch_ms,
            debt_bytes: bucket.debt_bytes,
        }
    }

    pub fn decode(self) -> (r: PwbResult<BudgetBucketState>)
        ensures
            errors::same_result(r, self.decoded()),
    {
        if self.occupied != 1 {
            return Err(
                internal_error(
                    text::join2(
                        "invalid budget bucket occupied flag: ",
                        text::u64_to_decimal(self.occupied as u64).as_str(),
                    ),
                ),
            );
        }
        Ok(self.state())
    }

    pub fn state(self) -> (r: BudgetBucketState)
        ensures
            r == self.bucket(),
    {
        BudgetBucketState {
            policy_id: self.policy_id,
            scope_hash: self.scope_hash,
            available_bytes: self.available_bytes,
            max_burst_bytes: self.max_burst_bytes,
            rate_bytes_per_sec: self.rate_bytes_per_sec,
            last_refill_epoch_ms: self.last_refill_epoch_ms,
            debt_bytes: self.debt_bytes,
        }
    }
}

impl Default for PwbBudgetBucket {
    fn default() -> (r: PwbBudgetBucket)
        ensures
            r == PwbBudgetBucket::empty(),
    {
        PwbBudgetBucket {
            occupied: 0,
            policy_id: 0,
            scope_hash: 0,
            available_bytes: 0,
            max_burst_bytes: 0,
            rate_bytes_per_sec: 0,
            last_refill_epoch_ms: 0,
            debt_bytes: 0,
        }
    }
}

/// Decoding an encoded bucket gives the bucket back.
pub proof fn law_budget_bucket_round_trip(bucket: BudgetBucketState)
    ensures
        PwbBudgetBucket::encoded(bucket).decoded() == Ok::<BudgetBucketState, PwbErrorView>(bucket),
{
}

impl PwbScopeName {
    /// Whether nothing stands in the slot: every field is zero.
    pub open spec fn is_blank(self) -> bool {
        &&& self.occupied == 0
        &&& self.scope_kind == 0
        &&& self.value_len == 0
        &&& self.scope_hash == 0
        &&& self.first_seen_epoch_ms == 0
        &&& self.last_seen_epoch_ms == 0
        &&& self.seen_count == 0
        &&& self.value@ == Seq::new(SCOPE_NAME_CHARS as nat, |i: int| '\0')
    }

    /// Whether the slot names this scope.
    pub open spec fn has_key(self, scope_kind: ScopeKind, scope_hash: ScopeHash) -> bool {
        &&& self.occupied == 1
        &&& self.scope_kind == scope_kind_byte(scope_kind)
        &&& self.scope_hash == scope_hash
    }

    /// The part of a scope value that a slot keeps.
    pub open spec fn kept(scope_value: Seq<char>) -> Seq<char> {
        if scope_value.len() <= SCOPE_NAME_CHARS {
            scope_value
        } else {
            scope_value.take(SCOPE_NAME_CHARS as int)
        }
    }

    /// What a slot holds.
    pub open spec fn decoded(self) -> Result<ScopeNameSnapshotView, PwbErrorView> {
        if self.occupied != 1 {
            Err(
                errors::internal(
                    "invalid scope name occupied flag: "@ + text::decimal(self.occupied as nat),
                ),
            )
        } else if self.value_len > SCOPE_NAME_CHARS {
            Err(
                errors::internal(
                    "invalid scope name length in shared memory: "@ + text::decimal(
                        self.value_len as nat,
                    ),
                ),
            )
        } else {
            match scope_kind_of_byte(self.scope_kind) {
                Err(error) => Err(error),
                Ok(scope_kind) => Ok(
                    ScopeNameSnapshotView {
                        scope_kind,
                        scope_hash: self.scope_hash,
                        scope_value: self.value@.take(self.value_len as int),
                        first_seen_epoch_ms: self.first_seen_epoch_ms,
                        last_seen_epoch_ms: self.last_seen_epoch_ms,
                        seen_count: self.seen_count,
                    },
                ),
            }
        }
    }

    pub fn matches_key(&self, scope_kind: ScopeKind, scope_hash: ScopeHash) -> (r: bool)
        ensures
            r == self.has_key(scope_kind, scope_hash),
    {
        self.occupied == 1 && self.scope_kind == encode_scope_kind(scope_kind) && self.scope_hash
            == scope_hash
    }

    pub fn encode_value(
        scope_kind: ScopeKind,
        scope_hash: ScopeHash,
        scope_value: &str,
        first_seen_epoch_ms: EpochMillis,
        last_seen_epoch_ms: EpochMillis,
        seen_count: u64,
    ) -> (r: PwbScopeName)
        ensures
            r.occupied == 1,
            r.decoded() == Ok::<ScopeNameSnapshotView, PwbErrorView>(
                ScopeNameSnapshotView {
                    scope_kind,
                    scope_hash,
                    scope_value: PwbScopeName::kept(scope_value@),
                    first_seen_epoch_ms,
                    last_seen_epoch_ms,
                    seen_count,
                },
            ),
            r.scope_kind == scope_kind_byte(scope_kind),
    {
        let mut value: [char; SCOPE_NAME_CHARS] = ['\0'; SCOPE_NAME_CHARS];
        let total: usize = scope_value.unicode_len();
        let len: usize = if total <= SCOPE_NAME_CHARS {
            total
        } else {
            SCOPE_NAME_CHARS
        };
        let mut i: usize = 0;
        while i < len
            invariant
                i <= len,
                len <= SCOPE_NAME_CHARS,
                len <= scope_value@.len(),
                value@.len() == SCOPE_NAME_CHARS,
                forall|k: int| 0 <= k < i ==> #[trigger] value@[k] == scope_value@[k],
            decreases len - i,
        {
            value[i] = scope_value.get_char(i);
            i += 1;
        }
        assert(value@.take(len as int) =~= PwbScopeName::kept(scope_value@));
        PwbScopeName {
            occupied: 1,
            scope_kind: encode_scope_kind(scope_kind),
            value_len: len as u32,
            scope_hash,
            first_seen_epoch_ms,
            last_seen_epoch_ms,
            seen_count,
            value,
        }
    }

    pub fn decode(&self) -> (r: PwbResult<ScopeNameSnapshot>)
        ensures
            match self.decoded() {
                Ok(snapshot) => r matches Ok(s) && s@ == snapshot,
                Err(error) => errors::fails_with(r, error),
            },
    {
        if self.occupied != 1 {
            return Err(
                internal_error(
                    text::join2(
                        "invalid scope name occupied flag: ",
                        text::u64_to_decimal(self.occupied as u64).as_str(),
                    ),
                ),
            );
        }
        if self.value_len > SCOPE_NAME_CHARS as u32 {
            return Err(
                internal_error(
                    text::join2(
                        "invalid scope name length in shared memory: ",
                        text::u64_to_decimal(self.value_len as u64).as_str(),
                    ),
                ),
            );
        }
        let scope_kind = decode_scope_kind(self.scope_kind)?;
        let mut scope_value: String = String::new();
        let mut i: usize = 0;
        while i < self.value_len as usize
            invariant
                i <= self.value_len <= SCOPE_NAME_CHARS,
                scope_value@ == self.value@.take(i as int),
            decreases self.value_len - i,
        {
            scope_value.push(self.value[i]);
            i += 1;
            assert(self.value@.take(i as int) =~= self.value@.take(i - 1).push(
                self.value@[i - 1],
            ));
        }
        Ok(
            ScopeNameSnapshot {
                scope_kind,
                scope_hash: self.scope_hash,
                scope_value,
                first_seen_epoch_ms: self.first_seen_epoch_ms,
                last_seen_epoch_ms: self.last_seen_epoch_ms,
                seen_count: self.seen_count,
            },
        )
    }
}

impl Default for PwbScopeName {
    fn default() -> (r: PwbScopeName)
        ensures
            r.is_blank(),
    {
        let value = ['\0'; SCOPE_NAME_CHARS];
        assert(value@ =~= Seq::new(SCOPE_NAME_CHARS as nat, |i: int| '\0'));
        PwbScopeName {
            occupied: 0,
            scope_kind: 0,
            value_len: 0,
            scope_hash: 0,
            first_seen_epoch_ms: 0,
            last_seen_epoch_ms: 0,
            seen_count: 0,
            value,
        }
    }
}

/// Every byte that decodes to a value is the byte that encodes it.
pub proof fn law_enum_bytes_round_trip(
    decision_kind: DecisionKind,
    reason_code: ReasonCode,
    scope_kind: ScopeKind,
    statement_class: StatementClass,
    byte: u8,
)
    ensures
        decision_kind_of_byte(byte) == Ok::<DecisionKind, PwbErrorView>(decision_kind) <==> byte
            == decision_kind_byte(decision_kind),
        reason_code_of_byte(byte) == Ok::<ReasonCode, PwbErrorView>(reason_code) <==> byte
            == reason_code_byte(reason_code),
        scope_kind_of_byte(byte) == Ok::<ScopeKind, PwbErrorView>(scope_kind) <==> byte
            == scope_kind_byte(scope_kind),
        statement_class_of_byte(byte) == Ok::<StatementClass, PwbErrorView>(statement_class)
            <==> byte == statement_class_byte(statement_class),
{
}

/// Every counter grows by its own part of what is added, short of the largest number, at which it stays.
pub proof fn law_counters_add_up(counters: PwbCounters, delta: CounterDelta)
    ensures
        ({
            let after = counters.plus(delta);
            &&& counters.accepted_statements + delta.accepted_statements <= u64::MAX ==> after.accepted_statements
                == counters.accepted_statements + delta.accepted_statements
            &&& counters.accepted_statements + delta.accepted_statements > u64::MAX ==> after.accepted_statements
                == u64::MAX
            &&& counters.rejected_statements + delta.rejected_statements <= u64::MAX ==> after.rejected_statements
                == counters.rejected_statements + delta.rejected_statements
            &&& counters.rejected_statements + delta.rejected_statements > u64::MAX ==> after.rejected_statements
                == u64::MAX
            &&& counters.shadow_would_reject_count + delta.shadow_would_reject_count <= u64::MAX ==> after.shadow_would_reject_count
                == counters.shadow_would_reject_count + delta.shadow_would_reject_count
            &&& counters.shadow_would_reject_count + delta.shadow_would_reject_count > u64::MAX ==> after.shadow_would_reject_count
                == u64::MAX
            &&& counters.predicted_wal_bytes + delta.predicted_wal_bytes <= u64::MAX ==> after.predicted_wal_bytes
                == counters.predicted_wal_bytes + delta.predicted_wal_bytes
            &&& counters.predicted_wal_bytes + delta.predicted_wal_bytes > u64::MAX ==> after.predicted_wal_bytes
                == u64::MAX
            &&& counters.actual_wal_bytes + delta.actual_wal_bytes <= u64::MAX ==> after.actual_wal_bytes
                == counters.actual_wal_bytes + delta.actual_wal_bytes
            &&& counters.actual_wal_bytes + delta.actual_wal_bytes > u64::MAX ==> after.actual_wal_bytes
                == u64::MAX
            &&& counters.absolute_prediction_error + delta.absolute_prediction_error <= u64::MAX ==> after.absolute_prediction_error
                == counters.absolute_prediction_error + delta.absolute_prediction_error
            &&& counters.absolute_prediction_error + delta.absolute_prediction_error > u64::MAX ==> after.absolute_prediction_error
                == u64::MAX
            &&& counters.scope_debt_bytes + delta.scope_debt_bytes <= u64::MAX ==> after.scope_debt_bytes
                == counters.scope_debt_bytes + delta.scope_debt_bytes
            &&& counters.scope_debt_bytes + delta.scope_debt_bytes > u64::MAX ==> after.scope_debt_bytes
                == u64::MAX
            &&& counters.missing_actual_wal_count + delta.missing_actual_wal_count <= u64::MAX ==> after.missing_actual_wal_count
                == counters.missing_actual_wal_count + delta.missing_actual_wal_count
            &&& counters.missing_actual_wal_count + delta.missing_actual_wal_count > u64::MAX ==> after.missing_actual_wal_count
                == u64::MAX
            &&& counters.internal_fail_open_count + delta.internal_fail_open_count <= u64::MAX ==> after.internal_fail_open_count
                == counters.internal_fail_open_count + delta.internal_fail_open_count
            &&& counters.internal_fail_open_count + delta.internal_fail_open_count > u64::MAX ==> after.internal_fail_open_count
                == u64::MAX
            &&& counters.aborted_after_charge_count + delta.aborted_after_charge_count <= u64::MAX ==> after.aborted_after_charge_count
                == counters.aborted_after_charge_count + delta.aborted_after_charge_count
            &&& counters.aborted_after_charge_count + delta.aborted_after_charge_count > u64::MAX ==> after.aborted_after_charge_count
                == u64::MAX
        }),
{
}

/// Counters and what is added to them start from nothing.
pub proof fn law_counting_starts_from_nothing(counters: PwbCounters)
    ensures
        counters.plus(CounterDelta::zero()) == counters,
        PwbCounters::zero().accepted_statements == 0,
        PwbCounters::zero().rejected_statements == 0,
        PwbCounters::zero().shadow_would_reject_count == 0,
        PwbCounters::zero().predicted_wal_bytes == 0,
        PwbCounters::zero().actual_wal_bytes == 0,
        PwbCounters::zero().absolute_prediction_error == 0,
        PwbCounters::zero().scope_debt_bytes == 0,
        PwbCounters::zero().missing_actual_wal_count == 0,
        PwbCounters::zero().internal_fail_open_count == 0,
        PwbCounters::zero().aborted_after_charge_count == 0,
{
}

/// Records stand for kinds, reasons and classes by these numbers.
pub proof fn law_records_keep_their_numbers()
    ensures
        decision_kind_byte(DecisionKind::Allowed) == 1,
        decision_kind_byte(DecisionKind::WouldReject) == 2,
        decision_kind_byte(DecisionKind::Rejected) == 3,
        decision_kind_byte(DecisionKind::NoMatchingPolicy) == 4,
        decision_kind_byte(DecisionKind::MissingScope) == 5,
        decision_kind_byte(DecisionKind::InternalErrorFailOpen) == 6,
        reason_code_byte(ReasonCode::PolicyDisabled) == 1,
        reason_code_byte(ReasonCode::PolicyMatched) == 2,
        reason_code_byte(ReasonCode::BudgetAvailable) == 3,
        reason_code_byte(ReasonCode::BudgetExceeded) == 4,
        reason_code_byte(ReasonCode::ObserveMode) == 5,
        reason_code_byte(ReasonCode::ShadowMode) == 6,
        reason_code_byte(ReasonCode::NoMatchingPolicy) == 7,
        reason_code_byte(ReasonCode::MissingScope) == 8,
        reason_code_byte(ReasonCode::PredictionUnavailable) == 9,
        reason_code_byte(ReasonCode::InternalErrorFailOpen) == 10,
        scope_kind_byte(ScopeKind::Database) == 1,
        scope_kind_byte(ScopeKind::Role) == 2,
        scope_kind_byte(ScopeKind::Application) == 3,
        scope_kind_byte(ScopeKind::Tenant) == 4,
        scope_kind_byte(ScopeKind::Composite) == 5,
        statement_class_byte(StatementClass::ReadOnly) == 1,
        statement_class_byte(StatementClass::Write) == 2,
        statement_class_byte(StatementClass::Utility) == 3,
        statement_class_byte(StatementClass::Copy) == 4,
        statement_class_byte(StatementClass::Unknown) == 5,
{
}

} // verus!
