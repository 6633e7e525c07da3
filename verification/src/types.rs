//! The vocabulary of the library: modes, scopes, decisions and query profiles.

use vstd::prelude::*;

use crate::errors;
use crate::errors::{internal_error, PwbError, PwbErrorView, PwbResult};
use crate::text;

verus! {

pub type WalBytes = u64;

pub type QueryId = u64;

pub type ScopeHash = u64;

pub type PolicyId = i32;

pub type EpochMillis = u64;

#[derive(Debug, Clone, Copy, PartialEq, Eq, Hash, Structural)]
pub enum BudgetMode {
    Off,
    Observe,
    Shadow,
    Reject,
    Queue,
}

impl BudgetMode {
    /// The name of the mode in SQL.
    pub open spec fn sql_name(self) -> Seq<char> {
        match self {
            BudgetMode::Off => "off"@,
            BudgetMode::Observe => "observe"@,
            BudgetMode::Shadow => "shadow"@,
            BudgetMode::Reject => "reject"@,
            BudgetMode::Queue => "queue"@,
        }
    }

    /// The mode that an SQL text names, white space around it and letter case aside.
    pub open spec fn named(input: Seq<char>) -> Option<BudgetMode> {
        let word = text::keyword_form(input);
        if word == "off"@ {
            Some(BudgetMode::Off)
        } else if word == "observe"@ {
            Some(BudgetMode::Observe)
        } else if word == "shadow"@ {
            Some(BudgetMode::Shadow)
        } else if word == "reject"@ {
            Some(BudgetMode::Reject)
        } else if word == "queue"@ {
            Some(BudgetMode::Queue)
        } else {
            None
        }
    }

    /// What reading a mode from an SQL text gives.
    pub open spec fn parsed(input: Seq<char>) -> Result<BudgetMode, PwbErrorView> {
        match BudgetMode::named(input) {
            Some(mode) => Ok(mode),
            None => Err(PwbErrorView::InvalidBudgetMode { value: input }),
        }
    }

    pub fn as_sql_str(self) -> (r: &'static str)
        ensures
            r@ == self.sql_name(),
    {
        match self {
            BudgetMode::Off => "off",
            BudgetMode::Observe => "observe",
            BudgetMode::Shadow => "shadow",
            BudgetMode::Reject => "reject",
            BudgetMode::Queue => "queue",
        }
    }

    pub fn parse_sql(input: &str) -> (r: PwbResult<BudgetMode>)
        ensures
            errors::same_result(r, BudgetMode::parsed(input@)),
    {
        if text::is_keyword(input, "off") {
            Ok(BudgetMode::Off)
        } else if text::is_keyword(input, "observe") {
            Ok(BudgetMode::Observe)
        } else if text::is_keyword(input, "shadow") {
            Ok(BudgetMode::Shadow)
        } else if text::is_keyword(input, "reject") {
            Ok(BudgetMode::Reject)
        } else if text::is_keyword(input, "queue") {
            Ok(BudgetMode::Queue)
        } else {
            Err(PwbError::InvalidBudgetMode { value: input.to_owned() })
        }
    }
}

#[derive(Debug, Clone, Copy, PartialEq, Eq, Hash, Structural)]
pub enum ScopeKind {
    Database,
    Role,
    Application,
    Tenant,
    Composite,
}

impl ScopeKind {
    /// The name of the scope kind in SQL.
    pub open spec fn sql_name(self) -> Seq<char> {
        match self {
            ScopeKind::Database => "database"@,
            ScopeKind::Role => "role"@,
            ScopeKind::Application => "application"@,
            ScopeKind::Tenant => "tenant"@,
            ScopeKind::Composite => "composite"@,
        }
    }

    /// The scope kind that an SQL text names, white space around it and letter case aside.
    pub open spec fn named(input: Seq<char>) -> Option<ScopeKind> {
        let word = text::keyword_form(input);
        if word == "database"@ {
            Some(ScopeKind::Database)
        } else if word == "role"@ {
            Some(ScopeKind::Role)
        } else if word == "application"@ {
            Some(ScopeKind::Application)
        } else if word == "tenant"@ {
            Some(ScopeKind::Tenant)
        } else if word == "composite"@ {
            Some(ScopeKind::Composite)
        } else {
            None
        }
    }

    /// What reading a scope kind from an SQL text gives.
    pub open spec fn parsed(input: Seq<char>) -> Result<ScopeKind, PwbErrorView> {
        match ScopeKind::named(input) {
            Some(kind) => Ok(kind),
            None => Err(PwbErrorView::InvalidScopeKind { value: input }),
        }
    }

    pub fn as_sql_str(self) -> (r: &'static str)
        ensures
            r@ == self.sql_name(),
    {
        match self {
            ScopeKind::Database => "database",
            ScopeKind::Role => "role",
            ScopeKind::Application => "application",
            ScopeKind::Tenant => "tenant",
            ScopeKind::Composite => "composite",
        }
    }

    pub fn parse_sql(input: &str) -> (r: PwbResult<ScopeKind>)
        ensures
            errors::same_result(r, ScopeKind::parsed(input@)),
    {
        if text::is_keyword(input, "database") {
            Ok(ScopeKind::Database)
        } else if text::is_keyword(input, "role") {
            Ok(ScopeKind::Role)
        } else if text::is_keyword(input, "application") {
            Ok(ScopeKind::Application)
        } else if text::is_keyword(input, "tenant") {
            Ok(ScopeKind::Tenant)
        } else if text::is_keyword(input, "composite") {
            Ok(ScopeKind::Composite)
        } else {
            Err(PwbError::InvalidScopeKind { value: input.to_owned() })
        }
    }
}

#[derive(Debug, Clone, Copy, PartialEq, Eq, Hash, Structural)]
pub enum DecisionKind {
    Allowed,
    WouldReject,
    Rejected,
    NoMatchingPolicy,
    MissingScope,
    InternalErrorFailOpen,
}

impl DecisionKind {
    /// The name of the decision in SQL.
    pub open spec fn sql_name(self) -> Seq<char> {
        match self {
            DecisionKind::Allowed => "allowed"@,
            DecisionKind::WouldReject => "would_reject"@,
            DecisionKind::Rejected => "rejected"@,
            DecisionKind::NoMatchingPolicy => "no_matching_policy"@,
            DecisionKind::MissingScope => "missing_scope"@,
            DecisionKind::InternalErrorFailOpen => "internal_error_fail_open"@,
        }
    }

    pub fn as_sql_str(self) -> (r: &'static str)
        ensures
            r@ == self.sql_name(),
    {
        match self {
            DecisionKind::Allowed => "allowed",
            DecisionKind::WouldReject => "would_reject",
            DecisionKind::Rejected => "rejected",
            DecisionKind::NoMatchingPolicy => "no_matching_policy",
            DecisionKind::MissingScope => "missing_scope",
            DecisionKind::InternalErrorFailOpen => "internal_error_fail_open",
        }
    }
}

#[derive(Debug, Clone, Copy, PartialEq, Eq, Hash, Structural)]
pub enum StatementClass {
    ReadOnly,
    Write,
    Utility,
    Copy,
    Unknown,
}

impl StatementClass {
    /// The name of the statement class in SQL.
    pub open spec fn sql_name(self) -> Seq<char> {
        match self {
            StatementClass::ReadOnly => "read_only"@,
            StatementClass::Write => "write"@,
            StatementClass::Utility => "utility"@,
            StatementClass::Copy => "copy"@,
            StatementClass::Unknown => "unknown"@,
        }
    }

    pub fn as_sql_str(self) -> (r: &'static str)
        ensures
            r@ == self.sql_name(),
    {
        match self {
            StatementClass::ReadOnly => "read_only",
            StatementClass::Write => "write",
            StatementClass::Utility => "utility",
            StatementClass::Copy => "copy",
            StatementClass::Unknown => "unknown",
        }
    }
}

#[derive(Debug, Clone, Copy, PartialEq, Eq, Hash, Structural)]
pub enum ReasonCode {
    PolicyDisabled,
    PolicyMatched,
    BudgetAvailable,
    BudgetExceeded,
    ObserveMode,
    ShadowMode,
    NoMatchingPolicy,
    MissingScope,
    PredictionUnavailable,
    InternalErrorFailOpen,
}

impl ReasonCode {
    /// The name of the reason in SQL.
    pub open spec fn sql_name(self) -> Seq<char> {
        match self {
            ReasonCode::PolicyDisabled => "policy_disabled"@,
            ReasonCode::PolicyMatched => "policy_matched"@,
            ReasonCode::BudgetAvailable => "budget_available"@,
            ReasonCode::BudgetExceeded => "budget_exceeded"@,
            ReasonCode::ObserveMode => "observe_mode"@,
            ReasonCode::ShadowMode => "shadow_mode"@,
            ReasonCode::NoMatchingPolicy => "no_matching_policy"@,
            ReasonCode::MissingScope => "missing_scope"@,
            ReasonCode::PredictionUnavailable => "prediction_unavailable"@,
            ReasonCode::InternalErrorFailOpen => "internal_error_fail_open"@,
        }
    }

    pub fn as_sql_str(self) -> (r: &'static str)
        ensures
            r@ == self.sql_name(),
    {
        match self {
            ReasonCode::PolicyDisabled => "policy_disabled",
            ReasonCode::PolicyMatched => "policy_matched",
            ReasonCode::BudgetAvailable => "budget_available",
            ReasonCode::BudgetExceeded => "budget_exceeded",
            ReasonCode::ObserveMode => "observe_mode",
            ReasonCode::ShadowMode => "shadow_mode",
            ReasonCode::NoMatchingPolicy => "no_matching_policy",
            ReasonCode::MissingScope => "missing_scope",
            ReasonCode::PredictionUnavailable => "prediction_unavailable",
            ReasonCode::InternalErrorFailOpen => "internal_error_fail_open",
        }
    }
}

/// What a statement is charged to: a kind of scope and the hash of its value.
#[derive(Debug, Clone, PartialEq, Eq, Hash)]
pub struct ScopeKey {
    pub kind: ScopeKind,
    pub value_hash: ScopeHash,
    pub debug_value: Option<String>,
}

/// A scope key with its value as a character sequence.
pub struct ScopeKeyView {
    pub kind: ScopeKind,
    pub value_hash: ScopeHash,
    pub debug_value: Option<Seq<char>>,
}

/// The characters of an optional string.
pub open spec fn opt_chars(value: Option<String>) -> Option<Seq<char>> {
    match value {
        Some(value) => Some(value@),
        None => None,
    }
}

impl View for ScopeKey {
    type V = ScopeKeyView;

    open spec fn view(&self) -> ScopeKeyView {
        ScopeKeyView {
            kind: self.kind,
            value_hash: self.value_hash,
            debug_value: opt_chars(self.debug_value),
        }
    }
}

impl ScopeKey {
    pub fn with_debug_value(kind: ScopeKind, value_hash: ScopeHash, debug_value: &str) -> (r:
        ScopeKey)
        ensures
            r@ == (ScopeKeyView { kind, value_hash, debug_value: Some(debug_value@) }),
    {
        ScopeKey { kind, value_hash, debug_value: Some(debug_value.to_owned()) }
    }
}

/// What admission looks at: the statement, its scope and its predicted WAL.
#[derive(Debug, Clone, PartialEq, Eq)]
pub struct AdmissionContext {
    pub query_id: Option<QueryId>,
    pub scope: ScopeKey,
    pub statement_class: StatementClass,
    pub predicted_wal_bytes: WalBytes,
}

#[derive(Debug, Clone, Copy, PartialEq, Eq)]
pub struct AdmissionDecision {
    pub kind: DecisionKind,
    pub policy_id: Option<PolicyId>,
    pub charged_bytes: WalBytes,
    pub available_before: WalBytes,
    pub available_after: WalBytes,
    pub reason_code: ReasonCode,
}

/// An admitted statement, from its start to its reconciliation.
#[derive(Debug, Clone, Copy, PartialEq, Eq)]
pub struct ActiveStatementState {
    pub decision: AdmissionDecision,
    pub start_wal_bytes: Option<WalBytes>,
    pub measurement_kind: WalMeasurementKind,
    pub query_id: Option<QueryId>,
    pub scope_kind: ScopeKind,
    pub scope_hash: ScopeHash,
    pub statement_class: StatementClass,
    pub predicted_wal_bytes: WalBytes,
}

#[derive(Debug, Clone, Copy, PartialEq, Eq, Structural)]
pub enum WalMeasurementKind {
    /// Exact per-backend WAL accounting from the backend-local WAL usage accumulator.
    ExactBackend,
    /// The distance between two cluster-wide insert positions, which includes the WAL of other
    /// backends.
    ApproximateInsertLsn,
    Unavailable,
}

impl AdmissionDecision {
    pub fn allowed(
        policy_id: Option<PolicyId>,
        charged_bytes: WalBytes,
        reason_code: ReasonCode,
    ) -> (r: AdmissionDecision)
        ensures
            r == (AdmissionDecision {
                kind: DecisionKind::Allowed,
                policy_id,
                charged_bytes,
                available_before: 0,
                available_after: 0,
                reason_code,
            }),
    {
        AdmissionDecision {
            kind: DecisionKind::Allowed,
            policy_id,
            charged_bytes,
            available_before: 0,
            available_after: 0,
            reason_code,
        }
    }

    pub fn would_reject(policy_id: PolicyId, charged_bytes: WalBytes) -> (r: AdmissionDecision)
        ensures
            r == (AdmissionDecision {
                kind: DecisionKind::WouldReject,
                policy_id: Some(policy_id),
                charged_bytes,
                available_before: 0,
                available_after: 0,
                reason_code: ReasonCode::BudgetExceeded,
            }),
    {
        AdmissionDecision {
            kind: DecisionKind::WouldReject,
            policy_id: Some(policy_id),
            charged_bytes,
            available_before: 0,
            available_after: 0,
            reason_code: ReasonCode::BudgetExceeded,
        }
    }

    pub fn rejected(policy_id: PolicyId, charged_bytes: WalBytes) -> (r: AdmissionDecision)
        ensures
            r == (AdmissionDecision {
                kind: DecisionKind::Rejected,
                policy_id: Some(policy_id),
                charged_bytes,
                available_before: 0,
                available_after: 0,
                reason_code: ReasonCode::BudgetExceeded,
            }),
    {
        AdmissionDecision {
            kind: DecisionKind::Rejected,
            policy_id: Some(policy_id),
            charged_bytes,
            available_before: 0,
            available_after: 0,
            reason_code: ReasonCode::BudgetExceeded,
        }
    }

    pub fn no_matching_policy() -> (r: AdmissionDecision)
        ensures
            r == (AdmissionDecision {
                kind: DecisionKind::NoMatchingPolicy,
                policy_id: None,
                charged_bytes: 0,
                available_before: 0,
                available_after: 0,
                reason_code: ReasonCode::NoMatchingPolicy,
            }),
    {
        AdmissionDecision {
            kind: DecisionKind::NoMatchingPolicy,
            policy_id: None,
            charged_bytes: 0,
            available_before: 0,
            available_after: 0,
            reason_code: ReasonCode::NoMatchingPolicy,
        }
    }

    pub fn internal_error_fail_open() -> (r: AdmissionDecision)
        ensures
            r == (AdmissionDecision {
                kind: DecisionKind::InternalErrorFailOpen,
                policy_id: None,
                charged_bytes: 0,
                available_before: 0,
                available_after: 0,
                reason_code: ReasonCode::InternalErrorFailOpen,
            }),
    {
        AdmissionDecision {
            kind: DecisionKind::InternalErrorFailOpen,
            policy_id: None,
            charged_bytes: 0,
            available_before: 0,
            available_after: 0,
            reason_code: ReasonCode::InternalErrorFailOpen,
        }
    }

    pub fn with_availability(self, available_before: WalBytes, available_after: WalBytes) -> (r:
        AdmissionDecision)
        ensures
            r == (AdmissionDecision { available_before, available_after, ..self }),
    {
        AdmissionDecision {
            kind: self.kind,
            policy_id: self.policy_id,
            charged_bytes: self.charged_bytes,
            available_before,
            available_after,
            reason_code: self.reason_code,
        }
    }
}

/// What has been learned of the WAL that a query generates.
#[derive(Debug, Clone, Copy, PartialEq, Eq)]
pub struct QueryWalProfile {
    pub calls: u64,
    pub ewma_wal_bytes: WalBytes,
    pub max_wal_bytes: WalBytes,
    pub last_seen_epoch_ms: EpochMillis,
}

/// The weight of the latest observation, `numerator / denominator`.
#[derive(Debug, Clone, Copy, PartialEq, Eq)]
pub struct ProfileEwmaWeights {
    pub numerator: u64,
    pub denominator: u64,
}

impl ProfileEwmaWeights {
    /// Whether the weight lies in `(0, 1]`.
    pub open spec fn wf(self) -> bool {
        0 < self.numerator <= self.denominator
    }

    pub fn new(numerator: u64, denominator: u64) -> (r: PwbResult<ProfileEwmaWeights>)
        ensures
            errors::same_result(
                r,
                if 0 < numerator <= denominator {
                    Ok(ProfileEwmaWeights { numerator, denominator })
                } else {
                    Err(
                        errors::internal(
                            "invalid profile EWMA weights: "@ + text::decimal(numerator as nat)
                                + "/"@ + text::decimal(denominator as nat),
                        ),
                    )
                },
            ),
    {
        if denominator == 0 || numerator == 0 || numerator > denominator {
            return Err(
                internal_error(
                    text::join4(
                        "invalid profile EWMA weights: ",
                        text::u64_to_decimal(numerator).as_str(),
                        "/",
                        text::u64_to_decimal(denominator).as_str(),
                    ),
                ),
            );
        }
        Ok(ProfileEwmaWeights { numerator, denominator })
    }
}

/// The exponentially weighted mean of an old mean and a new observation, rounded down.
pub open spec fn ewma(old: int, actual: int, numerator: int, denominator: int) -> int {
    (old * (denominator - numerator) + actual * numerator) / denominator
}

/// `a + b`, or the largest 64-bit number where that does not fit.
pub open spec fn sat_add(a: int, b: int) -> u64 {
    if a + b > u64::MAX {
        u64::MAX
    } else {
        (a + b) as u64
    }
}

/// The larger of two numbers.
pub open spec fn larger(a: u64, b: u64) -> u64 {
    if a >= b {
        a
    } else {
        b
    }
}

/// The smaller of two numbers.
pub open spec fn smaller(a: u64, b: u64) -> u64 {
    if a <= b {
        a
    } else {
        b
    }
}

proof fn lemma_ewma_between(old: int, actual: int, numerator: int, denominator: int)
    requires
        0 <= old,
        0 <= actual,
        0 < numerator <= denominator,
    ensures
        old <= actual ==> old <= ewma(old, actual, numerator, denominator) <= actual,
        actual <= old ==> actual <= ewma(old, actual, numerator, denominator) <= old,
        old * (denominator - numerator) >= 0,
        actual * numerator >= 0,
{
    let low = if old <= actual {
        old
    } else {
        actual
    };
    let high = if old <= actual {
        actual
    } else {
        old
    };
    let kept = denominator - numerator;
    let sum = old * kept + actual * numerator;
    assert(low * denominator <= sum <= high * denominator && old * kept >= 0 && actual * numerator
        >= 0) by (nonlinear_arith)
        requires
            0 <= low <= old <= high,
            low <= actual <= high,
            0 < numerator <= denominator,
            kept == denominator - numerator,
            sum == old * kept + actual * numerator,
    ;
    assert(low <= sum / denominator <= high) by (nonlinear_arith)
        requires
            low * denominator <= sum <= high * denominator,
            denominator > 0,
    ;
}

impl QueryWalProfile {
    /// Whether the mean does not exceed the maximum.
    pub open spec fn wf(self) -> bool {
        self.ewma_wal_bytes <= self.max_wal_bytes
    }

    /// The profile after one more observation.
    pub open spec fn observed(
        self,
        actual: WalBytes,
        now_epoch_ms: EpochMillis,
        weights: ProfileEwmaWeights,
    ) -> QueryWalProfile {
        QueryWalProfile {
            calls: sat_add(self.calls as int, 1),
            ewma_wal_bytes: ewma(
                self.ewma_wal_bytes as int,
                actual as int,
                weights.numerator as int,
                weights.denominator as int,
            ) as u64,
            max_wal_bytes: larger(self.max_wal_bytes, actual),
            last_seen_epoch_ms: now_epoch_ms,
        }
    }

    /// The profile of a first observation.
    pub open spec fn first(actual: WalBytes, now_epoch_ms: EpochMillis) -> QueryWalProfile {
        QueryWalProfile {
            calls: 1,
            ewma_wal_bytes: actual,
            max_wal_bytes: actual,
            last_seen_epoch_ms: now_epoch_ms,
        }
    }

    pub fn new(first_actual: WalBytes, now_epoch_ms: EpochMillis) -> (r: QueryWalProfile)
        ensures
            r == QueryWalProfile::first(first_actual, now_epoch_ms),
            r.wf(),
    {
        QueryWalProfile {
            calls: 1,
            ewma_wal_bytes: first_actual,
            max_wal_bytes: first_actual,
            last_seen_epoch_ms: now_epoch_ms,
        }
    }

    pub fn record_observation(
        &mut self,
        actual: WalBytes,
        now_epoch_ms: EpochMillis,
        alpha_numerator: u64,
        alpha_denominator: u64,
    )
        requires
            0 < alpha_numerator <= alpha_denominator,
        ensures
            *final(self) == old(self).observed(
                actual,
                now_epoch_ms,
                ProfileEwmaWeights { numerator: alpha_numerator, denominator: alpha_denominator },
            ),
            old(self).wf() ==> final(self).wf(),
    {
        let old_weight: u64 = alpha_denominator - alpha_numerator;
        proof {
            lemma_ewma_between(
                self.ewma_wal_bytes as int,
                actual as int,
                alpha_numerator as int,
                alpha_denominator as int,
            );
            assert(self.ewma_wal_bytes * old_weight <= u64::MAX * old_weight) by (nonlinear_arith)
                requires
                    self.ewma_wal_bytes <= u64::MAX,
            ;
            assert(actual * alpha_numerator <= u64::MAX * alpha_numerator) by (nonlinear_arith)
                requires
                    actual <= u64::MAX,
            ;
            assert(u64::MAX * old_weight + u64::MAX * alpha_numerator == u64::MAX
                * alpha_denominator) by (nonlinear_arith)
                requires
                    old_weight + alpha_numerator == alpha_denominator,
            ;
            assert(u64::MAX * alpha_denominator <= u128::MAX) by (nonlinear_arith)
                requires
                    alpha_denominator <= u64::MAX,
            ;
        }
        let weighted_sum: u128 = self.ewma_wal_bytes as u128 * old_weight as u128 + actual as u128
            * alpha_numerator as u128;
        let mean: u128 = weighted_sum / alpha_denominator as u128;
        self.ewma_wal_bytes = mean as u64;
        self.calls = self.calls.saturating_add(1);
        if actual > self.max_wal_bytes {
            self.max_wal_bytes = actual;
        }
        self.last_seen_epoch_ms = now_epoch_ms;
    }
}

/// The learned mean never leaves the range between its old value and the observation, and with a
/// weight of one it is the observation.
pub proof fn law_ewma_stays_between_old_mean_and_observation(
    profile: QueryWalProfile,
    actual: WalBytes,
    now_epoch_ms: EpochMillis,
    weights: ProfileEwmaWeights,
)
    requires
        weights.wf(),
    ensures
        ({
            let mean = profile.observed(actual, now_epoch_ms, weights).ewma_wal_bytes;
            &&& smaller(profile.ewma_wal_bytes, actual) <= mean <= larger(
                profile.ewma_wal_bytes,
                actual,
            )
            &&& weights.numerator == weights.denominator ==> mean == actual
        }),
{
    let old = profile.ewma_wal_bytes as int;
    let d = weights.denominator as int;
    lemma_ewma_between(old, actual as int, weights.numerator as int, d);
    if weights.numerator == weights.denominator {
        assert((old * (d - d) + actual * d) / d == actual) by (nonlinear_arith)
            requires
                d > 0,
        ;
    }
}

/// Observing the same amount again leaves a profile's mean and maximum where they are.
pub proof fn law_ewma_fixed_point(
    profile: QueryWalProfile,
    now_epoch_ms: EpochMillis,
    weights: ProfileEwmaWeights,
)
    requires
        weights.wf(),
        profile.wf(),
    ensures
        ({
            let after = profile.observed(profile.ewma_wal_bytes, now_epoch_ms, weights);
            &&& after.ewma_wal_bytes == profile.ewma_wal_bytes
            &&& after.max_wal_bytes == profile.max_wal_bytes
        }),
{
    law_ewma_stays_between_old_mean_and_observation(
        profile,
        profile.ewma_wal_bytes,
        now_epoch_ms,
        weights,
    );
}

proof fn lemma_lower_word_is_keyword(word: Seq<char>)
    requires
        word.len() > 0,
        forall|i: int| 0 <= i < word.len() ==> 'a' <= #[trigger] word[i] <= 'z',
    ensures
        text::keyword_form(word) == word,
{
    assert('a' <= word[0] <= 'z' && 'a' <= word[word.len() - 1] <= 'z');
    text::lemma_trimmed_is_identity(word);
    assert(text::ascii_lower(word) =~= word);
}

/// Reading the SQL name of a mode gives the mode back, so the names are told apart.
pub proof fn law_budget_mode_name_round_trip(mode: BudgetMode)
    ensures
        BudgetMode::parsed(mode.sql_name()) == Ok::<BudgetMode, PwbErrorView>(mode),
{
    reveal_strlit("off");
    reveal_strlit("observe");
    reveal_strlit("shadow");
    reveal_strlit("reject");
    reveal_strlit("queue");
    lemma_lower_word_is_keyword(mode.sql_name());
    assert("off"@.len() == 3 && "observe"@.len() == 7 && "shadow"@[0] == 's' && "reject"@[0] == 'r'
        && "queue"@.len() == 5);
}

/// Reading the SQL name of a scope kind gives the kind back, so the names are told apart.
pub proof fn law_scope_kind_name_round_trip(kind: ScopeKind)
    ensures
        ScopeKind::parsed(kind.sql_name()) == Ok::<ScopeKind, PwbErrorView>(kind),
{
    reveal_strlit("database");
    reveal_strlit("role");
    reveal_strlit("application");
    reveal_strlit("tenant");
    reveal_strlit("composite");
    lemma_lower_word_is_keyword(kind.sql_name());
    assert("database"@[0] == 'd' && "role"@[0] == 'r' && "application"@[0] == 'a' && "tenant"@[0]
        == 't' && "composite"@[0] == 'c');
}

/// The learned mean is the old mean and the observation weighed by their shares, rounded down: with the
/// weight `n / d` of the observation, `d` times the mean lies less than `d` below
/// `(d - n) * old + n * actual`.
pub proof fn law_mean_weighs_the_observation(
    profile: QueryWalProfile,
    actual: WalBytes,
    now_epoch_ms: EpochMillis,
    weights: ProfileEwmaWeights,
)
    requires
        0 < weights.numerator <= weights.denominator,
    ensures
        ({
            let mean = profile.observed(actual, now_epoch_ms, weights).ewma_wal_bytes;
            let weighed = (weights.denominator - weights.numerator) * profile.ewma_wal_bytes
                + weights.numerator * actual;
            weights.denominator * mean <= weighed < weights.denominator * mean + weights.denominator
        }),
{
    let n = weights.numerator as int;
    let d = weights.denominator as int;
    let old = profile.ewma_wal_bytes as int;
    let new = actual as int;
    lemma_ewma_between(old, new, n, d);
    let sum = old * (d - n) + new * n;
    let mean = sum / d;
    assert((d - n) * old + n * new == sum) by (nonlinear_arith)
        requires
            sum == old * (d - n) + new * n,
    ;
    assert(d * mean <= sum < d * mean + d) by (nonlinear_arith)
        requires
            mean == sum / d,
            d > 0,
    ;
    assert(profile.observed(actual, now_epoch_ms, weights).ewma_wal_bytes == mean);
}

/// An observation is counted once, raises the maximum exactly where it exceeds it, and marks the time.
/// A first observation is the mean and the maximum.
pub proof fn law_observation_is_counted_once(
    profile: QueryWalProfile,
    actual: WalBytes,
    now_epoch_ms: EpochMillis,
    weights: ProfileEwmaWeights,
)
    ensures
        ({
            let after = profile.observed(actual, now_epoch_ms, weights);
            &&& profile.calls < u64::MAX ==> after.calls == profile.calls + 1
            &&& profile.calls == u64::MAX ==> after.calls == u64::MAX
            &&& actual > profile.max_wal_bytes ==> after.max_wal_bytes == actual
            &&& actual <= profile.max_wal_bytes ==> after.max_wal_bytes == profile.max_wal_bytes
            &&& after.last_seen_epoch_ms == now_epoch_ms
        }),
        ({
            let first = QueryWalProfile::first(actual, now_epoch_ms);
            &&& first.calls == 1
            &&& first.ewma_wal_bytes == actual
            &&& first.max_wal_bytes == actual
            &&& first.last_seen_epoch_ms == now_epoch_ms
        }),
{
}

/// Modes, kinds of scope, decisions, classes and reasons are called in SQL what they are called here.
pub proof fn law_sql_names_are_the_documented_ones()
    ensures
        BudgetMode::Off.sql_name() == "off"@,
        BudgetMode::Observe.sql_name() == "observe"@,
        BudgetMode::Shadow.sql_name() == "shadow"@,
        BudgetMode::Reject.sql_name() == "reject"@,
        BudgetMode::Queue.sql_name() == "queue"@,
        ScopeKind::Database.sql_name() == "database"@,
        ScopeKind::Role.sql_name() == "role"@,
        ScopeKind::Application.sql_name() == "application"@,
        ScopeKind::Tenant.sql_name() == "tenant"@,
        ScopeKind::Composite.sql_name() == "composite"@,
        DecisionKind::Allowed.sql_name() == "allowed"@,
        DecisionKind::WouldReject.sql_name() == "would_reject"@,
        DecisionKind::Rejected.sql_name() == "rejected"@,
        DecisionKind::NoMatchingPolicy.sql_name() == "no_matching_policy"@,
        DecisionKind::MissingScope.sql_name() == "missing_scope"@,
        DecisionKind::InternalErrorFailOpen.sql_name() == "internal_error_fail_open"@,
        StatementClass::ReadOnly.sql_name() == "read_only"@,
        StatementClass::Write.sql_name() == "write"@,
        StatementClass::Utility.sql_name() == "utility"@,
        StatementClass::Copy.sql_name() == "copy"@,
        StatementClass::Unknown.sql_name() == "unknown"@,
        ReasonCode::PolicyDisabled.sql_name() == "policy_disabled"@,
        ReasonCode::PolicyMatched.sql_name() == "policy_matched"@,
        ReasonCode::BudgetAvailable.sql_name() == "budget_available"@,
        ReasonCode::BudgetExceeded.sql_name() == "budget_exceeded"@,
        ReasonCode::ObserveMode.sql_name() == "observe_mode"@,
        ReasonCode::ShadowMode.sql_name() == "shadow_mode"@,
        ReasonCode::NoMatchingPolicy.sql_name() == "no_matching_policy"@,
        ReasonCode::MissingScope.sql_name() == "missing_scope"@,
        ReasonCode::PredictionUnavailable.sql_name() == "prediction_unavailable"@,
        ReasonCode::InternalErrorFailOpen.sql_name() == "internal_error_fail_open"@,
{
}

/// A text names a mode or a kind of scope exactly where it is the SQL name, white space around it and the
/// case of its letters aside; any other text is an error that repeats it.
pub proof fn law_names_are_read_without_case_and_space(
    input: Seq<char>,
    mode: BudgetMode,
    kind: ScopeKind,
)
    ensures
        BudgetMode::parsed(input) == Ok::<BudgetMode, PwbErrorView>(mode) <==> text::ascii_lower(
            text::trimmed(input),
        ) == mode.sql_name(),
        BudgetMode::parsed(input) matches Err(error) ==> error
            == (PwbErrorView::InvalidBudgetMode { value: input }),
        ScopeKind::parsed(input) == Ok::<ScopeKind, PwbErrorView>(kind) <==> text::ascii_lower(
            text::trimmed(input),
        ) == kind.sql_name(),
        ScopeKind::parsed(input) matches Err(error) ==> error == (PwbErrorView::InvalidScopeKind {
            value: input,
        }),
{
    reveal_strlit("off");
    reveal_strlit("observe");
    reveal_strlit("shadow");
    reveal_strlit("reject");
    reveal_strlit("queue");
    assert("off"@.len() == 3 && "observe"@.len() == 7 && "shadow"@.len() == 6 && "shadow"@[0] == 's'
        && "reject"@.len() == 6 && "reject"@[0] == 'r' && "queue"@.len() == 5);
    reveal_strlit("database");
    reveal_strlit("role");
    reveal_strlit("application");
    reveal_strlit("tenant");
    reveal_strlit("composite");
    assert("database"@[0] == 'd' && "role"@[0] == 'r' && "application"@[0] == 'a' && "tenant"@[0]
        == 't' && "composite"@[0] == 'c');
}

} // verus!
