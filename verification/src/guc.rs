//! The settings and what the library reads from them.

use vstd::prelude::*;

use crate::errors;
use crate::errors::{internal_error, PwbErrorView, PwbResult};
use crate::shmem;
use crate::shmem::layout::{compute_layout, SharedCapacities, SharedLayout};
use crate::text;
use crate::types::{ProfileEwmaWeights, WalBytes};

verus! {

pub const DEFAULT_WRITE_WAL_BYTES_VALUE: i32 = 16_384;

pub const DEFAULT_UTILITY_WAL_BYTES_VALUE: i32 = 1_048_576;

pub const MAX_PREDICTION_BYTES_VALUE: i32 = 1_073_741_824;

pub const SHMEM_CAPACITY_VALUE: i32 = 4096;

pub const INHERIT_CAPACITY_VALUE: i32 = -1;

pub const MAX_CAPACITY_VALUE: i32 = 1_000_000;

pub const PROFILE_EWMA_ALPHA_DENOMINATOR: u64 = 1_000_000;

pub const DEFAULT_PROFILE_EWMA_ALPHA_NUMERATOR: u64 = 500_000;

/// How the WAL of a statement is predicted.
#[derive(Debug, Clone, Copy, PartialEq, Eq, Structural)]
pub enum PredictorKind {
    ProfileEwma,
    StatementClassFallback,
}

impl PredictorKind {
    /// The name of the predictor in the settings.
    pub open spec fn setting_name(self) -> Seq<char> {
        match self {
            PredictorKind::ProfileEwma => "profile_ewma"@,
            PredictorKind::StatementClassFallback => "statement_class_fallback"@,
        }
    }

    pub fn as_setting_str(self) -> (r: &'static str)
        ensures
            r@ == self.setting_name(),
    {
        match self {
            PredictorKind::ProfileEwma => "profile_ewma",
            PredictorKind::StatementClassFallback => "statement_class_fallback",
        }
    }
}

/// The smoothing factor of the query profiles, in fractions of `PROFILE_EWMA_ALPHA_DENOMINATOR`.
#[derive(Debug, Clone, PartialEq, Eq)]
pub enum ProfileEwmaAlpha {
    /// A factor in the accepted range, rounded.
    Scaled(u64),
    /// A factor outside of the accepted range, as it is written.
    Invalid(String),
}

/// The values of the settings at some time.
#[derive(Debug, Clone, PartialEq, Eq)]
pub struct GucSettings {
    pub enabled: bool,
    pub fail_open: bool,
    pub default_write_wal_bytes: i32,
    pub default_utility_wal_bytes: i32,
    pub max_prediction_bytes: i32,
    pub shmem_capacity: i32,
    pub recent_decision_capacity: i32,
    pub profile_cache_capacity: i32,
    pub budget_bucket_capacity: i32,
    pub composite_scope_enabled: bool,
    pub predictor: PredictorKind,
    pub profile_ewma_alpha: ProfileEwmaAlpha,
}

/// A number of bytes or slots in a setting, where a negative number means none.
pub open spec fn nonnegative(value: i32) -> int {
    if value <= 0 {
        0
    } else {
        value as int
    }
}

impl GucSettings {
    /// Whether the capacities lie in their accepted ranges.
    pub open spec fn capacities_in_range(self) -> bool {
        &&& 0 <= self.shmem_capacity <= MAX_CAPACITY_VALUE
        &&& INHERIT_CAPACITY_VALUE <= self.recent_decision_capacity <= MAX_CAPACITY_VALUE
        &&& INHERIT_CAPACITY_VALUE <= self.profile_cache_capacity <= MAX_CAPACITY_VALUE
        &&& INHERIT_CAPACITY_VALUE <= self.budget_bucket_capacity <= MAX_CAPACITY_VALUE
    }

    /// A capacity of its own, or the common one where the setting says to inherit it.
    pub open spec fn capacity(self, value: i32) -> int {
        if value == INHERIT_CAPACITY_VALUE {
            nonnegative(self.shmem_capacity)
        } else {
            nonnegative(value)
        }
    }

    /// The capacities of the shared tables. The scope names take the common capacity.
    pub open spec fn capacities(self) -> SharedCapacities {
        SharedCapacities {
            recent_decisions: self.capacity(self.recent_decision_capacity) as usize,
            profiles: self.capacity(self.profile_cache_capacity) as usize,
            budget_buckets: self.capacity(self.budget_bucket_capacity) as usize,
            scope_names: nonnegative(self.shmem_capacity) as usize,
        }
    }

    /// The weights of the query profiles.
    pub open spec fn ewma_weights(self) -> Result<ProfileEwmaWeights, PwbErrorView> {
        match self.profile_ewma_alpha {
            ProfileEwmaAlpha::Scaled(numerator) => Ok(
                ProfileEwmaWeights {
                    numerator: if numerator == 0 {
                        1
                    } else if numerator > PROFILE_EWMA_ALPHA_DENOMINATOR {
                        PROFILE_EWMA_ALPHA_DENOMINATOR
                    } else {
                        numerator
                    },
                    denominator: PROFILE_EWMA_ALPHA_DENOMINATOR,
                },
            ),
            ProfileEwmaAlpha::Invalid(alpha) => Err(
                errors::internal("invalid profile EWMA alpha: "@ + alpha@),
            ),
        }
    }
}

impl Default for GucSettings {
    fn default() -> (r: GucSettings)
        ensures
            r == (GucSettings {
                enabled: true,
                fail_open: true,
                default_write_wal_bytes: DEFAULT_WRITE_WAL_BYTES_VALUE,
                default_utility_wal_bytes: DEFAULT_UTILITY_WAL_BYTES_VALUE,
                max_prediction_bytes: MAX_PREDICTION_BYTES_VALUE,
                shmem_capacity: SHMEM_CAPACITY_VALUE,
                recent_decision_capacity: INHERIT_CAPACITY_VALUE,
                profile_cache_capacity: INHERIT_CAPACITY_VALUE,
                budget_bucket_capacity: INHERIT_CAPACITY_VALUE,
                composite_scope_enabled: false,
                predictor: PredictorKind::ProfileEwma,
                profile_ewma_alpha: ProfileEwmaAlpha::Scaled(DEFAULT_PROFILE_EWMA_ALPHA_NUMERATOR),
            }),
            r.capacities_in_range(),
    {
        GucSettings {
            enabled: true,
            fail_open: true,
            default_write_wal_bytes: DEFAULT_WRITE_WAL_BYTES_VALUE,
            default_utility_wal_bytes: DEFAULT_UTILITY_WAL_BYTES_VALUE,
            max_prediction_bytes: MAX_PREDICTION_BYTES_VALUE,
            shmem_capacity: SHMEM_CAPACITY_VALUE,
            recent_decision_capacity: INHERIT_CAPACITY_VALUE,
            profile_cache_capacity: INHERIT_CAPACITY_VALUE,
            budget_bucket_capacity: INHERIT_CAPACITY_VALUE,
            composite_scope_enabled: false,
            predictor: PredictorKind::ProfileEwma,
            profile_ewma_alpha: ProfileEwmaAlpha::Scaled(DEFAULT_PROFILE_EWMA_ALPHA_NUMERATOR),
        }
    }
}

pub fn enabled(settings: &GucSettings) -> (r: bool)
    ensures
        r == settings.enabled,
{
    settings.enabled
}

pub fn fail_open(settings: &GucSettings) -> (r: bool)
    ensures
        r == settings.fail_open,
{
    settings.fail_open
}

pub fn default_write_wal_bytes(settings: &GucSettings) -> (r: WalBytes)
    ensures
        r == nonnegative(settings.default_write_wal_bytes),
{
    nonnegative_i32_to_wal_bytes(settings.default_write_wal_bytes)
}

pub fn default_utility_wal_bytes(settings: &GucSettings) -> (r: WalBytes)
    ensures
        r == nonnegative(settings.default_utility_wal_bytes),
{
    nonnegative_i32_to_wal_bytes(settings.default_utility_wal_bytes)
}

pub fn max_prediction_bytes(settings: &GucSettings) -> (r: WalBytes)
    ensures
        r == nonnegative(settings.max_prediction_bytes),
{
    nonnegative_i32_to_wal_bytes(settings.max_prediction_bytes)
}

pub fn shmem_capacity(settings: &GucSettings) -> (r: usize)
    ensures
        r == nonnegative(settings.shmem_capacity),
{
    nonnegative_i32_to_usize(settings.shmem_capacity)
}

pub fn recent_decision_capacity(settings: &GucSettings) -> (r: usize)
    ensures
        r == settings.capacity(settings.recent_decision_capacity),
{
    specific_or_legacy_capacity(settings, settings.recent_decision_capacity)
}

pub fn profile_cache_capacity(settings: &GucSettings) -> (r: usize)
    ensures
        r == settings.capacity(settings.profile_cache_capacity),
{
    specific_or_legacy_capacity(settings, settings.profile_cache_capacity)
}

pub fn budget_bucket_capacity(settings: &GucSettings) -> (r: usize)
    ensures
        r == settings.capacity(settings.budget_bucket_capacity),
{
    specific_or_legacy_capacity(settings, settings.budget_bucket_capacity)
}

pub fn composite_scope_enabled(settings: &GucSettings) -> (r: bool)
    ensures
        r == settings.composite_scope_enabled,
{
    settings.composite_scope_enabled
}

pub fn predictor_kind(settings: &GucSettings) -> (r: PredictorKind)
    ensures
        r == settings.predictor,
{
    settings.predictor
}

pub fn profile_ewma_alpha_weights(settings: &GucSettings) -> (r: PwbResult<ProfileEwmaWeights>)
    ensures
        errors::same_result(r, settings.ewma_weights()),
        r matches Ok(weights) ==> weights.wf(),
{
    match &settings.profile_ewma_alpha {
        ProfileEwmaAlpha::Scaled(numerator) => {
            let numerator: u64 = if *numerator == 0 {
                1
            } else if *numerator > PROFILE_EWMA_ALPHA_DENOMINATOR {
                PROFILE_EWMA_ALPHA_DENOMINATOR
            } else {
                *numerator
            };
            ProfileEwmaWeights::new(numerator, PROFILE_EWMA_ALPHA_DENOMINATOR)
        },
        ProfileEwmaAlpha::Invalid(alpha) => Err(
            internal_error(text::join2("invalid profile EWMA alpha: ", alpha.as_str())),
        ),
    }
}

pub fn nonnegative_i32_to_wal_bytes(value: i32) -> (r: WalBytes)
    ensures
        r == nonnegative(value),
{
    if value <= 0 {
        0
    } else {
        value as u64
    }
}

pub fn nonnegative_i32_to_usize(value: i32) -> (r: usize)
    ensures
        r == nonnegative(value),
{
    if value <= 0 {
        0
    } else {
        value as usize
    }
}

pub fn specific_or_legacy_capacity(settings: &GucSettings, value: i32) -> (r: usize)
    ensures
        r == settings.capacity(value),
{
    if value == INHERIT_CAPACITY_VALUE {
        shmem_capacity(settings)
    } else {
        nonnegative_i32_to_usize(value)
    }
}

/// The layout of the shared region that the settings ask for.
pub fn requested_layout(settings: &GucSettings) -> (r: PwbResult<SharedLayout>)
    ensures
        errors::same_result(
            r,
            if settings.capacities().fits() {
                Ok(settings.capacities().layout())
            } else {
                Err(shmem::layout::overflow_error())
            },
        ),
        r matches Ok(layout) ==> shmem::capacities_fit(layout),
{
    compute_layout(
        SharedCapacities {
            recent_decisions: recent_decision_capacity(settings),
            profiles: profile_cache_capacity(settings),
            budget_buckets: budget_bucket_capacity(settings),
            scope_names: shmem_capacity(settings),
        },
    )
}

/// Capacities in their accepted ranges never exceed the largest capacity, and a table takes the common
/// capacity exactly where its own setting says so.
pub proof fn law_capacities_stay_in_range(settings: GucSettings)
    requires
        settings.capacities_in_range(),
    ensures
        settings.capacities().recent_decisions <= MAX_CAPACITY_VALUE,
        settings.capacities().profiles <= MAX_CAPACITY_VALUE,
        settings.capacities().budget_buckets <= MAX_CAPACITY_VALUE,
        settings.capacities().scope_names <= MAX_CAPACITY_VALUE,
        settings.recent_decision_capacity != INHERIT_CAPACITY_VALUE
            ==> settings.capacities().recent_decisions == settings.recent_decision_capacity,
        settings.profile_cache_capacity != INHERIT_CAPACITY_VALUE
            ==> settings.capacities().profiles == settings.profile_cache_capacity,
        settings.budget_bucket_capacity != INHERIT_CAPACITY_VALUE
            ==> settings.capacities().budget_buckets == settings.budget_bucket_capacity,
{
}

/// When a setting can be changed.
#[derive(Debug, Clone, Copy, PartialEq, Eq, Structural)]
pub enum GucContext {
    /// While the server runs.
    Sighup,
    /// When the server starts.
    Postmaster,
}

/// The values that a setting can take, and the one that it starts with.
#[derive(Debug, Clone, Copy, PartialEq, Eq)]
pub enum GucValue {
    Bool { default: bool },
    Int { default: i32, min: i32, max: i32 },
    /// A fraction, in parts of `PROFILE_EWMA_ALPHA_DENOMINATOR`.
    Alpha { default: u64, min: u64, max: u64 },
    Predictor { default: PredictorKind },
}

/// A setting as it is registered with the server.
#[derive(Debug, Clone, Copy, PartialEq, Eq)]
pub struct GucDefinition {
    pub name: &'static str,
    pub summary: &'static str,
    pub description: &'static str,
    pub value: GucValue,
    pub context: GucContext,
    /// Whether the setting is a number of bytes.
    pub unit_is_byte: bool,
}

/// A setting with its texts as character sequences.
pub struct GucDefinitionView {
    pub name: Seq<char>,
    pub summary: Seq<char>,
    pub description: Seq<char>,
    pub value: GucValue,
    pub context: GucContext,
    pub unit_is_byte: bool,
}

impl View for GucDefinition {
    type V = GucDefinitionView;

    open spec fn view(&self) -> GucDefinitionView {
        GucDefinitionView {
            name: self.name@,
            summary: self.summary@,
            description: self.description@,
            value: self.value,
            context: self.context,
            unit_is_byte: self.unit_is_byte,
        }
    }
}

/// The views of a sequence of settings.
pub open spec fn definition_views(definitions: Seq<GucDefinition>) -> Seq<GucDefinitionView> {
    Seq::new(definitions.len(), |i: int| definitions[i]@)
}

/// The settings that switch the library.
pub open spec fn runtime_gucs() -> Seq<GucDefinitionView> {
    seq![
        GucDefinitionView {
            name: "pwb.enabled"@,
            summary: "Enables pg_wal_budget admission checks."@,
            description: "Enables pg_wal_budget hook behavior. When disabled, future hooks should allow statements without budget accounting."@,
            value: GucValue::Bool { default: true },
            context: GucContext::Sighup,
            unit_is_byte: false,
        },
        GucDefinitionView {
            name: "pwb.fail_open"@,
            summary: "Allows statements when pg_wal_budget hits an internal error."@,
            description: "Controls whether pg_wal_budget allows statements after internal classification, prediction, or accounting errors."@,
            value: GucValue::Bool { default: true },
            context: GucContext::Sighup,
            unit_is_byte: false,
        },
    ]
}

pub fn register_runtime_gucs() -> (r: Vec<GucDefinition>)
    ensures
        definition_views(r@) == runtime_gucs(),
{
    let definitions = vec![
        GucDefinition {
            name: "pwb.enabled",
            summary: "Enables pg_wal_budget admission checks.",
            description: "Enables pg_wal_budget hook behavior. When disabled, future hooks should allow statements without budget accounting.",
            value: GucValue::Bool { default: true },
            context: GucContext::Sighup,
            unit_is_byte: false,
        },
        GucDefinition {
            name: "pwb.fail_open",
            summary: "Allows statements when pg_wal_budget hits an internal error.",
            description: "Controls whether pg_wal_budget allows statements after internal classification, prediction, or accounting errors.",
            value: GucValue::Bool { default: true },
            context: GucContext::Sighup,
            unit_is_byte: false,
        },
    ];
    assert(definition_views(definitions@) =~= runtime_gucs());
    definitions
}

/// The settings of predictions and scopes.
pub open spec fn prediction_gucs() -> Seq<GucDefinitionView> {
    seq![
        GucDefinitionView {
            name: "pwb.default_write_wal_bytes"@,
            summary: "Fallback WAL prediction for write statements."@,
            description: "Fallback predicted WAL bytes used for write statements without a learned query profile."@,
            value: GucValue::Int {
                default: DEFAULT_WRITE_WAL_BYTES_VALUE,
                min: 0,
                max: i32::MAX,
            },
            context: GucContext::Sighup,
            unit_is_byte: true,
        },
        GucDefinitionView {
            name: "pwb.default_utility_wal_bytes"@,
            summary: "Fallback WAL prediction for utility statements."@,
            description: "Fallback predicted WAL bytes used for utility and COPY statements without a learned query profile."@,
            value: GucValue::Int {
                default: DEFAULT_UTILITY_WAL_BYTES_VALUE,
                min: 0,
                max: i32::MAX,
            },
            context: GucContext::Sighup,
            unit_is_byte: true,
        },
        GucDefinitionView {
            name: "pwb.max_prediction_bytes"@,
            summary: "Maximum WAL prediction."@,
            description: "Upper bound applied to pg_wal_budget predicted WAL bytes before admission decisions."@,
            value: GucValue::Int {
                default: MAX_PREDICTION_BYTES_VALUE,
                min: 0,
                max: i32::MAX,
            },
            context: GucContext::Sighup,
            unit_is_byte: true,
        },
        GucDefinitionView {
            name: "pwb.profile_ewma_alpha"@,
            summary: "EWMA smoothing factor for query WAL profiles."@,
            description: "Controls how strongly learned pg_wal_budget query WAL profiles weight the latest observation. Higher values react faster; lower values smooth over more history."@,
            value: GucValue::Alpha {
                default: DEFAULT_PROFILE_EWMA_ALPHA_NUMERATOR,
                min: 1,
                max: PROFILE_EWMA_ALPHA_DENOMINATOR,
            },
            context: GucContext::Sighup,
            unit_is_byte: false,
        },
        GucDefinitionView {
            name: "pwb.composite_scope_enabled"@,
            summary: "Enables composite pg_wal_budget scope classification."@,
            description: "Classifies statements by a canonical composite scope when at least two scope components are available. When disabled, pg_wal_budget uses tenant, role, database, then application precedence."@,
            value: GucValue::Bool { default: false },
            context: GucContext::Sighup,
            unit_is_byte: false,
        },
        GucDefinitionView {
            name: "pwb.predictor"@,
            summary: "Selects the pg_wal_budget WAL predictor."@,
            description: "Supported values are profile_ewma and statement_class_fallback."@,
            value: GucValue::Predictor { default: PredictorKind::ProfileEwma },
            context: GucContext::Sighup,
            unit_is_byte: false,
        },
    ]
}

pub fn register_prediction_gucs() -> (r: Vec<GucDefinition>)
    ensures
        definition_views(r@) == prediction_gucs(),
{
    let definitions = vec![
        GucDefinition {
            name: "pwb.default_write_wal_bytes",
            summary: "Fallback WAL prediction for write statements.",
            description: "Fallback predicted WAL bytes used for write statements without a learned query profile.",
            value: GucValue::Int {
                default: DEFAULT_WRITE_WAL_BYTES_VALUE,
                min: 0,
                max: i32::MAX,
            },
            context: GucContext::Sighup,
            unit_is_byte: true,
        },
        GucDefinition {
            name: "pwb.default_utility_wal_bytes",
            summary: "Fallback WAL prediction for utility statements.",
            description: "Fallback predicted WAL bytes used for utility and COPY statements without a learned query profile.",
            value: GucValue::Int {
                default: DEFAULT_UTILITY_WAL_BYTES_VALUE,
                min: 0,
                max: i32::MAX,
            },
            context: GucContext::Sighup,
            unit_is_byte: true,
        },
        GucDefinition {
            name: "pwb.max_prediction_bytes",
            summary: "Maximum WAL prediction.",
            description: "Upper bound applied to pg_wal_budget predicted WAL bytes before admission decisions.",
            value: GucValue::Int {
                default: MAX_PREDICTION_BYTES_VALUE,
                min: 0,
                max: i32::MAX,
            },
            context: GucContext::Sighup,
            unit_is_byte: true,
        },
        GucDefinition {
            name: "pwb.profile_ewma_alpha",
            summary: "EWMA smoothing factor for query WAL profiles.",
            description: "Controls how strongly learned pg_wal_budget query WAL profiles weight the latest observation. Higher values react faster; lower values smooth over more history.",
            value: GucValue::Alpha {
                default: DEFAULT_PROFILE_EWMA_ALPHA_NUMERATOR,
                min: 1,
                max: PROFILE_EWMA_ALPHA_DENOMINATOR,
            },
            context: GucContext::Sighup,
            unit_is_byte: false,
        },
        GucDefinition {
            name: "pwb.composite_scope_enabled",
            summary: "Enables composite pg_wal_budget scope classification.",
            description: "Classifies statements by a canonical composite scope when at least two scope components are available. When disabled, pg_wal_budget uses tenant, role, database, then application precedence.",
            value: GucValue::Bool { default: false },
            context: GucContext::Sighup,
            unit_is_byte: false,
        },
        GucDefinition {
            name: "pwb.predictor",
            summary: "Selects the pg_wal_budget WAL predictor.",
            description: "Supported values are profile_ewma and statement_class_fallback.",
            value: GucValue::Predictor { default: PredictorKind::ProfileEwma },
            context: GucContext::Sighup,
            unit_is_byte: false,
        },
    ];
    assert(definition_views(definitions@) =~= prediction_gucs());
    definitions
}

/// The settings of the capacities.
pub open spec fn capacity_gucs() -> Seq<GucDefinitionView> {
    seq![
        GucDefinitionView {
            name: "pwb.shmem_capacity"@,
            summary: "Default shared memory array capacity."@,
            description: "Legacy default capacity for pg_wal_budget shared-memory arrays. Specific capacity GUCs override it for recent decisions, query WAL profiles, and budget buckets. Changes require restart."@,
            value: GucValue::Int {
                default: SHMEM_CAPACITY_VALUE,
                min: 0,
                max: MAX_CAPACITY_VALUE,
            },
            context: GucContext::Postmaster,
            unit_is_byte: false,
        },
        GucDefinitionView {
            name: "pwb.recent_decision_capacity"@,
            summary: "Recent decision ring capacity."@,
            description: "Capacity of the pg_wal_budget recent-decision shared-memory ring. -1 inherits pwb.shmem_capacity. Changes require restart."@,
            value: GucValue::Int {
                default: INHERIT_CAPACITY_VALUE,
                min: INHERIT_CAPACITY_VALUE,
                max: MAX_CAPACITY_VALUE,
            },
            context: GucContext::Postmaster,
            unit_is_byte: false,
        },
        GucDefinitionView {
            name: "pwb.profile_cache_capacity"@,
            summary: "Query WAL profile cache capacity."@,
            description: "Capacity of the pg_wal_budget shared-memory query profile cache. -1 inherits pwb.shmem_capacity. Changes require restart."@,
            value: GucValue::Int {
                default: INHERIT_CAPACITY_VALUE,
                min: INHERIT_CAPACITY_VALUE,
                max: MAX_CAPACITY_VALUE,
            },
            context: GucContext::Postmaster,
            unit_is_byte: false,
        },
        GucDefinitionView {
            name: "pwb.budget_bucket_capacity"@,
            summary: "Budget bucket capacity."@,
            description: "Capacity of the pg_wal_budget shared-memory budget bucket array. -1 inherits pwb.shmem_capacity. Changes require restart."@,
            value: GucValue::Int {
                default: INHERIT_CAPACITY_VALUE,
                min: INHERIT_CAPACITY_VALUE,
                max: MAX_CAPACITY_VALUE,
            },
            context: GucContext::Postmaster,
            unit_is_byte: false,
        },
    ]
}

pub fn register_capacity_gucs() -> (r: Vec<GucDefinition>)
    ensures
        definition_views(r@) == capacity_gucs(),
{
    let definitions = vec![
        GucDefinition {
            name: "pwb.shmem_capacity",
            summary: "Default shared memory array capacity.",
            description: "Legacy default capacity for pg_wal_budget shared-memory arrays. Specific capacity GUCs override it for recent decisions, query WAL profiles, and budget buckets. Changes require restart.",
            value: GucValue::Int {
                default: SHMEM_CAPACITY_VALUE,
                min: 0,
                max: MAX_CAPACITY_VALUE,
            },
            context: GucContext::Postmaster,
            unit_is_byte: false,
        },
        GucDefinition {
            name: "pwb.recent_decision_capacity",
            summary: "Recent decision ring capacity.",
            description: "Capacity of the pg_wal_budget recent-decision shared-memory ring. -1 inherits pwb.shmem_capacity. Changes require restart.",
            value: GucValue::Int {
                default: INHERIT_CAPACITY_VALUE,
                min: INHERIT_CAPACITY_VALUE,
                max: MAX_CAPACITY_VALUE,
            },
            context: GucContext::Postmaster,
            unit_is_byte: false,
        },
        GucDefinition {
            name: "pwb.profile_cache_capacity",
            summary: "Query WAL profile cache capacity.",
            description: "Capacity of the pg_wal_budget shared-memory query profile cache. -1 inherits pwb.shmem_capacity. Changes require restart.",
            value: GucValue::Int {
                default: INHERIT_CAPACITY_VALUE,
                min: INHERIT_CAPACITY_VALUE,
                max: MAX_CAPACITY_VALUE,
            },
            context: GucContext::Postmaster,
            unit_is_byte: false,
        },
        GucDefinition {
            name: "pwb.budget_bucket_capacity",
            summary: "Budget bucket capacity.",
            description: "Capacity of the pg_wal_budget shared-memory budget bucket array. -1 inherits pwb.shmem_capacity. Changes require restart.",
            value: GucValue::Int {
                default: INHERIT_CAPACITY_VALUE,
                min: INHERIT_CAPACITY_VALUE,
                max: MAX_CAPACITY_VALUE,
            },
            context: GucContext::Postmaster,
            unit_is_byte: false,
        },
    ];
    assert(definition_views(definitions@) =~= capacity_gucs());
    definitions
}

/// All settings: what switches the library, what predictions and scopes depend on, and the capacities.
pub fn register_gucs() -> (r: Vec<GucDefinition>)
    ensures
        definition_views(r@) == runtime_gucs() + prediction_gucs() + capacity_gucs(),
{
    let mut definitions = register_runtime_gucs();
    let mut prediction = register_prediction_gucs();
    let mut capacity = register_capacity_gucs();
    let ghost first = definitions@;
    let ghost second = prediction@;
    let ghost third = capacity@;
    definitions.append(&mut prediction);
    definitions.append(&mut capacity);
    assert(definition_views(first + second + third) =~= definition_views(first) + definition_views(
        second,
    ) + definition_views(third));
    definitions
}

/// Every setting starts with a value that it accepts.
pub proof fn law_settings_start_in_range(i: int)
    requires
        0 <= i < (runtime_gucs() + prediction_gucs() + capacity_gucs()).len(),
    ensures
        match (runtime_gucs() + prediction_gucs() + capacity_gucs())[i].value {
            GucValue::Int { default, min, max } => min <= default <= max,
            GucValue::Alpha { default, min, max } => 0 < min <= default <= max,
            _ => true,
        },
{
}

/// The weight of an observation is the smoothing factor in millionths, kept between one millionth and one;
/// a factor outside of the accepted range is an error. A capacity is its own setting, or the common one
/// where its own is minus one, and never negative.
pub proof fn law_settings_are_taken_as_written(settings: GucSettings)
    ensures
        match settings.profile_ewma_alpha {
            ProfileEwmaAlpha::Scaled(millionths) => settings.ewma_weights() matches Ok(weights) && {
                &&& weights.denominator == 1_000_000
                &&& 1 <= millionths <= 1_000_000 ==> weights.numerator == millionths
                &&& millionths == 0 ==> weights.numerator == 1
                &&& millionths > 1_000_000 ==> weights.numerator == 1_000_000
            },
            ProfileEwmaAlpha::Invalid(_) => settings.ewma_weights() is Err,
        },
        ({
            let tables = settings.capacities();
            &&& settings.shmem_capacity >= 0 ==> tables.scope_names == settings.shmem_capacity
            &&& settings.shmem_capacity < 0 ==> tables.scope_names == 0
            &&& settings.recent_decision_capacity >= 0 ==> tables.recent_decisions
                == settings.recent_decision_capacity
            &&& settings.recent_decision_capacity == -1 ==> tables.recent_decisions
                == tables.scope_names
            &&& settings.recent_decision_capacity < -1 ==> tables.recent_decisions == 0
            &&& settings.profile_cache_capacity >= 0 ==> tables.profiles
                == settings.profile_cache_capacity
            &&& settings.profile_cache_capacity == -1 ==> tables.profiles == tables.scope_names
            &&& settings.profile_cache_capacity < -1 ==> tables.profiles == 0
            &&& settings.budget_bucket_capacity >= 0 ==> tables.budget_buckets
                == settings.budget_bucket_capacity
            &&& settings.budget_bucket_capacity == -1 ==> tables.budget_buckets
                == tables.scope_names
            &&& settings.budget_bucket_capacity < -1 ==> tables.budget_buckets == 0
        }),
{
}

/// Without any setting the extension is on, lets statements through on internal errors, predicts by
/// profiles with a factor of one half and falls back to 16 kB for writes and 1 MB for utilities, predicts
/// at most 1 GB, and has room for 4096 entries in every table.
pub proof fn law_defaults_are_the_documented_ones(settings: GucSettings)
    requires
        call_ensures(<GucSettings as Default>::default, (), settings),
    ensures
        settings.enabled,
        settings.fail_open,
        settings.predictor == PredictorKind::ProfileEwma,
        !settings.composite_scope_enabled,
        settings.default_write_wal_bytes == 16 * 1024,
        settings.default_utility_wal_bytes == 1024 * 1024,
        settings.max_prediction_bytes == 1024 * 1024 * 1024,
        settings.ewma_weights() matches Ok(weights) && 2 * weights.numerator == weights.denominator,
        settings.capacities().recent_decisions == 4096,
        settings.capacities().profiles == 4096,
        settings.capacities().budget_buckets == 4096,
        settings.capacities().scope_names == 4096,
{
}

/// Every setting is registered under its name, with the default that holds without it. The settings of the
/// capacities are taken when the server starts, all others while it runs.
pub proof fn law_settings_are_registered_with_their_defaults(settings: GucSettings, i: int)
    requires
        call_ensures(<GucSettings as Default>::default, (), settings),
    ensures
        runtime_gucs().len() == 2 && prediction_gucs().len() == 6 && capacity_gucs().len() == 4,
        runtime_gucs()[0].name == "pwb.enabled"@ && runtime_gucs()[0].value == (GucValue::Bool {
            default: settings.enabled,
        }),
        runtime_gucs()[1].name == "pwb.fail_open"@ && runtime_gucs()[1].value == (GucValue::Bool {
            default: settings.fail_open,
        }),
        prediction_gucs()[0].name == "pwb.default_write_wal_bytes"@ && prediction_gucs()[0].value
            == (GucValue::Int {
            default: settings.default_write_wal_bytes,
            min: 0,
            max: 0x7fff_ffff,
        }),
        prediction_gucs()[1].name == "pwb.default_utility_wal_bytes"@ && prediction_gucs()[1].value
            == (GucValue::Int {
            default: settings.default_utility_wal_bytes,
            min: 0,
            max: 0x7fff_ffff,
        }),
        prediction_gucs()[2].name == "pwb.max_prediction_bytes"@ && prediction_gucs()[2].value == (
        GucValue::Int { default: settings.max_prediction_bytes, min: 0, max: 0x7fff_ffff }),
        prediction_gucs()[3].name == "pwb.profile_ewma_alpha"@ && prediction_gucs()[3].value == (
        GucValue::Alpha { default: 500_000, min: 1, max: 1_000_000 }),
        prediction_gucs()[4].name == "pwb.composite_scope_enabled"@ && prediction_gucs()[4].value
            == (GucValue::Bool { default: settings.composite_scope_enabled }),
        prediction_gucs()[5].name == "pwb.predictor"@ && prediction_gucs()[5].value == (
        GucValue::Predictor { default: settings.predictor }),
        capacity_gucs()[0].name == "pwb.shmem_capacity"@ && capacity_gucs()[0].value == (
        GucValue::Int { default: settings.shmem_capacity, min: 0, max: 1_000_000 }),
        capacity_gucs()[1].name == "pwb.recent_decision_capacity"@,
        capacity_gucs()[2].name == "pwb.profile_cache_capacity"@,
        capacity_gucs()[3].name == "pwb.budget_bucket_capacity"@,
        1 <= i < 4 ==> (capacity_gucs()[i].value matches GucValue::Int { default, min, max }
            && default == -1 && min == -1 && max == 1_000_000),
        0 <= i < 4 ==> capacity_gucs()[i].context == GucContext::Postmaster,
        0 <= i < 2 ==> runtime_gucs()[i].context == GucContext::Sighup,
        0 <= i < 6 ==> prediction_gucs()[i].context == GucContext::Sighup,
        0 <= i < 6 ==> (prediction_gucs()[i].unit_is_byte <==> i < 3),
{
}

} // verus!
