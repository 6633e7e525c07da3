//! Policies and query profiles as the database stores them.

use vstd::prelude::*;

use crate::errors;
use crate::errors::{internal_error, PwbError, PwbErrorView, PwbResult};
use crate::seqs;
use crate::shmem::records::QueryProfileSnapshot;
use crate::text;
use crate::types;
use crate::types::{PolicyId, QueryWalProfile};

verus! {

/// A policy as the database stores it.
#[derive(Debug, Clone, PartialEq, Eq)]
pub struct DurablePolicyRow {
    pub policy_id: PolicyId,
    pub scope_kind: String,
    pub scope_value: Option<String>,
    pub enabled: bool,
    pub mode: String,
    pub wal_rate_bytes_per_sec: i64,
    pub wal_burst_bytes: i64,
}

/// A stored policy with its texts as character sequences.
pub struct DurablePolicyRowView {
    pub policy_id: PolicyId,
    pub scope_kind: Seq<char>,
    pub scope_value: Option<Seq<char>>,
    pub enabled: bool,
    pub mode: Seq<char>,
    pub wal_rate_bytes_per_sec: i64,
    pub wal_burst_bytes: i64,
}

impl View for DurablePolicyRow {
    type V = DurablePolicyRowView;

    open spec fn view(&self) -> DurablePolicyRowView {
        DurablePolicyRowView {
            policy_id: self.policy_id,
            scope_kind: self.scope_kind@,
            scope_value: types::opt_chars(self.scope_value),
            enabled: self.enabled,
            mode: self.mode@,
            wal_rate_bytes_per_sec: self.wal_rate_bytes_per_sec,
            wal_burst_bytes: self.wal_burst_bytes,
        }
    }
}

impl DurablePolicyRow {
    fn duplicate(&self) -> (r: DurablePolicyRow)
        ensures
            r == *self,
    {
        DurablePolicyRow {
            policy_id: self.policy_id,
            scope_kind: self.scope_kind.clone(),
            scope_value: match &self.scope_value {
                Some(value) => Some(value.clone()),
                None => None,
            },
            enabled: self.enabled,
            mode: self.mode.clone(),
            wal_rate_bytes_per_sec: self.wal_rate_bytes_per_sec,
            wal_burst_bytes: self.wal_burst_bytes,
        }
    }
}

/// Where policies and query profiles outlive the server.
pub trait DurableCatalogStore {
    /// The enabled policies, in the order in which they are to be matched.
    fn load_enabled_policy_rows(&self) -> PwbResult<Vec<DurablePolicyRow>>;

    /// At most `limit` profiles, the most recently seen ones first.
    fn load_profiles(&self, limit: usize) -> PwbResult<Vec<QueryProfileSnapshot>>;

    /// Stores the profiles, each in place of one of the same scope and query.
    fn persist_profiles(&mut self, profiles: &[QueryProfileSnapshot]) -> PwbResult<()>;

    /// Deletes all profiles.
    fn delete_profiles(&mut self) -> PwbResult<()>;
}

/// A policy row as it was read, where any column may be null.
#[derive(Debug, Clone, PartialEq, Eq)]
pub struct RawPolicyRow {
    pub policy_id: Option<PolicyId>,
    pub scope_kind: Option<String>,
    pub scope_value: Option<String>,
    pub enabled: Option<bool>,
    pub mode: Option<String>,
    pub wal_rate_bytes_per_sec: Option<i64>,
    pub wal_burst_bytes: Option<i64>,
}

/// The value of a column that must not be null.
pub open spec fn required<T>(field: Seq<char>, value: Option<T>) -> Result<T, PwbErrorView> {
    match value {
        Some(value) => Ok(value),
        None => Err(errors::internal("effective policy row is missing "@ + field)),
    }
}

pub fn required_policy_field<T>(field: &'static str, value: Option<T>) -> (r: PwbResult<T>)
    ensures
        errors::same_result(r, required(field@, value)),
{
    match value {
        Some(value) => Ok(value),
        None => Err(internal_error(text::join2("effective policy row is missing ", field))),
    }
}

impl RawPolicyRow {
    /// The policy in a row, or the error of its first column that is null but must not be.
    pub open spec fn decoded(self) -> Result<DurablePolicyRow, PwbErrorView> {
        match (
            required("policy_id"@, self.policy_id),
            required("scope_kind"@, self.scope_kind),
            required("enabled"@, self.enabled),
            required("mode"@, self.mode),
            required("wal_rate_bytes_per_sec"@, self.wal_rate_bytes_per_sec),
            required("wal_burst_bytes"@, self.wal_burst_bytes),
        ) {
            (Err(error), _, _, _, _, _) => Err(error),
            (_, Err(error), _, _, _, _) => Err(error),
            (_, _, Err(error), _, _, _) => Err(error),
            (_, _, _, Err(error), _, _) => Err(error),
            (_, _, _, _, Err(error), _) => Err(error),
            (_, _, _, _, _, Err(error)) => Err(error),
            (
                Ok(policy_id),
                Ok(scope_kind),
                Ok(enabled),
                Ok(mode),
                Ok(wal_rate_bytes_per_sec),
                Ok(wal_burst_bytes),
            ) => Ok(
                DurablePolicyRow {
                    policy_id,
                    scope_kind,
                    scope_value: self.scope_value,
                    enabled,
                    mode,
                    wal_rate_bytes_per_sec,
                    wal_burst_bytes,
                },
            ),
        }
    }

    pub fn decode(self) -> (r: PwbResult<DurablePolicyRow>)
        ensures
            errors::same_result(r, self.decoded()),
    {
        Ok(
            DurablePolicyRow {
                policy_id: required_policy_field("policy_id", self.policy_id)?,
                scope_kind: required_policy_field("scope_kind", self.scope_kind)?,
                scope_value: self.scope_value,
                enabled: required_policy_field("enabled", self.enabled)?,
                mode: required_policy_field("mode", self.mode)?,
                wal_rate_bytes_per_sec: required_policy_field(
                    "wal_rate_bytes_per_sec",
                    self.wal_rate_bytes_per_sec,
                )?,
                wal_burst_bytes: required_policy_field("wal_burst_bytes", self.wal_burst_bytes)?,
            },
        )
    }
}

pub open spec fn to_policy_row() -> spec_fn(RawPolicyRow) -> Result<DurablePolicyRow, PwbErrorView> {
    |row: RawPolicyRow| row.decoded()
}

/// Decodes policy rows in the order in which they were read, up to the first that is not complete.
pub fn decode_policy_rows(rows: Vec<RawPolicyRow>) -> (r: PwbResult<Vec<DurablePolicyRow>>)
    ensures
        seqs::same_values(r, seqs::all_ok(rows@.map_values(to_policy_row()))),
{
    let ghost all = rows@;
    let ghost results = all.map_values(to_policy_row());
    let mut decoded: Vec<DurablePolicyRow> = Vec::new();
    assert(results.take(0) =~= Seq::empty());
    for row in it: rows
        invariant
            it.seq() == all,
            results == all.map_values(to_policy_row()),
            seqs::all_ok(results.take(it.index() as int)) == Ok::<Seq<DurablePolicyRow>, PwbErrorView>(
                decoded@,
            ),
    {
        proof {
            seqs::lemma_all_ok_step(results, it.index() as int);
        }
        match row.decode() {
            Ok(policy) => decoded.push(policy),
            Err(error) => {
                proof {
                    seqs::lemma_all_ok_keeps_error(results, it.index() + 1);
                }
                return Err(error);
            },
        }
    }
    assert(results.take(all.len() as int) =~= results);
    Ok(decoded)
}

/// A profile row as it was read: every column as text, where any may be null.
#[derive(Debug, Clone, PartialEq, Eq)]
pub struct RawQueryProfile {
    pub scope_hash: Option<String>,
    pub query_id: Option<String>,
    pub calls: Option<String>,
    pub ewma_wal_bytes: Option<String>,
    pub max_wal_bytes: Option<String>,
    pub last_seen_epoch_ms: Option<String>,
}

/// A profile row with its columns as character sequences.
pub struct RawQueryProfileView {
    pub scope_hash: Option<Seq<char>>,
    pub query_id: Option<Seq<char>>,
    pub calls: Option<Seq<char>>,
    pub ewma_wal_bytes: Option<Seq<char>>,
    pub max_wal_bytes: Option<Seq<char>>,
    pub last_seen_epoch_ms: Option<Seq<char>>,
}

impl View for RawQueryProfile {
    type V = RawQueryProfileView;

    open spec fn view(&self) -> RawQueryProfileView {
        RawQueryProfileView {
            scope_hash: types::opt_chars(self.scope_hash),
            query_id: types::opt_chars(self.query_id),
            calls: types::opt_chars(self.calls),
            ewma_wal_bytes: types::opt_chars(self.ewma_wal_bytes),
            max_wal_bytes: types::opt_chars(self.max_wal_bytes),
            last_seen_epoch_ms: types::opt_chars(self.last_seen_epoch_ms),
        }
    }
}

/// A profile as it is written: every column as text.
#[derive(Debug, Clone, PartialEq, Eq)]
pub struct SqlQueryProfile {
    pub scope_hash: Option<String>,
    pub query_id: String,
    pub calls: String,
    pub ewma_wal_bytes: String,
    pub max_wal_bytes: String,
    pub last_seen_epoch_ms: String,
}

impl View for SqlQueryProfile {
    type V = RawQueryProfileView;

    /// The row that is read back once the profile was written.
    open spec fn view(&self) -> RawQueryProfileView {
        RawQueryProfileView {
            scope_hash: types::opt_chars(self.scope_hash),
            query_id: Some(self.query_id@),
            calls: Some(self.calls@),
            ewma_wal_bytes: Some(self.ewma_wal_bytes@),
            max_wal_bytes: Some(self.max_wal_bytes@),
            last_seen_epoch_ms: Some(self.last_seen_epoch_ms@),
        }
    }
}

/// A profile row whose columns are the decimal numerals of a profile.
pub open spec fn written(snapshot: QueryProfileSnapshot) -> RawQueryProfileView {
    RawQueryProfileView {
        scope_hash: match snapshot.scope_hash {
            Some(scope_hash) => Some(text::decimal(scope_hash as nat)),
            None => None,
        },
        query_id: Some(text::decimal(snapshot.query_id as nat)),
        calls: Some(text::decimal(snapshot.profile.calls as nat)),
        ewma_wal_bytes: Some(text::decimal(snapshot.profile.ewma_wal_bytes as nat)),
        max_wal_bytes: Some(text::decimal(snapshot.profile.max_wal_bytes as nat)),
        last_seen_epoch_ms: Some(text::decimal(snapshot.profile.last_seen_epoch_ms as nat)),
    }
}

impl SqlQueryProfile {
    pub fn from_snapshot(snapshot: QueryProfileSnapshot) -> (r: SqlQueryProfile)
        ensures
            r@ == written(snapshot),
    {
        SqlQueryProfile {
            scope_hash: match snapshot.scope_hash {
                Some(scope_hash) => Some(text::u64_to_decimal(scope_hash)),
                None => None,
            },
            query_id: text::u64_to_decimal(snapshot.query_id),
            calls: text::u64_to_decimal(snapshot.profile.calls),
            ewma_wal_bytes: text::u64_to_decimal(snapshot.profile.ewma_wal_bytes),
            max_wal_bytes: text::u64_to_decimal(snapshot.profile.max_wal_bytes),
            last_seen_epoch_ms: text::u64_to_decimal(snapshot.profile.last_seen_epoch_ms),
        }
    }
}

/// The number in a column.
pub open spec fn number(field: Seq<char>, value: Seq<char>) -> Result<u64, PwbErrorView> {
    match text::parsed_u64(value) {
        Some(n) => Ok(n),
        None => Err(
            errors::internal(
                "durable query profile field "@ + field + " is not a valid u64: "@ + value,
            ),
        ),
    }
}

/// The number in a column that must not be null.
pub open spec fn required_number(field: Seq<char>, value: Option<Seq<char>>) -> Result<
    u64,
    PwbErrorView,
> {
    match value {
        Some(value) => number(field, value),
        None => Err(errors::internal("durable query profile row is missing "@ + field)),
    }
}

/// The number in a column that may be null.
pub open spec fn optional_number(field: Seq<char>, value: Option<Seq<char>>) -> Result<
    Option<u64>,
    PwbErrorView,
> {
    match value {
        Some(value) => match number(field, value) {
            Ok(n) => Ok(Some(n)),
            Err(error) => Err(error),
        },
        None => Ok(None),
    }
}

impl RawQueryProfileView {
    /// The profile in a row, or the error of its first column that holds no number.
    pub open spec fn decoded(self) -> Result<QueryProfileSnapshot, PwbErrorView> {
        match (
            optional_number("scope_hash"@, self.scope_hash),
            required_number("query_id"@, self.query_id),
            required_number("calls"@, self.calls),
            required_number("ewma_wal_bytes"@, self.ewma_wal_bytes),
            required_number("max_wal_bytes"@, self.max_wal_bytes),
            required_number("last_seen_epoch_ms"@, self.last_seen_epoch_ms),
        ) {
            (Err(error), _, _, _, _, _) => Err(error),
            (_, Err(error), _, _, _, _) => Err(error),
            (_, _, Err(error), _, _, _) => Err(error),
            (_, _, _, Err(error), _, _) => Err(error),
            (_, _, _, _, Err(error), _) => Err(error),
            (_, _, _, _, _, Err(error)) => Err(error),
            (
                Ok(scope_hash),
                Ok(query_id),
                Ok(calls),
                Ok(ewma_wal_bytes),
                Ok(max_wal_bytes),
                Ok(last_seen_epoch_ms),
            ) => Ok(
                QueryProfileSnapshot {
                    scope_hash,
                    query_id,
                    profile: QueryWalProfile {
                        calls,
                        ewma_wal_bytes,
                        max_wal_bytes,
                        last_seen_epoch_ms,
                    },
                },
            ),
        }
    }
}

pub fn parse_u64(field: &'static str, value: &str) -> (r: PwbResult<u64>)
    ensures
        errors::same_result(r, number(field@, value@)),
{
    match text::parse_u64_text(value) {
        Some(n) => Ok(n),
        None => Err(
            internal_error(
                text::join4(
                    "durable query profile field ",
                    field,
                    " is not a valid u64: ",
                    value,
                ),
            ),
        ),
    }
}

pub fn required_parse_u64(field: &'static str, value: Option<&str>) -> (r: PwbResult<u64>)
    ensures
        errors::same_result(
            r,
            required_number(
                field@,
                match value {
                    Some(value) => Some(value@),
                    None => None,
                },
            ),
        ),
{
    match value {
        Some(value) => parse_u64(field, value),
        None => Err(internal_error(text::join2("durable query profile row is missing ", field))),
    }
}

fn opt_str(value: &Option<String>) -> (r: Option<&str>)
    ensures
        types::opt_chars(*value) == match r {
            Some(value) => Some(value@),
            None => None,
        },
{
    match value {
        Some(value) => Some(value.as_str()),
        None => None,
    }
}

pub fn decode_profile(raw: &RawQueryProfile) -> (r: PwbResult<QueryProfileSnapshot>)
    ensures
        errors::same_result(r, raw@.decoded()),
{
    let scope_hash: Option<u64> = match &raw.scope_hash {
        Some(scope_hash) => Some(parse_u64("scope_hash", scope_hash.as_str())?),
        None => None,
    };
    Ok(
        QueryProfileSnapshot {
            scope_hash,
            query_id: required_parse_u64("query_id", opt_str(&raw.query_id))?,
            profile: QueryWalProfile {
                calls: required_parse_u64("calls", opt_str(&raw.calls))?,
                ewma_wal_bytes: required_parse_u64(
                    "ewma_wal_bytes",
                    opt_str(&raw.ewma_wal_bytes),
                )?,
                max_wal_bytes: required_parse_u64("max_wal_bytes", opt_str(&raw.max_wal_bytes))?,
                last_seen_epoch_ms: required_parse_u64(
                    "last_seen_epoch_ms",
                    opt_str(&raw.last_seen_epoch_ms),
                )?,
            },
        },
    )
}

/// Reading a profile that was written gives it back.
pub proof fn law_written_profile_is_read_back(snapshot: QueryProfileSnapshot)
    ensures
        written(snapshot).decoded() == Ok::<QueryProfileSnapshot, PwbErrorView>(snapshot),
{
    if let Some(scope_hash) = snapshot.scope_hash {
        text::law_decimal_round_trip(scope_hash);
    }
    text::law_decimal_round_trip(snapshot.query_id);
    text::law_decimal_round_trip(snapshot.profile.calls);
    text::law_decimal_round_trip(snapshot.profile.ewma_wal_bytes);
    text::law_decimal_round_trip(snapshot.profile.max_wal_bytes);
    text::law_decimal_round_trip(snapshot.profile.last_seen_epoch_ms);
}

pub open spec fn to_profile() -> spec_fn(RawQueryProfile) -> Result<
    QueryProfileSnapshot,
    PwbErrorView,
> {
    |raw: RawQueryProfile| raw@.decoded()
}

/// Decodes profile rows in the order in which they were read, up to the first that holds no profile.
pub fn decode_profiles(rows: &[RawQueryProfile]) -> (r: PwbResult<Vec<QueryProfileSnapshot>>)
    ensures
        seqs::same_values(r, seqs::all_ok(rows@.map_values(to_profile()))),
{
    let ghost results = rows@.map_values(to_profile());
    let mut decoded: Vec<QueryProfileSnapshot> = Vec::new();
    let mut i: usize = 0;
    assert(results.take(0) =~= Seq::empty());
    while i < rows.len()
        invariant
            i <= rows@.len(),
            results == rows@.map_values(to_profile()),
            seqs::all_ok(results.take(i as int)) == Ok::<Seq<QueryProfileSnapshot>, PwbErrorView>(
                decoded@,
            ),
        decreases rows@.len() - i,
    {
        proof {
            seqs::lemma_all_ok_step(results, i as int);
        }
        match decode_profile(&rows[i]) {
            Ok(profile) => decoded.push(profile),
            Err(error) => {
                proof {
                    seqs::lemma_all_ok_keeps_error(results, i + 1);
                }
                return Err(error);
            },
        }
        i += 1;
    }
    assert(results.take(i as int) =~= results);
    Ok(decoded)
}

/// The limit on the profiles to load, as the database takes it.
pub fn profile_limit(limit: usize) -> (r: PwbResult<i64>)
    ensures
        errors::same_result(
            r,
            if limit <= i64::MAX {
                Ok(limit as i64)
            } else {
                Err(
                    errors::internal(
                        "profile cache capacity does not fit PostgreSQL bigint: "@ + text::decimal(
                            limit as nat,
                        ),
                    ),
                )
            },
        ),
{
    if limit as u64 <= i64::MAX as u64 {
        Ok(limit as i64)
    } else {
        Err(
            internal_error(
                text::join2(
                    "profile cache capacity does not fit PostgreSQL bigint: ",
                    text::u64_to_decimal(limit as u64).as_str(),
                ),
            ),
        )
    }
}

/// The error for a database operation that failed, from the text of the failure.
pub fn catalog_spi_error(operation: &str, error: &str) -> (r: PwbError)
    ensures
        r@ == errors::internal("SPI "@ + operation@ + " operation failed: "@ + error@),
{
    internal_error(text::join4("SPI ", operation, " operation failed: ", error))
}

pub fn policy_spi_error(error: &str) -> (r: PwbError)
    ensures
        r@ == errors::internal("SPI "@ + "policy"@ + " operation failed: "@ + error@),
{
    catalog_spi_error("policy", error)
}

pub fn profile_spi_error(error: &str) -> (r: PwbError)
    ensures
        r@ == errors::internal("SPI "@ + "query profile"@ + " operation failed: "@ + error@),
{
    catalog_spi_error("query profile", error)
}

/// A store in memory.
#[derive(Debug, Clone, PartialEq, Eq)]
pub struct MemoryCatalogStore {
    pub policy_rows: Vec<DurablePolicyRow>,
    pub profiles: Vec<QueryProfileSnapshot>,
    pub tables_exist: bool,
}

pub open spec fn is_enabled_row() -> spec_fn(DurablePolicyRow) -> bool {
    |row: DurablePolicyRow| row.enabled
}

/// Whether one optional number comes before another: the missing one first, then by size.
pub open spec fn hash_before(a: Option<u64>, b: Option<u64>) -> bool {
    match (a, b) {
        (None, Some(_)) => true,
        (Some(x), Some(y)) => x < y,
        _ => false,
    }
}

/// Whether a profile is to be loaded before another: the more recently seen one first, then by query,
/// then the global one and the scopes by their hash.
pub open spec fn loads_before(a: QueryProfileSnapshot, b: QueryProfileSnapshot) -> bool {
    if a.profile.last_seen_epoch_ms != b.profile.last_seen_epoch_ms {
        a.profile.last_seen_epoch_ms > b.profile.last_seen_epoch_ms
    } else if a.query_id != b.query_id {
        a.query_id < b.query_id
    } else {
        hash_before(a.scope_hash, b.scope_hash)
    }
}

pub open spec fn loads_after(profile: QueryProfileSnapshot) -> spec_fn(
    QueryProfileSnapshot,
) -> bool {
    |other: QueryProfileSnapshot| loads_before(profile, other)
}

/// Profiles in order with one more in its place, behind those that rank the same.
pub open spec fn placed(
    profiles: Seq<QueryProfileSnapshot>,
    profile: QueryProfileSnapshot,
) -> Seq<QueryProfileSnapshot> {
    match seqs::first_where(profiles, loads_after(profile)) {
        Some(i) => profiles.insert(i, profile),
        None => profiles.push(profile),
    }
}

/// Profiles in the order in which they are loaded.
pub open spec fn in_load_order(profiles: Seq<QueryProfileSnapshot>) -> Seq<QueryProfileSnapshot>
    decreases profiles.len(),
{
    if profiles.len() == 0 {
        Seq::empty()
    } else {
        placed(in_load_order(profiles.drop_last()), profiles.last())
    }
}

pub open spec fn has_same_key(profile: QueryProfileSnapshot) -> spec_fn(
    QueryProfileSnapshot,
) -> bool {
    |other: QueryProfileSnapshot|
        other.scope_hash == profile.scope_hash && other.query_id == profile.query_id
}

/// Profiles after one was stored: in place of the one under its key, else at the end.
pub open spec fn with_profile(
    profiles: Seq<QueryProfileSnapshot>,
    profile: QueryProfileSnapshot,
) -> Seq<QueryProfileSnapshot> {
    match seqs::first_where(profiles, has_same_key(profile)) {
        Some(i) => profiles.update(i, profile),
        None => profiles.push(profile),
    }
}

/// Profiles after others were stored one after the other.
pub open spec fn with_profiles(
    profiles: Seq<QueryProfileSnapshot>,
    stored: Seq<QueryProfileSnapshot>,
) -> Seq<QueryProfileSnapshot>
    decreases stored.len(),
{
    if stored.len() == 0 {
        profiles
    } else {
        with_profile(with_profiles(profiles, stored.drop_last()), stored.last())
    }
}

fn hash_is_before(a: Option<u64>, b: Option<u64>) -> (r: bool)
    ensures
        r == hash_before(a, b),
{
    match (a, b) {
        (None, Some(_)) => true,
        (Some(x), Some(y)) => x < y,
        _ => false,
    }
}

fn is_loaded_before(a: &QueryProfileSnapshot, b: &QueryProfileSnapshot) -> (r: bool)
    ensures
        r == loads_before(*a, *b),
{
    if a.profile.last_seen_epoch_ms != b.profile.last_seen_epoch_ms {
        a.profile.last_seen_epoch_ms > b.profile.last_seen_epoch_ms
    } else if a.query_id != b.query_id {
        a.query_id < b.query_id
    } else {
        hash_is_before(a.scope_hash, b.scope_hash)
    }
}

fn place(profiles: &mut Vec<QueryProfileSnapshot>, profile: QueryProfileSnapshot)
    ensures
        final(profiles)@ == placed(old(profiles)@, profile),
{
    let ghost p = loads_after(profile);
    let mut i: usize = 0;
    while i < profiles.len()
        invariant
            i <= profiles@.len(),
            profiles@ == old(profiles)@,
            p == loads_after(profile),
            forall|j: int| 0 <= j < i ==> !p(#[trigger] profiles@[j]),
        decreases profiles@.len() - i,
    {
        if is_loaded_before(&profile, &profiles[i]) {
            proof {
                seqs::lemma_first_where_is_unique(profiles@, p, Some(i as int));
            }
            profiles.insert(i, profile);
            return ;
        }
        i += 1;
    }
    proof {
        seqs::lemma_first_where_is_unique(profiles@, p, None);
    }
    profiles.push(profile);
}

fn put(profiles: &mut Vec<QueryProfileSnapshot>, profile: QueryProfileSnapshot)
    ensures
        final(profiles)@ == with_profile(old(profiles)@, profile),
{
    let ghost p = has_same_key(profile);
    let mut i: usize = 0;
    while i < profiles.len()
        invariant
            i <= profiles@.len(),
            profiles@ == old(profiles)@,
            p == has_same_key(profile),
            forall|j: int| 0 <= j < i ==> !p(#[trigger] profiles@[j]),
        decreases profiles@.len() - i,
    {
        if profiles[i].scope_hash == profile.scope_hash && profiles[i].query_id
            == profile.query_id {
            proof {
                seqs::lemma_first_where_is_unique(profiles@, p, Some(i as int));
            }
            profiles[i] = profile;
            return ;
        }
        i += 1;
    }
    proof {
        seqs::lemma_first_where_is_unique(profiles@, p, None);
    }
    profiles.push(profile);
}

impl MemoryCatalogStore {
    pub fn with_rows(
        policy_rows: Vec<DurablePolicyRow>,
        profiles: Vec<QueryProfileSnapshot>,
    ) -> (r: MemoryCatalogStore)
        ensures
            r == (MemoryCatalogStore { policy_rows, profiles, tables_exist: true }),
    {
        MemoryCatalogStore { policy_rows, profiles, tables_exist: true }
    }

    pub fn missing_tables() -> (r: MemoryCatalogStore)
        ensures
            r.policy_rows@ == Seq::<DurablePolicyRow>::empty(),
            r.profiles@ == Seq::<QueryProfileSnapshot>::empty(),
            !r.tables_exist,
    {
        MemoryCatalogStore { policy_rows: Vec::new(), profiles: Vec::new(), tables_exist: false }
    }

    /// What loading at most `limit` profiles gives.
    pub open spec fn loadable(self, limit: nat) -> Seq<QueryProfileSnapshot> {
        let ordered = if self.tables_exist {
            in_load_order(self.profiles@)
        } else {
            Seq::empty()
        };
        if limit <= ordered.len() {
            ordered.take(limit as int)
        } else {
            ordered
        }
    }
}

impl DurableCatalogStore for MemoryCatalogStore {
    fn load_enabled_policy_rows(&self) -> (r: PwbResult<Vec<DurablePolicyRow>>)
        ensures
            r matches Ok(rows) && rows@ == if self.tables_exist {
                self.policy_rows@.filter(is_enabled_row())
            } else {
                Seq::<DurablePolicyRow>::empty()
            },
    {
        let mut rows: Vec<DurablePolicyRow> = Vec::new();
        if !self.tables_exist {
            return Ok(rows);
        }
        let ghost p = is_enabled_row();
        let ghost all = self.policy_rows@;
        let mut i: usize = 0;
        proof {
            reveal(Seq::filter);
            assert(all.take(0).filter(p) =~= Seq::empty());
        }
        while i < self.policy_rows.len()
            invariant
                i <= self.policy_rows@.len(),
                all == self.policy_rows@,
                p == is_enabled_row(),
                rows@ == all.take(i as int).filter(p),
            decreases self.policy_rows@.len() - i,
        {
            proof {
                seqs::lemma_filter_step(all, p, i as int);
            }
            if self.policy_rows[i].enabled {
                rows.push(self.policy_rows[i].duplicate());
            }
            i += 1;
        }
        assert(all.take(i as int) =~= all);
        Ok(rows)
    }

    fn load_profiles(&self, limit: usize) -> (r: PwbResult<Vec<QueryProfileSnapshot>>)
        ensures
            r matches Ok(profiles) && profiles@ == self.loadable(limit as nat),
    {
        let mut profiles: Vec<QueryProfileSnapshot> = Vec::new();
        if !self.tables_exist {
            return Ok(profiles);
        }
        let mut i: usize = 0;
        assert(self.profiles@.take(0) =~= Seq::empty());
        while i < self.profiles.len()
            invariant
                i <= self.profiles@.len(),
                profiles@ == in_load_order(self.profiles@.take(i as int)),
            decreases self.profiles@.len() - i,
        {
            assert(self.profiles@.take(i + 1).drop_last() =~= self.profiles@.take(i as int));
            place(&mut profiles, self.profiles[i]);
            i += 1;
        }
        assert(self.profiles@.take(i as int) =~= self.profiles@);
        if limit < profiles.len() {
            profiles.truncate(limit);
        }
        Ok(profiles)
    }

    fn persist_profiles(&mut self, profiles: &[QueryProfileSnapshot]) -> (r: PwbResult<()>)
        ensures
            r is Ok,
            final(self).policy_rows == old(self).policy_rows,
            final(self).tables_exist == old(self).tables_exist,
            final(self).profiles@ == if old(self).tables_exist {
                with_profiles(old(self).profiles@, profiles@)
            } else {
                old(self).profiles@
            },
    {
        if !self.tables_exist {
            return Ok(());
        }
        let mut i: usize = 0;
        assert(profiles@.take(0) =~= Seq::empty());
        while i < profiles.len()
            invariant
                i <= profiles@.len(),
                self.policy_rows == old(self).policy_rows,
                self.tables_exist == old(self).tables_exist,
                self.profiles@ == with_profiles(old(self).profiles@, profiles@.take(i as int)),
            decreases profiles@.len() - i,
        {
            assert(profiles@.take(i + 1).drop_last() =~= profiles@.take(i as int));
            put(&mut self.profiles, profiles[i]);
            i += 1;
        }
        assert(profiles@.take(i as int) =~= profiles@);
        Ok(())
    }

    fn delete_profiles(&mut self) -> (r: PwbResult<()>)
        ensures
            r is Ok,
            final(self).policy_rows == old(self).policy_rows,
            final(self).tables_exist == old(self).tables_exist,
            final(self).profiles@ == if old(self).tables_exist {
                Seq::<QueryProfileSnapshot>::empty()
            } else {
                old(self).profiles@
            },
    {
        if self.tables_exist {
            self.profiles = Vec::new();
        }
        Ok(())
    }
}

/// Whether no profile comes behind one that is to be loaded after it.
pub open spec fn is_in_load_order(profiles: Seq<QueryProfileSnapshot>) -> bool {
    forall|i: int, j: int|
        0 <= i < j < profiles.len() ==> !loads_before(#[trigger] profiles[j], #[trigger] profiles[i])
}

/// The load order holds the same profiles, and the most recently seen ones come first.
pub proof fn law_load_order_sorts(profiles: Seq<QueryProfileSnapshot>)
    ensures
        is_in_load_order(in_load_order(profiles)),
        in_load_order(profiles).to_multiset() == profiles.to_multiset(),
        in_load_order(profiles).len() == profiles.len(),
    decreases profiles.len(),
{
    broadcast use vstd::seq_lib::group_to_multiset_ensures;

    if profiles.len() == 0 {
        assert(profiles =~= Seq::empty());
    } else {
        let rest = profiles.drop_last();
        let last = profiles.last();
        law_load_order_sorts(rest);
        let sorted = in_load_order(rest);
        let p = loads_after(last);
        seqs::lemma_first_where(sorted, p);
        let result = placed(sorted, last);
        assert(profiles =~= rest.push(last));
        match seqs::first_where(sorted, p) {
            Some(k) => {
                assert(p(sorted[k]));
                assert(result =~= sorted.insert(k, last));
                assert(result.remove(k) =~= sorted);
                assert(result[k] == last);
                assert(result.contains(last));
                assert(result.to_multiset() =~= sorted.to_multiset().insert(last)) by {
                    broadcast use vstd::multiset::group_multiset_axioms;

                    vstd::seq_lib::to_multiset_remove(result, k);
                }
                assert forall|i: int, j: int| 0 <= i < j < result.len() implies !loads_before(
                    #[trigger] result[j],
                    #[trigger] result[i],
                ) by {
                    if j == k {
                        assert(!p(sorted[i]));
                    } else if i == k {
                        assert(!loads_before(sorted[j - 1], sorted[k]) || j - 1 == k);
                        assert(loads_before(last, sorted[k]));
                    }
                }
            },
            None => {
                assert forall|i: int, j: int| 0 <= i < j < result.len() implies !loads_before(
                    #[trigger] result[j],
                    #[trigger] result[i],
                ) by {
                    if j == sorted.len() {
                        assert(!p(sorted[i]));
                    }
                }
            },
        }
    }
}

/// Whether no two profiles share a scope and a query.
pub open spec fn profile_keys_differ(profiles: Seq<QueryProfileSnapshot>) -> bool {
    forall|i: int, j: int|
        0 <= i < j < profiles.len() ==> !(#[trigger] profiles[i].scope_hash == (
        #[trigger] profiles[j]).scope_hash && profiles[i].query_id == profiles[j].query_id)
}

/// Storing a profile keeps one profile for a scope and query, and the profile is then the one that is
/// stored under its key.
pub proof fn law_stored_profile_is_kept(
    profiles: Seq<QueryProfileSnapshot>,
    profile: QueryProfileSnapshot,
)
    requires
        profile_keys_differ(profiles),
    ensures
        ({
            let after = with_profile(profiles, profile);
            &&& profile_keys_differ(after)
            &&& seqs::first_where(after, has_same_key(profile)) matches Some(i) && after[i] == profile
        }),
{
    let p = has_same_key(profile);
    seqs::lemma_first_where(profiles, p);
    let after = with_profile(profiles, profile);
    match seqs::first_where(profiles, p) {
        Some(k) => {
            assert(p(profiles[k]));
            assert forall|j: int| 0 <= j < k implies !p(#[trigger] after[j]) by {
                assert(!p(profiles[j]));
            }
            seqs::lemma_first_where_is_unique(after, p, Some(k));
            assert forall|i: int, j: int| 0 <= i < j < after.len() implies !(
            #[trigger] after[i].scope_hash == (#[trigger] after[j]).scope_hash && after[i].query_id
                == after[j].query_id) by {
                assert(!(profiles[i].scope_hash == profiles[j].scope_hash && profiles[i].query_id
                    == profiles[j].query_id));
            }
        },
        None => {
            let k = profiles.len() as int;
            assert forall|j: int| 0 <= j < k implies !p(#[trigger] after[j]) by {
                assert(!p(profiles[j]));
            }
            seqs::lemma_first_where_is_unique(after, p, Some(k));
            assert forall|i: int, j: int| 0 <= i < j < after.len() implies !(
            #[trigger] after[i].scope_hash == (#[trigger] after[j]).scope_hash && after[i].query_id
                == after[j].query_id) by {
                if j == k {
                    assert(!p(profiles[i]));
                } else {
                    assert(!(profiles[i].scope_hash == profiles[j].scope_hash
                        && profiles[i].query_id == profiles[j].query_id));
                }
            }
        },
    }
}

/// Profiles are loaded by when they were last seen, the latest first; of those seen at the same time, by the
/// number of their query; and of one query the global one first, then the scopes by their hash. Storing a
/// profile replaces the one of its query and scope, and else adds it.
pub proof fn law_latest_profiles_are_loaded_first(
    a: QueryProfileSnapshot,
    b: QueryProfileSnapshot,
    profiles: Seq<QueryProfileSnapshot>,
    i: int,
)
    requires
        0 <= i < profiles.len(),
        profiles[i].scope_hash == a.scope_hash && profiles[i].query_id == a.query_id,
        forall|j: int|
            0 <= j < i ==> !((#[trigger] profiles[j]).scope_hash == a.scope_hash
                && profiles[j].query_id == a.query_id),
    ensures
        a.profile.last_seen_epoch_ms > b.profile.last_seen_epoch_ms ==> loads_before(a, b)
            && !loads_before(b, a),
        a.profile.last_seen_epoch_ms == b.profile.last_seen_epoch_ms && a.query_id < b.query_id
            ==> loads_before(a, b) && !loads_before(b, a),
        a.profile.last_seen_epoch_ms == b.profile.last_seen_epoch_ms && a.query_id == b.query_id
            && a.scope_hash is None && b.scope_hash is Some ==> loads_before(a, b)
            && !loads_before(b, a),
        a.profile.last_seen_epoch_ms == b.profile.last_seen_epoch_ms && a.query_id == b.query_id
            && a.scope_hash is Some && b.scope_hash is Some && a.scope_hash->0 < b.scope_hash->0
            ==> loads_before(a, b) && !loads_before(b, a),
        with_profile(profiles, a) == profiles.update(i, a),
{
    let p = has_same_key(a);
    assert(p(profiles[i]));
    assert forall|j: int| 0 <= j < i implies !p(#[trigger] profiles[j]) by {}
    seqs::lemma_first_where_is_unique(profiles, p, Some(i));
}

/// A policy row is read exactly where none of its columns is null but the scope value, and column by column.
pub proof fn law_policy_rows_need_their_columns(row: RawPolicyRow)
    ensures
        row.decoded() is Ok <==> row.policy_id is Some && row.scope_kind is Some
            && row.enabled is Some && row.mode is Some && row.wal_rate_bytes_per_sec is Some
            && row.wal_burst_bytes is Some,
        row.decoded() matches Err(error) ==> error is Internal,
        row.decoded() matches Ok(policy) ==> {
            &&& Some(policy.policy_id) == row.policy_id
            &&& Some(policy.scope_kind) == row.scope_kind
            &&& Some(policy.enabled) == row.enabled
            &&& Some(policy.mode) == row.mode
            &&& Some(policy.wal_rate_bytes_per_sec) == row.wal_rate_bytes_per_sec
            &&& Some(policy.wal_burst_bytes) == row.wal_burst_bytes
            &&& policy.scope_value == row.scope_value
        },
{
}

/// A profile row is read exactly where its columns hold numbers, where the scope hash may be null, and
/// column by column.
pub proof fn law_profile_rows_are_read_as_numbers(row: RawQueryProfileView)
    ensures
        row.decoded() is Ok <==> (row.scope_hash matches Some(hash) ==> text::parsed_u64(hash)
            is Some) && row.query_id is Some && text::parsed_u64(row.query_id->0) is Some
                && row.calls is Some && text::parsed_u64(row.calls->0) is Some
                && row.ewma_wal_bytes is Some && text::parsed_u64(row.ewma_wal_bytes->0) is Some
                && row.max_wal_bytes is Some && text::parsed_u64(row.max_wal_bytes->0) is Some
                && row.last_seen_epoch_ms is Some
                && text::parsed_u64(row.last_seen_epoch_ms->0) is Some,
        row.decoded() matches Err(error) ==> error is Internal,
        row.decoded() matches Ok(stored) ==> {
            &&& stored.scope_hash is None <==> row.scope_hash is None
            &&& row.scope_hash matches Some(hash) ==> stored.scope_hash == text::parsed_u64(hash)
            &&& Some(stored.query_id) == text::parsed_u64(row.query_id->0)
            &&& Some(stored.profile.calls) == text::parsed_u64(row.calls->0)
            &&& Some(stored.profile.ewma_wal_bytes) == text::parsed_u64(row.ewma_wal_bytes->0)
            &&& Some(stored.profile.max_wal_bytes) == text::parsed_u64(row.max_wal_bytes->0)
            &&& Some(stored.profile.last_seen_epoch_ms) == text::parsed_u64(row.last_seen_epoch_ms->0)
        },
{
}

/// A store in memory gives the first profiles of its load order, up to the limit, and none without tables;
/// and a policy counts as enabled where its row says so.
pub proof fn law_memory_store_gives_what_it_holds(
    store: MemoryCatalogStore,
    limit: nat,
    i: int,
    row: DurablePolicyRow,
)
    ensures
        !store.tables_exist ==> store.loadable(limit).len() == 0,
        store.tables_exist ==> store.loadable(limit).len() == if limit < store.profiles@.len() {
            limit
        } else {
            store.profiles@.len()
        },
        store.tables_exist && 0 <= i < store.loadable(limit).len() ==> store.loadable(limit)[i]
            == in_load_order(store.profiles@)[i],
        is_enabled_row()(row) <==> row.enabled,
{
    law_load_order_sorts(store.profiles@);
}

} // verus!
