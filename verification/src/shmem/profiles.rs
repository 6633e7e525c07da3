//! The table of query profiles.

use vstd::prelude::*;

use crate::errors;
use crate::errors::{internal_error, PwbError, PwbErrorView, PwbResult};
use crate::seqs;
use crate::shmem::records::{
    PwbProfileEntry, PwbQueryWalProfile, PwbSharedState, QueryProfileSnapshot,
};
use crate::shmem::{RegionView, SharedMemory};
use crate::types;
use crate::types::{
    EpochMillis, ProfileEwmaWeights, QueryId, QueryWalProfile, ScopeHash, WalBytes,
};

verus! {

pub const PROFILE_RESTORE_NOT_ATTEMPTED: u8 = 0;

pub const PROFILE_RESTORE_IN_PROGRESS: u8 = 1;

pub const PROFILE_RESTORE_LOADED: u8 = 2;

pub const PROFILE_RESTORE_FAILED: u8 = 3;

impl PwbProfileEntry {
    /// Whether the slot holds the profile of this query, in this scope or, without one, globally.
    pub open spec fn has_key(self, scope_hash: Option<ScopeHash>, query_id: QueryId) -> bool {
        &&& self.occupied == 1
        &&& self.query_id == query_id
        &&& match scope_hash {
            Some(scope_hash) => self.has_scope_hash == 1 && self.scope_hash == scope_hash,
            None => self.has_scope_hash == 0,
        }
    }

    /// Whether two slots hold profiles under the same key.
    pub open spec fn same_key(self, other: PwbProfileEntry) -> bool {
        &&& self.occupied == 1
        &&& other.occupied == 1
        &&& self.query_id == other.query_id
        &&& self.has_scope_hash == other.has_scope_hash
        &&& self.has_scope_hash == 1 ==> self.scope_hash == other.scope_hash
    }

    /// The snapshot of an occupied slot.
    pub open spec fn snapshot(self) -> Result<QueryProfileSnapshot, PwbErrorView> {
        match self.decoded() {
            Err(error) => Err(error),
            Ok(decoded) => Ok(
                QueryProfileSnapshot {
                    scope_hash: decoded.scope_hash,
                    query_id: decoded.query_id,
                    profile: decoded.profile.profile(),
                },
            ),
        }
    }
}

pub open spec fn holds_key(scope_hash: Option<ScopeHash>, query_id: QueryId) -> spec_fn(
    PwbProfileEntry,
) -> bool {
    |slot: PwbProfileEntry| slot.has_key(scope_hash, query_id)
}

pub open spec fn is_empty_slot() -> spec_fn(PwbProfileEntry) -> bool {
    |slot: PwbProfileEntry| slot.occupied == 0
}

pub open spec fn is_occupied() -> spec_fn(PwbProfileEntry) -> bool {
    |slot: PwbProfileEntry| slot.occupied == 1
}

pub open spec fn to_snapshot() -> spec_fn(PwbProfileEntry) -> Result<
    QueryProfileSnapshot,
    PwbErrorView,
> {
    |slot: PwbProfileEntry| slot.snapshot()
}

/// The occupied slot whose profile was seen longest ago, the first of them where there are several.
pub open spec fn least_recently_seen(slots: Seq<PwbProfileEntry>) -> Option<int>
    decreases slots.len(),
{
    if slots.len() == 0 {
        None
    } else {
        let last = slots.last();
        match least_recently_seen(slots.drop_last()) {
            None => if last.occupied == 1 {
                Some(slots.len() - 1)
            } else {
                None
            },
            Some(i) => if last.occupied == 1 && last.profile.last_seen_epoch_ms
                < slots[i].profile.last_seen_epoch_ms {
                Some(slots.len() - 1)
            } else {
                Some(i)
            },
        }
    }
}

/// The error of a table without slots.
pub open spec fn capacity_error() -> PwbErrorView {
    errors::internal("pg_wal_budget profile cache capacity exhausted"@)
}

pub fn profile_cache_capacity_exhausted() -> (r: PwbError)
    ensures
        r@ == capacity_error(),
{
    internal_error("pg_wal_budget profile cache capacity exhausted".to_owned())
}

/// The head of the region after one more slot was filled.
pub open spec fn one_more_profile(state: PwbSharedState) -> PwbSharedState {
    PwbSharedState {
        profiles_len: if state.profiles_len < state.profile_cache_capacity {
            (state.profiles_len + 1) as u32
        } else {
            state.profile_cache_capacity
        },
        ..state
    }
}

/// The head and the table after an observation of a query: its profile is updated where there is
/// one; else a new profile takes the first empty slot or, without one, the slot that was seen
/// longest ago.
pub open spec fn upserted(
    state: PwbSharedState,
    slots: Seq<PwbProfileEntry>,
    scope_hash: Option<ScopeHash>,
    query_id: QueryId,
    actual_wal_bytes: WalBytes,
    now_epoch_ms: EpochMillis,
    weights: ProfileEwmaWeights,
) -> Result<(PwbSharedState, Seq<PwbProfileEntry>), PwbErrorView> {
    let fresh = PwbProfileEntry::encoded(
        scope_hash,
        query_id,
        PwbQueryWalProfile::of(QueryWalProfile::first(actual_wal_bytes, now_epoch_ms)),
    );
    match seqs::first_where(slots, holds_key(scope_hash, query_id)) {
        Some(i) => Ok(
            (
                state,
                slots.update(
                    i,
                    PwbProfileEntry::encoded(
                        scope_hash,
                        query_id,
                        PwbQueryWalProfile::of(
                            slots[i].profile.profile().observed(
                                actual_wal_bytes,
                                now_epoch_ms,
                                weights,
                            ),
                        ),
                    ),
                ),
            ),
        ),
        None => match seqs::first_where(slots, is_empty_slot()) {
            Some(i) => Ok((one_more_profile(state), slots.update(i, fresh))),
            None => match least_recently_seen(slots) {
                Some(i) => Ok((state, slots.update(i, fresh))),
                None => Err(capacity_error()),
            },
        },
    }
}

/// The head and the table after a query was observed in its scope and globally.
pub open spec fn observed(
    state: PwbSharedState,
    slots: Seq<PwbProfileEntry>,
    scope_hash: ScopeHash,
    query_id: QueryId,
    actual_wal_bytes: WalBytes,
    now_epoch_ms: EpochMillis,
    weights: ProfileEwmaWeights,
) -> Result<(PwbSharedState, Seq<PwbProfileEntry>), PwbErrorView> {
    match upserted(
        state,
        slots,
        Some(scope_hash),
        query_id,
        actual_wal_bytes,
        now_epoch_ms,
        weights,
    ) {
        Err(error) => Err(error),
        Ok((state1, slots1)) => upserted(
            state1,
            slots1,
            None,
            query_id,
            actual_wal_bytes,
            now_epoch_ms,
            weights,
        ),
    }
}

/// The head and the table after a stored profile was put back: it replaces a profile under its key
/// that is not newer; else it takes the first empty slot or, without one, the slot that was seen
/// longest ago, unless that is newer.
pub open spec fn restored_one(
    state: PwbSharedState,
    slots: Seq<PwbProfileEntry>,
    snapshot: QueryProfileSnapshot,
) -> Result<(PwbSharedState, Seq<PwbProfileEntry>), PwbErrorView> {
    let entry = PwbProfileEntry::encoded(
        snapshot.scope_hash,
        snapshot.query_id,
        PwbQueryWalProfile::of(snapshot.profile),
    );
    let seen = snapshot.profile.last_seen_epoch_ms;
    match seqs::first_where(slots, holds_key(snapshot.scope_hash, snapshot.query_id)) {
        Some(i) => if slots[i].profile.last_seen_epoch_ms <= seen {
            Ok((state, slots.update(i, entry)))
        } else {
            Ok((state, slots))
        },
        None => match seqs::first_where(slots, is_empty_slot()) {
            Some(i) => Ok((one_more_profile(state), slots.update(i, entry))),
            None => match least_recently_seen(slots) {
                Some(i) => if slots[i].profile.last_seen_epoch_ms <= seen {
                    Ok((state, slots.update(i, entry)))
                } else {
                    Ok((state, slots))
                },
                None => Err(capacity_error()),
            },
        },
    }
}

/// The head and the table after stored profiles were put back one after the other.
pub open spec fn restored_all(
    state: PwbSharedState,
    slots: Seq<PwbProfileEntry>,
    snapshots: Seq<QueryProfileSnapshot>,
) -> Result<(PwbSharedState, Seq<PwbProfileEntry>), PwbErrorView>
    decreases snapshots.len(),
{
    if snapshots.len() == 0 {
        Ok((state, slots))
    } else {
        match restored_all(state, slots, snapshots.drop_last()) {
            Err(error) => Err(error),
            Ok((state1, slots1)) => restored_one(state1, slots1, snapshots.last()),
        }
    }
}

/// What a snapshot of the table gives.
pub open spec fn snapshots_of(slots: Seq<PwbProfileEntry>) -> Result<
    Seq<QueryProfileSnapshot>,
    PwbErrorView,
> {
    seqs::all_ok_where(slots, is_occupied(), to_snapshot())
}

/// Whether no query has two profiles in one scope, or two global ones.
pub open spec fn profile_keys_differ(slots: Seq<PwbProfileEntry>) -> bool {
    forall|i: int, j: int|
        0 <= i < j < slots.len() ==> !(#[trigger] slots[i]).same_key(#[trigger] slots[j])
}

/// Whether the table is as long as its capacity, its length counts the occupied slots, every slot has
/// valid flags, and no key occurs twice.
pub open spec fn profiles_wf(state: PwbSharedState, slots: Seq<PwbProfileEntry>) -> bool {
    &&& slots.len() == state.profile_cache_capacity
    &&& state.profiles_len == slots.filter(is_occupied()).len()
    &&& forall|i: int|
        0 <= i < slots.len() ==> (#[trigger] slots[i]).occupied <= 1 && slots[i].has_scope_hash
            <= 1
    &&& profile_keys_differ(slots)
}

pub proof fn lemma_empty_table(slots: Seq<PwbProfileEntry>)
    requires
        forall|i: int| 0 <= i < slots.len() ==> (#[trigger] slots[i]).occupied == 0,
    ensures
        slots.filter(is_occupied()).len() == 0,
    decreases slots.len(),
{
    reveal(Seq::filter);
    if slots.len() > 0 {
        lemma_empty_table(slots.drop_last());
        assert(slots[slots.len() - 1].occupied == 0);
    }
}

fn keys_are_same(slot: &PwbProfileEntry, other: &PwbProfileEntry) -> (r: bool)
    ensures
        r == slot.same_key(*other),
{
    slot.occupied == 1 && other.occupied == 1 && slot.query_id == other.query_id
        && slot.has_scope_hash == other.has_scope_hash && (slot.has_scope_hash != 1
        || slot.scope_hash == other.scope_hash)
}

/// Tells whether the table is as long as its capacity, its length counts the occupied slots, every slot
/// has valid flags, and no key occurs twice.
pub fn profiles_are_in_order(state: &PwbSharedState, profiles: &[PwbProfileEntry]) -> (r: bool)
    ensures
        r == profiles_wf(*state, profiles@),
{
    if profiles.len() != state.profile_cache_capacity as usize {
        return false;
    }
    let mut occupied: usize = 0;
    let mut i: usize = 0;
    proof {
        reveal(Seq::filter);
        assert(profiles@.take(0).filter(is_occupied()).len() == 0);
    }
    while i < profiles.len()
        invariant
            i <= profiles@.len(),
            occupied <= i,
            profiles@.len() == state.profile_cache_capacity,
            occupied == profiles@.take(i as int).filter(is_occupied()).len(),
            forall|k: int|
                0 <= k < i ==> (#[trigger] profiles@[k]).occupied <= 1 && profiles@[k].has_scope_hash
                    <= 1,
            forall|k: int, l: int|
                0 <= k < l < i ==> !(#[trigger] profiles@[k]).same_key(#[trigger] profiles@[l]),
        decreases profiles@.len() - i,
    {
        proof {
            seqs::lemma_filter_step(profiles@, is_occupied(), i as int);
        }
        if profiles[i].occupied > 1 || profiles[i].has_scope_hash > 1 {
            return false;
        }
        let mut j: usize = 0;
        while j < i
            invariant
                j <= i < profiles@.len(),
                forall|k: int| 0 <= k < j ==> !(#[trigger] profiles@[k]).same_key(profiles@[i as int]),
            decreases i - j,
        {
            if keys_are_same(&profiles[j], &profiles[i]) {
                return false;
            }
            j += 1;
        }
        if profiles[i].occupied == 1 {
            occupied += 1;
        }
        i += 1;
    }
    assert(profiles@.take(i as int) =~= profiles@);
    occupied == state.profiles_len as usize
}

pub fn initial_profile_restore_state() -> (r: u8)
    ensures
        r == PROFILE_RESTORE_NOT_ATTEMPTED,
{
    PROFILE_RESTORE_NOT_ATTEMPTED
}

fn matches_key(slot: &PwbProfileEntry, scope_hash: Option<ScopeHash>, query_id: QueryId) -> (r:
    bool)
    ensures
        r == slot.has_key(scope_hash, query_id),
{
    if slot.occupied != 1 || slot.query_id != query_id {
        return false;
    }
    match scope_hash {
        Some(scope_hash) => slot.has_scope_hash == 1 && slot.scope_hash == scope_hash,
        None => slot.has_scope_hash == 0,
    }
}

pub fn find_profile_slot(
    profiles: &[PwbProfileEntry],
    scope_hash: Option<ScopeHash>,
    query_id: QueryId,
) -> (r: Option<usize>)
    ensures
        seqs::as_index(r) == seqs::first_where(profiles@, holds_key(scope_hash, query_id)),
        r matches Some(i) ==> i < profiles@.len(),
{
    let ghost p = holds_key(scope_hash, query_id);
    let mut i: usize = 0;
    while i < profiles.len()
        invariant
            i <= profiles@.len(),
            p == holds_key(scope_hash, query_id),
            forall|j: int| 0 <= j < i ==> !p(#[trigger] profiles@[j]),
        decreases profiles@.len() - i,
    {
        if matches_key(&profiles[i], scope_hash, query_id) {
            proof {
                seqs::lemma_first_where_is_unique(profiles@, p, Some(i as int));
            }
            return Some(i);
        }
        i += 1;
    }
    proof {
        seqs::lemma_first_where_is_unique(profiles@, p, None);
    }
    None
}

pub fn find_empty_profile_slot(profiles: &[PwbProfileEntry]) -> (r: Option<usize>)
    ensures
        seqs::as_index(r) == seqs::first_where(profiles@, is_empty_slot()),
        r matches Some(i) ==> i < profiles@.len(),
{
    let ghost p = is_empty_slot();
    let mut i: usize = 0;
    while i < profiles.len()
        invariant
            i <= profiles@.len(),
            p == is_empty_slot(),
            forall|j: int| 0 <= j < i ==> !p(#[trigger] profiles@[j]),
        decreases profiles@.len() - i,
    {
        if profiles[i].occupied == 0 {
            proof {
                seqs::lemma_first_where_is_unique(profiles@, p, Some(i as int));
            }
            return Some(i);
        }
        i += 1;
    }
    proof {
        seqs::lemma_first_where_is_unique(profiles@, p, None);
    }
    None
}

pub fn find_profile_eviction_slot(profiles: &[PwbProfileEntry]) -> (r: Option<usize>)
    ensures
        seqs::as_index(r) == least_recently_seen(profiles@),
        r matches Some(i) ==> i < profiles@.len(),
{
    let mut found: Option<usize> = None;
    let mut i: usize = 0;
    assert(profiles@.take(0) =~= Seq::empty());
    while i < profiles.len()
        invariant
            i <= profiles@.len(),
            seqs::as_index(found) == least_recently_seen(profiles@.take(i as int)),
            found matches Some(k) ==> k < i,
        decreases profiles@.len() - i,
    {
        assert(profiles@.take(i + 1).drop_last() =~= profiles@.take(i as int));
        if profiles[i].occupied == 1 {
            match found {
                None => {
                    found = Some(i);
                },
                Some(k) => {
                    if profiles[i].profile.last_seen_epoch_ms < profiles[k].profile.last_seen_epoch_ms {
                        found = Some(i);
                    }
                },
            }
        }
        i += 1;
    }
    assert(profiles@.take(i as int) =~= profiles@);
    found
}

fn count_new_profile(state: &mut PwbSharedState)
    ensures
        *final(state) == one_more_profile(*old(state)),
{
    if state.profiles_len < state.profile_cache_capacity {
        state.profiles_len = state.profiles_len + 1;
    } else {
        state.profiles_len = state.profile_cache_capacity;
    }
}

pub fn upsert_query_profile_locked(
    state: &mut PwbSharedState,
    profiles: &mut [PwbProfileEntry],
    scope_hash: Option<ScopeHash>,
    query_id: QueryId,
    actual_wal_bytes: WalBytes,
    now_epoch_ms: EpochMillis,
    ewma_weights: ProfileEwmaWeights,
) -> (r: PwbResult<()>)
    requires
        ewma_weights.wf(),
    ensures
        match upserted(
            *old(state),
            old(profiles)@,
            scope_hash,
            query_id,
            actual_wal_bytes,
            now_epoch_ms,
            ewma_weights,
        ) {
            Ok((state2, profiles2)) => {
                &&& r is Ok
                &&& *final(state) == state2
                &&& final(profiles)@ == profiles2
            },
            Err(error) => {
                &&& errors::fails_with(r, error)
                &&& *final(state) == *old(state)
                &&& final(profiles)@ == old(profiles)@
            },
        },
{
    match find_profile_slot(profiles, scope_hash, query_id) {
        Some(slot) => {
            let mut profile: QueryWalProfile = QueryWalProfile::from(profiles[slot].profile);
            profile.record_observation(
                actual_wal_bytes,
                now_epoch_ms,
                ewma_weights.numerator,
                ewma_weights.denominator,
            );
            profiles[slot] = PwbProfileEntry::encode(
                scope_hash,
                query_id,
                PwbQueryWalProfile::from(profile),
            );
            Ok(())
        },
        None => {
            let slot: usize = match find_empty_profile_slot(profiles) {
                Some(slot) => {
                    count_new_profile(state);
                    slot
                },
                None => match find_profile_eviction_slot(profiles) {
                    Some(slot) => slot,
                    None => {
                        return Err(profile_cache_capacity_exhausted());
                    },
                },
            };
            profiles[slot] = PwbProfileEntry::encode(
                scope_hash,
                query_id,
                PwbQueryWalProfile::from(QueryWalProfile::new(actual_wal_bytes, now_epoch_ms)),
            );
            Ok(())
        },
    }
}

pub fn upsert_scoped_and_global_query_profiles_locked(
    state: &mut PwbSharedState,
    profiles: &mut [PwbProfileEntry],
    scope_hash: ScopeHash,
    query_id: QueryId,
    actual_wal_bytes: WalBytes,
    now_epoch_ms: EpochMillis,
    ewma_weights: ProfileEwmaWeights,
) -> (r: PwbResult<()>)
    requires
        ewma_weights.wf(),
    ensures
        match observed(
            *old(state),
            old(profiles)@,
            scope_hash,
            query_id,
            actual_wal_bytes,
            now_epoch_ms,
            ewma_weights,
        ) {
            Ok((state2, profiles2)) => {
                &&& r is Ok
                &&& *final(state) == state2
                &&& final(profiles)@ == profiles2
            },
            Err(error) => {
                &&& errors::fails_with(r, error)
                &&& *final(state) == *old(state)
                &&& final(profiles)@ == old(profiles)@
            },
        },
{
    proof {
        lemma_second_upsert_succeeds(
            *state,
            profiles@,
            scope_hash,
            query_id,
            actual_wal_bytes,
            now_epoch_ms,
            ewma_weights,
        );
    }
    upsert_query_profile_locked(
        state,
        profiles,
        Some(scope_hash),
        query_id,
        actual_wal_bytes,
        now_epoch_ms,
        ewma_weights,
    )?;
    upsert_query_profile_locked(
        state,
        profiles,
        None,
        query_id,
        actual_wal_bytes,
        now_epoch_ms,
        ewma_weights,
    )
}

proof fn lemma_least_recently_seen(slots: Seq<PwbProfileEntry>)
    ensures
        match least_recently_seen(slots) {
            None => forall|j: int| 0 <= j < slots.len() ==> (#[trigger] slots[j]).occupied != 1,
            Some(i) => {
                &&& 0 <= i < slots.len()
                &&& slots[i].occupied == 1
                &&& forall|j: int|
                    0 <= j < slots.len() && (#[trigger] slots[j]).occupied == 1
                        ==> slots[i].profile.last_seen_epoch_ms
                        <= slots[j].profile.last_seen_epoch_ms
                &&& forall|j: int|
                    0 <= j < i && (#[trigger] slots[j]).occupied == 1
                        ==> slots[i].profile.last_seen_epoch_ms
                        < slots[j].profile.last_seen_epoch_ms
            },
        },
    decreases slots.len(),
{
    if slots.len() > 0 {
        let rest = slots.drop_last();
        lemma_least_recently_seen(rest);
        assert forall|j: int| 0 <= j < slots.len() - 1 implies #[trigger] slots[j] == rest[j] by {}
        if let Some(i) = least_recently_seen(rest) {
            assert(rest[i] == slots[i]);
        }
    }
}

/// Once a profile was stored, the table has an occupied slot, so that storing another succeeds.
proof fn lemma_second_upsert_succeeds(
    state: PwbSharedState,
    slots: Seq<PwbProfileEntry>,
    scope_hash: ScopeHash,
    query_id: QueryId,
    actual_wal_bytes: WalBytes,
    now_epoch_ms: EpochMillis,
    weights: ProfileEwmaWeights,
)
    ensures
        upserted(
            state,
            slots,
            Some(scope_hash),
            query_id,
            actual_wal_bytes,
            now_epoch_ms,
            weights,
        ) is Ok ==> observed(
            state,
            slots,
            scope_hash,
            query_id,
            actual_wal_bytes,
            now_epoch_ms,
            weights,
        ) is Ok,
{
    let first = upserted(
        state,
        slots,
        Some(scope_hash),
        query_id,
        actual_wal_bytes,
        now_epoch_ms,
        weights,
    );
    seqs::lemma_first_where(slots, holds_key(Some(scope_hash), query_id));
    seqs::lemma_first_where(slots, is_empty_slot());
    lemma_least_recently_seen(slots);
    if let Ok((state1, slots1)) = first {
        lemma_least_recently_seen(slots1);
        let i = match seqs::first_where(slots, holds_key(Some(scope_hash), query_id)) {
            Some(i) => i,
            None => match seqs::first_where(slots, is_empty_slot()) {
                Some(i) => i,
                None => least_recently_seen(slots)->0,
            },
        };
        assert(slots1[i].occupied == 1);
    }
}

pub fn upsert_restored_query_profile_locked(
    state: &mut PwbSharedState,
    profiles: &mut [PwbProfileEntry],
    snapshot: QueryProfileSnapshot,
) -> (r: PwbResult<()>)
    ensures
        match restored_one(*old(state), old(profiles)@, snapshot) {
            Ok((state2, profiles2)) => {
                &&& r is Ok
                &&& *final(state) == state2
                &&& final(profiles)@ == profiles2
            },
            Err(error) => {
                &&& errors::fails_with(r, error)
                &&& *final(state) == *old(state)
                &&& final(profiles)@ == old(profiles)@
            },
        },
{
    if profiles.len() == 0 {
        proof {
            seqs::lemma_first_where(
                profiles@,
                holds_key(snapshot.scope_hash, snapshot.query_id),
            );
            seqs::lemma_first_where(profiles@, is_empty_slot());
        }
        return Err(profile_cache_capacity_exhausted());
    }
    if let Some(slot) = find_profile_slot(profiles, snapshot.scope_hash, snapshot.query_id) {
        if profiles[slot].profile.last_seen_epoch_ms <= snapshot.profile.last_seen_epoch_ms {
            profiles[slot] = PwbProfileEntry::encode(
                snapshot.scope_hash,
                snapshot.query_id,
                PwbQueryWalProfile::from(snapshot.profile),
            );
        }
        return Ok(());
    }
    let slot: usize = match find_empty_profile_slot(profiles) {
        Some(slot) => {
            count_new_profile(state);
            slot
        },
        None => match find_profile_eviction_slot(profiles) {
            None => {
                return Err(profile_cache_capacity_exhausted());
            },
            Some(slot) => {
                if profiles[slot].profile.last_seen_epoch_ms > snapshot.profile.last_seen_epoch_ms {
                    return Ok(());
                }
                slot
            },
        },
    };
    profiles[slot] = PwbProfileEntry::encode(
        snapshot.scope_hash,
        snapshot.query_id,
        PwbQueryWalProfile::from(snapshot.profile),
    );
    Ok(())
}

pub fn snapshot_profiles_from_slice(profiles: &[PwbProfileEntry]) -> (r: PwbResult<
    Vec<QueryProfileSnapshot>,
>)
    ensures
        seqs::same_values(r, snapshots_of(profiles@)),
{
    let ghost p = is_occupied();
    let ghost f = to_snapshot();
    let mut snapshots: Vec<QueryProfileSnapshot> = Vec::new();
    let mut i: usize = 0;
    proof {
        seqs::lemma_all_ok_where_empty(profiles@, p, f);
    }
    while i < profiles.len()
        invariant
            i <= profiles@.len(),
            p == is_occupied(),
            f == to_snapshot(),
            seqs::all_ok_where(profiles@.take(i as int), p, f) == Ok::<
                Seq<QueryProfileSnapshot>,
                PwbErrorView,
            >(snapshots@),
        decreases profiles@.len() - i,
    {
        proof {
            seqs::lemma_all_ok_where_step(profiles@, p, f, i as int);
        }
        if profiles[i].occupied == 1 {
            match profiles[i].decode() {
                Ok(decoded) => snapshots.push(
                    QueryProfileSnapshot {
                        scope_hash: decoded.scope_hash,
                        query_id: decoded.query_id,
                        profile: QueryWalProfile::from(decoded.profile),
                    },
                ),
                Err(error) => {
                    proof {
                        seqs::lemma_all_ok_where_keeps_error(profiles@, p, f, i + 1);
                    }
                    return Err(error);
                },
            }
        }
        i += 1;
    }
    assert(profiles@.take(i as int) =~= profiles@);
    Ok(snapshots)
}

/// The profile that is stored under a key.
pub open spec fn profile_at(
    slots: Seq<PwbProfileEntry>,
    scope_hash: Option<ScopeHash>,
    query_id: QueryId,
) -> Option<QueryWalProfile> {
    match seqs::first_where(slots, holds_key(scope_hash, query_id)) {
        Some(i) => Some(slots[i].profile.profile()),
        None => None,
    }
}

/// The profile of a query in a scope, or else its global profile.
pub open spec fn scoped_or_global(
    slots: Seq<PwbProfileEntry>,
    scope_hash: ScopeHash,
    query_id: QueryId,
) -> Option<QueryWalProfile> {
    match profile_at(slots, Some(scope_hash), query_id) {
        Some(profile) => Some(profile),
        None => profile_at(slots, None, query_id),
    }
}

/// Whether a restore may begin: none was tried, the last one failed, or the one that is under way
/// has been so for too long.
pub open spec fn restore_may_begin(
    state: PwbSharedState,
    now_epoch_ms: EpochMillis,
    stale_after_ms: EpochMillis,
) -> bool {
    ||| state.profile_restore_state == PROFILE_RESTORE_NOT_ATTEMPTED
    ||| state.profile_restore_state == PROFILE_RESTORE_FAILED
    ||| state.profile_restore_state == PROFILE_RESTORE_IN_PROGRESS && elapsed(
        state.profile_restore_started_epoch_ms,
        now_epoch_ms,
    ) >= stale_after_ms
}

/// The time from `start` to `now`, zero where the clock went back.
pub open spec fn elapsed(start: EpochMillis, now: EpochMillis) -> int {
    if now >= start {
        now - start
    } else {
        0
    }
}

/// The head after a restore began.
pub open spec fn restore_begun(state: PwbSharedState, now_epoch_ms: EpochMillis) -> PwbSharedState {
    PwbSharedState {
        profile_restore_state: PROFILE_RESTORE_IN_PROGRESS,
        profile_restore_started_epoch_ms: now_epoch_ms,
        ..state
    }
}

/// The head after a restore succeeded.
pub open spec fn restore_finished(state: PwbSharedState) -> PwbSharedState {
    PwbSharedState {
        profile_restore_state: PROFILE_RESTORE_LOADED,
        profile_restore_started_epoch_ms: 0,
        ..state
    }
}

/// The head after the restore that was under way, if any, failed.
pub open spec fn restore_failed(state: PwbSharedState) -> PwbSharedState {
    if state.profile_restore_state == PROFILE_RESTORE_IN_PROGRESS {
        PwbSharedState {
            profile_restore_state: PROFILE_RESTORE_FAILED,
            profile_restore_started_epoch_ms: 0,
            ..state
        }
    } else {
        state
    }
}

/// Whether profiles have changed and the last attempt to store them is long enough ago.
pub open spec fn persist_is_due(
    state: PwbSharedState,
    now_epoch_ms: EpochMillis,
    interval_ms: EpochMillis,
) -> bool {
    &&& state.profile_dirty_count != 0
    &&& elapsed(state.last_profile_persist_epoch_ms, now_epoch_ms) >= interval_ms
}

/// The head after an attempt to store the profiles.
pub open spec fn persist_attempted(state: PwbSharedState, now_epoch_ms: EpochMillis) -> PwbSharedState {
    PwbSharedState { last_profile_persist_epoch_ms: now_epoch_ms, ..state }
}

/// The head after the attempt ended.
pub open spec fn persist_completed(state: PwbSharedState, success: bool) -> PwbSharedState {
    if success {
        PwbSharedState { profile_dirty_count: 0, ..state }
    } else {
        state
    }
}

impl RegionView {
    /// The region with this head.
    pub open spec fn with_state(self, state: PwbSharedState) -> RegionView {
        RegionView { state, ..self }
    }

    /// The region with this head and these profiles.
    pub open spec fn with_profiles(self, state: PwbSharedState, profiles: Seq<PwbProfileEntry>) -> RegionView {
        RegionView { state, profiles, ..self }
    }

    /// The region without profiles. There is then nothing to restore.
    pub open spec fn without_profiles(self) -> RegionView {
        RegionView {
            state: PwbSharedState {
                profiles_len: 0,
                profile_restore_state: PROFILE_RESTORE_LOADED,
                profile_restore_started_epoch_ms: 0,
                last_profile_persist_epoch_ms: 0,
                profile_dirty_count: 0,
                ..self.state
            },
            profiles: Seq::new(self.profiles.len(), |i: int| PwbProfileEntry::empty()),
            ..self
        }
    }
}

proof fn lemma_count_after_update(slots: Seq<PwbProfileEntry>, i: int, entry: PwbProfileEntry)
    requires
        0 <= i < slots.len(),
        entry.occupied == 1,
    ensures
        slots.update(i, entry).filter(is_occupied()).len() == slots.filter(is_occupied()).len() + if slots[i].occupied == 1 {
            0int
        } else {
            1int
        },
        slots.filter(is_occupied()).len() <= slots.len(),
    decreases slots.len(),
{
    reveal(Seq::filter);
    let after = slots.update(i, entry);
    lemma_count_at_most_len(slots.drop_last());
    if i == slots.len() - 1 {
        assert(after.drop_last() =~= slots.drop_last());
    } else {
        assert(after.drop_last() =~= slots.drop_last().update(i, entry));
        lemma_count_after_update(slots.drop_last(), i, entry);
    }
}

proof fn lemma_count_at_most_len(slots: Seq<PwbProfileEntry>)
    ensures
        slots.filter(is_occupied()).len() <= slots.len(),
    decreases slots.len(),
{
    reveal(Seq::filter);
    if slots.len() > 0 {
        lemma_count_at_most_len(slots.drop_last());
    }
}

/// Storing a profile in the slot that has its key or, where none has, in any slot keeps the table in
/// order, and the profile is then found under its key.
pub proof fn lemma_stored_profile(
    state: PwbSharedState,
    slots: Seq<PwbProfileEntry>,
    i: int,
    scope_hash: Option<ScopeHash>,
    query_id: QueryId,
    profile: PwbQueryWalProfile,
)
    requires
        profiles_wf(state, slots),
        0 <= i < slots.len(),
        match seqs::first_where(slots, holds_key(scope_hash, query_id)) {
            Some(k) => k == i,
            None => true,
        },
    ensures
        ({
            let slots2 = slots.update(
                i,
                PwbProfileEntry::encoded(scope_hash, query_id, profile),
            );
            &&& profiles_wf(
                if slots[i].occupied == 0 {
                    one_more_profile(state)
                } else {
                    state
                },
                slots2,
            )
            &&& seqs::first_where(slots2, holds_key(scope_hash, query_id)) == Some(i)
            &&& profile_at(slots2, scope_hash, query_id) == Some(profile.profile())
        }),
{
    let p = holds_key(scope_hash, query_id);
    let entry = PwbProfileEntry::encoded(scope_hash, query_id, profile);
    let slots2 = slots.update(i, entry);
    seqs::lemma_first_where(slots, p);
    lemma_count_after_update(slots, i, entry);
    lemma_count_at_most_len(slots2);
    assert forall|j: int| 0 <= j < slots.len() && j != i implies !p(#[trigger] slots[j]) by {
        if let Some(k) = seqs::first_where(slots, p) {
            assert(p(slots[k]));
            if j > i {
                assert(!slots[i].same_key(slots[j]));
            }
        }
    }
    assert forall|a: int, b: int| 0 <= a < b < slots2.len() implies !(#[trigger] slots2[a]).same_key(
        #[trigger] slots2[b],
    ) by {
        if a == i {
            assert(!p(slots[b]));
        } else if b == i {
            assert(!p(slots[a]));
        } else {
            assert(!slots[a].same_key(slots[b]));
        }
    }
    assert forall|j: int| 0 <= j < slots2.len() implies (#[trigger] slots2[j]).occupied <= 1
        && slots2[j].has_scope_hash <= 1 by {
        assert(slots[j].occupied <= 1 && slots[j].has_scope_hash <= 1);
    }
    assert forall|j: int| 0 <= j < i implies !p(#[trigger] slots2[j]) by {
        assert(!p(slots[j]));
    }
    seqs::lemma_first_where_is_unique(slots2, p, Some(i));
}

/// Observing a query keeps the table in order. The query's profile is then found under its key: the
/// old one with the observation added, or a new one. At most one slot changes, and a profile of
/// another query is given up only where the table is full, and then the one that was seen longest ago.
pub proof fn law_upserted_profile_is_found(
    state: PwbSharedState,
    slots: Seq<PwbProfileEntry>,
    scope_hash: Option<ScopeHash>,
    query_id: QueryId,
    actual_wal_bytes: WalBytes,
    now_epoch_ms: EpochMillis,
    weights: ProfileEwmaWeights,
)
    requires
        profiles_wf(state, slots),
        slots.len() > 0,
    ensures
        upserted(
            state,
            slots,
            scope_hash,
            query_id,
            actual_wal_bytes,
            now_epoch_ms,
            weights,
        ) matches Ok((state2, slots2)) && {
            &&& profiles_wf(state2, slots2)
            &&& profile_at(slots2, scope_hash, query_id) == Some(
                match profile_at(slots, scope_hash, query_id) {
                    Some(profile) => profile.observed(actual_wal_bytes, now_epoch_ms, weights),
                    None => QueryWalProfile::first(actual_wal_bytes, now_epoch_ms),
                },
            )
            &&& exists|i: int|
                0 <= i < slots.len() && slots2 == slots.update(i, #[trigger] slots2[i]) && (
                slots[i].occupied == 1 && !slots[i].has_key(scope_hash, query_id) ==> forall|j: int|
                    0 <= j < slots.len() ==> (#[trigger] slots[j]).occupied == 1
                        && slots[i].profile.last_seen_epoch_ms
                        <= slots[j].profile.last_seen_epoch_ms)
        },
{
    let p = holds_key(scope_hash, query_id);
    let q = is_empty_slot();
    seqs::lemma_first_where(slots, p);
    seqs::lemma_first_where(slots, q);
    lemma_least_recently_seen(slots);
    assert forall|j: int| 0 <= j < slots.len() implies (#[trigger] slots[j]).occupied == 1
        || q(slots[j]) by {
        assert(slots[j].occupied <= 1);
    }
    match seqs::first_where(slots, p) {
        Some(i) => {
            let profile = PwbQueryWalProfile::of(
                slots[i].profile.profile().observed(actual_wal_bytes, now_epoch_ms, weights),
            );
            assert(p(slots[i]));
            lemma_stored_profile(state, slots, i, scope_hash, query_id, profile);
            let slots2 = slots.update(i, PwbProfileEntry::encoded(scope_hash, query_id, profile));
            assert(slots2 =~= slots.update(i, slots2[i]));
        },
        None => {
            let profile = PwbQueryWalProfile::of(
                QueryWalProfile::first(actual_wal_bytes, now_epoch_ms),
            );
            let i = match seqs::first_where(slots, q) {
                Some(i) => i,
                None => {
                    assert(slots[0].occupied == 1);
                    least_recently_seen(slots)->0
                },
            };
            if seqs::first_where(slots, q) is None {
                assert forall|j: int| 0 <= j < slots.len() implies (#[trigger] slots[j]).occupied
                    == 1 by {
                    assert(!q(slots[j]));
                }
            } else {
                assert(q(slots[i]));
            }
            lemma_stored_profile(state, slots, i, scope_hash, query_id, profile);
            let slots2 = slots.update(i, PwbProfileEntry::encoded(scope_hash, query_id, profile));
            assert(slots2 =~= slots.update(i, slots2[i]));
        },
    }
}

/// Putting a stored profile back keeps the table in order, and never replaces a profile that was seen
/// later.
pub proof fn law_restore_keeps_newer_profiles(
    state: PwbSharedState,
    slots: Seq<PwbProfileEntry>,
    snapshot: QueryProfileSnapshot,
)
    requires
        profiles_wf(state, slots),
        slots.len() > 0,
    ensures
        restored_one(state, slots, snapshot) matches Ok((state2, slots2)) && {
            &&& profiles_wf(state2, slots2)
            &&& slots2.len() == slots.len()
            &&& forall|i: int|
                0 <= i < slots.len() && (#[trigger] slots[i]).occupied == 1
                    && slots[i].profile.last_seen_epoch_ms > snapshot.profile.last_seen_epoch_ms
                    ==> slots2[i] == slots[i]
        },
{
    let p = holds_key(snapshot.scope_hash, snapshot.query_id);
    let q = is_empty_slot();
    seqs::lemma_first_where(slots, p);
    seqs::lemma_first_where(slots, q);
    lemma_least_recently_seen(slots);
    let profile = PwbQueryWalProfile::of(snapshot.profile);
    match seqs::first_where(slots, p) {
        Some(i) => {
            assert(p(slots[i]));
            lemma_stored_profile(
                state,
                slots,
                i,
                snapshot.scope_hash,
                snapshot.query_id,
                profile,
            );
        },
        None => match seqs::first_where(slots, q) {
            Some(i) => {
                assert(q(slots[i]));
                lemma_stored_profile(
                    state,
                    slots,
                    i,
                    snapshot.scope_hash,
                    snapshot.query_id,
                    profile,
                );
            },
            None => {
                assert(!q(slots[0]));
                assert(slots[0].occupied <= 1);
                let i = least_recently_seen(slots)->0;
                lemma_stored_profile(
                    state,
                    slots,
                    i,
                    snapshot.scope_hash,
                    snapshot.query_id,
                    profile,
                );
            },
        },
    }
}

/// Putting stored profiles back keeps the table in order. It fails exactly where there are some and
/// the table has no slots.
pub proof fn law_restore_keeps_order(
    state: PwbSharedState,
    slots: Seq<PwbProfileEntry>,
    snapshots: Seq<QueryProfileSnapshot>,
)
    requires
        profiles_wf(state, slots),
    ensures
        match restored_all(state, slots, snapshots) {
            Ok((state2, slots2)) => {
                &&& profiles_wf(state2, slots2)
                &&& slots2.len() == slots.len()
                &&& slots.len() > 0 || snapshots.len() == 0
                &&& state2 == (PwbSharedState { profiles_len: state2.profiles_len, ..state })
            },
            Err(error) => error == capacity_error() && slots.len() == 0 && snapshots.len() > 0,
        },
    decreases snapshots.len(),
{
    if snapshots.len() > 0 {
        law_restore_keeps_order(state, slots, snapshots.drop_last());
        if let Ok((state1, slots1)) = restored_all(state, slots, snapshots.drop_last()) {
            if slots1.len() > 0 {
                law_restore_keeps_newer_profiles(state1, slots1, snapshots.last());
            } else {
                seqs::lemma_first_where(
                    slots1,
                    holds_key(snapshots.last().scope_hash, snapshots.last().query_id),
                );
                seqs::lemma_first_where(slots1, is_empty_slot());
            }
        }
    }
}

proof fn lemma_upsert_into_no_slots(
    state: PwbSharedState,
    slots: Seq<PwbProfileEntry>,
    scope_hash: Option<ScopeHash>,
    query_id: QueryId,
    actual_wal_bytes: WalBytes,
    now_epoch_ms: EpochMillis,
    weights: ProfileEwmaWeights,
)
    requires
        slots.len() == 0,
    ensures
        upserted(
            state,
            slots,
            scope_hash,
            query_id,
            actual_wal_bytes,
            now_epoch_ms,
            weights,
        ) is Err,
{
    seqs::lemma_first_where(slots, holds_key(scope_hash, query_id));
    seqs::lemma_first_where(slots, is_empty_slot());
}

/// Observing a query in a table that has slots succeeds, keeps the table in order, and leaves a global
/// profile of the query, so that the query has a profile in every scope from then on.
pub proof fn law_observed_query_has_profile(
    state: PwbSharedState,
    slots: Seq<PwbProfileEntry>,
    scope_hash: ScopeHash,
    query_id: QueryId,
    actual_wal_bytes: WalBytes,
    now_epoch_ms: EpochMillis,
    weights: ProfileEwmaWeights,
)
    requires
        profiles_wf(state, slots),
        slots.len() > 0,
    ensures
        observed(
            state,
            slots,
            scope_hash,
            query_id,
            actual_wal_bytes,
            now_epoch_ms,
            weights,
        ) matches Ok((state2, slots2)) && {
            &&& profiles_wf(state2, slots2)
            &&& profile_at(slots2, None, query_id) is Some
            &&& forall|scope: ScopeHash| #[trigger]
                scoped_or_global(slots2, scope, query_id) is Some
        },
{
    law_upserted_profile_is_found(
        state,
        slots,
        Some(scope_hash),
        query_id,
        actual_wal_bytes,
        now_epoch_ms,
        weights,
    );
    let (state1, slots1) = upserted(
        state,
        slots,
        Some(scope_hash),
        query_id,
        actual_wal_bytes,
        now_epoch_ms,
        weights,
    )->Ok_0;
    law_upserted_profile_is_found(
        state1,
        slots1,
        None,
        query_id,
        actual_wal_bytes,
        now_epoch_ms,
        weights,
    );
}

/// In a table in order every occupied slot can be read.
pub proof fn law_profiles_can_be_read(state: PwbSharedState, slots: Seq<PwbProfileEntry>)
    requires
        profiles_wf(state, slots),
    ensures
        snapshots_of(slots) matches Ok(snapshots) && snapshots.len() == state.profiles_len,
{
    let p = is_occupied();
    let kept = slots.filter(p);
    let results = kept.map_values(to_snapshot());
    assert forall|i: int| 0 <= i < results.len() implies (#[trigger] results[i]) is Ok by {
        slots.lemma_filter_pred(p, i);
        slots.lemma_filter_contains_rev(p, kept[i]);
        let k = choose|k: int| 0 <= k < slots.len() && slots[k] == kept[i];
        assert(slots[k].has_scope_hash <= 1);
    }
    seqs::lemma_all_ok_of_values(results);
}

pub fn reset_profiles(shmem: &mut SharedMemory) -> (r: PwbResult<()>)
    requires
        old(shmem).wf(),
    ensures
        final(shmem).wf(),
        match old(shmem)@.access() {
            Err(error) => errors::fails_with(r, error) && final(shmem)@ == old(shmem)@,
            Ok(region) => {
                &&& r is Ok
                &&& final(shmem)@ == old(shmem)@.holding(region.without_profiles())
            },
        },
{
    let region = shmem.locked()?;
    region.state.profiles_len = 0;
    region.state.profile_restore_state = PROFILE_RESTORE_LOADED;
    region.state.profile_restore_started_epoch_ms = 0;
    region.state.last_profile_persist_epoch_ms = 0;
    region.state.profile_dirty_count = 0;
    clear_profiles(region.profiles.as_mut_slice());
    proof {
        lemma_empty_table(region.profiles@);
    }
    Ok(())
}

fn clear_profiles(profiles: &mut [PwbProfileEntry])
    ensures
        final(profiles)@ == Seq::new(old(profiles)@.len(), |i: int| PwbProfileEntry::empty()),
{
    let mut i: usize = 0;
    while i < profiles.len()
        invariant
            i <= profiles@.len(),
            profiles@.len() == old(profiles)@.len(),
            forall|k: int| 0 <= k < i ==> #[trigger] profiles@[k] == PwbProfileEntry::empty(),
        decreases profiles@.len() - i,
    {
        profiles[i] = PwbProfileEntry::default();
        i += 1;
    }
    assert(profiles@ =~= Seq::new(old(profiles)@.len(), |i: int| PwbProfileEntry::empty()));
}

pub fn snapshot_query_profiles(shmem: &SharedMemory) -> (r: PwbResult<Vec<QueryProfileSnapshot>>)
    ensures
        seqs::same_values(
            r,
            match shmem@.access() {
                Err(error) => Err(error),
                Ok(region) => snapshots_of(region.profiles),
            },
        ),
{
    let region = shmem.read()?;
    snapshot_profiles_from_slice(region.profiles.as_slice())
}

pub fn begin_profile_restore(
    shmem: &mut SharedMemory,
    now_epoch_ms: EpochMillis,
    stale_after_ms: EpochMillis,
) -> (r: PwbResult<bool>)
    requires
        old(shmem).wf(),
    ensures
        final(shmem).wf(),
        match old(shmem)@.access() {
            Err(error) => errors::fails_with(r, error) && final(shmem)@ == old(shmem)@,
            Ok(region) => if restore_may_begin(region.state, now_epoch_ms, stale_after_ms) {
                &&& r == Ok::<bool, PwbError>(true)
                &&& final(shmem)@ == old(shmem)@.holding(
                    region.with_state(restore_begun(region.state, now_epoch_ms)),
                )
            } else {
                r == Ok::<bool, PwbError>(false) && final(shmem)@ == old(shmem)@
            },
        },
{
    let region = shmem.locked()?;
    let stale_restore: bool = region.state.profile_restore_state == PROFILE_RESTORE_IN_PROGRESS
        && now_epoch_ms.saturating_sub(region.state.profile_restore_started_epoch_ms)
        >= stale_after_ms;
    if region.state.profile_restore_state == PROFILE_RESTORE_NOT_ATTEMPTED
        || region.state.profile_restore_state == PROFILE_RESTORE_FAILED || stale_restore {
        region.state.profile_restore_state = PROFILE_RESTORE_IN_PROGRESS;
        region.state.profile_restore_started_epoch_ms = now_epoch_ms;
        return Ok(true);
    }
    Ok(false)
}

/// What finishing a restore makes of a region.
pub open spec fn restored_region(
    region: RegionView,
    snapshots: Seq<QueryProfileSnapshot>,
) -> Result<RegionView, PwbErrorView> {
    match restored_all(region.state, region.profiles, snapshots) {
        Ok((state, profiles)) => Ok(region.with_profiles(restore_finished(state), profiles)),
        Err(error) => Err(error),
    }
}

pub fn finish_profile_restore(shmem: &mut SharedMemory, restored: &[QueryProfileSnapshot]) -> (r:
    PwbResult<()>)
    requires
        old(shmem).wf(),
    ensures
        final(shmem).wf(),
        match old(shmem)@.access() {
            Err(error) => errors::fails_with(r, error) && final(shmem)@ == old(shmem)@,
            Ok(region) => match restored_region(region, restored@) {
                Ok(region2) => r is Ok && final(shmem)@ == old(shmem)@.holding(region2),
                Err(error) => errors::fails_with(r, error) && final(shmem)@ == old(shmem)@,
            },
        },
{
    let ghost before = shmem@.access();
    proof {
        if let Ok(region) = before {
            law_restore_keeps_order(region.state, region.profiles, restored@);
        }
    }
    let region = shmem.locked()?;
    restore_profiles_locked(&mut region.state, region.profiles.as_mut_slice(), restored)?;
    region.state.profile_restore_state = PROFILE_RESTORE_LOADED;
    region.state.profile_restore_started_epoch_ms = 0;
    Ok(())
}

fn restore_profiles_locked(
    state: &mut PwbSharedState,
    profiles: &mut [PwbProfileEntry],
    restored: &[QueryProfileSnapshot],
) -> (r: PwbResult<()>)
    requires
        profiles_wf(*old(state), old(profiles)@),
    ensures
        match restored_all(*old(state), old(profiles)@, restored@) {
            Ok((state2, profiles2)) => {
                &&& r is Ok
                &&& *final(state) == state2
                &&& final(profiles)@ == profiles2
            },
            Err(error) => {
                &&& errors::fails_with(r, error)
                &&& *final(state) == *old(state)
                &&& final(profiles)@ == old(profiles)@
            },
        },
{
    let mut i: usize = 0;
    assert(restored@.take(0) =~= Seq::empty());
    while i < restored.len()
        invariant
            i <= restored@.len(),
            profiles_wf(*old(state), old(profiles)@),
            restored_all(*old(state), old(profiles)@, restored@.take(i as int)) == Ok::<
                (PwbSharedState, Seq<PwbProfileEntry>),
                PwbErrorView,
            >((*state, profiles@)),
        decreases restored@.len() - i,
    {
        assert(restored@.take(i + 1).drop_last() =~= restored@.take(i as int));
        proof {
            law_restore_keeps_order(*old(state), old(profiles)@, restored@.take(i as int));
            law_restore_keeps_order(*old(state), old(profiles)@, restored@.take(i + 1));
            law_restore_keeps_order(*old(state), old(profiles)@, restored@);
        }
        if profiles.len() == 0 {
            assert(restored@.take(i as int).len() == 0);
            assert(restored@.take(i as int) =~= Seq::empty());
        }
        upsert_restored_query_profile_locked(state, profiles, restored[i])?;
        i += 1;
    }
    assert(restored@.take(i as int) =~= restored@);
    Ok(())
}

pub fn mark_profile_restore_failed(shmem: &mut SharedMemory) -> (r: PwbResult<()>)
    requires
        old(shmem).wf(),
    ensures
        final(shmem).wf(),
        match old(shmem)@.access() {
            Err(error) => errors::fails_with(r, error) && final(shmem)@ == old(shmem)@,
            Ok(region) => {
                &&& r is Ok
                &&& final(shmem)@ == old(shmem)@.holding(
                    region.with_state(restore_failed(region.state)),
                )
            },
        },
{
    let region = shmem.locked()?;
    if region.state.profile_restore_state == PROFILE_RESTORE_IN_PROGRESS {
        region.state.profile_restore_state = PROFILE_RESTORE_FAILED;
        region.state.profile_restore_started_epoch_ms = 0;
    }
    Ok(())
}

pub fn reserve_profile_persist(
    shmem: &mut SharedMemory,
    now_epoch_ms: EpochMillis,
    interval_ms: EpochMillis,
) -> (r: PwbResult<Option<Vec<QueryProfileSnapshot>>>)
    requires
        old(shmem).wf(),
    ensures
        final(shmem).wf(),
        match old(shmem)@.access() {
            Err(error) => errors::fails_with(r, error) && final(shmem)@ == old(shmem)@,
            Ok(region) => if !persist_is_due(region.state, now_epoch_ms, interval_ms) {
                &&& r == Ok::<Option<Vec<QueryProfileSnapshot>>, PwbError>(None)
                &&& final(shmem)@ == old(shmem)@
            } else {
                &&& r matches Ok(Some(snapshots)) && snapshots_of(region.profiles) == Ok::<
                    Seq<QueryProfileSnapshot>,
                    PwbErrorView,
                >(snapshots@)
                &&& final(shmem)@ == old(shmem)@.holding(
                    region.with_state(persist_attempted(region.state, now_epoch_ms)),
                )
            },
        },
{
    proof {
        if let Ok(region) = shmem@.access() {
            law_profiles_can_be_read(region.state, region.profiles);
        }
    }
    let region = shmem.locked()?;
    if region.state.profile_dirty_count == 0 || now_epoch_ms.saturating_sub(
        region.state.last_profile_persist_epoch_ms,
    ) < interval_ms {
        return Ok(None);
    }
    let snapshots = snapshot_profiles_from_slice(region.profiles.as_slice())?;
    region.state.last_profile_persist_epoch_ms = now_epoch_ms;
    Ok(Some(snapshots))
}

pub fn snapshot_profiles_for_persist(shmem: &mut SharedMemory, now_epoch_ms: EpochMillis) -> (r:
    PwbResult<Vec<QueryProfileSnapshot>>)
    requires
        old(shmem).wf(),
    ensures
        final(shmem).wf(),
        match old(shmem)@.access() {
            Err(error) => errors::fails_with(r, error) && final(shmem)@ == old(shmem)@,
            Ok(region) => {
                &&& r matches Ok(snapshots) && snapshots_of(region.profiles) == Ok::<
                    Seq<QueryProfileSnapshot>,
                    PwbErrorView,
                >(snapshots@)
                &&& final(shmem)@ == old(shmem)@.holding(
                    region.with_state(persist_attempted(region.state, now_epoch_ms)),
                )
            },
        },
{
    proof {
        if let Ok(region) = shmem@.access() {
            law_profiles_can_be_read(region.state, region.profiles);
        }
    }
    let region = shmem.locked()?;
    region.state.last_profile_persist_epoch_ms = now_epoch_ms;
    snapshot_profiles_from_slice(region.profiles.as_slice())
}

pub fn complete_profile_persist(shmem: &mut SharedMemory, success: bool) -> (r: PwbResult<()>)
    requires
        old(shmem).wf(),
    ensures
        final(shmem).wf(),
        match old(shmem)@.access() {
            Err(error) => errors::fails_with(r, error) && final(shmem)@ == old(shmem)@,
            Ok(region) => {
                &&& r is Ok
                &&& final(shmem)@ == old(shmem)@.holding(
                    region.with_state(persist_completed(region.state, success)),
                )
            },
        },
{
    let region = shmem.locked()?;
    if success {
        region.state.profile_dirty_count = 0;
    }
    Ok(())
}

pub fn lookup_query_profile(
    shmem: &SharedMemory,
    scope_hash: Option<ScopeHash>,
    query_id: QueryId,
) -> (r: PwbResult<Option<QueryWalProfile>>)
    ensures
        errors::same_result(
            r,
            match shmem@.access() {
                Err(error) => Err(error),
                Ok(region) => Ok(profile_at(region.profiles, scope_hash, query_id)),
            },
        ),
{
    let region = shmem.read()?;
    match find_profile_slot(region.profiles.as_slice(), scope_hash, query_id) {
        Some(slot) => Ok(Some(QueryWalProfile::from(region.profiles[slot].profile))),
        None => Ok(None),
    }
}

pub fn lookup_scoped_or_global_query_profile(
    shmem: &SharedMemory,
    scope_hash: ScopeHash,
    query_id: QueryId,
) -> (r: PwbResult<Option<QueryWalProfile>>)
    ensures
        errors::same_result(
            r,
            match shmem@.access() {
                Err(error) => Err(error),
                Ok(region) => Ok(scoped_or_global(region.profiles, scope_hash, query_id)),
            },
        ),
{
    match lookup_query_profile(shmem, Some(scope_hash), query_id)? {
        Some(profile) => Ok(Some(profile)),
        None => lookup_query_profile(shmem, None, query_id),
    }
}

pub fn upsert_query_profile(
    shmem: &mut SharedMemory,
    scope_hash: Option<ScopeHash>,
    query_id: QueryId,
    actual_wal_bytes: WalBytes,
    now_epoch_ms: EpochMillis,
    ewma_weights: ProfileEwmaWeights,
) -> (r: PwbResult<()>)
    requires
        old(shmem).wf(),
        ewma_weights.wf(),
    ensures
        final(shmem).wf(),
        match old(shmem)@.access() {
            Err(error) => errors::fails_with(r, error) && final(shmem)@ == old(shmem)@,
            Ok(region) => match upserted(
                region.state,
                region.profiles,
                scope_hash,
                query_id,
                actual_wal_bytes,
                now_epoch_ms,
                ewma_weights,
            ) {
                Err(error) => errors::fails_with(r, error) && final(shmem)@ == old(shmem)@,
                Ok((state, profiles)) => {
                    &&& r is Ok
                    &&& final(shmem)@ == old(shmem)@.holding(region.with_profiles(state, profiles))
                },
            },
        },
{
    proof {
        if let Ok(region) = shmem@.access() {
            if region.profiles.len() > 0 {
                law_upserted_profile_is_found(
                    region.state,
                    region.profiles,
                    scope_hash,
                    query_id,
                    actual_wal_bytes,
                    now_epoch_ms,
                    ewma_weights,
                );
            } else {
                lemma_upsert_into_no_slots(
                    region.state,
                    region.profiles,
                    scope_hash,
                    query_id,
                    actual_wal_bytes,
                    now_epoch_ms,
                    ewma_weights,
                );
            }
        }
    }
    let region = shmem.locked()?;
    upsert_query_profile_locked(
        &mut region.state,
        region.profiles.as_mut_slice(),
        scope_hash,
        query_id,
        actual_wal_bytes,
        now_epoch_ms,
        ewma_weights,
    )
}

/// What observing a query in its scope and globally makes of a region.
pub open spec fn observed_region(
    region: RegionView,
    scope_hash: ScopeHash,
    query_id: QueryId,
    actual_wal_bytes: WalBytes,
    now_epoch_ms: EpochMillis,
    weights: ProfileEwmaWeights,
) -> Result<RegionView, PwbErrorView> {
    match observed(
        region.state,
        region.profiles,
        scope_hash,
        query_id,
        actual_wal_bytes,
        now_epoch_ms,
        weights,
    ) {
        Err(error) => Err(error),
        Ok((state, profiles)) => Ok(
            region.with_profiles(
                PwbSharedState {
                    profile_dirty_count: types::sat_add(state.profile_dirty_count as int, 1),
                    ..state
                },
                profiles,
            ),
        ),
    }
}

pub fn upsert_scoped_and_global_query_profiles(
    shmem: &mut SharedMemory,
    scope_hash: ScopeHash,
    query_id: QueryId,
    actual_wal_bytes: WalBytes,
    now_epoch_ms: EpochMillis,
    ewma_weights: ProfileEwmaWeights,
) -> (r: PwbResult<()>)
    requires
        old(shmem).wf(),
        ewma_weights.wf(),
    ensures
        final(shmem).wf(),
        match old(shmem)@.access() {
            Err(error) => errors::fails_with(r, error) && final(shmem)@ == old(shmem)@,
            Ok(region) => match observed_region(
                region,
                scope_hash,
                query_id,
                actual_wal_bytes,
                now_epoch_ms,
                ewma_weights,
            ) {
                Err(error) => errors::fails_with(r, error) && final(shmem)@ == old(shmem)@,
                Ok(region2) => r is Ok && final(shmem)@ == old(shmem)@.holding(region2),
            },
        },
{
    proof {
        if let Ok(region) = shmem@.access() {
            if region.profiles.len() > 0 {
                law_observed_query_has_profile(
                    region.state,
                    region.profiles,
                    scope_hash,
                    query_id,
                    actual_wal_bytes,
                    now_epoch_ms,
                    ewma_weights,
                );
            } else {
                lemma_upsert_into_no_slots(
                    region.state,
                    region.profiles,
                    Some(scope_hash),
                    query_id,
                    actual_wal_bytes,
                    now_epoch_ms,
                    ewma_weights,
                );
            }
        }
    }
    let region = shmem.locked()?;
    upsert_scoped_and_global_query_profiles_locked(
        &mut region.state,
        region.profiles.as_mut_slice(),
        scope_hash,
        query_id,
        actual_wal_bytes,
        now_epoch_ms,
        ewma_weights,
    )?;
    region.state.profile_dirty_count = region.state.profile_dirty_count.saturating_add(1);
    Ok(())
}

proof fn lemma_all_occupied_fill_the_count(slots: Seq<PwbProfileEntry>)
    requires
        forall|i: int| 0 <= i < slots.len() ==> (#[trigger] slots[i]).occupied == 1,
    ensures
        slots.filter(is_occupied()).len() == slots.len(),
    decreases slots.len(),
{
    reveal(Seq::filter);
    if slots.len() > 0 {
        assert forall|i: int| 0 <= i < slots.drop_last().len() implies (
        #[trigger] slots.drop_last()[i]).occupied == 1 by {
            assert(slots[i].occupied == 1);
        }
        lemma_all_occupied_fill_the_count(slots.drop_last());
        assert(slots[slots.len() - 1].occupied == 1);
    }
}

/// A profile is found under its query and scope, or globally, as its slot holds it, and is missing where
/// no slot holds it. A lookup takes the profile of the scope and, only without one, the global profile.
pub proof fn law_profile_is_found_by_its_key(
    state: PwbSharedState,
    slots: Seq<PwbProfileEntry>,
    scope_hash: ScopeHash,
    query_id: QueryId,
    i: int,
)
    requires
        profiles_wf(state, slots),
    ensures
        0 <= i < slots.len() && slots[i].occupied == 1 && slots[i].query_id == query_id
            && slots[i].has_scope_hash == 1 && slots[i].scope_hash == scope_hash ==> {
            &&& profile_at(slots, Some(scope_hash), query_id) == Some(
                QueryWalProfile {
                    calls: slots[i].profile.calls,
                    ewma_wal_bytes: slots[i].profile.ewma_wal_bytes,
                    max_wal_bytes: slots[i].profile.max_wal_bytes,
                    last_seen_epoch_ms: slots[i].profile.last_seen_epoch_ms,
                },
            )
            &&& scoped_or_global(slots, scope_hash, query_id) == profile_at(
                slots,
                Some(scope_hash),
                query_id,
            )
        },
        0 <= i < slots.len() && slots[i].occupied == 1 && slots[i].query_id == query_id
            && slots[i].has_scope_hash == 0 ==> {
            &&& profile_at(slots, None, query_id) == Some(
                QueryWalProfile {
                    calls: slots[i].profile.calls,
                    ewma_wal_bytes: slots[i].profile.ewma_wal_bytes,
                    max_wal_bytes: slots[i].profile.max_wal_bytes,
                    last_seen_epoch_ms: slots[i].profile.last_seen_epoch_ms,
                },
            )
            &&& (forall|j: int|
                0 <= j < slots.len() ==> !((#[trigger] slots[j]).occupied == 1 && slots[j].query_id
                    == query_id && slots[j].has_scope_hash == 1 && slots[j].scope_hash
                    == scope_hash)) ==> scoped_or_global(slots, scope_hash, query_id) == profile_at(
                slots,
                None,
                query_id,
            )
        },
        (forall|j: int|
            0 <= j < slots.len() ==> !((#[trigger] slots[j]).occupied == 1 && slots[j].query_id
                == query_id)) ==> scoped_or_global(slots, scope_hash, query_id) is None,
{
    let scoped = holds_key(Some(scope_hash), query_id);
    let global = holds_key(None, query_id);
    seqs::lemma_first_where(slots, scoped);
    seqs::lemma_first_where(slots, global);
    if 0 <= i < slots.len() {
        if let Some(k) = seqs::first_where(slots, scoped) {
            assert(scoped(slots[k]));
            if scoped(slots[i]) && k != i {
                assert(k < i || i < k);
                assert(!slots[k].same_key(slots[i]) || !slots[i].same_key(slots[k]));
            }
        }
        if let Some(k) = seqs::first_where(slots, global) {
            assert(global(slots[k]));
            if global(slots[i]) && k != i {
                assert(!slots[k].same_key(slots[i]) || !slots[i].same_key(slots[k]));
            }
        }
        assert(slots[i].occupied <= 1);
    }
    if let Some(k) = seqs::first_where(slots, scoped) {
        assert(scoped(slots[k]));
    }
    if let Some(k) = seqs::first_where(slots, global) {
        assert(global(slots[k]));
    }
}

/// Observing a query that has a profile under a key, or for which there is a free slot, leaves the profiles
/// under all other keys as they were.
pub proof fn law_observing_with_room_changes_no_other(
    state: PwbSharedState,
    slots: Seq<PwbProfileEntry>,
    scope_hash: Option<ScopeHash>,
    query_id: QueryId,
    actual_wal_bytes: WalBytes,
    now_epoch_ms: EpochMillis,
    weights: ProfileEwmaWeights,
    other_scope: Option<ScopeHash>,
    other_query: QueryId,
)
    requires
        profiles_wf(state, slots),
        profile_at(slots, scope_hash, query_id) is Some || state.profiles_len
            < state.profile_cache_capacity,
        other_scope != scope_hash || other_query != query_id,
    ensures
        upserted(
            state,
            slots,
            scope_hash,
            query_id,
            actual_wal_bytes,
            now_epoch_ms,
            weights,
        ) matches Ok((state2, slots2)) && {
            &&& profile_at(slots2, other_scope, other_query) == profile_at(
                slots,
                other_scope,
                other_query,
            )
            &&& state2.profiles_len == state.profiles_len + if profile_at(
                slots,
                scope_hash,
                query_id,
            ) is Some {
                0int
            } else {
                1int
            }
            &&& state2 == (PwbSharedState { profiles_len: state2.profiles_len, ..state })
        },
{
    let p = holds_key(scope_hash, query_id);
    let q = holds_key(other_scope, other_query);
    seqs::lemma_first_where(slots, p);
    seqs::lemma_first_where(slots, q);
    seqs::lemma_first_where(slots, is_empty_slot());
    if seqs::first_where(slots, p) is None && seqs::first_where(slots, is_empty_slot()) is None {
        assert forall|i: int| 0 <= i < slots.len() implies (#[trigger] slots[i]).occupied == 1 by {
            assert(!is_empty_slot()(slots[i]));
            assert(slots[i].occupied <= 1);
        }
        lemma_all_occupied_fill_the_count(slots);
    }
    let slots2 = upserted(
        state,
        slots,
        scope_hash,
        query_id,
        actual_wal_bytes,
        now_epoch_ms,
        weights,
    )->Ok_0.1;
    let i = match seqs::first_where(slots, p) {
        Some(i) => {
            assert(p(slots[i]));
            i
        },
        None => {
            let i = seqs::first_where(slots, is_empty_slot())->0;
            assert(is_empty_slot()(slots[i]));
            i
        },
    };
    assert(!q(slots[i]) && !q(slots2[i]));
    assert forall|j: int| 0 <= j < slots.len() && j != i implies slots2[j] == #[trigger] slots[j] by {}
    match seqs::first_where(slots, q) {
        Some(k) => {
            assert(q(slots[k]));
            assert forall|j: int| 0 <= j < k implies !q(#[trigger] slots2[j]) by {
                assert(!q(slots[j]));
            }
            seqs::lemma_first_where_is_unique(slots2, q, Some(k));
        },
        None => {
            assert forall|j: int| 0 <= j < slots2.len() implies !q(#[trigger] slots2[j]) by {
                assert(!q(slots[j]));
            }
            seqs::lemma_first_where_is_unique(slots2, q, None);
        },
    }
}

/// Where the table has room, an observation reaches both profiles of its query, the one of its scope and
/// the global one: each has one call more, or one where it is new, its mean takes the observation in by
/// its weight, and it was seen now. All other profiles stay as they were.
pub proof fn law_observation_reaches_both_profiles(
    state: PwbSharedState,
    slots: Seq<PwbProfileEntry>,
    scope_hash: ScopeHash,
    query_id: QueryId,
    actual_wal_bytes: WalBytes,
    now_epoch_ms: EpochMillis,
    weights: ProfileEwmaWeights,
    key: Option<ScopeHash>,
    other_scope: Option<ScopeHash>,
    other_query: QueryId,
)
    requires
        profiles_wf(state, slots),
        0 < weights.numerator <= weights.denominator,
        state.profiles_len + (if profile_at(slots, Some(scope_hash), query_id) is None {
            1int
        } else {
            0int
        }) + (if profile_at(slots, None, query_id) is None {
            1int
        } else {
            0int
        }) <= state.profile_cache_capacity,
        key == Some(scope_hash) || key is None,
        other_query != query_id || !(other_scope is None || other_scope == Some(scope_hash)),
    ensures
        observed(
            state,
            slots,
            scope_hash,
            query_id,
            actual_wal_bytes,
            now_epoch_ms,
            weights,
        ) matches Ok((state2, slots2)) && {
            &&& profile_at(slots2, key, query_id) matches Some(after) && {
                &&& after.last_seen_epoch_ms == now_epoch_ms
                &&& match profile_at(slots, key, query_id) {
                    None => {
                        &&& after.calls == 1
                        &&& after.ewma_wal_bytes == actual_wal_bytes
                        &&& after.max_wal_bytes == actual_wal_bytes
                    },
                    Some(before) => {
                        let weighed = (weights.denominator - weights.numerator)
                            * before.ewma_wal_bytes + weights.numerator * actual_wal_bytes;
                        &&& before.calls < u64::MAX ==> after.calls == before.calls + 1
                        &&& weights.denominator * after.ewma_wal_bytes <= weighed
                            < weights.denominator * after.ewma_wal_bytes + weights.denominator
                        &&& after.max_wal_bytes >= actual_wal_bytes && after.max_wal_bytes
                            >= before.max_wal_bytes
                    },
                }
            }
            &&& profile_at(slots2, other_scope, other_query) == profile_at(
                slots,
                other_scope,
                other_query,
            )
        },
{
    let scoped = Some(scope_hash);
    law_observing_with_room_changes_no_other(
        state,
        slots,
        scoped,
        query_id,
        actual_wal_bytes,
        now_epoch_ms,
        weights,
        None,
        query_id,
    );
    law_observing_with_room_changes_no_other(
        state,
        slots,
        scoped,
        query_id,
        actual_wal_bytes,
        now_epoch_ms,
        weights,
        other_scope,
        other_query,
    );
    seqs::lemma_first_where(slots, holds_key(scoped, query_id));
    law_upserted_profile_is_found(
        state,
        slots,
        scoped,
        query_id,
        actual_wal_bytes,
        now_epoch_ms,
        weights,
    );
    let (state1, slots1) = upserted(
        state,
        slots,
        scoped,
        query_id,
        actual_wal_bytes,
        now_epoch_ms,
        weights,
    )->Ok_0;
    law_observing_with_room_changes_no_other(
        state1,
        slots1,
        None,
        query_id,
        actual_wal_bytes,
        now_epoch_ms,
        weights,
        scoped,
        query_id,
    );
    law_observing_with_room_changes_no_other(
        state1,
        slots1,
        None,
        query_id,
        actual_wal_bytes,
        now_epoch_ms,
        weights,
        other_scope,
        other_query,
    );
    law_upserted_profile_is_found(
        state1,
        slots1,
        None,
        query_id,
        actual_wal_bytes,
        now_epoch_ms,
        weights,
    );
    if let Some(before) = profile_at(slots, key, query_id) {
        types::law_mean_weighs_the_observation(before, actual_wal_bytes, now_epoch_ms, weights);
        types::law_observation_is_counted_once(before, actual_wal_bytes, now_epoch_ms, weights);
    }
}

/// A restore begins where none was tried or the last one failed, or where the one under way was begun at
/// least so long ago; never once the profiles are loaded. Profiles are due to be stored where some have
/// changed and the last attempt is at least so long ago.
pub proof fn law_restore_and_store_begin_in_time(
    state: PwbSharedState,
    now_epoch_ms: EpochMillis,
    interval_ms: EpochMillis,
)
    ensures
        state.profile_restore_state == 0 || state.profile_restore_state == 3 ==> restore_may_begin(
            state,
            now_epoch_ms,
            interval_ms,
        ),
        state.profile_restore_state == 2 ==> !restore_may_begin(state, now_epoch_ms, interval_ms),
        state.profile_restore_state == 1 && interval_ms > 0 ==> (restore_may_begin(
            state,
            now_epoch_ms,
            interval_ms,
        ) <==> now_epoch_ms - state.profile_restore_started_epoch_ms >= interval_ms),
        restore_begun(state, now_epoch_ms).profile_restore_state == 1,
        restore_begun(state, now_epoch_ms).profile_restore_started_epoch_ms == now_epoch_ms,
        restore_finished(state).profile_restore_state == 2,
        state.profile_restore_state == 1 ==> restore_failed(state).profile_restore_state == 3,
        state.profile_restore_state == 2 ==> restore_failed(state) == state,
        interval_ms > 0 ==> (persist_is_due(state, now_epoch_ms, interval_ms) <==> state.profile_dirty_count
            > 0 && now_epoch_ms - state.last_profile_persist_epoch_ms >= interval_ms),
        ({
            let attempted = persist_attempted(state, now_epoch_ms);
            &&& attempted.last_profile_persist_epoch_ms == now_epoch_ms
            &&& attempted.profile_dirty_count == state.profile_dirty_count
            &&& persist_completed(attempted, true).profile_dirty_count == 0
            &&& persist_completed(attempted, false).profile_dirty_count == state.profile_dirty_count
            &&& interval_ms > 0 ==> !persist_is_due(attempted, now_epoch_ms, interval_ms)
        }),
{
}

/// Which profiles are put back does not depend on the upkeep of the table.
pub proof fn lemma_restored_all_ignores_upkeep(
    state: PwbSharedState,
    other: PwbSharedState,
    slots: Seq<PwbProfileEntry>,
    snapshots: Seq<QueryProfileSnapshot>,
)
    ensures
        match (restored_all(state, slots, snapshots), restored_all(other, slots, snapshots)) {
            (Ok((_, slots1)), Ok((_, slots2))) => slots1 == slots2,
            (Err(error1), Err(error2)) => error1 == error2,
            _ => false,
        },
        restored_all(state, slots, snapshots) matches Ok((state2, _)) ==> state2
            == (PwbSharedState { profiles_len: state2.profiles_len, ..state }),
    decreases snapshots.len(),
{
    if snapshots.len() > 0 {
        lemma_restored_all_ignores_upkeep(state, other, slots, snapshots.drop_last());
    }
}

/// A stored profile that is put back is found under its key, with all that was stored, unless the table has
/// a profile under that key that was seen later, which then stays; or unless the table is full of profiles
/// that were seen later.
pub proof fn law_restored_profile_is_found_unless_newer(
    state: PwbSharedState,
    slots: Seq<PwbProfileEntry>,
    snapshot: QueryProfileSnapshot,
)
    requires
        profiles_wf(state, slots),
        profile_at(slots, snapshot.scope_hash, snapshot.query_id) is Some || state.profiles_len
            < state.profile_cache_capacity,
    ensures
        restored_one(state, slots, snapshot) matches Ok((state2, slots2)) && profile_at(
            slots2,
            snapshot.scope_hash,
            snapshot.query_id,
        ) == match profile_at(slots, snapshot.scope_hash, snapshot.query_id) {
            Some(profile) => if profile.last_seen_epoch_ms > snapshot.profile.last_seen_epoch_ms {
                Some(profile)
            } else {
                Some(snapshot.profile)
            },
            None => Some(snapshot.profile),
        },
{
    let p = holds_key(snapshot.scope_hash, snapshot.query_id);
    let q = is_empty_slot();
    seqs::lemma_first_where(slots, p);
    seqs::lemma_first_where(slots, q);
    if seqs::first_where(slots, p) is None && seqs::first_where(slots, q) is None {
        assert forall|i: int| 0 <= i < slots.len() implies (#[trigger] slots[i]).occupied == 1 by {
            assert(!q(slots[i]));
            assert(slots[i].occupied <= 1);
        }
        lemma_all_occupied_fill_the_count(slots);
    }
    let profile = PwbQueryWalProfile::of(snapshot.profile);
    match seqs::first_where(slots, p) {
        Some(i) => {
            assert(p(slots[i]));
            lemma_stored_profile(
                state,
                slots,
                i,
                snapshot.scope_hash,
                snapshot.query_id,
                profile,
            );
        },
        None => {
            let i = seqs::first_where(slots, q)->0;
            assert(q(slots[i]));
            lemma_stored_profile(
                state,
                slots,
                i,
                snapshot.scope_hash,
                snapshot.query_id,
                profile,
            );
        },
    }
}

/// In a full table the profile that was seen longest ago gives way to that of a new query, the first of
/// them where several were seen at the same time. All others stay.
pub proof fn law_longest_unseen_profile_gives_way(
    state: PwbSharedState,
    slots: Seq<PwbProfileEntry>,
    scope_hash: Option<ScopeHash>,
    query_id: QueryId,
    actual_wal_bytes: WalBytes,
    now_epoch_ms: EpochMillis,
    weights: ProfileEwmaWeights,
    i: int,
)
    requires
        profiles_wf(state, slots),
        0 <= i < slots.len(),
        forall|j: int|
            0 <= j < slots.len() ==> (#[trigger] slots[j]).occupied == 1 && !slots[j].has_key(
                scope_hash,
                query_id,
            ),
        forall|j: int|
            0 <= j < i ==> (#[trigger] slots[j]).profile.last_seen_epoch_ms
                > slots[i].profile.last_seen_epoch_ms,
        forall|j: int|
            i < j < slots.len() ==> (#[trigger] slots[j]).profile.last_seen_epoch_ms
                >= slots[i].profile.last_seen_epoch_ms,
    ensures
        upserted(
            state,
            slots,
            scope_hash,
            query_id,
            actual_wal_bytes,
            now_epoch_ms,
            weights,
        ) matches Ok((state2, slots2)) && {
            &&& state2 == state
            &&& slots2 == slots.update(i, slots2[i])
            &&& slots2[i].has_key(scope_hash, query_id)
            &&& slots2[i].profile.profile() == (QueryWalProfile {
                calls: 1,
                ewma_wal_bytes: actual_wal_bytes,
                max_wal_bytes: actual_wal_bytes,
                last_seen_epoch_ms: now_epoch_ms,
            })
        },
{
    let p = holds_key(scope_hash, query_id);
    let q = is_empty_slot();
    assert forall|j: int| 0 <= j < slots.len() implies !p(#[trigger] slots[j]) && !q(slots[j]) by {}
    seqs::lemma_first_where_is_unique(slots, p, None);
    seqs::lemma_first_where_is_unique(slots, q, None);
    lemma_least_recently_seen_is(slots, i);
}

proof fn lemma_least_recently_seen_is(slots: Seq<PwbProfileEntry>, i: int)
    requires
        0 <= i < slots.len(),
        forall|j: int| 0 <= j < slots.len() ==> (#[trigger] slots[j]).occupied == 1,
        forall|j: int|
            0 <= j < i ==> (#[trigger] slots[j]).profile.last_seen_epoch_ms
                > slots[i].profile.last_seen_epoch_ms,
        forall|j: int|
            i < j < slots.len() ==> (#[trigger] slots[j]).profile.last_seen_epoch_ms
                >= slots[i].profile.last_seen_epoch_ms,
    ensures
        least_recently_seen(slots) == Some(i),
    decreases slots.len(),
{
    let rest = slots.drop_last();
    if i < slots.len() - 1 {
        lemma_least_recently_seen_is(rest, i);
        assert(slots[slots.len() - 1].occupied == 1);
    } else {
        lemma_least_recently_seen_lies_in(rest);
        assert(slots[slots.len() - 1].occupied == 1);
    }
}

proof fn lemma_least_recently_seen_lies_in(slots: Seq<PwbProfileEntry>)
    ensures
        least_recently_seen(slots) matches Some(i) ==> 0 <= i < slots.len(),
    decreases slots.len(),
{
    if slots.len() > 0 {
        lemma_least_recently_seen_lies_in(slots.drop_last());
    }
}

/// An observation marks the profiles as changed and touches nothing else of the region but the profiles.
pub proof fn law_observation_marks_profiles_changed(
    region: RegionView,
    scope_hash: ScopeHash,
    query_id: QueryId,
    actual_wal_bytes: WalBytes,
    now_epoch_ms: EpochMillis,
    weights: ProfileEwmaWeights,
)
    requires
        region.wf(),
        region.state.profile_cache_capacity > 0,
    ensures
        observed_region(
            region,
            scope_hash,
            query_id,
            actual_wal_bytes,
            now_epoch_ms,
            weights,
        ) matches Ok(region2) && {
            &&& region.state.profile_dirty_count < u64::MAX ==> region2.state.profile_dirty_count
                == region.state.profile_dirty_count + 1
            &&& profile_at(region2.profiles, None, query_id) matches Some(profile)
                && profile.last_seen_epoch_ms == now_epoch_ms && profile.max_wal_bytes
                >= actual_wal_bytes
            &&& region2.state.counters == region.state.counters
            &&& region2.state.last_profile_persist_epoch_ms
                == region.state.last_profile_persist_epoch_ms
            &&& region2.state.profile_restore_state == region.state.profile_restore_state
            &&& region2.budget_buckets == region.budget_buckets
            &&& region2.recent_decisions == region.recent_decisions
            &&& region2.scope_names == region.scope_names
        },
{
    law_upserted_profile_is_found(
        region.state,
        region.profiles,
        Some(scope_hash),
        query_id,
        actual_wal_bytes,
        now_epoch_ms,
        weights,
    );
    let (state1, slots1) = upserted(
        region.state,
        region.profiles,
        Some(scope_hash),
        query_id,
        actual_wal_bytes,
        now_epoch_ms,
        weights,
    )->Ok_0;
    law_upserted_profile_is_found(
        state1,
        slots1,
        None,
        query_id,
        actual_wal_bytes,
        now_epoch_ms,
        weights,
    );
}

} // verus!
