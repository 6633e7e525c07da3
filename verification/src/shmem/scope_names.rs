//! The table of scope names: the readable values behind scope hashes.

use vstd::prelude::*;

use crate::errors;
use crate::errors::{PwbErrorView, PwbResult};
use crate::seqs;
use crate::shmem::records::{PwbScopeName, ScopeNameSnapshot, ScopeNameSnapshotView};
use crate::shmem::SharedMemory;
use crate::types;
use crate::types::{EpochMillis, ScopeHash, ScopeKind};

verus! {

#[derive(Debug, Clone, Copy, PartialEq, Eq, Structural)]
pub enum ScopeNameRecordResult {
    Recorded,
    Dropped,
}

pub open spec fn names_scope(scope_kind: ScopeKind, scope_hash: ScopeHash) -> spec_fn(
    PwbScopeName,
) -> bool {
    |slot: PwbScopeName| slot.has_key(scope_kind, scope_hash)
}

pub open spec fn is_empty_name() -> spec_fn(PwbScopeName) -> bool {
    |slot: PwbScopeName| slot.occupied == 0
}

pub open spec fn is_occupied_name() -> spec_fn(PwbScopeName) -> bool {
    |slot: PwbScopeName| slot.occupied == 1
}

pub open spec fn to_name_snapshot() -> spec_fn(PwbScopeName) -> Result<
    ScopeNameSnapshotView,
    PwbErrorView,
> {
    |slot: PwbScopeName| slot.decoded()
}

/// A slot whose scope was seen once more.
pub open spec fn seen_again(slot: PwbScopeName, now_epoch_ms: EpochMillis) -> PwbScopeName {
    PwbScopeName {
        last_seen_epoch_ms: now_epoch_ms,
        seen_count: types::sat_add(slot.seen_count as int, 1),
        ..slot
    }
}

/// Whether a slot holds a scope that was seen for the first time.
pub open spec fn seen_first(
    slot: PwbScopeName,
    scope_kind: ScopeKind,
    scope_hash: ScopeHash,
    scope_value: Seq<char>,
    now_epoch_ms: EpochMillis,
) -> bool {
    &&& slot.has_key(scope_kind, scope_hash)
    &&& slot.decoded() == Ok::<ScopeNameSnapshotView, PwbErrorView>(
        ScopeNameSnapshotView {
            scope_kind,
            scope_hash,
            scope_value: PwbScopeName::kept(scope_value),
            first_seen_epoch_ms: now_epoch_ms,
            last_seen_epoch_ms: now_epoch_ms,
            seen_count: 1,
        },
    )
}

/// Whether recording a scope value may turn the table into `slots2`: a scope that has a name keeps
/// it, another one takes the first empty slot, and without one its name is dropped.
pub open spec fn name_recorded(
    slots: Seq<PwbScopeName>,
    scope_kind: ScopeKind,
    scope_hash: ScopeHash,
    scope_value: Seq<char>,
    now_epoch_ms: EpochMillis,
    slots2: Seq<PwbScopeName>,
) -> bool {
    match seqs::first_where(slots, names_scope(scope_kind, scope_hash)) {
        Some(i) => slots2 == slots.update(i, seen_again(slots[i], now_epoch_ms)),
        None => match seqs::first_where(slots, is_empty_name()) {
            Some(i) => {
                &&& slots2.len() == slots.len()
                &&& slots2 == slots.update(i, slots2[i])
                &&& seen_first(slots2[i], scope_kind, scope_hash, scope_value, now_epoch_ms)
            },
            None => slots2 == slots,
        },
    }
}

/// Whether there is neither a name of this scope nor a slot for one.
pub open spec fn name_dropped(
    slots: Seq<PwbScopeName>,
    scope_kind: ScopeKind,
    scope_hash: ScopeHash,
) -> bool {
    &&& seqs::first_where(slots, names_scope(scope_kind, scope_hash)) is None
    &&& seqs::first_where(slots, is_empty_name()) is None
}

/// Whether every occupied slot holds a name and no scope has two.
pub open spec fn names_wf(slots: Seq<PwbScopeName>) -> bool {
    &&& forall|i: int|
        0 <= i < slots.len() && (#[trigger] slots[i]).occupied == 1 ==> slots[i].decoded() is Ok
    &&& forall|i: int, j: int|
        0 <= i < j < slots.len() && (#[trigger] slots[i]).occupied == 1 && (
        #[trigger] slots[j]).occupied == 1 ==> slots[i].scope_kind != slots[j].scope_kind
            || slots[i].scope_hash != slots[j].scope_hash
}

/// Tells whether every name can be read and none occurs twice.
pub fn names_are_in_order(scope_names: &[PwbScopeName]) -> (r: bool)
    ensures
        r == names_wf(scope_names@),
{
    let mut i: usize = 0;
    while i < scope_names.len()
        invariant
            i <= scope_names@.len(),
            names_wf(scope_names@.take(i as int)),
        decreases scope_names@.len() - i,
    {
        if scope_names[i].occupied == 1 {
            if scope_names[i].decode().is_err() {
                assert(scope_names@[i as int].decoded() is Err);
                return false;
            }
            let mut j: usize = 0;
            while j < i
                invariant
                    j <= i < scope_names@.len(),
                    scope_names@[i as int].occupied == 1,
                    forall|k: int|
                        0 <= k < j && (#[trigger] scope_names@[k]).occupied == 1
                            ==> scope_names@[k].scope_kind != scope_names@[i as int].scope_kind
                            || scope_names@[k].scope_hash != scope_names@[i as int].scope_hash,
                decreases i - j,
            {
                if scope_names[j].occupied == 1 && scope_names[j].scope_kind
                    == scope_names[i].scope_kind && scope_names[j].scope_hash
                    == scope_names[i].scope_hash {
                    return false;
                }
                j += 1;
            }
        }
        proof {
            let before = scope_names@.take(i as int);
            let after = scope_names@.take(i + 1);
            assert forall|k: int| 0 <= k < i implies after[k] == #[trigger] before[k] by {}
        }
        i += 1;
    }
    assert(scope_names@.take(i as int) =~= scope_names@);
    true
}

pub fn record_scope_name_in_slice(
    scope_names: &mut [PwbScopeName],
    scope_kind: ScopeKind,
    scope_hash: ScopeHash,
    scope_value: &str,
    now_epoch_ms: EpochMillis,
) -> (r: ScopeNameRecordResult)
    ensures
        name_recorded(
            old(scope_names)@,
            scope_kind,
            scope_hash,
            scope_value@,
            now_epoch_ms,
            final(scope_names)@,
        ),
        r == if name_dropped(old(scope_names)@, scope_kind, scope_hash) {
            ScopeNameRecordResult::Dropped
        } else {
            ScopeNameRecordResult::Recorded
        },
{
    let ghost p = names_scope(scope_kind, scope_hash);
    let ghost q = is_empty_name();
    let ghost slots = scope_names@;
    let mut first_empty_slot: Option<usize> = None;
    let mut i: usize = 0;
    while i < scope_names.len()
        invariant
            i <= scope_names@.len(),
            scope_names@ == slots,
            slots == old(scope_names)@,
            p == names_scope(scope_kind, scope_hash),
            q == is_empty_name(),
            forall|j: int| 0 <= j < i ==> !p(#[trigger] slots[j]),
            match first_empty_slot {
                Some(k) => {
                    &&& k < i
                    &&& q(slots[k as int])
                    &&& forall|j: int| 0 <= j < k ==> !q(#[trigger] slots[j])
                },
                None => forall|j: int| 0 <= j < i ==> !q(#[trigger] slots[j]),
            },
        decreases scope_names@.len() - i,
    {
        if scope_names[i].matches_key(scope_kind, scope_hash) {
            proof {
                seqs::lemma_first_where_is_unique(slots, p, Some(i as int));
            }
            let mut slot: PwbScopeName = scope_names[i];
            slot.last_seen_epoch_ms = now_epoch_ms;
            slot.seen_count = slot.seen_count.saturating_add(1);
            scope_names[i] = slot;
            return ScopeNameRecordResult::Recorded;
        }
        if scope_names[i].occupied == 0 && first_empty_slot.is_none() {
            first_empty_slot = Some(i);
        }
        i += 1;
    }
    proof {
        seqs::lemma_first_where_is_unique(slots, p, None);
        seqs::lemma_first_where_is_unique(slots, q, seqs::as_index(first_empty_slot));
    }
    match first_empty_slot {
        None => ScopeNameRecordResult::Dropped,
        Some(slot) => {
            scope_names[slot] = PwbScopeName::encode_value(
                scope_kind,
                scope_hash,
                scope_value,
                now_epoch_ms,
                now_epoch_ms,
                1,
            );
            ScopeNameRecordResult::Recorded
        },
    }
}

/// What a snapshot of the table gives.
pub open spec fn name_snapshots(slots: Seq<PwbScopeName>) -> Result<
    Seq<ScopeNameSnapshotView>,
    PwbErrorView,
> {
    seqs::all_ok_where(slots, is_occupied_name(), to_name_snapshot())
}

/// The views of a sequence of snapshots.
pub open spec fn snapshot_views(snapshots: Seq<ScopeNameSnapshot>) -> Seq<ScopeNameSnapshotView> {
    Seq::new(snapshots.len(), |i: int| snapshots[i]@)
}

/// Whether `result` holds the snapshots that `expected` describes, or its error.
pub open spec fn same_name_snapshots(
    result: PwbResult<Vec<ScopeNameSnapshot>>,
    expected: Result<Seq<ScopeNameSnapshotView>, PwbErrorView>,
) -> bool {
    match expected {
        Ok(values) => result matches Ok(snapshots) && snapshot_views(snapshots@) == values,
        Err(error) => errors::fails_with(result, error),
    }
}

pub fn snapshot_scope_names_from_slice(scope_names: &[PwbScopeName]) -> (r: PwbResult<
    Vec<ScopeNameSnapshot>,
>)
    ensures
        same_name_snapshots(r, name_snapshots(scope_names@)),
{
    let ghost p = is_occupied_name();
    let ghost f = to_name_snapshot();
    let mut snapshots: Vec<ScopeNameSnapshot> = Vec::new();
    let mut i: usize = 0;
    proof {
        seqs::lemma_all_ok_where_empty(scope_names@, p, f);
        assert(snapshot_views(snapshots@) =~= Seq::empty());
    }
    while i < scope_names.len()
        invariant
            i <= scope_names@.len(),
            p == is_occupied_name(),
            f == to_name_snapshot(),
            seqs::all_ok_where(scope_names@.take(i as int), p, f) == Ok::<
                Seq<ScopeNameSnapshotView>,
                PwbErrorView,
            >(snapshot_views(snapshots@)),
        decreases scope_names@.len() - i,
    {
        proof {
            seqs::lemma_all_ok_where_step(scope_names@, p, f, i as int);
        }
        let ghost before = snapshots@;
        if scope_names[i].occupied == 1 {
            match scope_names[i].decode() {
                Ok(snapshot) => {
                    snapshots.push(snapshot);
                    assert(snapshot_views(snapshots@) =~= snapshot_views(before).push(snapshot@));
                },
                Err(error) => {
                    proof {
                        seqs::lemma_all_ok_where_keeps_error(scope_names@, p, f, i + 1);
                    }
                    return Err(error);
                },
            }
        }
        i += 1;
    }
    assert(scope_names@.take(i as int) =~= scope_names@);
    Ok(snapshots)
}

/// Recording keeps the table of names in order. A name that is there is never replaced, only the time
/// and the number of its sightings change.
pub proof fn law_recording_keeps_names(
    slots: Seq<PwbScopeName>,
    scope_kind: ScopeKind,
    scope_hash: ScopeHash,
    scope_value: Seq<char>,
    now_epoch_ms: EpochMillis,
    slots2: Seq<PwbScopeName>,
)
    requires
        names_wf(slots),
        name_recorded(slots, scope_kind, scope_hash, scope_value, now_epoch_ms, slots2),
    ensures
        names_wf(slots2),
        slots2.len() == slots.len(),
        forall|i: int|
            0 <= i < slots.len() && (#[trigger] slots[i]).occupied == 1 ==> {
                &&& slots2[i].occupied == 1
                &&& slots2[i].scope_kind == slots[i].scope_kind
                &&& slots2[i].scope_hash == slots[i].scope_hash
                &&& slots2[i].value == slots[i].value
                &&& slots2[i].value_len == slots[i].value_len
                &&& slots2[i].first_seen_epoch_ms == slots[i].first_seen_epoch_ms
            },
{
    let p = names_scope(scope_kind, scope_hash);
    let q = is_empty_name();
    seqs::lemma_first_where(slots, p);
    seqs::lemma_first_where(slots, q);
    match seqs::first_where(slots, p) {
        Some(k) => {
            assert forall|i: int|
                0 <= i < slots2.len() && (#[trigger] slots2[i]).occupied
                    == 1 implies slots2[i].decoded() is Ok by {
                assert(slots[i].occupied == 1);
                assert(slots[i].decoded() is Ok);
            }
            assert forall|i: int, j: int|
                0 <= i < j < slots2.len() && (#[trigger] slots2[i]).occupied == 1 && (
                #[trigger] slots2[j]).occupied == 1 implies slots2[i].scope_kind
                != slots2[j].scope_kind || slots2[i].scope_hash != slots2[j].scope_hash by {
                assert(slots[i].occupied == 1 && slots[j].occupied == 1);
            }
        },
        None => {
            if let Some(k) = seqs::first_where(slots, q) {
                assert(q(slots[k]));
                assert forall|i: int| 0 <= i < slots.len() && i != k implies #[trigger] slots2[i]
                    == slots[i] by {
                    assert(slots2[i] == slots.update(k, slots2[k])[i]);
                }
                assert forall|i: int|
                    0 <= i < slots2.len() && (#[trigger] slots2[i]).occupied
                        == 1 implies slots2[i].decoded() is Ok by {
                    if i != k {
                        assert(slots[i].occupied == 1);
                    }
                }
                assert forall|i: int, j: int|
                    0 <= i < j < slots2.len() && (#[trigger] slots2[i]).occupied == 1 && (
                    #[trigger] slots2[j]).occupied == 1 implies slots2[i].scope_kind
                    != slots2[j].scope_kind || slots2[i].scope_hash != slots2[j].scope_hash by {
                    if i != k && j != k {
                        assert(slots[i].occupied == 1 && slots[j].occupied == 1);
                    } else if i == k {
                        assert(!p(slots[j]));
                    } else {
                        assert(!p(slots[i]));
                    }
                }
            }
        },
    }
}

pub fn snapshot_scope_names(shmem: &SharedMemory) -> (r: PwbResult<Vec<ScopeNameSnapshot>>)
    ensures
        same_name_snapshots(
            r,
            match shmem@.access() {
                Err(error) => Err(error),
                Ok(region) => name_snapshots(region.scope_names),
            },
        ),
{
    let region = shmem.read()?;
    snapshot_scope_names_from_slice(region.scope_names.as_slice())
}

/// A scope that is seen again is counted once more and keeps its name and when it was first seen; one that is
/// new takes a free slot, with its name, and was seen once. Without a free slot nothing changes.
pub proof fn law_sightings_of_scopes_are_counted(
    slots: Seq<PwbScopeName>,
    scope_kind: ScopeKind,
    scope_hash: ScopeHash,
    scope_value: Seq<char>,
    now_epoch_ms: EpochMillis,
    slots2: Seq<PwbScopeName>,
    i: int,
)
    requires
        name_recorded(slots, scope_kind, scope_hash, scope_value, now_epoch_ms, slots2),
        0 <= i <= slots.len(),
        i < slots.len() ==> slots[i].has_key(scope_kind, scope_hash),
        forall|j: int|
            0 <= j < i ==> !(#[trigger] slots[j]).has_key(scope_kind, scope_hash),
    ensures
        i < slots.len() ==> {
            &&& slots2.len() == slots.len()
            &&& slots2[i].last_seen_epoch_ms == now_epoch_ms
            &&& slots2[i].first_seen_epoch_ms == slots[i].first_seen_epoch_ms
            &&& slots2[i].value == slots[i].value
            &&& slots2[i].value_len == slots[i].value_len
            &&& slots[i].seen_count < u64::MAX ==> slots2[i].seen_count == slots[i].seen_count + 1
        },
        i == slots.len() && (exists|j: int|
            0 <= j < slots.len() && (#[trigger] slots[j]).occupied == 0) ==> exists|j: int|
            {
                &&& 0 <= j < slots2.len()
                &&& slots[j].occupied == 0
                &&& (#[trigger] slots2[j]).decoded() matches Ok(name) && name.scope_kind
                    == scope_kind && name.scope_hash == scope_hash && name.seen_count == 1
                    && name.first_seen_epoch_ms == now_epoch_ms && name.last_seen_epoch_ms
                    == now_epoch_ms && (scope_value.len() <= 256 ==> name.scope_value
                    == scope_value) && (scope_value.len() > 256 ==> name.scope_value
                    == scope_value.take(256))
            },
        i == slots.len() && (forall|j: int|
            0 <= j < slots.len() ==> (#[trigger] slots[j]).occupied != 0) ==> slots2 == slots,
{
    let p = names_scope(scope_kind, scope_hash);
    let q = is_empty_name();
    seqs::lemma_first_where(slots, q);
    assert forall|j: int| 0 <= j < i implies !p(#[trigger] slots[j]) by {
        assert(!slots[j].has_key(scope_kind, scope_hash));
    }
    if i < slots.len() {
        assert(p(slots[i]));
        seqs::lemma_first_where_is_unique(slots, p, Some(i));
    } else {
        seqs::lemma_first_where_is_unique(slots, p, None);
        if exists|j: int| 0 <= j < slots.len() && (#[trigger] slots[j]).occupied == 0 {
            let j = choose|j: int| 0 <= j < slots.len() && (#[trigger] slots[j]).occupied == 0;
            assert(q(slots[j]));
            let k = seqs::first_where(slots, q)->0;
            assert(q(slots[k]));
            assert(slots2[k].decoded() is Ok);
        } else if let Some(k) = seqs::first_where(slots, q) {
            assert(q(slots[k]));
        }
    }
}

} // verus!
