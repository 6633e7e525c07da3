//! The table of budget buckets.

use vstd::prelude::*;

use crate::errors;
use crate::errors::{internal_error, PwbError, PwbErrorView, PwbResult};
use crate::seqs;
use crate::shmem::records::{
    BudgetBucketSnapshot, BudgetBucketState, PwbBudgetBucket, PwbSharedState,
};
use crate::shmem::{RegionView, SharedMemory};
use crate::types::{PolicyId, ScopeHash};

verus! {

impl PwbBudgetBucket {
    /// Whether the slot holds the bucket of this policy and scope value.
    pub open spec fn has_key(self, policy_id: PolicyId, scope_hash: ScopeHash) -> bool {
        self.occupied == 1 && self.policy_id == policy_id && self.scope_hash == scope_hash
    }

    /// The snapshot of a slot.
    pub open spec fn snapshot(self) -> BudgetBucketSnapshot {
        BudgetBucketSnapshot {
            policy_id: self.policy_id,
            scope_hash: self.scope_hash,
            available_bytes: self.available_bytes,
            max_burst_bytes: self.max_burst_bytes,
            rate_bytes_per_sec: self.rate_bytes_per_sec,
            last_refill_epoch_ms: self.last_refill_epoch_ms,
            debt_bytes: self.debt_bytes,
        }
    }
}

pub open spec fn holds_bucket(policy_id: PolicyId, scope_hash: ScopeHash) -> spec_fn(
    PwbBudgetBucket,
) -> bool {
    |slot: PwbBudgetBucket| slot.has_key(policy_id, scope_hash)
}

pub open spec fn is_empty_bucket() -> spec_fn(PwbBudgetBucket) -> bool {
    |slot: PwbBudgetBucket| slot.occupied == 0
}

pub open spec fn is_occupied_bucket() -> spec_fn(PwbBudgetBucket) -> bool {
    |slot: PwbBudgetBucket| slot.occupied == 1
}

pub open spec fn to_bucket_snapshot() -> spec_fn(PwbBudgetBucket) -> BudgetBucketSnapshot {
    |slot: PwbBudgetBucket| slot.snapshot()
}

/// Whether the length of the table fits its capacity.
pub open spec fn bucket_len_fits(state: PwbSharedState, slots: Seq<PwbBudgetBucket>) -> bool {
    &&& state.budget_buckets_len <= state.budget_bucket_capacity
    &&& slots.len() == state.budget_bucket_capacity
}

/// Whether the table is as long as its capacity and its occupied slots come first.
pub open spec fn buckets_wf(state: PwbSharedState, slots: Seq<PwbBudgetBucket>) -> bool {
    &&& bucket_len_fits(state, slots)
    &&& forall|i: int|
        0 <= i < slots.len() ==> (#[trigger] slots[i]).occupied == if i < state.budget_buckets_len {
            1u8
        } else {
            0u8
        }
}

/// Tells whether the table is as long as its capacity and its occupied slots come first.
pub fn buckets_are_in_order(state: &PwbSharedState, budget_buckets: &[PwbBudgetBucket]) -> (r: bool)
    ensures
        r == buckets_wf(*state, budget_buckets@),
{
    if state.budget_buckets_len > state.budget_bucket_capacity || budget_buckets.len()
        != state.budget_bucket_capacity as usize {
        return false;
    }
    let len: usize = state.budget_buckets_len as usize;
    let mut i: usize = 0;
    while i < budget_buckets.len()
        invariant
            i <= budget_buckets@.len(),
            len == state.budget_buckets_len,
            forall|k: int|
                0 <= k < i ==> (#[trigger] budget_buckets@[k]).occupied == if k < len {
                    1u8
                } else {
                    0u8
                },
        decreases budget_buckets@.len() - i,
    {
        let expected: u8 = if i < len {
            1
        } else {
            0
        };
        if budget_buckets[i].occupied != expected {
            return false;
        }
        i += 1;
    }
    true
}

/// Whether no policy and scope value has two buckets.
pub open spec fn bucket_keys_differ(slots: Seq<PwbBudgetBucket>) -> bool {
    forall|i: int, j: int|
        0 <= i < j < slots.len() && slots[j].occupied == 1 ==> !(#[trigger] slots[i]).has_key(
            (#[trigger] slots[j]).policy_id,
            slots[j].scope_hash,
        )
}

/// The slot of the occupied prefix that holds the bucket of this policy and scope value.
pub open spec fn bucket_slot(
    state: PwbSharedState,
    slots: Seq<PwbBudgetBucket>,
    policy_id: PolicyId,
    scope_hash: ScopeHash,
) -> Option<int> {
    seqs::first_where(
        slots.take(state.budget_buckets_len as int),
        holds_bucket(policy_id, scope_hash),
    )
}

/// The error of a table without a free slot.
pub open spec fn bucket_capacity_error() -> PwbErrorView {
    errors::internal("pg_wal_budget budget bucket capacity exhausted"@)
}

pub fn budget_bucket_capacity_exhausted() -> (r: PwbError)
    ensures
        r@ == bucket_capacity_error(),
{
    internal_error("pg_wal_budget budget bucket capacity exhausted".to_owned())
}

/// Whether there is neither a bucket of this policy and scope value nor a slot for one.
pub open spec fn no_room(
    state: PwbSharedState,
    slots: Seq<PwbBudgetBucket>,
    policy_id: PolicyId,
    scope_hash: ScopeHash,
) -> bool {
    bucket_slot(state, slots, policy_id, scope_hash) is None && state.budget_buckets_len
        == slots.len()
}

/// Whether `bucket` is the bucket of this policy and scope value or, where there is none, one that
/// `initializer` makes.
pub open spec fn found_or_made<I: FnOnce() -> BudgetBucketState>(
    state: PwbSharedState,
    slots: Seq<PwbBudgetBucket>,
    policy_id: PolicyId,
    scope_hash: ScopeHash,
    initializer: I,
    bucket: BudgetBucketState,
) -> bool {
    match bucket_slot(state, slots, policy_id, scope_hash) {
        Some(i) => bucket == slots[i].bucket(),
        None => initializer.ensures((), bucket),
    }
}

/// The head and the table after the bucket of this policy and scope value was stored: in place of the
/// one that is there, else in the first slot behind the occupied ones.
pub open spec fn stored(
    state: PwbSharedState,
    slots: Seq<PwbBudgetBucket>,
    policy_id: PolicyId,
    scope_hash: ScopeHash,
    bucket: BudgetBucketState,
) -> (PwbSharedState, Seq<PwbBudgetBucket>) {
    match bucket_slot(state, slots, policy_id, scope_hash) {
        Some(i) => (state, slots.update(i, PwbBudgetBucket::encoded(bucket))),
        None => (
            PwbSharedState { budget_buckets_len: (state.budget_buckets_len + 1) as u32, ..state },
            slots.update(state.budget_buckets_len as int, PwbBudgetBucket::encoded(bucket)),
        ),
    }
}

pub fn apply_budget_bucket<
    R,
    I: FnOnce() -> BudgetBucketState,
    F: FnOnce(&mut BudgetBucketState) -> PwbResult<R>,
>(
    state: &mut PwbSharedState,
    buckets: &mut [PwbBudgetBucket],
    policy_id: PolicyId,
    scope_hash: ScopeHash,
    initializer: I,
    callback: F,
) -> (r: PwbResult<R>)
    requires
        bucket_len_fits(*old(state), old(buckets)@),
        initializer.requires(()),
        forall|bucket: &mut BudgetBucketState| callback.requires((bucket,)),
    ensures
        if no_room(*old(state), old(buckets)@, policy_id, scope_hash) {
            &&& errors::fails_with(r, bucket_capacity_error())
            &&& *final(state) == *old(state)
            &&& final(buckets)@ == old(buckets)@
        } else {
            exists|bucket: &mut BudgetBucketState|
                {
                    &&& found_or_made(
                        *old(state),
                        old(buckets)@,
                        policy_id,
                        scope_hash,
                        initializer,
                        *bucket,
                    )
                    &&& #[trigger] callback.ensures((bucket,), r)
                    &&& (*final(state), final(buckets)@) == if r is Ok {
                        stored(
                            *old(state),
                            old(buckets)@,
                            policy_id,
                            scope_hash,
                            *final(bucket),
                        )
                    } else {
                        (*old(state), old(buckets)@)
                    }
                }
        },
{
    let occupied_len: usize = occupied_budget_bucket_len(state, buckets);
    match find_budget_bucket_slot_in_prefix(buckets, occupied_len, policy_id, scope_hash) {
        Some(slot) => {
            let mut bucket: BudgetBucketState = buckets[slot].state();
            let result = callback(&mut bucket);
            if result.is_ok() {
                buckets[slot] = PwbBudgetBucket::encode(bucket);
            }
            result
        },
        None => {
            if occupied_len == buckets.len() {
                return Err(budget_bucket_capacity_exhausted());
            }
            let mut bucket: BudgetBucketState = initializer();
            let result = callback(&mut bucket);
            if result.is_ok() {
                buckets[occupied_len] = PwbBudgetBucket::encode(bucket);
                state.budget_buckets_len = state.budget_buckets_len + 1;
            }
            result
        },
    }
}

/// What a callback that is run only where there is a bucket makes of its result.
pub open spec fn wrapped<R>(result: PwbResult<R>) -> PwbResult<Option<R>> {
    match result {
        Ok(value) => Ok(Some(value)),
        Err(error) => Err(error),
    }
}

pub fn apply_existing_budget_bucket<R, F: FnOnce(&mut BudgetBucketState) -> PwbResult<R>>(
    state: &PwbSharedState,
    buckets: &mut [PwbBudgetBucket],
    policy_id: PolicyId,
    scope_hash: ScopeHash,
    callback: F,
) -> (r: PwbResult<Option<R>>)
    requires
        bucket_len_fits(*state, old(buckets)@),
        forall|bucket: &mut BudgetBucketState| callback.requires((bucket,)),
    ensures
        match bucket_slot(*state, old(buckets)@, policy_id, scope_hash) {
            None => {
                &&& r == Ok::<Option<R>, PwbError>(None)
                &&& final(buckets)@ == old(buckets)@
            },
            Some(i) => exists|bucket: &mut BudgetBucketState, result: PwbResult<R>|
                {
                    &&& *bucket == old(buckets)@[i].bucket()
                    &&& #[trigger] callback.ensures((bucket,), result)
                    &&& r == wrapped(result)
                    &&& final(buckets)@ == if result is Ok {
                        stored(*state, old(buckets)@, policy_id, scope_hash, *final(bucket)).1
                    } else {
                        old(buckets)@
                    }
                },
        },
{
    let occupied_len: usize = occupied_budget_bucket_len(state, buckets);
    match find_budget_bucket_slot_in_prefix(buckets, occupied_len, policy_id, scope_hash) {
        None => Ok(None),
        Some(slot) => {
            let mut bucket: BudgetBucketState = buckets[slot].state();
            let result = callback(&mut bucket);
            match result {
                Ok(value) => {
                    buckets[slot] = PwbBudgetBucket::encode(bucket);
                    Ok(Some(value))
                },
                Err(error) => Err(error),
            }
        },
    }
}

pub fn occupied_budget_bucket_len(state: &PwbSharedState, buckets: &[PwbBudgetBucket]) -> (r: usize)
    requires
        bucket_len_fits(*state, buckets@),
    ensures
        r == state.budget_buckets_len,
        r <= buckets@.len(),
{
    state.budget_buckets_len as usize
}

fn find_budget_bucket_slot_in_prefix(
    buckets: &[PwbBudgetBucket],
    len: usize,
    policy_id: PolicyId,
    scope_hash: ScopeHash,
) -> (r: Option<usize>)
    requires
        len <= buckets@.len(),
    ensures
        seqs::as_index(r) == seqs::first_where(
            buckets@.take(len as int),
            holds_bucket(policy_id, scope_hash),
        ),
        r matches Some(i) ==> i < len,
{
    let ghost p = holds_bucket(policy_id, scope_hash);
    let ghost prefix = buckets@.take(len as int);
    let mut i: usize = 0;
    while i < len
        invariant
            i <= len <= buckets@.len(),
            p == holds_bucket(policy_id, scope_hash),
            prefix == buckets@.take(len as int),
            forall|j: int| 0 <= j < i ==> !p(#[trigger] prefix[j]),
        decreases len - i,
    {
        if buckets[i].occupied == 1 && buckets[i].policy_id == policy_id && buckets[i].scope_hash
            == scope_hash {
            proof {
                seqs::lemma_first_where_is_unique(prefix, p, Some(i as int));
            }
            return Some(i);
        }
        i += 1;
    }
    proof {
        seqs::lemma_first_where_is_unique(prefix, p, None);
    }
    None
}

pub fn find_budget_bucket_slot(
    buckets: &[PwbBudgetBucket],
    policy_id: PolicyId,
    scope_hash: ScopeHash,
) -> (r: Option<usize>)
    ensures
        seqs::as_index(r) == seqs::first_where(buckets@, holds_bucket(policy_id, scope_hash)),
        r matches Some(i) ==> i < buckets@.len(),
{
    assert(buckets@.take(buckets@.len() as int) =~= buckets@);
    find_budget_bucket_slot_in_prefix(buckets, buckets.len(), policy_id, scope_hash)
}

pub fn find_empty_budget_bucket_slot(buckets: &[PwbBudgetBucket]) -> (r: Option<usize>)
    ensures
        seqs::as_index(r) == seqs::first_where(buckets@, is_empty_bucket()),
        r matches Some(i) ==> i < buckets@.len(),
{
    let ghost p = is_empty_bucket();
    let mut i: usize = 0;
    while i < buckets.len()
        invariant
            i <= buckets@.len(),
            p == is_empty_bucket(),
            forall|j: int| 0 <= j < i ==> !p(#[trigger] buckets@[j]),
        decreases buckets@.len() - i,
    {
        if buckets[i].occupied == 0 {
            proof {
                seqs::lemma_first_where_is_unique(buckets@, p, Some(i as int));
            }
            return Some(i);
        }
        i += 1;
    }
    proof {
        seqs::lemma_first_where_is_unique(buckets@, p, None);
    }
    None
}

/// The snapshots of the occupied slots among the first `occupied_len`.
pub open spec fn bucket_snapshots(slots: Seq<PwbBudgetBucket>, occupied_len: int) -> Seq<
    BudgetBucketSnapshot,
> {
    slots.take(
        if occupied_len <= slots.len() {
            occupied_len
        } else {
            slots.len() as int
        },
    ).filter(is_occupied_bucket()).map_values(to_bucket_snapshot())
}

pub fn snapshot_budget_buckets_from_slice(
    buckets: &[PwbBudgetBucket],
    occupied_len: usize,
) -> (r: PwbResult<Vec<BudgetBucketSnapshot>>)
    ensures
        r matches Ok(snapshots) && snapshots@ == bucket_snapshots(buckets@, occupied_len as int),
{
    let len: usize = if occupied_len <= buckets.len() {
        occupied_len
    } else {
        buckets.len()
    };
    let ghost prefix = buckets@.take(len as int);
    let ghost p = is_occupied_bucket();
    let ghost f = to_bucket_snapshot();
    let mut snapshots: Vec<BudgetBucketSnapshot> = Vec::new();
    let mut i: usize = 0;
    proof {
        reveal(Seq::filter);
        assert(prefix.take(0).filter(p).map_values(f) =~= Seq::empty());
    }
    while i < len
        invariant
            i <= len <= buckets@.len(),
            prefix == buckets@.take(len as int),
            p == is_occupied_bucket(),
            f == to_bucket_snapshot(),
            snapshots@ == prefix.take(i as int).filter(p).map_values(f),
        decreases len - i,
    {
        proof {
            seqs::lemma_filter_step(prefix, p, i as int);
        }
        let ghost before = snapshots@;
        if buckets[i].occupied == 1 {
            let bucket: BudgetBucketState = buckets[i].state();
            snapshots.push(
                BudgetBucketSnapshot {
                    policy_id: bucket.policy_id,
                    scope_hash: bucket.scope_hash,
                    available_bytes: bucket.available_bytes,
                    max_burst_bytes: bucket.max_burst_bytes,
                    rate_bytes_per_sec: bucket.rate_bytes_per_sec,
                    last_refill_epoch_ms: bucket.last_refill_epoch_ms,
                    debt_bytes: bucket.debt_bytes,
                },
            );
            assert(prefix.take(i as int).filter(p).push(prefix[i as int]).map_values(f)
                =~= before.push(f(prefix[i as int])));
        }
        i += 1;
    }
    assert(prefix.take(i as int) =~= prefix);
    Ok(snapshots)
}

/// In a table whose occupied slots come first, a new bucket goes to the first empty slot, and there
/// is none exactly where the table is full.
pub proof fn law_first_empty_bucket_is_behind_the_occupied(
    state: PwbSharedState,
    slots: Seq<PwbBudgetBucket>,
)
    requires
        buckets_wf(state, slots),
    ensures
        seqs::first_where(slots, is_empty_bucket()) == if state.budget_buckets_len < slots.len() {
            Some(state.budget_buckets_len as int)
        } else {
            None
        },
{
    let p = is_empty_bucket();
    assert forall|j: int| 0 <= j < slots.len() implies p(#[trigger] slots[j]) == (j
        >= state.budget_buckets_len) by {
        assert(slots[j].occupied == if j < state.budget_buckets_len {
            1u8
        } else {
            0u8
        });
    }
    seqs::lemma_first_where_is_unique(
        slots,
        p,
        if state.budget_buckets_len < slots.len() {
            Some(state.budget_buckets_len as int)
        } else {
            None
        },
    );
}

/// Storing a bucket under its key keeps the occupied slots in front and the keys distinct, and the
/// bucket is then found under its key.
pub proof fn law_stored_bucket_is_found(
    state: PwbSharedState,
    slots: Seq<PwbBudgetBucket>,
    bucket: BudgetBucketState,
)
    requires
        buckets_wf(state, slots),
        bucket_keys_differ(slots),
        !no_room(state, slots, bucket.policy_id, bucket.scope_hash),
    ensures
        ({
            let (state2, slots2) = stored(
                state,
                slots,
                bucket.policy_id,
                bucket.scope_hash,
                bucket,
            );
            &&& buckets_wf(state2, slots2)
            &&& bucket_keys_differ(slots2)
            &&& bucket_slot(state2, slots2, bucket.policy_id, bucket.scope_hash) matches Some(i)
                && 0 <= i < slots2.len() && slots2[i].bucket() == bucket
        }),
{
    let p = holds_bucket(bucket.policy_id, bucket.scope_hash);
    let len = state.budget_buckets_len as int;
    let prefix = slots.take(len);
    let entry = PwbBudgetBucket::encoded(bucket);
    seqs::lemma_first_where(prefix, p);
    match bucket_slot(state, slots, bucket.policy_id, bucket.scope_hash) {
        Some(i) => {
            assert(p(prefix[i]));
            let slots2 = slots.update(i, entry);
            let prefix2 = slots2.take(len);
            assert forall|j: int| 0 <= j < i implies !p(#[trigger] prefix2[j]) by {
                assert(!p(prefix[j]));
            }
            seqs::lemma_first_where_is_unique(prefix2, p, Some(i));
            assert forall|a: int, b: int|
                0 <= a < b < slots2.len() && slots2[b].occupied == 1 implies !(
            #[trigger] slots2[a]).has_key(
                (#[trigger] slots2[b]).policy_id,
                slots2[b].scope_hash,
            ) by {
                assert(slots[a].occupied == 1 || slots[a].occupied == 0);
                assert(!slots[a].has_key(slots[b].policy_id, slots[b].scope_hash));
            }
        },
        None => {
            let slots2 = slots.update(len, entry);
            let prefix2 = slots2.take(len + 1);
            assert forall|j: int| 0 <= j < len implies !p(#[trigger] prefix2[j]) by {
                assert(!p(prefix[j]));
            }
            seqs::lemma_first_where_is_unique(prefix2, p, Some(len));
            assert forall|a: int, b: int|
                0 <= a < b < slots2.len() && slots2[b].occupied == 1 implies !(
            #[trigger] slots2[a]).has_key(
                (#[trigger] slots2[b]).policy_id,
                slots2[b].scope_hash,
            ) by {
                if b == len {
                    assert(!p(prefix[a]));
                } else {
                    assert(!slots[a].has_key(slots[b].policy_id, slots[b].scope_hash));
                }
            }
        },
    }
}

impl RegionView {
    /// The region after the bucket of this policy and scope value was stored.
    pub open spec fn with_bucket(
        self,
        policy_id: PolicyId,
        scope_hash: ScopeHash,
        bucket: BudgetBucketState,
    ) -> RegionView {
        let (state, budget_buckets) = stored(
            self.state,
            self.budget_buckets,
            policy_id,
            scope_hash,
            bucket,
        );
        RegionView { state, budget_buckets, ..self }
    }

    /// The bucket of this policy and scope value.
    pub open spec fn bucket(self, policy_id: PolicyId, scope_hash: ScopeHash) -> Option<
        BudgetBucketState,
    > {
        match bucket_slot(self.state, self.budget_buckets, policy_id, scope_hash) {
            Some(i) => Some(self.budget_buckets[i].bucket()),
            None => None,
        }
    }

    /// Whether there is neither a bucket of this policy and scope value nor a slot for one.
    pub open spec fn no_bucket_room(self, policy_id: PolicyId, scope_hash: ScopeHash) -> bool {
        no_room(self.state, self.budget_buckets, policy_id, scope_hash)
    }
}

pub fn budget_bucket_capacity(state: &PwbSharedState) -> (r: usize)
    ensures
        r == state.budget_bucket_capacity,
{
    state.budget_bucket_capacity as usize
}

pub fn snapshot_budget_buckets(shmem: &SharedMemory) -> (r: PwbResult<Vec<BudgetBucketSnapshot>>)
    ensures
        seqs::same_values(
            r,
            match shmem@.access() {
                Err(error) => Err(error),
                Ok(region) => Ok(
                    bucket_snapshots(
                        region.budget_buckets,
                        region.state.budget_buckets_len as int,
                    ),
                ),
            },
        ),
{
    let region = shmem.read()?;
    snapshot_budget_buckets_from_slice(
        region.budget_buckets.as_slice(),
        region.state.budget_buckets_len as usize,
    )
}

proof fn lemma_stored_keeps_wf(
    region: RegionView,
    policy_id: PolicyId,
    scope_hash: ScopeHash,
    bucket: BudgetBucketState,
)
    requires
        region.wf(),
        !region.no_bucket_room(policy_id, scope_hash),
    ensures
        region.with_bucket(policy_id, scope_hash, bucket).wf(),
{
    let prefix = region.budget_buckets.take(region.state.budget_buckets_len as int);
    seqs::lemma_first_where(prefix, holds_bucket(policy_id, scope_hash));
}

pub fn with_budget_bucket<
    R,
    I: FnOnce() -> BudgetBucketState,
    F: FnOnce(&mut BudgetBucketState) -> PwbResult<R>,
>(
    shmem: &mut SharedMemory,
    policy_id: PolicyId,
    scope_hash: ScopeHash,
    initializer: I,
    callback: F,
) -> (r: PwbResult<R>)
    requires
        old(shmem).wf(),
        initializer.requires(()),
        forall|bucket: &mut BudgetBucketState| callback.requires((bucket,)),
    ensures
        final(shmem).wf(),
        match old(shmem)@.access() {
            Err(error) => errors::fails_with(r, error) && final(shmem)@ == old(shmem)@,
            Ok(region) => if region.no_bucket_room(policy_id, scope_hash) {
                &&& errors::fails_with(r, bucket_capacity_error())
                &&& final(shmem)@ == old(shmem)@
            } else {
                exists|bucket: &mut BudgetBucketState|
                    {
                        &&& found_or_made(
                            region.state,
                            region.budget_buckets,
                            policy_id,
                            scope_hash,
                            initializer,
                            *bucket,
                        )
                        &&& #[trigger] callback.ensures((bucket,), r)
                        &&& final(shmem)@ == old(shmem)@.holding(
                            if r is Ok {
                                region.with_bucket(policy_id, scope_hash, *final(bucket))
                            } else {
                                region
                            },
                        )
                    }
            },
        },
{
    proof {
        if let Ok(region) = shmem@.access() {
            if !region.no_bucket_room(policy_id, scope_hash) {
                assert forall|bucket: BudgetBucketState|
                    #![trigger stored(
                        region.state,
                        region.budget_buckets,
                        policy_id,
                        scope_hash,
                        bucket,
                    )]
                    region.with_bucket(policy_id, scope_hash, bucket).wf() by {
                    lemma_stored_keeps_wf(region, policy_id, scope_hash, bucket);
                }
            }
        }
    }
    let region = shmem.locked()?;
    apply_budget_bucket(
        &mut region.state,
        region.budget_buckets.as_mut_slice(),
        policy_id,
        scope_hash,
        initializer,
        callback,
    )
}

pub fn with_existing_budget_bucket<R, F: FnOnce(&mut BudgetBucketState) -> PwbResult<R>>(
    shmem: &mut SharedMemory,
    policy_id: PolicyId,
    scope_hash: ScopeHash,
    callback: F,
) -> (r: PwbResult<Option<R>>)
    requires
        old(shmem).wf(),
        forall|bucket: &mut BudgetBucketState| callback.requires((bucket,)),
    ensures
        final(shmem).wf(),
        match old(shmem)@.access() {
            Err(error) => errors::fails_with(r, error) && final(shmem)@ == old(shmem)@,
            Ok(region) => match region.bucket(policy_id, scope_hash) {
                None => {
                    &&& r == Ok::<Option<R>, PwbError>(None)
                    &&& final(shmem)@ == old(shmem)@
                },
                Some(before) => exists|bucket: &mut BudgetBucketState, result: PwbResult<R>|
                    {
                        &&& *bucket == before
                        &&& #[trigger] callback.ensures((bucket,), result)
                        &&& r == wrapped(result)
                        &&& final(shmem)@ == old(shmem)@.holding(
                            if result is Ok {
                                region.with_bucket(policy_id, scope_hash, *final(bucket))
                            } else {
                                region
                            },
                        )
                    },
            },
        },
{
    proof {
        if let Ok(region) = shmem@.access() {
            if !region.no_bucket_room(policy_id, scope_hash) {
                assert forall|bucket: BudgetBucketState|
                    #![trigger stored(
                        region.state,
                        region.budget_buckets,
                        policy_id,
                        scope_hash,
                        bucket,
                    )]
                    region.with_bucket(policy_id, scope_hash, bucket).wf() by {
                    lemma_stored_keeps_wf(region, policy_id, scope_hash, bucket);
                }
            }
        }
    }
    let region = shmem.locked()?;
    apply_existing_budget_bucket(
        &region.state,
        region.budget_buckets.as_mut_slice(),
        policy_id,
        scope_hash,
        callback,
    )
}

/// A bucket is found under its policy and scope value as its slot holds it, and is missing where no slot
/// holds it. There is no room for it exactly where no slot holds it and none is free.
pub proof fn law_bucket_is_found_by_its_key(
    region: RegionView,
    policy_id: PolicyId,
    scope_hash: ScopeHash,
    i: int,
)
    requires
        buckets_wf(region.state, region.budget_buckets),
    ensures
        ({
            let slots = region.budget_buckets;
            0 <= i < slots.len() && slots[i].occupied == 1 && slots[i].policy_id == policy_id
                && slots[i].scope_hash == scope_hash && (forall|j: int|
                0 <= j < slots.len() && j != i ==> !((#[trigger] slots[j]).occupied == 1
                    && slots[j].policy_id == policy_id && slots[j].scope_hash == scope_hash))
                ==> region.bucket(policy_id, scope_hash) == Some(
                BudgetBucketState {
                    policy_id,
                    scope_hash,
                    available_bytes: slots[i].available_bytes,
                    max_burst_bytes: slots[i].max_burst_bytes,
                    rate_bytes_per_sec: slots[i].rate_bytes_per_sec,
                    last_refill_epoch_ms: slots[i].last_refill_epoch_ms,
                    debt_bytes: slots[i].debt_bytes,
                },
            )
        }),
        region.bucket(policy_id, scope_hash) is None <==> forall|j: int|
            0 <= j < region.budget_buckets.len() ==> !((
            #[trigger] region.budget_buckets[j]).occupied == 1
                && region.budget_buckets[j].policy_id == policy_id
                && region.budget_buckets[j].scope_hash == scope_hash),
        region.no_bucket_room(policy_id, scope_hash) <==> forall|j: int|
            0 <= j < region.budget_buckets.len() ==> (
            #[trigger] region.budget_buckets[j]).occupied == 1 && !(
            region.budget_buckets[j].policy_id == policy_id && region.budget_buckets[j].scope_hash
                == scope_hash),
{
    let slots = region.budget_buckets;
    let len = region.state.budget_buckets_len as int;
    let prefix = slots.take(len);
    let p = holds_bucket(policy_id, scope_hash);
    seqs::lemma_first_where(prefix, p);
    assert forall|j: int| 0 <= j < slots.len() && slots[j].occupied == 1 implies j < len
        && #[trigger] slots[j] == prefix[j] by {}
    if let Some(k) = seqs::first_where(prefix, p) {
        assert(p(prefix[k]));
        assert(prefix[k] == slots[k]);
    } else {
        assert forall|j: int| 0 <= j < slots.len() implies !p(#[trigger] slots[j]) by {
            if j < len {
                assert(!p(prefix[j]));
            }
        }
        assert forall|j: int| 0 <= j < slots.len() implies !((#[trigger] slots[j]).occupied == 1
            && slots[j].policy_id == policy_id && slots[j].scope_hash == scope_hash) by {
            assert(!p(slots[j]));
        }
    }
    if len < slots.len() {
        assert(slots[len].occupied == 0);
    }
}

/// Storing a bucket leaves the buckets of all other policies and scope values as they were, and every
/// other table. One slot more is taken exactly where the bucket is new.
pub proof fn law_storing_a_bucket_changes_no_other(
    region: RegionView,
    bucket: BudgetBucketState,
    policy_id: PolicyId,
    scope_hash: ScopeHash,
)
    requires
        buckets_wf(region.state, region.budget_buckets),
        bucket_keys_differ(region.budget_buckets),
        !region.no_bucket_room(bucket.policy_id, bucket.scope_hash),
        policy_id != bucket.policy_id || scope_hash != bucket.scope_hash,
    ensures
        ({
            let after = region.with_bucket(bucket.policy_id, bucket.scope_hash, bucket);
            &&& after.bucket(bucket.policy_id, bucket.scope_hash) == Some(bucket)
            &&& after.bucket(policy_id, scope_hash) == region.bucket(policy_id, scope_hash)
            &&& after.state.budget_buckets_len == region.state.budget_buckets_len + if region.bucket(
                bucket.policy_id,
                bucket.scope_hash,
            ) is None {
                1int
            } else {
                0int
            }
            &&& after.state.counters == region.state.counters
            &&& after.recent_decisions == region.recent_decisions
            &&& after.profiles == region.profiles
            &&& after.scope_names == region.scope_names
        }),
{
    law_stored_bucket_is_found(region.state, region.budget_buckets, bucket);
    let after = region.with_bucket(bucket.policy_id, bucket.scope_hash, bucket);
    let len = region.state.budget_buckets_len as int;
    let prefix = region.budget_buckets.take(len);
    let prefix2 = after.budget_buckets.take(after.state.budget_buckets_len as int);
    let own = holds_bucket(bucket.policy_id, bucket.scope_hash);
    let p = holds_bucket(policy_id, scope_hash);
    seqs::lemma_first_where(prefix, own);
    seqs::lemma_first_where(prefix, p);
    let found = seqs::first_where(prefix, p);
    if let Some(k) = seqs::first_where(prefix, own) {
        assert(own(prefix[k]));
    }
    match found {
        Some(i) => {
            assert(p(prefix[i]));
            assert(prefix2[i] == prefix[i]);
            assert forall|j: int| 0 <= j < i implies !p(#[trigger] prefix2[j]) by {
                assert(!p(prefix[j]));
            }
            seqs::lemma_first_where_is_unique(prefix2, p, Some(i));
        },
        None => {
            assert forall|j: int| 0 <= j < prefix2.len() implies !p(#[trigger] prefix2[j]) by {
                if j < len {
                    assert(!p(prefix[j]));
                }
            }
            seqs::lemma_first_where_is_unique(prefix2, p, None);
        },
    }
}

/// Every bucket is listed once, in the order of the table and with all that it holds.
pub proof fn law_buckets_are_listed_as_they_are(
    state: PwbSharedState,
    slots: Seq<PwbBudgetBucket>,
    i: int,
)
    requires
        buckets_wf(state, slots),
        0 <= i < state.budget_buckets_len,
    ensures
        ({
            let listed = bucket_snapshots(slots, state.budget_buckets_len as int);
            &&& listed.len() == state.budget_buckets_len
            &&& listed[i].policy_id == slots[i].policy_id
            &&& listed[i].scope_hash == slots[i].scope_hash
            &&& listed[i].available_bytes == slots[i].available_bytes
            &&& listed[i].max_burst_bytes == slots[i].max_burst_bytes
            &&& listed[i].rate_bytes_per_sec == slots[i].rate_bytes_per_sec
            &&& listed[i].last_refill_epoch_ms == slots[i].last_refill_epoch_ms
            &&& listed[i].debt_bytes == slots[i].debt_bytes
        }),
{
    let prefix = slots.take(state.budget_buckets_len as int);
    let p = is_occupied_bucket();
    assert forall|j: int| 0 <= j < prefix.len() implies p(#[trigger] prefix[j]) by {
        assert(slots[j].occupied == 1);
    }
    lemma_filter_keeps_all(prefix, p);
}

proof fn lemma_filter_keeps_all(s: Seq<PwbBudgetBucket>, p: spec_fn(PwbBudgetBucket) -> bool)
    requires
        forall|i: int| 0 <= i < s.len() ==> p(#[trigger] s[i]),
    ensures
        s.filter(p) == s,
    decreases s.len(),
{
    reveal(Seq::filter);
    if s.len() > 0 {
        let rest = s.drop_last();
        assert forall|i: int| 0 <= i < rest.len() implies p(#[trigger] rest[i]) by {
            assert(p(s[i]));
        }
        lemma_filter_keeps_all(rest, p);
        assert(p(s[s.len() - 1]));
        assert(s =~= rest.push(s.last()));
    } else {
        assert(s.filter(p) =~= s);
    }
}

} // verus!
