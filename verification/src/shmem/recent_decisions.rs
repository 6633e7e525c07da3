//! The ring of recent decisions.

use vstd::prelude::*;

use crate::errors;
use crate::errors::{internal_error, PwbErrorView, PwbResult};
use crate::seqs;
use crate::shmem::records;
use crate::shmem::records::{PwbRecentDecision, PwbSharedState, RecentDecisionRecord};
use crate::shmem::{RegionView, SharedMemory};

verus! {

/// Whether the head and the count fit the ring: the ring is as long as its capacity, and holds what
/// was recorded up to that.
pub open spec fn ring_wf(state: PwbSharedState, slots: Seq<PwbRecentDecision>) -> bool {
    &&& slots.len() == state.recent_decision_capacity
    &&& state.recent_decision_count == if state.recent_decision_head
        < state.recent_decision_capacity {
        state.recent_decision_head as int
    } else {
        state.recent_decision_capacity as int
    }
    &&& forall|i: int|
        0 <= i < state.recent_decision_count ==> (#[trigger] newest(state, slots)[i].decoded())
            is Ok
}

/// The occupied slots of the ring, newest first. A count beyond the ring counts as the whole ring.
pub open spec fn newest(state: PwbSharedState, slots: Seq<PwbRecentDecision>) -> Seq<
    PwbRecentDecision,
> {
    Seq::new(
        if state.recent_decision_count <= slots.len() {
            state.recent_decision_count as nat
        } else {
            slots.len()
        },
        |i: int| slots[older(state.recent_decision_head as int, i) % slots.len() as int],
    )
}

/// The number of the record that is `i` steps older than the newest.
pub open spec fn older(head: int, i: int) -> int {
    if i < head {
        head - 1 - i
    } else {
        0
    }
}

/// The decisions that a snapshot of at most `limit` decisions takes, newest first.
pub open spec fn recent(
    state: PwbSharedState,
    slots: Seq<PwbRecentDecision>,
    limit: int,
) -> Seq<PwbRecentDecision> {
    let held = newest(state, slots);
    held.take(
        if limit <= held.len() {
            limit
        } else {
            held.len() as int
        },
    )
}

/// The head of the region and the ring after a decision was recorded. A head that can grow no
/// further starts the ring anew.
pub open spec fn recorded(
    state: PwbSharedState,
    slots: Seq<PwbRecentDecision>,
    record: RecentDecisionRecord,
) -> (PwbSharedState, Seq<PwbRecentDecision>) {
    if state.recent_decision_capacity == 0 {
        (state, slots)
    } else if state.recent_decision_head == u64::MAX {
        (
            PwbSharedState { recent_decision_head: 1, recent_decision_count: 1, ..state },
            Seq::new(slots.len(), |i: int| PwbRecentDecision::empty()).update(
                0,
                PwbRecentDecision::encoded(record),
            ),
        )
    } else {
        (
            PwbSharedState {
                recent_decision_head: (state.recent_decision_head + 1) as u64,
                recent_decision_count: if state.recent_decision_count
                    < state.recent_decision_capacity {
                    (state.recent_decision_count + 1) as u32
                } else {
                    state.recent_decision_capacity
                },
                ..state
            },
            slots.update(
                state.recent_decision_head as int % state.recent_decision_capacity as int,
                PwbRecentDecision::encoded(record),
            ),
        )
    }
}

impl RegionView {
    /// The region after a decision was recorded.
    pub open spec fn with_decision(self, record: RecentDecisionRecord) -> RegionView {
        let (state, recent_decisions) = recorded(self.state, self.recent_decisions, record);
        RegionView { state, recent_decisions, ..self }
    }

    /// The region with its ring of decisions empty.
    pub open spec fn without_decisions(self) -> RegionView {
        RegionView {
            state: PwbSharedState {
                recent_decision_head: 0,
                recent_decision_count: 0,
                ..self.state
            },
            recent_decisions: Seq::new(
                self.recent_decisions.len(),
                |i: int| PwbRecentDecision::empty(),
            ),
            ..self
        }
    }
}

pub fn record_recent_decision(shmem: &mut SharedMemory, record: RecentDecisionRecord) -> (r:
    PwbResult<()>)
    requires
        old(shmem).wf(),
    ensures
        final(shmem).wf(),
        match old(shmem)@.access() {
            Err(error) => errors::fails_with(r, error) && final(shmem)@ == old(shmem)@,
            Ok(region) => {
                &&& r is Ok
                &&& final(shmem)@ == old(shmem)@.holding(region.with_decision(record))
            },
        },
{
    proof {
        if let Ok(region) = shmem@.access() {
            if region.state.recent_decision_capacity > 0 {
                law_recorded_decision_is_newest(region.state, region.recent_decisions, record);
            }
        }
    }
    let region = shmem.locked()?;
    record_recent_decision_locked(
        &mut region.state,
        region.recent_decisions.as_mut_slice(),
        record,
    );
    Ok(())
}

pub fn snapshot_recent_decisions(shmem: &SharedMemory, limit: usize) -> (r: PwbResult<
    Vec<RecentDecisionRecord>,
>)
    requires
        shmem.wf(),
    ensures
        seqs::same_values(
            r,
            match shmem@.access() {
                Err(error) => Err(error),
                Ok(region) => recent_snapshot(region.state, region.recent_decisions, limit as int),
            },
        ),
{
    let region = shmem.read()?;
    snapshot_recent_decisions_from_slice(&region.state, region.recent_decisions.as_slice(), limit)
}

pub fn reset_recent_decisions(shmem: &mut SharedMemory) -> (r: PwbResult<()>)
    requires
        old(shmem).wf(),
    ensures
        final(shmem).wf(),
        match old(shmem)@.access() {
            Err(error) => errors::fails_with(r, error) && final(shmem)@ == old(shmem)@,
            Ok(region) => {
                &&& r is Ok
                &&& final(shmem)@ == old(shmem)@.holding(region.without_decisions())
            },
        },
{
    let region = shmem.locked()?;
    region.state.recent_decision_head = 0;
    region.state.recent_decision_count = 0;
    clear_recent_decisions(region.recent_decisions.as_mut_slice());
    Ok(())
}

pub fn record_recent_decision_locked(
    state: &mut PwbSharedState,
    recent_decisions: &mut [PwbRecentDecision],
    record: RecentDecisionRecord,
)
    requires
        old(recent_decisions)@.len() == old(state).recent_decision_capacity,
    ensures
        (*final(state), final(recent_decisions)@) == recorded(
            *old(state),
            old(recent_decisions)@,
            record,
        ),
{
    let capacity: usize = recent_decision_capacity(state);
    if capacity == 0 {
        return ;
    }
    if state.recent_decision_head == u64::MAX {
        state.recent_decision_head = 0;
        state.recent_decision_count = 0;
        clear_recent_decisions(recent_decisions);
    }
    let slot: usize = ring_slot(state.recent_decision_head, capacity);
    recent_decisions[slot] = PwbRecentDecision::encode(record);
    state.recent_decision_head = state.recent_decision_head.saturating_add(1);
    if state.recent_decision_count < state.recent_decision_capacity {
        state.recent_decision_count = state.recent_decision_count + 1;
    } else {
        state.recent_decision_count = state.recent_decision_capacity;
    }
}

/// Empties every slot of the ring.
pub fn clear_recent_decisions(recent_decisions: &mut [PwbRecentDecision])
    ensures
        final(recent_decisions)@ == Seq::new(
            old(recent_decisions)@.len(),
            |i: int| PwbRecentDecision::empty(),
        ),
{
    let mut i: usize = 0;
    while i < recent_decisions.len()
        invariant
            i <= recent_decisions@.len(),
            recent_decisions@.len() == old(recent_decisions)@.len(),
            forall|k: int|
                0 <= k < i ==> #[trigger] recent_decisions@[k] == PwbRecentDecision::empty(),
        decreases recent_decisions@.len() - i,
    {
        recent_decisions[i] = PwbRecentDecision::default();
        i += 1;
    }
    assert(recent_decisions@ =~= Seq::new(
        old(recent_decisions)@.len(),
        |i: int| PwbRecentDecision::empty(),
    ));
}

/// What a snapshot of at most `limit` decisions gives.
pub open spec fn recent_snapshot(
    state: PwbSharedState,
    slots: Seq<PwbRecentDecision>,
    limit: int,
) -> Result<Seq<RecentDecisionRecord>, PwbErrorView> {
    let taken = recent(state, slots, limit);
    if taken.len() > 0 && state.recent_decision_head == 0 {
        Err(errors::internal("recent decision ring head underflow"@))
    } else {
        seqs::all_ok(taken.map_values(|slot: PwbRecentDecision| slot.decoded()))
    }
}

pub fn snapshot_recent_decisions_from_slice(
    state: &PwbSharedState,
    recent_decisions: &[PwbRecentDecision],
    limit: usize,
) -> (r: PwbResult<Vec<RecentDecisionRecord>>)
    requires
        recent_decisions@.len() == state.recent_decision_capacity,
    ensures
        seqs::same_values(r, recent_snapshot(*state, recent_decisions@, limit as int)),
{
    let ghost taken = recent(*state, recent_decisions@, limit as int);
    let ghost results = taken.map_values(|slot: PwbRecentDecision| slot.decoded());
    let capacity: usize = recent_decision_capacity(state);
    if capacity == 0 || limit == 0 {
        return Ok(Vec::new());
    }
    let count: usize = recent_decision_count(state);
    let held: usize = if count <= capacity {
        count
    } else {
        capacity
    };
    let snapshot_count: usize = if limit <= held {
        limit
    } else {
        held
    };
    if snapshot_count == 0 {
        return Ok(Vec::new());
    }
    if state.recent_decision_head == 0 {
        return Err(internal_error("recent decision ring head underflow".to_owned()));
    }
    let mut records: Vec<RecentDecisionRecord> = Vec::new();
    let mut sequence: u64 = state.recent_decision_head - 1;
    let mut i: usize = 0;
    assert(results.take(0) =~= Seq::empty());
    while i < snapshot_count
        invariant
            i <= snapshot_count,
            snapshot_count == results.len(),
            capacity == state.recent_decision_capacity,
            recent_decisions@.len() == capacity,
            capacity > 0,
            state.recent_decision_head > 0,
            sequence == older(state.recent_decision_head as int, i as int),
            taken == recent(*state, recent_decisions@, limit as int),
            snapshot_count == taken.len(),
            results == taken.map_values(|slot: PwbRecentDecision| slot.decoded()),
            seqs::all_ok(results.take(i as int)) == Ok::<Seq<RecentDecisionRecord>, PwbErrorView>(
                records@,
            ),
            seqs::all_ok(results) == recent_snapshot(*state, recent_decisions@, limit as int),
        decreases snapshot_count - i,
    {
        let slot: usize = ring_slot(sequence, capacity);
        proof {
            seqs::lemma_all_ok_step(results, i as int);
            assert(results[i as int] == recent_decisions@[slot as int].decoded());
        }
        match recent_decisions[slot].decode() {
            Ok(record) => records.push(record),
            Err(error) => {
                proof {
                    seqs::lemma_all_ok_keeps_error(results, i + 1);
                }
                return Err(error);
            },
        }
        sequence = sequence.saturating_sub(1);
        i += 1;
    }
    assert(results.take(i as int) =~= results);
    Ok(records)
}

pub fn ring_slot(sequence: u64, capacity: usize) -> (r: usize)
    requires
        capacity > 0,
    ensures
        r == sequence as int % capacity as int,
        r < capacity,
{
    let slot: u64 = sequence % capacity as u64;
    slot as usize
}

pub fn recent_decision_capacity(state: &PwbSharedState) -> (r: usize)
    ensures
        r == state.recent_decision_capacity,
{
    state.recent_decision_capacity as usize
}

pub fn recent_decision_count(state: &PwbSharedState) -> (r: usize)
    ensures
        r == state.recent_decision_count,
{
    state.recent_decision_count as usize
}

/// Tells whether the head and the count fit the ring, and every decision in it can be read.
pub fn ring_is_in_order(state: &PwbSharedState, recent_decisions: &[PwbRecentDecision]) -> (r: bool)
    ensures
        r == ring_wf(*state, recent_decisions@),
{
    let capacity: usize = recent_decision_capacity(state);
    if recent_decisions.len() != capacity {
        return false;
    }
    let count: usize = recent_decision_count(state);
    let full: bool = state.recent_decision_head >= capacity as u64;
    if full && count != capacity || !full && count as u64 != state.recent_decision_head {
        return false;
    }
    let mut i: usize = 0;
    while i < count
        invariant
            i <= count <= capacity,
            count == state.recent_decision_count,
            capacity == state.recent_decision_capacity,
            recent_decisions@.len() == capacity,
            count <= state.recent_decision_head,
            forall|k: int|
                0 <= k < i ==> (#[trigger] newest(*state, recent_decisions@)[k].decoded()) is Ok,
        decreases count - i,
    {
        let sequence: u64 = state.recent_decision_head - 1 - i as u64;
        let slot: usize = ring_slot(sequence, capacity);
        assert(newest(*state, recent_decisions@)[i as int] == recent_decisions@[slot as int]);
        if recent_decisions[slot].decode().is_err() {
            assert(newest(*state, recent_decisions@)[i as int].decoded() is Err);
            return false;
        }
        i += 1;
    }
    true
}

proof fn lemma_ring_slots_differ(a: int, b: int, n: int)
    requires
        n > 0,
        a < b < a + n,
    ensures
        a % n != b % n,
{
    if a % n == b % n {
        assert(false) by (nonlinear_arith)
            requires
                n > 0,
                a < b < a + n,
                a % n == b % n,
        ;
    }
}

/// Recording a decision keeps the ring in order and puts the decision in front of those that were
/// there; of these the oldest falls out where the ring was full. Where the head starts anew, the
/// decision is the only one.
pub proof fn law_recorded_decision_is_newest(
    state: PwbSharedState,
    slots: Seq<PwbRecentDecision>,
    record: RecentDecisionRecord,
)
    requires
        ring_wf(state, slots),
        state.recent_decision_capacity > 0,
    ensures
        ({
            let (state2, slots2) = recorded(state, slots, record);
            let earlier = if state.recent_decision_head == u64::MAX {
                Seq::empty()
            } else if state.recent_decision_count < state.recent_decision_capacity {
                newest(state, slots)
            } else {
                newest(state, slots).drop_last()
            };
            &&& ring_wf(state2, slots2)
            &&& newest(state2, slots2) == seq![PwbRecentDecision::encoded(record)] + earlier
        }),
{
    let (state2, slots2) = recorded(state, slots, record);
    let n = state.recent_decision_capacity as int;
    let head = state.recent_decision_head as int;
    if state.recent_decision_head == u64::MAX {
        assert(older(1, 0) % n == 0) by {
            vstd::arithmetic::div_mod::lemma_small_mod(0, n as nat);
        }
        assert(newest(state2, slots2) =~= seq![PwbRecentDecision::encoded(record)]
            + Seq::<PwbRecentDecision>::empty());
    } else {
        let earlier = if state.recent_decision_count < state.recent_decision_capacity {
            newest(state, slots)
        } else {
            newest(state, slots).drop_last()
        };
        let after = newest(state2, slots2);
        assert(0 <= head % n < n) by (nonlinear_arith)
            requires
                n > 0,
        ;
        assert forall|i: int| 0 <= i < after.len() implies after[i] == (seq![
            PwbRecentDecision::encoded(record),
        ] + earlier)[i] by {
            if i > 0 {
                let number = older(head, i - 1);
                assert(older(head + 1, i) == number);
                lemma_ring_slots_differ(number, head, n);
                assert(0 <= number % n < n) by (nonlinear_arith)
                    requires
                        n > 0,
                ;
                assert(slots2[number % n] == slots[number % n]);
            }
        }
        assert(after =~= seq![PwbRecentDecision::encoded(record)] + earlier);
    }
    let after = newest(state2, slots2);
    assert forall|i: int| 0 <= i < state2.recent_decision_count implies (
    #[trigger] after[i].decoded()) is Ok by {
        if i > 0 {
            assert(after[i] == newest(state, slots)[i - 1]);
            assert(newest(state, slots)[i - 1].decoded() is Ok);
        }
    }
}

/// A ring in order can always be read, and a snapshot of it holds the newest decisions, newest first,
/// up to the limit.
pub proof fn law_snapshot_reads_newest_decisions(
    state: PwbSharedState,
    slots: Seq<PwbRecentDecision>,
    limit: nat,
)
    requires
        ring_wf(state, slots),
    ensures
        recent_snapshot(state, slots, limit as int) matches Ok(records) && {
            &&& records.len() == if limit <= state.recent_decision_count {
                limit as int
            } else {
                state.recent_decision_count as int
            }
            &&& forall|i: int|
                0 <= i < records.len() ==> newest(state, slots)[i].decoded() == Ok::<
                    RecentDecisionRecord,
                    PwbErrorView,
                >(#[trigger] records[i])
        },
{
    let taken = recent(state, slots, limit as int);
    let results = taken.map_values(|slot: PwbRecentDecision| slot.decoded());
    assert forall|i: int| 0 <= i < results.len() implies (#[trigger] results[i]) is Ok by {
        assert(newest(state, slots)[i].decoded() is Ok);
    }
    seqs::lemma_all_ok_of_values(results);
    let records = recent_snapshot(state, slots, limit as int)->Ok_0;
    assert forall|i: int| 0 <= i < records.len() implies newest(state, slots)[i].decoded() == Ok::<
        RecentDecisionRecord,
        PwbErrorView,
    >(#[trigger] records[i]) by {
        assert(results[i] is Ok);
    }
}

/// A decision that was just recorded is read back first and as it was, and the one that was read first
/// before is read next, where the ring has room for two. The ring counts what it holds, up to its
/// capacity.
pub proof fn law_recorded_decision_is_read_back(
    state: PwbSharedState,
    slots: Seq<PwbRecentDecision>,
    record: RecentDecisionRecord,
)
    requires
        ring_wf(state, slots),
        state.recent_decision_capacity > 0,
        state.recent_decision_head < u64::MAX,
    ensures
        ({
            let (state2, slots2) = recorded(state, slots, record);
            &&& recent_snapshot(state2, slots2, 1) == Ok::<
                Seq<RecentDecisionRecord>,
                PwbErrorView,
            >(seq![record])
            &&& state2.recent_decision_head == state.recent_decision_head + 1
            &&& state2.recent_decision_count == if state.recent_decision_count
                < state.recent_decision_capacity {
                state.recent_decision_count + 1
            } else {
                state.recent_decision_capacity as int
            }
            &&& state2.counters == state.counters
            &&& state.recent_decision_count > 0 && state.recent_decision_capacity > 1 ==> (
            recent_snapshot(state2, slots2, 2) matches Ok(both) && both.len() == 2 && both[0]
                == record && recent_snapshot(state, slots, 1) == Ok::<
                Seq<RecentDecisionRecord>,
                PwbErrorView,
            >(seq![both[1]]))
        }),
{
    law_recorded_decision_is_newest(state, slots, record);
    let (state2, slots2) = recorded(state, slots, record);
    law_snapshot_reads_newest_decisions(state2, slots2, 1);
    law_snapshot_reads_newest_decisions(state2, slots2, 2);
    law_snapshot_reads_newest_decisions(state, slots, 1);
    records::law_recent_decision_round_trip(record);
    let one = recent_snapshot(state2, slots2, 1)->Ok_0;
    assert(newest(state2, slots2)[0] == PwbRecentDecision::encoded(record));
    assert(one[0] == record);
    assert(one =~= seq![record]);
    if state.recent_decision_count > 0 && state.recent_decision_capacity > 1 {
        let both = recent_snapshot(state2, slots2, 2)->Ok_0;
        let before = recent_snapshot(state, slots, 1)->Ok_0;
        assert(newest(state2, slots2)[1] == newest(state, slots)[0]);
        assert(both[1] == before[0] && both[0] == record);
        assert(before =~= seq![both[1]]);
    }
}

} // verus!
