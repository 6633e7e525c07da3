//! The shared counters.

use vstd::prelude::*;

use crate::errors;
use crate::errors::PwbResult;
use crate::shmem::records::{CounterDelta, PwbCounters, PwbSharedState};
use crate::shmem::{RegionView, SharedMemory};

verus! {

impl RegionView {
    /// The region with these counters.
    pub open spec fn with_counters(self, counters: PwbCounters) -> RegionView {
        RegionView { state: PwbSharedState { counters, ..self.state }, ..self }
    }
}

pub fn add_counters(shmem: &mut SharedMemory, delta: CounterDelta) -> (r: PwbResult<()>)
    requires
        old(shmem).wf(),
    ensures
        final(shmem).wf(),
        match old(shmem)@.access() {
            Err(error) => errors::fails_with(r, error) && final(shmem)@ == old(shmem)@,
            Ok(region) => {
                &&& r is Ok
                &&& final(shmem)@ == old(shmem)@.holding(
                    region.with_counters(region.state.counters.plus(delta)),
                )
            },
        },
{
    let region = shmem.locked()?;
    region.state.counters.saturating_add_delta(delta);
    Ok(())
}

pub fn snapshot_counters(shmem: &SharedMemory) -> (r: PwbResult<PwbCounters>)
    ensures
        errors::same_result(
            r,
            match shmem@.access() {
                Err(error) => Err(error),
                Ok(region) => Ok(region.state.counters),
            },
        ),
{
    let region = shmem.read()?;
    Ok(region.state.counters)
}

pub fn reset_counters(shmem: &mut SharedMemory) -> (r: PwbResult<()>)
    requires
        old(shmem).wf(),
    ensures
        final(shmem).wf(),
        match old(shmem)@.access() {
            Err(error) => errors::fails_with(r, error) && final(shmem)@ == old(shmem)@,
            Ok(region) => {
                &&& r is Ok
                &&& final(shmem)@ == old(shmem)@.holding(region.with_counters(PwbCounters::zero()))
            },
        },
{
    let region = shmem.locked()?;
    region.state.counters = PwbCounters::default();
    Ok(())
}

} // verus!
