//! The tables that all backends share, and the operations on them.

use vstd::prelude::*;

use crate::errors;
use crate::errors::{internal_error, PwbError, PwbErrorView, PwbResult};
use crate::shmem::layout::{capacity_to_u32, SharedLayout};
use crate::shmem::records::{
    PwbBudgetBucket, PwbCounters, PwbProfileEntry, PwbRecentDecision, PwbScopeName, PwbSharedState,
};
use crate::text;

pub mod budget_buckets;
pub mod counters;
pub mod layout;
pub mod profiles;
pub mod recent_decisions;
pub mod records;
pub mod scope_names;
pub mod transactions;

verus! {

pub const MAGIC: u32 = 0x5057_4201;

pub const LAYOUT_VERSION: u32 = 3;

/// The shared region: its head and its tables.
pub struct SharedRegion {
    pub state: PwbSharedState,
    pub recent_decisions: Vec<PwbRecentDecision>,
    pub profiles: Vec<PwbProfileEntry>,
    pub budget_buckets: Vec<PwbBudgetBucket>,
    pub scope_names: Vec<PwbScopeName>,
}

/// The shared region with its tables as sequences.
#[verifier::ext_equal]
pub struct RegionView {
    pub state: PwbSharedState,
    pub recent_decisions: Seq<PwbRecentDecision>,
    pub profiles: Seq<PwbProfileEntry>,
    pub budget_buckets: Seq<PwbBudgetBucket>,
    pub scope_names: Seq<PwbScopeName>,
}

/// What a backend knows of the shared region.
pub struct SharedMemory {
    /// Whether the lock of the region was resolved.
    pub lock_initialized: bool,
    /// The layout that was asked for.
    pub layout: SharedLayout,
    /// The region, where it was attached.
    pub region: Option<SharedRegion>,
}

/// What a backend knows of the shared region, with the tables as sequences.
#[verifier::ext_equal]
pub struct SharedMemoryView {
    pub lock_initialized: bool,
    pub layout: SharedLayout,
    pub region: Option<RegionView>,
}

impl View for SharedRegion {
    type V = RegionView;

    open spec fn view(&self) -> RegionView {
        RegionView {
            state: self.state,
            recent_decisions: self.recent_decisions@,
            profiles: self.profiles@,
            budget_buckets: self.budget_buckets@,
            scope_names: self.scope_names@,
        }
    }
}

impl View for SharedMemory {
    type V = SharedMemoryView;

    open spec fn view(&self) -> SharedMemoryView {
        SharedMemoryView {
            lock_initialized: self.lock_initialized,
            layout: self.layout,
            region: match self.region {
                Some(region) => Some(region@),
                None => None,
            },
        }
    }
}

impl RegionView {
    /// Whether the head bears the marks of this version of the region.
    pub open spec fn compatible(self) -> bool {
        self.state.magic == MAGIC && self.state.layout_version == LAYOUT_VERSION
    }

    /// Whether the tables are in order.
    pub open spec fn wf(self) -> bool {
        &&& recent_decisions::ring_wf(self.state, self.recent_decisions)
        &&& profiles::profiles_wf(self.state, self.profiles)
        &&& budget_buckets::buckets_wf(self.state, self.budget_buckets)
        &&& self.scope_names.len() == self.state.scope_name_capacity
        &&& scope_names::names_wf(self.scope_names)
    }

    /// The region with its counters and its ring of decisions empty.
    pub open spec fn without_stats(self) -> RegionView {
        RegionView {
            state: PwbSharedState {
                counters: PwbCounters::zero(),
                recent_decision_head: 0,
                recent_decision_count: 0,
                ..self.state
            },
            recent_decisions: Seq::new(
                self.recent_decisions.len(),
                |i: int| PwbRecentDecision::empty(),
            ),
            ..self
        }
    }
}

impl SharedMemoryView {
    /// The region, or the error that says why it cannot be used.
    pub open spec fn access(self) -> Result<RegionView, PwbErrorView> {
        if !self.lock_initialized {
            Err(unavailable_error())
        } else {
            match self.region {
                None => Err(unavailable_error()),
                Some(region) => if !region.compatible() {
                    Err(
                        errors::internal("pg_wal_budget shared memory has an incompatible layout"@),
                    )
                } else if self.layout.total_bytes == 0 {
                    Err(unavailable_error())
                } else {
                    Ok(region)
                },
            }
        }
    }

    /// The same with another region.
    pub open spec fn holding(self, region: RegionView) -> SharedMemoryView {
        SharedMemoryView { region: Some(region), ..self }
    }

    /// Whether a region that can be used is in order.
    pub open spec fn wf(self) -> bool {
        self.access() matches Ok(region) ==> region.wf()
    }
}

impl SharedMemory {
    /// Whether a region that can be used is in order.
    pub open spec fn wf(self) -> bool {
        self@.wf()
    }

    /// The state of a backend that never attached the region.
    pub fn unavailable() -> (r: SharedMemory)
        ensures
            r@.access() == Err::<RegionView, PwbErrorView>(unavailable_error()),
            r == (SharedMemory {
                lock_initialized: false,
                layout: SharedLayout {
                    total_bytes: 0,
                    recent_decisions_offset: 0,
                    profiles_offset: 0,
                    budget_buckets_offset: 0,
                    scope_names_offset: 0,
                    recent_decision_capacity: 0,
                    profile_cache_capacity: 0,
                    budget_bucket_capacity: 0,
                    scope_name_capacity: 0,
                },
                region: None,
            }),
            r.wf(),
    {
        SharedMemory { lock_initialized: false, layout: SharedLayout::empty(), region: None }
    }

    /// The region for a change, or the error that says why it cannot be used.
    pub fn locked(&mut self) -> (r: PwbResult<&mut SharedRegion>)
        ensures
            match old(self)@.access() {
                Ok(region) => {
                    &&& r is Ok
                    &&& (*(r->Ok_0))@ == region
                    &&& *final(self) == (SharedMemory {
                        region: Some(*final(r->Ok_0)),
                        ..*old(self)
                    })
                },
                Err(error) => {
                    &&& r is Err
                    &&& r->Err_0@ == error
                    &&& *final(self) == *old(self)
                },
            },
    {
        if !self.lock_initialized {
            return Err(shared_memory_unavailable());
        }
        match &mut self.region {
            None => Err(shared_memory_unavailable()),
            Some(region) => if region.state.magic != MAGIC || region.state.layout_version
                != LAYOUT_VERSION {
                Err(
                    internal_error(
                        "pg_wal_budget shared memory has an incompatible layout".to_owned(),
                    ),
                )
            } else if self.layout.total_bytes == 0 {
                Err(shared_memory_unavailable())
            } else {
                Ok(region)
            },
        }
    }

    /// The region for reading, or the error that says why it cannot be used.
    pub fn read(&self) -> (r: PwbResult<&SharedRegion>)
        ensures
            match self@.access() {
                Ok(region) => r matches Ok(found) && found@ == region,
                Err(error) => errors::fails_with(r, error),
            },
    {
        if !self.lock_initialized {
            return Err(shared_memory_unavailable());
        }
        match &self.region {
            None => Err(shared_memory_unavailable()),
            Some(region) => if region.state.magic != MAGIC || region.state.layout_version
                != LAYOUT_VERSION {
                Err(
                    internal_error(
                        "pg_wal_budget shared memory has an incompatible layout".to_owned(),
                    ),
                )
            } else if self.layout.total_bytes == 0 {
                Err(shared_memory_unavailable())
            } else {
                Ok(region)
            },
        }
    }
}

/// Tells whether the tables of a region are in order.
pub fn region_is_in_order(region: &SharedRegion) -> (r: bool)
    ensures
        r == region@.wf(),
{
    recent_decisions::ring_is_in_order(&region.state, region.recent_decisions.as_slice())
        && profiles::profiles_are_in_order(&region.state, region.profiles.as_slice())
        && budget_buckets::buckets_are_in_order(&region.state, region.budget_buckets.as_slice())
        && region.scope_names.len() == region.state.scope_name_capacity as usize
        && scope_names::names_are_in_order(region.scope_names.as_slice())
}

/// What asking for the region gave.
pub enum AttachedRegion {
    /// There is no region.
    Failed,
    /// The region was just created and is blank.
    Created,
    /// Another process created the region.
    Found(SharedRegion),
}

/// The head of a new region.
pub open spec fn initial_state(layout: SharedLayout) -> PwbSharedState {
    PwbSharedState {
        magic: MAGIC,
        layout_version: LAYOUT_VERSION,
        recent_decision_capacity: layout.recent_decision_capacity as u32,
        profile_cache_capacity: layout.profile_cache_capacity as u32,
        budget_bucket_capacity: layout.budget_bucket_capacity as u32,
        scope_name_capacity: layout.scope_name_capacity as u32,
        recent_decision_head: 0,
        recent_decision_count: 0,
        profiles_len: 0,
        budget_buckets_len: 0,
        profile_restore_state: profiles::PROFILE_RESTORE_NOT_ATTEMPTED,
        profile_restore_started_epoch_ms: 0,
        last_profile_persist_epoch_ms: 0,
        profile_dirty_count: 0,
        counters: PwbCounters::zero(),
    }
}

/// Whether a region is new: its head is the initial one and its tables are empty.
pub open spec fn is_initial(region: RegionView, layout: SharedLayout) -> bool {
    &&& region.state == initial_state(layout)
    &&& region.recent_decisions == Seq::new(
        layout.recent_decision_capacity as nat,
        |i: int| PwbRecentDecision::empty(),
    )
    &&& region.profiles == Seq::new(
        layout.profile_cache_capacity as nat,
        |i: int| PwbProfileEntry::empty(),
    )
    &&& region.budget_buckets == Seq::new(
        layout.budget_bucket_capacity as nat,
        |i: int| PwbBudgetBucket::empty(),
    )
    &&& region.scope_names.len() == layout.scope_name_capacity
    &&& forall|i: int|
        0 <= i < layout.scope_name_capacity ==> (#[trigger] region.scope_names[i]).is_blank()
}

/// Whether every capacity can be stored in the head of the region.
pub open spec fn capacities_fit(layout: SharedLayout) -> bool {
    &&& layout.recent_decision_capacity <= u32::MAX
    &&& layout.profile_cache_capacity <= u32::MAX
    &&& layout.budget_bucket_capacity <= u32::MAX
    &&& layout.scope_name_capacity <= u32::MAX
}

pub fn initialize_state(layout: SharedLayout) -> (r: PwbSharedState)
    ensures
        r == initial_state(layout),
{
    PwbSharedState {
        magic: MAGIC,
        layout_version: LAYOUT_VERSION,
        recent_decision_capacity: capacity_to_u32(layout.recent_decision_capacity),
        profile_cache_capacity: capacity_to_u32(layout.profile_cache_capacity),
        budget_bucket_capacity: capacity_to_u32(layout.budget_bucket_capacity),
        scope_name_capacity: capacity_to_u32(layout.scope_name_capacity),
        recent_decision_head: 0,
        recent_decision_count: 0,
        profiles_len: 0,
        budget_buckets_len: 0,
        profile_restore_state: profiles::initial_profile_restore_state(),
        profile_restore_started_epoch_ms: 0,
        last_profile_persist_epoch_ms: 0,
        profile_dirty_count: 0,
        counters: PwbCounters::default(),
    }
}

/// A new region with empty tables.
pub fn initialize_region(layout: SharedLayout) -> (r: SharedRegion)
    requires
        capacities_fit(layout),
    ensures
        is_initial(r@, layout),
        r@.wf(),
{
    let recent_decisions: Vec<PwbRecentDecision> =
        vec![PwbRecentDecision::default(); layout.recent_decision_capacity];
    let profiles: Vec<PwbProfileEntry> =
        vec![PwbProfileEntry::default(); layout.profile_cache_capacity];
    let budget_buckets: Vec<PwbBudgetBucket> =
        vec![PwbBudgetBucket::default(); layout.budget_bucket_capacity];
    let scope_names: Vec<PwbScopeName> = vec![PwbScopeName::default(); layout.scope_name_capacity];
    let region = SharedRegion {
        state: initialize_state(layout),
        recent_decisions,
        profiles,
        budget_buckets,
        scope_names,
    };
    proof {
        profiles::lemma_empty_table(region.profiles@);
        assert(region.recent_decisions@ =~= Seq::new(
            layout.recent_decision_capacity as nat,
            |i: int| PwbRecentDecision::empty(),
        ));
        assert(region.profiles@ =~= Seq::new(
            layout.profile_cache_capacity as nat,
            |i: int| PwbProfileEntry::empty(),
        ));
        assert(region.budget_buckets@ =~= Seq::new(
            layout.budget_bucket_capacity as nat,
            |i: int| PwbBudgetBucket::empty(),
        ));
    }
    region
}

/// Attaches the region: a new one is initialized, one that is there must be of this version.
pub fn shmem_startup(layout: SharedLayout, lock_resolved: bool, attached: AttachedRegion) -> (r:
    PwbResult<SharedMemory>)
    requires
        capacities_fit(layout),
        attached matches AttachedRegion::Found(region) ==> (region@.compatible()
            ==> region@.wf()),
    ensures
        if !lock_resolved {
            errors::fails_with(
                r,
                errors::internal("failed to resolve pg_wal_budget LWLock tranche"@),
            )
        } else {
            match attached {
                AttachedRegion::Failed => errors::fails_with(
                    r,
                    errors::internal("failed to initialize pg_wal_budget shared memory"@),
                ),
                AttachedRegion::Created => r matches Ok(shmem) && {
                    &&& shmem.lock_initialized
                    &&& shmem.layout == layout
                    &&& shmem.region matches Some(region) && is_initial(region@, layout)
                },
                AttachedRegion::Found(region) => if region@.compatible() {
                    r == Ok::<SharedMemory, PwbError>(
                        SharedMemory { lock_initialized: true, layout, region: Some(region) },
                    )
                } else {
                    errors::fails_with(
                        r,
                        errors::internal(
                            "pg_wal_budget shared memory layout mismatch: magic="@ + text::decimal(
                                region.state.magic as nat,
                            ) + ", version="@ + text::decimal(region.state.layout_version as nat),
                        ),
                    )
                },
            }
        },
        r matches Ok(shmem) ==> shmem.wf(),
{
    if !lock_resolved {
        return Err(internal_error("failed to resolve pg_wal_budget LWLock tranche".to_owned()));
    }
    match attached {
        AttachedRegion::Failed => Err(
            internal_error("failed to initialize pg_wal_budget shared memory".to_owned()),
        ),
        AttachedRegion::Created => Ok(
            SharedMemory {
                lock_initialized: true,
                layout,
                region: Some(initialize_region(layout)),
            },
        ),
        AttachedRegion::Found(region) => {
            if region.state.magic != MAGIC || region.state.layout_version != LAYOUT_VERSION {
                return Err(
                    internal_error(
                        text::join4(
                            "pg_wal_budget shared memory layout mismatch: magic=",
                            text::u64_to_decimal(region.state.magic as u64).as_str(),
                            ", version=",
                            text::u64_to_decimal(region.state.layout_version as u64).as_str(),
                        ),
                    ),
                );
            }
            Ok(SharedMemory { lock_initialized: true, layout, region: Some(region) })
        },
    }
}

pub fn is_available(shmem: &SharedMemory) -> (r: bool)
    ensures
        r == (shmem.lock_initialized && shmem@.region is Some && shmem@.region->0.compatible()),
{
    match &shmem.region {
        None => false,
        Some(region) => region.state.magic == MAGIC && region.state.layout_version
            == LAYOUT_VERSION && shmem.lock_initialized,
    }
}

pub fn reset_stats(shmem: &mut SharedMemory) -> (r: PwbResult<()>)
    requires
        old(shmem).wf(),
    ensures
        final(shmem).wf(),
        match old(shmem)@.access() {
            Err(error) => errors::fails_with(r, error) && final(shmem)@ == old(shmem)@,
            Ok(region) => {
                &&& r is Ok
                &&& final(shmem)@ == old(shmem)@.holding(region.without_stats())
            },
        },
{
    let region = shmem.locked()?;
    region.state.counters = PwbCounters::default();
    region.state.recent_decision_head = 0;
    region.state.recent_decision_count = 0;
    recent_decisions::clear_recent_decisions(region.recent_decisions.as_mut_slice());
    Ok(())
}

/// The error of a backend that has no shared region.
pub open spec fn unavailable_error() -> PwbErrorView {
    errors::internal(
        "pg_wal_budget shared memory is not initialized; add pg_wal_budget to shared_preload_libraries and restart"@,
    )
}

pub fn shared_memory_unavailable() -> (r: PwbError)
    ensures
        r@ == unavailable_error(),
{
    internal_error(
        "pg_wal_budget shared memory is not initialized; add pg_wal_budget to shared_preload_libraries and restart".to_owned(),
    )
}

/// The region can be used exactly where its lock was resolved, it was attached, it bears the marks of this
/// version and its layout is known; it is then the attached one. Otherwise there is an internal error.
pub proof fn law_region_is_usable_where_attached(memory: SharedMemoryView)
    ensures
        memory.access() is Ok <==> memory.lock_initialized && memory.region is Some
            && memory.region->0.state.magic == 0x5057_4201 && memory.region->0.state.layout_version
            == 3 && memory.layout.total_bytes != 0,
        memory.access() matches Ok(region) ==> memory.region == Some(region),
        memory.access() matches Err(error) ==> error is Internal,
{
}

/// A new region has the capacities of its layout and holds nothing: no decision, profile, bucket or name,
/// and its counters are zero. No restore was tried yet.
pub proof fn law_new_region_is_empty(region: RegionView, layout: SharedLayout, i: int)
    requires
        is_initial(region, layout),
        capacities_fit(layout),
    ensures
        region.state.recent_decision_capacity == layout.recent_decision_capacity,
        region.state.profile_cache_capacity == layout.profile_cache_capacity,
        region.state.budget_bucket_capacity == layout.budget_bucket_capacity,
        region.state.scope_name_capacity == layout.scope_name_capacity,
        region.recent_decisions.len() == layout.recent_decision_capacity,
        region.profiles.len() == layout.profile_cache_capacity,
        region.budget_buckets.len() == layout.budget_bucket_capacity,
        region.scope_names.len() == layout.scope_name_capacity,
        region.state.recent_decision_count == 0,
        region.state.profiles_len == 0,
        region.state.budget_buckets_len == 0,
        region.state.profile_restore_state == 0,
        region.state.profile_dirty_count == 0,
        0 <= i < region.profiles.len() ==> region.profiles[i].occupied == 0,
        0 <= i < region.budget_buckets.len() ==> region.budget_buckets[i].occupied == 0,
        0 <= i < region.scope_names.len() ==> region.scope_names[i].occupied == 0,
        region.state.counters.accepted_statements == 0,
        region.state.counters.rejected_statements == 0,
        region.state.counters.shadow_would_reject_count == 0,
        region.state.counters.predicted_wal_bytes == 0,
        region.state.counters.actual_wal_bytes == 0,
        region.state.counters.absolute_prediction_error == 0,
        region.state.counters.scope_debt_bytes == 0,
        region.state.counters.missing_actual_wal_count == 0,
        region.state.counters.internal_fail_open_count == 0,
        region.state.counters.aborted_after_charge_count == 0,
{
}

} // verus!
