//! Where each table lies in the shared region.

use core::mem::{align_of, size_of};

use vstd::layout;
use vstd::prelude::*;

use crate::errors;
use crate::errors::{internal_error, PwbErrorView, PwbResult};
use crate::shmem::records::{
    PwbBudgetBucket, PwbProfileEntry, PwbRecentDecision, PwbScopeName, PwbSharedState,
};

verus! {

/// The size of the shared region, and the offset and capacity of each table in it.
#[derive(Debug, Clone, Copy, PartialEq, Eq)]
pub struct SharedLayout {
    pub total_bytes: usize,
    pub recent_decisions_offset: usize,
    pub profiles_offset: usize,
    pub budget_buckets_offset: usize,
    pub scope_names_offset: usize,
    pub recent_decision_capacity: usize,
    pub profile_cache_capacity: usize,
    pub budget_bucket_capacity: usize,
    pub scope_name_capacity: usize,
}

impl SharedLayout {
    /// The layout of a region that was never asked for.
    pub fn empty() -> (r: SharedLayout)
        ensures
            r == (SharedLayout {
                total_bytes: 0,
                recent_decisions_offset: 0,
                profiles_offset: 0,
                budget_buckets_offset: 0,
                scope_names_offset: 0,
                recent_decision_capacity: 0,
                profile_cache_capacity: 0,
                budget_bucket_capacity: 0,
                scope_name_capacity: 0,
            }),
    {
        SharedLayout {
            total_bytes: 0,
            recent_decisions_offset: 0,
            profiles_offset: 0,
            budget_buckets_offset: 0,
            scope_names_offset: 0,
            recent_decision_capacity: 0,
            profile_cache_capacity: 0,
            budget_bucket_capacity: 0,
            scope_name_capacity: 0,
        }
    }
}

#[derive(Debug, Clone, Copy, PartialEq, Eq)]
pub struct SharedCapacities {
    pub recent_decisions: usize,
    pub profiles: usize,
    pub budget_buckets: usize,
    pub scope_names: usize,
}

/// The least multiple of `alignment` that is not below `value`.
pub open spec fn aligned(value: int, alignment: int) -> int {
    let adjusted = value + alignment - 1;
    adjusted - adjusted % alignment
}

/// Where a table of `T` starts that comes after the first `end` bytes.
pub open spec fn table_start<T>(end: int) -> int {
    aligned(end, layout::align_of::<T>() as int)
}

/// Where a table of `capacity` records of `T` ends that comes after the first `end` bytes.
pub open spec fn table_end<T>(end: int, capacity: int) -> int {
    table_start::<T>(end) + capacity * layout::size_of::<T>()
}

/// Whether a table fits into the address space after the first `end` bytes.
pub open spec fn table_fits<T>(end: int, capacity: int) -> bool {
    &&& end + layout::align_of::<T>() - 1 <= usize::MAX
    &&& table_end::<T>(end, capacity) <= usize::MAX
}

impl SharedCapacities {
    pub open spec fn head_end(self) -> int {
        layout::size_of::<PwbSharedState>() as int
    }

    pub open spec fn recent_decisions_end(self) -> int {
        table_end::<PwbRecentDecision>(self.head_end(), self.recent_decisions as int)
    }

    pub open spec fn profiles_end(self) -> int {
        table_end::<PwbProfileEntry>(self.recent_decisions_end(), self.profiles as int)
    }

    pub open spec fn budget_buckets_end(self) -> int {
        table_end::<PwbBudgetBucket>(self.profiles_end(), self.budget_buckets as int)
    }

    pub open spec fn scope_names_end(self) -> int {
        table_end::<PwbScopeName>(self.budget_buckets_end(), self.scope_names as int)
    }

    /// Whether tables of these capacities fit into the address space.
    pub open spec fn fits(self) -> bool {
        &&& table_fits::<PwbRecentDecision>(self.head_end(), self.recent_decisions as int)
        &&& table_fits::<PwbProfileEntry>(self.recent_decisions_end(), self.profiles as int)
        &&& table_fits::<PwbBudgetBucket>(self.profiles_end(), self.budget_buckets as int)
        &&& table_fits::<PwbScopeName>(self.budget_buckets_end(), self.scope_names as int)
    }

    /// The layout of tables of these capacities, one after the other behind the head.
    pub open spec fn layout(self) -> SharedLayout {
        SharedLayout {
            total_bytes: self.scope_names_end() as usize,
            recent_decisions_offset: table_start::<PwbRecentDecision>(self.head_end()) as usize,
            profiles_offset: table_start::<PwbProfileEntry>(self.recent_decisions_end()) as usize,
            budget_buckets_offset: table_start::<PwbBudgetBucket>(self.profiles_end()) as usize,
            scope_names_offset: table_start::<PwbScopeName>(self.budget_buckets_end()) as usize,
            recent_decision_capacity: self.recent_decisions,
            profile_cache_capacity: self.profiles,
            budget_bucket_capacity: self.budget_buckets,
            scope_name_capacity: self.scope_names,
        }
    }
}

/// The error for a size that does not fit into the address space.
pub open spec fn overflow_error() -> PwbErrorView {
    errors::internal("shared memory size calculation overflowed"@)
}

proof fn lemma_aligned(value: int, alignment: int)
    requires
        alignment > 0,
    ensures
        value <= aligned(value, alignment) < value + alignment,
        aligned(value, alignment) % alignment == 0,
{
    let adjusted = value + alignment - 1;
    assert(0 <= adjusted % alignment < alignment) by (nonlinear_arith)
        requires
            alignment > 0,
    ;
    assert((adjusted - adjusted % alignment) % alignment == 0) by {
        vstd::arithmetic::div_mod::lemma_sub_mod_noop(
            adjusted,
            adjusted % alignment,
            alignment,
        );
        vstd::arithmetic::div_mod::lemma_mod_twice(adjusted, alignment);
        assert(adjusted % alignment - adjusted % alignment % alignment == 0);
        vstd::arithmetic::div_mod::lemma_small_mod(0, alignment as nat);
    }
}

pub fn align_up(value: usize, alignment: usize) -> (r: PwbResult<usize>)
    requires
        alignment > 0,
    ensures
        errors::same_result(
            r,
            if value + alignment - 1 <= usize::MAX {
                Ok(aligned(value as int, alignment as int) as usize)
            } else {
                Err(overflow_error())
            },
        ),
{
    proof {
        lemma_aligned(value as int, alignment as int);
    }
    let mask: usize = alignment - 1;
    let adjusted: usize = checked_add(value, mask)?;
    Ok(adjusted - adjusted % alignment)
}

pub fn checked_add(left: usize, right: usize) -> (r: PwbResult<usize>)
    ensures
        errors::same_result(
            r,
            if left + right <= usize::MAX {
                Ok((left + right) as usize)
            } else {
                Err(overflow_error())
            },
        ),
{
    match left.checked_add(right) {
        Some(sum) => Ok(sum),
        None => Err(internal_error("shared memory size calculation overflowed".to_owned())),
    }
}

pub fn checked_mul(left: usize, right: usize) -> (r: PwbResult<usize>)
    ensures
        errors::same_result(
            r,
            if left * right <= usize::MAX {
                Ok((left * right) as usize)
            } else {
                Err(overflow_error())
            },
        ),
{
    match left.checked_mul(right) {
        Some(product) => Ok(product),
        None => Err(internal_error("shared memory size calculation overflowed".to_owned())),
    }
}

/// Places a table of `capacity` records of `T` after the first `end` bytes: its start and its end.
fn place_table<T>(end: usize, capacity: usize) -> (r: PwbResult<(usize, usize)>)
    ensures
        errors::same_result(
            r,
            if table_fits::<T>(end as int, capacity as int) {
                Ok(
                    (
                        table_start::<T>(end as int) as usize,
                        table_end::<T>(end as int, capacity as int) as usize,
                    ),
                )
            } else {
                Err(overflow_error())
            },
        ),
        table_fits::<T>(end as int, capacity as int) ==> 0 <= table_start::<T>(end as int)
            <= table_end::<T>(end as int, capacity as int) <= usize::MAX,
{
    proof {
        broadcast use vstd::layout::align_nonzero;
        lemma_aligned(end as int, layout::align_of::<T>() as int);
        assert(capacity * layout::size_of::<T>() >= 0) by (nonlinear_arith)
            requires
                capacity >= 0,
        ;
    }
    let start: usize = align_up(end, align_of::<T>())?;
    let bytes: usize = checked_mul(capacity, size_of::<T>())?;
    let table_end: usize = checked_add(start, bytes)?;
    Ok((start, table_end))
}

pub fn compute_layout(capacities: SharedCapacities) -> (r: PwbResult<SharedLayout>)
    ensures
        errors::same_result(
            r,
            if capacities.fits() {
                Ok(capacities.layout())
            } else {
                Err(overflow_error())
            },
        ),
{
    let head_end: usize = size_of::<PwbSharedState>();
    let (recent_decisions_offset, end) = place_table::<PwbRecentDecision>(
        head_end,
        capacities.recent_decisions,
    )?;
    let (profiles_offset, end) = place_table::<PwbProfileEntry>(end, capacities.profiles)?;
    let (budget_buckets_offset, end) = place_table::<PwbBudgetBucket>(
        end,
        capacities.budget_buckets,
    )?;
    let (scope_names_offset, end) = place_table::<PwbScopeName>(end, capacities.scope_names)?;
    Ok(
        SharedLayout {
            total_bytes: end,
            recent_decisions_offset,
            profiles_offset,
            budget_buckets_offset,
            scope_names_offset,
            recent_decision_capacity: capacities.recent_decisions,
            profile_cache_capacity: capacities.profiles,
            budget_bucket_capacity: capacities.budget_buckets,
            scope_name_capacity: capacities.scope_names,
        },
    )
}

/// A capacity as the head of the region stores it. Capacities above the range of `u32`, which the
/// settings do not admit, lose their high bits.
pub fn capacity_to_u32(capacity: usize) -> (r: u32)
    ensures
        r == capacity as u32,
{
    #[verifier::truncate]
    (capacity as u32)
}

/// What a table of `capacity` records of `T` takes up.
pub open spec fn table_bytes<T>(capacity: usize) -> int {
    capacity * layout::size_of::<T>()
}

proof fn lemma_table<T>(end: int, capacity: int)
    requires
        end >= 0,
        capacity >= 0,
    ensures
        end <= table_start::<T>(end) <= table_end::<T>(end, capacity),
        table_start::<T>(end) % (layout::align_of::<T>() as int) == 0,
{
    broadcast use vstd::layout::align_nonzero;
    lemma_aligned(end, layout::align_of::<T>() as int);
    assert(capacity * layout::size_of::<T>() >= 0) by (nonlinear_arith)
        requires
            capacity >= 0,
    ;
}

/// In a layout the tables are aligned for their records, do not overlap each other or the head, and
/// lie within the region.
pub proof fn law_layout_tables_are_aligned_and_disjoint(capacities: SharedCapacities)
    requires
        capacities.fits(),
    ensures
        ({
            let l = capacities.layout();
            &&& l.recent_decisions_offset as nat % layout::align_of::<PwbRecentDecision>() == 0
            &&& l.profiles_offset as nat % layout::align_of::<PwbProfileEntry>() == 0
            &&& l.budget_buckets_offset as nat % layout::align_of::<PwbBudgetBucket>() == 0
            &&& l.scope_names_offset as nat % layout::align_of::<PwbScopeName>() == 0
            &&& layout::size_of::<PwbSharedState>() <= l.recent_decisions_offset
            &&& l.recent_decisions_offset + table_bytes::<PwbRecentDecision>(
                l.recent_decision_capacity,
            ) <= l.profiles_offset
            &&& l.profiles_offset + table_bytes::<PwbProfileEntry>(l.profile_cache_capacity)
                <= l.budget_buckets_offset
            &&& l.budget_buckets_offset + table_bytes::<PwbBudgetBucket>(l.budget_bucket_capacity)
                <= l.scope_names_offset
            &&& l.scope_names_offset + table_bytes::<PwbScopeName>(l.scope_name_capacity)
                == l.total_bytes
        }),
{
    let c = capacities;
    lemma_table::<PwbRecentDecision>(c.head_end(), c.recent_decisions as int);
    lemma_table::<PwbProfileEntry>(c.recent_decisions_end(), c.profiles as int);
    lemma_table::<PwbBudgetBucket>(c.profiles_end(), c.budget_buckets as int);
    lemma_table::<PwbScopeName>(c.budget_buckets_end(), c.scope_names as int);
}

/// A layout has the capacities that were asked for, one for each table, and no more space than the head, the
/// tables and what aligning them takes.
pub proof fn law_layout_has_the_capacities_asked_for(capacities: SharedCapacities)
    requires
        capacities.fits(),
    ensures
        ({
            let l = capacities.layout();
            &&& l.recent_decision_capacity == capacities.recent_decisions
            &&& l.profile_cache_capacity == capacities.profiles
            &&& l.budget_bucket_capacity == capacities.budget_buckets
            &&& l.scope_name_capacity == capacities.scope_names
            &&& l.recent_decisions_offset < layout::size_of::<PwbSharedState>()
                + layout::align_of::<PwbRecentDecision>()
            &&& l.profiles_offset < l.recent_decisions_offset + capacities.recent_decisions
                * layout::size_of::<PwbRecentDecision>() + layout::align_of::<PwbProfileEntry>()
            &&& l.budget_buckets_offset < l.profiles_offset + capacities.profiles
                * layout::size_of::<PwbProfileEntry>() + layout::align_of::<PwbBudgetBucket>()
            &&& l.scope_names_offset < l.budget_buckets_offset + capacities.budget_buckets
                * layout::size_of::<PwbBudgetBucket>() + layout::align_of::<PwbScopeName>()
            &&& l.total_bytes == l.scope_names_offset + capacities.scope_names
                * layout::size_of::<PwbScopeName>()
        }),
{
    broadcast use vstd::layout::align_nonzero;

    let c = capacities;
    law_layout_tables_are_aligned_and_disjoint(c);
    lemma_table::<PwbRecentDecision>(c.head_end(), c.recent_decisions as int);
    lemma_table::<PwbProfileEntry>(c.recent_decisions_end(), c.profiles as int);
    lemma_table::<PwbBudgetBucket>(c.profiles_end(), c.budget_buckets as int);
    lemma_table::<PwbScopeName>(c.budget_buckets_end(), c.scope_names as int);
    lemma_aligned(c.head_end(), layout::align_of::<PwbRecentDecision>() as int);
    lemma_aligned(c.recent_decisions_end(), layout::align_of::<PwbProfileEntry>() as int);
    lemma_aligned(c.profiles_end(), layout::align_of::<PwbBudgetBucket>() as int);
    lemma_aligned(c.budget_buckets_end(), layout::align_of::<PwbScopeName>() as int);
}

} // verus!
