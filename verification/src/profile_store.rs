//! Query profiles in the durable store.

use vstd::prelude::*;

use crate::catalog;
use crate::catalog::DurableCatalogStore;
use crate::errors::{PwbErrorView, PwbResult};
use crate::seqs;
use crate::shmem::profiles;
use crate::shmem::records::{
    PwbProfileEntry, PwbQueryWalProfile, PwbSharedState, QueryProfileSnapshot,
};
use crate::types::{QueryId, QueryWalProfile, ScopeHash};

verus! {

pub fn load_profiles_from<S: DurableCatalogStore>(store: &S, limit: usize) -> (r: PwbResult<
    Vec<QueryProfileSnapshot>,
>)
    ensures
        call_ensures(S::load_profiles, (store, limit), r),
{
    store.load_profiles(limit)
}

pub fn persist_profiles_with<S: DurableCatalogStore>(
    store: &mut S,
    profiles: &[QueryProfileSnapshot],
) -> (r: PwbResult<()>)
    ensures
        exists|s: &mut S|
            *s == *old(store) && *final(s) == *final(store) && #[trigger] call_ensures(
                S::persist_profiles,
                (s, profiles),
                r,
            ),
{
    store.persist_profiles(profiles)
}

pub fn delete_profiles_with<S: DurableCatalogStore>(store: &mut S) -> (r: PwbResult<()>)
    ensures
        exists|s: &mut S|
            *s == *old(store) && *final(s) == *final(store) && #[trigger] call_ensures(
                S::delete_profiles,
                (s,),
                r,
            ),
{
    store.delete_profiles()
}

/// Whether a stored profile is that of this query, in this scope or, without one, globally.
pub open spec fn stored_under(scope_hash: Option<ScopeHash>, query_id: QueryId) -> spec_fn(
    QueryProfileSnapshot,
) -> bool {
    |stored: QueryProfileSnapshot| stored.scope_hash == scope_hash && stored.query_id == query_id
}

/// The profile that is stored under a key.
pub open spec fn stored_at(
    stored: Seq<QueryProfileSnapshot>,
    scope_hash: Option<ScopeHash>,
    query_id: QueryId,
) -> Option<QueryWalProfile> {
    match seqs::first_where(stored, stored_under(scope_hash, query_id)) {
        Some(i) => Some(stored[i].profile),
        None => None,
    }
}

/// A profile among others with different keys is the one that is stored under its key.
proof fn lemma_stored_at(stored: Seq<QueryProfileSnapshot>, i: int)
    requires
        catalog::profile_keys_differ(stored),
        0 <= i < stored.len(),
    ensures
        stored_at(stored, stored[i].scope_hash, stored[i].query_id) == Some(stored[i].profile),
{
    let p = stored_under(stored[i].scope_hash, stored[i].query_id);
    assert(p(stored[i]));
    assert forall|j: int| 0 <= j < i implies !p(#[trigger] stored[j]) by {
        assert(!(stored[j].scope_hash == stored[i].scope_hash && stored[j].query_id
            == stored[i].query_id));
    }
    seqs::lemma_first_where_is_unique(stored, p, Some(i));
}

/// What is stored under a key after one more profile was added at the end.
proof fn lemma_stored_at_step(
    stored: Seq<QueryProfileSnapshot>,
    scope_hash: Option<ScopeHash>,
    query_id: QueryId,
)
    requires
        stored.len() > 0,
    ensures
        stored_at(stored, scope_hash, query_id) == match stored_at(
            stored.drop_last(),
            scope_hash,
            query_id,
        ) {
            Some(profile) => Some(profile),
            None => if stored_under(scope_hash, query_id)(stored.last()) {
                Some(stored.last().profile)
            } else {
                None
            },
        },
{
    seqs::lemma_first_where(stored.drop_last(), stored_under(scope_hash, query_id));
}

proof fn lemma_keys_differ_in_prefix(stored: Seq<QueryProfileSnapshot>)
    requires
        catalog::profile_keys_differ(stored),
        stored.len() > 0,
    ensures
        catalog::profile_keys_differ(stored.drop_last()),
        stored_at(stored.drop_last(), stored.last().scope_hash, stored.last().query_id) is None,
{
    let rest = stored.drop_last();
    let last = stored.last();
    let p = stored_under(last.scope_hash, last.query_id);
    assert forall|i: int, j: int| 0 <= i < j < rest.len() implies !(
    #[trigger] rest[i].scope_hash == (#[trigger] rest[j]).scope_hash && rest[i].query_id
        == rest[j].query_id) by {
        assert(!(stored[i].scope_hash == stored[j].scope_hash && stored[i].query_id
            == stored[j].query_id));
    }
    assert forall|j: int| 0 <= j < rest.len() implies !p(#[trigger] rest[j]) by {
        assert(!(stored[j].scope_hash == stored[stored.len() - 1].scope_hash && stored[j].query_id
            == stored[stored.len() - 1].query_id));
    }
    seqs::lemma_first_where_is_unique(rest, p, None);
}

/// A snapshot of a table in order has a key once, and holds what the table holds under it.
proof fn lemma_snapshot_holds_table(slots: Seq<PwbProfileEntry>)
    requires
        forall|i: int|
            0 <= i < slots.len() ==> (#[trigger] slots[i]).occupied <= 1 && slots[i].has_scope_hash
                <= 1,
        profiles::profile_keys_differ(slots),
    ensures
        profiles::snapshots_of(slots) matches Ok(snapshots) && {
            &&& catalog::profile_keys_differ(snapshots)
            &&& snapshots.len() <= slots.len()
            &&& forall|scope_hash: Option<ScopeHash>, query_id: QueryId| #[trigger]
                stored_at(snapshots, scope_hash, query_id) == profiles::profile_at(
                    slots,
                    scope_hash,
                    query_id,
                )
        },
    decreases slots.len(),
{
    let p = profiles::is_occupied();
    let f = profiles::to_snapshot();
    if slots.len() == 0 {
        seqs::lemma_all_ok_where_empty(slots, p, f);
        assert(slots.take(0) =~= slots);
    } else {
        let n = slots.len() - 1;
        let rest = slots.drop_last();
        let last = slots.last();
        assert(slots.take(n) =~= rest);
        assert(slots.take(n + 1) =~= slots);
        assert forall|i: int| 0 <= i < rest.len() implies (#[trigger] rest[i]).occupied <= 1
            && rest[i].has_scope_hash <= 1 by {
            assert(slots[i].occupied <= 1 && slots[i].has_scope_hash <= 1);
        }
        assert forall|i: int, j: int| 0 <= i < j < rest.len() implies !(#[trigger] rest[i]).same_key(
            #[trigger] rest[j],
        ) by {
            assert(!slots[i].same_key(slots[j]));
        }
        lemma_snapshot_holds_table(rest);
        seqs::lemma_all_ok_where_step(slots, p, f, n);
        let before = profiles::snapshots_of(rest)->Ok_0;
        assert(slots[n].occupied <= 1 && slots[n].has_scope_hash <= 1);
        if last.occupied == 1 {
            let snapshot = last.snapshot()->Ok_0;
            let after = before.push(snapshot);
            assert(profiles::snapshots_of(slots) == Ok::<Seq<QueryProfileSnapshot>, PwbErrorView>(
                after,
            ));
            let q = stored_under(snapshot.scope_hash, snapshot.query_id);
            let h = profiles::holds_key(snapshot.scope_hash, snapshot.query_id);
            assert forall|j: int| 0 <= j < rest.len() implies !h(#[trigger] rest[j]) by {
                assert(!slots[j].same_key(slots[n]));
            }
            seqs::lemma_first_where_is_unique(rest, h, None);
            assert(stored_at(before, snapshot.scope_hash, snapshot.query_id) is None);
            seqs::lemma_first_where(before, q);
            assert forall|i: int, j: int| 0 <= i < j < after.len() implies !(
            #[trigger] after[i].scope_hash == (#[trigger] after[j]).scope_hash && after[i].query_id
                == after[j].query_id) by {
                if j == before.len() {
                    assert(!q(before[i]));
                } else {
                    assert(!(before[i].scope_hash == before[j].scope_hash && before[i].query_id
                        == before[j].query_id));
                }
            }
            assert forall|scope_hash: Option<ScopeHash>, query_id: QueryId| #[trigger]
                stored_at(after, scope_hash, query_id) == profiles::profile_at(
                    slots,
                    scope_hash,
                    query_id,
                ) by {
                lemma_stored_at_step(after, scope_hash, query_id);
                assert(after.drop_last() =~= before);
                seqs::lemma_first_where(rest, profiles::holds_key(scope_hash, query_id));
                assert(stored_at(before, scope_hash, query_id) == profiles::profile_at(
                    rest,
                    scope_hash,
                    query_id,
                ));
            }
        } else {
            assert forall|scope_hash: Option<ScopeHash>, query_id: QueryId| #[trigger]
                stored_at(before, scope_hash, query_id) == profiles::profile_at(
                    slots,
                    scope_hash,
                    query_id,
                ) by {
                seqs::lemma_first_where(rest, profiles::holds_key(scope_hash, query_id));
            }
        }
    }
}

/// Storing one profile changes what is stored under its key and nothing else.
proof fn lemma_stored_after_one(stored: Seq<QueryProfileSnapshot>, profile: QueryProfileSnapshot)
    requires
        catalog::profile_keys_differ(stored),
    ensures
        ({
            let after = catalog::with_profile(stored, profile);
            &&& catalog::profile_keys_differ(after)
            &&& forall|scope_hash: Option<ScopeHash>, query_id: QueryId| #[trigger]
                stored_at(after, scope_hash, query_id) == if scope_hash == profile.scope_hash
                    && query_id == profile.query_id {
                    Some(profile.profile)
                } else {
                    stored_at(stored, scope_hash, query_id)
                }
        }),
{
    let after = catalog::with_profile(stored, profile);
    let same = catalog::has_same_key(profile);
    catalog::law_stored_profile_is_kept(stored, profile);
    seqs::lemma_first_where(stored, same);
    seqs::lemma_first_where(after, same);
    assert forall|scope_hash: Option<ScopeHash>, query_id: QueryId| #[trigger]
        stored_at(after, scope_hash, query_id) == if scope_hash == profile.scope_hash && query_id
            == profile.query_id {
            Some(profile.profile)
        } else {
            stored_at(stored, scope_hash, query_id)
        } by {
        let p = stored_under(scope_hash, query_id);
        if scope_hash == profile.scope_hash && query_id == profile.query_id {
            let i = seqs::first_where(after, same)->0;
            assert(same(after[i]));
            lemma_stored_at(after, i);
        } else {
            seqs::lemma_first_where(stored, p);
            let found = seqs::first_where(stored, p);
            if let Some(k) = seqs::first_where(stored, same) {
                assert(same(stored[k]));
                assert forall|j: int| 0 <= j < stored.len() implies p(#[trigger] after[j]) == p(
                    stored[j],
                ) by {}
                if let Some(i) = found {
                    assert(p(stored[i]));
                    assert(p(after[i]));
                    assert(i != k);
                    assert forall|j: int| 0 <= j < i implies !p(#[trigger] after[j]) by {
                        assert(!p(stored[j]));
                    }
                } else {
                    assert forall|j: int| 0 <= j < after.len() implies !p(#[trigger] after[j]) by {
                        assert(!p(stored[j]));
                    }
                }
                seqs::lemma_first_where_is_unique(after, p, found);
            } else {
                assert(after.drop_last() =~= stored);
                lemma_stored_at_step(after, scope_hash, query_id);
            }
        }
    }
}

/// Storing profiles changes what is stored under their keys and nothing else.
proof fn lemma_stored_after_all(
    stored: Seq<QueryProfileSnapshot>,
    profiles: Seq<QueryProfileSnapshot>,
)
    requires
        catalog::profile_keys_differ(stored),
        catalog::profile_keys_differ(profiles),
    ensures
        ({
            let after = catalog::with_profiles(stored, profiles);
            &&& catalog::profile_keys_differ(after)
            &&& forall|scope_hash: Option<ScopeHash>, query_id: QueryId| #[trigger]
                stored_at(after, scope_hash, query_id) == match stored_at(
                    profiles,
                    scope_hash,
                    query_id,
                ) {
                    Some(profile) => Some(profile),
                    None => stored_at(stored, scope_hash, query_id),
                }
        }),
    decreases profiles.len(),
{
    if profiles.len() > 0 {
        let rest = profiles.drop_last();
        let last = profiles.last();
        let before = catalog::with_profiles(stored, rest);
        let after = catalog::with_profiles(stored, profiles);
        lemma_keys_differ_in_prefix(profiles);
        lemma_stored_after_all(stored, rest);
        lemma_stored_after_one(before, last);
        assert forall|scope_hash: Option<ScopeHash>, query_id: QueryId| #[trigger]
            stored_at(after, scope_hash, query_id) == match stored_at(
                profiles,
                scope_hash,
                query_id,
            ) {
                Some(profile) => Some(profile),
                None => stored_at(stored, scope_hash, query_id),
            } by {
            lemma_stored_at_step(profiles, scope_hash, query_id);
            assert(stored_at(before, scope_hash, query_id) == match stored_at(
                rest,
                scope_hash,
                query_id,
            ) {
                Some(profile) => Some(profile),
                None => stored_at(stored, scope_hash, query_id),
            });
        }
    }
}

/// Profiles in the order in which they are loaded have the same keys, and the same under each.
proof fn lemma_load_order_keeps_keys(stored: Seq<QueryProfileSnapshot>)
    requires
        catalog::profile_keys_differ(stored),
    ensures
        ({
            let ordered = catalog::in_load_order(stored);
            &&& catalog::profile_keys_differ(ordered)
            &&& ordered.len() == stored.len()
            &&& forall|scope_hash: Option<ScopeHash>, query_id: QueryId| #[trigger]
                stored_at(ordered, scope_hash, query_id) == stored_at(stored, scope_hash, query_id)
        }),
    decreases stored.len(),
{
    if stored.len() > 0 {
        let rest = stored.drop_last();
        let last = stored.last();
        let before = catalog::in_load_order(rest);
        let after = catalog::in_load_order(stored);
        lemma_keys_differ_in_prefix(stored);
        lemma_load_order_keeps_keys(rest);
        assert(stored_at(before, last.scope_hash, last.query_id) is None);
        let same = stored_under(last.scope_hash, last.query_id);
        seqs::lemma_first_where(before, same);
        let place = seqs::first_where(before, catalog::loads_after(last));
        seqs::lemma_first_where(before, catalog::loads_after(last));
        let k: int = match place {
            Some(k) => k,
            None => before.len() as int,
        };
        assert(after =~= before.insert(k, last));
        assert forall|i: int, j: int| 0 <= i < j < after.len() implies !(
        #[trigger] after[i].scope_hash == (#[trigger] after[j]).scope_hash && after[i].query_id
            == after[j].query_id) by {
            let a = if i < k {
                i
            } else {
                i - 1
            };
            let b = if j < k {
                j
            } else {
                j - 1
            };
            if i == k {
                assert(!same(before[b]));
            } else if j == k {
                assert(!same(before[a]));
            } else {
                assert(!(before[a].scope_hash == before[b].scope_hash && before[a].query_id
                    == before[b].query_id));
            }
        }
        assert forall|scope_hash: Option<ScopeHash>, query_id: QueryId| #[trigger]
            stored_at(after, scope_hash, query_id) == stored_at(stored, scope_hash, query_id) by {
            let p = stored_under(scope_hash, query_id);
            lemma_stored_at_step(stored, scope_hash, query_id);
            assert(stored_at(before, scope_hash, query_id) == stored_at(
                rest,
                scope_hash,
                query_id,
            ));
            seqs::lemma_first_where(before, p);
            if p(last) {
                assert(after[k] == last);
                lemma_stored_at(after, k);
            } else if let Some(i) = seqs::first_where(before, p) {
                assert(p(before[i]));
                let m = if i < k {
                    i
                } else {
                    i + 1
                };
                assert(after[m] == before[i]);
                lemma_stored_at(after, m);
            } else {
                assert forall|j: int| 0 <= j < after.len() implies !p(#[trigger] after[j]) by {
                    if j < k {
                        assert(!p(before[j]));
                    } else if j > k {
                        assert(!p(before[j - 1]));
                    }
                }
                seqs::lemma_first_where_is_unique(after, p, None);
            }
        }
    }
}

/// A table whose length counts fewer profiles than it has slots has an empty slot.
proof fn lemma_room_is_an_empty_slot(slots: Seq<PwbProfileEntry>)
    requires
        forall|i: int| 0 <= i < slots.len() ==> (#[trigger] slots[i]).occupied <= 1,
        slots.filter(profiles::is_occupied()).len() < slots.len(),
    ensures
        seqs::first_where(slots, profiles::is_empty_slot()) is Some,
    decreases slots.len(),
{
    reveal(Seq::filter);
    let rest = slots.drop_last();
    assert(slots[slots.len() - 1].occupied <= 1);
    if slots.last().occupied == 1 {
        assert forall|i: int| 0 <= i < rest.len() implies (#[trigger] rest[i]).occupied <= 1 by {
            assert(slots[i].occupied <= 1);
        }
        lemma_room_is_an_empty_slot(rest);
    }
}

/// Putting profiles with different keys back into an empty table that has room for them leaves under
/// every key what is stored under it.
proof fn lemma_restored_table_holds_stored(
    state: PwbSharedState,
    slots: Seq<PwbProfileEntry>,
    stored: Seq<QueryProfileSnapshot>,
)
    requires
        profiles::profiles_wf(state, slots),
        state.profiles_len == 0,
        catalog::profile_keys_differ(stored),
        stored.len() <= slots.len(),
    ensures
        profiles::restored_all(state, slots, stored) matches Ok((state2, slots2)) && {
            &&& profiles::profiles_wf(state2, slots2)
            &&& state2.profiles_len == stored.len()
            &&& slots2.len() == slots.len()
            &&& forall|scope_hash: Option<ScopeHash>, query_id: QueryId| #[trigger]
                profiles::profile_at(slots2, scope_hash, query_id) == stored_at(
                    stored,
                    scope_hash,
                    query_id,
                )
        },
    decreases stored.len(),
{
    if stored.len() == 0 {
        assert forall|scope_hash: Option<ScopeHash>, query_id: QueryId| #[trigger]
            profiles::profile_at(slots, scope_hash, query_id) is None by {
            let h = profiles::holds_key(scope_hash, query_id);
            assert forall|j: int| 0 <= j < slots.len() implies !h(#[trigger] slots[j]) by {
                if h(slots[j]) {
                    let p = profiles::is_occupied();
                    slots.lemma_filter_contains(p, j);
                }
            }
            seqs::lemma_first_where_is_unique(slots, h, None);
        }
    } else {
        let rest = stored.drop_last();
        let last = stored.last();
        lemma_keys_differ_in_prefix(stored);
        lemma_restored_table_holds_stored(state, slots, rest);
        let (state1, slots1) = profiles::restored_all(state, slots, rest)->Ok_0;
        assert(profiles::profile_at(slots1, last.scope_hash, last.query_id) is None);
        assert forall|i: int| 0 <= i < slots1.len() implies (#[trigger] slots1[i]).occupied <= 1 by {
            assert(slots1[i].occupied <= 1 && slots1[i].has_scope_hash <= 1);
        }
        lemma_room_is_an_empty_slot(slots1);
        let q = profiles::is_empty_slot();
        let i = seqs::first_where(slots1, q)->0;
        seqs::lemma_first_where(slots1, q);
        assert(q(slots1[i]));
        let profile = PwbQueryWalProfile::of(last.profile);
        let entry = PwbProfileEntry::encoded(last.scope_hash, last.query_id, profile);
        let slots2 = slots1.update(i, entry);
        profiles::lemma_stored_profile(
            state1,
            slots1,
            i,
            last.scope_hash,
            last.query_id,
            profile,
        );
        assert forall|scope_hash: Option<ScopeHash>, query_id: QueryId| #[trigger]
            profiles::profile_at(slots2, scope_hash, query_id) == stored_at(
                stored,
                scope_hash,
                query_id,
            ) by {
            lemma_stored_at_step(stored, scope_hash, query_id);
            assert(profiles::profile_at(slots1, scope_hash, query_id) == stored_at(
                rest,
                scope_hash,
                query_id,
            ));
            if !(scope_hash == last.scope_hash && query_id == last.query_id) {
                let h = profiles::holds_key(scope_hash, query_id);
                seqs::lemma_first_where(slots1, h);
                let found = seqs::first_where(slots1, h);
                assert(!h(entry));
                assert forall|j: int| 0 <= j < slots1.len() implies h(#[trigger] slots2[j]) == h(
                    slots1[j],
                ) by {}
                if let Some(k) = found {
                    assert(h(slots1[k]));
                    assert(h(slots2[k]));
                    assert forall|j: int| 0 <= j < k implies !h(#[trigger] slots2[j]) by {
                        assert(!h(slots1[j]));
                    }
                } else {
                    assert forall|j: int| 0 <= j < slots2.len() implies !h(#[trigger] slots2[j]) by {
                        assert(!h(slots1[j]));
                    }
                }
                seqs::lemma_first_where_is_unique(slots2, h, found);
            }
        }
    }
}

/// A table of profiles that is written to the store and restored from it into an empty table, one with
/// room for all that is stored, is read there as before. Under a key that the written table did not
/// hold, the restored one gives what was stored earlier.
pub proof fn law_profiles_outlive_shared_memory(
    state: PwbSharedState,
    slots: Seq<PwbProfileEntry>,
    stored: Seq<QueryProfileSnapshot>,
    empty_state: PwbSharedState,
    empty_slots: Seq<PwbProfileEntry>,
)
    requires
        profiles::profiles_wf(state, slots),
        profiles::profiles_wf(empty_state, empty_slots),
        empty_state.profiles_len == 0,
        catalog::profile_keys_differ(stored),
        catalog::with_profiles(stored, profiles::snapshots_of(slots)->Ok_0).len()
            <= empty_slots.len(),
    ensures
        profiles::snapshots_of(slots) is Ok,
        profiles::restored_all(
            empty_state,
            empty_slots,
            catalog::in_load_order(
                catalog::with_profiles(stored, profiles::snapshots_of(slots)->Ok_0),
            ),
        ) matches Ok((state2, slots2)) && {
            &&& profiles::profiles_wf(state2, slots2)
            &&& forall|scope_hash: Option<ScopeHash>, query_id: QueryId| #[trigger]
                profiles::profile_at(slots2, scope_hash, query_id) == match profiles::profile_at(
                    slots,
                    scope_hash,
                    query_id,
                ) {
                    Some(profile) => Some(profile),
                    None => stored_at(stored, scope_hash, query_id),
                }
        },
{
    lemma_snapshot_holds_table(slots);
    let snapshots = profiles::snapshots_of(slots)->Ok_0;
    lemma_stored_after_all(stored, snapshots);
    let all = catalog::with_profiles(stored, snapshots);
    lemma_load_order_keeps_keys(all);
    let ordered = catalog::in_load_order(all);
    lemma_restored_table_holds_stored(empty_state, empty_slots, ordered);
    let slots2 = profiles::restored_all(empty_state, empty_slots, ordered)->Ok_0.1;
    assert forall|scope_hash: Option<ScopeHash>, query_id: QueryId| #[trigger]
        profiles::profile_at(slots2, scope_hash, query_id) == match profiles::profile_at(
            slots,
            scope_hash,
            query_id,
        ) {
            Some(profile) => Some(profile),
            None => stored_at(stored, scope_hash, query_id),
        } by {
        assert(stored_at(ordered, scope_hash, query_id) == stored_at(all, scope_hash, query_id));
        assert(stored_at(snapshots, scope_hash, query_id) == profiles::profile_at(
            slots,
            scope_hash,
            query_id,
        ));
    }
}

} // verus!
