//! Time as the library counts it: milliseconds since the epoch.

use vstd::prelude::*;

use crate::types::EpochMillis;

verus! {

/// The longest time to sleep without looking out for interrupts.
pub const SLEEP_CHUNK_MS: EpochMillis = 100;

/// The current time from what the system clock gives: the milliseconds since the epoch, or nothing
/// where the clock stands before it.
pub fn current_epoch_ms(since_epoch_ms: Option<u128>) -> (r: EpochMillis)
    ensures
        r == match since_epoch_ms {
            Some(ms) => if ms <= u64::MAX {
                ms as u64
            } else {
                u64::MAX
            },
            None => 0,
        },
{
    match since_epoch_ms {
        Some(ms) => if ms <= u64::MAX as u128 {
            ms as u64
        } else {
            u64::MAX
        },
        None => 0,
    }
}

/// How long to sleep at once where this much is left.
pub open spec fn chunk(remaining_ms: nat) -> nat {
    if remaining_ms <= SLEEP_CHUNK_MS {
        remaining_ms
    } else {
        SLEEP_CHUNK_MS as nat
    }
}

/// The next part of a sleep: how long to sleep now, and what is left then. Nothing is left to do once
/// the whole time was slept.
pub fn next_sleep_chunk(remaining_ms: EpochMillis) -> (r: Option<(EpochMillis, EpochMillis)>)
    ensures
        r == if remaining_ms == 0 {
            None::<(EpochMillis, EpochMillis)>
        } else {
            Some(
                (
                    chunk(remaining_ms as nat) as u64,
                    (remaining_ms - chunk(remaining_ms as nat)) as u64,
                ),
            )
        },
{
    if remaining_ms == 0 {
        None
    } else if remaining_ms <= SLEEP_CHUNK_MS {
        Some((remaining_ms, 0))
    } else {
        Some((SLEEP_CHUNK_MS, remaining_ms - SLEEP_CHUNK_MS))
    }
}

/// The parts that a sleep is made of.
pub open spec fn sleep_chunks(remaining_ms: nat) -> Seq<nat>
    decreases remaining_ms,
{
    if remaining_ms == 0 {
        Seq::empty()
    } else {
        seq![chunk(remaining_ms)] + sleep_chunks((remaining_ms - chunk(remaining_ms)) as nat)
    }
}

/// The sum of a sequence.
pub open spec fn total(parts: Seq<nat>) -> nat
    decreases parts.len(),
{
    if parts.len() == 0 {
        0
    } else {
        parts[0] + total(parts.drop_first())
    }
}

/// The parts of a sleep add up to it, and none is empty or longer than a chunk.
pub proof fn law_sleep_chunks_add_up(remaining_ms: nat)
    ensures
        total(sleep_chunks(remaining_ms)) == remaining_ms,
        forall|i: int|
            0 <= i < sleep_chunks(remaining_ms).len() ==> 0 < #[trigger] sleep_chunks(
                remaining_ms,
            )[i] <= SLEEP_CHUNK_MS,
    decreases remaining_ms,
{
    if remaining_ms > 0 {
        let rest = (remaining_ms - chunk(remaining_ms)) as nat;
        law_sleep_chunks_add_up(rest);
        assert(sleep_chunks(remaining_ms).drop_first() =~= sleep_chunks(rest));
        assert forall|i: int| 0 <= i < sleep_chunks(remaining_ms).len() implies 0
            < #[trigger] sleep_chunks(remaining_ms)[i] <= SLEEP_CHUNK_MS by {
            if i > 0 {
                assert(sleep_chunks(remaining_ms)[i] == sleep_chunks(rest)[i - 1]);
            }
        }
    }
}

/// A sleep goes on in parts of a tenth of a second, the last one shorter, until all of it was slept, and the
/// clock is read as it is, or as zero before the epoch.
pub proof fn law_sleep_goes_on_until_the_end(
    remaining_ms: EpochMillis,
    next: Option<(EpochMillis, EpochMillis)>,
    clock: Option<u128>,
    now: EpochMillis,
)
    requires
        call_ensures(next_sleep_chunk, (remaining_ms,), next),
        call_ensures(current_epoch_ms, (clock,), now),
    ensures
        next is None <==> remaining_ms == 0,
        next matches Some((slept, left)) ==> slept + left == remaining_ms && 0 < slept <= 100 && (
        slept < 100 ==> left == 0),
        clock matches Some(ms) ==> (ms <= u64::MAX ==> now == ms),
        clock is None ==> now == 0,
{
}

} // verus!
