//! Token buckets: what a policy lets through, and when.

use vstd::prelude::*;

use crate::errors;
use crate::errors::{internal_error, PwbError, PwbErrorView, PwbResult};
use crate::seqs;
use crate::shmem;
use crate::shmem::budget_buckets;
use crate::shmem::records::BudgetBucketState;
use crate::shmem::transactions;
use crate::shmem::{RegionView, SharedMemory, SharedMemoryView};
use crate::types;
use crate::types::{
    AdmissionContext, AdmissionDecision, BudgetMode, DecisionKind, EpochMillis, PolicyId,
    ReasonCode, ScopeHash, WalBytes,
};

verus! {

/// The policy that a statement is held to.
#[derive(Debug, Clone, Copy, PartialEq, Eq)]
pub struct EffectivePolicy {
    pub policy_id: PolicyId,
    pub enabled: bool,
    pub mode: BudgetMode,
    pub wal_rate_bytes_per_sec: WalBytes,
    pub wal_burst_bytes: WalBytes,
}

#[derive(Debug, Clone, Copy, PartialEq, Eq)]
pub struct RefillResult {
    pub available_bytes: WalBytes,
    pub last_refill_epoch_ms: EpochMillis,
}

/// Why and how long a statement has to wait for its budget.
#[derive(Debug, Clone, Copy, PartialEq, Eq)]
pub struct QueueWait {
    pub policy_id: PolicyId,
    pub predicted_wal_bytes: WalBytes,
    pub available_wal_bytes: WalBytes,
    pub wait_ms: EpochMillis,
}

/// What one attempt to charge a statement comes to.
#[derive(Debug, PartialEq, Eq)]
pub enum ChargeAttempt {
    Admitted(AdmissionDecision),
    WouldWait(QueueWait),
    Failed(PwbError),
}

/// An attempt with its error by what it says.
pub enum ChargeAttemptView {
    Admitted(AdmissionDecision),
    WouldWait(QueueWait),
    Failed(PwbErrorView),
}

impl View for ChargeAttempt {
    type V = ChargeAttemptView;

    open spec fn view(&self) -> ChargeAttemptView {
        match *self {
            ChargeAttempt::Admitted(decision) => ChargeAttemptView::Admitted(decision),
            ChargeAttempt::WouldWait(wait) => ChargeAttemptView::WouldWait(wait),
            ChargeAttempt::Failed(error) => ChargeAttemptView::Failed(error@),
        }
    }
}

/// Whether `result` is the attempt that `expected` describes, or its error.
pub open spec fn same_attempt(
    result: PwbResult<ChargeAttempt>,
    expected: Result<ChargeAttemptView, PwbErrorView>,
) -> bool {
    match expected {
        Ok(attempt) => result matches Ok(a) && a@ == attempt,
        Err(error) => errors::fails_with(result, error),
    }
}

/// What to do about a queued statement: answer it, or sleep and try again.
#[derive(Debug, PartialEq, Eq)]
pub enum QueueStep {
    Return(PwbResult<AdmissionDecision>),
    Sleep(EpochMillis),
}

/// The bytes that flow into a bucket over some time.
pub open spec fn refill(rate_per_sec: int, elapsed_ms: int) -> int {
    (rate_per_sec * elapsed_ms) / 1000
}

/// A bucket's content and the time of its last refill, brought up to now. Time too short for a byte,
/// or backwards, changes nothing, so that it is not lost.
pub open spec fn refilled(
    available: WalBytes,
    max_burst: WalBytes,
    rate_per_sec: WalBytes,
    last_refill_epoch_ms: EpochMillis,
    now_epoch_ms: EpochMillis,
) -> RefillResult {
    let inflow = refill(rate_per_sec as int, now_epoch_ms - last_refill_epoch_ms);
    if now_epoch_ms <= last_refill_epoch_ms || inflow == 0 {
        RefillResult { available_bytes: available, last_refill_epoch_ms }
    } else {
        RefillResult {
            available_bytes: if available + inflow <= max_burst {
                (available + inflow) as u64
            } else {
                max_burst
            },
            last_refill_epoch_ms: now_epoch_ms,
        }
    }
}

/// The bucket that a policy starts with: full.
pub open spec fn full_bucket(
    policy: EffectivePolicy,
    scope_hash: ScopeHash,
    now_epoch_ms: EpochMillis,
) -> BudgetBucketState {
    BudgetBucketState {
        policy_id: policy.policy_id,
        scope_hash,
        available_bytes: policy.wal_burst_bytes,
        max_burst_bytes: policy.wal_burst_bytes,
        rate_bytes_per_sec: policy.wal_rate_bytes_per_sec,
        last_refill_epoch_ms: now_epoch_ms,
        debt_bytes: 0,
    }
}

/// A bucket under the limits of a policy.
pub open spec fn under_policy(
    bucket: BudgetBucketState,
    policy: EffectivePolicy,
) -> BudgetBucketState {
    BudgetBucketState {
        max_burst_bytes: policy.wal_burst_bytes,
        rate_bytes_per_sec: policy.wal_rate_bytes_per_sec,
        available_bytes: types::smaller(bucket.available_bytes, policy.wal_burst_bytes),
        ..bucket
    }
}

/// A bucket under the limits of a policy and brought up to now.
pub open spec fn refreshed(
    policy: EffectivePolicy,
    now_epoch_ms: EpochMillis,
    bucket: BudgetBucketState,
) -> BudgetBucketState {
    let limited = under_policy(bucket, policy);
    let result = refilled(
        limited.available_bytes,
        limited.max_burst_bytes,
        limited.rate_bytes_per_sec,
        limited.last_refill_epoch_ms,
        now_epoch_ms,
    );
    BudgetBucketState {
        available_bytes: result.available_bytes,
        last_refill_epoch_ms: result.last_refill_epoch_ms,
        ..limited
    }
}

/// A bucket that a statement was charged to.
pub open spec fn charged(bucket: BudgetBucketState, predicted: WalBytes) -> BudgetBucketState {
    BudgetBucketState {
        available_bytes: (bucket.available_bytes - predicted) as u64,
        ..bucket
    }
}

/// The decision on a statement that was charged.
pub open spec fn charged_decision(
    policy_id: PolicyId,
    predicted: WalBytes,
    available_before: WalBytes,
) -> AdmissionDecision {
    AdmissionDecision {
        kind: DecisionKind::Allowed,
        policy_id: Some(policy_id),
        charged_bytes: predicted,
        available_before,
        available_after: (available_before - predicted) as u64,
        reason_code: ReasonCode::BudgetAvailable,
    }
}

/// The decision on a statement that nothing is charged for.
pub open spec fn uncharged_decision(policy_id: PolicyId, reason_code: ReasonCode) -> AdmissionDecision {
    AdmissionDecision {
        kind: DecisionKind::Allowed,
        policy_id: Some(policy_id),
        charged_bytes: 0,
        available_before: 0,
        available_after: 0,
        reason_code,
    }
}

pub open spec fn exceeded(
    policy_id: PolicyId,
    predicted: WalBytes,
    available: WalBytes,
) -> PwbErrorView {
    PwbErrorView::BudgetExceeded {
        policy_id,
        predicted_wal_bytes: predicted,
        available_wal_bytes: available,
    }
}

/// What reject mode makes of a statement, given its bucket.
pub open spec fn reject_outcome(
    predicted: WalBytes,
    policy: EffectivePolicy,
    now_epoch_ms: EpochMillis,
    bucket: BudgetBucketState,
) -> Result<AdmissionDecision, PwbErrorView> {
    let available = refreshed(policy, now_epoch_ms, bucket).available_bytes;
    if predicted <= available {
        Ok(charged_decision(policy.policy_id, predicted, available))
    } else {
        Err(exceeded(policy.policy_id, predicted, available))
    }
}

/// The bucket after a statement was charged to it if it could be.
pub open spec fn bucket_after_charge(
    predicted: WalBytes,
    policy: EffectivePolicy,
    now_epoch_ms: EpochMillis,
    bucket: BudgetBucketState,
) -> BudgetBucketState {
    let fresh = refreshed(policy, now_epoch_ms, bucket);
    if predicted <= fresh.available_bytes {
        charged(fresh, predicted)
    } else {
        fresh
    }
}

/// What shadow mode makes of a statement, given its bucket.
pub open spec fn shadow_outcome(
    predicted: WalBytes,
    policy: EffectivePolicy,
    now_epoch_ms: EpochMillis,
    bucket: BudgetBucketState,
) -> AdmissionDecision {
    let available = refreshed(policy, now_epoch_ms, bucket).available_bytes;
    if predicted <= available {
        AdmissionDecision {
            available_before: available,
            available_after: available,
            ..uncharged_decision(policy.policy_id, ReasonCode::ShadowMode)
        }
    } else {
        AdmissionDecision {
            kind: DecisionKind::WouldReject,
            policy_id: Some(policy.policy_id),
            charged_bytes: predicted,
            available_before: available,
            available_after: available,
            reason_code: ReasonCode::BudgetExceeded,
        }
    }
}

/// The least number of milliseconds in which a bucket that lacks `deficit` bytes takes them in.
pub open spec fn exact_wait_ms(deficit: int, rate_per_sec: int) -> int {
    (deficit * 1000 + rate_per_sec - 1) / rate_per_sec
}

/// The wait for a deficit, cut off at the largest number.
pub open spec fn wait_for(deficit: WalBytes, rate_per_sec: WalBytes) -> Result<
    EpochMillis,
    PwbErrorView,
> {
    if deficit == 0 {
        Ok(0)
    } else if rate_per_sec == 0 {
        Err(errors::internal("queue policy has zero WAL refill rate"@))
    } else {
        let wait = exact_wait_ms(deficit as int, rate_per_sec as int);
        Ok(
            if wait <= u64::MAX {
                wait as u64
            } else {
                u64::MAX
            },
        )
    }
}

/// What an attempt to charge comes to where `available` bytes are there.
pub open spec fn charge_outcome(
    policy_id: PolicyId,
    predicted: WalBytes,
    available: WalBytes,
    rate_per_sec: WalBytes,
) -> ChargeAttemptView {
    if predicted <= available {
        ChargeAttemptView::Admitted(charged_decision(policy_id, predicted, available))
    } else {
        match wait_for((predicted - available) as u64, rate_per_sec) {
            Ok(wait_ms) => ChargeAttemptView::WouldWait(
                QueueWait {
                    policy_id,
                    predicted_wal_bytes: predicted,
                    available_wal_bytes: available,
                    wait_ms,
                },
            ),
            Err(error) => ChargeAttemptView::Failed(error),
        }
    }
}

/// What queue mode makes of a statement in one attempt, given its bucket.
pub open spec fn queue_outcome(
    predicted: WalBytes,
    policy: EffectivePolicy,
    now_epoch_ms: EpochMillis,
    bucket: BudgetBucketState,
) -> ChargeAttemptView {
    charge_outcome(
        policy.policy_id,
        predicted,
        refreshed(policy, now_epoch_ms, bucket).available_bytes,
        policy.wal_rate_bytes_per_sec,
    )
}

pub fn refill_available_bytes(
    available: WalBytes,
    max_burst: WalBytes,
    rate_per_sec: WalBytes,
    last_refill_epoch_ms: EpochMillis,
    now_epoch_ms: EpochMillis,
) -> (r: RefillResult)
    ensures
        r == refilled(available, max_burst, rate_per_sec, last_refill_epoch_ms, now_epoch_ms),
{
    if now_epoch_ms <= last_refill_epoch_ms {
        return RefillResult { available_bytes: available, last_refill_epoch_ms };
    }
    let elapsed_ms: u64 = now_epoch_ms - last_refill_epoch_ms;
    proof {
        assert(0 <= rate_per_sec * elapsed_ms <= u64::MAX * u64::MAX) by (nonlinear_arith)
            requires
                0 <= rate_per_sec <= u64::MAX,
                0 <= elapsed_ms <= u64::MAX,
        ;
        assert(u64::MAX * u64::MAX <= u128::MAX) by (nonlinear_arith);
    }
    let inflow: u128 = (rate_per_sec as u128 * elapsed_ms as u128) / 1000;
    let inflow: u64 = if inflow <= u64::MAX as u128 {
        inflow as u64
    } else {
        u64::MAX
    };
    if inflow == 0 {
        return RefillResult { available_bytes: available, last_refill_epoch_ms };
    }
    let sum: u64 = available.saturating_add(inflow);
    RefillResult {
        available_bytes: if sum <= max_burst {
            sum
        } else {
            max_burst
        },
        last_refill_epoch_ms: now_epoch_ms,
    }
}

pub fn can_afford(available: WalBytes, predicted: WalBytes) -> (r: bool)
    ensures
        r == (predicted <= available),
{
    predicted <= available
}

pub fn charge_available(available: WalBytes, predicted: WalBytes) -> (r: WalBytes)
    requires
        predicted <= available,
    ensures
        r == available - predicted,
{
    available - predicted
}

pub fn refund_available(available: WalBytes, max_burst: WalBytes, refund: WalBytes) -> (r: WalBytes)
    ensures
        r == types::smaller(types::sat_add(available as int, refund as int), max_burst),
{
    let sum: u64 = available.saturating_add(refund);
    if sum <= max_burst {
        sum
    } else {
        max_burst
    }
}

pub fn wait_ms_for_deficit(deficit: WalBytes, rate_per_sec: WalBytes) -> (r: PwbResult<EpochMillis>)
    ensures
        errors::same_result(r, wait_for(deficit, rate_per_sec)),
{
    if deficit == 0 {
        return Ok(0);
    }
    if rate_per_sec == 0 {
        return Err(internal_error("queue policy has zero WAL refill rate".to_owned()));
    }
    let numerator: u128 = deficit as u128 * 1000;
    let wait_ms: u128 = (numerator + rate_per_sec as u128 - 1) / rate_per_sec as u128;
    if wait_ms <= u64::MAX as u128 {
        Ok(wait_ms as u64)
    } else {
        Ok(u64::MAX)
    }
}

pub fn refresh_bucket_policy(bucket: &mut BudgetBucketState, policy: &EffectivePolicy)
    ensures
        *final(bucket) == under_policy(*old(bucket), *policy),
{
    bucket.max_burst_bytes = policy.wal_burst_bytes;
    bucket.rate_bytes_per_sec = policy.wal_rate_bytes_per_sec;
    if bucket.available_bytes > bucket.max_burst_bytes {
        bucket.available_bytes = bucket.max_burst_bytes;
    }
}

pub fn refresh_bucket(
    policy: &EffectivePolicy,
    now_epoch_ms: EpochMillis,
    bucket: &mut BudgetBucketState,
) -> (r: WalBytes)
    ensures
        *final(bucket) == refreshed(*policy, now_epoch_ms, *old(bucket)),
        r == final(bucket).available_bytes,
{
    refresh_bucket_policy(bucket, policy);
    let refilled = refill_available_bytes(
        bucket.available_bytes,
        bucket.max_burst_bytes,
        bucket.rate_bytes_per_sec,
        bucket.last_refill_epoch_ms,
        now_epoch_ms,
    );
    bucket.available_bytes = refilled.available_bytes;
    bucket.last_refill_epoch_ms = refilled.last_refill_epoch_ms;
    bucket.available_bytes
}

pub fn initial_bucket_state(
    policy: &EffectivePolicy,
    scope_hash: ScopeHash,
    now_epoch_ms: EpochMillis,
) -> (r: BudgetBucketState)
    ensures
        r == full_bucket(*policy, scope_hash, now_epoch_ms),
{
    BudgetBucketState {
        policy_id: policy.policy_id,
        scope_hash,
        available_bytes: policy.wal_burst_bytes,
        max_burst_bytes: policy.wal_burst_bytes,
        rate_bytes_per_sec: policy.wal_rate_bytes_per_sec,
        last_refill_epoch_ms: now_epoch_ms,
        debt_bytes: 0,
    }
}

pub fn non_charging_admission(policy_id: PolicyId, reason_code: ReasonCode) -> (r: AdmissionDecision)
    ensures
        r == uncharged_decision(policy_id, reason_code),
{
    AdmissionDecision::allowed(Some(policy_id), 0, reason_code)
}

pub fn budget_exceeded_error(
    policy_id: PolicyId,
    predicted_wal_bytes: WalBytes,
    available_wal_bytes: WalBytes,
) -> (r: PwbError)
    ensures
        r@ == exceeded(policy_id, predicted_wal_bytes, available_wal_bytes),
{
    PwbError::BudgetExceeded { policy_id, predicted_wal_bytes, available_wal_bytes }
}

pub fn admit_shadow_with_bucket(
    predicted_wal_bytes: WalBytes,
    policy: &EffectivePolicy,
    now_epoch_ms: EpochMillis,
    bucket: &mut BudgetBucketState,
) -> (r: AdmissionDecision)
    ensures
        r == shadow_outcome(predicted_wal_bytes, *policy, now_epoch_ms, *old(bucket)),
        *final(bucket) == refreshed(*policy, now_epoch_ms, *old(bucket)),
{
    let available_before: u64 = refresh_bucket(policy, now_epoch_ms, bucket);
    let decision = if can_afford(available_before, predicted_wal_bytes) {
        AdmissionDecision::allowed(Some(policy.policy_id), 0, ReasonCode::ShadowMode)
    } else {
        AdmissionDecision::would_reject(policy.policy_id, predicted_wal_bytes)
    };
    decision.with_availability(available_before, bucket.available_bytes)
}

pub fn admit_shadow_with_ephemeral_bucket(
    context: &AdmissionContext,
    policy: &EffectivePolicy,
    now_epoch_ms: EpochMillis,
) -> (r: AdmissionDecision)
    ensures
        r == shadow_outcome(
            context.predicted_wal_bytes,
            *policy,
            now_epoch_ms,
            full_bucket(*policy, context.scope.value_hash, now_epoch_ms),
        ),
{
    let mut bucket = initial_bucket_state(policy, context.scope.value_hash, now_epoch_ms);
    admit_shadow_with_bucket(context.predicted_wal_bytes, policy, now_epoch_ms, &mut bucket)
}

pub fn admit_reject_with_bucket(
    predicted_wal_bytes: WalBytes,
    policy: &EffectivePolicy,
    now_epoch_ms: EpochMillis,
    bucket: &mut BudgetBucketState,
) -> (r: PwbResult<AdmissionDecision>)
    ensures
        errors::same_result(
            r,
            reject_outcome(predicted_wal_bytes, *policy, now_epoch_ms, *old(bucket)),
        ),
        *final(bucket) == bucket_after_charge(
            predicted_wal_bytes,
            *policy,
            now_epoch_ms,
            *old(bucket),
        ),
{
    let available_before: u64 = refresh_bucket(policy, now_epoch_ms, bucket);
    if !can_afford(available_before, predicted_wal_bytes) {
        return Err(budget_exceeded_error(policy.policy_id, predicted_wal_bytes, available_before));
    }
    bucket.available_bytes = charge_available(available_before, predicted_wal_bytes);
    Ok(
        AdmissionDecision::allowed(
            Some(policy.policy_id),
            predicted_wal_bytes,
            ReasonCode::BudgetAvailable,
        ).with_availability(available_before, bucket.available_bytes),
    )
}

pub fn try_charge(
    policy_id: PolicyId,
    predicted_wal_bytes: WalBytes,
    available_before: WalBytes,
    bucket: &mut BudgetBucketState,
) -> (r: ChargeAttempt)
    ensures
        r@ == charge_outcome(
            policy_id,
            predicted_wal_bytes,
            available_before,
            old(bucket).rate_bytes_per_sec,
        ),
        *final(bucket) == if predicted_wal_bytes <= available_before {
            BudgetBucketState {
                available_bytes: (available_before - predicted_wal_bytes) as u64,
                ..*old(bucket)
            }
        } else {
            *old(bucket)
        },
{
    if !can_afford(available_before, predicted_wal_bytes) {
        let wait_ms: u64 = match wait_ms_for_deficit(
            predicted_wal_bytes - available_before,
            bucket.rate_bytes_per_sec,
        ) {
            Ok(wait_ms) => wait_ms,
            Err(error) => {
                return ChargeAttempt::Failed(error);
            },
        };
        return ChargeAttempt::WouldWait(
            QueueWait {
                policy_id,
                predicted_wal_bytes,
                available_wal_bytes: available_before,
                wait_ms,
            },
        );
    }
    bucket.available_bytes = charge_available(available_before, predicted_wal_bytes);
    ChargeAttempt::Admitted(
        AdmissionDecision::allowed(
            Some(policy_id),
            predicted_wal_bytes,
            ReasonCode::BudgetAvailable,
        ).with_availability(available_before, bucket.available_bytes),
    )
}

pub fn attempt_queue_charge(
    predicted_wal_bytes: WalBytes,
    policy: &EffectivePolicy,
    now_epoch_ms: EpochMillis,
    bucket: &mut BudgetBucketState,
) -> (r: ChargeAttempt)
    ensures
        r@ == queue_outcome(predicted_wal_bytes, *policy, now_epoch_ms, *old(bucket)),
        *final(bucket) == bucket_after_charge(
            predicted_wal_bytes,
            *policy,
            now_epoch_ms,
            *old(bucket),
        ),
{
    let available_before: u64 = refresh_bucket(policy, now_epoch_ms, bucket);
    try_charge(policy.policy_id, predicted_wal_bytes, available_before, bucket)
}

/// An attempt whose failure is an error.
pub open spec fn attempt_result(attempt: ChargeAttemptView) -> Result<
    ChargeAttemptView,
    PwbErrorView,
> {
    match attempt {
        ChargeAttemptView::Failed(error) => Err(error),
        _ => Ok(attempt),
    }
}

pub fn attempt_queue_charge_result(
    predicted_wal_bytes: WalBytes,
    policy: &EffectivePolicy,
    now_epoch_ms: EpochMillis,
    bucket: &mut BudgetBucketState,
) -> (r: PwbResult<ChargeAttempt>)
    ensures
        same_attempt(
            r,
            attempt_result(
                queue_outcome(predicted_wal_bytes, *policy, now_epoch_ms, *old(bucket)),
            ),
        ),
        *final(bucket) == bucket_after_charge(
            predicted_wal_bytes,
            *policy,
            now_epoch_ms,
            *old(bucket),
        ),
{
    match attempt_queue_charge(predicted_wal_bytes, policy, now_epoch_ms, bucket) {
        ChargeAttempt::Failed(error) => Err(error),
        attempt => Ok(attempt),
    }
}

/// The next step after an attempt: a statement is answered once an attempt was admitted or failed, and
/// one that is queued sleeps out its wait before the next attempt.
pub fn admit_queue_with_retry(attempt: PwbResult<ChargeAttempt>) -> (r: QueueStep)
    ensures
        r == match attempt {
            Err(error) => QueueStep::Return(Err(error)),
            Ok(ChargeAttempt::Admitted(decision)) => QueueStep::Return(Ok(decision)),
            Ok(ChargeAttempt::WouldWait(wait)) => QueueStep::Sleep(wait.wait_ms),
            Ok(ChargeAttempt::Failed(error)) => QueueStep::Return(Err(error)),
        },
{
    match attempt {
        Err(error) => QueueStep::Return(Err(error)),
        Ok(ChargeAttempt::Admitted(decision)) => QueueStep::Return(Ok(decision)),
        Ok(ChargeAttempt::WouldWait(wait)) => QueueStep::Sleep(wait.wait_ms),
        Ok(ChargeAttempt::Failed(error)) => QueueStep::Return(Err(error)),
    }
}

/// The bucket of a policy and scope value, or the full one that it would start with.
pub open spec fn bucket_or_full(
    region: RegionView,
    policy: EffectivePolicy,
    scope_hash: ScopeHash,
    now_epoch_ms: EpochMillis,
) -> BudgetBucketState {
    match region.bucket(policy.policy_id, scope_hash) {
        Some(bucket) => bucket,
        None => full_bucket(policy, scope_hash, now_epoch_ms),
    }
}

/// The region after an attempt to charge a statement to its bucket.
pub open spec fn region_after_charge(
    region: RegionView,
    predicted: WalBytes,
    policy: EffectivePolicy,
    scope_hash: ScopeHash,
    now_epoch_ms: EpochMillis,
) -> RegionView {
    region.with_bucket(
        policy.policy_id,
        scope_hash,
        bucket_after_charge(
            predicted,
            policy,
            now_epoch_ms,
            bucket_or_full(region, policy, scope_hash, now_epoch_ms),
        ),
    )
}

/// What shadow mode answers, and what it leaves behind: a bucket that is there is brought up to now,
/// nothing is charged, and no bucket is made.
pub open spec fn shadow_admission(
    memory: SharedMemoryView,
    predicted: WalBytes,
    policy: EffectivePolicy,
    scope_hash: ScopeHash,
    now_epoch_ms: EpochMillis,
) -> (Result<AdmissionDecision, PwbErrorView>, SharedMemoryView) {
    let full = full_bucket(policy, scope_hash, now_epoch_ms);
    if !(memory.lock_initialized && memory.region is Some && memory.region->0.compatible()) {
        (Ok(shadow_outcome(predicted, policy, now_epoch_ms, full)), memory)
    } else {
        match memory.access() {
            Err(error) => (Err(error), memory),
            Ok(region) => match region.bucket(policy.policy_id, scope_hash) {
                None => (Ok(shadow_outcome(predicted, policy, now_epoch_ms, full)), memory),
                Some(bucket) => (
                    Ok(shadow_outcome(predicted, policy, now_epoch_ms, bucket)),
                    memory.holding(
                        region.with_bucket(
                            policy.policy_id,
                            scope_hash,
                            refreshed(policy, now_epoch_ms, bucket),
                        ),
                    ),
                ),
            },
        }
    }
}

/// What reject mode answers, and what it leaves behind: a statement that fits is charged, one that
/// does not leaves everything as it was.
pub open spec fn reject_admission(
    memory: SharedMemoryView,
    predicted: WalBytes,
    policy: EffectivePolicy,
    scope_hash: ScopeHash,
    now_epoch_ms: EpochMillis,
) -> (Result<AdmissionDecision, PwbErrorView>, SharedMemoryView) {
    match memory.access() {
        Err(error) => (Err(error), memory),
        Ok(region) => if region.no_bucket_room(policy.policy_id, scope_hash) {
            (Err(budget_buckets::bucket_capacity_error()), memory)
        } else {
            let bucket = bucket_or_full(region, policy, scope_hash, now_epoch_ms);
            match reject_outcome(predicted, policy, now_epoch_ms, bucket) {
                Ok(decision) => (
                    Ok(decision),
                    memory.holding(
                        region_after_charge(region, predicted, policy, scope_hash, now_epoch_ms),
                    ),
                ),
                Err(error) => (Err(error), memory),
            }
        },
    }
}

/// What one attempt in queue mode answers, and what it leaves behind: a statement that fits is charged,
/// one that has to wait is not, and one that could never fit is refused at once.
pub open spec fn queue_admission(
    memory: SharedMemoryView,
    predicted: WalBytes,
    policy: EffectivePolicy,
    scope_hash: ScopeHash,
    now_epoch_ms: EpochMillis,
) -> (Result<ChargeAttemptView, PwbErrorView>, SharedMemoryView) {
    if predicted > policy.wal_burst_bytes {
        (Err(exceeded(policy.policy_id, predicted, policy.wal_burst_bytes)), memory)
    } else {
        match memory.access() {
            Err(error) => (Err(error), memory),
            Ok(region) => if region.no_bucket_room(policy.policy_id, scope_hash) {
                (Err(budget_buckets::bucket_capacity_error()), memory)
            } else {
                let bucket = bucket_or_full(region, policy, scope_hash, now_epoch_ms);
                match attempt_result(queue_outcome(predicted, policy, now_epoch_ms, bucket)) {
                    Ok(attempt) => (
                        Ok(attempt),
                        memory.holding(
                            region_after_charge(
                                region,
                                predicted,
                                policy,
                                scope_hash,
                                now_epoch_ms,
                            ),
                        ),
                    ),
                    Err(error) => (Err(error), memory),
                }
            },
        }
    }
}

/// A decision as an attempt that was admitted.
pub open spec fn admitted(
    outcome: (Result<AdmissionDecision, PwbErrorView>, SharedMemoryView),
) -> (Result<ChargeAttemptView, PwbErrorView>, SharedMemoryView) {
    (
        match outcome.0 {
            Ok(decision) => Ok(ChargeAttemptView::Admitted(decision)),
            Err(error) => Err(error),
        },
        outcome.1,
    )
}

/// What a policy answers to a statement, and what that leaves behind.
pub open spec fn admission(
    memory: SharedMemoryView,
    predicted: WalBytes,
    policy: EffectivePolicy,
    scope_hash: ScopeHash,
    now_epoch_ms: EpochMillis,
) -> (Result<ChargeAttemptView, PwbErrorView>, SharedMemoryView) {
    if !policy.enabled || policy.mode == BudgetMode::Off {
        admitted((Ok(uncharged_decision(policy.policy_id, ReasonCode::PolicyDisabled)), memory))
    } else {
        match policy.mode {
            BudgetMode::Off | BudgetMode::Observe => admitted(
                (Ok(uncharged_decision(policy.policy_id, ReasonCode::ObserveMode)), memory),
            ),
            BudgetMode::Shadow => admitted(
                shadow_admission(memory, predicted, policy, scope_hash, now_epoch_ms),
            ),
            BudgetMode::Reject => admitted(
                reject_admission(memory, predicted, policy, scope_hash, now_epoch_ms),
            ),
            BudgetMode::Queue => queue_admission(
                memory,
                predicted,
                policy,
                scope_hash,
                now_epoch_ms,
            ),
        }
    }
}

pub fn admit_shadow_statement(
    shmem: &mut SharedMemory,
    context: &AdmissionContext,
    policy: &EffectivePolicy,
    now_epoch_ms: EpochMillis,
) -> (r: PwbResult<AdmissionDecision>)
    requires
        old(shmem).wf(),
    ensures
        final(shmem).wf(),
        ({
            let (result, memory) = shadow_admission(
                old(shmem)@,
                context.predicted_wal_bytes,
                *policy,
                context.scope.value_hash,
                now_epoch_ms,
            );
            errors::same_result(r, result) && final(shmem)@ == memory
        }),
{
    if !shmem::is_available(shmem) {
        return Ok(admit_shadow_with_ephemeral_bucket(context, policy, now_epoch_ms));
    }
    let decide = |bucket: &mut BudgetBucketState| -> (r: PwbResult<AdmissionDecision>)
        ensures
            r == Ok::<AdmissionDecision, PwbError>(
                shadow_outcome(context.predicted_wal_bytes, *policy, now_epoch_ms, *old(bucket)),
            ),
            *final(bucket) == refreshed(*policy, now_epoch_ms, *old(bucket)),
    {
        Ok(
            admit_shadow_with_bucket(context.predicted_wal_bytes, policy, now_epoch_ms, bucket),
        )
    };
    match transactions::with_existing_budget_bucket(
        shmem,
        policy.policy_id,
        context.scope.value_hash,
        decide,
    )? {
        Some(decision) => Ok(decision),
        None => Ok(admit_shadow_with_ephemeral_bucket(context, policy, now_epoch_ms)),
    }
}

pub fn admit_reject_statement(
    shmem: &mut SharedMemory,
    context: &AdmissionContext,
    policy: &EffectivePolicy,
    now_epoch_ms: EpochMillis,
) -> (r: PwbResult<AdmissionDecision>)
    requires
        old(shmem).wf(),
    ensures
        final(shmem).wf(),
        ({
            let (result, memory) = reject_admission(
                old(shmem)@,
                context.predicted_wal_bytes,
                *policy,
                context.scope.value_hash,
                now_epoch_ms,
            );
            errors::same_result(r, result) && final(shmem)@ == memory
        }),
{
    let make = || -> (r: BudgetBucketState)
        ensures
            r == full_bucket(*policy, context.scope.value_hash, now_epoch_ms),
    { initial_bucket_state(policy, context.scope.value_hash, now_epoch_ms) };
    let charge = |bucket: &mut BudgetBucketState| -> (r: PwbResult<AdmissionDecision>)
        ensures
            errors::same_result(
                r,
                reject_outcome(context.predicted_wal_bytes, *policy, now_epoch_ms, *old(bucket)),
            ),
            *final(bucket) == bucket_after_charge(
                context.predicted_wal_bytes,
                *policy,
                now_epoch_ms,
                *old(bucket),
            ),
    { admit_reject_with_bucket(context.predicted_wal_bytes, policy, now_epoch_ms, bucket) };
    transactions::admit_with_budget_bucket(
        shmem,
        policy.policy_id,
        context.scope.value_hash,
        make,
        charge,
    )
}

pub fn admit_queue_statement(
    shmem: &mut SharedMemory,
    context: &AdmissionContext,
    policy: &EffectivePolicy,
    now_epoch_ms: EpochMillis,
) -> (r: PwbResult<ChargeAttempt>)
    requires
        old(shmem).wf(),
    ensures
        final(shmem).wf(),
        ({
            let (result, memory) = queue_admission(
                old(shmem)@,
                context.predicted_wal_bytes,
                *policy,
                context.scope.value_hash,
                now_epoch_ms,
            );
            same_attempt(r, result) && final(shmem)@ == memory
        }),
{
    if context.predicted_wal_bytes > policy.wal_burst_bytes {
        return Err(
            budget_exceeded_error(
                policy.policy_id,
                context.predicted_wal_bytes,
                policy.wal_burst_bytes,
            ),
        );
    }
    let make = || -> (r: BudgetBucketState)
        ensures
            r == full_bucket(*policy, context.scope.value_hash, now_epoch_ms),
    { initial_bucket_state(policy, context.scope.value_hash, now_epoch_ms) };
    let charge = |bucket: &mut BudgetBucketState| -> (r: PwbResult<ChargeAttempt>)
        ensures
            same_attempt(
                r,
                attempt_result(
                    queue_outcome(
                        context.predicted_wal_bytes,
                        *policy,
                        now_epoch_ms,
                        *old(bucket),
                    ),
                ),
            ),
            *final(bucket) == bucket_after_charge(
                context.predicted_wal_bytes,
                *policy,
                now_epoch_ms,
                *old(bucket),
            ),
    { attempt_queue_charge_result(context.predicted_wal_bytes, policy, now_epoch_ms, bucket) };
    transactions::admit_with_budget_bucket(
        shmem,
        policy.policy_id,
        context.scope.value_hash,
        make,
        charge,
    )
}

fn as_attempt(result: PwbResult<AdmissionDecision>) -> (r: PwbResult<ChargeAttempt>)
    ensures
        r == match result {
            Ok(decision) => Ok(ChargeAttempt::Admitted(decision)),
            Err(error) => Err(error),
        },
{
    match result {
        Ok(decision) => Ok(ChargeAttempt::Admitted(decision)),
        Err(error) => Err(error),
    }
}

/// Puts a statement to its policy. Only queue mode may answer that the statement has to wait; it is
/// then put to the policy again after the wait.
pub fn admit_statement(
    shmem: &mut SharedMemory,
    context: &AdmissionContext,
    policy: &EffectivePolicy,
    now_epoch_ms: EpochMillis,
) -> (r: PwbResult<ChargeAttempt>)
    requires
        old(shmem).wf(),
    ensures
        final(shmem).wf(),
        ({
            let (result, memory) = admission(
                old(shmem)@,
                context.predicted_wal_bytes,
                *policy,
                context.scope.value_hash,
                now_epoch_ms,
            );
            same_attempt(r, result) && final(shmem)@ == memory
        }),
        policy.mode != BudgetMode::Queue ==> !(r matches Ok(ChargeAttempt::WouldWait(_))),
        !(r matches Ok(ChargeAttempt::Failed(_))),
{
    if !policy.enabled || policy.mode == BudgetMode::Off {
        return as_attempt(
            Ok(non_charging_admission(policy.policy_id, ReasonCode::PolicyDisabled)),
        );
    }
    match policy.mode {
        BudgetMode::Off | BudgetMode::Observe => as_attempt(
            Ok(non_charging_admission(policy.policy_id, ReasonCode::ObserveMode)),
        ),
        BudgetMode::Shadow => as_attempt(
            admit_shadow_statement(shmem, context, policy, now_epoch_ms),
        ),
        BudgetMode::Reject => as_attempt(
            admit_reject_statement(shmem, context, policy, now_epoch_ms),
        ),
        BudgetMode::Queue => admit_queue_statement(shmem, context, policy, now_epoch_ms),
    }
}

pub fn refund_charged_bytes(
    shmem: &mut SharedMemory,
    policy_id: PolicyId,
    scope_hash: ScopeHash,
    bytes: WalBytes,
) -> (r: PwbResult<()>)
    requires
        old(shmem).wf(),
    ensures
        final(shmem).wf(),
        match old(shmem)@.access() {
            Err(error) => errors::fails_with(r, error) && final(shmem)@ == old(shmem)@,
            Ok(region) => {
                &&& r is Ok
                &&& final(shmem)@ == old(shmem)@.holding(
                    region.with_refund(policy_id, scope_hash, bytes),
                )
            },
        },
{
    let refund = |bucket: &mut BudgetBucketState| -> (r: PwbResult<()>)
        ensures
            r is Ok,
            *final(bucket) == transactions::refunded(*old(bucket), bytes),
    {
        bucket.available_bytes = refund_available(
            bucket.available_bytes,
            bucket.max_burst_bytes,
            bytes,
        );
        Ok(())
    };
    let _ = transactions::with_existing_budget_bucket(shmem, policy_id, scope_hash, refund)?;
    Ok(())
}

pub fn record_underprediction_debt(
    shmem: &mut SharedMemory,
    policy_id: PolicyId,
    scope_hash: ScopeHash,
    bytes: WalBytes,
) -> (r: PwbResult<()>)
    requires
        old(shmem).wf(),
    ensures
        final(shmem).wf(),
        match old(shmem)@.access() {
            Err(error) => errors::fails_with(r, error) && final(shmem)@ == old(shmem)@,
            Ok(region) => {
                &&& r is Ok
                &&& final(shmem)@ == old(shmem)@.holding(
                    region.with_debt(policy_id, scope_hash, bytes),
                )
            },
        },
{
    transactions::record_budget_debt(shmem, policy_id, scope_hash, bytes)
}

proof fn lemma_refill_monotone(rate: int, shorter: int, longer: int)
    requires
        0 <= rate,
        0 <= shorter <= longer,
    ensures
        0 <= refill(rate, shorter) <= refill(rate, longer),
        1000 * refill(rate, longer) <= rate * longer,
{
    assert(0 <= rate * shorter <= rate * longer) by (nonlinear_arith)
        requires
            0 <= rate,
            0 <= shorter <= longer,
    ;
}

/// Bringing a bucket up to now never lowers what it holds, never fills it above its burst, adds no
/// more than the rate allows for the time passed, and never moves its clock back.
pub proof fn law_refill_is_bounded(
    available: WalBytes,
    max_burst: WalBytes,
    rate_per_sec: WalBytes,
    last_refill_epoch_ms: EpochMillis,
    now_epoch_ms: EpochMillis,
)
    requires
        available <= max_burst,
    ensures
        ({
            let r = refilled(
                available,
                max_burst,
                rate_per_sec,
                last_refill_epoch_ms,
                now_epoch_ms,
            );
            &&& available <= r.available_bytes <= max_burst
            &&& last_refill_epoch_ms <= r.last_refill_epoch_ms
            &&& r.last_refill_epoch_ms == last_refill_epoch_ms || r.last_refill_epoch_ms
                == now_epoch_ms
            &&& 1000 * (r.available_bytes - available) <= rate_per_sec * (r.last_refill_epoch_ms
                - last_refill_epoch_ms)
        }),
{
    if now_epoch_ms > last_refill_epoch_ms {
        lemma_refill_monotone(rate_per_sec as int, 0, now_epoch_ms - last_refill_epoch_ms);
    }
    assert(rate_per_sec * (last_refill_epoch_ms - last_refill_epoch_ms) == 0) by (nonlinear_arith);
}

/// Bringing a bucket up to date more often never gains it anything.
pub proof fn law_refilling_more_often_gains_nothing(
    available: WalBytes,
    max_burst: WalBytes,
    rate_per_sec: WalBytes,
    last_refill_epoch_ms: EpochMillis,
    between_epoch_ms: EpochMillis,
    now_epoch_ms: EpochMillis,
)
    requires
        available <= max_burst,
        last_refill_epoch_ms <= between_epoch_ms <= now_epoch_ms,
    ensures
        ({
            let first = refilled(
                available,
                max_burst,
                rate_per_sec,
                last_refill_epoch_ms,
                between_epoch_ms,
            );
            let twice = refilled(
                first.available_bytes,
                max_burst,
                rate_per_sec,
                first.last_refill_epoch_ms,
                now_epoch_ms,
            );
            let once = refilled(
                available,
                max_burst,
                rate_per_sec,
                last_refill_epoch_ms,
                now_epoch_ms,
            );
            twice.available_bytes <= once.available_bytes
        }),
{
    let rate = rate_per_sec as int;
    let a = between_epoch_ms - last_refill_epoch_ms;
    let b = now_epoch_ms - between_epoch_ms;
    let x = rate * a;
    let y = rate * b;
    assert(rate * (a + b) == x + y && x >= 0 && y >= 0) by (nonlinear_arith)
        requires
            x == rate * a,
            y == rate * b,
            rate >= 0,
            a >= 0,
            b >= 0,
    ;
    assert(refill(rate, a) + refill(rate, b) <= refill(rate, a + b));
    assert(refill(rate, 0) == 0) by {
        assert(rate * 0 == 0) by (nonlinear_arith);
    }
}

/// A bucket holds no more than its burst after any of the operations on it.
pub proof fn law_bucket_stays_within_burst(
    bucket: BudgetBucketState,
    policy: EffectivePolicy,
    predicted: WalBytes,
    bytes: WalBytes,
    scope_hash: ScopeHash,
    now_epoch_ms: EpochMillis,
)
    ensures
        ({
            let full = full_bucket(policy, scope_hash, now_epoch_ms);
            full.available_bytes <= full.max_burst_bytes
        }),
        ({
            let after = refreshed(policy, now_epoch_ms, bucket);
            after.available_bytes <= after.max_burst_bytes == policy.wal_burst_bytes
        }),
        ({
            let after = bucket_after_charge(predicted, policy, now_epoch_ms, bucket);
            after.available_bytes <= after.max_burst_bytes == policy.wal_burst_bytes
        }),
        ({
            let after = transactions::refunded(bucket, bytes);
            after.available_bytes <= after.max_burst_bytes == bucket.max_burst_bytes
        }),
        ({
            let after = transactions::indebted(bucket, bytes);
            after.available_bytes == bucket.available_bytes && after.max_burst_bytes
                == bucket.max_burst_bytes
        }),
{
    let limited = under_policy(bucket, policy);
    law_refill_is_bounded(
        limited.available_bytes,
        limited.max_burst_bytes,
        limited.rate_bytes_per_sec,
        limited.last_refill_epoch_ms,
        now_epoch_ms,
    );
}

/// Giving a charge back in full restores what the bucket held before the charge.
pub proof fn law_refund_undoes_charge(
    bucket: BudgetBucketState,
    policy: EffectivePolicy,
    predicted: WalBytes,
    now_epoch_ms: EpochMillis,
)
    requires
        reject_outcome(predicted, policy, now_epoch_ms, bucket) is Ok,
    ensures
        transactions::refunded(
            bucket_after_charge(predicted, policy, now_epoch_ms, bucket),
            predicted,
        ) == refreshed(policy, now_epoch_ms, bucket),
{
    law_bucket_stays_within_burst(
        bucket,
        policy,
        predicted,
        predicted,
        bucket.scope_hash,
        now_epoch_ms,
    );
}

/// A charge takes exactly the prediction out of the bucket, and a refusal takes nothing.
pub proof fn law_charge_takes_prediction(
    bucket: BudgetBucketState,
    policy: EffectivePolicy,
    predicted: WalBytes,
    now_epoch_ms: EpochMillis,
)
    ensures
        ({
            let before = refreshed(policy, now_epoch_ms, bucket).available_bytes;
            let after = bucket_after_charge(predicted, policy, now_epoch_ms, bucket).available_bytes;
            match reject_outcome(predicted, policy, now_epoch_ms, bucket) {
                Ok(decision) => {
                    &&& decision.charged_bytes == predicted
                    &&& decision.available_before == before
                    &&& decision.available_after == after
                    &&& after + predicted == before
                },
                Err(error) => {
                    &&& error == exceeded(policy.policy_id, predicted, before)
                    &&& after == before
                    &&& before < predicted
                },
            }
        }),
{
}

/// Shadow mode announces a refusal exactly where reject mode refuses, with the same budget in view,
/// and takes nothing.
pub proof fn law_shadow_foretells_reject(
    bucket: BudgetBucketState,
    policy: EffectivePolicy,
    predicted: WalBytes,
    now_epoch_ms: EpochMillis,
)
    ensures
        ({
            let shadow = shadow_outcome(predicted, policy, now_epoch_ms, bucket);
            &&& shadow.available_after == shadow.available_before
            &&& match reject_outcome(predicted, policy, now_epoch_ms, bucket) {
                Ok(decision) => {
                    &&& shadow.kind == DecisionKind::Allowed
                    &&& shadow.charged_bytes == 0
                    &&& shadow.available_before == decision.available_before
                },
                Err(error) => {
                    &&& shadow.kind == DecisionKind::WouldReject
                    &&& error == exceeded(policy.policy_id, predicted, shadow.available_before)
                },
            }
        }),
{
}

/// Queue mode admits exactly what reject mode admits, with the same decision, and never refuses a
/// statement that reject mode lets through.
pub proof fn law_queue_admits_like_reject(
    bucket: BudgetBucketState,
    policy: EffectivePolicy,
    predicted: WalBytes,
    now_epoch_ms: EpochMillis,
)
    ensures
        match reject_outcome(predicted, policy, now_epoch_ms, bucket) {
            Ok(decision) => queue_outcome(predicted, policy, now_epoch_ms, bucket)
                == ChargeAttemptView::Admitted(decision),
            Err(_) => !(queue_outcome(predicted, policy, now_epoch_ms, bucket) is Admitted),
        },
{
}

proof fn lemma_wait_covers_deficit(deficit: int, rate: int, wait: int)
    requires
        deficit > 0,
        rate > 0,
        wait == exact_wait_ms(deficit, rate),
    ensures
        wait > 0,
        refill(rate, wait) >= deficit,
        refill(rate, wait - 1) < deficit,
{
    let n = deficit * 1000 + rate - 1;
    assert(wait * rate <= n < (wait + 1) * rate) by (nonlinear_arith)
        requires
            wait == n / rate,
            rate > 0,
    ;
    assert(rate * wait == wait * rate && rate * (wait - 1) == wait * rate - rate && (wait + 1) * rate
        == wait * rate + rate) by (nonlinear_arith);
    assert(wait > 0) by (nonlinear_arith)
        requires
            (wait + 1) * rate > n,
            n >= rate,
            rate > 0,
    ;
}

/// A statement that sleeps out its wait is admitted at its next attempt, provided that it fits into
/// the burst and nobody else used the budget meanwhile. Waits beyond the range of the clock aside.
pub proof fn law_waiting_is_enough(
    bucket: BudgetBucketState,
    policy: EffectivePolicy,
    predicted: WalBytes,
    now_epoch_ms: EpochMillis,
    later_epoch_ms: EpochMillis,
)
    requires
        predicted <= policy.wal_burst_bytes,
        bucket.last_refill_epoch_ms <= now_epoch_ms,
        queue_outcome(predicted, policy, now_epoch_ms, bucket) matches ChargeAttemptView::WouldWait(
            wait,
        ) && {
            &&& exact_wait_ms(
                predicted - wait.available_wal_bytes,
                policy.wal_rate_bytes_per_sec as int,
            ) <= u64::MAX
            &&& now_epoch_ms + wait.wait_ms <= later_epoch_ms
        },
    ensures
        queue_outcome(
            predicted,
            policy,
            later_epoch_ms,
            bucket_after_charge(predicted, policy, now_epoch_ms, bucket),
        ) is Admitted,
{
    let fresh = refreshed(policy, now_epoch_ms, bucket);
    let deficit = predicted - fresh.available_bytes;
    let rate = policy.wal_rate_bytes_per_sec as int;
    let wait = exact_wait_ms(deficit, rate);
    law_bucket_stays_within_burst(
        bucket,
        policy,
        predicted,
        0,
        bucket.scope_hash,
        now_epoch_ms,
    );
    lemma_wait_covers_deficit(deficit, rate, wait);
    lemma_refill_monotone(rate, wait, later_epoch_ms - fresh.last_refill_epoch_ms);
}

/// No statement is made to wait longer than needed: one millisecond before its wait is over, a bucket
/// that was refilled now still lacks budget.
pub proof fn law_wait_is_least(
    bucket: BudgetBucketState,
    policy: EffectivePolicy,
    predicted: WalBytes,
    now_epoch_ms: EpochMillis,
    earlier_epoch_ms: EpochMillis,
)
    requires
        refreshed(policy, now_epoch_ms, bucket).last_refill_epoch_ms == now_epoch_ms,
        queue_outcome(predicted, policy, now_epoch_ms, bucket) matches ChargeAttemptView::WouldWait(
            wait,
        ) && earlier_epoch_ms < now_epoch_ms + wait.wait_ms,
    ensures
        !(queue_outcome(
            predicted,
            policy,
            earlier_epoch_ms,
            bucket_after_charge(predicted, policy, now_epoch_ms, bucket),
        ) is Admitted),
{
    let fresh = refreshed(policy, now_epoch_ms, bucket);
    let deficit = predicted - fresh.available_bytes;
    let rate = policy.wal_rate_bytes_per_sec as int;
    let wait = exact_wait_ms(deficit, rate);
    law_bucket_stays_within_burst(
        bucket,
        policy,
        predicted,
        0,
        bucket.scope_hash,
        now_epoch_ms,
    );
    lemma_wait_covers_deficit(deficit, rate, wait);
    if earlier_epoch_ms > now_epoch_ms {
        lemma_refill_monotone(rate, earlier_epoch_ms - now_epoch_ms, wait - 1);
    }
}

/// A statement put to a policy: its predicted WAL and the time.
pub struct Arrival {
    pub predicted_wal_bytes: WalBytes,
    pub now_epoch_ms: EpochMillis,
}

/// A bucket after statements were put to a policy one after the other.
pub open spec fn bucket_after(
    policy: EffectivePolicy,
    bucket: BudgetBucketState,
    arrivals: Seq<Arrival>,
) -> BudgetBucketState
    decreases arrivals.len(),
{
    if arrivals.len() == 0 {
        bucket
    } else {
        bucket_after_charge(
            arrivals.last().predicted_wal_bytes,
            policy,
            arrivals.last().now_epoch_ms,
            bucket_after(policy, bucket, arrivals.drop_last()),
        )
    }
}

/// The WAL that was let through of statements that were put to a policy one after the other.
pub open spec fn total_charged(
    policy: EffectivePolicy,
    bucket: BudgetBucketState,
    arrivals: Seq<Arrival>,
) -> int
    decreases arrivals.len(),
{
    if arrivals.len() == 0 {
        0
    } else {
        let earlier = bucket_after(policy, bucket, arrivals.drop_last());
        total_charged(policy, bucket, arrivals.drop_last()) + match reject_outcome(
            arrivals.last().predicted_wal_bytes,
            policy,
            arrivals.last().now_epoch_ms,
            earlier,
        ) {
            Ok(decision) => decision.charged_bytes as int,
            Err(_) => 0,
        }
    }
}

/// Whatever arrives, in whatever order and at whatever times, with nothing refunded in between: the
/// predictions that a bucket is charged with come to no more than what it held, which is at most the
/// burst, plus what the rate allows for the time that has passed on its clock. That clock stays below
/// the latest time any statement arrived at.
pub proof fn law_admitted_wal_is_bounded(
    policy: EffectivePolicy,
    bucket: BudgetBucketState,
    arrivals: Seq<Arrival>,
    latest_epoch_ms: EpochMillis,
)
    requires
        bucket.available_bytes <= policy.wal_burst_bytes,
        bucket.last_refill_epoch_ms <= latest_epoch_ms,
        forall|i: int|
            0 <= i < arrivals.len() ==> (#[trigger] arrivals[i]).now_epoch_ms <= latest_epoch_ms,
    ensures
        ({
            let after = bucket_after(policy, bucket, arrivals);
            let total = total_charged(policy, bucket, arrivals);
            &&& bucket.last_refill_epoch_ms <= after.last_refill_epoch_ms <= latest_epoch_ms
            &&& after.available_bytes <= policy.wal_burst_bytes
            &&& 1000 * (total + after.available_bytes) <= 1000 * bucket.available_bytes
                + policy.wal_rate_bytes_per_sec * (after.last_refill_epoch_ms
                - bucket.last_refill_epoch_ms)
            &&& 1000 * total <= 1000 * policy.wal_burst_bytes + policy.wal_rate_bytes_per_sec * (
            latest_epoch_ms - bucket.last_refill_epoch_ms)
        }),
    decreases arrivals.len(),
{
    let rate = policy.wal_rate_bytes_per_sec as int;
    let start = bucket.last_refill_epoch_ms as int;
    if arrivals.len() == 0 {
        assert(rate * (start - start) == 0) by (nonlinear_arith);
    } else {
        let rest = arrivals.drop_last();
        assert forall|i: int| 0 <= i < rest.len() implies (#[trigger] rest[i]).now_epoch_ms
            <= latest_epoch_ms by {
            assert(rest[i] == arrivals[i]);
        }
        law_admitted_wal_is_bounded(policy, bucket, rest, latest_epoch_ms);
        let last = arrivals[arrivals.len() - 1];
        let earlier = bucket_after(policy, bucket, rest);
        let limited = under_policy(earlier, policy);
        law_refill_is_bounded(
            limited.available_bytes,
            limited.max_burst_bytes,
            limited.rate_bytes_per_sec,
            limited.last_refill_epoch_ms,
            last.now_epoch_ms,
        );
        let fresh = refreshed(policy, last.now_epoch_ms, earlier);
        let middle = earlier.last_refill_epoch_ms as int;
        let end = fresh.last_refill_epoch_ms as int;
        assert(rate * (end - middle) + rate * (middle - start) == rate * (end - start))
            by (nonlinear_arith);
    }
    let end = bucket_after(policy, bucket, arrivals).last_refill_epoch_ms as int;
    assert(rate * (end - start) <= rate * (latest_epoch_ms - start)) by (nonlinear_arith)
        requires
            rate >= 0,
            end <= latest_epoch_ms,
    ;
}

/// Whether no two buckets share a key and none holds more than its burst.
pub open spec fn budgets_wf(region: RegionView) -> bool {
    &&& budget_buckets::bucket_keys_differ(region.budget_buckets)
    &&& forall|i: int|
        0 <= i < region.budget_buckets.len() ==> (
        #[trigger] region.budget_buckets[i]).available_bytes
            <= region.budget_buckets[i].max_burst_bytes
}

proof fn lemma_stored_keeps_budgets(
    region: RegionView,
    policy_id: PolicyId,
    scope_hash: ScopeHash,
    bucket: BudgetBucketState,
)
    requires
        region.wf(),
        budgets_wf(region),
        !region.no_bucket_room(policy_id, scope_hash),
        bucket.policy_id == policy_id,
        bucket.scope_hash == scope_hash,
        bucket.available_bytes <= bucket.max_burst_bytes,
    ensures
        region.with_bucket(policy_id, scope_hash, bucket).wf(),
        budgets_wf(region.with_bucket(policy_id, scope_hash, bucket)),
        region.with_bucket(policy_id, scope_hash, bucket).bucket(policy_id, scope_hash) == Some(
            bucket,
        ),
{
    budget_buckets::law_stored_bucket_is_found(region.state, region.budget_buckets, bucket);
    let after = region.with_bucket(policy_id, scope_hash, bucket).budget_buckets;
    seqs::lemma_first_where(
        region.budget_buckets.take(region.state.budget_buckets_len as int),
        budget_buckets::holds_bucket(policy_id, scope_hash),
    );
    assert forall|i: int| 0 <= i < after.len() implies (#[trigger] after[i]).available_bytes
        <= after[i].max_burst_bytes by {
        assert(region.budget_buckets[i].available_bytes
            <= region.budget_buckets[i].max_burst_bytes);
    }
}

pub proof fn lemma_bucket_has_its_key(region: RegionView, policy_id: PolicyId, scope_hash: ScopeHash)
    requires
        region.wf(),
        budgets_wf(region),
    ensures
        region.bucket(policy_id, scope_hash) matches Some(bucket) ==> {
            &&& bucket.policy_id == policy_id
            &&& bucket.scope_hash == scope_hash
            &&& bucket.available_bytes <= bucket.max_burst_bytes
        },
{
    let prefix = region.budget_buckets.take(region.state.budget_buckets_len as int);
    let p = budget_buckets::holds_bucket(policy_id, scope_hash);
    seqs::lemma_first_where(prefix, p);
    if let Some(i) = budget_buckets::bucket_slot(
        region.state,
        region.budget_buckets,
        policy_id,
        scope_hash,
    ) {
        assert(p(prefix[i]));
        assert(region.budget_buckets[i].available_bytes
            <= region.budget_buckets[i].max_burst_bytes);
    }
}

/// Putting a statement to a policy, giving budget back and recording debt keep the buckets in order:
/// one bucket for a policy and scope value, and none above its burst.
pub proof fn law_budget_operations_keep_buckets_in_order(
    memory: SharedMemoryView,
    predicted: WalBytes,
    policy: EffectivePolicy,
    scope_hash: ScopeHash,
    now_epoch_ms: EpochMillis,
    bytes: WalBytes,
)
    requires
        memory.access() matches Ok(region) && region.wf() && budgets_wf(region),
    ensures
        admission(memory, predicted, policy, scope_hash, now_epoch_ms).1.access() matches Ok(region)
            && region.wf() && budgets_wf(region),
        memory.access() matches Ok(region) && {
            &&& budgets_wf(region.with_refund(policy.policy_id, scope_hash, bytes))
            &&& budgets_wf(region.with_debt(policy.policy_id, scope_hash, bytes))
        },
{
    let region = memory.access()->Ok_0;
    let id = policy.policy_id;
    lemma_bucket_has_its_key(region, id, scope_hash);
    let bucket = bucket_or_full(region, policy, scope_hash, now_epoch_ms);
    law_bucket_stays_within_burst(bucket, policy, predicted, bytes, scope_hash, now_epoch_ms);
    if !region.no_bucket_room(id, scope_hash) {
        lemma_stored_keeps_budgets(
            region,
            id,
            scope_hash,
            bucket_after_charge(predicted, policy, now_epoch_ms, bucket),
        );
        lemma_stored_keeps_budgets(
            region,
            id,
            scope_hash,
            refreshed(policy, now_epoch_ms, bucket),
        );
    }
    if let Some(found) = region.bucket(id, scope_hash) {
        lemma_stored_keeps_budgets(
            region,
            id,
            scope_hash,
            transactions::refunded(found, bytes),
        );
        lemma_stored_keeps_budgets(
            region,
            id,
            scope_hash,
            transactions::indebted(found, bytes),
        );
    }
}

/// A statement that is refused, or that has to wait, is not charged: its bucket holds afterwards what
/// it would hold without the statement.
pub proof fn law_refused_statement_is_not_charged(
    memory: SharedMemoryView,
    predicted: WalBytes,
    policy: EffectivePolicy,
    scope_hash: ScopeHash,
    now_epoch_ms: EpochMillis,
)
    requires
        memory.access() matches Ok(region) && region.wf() && budgets_wf(region),
    ensures
        ({
            let (result, after) = admission(memory, predicted, policy, scope_hash, now_epoch_ms);
            let region = memory.access()->Ok_0;
            match result {
                Err(_) => after == memory,
                Ok(ChargeAttemptView::WouldWait(_)) => {
                    &&& after.access() matches Ok(region2) && region2.bucket(
                        policy.policy_id,
                        scope_hash,
                    ) == Some(
                        refreshed(
                            policy,
                            now_epoch_ms,
                            bucket_or_full(region, policy, scope_hash, now_epoch_ms),
                        ),
                    )
                },
                _ => true,
            }
        }),
{
    let region = memory.access()->Ok_0;
    let bucket = bucket_or_full(region, policy, scope_hash, now_epoch_ms);
    lemma_bucket_has_its_key(region, policy.policy_id, scope_hash);
    law_bucket_stays_within_burst(bucket, policy, predicted, 0, scope_hash, now_epoch_ms);
    if !region.no_bucket_room(policy.policy_id, scope_hash) {
        lemma_stored_keeps_budgets(
            region,
            policy.policy_id,
            scope_hash,
            refreshed(policy, now_epoch_ms, bucket),
        );
    }
}

/// A bucket that is brought up to now stands under the limits of its policy: what it held, cut off at the
/// burst, grows by a thousandth of the rate for every whole millisecond that has passed, rounded down and
/// cut off at the burst. Its clock moves on exactly where that adds a byte; its debt and its key stay.
pub proof fn law_bucket_grows_by_the_rate(
    policy: EffectivePolicy,
    now_epoch_ms: EpochMillis,
    bucket: BudgetBucketState,
)
    ensures
        ({
            let after = refreshed(policy, now_epoch_ms, bucket);
            let start = if bucket.available_bytes <= policy.wal_burst_bytes {
                bucket.available_bytes as int
            } else {
                policy.wal_burst_bytes as int
            };
            let gained = if now_epoch_ms > bucket.last_refill_epoch_ms {
                policy.wal_rate_bytes_per_sec * (now_epoch_ms - bucket.last_refill_epoch_ms) / 1000
            } else {
                0
            };
            &&& start + gained <= policy.wal_burst_bytes ==> after.available_bytes == start + gained
            &&& start + gained > policy.wal_burst_bytes ==> after.available_bytes
                == policy.wal_burst_bytes
            &&& after.max_burst_bytes == policy.wal_burst_bytes
            &&& after.rate_bytes_per_sec == policy.wal_rate_bytes_per_sec
            &&& after.last_refill_epoch_ms == if gained > 0 {
                now_epoch_ms
            } else {
                bucket.last_refill_epoch_ms
            }
            &&& after.debt_bytes == bucket.debt_bytes
            &&& after.policy_id == bucket.policy_id
            &&& after.scope_hash == bucket.scope_hash
        }),
{
    if now_epoch_ms > bucket.last_refill_epoch_ms {
        lemma_refill_monotone(
            policy.wal_rate_bytes_per_sec as int,
            0,
            now_epoch_ms - bucket.last_refill_epoch_ms,
        );
    }
}

/// An enabled policy in reject mode lets a statement through exactly where its prediction is at most what
/// the bucket of the policy and scope value holds once brought up to now, or the burst where there is no
/// bucket yet. It then charges the prediction, no more and no less, and stores the bucket with that much
/// less in it. Otherwise it refuses the statement, always one above the burst, and changes nothing.
pub proof fn law_reject_charges_what_fits_and_refuses_the_rest(
    memory: SharedMemoryView,
    predicted: WalBytes,
    policy: EffectivePolicy,
    scope_hash: ScopeHash,
    now_epoch_ms: EpochMillis,
)
    requires
        memory.access() matches Ok(region) && region.wf() && budgets_wf(region)
            && !region.no_bucket_room(policy.policy_id, scope_hash),
        policy.enabled,
        policy.mode == BudgetMode::Reject,
    ensures
        ({
            let (result, after) = admission(memory, predicted, policy, scope_hash, now_epoch_ms);
            let burst = policy.wal_burst_bytes as int;
            let found = memory.access()->Ok_0.bucket(policy.policy_id, scope_hash);
            let held = match found {
                None => burst,
                Some(bucket) => {
                    let start = if bucket.available_bytes <= burst {
                        bucket.available_bytes as int
                    } else {
                        burst
                    };
                    let gained = if now_epoch_ms > bucket.last_refill_epoch_ms {
                        policy.wal_rate_bytes_per_sec * (now_epoch_ms
                            - bucket.last_refill_epoch_ms) / 1000
                    } else {
                        0
                    };
                    if start + gained <= burst {
                        start + gained
                    } else {
                        burst
                    }
                },
            };
            &&& held <= burst
            &&& predicted <= held ==> {
                &&& result matches Ok(ChargeAttemptView::Admitted(decision)) && {
                    &&& decision.kind == DecisionKind::Allowed
                    &&& decision.policy_id == Some(policy.policy_id)
                    &&& decision.charged_bytes == predicted
                    &&& decision.available_before == held
                    &&& decision.available_after == held - predicted
                    &&& decision.reason_code == ReasonCode::BudgetAvailable
                }
                &&& after.access() matches Ok(region2) && region2.bucket(
                    policy.policy_id,
                    scope_hash,
                ) matches Some(bucket2) && {
                    &&& bucket2.available_bytes == held - predicted
                    &&& bucket2.max_burst_bytes == burst
                    &&& bucket2.rate_bytes_per_sec == policy.wal_rate_bytes_per_sec
                    &&& found matches Some(bucket) ==> bucket2.debt_bytes == bucket.debt_bytes
                    &&& found is None ==> bucket2.debt_bytes == 0 && bucket2.last_refill_epoch_ms
                        == now_epoch_ms
                }
            }
            &&& predicted > held ==> {
                &&& result matches Err(
                    PwbErrorView::BudgetExceeded {
                        policy_id,
                        predicted_wal_bytes,
                        available_wal_bytes,
                    },
                ) && policy_id == policy.policy_id && predicted_wal_bytes == predicted
                    && available_wal_bytes == held
                &&& after == memory
            }
            &&& predicted > burst ==> result matches Err(PwbErrorView::BudgetExceeded { .. })
        }),
{
    let region = memory.access()->Ok_0;
    let bucket = bucket_or_full(region, policy, scope_hash, now_epoch_ms);
    lemma_bucket_has_its_key(region, policy.policy_id, scope_hash);
    law_bucket_stays_within_burst(bucket, policy, predicted, 0, scope_hash, now_epoch_ms);
    law_bucket_grows_by_the_rate(policy, now_epoch_ms, bucket);
    lemma_stored_keeps_budgets(
        region,
        policy.policy_id,
        scope_hash,
        bucket_after_charge(predicted, policy, now_epoch_ms, bucket),
    );
}

/// A policy that is disabled or off lets every statement through, uncharged and with that reason, as does
/// one that only observes; neither changes anything.
pub proof fn law_idle_policies_let_through(
    memory: SharedMemoryView,
    predicted: WalBytes,
    policy: EffectivePolicy,
    scope_hash: ScopeHash,
    now_epoch_ms: EpochMillis,
)
    requires
        !policy.enabled || policy.mode == BudgetMode::Off || policy.mode == BudgetMode::Observe,
    ensures
        ({
            let (result, after) = admission(memory, predicted, policy, scope_hash, now_epoch_ms);
            &&& after == memory
            &&& result matches Ok(ChargeAttemptView::Admitted(decision)) && {
                &&& decision.kind == DecisionKind::Allowed
                &&& decision.policy_id == Some(policy.policy_id)
                &&& decision.charged_bytes == 0
                &&& decision.available_before == 0 && decision.available_after == 0
                &&& decision.reason_code == if policy.enabled && policy.mode
                    == BudgetMode::Observe {
                    ReasonCode::ObserveMode
                } else {
                    ReasonCode::PolicyDisabled
                }
            }
        }),
{
}

/// Put to the same policy in queue mode instead of reject mode, a statement is admitted in the same cases,
/// with the same decision and the same change; above the burst it is refused at once; else, where reject
/// mode refuses it, it waits, or fails where the rate is zero.
pub proof fn law_queue_waits_where_reject_refuses(
    memory: SharedMemoryView,
    predicted: WalBytes,
    reject: EffectivePolicy,
    queue: EffectivePolicy,
    scope_hash: ScopeHash,
    now_epoch_ms: EpochMillis,
)
    requires
        memory.access() matches Ok(region) && region.wf() && budgets_wf(region)
            && !region.no_bucket_room(reject.policy_id, scope_hash),
        reject.enabled,
        reject.mode == BudgetMode::Reject,
        queue == (EffectivePolicy { mode: BudgetMode::Queue, ..reject }),
    ensures
        ({
            let (refused, kept) = admission(memory, predicted, reject, scope_hash, now_epoch_ms);
            let (queued, after) = admission(memory, predicted, queue, scope_hash, now_epoch_ms);
            match refused {
                Ok(decision) => queued == refused && after == kept,
                Err(_) => if predicted > queue.wal_burst_bytes {
                    &&& queued matches Err(
                        PwbErrorView::BudgetExceeded {
                            policy_id,
                            predicted_wal_bytes,
                            available_wal_bytes,
                        },
                    ) && policy_id == queue.policy_id && predicted_wal_bytes == predicted
                        && available_wal_bytes == queue.wal_burst_bytes
                    &&& after == memory
                } else if queue.wal_rate_bytes_per_sec == 0 {
                    queued matches Err(PwbErrorView::Internal { .. }) && after == memory
                } else {
                    queued matches Ok(ChargeAttemptView::WouldWait(wait)) && {
                        let deficit = predicted - wait.available_wal_bytes;
                        &&& wait.policy_id == queue.policy_id
                        &&& wait.predicted_wal_bytes == predicted
                        &&& refused == Err::<ChargeAttemptView, PwbErrorView>(
                            PwbErrorView::BudgetExceeded {
                                policy_id: queue.policy_id,
                                predicted_wal_bytes: predicted,
                                available_wal_bytes: wait.available_wal_bytes,
                            },
                        )
                        &&& deficit > 0
                        &&& wait.wait_ms == u64::MAX || queue.wal_rate_bytes_per_sec * wait.wait_ms
                            >= 1000 * deficit
                        &&& queue.wal_rate_bytes_per_sec * (wait.wait_ms - 1) < 1000 * deficit
                    }
                },
            }
        }),
{
    let region = memory.access()->Ok_0;
    law_reject_charges_what_fits_and_refuses_the_rest(
        memory,
        predicted,
        reject,
        scope_hash,
        now_epoch_ms,
    );
    let bucket = bucket_or_full(region, reject, scope_hash, now_epoch_ms);
    assert(bucket_or_full(region, queue, scope_hash, now_epoch_ms) == bucket);
    let available = refreshed(reject, now_epoch_ms, bucket).available_bytes;
    assert(refreshed(queue, now_epoch_ms, bucket) == refreshed(reject, now_epoch_ms, bucket));
    if predicted > available && queue.wal_rate_bytes_per_sec > 0 {
        let deficit = predicted - available;
        let rate = queue.wal_rate_bytes_per_sec as int;
        let wait = exact_wait_ms(deficit, rate);
        lemma_wait_covers_deficit(deficit, rate, wait);
        assert(rate * (wait - 1) < 1000 * deficit <= rate * wait);
        if wait > u64::MAX {
            assert(rate * (u64::MAX - 1) <= rate * (wait - 1)) by (nonlinear_arith)
                requires
                    u64::MAX <= wait,
                    rate > 0,
            ;
        }
    }
}

/// Put to the same policy in shadow mode instead of reject mode, a statement is always let through: it is
/// marked as one that would be refused exactly where reject mode refuses it, with the same budget in
/// view, and nothing is taken out of the bucket, nor is a bucket made.
pub proof fn law_shadow_only_marks_what_reject_refuses(
    memory: SharedMemoryView,
    predicted: WalBytes,
    reject: EffectivePolicy,
    shadow: EffectivePolicy,
    scope_hash: ScopeHash,
    now_epoch_ms: EpochMillis,
)
    requires
        memory.access() matches Ok(region) && region.wf() && budgets_wf(region)
            && !region.no_bucket_room(reject.policy_id, scope_hash),
        reject.enabled,
        reject.mode == BudgetMode::Reject,
        shadow == (EffectivePolicy { mode: BudgetMode::Shadow, ..reject }),
    ensures
        ({
            let (refused, _) = admission(memory, predicted, reject, scope_hash, now_epoch_ms);
            let (marked, after) = admission(memory, predicted, shadow, scope_hash, now_epoch_ms);
            let region = memory.access()->Ok_0;
            &&& marked matches Ok(ChargeAttemptView::Admitted(decision)) && {
                &&& decision.policy_id == Some(shadow.policy_id)
                &&& decision.available_after == decision.available_before
                &&& match refused {
                    Ok(attempt) => {
                        &&& decision.kind == DecisionKind::Allowed
                        &&& decision.charged_bytes == 0
                        &&& decision.reason_code == ReasonCode::ShadowMode
                        &&& attempt matches ChargeAttemptView::Admitted(charged)
                            && charged.available_before == decision.available_before
                    },
                    Err(error) => {
                        &&& decision.kind == DecisionKind::WouldReject
                        &&& decision.charged_bytes == predicted
                        &&& decision.reason_code == ReasonCode::BudgetExceeded
                        &&& error == (PwbErrorView::BudgetExceeded {
                            policy_id: shadow.policy_id,
                            predicted_wal_bytes: predicted,
                            available_wal_bytes: decision.available_before,
                        })
                    },
                }
                &&& after.access() matches Ok(region2) && match region.bucket(
                    shadow.policy_id,
                    scope_hash,
                ) {
                    None => after == memory,
                    Some(_) => region2.bucket(shadow.policy_id, scope_hash) matches Some(bucket2)
                        && bucket2.available_bytes == decision.available_before
                        && region2.state.budget_buckets_len == region.state.budget_buckets_len,
                }
            }
        }),
{
    let region = memory.access()->Ok_0;
    let bucket = bucket_or_full(region, reject, scope_hash, now_epoch_ms);
    assert(bucket_or_full(region, shadow, scope_hash, now_epoch_ms) == bucket);
    assert(refreshed(shadow, now_epoch_ms, bucket) == refreshed(reject, now_epoch_ms, bucket));
    law_reject_charges_what_fits_and_refuses_the_rest(
        memory,
        predicted,
        reject,
        scope_hash,
        now_epoch_ms,
    );
    lemma_bucket_has_its_key(region, reject.policy_id, scope_hash);
    law_bucket_stays_within_burst(bucket, reject, predicted, 0, scope_hash, now_epoch_ms);
    lemma_stored_keeps_budgets(
        region,
        reject.policy_id,
        scope_hash,
        refreshed(shadow, now_epoch_ms, bucket),
    );
}

/// Without a region that can be used, or without room for a bucket, an enabled policy in reject mode fails
/// and one in queue mode does so too for what fits the burst. Shadow mode then still answers, as for a
/// full bucket.
pub proof fn law_no_bucket_no_admission(
    memory: SharedMemoryView,
    predicted: WalBytes,
    policy: EffectivePolicy,
    scope_hash: ScopeHash,
    now_epoch_ms: EpochMillis,
)
    requires
        policy.enabled,
        memory.access() matches Ok(region) ==> region.no_bucket_room(policy.policy_id, scope_hash),
    ensures
        ({
            let (result, after) = admission(memory, predicted, policy, scope_hash, now_epoch_ms);
            &&& after == memory
            &&& policy.mode == BudgetMode::Reject ==> result is Err && !(result matches Err(
                PwbErrorView::BudgetExceeded { .. },
            ))
            &&& policy.mode == BudgetMode::Queue ==> result is Err && (result matches Err(
                PwbErrorView::BudgetExceeded { .. },
            ) <==> predicted > policy.wal_burst_bytes)
            &&& policy.mode == BudgetMode::Shadow && memory.access() is Ok ==> (result matches Ok(
                ChargeAttemptView::Admitted(decision),
            ) && decision.available_before == policy.wal_burst_bytes && (decision.kind
                == DecisionKind::WouldReject <==> predicted > policy.wal_burst_bytes))
        }),
{
    let full = full_bucket(policy, scope_hash, now_epoch_ms);
    law_bucket_grows_by_the_rate(policy, now_epoch_ms, full);
}

} // verus!
