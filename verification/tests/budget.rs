use pg_wal_budget::budget::{
    ChargeAttempt, EffectivePolicy, QueueStep, QueueWait, admit_queue_statement,
    admit_queue_with_retry, admit_reject_with_bucket, admit_shadow_with_bucket,
    admit_shadow_with_ephemeral_bucket, attempt_queue_charge, attempt_queue_charge_result,
    budget_exceeded_error, can_afford, charge_available, non_charging_admission,
    refill_available_bytes, refresh_bucket, refresh_bucket_policy, refund_available, try_charge,
    wait_ms_for_deficit,
};
use pg_wal_budget::errors::{PwbError, PwbResult};
use pg_wal_budget::shmem::SharedMemory;
use pg_wal_budget::shmem::records::BudgetBucketState;
use pg_wal_budget::types::{
    AdmissionContext, AdmissionDecision, BudgetMode, PolicyId, ReasonCode, ScopeHash, ScopeKey,
    ScopeKind, StatementClass, WalBytes,
};

const POLICY_ID: PolicyId = 7;
const SCOPE_HASH: ScopeHash = 99;

fn policy(mode: BudgetMode) -> EffectivePolicy {
    EffectivePolicy {
        policy_id: POLICY_ID,
        enabled: true,
        mode,
        wal_rate_bytes_per_sec: 1000,
        wal_burst_bytes: 5000,
    }
}

fn context(predicted_wal_bytes: WalBytes) -> AdmissionContext {
    AdmissionContext {
        query_id: None,
        scope: ScopeKey {
            kind: ScopeKind::Tenant,
            value_hash: SCOPE_HASH,
            debug_value: None,
        },
        statement_class: StatementClass::Write,
        predicted_wal_bytes,
    }
}

fn bucket(available_bytes: WalBytes) -> BudgetBucketState {
    BudgetBucketState {
        policy_id: POLICY_ID,
        scope_hash: SCOPE_HASH,
        available_bytes,
        max_burst_bytes: 5000,
        rate_bytes_per_sec: 1000,
        last_refill_epoch_ms: 1000,
        debt_bytes: 0,
    }
}

#[test]
fn refill_adds_elapsed_rate_bytes() {
    let result = refill_available_bytes(0, 10_000, 1000, 1000, 3000);

    assert_eq!(result.available_bytes, 2000);
    assert_eq!(result.last_refill_epoch_ms, 3000);
}

#[test]
fn refill_clamps_to_burst() {
    let result = refill_available_bytes(4900, 5000, 1000, 1000, 3000);

    assert_eq!(result.available_bytes, 5000);
    assert_eq!(result.last_refill_epoch_ms, 3000);
}

#[test]
fn refill_ignores_non_monotonic_time() {
    let result = refill_available_bytes(100, 5000, 1000, 3000, 1000);

    assert_eq!(result.available_bytes, 100);
    assert_eq!(result.last_refill_epoch_ms, 3000);
}

#[test]
fn refill_preserves_timestamp_when_fractional_refill_is_zero() {
    let result = refill_available_bytes(100, 5000, 1, 1000, 1500);

    assert_eq!(result.available_bytes, 100);
    assert_eq!(result.last_refill_epoch_ms, 1000);
}

#[test]
fn saturating_refill_does_not_overflow() {
    let result =
        refill_available_bytes(WalBytes::MAX - 1, WalBytes::MAX, WalBytes::MAX, 0, 2000);

    assert_eq!(result.available_bytes, WalBytes::MAX);
    assert_eq!(result.last_refill_epoch_ms, 2000);
}

#[test]
fn charge_subtracts_when_affordable() {
    assert!(can_afford(1000, 400));
    assert_eq!(charge_available(1000, 400), 600);
}

#[test]
fn refund_clamps_to_burst() {
    assert_eq!(refund_available(4500, 5000, 1000), 5000);
}

#[test]
fn disabled_policy_allows_without_charge() {
    let admission = non_charging_admission(POLICY_ID, ReasonCode::PolicyDisabled);

    assert_eq!(
        admission,
        AdmissionDecision::allowed(Some(POLICY_ID), 0, ReasonCode::PolicyDisabled)
    );
}

#[test]
fn budget_exceeded_error_preserves_payload() {
    assert_eq!(
        budget_exceeded_error(POLICY_ID, 2000, 1000),
        PwbError::BudgetExceeded {
            policy_id: POLICY_ID,
            predicted_wal_bytes: 2000,
            available_wal_bytes: 1000,
        }
    );
}

#[test]
fn shadow_under_budget_allows_without_decrementing() {
    let mut bucket = bucket(3000);
    let admission =
        admit_shadow_with_bucket(2000, &policy(BudgetMode::Shadow), 1000, &mut bucket);

    assert_eq!(
        admission,
        AdmissionDecision::allowed(Some(POLICY_ID), 0, ReasonCode::ShadowMode)
            .with_availability(3000, 3000)
    );
    assert_eq!(bucket.available_bytes, 3000);
}

#[test]
fn shadow_over_budget_would_reject_without_decrementing() {
    let mut bucket = bucket(1000);
    let admission =
        admit_shadow_with_bucket(2000, &policy(BudgetMode::Shadow), 1000, &mut bucket);

    assert_eq!(
        admission,
        AdmissionDecision::would_reject(POLICY_ID, 2000).with_availability(1000, 1000)
    );
    assert_eq!(bucket.available_bytes, 1000);
}

#[test]
fn shadow_ephemeral_bucket_uses_full_burst_without_decrementing() {
    let admission =
        admit_shadow_with_ephemeral_bucket(&context(6000), &policy(BudgetMode::Shadow), 1000);

    assert_eq!(
        admission,
        AdmissionDecision::would_reject(POLICY_ID, 6000).with_availability(5000, 5000)
    );
    assert_eq!(admission.available_before, 5000);
    assert_eq!(admission.available_after, 5000);
}

#[test]
fn policy_refresh_clamps_available_to_new_burst() {
    let mut bucket = bucket(5000);
    let mut policy = policy(BudgetMode::Reject);
    policy.wal_burst_bytes = 2000;
    policy.wal_rate_bytes_per_sec = 250;

    refresh_bucket_policy(&mut bucket, &policy);

    assert_eq!(bucket.available_bytes, 2000);
    assert_eq!(bucket.max_burst_bytes, 2000);
    assert_eq!(bucket.rate_bytes_per_sec, 250);
}

#[test]
fn refresh_bucket_returns_available_after_policy_and_refill_before_charge() {
    let mut bucket = bucket(1000);
    let mut policy = policy(BudgetMode::Reject);
    policy.wal_rate_bytes_per_sec = 2000;

    let available_before = refresh_bucket(&policy, 2000, &mut bucket);

    assert_eq!(available_before, 3000);
    assert_eq!(bucket.available_bytes, 3000);
    assert_eq!(bucket.last_refill_epoch_ms, 2000);
}

#[test]
fn reject_under_budget_charges_prediction() {
    let mut bucket = bucket(3000);
    let admission =
        admit_reject_with_bucket(2000, &policy(BudgetMode::Reject), 1000, &mut bucket)
            .unwrap_or_else(|error| panic!("{error:?}"));

    assert_eq!(
        admission,
        AdmissionDecision::allowed(Some(POLICY_ID), 2000, ReasonCode::BudgetAvailable)
            .with_availability(3000, 1000)
    );
    assert_eq!(bucket.available_bytes, 1000);
    assert_eq!(admission.available_before, 3000);
    assert_eq!(admission.available_after, 1000);
}

#[test]
fn reject_over_budget_returns_error_without_decrementing() {
    let mut bucket = bucket(1000);
    let error =
        match admit_reject_with_bucket(2000, &policy(BudgetMode::Reject), 1000, &mut bucket) {
            Ok(admission) => panic!("expected budget exceeded, got {admission:?}"),
            Err(error) => error,
        };

    assert_eq!(
        error,
        PwbError::BudgetExceeded {
            policy_id: POLICY_ID,
            predicted_wal_bytes: 2000,
            available_wal_bytes: 1000,
        }
    );
    assert_eq!(bucket.available_bytes, 1000);
}

#[test]
fn queue_under_budget_charges_prediction() {
    let mut bucket = bucket(3000);
    let attempt = attempt_queue_charge(2000, &policy(BudgetMode::Queue), 1000, &mut bucket);

    assert_eq!(
        attempt,
        ChargeAttempt::Admitted(
            AdmissionDecision::allowed(Some(POLICY_ID), 2000, ReasonCode::BudgetAvailable)
                .with_availability(3000, 1000)
        )
    );
    assert_eq!(bucket.available_bytes, 1000);
}

#[test]
fn queue_over_budget_reports_wait_without_decrementing() {
    let mut bucket = bucket(1000);
    let attempt = attempt_queue_charge(2000, &policy(BudgetMode::Queue), 1000, &mut bucket);

    assert_eq!(
        attempt,
        ChargeAttempt::WouldWait(QueueWait {
            policy_id: POLICY_ID,
            predicted_wal_bytes: 2000,
            available_wal_bytes: 1000,
            wait_ms: 1000,
        })
    );
    assert_eq!(bucket.available_bytes, 1000);
}

#[test]
fn try_charge_admits_and_decrements_available() {
    let mut bucket = bucket(3000);
    let attempt = try_charge(POLICY_ID, 2000, 3000, &mut bucket);

    assert_eq!(
        attempt,
        ChargeAttempt::Admitted(
            AdmissionDecision::allowed(Some(POLICY_ID), 2000, ReasonCode::BudgetAvailable)
                .with_availability(3000, 1000)
        )
    );
    assert_eq!(bucket.available_bytes, 1000);
}

#[test]
fn try_charge_reports_wait_without_decrementing() {
    let mut bucket = bucket(1000);
    let attempt = try_charge(POLICY_ID, 2000, 1000, &mut bucket);

    assert_eq!(
        attempt,
        ChargeAttempt::WouldWait(QueueWait {
            policy_id: POLICY_ID,
            predicted_wal_bytes: 2000,
            available_wal_bytes: 1000,
            wait_ms: 1000,
        })
    );
    assert_eq!(bucket.available_bytes, 1000);
}

#[test]
fn try_charge_reports_failed_on_zero_rate_deficit() {
    let mut bucket = bucket(1000);
    bucket.rate_bytes_per_sec = 0;
    let attempt = try_charge(POLICY_ID, 2000, 1000, &mut bucket);

    assert!(matches!(
        attempt,
        ChargeAttempt::Failed(PwbError::Internal { .. })
    ));
    assert_eq!(bucket.available_bytes, 1000);
}

#[test]
fn queue_charge_result_returns_error_for_failed_attempt() {
    let mut bucket = bucket(1000);
    let mut policy = policy(BudgetMode::Queue);
    policy.wal_rate_bytes_per_sec = 0;

    let error = match attempt_queue_charge_result(2000, &policy, 1000, &mut bucket) {
        Ok(attempt) => panic!("expected error, got {attempt:?}"),
        Err(error) => error,
    };

    assert!(matches!(error, PwbError::Internal { .. }));
    assert_eq!(bucket.available_bytes, 1000);
}

/// Repeats the attempt for as long as the library asks for a sleep.
fn run_queue<A, S, N>(
    started_epoch_ms: u64,
    mut attempt: A,
    mut sleep: S,
    now: N,
) -> PwbResult<AdmissionDecision>
where
    A: FnMut(u64) -> PwbResult<ChargeAttempt>,
    S: FnMut(u64),
    N: Fn() -> u64,
{
    let mut now_epoch_ms = started_epoch_ms;
    loop {
        match admit_queue_with_retry(attempt(now_epoch_ms)) {
            QueueStep::Return(result) => return result,
            QueueStep::Sleep(wait_ms) => {
                sleep(wait_ms);
                now_epoch_ms = now();
            }
        }
    }
}

#[test]
fn queue_wait_retry_eventually_charges_after_sleep_and_time_advance() {
    let mut attempt_timestamps = Vec::new();
    let mut sleep_calls = Vec::new();
    let mut attempt_count = 0;

    let admission = run_queue(
        1000,
        |now_epoch_ms| {
            attempt_count += 1;
            attempt_timestamps.push(now_epoch_ms);

            if attempt_count == 1 {
                Ok(ChargeAttempt::WouldWait(QueueWait {
                    policy_id: POLICY_ID,
                    predicted_wal_bytes: 2000,
                    available_wal_bytes: 1000,
                    wait_ms: 1000,
                }))
            } else {
                Ok(ChargeAttempt::Admitted(
                    AdmissionDecision::allowed(
                        Some(POLICY_ID),
                        2000,
                        ReasonCode::BudgetAvailable,
                    )
                    .with_availability(2000, 0),
                ))
            }
        },
        |wait_ms| sleep_calls.push(wait_ms),
        || 2000,
    )
    .unwrap_or_else(|error| panic!("{error:?}"));

    assert_eq!(
        admission,
        AdmissionDecision::allowed(Some(POLICY_ID), 2000, ReasonCode::BudgetAvailable)
            .with_availability(2000, 0)
    );
    assert_eq!(attempt_timestamps, vec![1000, 2000]);
    assert_eq!(sleep_calls, vec![1000]);
    assert_eq!(attempt_count, 2);
}

#[test]
fn queue_retry_returns_failed_attempt_error() {
    let error = match run_queue(
        1000,
        |_| {
            Ok(ChargeAttempt::Failed(PwbError::Internal {
                message: "queue policy has zero WAL refill rate".to_string(),
            }))
        },
        |_| panic!("failed attempts should not sleep"),
        || 2000,
    ) {
        Ok(admission) => panic!("expected error, got {admission:?}"),
        Err(error) => error,
    };

    assert!(matches!(error, PwbError::Internal { .. }));
}

#[test]
fn queue_rejects_predictions_that_exceed_burst_before_bucket_access() {
    let error = match admit_queue_statement(
        &mut SharedMemory::unavailable(),
        &context(6000),
        &policy(BudgetMode::Queue),
        1000,
    ) {
        Ok(admission) => panic!("expected budget exceeded, got {admission:?}"),
        Err(error) => error,
    };

    assert_eq!(
        error,
        PwbError::BudgetExceeded {
            policy_id: POLICY_ID,
            predicted_wal_bytes: 6000,
            available_wal_bytes: 5000,
        }
    );
}

#[test]
fn wait_ms_for_deficit_rounds_up_fractional_milliseconds() {
    let wait_ms = wait_ms_for_deficit(1, 3).unwrap_or_else(|error| panic!("{error:?}"));

    assert_eq!(wait_ms, 334);
}

#[test]
fn wait_ms_for_deficit_rejects_zero_rate() {
    let error = match wait_ms_for_deficit(1, 0) {
        Ok(wait_ms) => panic!("expected error, got {wait_ms}"),
        Err(error) => error,
    };

    assert!(matches!(error, PwbError::Internal { .. }));
}
