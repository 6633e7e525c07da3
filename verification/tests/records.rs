use pg_wal_budget::shmem::records::{
    BudgetBucketState, PwbBudgetBucket, PwbProfileEntry, PwbQueryWalProfile, PwbRecentDecision,
    RecentDecisionRecord,
};
use pg_wal_budget::types::{
    DecisionKind, EpochMillis, QueryWalProfile, ReasonCode, ScopeKind, StatementClass, WalBytes,
};

const UNSET_ENUM: u8 = 0;

#[test]
fn records_encodes_and_decodes_recent_decision() {
    let record = RecentDecisionRecord {
        timestamp_epoch_ms: 123,
        decision_kind: DecisionKind::WouldReject,
        policy_id: Some(7),
        scope_kind: ScopeKind::Tenant,
        scope_hash: 99,
        query_id: Some(42),
        statement_class: StatementClass::Write,
        predicted_wal_bytes: 2048,
        actual_wal_bytes: Some(1024),
        available_before: 4096,
        available_after: 2048,
        reason_code: ReasonCode::BudgetExceeded,
    };

    let encoded = PwbRecentDecision::encode(record);
    let decoded = encoded.decode().unwrap_or_else(|error| panic!("{error:?}"));

    assert_eq!(decoded, record);
}

#[test]
fn records_encodes_and_decodes_budget_bucket() {
    let bucket = BudgetBucketState {
        policy_id: 7,
        scope_hash: 99,
        available_bytes: 1024,
        max_burst_bytes: 4096,
        rate_bytes_per_sec: 512,
        last_refill_epoch_ms: 123,
        debt_bytes: 64,
    };

    let encoded = PwbBudgetBucket::encode(bucket);
    let decoded = encoded.decode().unwrap_or_else(|error| panic!("{error:?}"));

    assert_eq!(decoded, bucket);
}

#[test]
fn records_encodes_and_decodes_scoped_and_global_profiles() {
    let scoped =
        PwbProfileEntry::encode(Some(99), 42, PwbQueryWalProfile::from(profile(100, 1)));
    let global = PwbProfileEntry::encode(None, 42, PwbQueryWalProfile::from(profile(200, 2)));

    let decoded_scoped = scoped.decode().unwrap_or_else(|error| panic!("{error:?}"));
    let decoded_global = global.decode().unwrap_or_else(|error| panic!("{error:?}"));

    assert_eq!(decoded_scoped.scope_hash, Some(99));
    assert_eq!(decoded_scoped.query_id, 42);
    assert_eq!(decoded_scoped.profile.ewma_wal_bytes, 100);
    assert_eq!(decoded_global.scope_hash, None);
    assert_eq!(decoded_global.query_id, 42);
    assert_eq!(decoded_global.profile.ewma_wal_bytes, 200);
}

#[test]
fn records_rejects_invalid_enum_decode() {
    let mut encoded = PwbRecentDecision::encode(RecentDecisionRecord {
        timestamp_epoch_ms: 123,
        decision_kind: DecisionKind::Allowed,
        policy_id: None,
        scope_kind: ScopeKind::Database,
        scope_hash: 99,
        query_id: None,
        statement_class: StatementClass::ReadOnly,
        predicted_wal_bytes: 0,
        actual_wal_bytes: None,
        available_before: 0,
        available_after: 0,
        reason_code: ReasonCode::BudgetAvailable,
    });
    encoded.decision_kind = UNSET_ENUM;

    assert!(encoded.decode().is_err());
}

fn profile(ewma_wal_bytes: WalBytes, last_seen_epoch_ms: EpochMillis) -> QueryWalProfile {
    QueryWalProfile {
        calls: 1,
        ewma_wal_bytes,
        max_wal_bytes: ewma_wal_bytes,
        last_seen_epoch_ms,
    }
}
