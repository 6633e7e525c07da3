use pg_wal_budget::predict::{clamp_prediction, fallback_wal_bytes_for_class};
use pg_wal_budget::types::{StatementClass, WalBytes};

const DEFAULT_WRITE: WalBytes = 16 * 1024;
const DEFAULT_UTILITY: WalBytes = 1024 * 1024;

#[test]
fn read_only_predicts_zero() {
    assert_eq!(
        fallback_wal_bytes_for_class(StatementClass::ReadOnly, DEFAULT_WRITE, DEFAULT_UTILITY),
        0
    );
}

#[test]
fn predict_write_uses_write_fallback() {
    assert_eq!(
        fallback_wal_bytes_for_class(StatementClass::Write, DEFAULT_WRITE, DEFAULT_UTILITY),
        DEFAULT_WRITE
    );
}

#[test]
fn predict_utility_and_copy_use_utility_fallback() {
    assert_eq!(
        fallback_wal_bytes_for_class(StatementClass::Utility, DEFAULT_WRITE, DEFAULT_UTILITY),
        DEFAULT_UTILITY
    );
    assert_eq!(
        fallback_wal_bytes_for_class(StatementClass::Copy, DEFAULT_WRITE, DEFAULT_UTILITY),
        DEFAULT_UTILITY
    );
}

#[test]
fn predict_unknown_uses_conservative_utility_fallback() {
    assert_eq!(
        fallback_wal_bytes_for_class(StatementClass::Unknown, DEFAULT_WRITE, DEFAULT_UTILITY),
        DEFAULT_UTILITY
    );
}

#[test]
fn predict_prediction_is_clamped_to_max() {
    assert_eq!(clamp_prediction(1024, 512), 512);
}

#[test]
fn predict_zero_max_clamps_to_zero() {
    assert_eq!(clamp_prediction(1024, 0), 0);
}
