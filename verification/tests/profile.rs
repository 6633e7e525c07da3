use pg_wal_budget::catalog::MemoryCatalogStore;
use pg_wal_budget::guc::GucSettings;
use pg_wal_budget::predict::{clamp_prediction, fallback_wal_bytes_for_class};
use pg_wal_budget::profile::{PredictionContext, lookup_prediction_profile, predict_context};
use pg_wal_budget::shmem::SharedMemory;
use pg_wal_budget::types::{StatementClass, WalBytes};

const DEFAULT_WRITE: WalBytes = 16 * 1024;
const DEFAULT_UTILITY: WalBytes = 1024 * 1024;

#[test]
fn read_only_predicts_zero_without_shared_memory() {
    assert_eq!(
        predict_context(
            &mut SharedMemory::unavailable(),
            &mut MemoryCatalogStore::missing_tables(),
            &GucSettings::default(),
            &PredictionContext {
                statement_class: StatementClass::ReadOnly,
                query_id: Some(42),
                scope_hash: 99,
            },
            0,
        ),
        0
    );
}

#[test]
fn read_only_fallback_is_zero() {
    assert_eq!(
        fallback_wal_bytes_for_class(StatementClass::ReadOnly, DEFAULT_WRITE, DEFAULT_UTILITY),
        0
    );
}

#[test]
fn profile_write_uses_write_fallback() {
    assert_eq!(
        fallback_wal_bytes_for_class(StatementClass::Write, DEFAULT_WRITE, DEFAULT_UTILITY),
        DEFAULT_WRITE
    );
}

#[test]
fn profile_utility_and_copy_use_utility_fallback() {
    assert_eq!(
        fallback_wal_bytes_for_class(StatementClass::Utility, DEFAULT_WRITE, DEFAULT_UTILITY),
        DEFAULT_UTILITY
    );
    assert_eq!(
        fallback_wal_bytes_for_class(StatementClass::Copy, DEFAULT_WRITE, DEFAULT_UTILITY),
        DEFAULT_UTILITY
    );
}

#[test]
fn profile_unknown_uses_conservative_utility_fallback() {
    assert_eq!(
        fallback_wal_bytes_for_class(StatementClass::Unknown, DEFAULT_WRITE, DEFAULT_UTILITY),
        DEFAULT_UTILITY
    );
}

#[test]
fn profile_prediction_is_clamped_to_max() {
    assert_eq!(clamp_prediction(1024, 512), 512);
}

#[test]
fn profile_zero_max_clamps_to_zero() {
    assert_eq!(clamp_prediction(1024, 0), 0);
}

#[test]
fn lookup_without_query_id_does_not_require_shared_memory() {
    assert_eq!(
        lookup_prediction_profile(
            &mut SharedMemory::unavailable(),
            &mut MemoryCatalogStore::missing_tables(),
            &GucSettings::default(),
            99,
            None,
            0,
        ),
        Ok(None)
    );
}
