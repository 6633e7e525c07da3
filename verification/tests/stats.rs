use pg_wal_budget::stats::u64_to_i64_saturating;

#[test]
fn sql_bigint_conversion_saturates() {
    assert_eq!(u64_to_i64_saturating(42), 42);
    assert_eq!(u64_to_i64_saturating(i64::MAX as u64), i64::MAX);
    assert_eq!(u64_to_i64_saturating(u64::MAX), i64::MAX);
}
