use pg_wal_budget::guc::{
    DEFAULT_UTILITY_WAL_BYTES_VALUE, DEFAULT_WRITE_WAL_BYTES_VALUE, MAX_PREDICTION_BYTES_VALUE,
    SHMEM_CAPACITY_VALUE, nonnegative_i32_to_usize, nonnegative_i32_to_wal_bytes,
};

#[test]
fn byte_defaults_fit_wal_bytes() {
    assert_eq!(
        nonnegative_i32_to_wal_bytes(DEFAULT_WRITE_WAL_BYTES_VALUE),
        16_384
    );
    assert_eq!(
        nonnegative_i32_to_wal_bytes(DEFAULT_UTILITY_WAL_BYTES_VALUE),
        1_048_576
    );
    assert_eq!(
        nonnegative_i32_to_wal_bytes(MAX_PREDICTION_BYTES_VALUE),
        1_073_741_824
    );
}

#[test]
fn capacity_defaults_fit_usize() {
    assert_eq!(nonnegative_i32_to_usize(SHMEM_CAPACITY_VALUE), 4096);
}

#[test]
fn explicit_default_capacity_does_not_mean_inherit() {
    assert_eq!(
        nonnegative_i32_to_usize(SHMEM_CAPACITY_VALUE),
        SHMEM_CAPACITY_VALUE as usize
    );
}

#[test]
fn negative_values_convert_to_zero_at_accessor_boundary() {
    assert_eq!(nonnegative_i32_to_wal_bytes(-1), 0);
    assert_eq!(nonnegative_i32_to_usize(-1), 0);
}
