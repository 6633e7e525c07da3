use pg_wal_budget::shmem::SharedMemory;
use pg_wal_budget::shmem::transactions::counters_snapshot;

#[test]
fn transaction_snapshots_report_unavailable_shared_memory() {
    let error = match counters_snapshot(&SharedMemory::unavailable()) {
        Ok(counters) => panic!("expected unavailable shared memory, got {counters:?}"),
        Err(error) => error,
    };
    assert!(
        error
            .detail()
            .contains("shared memory is not initialized"),
        "unexpected error: {error:?}"
    );
}
