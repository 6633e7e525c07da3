use pg_wal_budget::errors::{PwbError, SqlErrorCode};

#[test]
fn exposes_stable_postgres_error_contract() {
    let error = PwbError::BudgetExceeded {
        policy_id: 7,
        predicted_wal_bytes: 1024,
        available_wal_bytes: 512,
    };

    assert_eq!(
        error.sql_error_code(),
        SqlErrorCode::RaiseException
    );
    assert_eq!(
        error.message(),
        "pg_wal_budget rejected statement: WAL budget exceeded"
    );
}

#[test]
fn invalid_policy_values_use_invalid_parameter_error_code() {
    let error = PwbError::InvalidBudgetMode {
        value: "enforce".to_string(),
    };

    assert_eq!(
        error.sql_error_code(),
        SqlErrorCode::InvalidParameterValue
    );
    assert_eq!(error.message(), "invalid pg_wal_budget policy value");
}

#[test]
fn insufficient_privilege_uses_privilege_error_code() {
    let error = PwbError::InsufficientPrivilege {
        operation: "set trusted tenant scope",
    };

    assert_eq!(
        error.sql_error_code(),
        SqlErrorCode::InsufficientPrivilege
    );
    assert_eq!(
        error.message(),
        "insufficient privilege for pg_wal_budget operation"
    );
}

#[test]
fn internal_errors_use_internal_error_code() {
    let error = PwbError::Internal {
        message: "shared memory unavailable".to_string(),
    };

    assert_eq!(
        error.sql_error_code(),
        SqlErrorCode::InternalError
    );
    assert_eq!(error.message(), "pg_wal_budget internal error");
}
