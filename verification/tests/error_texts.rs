use pg_wal_budget::errors::{PwbError, SqlErrorCode, internal_error};

#[test]
fn every_error_says_what_happened() {
    let cases = [
        (
            PwbError::InvalidBudgetMode {
                value: "enforce".to_string(),
            },
            SqlErrorCode::InvalidParameterValue,
            "invalid pg_wal_budget policy value: invalid budget mode: enforce",
        ),
        (
            PwbError::InvalidScopeKind {
                value: "user".to_string(),
            },
            SqlErrorCode::InvalidParameterValue,
            "invalid pg_wal_budget policy value: invalid scope kind: user",
        ),
        (
            PwbError::InvalidPolicyValue {
                field: "tenant",
                value: "<empty>".to_string(),
                reason: "must not be empty",
            },
            SqlErrorCode::InvalidParameterValue,
            "invalid pg_wal_budget policy value: invalid policy value for tenant: <empty> (must not be empty)",
        ),
        (
            PwbError::InsufficientPrivilege {
                operation: "reset statistics",
            },
            SqlErrorCode::InsufficientPrivilege,
            "insufficient privilege for pg_wal_budget operation: insufficient privilege to reset statistics",
        ),
        (
            PwbError::MissingScope,
            SqlErrorCode::RaiseException,
            "pg_wal_budget could not determine statement scope: missing scope",
        ),
        (
            PwbError::BudgetExceeded {
                policy_id: -7,
                predicted_wal_bytes: 1024,
                available_wal_bytes: 0,
            },
            SqlErrorCode::RaiseException,
            "pg_wal_budget rejected statement: WAL budget exceeded: WAL budget exceeded for policy -7: predicted 1024 bytes, available 0 bytes",
        ),
        (
            internal_error("no room".to_string()),
            SqlErrorCode::InternalError,
            "pg_wal_budget internal error: internal error: no room",
        ),
    ];

    for (error, code, report) in cases {
        assert_eq!(error.sql_error_code(), code);
        assert_eq!(error.report(), report);
        assert_eq!(
            error.report(),
            format!("{}: {}", error.message(), error.detail())
        );
    }
}
