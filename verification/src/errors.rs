//! The errors of the library, with the texts and the SQL error class that clients see.

use vstd::prelude::*;

use crate::text;
use crate::types::{PolicyId, WalBytes};

verus! {

pub type PwbResult<T> = Result<T, PwbError>;

#[derive(Debug, Clone, PartialEq, Eq)]
pub enum PwbError {
    InvalidBudgetMode { value: String },
    InvalidScopeKind { value: String },
    InvalidPolicyValue { field: &'static str, value: String, reason: &'static str },
    InsufficientPrivilege { operation: &'static str },
    MissingScope,
    BudgetExceeded {
        policy_id: PolicyId,
        predicted_wal_bytes: WalBytes,
        available_wal_bytes: WalBytes,
    },
    Internal { message: String },
}

/// What an error says: its variant and its texts as character sequences.
pub enum PwbErrorView {
    InvalidBudgetMode { value: Seq<char> },
    InvalidScopeKind { value: Seq<char> },
    InvalidPolicyValue { field: Seq<char>, value: Seq<char>, reason: Seq<char> },
    InsufficientPrivilege { operation: Seq<char> },
    MissingScope,
    BudgetExceeded {
        policy_id: PolicyId,
        predicted_wal_bytes: WalBytes,
        available_wal_bytes: WalBytes,
    },
    Internal { message: Seq<char> },
}

impl View for PwbError {
    type V = PwbErrorView;

    open spec fn view(&self) -> PwbErrorView {
        match *self {
            PwbError::InvalidBudgetMode { value } => PwbErrorView::InvalidBudgetMode {
                value: value@,
            },
            PwbError::InvalidScopeKind { value } => PwbErrorView::InvalidScopeKind {
                value: value@,
            },
            PwbError::InvalidPolicyValue { field, value, reason } =>
                PwbErrorView::InvalidPolicyValue {
                field: field@,
                value: value@,
                reason: reason@,
            },
            PwbError::InsufficientPrivilege { operation } => PwbErrorView::InsufficientPrivilege {
                operation: operation@,
            },
            PwbError::MissingScope => PwbErrorView::MissingScope,
            PwbError::BudgetExceeded { policy_id, predicted_wal_bytes, available_wal_bytes } =>
                PwbErrorView::BudgetExceeded { policy_id, predicted_wal_bytes, available_wal_bytes },
            PwbError::Internal { message } => PwbErrorView::Internal { message: message@ },
        }
    }
}

/// Whether `result` is the error that `error` describes.
pub open spec fn fails_with<T>(result: PwbResult<T>, error: PwbErrorView) -> bool {
    result matches Err(e) && e@ == error
}

/// Whether `result` is `expected`, errors compared by what they say.
pub open spec fn same_result<T>(result: PwbResult<T>, expected: Result<T, PwbErrorView>) -> bool {
    match expected {
        Ok(value) => result == Ok::<T, PwbError>(value),
        Err(error) => fails_with(result, error),
    }
}

/// The internal error with this message.
pub open spec fn internal(message: Seq<char>) -> PwbErrorView {
    PwbErrorView::Internal { message }
}

/// An internal error with this message.
pub fn internal_error(message: String) -> (r: PwbError)
    ensures
        r@ == internal(message@),
{
    PwbError::Internal { message }
}

/// The class of SQL error that an error is reported as.
#[derive(Debug, Clone, Copy, PartialEq, Eq, Structural)]
pub enum SqlErrorCode {
    InvalidParameterValue,
    InsufficientPrivilege,
    RaiseException,
    InternalError,
}

impl PwbErrorView {
    /// The SQL error class of the error.
    pub open spec fn code(self) -> SqlErrorCode {
        match self {
            PwbErrorView::InvalidBudgetMode { .. } => SqlErrorCode::InvalidParameterValue,
            PwbErrorView::InvalidScopeKind { .. } => SqlErrorCode::InvalidParameterValue,
            PwbErrorView::InvalidPolicyValue { .. } => SqlErrorCode::InvalidParameterValue,
            PwbErrorView::InsufficientPrivilege { .. } => SqlErrorCode::InsufficientPrivilege,
            PwbErrorView::MissingScope => SqlErrorCode::RaiseException,
            PwbErrorView::BudgetExceeded { .. } => SqlErrorCode::RaiseException,
            PwbErrorView::Internal { .. } => SqlErrorCode::InternalError,
        }
    }

    /// The primary message of the error.
    pub open spec fn headline(self) -> Seq<char> {
        match self {
            PwbErrorView::InvalidBudgetMode { .. } => "invalid pg_wal_budget policy value"@,
            PwbErrorView::InvalidScopeKind { .. } => "invalid pg_wal_budget policy value"@,
            PwbErrorView::InvalidPolicyValue { .. } => "invalid pg_wal_budget policy value"@,
            PwbErrorView::InsufficientPrivilege { .. } =>
                "insufficient privilege for pg_wal_budget operation"@,
            PwbErrorView::MissingScope => "pg_wal_budget could not determine statement scope"@,
            PwbErrorView::BudgetExceeded { .. } =>
                "pg_wal_budget rejected statement: WAL budget exceeded"@,
            PwbErrorView::Internal { .. } => "pg_wal_budget internal error"@,
        }
    }

    /// The text that spells the error out.
    pub open spec fn description(self) -> Seq<char> {
        match self {
            PwbErrorView::InvalidBudgetMode { value } => "invalid budget mode: "@ + value,
            PwbErrorView::InvalidScopeKind { value } => "invalid scope kind: "@ + value,
            PwbErrorView::InvalidPolicyValue { field, value, reason } =>
                "invalid policy value for "@ + field + ": "@ + value + " ("@ + reason + ")"@,
            PwbErrorView::InsufficientPrivilege { operation } =>
                "insufficient privilege to "@ + operation,
            PwbErrorView::MissingScope => "missing scope"@,
            PwbErrorView::BudgetExceeded { policy_id, predicted_wal_bytes, available_wal_bytes } =>
                "WAL budget exceeded for policy "@ + text::signed_decimal(policy_id as int)
                + ": predicted "@ + text::decimal(predicted_wal_bytes as nat)
                + " bytes, available "@ + text::decimal(available_wal_bytes as nat) + " bytes"@,
            PwbErrorView::Internal { message } => "internal error: "@ + message,
        }
    }
}

impl PwbError {
    /// The class of SQL error that this error is reported as.
    pub fn sql_error_code(&self) -> (r: SqlErrorCode)
        ensures
            r == self@.code(),
    {
        match self {
            PwbError::InvalidBudgetMode { .. } => SqlErrorCode::InvalidParameterValue,
            PwbError::InvalidScopeKind { .. } => SqlErrorCode::InvalidParameterValue,
            PwbError::InvalidPolicyValue { .. } => SqlErrorCode::InvalidParameterValue,
            PwbError::InsufficientPrivilege { .. } => SqlErrorCode::InsufficientPrivilege,
            PwbError::MissingScope => SqlErrorCode::RaiseException,
            PwbError::BudgetExceeded { .. } => SqlErrorCode::RaiseException,
            PwbError::Internal { .. } => SqlErrorCode::InternalError,
        }
    }

    /// The primary message of this error, which does not depend on its payload.
    pub fn message(&self) -> (r: &'static str)
        ensures
            r@ == self@.headline(),
    {
        match self {
            PwbError::InvalidBudgetMode { .. } => "invalid pg_wal_budget policy value",
            PwbError::InvalidScopeKind { .. } => "invalid pg_wal_budget policy value",
            PwbError::InvalidPolicyValue { .. } => "invalid pg_wal_budget policy value",
            PwbError::InsufficientPrivilege { .. } =>
                "insufficient privilege for pg_wal_budget operation",
            PwbError::MissingScope => "pg_wal_budget could not determine statement scope",
            PwbError::BudgetExceeded { .. } =>
                "pg_wal_budget rejected statement: WAL budget exceeded",
            PwbError::Internal { .. } => "pg_wal_budget internal error",
        }
    }

    /// The text that spells this error out.
    pub fn detail(&self) -> (r: String)
        ensures
            r@ == self@.description(),
    {
        match self {
            PwbError::InvalidBudgetMode { value } => text::join2(
                "invalid budget mode: ",
                value.as_str(),
            ),
            PwbError::InvalidScopeKind { value } => text::join2(
                "invalid scope kind: ",
                value.as_str(),
            ),
            PwbError::InvalidPolicyValue { field, value, reason } => {
                let mut detail: String = text::join4(
                    "invalid policy value for ",
                    field,
                    ": ",
                    value.as_str(),
                );
                detail.append(" (");
                detail.append(reason);
                detail.append(")");
                detail
            },
            PwbError::InsufficientPrivilege { operation } => text::join2(
                "insufficient privilege to ",
                operation,
            ),
            PwbError::MissingScope => "missing scope".to_owned(),
            PwbError::BudgetExceeded { policy_id, predicted_wal_bytes, available_wal_bytes } => {
                let mut detail: String = text::join2(
                    "WAL budget exceeded for policy ",
                    text::i64_to_decimal(*policy_id as i64).as_str(),
                );
                detail.append(": predicted ");
                detail.append(text::u64_to_decimal(*predicted_wal_bytes).as_str());
                detail.append(" bytes, available ");
                detail.append(text::u64_to_decimal(*available_wal_bytes).as_str());
                detail.append(" bytes");
                detail
            },
            PwbError::Internal { message } => text::join2("internal error: ", message.as_str()),
        }
    }

    /// What is reported to the client: the primary message, a colon and the detail.
    pub fn report(&self) -> (r: String)
        ensures
            r@ == self@.headline() + ": "@ + self@.description(),
    {
        text::join3(self.message(), ": ", self.detail().as_str())
    }
}

/// Refusals and missing scopes are raised as exceptions, wrong inputs as invalid parameters, missing rights
/// as such, and everything else as internal errors. Each error says what it is about; a refusal tells the
/// policy, the prediction and what was available, in this order.
pub proof fn law_errors_are_reported_by_their_kind(error: PwbErrorView)
    ensures
        error.code() == SqlErrorCode::RaiseException <==> error is BudgetExceeded || error
            is MissingScope,
        error.code() == SqlErrorCode::InvalidParameterValue <==> error is InvalidBudgetMode || error
            is InvalidScopeKind || error is InvalidPolicyValue,
        error.code() == SqlErrorCode::InsufficientPrivilege <==> error is InsufficientPrivilege,
        error.code() == SqlErrorCode::InternalError <==> error is Internal,
        error is InvalidBudgetMode || error is InvalidScopeKind || error is InvalidPolicyValue
            ==> error.headline() == "invalid pg_wal_budget policy value"@,
        error is InsufficientPrivilege ==> error.headline()
            == "insufficient privilege for pg_wal_budget operation"@,
        error is MissingScope ==> error.headline()
            == "pg_wal_budget could not determine statement scope"@ && error.description()
            == "missing scope"@,
        error is Internal ==> error.headline() == "pg_wal_budget internal error"@,
        error matches PwbErrorView::InvalidBudgetMode { value } ==> error.description()
            == "invalid budget mode: "@ + value,
        error matches PwbErrorView::InvalidScopeKind { value } ==> error.description()
            == "invalid scope kind: "@ + value,
        error matches PwbErrorView::InvalidPolicyValue { field, value, reason }
            ==> error.description() == "invalid policy value for "@ + field + ": "@ + value + " ("@
            + reason + ")"@,
        error matches PwbErrorView::InsufficientPrivilege { operation } ==> error.description()
            == "insufficient privilege to "@ + operation,
        error matches PwbErrorView::Internal { message } ==> error.description()
            == "internal error: "@ + message,
        error matches PwbErrorView::BudgetExceeded {
            policy_id,
            predicted_wal_bytes,
            available_wal_bytes,
        } ==> {
            &&& error.headline() == "pg_wal_budget rejected statement: WAL budget exceeded"@
            &&& error.description() == "WAL budget exceeded for policy "@ + text::signed_decimal(
                policy_id as int,
            ) + ": predicted "@ + text::decimal(predicted_wal_bytes as nat) + " bytes, available "@
                + text::decimal(available_wal_bytes as nat) + " bytes"@
        },
{
}

} // verus!
