//! The predicted WAL of a statement.

use vstd::prelude::*;

use crate::guc;
use crate::guc::GucSettings;
use crate::types;
use crate::types::{QueryWalProfile, StatementClass, WalBytes};

verus! {

/// The prediction for a statement of which nothing was learned.
pub open spec fn fallback(
    statement_class: StatementClass,
    default_write: WalBytes,
    default_utility: WalBytes,
) -> WalBytes {
    match statement_class {
        StatementClass::ReadOnly => 0,
        StatementClass::Write => default_write,
        StatementClass::Utility => default_utility,
        StatementClass::Copy => default_utility,
        StatementClass::Unknown => default_utility,
    }
}

/// The prediction for a statement: nothing where it only reads, else what was learned of its query or,
/// without that, the fallback of its class, neither above the largest prediction.
pub open spec fn predicted(
    settings: GucSettings,
    statement_class: StatementClass,
    profile: Option<QueryWalProfile>,
) -> WalBytes {
    let max = guc::nonnegative(settings.max_prediction_bytes) as u64;
    if statement_class == StatementClass::ReadOnly {
        0
    } else {
        match profile {
            Some(profile) => types::smaller(profile.ewma_wal_bytes, max),
            None => types::smaller(
                fallback(
                    statement_class,
                    guc::nonnegative(settings.default_write_wal_bytes) as u64,
                    guc::nonnegative(settings.default_utility_wal_bytes) as u64,
                ),
                max,
            ),
        }
    }
}

pub fn predict_wal_bytes(
    settings: &GucSettings,
    statement_class: StatementClass,
    profile: Option<QueryWalProfile>,
) -> (r: WalBytes)
    ensures
        r == predicted(*settings, statement_class, profile),
{
    if statement_class == StatementClass::ReadOnly {
        return 0;
    }
    if let Some(profile) = profile {
        return clamp_prediction(profile.ewma_wal_bytes, guc::max_prediction_bytes(settings));
    }
    let fallback: u64 = fallback_wal_bytes_for_class(
        statement_class,
        guc::default_write_wal_bytes(settings),
        guc::default_utility_wal_bytes(settings),
    );
    clamp_prediction(fallback, guc::max_prediction_bytes(settings))
}

pub fn fallback_wal_bytes_for_class(
    statement_class: StatementClass,
    default_write: WalBytes,
    default_utility: WalBytes,
) -> (r: WalBytes)
    ensures
        r == fallback(statement_class, default_write, default_utility),
{
    match statement_class {
        StatementClass::ReadOnly => 0,
        StatementClass::Write => default_write,
        StatementClass::Utility | StatementClass::Copy | StatementClass::Unknown => default_utility,
    }
}

pub fn clamp_prediction(predicted: WalBytes, max_prediction: WalBytes) -> (r: WalBytes)
    ensures
        r == types::smaller(predicted, max_prediction),
{
    if predicted > max_prediction {
        max_prediction
    } else {
        predicted
    }
}

/// No prediction exceeds the largest one that the settings allow, and none is made for statements that
/// only read.
pub proof fn law_prediction_is_bounded(
    settings: GucSettings,
    statement_class: StatementClass,
    profile: Option<QueryWalProfile>,
)
    ensures
        predicted(settings, statement_class, profile) <= guc::nonnegative(
            settings.max_prediction_bytes,
        ),
        predicted(settings, StatementClass::ReadOnly, profile) == 0,
{
}

/// A statement that may write and whose query has a profile is predicted to write what its query wrote
/// on average, cut off at the largest prediction. Nothing else of the profile matters: neither the
/// largest observation, nor how many there were, nor when.
pub proof fn law_prediction_is_the_learned_mean(
    settings: GucSettings,
    statement_class: StatementClass,
    profile: QueryWalProfile,
    other: QueryWalProfile,
)
    requires
        statement_class != StatementClass::ReadOnly,
    ensures
        ({
            let prediction = predicted(settings, statement_class, Some(profile));
            let max = settings.max_prediction_bytes;
            &&& profile.ewma_wal_bytes <= max ==> prediction == profile.ewma_wal_bytes
            &&& 0 <= max < profile.ewma_wal_bytes ==> prediction == max
            &&& max < 0 ==> prediction == 0
            &&& other.ewma_wal_bytes == profile.ewma_wal_bytes ==> predicted(
                settings,
                statement_class,
                Some(other),
            ) == prediction
            &&& other.ewma_wal_bytes >= profile.ewma_wal_bytes ==> predicted(
                settings,
                statement_class,
                Some(other),
            ) >= prediction
        }),
{
}

/// A statement of which nothing was learned is predicted by the setting for its class: writes by the one
/// for writes, everything else that may write by the one for utilities, and both are cut off at the
/// largest prediction. A negative setting counts as none.
pub proof fn law_unknown_queries_are_predicted_by_class(
    settings: GucSettings,
    statement_class: StatementClass,
)
    ensures
        ({
            let prediction = predicted(settings, statement_class, None);
            let setting = if statement_class == StatementClass::Write {
                settings.default_write_wal_bytes
            } else {
                settings.default_utility_wal_bytes
            };
            let max = settings.max_prediction_bytes;
            if statement_class == StatementClass::ReadOnly {
                prediction == 0
            } else {
                &&& 0 <= setting <= max ==> prediction == setting
                &&& 0 <= max <= setting ==> prediction == max
                &&& setting < 0 || max < 0 ==> prediction == 0
            }
        }),
        forall|write: WalBytes, utility: WalBytes|
            {
                &&& #[trigger] fallback(StatementClass::ReadOnly, write, utility) == 0
                &&& fallback(StatementClass::Write, write, utility) == write
                &&& fallback(StatementClass::Utility, write, utility) == utility
                &&& fallback(StatementClass::Copy, write, utility) == utility
                &&& fallback(StatementClass::Unknown, write, utility) == utility
            },
{
}

} // verus!
