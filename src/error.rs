//! Why a migration fails.
use vstd::prelude::*;

verus! {

/// Why a migration fails.
#[derive(Debug, Clone, PartialEq)]
pub enum MigrationError {
    /// A required field of a record is absent.
    MissingField { entity: String, field: String },
    /// A numeric field of a record does not hold a number of its type.
    MalformedField { entity: String, field: String },
    /// A record is not closed by its end marker.
    UnterminatedRecord,
    /// An account refers to a currency that is not in the backup.
    UnknownCurrency { account_id: i32, currency_id: i32 },
    /// A timestamp has no local date and time.
    TimeOutOfRange { millis: i64 },
    /// The transactions are too many, or a timestamp or an amount is too
    /// large for the keys and rescaled amounts to fit in 64 bits.
    ValueOutOfRange,
}

} // verus!
