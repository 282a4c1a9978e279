//! Error taxonomy of the engine.
//!
//! `Database` is a storage failure and always propagated; `InvalidInput` is
//! a caller-level precondition violation, raised rather than folded into a
//! result; `ExternalApi` and `CurrencyConversion` are third-party failures
//! that batch work captures per item.

use vstd::prelude::*;
use vstd::string::StringExecFns;

verus! {

/// What went wrong, and on whose side.
#[derive(Debug)]
pub enum AppError {
    /// A storage collaborator failed; the text is its report.
    Database(String),
    /// The addressed record does not exist.
    NotFound,
    /// A third-party service failed; the text is its report.
    ExternalApi(String),
    /// A currency-rate lookup failed outright (not merely "no rate").
    CurrencyConversion,
    /// The caller violated a precondition; the text names it.
    InvalidInput(String),
    /// An unexpected internal failure.
    Internal(String),
}

impl AppError {
    /// The error rendered as one line of text.
    pub fn message(&self) -> (msg: String)
        ensures
            match self {
                AppError::Database(s) => msg@ == "Database error: "@ + s@,
                AppError::NotFound => msg@ == "Not found"@,
                AppError::ExternalApi(s) => msg@ == "External API error: "@ + s@,
                AppError::CurrencyConversion => msg@ == "Currency conversion failed"@,
                AppError::InvalidInput(s) => msg@ == "Invalid input: "@ + s@,
                AppError::Internal(s) => msg@ == "Internal server error: "@ + s@,
            },
    {
        match self {
            AppError::Database(s) => String::from_str("Database error: ").concat(s.as_str()),
            AppError::NotFound => String::from_str("Not found"),
            AppError::ExternalApi(s) => String::from_str("External API error: ").concat(
                s.as_str(),
            ),
            AppError::CurrencyConversion => String::from_str("Currency conversion failed"),
            AppError::InvalidInput(s) => String::from_str("Invalid input: ").concat(s.as_str()),
            AppError::Internal(s) => String::from_str("Internal server error: ").concat(
                s.as_str(),
            ),
        }
    }
}

impl Clone for AppError {
    /// A copy equal to the original.
    fn clone(&self) -> (r: Self)
        ensures
            r == *self,
    {
        match self {
            AppError::Database(s) => AppError::Database(s.clone()),
            AppError::NotFound => AppError::NotFound,
            AppError::ExternalApi(s) => AppError::ExternalApi(s.clone()),
            AppError::CurrencyConversion => AppError::CurrencyConversion,
            AppError::InvalidInput(s) => AppError::InvalidInput(s.clone()),
            AppError::Internal(s) => AppError::Internal(s.clone()),
        }
    }
}

} // verus!
