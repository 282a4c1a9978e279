//! Currency Converter: turns an amount of one currency into the base
//! currency using the historical daily rate the external rate source
//! answered for the requested day.
//!
//! The identity conversion never consults the rate source. Every other
//! conversion distinguishes three outcomes: a numeric result, "no rate for
//! this pair and day" (not an error — the caller skips), and a hard lookup
//! failure, surfaced as [`AppError::CurrencyConversion`].

use vstd::prelude::*;

use crate::error::AppError;
use crate::models::{PRICE_LIMIT, PRICE_SCALE, VALUE_LIMIT};

verus! {

/// Largest fixed-point exchange rate the engine accepts; at
/// [`PRICE_SCALE`] steps per unit this is a rate of ten thousand.
pub const RATE_LIMIT: i64 = 100_000_000;

/// What one daily-rate lookup reported, as handed in by the caller that
/// performed it.
#[derive(Debug, Clone, Copy, PartialEq, Eq, Structural)]
pub enum RateAnswer {
    /// The source answered this fixed-point rate ([`PRICE_SCALE`] steps).
    Rate(i64),
    /// The source has no rate for this pair and day.
    Unavailable,
    /// The lookup itself failed: network or malformed answer.
    Failed,
}

/// An amount multiplied by a fixed-point rate, rounded down.
pub open spec fn converted_amount(amount: i64, rate: i64) -> int {
    amount * rate / (PRICE_SCALE as int)
}

/// The Currency Converter; it keeps no state between calls.
pub struct CurrencyConverter {}

impl CurrencyConverter {
    /// A converter instance.
    pub fn new() -> (s: Self) {
        CurrencyConverter {  }
    }

    /// Convert `amount` from one currency to another on a specific date,
    /// given what the historical rate source answered for that date.
    ///
    /// Equal currencies return the amount unchanged whatever the rate
    /// lookup says — that case needs no lookup at all. Otherwise a reported
    /// rate multiplies, a missing rate yields `Ok(None)`, and a failed
    /// lookup yields the `CurrencyConversion` error.
    pub fn convert(
        &self,
        amount: i64,
        from_currency: &String,
        to_currency: &String,
        rate: &RateAnswer,
    ) -> (r: Result<Option<i64>, AppError>)
        requires
            0 <= amount <= VALUE_LIMIT,
            *rate matches RateAnswer::Rate(x) ==> 0 <= x <= RATE_LIMIT,
        ensures
            from_currency@ == to_currency@ ==> (r matches Ok(a) && a == Some(amount)),
            from_currency@ != to_currency@ ==> match *rate {
                RateAnswer::Rate(x) => r matches Ok(a) && a matches Some(v) && v
                    == converted_amount(amount, x) && 0 <= v <= PRICE_LIMIT,
                RateAnswer::Unavailable => r matches Ok(a) && a is None,
                RateAnswer::Failed => r matches Err(e) && e is CurrencyConversion,
            },
    {
        if *from_currency == *to_currency {
            return Ok(Some(amount));
        }
        match rate {
            RateAnswer::Rate(x) => {
                proof {
                    assert(0 <= (amount as int) * (*x as int) <= 100000000000000000000int)
                        by (nonlinear_arith)
                        requires
                            0 <= amount <= VALUE_LIMIT,
                            0 <= *x <= RATE_LIMIT,
                    ;
                    assert((amount as int) * (*x as int) / (PRICE_SCALE as int) <= PRICE_LIMIT)
                        by (nonlinear_arith)
                        requires
                            0 <= (amount as int) * (*x as int) <= 100000000000000000000int,
                    ;
                }
                let scaled = (amount as i128) * (*x as i128);
                let v = scaled / (PRICE_SCALE as i128);
                Ok(Some(v as i64))
            },
            RateAnswer::Unavailable => Ok(None),
            RateAnswer::Failed => Err(AppError::CurrencyConversion),
        }
    }
}

} // verus!
