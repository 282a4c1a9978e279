//! Core data model: ledger movements, stored quotes, instrument master
//! records, settings and process configuration.
//!
//! All monetary values are fixed-point integers with [`PRICE_SCALE`] steps
//! per currency unit (or per share, for quantities); dates are day numbers.

use vstd::prelude::*;

verus! {

/// Fixed-point steps per unit: a stored value of `PRICE_SCALE` means 1.0.
pub const PRICE_SCALE: i64 = 10_000;

/// Largest magnitude accepted for a movement's quantity or amount
/// (fixed-point), so that every intermediate sum and product of the
/// valuation computation fits the machine integers it is carried in.
pub const VALUE_LIMIT: i64 = 1_000_000_000_000;

/// Largest magnitude accepted for a stored or computed price (fixed-point):
/// `VALUE_LIMIT * PRICE_SCALE`, the transaction price reached when an amount
/// of full magnitude is divided by the smallest non-zero quantity.
pub const PRICE_LIMIT: i64 = 10_000_000_000_000_000;

/// Largest ledger or quote-series length the valuation engine accepts.
pub const LEN_LIMIT: usize = 1_000_000;

/// Movement action code for a purchase.
pub const ACTION_BUY: i64 = 1;

/// Movement action code for a sale.
pub const ACTION_SELL: i64 = 2;

/// Movement action code for a payout; it never changes the held quantity.
pub const ACTION_PAYOUT: i64 = 3;

/// One ledger entry: a buy, sell or payout event for an instrument.
///
/// `quantity` and `amount` are fixed-point ([`PRICE_SCALE`]); `date` is a
/// day number. Fields are optional because the ledger-maintenance
/// collaborators may store incomplete rows; the engine only reads movements.
#[derive(Debug, Clone, Copy, PartialEq, Eq, Structural)]
pub struct Movement {
    pub id: i64,
    pub date: Option<i64>,
    pub action_id: Option<i64>,
    pub investment_id: Option<i64>,
    pub quantity: Option<i64>,
    pub amount: Option<i64>,
    pub fee: Option<i64>,
}

/// One observed market price: instrument, day number, fixed-point price and
/// the identifier of the source that produced it.
#[derive(Debug)]
pub struct InvestmentPrice {
    pub date: Option<i64>,
    pub investment_id: Option<i64>,
    pub price: Option<i64>,
    pub source: Option<String>,
}

/// Instrument master record. The synchronization engine reads
/// `ticker_symbol` (preferred) or `isin` to address a provider, and
/// `quote_provider` to pick one.
#[derive(Debug)]
pub struct Investment {
    pub id: i64,
    pub name: Option<String>,
    pub isin: Option<String>,
    pub shortname: Option<String>,
    pub ticker_symbol: Option<String>,
    pub quote_provider: Option<String>,
}

/// A ledger action kind as stored by the ledger collaborator.
#[derive(Debug)]
pub struct ActionType {
    pub id: i64,
    pub name: String,
}

/// Process-wide settings: the base currency all valuations are expressed in.
#[derive(Debug)]
pub struct Settings {
    pub id: i64,
    pub base_currency: String,
}

/// Process configuration; filled by the startup wiring from the environment.
#[derive(Debug)]
pub struct Config {
    pub database_url: String,
    pub host: String,
    pub port: u16,
}

/// The view of an optional source string: its character sequence, if any.
pub open spec fn source_view(s: Option<String>) -> Option<Seq<char>> {
    match s {
        Some(x) => Some(x@),
        None => None,
    }
}

/// An optional string duplicated field by field.
fn clone_opt_string(s: &Option<String>) -> (r: Option<String>)
    ensures
        r == *s,
{
    match s {
        Some(x) => Some(x.clone()),
        None => None,
    }
}

impl Clone for InvestmentPrice {
    /// A copy equal to the original.
    fn clone(&self) -> (r: Self)
        ensures
            r == *self,
    {
        InvestmentPrice {
            date: self.date,
            investment_id: self.investment_id,
            price: self.price,
            source: clone_opt_string(&self.source),
        }
    }
}

impl Clone for Investment {
    /// A copy equal to the original.
    fn clone(&self) -> (r: Self)
        ensures
            r == *self,
    {
        Investment {
            id: self.id,
            name: clone_opt_string(&self.name),
            isin: clone_opt_string(&self.isin),
            shortname: clone_opt_string(&self.shortname),
            ticker_symbol: clone_opt_string(&self.ticker_symbol),
            quote_provider: clone_opt_string(&self.quote_provider),
        }
    }
}

impl Clone for ActionType {
    /// A copy equal to the original.
    fn clone(&self) -> (r: Self)
        ensures
            r == *self,
    {
        ActionType { id: self.id, name: self.name.clone() }
    }
}

impl Clone for Settings {
    /// A copy equal to the original.
    fn clone(&self) -> (r: Self)
        ensures
            r == *self,
    {
        Settings { id: self.id, base_currency: self.base_currency.clone() }
    }
}

impl Clone for Config {
    /// A copy equal to the original.
    fn clone(&self) -> (r: Self)
        ensures
            r == *self,
    {
        Config {
            database_url: self.database_url.clone(),
            host: self.host.clone(),
            port: self.port,
        }
    }
}

} // verus!
