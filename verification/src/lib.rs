//! Portfolio valuation and quote synchronization engine.
//!
//! The library reconstructs a daily valuation history per instrument from a
//! ledger of buy/sell/payout movements and a series of market quotes, and
//! drives the synchronization of those quotes from pluggable providers into
//! an idempotent quote store.
//!
//! Monetary quantities, amounts, prices and exchange rates are fixed-point
//! integers with [`models::PRICE_SCALE`] fractional steps per unit; dates are
//! day numbers.

use vstd::prelude::*;

pub mod calculator_laws;
pub mod currency_converter;
pub mod error;
pub mod handlers;
pub mod models;
pub mod portfolio_calculator;
pub mod quote_fetcher;
pub mod quote_store;
pub mod quotes;

verus! {

} // verus!
