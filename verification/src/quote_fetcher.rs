//! Quote Synchronization Orchestrator: per instrument, it resolves the
//! configured provider, addresses it by ticker (else ISIN), takes the
//! provider's answer, converts each quote into the base currency and
//! upserts the results into the quote store, reporting one
//! [`QuoteFetchResult`] per instrument.
//!
//! Provider and network failures never fail the call: they are captured in
//! the per-instrument result. The one raised error is caller
//! misconfiguration — an instrument with neither ticker nor ISIN.
//! The network itself is outside the engine: the caller performs the fetch
//! and the rate lookups and hands their outcomes in.

use vstd::prelude::*;
use vstd::string::StringExecFns;

use crate::currency_converter::{converted_amount, CurrencyConverter, RateAnswer, RATE_LIMIT};
use crate::error::AppError;
use crate::models::{Investment, InvestmentPrice, VALUE_LIMIT};
use crate::quote_store::{at_most_one_per_key, upsert_spec, QuoteStore};
use crate::quotes::QuoteData;

verus! {

/// The outcome of one instrument's synchronization.
#[derive(Debug)]
pub struct QuoteFetchResult {
    pub investment_id: i64,
    pub success: bool,
    pub error: Option<String>,
    pub quotes_stored: usize,
}

impl Clone for QuoteFetchResult {
    /// A copy equal to the original.
    fn clone(&self) -> (r: Self)
        ensures
            r == *self,
    {
        QuoteFetchResult {
            investment_id: self.investment_id,
            success: self.success,
            error: match &self.error {
                Some(e) => Some(e.clone()),
                None => None,
            },
            quotes_stored: self.quotes_stored,
        }
    }
}

/// One entry of the provider registry: identifier and display name.
#[derive(Debug)]
pub struct ProviderInfo {
    pub id: String,
    pub name: String,
}

/// What the orchestrator decides to do with one instrument before any
/// network work happens.
#[derive(Debug)]
pub enum FetchPlan {
    /// Nothing to fetch; report this result as the instrument's outcome.
    Done(QuoteFetchResult),
    /// Fetch the full history from this provider under this ticker.
    Fetch { provider: String, ticker: String },
}

/// A provider's answer to a full-history fetch, as the caller observed it.
#[derive(Debug)]
pub enum ProviderAnswer {
    /// The quotes it returned, possibly none.
    Quotes(Vec<QuoteData>),
    /// The fetch failed; the text is the provider's error.
    Failed(String),
}

/// A provider's answer to a latest-quote fetch.
#[derive(Debug)]
pub enum SingleQuoteAnswer {
    /// The quote it returned.
    Quote(QuoteData),
    /// It had no quote for the ticker.
    NoQuote,
    /// The fetch failed; the text is the provider's error.
    Failed(String),
}

/// Whether the identifier names a registered provider.
pub open spec fn provider_known(p: Seq<char>) -> bool {
    p == "yahoo"@ || p == "justetf"@
}

/// The instrument has no provider configured (or an empty identifier):
/// it is not auto-fetched.
pub open spec fn no_provider_configured(inv: Investment) -> bool {
    inv.quote_provider is None || inv.quote_provider->Some_0@.len() == 0
}

/// The instrument names a provider the registry does not know.
pub open spec fn provider_unknown(inv: Investment) -> bool {
    &&& !no_provider_configured(inv)
    &&& !provider_known(inv.quote_provider->Some_0@)
}

/// The instrument carries neither ticker symbol nor ISIN: it cannot
/// address any provider.
pub open spec fn no_ticker(inv: Investment) -> bool {
    inv.ticker_symbol is None && inv.isin is None
}

/// The ticker the provider is addressed by: the ticker symbol, else the
/// ISIN.
pub open spec fn fetch_ticker(inv: Investment) -> Seq<char> {
    if inv.ticker_symbol is Some {
        inv.ticker_symbol->Some_0@
    } else {
        inv.isin->Some_0@
    }
}

/// The plan for this instrument is to fetch: a known provider is
/// configured and a ticker or ISIN addresses it.
pub open spec fn plan_fetches(inv: Investment) -> bool {
    &&& !no_provider_configured(inv)
    &&& !provider_unknown(inv)
    &&& !no_ticker(inv)
}

/// A failed per-instrument outcome: no success, nothing stored, and this
/// error text.
pub open spec fn failed_result(res: QuoteFetchResult, id: i64, msg: Seq<char>) -> bool {
    &&& res.investment_id == id
    &&& !res.success
    &&& res.quotes_stored == 0
    &&& res.error matches Some(e) && e@ == msg
}

/// A failed per-instrument outcome carrying the given error text.
fn failed_fetch(investment_id: i64, msg: String) -> (r: QuoteFetchResult)
    ensures
        failed_result(r, investment_id, msg@),
{
    QuoteFetchResult { investment_id, success: false, error: Some(msg), quotes_stored: 0 }
}

/// Whether the identifier names a registered provider.
fn is_known_provider(p: &String) -> (r: bool)
    ensures
        r == provider_known(p@),
{
    *p == String::from_str("yahoo") || *p == String::from_str("justetf")
}

/// The Quote Synchronization Orchestrator: stateless over a configured base
/// currency; the caller performs the network work and hands the outcomes
/// in.
pub struct QuoteFetcherService {
    pub base_currency: String,
    pub currency_converter: CurrencyConverter,
}

impl QuoteFetcherService {
    /// An orchestrator normalizing into the given base currency.
    pub fn new(base_currency: String) -> (s: Self)
        ensures
            s.base_currency == base_currency,
    {
        QuoteFetcherService { base_currency, currency_converter: CurrencyConverter::new() }
    }

    /// The registered quote providers, by identifier and display name.
    pub fn get_available_providers(&self) -> (r: Vec<ProviderInfo>)
        ensures
            r@.len() == 2,
            r@[0].id@ == "yahoo"@,
            r@[0].name@ == "Yahoo Finance"@,
            r@[1].id@ == "justetf"@,
            r@[1].name@ == "JustETF"@,
    {
        let mut r: Vec<ProviderInfo> = Vec::new();
        r.push(ProviderInfo {
            id: String::from_str("yahoo"),
            name: String::from_str("Yahoo Finance"),
        });
        r.push(ProviderInfo {
            id: String::from_str("justetf"),
            name: String::from_str("JustETF"),
        });
        r
    }

    /// Decide what to do with one instrument, before any network work.
    ///
    /// A missing or empty provider and an unknown provider short-circuit to
    /// a failed result — no error is raised. A known provider with neither
    /// ticker nor ISIN raises `InvalidInput`: that is caller
    /// misconfiguration, not a transient condition. Otherwise the plan
    /// names the provider and the ticker (the ticker symbol, else the
    /// ISIN).
    pub fn fetch_plan(&self, investment: &Investment) -> (r: Result<FetchPlan, AppError>)
        ensures
            no_provider_configured(*investment) ==> (r matches Ok(p) && p matches FetchPlan::Done(
                res,
            ) && failed_result(res, investment.id, "No quote provider configured"@)),
            provider_unknown(*investment) ==> (r matches Ok(p) && p matches FetchPlan::Done(res)
                && failed_result(
                res,
                investment.id,
                "Unknown provider: "@ + investment.quote_provider->Some_0@,
            )),
            !no_provider_configured(*investment) && !provider_unknown(*investment) && no_ticker(
                *investment,
            ) ==> (r matches Err(e) && e matches AppError::InvalidInput(m) && m@
                == "Investment has no ticker or ISIN"@),
            plan_fetches(*investment) ==> (r matches Ok(p) && p matches FetchPlan::Fetch {
                provider,
                ticker,
            } && provider@ == investment.quote_provider->Some_0@ && ticker@ == fetch_ticker(
                *investment,
            )),
    {
        match &investment.quote_provider {
            Some(p) => {
                if p.as_str().is_empty() {
                    Ok(FetchPlan::Done(failed_fetch(
                        investment.id,
                        String::from_str("No quote provider configured"),
                    )))
                } else if !is_known_provider(p) {
                    Ok(FetchPlan::Done(failed_fetch(
                        investment.id,
                        String::from_str("Unknown provider: ").concat(p.as_str()),
                    )))
                } else {
                    match &investment.ticker_symbol {
                        Some(t) => Ok(FetchPlan::Fetch { provider: p.clone(), ticker: t.clone() }),
                        None => match &investment.isin {
                            Some(isin) => Ok(FetchPlan::Fetch {
                                provider: p.clone(),
                                ticker: isin.clone(),
                            }),
                            None => Err(AppError::InvalidInput(String::from_str(
                                "Investment has no ticker or ISIN",
                            ))),
                        },
                    }
                }
            },
            None => Ok(FetchPlan::Done(failed_fetch(
                investment.id,
                String::from_str("No quote provider configured"),
            ))),
        }
    }
}

/// The stored row one converted quote produces: keyed by the quote's day,
/// the instrument, and the provider identifier the quote names.
pub open spec fn quote_to_row(q: QuoteData, price: i64, investment_id: i64) -> InvestmentPrice {
    InvestmentPrice {
        date: Some(q.date),
        investment_id: Some(investment_id),
        price: Some(price),
        source: Some(q.source),
    }
}

/// A converted price, rounded down to the fixed-point grid.
pub open spec fn converted_price(price: i64, rate: i64) -> i64 {
    converted_amount(price, rate) as i64
}

/// What ingesting a fetched quote list does to the store: each quote in the
/// base currency is upserted as it is; each other quote is upserted after
/// conversion, skipped when its day has no rate. A hard rate-lookup failure
/// stops the ingestion there, keeping what was stored before it. The result
/// is the final store contents, the count of stored quotes, and whether
/// ingestion ran to the end without a hard failure.
pub open spec fn ingest_spec(
    rows: Seq<InvestmentPrice>,
    quotes: Seq<QuoteData>,
    rates: Seq<RateAnswer>,
    base: Seq<char>,
    investment_id: i64,
) -> (Seq<InvestmentPrice>, nat, bool)
    decreases quotes.len(),
{
    if quotes.len() == 0 {
        (rows, 0nat, true)
    } else {
        let q = quotes.first();
        if q.currency@ == base {
            let rec = ingest_spec(
                upsert_spec(rows, quote_to_row(q, q.price, investment_id)),
                quotes.drop_first(),
                rates.drop_first(),
                base,
                investment_id,
            );
            (rec.0, (rec.1 + 1) as nat, rec.2)
        } else {
            match rates.first() {
                RateAnswer::Rate(x) => {
                    let rec = ingest_spec(
                        upsert_spec(
                            rows,
                            quote_to_row(q, converted_price(q.price, x), investment_id),
                        ),
                        quotes.drop_first(),
                        rates.drop_first(),
                        base,
                        investment_id,
                    );
                    (rec.0, (rec.1 + 1) as nat, rec.2)
                },
                RateAnswer::Unavailable => ingest_spec(
                    rows,
                    quotes.drop_first(),
                    rates.drop_first(),
                    base,
                    investment_id,
                ),
                RateAnswer::Failed => (rows, 0nat, false),
            }
        }
    }
}

impl QuoteFetcherService {
    /// Synchronize one instrument: decide the plan, and — when the plan
    /// fetches — take the provider's answer, convert each quote into the
    /// base currency with the handed-in rate lookups, and upsert the
    /// results into the store.
    ///
    /// Third-party failures never fail the call: a provider failure and an
    /// empty answer become a failed result; a quote whose day has no rate
    /// is skipped without jeopardizing the call; a hard rate-lookup failure
    /// stops the ingestion and is captured in the result too, keeping and
    /// counting what was stored before it. Success reports how many quotes
    /// were stored. The one raised error is caller misconfiguration: an
    /// instrument with neither ticker nor ISIN. `rates` holds one entry per
    /// fetched quote; entries of quotes already in the base currency are
    /// not consulted.
    pub fn fetch_quotes_for_investment(
        &self,
        investment: &Investment,
        answer: &ProviderAnswer,
        rates: &Vec<RateAnswer>,
        store: &mut QuoteStore,
    ) -> (r: Result<QuoteFetchResult, AppError>)
        requires
            *answer matches ProviderAnswer::Quotes(qs) ==> {
                &&& rates@.len() == qs@.len()
                &&& forall|i: int|
                    0 <= i < qs@.len() ==> 0 <= (#[trigger] qs@[i]).price <= VALUE_LIMIT
                &&& old(store)@.len() + qs@.len() <= usize::MAX
            },
            forall|i: int|
                0 <= i < rates@.len() ==> ((#[trigger] rates@[i]) matches RateAnswer::Rate(x) ==> 0
                    <= x <= RATE_LIMIT),
        ensures
            no_provider_configured(*investment) ==> (final(store)@ == old(store)@ && (r
                matches Ok(res) && failed_result(
                res,
                investment.id,
                "No quote provider configured"@,
            ))),
            provider_unknown(*investment) ==> (final(store)@ == old(store)@ && (r matches Ok(res)
                && failed_result(
                res,
                investment.id,
                "Unknown provider: "@ + investment.quote_provider->Some_0@,
            ))),
            !no_provider_configured(*investment) && !provider_unknown(*investment) && no_ticker(
                *investment,
            ) ==> (final(store)@ == old(store)@ && (r matches Err(e) && e
                matches AppError::InvalidInput(m) && m@ == "Investment has no ticker or ISIN"@)),
            plan_fetches(*investment) ==> match *answer {
                ProviderAnswer::Failed(msg) => final(store)@ == old(store)@ && (r matches Ok(res)
                    && failed_result(res, investment.id, "Provider error: "@ + msg@)),
                ProviderAnswer::Quotes(qs) => if qs@.len() == 0 {
                    final(store)@ == old(store)@ && (r matches Ok(res) && failed_result(
                        res,
                        investment.id,
                        "No quote data returned from provider"@,
                    ))
                } else {
                    let outcome = ingest_spec(
                        old(store)@,
                        qs@,
                        rates@,
                        self.base_currency@,
                        investment.id,
                    );
                    final(store)@ == outcome.0 && (r matches Ok(res) && res.investment_id
                        == investment.id && res.quotes_stored == outcome.1 && res.success
                        == outcome.2 && (outcome.2 ==> res.error is None) && (!outcome.2 ==> (
                    res.error matches Some(m) && m@ == "Currency conversion failed"@)))
                },
            },
            at_most_one_per_key(old(store)@) ==> at_most_one_per_key(final(store)@),
    {
        let plan = self.fetch_plan(investment);
        match plan {
            Err(e) => Err(e),
            Ok(FetchPlan::Done(res)) => Ok(res),
            Ok(FetchPlan::Fetch { provider: _, ticker: _ }) => {
                match answer {
                    ProviderAnswer::Failed(msg) => Ok(failed_fetch(
                        investment.id,
                        String::from_str("Provider error: ").concat(msg.as_str()),
                    )),
                    ProviderAnswer::Quotes(qs) => {
                        if qs.len() == 0 {
                            Ok(failed_fetch(
                                investment.id,
                                String::from_str("No quote data returned from provider"),
                            ))
                        } else {
                            Ok(self.ingest_quotes(investment.id, qs, rates, store))
                        }
                    },
                }
            },
        }
    }

    /// Convert and upsert a non-empty fetched quote list, one quote at a
    /// time, in order. A hard rate-lookup failure is captured in the
    /// result, never raised.
    fn ingest_quotes(
        &self,
        investment_id: i64,
        qs: &Vec<QuoteData>,
        rates: &Vec<RateAnswer>,
        store: &mut QuoteStore,
    ) -> (r: QuoteFetchResult)
        requires
            rates@.len() == qs@.len(),
            forall|i: int| 0 <= i < qs@.len() ==> 0 <= (#[trigger] qs@[i]).price <= VALUE_LIMIT,
            old(store)@.len() + qs@.len() <= usize::MAX,
            forall|i: int|
                0 <= i < rates@.len() ==> ((#[trigger] rates@[i]) matches RateAnswer::Rate(x) ==> 0
                    <= x <= RATE_LIMIT),
        ensures
            ({
                let outcome = ingest_spec(
                    old(store)@,
                    qs@,
                    rates@,
                    self.base_currency@,
                    investment_id,
                );
                &&& final(store)@ == outcome.0
                &&& r.investment_id == investment_id
                &&& r.quotes_stored == outcome.1
                &&& r.success == outcome.2
                &&& outcome.2 ==> r.error is None
                &&& !outcome.2 ==> (r.error matches Some(m) && m@
                    == "Currency conversion failed"@)
            }),
            at_most_one_per_key(old(store)@) ==> at_most_one_per_key(final(store)@),
    {
        let n = qs.len();
        proof {
            assert(qs@.skip(0) =~= qs@);
            assert(rates@.skip(0) =~= rates@);
        }
        let mut stored: usize = 0;
        let mut i: usize = 0;
        while i < n
            invariant
                n == qs@.len(),
                i <= n,
                stored <= i,
                rates@.len() == qs@.len(),
                forall|t: int| 0 <= t < qs@.len() ==> 0 <= (#[trigger] qs@[t]).price <= VALUE_LIMIT,
                forall|t: int|
                    0 <= t < rates@.len() ==> ((#[trigger] rates@[t]) matches RateAnswer::Rate(x)
                        ==> 0 <= x <= RATE_LIMIT),
                old(store)@.len() + qs@.len() <= usize::MAX,
                store@.len() <= old(store)@.len() + i,
                ({
                    let whole = ingest_spec(
                        old(store)@,
                        qs@,
                        rates@,
                        self.base_currency@,
                        investment_id,
                    );
                    let rem = ingest_spec(
                        store@,
                        qs@.skip(i as int),
                        rates@.skip(i as int),
                        self.base_currency@,
                        investment_id,
                    );
                    whole.0 == rem.0 && whole.1 == (stored + rem.1) as nat && whole.2 == rem.2
                }),
                at_most_one_per_key(old(store)@) ==> at_most_one_per_key(store@),
            decreases n - i,
        {
            proof {
                assert(qs@.skip(i as int).first() == qs@[i as int]);
                assert(qs@.skip(i as int).drop_first() =~= qs@.skip(i as int + 1));
                assert(rates@.skip(i as int).first() == rates@[i as int]);
                assert(rates@.skip(i as int).drop_first() =~= rates@.skip(i as int + 1));
            }
            let q = &qs[i];
            if q.currency == self.base_currency {
                let row = InvestmentPrice {
                    date: Some(q.date),
                    investment_id: Some(investment_id),
                    price: Some(q.price),
                    source: Some(q.source.clone()),
                };
                proof {
                    assert(row == quote_to_row(qs@[i as int], qs@[i as int].price, investment_id));
                }
                store.upsert(&row);
                stored = stored + 1;
            } else {
                match self.currency_converter.convert(
                    q.price,
                    &q.currency,
                    &self.base_currency,
                    &rates[i],
                ) {
                    Err(_) => {
                        return QuoteFetchResult {
                            investment_id,
                            success: false,
                            error: Some(String::from_str("Currency conversion failed")),
                            quotes_stored: stored,
                        };
                    },
                    Ok(None) => {},
                    Ok(Some(v)) => {
                        let row = InvestmentPrice {
                            date: Some(q.date),
                            investment_id: Some(investment_id),
                            price: Some(v),
                            source: Some(q.source.clone()),
                        };
                        proof {
                            let x = rates@[i as int]->Rate_0;
                            assert(v == converted_price(qs@[i as int].price, x));
                            assert(row == quote_to_row(qs@[i as int], v, investment_id));
                        }
                        store.upsert(&row);
                        stored = stored + 1;
                    },
                }
            }
            i = i + 1;
        }
        proof {
            assert(qs@.skip(n as int) =~= Seq::<QuoteData>::empty());
            assert(rates@.skip(n as int) =~= Seq::<RateAnswer>::empty());
        }
        QuoteFetchResult { investment_id, success: true, error: None, quotes_stored: stored }
    }
}

impl QuoteFetcherService {
    /// Fetch only the latest quote for one instrument, already resolved by
    /// the caller from its identifier.
    ///
    /// A missing instrument raises `NotFound`. The plan short-circuits as
    /// in [`Self::fetch_plan`]. A provider failure or an empty answer
    /// becomes a failed result. Unlike the batch fetch, a day without a
    /// rate fails the single fetch ("Currency conversion failed") rather
    /// than skipping, and so does a hard rate-lookup failure — both as a
    /// captured result, never an error. On success the converted quote is
    /// upserted and returned.
    pub fn fetch_latest_quote_for_investment(
        &self,
        investment_id: i64,
        investment: &Option<Investment>,
        answer: &SingleQuoteAnswer,
        rate: &RateAnswer,
        store: &mut QuoteStore,
    ) -> (r: Result<(QuoteFetchResult, Option<InvestmentPrice>), AppError>)
        requires
            *investment matches Some(inv) ==> inv.id == investment_id,
            *answer matches SingleQuoteAnswer::Quote(q) ==> 0 <= q.price <= VALUE_LIMIT,
            *rate matches RateAnswer::Rate(x) ==> 0 <= x <= RATE_LIMIT,
            old(store)@.len() < usize::MAX,
        ensures
            *investment is None ==> (final(store)@ == old(store)@ && (r matches Err(e) && e
                is NotFound)),
            *investment matches Some(inv) ==> {
                &&& no_provider_configured(inv) ==> (final(store)@ == old(store)@ && (r
                    matches Ok(p) && failed_result(
                    p.0,
                    investment_id,
                    "No quote provider configured"@,
                ) && p.1 is None))
                &&& provider_unknown(inv) ==> (final(store)@ == old(store)@ && (r matches Ok(p)
                    && failed_result(
                    p.0,
                    investment_id,
                    "Unknown provider: "@ + inv.quote_provider->Some_0@,
                ) && p.1 is None))
                &&& (!no_provider_configured(inv) && !provider_unknown(inv) && no_ticker(inv))
                    ==> (final(store)@ == old(store)@ && (r matches Err(e) && e
                    matches AppError::InvalidInput(m) && m@
                    == "Investment has no ticker or ISIN"@))
                &&& plan_fetches(inv) ==> match *answer {
                    SingleQuoteAnswer::Failed(msg) => final(store)@ == old(store)@ && (r
                        matches Ok(p) && failed_result(
                        p.0,
                        investment_id,
                        "Provider error: "@ + msg@,
                    ) && p.1 is None),
                    SingleQuoteAnswer::NoQuote => final(store)@ == old(store)@ && (r matches Ok(p)
                        && failed_result(
                        p.0,
                        investment_id,
                        "No quote data returned from provider"@,
                    ) && p.1 is None),
                    SingleQuoteAnswer::Quote(q) => if q.currency@ == self.base_currency@ {
                        let row = quote_to_row(q, q.price, investment_id);
                        final(store)@ == upsert_spec(old(store)@, row) && (r matches Ok(p)
                            && p.0.investment_id == investment_id && p.0.success && p.0.error
                            is None && p.0.quotes_stored == 1 && p.1 == Some(row))
                    } else {
                        match *rate {
                            RateAnswer::Rate(x) => {
                                let row = quote_to_row(
                                    q,
                                    converted_price(q.price, x),
                                    investment_id,
                                );
                                final(store)@ == upsert_spec(old(store)@, row) && (r matches Ok(p)
                                    && p.0.investment_id == investment_id && p.0.success
                                    && p.0.error is None && p.0.quotes_stored == 1 && p.1 == Some(
                                    row,
                                ))
                            },
                            RateAnswer::Unavailable => final(store)@ == old(store)@ && (r
                                matches Ok(p) && failed_result(
                                p.0,
                                investment_id,
                                "Currency conversion failed"@,
                            ) && p.1 is None),
                            RateAnswer::Failed => final(store)@ == old(store)@ && (r matches Ok(p)
                                && failed_result(
                                p.0,
                                investment_id,
                                "Currency conversion failed"@,
                            ) && p.1 is None),
                        }
                    },
                }
            },
            at_most_one_per_key(old(store)@) ==> at_most_one_per_key(final(store)@),
    {
        let inv = match investment {
            Some(inv) => inv,
            None => {
                return Err(AppError::NotFound);
            },
        };
        let plan = self.fetch_plan(inv);
        match plan {
            Err(e) => Err(e),
            Ok(FetchPlan::Done(res)) => Ok((res, None)),
            Ok(FetchPlan::Fetch { provider: _, ticker: _ }) => {
                match answer {
                    SingleQuoteAnswer::Failed(msg) => Ok((
                        failed_fetch(
                            investment_id,
                            String::from_str("Provider error: ").concat(msg.as_str()),
                        ),
                        None,
                    )),
                    SingleQuoteAnswer::NoQuote => Ok((
                        failed_fetch(
                            investment_id,
                            String::from_str("No quote data returned from provider"),
                        ),
                        None,
                    )),
                    SingleQuoteAnswer::Quote(q) => {
                        let price_in_base = if q.currency == self.base_currency {
                            q.price
                        } else {
                            match self.currency_converter.convert(
                                q.price,
                                &q.currency,
                                &self.base_currency,
                                rate,
                            ) {
                                Ok(Some(v)) => v,
                                _ => {
                                    return Ok((
                                        failed_fetch(
                                            investment_id,
                                            String::from_str("Currency conversion failed"),
                                        ),
                                        None,
                                    ));
                                },
                            }
                        };
                        let row = InvestmentPrice {
                            date: Some(q.date),
                            investment_id: Some(investment_id),
                            price: Some(price_in_base),
                            source: Some(q.source.clone()),
                        };
                        store.upsert(&row);
                        Ok((
                            QuoteFetchResult {
                                investment_id,
                                success: true,
                                error: None,
                                quotes_stored: 1,
                            },
                            Some(row.clone()),
                        ))
                    },
                }
            },
        }
    }
}

/// The first listed investment with this identifier, if any.
pub open spec fn find_investment(invs: Seq<Investment>, id: i64) -> Option<Investment>
    decreases invs.len(),
{
    if invs.len() == 0 {
        None
    } else {
        let earlier = find_investment(invs.drop_last(), id);
        if earlier is Some {
            earlier
        } else if invs.last().id == id {
            Some(invs.last())
        } else {
            None
        }
    }
}

/// The investments the requested identifiers resolve to, in request order;
/// identifiers that match nothing are silently dropped.
pub open spec fn resolve_ids(invs: Seq<Investment>, ids: Seq<i64>) -> Seq<Investment>
    decreases ids.len(),
{
    if ids.len() == 0 {
        Seq::<Investment>::empty()
    } else {
        let rest = resolve_ids(invs, ids.drop_last());
        match find_investment(invs, ids.last()) {
            Some(inv) => rest.push(inv),
            None => rest,
        }
    }
}

/// The investments with a configured, non-empty provider, in listed order.
pub open spec fn with_provider(invs: Seq<Investment>) -> Seq<Investment>
    decreases invs.len(),
{
    if invs.len() == 0 {
        Seq::<Investment>::empty()
    } else {
        let rest = with_provider(invs.drop_last());
        if !no_provider_configured(invs.last()) {
            rest.push(invs.last())
        } else {
            rest
        }
    }
}

/// The first listed investment with this identifier, if any.
fn find_investment_by_id(investments: &Vec<Investment>, id: i64) -> (r: Option<Investment>)
    ensures
        r == find_investment(investments@, id),
{
    let n = investments.len();
    let mut found: Option<usize> = None;
    let mut i: usize = 0;
    while i < n
        invariant
            n == investments@.len(),
            i <= n,
            match found {
                None => find_investment(investments@.take(i as int), id) is None,
                Some(ix) => ix < i && find_investment(investments@.take(i as int), id) == Some(
                    investments@[ix as int],
                ),
            },
        decreases n - i,
    {
        proof {
            assert(investments@.take(i as int + 1).drop_last() =~= investments@.take(i as int));
            assert(investments@.take(i as int + 1).last() == investments@[i as int]);
        }
        if found.is_none() && investments[i].id == id {
            found = Some(i);
        }
        i = i + 1;
    }
    proof {
        assert(investments@.take(n as int) =~= investments@);
    }
    match found {
        Some(ix) => Some(investments[ix].clone()),
        None => None,
    }
}

/// The target set of a multi-instrument fetch: the listed identifiers
/// resolved in order (missing ones silently dropped), or — when no list is
/// given — every investment with a configured, non-empty provider.
pub fn select_targets(investments: &Vec<Investment>, investment_ids: &Option<Vec<i64>>) -> (r:
    Vec<Investment>)
    ensures
        r@ == match *investment_ids {
            Some(ids) => resolve_ids(investments@, ids@),
            None => with_provider(investments@),
        },
{
    match investment_ids {
        Some(ids) => {
            let n = ids.len();
            let mut r: Vec<Investment> = Vec::new();
            let mut i: usize = 0;
            while i < n
                invariant
                    n == ids@.len(),
                    i <= n,
                    r@ == resolve_ids(investments@, ids@.take(i as int)),
                decreases n - i,
            {
                proof {
                    assert(ids@.take(i as int + 1).drop_last() =~= ids@.take(i as int));
                    assert(ids@.take(i as int + 1).last() == ids@[i as int]);
                }
                if let Some(inv) = find_investment_by_id(investments, ids[i]) {
                    r.push(inv);
                }
                i = i + 1;
            }
            proof {
                assert(ids@.take(n as int) =~= ids@);
            }
            r
        },
        None => {
            let n = investments.len();
            let mut r: Vec<Investment> = Vec::new();
            let mut i: usize = 0;
            while i < n
                invariant
                    n == investments@.len(),
                    i <= n,
                    r@ == with_provider(investments@.take(i as int)),
                decreases n - i,
            {
                proof {
                    assert(investments@.take(i as int + 1).drop_last() =~= investments@.take(
                        i as int,
                    ));
                    assert(investments@.take(i as int + 1).last() == investments@[i as int]);
                }
                let inv = &investments[i];
                let keep = match &inv.quote_provider {
                    Some(p) => !p.as_str().is_empty(),
                    None => false,
                };
                if keep {
                    r.push(inv.clone());
                }
                i = i + 1;
            }
            proof {
                assert(investments@.take(n as int) =~= investments@);
            }
            r
        },
    }
}

} // verus!
