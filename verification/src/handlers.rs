//! Request and response shapes of the service boundary, and the decisions
//! the boundary makes before and after the engine runs: input validation,
//! defaulting, and result aggregation. Transport, routing and
//! serialization stay with the caller.

use vstd::prelude::*;
use vstd::string::StringExecFns;

use crate::error::AppError;
use crate::models::{ActionType, Investment, Settings};
use crate::quote_fetcher::{
    failed_result, no_provider_configured, provider_known, QuoteFetchResult,
};

verus! {

/// An action kind, shaped for the caller.
#[derive(Debug)]
pub struct ActionTypeResponse {
    pub id: i64,
    pub name: String,
}

impl From<ActionType> for ActionTypeResponse {
    /// The response carrying the record's fields.
    fn from(at: ActionType) -> (r: Self) {
        ActionTypeResponse { id: at.id, name: at.name }
    }
}

impl vstd::std_specs::convert::FromSpecImpl<ActionType> for ActionTypeResponse {
    open spec fn obeys_from_spec() -> bool {
        true
    }

    open spec fn from_spec(at: ActionType) -> Self {
        ActionTypeResponse { id: at.id, name: at.name }
    }
}

/// An instrument master record, shaped for the caller.
#[derive(Debug)]
pub struct InvestmentResponse {
    pub id: i64,
    pub name: Option<String>,
    pub isin: Option<String>,
    pub shortname: Option<String>,
    pub ticker_symbol: Option<String>,
    pub quote_provider: Option<String>,
}

impl From<Investment> for InvestmentResponse {
    /// The response carrying the record's fields.
    fn from(inv: Investment) -> (r: Self) {
        InvestmentResponse {
            id: inv.id,
            name: inv.name,
            isin: inv.isin,
            shortname: inv.shortname,
            ticker_symbol: inv.ticker_symbol,
            quote_provider: inv.quote_provider,
        }
    }
}

impl vstd::std_specs::convert::FromSpecImpl<Investment> for InvestmentResponse {
    open spec fn obeys_from_spec() -> bool {
        true
    }

    open spec fn from_spec(inv: Investment) -> Self {
        InvestmentResponse {
            id: inv.id,
            name: inv.name,
            isin: inv.isin,
            shortname: inv.shortname,
            ticker_symbol: inv.ticker_symbol,
            quote_provider: inv.quote_provider,
        }
    }
}

/// What a caller may set on an instrument.
#[derive(Debug)]
pub struct CreateInvestmentRequest {
    pub name: Option<String>,
    pub isin: Option<String>,
    pub shortname: Option<String>,
    pub ticker_symbol: Option<String>,
    pub quote_provider: Option<String>,
}

/// The stored record a creation or update request describes, under the
/// given identifier.
pub fn investment_from_request(id: i64, req: CreateInvestmentRequest) -> (inv: Investment)
    ensures
        inv == (Investment {
            id,
            name: req.name,
            isin: req.isin,
            shortname: req.shortname,
            ticker_symbol: req.ticker_symbol,
            quote_provider: req.quote_provider,
        }),
{
    Investment {
        id,
        name: req.name,
        isin: req.isin,
        shortname: req.shortname,
        ticker_symbol: req.ticker_symbol,
        quote_provider: req.quote_provider,
    }
}

/// Reject a provider identifier the registry does not know.
///
/// Exactly the registered identifiers pass; anything else is the caller's
/// misconfiguration and raises `InvalidInput`.
pub fn validate_quote_provider(provider: &str) -> (r: Result<(), AppError>)
    ensures
        r is Ok <==> provider_known(provider@),
        !provider_known(provider@) ==> (r matches Err(e) && e matches AppError::InvalidInput(m)
            && m@ == "Invalid quote provider '"@ + provider@
            + "'. Valid providers are: yahoo, justetf"@),
{
    let p = String::from_str(provider);
    if p == String::from_str("yahoo") || p == String::from_str("justetf") {
        Ok(())
    } else {
        Err(AppError::InvalidInput(
            String::from_str("Invalid quote provider '").concat(provider).concat(
                "'. Valid providers are: yahoo, justetf",
            ),
        ))
    }
}

/// The settings record, shaped for the caller.
#[derive(Debug)]
pub struct SettingsResponse {
    pub id: i64,
    pub base_currency: String,
}

impl From<Settings> for SettingsResponse {
    /// The response carrying the record's fields.
    fn from(s: Settings) -> (r: Self) {
        SettingsResponse { id: s.id, base_currency: s.base_currency }
    }
}

impl vstd::std_specs::convert::FromSpecImpl<Settings> for SettingsResponse {
    open spec fn obeys_from_spec() -> bool {
        true
    }

    open spec fn from_spec(s: Settings) -> Self {
        SettingsResponse { id: s.id, base_currency: s.base_currency }
    }
}

/// What a caller may change in the settings.
#[derive(Debug)]
pub struct UpdateSettingsRequest {
    pub base_currency: String,
}

/// The settings row an update request describes; there is a single row,
/// under identifier one.
pub fn settings_from_request(req: UpdateSettingsRequest) -> (s: Settings)
    ensures
        s.id == 1,
        s.base_currency == req.base_currency,
{
    Settings { id: 1, base_currency: req.base_currency }
}

/// The configured base currency, with the documented fallback when no
/// settings row exists.
pub fn base_currency_or_default(settings: &Option<Settings>) -> (r: String)
    ensures
        match settings {
            Some(s) => r@ == s.base_currency@,
            None => r@ == "EUR"@,
        },
{
    match settings {
        Some(s) => s.base_currency.clone(),
        None => String::from_str("EUR"),
    }
}

/// How many of the per-instrument outcomes succeeded.
pub open spec fn success_count(rs: Seq<QuoteFetchResult>) -> nat
    decreases rs.len(),
{
    if rs.len() == 0 {
        0
    } else {
        success_count(rs.drop_last()) + if rs.last().success {
            1nat
        } else {
            0nat
        }
    }
}

/// A multi-instrument fetch shaped for the caller: the per-instrument
/// outcomes and the summary counts derived from them.
#[derive(Debug)]
pub struct FetchQuotesResponse {
    pub results: Vec<QuoteFetchResult>,
    pub total: usize,
    pub successful: usize,
    pub failed: usize,
}

/// Derive the summary counts from the per-instrument outcomes.
pub fn summarize_results(results: Vec<QuoteFetchResult>) -> (r: FetchQuotesResponse)
    ensures
        r.results@ == results@,
        r.total == results@.len(),
        r.successful == success_count(results@),
        r.failed == results@.len() - success_count(results@),
{
    let n = results.len();
    let mut successful: usize = 0;
    let mut i: usize = 0;
    while i < n
        invariant
            n == results@.len(),
            i <= n,
            successful <= i,
            successful == success_count(results@.take(i as int)),
        decreases n - i,
    {
        proof {
            assert(results@.take(i as int + 1).drop_last() =~= results@.take(i as int));
            assert(results@.take(i as int + 1).last() == results@[i as int]);
        }
        if results[i].success {
            successful = successful + 1;
        }
        i = i + 1;
    }
    proof {
        assert(results@.take(n as int) =~= results@);
    }
    let failed = n - successful;
    FetchQuotesResponse { results, total: n, successful, failed }
}

/// One instrument's fetch shaped for the caller.
#[derive(Debug)]
pub struct FetchQuotesForInvestmentResponse {
    pub investment_id: i64,
    pub success: bool,
    pub error: Option<String>,
    pub quotes_fetched: usize,
    pub provider: Option<String>,
}

/// What the latest-quotes boundary does before any network work: a missing
/// instrument and a missing provider answer immediately; otherwise the
/// fetch proceeds under the instrument's provider and the configured base
/// currency (or its default).
#[derive(Debug)]
pub enum LatestQuotesStep {
    /// Answer the caller with this response; nothing is fetched.
    Respond(FetchQuotesForInvestmentResponse),
    /// Fetch under this provider, converting into this base currency.
    Fetch { base_currency: String, provider: String },
}

/// Decide the latest-quotes boundary step for one instrument.
pub fn plan_latest_quotes(
    investment_id: i64,
    investment: &Option<Investment>,
    settings: &Option<Settings>,
) -> (r: LatestQuotesStep)
    ensures
        *investment is None ==> (r matches LatestQuotesStep::Respond(resp)
            && resp.investment_id == investment_id && !resp.success && resp.quotes_fetched == 0
            && resp.provider is None && (resp.error matches Some(m) && m@
            == "Investment not found"@)),
        *investment matches Some(inv) ==> (no_provider_configured(inv) ==> (r
            matches LatestQuotesStep::Respond(resp) && resp.investment_id == investment_id
            && !resp.success && resp.quotes_fetched == 0 && resp.provider is None && (resp.error
            matches Some(m) && m@ == "No quote provider configured"@))),
        *investment matches Some(inv) ==> (!no_provider_configured(inv) ==> (r
            matches LatestQuotesStep::Fetch { base_currency, provider } && provider@
            == inv.quote_provider->Some_0@ && base_currency@ == match settings {
            Some(s) => s.base_currency@,
            None => "EUR"@,
        })),
{
    match investment {
        None => LatestQuotesStep::Respond(FetchQuotesForInvestmentResponse {
            investment_id,
            success: false,
            error: Some(String::from_str("Investment not found")),
            quotes_fetched: 0,
            provider: None,
        }),
        Some(inv) => {
            match &inv.quote_provider {
                Some(p) => {
                    if p.as_str().is_empty() {
                        LatestQuotesStep::Respond(FetchQuotesForInvestmentResponse {
                            investment_id,
                            success: false,
                            error: Some(String::from_str("No quote provider configured")),
                            quotes_fetched: 0,
                            provider: None,
                        })
                    } else {
                        let base_currency = base_currency_or_default(settings);
                        LatestQuotesStep::Fetch { base_currency, provider: p.clone() }
                    }
                },
                None => LatestQuotesStep::Respond(FetchQuotesForInvestmentResponse {
                    investment_id,
                    success: false,
                    error: Some(String::from_str("No quote provider configured")),
                    quotes_fetched: 0,
                    provider: None,
                }),
            }
        },
    }
}

/// Shape one instrument's fetch outcome for the caller, naming the provider
/// that served it.
pub fn fetch_response_from_result(result: QuoteFetchResult, provider: Option<String>) -> (r:
    FetchQuotesForInvestmentResponse)
    ensures
        r.investment_id == result.investment_id,
        r.success == result.success,
        r.error == result.error,
        r.quotes_fetched == result.quotes_stored,
        r.provider == provider,
{
    FetchQuotesForInvestmentResponse {
        investment_id: result.investment_id,
        success: result.success,
        error: result.error,
        quotes_fetched: result.quotes_stored,
        provider,
    }
}

} // verus!
