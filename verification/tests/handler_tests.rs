use portfoliodb_rust::error::AppError;
use portfoliodb_rust::handlers::{
    base_currency_or_default, fetch_response_from_result, investment_from_request,
    plan_latest_quotes, settings_from_request, summarize_results, validate_quote_provider,
    ActionTypeResponse, CreateInvestmentRequest, InvestmentResponse, LatestQuotesStep,
    SettingsResponse, UpdateSettingsRequest,
};
use portfoliodb_rust::models::{ActionType, Investment, Settings};
use portfoliodb_rust::quote_fetcher::QuoteFetchResult;

fn result(investment_id: i64, success: bool) -> QuoteFetchResult {
    QuoteFetchResult {
        investment_id,
        success,
        error: if success { None } else { Some("failed".to_string()) },
        quotes_stored: if success { 3 } else { 0 },
    }
}

#[test]
fn test_validate_quote_provider_valid() {
    assert!(validate_quote_provider("yahoo").is_ok());
    assert!(validate_quote_provider("justetf").is_ok());
}

#[test]
fn test_validate_quote_provider_invalid() {
    let err = validate_quote_provider("invalid_provider").unwrap_err();
    match err {
        AppError::InvalidInput(msg) => {
            assert_eq!(
                msg,
                "Invalid quote provider 'invalid_provider'. Valid providers are: yahoo, justetf"
            );
        }
        other => panic!("expected InvalidInput, got {:?}", other),
    }
}

#[test]
fn test_investment_from_request() {
    let req = CreateInvestmentRequest {
        name: Some("Apple Inc.".to_string()),
        isin: Some("US0378331005".to_string()),
        shortname: Some("AAPL".to_string()),
        ticker_symbol: Some("AAPL".to_string()),
        quote_provider: Some("yahoo".to_string()),
    };

    let inv = investment_from_request(0, req);
    assert_eq!(inv.id, 0);
    assert_eq!(inv.name.as_deref(), Some("Apple Inc."));
    assert_eq!(inv.quote_provider.as_deref(), Some("yahoo"));
}

#[test]
fn test_settings_from_request() {
    let s = settings_from_request(UpdateSettingsRequest { base_currency: "USD".to_string() });
    assert_eq!(s.id, 1);
    assert_eq!(s.base_currency, "USD");
}

#[test]
fn test_base_currency_or_default() {
    let some = Some(Settings { id: 1, base_currency: "CHF".to_string() });
    assert_eq!(base_currency_or_default(&some), "CHF");
    assert_eq!(base_currency_or_default(&None), "EUR");
}

#[test]
fn test_summarize_results() {
    let results = vec![result(1, true), result(2, false), result(3, true)];

    let summary = summarize_results(results);
    assert_eq!(summary.total, 3);
    assert_eq!(summary.successful, 2);
    assert_eq!(summary.failed, 1);
    assert_eq!(summary.results.len(), 3);
}

#[test]
fn test_summarize_results_empty() {
    let summary = summarize_results(vec![]);
    assert_eq!(summary.total, 0);
    assert_eq!(summary.successful, 0);
    assert_eq!(summary.failed, 0);
}

#[test]
fn test_plan_latest_quotes_not_found() {
    let step = plan_latest_quotes(42, &None, &None);
    match step {
        LatestQuotesStep::Respond(resp) => {
            assert_eq!(resp.investment_id, 42);
            assert!(!resp.success);
            assert_eq!(resp.error.as_deref(), Some("Investment not found"));
            assert_eq!(resp.quotes_fetched, 0);
            assert!(resp.provider.is_none());
        }
        LatestQuotesStep::Fetch { .. } => panic!("expected a response"),
    }
}

#[test]
fn test_plan_latest_quotes_no_provider() {
    let inv = Investment {
        id: 7,
        name: None,
        isin: None,
        shortname: None,
        ticker_symbol: Some("AAPL".to_string()),
        quote_provider: None,
    };
    let step = plan_latest_quotes(7, &Some(inv), &None);
    match step {
        LatestQuotesStep::Respond(resp) => {
            assert_eq!(resp.error.as_deref(), Some("No quote provider configured"));
        }
        LatestQuotesStep::Fetch { .. } => panic!("expected a response"),
    }
}

#[test]
fn test_plan_latest_quotes_fetches() {
    let inv = Investment {
        id: 7,
        name: None,
        isin: None,
        shortname: None,
        ticker_symbol: Some("AAPL".to_string()),
        quote_provider: Some("yahoo".to_string()),
    };
    let settings = Some(Settings { id: 1, base_currency: "USD".to_string() });
    let step = plan_latest_quotes(7, &Some(inv), &settings);
    match step {
        LatestQuotesStep::Fetch { base_currency, provider } => {
            assert_eq!(base_currency, "USD");
            assert_eq!(provider, "yahoo");
        }
        LatestQuotesStep::Respond(_) => panic!("expected a fetch"),
    }
}

#[test]
fn test_fetch_response_from_result() {
    let resp = fetch_response_from_result(result(9, true), Some("yahoo".to_string()));
    assert_eq!(resp.investment_id, 9);
    assert!(resp.success);
    assert_eq!(resp.quotes_fetched, 3);
    assert_eq!(resp.provider.as_deref(), Some("yahoo"));
}

#[test]
fn test_response_conversions() {
    let at = ActionType { id: 1, name: "Buy".to_string() };
    let ar: ActionTypeResponse = at.into();
    assert_eq!(ar.id, 1);
    assert_eq!(ar.name, "Buy");

    let inv = Investment {
        id: 3,
        name: Some("Apple".to_string()),
        isin: None,
        shortname: None,
        ticker_symbol: Some("AAPL".to_string()),
        quote_provider: Some("yahoo".to_string()),
    };
    let ir = InvestmentResponse::from(inv);
    assert_eq!(ir.id, 3);
    assert_eq!(ir.ticker_symbol.as_deref(), Some("AAPL"));

    let sr = SettingsResponse::from(Settings { id: 1, base_currency: "EUR".to_string() });
    assert_eq!(sr.id, 1);
    assert_eq!(sr.base_currency, "EUR");
}

#[test]
fn test_error_messages() {
    assert_eq!(AppError::NotFound.message(), "Not found");
    assert_eq!(
        AppError::Database("disk full".to_string()).message(),
        "Database error: disk full"
    );
    assert_eq!(
        AppError::ExternalApi("status 500".to_string()).message(),
        "External API error: status 500"
    );
    assert_eq!(
        AppError::CurrencyConversion.message(),
        "Currency conversion failed"
    );
    assert_eq!(
        AppError::InvalidInput("bad".to_string()).message(),
        "Invalid input: bad"
    );
    assert_eq!(
        AppError::Internal("oops".to_string()).message(),
        "Internal server error: oops"
    );
}
