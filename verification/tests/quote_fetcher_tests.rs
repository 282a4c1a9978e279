use portfoliodb_rust::currency_converter::RateAnswer;
use portfoliodb_rust::error::AppError;
use portfoliodb_rust::models::Investment;
use portfoliodb_rust::quote_fetcher::{
    select_targets, ProviderAnswer, QuoteFetcherService, SingleQuoteAnswer,
};
use portfoliodb_rust::quote_store::QuoteStore;
use portfoliodb_rust::quotes::QuoteData;

fn investment(
    id: i64,
    ticker_symbol: Option<&str>,
    isin: Option<&str>,
    quote_provider: Option<&str>,
) -> Investment {
    Investment {
        id,
        name: Some("Test Investment".to_string()),
        isin: isin.map(|s| s.to_string()),
        shortname: None,
        ticker_symbol: ticker_symbol.map(|s| s.to_string()),
        quote_provider: quote_provider.map(|s| s.to_string()),
    }
}

fn quote(date: i64, price: i64, currency: &str) -> QuoteData {
    QuoteData::new(
        "AAPL".to_string(),
        date,
        price,
        currency.to_string(),
        "yahoo".to_string(),
    )
}

#[test]
fn test_quote_fetcher_creation() {
    let service = QuoteFetcherService::new("EUR".to_string());

    let providers = service.get_available_providers();
    assert_eq!(providers.len(), 2, "Should have 2 providers (yahoo, justetf)");

    let provider_ids: Vec<String> = providers.iter().map(|p| p.id.clone()).collect();
    assert!(provider_ids.contains(&"yahoo".to_string()));
    assert!(provider_ids.contains(&"justetf".to_string()));
}

#[test]
fn test_fetch_quotes_no_provider() {
    let service = QuoteFetcherService::new("EUR".to_string());
    let inv = investment(1, Some("AAPL"), Some("US0378331005"), None);
    let mut store = QuoteStore::new();

    let result = service
        .fetch_quotes_for_investment(&inv, &ProviderAnswer::Quotes(vec![]), &vec![], &mut store)
        .unwrap();

    assert!(!result.success);
    assert!(result.error.is_some());
    assert!(result.error.unwrap().contains("No quote provider configured"));
    assert_eq!(result.quotes_stored, 0);
    assert_eq!(store.len(), 0);
}

#[test]
fn test_fetch_quotes_empty_provider() {
    let service = QuoteFetcherService::new("EUR".to_string());
    let inv = investment(1, Some("AAPL"), None, Some(""));
    let mut store = QuoteStore::new();

    let result = service
        .fetch_quotes_for_investment(&inv, &ProviderAnswer::Quotes(vec![]), &vec![], &mut store)
        .unwrap();

    assert!(!result.success);
    assert!(result.error.unwrap().contains("No quote provider configured"));
}

#[test]
fn test_fetch_quotes_unknown_provider() {
    let service = QuoteFetcherService::new("EUR".to_string());
    let inv = investment(1, Some("AAPL"), Some("US0378331005"), Some("unknown_provider"));
    let mut store = QuoteStore::new();

    let result = service
        .fetch_quotes_for_investment(&inv, &ProviderAnswer::Quotes(vec![]), &vec![], &mut store)
        .unwrap();

    assert!(!result.success);
    assert!(result.error.is_some());
    assert!(result.error.unwrap().contains("Unknown provider"));
}

#[test]
fn test_fetch_quotes_no_ticker() {
    let service = QuoteFetcherService::new("EUR".to_string());
    let inv = investment(1, None, None, Some("yahoo"));
    let mut store = QuoteStore::new();

    let result = service.fetch_quotes_for_investment(
        &inv,
        &ProviderAnswer::Quotes(vec![]),
        &vec![],
        &mut store,
    );

    assert!(result.is_err());
    assert!(matches!(result.unwrap_err(), AppError::InvalidInput(_)));
}

#[test]
fn test_fetch_quotes_provider_error_is_captured() {
    let service = QuoteFetcherService::new("EUR".to_string());
    let inv = investment(1, Some("AAPL"), None, Some("yahoo"));
    let mut store = QuoteStore::new();

    let result = service
        .fetch_quotes_for_investment(
            &inv,
            &ProviderAnswer::Failed("boom".to_string()),
            &vec![],
            &mut store,
        )
        .unwrap();

    assert!(!result.success);
    assert_eq!(result.error.unwrap(), "Provider error: boom");
    assert_eq!(store.len(), 0);
}

#[test]
fn test_fetch_quotes_empty_answer() {
    let service = QuoteFetcherService::new("EUR".to_string());
    let inv = investment(1, Some("AAPL"), None, Some("yahoo"));
    let mut store = QuoteStore::new();

    let result = service
        .fetch_quotes_for_investment(&inv, &ProviderAnswer::Quotes(vec![]), &vec![], &mut store)
        .unwrap();

    assert!(!result.success);
    assert_eq!(result.error.unwrap(), "No quote data returned from provider");
}

#[test]
fn test_fetch_quotes_stores_base_currency_quotes() {
    let service = QuoteFetcherService::new("EUR".to_string());
    let inv = investment(7, Some("AAPL"), None, Some("yahoo"));
    let mut store = QuoteStore::new();

    let quotes = vec![quote(1, 100_0000, "EUR"), quote(2, 101_0000, "EUR")];
    let rates = vec![RateAnswer::Unavailable, RateAnswer::Unavailable];

    let result = service
        .fetch_quotes_for_investment(&inv, &ProviderAnswer::Quotes(quotes), &rates, &mut store)
        .unwrap();

    assert!(result.success);
    assert!(result.error.is_none());
    assert_eq!(result.quotes_stored, 2);

    let rows = store.find_all(Some(7), None, None);
    assert_eq!(rows.len(), 2);
    assert_eq!(rows[0].price, Some(100_0000));
    assert_eq!(rows[1].price, Some(101_0000));
    assert_eq!(rows[0].source.as_deref(), Some("yahoo"));
}

#[test]
fn test_fetch_quotes_converts_foreign_currency() {
    let service = QuoteFetcherService::new("EUR".to_string());
    let inv = investment(7, Some("AAPL"), None, Some("yahoo"));
    let mut store = QuoteStore::new();

    // 100 USD at a rate of 0.5 becomes 50 EUR.
    let quotes = vec![quote(1, 100_0000, "USD")];
    let rates = vec![RateAnswer::Rate(5_000)];

    let result = service
        .fetch_quotes_for_investment(&inv, &ProviderAnswer::Quotes(quotes), &rates, &mut store)
        .unwrap();

    assert!(result.success);
    assert_eq!(result.quotes_stored, 1);
    let rows = store.find_all(Some(7), None, None);
    assert_eq!(rows[0].price, Some(50_0000));
}

#[test]
fn test_fetch_quotes_skips_unconvertible_day() {
    let service = QuoteFetcherService::new("EUR".to_string());
    let inv = investment(7, Some("AAPL"), None, Some("yahoo"));
    let mut store = QuoteStore::new();

    // The middle day has no rate: it is skipped, the call still succeeds.
    let quotes = vec![
        quote(1, 100_0000, "USD"),
        quote(2, 101_0000, "USD"),
        quote(3, 102_0000, "USD"),
    ];
    let rates = vec![
        RateAnswer::Rate(10_000),
        RateAnswer::Unavailable,
        RateAnswer::Rate(10_000),
    ];

    let result = service
        .fetch_quotes_for_investment(&inv, &ProviderAnswer::Quotes(quotes), &rates, &mut store)
        .unwrap();

    assert!(result.success, "partial success is still success");
    assert_eq!(result.quotes_stored, 2);
    assert_eq!(store.len(), 2);
}

#[test]
fn test_fetch_quotes_hard_conversion_failure() {
    let service = QuoteFetcherService::new("EUR".to_string());
    let inv = investment(7, Some("AAPL"), None, Some("yahoo"));
    let mut store = QuoteStore::new();

    let quotes = vec![quote(1, 100_0000, "EUR"), quote(2, 101_0000, "USD")];
    let rates = vec![RateAnswer::Unavailable, RateAnswer::Failed];

    // A hard rate-lookup failure is captured in the per-instrument result,
    // never raised: the call still answers.
    let result = service
        .fetch_quotes_for_investment(&inv, &ProviderAnswer::Quotes(quotes), &rates, &mut store)
        .unwrap();

    assert!(!result.success);
    assert_eq!(result.error.as_deref(), Some("Currency conversion failed"));
    // What was stored before the failure stays stored and counted.
    assert_eq!(result.quotes_stored, 1);
    assert_eq!(store.len(), 1);
}

#[test]
fn test_fetch_latest_quote_not_found() {
    let service = QuoteFetcherService::new("EUR".to_string());
    let mut store = QuoteStore::new();

    let result = service.fetch_latest_quote_for_investment(
        42,
        &None,
        &SingleQuoteAnswer::NoQuote,
        &RateAnswer::Unavailable,
        &mut store,
    );

    assert!(matches!(result, Err(AppError::NotFound)));
}

#[test]
fn test_fetch_latest_quote_stores_one() {
    let service = QuoteFetcherService::new("EUR".to_string());
    let inv = investment(5, Some("AAPL"), None, Some("yahoo"));
    let mut store = QuoteStore::new();

    let (result, stored) = service
        .fetch_latest_quote_for_investment(
            5,
            &Some(inv),
            &SingleQuoteAnswer::Quote(quote(9, 123_0000, "EUR")),
            &RateAnswer::Unavailable,
            &mut store,
        )
        .unwrap();

    assert!(result.success);
    assert_eq!(result.quotes_stored, 1);
    let row = stored.unwrap();
    assert_eq!(row.date, Some(9));
    assert_eq!(row.investment_id, Some(5));
    assert_eq!(row.price, Some(123_0000));
    assert_eq!(store.len(), 1);
}

#[test]
fn test_fetch_latest_quote_conversion_unavailable() {
    let service = QuoteFetcherService::new("EUR".to_string());
    let inv = investment(5, Some("AAPL"), None, Some("yahoo"));
    let mut store = QuoteStore::new();

    let (result, stored) = service
        .fetch_latest_quote_for_investment(
            5,
            &Some(inv),
            &SingleQuoteAnswer::Quote(quote(9, 123_0000, "USD")),
            &RateAnswer::Unavailable,
            &mut store,
        )
        .unwrap();

    assert!(!result.success);
    assert_eq!(result.error.unwrap(), "Currency conversion failed");
    assert!(stored.is_none());
    assert_eq!(store.len(), 0);
}

#[test]
fn test_fetch_latest_quote_conversion_lookup_failed() {
    let service = QuoteFetcherService::new("EUR".to_string());
    let inv = investment(5, Some("AAPL"), None, Some("yahoo"));
    let mut store = QuoteStore::new();

    let (result, stored) = service
        .fetch_latest_quote_for_investment(
            5,
            &Some(inv),
            &SingleQuoteAnswer::Quote(quote(9, 123_0000, "USD")),
            &RateAnswer::Failed,
            &mut store,
        )
        .unwrap();

    assert!(!result.success);
    assert_eq!(result.error.as_deref(), Some("Currency conversion failed"));
    assert!(stored.is_none());
    assert_eq!(store.len(), 0);
}

#[test]
fn test_select_targets_all_with_provider() {
    let investments = vec![
        investment(1, Some("AAPL"), None, Some("yahoo")),
        investment(2, Some("MSFT"), None, None),
        investment(3, None, Some("IE00B4L5Y983"), Some("justetf")),
        investment(4, Some("X"), None, Some("")),
    ];

    let targets = select_targets(&investments, &None);

    assert_eq!(targets.len(), 2, "only investments with a provider are processed");
    assert_eq!(targets[0].id, 1);
    assert_eq!(targets[1].id, 3);
}

#[test]
fn test_select_targets_by_ids() {
    let investments = vec![
        investment(1, Some("AAPL"), None, Some("yahoo")),
        investment(2, Some("MSFT"), None, None),
    ];

    let targets = select_targets(&investments, &Some(vec![2, 99, 1]));

    // Missing identifiers are silently dropped; order follows the request.
    assert_eq!(targets.len(), 2);
    assert_eq!(targets[0].id, 2);
    assert_eq!(targets[1].id, 1);
}
