use portfoliodb_rust::quotes::{build_quote_series, select_quote, QuoteData};

fn quote(date: i64, price: i64) -> QuoteData {
    QuoteData::new(
        "IE00B4L5Y983".to_string(),
        date,
        price,
        "EUR".to_string(),
        "justetf".to_string(),
    )
}

#[test]
fn test_select_quote_exact_date() {
    let quotes = vec![quote(1, 10_0000), quote(2, 11_0000), quote(3, 12_0000)];

    let q = select_quote(&quotes, Some(2)).unwrap();
    assert_eq!(q.date, 2);
    assert_eq!(q.price, 11_0000);
}

#[test]
fn test_select_quote_missing_date() {
    let quotes = vec![quote(1, 10_0000), quote(3, 12_0000)];

    assert!(select_quote(&quotes, Some(2)).is_none());
}

#[test]
fn test_select_quote_latest() {
    // Without a date the chronologically last quote wins, regardless of
    // list order.
    let quotes = vec![quote(3, 12_0000), quote(1, 10_0000), quote(2, 11_0000)];

    let q = select_quote(&quotes, None).unwrap();
    assert_eq!(q.date, 3);
    assert_eq!(q.price, 12_0000);
}

#[test]
fn test_select_quote_latest_ties_take_last_listed() {
    let quotes = vec![quote(3, 12_0000), quote(3, 13_0000)];

    let q = select_quote(&quotes, None).unwrap();
    assert_eq!(q.price, 13_0000);
}

#[test]
fn test_select_quote_empty() {
    let quotes: Vec<QuoteData> = vec![];
    assert!(select_quote(&quotes, None).is_none());
    assert!(select_quote(&quotes, Some(1)).is_none());
}

#[test]
fn test_build_quote_series_skips_missing_closes() {
    let days = vec![1, 2, 3, 4];
    let closes = vec![Some(10_0000), None, Some(12_0000), None];

    let series = build_quote_series(
        &"AAPL".to_string(),
        &days,
        &closes,
        &"USD".to_string(),
        &"yahoo".to_string(),
    );

    assert_eq!(series.len(), 2);
    assert_eq!(series[0].date, 1);
    assert_eq!(series[0].price, 10_0000);
    assert_eq!(series[0].ticker, "AAPL");
    assert_eq!(series[0].currency, "USD");
    assert_eq!(series[0].source, "yahoo");
    assert_eq!(series[1].date, 3);
    assert_eq!(series[1].price, 12_0000);
}

#[test]
fn test_build_quote_series_empty() {
    let series = build_quote_series(
        &"AAPL".to_string(),
        &vec![],
        &vec![],
        &"USD".to_string(),
        &"yahoo".to_string(),
    );
    assert!(series.is_empty());
}
