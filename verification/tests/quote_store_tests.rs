use portfoliodb_rust::models::InvestmentPrice;
use portfoliodb_rust::quote_store::QuoteStore;

fn price(date: i64, investment_id: i64, value: i64, source: &str) -> InvestmentPrice {
    InvestmentPrice {
        date: Some(date),
        investment_id: Some(investment_id),
        price: Some(value),
        source: Some(source.to_string()),
    }
}

#[test]
fn test_find_all_empty() {
    let store = QuoteStore::new();
    let rows = store.find_all(None, None, None);
    assert!(rows.is_empty());
}

#[test]
fn test_upsert_insert() {
    let mut store = QuoteStore::new();
    store.upsert(&price(1, 1, 100_0000, "yahoo"));

    let rows = store.find_all(None, None, None);
    assert_eq!(rows.len(), 1);
    assert_eq!(rows[0].date, Some(1));
    assert_eq!(rows[0].investment_id, Some(1));
    assert_eq!(rows[0].price, Some(100_0000));
    assert_eq!(rows[0].source.as_deref(), Some("yahoo"));
}

#[test]
fn test_upsert_update() {
    // The same (date, instrument, source) key twice: one row, latest price.
    let mut store = QuoteStore::new();
    store.upsert(&price(1, 1, 100_0000, "yahoo"));
    store.upsert(&price(1, 1, 105_0000, "yahoo"));

    let rows = store.find_all(None, None, None);
    assert_eq!(rows.len(), 1);
    assert_eq!(rows[0].price, Some(105_0000));
}

#[test]
fn test_upsert_different_source_adds_row() {
    // A different source under the same (date, instrument) is its own row.
    let mut store = QuoteStore::new();
    store.upsert(&price(1, 1, 100_0000, "yahoo"));
    store.upsert(&price(1, 1, 101_0000, "justetf"));

    let rows = store.find_all(None, None, None);
    assert_eq!(rows.len(), 2);
    assert_eq!(rows[0].price, Some(100_0000));
    assert_eq!(rows[0].source.as_deref(), Some("yahoo"));
    assert_eq!(rows[1].price, Some(101_0000));
    assert_eq!(rows[1].source.as_deref(), Some("justetf"));
}

#[test]
fn test_upsert_different_date_adds_row() {
    let mut store = QuoteStore::new();
    store.upsert(&price(1, 1, 100_0000, "yahoo"));
    store.upsert(&price(2, 1, 101_0000, "yahoo"));

    assert_eq!(store.len(), 2);
}

#[test]
fn test_find_all_with_investment_filter() {
    let mut store = QuoteStore::new();
    store.upsert(&price(1, 1, 100_0000, "yahoo"));
    store.upsert(&price(1, 2, 50_0000, "yahoo"));
    store.upsert(&price(2, 1, 101_0000, "yahoo"));

    let rows = store.find_all(Some(1), None, None);
    assert_eq!(rows.len(), 2);
    assert!(rows.iter().all(|r| r.investment_id == Some(1)));

    let rows = store.find_all(Some(3), None, None);
    assert!(rows.is_empty());
}

#[test]
fn test_find_all_with_date_range() {
    let mut store = QuoteStore::new();
    store.upsert(&price(1, 1, 100_0000, "yahoo"));
    store.upsert(&price(5, 1, 101_0000, "yahoo"));
    store.upsert(&price(9, 1, 102_0000, "yahoo"));

    let rows = store.find_all(None, Some(2), Some(8));
    assert_eq!(rows.len(), 1);
    assert_eq!(rows[0].date, Some(5));
}

#[test]
fn test_find_all_with_start_date_only() {
    let mut store = QuoteStore::new();
    store.upsert(&price(1, 1, 100_0000, "yahoo"));
    store.upsert(&price(5, 1, 101_0000, "yahoo"));

    let rows = store.find_all(None, Some(2), None);
    assert_eq!(rows.len(), 1);
    assert_eq!(rows[0].date, Some(5));
}

#[test]
fn test_combined_filters() {
    let mut store = QuoteStore::new();
    store.upsert(&price(1, 1, 100_0000, "yahoo"));
    store.upsert(&price(5, 1, 101_0000, "yahoo"));
    store.upsert(&price(5, 2, 50_0000, "yahoo"));
    store.upsert(&price(9, 1, 102_0000, "yahoo"));

    let rows = store.find_all(Some(1), Some(2), Some(8));
    assert_eq!(rows.len(), 1);
    assert_eq!(rows[0].date, Some(5));
    assert_eq!(rows[0].investment_id, Some(1));
}
