use portfoliodb_rust::currency_converter::{CurrencyConverter, RateAnswer};
use portfoliodb_rust::error::AppError;

#[test]
fn test_convert_same_currency() {
    // Equal currencies return the amount unchanged, whatever the rate
    // lookup would have said.
    let converter = CurrencyConverter::new();

    let result = converter.convert(
        100_0000,
        &"EUR".to_string(),
        &"EUR".to_string(),
        &RateAnswer::Failed,
    );

    assert!(result.is_ok());
    assert_eq!(result.unwrap(), Some(100_0000));
}

#[test]
fn test_convert_with_rate() {
    // 100 at a rate of 1.1 is 110.
    let converter = CurrencyConverter::new();

    let result = converter.convert(
        100_0000,
        &"EUR".to_string(),
        &"USD".to_string(),
        &RateAnswer::Rate(1_1000),
    );

    assert_eq!(result.unwrap(), Some(110_0000));
}

#[test]
fn test_convert_rounds_down() {
    // 1 at a rate of 0.33335 rounds down on the fixed-point grid.
    let converter = CurrencyConverter::new();

    let result = converter.convert(
        1_0000,
        &"EUR".to_string(),
        &"USD".to_string(),
        &RateAnswer::Rate(3_3335),
    );

    assert_eq!(result.unwrap(), Some(3_3335));

    let result = converter.convert(
        5000,
        &"EUR".to_string(),
        &"USD".to_string(),
        &RateAnswer::Rate(3_3335),
    );

    // 0.5 * 0.33335 = 0.166675, which floors to 0.1666 on the grid.
    assert_eq!(result.unwrap(), Some(1_6667));
}

#[test]
fn test_convert_rate_unavailable() {
    let converter = CurrencyConverter::new();

    let result = converter.convert(
        100_0000,
        &"EUR".to_string(),
        &"USD".to_string(),
        &RateAnswer::Unavailable,
    );

    assert_eq!(result.unwrap(), None);
}

#[test]
fn test_convert_lookup_failure() {
    let converter = CurrencyConverter::new();

    let result = converter.convert(
        100_0000,
        &"EUR".to_string(),
        &"USD".to_string(),
        &RateAnswer::Failed,
    );

    assert!(matches!(result, Err(AppError::CurrencyConversion)));
}
