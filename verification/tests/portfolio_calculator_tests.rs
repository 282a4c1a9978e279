use portfoliodb_rust::models::{InvestmentPrice, Movement, ACTION_BUY, ACTION_PAYOUT, ACTION_SELL, PRICE_SCALE};
use portfoliodb_rust::portfolio_calculator::PortfolioCalculator;

// Fixed-point steps per unit.
const S: i64 = PRICE_SCALE;

fn movement(
    id: i64,
    date: i64,
    action_id: i64,
    investment_id: i64,
    quantity: i64,
    amount: i64,
    fee: i64,
) -> Movement {
    Movement {
        id,
        date: Some(date),
        action_id: Some(action_id),
        investment_id: Some(investment_id),
        quantity: Some(quantity),
        amount: Some(amount),
        fee: Some(fee),
    }
}

fn quote(date: i64, investment_id: i64, price: i64) -> InvestmentPrice {
    InvestmentPrice {
        date: Some(date),
        investment_id: Some(investment_id),
        price: Some(price),
        source: Some("test".to_string()),
    }
}

#[test]
fn test_portfolio_calculator_simple_buy() {
    // One buy: 10 units for 100 (10 each).
    let movements = vec![movement(1, 1, ACTION_BUY, 1, 10 * S, 100 * S, 0)];
    let prices = vec![];

    let calculator = PortfolioCalculator::new();
    let developments = calculator.calculate_developments(&movements, &prices, None, None);

    assert_eq!(developments.len(), 1);
    assert_eq!(developments[0].investment, 1);
    assert_eq!(developments[0].quantity, 10 * S);
    assert_eq!(developments[0].price, 10 * S);
    assert_eq!(developments[0].value, (10 * S) as i128 * (10 * S) as i128);
}

#[test]
fn test_portfolio_calculator_buy_and_sell() {
    // Buy 10 units at 10 each, then sell 3 at 12 each on a later day.
    let movements = vec![
        movement(1, 1, ACTION_BUY, 1, 10 * S, 100 * S, 0),
        movement(2, 15, ACTION_SELL, 1, 3 * S, 36 * S, 0),
    ];
    let prices = vec![];

    let calculator = PortfolioCalculator::new();
    let developments = calculator.calculate_developments(&movements, &prices, None, None);

    assert_eq!(developments.len(), 2);
    assert_eq!(developments[0].quantity, 10 * S);
    assert_eq!(developments[0].price, 10 * S);
    assert_eq!(developments[1].quantity, 7 * S);
    assert_eq!(developments[1].price, 12 * S);
}

#[test]
fn test_portfolio_calculator_with_quote_prices() {
    // A buy at 10, and quotes at 10.5 (same day) and 11 (next day): the
    // quote price strictly wins over the transaction price.
    let movements = vec![movement(1, 1, ACTION_BUY, 1, 10 * S, 100 * S, 0)];
    let prices = vec![quote(1, 1, 105 * S / 10), quote(2, 1, 11 * S)];

    let calculator = PortfolioCalculator::new();
    let developments = calculator.calculate_developments(&movements, &prices, None, None);

    assert_eq!(developments.len(), 2);
    assert_eq!(developments[0].price, 105 * S / 10);
    assert_eq!(
        developments[0].value,
        (10 * S) as i128 * (105 * S / 10) as i128
    );
    assert_eq!(developments[1].price, 11 * S);
    assert_eq!(developments[1].quantity, 10 * S);
    assert_eq!(developments[1].value, (10 * S) as i128 * (11 * S) as i128);
}

#[test]
fn test_portfolio_calculator_date_filtering() {
    // Two buys a month apart; only the first falls inside the window.
    let movements = vec![
        movement(1, 1, ACTION_BUY, 1, 10 * S, 100 * S, 0),
        movement(2, 32, ACTION_BUY, 1, 5 * S, 55 * S, 0),
    ];
    let prices = vec![];

    let calculator = PortfolioCalculator::new();
    let developments = calculator.calculate_developments(&movements, &prices, Some(1), Some(31));

    assert_eq!(developments.len(), 1);
    assert_eq!(developments[0].date, 1);
}

#[test]
fn test_portfolio_calculator_out_of_range_still_counts() {
    // A window that starts after the first buy: the emitted day still
    // carries the cumulative quantity of both buys.
    let movements = vec![
        movement(1, 1, ACTION_BUY, 1, 10 * S, 100 * S, 0),
        movement(2, 32, ACTION_BUY, 1, 5 * S, 55 * S, 0),
    ];
    let prices = vec![];

    let calculator = PortfolioCalculator::new();
    let developments = calculator.calculate_developments(&movements, &prices, Some(32), Some(60));

    assert_eq!(developments.len(), 1);
    assert_eq!(developments[0].date, 32);
    assert_eq!(developments[0].quantity, 15 * S);
    assert_eq!(developments[0].price, 11 * S);
}

#[test]
fn test_portfolio_calculator_multiple_investments() {
    // Same-day buys of two instruments stay independent.
    let movements = vec![
        movement(1, 1, ACTION_BUY, 1, 10 * S, 100 * S, 0),
        movement(2, 1, ACTION_BUY, 2, 5 * S, 50 * S, 0),
    ];
    let prices = vec![];

    let calculator = PortfolioCalculator::new();
    let developments = calculator.calculate_developments(&movements, &prices, None, None);

    assert_eq!(developments.len(), 2);

    let inv1 = developments.iter().find(|d| d.investment == 1).unwrap();
    assert_eq!(inv1.quantity, 10 * S);

    let inv2 = developments.iter().find(|d| d.investment == 2).unwrap();
    assert_eq!(inv2.quantity, 5 * S);
}

#[test]
fn test_portfolio_calculator_last_known_price() {
    // A buy on day 1 (transaction price 10), quotes on days 2 and 3: each
    // day uses its own signal, never the carried-forward value.
    let movements = vec![movement(1, 1, ACTION_BUY, 1, 10 * S, 100 * S, 0)];
    let prices = vec![quote(2, 1, 11 * S), quote(3, 1, 12 * S)];

    let calculator = PortfolioCalculator::new();
    let developments = calculator.calculate_developments(&movements, &prices, None, None);

    assert_eq!(developments.len(), 3);
    assert_eq!(developments[0].price, 10 * S);
    assert_eq!(developments[1].price, 11 * S);
    assert_eq!(developments[2].price, 12 * S);
}

#[test]
fn test_portfolio_calculator_carry_forward_without_signal() {
    // Day 2 has a quote key without a price and no transaction: the price
    // carries forward from day 1.
    let movements = vec![movement(1, 1, ACTION_BUY, 1, 10 * S, 100 * S, 0)];
    let prices = vec![InvestmentPrice {
        date: Some(2),
        investment_id: Some(1),
        price: None,
        source: Some("manual".to_string()),
    }];

    let calculator = PortfolioCalculator::new();
    let developments = calculator.calculate_developments(&movements, &prices, None, None);

    assert_eq!(developments.len(), 2);
    assert_eq!(developments[0].price, 10 * S);
    assert_eq!(developments[1].date, 2);
    assert_eq!(developments[1].price, 10 * S);
}

#[test]
fn test_portfolio_calculator_same_day_mean_price() {
    // Two buys on the same day at 10 and 12: the day's transaction price is
    // their mean, 11.
    let movements = vec![
        movement(1, 1, ACTION_BUY, 1, 10 * S, 100 * S, 0),
        movement(2, 1, ACTION_BUY, 1, 10 * S, 120 * S, 0),
    ];
    let prices = vec![];

    let calculator = PortfolioCalculator::new();
    let developments = calculator.calculate_developments(&movements, &prices, None, None);

    assert_eq!(developments.len(), 1);
    assert_eq!(developments[0].quantity, 20 * S);
    assert_eq!(developments[0].price, 11 * S);
}

#[test]
fn test_portfolio_calculator_empty_window_is_empty() {
    // A window that excludes all activity yields an empty series.
    let movements = vec![movement(1, 10, ACTION_BUY, 1, 10 * S, 100 * S, 0)];
    let prices = vec![];

    let calculator = PortfolioCalculator::new();
    let developments = calculator.calculate_developments(&movements, &prices, Some(20), Some(30));

    assert!(developments.is_empty());
}

#[test]
fn test_portfolio_calculator_realistic_scenario() {
    // Buy 10 at 100, sell 3 at 110, buy 5 at 105, then a payout; market
    // quotes cover days 2 through 4. Amounts are positive throughout.
    let movements = vec![
        movement(1, 101, ACTION_BUY, 1, 10 * S, 1000 * S, S),
        movement(2, 102, ACTION_SELL, 1, 3 * S, 330 * S, S / 2),
        movement(3, 103, ACTION_BUY, 1, 5 * S, 525 * S, S),
        movement(4, 104, ACTION_PAYOUT, 1, 0, 50 * S, 0),
    ];
    let prices = vec![
        quote(102, 1, 110 * S),
        quote(103, 1, 105 * S),
        quote(104, 1, 108 * S),
    ];

    let calculator = PortfolioCalculator::new();
    let developments = calculator.calculate_developments(&movements, &prices, None, None);

    assert_eq!(developments.len(), 4, "Should have 4 development entries");

    assert_eq!(developments[0].date, 101);
    assert_eq!(developments[0].quantity, 10 * S, "Day 1: Should have 10 shares");
    assert_eq!(developments[0].price, 100 * S, "Day 1: Transaction price should be 100");
    assert_eq!(
        developments[0].value,
        (10 * S) as i128 * (100 * S) as i128,
        "Day 1: Portfolio value should be 1000"
    );

    assert_eq!(developments[1].date, 102);
    assert_eq!(developments[1].quantity, 7 * S, "Day 2: Should have 7 shares (10 - 3)");
    assert_eq!(developments[1].price, 110 * S, "Day 2: Market price should be 110");
    assert_eq!(
        developments[1].value,
        (7 * S) as i128 * (110 * S) as i128,
        "Day 2: Portfolio value should be 770"
    );

    assert_eq!(developments[2].date, 103);
    assert_eq!(developments[2].quantity, 12 * S, "Day 3: Should have 12 shares (7 + 5)");
    assert_eq!(developments[2].price, 105 * S, "Day 3: Market price should be 105");
    assert_eq!(
        developments[2].value,
        (12 * S) as i128 * (105 * S) as i128,
        "Day 3: Portfolio value should be 1260"
    );

    assert_eq!(developments[3].date, 104);
    assert_eq!(
        developments[3].quantity,
        12 * S,
        "Day 4: Should still have 12 shares (payout doesn't change quantity)"
    );
    assert_eq!(developments[3].price, 108 * S, "Day 4: Market price should be 108");
    assert_eq!(
        developments[3].value,
        (12 * S) as i128 * (108 * S) as i128,
        "Day 4: Portfolio value should be 1296"
    );

    for dev in &developments {
        assert!(
            dev.value >= 0,
            "Portfolio value should never be negative, got {} on {}",
            dev.value,
            dev.date
        );
    }
}
