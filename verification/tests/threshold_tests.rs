use rebalancing_ai::data_models::{
    Asset, AssetClass, Holding, MarketDataContext, MarketPrice, OrderType, Portfolio, RiskProfile,
    TargetAllocation, TradeOrder,
};
use rebalancing_ai::decimal::Decimal;
use rebalancing_ai::error::RebalancingError;
use rebalancing_ai::strategies::{positive_quantity, push_order, StrategyExecutor};
use rebalancing_ai::threshold::{
    any_deviation, append_class_trades, class_deviates, difference_for_class, holding_in_class,
    push_trade_for_value, reason_for_class, require_classified, share_of_difference,
    value_of_class, value_of_holding, values_of_classes, ThresholdConfig, ThresholdStrategy,
};

fn dec(x: f64) -> Decimal {
    Decimal::from_nanos((x * 1e9).round() as i64)
}

fn holding(id: &str, quantity: f64) -> Holding {
    Holding { asset_id: id.to_string(), quantity: dec(quantity) }
}

fn asset(id: &str, class: AssetClass) -> Asset {
    Asset { id: id.to_string(), symbol: id.to_string(), name: id.to_string(), asset_class: class }
}

fn market() -> MarketDataContext {
    let mut m = MarketDataContext::new();
    for (id, price, class) in [
        ("AAPL", 150.0, AssetClass::Equity),
        ("MSFT", 300.0, AssetClass::Equity),
        ("NVDA", 70.0, AssetClass::Equity),
        ("BND", 80.0, AssetClass::FixedIncome),
        ("GLD", 200.0, AssetClass::Commodity),
    ] {
        m.insert_price(id.to_string(), MarketPrice { price: dec(price), timestamp: 0 });
        m.insert_asset(id.to_string(), asset(id, class));
    }
    m
}

fn portfolio(holdings: Vec<Holding>, cash: f64) -> Portfolio {
    Portfolio {
        id: 1,
        user_id: "user".to_string(),
        name: "p".to_string(),
        holdings,
        cash_balance: dec(cash),
    }
}

fn target(entries: &[(AssetClass, f64)]) -> TargetAllocation {
    let mut t = TargetAllocation::new();
    for (class, fraction) in entries {
        t.insert(class.clone(), dec(*fraction));
    }
    t
}

fn run(p: &Portfolio, t: &TargetAllocation, m: &MarketDataContext, threshold: f64) -> Result<Vec<TradeOrder>, RebalancingError> {
    ThresholdStrategy::new(ThresholdConfig { deviation_threshold: dec(threshold) })
        .execute(p, t, m, &RiskProfile::Moderate)
}

#[test]
fn total_value_adds_holdings_and_cash() {
    let p = portfolio(vec![holding("AAPL", 10.0), holding("BND", 50.0)], 1000.0);
    assert_eq!(p.get_total_value(&market()).unwrap().nanos, 6_500_000_000_000);
}

#[test]
fn total_value_names_the_first_holding_without_a_price() {
    let p = portfolio(vec![holding("AAPL", 10.0), holding("QQQ", 1.0), holding("RRR", 1.0)], 0.0);
    match p.get_total_value(&market()).unwrap_err() {
        RebalancingError::MarketDataMissing(id) => assert_eq!(id, "QQQ"),
        other => panic!("unexpected error {:?}", other),
    }
}

#[test]
fn total_value_out_of_range_is_invalid_input() {
    let mut m = market();
    m.insert_price("BIG".to_string(), MarketPrice { price: dec(9.0e9), timestamp: 0 });
    let p = portfolio(vec![holding("BIG", 2.0)], 0.0);
    match p.get_total_value(&m).unwrap_err() {
        RebalancingError::InvalidInput(detail) => {
            assert_eq!(detail, "a monetary amount is outside the supported range")
        }
        other => panic!("unexpected error {:?}", other),
    }
    let q = portfolio(vec![holding("BIG", 1.0)], 1.0e9);
    assert!(matches!(q.get_total_value(&m), Err(RebalancingError::InvalidInput(_))));
}

#[test]
fn portfolio_worth_less_than_one_unit_gets_no_trades() {
    let p = portfolio(vec![holding("AAPL", 0.001)], 0.5);
    let t = target(&[(AssetClass::Equity, 0.0), (AssetClass::FixedIncome, 1.0)]);
    assert!(run(&p, &t, &market(), 0.01).unwrap().is_empty());
}

#[test]
fn portfolio_at_equilibrium_gets_no_trades() {
    // 5850 of 10000 in equity, 4000 in fixed income: 1.5% and 0% from target.
    let p = portfolio(vec![holding("AAPL", 39.0), holding("BND", 50.0)], 150.0);
    let t = target(&[(AssetClass::Equity, 0.60), (AssetClass::FixedIncome, 0.40)]);
    assert!(run(&p, &t, &market(), 0.05).unwrap().is_empty());
    // Asked again, the answer is the same.
    assert!(run(&p, &t, &market(), 0.05).unwrap().is_empty());
}

#[test]
fn deviation_equal_to_the_threshold_is_tolerated() {
    let p = portfolio(vec![holding("AAPL", 39.0), holding("BND", 50.0)], 150.0);
    let t = target(&[(AssetClass::Equity, 0.60), (AssetClass::FixedIncome, 0.40)]);
    assert!(run(&p, &t, &market(), 0.015).unwrap().is_empty());
    assert_eq!(run(&p, &t, &market(), 0.0149).unwrap().len(), 1);
}

#[test]
fn one_deviating_class_moves_every_class() {
    // Equity at 58.5% is past a 1% threshold; fixed income is exactly on target.
    let p = portfolio(vec![holding("AAPL", 39.0), holding("BND", 50.0)], 150.0);
    let t = target(&[(AssetClass::Equity, 0.60), (AssetClass::FixedIncome, 0.40)]);
    let trades = run(&p, &t, &market(), 0.01).unwrap();
    assert_eq!(trades.len(), 1);
    assert_eq!(trades[0].asset_id, "AAPL");
    assert_eq!(trades[0].order_type, OrderType::Buy);
    assert_eq!(trades[0].estimated_value.nanos, 150_000_000_000);
    assert_eq!(trades[0].quantity.nanos, 1_000_000_000);
}

#[test]
fn difference_is_shared_in_proportion_to_value() {
    // Equity: AAPL 1500, MSFT 3000, NVDA 700 = 5200 of a total of 10000; target 26%.
    let p = portfolio(
        vec![holding("AAPL", 10.0), holding("MSFT", 10.0), holding("NVDA", 10.0), holding("BND", 60.0)],
        0.0,
    );
    let t = target(&[(AssetClass::Equity, 0.26), (AssetClass::FixedIncome, 0.74)]);
    let trades = run(&p, &t, &market(), 0.05).unwrap();
    assert_eq!(trades.len(), 4);
    let sold: Vec<i64> = trades[..3].iter().map(|t| t.estimated_value.nanos).collect();
    // -2600 split 1500 : 3000 : 700.
    assert_eq!(sold, vec![750_000_000_000, 1_500_000_000_000, 350_000_000_000]);
    assert!(trades[..3].iter().all(|t| t.order_type == OrderType::Sell));
    assert_eq!(trades[3].asset_id, "BND");
    assert_eq!(trades[3].order_type, OrderType::Buy);
    assert_eq!(trades[3].estimated_value.nanos, 2_600_000_000_000);
}

#[test]
fn shares_of_a_class_add_up_to_its_difference() {
    // Three holdings worth 1, 1 and 1 share a difference of 100: 33.333333333 each.
    let third = share_of_difference(dec(100.0), dec(1.0), dec(3.0)).unwrap();
    assert_eq!(third.nanos, 33_333_333_333);
    let missing = 100_000_000_000 - 3 * third.nanos;
    assert!(0 <= missing && missing < 3);
    // A negative difference is rounded down as well.
    let negative = share_of_difference(dec(-100.0), dec(1.0), dec(3.0)).unwrap();
    assert_eq!(negative.nanos, -33_333_333_334);
    assert!((-100_000_000_000i64 - 3 * negative.nanos).abs() < 3);
}

#[test]
fn class_worth_next_to_nothing_gets_no_share() {
    assert_eq!(share_of_difference(dec(100.0), dec(0.000001), dec(0.000001)).unwrap().nanos, 0);
    assert_eq!(share_of_difference(dec(100.0), dec(0.0), dec(0.0)).unwrap().nanos, 0);
    assert_eq!(
        share_of_difference(dec(100.0), dec(0.000001001), dec(0.000001001)).unwrap().nanos,
        100_000_000_000
    );
}

#[test]
fn share_that_cannot_be_stored_is_refused() {
    assert!(share_of_difference(dec(9.0e9), dec(9.0e9), dec(1.0)).is_none());
}

#[test]
fn class_without_holdings_is_left_alone() {
    let p = portfolio(vec![holding("AAPL", 10.0)], 0.0);
    let t = target(&[(AssetClass::Equity, 0.50), (AssetClass::Crypto, 0.50)]);
    let trades = run(&p, &t, &market(), 0.05).unwrap();
    assert_eq!(trades.len(), 1);
    assert_eq!(trades[0].asset_id, "AAPL");
    assert_eq!(trades[0].order_type, OrderType::Sell);
    assert_eq!(trades[0].estimated_value.nanos, 750_000_000_000);
}

#[test]
fn dust_is_not_traded() {
    let mut trades = Vec::new();
    let id = "AAPL".to_string();
    push_trade_for_value(&mut trades, &id, dec(1.0), dec(150.0), "r".to_string()).unwrap();
    push_trade_for_value(&mut trades, &id, dec(-1.0), dec(150.0), "r".to_string()).unwrap();
    push_trade_for_value(&mut trades, &id, dec(0.0), dec(0.0), "r".to_string()).unwrap();
    assert!(trades.is_empty());
    push_trade_for_value(&mut trades, &id, dec(1.000000001), dec(150.0), "r".to_string()).unwrap();
    push_trade_for_value(&mut trades, &id, dec(-1.000000001), dec(150.0), "r".to_string()).unwrap();
    assert_eq!(trades.len(), 2);
    assert_eq!(trades[0].order_type, OrderType::Buy);
    assert_eq!(trades[0].estimated_value.nanos, 1_000_000_001);
    assert_eq!(trades[0].quantity.nanos, 6_666_666);
    assert_eq!(trades[1].order_type, OrderType::Sell);
    assert_eq!(trades[1].estimated_value.nanos, 1_000_000_001);
    assert_eq!(trades[1].quantity.nanos, 6_666_666);
}

#[test]
fn order_at_a_price_of_zero_is_refused() {
    let mut trades = Vec::new();
    let id = "AAPL".to_string();
    let err = push_order(&mut trades, &id, dec(5.0), dec(0.0), "r".to_string()).unwrap_err();
    assert!(matches!(err, RebalancingError::InvalidInput(_)));
    assert!(trades.is_empty());
    let err = push_order(&mut trades, &id, Decimal::from_nanos(i64::MIN), dec(1.0), "r".to_string());
    assert!(matches!(err, Err(RebalancingError::InvalidInput(_))));
}

#[test]
fn order_carries_direction_and_magnitudes() {
    let mut trades = Vec::new();
    let id = "BND".to_string();
    push_order(&mut trades, &id, dec(-1400.0), dec(80.0), "why".to_string()).unwrap();
    assert_eq!(trades[0].asset_id, "BND");
    assert_eq!(trades[0].order_type, OrderType::Sell);
    assert_eq!(trades[0].estimated_value.nanos, 1_400_000_000_000);
    assert_eq!(trades[0].quantity.nanos, 17_500_000_000);
    assert_eq!(trades[0].reason, "why");
}

#[test]
fn unclassified_holding_fails_the_strategy() {
    let mut m = market();
    m.insert_price("XYZ".to_string(), MarketPrice { price: dec(10.0), timestamp: 0 });
    let p = portfolio(vec![holding("AAPL", 10.0), holding("XYZ", 3.0)], 0.0);
    let t = target(&[(AssetClass::Equity, 1.0)]);
    match run(&p, &t, &m, 0.05).unwrap_err() {
        RebalancingError::MarketDataMissing(id) => assert_eq!(id, "XYZ"),
        other => panic!("unexpected error {:?}", other),
    }
    assert!(require_classified(&p.holdings, &market()).is_err());
    assert!(require_classified(&vec![holding("AAPL", 1.0)], &market()).is_ok());
}

#[test]
fn price_errors_come_before_classification_errors() {
    let mut m = market();
    m.insert_price("NOCLASS".to_string(), MarketPrice { price: dec(10.0), timestamp: 0 });
    let p = portfolio(vec![holding("NOCLASS", 1.0), holding("NOPRICE", 1.0)], 100.0);
    let t = target(&[(AssetClass::Equity, 1.0)]);
    match run(&p, &t, &m, 0.05).unwrap_err() {
        RebalancingError::MarketDataMissing(id) => assert_eq!(id, "NOPRICE"),
        other => panic!("unexpected error {:?}", other),
    }
}

#[test]
fn class_values_follow_the_targets() {
    let p = portfolio(
        vec![holding("AAPL", 10.0), holding("BND", 50.0), holding("MSFT", 1.0), holding("GLD", 2.0)],
        0.0,
    );
    let m = market();
    assert_eq!(value_of_class(&p.holdings, &m, &AssetClass::Equity).unwrap().nanos, 1_800_000_000_000);
    assert_eq!(value_of_class(&p.holdings, &m, &AssetClass::Crypto).unwrap().nanos, 0);
    let t = target(&[(AssetClass::FixedIncome, 0.5), (AssetClass::Commodity, 0.25), (AssetClass::Equity, 0.25)]);
    let values: Vec<i64> = values_of_classes(&t, &p.holdings, &m).unwrap().iter().map(|v| v.nanos).collect();
    assert_eq!(values, vec![4_000_000_000_000, 400_000_000_000, 1_800_000_000_000]);
    assert_eq!(value_of_holding(&p.holdings[1], &m).unwrap().nanos, 4_000_000_000_000);
    assert!(holding_in_class(&p.holdings[0], &m, &AssetClass::Equity));
    assert!(!holding_in_class(&p.holdings[0], &m, &AssetClass::FixedIncome));
    assert!(!holding_in_class(&holding("NONE", 1.0), &m, &AssetClass::Equity));
}

#[test]
fn other_classes_are_told_apart_by_name() {
    let mut m = market();
    m.insert_price("ART".to_string(), MarketPrice { price: dec(1000.0), timestamp: 0 });
    m.insert_asset("ART".to_string(), asset("ART", AssetClass::Other("Art".to_string())));
    let h = holding("ART", 2.0);
    assert!(holding_in_class(&h, &m, &AssetClass::Other("Art".to_string())));
    assert!(!holding_in_class(&h, &m, &AssetClass::Other("Wine".to_string())));
    assert_eq!(reason_for_class(&AssetClass::Other("Art".to_string())), "Aligning Art to target.");
    assert_eq!(reason_for_class(&AssetClass::RealEstate), "Aligning RealEstate to target.");
}

#[test]
fn deviation_is_measured_against_the_total() {
    // 1500 of 6500 is 23.08%; the target is 60%.
    assert!(class_deviates(dec(1500.0), dec(0.60), dec(6500.0), dec(0.05)));
    assert!(!class_deviates(dec(1500.0), dec(0.60), dec(6500.0), dec(0.37)));
    assert!(!class_deviates(dec(4000.0), dec(0.40), dec(10000.0), dec(0.0)));
    let t = target(&[(AssetClass::Equity, 0.60), (AssetClass::FixedIncome, 0.40)]);
    assert!(any_deviation(&t, &vec![dec(1500.0), dec(4000.0)], dec(6500.0), dec(0.05)));
    assert!(!any_deviation(&t, &vec![dec(5850.0), dec(4000.0)], dec(10000.0), dec(0.05)));
    assert!(!any_deviation(&TargetAllocation::new(), &vec![], dec(10000.0), dec(0.0)));
}

#[test]
fn difference_is_target_less_current() {
    assert_eq!(difference_for_class(dec(6500.0), dec(0.60), dec(1500.0)).unwrap().nanos, 2_400_000_000_000);
    assert_eq!(difference_for_class(dec(6500.0), dec(0.40), dec(4000.0)).unwrap().nanos, -1_400_000_000_000);
    assert!(matches!(
        difference_for_class(dec(9.0e9), dec(2.0), dec(0.0)),
        Err(RebalancingError::InvalidInput(_))
    ));
}

#[test]
fn class_trades_are_appended_in_holding_order() {
    let p = portfolio(vec![holding("MSFT", 10.0), holding("BND", 1.0), holding("AAPL", 10.0)], 0.0);
    let mut trades = vec![];
    append_class_trades(&mut trades, &p.holdings, &market(), &AssetClass::Equity, dec(4500.0), dec(900.0))
        .unwrap();
    assert_eq!(trades.len(), 2);
    assert_eq!(trades[0].asset_id, "MSFT");
    assert_eq!(trades[0].estimated_value.nanos, 600_000_000_000);
    assert_eq!(trades[0].quantity.nanos, 2_000_000_000);
    assert_eq!(trades[1].asset_id, "AAPL");
    assert_eq!(trades[1].estimated_value.nanos, 300_000_000_000);
}

#[test]
fn empty_target_gets_no_trades() {
    let p = portfolio(vec![holding("AAPL", 10.0)], 0.0);
    assert!(run(&p, &TargetAllocation::new(), &market(), 0.05).unwrap().is_empty());
}

#[test]
fn order_whose_quantity_is_not_positive_is_refused() {
    let id = "AAPL".to_string();
    let mut trades = Vec::new();
    // Two units at a price of nine billion: less than a billionth of a share.
    let err = push_order(&mut trades, &id, dec(2.0), dec(9.0e9), "r".to_string()).unwrap_err();
    match err {
        RebalancingError::InvalidInput(detail) => {
            assert_eq!(detail, "a monetary amount is outside the supported range")
        }
        other => panic!("unexpected error {:?}", other),
    }
    assert!(push_order(&mut trades, &id, dec(-2.0), dec(9.0e9), "r".to_string()).is_err());
    // A negative price would give a negative quantity.
    assert!(push_order(&mut trades, &id, dec(5.0), dec(-1.0), "r".to_string()).is_err());
    assert!(push_order(&mut trades, &id, dec(-5.0), dec(-1.0), "r".to_string()).is_err());
    // Nothing to trade is no order either.
    assert!(push_order(&mut trades, &id, dec(0.0), dec(10.0), "r".to_string()).is_err());
    assert!(trades.is_empty());
    // The smallest quantity is one billionth.
    push_order(&mut trades, &id, dec(9.0), dec(9.0e9), "r".to_string()).unwrap();
    assert_eq!(trades[0].quantity.nanos, 1);
}

#[test]
fn quantity_is_amount_over_price() {
    assert_eq!(positive_quantity(dec(2400.0), dec(150.0)).unwrap().nanos, 16_000_000_000);
    assert_eq!(positive_quantity(dec(1.0), dec(3.0)).unwrap().nanos, 333_333_333);
    assert!(positive_quantity(dec(1.0), dec(0.0)).is_none());
    assert!(positive_quantity(dec(1.0), dec(-2.0)).is_none());
    assert!(positive_quantity(dec(0.0), dec(2.0)).is_none());
    assert!(positive_quantity(dec(9.0e9), dec(0.5)).is_none());
}

#[test]
fn strategy_fails_where_a_quantity_would_round_to_nothing() {
    let mut m = MarketDataContext::new();
    m.insert_price("BRK".to_string(), MarketPrice { price: dec(9.0e9), timestamp: 0 });
    m.insert_asset("BRK".to_string(), asset("BRK", AssetClass::Equity));
    // A billionth of a share worth nine units, and a target of half of it.
    let p = Portfolio {
        id: 1,
        user_id: "user".to_string(),
        name: "p".to_string(),
        holdings: vec![Holding { asset_id: "BRK".to_string(), quantity: Decimal::from_nanos(1) }],
        cash_balance: dec(0.0),
    };
    let t = target(&[(AssetClass::Equity, 0.5), (AssetClass::Cash, 0.5)]);
    assert!(matches!(run(&p, &t, &m, 0.05), Err(RebalancingError::InvalidInput(_))));
}
