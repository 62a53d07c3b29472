use rebalancing_ai::data_models::{
    Asset, AssetClass, Holding, MarketDataContext, MarketPrice, OrderType, Portfolio, RiskProfile,
    TargetAllocation,
};
use rebalancing_ai::decimal::{Decimal, Weight};
use rebalancing_ai::error::RebalancingError;
use rebalancing_ai::mvo::{
    difference_for_weight, push_trade_toward_weight, quantity_held, trades_for_weights, MvoStrategy,
};
use rebalancing_ai::optimizers::{
    budget_multiplier, checked_dot, normalize, row_totals, shares_of_sum, solve,
    times_vector, uniform_weights, unnormalized_weight, unnormalized_weights,
    MeanVarianceOptimizer, MvoConfig, PortfolioOptimizer,
};
use rebalancing_ai::predictors::{
    ExpectedReturnsPredictor, HistoricalReturnsPredictor, MarketEquilibriumPredictor,
    MockReturnsPredictor,
};
use rebalancing_ai::risk_models::{CovarianceMatrix, MockRiskModel, RiskModel, SampleCovarianceModel};
use rebalancing_ai::strategies::StrategyExecutor;

fn dec(x: f64) -> Decimal {
    Decimal::from_nanos((x * 1e9).round() as i64)
}

fn num(d: Decimal) -> f64 {
    d.nanos as f64 / 1e9
}

fn decs(xs: &[f64]) -> Vec<Decimal> {
    xs.iter().map(|x| dec(*x)).collect()
}

fn nanos(xs: &[Decimal]) -> Vec<i64> {
    xs.iter().map(|x| x.nanos).collect()
}

const WHOLE: i128 = 1_000_000_000_000_000_000;

fn wt(x: f64) -> Weight {
    Weight::from_parts((x * 1e18).round() as i128)
}

fn wts(xs: &[f64]) -> Vec<Weight> {
    xs.iter().map(|x| wt(*x)).collect()
}

fn parts(xs: &[Weight]) -> Vec<i128> {
    xs.iter().map(|x| x.parts).collect()
}

fn share(w: Weight) -> f64 {
    w.parts as f64 / 1e18
}

fn matrix(rows: &[&[f64]]) -> CovarianceMatrix {
    CovarianceMatrix { rows: rows.iter().map(|r| decs(r)).collect() }
}

fn invert(m: &CovarianceMatrix) -> Option<CovarianceMatrix> {
    let n = m.rows.len();
    let dense = nalgebra::DMatrix::from_fn(n, n, |i, j| num(m.rows[i][j]));
    let inverse = dense.try_inverse()?;
    Some(CovarianceMatrix {
        rows: (0..n).map(|i| (0..n).map(|j| dec(inverse[(i, j)])).collect()).collect(),
    })
}

fn optimizer(returns: &[f64], cov: CovarianceMatrix, risk_aversion: f64) -> MeanVarianceOptimizer {
    let inverse = invert(&cov);
    MeanVarianceOptimizer::new(decs(returns), cov, inverse, dec(risk_aversion))
}

fn ids(names: &[&str]) -> Vec<String> {
    names.iter().map(|s| s.to_string()).collect()
}

fn market() -> MarketDataContext {
    let mut m = MarketDataContext::new();
    for (id, price, class) in
        [("AAPL", 150.0, AssetClass::Equity), ("BND", 80.0, AssetClass::FixedIncome)]
    {
        m.insert_price(id.to_string(), MarketPrice { price: dec(price), timestamp: 0 });
        m.insert_asset(
            id.to_string(),
            Asset {
                id: id.to_string(),
                symbol: id.to_string(),
                name: id.to_string(),
                asset_class: class,
            },
        );
    }
    m
}

fn portfolio() -> Portfolio {
    Portfolio {
        id: 1,
        user_id: "user".to_string(),
        name: "p".to_string(),
        holdings: vec![
            Holding { asset_id: "AAPL".to_string(), quantity: dec(10.0) },
            Holding { asset_id: "BND".to_string(), quantity: dec(50.0) },
        ],
        cash_balance: dec(1000.0),
    }
}

#[test]
fn no_assets_give_no_weights() {
    let o = MeanVarianceOptimizer::new(vec![], matrix(&[&[1.0]]), None, dec(2.5));
    assert!(o.optimize().unwrap().is_empty());
}

#[test]
fn covariance_of_the_wrong_shape_is_invalid_input() {
    let o = MeanVarianceOptimizer::new(decs(&[0.1, 0.2]), matrix(&[&[1.0]]), None, dec(2.5));
    match o.optimize().unwrap_err() {
        RebalancingError::InvalidInput(detail) => {
            assert_eq!(detail, "Dimension mismatch between returns and covariance matrix")
        }
        other => panic!("unexpected error {:?}", other),
    }
    let ragged = CovarianceMatrix { rows: vec![decs(&[1.0, 0.0]), decs(&[1.0])] };
    let o = MeanVarianceOptimizer::new(decs(&[0.1, 0.2]), ragged, None, dec(2.5));
    assert!(matches!(o.optimize(), Err(RebalancingError::InvalidInput(_))));
}

#[test]
fn singular_covariance_is_an_optimization_error() {
    let o = optimizer(&[0.1, 0.2], matrix(&[&[1.0, 2.0], &[2.0, 4.0]]), 2.5);
    match o.optimize().unwrap_err() {
        RebalancingError::OptimizationError(detail) => {
            assert_eq!(detail, "Covariance matrix is singular")
        }
        other => panic!("unexpected error {:?}", other),
    }
    let zero = optimizer(&[0.1], matrix(&[&[0.0]]), 2.5);
    assert!(matches!(zero.optimize(), Err(RebalancingError::OptimizationError(_))));
}

#[test]
fn inverse_of_the_wrong_shape_is_an_internal_error() {
    let o = MeanVarianceOptimizer::new(
        decs(&[0.1, 0.2]),
        matrix(&[&[1.0, 0.0], &[0.0, 1.0]]),
        Some(matrix(&[&[1.0]])),
        dec(2.5),
    );
    match o.optimize().unwrap_err() {
        RebalancingError::InternalError(detail) => {
            assert_eq!(detail, "Inverse of the covariance matrix has incorrect dimensions")
        }
        other => panic!("unexpected error {:?}", other),
    }
}

#[test]
fn risk_aversion_must_be_positive() {
    for gamma in [0.0, -1.0] {
        let o = optimizer(&[0.1, 0.2], matrix(&[&[1.0, 0.0], &[0.0, 1.0]]), gamma);
        match o.optimize().unwrap_err() {
            RebalancingError::InvalidInput(detail) => {
                assert_eq!(detail, "Risk aversion must be positive")
            }
            other => panic!("unexpected error {:?}", other),
        }
    }
}

#[test]
fn degenerate_equations_are_an_optimization_error() {
    // The rows of the inverse sum to zero together.
    let o = MeanVarianceOptimizer::new(
        decs(&[0.1, 0.2]),
        matrix(&[&[1.0, 0.0], &[0.0, -1.0]]),
        Some(matrix(&[&[1.0, 0.0], &[0.0, -1.0]])),
        dec(2.5),
    );
    match o.optimize().unwrap_err() {
        RebalancingError::OptimizationError(detail) => {
            assert_eq!(detail, "Failed to solve MVO equations")
        }
        other => panic!("unexpected error {:?}", other),
    }
}

#[test]
fn numbers_out_of_range_are_an_optimization_error() {
    let big = 9.0e9;
    let o = MeanVarianceOptimizer::new(
        decs(&[big, big]),
        matrix(&[&[1.0, 0.0], &[0.0, 1.0]]),
        Some(matrix(&[&[big, 0.0], &[0.0, big]])),
        dec(2.5),
    );
    assert!(matches!(o.optimize(), Err(RebalancingError::OptimizationError(_))));
}

#[test]
fn identity_covariance_gives_exact_weights() {
    // by_returns = r, by_ones = 1, a = 0.3, c = 2, lambda = (0.3 - 5) / 2 = -2.35,
    // raw = (0.1 + 2.35, 0.2 + 2.35) / 2.5 = (0.98, 1.02), sum 2.
    let o = optimizer(&[0.1, 0.2], matrix(&[&[1.0, 0.0], &[0.0, 1.0]]), 2.5);
    assert_eq!(parts(&o.optimize().unwrap()), vec![49 * WHOLE / 100, 51 * WHOLE / 100]);
}

#[test]
fn weights_sum_to_one() {
    let cases: Vec<(Vec<f64>, CovarianceMatrix, f64)> = vec![
        (vec![0.2, 0.04], matrix(&[&[1.0, 0.2], &[0.2, 1.0]]), 2.5),
        (vec![0.15, 0.03, 0.05], matrix(&[&[0.05, 0.01, 0.01], &[0.01, 0.05, 0.01], &[0.01, 0.01, 0.05]]), 3.0),
        (vec![0.07, 0.01, 0.3, -0.02], matrix(&[
            &[0.09, 0.01, 0.02, 0.0],
            &[0.01, 0.04, 0.0, 0.01],
            &[0.02, 0.0, 0.16, 0.03],
            &[0.0, 0.01, 0.03, 0.02],
        ]), 1.0),
        (vec![0.12], matrix(&[&[0.3]]), 7.0),
    ];
    for (returns, cov, gamma) in cases {
        let n = returns.len() as i128;
        let weights = optimizer(&returns, cov, gamma).optimize().unwrap();
        assert_eq!(weights.len() as i128, n);
        let sum: i128 = weights.iter().map(|w| w.parts).sum();
        assert!((sum - WHOLE).abs() < n, "sum {}", sum);
        // Well within a billionth of one.
        assert!((sum - WHOLE).abs() <= 1_000_000_000);
    }
}

#[test]
fn higher_return_gets_the_greater_weight() {
    let o = optimizer(&[0.20, 0.04], matrix(&[&[1.0, 0.2], &[0.2, 1.0]]), 2.5);
    let weights = o.optimize().unwrap();
    assert!(weights[0].parts > weights[1].parts);
    assert!((share(weights[0]) - 0.524).abs() < 1e-6);
    assert!((share(weights[1]) - 0.476).abs() < 1e-6);
}

#[test]
fn raw_weights_that_cancel_give_equal_weights() {
    assert_eq!(parts(&normalize(&decs(&[0.5, -0.5])).unwrap()), vec![WHOLE / 2, WHOLE / 2]);
    let tiny = vec![Decimal::from_nanos(1), Decimal::from_nanos(0), Decimal::from_nanos(0)];
    assert_eq!(parts(&normalize(&tiny).unwrap()), vec![333_333_333_333_333_333; 3]);
    let minus = vec![Decimal::from_nanos(-1)];
    assert_eq!(parts(&normalize(&minus).unwrap()), vec![WHOLE]);
    // Two billionths are enough to normalize.
    let two = vec![Decimal::from_nanos(3), Decimal::from_nanos(-1)];
    assert_eq!(parts(&normalize(&two).unwrap()), vec![3 * WHOLE / 2, -WHOLE / 2]);
    assert!(normalize(&decs(&[9.0e9, 9.0e9])).is_none());
}

#[test]
fn normalizing_divides_by_the_sum() {
    assert_eq!(parts(&normalize(&decs(&[1.0, 3.0])).unwrap()), vec![WHOLE / 4, 3 * WHOLE / 4]);
    assert_eq!(
        parts(&normalize(&decs(&[1.0, 1.0, 1.0])).unwrap()),
        vec![333_333_333_333_333_333; 3]
    );
    // A negative sum: Euclidean division rounds up.
    assert_eq!(
        parts(&normalize(&decs(&[-1.0, -1.0, -1.0])).unwrap()),
        vec![333_333_333_333_333_334; 3]
    );
    assert_eq!(parts(&uniform_weights(7)), vec![142_857_142_857_142_857; 7]);
    assert_eq!(
        parts(&shares_of_sum(&decs(&[1.0, -1.0, 0.0]), dec(3.0))),
        vec![333_333_333_333_333_333, -333_333_333_333_333_334, 0]
    );
    assert_eq!(Weight::share(dec(2.5), dec(-10.0)).parts(), -WHOLE / 4);
}

#[test]
fn linear_algebra_on_exact_values() {
    assert_eq!(checked_dot(&decs(&[1.5, -2.0]), &decs(&[4.0, 0.25])).unwrap().nanos, 5_500_000_000);
    assert_eq!(checked_dot(&vec![], &vec![]).unwrap().nanos, 0);
    assert!(checked_dot(&decs(&[9.0e9]), &decs(&[2.0])).is_none());
    let m = matrix(&[&[1.0, 2.0], &[3.0, 4.0]]);
    assert_eq!(nanos(&row_totals(&m).unwrap()), vec![3_000_000_000, 7_000_000_000]);
    assert_eq!(
        nanos(&times_vector(&m, &decs(&[0.5, -1.0])).unwrap()),
        vec![-1_500_000_000, -2_500_000_000]
    );
}

#[test]
fn multiplier_and_raw_weight_follow_their_formulas() {
    // (0.3 - 2.5 * 2) / 2 = -2.35
    assert_eq!(budget_multiplier(dec(0.3), dec(2.0), dec(2.5)).unwrap().nanos, -2_350_000_000);
    assert!(budget_multiplier(dec(0.3), dec(0.0), dec(2.5)).is_none());
    // (0.1 - (-2.35) * 1) / 2.5 = 0.98
    assert_eq!(unnormalized_weight(dec(0.1), dec(1.0), dec(-2.35), dec(2.5)).unwrap().nanos, 980_000_000);
    assert_eq!(
        nanos(&unnormalized_weights(&decs(&[0.1, 0.2]), &decs(&[1.0, 1.0]), dec(-2.35), dec(2.5)).unwrap()),
        vec![980_000_000, 1_020_000_000]
    );
    assert_eq!(
        parts(&solve(&decs(&[0.1, 0.2]), &matrix(&[&[1.0, 0.0], &[0.0, 1.0]]), dec(2.5)).unwrap()),
        vec![49 * WHOLE / 100, 51 * WHOLE / 100]
    );
}

#[test]
fn matrix_cells_can_be_read_and_replaced() {
    let mut m = CovarianceMatrix::from_element(2, 3, dec(0.01));
    assert_eq!(m.nrows(), 2);
    assert_eq!(m.rows[1].len(), 3);
    assert!(!m.has_shape(2));
    m.set(1, 2, dec(0.5));
    assert_eq!(m.get(1, 2).nanos, 500_000_000);
    assert_eq!(m.get(0, 2).nanos, 10_000_000);
    assert!(CovarianceMatrix::from_element(3, 3, dec(1.0)).has_shape(3));
    assert!(CovarianceMatrix::from_element(0, 0, dec(1.0)).has_shape(0));
}

#[test]
fn sample_covariance_is_a_fixed_pattern() {
    let m = SampleCovarianceModel::default()
        .calculate(&ids(&["A", "B", "C"]), &MarketDataContext::new())
        .unwrap();
    assert!(m.has_shape(3));
    for i in 0..3 {
        for j in 0..3 {
            assert_eq!(m.get(i, j).nanos, if i == j { 50_000_000 } else { 10_000_000 });
        }
    }
    let empty = SampleCovarianceModel.calculate(&vec![], &MarketDataContext::new()).unwrap();
    assert_eq!(empty.nrows(), 0);
}

#[test]
fn mock_covariance_couples_the_first_two_assets() {
    let m = MockRiskModel::new().calculate(&ids(&["A", "B", "C"]), &MarketDataContext::new()).unwrap();
    let got: Vec<Vec<i64>> = m.rows.iter().map(|r| nanos(r)).collect();
    assert_eq!(
        got,
        vec![
            vec![1_000_000_000, 200_000_000, 0],
            vec![200_000_000, 1_000_000_000, 0],
            vec![0, 0, 1_000_000_000],
        ]
    );
    let one = MockRiskModel::new().calculate(&ids(&["A"]), &MarketDataContext::new()).unwrap();
    assert_eq!(one.get(0, 0).nanos, 1_000_000_000);
}

#[test]
fn predictors_answer_in_the_order_of_the_ids() {
    let names = ids(&["BND", "TSLA", "AAPL"]);
    let m = MarketDataContext::new();
    assert_eq!(
        nanos(&HistoricalReturnsPredictor::default().predict(&names, &m).unwrap()),
        vec![30_000_000, 50_000_000, 150_000_000]
    );
    assert_eq!(
        nanos(&MockReturnsPredictor::new().predict(&names, &m).unwrap()),
        vec![40_000_000, 60_000_000, 200_000_000]
    );
    assert_eq!(
        nanos(&MarketEquilibriumPredictor.predict(&names, &m).unwrap()),
        vec![70_000_000, 70_000_000, 70_000_000]
    );
    assert!(MockReturnsPredictor::new().predict(&vec![], &m).unwrap().is_empty());
}

#[test]
fn held_quantity_is_that_of_the_last_holding() {
    let holdings = vec![
        Holding { asset_id: "AAPL".to_string(), quantity: dec(1.0) },
        Holding { asset_id: "BND".to_string(), quantity: dec(2.0) },
        Holding { asset_id: "AAPL".to_string(), quantity: dec(3.0) },
    ];
    assert_eq!(quantity_held(&holdings, &"AAPL".to_string()).nanos, 3_000_000_000);
    assert_eq!(quantity_held(&holdings, &"BND".to_string()).nanos, 2_000_000_000);
    assert_eq!(quantity_held(&holdings, &"GLD".to_string()).nanos, 0);
}

#[test]
fn difference_toward_a_weight() {
    // 6500 * 0.6 - 10 * 150 = 2400
    assert_eq!(
        difference_for_weight(dec(10.0), dec(150.0), wt(0.6), dec(6500.0)).unwrap().nanos,
        2_400_000_000_000
    );
    assert!(difference_for_weight(dec(10.0), dec(150.0), wt(9.0e9), dec(6500.0)).is_none());
    assert!(difference_for_weight(dec(10.0), dec(150.0), wt(2.0e6), dec(6500.0)).is_none());
}

#[test]
fn weights_become_trades_in_the_order_of_the_assets() {
    let trades = trades_for_weights(&portfolio(), &market(), Ok(wts(&[0.6, 0.4]))).unwrap();
    assert_eq!(trades.len(), 2);
    assert_eq!(trades[0].asset_id, "AAPL");
    assert_eq!(trades[0].order_type, OrderType::Buy);
    assert_eq!(trades[0].estimated_value.nanos, 2_400_000_000_000);
    assert_eq!(trades[0].quantity.nanos, 16_000_000_000);
    assert_eq!(trades[0].reason, "Rebalancing to MVO optimal weights");
    assert_eq!(trades[1].asset_id, "BND");
    assert_eq!(trades[1].order_type, OrderType::Sell);
    assert_eq!(trades[1].estimated_value.nanos, 1_400_000_000_000);
    assert_eq!(trades[1].quantity.nanos, 17_500_000_000);
}

#[test]
fn differences_under_one_unit_are_skipped() {
    let p = portfolio();
    let m = market();
    let id = "AAPL".to_string();
    let mut trades = vec![];
    // Held 1500; targets of 1500.5 and 1499.000000001 are within one unit.
    push_trade_toward_weight(&mut trades, &id, wt(1500.5 / 6500.0), &p.holdings, &m, dec(6500.0)).unwrap();
    assert!(trades.is_empty());
    // A difference of exactly one unit is traded.
    push_trade_toward_weight(&mut trades, &id, wt(0.5), &p.holdings, &m, dec(3002.0)).unwrap();
    assert_eq!(trades.len(), 1);
    assert_eq!(trades[0].order_type, OrderType::Buy);
    assert_eq!(trades[0].estimated_value.nanos, 1_000_000_000);
    push_trade_toward_weight(&mut trades, &id, wt(0.5), &p.holdings, &m, dec(2998.0)).unwrap();
    assert_eq!(trades.len(), 2);
    assert_eq!(trades[1].order_type, OrderType::Sell);
    assert_eq!(trades[1].estimated_value.nanos, 1_000_000_000);
}

#[test]
fn wrong_number_of_weights_is_an_internal_error() {
    match trades_for_weights(&portfolio(), &market(), Ok(wts(&[1.0]))).unwrap_err() {
        RebalancingError::InternalError(detail) => {
            assert_eq!(detail, "Optimizer returned weights with incorrect dimensions")
        }
        other => panic!("unexpected error {:?}", other),
    }
}

#[test]
fn small_portfolio_is_left_alone_whatever_the_optimizer_says() {
    let mut p = portfolio();
    p.holdings.clear();
    p.cash_balance = dec(0.99);
    let failed = Err(RebalancingError::OptimizationError("x".to_string()));
    assert!(trades_for_weights(&p, &market(), failed).unwrap().is_empty());
}

#[test]
fn optimizer_errors_pass_through_the_strategy() {
    let failed = Err(RebalancingError::OptimizationError("x".to_string()));
    assert!(matches!(
        trades_for_weights(&portfolio(), &market(), failed),
        Err(RebalancingError::OptimizationError(_))
    ));
    let config = MvoConfig { risk_aversion: dec(2.5), max_iterations: 1, tolerance: dec(0.1) };
    let strategy = MvoStrategy::new(config, optimizer(&[0.1, 0.2], matrix(&[&[1.0, 1.0], &[1.0, 1.0]]), 2.5));
    let r = strategy.execute(&portfolio(), &TargetAllocation::new(), &market(), &RiskProfile::Moderate);
    assert!(matches!(r, Err(RebalancingError::OptimizationError(_))));
}

#[test]
fn asset_without_a_price_fails_the_strategy() {
    let mut m = market();
    m.insert_asset(
        "GLD".to_string(),
        Asset {
            id: "GLD".to_string(),
            symbol: "GLD".to_string(),
            name: "Gold".to_string(),
            asset_class: AssetClass::Commodity,
        },
    );
    match trades_for_weights(&portfolio(), &m, Ok(wts(&[0.5, 0.3, 0.2]))).unwrap_err() {
        RebalancingError::MarketDataMissing(id) => assert_eq!(id, "GLD"),
        other => panic!("unexpected error {:?}", other),
    }
}

#[test]
fn asset_priced_at_zero_cannot_be_bought() {
    let mut m = market();
    m.insert_price("BND".to_string(), MarketPrice { price: dec(0.0), timestamp: 0 });
    let r = trades_for_weights(&portfolio(), &m, Ok(wts(&[0.5, 0.5])));
    assert!(matches!(r, Err(RebalancingError::InvalidInput(_))));
}

#[test]
fn strategy_follows_its_optimizer() {
    let config = MvoConfig { risk_aversion: dec(2.5), max_iterations: 100, tolerance: dec(1e-6) };
    let strategy = MvoStrategy::new(config, optimizer(&[0.20, 0.04], matrix(&[&[1.0, 0.2], &[0.2, 1.0]]), 2.5));
    let trades = strategy
        .execute(&portfolio(), &TargetAllocation::new(), &market(), &RiskProfile::Aggressive)
        .unwrap();
    assert!(trades.iter().any(|t| t.asset_id == "AAPL" && t.order_type == OrderType::Buy));
    let net: i64 = trades
        .iter()
        .map(|t| if t.order_type == OrderType::Buy { t.estimated_value.nanos } else { -t.estimated_value.nanos })
        .sum();
    // What is bought beyond what is sold is the cash, give or take rounding.
    assert!((net - 1_000_000_000_000).abs() < 100_000);
}

#[test]
fn weights_are_ordered_as_returns_under_equal_variances() {
    let cov = matrix(&[&[0.25, 0.0, 0.0, 0.0], &[0.0, 0.25, 0.0, 0.0], &[0.0, 0.0, 0.25, 0.0], &[0.0, 0.0, 0.0, 0.25]]);
    for gamma in [0.5, 2.5, 40.0] {
        let weights = optimizer(&[0.20, 0.04, 0.10, 0.04], matrix(&[
            &[0.25, 0.0, 0.0, 0.0],
            &[0.0, 0.25, 0.0, 0.0],
            &[0.0, 0.0, 0.25, 0.0],
            &[0.0, 0.0, 0.0, 0.25],
        ]), gamma)
        .optimize()
        .unwrap();
        assert!(weights[0].parts > weights[2].parts);
        assert!(weights[2].parts > weights[1].parts);
        assert_eq!(weights[1].parts, weights[3].parts);
        // w = 1/n + (r - mean) / (gamma * n)
        let mean = 0.095;
        for (w, r) in weights.iter().zip([0.20, 0.04, 0.10, 0.04]) {
            let expected = 0.25 + (r - mean) / (gamma * 4.0);
            assert!((share(*w) - expected).abs() < 1e-6, "{} {}", share(*w), expected);
        }
    }
    assert!(cov.has_shape(4));
}
