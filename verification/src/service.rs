//! The rebalancing service: validation, choice of strategy, the models'
//! answers and the assembly of the plan.

use crate::data_models::{
    trades_of, MarketDataContext, PlanStatus, Portfolio, RebalancingPlan, RiskProfile,
    TargetAllocation, TradeOrder, TradeOrderView,
};
use crate::decimal::Decimal;
use crate::error::{ErrorView, RebalancingError};
use crate::mvo::{mvo_trades, MvoStrategy};
use crate::optimizers::{optimal_weights, MeanVarianceOptimizer, MvoConfig};
use crate::predictors::{ExpectedReturnsPredictor, HistoricalReturnsPredictor};
use crate::risk_models::{CovarianceMatrix, RiskModel, SampleCovarianceModel};
use crate::stamps::{fresh_id, now_micros, NIL_ID};
use crate::strategies::{all_sound, RebalancingStrategy, StrategyExecutor};
use crate::threshold::{threshold_trades, ThresholdStrategy};
use vstd::prelude::*;
use vstd::string::*;

verus! {

/// A linear-algebra backend. It is handed square matrices only, and answers
/// with the inverse, or with `None` where it finds the matrix singular.
///
/// Nothing is assumed of the answer: what the service returns is stated for
/// whatever the backend said.
pub trait MatrixInverter {
    fn try_inverse(&self, matrix: &CovarianceMatrix) -> Option<CovarianceMatrix>;
}

/// The summary of the plan for a portfolio with nothing in it.
pub open spec fn empty_portfolio_summary() -> Seq<char> {
    "Portfolio is empty, no action needed."@
}

/// The summary of the plan for a portfolio that needs no trade.
pub open spec fn within_limits_summary() -> Seq<char> {
    "No rebalancing needed, portfolio is within strategy limits."@
}

/// The summary of a plan with trades.
pub open spec fn plan_summary(strategy: RebalancingStrategy) -> Seq<char> {
    "Rebalancing plan generated using "@ + strategy.spec_name() + " strategy."@
}

/// The contents of an executable result of trades.
pub open spec fn trades_answer(r: Result<Vec<TradeOrder>, RebalancingError>) -> Result<
    Seq<TradeOrderView>,
    ErrorView,
> {
    match r {
        Ok(trades) => Ok(trades_of(trades@)),
        Err(e) => Err(e@),
    }
}

/// Whether a result is the plan that belongs to what a strategy answered.
///
/// An error of the strategy is the result. No trades give a pending plan
/// without trades, for the nil portfolio, that says so in its summary. Trades
/// give a pending plan with those trades, for the portfolio, that names the
/// strategy in its summary. Every plan has an id of its own.
pub open spec fn plan_carries(
    r: Result<RebalancingPlan, RebalancingError>,
    portfolio: &Portfolio,
    strategy: RebalancingStrategy,
    outcome: Result<Seq<TradeOrderView>, ErrorView>,
) -> bool {
    match outcome {
        Err(e) => r is Err && r->Err_0@ == e,
        Ok(trades) => {
            &&& r is Ok
            &&& r->Ok_0.status == PlanStatus::Pending
            &&& r->Ok_0.id != NIL_ID
            &&& trades_of(r->Ok_0.trades@) == trades
            &&& if trades.len() == 0 {
                r->Ok_0.summary@ == within_limits_summary() && r->Ok_0.portfolio_id == NIL_ID
            } else {
                r->Ok_0.summary@ == plan_summary(strategy) && r->Ok_0.portfolio_id == portfolio.id
            }
        },
    }
}

/// What the models and the backend said on the way to a mean-variance plan.
pub struct ModelAnswers {
    pub expected_returns: Result<Seq<Decimal>, ErrorView>,
    pub covariance: Result<CovarianceMatrix, ErrorView>,
    pub inverse: Option<CovarianceMatrix>,
}

/// Whether answers are such as the models and the backend give for a list of
/// `assets` asset ids: one expected return for each id, a square covariance
/// matrix with one row for each id, and an inverse only of a covariance
/// matrix that the optimizer will look at.
pub open spec fn answers_fit(answers: ModelAnswers, assets: nat) -> bool {
    &&& answers.expected_returns is Ok ==> answers.expected_returns->Ok_0.len() == assets
    &&& answers.covariance is Ok ==> answers.covariance->Ok_0.is_square(assets as int)
    &&& answers.inverse is Some ==> {
        &&& assets > 0
        &&& answers.expected_returns is Ok
        &&& answers.covariance is Ok
    }
}

/// What the mean-variance strategy answers for a portfolio and for what the
/// models said: an error of the returns model first, then one of the risk
/// model, then what the optimizer and the strategy make of their answers.
pub open spec fn mvo_outcome(
    portfolio: &Portfolio,
    market: &MarketDataContext,
    config: MvoConfig,
    answers: ModelAnswers,
) -> Result<Seq<TradeOrderView>, ErrorView> {
    match answers.expected_returns {
        Err(e) => Err(e),
        Ok(expected_returns) => match answers.covariance {
            Err(e) => Err(e),
            Ok(covariance) => mvo_trades(
                portfolio,
                market,
                optimal_weights(
                    expected_returns,
                    &covariance,
                    answers.inverse,
                    config.risk_aversion,
                ),
            ),
        },
    }
}

/// Whether a portfolio holds nothing and has no cash to invest.
pub fn portfolio_is_empty(portfolio: &Portfolio) -> (r: bool)
    ensures
        r == portfolio.is_empty(),
{
    portfolio.holdings.len() == 0 && portfolio.cash_balance.nanos <= 0
}

/// The plan that belongs to what a strategy answered.
pub fn assemble_plan(
    portfolio: &Portfolio,
    strategy: RebalancingStrategy,
    outcome: Result<Vec<TradeOrder>, RebalancingError>,
) -> (r: Result<RebalancingPlan, RebalancingError>)
    ensures
        plan_carries(r, portfolio, strategy, trades_answer(outcome)),
{
    let trades = match outcome {
        Ok(t) => t,
        Err(e) => {
            return Err(e);
        },
    };
    if trades.len() == 0 {
        let plan = RebalancingPlan::no_action(
            String::from_str("No rebalancing needed, portfolio is within strategy limits."),
        );
        proof {
            assert(trades_of(plan.trades@) =~= trades_of(trades@));
        }
        return Ok(plan);
    }
    let name = strategy.name();
    let summary = String::from_str("Rebalancing plan generated using ").concat(
        name.as_str(),
    ).concat(" strategy.");
    Ok(
        RebalancingPlan {
            id: fresh_id(),
            portfolio_id: portfolio.id,
            created_at: now_micros(),
            trades,
            summary,
            status: PlanStatus::Pending,
        },
    )
}

/// The mean-variance plan for a portfolio, for what the models and the
/// backend said.
pub fn plan_from_models(
    portfolio: &Portfolio,
    target_allocation: &TargetAllocation,
    risk_profile: &RiskProfile,
    config: MvoConfig,
    market_data: &MarketDataContext,
    expected_returns: Result<Vec<Decimal>, RebalancingError>,
    covariance: Result<CovarianceMatrix, RebalancingError>,
    inverse: Option<CovarianceMatrix>,
) -> (r: Result<RebalancingPlan, RebalancingError>)
    ensures
        r is Ok ==> all_sound(trades_of(r->Ok_0.trades@)),
        plan_carries(
            r,
            portfolio,
            RebalancingStrategy::MeanVarianceOptimization(config),
            mvo_outcome(
                portfolio,
                market_data,
                config,
                ModelAnswers {
                    expected_returns: match expected_returns {
                        Ok(values) => Ok(values@),
                        Err(e) => Err(e@),
                    },
                    covariance: match covariance {
                        Ok(m) => Ok(m),
                        Err(e) => Err(e@),
                    },
                    inverse,
                },
            ),
        ),
{
    let expected_returns = match expected_returns {
        Ok(v) => v,
        Err(e) => {
            return Err(e);
        },
    };
    let covariance = match covariance {
        Ok(m) => m,
        Err(e) => {
            return Err(e);
        },
    };
    let optimizer = MeanVarianceOptimizer::new(
        expected_returns,
        covariance,
        inverse,
        config.risk_aversion,
    );
    let executor = MvoStrategy::new(config, optimizer);
    let trades = executor.execute(portfolio, target_allocation, market_data, risk_profile);
    assemble_plan(portfolio, RebalancingStrategy::MeanVarianceOptimization(config), trades)
}

/// Where the making of a plan stands after the first step.
#[derive(Debug)]
pub enum PlanStep {
    /// The plan is made.
    Done(RebalancingPlan),
    /// The mean-variance strategy was chosen. The returns model and the risk
    /// model are to be asked about these asset ids, in this order; their
    /// answers go to `plan_from_models`.
    AskModels { asset_ids: Vec<String>, config: MvoConfig },
}

/// What the first step settled: a plan or an error; nothing where the models
/// are to be asked.
pub open spec fn settled(r: Result<PlanStep, RebalancingError>) -> Option<
    Result<RebalancingPlan, RebalancingError>,
> {
    match r {
        Ok(PlanStep::Done(plan)) => Some(Ok(plan)),
        Ok(PlanStep::AskModels { .. }) => None,
        Err(e) => Some(Err(e)),
    }
}

/// Whether a result is the plan for a portfolio with nothing in it.
pub open spec fn is_empty_portfolio_plan(r: Result<RebalancingPlan, RebalancingError>) -> bool {
    &&& r is Ok
    &&& r->Ok_0.trades@.len() == 0
    &&& r->Ok_0.status == PlanStatus::Pending
    &&& r->Ok_0.summary@ == empty_portfolio_summary()
    &&& r->Ok_0.portfolio_id == NIL_ID
    &&& r->Ok_0.id != NIL_ID
}

/// The first step of a plan: everything that needs no model.
///
/// A portfolio without holdings and without cash gets a plan without trades.
/// Otherwise the market data must cover every holding and the target
/// allocation must be valid. Then the threshold strategy is run at once; for
/// the mean-variance strategy the asset ids are taken from the market data,
/// once, for the models to be asked about.
pub fn start_plan(
    portfolio: &Portfolio,
    target_allocation: &TargetAllocation,
    risk_profile: &RiskProfile,
    strategy: RebalancingStrategy,
    market_data: &MarketDataContext,
) -> (r: Result<PlanStep, RebalancingError>)
    ensures
        r matches Ok(PlanStep::Done(plan)) ==> plan.status == PlanStatus::Pending && plan.id
            != NIL_ID && all_sound(trades_of(plan.trades@)),
        portfolio.is_empty() ==> settled(r) is Some && is_empty_portfolio_plan(settled(r)->Some_0),
        !portfolio.is_empty() && !market_data.covers(portfolio.holdings@) ==> {
            &&& r is Err
            &&& market_data.first_gap(portfolio.holdings@) is Some
            &&& r->Err_0@ == ErrorView::MarketDataMissing(
                market_data.first_gap(portfolio.holdings@)->Some_0,
            )
        },
        !portfolio.is_empty() && market_data.covers(portfolio.holdings@)
            && !target_allocation.is_valid() ==> r is Err && r->Err_0@ == ErrorView::InvalidInput(
            TargetAllocation::invalid_detail(),
        ),
        !portfolio.is_empty() && market_data.covers(portfolio.holdings@)
            && target_allocation.is_valid() ==> match strategy {
            RebalancingStrategy::Threshold(config) => settled(r) is Some && plan_carries(
                settled(r)->Some_0,
                portfolio,
                strategy,
                threshold_trades(portfolio, target_allocation, market_data, config),
            ),
            RebalancingStrategy::MeanVarianceOptimization(config) => (r matches Ok(
                PlanStep::AskModels { asset_ids, config: asked },
            ) && asked == config && crate::data_models::names_of(asset_ids@)
                == market_data.asset_ids()),
        },
{
    if portfolio_is_empty(portfolio) {
        return Ok(
            PlanStep::Done(
                RebalancingPlan::no_action(
                    String::from_str("Portfolio is empty, no action needed."),
                ),
            ),
        );
    }
    proof {
        market_data.lemma_first_gap_none_iff_covers(portfolio.holdings@);
    }
    match market_data.validate_for_portfolio(portfolio) {
        Ok(()) => {},
        Err(e) => {
            return Err(e);
        },
    }
    match target_allocation.validate() {
        Ok(()) => {},
        Err(e) => {
            return Err(e);
        },
    }
    match strategy {
        RebalancingStrategy::Threshold(config) => {
            let executor = ThresholdStrategy::new(config);
            let trades = executor.execute(portfolio, target_allocation, market_data, risk_profile);
            match assemble_plan(portfolio, strategy, trades) {
                Ok(plan) => Ok(PlanStep::Done(plan)),
                Err(e) => Err(e),
            }
        },
        RebalancingStrategy::MeanVarianceOptimization(config) => Ok(
            PlanStep::AskModels { asset_ids: market_data.get_asset_ids(), config },
        ),
    }
}

/// Whether the optimizer will look at the inverse of a covariance matrix: it
/// does when there are returns and the matrix is square and as large as the
/// returns are many. Only then is a backend to be asked for the inverse.
pub fn wants_inverse(expected_returns: &Vec<Decimal>, covariance: &CovarianceMatrix) -> (r: bool)
    ensures
        r == (expected_returns@.len() > 0 && covariance.is_square(expected_returns@.len() as int)),
{
    expected_returns.len() > 0 && covariance.has_shape(expected_returns.len())
}

/// The service that turns a portfolio into a rebalancing plan. It keeps
/// nothing between calls.
pub struct RebalancingService<P: ExpectedReturnsPredictor, R: RiskModel, S: MatrixInverter> {
    returns_predictor: P,
    risk_model: R,
    inverter: S,
}

impl<S: MatrixInverter> RebalancingService<HistoricalReturnsPredictor, SampleCovarianceModel, S> {
    /// A service with the standard models.
    pub fn with_standard_models(inverter: S) -> (r: Self)
        ensures
            r.inverter() == inverter,
    {
        RebalancingService {
            returns_predictor: HistoricalReturnsPredictor,
            risk_model: SampleCovarianceModel,
            inverter,
        }
    }
}

impl<P: ExpectedReturnsPredictor, R: RiskModel, S: MatrixInverter> RebalancingService<P, R, S> {
    /// The model of expected returns that the service asks.
    pub closed spec fn returns_predictor(&self) -> P {
        self.returns_predictor
    }

    /// The risk model that the service asks.
    pub closed spec fn risk_model(&self) -> R {
        self.risk_model
    }

    /// The linear-algebra backend that the service asks.
    pub closed spec fn inverter(&self) -> S {
        self.inverter
    }

    /// A service with the given models and linear-algebra backend.
    pub fn new(returns_predictor: P, risk_model: R, inverter: S) -> (r: Self)
        ensures
            r.returns_predictor() == returns_predictor,
            r.risk_model() == risk_model,
            r.inverter() == inverter,
    {
        RebalancingService { returns_predictor, risk_model, inverter }
    }

    /// The rebalancing plan for a portfolio.
    ///
    /// A portfolio without holdings and without cash gets a plan without
    /// trades. Otherwise the market data must cover every holding and the
    /// target allocation must be valid; then the chosen strategy is run and
    /// its trades become the plan. No partial plan is ever returned.
    ///
    /// For the mean-variance strategy the asset ids are taken from the
    /// market data once, and the same list goes to the returns model and to
    /// the risk model. The plan is the one that belongs to their answers: one
    /// return for each asset id and a square covariance matrix of that size.
    /// The backend is asked for an inverse only of a covariance matrix that
    /// is square and as large as the returns are many.
    pub fn generate_plan(
        &self,
        portfolio: &Portfolio,
        target_allocation: &TargetAllocation,
        risk_profile: &RiskProfile,
        strategy: RebalancingStrategy,
        market_data: &MarketDataContext,
    ) -> (r: Result<RebalancingPlan, RebalancingError>)
        ensures
            r is Ok ==> r->Ok_0.status == PlanStatus::Pending && r->Ok_0.id != NIL_ID && all_sound(
                trades_of(r->Ok_0.trades@),
            ),
            portfolio.is_empty() ==> is_empty_portfolio_plan(r),
            !portfolio.is_empty() && !market_data.covers(portfolio.holdings@) ==> {
                &&& r is Err
                &&& market_data.first_gap(portfolio.holdings@) is Some
                &&& r->Err_0@ == ErrorView::MarketDataMissing(
                    market_data.first_gap(portfolio.holdings@)->Some_0,
                )
            },
            !portfolio.is_empty() && market_data.covers(portfolio.holdings@)
                && !target_allocation.is_valid() ==> r is Err && r->Err_0@
                == ErrorView::InvalidInput(TargetAllocation::invalid_detail()),
            !portfolio.is_empty() && market_data.covers(portfolio.holdings@)
                && target_allocation.is_valid() ==> match strategy {
                RebalancingStrategy::Threshold(config) => plan_carries(
                    r,
                    portfolio,
                    strategy,
                    threshold_trades(portfolio, target_allocation, market_data, config),
                ),
                RebalancingStrategy::MeanVarianceOptimization(config) => exists|
                    answers: ModelAnswers,
                |
                    {
                        &&& answers_fit(answers, market_data.asset_ids().len())
                        &&& plan_carries(
                            r,
                            portfolio,
                            strategy,
                            #[trigger] mvo_outcome(portfolio, market_data, config, answers),
                        )
                    },
            },
    {
        let (asset_ids, config) = match start_plan(
            portfolio,
            target_allocation,
            risk_profile,
            strategy,
            market_data,
        ) {
            Err(e) => {
                return Err(e);
            },
            Ok(PlanStep::Done(plan)) => {
                return Ok(plan);
            },
            Ok(PlanStep::AskModels { asset_ids, config }) => (asset_ids, config),
        };
        let expected_returns = match self.returns_predictor.predict(
            &asset_ids,
            market_data,
        ) {
            Ok(v) => v,
            Err(e) => {
                proof {
                    let answers = ModelAnswers {
                        expected_returns: Err(e@),
                        covariance: Err(e@),
                        inverse: None,
                    };
                    assert(answers_fit(answers, market_data.asset_ids().len()));
                    assert(mvo_outcome(portfolio, market_data, config, answers) == Err::<
                        Seq<TradeOrderView>,
                        ErrorView,
                    >(e@));
                }
                return Err(e);
            },
        };
        let covariance = match self.risk_model.calculate(&asset_ids, market_data) {
            Ok(m) => m,
            Err(e) => {
                proof {
                    let answers = ModelAnswers {
                        expected_returns: Ok(expected_returns@),
                        covariance: Err(e@),
                        inverse: None,
                    };
                    assert(answers_fit(answers, market_data.asset_ids().len()));
                    assert(mvo_outcome(portfolio, market_data, config, answers) == Err::<
                        Seq<TradeOrderView>,
                        ErrorView,
                    >(e@));
                }
                return Err(e);
            },
        };
        let inverse = if wants_inverse(&expected_returns, &covariance) {
            self.inverter.try_inverse(&covariance)
        } else {
            None
        };
        let ghost answers = ModelAnswers {
            expected_returns: Ok(expected_returns@),
            covariance: Ok(covariance),
            inverse,
        };
        let r = plan_from_models(
            portfolio,
            target_allocation,
            risk_profile,
            config,
            market_data,
            Ok(expected_returns),
            Ok(covariance),
            inverse,
        );
        proof {
            assert(answers_fit(answers, market_data.asset_ids().len()));
            assert(plan_carries(
                r,
                portfolio,
                strategy,
                mvo_outcome(portfolio, market_data, config, answers),
            ));
        }
        r
    }
}

} // verus!
