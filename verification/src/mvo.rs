//! The mean-variance strategy: give every asset on record the weight that an
//! optimizer chose for it, and trade each asset toward its share of the
//! portfolio.

use crate::data_models::{
    names_of, out_of_range, out_of_range_error, total_value, trades_of, Holding, MarketDataContext,
    Portfolio, RiskProfile, TargetAllocation, TradeOrder, TradeOrderView,
};
use crate::decimal::{magnitude, Decimal, Weight, NANOS_PER_UNIT};
use crate::error::{ErrorView, RebalancingError};
use crate::optimizers::{answer_of, MvoConfig, PortfolioOptimizer};
use crate::strategies::{
    all_sound, lemma_order_is_sound, order_for, push_order, same_trades, StrategyExecutor,
};
use vstd::prelude::*;
use vstd::string::*;

verus! {

/// The quantity held of an asset: that of the last holding of the asset, and
/// zero where the portfolio has none.
pub open spec fn held_quantity(holdings: Seq<Holding>, asset_id: Seq<char>) -> Decimal
    decreases holdings.len(),
{
    if holdings.len() == 0 {
        Decimal { nanos: 0 }
    } else if holdings.last().asset_id@ == asset_id {
        holdings.last().quantity
    } else {
        held_quantity(holdings.drop_last(), asset_id)
    }
}

/// The reason given for every trade of the strategy.
pub open spec fn optimal_weights_reason() -> Seq<char> {
    "Rebalancing to MVO optimal weights"@
}

/// Detail of the error raised when the optimizer answers with more or fewer
/// weights than there are assets.
pub open spec fn wrong_weight_count() -> Seq<char> {
    "Optimizer returned weights with incorrect dimensions"@
}

/// By how much the value held of an asset is to change so that the asset has
/// a given weight in a portfolio of a given total value.
pub open spec fn difference_toward_weight(
    held: Decimal,
    price: Decimal,
    weight: Weight,
    total: Decimal,
) -> Option<Decimal> {
    match total.spec_scale(weight) {
        None => None,
        Some(target_value) => match held.spec_mul(price) {
            None => None,
            Some(current_value) => target_value.spec_sub(current_value),
        },
    }
}

/// The trade, if any, that moves one asset toward its weight. A difference of
/// less than one unit is not worth a trade.
pub open spec fn trade_toward_weight(
    asset_id: Seq<char>,
    weight: Weight,
    holdings: Seq<Holding>,
    market: &MarketDataContext,
    total: Decimal,
) -> Result<Option<TradeOrderView>, ErrorView> {
    match market.price_of(asset_id) {
        None => Err(ErrorView::MarketDataMissing(asset_id)),
        Some(price) => match difference_toward_weight(
            held_quantity(holdings, asset_id),
            price,
            weight,
            total,
        ) {
            None => Err(ErrorView::InvalidInput(out_of_range())),
            Some(difference) => if magnitude(difference.nanos as int) < NANOS_PER_UNIT {
                Ok(None)
            } else {
                match order_for(asset_id, difference, price, optimal_weights_reason()) {
                    Err(e) => Err(e),
                    Ok(trade) => Ok(Some(trade)),
                }
            },
        },
    }
}

/// The trades that move every asset toward its weight, in the order of the
/// asset ids.
pub open spec fn trades_toward_weights(
    asset_ids: Seq<Seq<char>>,
    weights: Seq<Weight>,
    holdings: Seq<Holding>,
    market: &MarketDataContext,
    total: Decimal,
) -> Result<Seq<TradeOrderView>, ErrorView>
    decreases asset_ids.len(),
{
    if asset_ids.len() == 0 {
        Ok(Seq::empty())
    } else {
        let k = asset_ids.len() - 1;
        match trades_toward_weights(asset_ids.drop_last(), weights, holdings, market, total) {
            Err(e) => Err(e),
            Ok(trades) => match trade_toward_weight(
                asset_ids[k],
                weights[k],
                holdings,
                market,
                total,
            ) {
                Err(e) => Err(e),
                Ok(None) => Ok(trades),
                Ok(Some(trade)) => Ok(trades.push(trade)),
            },
        }
    }
}

/// What the mean-variance strategy answers for a portfolio and for what an
/// optimizer said.
///
/// A portfolio worth less than one unit gets no trades, whatever the
/// optimizer said. An error of the optimizer is the answer. Weights that are
/// not one for each asset on record are an internal error.
pub open spec fn mvo_trades(
    portfolio: &Portfolio,
    market: &MarketDataContext,
    optimum: Result<Seq<Weight>, ErrorView>,
) -> Result<Seq<TradeOrderView>, ErrorView> {
    match total_value(portfolio, market) {
        Err(e) => Err(e),
        Ok(total) => if total.nanos < NANOS_PER_UNIT {
            Ok(Seq::empty())
        } else {
            match optimum {
                Err(e) => Err(e),
                Ok(weights) => if weights.len() != market.asset_ids().len() {
                    Err(ErrorView::InternalError(wrong_weight_count()))
                } else {
                    trades_toward_weights(
                        market.asset_ids(),
                        weights,
                        portfolio.holdings@,
                        market,
                        total,
                    )
                },
            }
        },
    }
}

/// An error met among the first `n` assets is the answer for all of them.
pub proof fn lemma_trades_toward_weights_stays(
    asset_ids: Seq<Seq<char>>,
    weights: Seq<Weight>,
    holdings: Seq<Holding>,
    market: &MarketDataContext,
    total: Decimal,
    n: int,
)
    requires
        0 <= n <= asset_ids.len(),
        trades_toward_weights(asset_ids.take(n), weights, holdings, market, total) is Err,
    ensures
        trades_toward_weights(asset_ids, weights, holdings, market, total) == trades_toward_weights(
            asset_ids.take(n),
            weights,
            holdings,
            market,
            total,
        ),
    decreases asset_ids.len() - n,
{
    if n < asset_ids.len() {
        assert(asset_ids.take(n + 1).drop_last() =~= asset_ids.take(n));
        assert(asset_ids.take(n + 1)[n] == asset_ids[n]);
        lemma_trades_toward_weights_stays(asset_ids, weights, holdings, market, total, n + 1);
    } else {
        assert(asset_ids.take(n) =~= asset_ids);
    }
}

/// The quantity held of an asset.
pub fn quantity_held(holdings: &Vec<Holding>, asset_id: &String) -> (r: Decimal)
    ensures
        r == held_quantity(holdings@, asset_id@),
{
    let mut found = Decimal::zero();
    let mut i: usize = 0;
    while i < holdings.len()
        invariant
            i <= holdings.len(),
            found == held_quantity(holdings@.take(i as int), asset_id@),
        decreases holdings.len() - i,
    {
        proof {
            assert(holdings@.take(i as int + 1).drop_last() =~= holdings@.take(i as int));
        }
        if holdings[i].asset_id == *asset_id {
            found = holdings[i].quantity;
        }
        i = i + 1;
    }
    proof {
        assert(holdings@.take(i as int) =~= holdings@);
    }
    found
}

/// By how much the value held of an asset is to change so that the asset has
/// a given weight in a portfolio of a given total value.
pub fn difference_for_weight(held: Decimal, price: Decimal, weight: Weight, total: Decimal) -> (r:
    Option<Decimal>)
    ensures
        r == difference_toward_weight(held, price, weight, total),
{
    let target_value = match total.checked_scale(weight) {
        Some(v) => v,
        None => {
            return None;
        },
    };
    let current_value = match held.checked_mul(price) {
        Some(v) => v,
        None => {
            return None;
        },
    };
    target_value.checked_sub(current_value)
}

/// Appends the trade, if any, that moves one asset toward its weight. On an
/// error the list is left as it was.
pub fn push_trade_toward_weight(
    trades: &mut Vec<TradeOrder>,
    asset_id: &String,
    weight: Weight,
    holdings: &Vec<Holding>,
    market: &MarketDataContext,
    total: Decimal,
) -> (r: Result<(), RebalancingError>)
    ensures
        match trade_toward_weight(asset_id@, weight, holdings@, market, total) {
            Err(e) => r is Err && r->Err_0@ == e && trades_of(final(trades)@) == trades_of(
                old(trades)@,
            ),
            Ok(None) => r is Ok && trades_of(final(trades)@) == trades_of(old(trades)@),
            Ok(Some(trade)) => r is Ok && trades_of(final(trades)@) == trades_of(old(trades)@).push(
                trade,
            ),
        },
{
    let price = match market.get_price(asset_id.as_str()) {
        Ok(p) => p,
        Err(e) => {
            return Err(e);
        },
    };
    let held = quantity_held(holdings, asset_id);
    let difference = match difference_for_weight(held, price, weight, total) {
        Some(d) => d,
        None => {
            return Err(out_of_range_error());
        },
    };
    if difference.nanos < NANOS_PER_UNIT && difference.nanos > -NANOS_PER_UNIT {
        return Ok(());
    }
    push_order(
        trades,
        asset_id,
        difference,
        price,
        String::from_str("Rebalancing to MVO optimal weights"),
    )
}

/// The trades that give every asset on record its weight, for what an
/// optimizer said.
pub fn trades_for_weights(
    portfolio: &Portfolio,
    market_data: &MarketDataContext,
    optimum: Result<Vec<Weight>, RebalancingError>,
) -> (r: Result<Vec<TradeOrder>, RebalancingError>)
    ensures
        same_trades(r, mvo_trades(portfolio, market_data, answer_of(optimum))),
        r is Ok ==> all_sound(trades_of(r->Ok_0@)),
{
    proof {
        if mvo_trades(portfolio, market_data, answer_of(optimum)) is Ok {
            lemma_mvo_trades_sound(portfolio, market_data, answer_of(optimum));
        }
    }
    let ghost answer = answer_of(optimum);
    let total = match portfolio.get_total_value(market_data) {
        Ok(t) => t,
        Err(e) => {
            return Err(e);
        },
    };
    let mut trades: Vec<TradeOrder> = Vec::new();
    proof {
        assert(trades_of(trades@) =~= Seq::<TradeOrderView>::empty());
    }
    if total.nanos < NANOS_PER_UNIT {
        return Ok(trades);
    }
    let weights = match optimum {
        Ok(w) => w,
        Err(e) => {
            return Err(e);
        },
    };
    let asset_ids = market_data.get_asset_ids();
    if weights.len() != asset_ids.len() {
        return Err(
            RebalancingError::InternalError(
                String::from_str("Optimizer returned weights with incorrect dimensions"),
            ),
        );
    }
    let ghost ids = market_data.asset_ids();
    let mut i: usize = 0;
    while i < asset_ids.len()
        invariant
            i <= asset_ids.len(),
            ids == names_of(asset_ids@),
            ids == market_data.asset_ids(),
            weights@.len() == ids.len(),
            total_value(portfolio, market_data) == Ok::<Decimal, ErrorView>(total),
            total.nanos >= NANOS_PER_UNIT,
            answer == answer_of(optimum),
            answer == Ok::<Seq<Weight>, ErrorView>(weights@),
            trades_toward_weights(
                ids.take(i as int),
                weights@,
                portfolio.holdings@,
                market_data,
                total,
            ) == Ok::<Seq<TradeOrderView>, ErrorView>(trades_of(trades@)),
        decreases asset_ids.len() - i,
    {
        proof {
            assert(ids.take(i as int + 1).drop_last() =~= ids.take(i as int));
            assert(ids.take(i as int + 1)[i as int] == ids[i as int]);
            assert(ids[i as int] == asset_ids@[i as int]@);
        }
        match push_trade_toward_weight(
            &mut trades,
            &asset_ids[i],
            weights[i],
            &portfolio.holdings,
            market_data,
            total,
        ) {
            Ok(()) => {},
            Err(e) => {
                proof {
                    lemma_trades_toward_weights_stays(
                        ids,
                        weights@,
                        portfolio.holdings@,
                        market_data,
                        total,
                        i as int + 1,
                    );
                }
                return Err(e);
            },
        }
        i = i + 1;
    }
    proof {
        assert(ids.take(i as int) =~= ids);
    }
    Ok(trades)
}

/// The strategy that trades every asset toward the weight an optimizer chose.
pub struct MvoStrategy<O: PortfolioOptimizer> {
    optimizer: O,
}

impl<O: PortfolioOptimizer> MvoStrategy<O> {
    /// A strategy that follows the given optimizer. The tuning was used to
    /// make the optimizer and is not read again.
    pub fn new(config: MvoConfig, optimizer: O) -> (r: Self)
        ensures
            r.optimizer() == optimizer,
    {
        MvoStrategy { optimizer }
    }

    /// The optimizer that the strategy follows.
    pub closed spec fn optimizer(&self) -> O {
        self.optimizer
    }
}

impl<O: PortfolioOptimizer> StrategyExecutor for MvoStrategy<O> {
    open spec fn planned_trades(
        &self,
        portfolio: &Portfolio,
        target_allocation: &TargetAllocation,
        market_data: &MarketDataContext,
        risk_profile: &RiskProfile,
    ) -> Result<Seq<TradeOrderView>, ErrorView> {
        mvo_trades(portfolio, market_data, self.optimizer().optimum())
    }

    /// The trades that give every asset on record the weight the optimizer
    /// chose for it. The target allocation is not read.
    fn execute(
        &self,
        portfolio: &Portfolio,
        target_allocation: &TargetAllocation,
        market_data: &MarketDataContext,
        risk_profile: &RiskProfile,
    ) -> (r: Result<Vec<TradeOrder>, RebalancingError>)
        ensures
            r is Ok ==> all_sound(trades_of(r->Ok_0@)),
    {
        let optimum = self.optimizer.optimize();
        trades_for_weights(portfolio, market_data, optimum)
    }
}


/// Every trade toward a list of weights is a sound order.
pub proof fn lemma_trades_toward_weights_sound(
    asset_ids: Seq<Seq<char>>,
    weights: Seq<Weight>,
    holdings: Seq<Holding>,
    market: &MarketDataContext,
    total: Decimal,
)
    requires
        trades_toward_weights(asset_ids, weights, holdings, market, total) is Ok,
    ensures
        all_sound(trades_toward_weights(asset_ids, weights, holdings, market, total)->Ok_0),
    decreases asset_ids.len(),
{
    if asset_ids.len() > 0 {
        let k = asset_ids.len() - 1;
        lemma_trades_toward_weights_sound(asset_ids.drop_last(), weights, holdings, market, total);
        let price = market.price_of(asset_ids[k])->Some_0;
        let difference = difference_toward_weight(
            held_quantity(holdings, asset_ids[k]),
            price,
            weights[k],
            total,
        )->Some_0;
        if magnitude(difference.nanos as int) >= NANOS_PER_UNIT {
            lemma_order_is_sound(asset_ids[k], difference, price, optimal_weights_reason());
        }
    }
}

/// Every trade of the mean-variance strategy is worth at least one unit and
/// has a quantity above zero.
pub proof fn lemma_mvo_trades_sound(
    portfolio: &Portfolio,
    market: &MarketDataContext,
    optimum: Result<Seq<Weight>, ErrorView>,
)
    requires
        mvo_trades(portfolio, market, optimum) is Ok,
    ensures
        all_sound(mvo_trades(portfolio, market, optimum)->Ok_0),
{
    let total = total_value(portfolio, market)->Ok_0;
    if total.nanos >= NANOS_PER_UNIT {
        lemma_trades_toward_weights_sound(
            market.asset_ids(),
            optimum->Ok_0,
            portfolio.holdings@,
            market,
            total,
        );
    }
}

} // verus!
