//! What the rebalancing strategies have in common: how one is selected, what
//! it is asked, and how a signed value becomes an order.

use crate::data_models::{
    out_of_range, out_of_range_error, trades_of, MarketDataContext, OrderType, Portfolio,
    RiskProfile, TargetAllocation, TradeOrder, TradeOrderView,
};
use crate::decimal::{narrow, narrow_i128, Decimal, NANOS_PER_UNIT};
use crate::error::{ErrorView, RebalancingError};
use crate::optimizers::MvoConfig;
use crate::threshold::ThresholdConfig;
use vstd::prelude::*;
use vstd::string::*;

verus! {

/// The strategy to rebalance with, and its tuning.
#[derive(Clone, Copy, Debug)]
pub enum RebalancingStrategy {
    Threshold(ThresholdConfig),
    MeanVarianceOptimization(MvoConfig),
}

impl RebalancingStrategy {
    /// The name of the strategy.
    pub open spec fn spec_name(self) -> Seq<char> {
        match self {
            RebalancingStrategy::Threshold(_) => "Threshold"@,
            RebalancingStrategy::MeanVarianceOptimization(_) => "MeanVarianceOptimization"@,
        }
    }

    /// The name of the strategy.
    pub fn name(&self) -> (r: String)
        ensures
            r@ == self.spec_name(),
    {
        match self {
            RebalancingStrategy::Threshold(_) => String::from_str("Threshold"),
            RebalancingStrategy::MeanVarianceOptimization(_) => String::from_str(
                "MeanVarianceOptimization",
            ),
        }
    }
}

/// The contents of an executable result of trades are what a specification
/// result says.
pub open spec fn same_trades(
    r: Result<Vec<TradeOrder>, RebalancingError>,
    expected: Result<Seq<TradeOrderView>, ErrorView>,
) -> bool {
    match (r, expected) {
        (Ok(trades), Ok(views)) => trades_of(trades@) == views,
        (Err(e), Err(v)) => e@ == v,
        _ => false,
    }
}

/// A way to turn a portfolio into trades.
pub trait StrategyExecutor {
    /// The trades that the strategy answers with: a function of the strategy
    /// and of what it is asked.
    spec fn planned_trades(
        &self,
        portfolio: &Portfolio,
        target_allocation: &TargetAllocation,
        market_data: &MarketDataContext,
        risk_profile: &RiskProfile,
    ) -> Result<Seq<TradeOrderView>, ErrorView>;

    /// The trades that move a portfolio toward what the strategy aims at.
    fn execute(
        &self,
        portfolio: &Portfolio,
        target_allocation: &TargetAllocation,
        market_data: &MarketDataContext,
        risk_profile: &RiskProfile,
    ) -> (r: Result<Vec<TradeOrder>, RebalancingError>)
        ensures
            same_trades(
                r,
                self.planned_trades(portfolio, target_allocation, market_data, risk_profile),
            ),
    ;
}

/// The quantity that an amount stands for at a price: the amount divided by
/// the price.
///
/// There is none at a price of zero, none where it leaves the range of
/// `Decimal`, and none where it does not come out positive: an order always
/// has a quantity above zero, and an amount too small for its price, or a
/// negative price, gives no order.
pub open spec fn quantity_for(amount: Decimal, price: Decimal) -> Option<Decimal> {
    match amount.spec_div(price) {
        None => None,
        Some(quantity) => if quantity.nanos > 0 {
            Some(quantity)
        } else {
            None
        },
    }
}

/// The order that moves a holding by a signed value: a buy of the value for a
/// positive one, a sale of its magnitude for any other. The quantity is the
/// magnitude divided by the price, and is positive.
pub open spec fn order_for(asset_id: Seq<char>, value: Decimal, price: Decimal, reason: Seq<char>) -> Result<
    TradeOrderView,
    ErrorView,
> {
    if value.nanos > 0 {
        match quantity_for(value, price) {
            None => Err(ErrorView::InvalidInput(out_of_range())),
            Some(quantity) => Ok(
                TradeOrderView {
                    asset_id,
                    order_type: OrderType::Buy,
                    quantity,
                    estimated_value: value,
                    reason,
                },
            ),
        }
    } else {
        match narrow(-value.nanos) {
            None => Err(ErrorView::InvalidInput(out_of_range())),
            Some(amount) => match quantity_for(amount, price) {
                None => Err(ErrorView::InvalidInput(out_of_range())),
                Some(quantity) => Ok(
                    TradeOrderView {
                        asset_id,
                        order_type: OrderType::Sell,
                        quantity,
                        estimated_value: amount,
                        reason,
                    },
                ),
            },
        }
    }
}

/// The quantity that an amount stands for at a price.
pub fn positive_quantity(amount: Decimal, price: Decimal) -> (r: Option<Decimal>)
    ensures
        r == quantity_for(amount, price),
{
    match amount.checked_div(price) {
        None => None,
        Some(quantity) => if quantity.nanos > 0 {
            Some(quantity)
        } else {
            None
        },
    }
}

/// Appends the order that moves a holding by a signed value. On an error the
/// list is left as it was.
pub fn push_order(
    trades: &mut Vec<TradeOrder>,
    asset_id: &String,
    value: Decimal,
    price: Decimal,
    reason: String,
) -> (r: Result<(), RebalancingError>)
    ensures
        match order_for(asset_id@, value, price, reason@) {
            Err(e) => r is Err && r->Err_0@ == e && trades_of(final(trades)@) == trades_of(
                old(trades)@,
            ),
            Ok(trade) => r is Ok && trades_of(final(trades)@) == trades_of(old(trades)@).push(trade),
        },
{
    let ghost before = trades@;
    let (order_type, amount) = if value.nanos > 0 {
        (OrderType::Buy, value)
    } else {
        match narrow_i128(-(value.nanos as i128)) {
            Some(a) => (OrderType::Sell, a),
            None => {
                return Err(out_of_range_error());
            },
        }
    };
    match positive_quantity(amount, price) {
        None => Err(out_of_range_error()),
        Some(quantity) => {
            trades.push(
                TradeOrder {
                    asset_id: asset_id.clone(),
                    order_type,
                    quantity,
                    estimated_value: amount,
                    reason,
                },
            );
            proof {
                assert(trades_of(trades@) =~= trades_of(before).push(trades@.last()@));
            }
            Ok(())
        },
    }
}

/// What holds of every order of a plan: it is worth at least one unit and its
/// quantity is above zero.
pub open spec fn sound_order(trade: TradeOrderView) -> bool {
    &&& trade.estimated_value.nanos >= NANOS_PER_UNIT
    &&& trade.quantity.nanos > 0
}

/// Every order of a list is sound.
pub open spec fn all_sound(trades: Seq<TradeOrderView>) -> bool {
    forall|i: int| 0 <= i < trades.len() ==> sound_order(#[trigger] trades[i])
}

/// The order for a value of at least one unit, either way, is sound.
pub proof fn lemma_order_is_sound(
    asset_id: Seq<char>,
    value: Decimal,
    price: Decimal,
    reason: Seq<char>,
)
    requires
        value.nanos >= NANOS_PER_UNIT || value.nanos <= -NANOS_PER_UNIT,
        order_for(asset_id, value, price, reason) is Ok,
    ensures
        sound_order(order_for(asset_id, value, price, reason)->Ok_0),
{
}


/// At a positive price, the quantity of an order times the price makes up the
/// amount, short of less than one billionth of the price.
pub proof fn lemma_quantity_makes_up_the_amount(amount: Decimal, price: Decimal)
    requires
        price.nanos > 0,
        quantity_for(amount, price) is Some,
    ensures
        0 <= amount.nanos * NANOS_PER_UNIT - quantity_for(amount, price)->Some_0.nanos * price.nanos
            < price.nanos,
{
    let x = amount.nanos * NANOS_PER_UNIT;
    let d = price.nanos as int;
    let q = quantity_for(amount, price)->Some_0.nanos as int;
    assert(q == x / d);
    crate::decimal::lemma_remainder_bounds(x, d);
    assert(q * d == d * q) by (nonlinear_arith);
}

} // verus!
