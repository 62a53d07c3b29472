//! The threshold strategy: trade only when a class has drifted from its
//! target by more than a set fraction of the portfolio, and then move every
//! class to its target through the holdings it already has.
//!
//! The strategy never opens a position: a class without holdings is left
//! alone, whatever its target.

use crate::data_models::{
    holding_value, out_of_range, out_of_range_error, total_value, trades_of, AssetClass,
    AssetClassView, Holding, MarketDataContext, Portfolio, RiskProfile, TargetAllocation,
    AllocationEntry, TradeOrder, TradeOrderView,
};
use crate::decimal::{magnitude, narrow, narrow_i128, Decimal, NANOS_PER_UNIT};
use crate::error::{ErrorView, RebalancingError};
use crate::strategies::{all_sound, lemma_order_is_sound, order_for, push_order, StrategyExecutor};
use vstd::prelude::*;
use vstd::string::*;

verus! {

/// Below this magnitude, in billionths, the value of a class counts as zero
/// and none of a difference is assigned to its holdings: a millionth.
pub const NEGLIGIBLE_CLASS_VALUE_NANOS: i64 = 1_000;

/// How the threshold strategy is tuned.
#[derive(Clone, Copy, Debug)]
pub struct ThresholdConfig {
    /// The largest tolerated distance between the share a class has of the
    /// portfolio and its target, as a fraction of the portfolio.
    pub deviation_threshold: Decimal,
}

/// The id of the first holding whose asset has no classification on record.
pub open spec fn first_unclassified(holdings: Seq<Holding>, market: &MarketDataContext) -> Option<
    Seq<char>,
>
    decreases holdings.len(),
{
    if holdings.len() == 0 {
        None
    } else {
        match first_unclassified(holdings.drop_last(), market) {
            Some(id) => Some(id),
            None => if market.assets().contains_key(holdings.last().asset_id@) {
                None
            } else {
                Some(holdings.last().asset_id@)
            },
        }
    }
}

/// Whether a holding belongs to a class, by the classification on record.
pub open spec fn in_class(holding: Holding, market: &MarketDataContext, class: AssetClassView) -> bool {
    market.class_of(holding.asset_id@) == Some(class)
}

/// The billionths of the summed value of the holdings of one class.
pub open spec fn class_nanos(
    holdings: Seq<Holding>,
    market: &MarketDataContext,
    class: AssetClassView,
) -> Result<int, ErrorView>
    decreases holdings.len(),
{
    if holdings.len() == 0 {
        Ok(0)
    } else {
        match class_nanos(holdings.drop_last(), market, class) {
            Err(e) => Err(e),
            Ok(sum) => if in_class(holdings.last(), market, class) {
                match holding_value(holdings.last(), market) {
                    Err(e) => Err(e),
                    Ok(value) => Ok(sum + value.nanos),
                }
            } else {
                Ok(sum)
            },
        }
    }
}

/// The number of holdings of one class.
pub open spec fn class_size(
    holdings: Seq<Holding>,
    market: &MarketDataContext,
    class: AssetClassView,
) -> nat
    decreases holdings.len(),
{
    if holdings.len() == 0 {
        0
    } else {
        class_size(holdings.drop_last(), market, class) + if in_class(
            holdings.last(),
            market,
            class,
        ) {
            1nat
        } else {
            0nat
        }
    }
}

/// The value that the holdings of one class have together.
pub open spec fn class_value(
    holdings: Seq<Holding>,
    market: &MarketDataContext,
    class: AssetClassView,
) -> Result<Decimal, ErrorView> {
    match class_nanos(holdings, market, class) {
        Err(e) => Err(e),
        Ok(sum) => match narrow(sum) {
            None => Err(ErrorView::InvalidInput(out_of_range())),
            Some(value) => Ok(value),
        },
    }
}

/// The value of the class of every target, in the order of the targets.
pub open spec fn class_values(
    targets: Seq<AllocationEntry>,
    holdings: Seq<Holding>,
    market: &MarketDataContext,
) -> Result<Seq<Decimal>, ErrorView>
    decreases targets.len(),
{
    if targets.len() == 0 {
        Ok(Seq::empty())
    } else {
        match class_values(targets.drop_last(), holdings, market) {
            Err(e) => Err(e),
            Ok(values) => match class_value(holdings, market, targets.last().asset_class@) {
                Err(e) => Err(e),
                Ok(value) => Ok(values.push(value)),
            },
        }
    }
}

/// Whether a class is further from its target than the threshold allows:
/// whether the share that the class has of a positive total differs from the
/// target fraction by more than the threshold. Nothing is rounded: both sides
/// of the comparison are multiplied by the total.
pub open spec fn deviates(
    class_value: Decimal,
    fraction: Decimal,
    total: Decimal,
    threshold: Decimal,
) -> bool {
    magnitude(class_value.nanos * NANOS_PER_UNIT - fraction.nanos * total.nanos) > threshold.nanos
        * total.nanos
}

/// Whether any class is further from its target than the threshold allows.
pub open spec fn needs_rebalancing(
    targets: Seq<AllocationEntry>,
    current: Seq<Decimal>,
    total: Decimal,
    threshold: Decimal,
) -> bool {
    exists|k: int|
        0 <= k < targets.len() && #[trigger] deviates(
            current[k],
            targets[k].fraction,
            total,
            threshold,
        )
}

/// The billionths of the part of a class's difference that falls to one of
/// its holdings: the difference times the holding's share of the class, and
/// nothing where the class is worth next to nothing.
pub open spec fn share_nanos(difference: int, holding_value: int, class_value: int) -> int {
    if magnitude(class_value) > NEGLIGIBLE_CLASS_VALUE_NANOS {
        (difference * holding_value) / class_value
    } else {
        0
    }
}

/// The reason given for a trade that aligns a class with its target.
pub open spec fn alignment_reason(class: AssetClassView) -> Seq<char> {
    "Aligning "@ + class.label() + " to target."@
}

/// The trade that moves one holding by a signed value, if the value is worth
/// a trade: more than one unit either way.
pub open spec fn trade_for_value(
    asset_id: Seq<char>,
    value: Decimal,
    price: Decimal,
    reason: Seq<char>,
) -> Result<Option<TradeOrderView>, ErrorView> {
    if value.nanos > NANOS_PER_UNIT || value.nanos < -NANOS_PER_UNIT {
        match order_for(asset_id, value, price, reason) {
            Err(e) => Err(e),
            Ok(trade) => Ok(Some(trade)),
        }
    } else {
        Ok(None)
    }
}

/// The trade, if any, for one holding of a class whose value is to change by
/// `difference`.
pub open spec fn trade_for_holding(
    holding: Holding,
    market: &MarketDataContext,
    class: AssetClassView,
    class_value: Decimal,
    difference: Decimal,
) -> Result<Option<TradeOrderView>, ErrorView> {
    match holding_value(holding, market) {
        Err(e) => Err(e),
        Ok(value) => match narrow(
            share_nanos(difference.nanos as int, value.nanos as int, class_value.nanos as int),
        ) {
            None => Err(ErrorView::InvalidInput(out_of_range())),
            Some(share) => trade_for_value(
                holding.asset_id@,
                share,
                market.price_of(holding.asset_id@)->Some_0,
                alignment_reason(class),
            ),
        },
    }
}

/// The trades for the holdings of one class, in the order of the holdings.
pub open spec fn trades_for_class(
    holdings: Seq<Holding>,
    market: &MarketDataContext,
    class: AssetClassView,
    class_value: Decimal,
    difference: Decimal,
) -> Result<Seq<TradeOrderView>, ErrorView>
    decreases holdings.len(),
{
    if holdings.len() == 0 {
        Ok(Seq::empty())
    } else {
        match trades_for_class(holdings.drop_last(), market, class, class_value, difference) {
            Err(e) => Err(e),
            Ok(trades) => if in_class(holdings.last(), market, class) {
                match trade_for_holding(holdings.last(), market, class, class_value, difference) {
                    Err(e) => Err(e),
                    Ok(None) => Ok(trades),
                    Ok(Some(trade)) => Ok(trades.push(trade)),
                }
            } else {
                Ok(trades)
            },
        }
    }
}

/// By how much the value of a class is to change: its target share of the
/// total, less what it is worth now.
pub open spec fn class_difference(total: Decimal, fraction: Decimal, class_value: Decimal) -> Result<
    Decimal,
    ErrorView,
> {
    match total.spec_mul(fraction) {
        None => Err(ErrorView::InvalidInput(out_of_range())),
        Some(target_value) => match target_value.spec_sub(class_value) {
            None => Err(ErrorView::InvalidInput(out_of_range())),
            Some(difference) => Ok(difference),
        },
    }
}

/// The trades for every target, in the order of the targets.
pub open spec fn trades_for_targets(
    targets: Seq<AllocationEntry>,
    current: Seq<Decimal>,
    holdings: Seq<Holding>,
    market: &MarketDataContext,
    total: Decimal,
) -> Result<Seq<TradeOrderView>, ErrorView>
    decreases targets.len(),
{
    if targets.len() == 0 {
        Ok(Seq::empty())
    } else {
        let k = targets.len() - 1;
        match trades_for_targets(targets.drop_last(), current, holdings, market, total) {
            Err(e) => Err(e),
            Ok(trades) => match class_difference(total, targets[k].fraction, current[k]) {
                Err(e) => Err(e),
                Ok(difference) => match trades_for_class(
                    holdings,
                    market,
                    targets[k].asset_class@,
                    current[k],
                    difference,
                ) {
                    Err(e) => Err(e),
                    Ok(more) => Ok(trades + more),
                },
            },
        }
    }
}

/// What the threshold strategy answers for a portfolio.
///
/// A portfolio worth less than one unit gets no trades. So does one in which
/// no class deviates. Otherwise every target class is moved to its target.
pub open spec fn threshold_trades(
    portfolio: &Portfolio,
    target: &TargetAllocation,
    market: &MarketDataContext,
    config: ThresholdConfig,
) -> Result<Seq<TradeOrderView>, ErrorView> {
    match total_value(portfolio, market) {
        Err(e) => Err(e),
        Ok(total) => if total.nanos < NANOS_PER_UNIT {
            Ok(Seq::empty())
        } else {
            match first_unclassified(portfolio.holdings@, market) {
                Some(id) => Err(ErrorView::MarketDataMissing(id)),
                None => match class_values(target.entries(), portfolio.holdings@, market) {
                    Err(e) => Err(e),
                    Ok(current) => if needs_rebalancing(
                        target.entries(),
                        current,
                        total,
                        config.deviation_threshold,
                    ) {
                        trades_for_targets(
                            target.entries(),
                            current,
                            portfolio.holdings@,
                            market,
                            total,
                        )
                    } else {
                        Ok(Seq::empty())
                    },
                },
            }
        },
    }
}


/// An error met among the first `n` holdings is the answer for all of them.
pub proof fn lemma_first_unclassified_stays(
    holdings: Seq<Holding>,
    market: &MarketDataContext,
    n: int,
)
    requires
        0 <= n <= holdings.len(),
        first_unclassified(holdings.take(n), market) is Some,
    ensures
        first_unclassified(holdings, market) == first_unclassified(holdings.take(n), market),
    decreases holdings.len() - n,
{
    if n < holdings.len() {
        assert(holdings.take(n + 1).drop_last() =~= holdings.take(n));
        lemma_first_unclassified_stays(holdings, market, n + 1);
    } else {
        assert(holdings.take(n) =~= holdings);
    }
}

/// An error met among the first `n` holdings is the answer for all of them.
pub proof fn lemma_class_nanos_stays(
    holdings: Seq<Holding>,
    market: &MarketDataContext,
    class: AssetClassView,
    n: int,
)
    requires
        0 <= n <= holdings.len(),
        class_nanos(holdings.take(n), market, class) is Err,
    ensures
        class_nanos(holdings, market, class) == class_nanos(holdings.take(n), market, class),
    decreases holdings.len() - n,
{
    if n < holdings.len() {
        assert(holdings.take(n + 1).drop_last() =~= holdings.take(n));
        lemma_class_nanos_stays(holdings, market, class, n + 1);
    } else {
        assert(holdings.take(n) =~= holdings);
    }
}

/// An error met among the first `n` targets is the answer for all of them.
pub proof fn lemma_class_values_stays(
    targets: Seq<AllocationEntry>,
    holdings: Seq<Holding>,
    market: &MarketDataContext,
    n: int,
)
    requires
        0 <= n <= targets.len(),
        class_values(targets.take(n), holdings, market) is Err,
    ensures
        class_values(targets, holdings, market) == class_values(targets.take(n), holdings, market),
    decreases targets.len() - n,
{
    if n < targets.len() {
        assert(targets.take(n + 1).drop_last() =~= targets.take(n));
        lemma_class_values_stays(targets, holdings, market, n + 1);
    } else {
        assert(targets.take(n) =~= targets);
    }
}

/// An error met among the first `n` holdings is the answer for all of them.
pub proof fn lemma_trades_for_class_stays(
    holdings: Seq<Holding>,
    market: &MarketDataContext,
    class: AssetClassView,
    class_value: Decimal,
    difference: Decimal,
    n: int,
)
    requires
        0 <= n <= holdings.len(),
        trades_for_class(holdings.take(n), market, class, class_value, difference) is Err,
    ensures
        trades_for_class(holdings, market, class, class_value, difference) == trades_for_class(
            holdings.take(n),
            market,
            class,
            class_value,
            difference,
        ),
    decreases holdings.len() - n,
{
    if n < holdings.len() {
        assert(holdings.take(n + 1).drop_last() =~= holdings.take(n));
        lemma_trades_for_class_stays(holdings, market, class, class_value, difference, n + 1);
    } else {
        assert(holdings.take(n) =~= holdings);
    }
}

/// An error met among the first `n` targets is the answer for all of them.
pub proof fn lemma_trades_for_targets_stays(
    targets: Seq<AllocationEntry>,
    current: Seq<Decimal>,
    holdings: Seq<Holding>,
    market: &MarketDataContext,
    total: Decimal,
    n: int,
)
    requires
        0 <= n <= targets.len(),
        trades_for_targets(targets.take(n), current, holdings, market, total) is Err,
    ensures
        trades_for_targets(targets, current, holdings, market, total) == trades_for_targets(
            targets.take(n),
            current,
            holdings,
            market,
            total,
        ),
    decreases targets.len() - n,
{
    if n < targets.len() {
        assert(targets.take(n + 1).drop_last() =~= targets.take(n));
        assert(targets.take(n + 1)[n] == targets[n]);
        lemma_trades_for_targets_stays(targets, current, holdings, market, total, n + 1);
    } else {
        assert(targets.take(n) =~= targets);
    }
}

/// The class values of a list of targets are as many as the targets.
pub proof fn lemma_class_values_len(
    targets: Seq<AllocationEntry>,
    holdings: Seq<Holding>,
    market: &MarketDataContext,
)
    requires
        class_values(targets, holdings, market) is Ok,
    ensures
        class_values(targets, holdings, market)->Ok_0.len() == targets.len(),
    decreases targets.len(),
{
    if targets.len() > 0 {
        lemma_class_values_len(targets.drop_last(), holdings, market);
    }
}

/// The value of one holding at the price on record.
pub fn value_of_holding(holding: &Holding, market: &MarketDataContext) -> (r: Result<
    Decimal,
    RebalancingError,
>)
    ensures
        crate::error::same_outcome(r, holding_value(*holding, market)),
{
    let price = match market.get_price(holding.asset_id.as_str()) {
        Ok(p) => p,
        Err(e) => {
            return Err(e);
        },
    };
    match holding.quantity.checked_mul(price) {
        Some(v) => Ok(v),
        None => Err(out_of_range_error()),
    }
}

/// Whether a holding belongs to a class, by the classification on record.
pub fn holding_in_class(holding: &Holding, market: &MarketDataContext, class: &AssetClass) -> (r:
    bool)
    ensures
        r == in_class(*holding, market, class@),
{
    match market.get_asset(holding.asset_id.as_str()) {
        Ok(asset) => asset.asset_class == *class,
        Err(_) => false,
    }
}

/// Fails with `MarketDataMissing` at the first holding whose asset has no
/// classification on record.
pub fn require_classified(holdings: &Vec<Holding>, market: &MarketDataContext) -> (r: Result<
    (),
    RebalancingError,
>)
    ensures
        match first_unclassified(holdings@, market) {
            None => r is Ok,
            Some(id) => r is Err && r->Err_0@ == ErrorView::MarketDataMissing(id),
        },
{
    let mut i: usize = 0;
    while i < holdings.len()
        invariant
            i <= holdings.len(),
            first_unclassified(holdings@.take(i as int), market) is None,
        decreases holdings.len() - i,
    {
        proof {
            assert(holdings@.take(i as int + 1).drop_last() =~= holdings@.take(i as int));
        }
        match market.get_asset(holdings[i].asset_id.as_str()) {
            Ok(_) => {},
            Err(e) => {
                proof {
                    lemma_first_unclassified_stays(holdings@, market, i as int + 1);
                }
                return Err(e);
            },
        }
        i = i + 1;
    }
    proof {
        assert(holdings@.take(i as int) =~= holdings@);
    }
    Ok(())
}

/// The value that the holdings of one class have together.
pub fn value_of_class(holdings: &Vec<Holding>, market: &MarketDataContext, class: &AssetClass) -> (r:
    Result<Decimal, RebalancingError>)
    ensures
        crate::error::same_outcome(r, class_value(holdings@, market, class@)),
{
    let mut sum: i128 = 0;
    let mut i: usize = 0;
    while i < holdings.len()
        invariant
            i <= holdings.len(),
            class_nanos(holdings@.take(i as int), market, class@) == Ok::<int, ErrorView>(
                sum as int,
            ),
            crate::decimal::sum_bounded(sum as int, i as int),
        decreases holdings.len() - i,
    {
        proof {
            assert(holdings@.take(i as int + 1).drop_last() =~= holdings@.take(i as int));
        }
        if holding_in_class(&holdings[i], market, class) {
            let value = match value_of_holding(&holdings[i], market) {
                Ok(v) => v,
                Err(e) => {
                    proof {
                        lemma_class_nanos_stays(holdings@, market, class@, i as int + 1);
                    }
                    return Err(e);
                },
            };
            proof {
                crate::decimal::lemma_sum_bounded_step(sum as int, i as int, value.nanos as int);
            }
            sum = sum + (value.nanos as i128);
        } else {
            proof {
                crate::decimal::lemma_sum_bounded_step(sum as int, i as int, 0);
            }
        }
        i = i + 1;
    }
    proof {
        assert(holdings@.take(i as int) =~= holdings@);
    }
    match narrow_i128(sum) {
        Some(v) => Ok(v),
        None => Err(out_of_range_error()),
    }
}

/// The value of the class of every target, in the order of the targets.
pub fn values_of_classes(
    target: &TargetAllocation,
    holdings: &Vec<Holding>,
    market: &MarketDataContext,
) -> (r: Result<Vec<Decimal>, RebalancingError>)
    ensures
        match class_values(target.entries(), holdings@, market) {
            Ok(values) => r is Ok && r->Ok_0@ == values,
            Err(e) => r is Err && r->Err_0@ == e,
        },
{
    let mut out: Vec<Decimal> = Vec::new();
    let mut i: usize = 0;
    while i < target.len()
        invariant
            i <= target.entries().len(),
            class_values(target.entries().take(i as int), holdings@, market) == Ok::<
                Seq<Decimal>,
                ErrorView,
            >(out@),
        decreases target.entries().len() - i,
    {
        proof {
            assert(target.entries().take(i as int + 1).drop_last() =~= target.entries().take(
                i as int,
            ));
        }
        let entry = target.entry(i);
        match value_of_class(holdings, market, &entry.asset_class) {
            Ok(v) => {
                out.push(v);
            },
            Err(e) => {
                proof {
                    lemma_class_values_stays(target.entries(), holdings@, market, i as int + 1);
                }
                return Err(e);
            },
        }
        i = i + 1;
    }
    proof {
        assert(target.entries().take(i as int) =~= target.entries());
    }
    Ok(out)
}

/// Whether a class is further from its target than the threshold allows.
pub fn class_deviates(class_value: Decimal, fraction: Decimal, total: Decimal, threshold: Decimal) -> (r:
    bool)
    requires
        total.nanos >= NANOS_PER_UNIT,
    ensures
        r == deviates(class_value, fraction, total, threshold),
{
    proof {
        crate::decimal::lemma_product_bounds(class_value.nanos as int, NANOS_PER_UNIT as int);
        crate::decimal::lemma_product_bounds(fraction.nanos as int, total.nanos as int);
        crate::decimal::lemma_product_bounds(threshold.nanos as int, total.nanos as int);
    }
    let held: i128 = (class_value.nanos as i128) * (NANOS_PER_UNIT as i128);
    let wanted: i128 = (fraction.nanos as i128) * (total.nanos as i128);
    let allowed: i128 = (threshold.nanos as i128) * (total.nanos as i128);
    let off: i128 = held - wanted;
    let distance: i128 = if off < 0 {
        -off
    } else {
        off
    };
    distance > allowed
}

/// Whether any class is further from its target than the threshold allows.
pub fn any_deviation(
    target: &TargetAllocation,
    current: &Vec<Decimal>,
    total: Decimal,
    threshold: Decimal,
) -> (r: bool)
    requires
        current@.len() == target.entries().len(),
        total.nanos >= NANOS_PER_UNIT,
    ensures
        r == needs_rebalancing(target.entries(), current@, total, threshold),
{
    let mut i: usize = 0;
    while i < target.len()
        invariant
            i <= target.entries().len(),
            current@.len() == target.entries().len(),
            total.nanos >= NANOS_PER_UNIT,
            forall|k: int|
                0 <= k < i ==> !#[trigger] deviates(
                    current@[k],
                    target.entries()[k].fraction,
                    total,
                    threshold,
                ),
        decreases target.entries().len() - i,
    {
        if class_deviates(current[i], target.entry(i).fraction, total, threshold) {
            return true;
        }
        i = i + 1;
    }
    false
}


/// Appends the trade that moves one holding by a signed value, if the value
/// is worth a trade. On an error the list is left as it was.
pub fn push_trade_for_value(
    trades: &mut Vec<TradeOrder>,
    asset_id: &String,
    value: Decimal,
    price: Decimal,
    reason: String,
) -> (r: Result<(), RebalancingError>)
    ensures
        match trade_for_value(asset_id@, value, price, reason@) {
            Err(e) => r is Err && r->Err_0@ == e && trades_of(final(trades)@) == trades_of(
                old(trades)@,
            ),
            Ok(None) => r is Ok && trades_of(final(trades)@) == trades_of(old(trades)@),
            Ok(Some(trade)) => r is Ok && trades_of(final(trades)@) == trades_of(old(trades)@).push(
                trade,
            ),
        },
{
    if value.nanos > NANOS_PER_UNIT || value.nanos < -NANOS_PER_UNIT {
        push_order(trades, asset_id, value, price, reason)
    } else {
        Ok(())
    }
}

/// The part of a class's difference that falls to one of its holdings.
pub fn share_of_difference(difference: Decimal, holding_value: Decimal, class_value: Decimal) -> (r:
    Option<Decimal>)
    ensures
        r == narrow(
            share_nanos(
                difference.nanos as int,
                holding_value.nanos as int,
                class_value.nanos as int,
            ),
        ),
{
    if class_value.nanos > NEGLIGIBLE_CLASS_VALUE_NANOS || class_value.nanos
        < -NEGLIGIBLE_CLASS_VALUE_NANOS {
        difference.checked_mul_div(holding_value, class_value)
    } else {
        Some(Decimal::zero())
    }
}

/// The reason given for a trade that aligns a class with its target.
pub fn reason_for_class(class: &AssetClass) -> (r: String)
    ensures
        r@ == alignment_reason(class@),
{
    let label = class.label();
    String::from_str("Aligning ").concat(label.as_str()).concat(" to target.")
}

/// Appends the trades for the holdings of one class whose value is to change
/// by `difference`, in the order of the holdings.
pub fn append_class_trades(
    trades: &mut Vec<TradeOrder>,
    holdings: &Vec<Holding>,
    market: &MarketDataContext,
    class: &AssetClass,
    class_value: Decimal,
    difference: Decimal,
) -> (r: Result<(), RebalancingError>)
    ensures
        match trades_for_class(holdings@, market, class@, class_value, difference) {
            Err(e) => r is Err && r->Err_0@ == e,
            Ok(more) => r is Ok && trades_of(final(trades)@) == trades_of(old(trades)@) + more,
        },
{
    let ghost before = trades_of(trades@);
    let mut i: usize = 0;
    proof {
        assert(before + Seq::<TradeOrderView>::empty() =~= before);
    }
    while i < holdings.len()
        invariant
            i <= holdings.len(),
            trades_for_class(holdings@.take(i as int), market, class@, class_value, difference)
                is Ok,
            trades_of(trades@) == before + trades_for_class(
                holdings@.take(i as int),
                market,
                class@,
                class_value,
                difference,
            )->Ok_0,
        decreases holdings.len() - i,
    {
        let ghost sofar = trades_for_class(
            holdings@.take(i as int),
            market,
            class@,
            class_value,
            difference,
        )->Ok_0;
        proof {
            assert(holdings@.take(i as int + 1).drop_last() =~= holdings@.take(i as int));
        }
        let holding = &holdings[i];
        if holding_in_class(holding, market, class) {
            let value = match value_of_holding(holding, market) {
                Ok(v) => v,
                Err(e) => {
                    proof {
                        lemma_trades_for_class_stays(
                            holdings@,
                            market,
                            class@,
                            class_value,
                            difference,
                            i as int + 1,
                        );
                    }
                    return Err(e);
                },
            };
            let share = match share_of_difference(difference, value, class_value) {
                Some(s) => s,
                None => {
                    proof {
                        lemma_trades_for_class_stays(
                            holdings@,
                            market,
                            class@,
                            class_value,
                            difference,
                            i as int + 1,
                        );
                    }
                    return Err(out_of_range_error());
                },
            };
            let price = match market.get_price(holding.asset_id.as_str()) {
                Ok(p) => p,
                Err(e) => {
                    proof {
                        lemma_trades_for_class_stays(
                            holdings@,
                            market,
                            class@,
                            class_value,
                            difference,
                            i as int + 1,
                        );
                    }
                    return Err(e);
                },
            };
            let reason = reason_for_class(class);
            match push_trade_for_value(trades, &holding.asset_id, share, price, reason) {
                Ok(()) => {
                    proof {
                        match trade_for_value(
                            holding.asset_id@,
                            share,
                            price,
                            alignment_reason(class@),
                        ) {
                            Ok(Some(trade)) => {
                                assert((before + sofar).push(trade) =~= before + sofar.push(trade));
                            },
                            _ => {},
                        }
                    }
                },
                Err(e) => {
                    proof {
                        lemma_trades_for_class_stays(
                            holdings@,
                            market,
                            class@,
                            class_value,
                            difference,
                            i as int + 1,
                        );
                    }
                    return Err(e);
                },
            }
        }
        i = i + 1;
    }
    proof {
        assert(holdings@.take(i as int) =~= holdings@);
    }
    Ok(())
}

/// By how much the value of a class is to change.
pub fn difference_for_class(total: Decimal, fraction: Decimal, class_value: Decimal) -> (r: Result<
    Decimal,
    RebalancingError,
>)
    ensures
        crate::error::same_outcome(r, class_difference(total, fraction, class_value)),
{
    let target_value = match total.checked_mul(fraction) {
        Some(v) => v,
        None => {
            return Err(out_of_range_error());
        },
    };
    match target_value.checked_sub(class_value) {
        Some(d) => Ok(d),
        None => Err(out_of_range_error()),
    }
}

/// The strategy that trades only when a class has drifted past a threshold.
#[derive(Clone, Copy, Debug)]
pub struct ThresholdStrategy {
    config: ThresholdConfig,
}

impl ThresholdStrategy {
    /// A strategy with the given tuning.
    pub fn new(config: ThresholdConfig) -> (r: Self)
        ensures
            r.config() == config,
    {
        ThresholdStrategy { config }
    }

    /// The tuning of the strategy.
    pub closed spec fn config(&self) -> ThresholdConfig {
        self.config
    }
}

impl StrategyExecutor for ThresholdStrategy {
    open spec fn planned_trades(
        &self,
        portfolio: &Portfolio,
        target_allocation: &TargetAllocation,
        market_data: &MarketDataContext,
        risk_profile: &RiskProfile,
    ) -> Result<Seq<TradeOrderView>, ErrorView> {
        threshold_trades(portfolio, target_allocation, market_data, self.config())
    }

    /// The trades that bring a portfolio back to its target allocation.
    ///
    /// No trades come back for a portfolio worth less than one unit, nor for
    /// one in which every target class is within the threshold of its
    /// target. Otherwise the difference between the target and the current
    /// value of each target class is spread over the holdings of that class
    /// in proportion to their value, and each part of more than one unit
    /// becomes a trade.
    fn execute(
        &self,
        portfolio: &Portfolio,
        target_allocation: &TargetAllocation,
        market_data: &MarketDataContext,
        risk_profile: &RiskProfile,
    ) -> (r: Result<Vec<TradeOrder>, RebalancingError>)
        ensures
            r is Ok ==> all_sound(trades_of(r->Ok_0@)),
    {
        proof {
            if threshold_trades(portfolio, target_allocation, market_data, self.config()) is Ok {
                lemma_threshold_trades_sound(
                    portfolio,
                    target_allocation,
                    market_data,
                    self.config(),
                );
            }
        }
        let total = match portfolio.get_total_value(market_data) {
            Ok(t) => t,
            Err(e) => {
                return Err(e);
            },
        };
        if total.nanos < NANOS_PER_UNIT {
            let none: Vec<TradeOrder> = Vec::new();
            proof {
                assert(trades_of(none@) =~= Seq::<TradeOrderView>::empty());
            }
            return Ok(none);
        }
        match require_classified(&portfolio.holdings, market_data) {
            Ok(()) => {},
            Err(e) => {
                return Err(e);
            },
        }
        let current = match values_of_classes(target_allocation, &portfolio.holdings, market_data) {
            Ok(c) => c,
            Err(e) => {
                return Err(e);
            },
        };
        proof {
            lemma_class_values_len(target_allocation.entries(), portfolio.holdings@, market_data);
        }
        let mut trades: Vec<TradeOrder> = Vec::new();
        proof {
            assert(trades_of(trades@) =~= Seq::<TradeOrderView>::empty());
        }
        if !any_deviation(target_allocation, &current, total, self.config.deviation_threshold) {
            return Ok(trades);
        }
        let mut i: usize = 0;
        while i < target_allocation.len()
            invariant
                i <= target_allocation.entries().len(),
                current@.len() == target_allocation.entries().len(),
                total_value(portfolio, market_data) == Ok::<Decimal, ErrorView>(total),
                total.nanos >= NANOS_PER_UNIT,
                first_unclassified(portfolio.holdings@, market_data) is None,
                class_values(target_allocation.entries(), portfolio.holdings@, market_data) == Ok::<
                    Seq<Decimal>,
                    ErrorView,
                >(current@),
                needs_rebalancing(
                    target_allocation.entries(),
                    current@,
                    total,
                    self.config().deviation_threshold,
                ),
                trades_for_targets(
                    target_allocation.entries().take(i as int),
                    current@,
                    portfolio.holdings@,
                    market_data,
                    total,
                ) == Ok::<Seq<TradeOrderView>, ErrorView>(trades_of(trades@)),
            decreases target_allocation.entries().len() - i,
        {
            let ghost targets = target_allocation.entries();
            proof {
                assert(targets.take(i as int + 1).drop_last() =~= targets.take(i as int));
                assert(targets.take(i as int + 1)[i as int] == targets[i as int]);
            }
            let entry = target_allocation.entry(i);
            let difference = match difference_for_class(total, entry.fraction, current[i]) {
                Ok(d) => d,
                Err(e) => {
                    proof {
                        lemma_trades_for_targets_stays(
                            targets,
                            current@,
                            portfolio.holdings@,
                            market_data,
                            total,
                            i as int + 1,
                        );
                    }
                    return Err(e);
                },
            };
            match append_class_trades(
                &mut trades,
                &portfolio.holdings,
                market_data,
                &entry.asset_class,
                current[i],
                difference,
            ) {
                Ok(()) => {},
                Err(e) => {
                    proof {
                        lemma_trades_for_targets_stays(
                            targets,
                            current@,
                            portfolio.holdings@,
                            market_data,
                            total,
                            i as int + 1,
                        );
                    }
                    return Err(e);
                },
            }
            i = i + 1;
        }
        proof {
            assert(target_allocation.entries().take(i as int) =~= target_allocation.entries());
        }
        Ok(trades)
    }
}


/// Every target class of a valued portfolio is within the threshold of its
/// target.
pub open spec fn at_equilibrium(
    portfolio: &Portfolio,
    target: &TargetAllocation,
    market: &MarketDataContext,
    config: ThresholdConfig,
) -> bool {
    match total_value(portfolio, market) {
        Err(_) => false,
        Ok(total) => match class_values(target.entries(), portfolio.holdings@, market) {
            Err(_) => false,
            Ok(current) => forall|k: int|
                0 <= k < target.entries().len() ==> !#[trigger] deviates(
                    current[k],
                    target.entries()[k].fraction,
                    total,
                    config.deviation_threshold,
                ),
        },
    }
}

/// A portfolio that is already within the threshold of its target gets no
/// trades: the strategy leaves an aligned portfolio alone, however often it
/// is asked.
pub proof fn lemma_no_trades_at_equilibrium(
    portfolio: &Portfolio,
    target: &TargetAllocation,
    market: &MarketDataContext,
    config: ThresholdConfig,
)
    requires
        at_equilibrium(portfolio, target, market, config),
        first_unclassified(portfolio.holdings@, market) is None,
    ensures
        threshold_trades(portfolio, target, market, config) == Ok::<Seq<TradeOrderView>, ErrorView>(
            Seq::empty(),
        ),
{
}

/// The billionths that the holdings of one class receive together of a
/// difference in the value of the class.
pub open spec fn shares_total(
    holdings: Seq<Holding>,
    market: &MarketDataContext,
    class: AssetClassView,
    class_value: int,
    difference: int,
) -> int
    decreases holdings.len(),
{
    if holdings.len() == 0 {
        0
    } else {
        shares_total(holdings.drop_last(), market, class, class_value, difference) + if in_class(
            holdings.last(),
            market,
            class,
        ) {
            match holding_value(holdings.last(), market) {
                Ok(value) => share_nanos(difference, value.nanos as int, class_value),
                Err(_) => 0,
            }
        } else {
            0
        }
    }
}

/// What rounding takes away from the shares of a list of holdings: between
/// nothing and, for each holding of the class, less than the class value.
pub proof fn lemma_shares_remainder(
    holdings: Seq<Holding>,
    market: &MarketDataContext,
    class: AssetClassView,
    class_value: int,
    difference: int,
)
    requires
        class_nanos(holdings, market, class) is Ok,
        magnitude(class_value) > NEGLIGIBLE_CLASS_VALUE_NANOS,
    ensures
        0 <= difference * class_nanos(holdings, market, class)->Ok_0 - class_value * shares_total(
            holdings,
            market,
            class,
            class_value,
            difference,
        ) <= class_size(holdings, market, class) * (magnitude(class_value) - 1),
    decreases holdings.len(),
{
    if holdings.len() > 0 {
        let front = holdings.drop_last();
        lemma_shares_remainder(front, market, class, class_value, difference);
        let sum = class_nanos(front, market, class)->Ok_0;
        let shares = shares_total(front, market, class, class_value, difference);
        let count = class_size(front, market, class) as int;
        let bound = magnitude(class_value) - 1;
        if in_class(holdings.last(), market, class) {
            let value = holding_value(holdings.last(), market)->Ok_0.nanos as int;
            let x = difference * value;
            let q = x / class_value;
            crate::decimal::lemma_remainder_bounds(x, class_value);
            assert(difference * (sum + value) - class_value * (shares + q) == (difference * sum
                - class_value * shares) + (x - class_value * q)) by (nonlinear_arith)
                requires
                    x == difference * value,
            ;
            assert((count + 1) * bound == count * bound + bound) by (nonlinear_arith);
        }
    }
}

/// A class without holdings is worth nothing.
pub proof fn lemma_empty_class_is_worthless(
    holdings: Seq<Holding>,
    market: &MarketDataContext,
    class: AssetClassView,
)
    requires
        class_size(holdings, market, class) == 0,
    ensures
        class_nanos(holdings, market, class) == Ok::<int, ErrorView>(0),
    decreases holdings.len(),
{
    if holdings.len() > 0 {
        lemma_empty_class_is_worthless(holdings.drop_last(), market, class);
    }
}

/// The threshold strategy conserves value within a class: the parts of the
/// class's difference that fall to its holdings add up to the difference,
/// short of less than one billionth for each holding of the class.
///
/// This holds of a class worth more than a millionth; a class worth less
/// gets no shares at all.
pub proof fn lemma_class_shares_conserve_difference(
    holdings: Seq<Holding>,
    market: &MarketDataContext,
    class: AssetClassView,
    class_value: Decimal,
    difference: Decimal,
)
    requires
        class_nanos(holdings, market, class) == Ok::<int, ErrorView>(class_value.nanos as int),
        magnitude(class_value.nanos as int) > NEGLIGIBLE_CLASS_VALUE_NANOS,
    ensures
        magnitude(
            shares_total(
                holdings,
                market,
                class,
                class_value.nanos as int,
                difference.nanos as int,
            ) - difference.nanos,
        ) < class_size(holdings, market, class),
{
    let cv = class_value.nanos as int;
    let d = difference.nanos as int;
    let shares = shares_total(holdings, market, class, cv, d);
    let count = class_size(holdings, market, class) as int;
    lemma_shares_remainder(holdings, market, class, cv, d);
    let gap = d - shares;
    if count == 0 {
        lemma_empty_class_is_worthless(holdings, market, class);
    }
    assert(d * cv - cv * shares == cv * gap) by (nonlinear_arith)
        requires
            gap == d - shares,
    ;
    crate::decimal::lemma_small_gap(cv, gap, count);
}


/// The class values of a list of targets are the values of their classes.
pub proof fn lemma_class_values_entries(
    targets: Seq<AllocationEntry>,
    holdings: Seq<Holding>,
    market: &MarketDataContext,
    k: int,
)
    requires
        class_values(targets, holdings, market) is Ok,
        0 <= k < targets.len(),
    ensures
        class_values(targets, holdings, market)->Ok_0.len() == targets.len(),
        class_value(holdings, market, targets[k].asset_class@) == Ok::<Decimal, ErrorView>(
            class_values(targets, holdings, market)->Ok_0[k],
        ),
    decreases targets.len(),
{
    lemma_class_values_len(targets, holdings, market);
    if k < targets.len() - 1 {
        lemma_class_values_len(targets.drop_last(), holdings, market);
        lemma_class_values_entries(targets.drop_last(), holdings, market, k);
    }
}

/// The threshold strategy conserves value class by class: for every target
/// class worth more than a millionth, what its holdings are to trade adds up
/// to the difference between its target and its current value, short of less
/// than one billionth for each holding of the class.
pub proof fn lemma_strategy_conserves_value(
    portfolio: &Portfolio,
    target: &TargetAllocation,
    market: &MarketDataContext,
    total: Decimal,
    k: int,
)
    requires
        class_values(target.entries(), portfolio.holdings@, market) is Ok,
        0 <= k < target.entries().len(),
        class_difference(
            total,
            target.entries()[k].fraction,
            class_values(target.entries(), portfolio.holdings@, market)->Ok_0[k],
        ) is Ok,
        magnitude(
            class_values(target.entries(), portfolio.holdings@, market)->Ok_0[k].nanos as int,
        ) > NEGLIGIBLE_CLASS_VALUE_NANOS,
    ensures
        ({
            let current = class_values(target.entries(), portfolio.holdings@, market)->Ok_0[k];
            let difference = class_difference(total, target.entries()[k].fraction, current)->Ok_0;
            let class = target.entries()[k].asset_class@;
            magnitude(
                shares_total(
                    portfolio.holdings@,
                    market,
                    class,
                    current.nanos as int,
                    difference.nanos as int,
                ) - difference.nanos,
            ) < class_size(portfolio.holdings@, market, class)
        }),
{
    let current = class_values(target.entries(), portfolio.holdings@, market)->Ok_0[k];
    let difference = class_difference(total, target.entries()[k].fraction, current)->Ok_0;
    lemma_class_values_entries(target.entries(), portfolio.holdings@, market, k);
    lemma_class_shares_conserve_difference(
        portfolio.holdings@,
        market,
        target.entries()[k].asset_class@,
        current,
        difference,
    );
}

/// The strategy never opens a position: a class without holdings gets no
/// trades, however far it is from its target.
pub proof fn lemma_class_without_holdings_gets_no_trades(
    holdings: Seq<Holding>,
    market: &MarketDataContext,
    class: AssetClassView,
    class_value: Decimal,
    difference: Decimal,
)
    requires
        class_size(holdings, market, class) == 0,
    ensures
        trades_for_class(holdings, market, class, class_value, difference) == Ok::<
            Seq<TradeOrderView>,
            ErrorView,
        >(Seq::empty()),
    decreases holdings.len(),
{
    if holdings.len() > 0 {
        lemma_class_without_holdings_gets_no_trades(
            holdings.drop_last(),
            market,
            class,
            class_value,
            difference,
        );
    }
}

/// Every trade for the holdings of a class is a sound order.
pub proof fn lemma_trades_for_class_sound(
    holdings: Seq<Holding>,
    market: &MarketDataContext,
    class: AssetClassView,
    class_value: Decimal,
    difference: Decimal,
)
    requires
        trades_for_class(holdings, market, class, class_value, difference) is Ok,
    ensures
        all_sound(trades_for_class(holdings, market, class, class_value, difference)->Ok_0),
    decreases holdings.len(),
{
    if holdings.len() > 0 {
        lemma_trades_for_class_sound(holdings.drop_last(), market, class, class_value, difference);
        let holding = holdings.last();
        if in_class(holding, market, class) {
            let value = holding_value(holding, market)->Ok_0;
            let share = narrow(
                share_nanos(difference.nanos as int, value.nanos as int, class_value.nanos as int),
            )->Some_0;
            if share.nanos > NANOS_PER_UNIT || share.nanos < -NANOS_PER_UNIT {
                lemma_order_is_sound(
                    holding.asset_id@,
                    share,
                    market.price_of(holding.asset_id@)->Some_0,
                    alignment_reason(class),
                );
            }
        }
    }
}

/// Every trade for a list of targets is a sound order.
pub proof fn lemma_trades_for_targets_sound(
    targets: Seq<AllocationEntry>,
    current: Seq<Decimal>,
    holdings: Seq<Holding>,
    market: &MarketDataContext,
    total: Decimal,
)
    requires
        trades_for_targets(targets, current, holdings, market, total) is Ok,
    ensures
        all_sound(trades_for_targets(targets, current, holdings, market, total)->Ok_0),
    decreases targets.len(),
{
    if targets.len() > 0 {
        let k = targets.len() - 1;
        lemma_trades_for_targets_sound(targets.drop_last(), current, holdings, market, total);
        let difference = class_difference(total, targets[k].fraction, current[k])->Ok_0;
        lemma_trades_for_class_sound(
            holdings,
            market,
            targets[k].asset_class@,
            current[k],
            difference,
        );
    }
}

/// Every trade of the threshold strategy is worth more than one unit and has
/// a quantity above zero.
pub proof fn lemma_threshold_trades_sound(
    portfolio: &Portfolio,
    target: &TargetAllocation,
    market: &MarketDataContext,
    config: ThresholdConfig,
)
    requires
        threshold_trades(portfolio, target, market, config) is Ok,
    ensures
        all_sound(threshold_trades(portfolio, target, market, config)->Ok_0),
{
    let total = total_value(portfolio, market)->Ok_0;
    if total.nanos >= NANOS_PER_UNIT {
        let current = class_values(target.entries(), portfolio.holdings@, market)->Ok_0;
        if needs_rebalancing(target.entries(), current, total, config.deviation_threshold) {
            lemma_trades_for_targets_sound(
                target.entries(),
                current,
                portfolio.holdings@,
                market,
                total,
            );
        }
    }
}

} // verus!
