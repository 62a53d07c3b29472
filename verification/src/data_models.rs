//! Portfolios, market snapshots, target allocations, trades and plans.

use crate::decimal::{
    lemma_sum_bounded_step, magnitude, narrow, narrow_i128, sum_bounded, total_nanos, Decimal,
    NANOS_PER_UNIT,
};
use crate::error::{ErrorView, RebalancingError};
use crate::stamps::{fresh_id, now_micros, NIL_ID};
use vstd::hash_map::StringHashMap;
use vstd::prelude::*;
use vstd::string::*;

verus! {

/// The category an instrument belongs to for allocation purposes.
#[derive(Debug)]
pub enum AssetClass {
    Equity,
    FixedIncome,
    RealEstate,
    Commodity,
    Crypto,
    Cash,
    Other(String),
}

/// The mathematical content of an `AssetClass`.
pub enum AssetClassView {
    Equity,
    FixedIncome,
    RealEstate,
    Commodity,
    Crypto,
    Cash,
    Other(Seq<char>),
}

impl AssetClassView {
    /// The name a class goes by in the reason of a trade.
    pub open spec fn label(self) -> Seq<char> {
        match self {
            AssetClassView::Equity => "Equity"@,
            AssetClassView::FixedIncome => "FixedIncome"@,
            AssetClassView::RealEstate => "RealEstate"@,
            AssetClassView::Commodity => "Commodity"@,
            AssetClassView::Crypto => "Crypto"@,
            AssetClassView::Cash => "Cash"@,
            AssetClassView::Other(name) => name,
        }
    }
}

impl View for AssetClass {
    type V = AssetClassView;

    open spec fn view(&self) -> AssetClassView {
        match self {
            AssetClass::Equity => AssetClassView::Equity,
            AssetClass::FixedIncome => AssetClassView::FixedIncome,
            AssetClass::RealEstate => AssetClassView::RealEstate,
            AssetClass::Commodity => AssetClassView::Commodity,
            AssetClass::Crypto => AssetClassView::Crypto,
            AssetClass::Cash => AssetClassView::Cash,
            AssetClass::Other(name) => AssetClassView::Other(name@),
        }
    }
}

impl Clone for AssetClass {
    fn clone(&self) -> (r: Self)
        ensures
            r@ == self@,
    {
        match self {
            AssetClass::Equity => AssetClass::Equity,
            AssetClass::FixedIncome => AssetClass::FixedIncome,
            AssetClass::RealEstate => AssetClass::RealEstate,
            AssetClass::Commodity => AssetClass::Commodity,
            AssetClass::Crypto => AssetClass::Crypto,
            AssetClass::Cash => AssetClass::Cash,
            AssetClass::Other(name) => AssetClass::Other(name.clone()),
        }
    }
}

impl PartialEq for AssetClass {
    fn eq(&self, other: &AssetClass) -> (r: bool) {
        match (self, other) {
            (AssetClass::Equity, AssetClass::Equity) => true,
            (AssetClass::FixedIncome, AssetClass::FixedIncome) => true,
            (AssetClass::RealEstate, AssetClass::RealEstate) => true,
            (AssetClass::Commodity, AssetClass::Commodity) => true,
            (AssetClass::Crypto, AssetClass::Crypto) => true,
            (AssetClass::Cash, AssetClass::Cash) => true,
            (AssetClass::Other(a), AssetClass::Other(b)) => *a == *b,
            _ => false,
        }
    }
}

impl vstd::std_specs::cmp::PartialEqSpecImpl for AssetClass {
    open spec fn obeys_eq_spec() -> bool {
        true
    }

    open spec fn eq_spec(&self, other: &AssetClass) -> bool {
        self@ == other@
    }
}

impl Eq for AssetClass {

}

impl AssetClass {
    /// The name the class goes by in the reason of a trade.
    pub fn label(&self) -> (r: String)
        ensures
            r@ == self@.label(),
    {
        match self {
            AssetClass::Equity => String::from_str("Equity"),
            AssetClass::FixedIncome => String::from_str("FixedIncome"),
            AssetClass::RealEstate => String::from_str("RealEstate"),
            AssetClass::Commodity => String::from_str("Commodity"),
            AssetClass::Crypto => String::from_str("Crypto"),
            AssetClass::Cash => String::from_str("Cash"),
            AssetClass::Other(name) => name.clone(),
        }
    }
}

/// Reference data of one instrument.
#[derive(Clone, Debug)]
pub struct Asset {
    pub id: String,
    pub symbol: String,
    pub name: String,
    pub asset_class: AssetClass,
}

/// A quantity of one asset owned within a portfolio.
#[derive(Clone, Debug)]
pub struct Holding {
    pub asset_id: String,
    pub quantity: Decimal,
}

/// A portfolio as supplied by the caller; it is never changed here.
#[derive(Clone, Debug)]
pub struct Portfolio {
    pub id: u128,
    pub user_id: String,
    pub name: String,
    pub holdings: Vec<Holding>,
    pub cash_balance: Decimal,
}

/// The price of an asset and the time it was observed, in microseconds since
/// the Unix epoch.
#[derive(Clone, Copy, Debug)]
pub struct MarketPrice {
    pub price: Decimal,
    pub timestamp: i64,
}

/// The names a list of strings stands for.
pub open spec fn names_of(ids: Seq<String>) -> Seq<Seq<char>> {
    Seq::new(ids.len(), |i: int| ids[i]@)
}

/// Detail of the error raised when a number leaves the range of `Decimal`.
pub open spec fn out_of_range() -> Seq<char> {
    "a monetary amount is outside the supported range"@
}

/// The error raised when a number leaves the range of `Decimal`.
pub fn out_of_range_error() -> (r: RebalancingError)
    ensures
        r@ == ErrorView::InvalidInput(out_of_range()),
{
    RebalancingError::InvalidInput(
        String::from_str("a monetary amount is outside the supported range"),
    )
}

/// Whether a list of ids names every asset of a map exactly once.
pub open spec fn names_each_once(assets: Map<Seq<char>, Asset>, ids: Seq<Seq<char>>) -> bool {
    &&& ids.no_duplicates()
    &&& forall|id: Seq<char>| assets.contains_key(id) <==> ids.contains(id)
}

/// Records an asset under an id in a map and, where the id is new, at the end
/// of the list of ids.
fn record_asset(
    assets: &mut StringHashMap<Asset>,
    order: &mut Vec<String>,
    asset_id: String,
    asset: Asset,
)
    requires
        names_each_once(old(assets)@, names_of(old(order)@)),
    ensures
        final(assets)@ == old(assets)@.insert(asset_id@, asset),
        names_of(final(order)@) == if old(assets)@.contains_key(asset_id@) {
            names_of(old(order)@)
        } else {
            names_of(old(order)@).push(asset_id@)
        },
        names_each_once(final(assets)@, names_of(final(order)@)),
{
    let known = assets.contains_key(asset_id.as_str());
    let ghost old_ids = names_of(order@);
    let ghost old_assets = assets@;
    if !known {
        order.push(asset_id.clone());
    }
    assets.insert(asset_id, asset);
    proof {
        let ids = names_of(order@);
        if known {
            assert(ids =~= old_ids);
        } else {
            assert(ids =~= old_ids.push(asset_id@));
        }
        assert forall|id: Seq<char>| assets@.contains_key(id) <==> ids.contains(id) by {
            if !known {
                if id == asset_id@ {
                    assert(ids[ids.len() - 1] == id);
                } else if old_ids.contains(id) {
                    let k = choose|k: int| 0 <= k < old_ids.len() && old_ids[k] == id;
                    assert(ids[k] == id);
                }
            }
        }
        assert forall|i: int, j: int| 0 <= i < ids.len() && 0 <= j < ids.len() && i != j implies ids[i]
            != ids[j] by {
            if !known {
                if i == ids.len() - 1 {
                    assert(old_ids[j] == ids[j]);
                    assert(old_ids.contains(ids[j]));
                } else if j == ids.len() - 1 {
                    assert(old_ids[i] == ids[i]);
                    assert(old_ids.contains(ids[i]));
                }
            }
        }
    }
}

/// A read-only snapshot of prices and asset classifications.
///
/// Asset ids are handed out in the order in which the assets were first
/// inserted, and that order is the same on every call. The list of asset ids
/// names every asset on record exactly once: that is an invariant of the
/// type.
pub struct MarketDataContext {
    prices: StringHashMap<MarketPrice>,
    assets: StringHashMap<Asset>,
    asset_order: Vec<String>,
}

impl Default for MarketDataContext {
    /// A snapshot with no prices and no assets.
    fn default() -> (r: Self)
        ensures
            r.prices() == Map::<Seq<char>, MarketPrice>::empty(),
            r.assets() == Map::<Seq<char>, Asset>::empty(),
            r.asset_ids() == Seq::<Seq<char>>::empty(),
            r.well_formed(),
    {
        MarketDataContext::new()
    }
}

impl MarketDataContext {
    /// The prices on record, by asset id.
    pub closed spec fn prices(&self) -> Map<Seq<char>, MarketPrice> {
        self.prices@
    }

    /// The assets on record, by asset id.
    pub closed spec fn assets(&self) -> Map<Seq<char>, Asset> {
        self.assets@
    }

    /// The ids of the assets on record, in the order of their first insertion.
    pub closed spec fn asset_ids(&self) -> Seq<Seq<char>> {
        names_of(self.asset_order@)
    }

    /// The price on record for an asset.
    pub open spec fn price_of(&self, asset_id: Seq<char>) -> Option<Decimal> {
        if self.prices().contains_key(asset_id) {
            Some(self.prices()[asset_id].price)
        } else {
            None
        }
    }

    /// The class on record for an asset.
    pub open spec fn class_of(&self, asset_id: Seq<char>) -> Option<AssetClassView> {
        if self.assets().contains_key(asset_id) {
            Some(self.assets()[asset_id].asset_class@)
        } else {
            None
        }
    }

    /// The list of asset ids names every asset on record exactly once.
    pub open spec fn well_formed(&self) -> bool {
        names_each_once(self.assets(), self.asset_ids())
    }

    #[verifier::type_invariant]
    closed spec fn names_every_asset_once(&self) -> bool {
        names_each_once(self.assets@, names_of(self.asset_order@))
    }

    /// A snapshot with no prices and no assets.
    pub fn new() -> (r: Self)
        ensures
            r.prices() == Map::<Seq<char>, MarketPrice>::empty(),
            r.assets() == Map::<Seq<char>, Asset>::empty(),
            r.asset_ids() == Seq::<Seq<char>>::empty(),
            r.well_formed(),
    {
        let r = MarketDataContext {
            prices: StringHashMap::new(),
            assets: StringHashMap::new(),
            asset_order: Vec::new(),
        };
        assert(r.asset_ids() =~= Seq::<Seq<char>>::empty());
        r
    }

    /// Records the price of an asset, replacing an earlier one.
    pub fn insert_price(&mut self, asset_id: String, price: MarketPrice)
        ensures
            final(self).prices() == old(self).prices().insert(asset_id@, price),
            final(self).assets() == old(self).assets(),
            final(self).asset_ids() == old(self).asset_ids(),
            final(self).well_formed(),
    {
        let mut taken = MarketDataContext::new();
        core::mem::swap(self, &mut taken);
        proof {
            use_type_invariant(&taken);
        }
        let MarketDataContext { mut prices, assets, asset_order } = taken;
        prices.insert(asset_id, price);
        *self = MarketDataContext { prices, assets, asset_order };
    }

    /// Records an asset under an id, replacing an earlier one. An id that is
    /// new goes to the end of the list of asset ids.
    pub fn insert_asset(&mut self, asset_id: String, asset: Asset)
        ensures
            final(self).assets() == old(self).assets().insert(asset_id@, asset),
            final(self).prices() == old(self).prices(),
            final(self).asset_ids() == if old(self).assets().contains_key(asset_id@) {
                old(self).asset_ids()
            } else {
                old(self).asset_ids().push(asset_id@)
            },
            final(self).well_formed(),
    {
        let mut taken = MarketDataContext::new();
        core::mem::swap(self, &mut taken);
        proof {
            use_type_invariant(&taken);
        }
        let MarketDataContext { prices, mut assets, mut asset_order } = taken;
        record_asset(&mut assets, &mut asset_order, asset_id, asset);
        *self = MarketDataContext { prices, assets, asset_order };
    }

    /// The price of an asset.
    pub fn get_price(&self, asset_id: &str) -> (r: Result<Decimal, RebalancingError>)
        ensures
            match self.price_of(asset_id@) {
                Some(p) => r == Ok::<Decimal, RebalancingError>(p),
                None => r is Err && r->Err_0@ == ErrorView::MarketDataMissing(asset_id@),
            },
    {
        match self.prices.get(asset_id) {
            Some(p) => Ok(p.price),
            None => Err(RebalancingError::MarketDataMissing(String::from_str(asset_id))),
        }
    }

    /// The reference data of an asset.
    pub fn get_asset(&self, asset_id: &str) -> (r: Result<&Asset, RebalancingError>)
        ensures
            self.assets().contains_key(asset_id@) ==> r is Ok && *r->Ok_0 == self.assets()[asset_id@],
            !self.assets().contains_key(asset_id@) ==> r is Err && r->Err_0@
                == ErrorView::MarketDataMissing(asset_id@),
    {
        match self.assets.get(asset_id) {
            Some(a) => Ok(a),
            None => Err(RebalancingError::MarketDataMissing(String::from_str(asset_id))),
        }
    }

    /// The asset id of a holding that the snapshot does not cover: one that
    /// lacks a price or a classification. `None` for a holding that has both.
    pub open spec fn gap_of(&self, holding: Holding) -> Option<Seq<char>> {
        if self.prices().contains_key(holding.asset_id@) && self.assets().contains_key(
            holding.asset_id@,
        ) {
            None
        } else {
            Some(holding.asset_id@)
        }
    }

    /// The asset id of the first holding, in the order of the holdings, that
    /// the snapshot does not cover.
    pub open spec fn first_gap(&self, holdings: Seq<Holding>) -> Option<Seq<char>>
        decreases holdings.len(),
    {
        if holdings.len() == 0 {
            None
        } else {
            match self.first_gap(holdings.drop_last()) {
                Some(detail) => Some(detail),
                None => self.gap_of(holdings.last()),
            }
        }
    }

    /// Every holding has both a price and a classification on record.
    pub open spec fn covers(&self, holdings: Seq<Holding>) -> bool {
        forall|i: int|
            0 <= i < holdings.len() ==> {
                &&& self.prices().contains_key(#[trigger] holdings[i].asset_id@)
                &&& self.assets().contains_key(holdings[i].asset_id@)
            }
    }

    /// Nothing is lacking exactly when every holding is covered.
    pub proof fn lemma_first_gap_none_iff_covers(&self, holdings: Seq<Holding>)
        ensures
            self.first_gap(holdings) is None <==> self.covers(holdings),
        decreases holdings.len(),
    {
        if holdings.len() > 0 {
            let front = holdings.drop_last();
            self.lemma_first_gap_none_iff_covers(front);
            if self.covers(holdings) {
                assert forall|i: int| 0 <= i < front.len() implies {
                    &&& self.prices().contains_key(#[trigger] front[i].asset_id@)
                    &&& self.assets().contains_key(front[i].asset_id@)
                } by {
                    assert(front[i] == holdings[i]);
                }
                assert(self.prices().contains_key(holdings[holdings.len() - 1].asset_id@));
            }
            if self.first_gap(holdings) is None {
                assert forall|i: int| 0 <= i < holdings.len() implies {
                    &&& self.prices().contains_key(#[trigger] holdings[i].asset_id@)
                    &&& self.assets().contains_key(holdings[i].asset_id@)
                } by {
                    if i < front.len() {
                        assert(front[i] == holdings[i]);
                    }
                }
            }
        }
    }

    /// Checks that every holding of a portfolio has a price and a
    /// classification on record. Fails with the asset id of the first holding
    /// that lacks either.
    pub fn validate_for_portfolio(&self, portfolio: &Portfolio) -> (r: Result<(), RebalancingError>)
        ensures
            match self.first_gap(portfolio.holdings@) {
                None => r is Ok,
                Some(id) => r is Err && r->Err_0@ == ErrorView::MarketDataMissing(id),
            },
            r is Ok <==> self.covers(portfolio.holdings@),
    {
        let mut i: usize = 0;
        while i < portfolio.holdings.len()
            invariant
                i <= portfolio.holdings.len(),
                self.first_gap(portfolio.holdings@.take(i as int)) is None,
            decreases portfolio.holdings.len() - i,
        {
            let holding = &portfolio.holdings[i];
            proof {
                assert(portfolio.holdings@.take(i as int + 1).drop_last()
                    =~= portfolio.holdings@.take(i as int));
            }
            let ghost upto = portfolio.holdings@.take(i as int + 1);
            if !self.prices.contains_key(holding.asset_id.as_str()) || !self.assets.contains_key(
                holding.asset_id.as_str(),
            ) {
                proof {
                    self.lemma_first_gap_stays(upto, portfolio.holdings@, i as int + 1);
                    self.lemma_first_gap_none_iff_covers(portfolio.holdings@);
                }
                return Err(RebalancingError::MarketDataMissing(holding.asset_id.clone()));
            }
            i = i + 1;
        }
        proof {
            assert(portfolio.holdings@.take(i as int) =~= portfolio.holdings@);
            self.lemma_first_gap_none_iff_covers(portfolio.holdings@);
        }
        Ok(())
    }

    /// A gap found in the first `n` holdings is the gap of the whole list.
    pub proof fn lemma_first_gap_stays(&self, prefix: Seq<Holding>, holdings: Seq<Holding>, n: int)
        requires
            0 <= n <= holdings.len(),
            prefix == holdings.take(n),
            self.first_gap(prefix) is Some,
        ensures
            self.first_gap(holdings) == self.first_gap(prefix),
        decreases holdings.len() - n,
    {
        if n < holdings.len() {
            let next = holdings.take(n + 1);
            assert(next.drop_last() =~= prefix);
            self.lemma_first_gap_stays(next, holdings, n + 1);
        } else {
            assert(prefix =~= holdings);
        }
    }

    /// The ids of the assets on record, in the order of their first insertion.
    pub fn get_asset_ids(&self) -> (r: Vec<String>)
        ensures
            names_of(r@) == self.asset_ids(),
            names_of(r@).no_duplicates(),
            forall|id: Seq<char>| self.assets().contains_key(id) <==> names_of(r@).contains(id),
    {
        proof {
            use_type_invariant(self);
        }
        let mut out: Vec<String> = Vec::new();
        let mut i: usize = 0;
        while i < self.asset_order.len()
            invariant
                i <= self.asset_order.len(),
                out.len() == i,
                forall|k: int| 0 <= k < i ==> out[k]@ == self.asset_order[k]@,
            decreases self.asset_order.len() - i,
        {
            out.push(self.asset_order[i].clone());
            i = i + 1;
        }
        assert(names_of(out@) =~= self.asset_ids());
        out
    }
}


/// The value of one holding at the price on record: quantity times price.
pub open spec fn holding_value(holding: Holding, market: &MarketDataContext) -> Result<
    Decimal,
    ErrorView,
> {
    match market.price_of(holding.asset_id@) {
        None => Err(ErrorView::MarketDataMissing(holding.asset_id@)),
        Some(price) => match holding.quantity.spec_mul(price) {
            None => Err(ErrorView::InvalidInput(out_of_range())),
            Some(value) => Ok(value),
        },
    }
}

/// The billionths of the summed value of a list of holdings, or the error of
/// the first holding that has no value.
pub open spec fn holdings_value(holdings: Seq<Holding>, market: &MarketDataContext) -> Result<
    int,
    ErrorView,
>
    decreases holdings.len(),
{
    if holdings.len() == 0 {
        Ok(0)
    } else {
        match holdings_value(holdings.drop_last(), market) {
            Err(e) => Err(e),
            Ok(sum) => match holding_value(holdings.last(), market) {
                Err(e) => Err(e),
                Ok(value) => Ok(sum + value.nanos),
            },
        }
    }
}

/// The total value of a portfolio: the value of its holdings plus its cash.
pub open spec fn total_value(portfolio: &Portfolio, market: &MarketDataContext) -> Result<
    Decimal,
    ErrorView,
> {
    match holdings_value(portfolio.holdings@, market) {
        Err(e) => Err(e),
        Ok(sum) => match narrow(sum + portfolio.cash_balance.nanos) {
            None => Err(ErrorView::InvalidInput(out_of_range())),
            Some(total) => Ok(total),
        },
    }
}

/// An error met in the first `n` holdings is the error of the whole list.
pub proof fn lemma_holdings_value_error_stays(
    holdings: Seq<Holding>,
    market: &MarketDataContext,
    n: int,
)
    requires
        0 <= n <= holdings.len(),
        holdings_value(holdings.take(n), market) is Err,
    ensures
        holdings_value(holdings, market) == holdings_value(holdings.take(n), market),
    decreases holdings.len() - n,
{
    if n < holdings.len() {
        assert(holdings.take(n + 1).drop_last() =~= holdings.take(n));
        lemma_holdings_value_error_stays(holdings, market, n + 1);
    } else {
        assert(holdings.take(n) =~= holdings);
    }
}

impl Portfolio {
    /// Whether the portfolio holds nothing and has no cash to invest.
    pub open spec fn is_empty(&self) -> bool {
        self.holdings@.len() == 0 && self.cash_balance.nanos <= 0
    }

    /// The value of the holdings at the prices on record, plus the cash.
    ///
    /// Fails with `MarketDataMissing` at the first holding that has no price
    /// and with `InvalidInput` when a value leaves the range of `Decimal`.
    pub fn get_total_value(&self, market_data: &MarketDataContext) -> (r: Result<
        Decimal,
        RebalancingError,
    >)
        ensures
            crate::error::same_outcome(r, total_value(self, market_data)),
    {
        let mut sum: i128 = 0;
        let mut i: usize = 0;
        while i < self.holdings.len()
            invariant
                i <= self.holdings.len(),
                holdings_value(self.holdings@.take(i as int), market_data) == Ok::<int, ErrorView>(
                    sum as int,
                ),
                sum_bounded(sum as int, i as int),
            decreases self.holdings.len() - i,
        {
            let holding = &self.holdings[i];
            proof {
                assert(self.holdings@.take(i as int + 1).drop_last() =~= self.holdings@.take(
                    i as int,
                ));
            }
            let price = match market_data.get_price(holding.asset_id.as_str()) {
                Ok(p) => p,
                Err(e) => {
                    proof {
                        lemma_holdings_value_error_stays(self.holdings@, market_data, i as int + 1);
                    }
                    return Err(e);
                },
            };
            let value = match holding.quantity.checked_mul(price) {
                Some(v) => v,
                None => {
                    proof {
                        lemma_holdings_value_error_stays(self.holdings@, market_data, i as int + 1);
                    }
                    return Err(out_of_range_error());
                },
            };
            proof {
                lemma_sum_bounded_step(sum as int, i as int, value.nanos as int);
            }
            sum = sum + (value.nanos as i128);
            i = i + 1;
        }
        proof {
            assert(self.holdings@.take(i as int) =~= self.holdings@);
            lemma_sum_bounded_step(sum as int, i as int, self.cash_balance.nanos as int);
        }
        let total: i128 = sum + (self.cash_balance.nanos as i128);
        match narrow_i128(total) {
            Some(t) => Ok(t),
            None => Err(out_of_range_error()),
        }
    }
}

/// Buy or sell.
#[derive(Clone, Copy, Debug, PartialEq, Eq, Structural)]
pub enum OrderType {
    Buy,
    Sell,
}

/// One instruction of a plan. The direction is carried by `order_type`;
/// `quantity` and `estimated_value` are magnitudes.
#[derive(Debug)]
pub struct TradeOrder {
    pub asset_id: String,
    pub order_type: OrderType,
    pub quantity: Decimal,
    pub estimated_value: Decimal,
    pub reason: String,
}

/// The mathematical content of a `TradeOrder`.
pub struct TradeOrderView {
    pub asset_id: Seq<char>,
    pub order_type: OrderType,
    pub quantity: Decimal,
    pub estimated_value: Decimal,
    pub reason: Seq<char>,
}

impl View for TradeOrder {
    type V = TradeOrderView;

    open spec fn view(&self) -> TradeOrderView {
        TradeOrderView {
            asset_id: self.asset_id@,
            order_type: self.order_type,
            quantity: self.quantity,
            estimated_value: self.estimated_value,
            reason: self.reason@,
        }
    }
}

impl Clone for TradeOrder {
    fn clone(&self) -> (r: Self)
        ensures
            r@ == self@,
    {
        TradeOrder {
            asset_id: self.asset_id.clone(),
            order_type: self.order_type,
            quantity: self.quantity,
            estimated_value: self.estimated_value,
            reason: self.reason.clone(),
        }
    }
}

/// The contents of a list of trades.
pub open spec fn trades_of(trades: Seq<TradeOrder>) -> Seq<TradeOrderView> {
    Seq::new(trades.len(), |i: int| trades[i]@)
}

/// Where a plan stands. Plans are made `Pending`; whoever executes them moves
/// them on.
#[derive(Clone, Copy, Debug, PartialEq, Eq, Structural)]
pub enum PlanStatus {
    Pending,
    Executed,
    Cancelled,
    Failed,
}

/// How much risk the owner of a portfolio accepts. Carried along for
/// callers; no strategy reads it.
#[derive(Clone, Copy, Debug, PartialEq, Eq, Structural)]
pub enum RiskProfile {
    Conservative,
    Moderate,
    Aggressive,
    Custom(u32),
}

/// An ordered list of trades for one portfolio.
#[derive(Clone, Debug)]
pub struct RebalancingPlan {
    pub id: u128,
    pub portfolio_id: u128,
    pub created_at: i64,
    pub trades: Vec<TradeOrder>,
    pub summary: String,
    pub status: PlanStatus,
}

impl RebalancingPlan {
    /// A plan that asks for nothing: no trades, the nil portfolio id, the
    /// given reason as summary, a new id and the current time.
    pub fn no_action(reason: String) -> (r: Self)
        ensures
            r.trades@.len() == 0,
            r.summary@ == reason@,
            r.status == PlanStatus::Pending,
            r.portfolio_id == NIL_ID,
            r.id != NIL_ID,
    {
        RebalancingPlan {
            id: fresh_id(),
            portfolio_id: NIL_ID,
            created_at: now_micros(),
            trades: Vec::new(),
            summary: reason,
            status: PlanStatus::Pending,
        }
    }
}

/// One entry of a target allocation: a class and the fraction of the total
/// value that it should hold.
#[derive(Clone, Debug)]
pub struct AllocationEntry {
    pub asset_class: AssetClass,
    pub fraction: Decimal,
}

/// How far the fractions of a target allocation may sum away from one: a
/// millionth.
pub const ALLOCATION_TOLERANCE_NANOS: i64 = 1_000;

/// The fractions of a list of allocation entries.
pub open spec fn fractions_of(entries: Seq<AllocationEntry>) -> Seq<Decimal> {
    Seq::new(entries.len(), |i: int| entries[i].fraction)
}

/// The place of a class in a list of allocation entries.
pub open spec fn position_of(entries: Seq<AllocationEntry>, class: AssetClassView) -> Option<int>
    decreases entries.len(),
{
    if entries.len() == 0 {
        None
    } else {
        match position_of(entries.drop_last(), class) {
            Some(i) => Some(i),
            None => if entries.last().asset_class@ == class {
                Some(entries.len() - 1)
            } else {
                None
            },
        }
    }
}

/// No class occurs twice in a list of allocation entries.
pub open spec fn distinct_classes(entries: Seq<AllocationEntry>) -> bool {
    forall|i: int, j: int|
        0 <= i < j < entries.len() ==> entries[i].asset_class@ != entries[j].asset_class@
}

/// What `position_of` finds: an entry of that class, and none of it before.
pub proof fn lemma_position_of(entries: Seq<AllocationEntry>, class: AssetClassView)
    ensures
        match position_of(entries, class) {
            Some(i) => {
                &&& 0 <= i < entries.len()
                &&& entries[i].asset_class@ == class
                &&& forall|k: int| 0 <= k < i ==> entries[k].asset_class@ != class
            },
            None => forall|k: int| 0 <= k < entries.len() ==> entries[k].asset_class@ != class,
        },
    decreases entries.len(),
{
    if entries.len() > 0 {
        lemma_position_of(entries.drop_last(), class);
        assert forall|k: int| 0 <= k < entries.len() - 1 implies entries.drop_last()[k]
            == entries[k] by {}
    }
}

/// Sets the fraction of a class in a list of entries: in place where the class
/// has an entry, at the end where it has none.
fn set_fraction(entries: &mut Vec<AllocationEntry>, asset_class: AssetClass, fraction: Decimal)
    requires
        distinct_classes(old(entries)@),
    ensures
        match position_of(old(entries)@, asset_class@) {
            Some(i) => final(entries)@ == old(entries)@.update(
                i,
                AllocationEntry { asset_class, fraction },
            ),
            None => final(entries)@ == old(entries)@.push(AllocationEntry { asset_class, fraction }),
        },
        distinct_classes(final(entries)@),
{
    let ghost before = entries@;
    proof {
        lemma_position_of(before, asset_class@);
    }
    let mut i: usize = 0;
    while i < entries.len()
        invariant
            i <= entries.len(),
            entries@ == before,
            before == old(entries)@,
            distinct_classes(before),
            position_of(before.take(i as int), asset_class@) is None,
        decreases entries.len() - i,
    {
        proof {
            assert(before.take(i as int + 1).drop_last() =~= before.take(i as int));
            lemma_position_of(before.take(i as int + 1), asset_class@);
            lemma_position_of(before.take(i as int), asset_class@);
        }
        if entries[i].asset_class == asset_class {
            proof {
                assert(before[i as int].asset_class@ == asset_class@);
                assert forall|k: int| 0 <= k < i implies before[k].asset_class@
                    != asset_class@ by {
                    assert(before.take(i as int)[k] == before[k]);
                }
                lemma_position_of(before, asset_class@);
                match position_of(before, asset_class@) {
                    Some(j) => {
                        if j < i {
                            assert(before[j].asset_class@ != asset_class@);
                        }
                    },
                    None => {},
                }
                assert(position_of(before, asset_class@) == Some(i as int));
            }
            entries.set(i, AllocationEntry { asset_class, fraction });
            proof {
                let after = before.update(i as int, AllocationEntry { asset_class, fraction });
                assert(entries@ =~= after);
                if distinct_classes(before) {
                    assert forall|a: int, b: int| 0 <= a < b < after.len() implies after[a].asset_class@
                        != after[b].asset_class@ by {
                        assert(after[a].asset_class@ == before[a].asset_class@);
                        assert(after[b].asset_class@ == before[b].asset_class@);
                    }
                }
            }
            return ;
        }
        i = i + 1;
    }
    proof {
        assert(before.take(i as int) =~= before);
    }
    entries.push(AllocationEntry { asset_class, fraction });
    proof {
        lemma_position_of(before, asset_class@);
        let after = before.push(AllocationEntry { asset_class, fraction });
        assert(entries@ =~= after);
        if distinct_classes(before) {
            assert forall|a: int, b: int| 0 <= a < b < after.len() implies after[a].asset_class@
                != after[b].asset_class@ by {
                assert(after[a] == before[a]);
                if b < before.len() {
                    assert(after[b] == before[b]);
                }
            }
        }
    }
}

/// The desired fraction of the total value for each asset class.
///
/// A class has at most one entry: that is an invariant of the type. The
/// entries keep the order in which their classes were first inserted. An
/// allocation without entries sets no target.
#[derive(Debug)]
pub struct TargetAllocation {
    entries: Vec<AllocationEntry>,
}

impl Clone for TargetAllocation {
    /// An allocation with the same classes and fractions, in the same order.
    fn clone(&self) -> (r: Self)
        ensures
            r.entries().len() == self.entries().len(),
            forall|k: int|
                0 <= k < self.entries().len() ==> {
                    &&& (#[trigger] r.entries()[k]).asset_class@ == self.entries()[k].asset_class@
                    &&& r.entries()[k].fraction == self.entries()[k].fraction
                },
    {
        proof {
            use_type_invariant(self);
        }
        let mut entries: Vec<AllocationEntry> = Vec::new();
        let mut i: usize = 0;
        while i < self.entries.len()
            invariant
                i <= self.entries.len(),
                entries@.len() == i,
                forall|k: int|
                    0 <= k < i ==> {
                        &&& (#[trigger] entries@[k]).asset_class@ == self.entries@[k].asset_class@
                        &&& entries@[k].fraction == self.entries@[k].fraction
                    },
            decreases self.entries.len() - i,
        {
            entries.push(
                AllocationEntry {
                    asset_class: self.entries[i].asset_class.clone(),
                    fraction: self.entries[i].fraction,
                },
            );
            i = i + 1;
        }
        proof {
            assert forall|a: int, b: int| 0 <= a < b < entries@.len() implies entries@[a].asset_class@
                != entries@[b].asset_class@ by {
                assert(self.entries@[a].asset_class@ != self.entries@[b].asset_class@);
            }
        }
        TargetAllocation { entries }
    }
}

impl Default for TargetAllocation {
    /// An allocation without entries.
    fn default() -> (r: Self)
        ensures
            r.entries().len() == 0,
            r.well_formed(),
    {
        TargetAllocation::new()
    }
}

impl TargetAllocation {
    /// The entries, in the order in which their classes were first inserted.
    pub closed spec fn entries(&self) -> Seq<AllocationEntry> {
        self.entries@
    }

    /// No class has two entries.
    pub open spec fn well_formed(&self) -> bool {
        distinct_classes(self.entries())
    }

    #[verifier::type_invariant]
    closed spec fn one_entry_for_each_class(&self) -> bool {
        distinct_classes(self.entries@)
    }

    /// The billionths of the sum of all fractions.
    pub open spec fn fraction_sum(&self) -> int {
        total_nanos(fractions_of(self.entries()))
    }

    /// An allocation is valid when it is empty or its fractions sum to one,
    /// give or take a millionth.
    pub open spec fn is_valid(&self) -> bool {
        self.entries().len() == 0 || magnitude(self.fraction_sum() - NANOS_PER_UNIT)
            <= ALLOCATION_TOLERANCE_NANOS
    }

    /// Detail of the error that `validate` raises.
    pub open spec fn invalid_detail() -> Seq<char> {
        "Target allocations must sum to 1.0"@
    }

    /// An allocation without entries.
    pub fn new() -> (r: Self)
        ensures
            r.entries().len() == 0,
            r.well_formed(),
    {
        TargetAllocation { entries: Vec::new() }
    }

    /// Sets the fraction of a class: in place where the class has an entry,
    /// at the end where it has none.
    pub fn insert(&mut self, asset_class: AssetClass, fraction: Decimal)
        ensures
            match position_of(old(self).entries(), asset_class@) {
                Some(i) => final(self).entries() == old(self).entries().update(
                    i,
                    AllocationEntry { asset_class, fraction },
                ),
                None => final(self).entries() == old(self).entries().push(
                    AllocationEntry { asset_class, fraction },
                ),
            },
            final(self).well_formed(),
    {
        let mut taken = TargetAllocation::new();
        core::mem::swap(self, &mut taken);
        proof {
            use_type_invariant(&taken);
        }
        let TargetAllocation { mut entries } = taken;
        set_fraction(&mut entries, asset_class, fraction);
        *self = TargetAllocation { entries };
    }

    /// The number of entries; no class has two of them.
    pub fn len(&self) -> (r: usize)
        ensures
            r == self.entries().len(),
            self.well_formed(),
    {
        proof {
            use_type_invariant(self);
        }
        self.entries.len()
    }

    /// Whether the allocation has no entries.
    pub fn is_empty(&self) -> (r: bool)
        ensures
            r == (self.entries().len() == 0),
    {
        self.entries.len() == 0
    }

    /// The entry at a position.
    pub fn entry(&self, index: usize) -> (r: &AllocationEntry)
        requires
            index < self.entries().len(),
        ensures
            *r == self.entries()[index as int],
    {
        &self.entries[index]
    }

    /// Accepts an allocation that is empty or whose fractions sum to one,
    /// give or take a millionth; rejects every other with `InvalidInput`.
    pub fn validate(&self) -> (r: Result<(), RebalancingError>)
        ensures
            r is Ok <==> self.is_valid(),
            r is Err ==> r->Err_0@ == ErrorView::InvalidInput(Self::invalid_detail()),
    {
        if self.entries.len() == 0 {
            return Ok(());
        }
        let mut sum: i128 = 0;
        let mut i: usize = 0;
        while i < self.entries.len()
            invariant
                i <= self.entries.len(),
                sum == total_nanos(fractions_of(self.entries@).take(i as int)),
                sum_bounded(sum as int, i as int),
            decreases self.entries.len() - i,
        {
            proof {
                let fr = fractions_of(self.entries@);
                assert(fr.take(i as int + 1).drop_last() =~= fr.take(i as int));
                lemma_sum_bounded_step(sum as int, i as int, fr[i as int].nanos as int);
            }
            sum = sum + (self.entries[i].fraction.nanos as i128);
            i = i + 1;
        }
        proof {
            let fr = fractions_of(self.entries@);
            assert(fr.take(i as int) =~= fr);
        }
        let off: i128 = sum - (NANOS_PER_UNIT as i128);
        if off > (ALLOCATION_TOLERANCE_NANOS as i128) || off < -(ALLOCATION_TOLERANCE_NANOS as i128) {
            Err(
                RebalancingError::InvalidInput(
                    String::from_str("Target allocations must sum to 1.0"),
                ),
            )
        } else {
            Ok(())
        }
    }
}

} // verus!
