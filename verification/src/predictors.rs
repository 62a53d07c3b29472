//! Models that predict the expected return of each asset.

use crate::data_models::MarketDataContext;
use crate::decimal::Decimal;
use crate::error::RebalancingError;
use vstd::prelude::*;
use vstd::string::*;

verus! {

/// A model that predicts the expected return of each asset of a list: one
/// return for each asset id, in the order of the ids.
pub trait ExpectedReturnsPredictor {
    fn predict(&self, asset_ids: &Vec<String>, market_data: &MarketDataContext) -> (r: Result<
        Vec<Decimal>,
        RebalancingError,
    >)
        ensures
            r is Ok ==> r->Ok_0@.len() == asset_ids@.len(),
    ;
}

/// The return that `MarketEquilibriumPredictor` expects of every asset: 7%.
pub const EQUILIBRIUM_RETURN_NANOS: i64 = 70_000_000;

/// The return on record for a symbol in a table of two known symbols.
pub open spec fn tabled_return(id: Seq<char>, first: i64, second: i64, other: i64) -> Decimal {
    if id == "AAPL"@ {
        Decimal { nanos: first }
    } else if id == "BND"@ {
        Decimal { nanos: second }
    } else {
        Decimal { nanos: other }
    }
}

/// The return that `HistoricalReturnsPredictor` expects of an asset: 15% of
/// AAPL, 3% of BND, 5% of any other.
pub open spec fn historical_return(id: Seq<char>) -> Decimal {
    tabled_return(id, 150_000_000, 30_000_000, 50_000_000)
}

/// The return that `MockReturnsPredictor` expects of an asset: 20% of AAPL,
/// 4% of BND, 6% of any other.
pub open spec fn mock_return(id: Seq<char>) -> Decimal {
    tabled_return(id, 200_000_000, 40_000_000, 60_000_000)
}

/// Looks every asset id up in a table of two known symbols.
pub fn returns_from_table(asset_ids: &Vec<String>, first: i64, second: i64, other: i64) -> (r: Vec<
    Decimal,
>)
    ensures
        r@ == Seq::new(asset_ids@.len(), |i: int| tabled_return(asset_ids@[i]@, first, second, other)),
{
    let aapl = String::from_str("AAPL");
    let bnd = String::from_str("BND");
    let mut out: Vec<Decimal> = Vec::new();
    let mut i: usize = 0;
    while i < asset_ids.len()
        invariant
            i <= asset_ids.len(),
            aapl@ == "AAPL"@,
            bnd@ == "BND"@,
            out@.len() == i,
            forall|k: int|
                0 <= k < i ==> out@[k] == tabled_return(asset_ids@[k]@, first, second, other),
        decreases asset_ids.len() - i,
    {
        let id = &asset_ids[i];
        if *id == aapl {
            out.push(Decimal { nanos: first });
        } else if *id == bnd {
            out.push(Decimal { nanos: second });
        } else {
            out.push(Decimal { nanos: other });
        }
        i = i + 1;
    }
    assert(out@ =~= Seq::new(
        asset_ids@.len(),
        |i: int| tabled_return(asset_ids@[i]@, first, second, other),
    ));
    out
}

/// A predictor that stands for a market-equilibrium model: it expects the
/// same return of every asset. It reads no market data.
#[derive(Clone, Copy, Debug)]
pub struct MarketEquilibriumPredictor;

impl ExpectedReturnsPredictor for MarketEquilibriumPredictor {
    fn predict(&self, asset_ids: &Vec<String>, market_data: &MarketDataContext) -> (r: Result<
        Vec<Decimal>,
        RebalancingError,
    >)
        ensures
            r is Ok,
            r->Ok_0@ == Seq::new(
                asset_ids@.len(),
                |i: int| Decimal { nanos: EQUILIBRIUM_RETURN_NANOS },
            ),
    {
        let mut out: Vec<Decimal> = Vec::new();
        let mut i: usize = 0;
        while i < asset_ids.len()
            invariant
                i <= asset_ids.len(),
                out@.len() == i,
                forall|k: int| 0 <= k < i ==> out@[k] == (Decimal { nanos: EQUILIBRIUM_RETURN_NANOS }),
            decreases asset_ids.len() - i,
        {
            out.push(Decimal { nanos: EQUILIBRIUM_RETURN_NANOS });
            i = i + 1;
        }
        assert(out@ =~= Seq::new(
            asset_ids@.len(),
            |i: int| Decimal { nanos: EQUILIBRIUM_RETURN_NANOS },
        ));
        Ok(out)
    }
}

/// A predictor that stands for a model of historical performance: a fixed
/// table of returns by symbol. It reads no market data.
#[derive(Clone, Copy, Debug)]
pub struct HistoricalReturnsPredictor;

impl Default for HistoricalReturnsPredictor {
    fn default() -> (r: Self) {
        HistoricalReturnsPredictor
    }
}

impl ExpectedReturnsPredictor for HistoricalReturnsPredictor {
    fn predict(&self, asset_ids: &Vec<String>, market_data: &MarketDataContext) -> (r: Result<
        Vec<Decimal>,
        RebalancingError,
    >)
        ensures
            r is Ok,
            r->Ok_0@ == Seq::new(asset_ids@.len(), |i: int| historical_return(asset_ids@[i]@)),
    {
        let out = returns_from_table(asset_ids, 150_000_000, 30_000_000, 50_000_000);
        assert(out@ =~= Seq::new(asset_ids@.len(), |i: int| historical_return(asset_ids@[i]@)));
        Ok(out)
    }
}

/// A predictor for tests: a fixed table of returns by symbol.
#[derive(Clone, Copy, Debug)]
pub struct MockReturnsPredictor;

impl MockReturnsPredictor {
    pub fn new() -> (r: Self) {
        MockReturnsPredictor
    }
}

impl ExpectedReturnsPredictor for MockReturnsPredictor {
    fn predict(&self, asset_ids: &Vec<String>, market_data: &MarketDataContext) -> (r: Result<
        Vec<Decimal>,
        RebalancingError,
    >)
        ensures
            r is Ok,
            r->Ok_0@ == Seq::new(asset_ids@.len(), |i: int| mock_return(asset_ids@[i]@)),
    {
        let out = returns_from_table(asset_ids, 200_000_000, 40_000_000, 60_000_000);
        assert(out@ =~= Seq::new(asset_ids@.len(), |i: int| mock_return(asset_ids@[i]@)));
        Ok(out)
    }
}

} // verus!
