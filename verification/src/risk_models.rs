//! Covariance matrices and the models that estimate them.

use crate::data_models::MarketDataContext;
use crate::decimal::{Decimal, NANOS_PER_UNIT};
use crate::error::RebalancingError;
use vstd::prelude::*;

verus! {

/// A matrix of decimals, stored row by row. A covariance matrix over `n`
/// assets has `n` rows of `n` entries, in the order of the asset ids it was
/// computed for.
#[derive(Clone, Debug)]
pub struct CovarianceMatrix {
    pub rows: Vec<Vec<Decimal>>,
}

impl CovarianceMatrix {
    /// The entries, row by row.
    pub open spec fn entries(&self) -> Seq<Seq<Decimal>> {
        Seq::new(self.rows@.len(), |i: int| self.rows@[i]@)
    }

    /// Whether the matrix has `n` rows of `n` entries each.
    pub open spec fn is_square(&self, n: int) -> bool {
        &&& self.entries().len() == n
        &&& forall|i: int| 0 <= i < n ==> (#[trigger] self.entries()[i]).len() == n
    }

    /// The matrix of the given shape whose entries all have one value.
    pub fn from_element(nrows: usize, ncols: usize, value: Decimal) -> (r: Self)
        ensures
            r.entries() == Seq::new(nrows as nat, |i: int| Seq::new(ncols as nat, |j: int| value)),
    {
        let mut rows: Vec<Vec<Decimal>> = Vec::new();
        let mut i: usize = 0;
        while i < nrows
            invariant
                i <= nrows,
                rows@.len() == i,
                forall|k: int| 0 <= k < i ==> (#[trigger] rows@[k])@ == Seq::new(
                    ncols as nat,
                    |j: int| value,
                ),
            decreases nrows - i,
        {
            let mut row: Vec<Decimal> = Vec::new();
            let mut j: usize = 0;
            while j < ncols
                invariant
                    j <= ncols,
                    row@.len() == j,
                    forall|k: int| 0 <= k < j ==> row@[k] == value,
                decreases ncols - j,
            {
                row.push(value);
                j = j + 1;
            }
            assert(row@ =~= Seq::new(ncols as nat, |j: int| value));
            rows.push(row);
            i = i + 1;
        }
        let r = CovarianceMatrix { rows };
        assert(r.entries() =~= Seq::new(
            nrows as nat,
            |i: int| Seq::new(ncols as nat, |j: int| value),
        ));
        r
    }

    /// The number of rows.
    pub fn nrows(&self) -> (r: usize)
        ensures
            r == self.rows@.len(),
    {
        self.rows.len()
    }

    /// Whether the matrix has `n` rows of `n` entries each.
    pub fn has_shape(&self, n: usize) -> (r: bool)
        ensures
            r == self.is_square(n as int),
    {
        if self.rows.len() != n {
            return false;
        }
        let mut i: usize = 0;
        while i < n
            invariant
                i <= n,
                self.rows@.len() == n,
                forall|k: int| 0 <= k < i ==> (#[trigger] self.rows@[k])@.len() == n,
            decreases n - i,
        {
            if self.rows[i].len() != n {
                assert(self.entries()[i as int].len() != n);
                return false;
            }
            i = i + 1;
        }
        assert forall|k: int| 0 <= k < n implies (#[trigger] self.entries()[k]).len() == n by {
            assert(self.rows@[k]@.len() == n);
        }
        true
    }

    /// The entry at a row and a column.
    pub fn get(&self, row: usize, col: usize) -> (r: Decimal)
        requires
            row < self.rows@.len(),
            col < self.rows@[row as int]@.len(),
        ensures
            r == self.entries()[row as int][col as int],
    {
        self.rows[row][col]
    }

    /// Replaces the entry at a row and a column.
    pub fn set(&mut self, row: usize, col: usize, value: Decimal)
        requires
            row < old(self).rows@.len(),
            col < old(self).rows@[row as int]@.len(),
        ensures
            final(self).entries() == old(self).entries().update(
                row as int,
                old(self).entries()[row as int].update(col as int, value),
            ),
    {
        let ghost before = self.entries();
        self.rows[row][col] = value;
        assert(self.entries() =~= before.update(row as int, before[row as int].update(col as int, value)));
    }
}

/// A model that estimates the covariance of the returns of a list of assets:
/// a square matrix with one row and one column for each asset id, in the
/// order of the ids.
pub trait RiskModel {
    fn calculate(&self, asset_ids: &Vec<String>, market_data: &MarketDataContext) -> (r: Result<
        CovarianceMatrix,
        RebalancingError,
    >)
        ensures
            r is Ok ==> r->Ok_0.is_square(asset_ids@.len() as int),
    ;
}

/// The variance that `SampleCovarianceModel` gives every asset: 0.05.
pub const SAMPLE_VARIANCE_NANOS: i64 = 50_000_000;

/// The covariance that `SampleCovarianceModel` gives every pair of assets:
/// 0.01.
pub const SAMPLE_COVARIANCE_NANOS: i64 = 10_000_000;

/// The covariance that `MockRiskModel` gives the first two assets: 0.2.
pub const MOCK_COVARIANCE_NANOS: i64 = 200_000_000;

/// The entry of the sample covariance matrix at a row and a column.
pub open spec fn sample_entry(i: int, j: int) -> Decimal {
    if i == j {
        Decimal { nanos: SAMPLE_VARIANCE_NANOS }
    } else {
        Decimal { nanos: SAMPLE_COVARIANCE_NANOS }
    }
}

/// The entry of the mock covariance matrix at a row and a column.
pub open spec fn mock_entry(i: int, j: int) -> Decimal {
    if i == j {
        Decimal { nanos: NANOS_PER_UNIT }
    } else if i + j == 1 {
        Decimal { nanos: MOCK_COVARIANCE_NANOS }
    } else {
        Decimal { nanos: 0 }
    }
}

/// A stand-in for a sample covariance estimate: the same variance for every
/// asset and the same covariance for every pair. It reads no market data.
#[derive(Clone, Copy, Debug)]
pub struct SampleCovarianceModel;

impl Default for SampleCovarianceModel {
    fn default() -> (r: Self) {
        SampleCovarianceModel
    }
}

impl RiskModel for SampleCovarianceModel {
    fn calculate(&self, asset_ids: &Vec<String>, market_data: &MarketDataContext) -> (r: Result<
        CovarianceMatrix,
        RebalancingError,
    >)
        ensures
            r is Ok,
            r->Ok_0.entries() == Seq::new(
                asset_ids@.len(),
                |i: int| Seq::new(asset_ids@.len(), |j: int| sample_entry(i, j)),
            ),
    {
        let n = asset_ids.len();
        let mut rows: Vec<Vec<Decimal>> = Vec::new();
        let mut i: usize = 0;
        while i < n
            invariant
                i <= n,
                rows@.len() == i,
                forall|k: int| 0 <= k < i ==> (#[trigger] rows@[k])@ == Seq::new(
                    n as nat,
                    |j: int| sample_entry(k, j),
                ),
            decreases n - i,
        {
            let mut row: Vec<Decimal> = Vec::new();
            let mut j: usize = 0;
            while j < n
                invariant
                    j <= n,
                    i < n,
                    row@.len() == j,
                    forall|k: int| 0 <= k < j ==> row@[k] == sample_entry(i as int, k),
                decreases n - j,
            {
                if i == j {
                    row.push(Decimal { nanos: SAMPLE_VARIANCE_NANOS });
                } else {
                    row.push(Decimal { nanos: SAMPLE_COVARIANCE_NANOS });
                }
                j = j + 1;
            }
            assert(row@ =~= Seq::new(n as nat, |j: int| sample_entry(i as int, j)));
            rows.push(row);
            i = i + 1;
        }
        let matrix = CovarianceMatrix { rows };
        assert(matrix.entries() =~= Seq::new(
            n as nat,
            |i: int| Seq::new(n as nat, |j: int| sample_entry(i, j)),
        ));
        Ok(matrix)
    }
}

/// A risk model for tests: unit variances, a covariance of 0.2 between the
/// first two assets and none between any other pair.
#[derive(Clone, Copy, Debug)]
pub struct MockRiskModel;

impl MockRiskModel {
    pub fn new() -> (r: Self) {
        MockRiskModel
    }
}

impl RiskModel for MockRiskModel {
    fn calculate(&self, asset_ids: &Vec<String>, market_data: &MarketDataContext) -> (r: Result<
        CovarianceMatrix,
        RebalancingError,
    >)
        ensures
            r is Ok,
            r->Ok_0.entries() == Seq::new(
                asset_ids@.len(),
                |i: int| Seq::new(asset_ids@.len(), |j: int| mock_entry(i, j)),
            ),
    {
        let n = asset_ids.len();
        let mut rows: Vec<Vec<Decimal>> = Vec::new();
        let mut i: usize = 0;
        while i < n
            invariant
                i <= n,
                rows@.len() == i,
                forall|k: int| 0 <= k < i ==> (#[trigger] rows@[k])@ == Seq::new(
                    n as nat,
                    |j: int| mock_entry(k, j),
                ),
            decreases n - i,
        {
            let mut row: Vec<Decimal> = Vec::new();
            let mut j: usize = 0;
            while j < n
                invariant
                    j <= n,
                    i < n,
                    row@.len() == j,
                    forall|k: int| 0 <= k < j ==> row@[k] == mock_entry(i as int, k),
                decreases n - j,
            {
                if i == j {
                    row.push(Decimal { nanos: NANOS_PER_UNIT });
                } else if (i == 0 && j == 1) || (i == 1 && j == 0) {
                    row.push(Decimal { nanos: MOCK_COVARIANCE_NANOS });
                } else {
                    row.push(Decimal { nanos: 0 });
                }
                j = j + 1;
            }
            assert(row@ =~= Seq::new(n as nat, |j: int| mock_entry(i as int, j)));
            rows.push(row);
            i = i + 1;
        }
        let matrix = CovarianceMatrix { rows };
        assert(matrix.entries() =~= Seq::new(
            n as nat,
            |i: int| Seq::new(n as nat, |j: int| mock_entry(i, j)),
        ));
        Ok(matrix)
    }
}

} // verus!
