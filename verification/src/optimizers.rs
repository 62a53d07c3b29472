//! Mean-variance optimization in fixed-point arithmetic.
//!
//! The optimizer solves the unconstrained mean-variance problem under the
//! budget constraint that the weights sum to one. It does not invert the
//! covariance matrix itself: the inverse is an input, computed by whatever
//! linear-algebra backend the caller has, and `None` where the backend found
//! the matrix singular. Everything after the inversion is done here, each
//! step rounded down to the next billionth.

use crate::decimal::{
    checked_sum, magnitude, narrow, share_of, total_nanos, total_parts, Decimal, Weight,
    NANOS_PER_UNIT, PARTS_PER_BILLIONTH, PARTS_PER_WHOLE,
};
use crate::error::{ErrorView, RebalancingError};
use crate::risk_models::CovarianceMatrix;
use vstd::prelude::*;
use vstd::string::*;

verus! {

/// Up to this magnitude, in billionths, the sum of the raw weights counts as
/// zero and the optimizer falls back to equal weights.
pub const NEGLIGIBLE_SUM_NANOS: i64 = 1;

/// The largest number of assets that the optimizer weighs. Up to this many,
/// the rounding of the weights stays within a billionth of their sum.
pub const MAX_ASSETS: usize = 1_000_000_000;

/// How the mean-variance strategy is tuned.
#[derive(Clone, Copy, Debug)]
pub struct MvoConfig {
    /// How strongly variance is held against expected return; positive.
    pub risk_aversion: Decimal,
    pub max_iterations: u32,
    pub tolerance: Decimal,
}

/// All the values of a list, if none is missing.
pub open spec fn collect(items: Seq<Option<Decimal>>) -> Option<Seq<Decimal>> {
    if forall|i: int| 0 <= i < items.len() ==> (#[trigger] items[i]) is Some {
        Some(Seq::new(items.len(), |i: int| items[i]->Some_0))
    } else {
        None
    }
}

/// The products of two lists, entry by entry.
pub open spec fn products(a: Seq<Decimal>, b: Seq<Decimal>) -> Option<Seq<Decimal>> {
    collect(Seq::new(a.len(), |i: int| a[i].spec_mul(b[i])))
}

/// The inner product of two lists: the sum of their rounded products.
pub open spec fn dot(a: Seq<Decimal>, b: Seq<Decimal>) -> Option<Decimal> {
    match products(a, b) {
        None => None,
        Some(p) => narrow(total_nanos(p)),
    }
}

/// The sum of the entries of a list.
pub open spec fn sum_of(values: Seq<Decimal>) -> Option<Decimal> {
    narrow(total_nanos(values))
}

/// The sum of each row of a matrix: the matrix times the vector of ones.
pub open spec fn row_sums(matrix: Seq<Seq<Decimal>>) -> Option<Seq<Decimal>> {
    collect(Seq::new(matrix.len(), |i: int| sum_of(matrix[i])))
}

/// A matrix times a vector.
pub open spec fn matrix_times(matrix: Seq<Seq<Decimal>>, vector: Seq<Decimal>) -> Option<
    Seq<Decimal>,
> {
    collect(Seq::new(matrix.len(), |i: int| dot(matrix[i], vector)))
}

/// The multiplier of the budget constraint: `(a - risk_aversion * c) / c`.
pub open spec fn multiplier(a: Decimal, c: Decimal, risk_aversion: Decimal) -> Option<Decimal> {
    match risk_aversion.spec_mul(c) {
        None => None,
        Some(scaled) => match a.spec_sub(scaled) {
            None => None,
            Some(numerator) => numerator.spec_div(c),
        },
    }
}

/// One weight before normalizing:
/// `(by_returns - multiplier * by_ones) / risk_aversion`.
pub open spec fn raw_weight(
    by_returns: Decimal,
    by_ones: Decimal,
    multiplier: Decimal,
    risk_aversion: Decimal,
) -> Option<Decimal> {
    match multiplier.spec_mul(by_ones) {
        None => None,
        Some(shift) => match by_returns.spec_sub(shift) {
            None => None,
            Some(raw) => raw.spec_div(risk_aversion),
        },
    }
}

/// The weights before normalizing.
pub open spec fn raw_weights(
    by_returns: Seq<Decimal>,
    by_ones: Seq<Decimal>,
    multiplier: Decimal,
    risk_aversion: Decimal,
) -> Option<Seq<Decimal>> {
    collect(
        Seq::new(
            by_returns.len(),
            |i: int| raw_weight(by_returns[i], by_ones[i], multiplier, risk_aversion),
        ),
    )
}

/// The share that every entry of a list has of a sum that is not zero.
pub open spec fn shares(values: Seq<Decimal>, sum: Decimal) -> Seq<Weight> {
    Seq::new(values.len(), |i: int| share_of(values[i], sum))
}

/// The weight that each of `n` assets gets when all get the same.
pub open spec fn equal_weight(n: nat) -> Weight {
    Weight { parts: (PARTS_PER_WHOLE as int / n as int) as i128 }
}

/// The same weight for each of `n` assets.
pub open spec fn equal_weights(n: nat) -> Seq<Weight> {
    Seq::new(n, |i: int| equal_weight(n))
}

/// Raw weights scaled to sum to one; equal weights where their sum is next to
/// nothing.
pub open spec fn normalized(weights: Seq<Decimal>) -> Option<Seq<Weight>> {
    match sum_of(weights) {
        None => None,
        Some(sum) => if magnitude(sum.nanos as int) > NEGLIGIBLE_SUM_NANOS {
            Some(shares(weights, sum))
        } else {
            Some(equal_weights(weights.len()))
        },
    }
}

/// The weights before normalizing that the mean-variance equations give for
/// a vector of expected returns and the inverse of a covariance matrix, or
/// `None` where the equations are degenerate or a number leaves the range of
/// `Decimal`.
pub open spec fn raw_solution(
    expected_returns: Seq<Decimal>,
    inverse: Seq<Seq<Decimal>>,
    risk_aversion: Decimal,
) -> Option<Seq<Decimal>> {
    match matrix_times(inverse, expected_returns) {
        None => None,
        Some(by_returns) => match row_sums(inverse) {
            None => None,
            Some(by_ones) => match dot(expected_returns, by_ones) {
                None => None,
                Some(a) => match sum_of(by_ones) {
                    None => None,
                    Some(c) => if c.nanos == 0 {
                        None
                    } else {
                        match multiplier(a, c, risk_aversion) {
                            None => None,
                            Some(lambda) => raw_weights(
                                by_returns,
                                by_ones,
                                lambda,
                                risk_aversion,
                            ),
                        }
                    },
                },
            },
        },
    }
}

/// The weights that solve the mean-variance equations for a vector of
/// expected returns and the inverse of a covariance matrix: the raw weights,
/// normalized.
pub open spec fn solution(
    expected_returns: Seq<Decimal>,
    inverse: Seq<Seq<Decimal>>,
    risk_aversion: Decimal,
) -> Option<Seq<Weight>> {
    match raw_solution(expected_returns, inverse, risk_aversion) {
        None => None,
        Some(raw) => normalized(raw),
    }
}

pub open spec fn dimension_mismatch() -> Seq<char> {
    "Dimension mismatch between returns and covariance matrix"@
}

pub open spec fn singular_matrix() -> Seq<char> {
    "Covariance matrix is singular"@
}

pub open spec fn misshapen_inverse() -> Seq<char> {
    "Inverse of the covariance matrix has incorrect dimensions"@
}

pub open spec fn bad_risk_aversion() -> Seq<char> {
    "Risk aversion must be positive"@
}

pub open spec fn too_many_assets() -> Seq<char> {
    "More assets than the optimizer supports"@
}

pub open spec fn unsolvable() -> Seq<char> {
    "Failed to solve MVO equations"@
}

/// What the mean-variance optimizer answers.
///
/// Nothing to weigh gives no weights. A covariance matrix of the wrong shape
/// is invalid input. A covariance matrix without an inverse, or with
/// degenerate equations, is an optimization error. A risk aversion that is
/// not positive, and more than `MAX_ASSETS` assets, are invalid input.
pub open spec fn optimal_weights(
    expected_returns: Seq<Decimal>,
    covariance: &CovarianceMatrix,
    inverse: Option<CovarianceMatrix>,
    risk_aversion: Decimal,
) -> Result<Seq<Weight>, ErrorView> {
    let n = expected_returns.len() as int;
    if n == 0 {
        Ok(Seq::empty())
    } else if !covariance.is_square(n) {
        Err(ErrorView::InvalidInput(dimension_mismatch()))
    } else {
        match inverse {
            None => Err(ErrorView::OptimizationError(singular_matrix())),
            Some(inv) => if !inv.is_square(n) {
                Err(ErrorView::InternalError(misshapen_inverse()))
            } else if risk_aversion.nanos <= 0 {
                Err(ErrorView::InvalidInput(bad_risk_aversion()))
            } else if n > MAX_ASSETS {
                Err(ErrorView::InvalidInput(too_many_assets()))
            } else {
                match solution(expected_returns, inv.entries(), risk_aversion) {
                    None => Err(ErrorView::OptimizationError(unsolvable())),
                    Some(weights) => Ok(weights),
                }
            },
        }
    }
}

/// A list in which nothing is missing collects to its values.
pub proof fn lemma_collect_some(items: Seq<Option<Decimal>>, values: Seq<Decimal>)
    requires
        values.len() == items.len(),
        forall|k: int| 0 <= k < items.len() ==> #[trigger] items[k] == Some(values[k]),
    ensures
        collect(items) == Some(values),
{
    assert(Seq::new(items.len(), |i: int| items[i]->Some_0) =~= values);
}

/// A list in which something is missing collects to nothing.
pub proof fn lemma_collect_none(items: Seq<Option<Decimal>>, i: int)
    requires
        0 <= i < items.len(),
        items[i] is None,
    ensures
        collect(items) is None,
{
}

/// The inner product of two lists of one length.
pub fn checked_dot(a: &Vec<Decimal>, b: &Vec<Decimal>) -> (r: Option<Decimal>)
    requires
        a@.len() == b@.len(),
    ensures
        r == dot(a@, b@),
{
    let ghost items = Seq::new(a@.len(), |i: int| a@[i].spec_mul(b@[i]));
    let mut out: Vec<Decimal> = Vec::new();
    let mut i: usize = 0;
    while i < a.len()
        invariant
            i <= a@.len(),
            a@.len() == b@.len(),
            items == Seq::new(a@.len(), |i: int| a@[i].spec_mul(b@[i])),
            out@.len() == i,
            forall|k: int| 0 <= k < i ==> #[trigger] items[k] == Some(out@[k]),
        decreases a@.len() - i,
    {
        match a[i].checked_mul(b[i]) {
            Some(p) => {
                out.push(p);
            },
            None => {
                proof {
                    lemma_collect_none(items, i as int);
                }
                return None;
            },
        }
        i = i + 1;
    }
    proof {
        lemma_collect_some(items, out@);
    }
    checked_sum(&out)
}

/// The sum of each row of a matrix.
pub fn row_totals(matrix: &CovarianceMatrix) -> (r: Option<Vec<Decimal>>)
    ensures
        match row_sums(matrix.entries()) {
            None => r is None,
            Some(sums) => r is Some && r->Some_0@ == sums,
        },
{
    let ghost items = Seq::new(matrix.entries().len(), |i: int| sum_of(matrix.entries()[i]));
    let mut out: Vec<Decimal> = Vec::new();
    let mut i: usize = 0;
    while i < matrix.rows.len()
        invariant
            i <= matrix.rows@.len(),
            items == Seq::new(matrix.entries().len(), |i: int| sum_of(matrix.entries()[i])),
            out@.len() == i,
            forall|k: int| 0 <= k < i ==> #[trigger] items[k] == Some(out@[k]),
        decreases matrix.rows@.len() - i,
    {
        match checked_sum(&matrix.rows[i]) {
            Some(s) => {
                out.push(s);
            },
            None => {
                proof {
                    lemma_collect_none(items, i as int);
                }
                return None;
            },
        }
        i = i + 1;
    }
    proof {
        lemma_collect_some(items, out@);
    }
    Some(out)
}

/// A matrix times a vector that is as long as each of its rows.
pub fn times_vector(matrix: &CovarianceMatrix, vector: &Vec<Decimal>) -> (r: Option<Vec<Decimal>>)
    requires
        forall|i: int|
            0 <= i < matrix.entries().len() ==> (#[trigger] matrix.entries()[i]).len()
                == vector@.len(),
    ensures
        match matrix_times(matrix.entries(), vector@) {
            None => r is None,
            Some(image) => r is Some && r->Some_0@ == image,
        },
{
    let ghost items = Seq::new(matrix.entries().len(), |i: int| dot(matrix.entries()[i], vector@));
    let mut out: Vec<Decimal> = Vec::new();
    let mut i: usize = 0;
    while i < matrix.rows.len()
        invariant
            i <= matrix.rows@.len(),
            forall|i: int|
                0 <= i < matrix.entries().len() ==> (#[trigger] matrix.entries()[i]).len()
                    == vector@.len(),
            items == Seq::new(matrix.entries().len(), |i: int| dot(matrix.entries()[i], vector@)),
            out@.len() == i,
            forall|k: int| 0 <= k < i ==> #[trigger] items[k] == Some(out@[k]),
        decreases matrix.rows@.len() - i,
    {
        assert(matrix.entries()[i as int] == matrix.rows@[i as int]@);
        match checked_dot(&matrix.rows[i], vector) {
            Some(s) => {
                out.push(s);
            },
            None => {
                proof {
                    lemma_collect_none(items, i as int);
                }
                return None;
            },
        }
        i = i + 1;
    }
    proof {
        lemma_collect_some(items, out@);
    }
    Some(out)
}

/// The multiplier of the budget constraint.
pub fn budget_multiplier(a: Decimal, c: Decimal, risk_aversion: Decimal) -> (r: Option<Decimal>)
    ensures
        r == multiplier(a, c, risk_aversion),
{
    let scaled = match risk_aversion.checked_mul(c) {
        Some(s) => s,
        None => {
            return None;
        },
    };
    let numerator = match a.checked_sub(scaled) {
        Some(n) => n,
        None => {
            return None;
        },
    };
    numerator.checked_div(c)
}

/// One weight before normalizing.
pub fn unnormalized_weight(
    by_returns: Decimal,
    by_ones: Decimal,
    multiplier: Decimal,
    risk_aversion: Decimal,
) -> (r: Option<Decimal>)
    ensures
        r == raw_weight(by_returns, by_ones, multiplier, risk_aversion),
{
    let shift = match multiplier.checked_mul(by_ones) {
        Some(s) => s,
        None => {
            return None;
        },
    };
    let raw = match by_returns.checked_sub(shift) {
        Some(x) => x,
        None => {
            return None;
        },
    };
    raw.checked_div(risk_aversion)
}

/// The weights before normalizing.
pub fn unnormalized_weights(
    by_returns: &Vec<Decimal>,
    by_ones: &Vec<Decimal>,
    multiplier: Decimal,
    risk_aversion: Decimal,
) -> (r: Option<Vec<Decimal>>)
    requires
        by_returns@.len() == by_ones@.len(),
    ensures
        match raw_weights(by_returns@, by_ones@, multiplier, risk_aversion) {
            None => r is None,
            Some(raw) => r is Some && r->Some_0@ == raw,
        },
{
    let ghost items = Seq::new(
        by_returns@.len(),
        |i: int| raw_weight(by_returns@[i], by_ones@[i], multiplier, risk_aversion),
    );
    let mut out: Vec<Decimal> = Vec::new();
    let mut i: usize = 0;
    while i < by_returns.len()
        invariant
            i <= by_returns@.len(),
            by_returns@.len() == by_ones@.len(),
            items == Seq::new(
                by_returns@.len(),
                |i: int| raw_weight(by_returns@[i], by_ones@[i], multiplier, risk_aversion),
            ),
            out@.len() == i,
            forall|k: int| 0 <= k < i ==> #[trigger] items[k] == Some(out@[k]),
        decreases by_returns@.len() - i,
    {
        match unnormalized_weight(by_returns[i], by_ones[i], multiplier, risk_aversion) {
            Some(w) => {
                out.push(w);
            },
            None => {
                proof {
                    lemma_collect_none(items, i as int);
                }
                return None;
            },
        }
        i = i + 1;
    }
    proof {
        lemma_collect_some(items, out@);
    }
    Some(out)
}

/// The share that every entry of a list has of a sum that is not zero.
pub fn shares_of_sum(values: &Vec<Decimal>, sum: Decimal) -> (r: Vec<Weight>)
    requires
        sum.nanos != 0,
    ensures
        r@ == shares(values@, sum),
{
    let mut out: Vec<Weight> = Vec::new();
    let mut i: usize = 0;
    while i < values.len()
        invariant
            i <= values@.len(),
            sum.nanos != 0,
            out@.len() == i,
            forall|k: int| 0 <= k < i ==> out@[k] == share_of(values@[k], sum),
        decreases values@.len() - i,
    {
        out.push(Weight::share(values[i], sum));
        i = i + 1;
    }
    assert(out@ =~= shares(values@, sum));
    out
}

/// The same weight for each of `n` assets.
pub fn uniform_weights(n: usize) -> (r: Vec<Weight>)
    requires
        n > 0,
    ensures
        r@ == equal_weights(n as nat),
{
    let each: u128 = 1_000_000_000_000_000_000u128 / (n as u128);
    let weight = Weight { parts: each as i128 };
    let mut out: Vec<Weight> = Vec::new();
    let mut i: usize = 0;
    while i < n
        invariant
            i <= n,
            n > 0,
            weight == equal_weight(n as nat),
            out@.len() == i,
            forall|k: int| 0 <= k < i ==> out@[k] == weight,
        decreases n - i,
    {
        out.push(weight);
        i = i + 1;
    }
    assert(out@ =~= equal_weights(n as nat));
    out
}

/// Raw weights scaled to sum to one; equal weights where their sum is next to
/// nothing.
pub fn normalize(weights: &Vec<Decimal>) -> (r: Option<Vec<Weight>>)
    requires
        weights@.len() > 0,
    ensures
        match normalized(weights@) {
            None => r is None,
            Some(w) => r is Some && r->Some_0@ == w,
        },
{
    let sum = match checked_sum(weights) {
        Some(s) => s,
        None => {
            return None;
        },
    };
    if sum.nanos > NEGLIGIBLE_SUM_NANOS || sum.nanos < -NEGLIGIBLE_SUM_NANOS {
        Some(shares_of_sum(weights, sum))
    } else {
        Some(uniform_weights(weights.len()))
    }
}

/// Solves the mean-variance equations for a vector of expected returns and
/// the inverse of a covariance matrix of the same dimension.
pub fn solve(expected_returns: &Vec<Decimal>, inverse: &CovarianceMatrix, risk_aversion: Decimal) -> (r:
    Option<Vec<Weight>>)
    requires
        expected_returns@.len() > 0,
        inverse.is_square(expected_returns@.len() as int),
    ensures
        match solution(expected_returns@, inverse.entries(), risk_aversion) {
            None => r is None,
            Some(w) => r is Some && r->Some_0@ == w,
        },
{
    let by_returns = match times_vector(inverse, expected_returns) {
        Some(v) => v,
        None => {
            return None;
        },
    };
    let by_ones = match row_totals(inverse) {
        Some(v) => v,
        None => {
            return None;
        },
    };
    let a = match checked_dot(expected_returns, &by_ones) {
        Some(x) => x,
        None => {
            return None;
        },
    };
    let c = match checked_sum(&by_ones) {
        Some(x) => x,
        None => {
            return None;
        },
    };
    if c.nanos == 0 {
        return None;
    }
    let lambda = match budget_multiplier(a, c, risk_aversion) {
        Some(x) => x,
        None => {
            return None;
        },
    };
    let raw = match unnormalized_weights(&by_returns, &by_ones, lambda, risk_aversion) {
        Some(v) => v,
        None => {
            return None;
        },
    };
    normalize(&raw)
}


/// An algorithm that chooses the weight of each asset of a portfolio.
pub trait PortfolioOptimizer {
    /// What the optimizer answers: it is a function of the optimizer alone.
    spec fn optimum(&self) -> Result<Seq<Weight>, ErrorView>;

    /// The weights, one for each asset.
    fn optimize(&self) -> (r: Result<Vec<Weight>, RebalancingError>)
        ensures
            same_weights(r, self.optimum()),
    ;
}

/// The contents of an executable result of weights.
pub open spec fn answer_of(r: Result<Vec<Weight>, RebalancingError>) -> Result<
    Seq<Weight>,
    ErrorView,
> {
    match r {
        Ok(weights) => Ok(weights@),
        Err(e) => Err(e@),
    }
}

/// The contents of an executable result of weights are what a specification
/// result says.
pub open spec fn same_weights(
    r: Result<Vec<Weight>, RebalancingError>,
    expected: Result<Seq<Weight>, ErrorView>,
) -> bool {
    match (r, expected) {
        (Ok(weights), Ok(values)) => weights@ == values,
        (Err(e), Err(v)) => e@ == v,
        _ => false,
    }
}

/// The unconstrained mean-variance optimizer.
#[derive(Debug)]
pub struct MeanVarianceOptimizer {
    expected_returns: Vec<Decimal>,
    covariance_matrix: CovarianceMatrix,
    covariance_inverse: Option<CovarianceMatrix>,
    risk_aversion: Decimal,
}

impl MeanVarianceOptimizer {
    pub closed spec fn expected_returns(&self) -> Seq<Decimal> {
        self.expected_returns@
    }

    pub closed spec fn covariance_matrix(&self) -> &CovarianceMatrix {
        &self.covariance_matrix
    }

    pub closed spec fn covariance_inverse(&self) -> Option<CovarianceMatrix> {
        self.covariance_inverse
    }

    pub closed spec fn risk_aversion(&self) -> Decimal {
        self.risk_aversion
    }

    /// An optimizer for a vector of expected returns, the covariance matrix
    /// of those returns, the inverse of that matrix (`None` where it has
    /// none) and a risk aversion.
    pub fn new(
        expected_returns: Vec<Decimal>,
        covariance_matrix: CovarianceMatrix,
        covariance_inverse: Option<CovarianceMatrix>,
        risk_aversion: Decimal,
    ) -> (r: Self)
        ensures
            r.expected_returns() == expected_returns@,
            *r.covariance_matrix() == covariance_matrix,
            r.covariance_inverse() == covariance_inverse,
            r.risk_aversion() == risk_aversion,
    {
        MeanVarianceOptimizer {
            expected_returns,
            covariance_matrix,
            covariance_inverse,
            risk_aversion,
        }
    }
}

impl PortfolioOptimizer for MeanVarianceOptimizer {
    open spec fn optimum(&self) -> Result<Seq<Weight>, ErrorView> {
        optimal_weights(
            self.expected_returns(),
            self.covariance_matrix(),
            self.covariance_inverse(),
            self.risk_aversion(),
        )
    }

    /// The weights that the mean-variance equations give, one for each
    /// expected return.
    ///
    /// They sum to one to within a billionth: short of less than one part in
    /// a quintillion for each asset. A covariance matrix without an inverse
    /// is an optimization error.
    fn optimize(&self) -> (r: Result<Vec<Weight>, RebalancingError>)
        ensures
            r is Ok ==> r->Ok_0@.len() == self.expected_returns().len(),
            r is Ok && self.expected_returns().len() > 0 ==> magnitude(
                total_parts(r->Ok_0@) - PARTS_PER_WHOLE,
            ) < self.expected_returns().len(),
            r is Ok && self.expected_returns().len() > 0 ==> magnitude(
                total_parts(r->Ok_0@) - PARTS_PER_WHOLE,
            ) <= PARTS_PER_BILLIONTH,
            self.expected_returns().len() > 0 && self.covariance_matrix().is_square(
                self.expected_returns().len() as int,
            ) && self.covariance_inverse() is None ==> r is Err && r->Err_0@
                == ErrorView::OptimizationError(singular_matrix()),
    {
        let n = self.expected_returns.len();
        if n == 0 {
            return Ok(Vec::new());
        }
        if !self.covariance_matrix.has_shape(n) {
            return Err(
                RebalancingError::InvalidInput(
                    String::from_str("Dimension mismatch between returns and covariance matrix"),
                ),
            );
        }
        let inverse = match &self.covariance_inverse {
            Some(m) => m,
            None => {
                return Err(
                    RebalancingError::OptimizationError(
                        String::from_str("Covariance matrix is singular"),
                    ),
                );
            },
        };
        if !inverse.has_shape(n) {
            return Err(
                RebalancingError::InternalError(
                    String::from_str("Inverse of the covariance matrix has incorrect dimensions"),
                ),
            );
        }
        if self.risk_aversion.nanos <= 0 {
            return Err(
                RebalancingError::InvalidInput(String::from_str("Risk aversion must be positive")),
            );
        }
        if n > MAX_ASSETS {
            return Err(
                RebalancingError::InvalidInput(
                    String::from_str("More assets than the optimizer supports"),
                ),
            );
        }
        match solve(&self.expected_returns, inverse, self.risk_aversion) {
            Some(weights) => {
                proof {
                    lemma_solution_sums_to_one(
                        self.expected_returns@,
                        inverse.entries(),
                        self.risk_aversion,
                    );
                }
                Ok(weights)
            },
            None => Err(
                RebalancingError::OptimizationError(
                    String::from_str("Failed to solve MVO equations"),
                ),
            ),
        }
    }
}

/// What rounding takes away from the shares of a list: between nothing and,
/// for each entry, less than the sum.
pub proof fn lemma_shares_lose_little(values: Seq<Decimal>, sum: Decimal)
    requires
        sum.nanos != 0,
    ensures
        0 <= PARTS_PER_WHOLE * total_nanos(values) - sum.nanos * total_parts(shares(values, sum))
            <= values.len() * (magnitude(sum.nanos as int) - 1),
    decreases values.len(),
{
    if values.len() > 0 {
        let front = values.drop_last();
        assert(shares(values, sum).drop_last() =~= shares(front, sum));
        lemma_shares_lose_little(front, sum);
        let d = sum.nanos as int;
        let x = values.last().nanos * PARTS_PER_WHOLE;
        crate::decimal::lemma_quotient_bounds(x, d);
        crate::decimal::lemma_product_bounds(values.last().nanos as int, PARTS_PER_WHOLE as int);
        let q = shares(values, sum).last().parts as int;
        assert(q == x / d);
        let bound = magnitude(d) - 1;
        crate::decimal::lemma_remainder_bounds(x, d);
        let before = total_nanos(front);
        let quot = total_parts(shares(front, sum));
        let count = front.len() as int;
        assert(PARTS_PER_WHOLE * (before + values.last().nanos) - d * (quot + q) == (PARTS_PER_WHOLE
            * before - d * quot) + (x - d * q)) by (nonlinear_arith)
            requires
                x == values.last().nanos * PARTS_PER_WHOLE,
        ;
        assert((count + 1) * bound == count * bound + bound) by (nonlinear_arith);
    }
}

/// Whatever the optimizer answers has one weight for each expected return,
/// and the weights sum to one to within a billionth.
pub proof fn lemma_optimal_weights_sum_to_one(
    expected_returns: Seq<Decimal>,
    covariance: &CovarianceMatrix,
    inverse: Option<CovarianceMatrix>,
    risk_aversion: Decimal,
)
    requires
        optimal_weights(expected_returns, covariance, inverse, risk_aversion) is Ok,
    ensures
        optimal_weights(expected_returns, covariance, inverse, risk_aversion)->Ok_0.len()
            == expected_returns.len(),
        expected_returns.len() > 0 ==> magnitude(
            total_parts(optimal_weights(expected_returns, covariance, inverse, risk_aversion)->Ok_0)
                - PARTS_PER_WHOLE,
        ) <= PARTS_PER_BILLIONTH,
{
    if expected_returns.len() > 0 {
        lemma_solution_sums_to_one(expected_returns, inverse->Some_0.entries(), risk_aversion);
    }
}

/// The sum of a list of weights that are all the same.
pub proof fn lemma_constant_total(weights: Seq<Weight>, each: Weight)
    requires
        forall|k: int| 0 <= k < weights.len() ==> weights[k] == each,
    ensures
        total_parts(weights) == weights.len() * each.parts,
    decreases weights.len(),
{
    if weights.len() > 0 {
        lemma_constant_total(weights.drop_last(), each);
        let count = weights.len() as int;
        assert(weights.last() == each);
        assert(count * each.parts == (count - 1) * each.parts + each.parts) by (nonlinear_arith);
    } else {
        assert(weights.len() * each.parts == 0) by (nonlinear_arith)
            requires
                weights.len() == 0,
        ;
    }
}

/// Normalized weights sum to one, short of less than one part in a
/// quintillion for each weight.
pub proof fn lemma_normalized_sums_to_one(weights: Seq<Decimal>)
    requires
        weights.len() > 0,
        normalized(weights) is Some,
    ensures
        normalized(weights)->Some_0.len() == weights.len(),
        magnitude(total_parts(normalized(weights)->Some_0) - PARTS_PER_WHOLE) < weights.len(),
{
    let n = weights.len();
    let sum = sum_of(weights)->Some_0;
    let result = normalized(weights)->Some_0;
    if magnitude(sum.nanos as int) > NEGLIGIBLE_SUM_NANOS {
        lemma_shares_lose_little(weights, sum);
        let d = sum.nanos as int;
        let total = total_parts(result);
        let gap = PARTS_PER_WHOLE - total;
        let count = n as int;
        assert(PARTS_PER_WHOLE * d - d * total == d * gap) by (nonlinear_arith)
            requires
                gap == PARTS_PER_WHOLE - total,
        ;
        crate::decimal::lemma_small_gap(d, gap, count);
    } else {
        lemma_constant_total(equal_weights(n), equal_weight(n));
        let each = PARTS_PER_WHOLE as int / n as int;
        assert(0 <= each <= PARTS_PER_WHOLE && 0 <= PARTS_PER_WHOLE - n * each < n)
            by (nonlinear_arith)
            requires
                n > 0,
                each == 1_000_000_000_000_000_000int / n as int,
        ;
    }
}

/// A solution of the mean-variance equations sums to one, short of less than
/// one part in a quintillion for each asset.
pub proof fn lemma_solution_sums_to_one(
    expected_returns: Seq<Decimal>,
    inverse: Seq<Seq<Decimal>>,
    risk_aversion: Decimal,
)
    requires
        expected_returns.len() > 0,
        inverse.len() == expected_returns.len(),
        solution(expected_returns, inverse, risk_aversion) is Some,
    ensures
        solution(expected_returns, inverse, risk_aversion)->Some_0.len() == expected_returns.len(),
        magnitude(
            total_parts(solution(expected_returns, inverse, risk_aversion)->Some_0)
                - PARTS_PER_WHOLE,
        ) < expected_returns.len(),
{
    let by_returns = matrix_times(inverse, expected_returns)->Some_0;
    let by_ones = row_sums(inverse)->Some_0;
    let a = dot(expected_returns, by_ones)->Some_0;
    let c = sum_of(by_ones)->Some_0;
    let lambda = multiplier(a, c, risk_aversion)->Some_0;
    let raw = raw_weights(by_returns, by_ones, lambda, risk_aversion)->Some_0;
    assert(raw.len() == expected_returns.len());
    lemma_normalized_sums_to_one(raw);
}

/// When the raw weights sum to next to nothing, every asset gets the same
/// weight: one over the number of assets.
pub proof fn lemma_negligible_sum_gives_equal_weights(weights: Seq<Decimal>)
    requires
        sum_of(weights) is Some,
        magnitude(sum_of(weights)->Some_0.nanos as int) <= NEGLIGIBLE_SUM_NANOS,
    ensures
        normalized(weights) == Some(equal_weights(weights.len())),
{
}


/// Whether a square matrix is a multiple of the identity: `scale` on the
/// diagonal and zero elsewhere. Such is the inverse of a covariance matrix
/// that gives every asset the same variance and no covariance.
pub open spec fn is_scalar_matrix(matrix: Seq<Seq<Decimal>>, scale: Decimal) -> bool {
    &&& forall|i: int| 0 <= i < matrix.len() ==> (#[trigger] matrix[i]).len() == matrix.len()
    &&& forall|i: int, j: int|
        0 <= i < matrix.len() && 0 <= j < matrix.len() ==> (#[trigger] matrix[i][j]).nanos == if i
            == j {
            scale.nanos
        } else {
            0
        }
}

/// The sum of a list in which every entry but one is zero is that entry.
pub proof fn lemma_total_of_one_entry(values: Seq<Decimal>, at: int)
    requires
        forall|k: int| 0 <= k < values.len() && k != at ==> values[k].nanos == 0,
    ensures
        total_nanos(values) == if 0 <= at < values.len() {
            values[at].nanos as int
        } else {
            0
        },
    decreases values.len(),
{
    if values.len() > 0 {
        lemma_total_of_one_entry(values.drop_last(), at);
    }
}

/// A row of a multiple of the identity, times a vector, is the multiple of
/// one entry of the vector; the sum of the row is the multiple.
pub proof fn lemma_scalar_row(
    matrix: Seq<Seq<Decimal>>,
    scale: Decimal,
    vector: Seq<Decimal>,
    i: int,
)
    requires
        is_scalar_matrix(matrix, scale),
        vector.len() == matrix.len(),
        0 <= i < matrix.len(),
    ensures
        dot(matrix[i], vector) == scale.spec_mul(vector[i]),
        sum_of(matrix[i]) == Some(scale),
{
    let row = matrix[i];
    let items = Seq::new(row.len(), |j: int| row[j].spec_mul(vector[j]));
    assert forall|j: int| 0 <= j < row.len() && j != i implies #[trigger] items[j] == Some(
        Decimal { nanos: 0 },
    ) by {
        assert(matrix[i][j].nanos == 0);
    }
    assert(matrix[i][i].nanos == scale.nanos);
    assert(items[i] == scale.spec_mul(vector[i]));
    match scale.spec_mul(vector[i]) {
        None => {
            lemma_collect_none(items, i);
        },
        Some(product) => {
            let values = Seq::new(row.len(), |j: int| items[j]->Some_0);
            assert forall|k: int| 0 <= k < items.len() implies #[trigger] items[k] == Some(
                values[k],
            ) by {
                if k != i {
                    assert(items[k] == Some(Decimal { nanos: 0 }));
                }
            }
            lemma_collect_some(items, values);
            assert forall|k: int| 0 <= k < values.len() && k != i implies values[k].nanos == 0 by {
                assert(items[k] == Some(Decimal { nanos: 0 }));
            }
            lemma_total_of_one_entry(values, i);
        },
    }
    assert forall|k: int| 0 <= k < row.len() && k != i implies row[k].nanos == 0 by {
        assert(matrix[i][k].nanos == 0);
    }
    lemma_total_of_one_entry(row, i);
}

/// Under a covariance matrix whose inverse is a positive multiple of the
/// identity, and a positive risk aversion, the raw weights are ordered as the
/// expected returns are: an asset that is expected to return no more than
/// another gets no more weight, and equal returns get equal weights.
pub proof fn lemma_raw_weights_follow_returns(
    expected_returns: Seq<Decimal>,
    inverse: Seq<Seq<Decimal>>,
    scale: Decimal,
    risk_aversion: Decimal,
    i: int,
    j: int,
)
    requires
        is_scalar_matrix(inverse, scale),
        inverse.len() == expected_returns.len(),
        scale.nanos > 0,
        risk_aversion.nanos > 0,
        raw_solution(expected_returns, inverse, risk_aversion) is Some,
        0 <= i < expected_returns.len(),
        0 <= j < expected_returns.len(),
        expected_returns[i].nanos <= expected_returns[j].nanos,
    ensures
        raw_solution(expected_returns, inverse, risk_aversion)->Some_0.len()
            == expected_returns.len(),
        raw_solution(expected_returns, inverse, risk_aversion)->Some_0[i].nanos <= raw_solution(
            expected_returns,
            inverse,
            risk_aversion,
        )->Some_0[j].nanos,
{
    let by_returns = matrix_times(inverse, expected_returns)->Some_0;
    let by_ones = row_sums(inverse)->Some_0;
    let a = dot(expected_returns, by_ones)->Some_0;
    let c = sum_of(by_ones)->Some_0;
    let lambda = multiplier(a, c, risk_aversion)->Some_0;
    let raw = raw_weights(by_returns, by_ones, lambda, risk_aversion)->Some_0;
    lemma_scalar_row(inverse, scale, expected_returns, i);
    lemma_scalar_row(inverse, scale, expected_returns, j);
    let by_dot = Seq::new(inverse.len(), |k: int| dot(inverse[k], expected_returns));
    assert(by_dot[i] is Some && by_dot[j] is Some);
    let by_sum = Seq::new(inverse.len(), |k: int| sum_of(inverse[k]));
    assert(by_sum[i] is Some && by_sum[j] is Some);
    assert(by_ones[i] == scale && by_ones[j] == scale);
    let raw_items = Seq::new(
        by_returns.len(),
        |k: int| raw_weight(by_returns[k], by_ones[k], lambda, risk_aversion),
    );
    assert(raw_items[i] is Some && raw_items[j] is Some);
    let shift = lambda.spec_mul(scale)->Some_0.nanos as int;
    let low = by_returns[i].nanos as int;
    let high = by_returns[j].nanos as int;
    let u = scale.nanos as int;
    let ri = expected_returns[i].nanos as int;
    let rj = expected_returns[j].nanos as int;
    let g = risk_aversion.nanos as int;
    assert(low == (u * ri) / 1_000_000_000);
    assert(high == (u * rj) / 1_000_000_000);
    assert((u * ri) / 1_000_000_000 <= (u * rj) / 1_000_000_000) by (nonlinear_arith)
        requires
            u > 0,
            ri <= rj,
    ;
    assert(((low - shift) * 1_000_000_000) / g <= ((high - shift) * 1_000_000_000) / g)
        by (nonlinear_arith)
        requires
            low <= high,
            g > 0,
    ;
}

/// Normalizing keeps the order of raw weights whose sum is not negative: a
/// raw weight that is no larger than another gives a weight that is no
/// larger, and equal raw weights give equal weights.
pub proof fn lemma_normalizing_keeps_order(raw: Seq<Decimal>, i: int, j: int)
    requires
        normalized(raw) is Some,
        total_nanos(raw) >= 0,
        0 <= i < raw.len(),
        0 <= j < raw.len(),
        raw[i].nanos <= raw[j].nanos,
    ensures
        normalized(raw)->Some_0.len() == raw.len(),
        normalized(raw)->Some_0[i].parts <= normalized(raw)->Some_0[j].parts,
{
    let sum = sum_of(raw)->Some_0;
    if magnitude(sum.nanos as int) > NEGLIGIBLE_SUM_NANOS {
        let d = sum.nanos as int;
        let x = raw[i].nanos * PARTS_PER_WHOLE;
        let y = raw[j].nanos * PARTS_PER_WHOLE;
        crate::decimal::lemma_product_bounds(raw[i].nanos as int, PARTS_PER_WHOLE as int);
        crate::decimal::lemma_product_bounds(raw[j].nanos as int, PARTS_PER_WHOLE as int);
        crate::decimal::lemma_quotient_bounds(x, d);
        crate::decimal::lemma_quotient_bounds(y, d);
        assert(x / d <= y / d) by (nonlinear_arith)
            requires
                x <= y,
                d > 0,
        ;
    }
}


/// The sum of a list of decimals that are all the same.
pub proof fn lemma_constant_sum(values: Seq<Decimal>, each: int)
    requires
        forall|k: int| 0 <= k < values.len() ==> values[k].nanos == each,
    ensures
        total_nanos(values) == values.len() * each,
    decreases values.len(),
{
    if values.len() > 0 {
        lemma_constant_sum(values.drop_last(), each);
        let count = values.len() as int;
        assert(count * each == (count - 1) * each + each) by (nonlinear_arith);
    } else {
        assert(values.len() * each == 0) by (nonlinear_arith)
            requires
                values.len() == 0,
        ;
    }
}

/// The sum of a list whose entries are those of another, each less one
/// amount.
pub proof fn lemma_shifted_sum(shifted: Seq<Decimal>, values: Seq<Decimal>, by: int)
    requires
        shifted.len() == values.len(),
        forall|k: int| 0 <= k < values.len() ==> shifted[k].nanos == values[k].nanos - by,
    ensures
        total_nanos(shifted) == total_nanos(values) - values.len() * by,
    decreases values.len(),
{
    if values.len() > 0 {
        lemma_shifted_sum(shifted.drop_last(), values.drop_last(), by);
        let count = values.len() as int;
        assert(count * by == (count - 1) * by + by) by (nonlinear_arith);
    } else {
        assert(values.len() * by == 0) by (nonlinear_arith)
            requires
                values.len() == 0,
        ;
    }
}

/// What rounding takes away from the quotients of a list by a positive
/// divisor: for each entry, less than one.
pub proof fn lemma_quotients_lose_little(quotients: Seq<Decimal>, values: Seq<Decimal>, divisor: int)
    requires
        divisor > 0,
        quotients.len() == values.len(),
        forall|k: int|
            0 <= k < values.len() ==> quotients[k].nanos == (values[k].nanos * NANOS_PER_UNIT)
                / divisor,
    ensures
        divisor * total_nanos(quotients) >= NANOS_PER_UNIT * total_nanos(values) - values.len() * (
        divisor - 1),
    decreases values.len(),
{
    if values.len() > 0 {
        lemma_quotients_lose_little(quotients.drop_last(), values.drop_last(), divisor);
        let count = values.len() as int;
        let x = values.last().nanos * NANOS_PER_UNIT;
        let q = quotients.last().nanos as int;
        assert(q == x / divisor);
        crate::decimal::lemma_remainder_bounds(x, divisor);
        let before = total_nanos(values.drop_last());
        let quot = total_nanos(quotients.drop_last());
        assert(divisor * (quot + q) == divisor * quot + divisor * q) by (nonlinear_arith);
        assert(NANOS_PER_UNIT * (before + values.last().nanos) == NANOS_PER_UNIT * before + x)
            by (nonlinear_arith)
            requires
                x == values.last().nanos * NANOS_PER_UNIT,
        ;
        assert(count * (divisor - 1) == (count - 1) * (divisor - 1) + (divisor - 1))
            by (nonlinear_arith);
    } else {
        assert(values.len() * (divisor - 1) == 0) by (nonlinear_arith)
            requires
                values.len() == 0,
        ;
    }
}

/// Under a covariance matrix whose inverse is a positive multiple of the
/// identity, the raw weights do not sum to less than nothing, where the risk
/// aversion is at least one or the risk aversion times the multiple, less a
/// billionth, is at least a billionth.
pub proof fn lemma_raw_weights_sum_is_not_negative(
    expected_returns: Seq<Decimal>,
    inverse: Seq<Seq<Decimal>>,
    scale: Decimal,
    risk_aversion: Decimal,
)
    requires
        is_scalar_matrix(inverse, scale),
        inverse.len() == expected_returns.len(),
        scale.nanos > 0,
        risk_aversion.nanos > 0,
        risk_aversion.nanos >= NANOS_PER_UNIT || risk_aversion.nanos * (scale.nanos - 1)
            >= NANOS_PER_UNIT,
        raw_solution(expected_returns, inverse, risk_aversion) is Some,
    ensures
        total_nanos(raw_solution(expected_returns, inverse, risk_aversion)->Some_0) >= 0,
{
    let n = expected_returns.len() as int;
    let by_returns = matrix_times(inverse, expected_returns)->Some_0;
    let by_ones = row_sums(inverse)->Some_0;
    let a = dot(expected_returns, by_ones)->Some_0;
    let c = sum_of(by_ones)->Some_0;
    let lambda = multiplier(a, c, risk_aversion)->Some_0;
    let raw = raw_weights(by_returns, by_ones, lambda, risk_aversion)->Some_0;
    let u = scale.nanos as int;
    let g = risk_aversion.nanos as int;
    let unit = NANOS_PER_UNIT as int;
    if n == 0 {
        assert(raw.len() == 0);
    } else {
        let by_dot = Seq::new(inverse.len(), |k: int| dot(inverse[k], expected_returns));
        let by_sum = Seq::new(inverse.len(), |k: int| sum_of(inverse[k]));
        assert forall|k: int| 0 <= k < n implies by_ones[k] == scale && by_returns[k].nanos == (u
            * expected_returns[k].nanos) / unit by {
            lemma_scalar_row(inverse, scale, expected_returns, k);
            assert(by_dot[k] is Some);
            assert(by_sum[k] is Some);
        }
        // c = n * u
        assert forall|k: int| 0 <= k < by_ones.len() implies by_ones[k].nanos == u by {
            assert(by_ones[k] == scale);
        }
        lemma_constant_sum(by_ones, u);
        assert(c.nanos == n * u);
        // a = the sum of by_returns
        let both = products(expected_returns, by_ones)->Some_0;
        let both_items = Seq::new(
            expected_returns.len(),
            |k: int| expected_returns[k].spec_mul(by_ones[k]),
        );
        assert forall|k: int| 0 <= k < n implies both[k].nanos == by_returns[k].nanos - 0 by {
            assert(both_items[k] is Some);
            assert(by_ones[k] == scale);
            assert(expected_returns[k].nanos * u == u * expected_returns[k].nanos)
                by (nonlinear_arith);
        }
        lemma_shifted_sum(both, by_returns, 0);
        let total = total_nanos(by_returns);
        assert(a.nanos == total);
        // the multiplier and the shift
        let scaled = risk_aversion.spec_mul(c)->Some_0.nanos as int;
        let numerator = a.nanos - scaled;
        let l = lambda.nanos as int;
        assert(scaled == (g * c.nanos) / unit);
        assert(l == (numerator * unit) / (c.nanos as int));
        let raw_items = Seq::new(
            by_returns.len(),
            |k: int| raw_weight(by_returns[k], by_ones[k], lambda, risk_aversion),
        );
        assert(raw_items[0] is Some);
        assert(by_ones[0] == scale);
        let shift = lambda.spec_mul(scale)->Some_0.nanos as int;
        assert(shift == (l * u) / unit);
        let cn = c.nanos as int;
        assert(shift * n <= numerator) by (nonlinear_arith)
            requires
                shift == (l * u) / unit,
                l == (numerator * unit) / cn,
                cn == n * u,
                u > 0,
                n > 0,
                unit == 1_000_000_000,
        ;
        assert(scaled * unit > g * cn - unit && scaled >= 0) by (nonlinear_arith)
            requires
                scaled == (g * cn) / unit,
                g > 0,
                cn > 0,
                unit == 1_000_000_000,
        ;
        // the differences and their quotients
        let differences = Seq::new(
            by_returns.len(),
            |k: int| by_returns[k].spec_sub(lambda.spec_mul(scale)->Some_0)->Some_0,
        );
        assert forall|k: int| 0 <= k < n implies differences[k].nanos == by_returns[k].nanos
            - shift && raw[k].nanos == (differences[k].nanos * NANOS_PER_UNIT) / g by {
            assert(raw_items[k] is Some);
            assert(by_ones[k] == scale);
        }
        lemma_shifted_sum(differences, by_returns, shift);
        lemma_quotients_lose_little(raw, differences, g);
        let spread = total_nanos(differences);
        let sum = total_nanos(raw);
        assert(spread == total - n * shift);
        assert(spread >= scaled);
        assert(g * sum >= unit * spread - n * (g - 1));
        assert(sum >= 0) by (nonlinear_arith)
            requires
                g * sum >= unit * spread - n * (g - 1),
                spread >= scaled,
                scaled * unit > g * cn - unit,
                cn == n * u,
                n > 0,
                u > 0,
                g > 0,
                unit == 1_000_000_000,
                g >= unit || g * (u - 1) >= unit,
        ;
    }
}

/// Under a covariance matrix whose inverse is a positive multiple of the
/// identity, the optimizer's weights are ordered as the expected returns are:
/// an asset that is expected to return no more than another gets no more
/// weight, and equal returns get equal weights.
///
/// That holds where the risk aversion is at least one, or the risk aversion
/// times the multiple, less a billionth, is at least a billionth. Returns
/// that differ by less than the rounding can get the same weight.
pub proof fn lemma_weights_follow_returns(
    expected_returns: Seq<Decimal>,
    inverse: Seq<Seq<Decimal>>,
    scale: Decimal,
    risk_aversion: Decimal,
    i: int,
    j: int,
)
    requires
        is_scalar_matrix(inverse, scale),
        inverse.len() == expected_returns.len(),
        scale.nanos > 0,
        risk_aversion.nanos > 0,
        risk_aversion.nanos >= NANOS_PER_UNIT || risk_aversion.nanos * (scale.nanos - 1)
            >= NANOS_PER_UNIT,
        solution(expected_returns, inverse, risk_aversion) is Some,
        0 <= i < expected_returns.len(),
        0 <= j < expected_returns.len(),
        expected_returns[i].nanos <= expected_returns[j].nanos,
    ensures
        solution(expected_returns, inverse, risk_aversion)->Some_0.len() == expected_returns.len(),
        solution(expected_returns, inverse, risk_aversion)->Some_0[i].parts <= solution(
            expected_returns,
            inverse,
            risk_aversion,
        )->Some_0[j].parts,
{
    let raw = raw_solution(expected_returns, inverse, risk_aversion)->Some_0;
    lemma_raw_weights_follow_returns(expected_returns, inverse, scale, risk_aversion, i, j);
    lemma_raw_weights_sum_is_not_negative(expected_returns, inverse, scale, risk_aversion);
    lemma_normalizing_keeps_order(raw, i, j);
}


/// What the optimizer answers under a covariance matrix whose inverse is a
/// positive multiple of the identity is ordered as the expected returns are.
pub proof fn lemma_optimum_follows_returns(
    expected_returns: Seq<Decimal>,
    covariance: &CovarianceMatrix,
    inverse: CovarianceMatrix,
    scale: Decimal,
    risk_aversion: Decimal,
    i: int,
    j: int,
)
    requires
        is_scalar_matrix(inverse.entries(), scale),
        scale.nanos > 0,
        risk_aversion.nanos >= NANOS_PER_UNIT || risk_aversion.nanos * (scale.nanos - 1)
            >= NANOS_PER_UNIT,
        optimal_weights(expected_returns, covariance, Some(inverse), risk_aversion) is Ok,
        0 <= i < expected_returns.len(),
        0 <= j < expected_returns.len(),
        expected_returns[i].nanos <= expected_returns[j].nanos,
    ensures
        optimal_weights(expected_returns, covariance, Some(inverse), risk_aversion)->Ok_0[i].parts
            <= optimal_weights(
            expected_returns,
            covariance,
            Some(inverse),
            risk_aversion,
        )->Ok_0[j].parts,
{
    lemma_weights_follow_returns(expected_returns, inverse.entries(), scale, risk_aversion, i, j);
}

} // verus!
