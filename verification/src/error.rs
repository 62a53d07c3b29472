//! The error type shared by every fallible operation of the crate.

use vstd::prelude::*;
use vstd::string::*;

verus! {

/// Why a rebalancing request could not be served.
#[derive(Debug)]
pub enum RebalancingError {
    /// A price or a classification is absent for the named asset.
    MarketDataMissing(String),
    /// The request itself is malformed.
    InvalidInput(String),
    /// The optimizer could not solve its equations.
    OptimizationError(String),
    /// The expected-returns model failed.
    PredictionError(String),
    /// The risk model failed.
    RiskModelError(String),
    /// A remote service behind one of the models failed.
    ExternalServiceError(String),
    /// A component broke its contract.
    InternalError(String),
}

/// The mathematical content of a `RebalancingError`.
pub enum ErrorView {
    MarketDataMissing(Seq<char>),
    InvalidInput(Seq<char>),
    OptimizationError(Seq<char>),
    PredictionError(Seq<char>),
    RiskModelError(Seq<char>),
    ExternalServiceError(Seq<char>),
    InternalError(Seq<char>),
}

impl ErrorView {
    /// The text that introduces the detail of an error of this kind.
    pub open spec fn prefix(self) -> Seq<char> {
        match self {
            ErrorView::MarketDataMissing(_) => "Market data not found for asset: "@,
            ErrorView::InvalidInput(_) => "Invalid input: "@,
            ErrorView::OptimizationError(_) => "Optimization failed: "@,
            ErrorView::PredictionError(_) => "Failed to predict returns: "@,
            ErrorView::RiskModelError(_) => "Failed to calculate risk model: "@,
            ErrorView::ExternalServiceError(_) => "An external service call failed: "@,
            ErrorView::InternalError(_) => "An unexpected internal error occurred: "@,
        }
    }

    /// The detail carried by the error.
    pub open spec fn detail(self) -> Seq<char> {
        match self {
            ErrorView::MarketDataMissing(s) => s,
            ErrorView::InvalidInput(s) => s,
            ErrorView::OptimizationError(s) => s,
            ErrorView::PredictionError(s) => s,
            ErrorView::RiskModelError(s) => s,
            ErrorView::ExternalServiceError(s) => s,
            ErrorView::InternalError(s) => s,
        }
    }
}

impl View for RebalancingError {
    type V = ErrorView;

    open spec fn view(&self) -> ErrorView {
        match self {
            RebalancingError::MarketDataMissing(s) => ErrorView::MarketDataMissing(s@),
            RebalancingError::InvalidInput(s) => ErrorView::InvalidInput(s@),
            RebalancingError::OptimizationError(s) => ErrorView::OptimizationError(s@),
            RebalancingError::PredictionError(s) => ErrorView::PredictionError(s@),
            RebalancingError::RiskModelError(s) => ErrorView::RiskModelError(s@),
            RebalancingError::ExternalServiceError(s) => ErrorView::ExternalServiceError(s@),
            RebalancingError::InternalError(s) => ErrorView::InternalError(s@),
        }
    }
}

impl Clone for RebalancingError {
    fn clone(&self) -> (r: Self)
        ensures
            r@ == self@,
    {
        match self {
            RebalancingError::MarketDataMissing(s) => RebalancingError::MarketDataMissing(s.clone()),
            RebalancingError::InvalidInput(s) => RebalancingError::InvalidInput(s.clone()),
            RebalancingError::OptimizationError(s) => RebalancingError::OptimizationError(s.clone()),
            RebalancingError::PredictionError(s) => RebalancingError::PredictionError(s.clone()),
            RebalancingError::RiskModelError(s) => RebalancingError::RiskModelError(s.clone()),
            RebalancingError::ExternalServiceError(s) => RebalancingError::ExternalServiceError(
                s.clone(),
            ),
            RebalancingError::InternalError(s) => RebalancingError::InternalError(s.clone()),
        }
    }
}

impl RebalancingError {
    /// The error as one line of text: what went wrong, then the detail.
    pub fn message(&self) -> (r: String)
        ensures
            r@ == self@.prefix() + self@.detail(),
    {
        match self {
            RebalancingError::MarketDataMissing(s) => String::from_str(
                "Market data not found for asset: ",
            ).concat(s.as_str()),
            RebalancingError::InvalidInput(s) => String::from_str("Invalid input: ").concat(
                s.as_str(),
            ),
            RebalancingError::OptimizationError(s) => String::from_str(
                "Optimization failed: ",
            ).concat(s.as_str()),
            RebalancingError::PredictionError(s) => String::from_str(
                "Failed to predict returns: ",
            ).concat(s.as_str()),
            RebalancingError::RiskModelError(s) => String::from_str(
                "Failed to calculate risk model: ",
            ).concat(s.as_str()),
            RebalancingError::ExternalServiceError(s) => String::from_str(
                "An external service call failed: ",
            ).concat(s.as_str()),
            RebalancingError::InternalError(s) => String::from_str(
                "An unexpected internal error occurred: ",
            ).concat(s.as_str()),
        }
    }
}

/// Whether an executable result carries what a specification result says.
pub open spec fn same_outcome<T>(r: Result<T, RebalancingError>, expected: Result<T, ErrorView>) -> bool {
    match (r, expected) {
        (Ok(a), Ok(b)) => a == b,
        (Err(e), Err(v)) => e@ == v,
        _ => false,
    }
}

} // verus!
