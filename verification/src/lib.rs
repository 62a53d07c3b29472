//! Portfolio rebalancing: given the holdings of a portfolio, a target
//! allocation or an optimization objective, and a snapshot of market data,
//! the crate computes the ordered list of buy and sell orders that moves the
//! portfolio toward the desired state.
//!
//! # Numbers
//!
//! Amounts, prices, quantities and fractions are `Decimal`s: signed counts of
//! billionths. Sums are exact; products and quotients are rounded down to the
//! next billionth, once. Portfolio weights are `Weight`s, eighteen digits
//! fine, so that the rounding of a whole vector of them stays below a
//! billionth. No operation wraps: a number that cannot be stored is an error
//! of the function that met it.
//!
//! # Layout
//!
//! - `decimal`: the two number types and their arithmetic.
//! - `error`: the error type of the engine.
//! - `data_models`: portfolios, market snapshots, target allocations, orders
//!   and plans.
//! - `predictors`, `risk_models`: the models that the mean-variance strategy
//!   asks, and their stand-in implementations.
//! - `optimizers`: the mean-variance optimizer. The inverse of the covariance
//!   matrix is an input to it; what follows the inversion is done here.
//! - `strategies`, `threshold`, `mvo`: the strategy interface and the two
//!   strategies.
//! - `service`: validation, dispatch and the assembly of the plan.
//! - `stamps`: identifiers and timestamps, from the `uuid` and `chrono`
//!   crates.
//! - `market_data`, `config`: what the market-data providers and the settings
//!   of a service need that is pure computation.
//!
//! # What is proved
//!
//! Every function states what it returns, and when it fails, over
//! mathematical models of its arguments. Beyond that: a portfolio within the
//! threshold of its target gets no trades; the threshold strategy conserves
//! value within each class; optimal weights sum to one to within a
//! billionth; under equal variances and no covariance they are ordered as
//! the expected returns are; a singular covariance matrix is an optimization
//! error; every order of a plan is worth at least one unit and has a
//! quantity above zero.

pub mod config;
pub mod data_models;
pub mod decimal;
pub mod error;
pub mod market_data;
pub mod mvo;
pub mod optimizers;
pub mod predictors;
pub mod risk_models;
pub mod service;
pub mod stamps;
pub mod strategies;
pub mod threshold;
