//! Statistical operators over ordered numeric series: moving averages,
//! central moments, range volatility and covariance.
//!
//! The operators work on any sample type that brings the arithmetic of
//! `Scalar`, and say of each result by which operations it came about.
//! `Fixed` is a decimal sample type whose arithmetic is exact.

pub mod builders;
pub mod central_moment;
pub mod covariance;
pub mod errors;
pub mod fixed;
pub mod fixed_series;
pub mod moving_average;
pub mod scalar;
pub mod volatility;

pub use crate::builders::{
    Builder, History, HistoryBuilder, Stock, StockBuilder, YahooFinance, YahooFinanceBuilder,
};
pub use crate::central_moment::{mean, stddev, var, CentralMoment};
pub use crate::covariance::{covar, Covariance};
pub use crate::errors::Error;
pub use crate::fixed::Fixed;
pub use crate::moving_average::{ema, sma, MovingAverage};
pub use crate::scalar::Scalar;
pub use crate::volatility::{extremes, Level, Volatility};
