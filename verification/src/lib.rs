//! Risk analytics for sector price series and the government yield curve,
//! and what turns them into training data for a volatility forecast.
//!
//! The library moves and lays out values; it does not compute with them.
//! Every series holds values of a type `T` that the caller picks, and
//! whatever is arithmetic on such values (a deviation, a logarithm, a
//! correlation coefficient, a mean) is handed in as a function. The
//! contracts say which values each of these functions is called on and
//! where its results end up.
//!
//! - `series`: cutting series to a common length at their trailing ends.
//! - `volatility`: rolling volatility measures of one instrument.
//! - `cross_sector`: the pairwise correlation matrix and its average.
//! - `bond_spreads`: term spread, curve slope, inversions, curve points.
//! - `market`: bars, instruments and their returns.
//! - `dataset`: the feature table and its sliding windows.
//! - `batch`: samples flattened for a tensor.
//! - `training`: the course of a training run, step by step.
//! - `cache`: when a cached file is still fresh.
//! - `config`: window sizes and training parameters.
use vstd::prelude::*;

pub mod batch;
pub mod bond_spreads;
pub mod cache;
pub mod config;
pub mod cross_sector;
pub mod dataset;
pub mod market;
pub mod series;
pub mod training;
pub mod volatility;
