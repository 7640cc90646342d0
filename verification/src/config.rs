//! Window sizes and training parameters.
use vstd::prelude::*;

verus! {

/// Default history to load, in calendar days (about two years).
pub const DEFAULT_LOOKBACK_DAYS: u32 = 730;

/// Short rolling volatility window, in trading days (about one month).
pub const SHORT_VOL_WINDOW: usize = 21;

/// Long rolling volatility window, in trading days (about three months).
pub const LONG_VOL_WINDOW: usize = 63;

/// Time steps of history in one training sample.
pub const NN_LOOKBACK_DAYS: usize = 60;

/// Time steps ahead over which the target volatility is averaged.
pub const NN_FORWARD_DAYS: usize = 5;

/// Width of the model's hidden layer.
pub const NN_HIDDEN_SIZE: usize = 64;

/// Epochs of one training run.
pub const NN_EPOCHS: usize = 1000;

/// Samples in one mini-batch.
pub const NN_BATCH_SIZE: usize = 32;

/// Sector slots in a feature row. Rows are padded up to this many sectors,
/// and sectors beyond it have no column.
pub const SECTOR_SLOTS: usize = 11;

/// Width of a feature row: one volatility and one return per sector slot,
/// then average correlation, term spread, curve slope and benchmark
/// volatility.
pub const NUM_FEATURES: usize = 26;

} // verus!
