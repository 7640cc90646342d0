//! Bars, instruments and what a pass of the analysis works on.
use vstd::prelude::*;
use crate::bond_spreads::{CalendarDate, TreasuryRate};

verus! {

/// One daily bar of an instrument.
#[derive(Debug, Clone)]
pub struct OhlcvBar<T> {
    pub date: CalendarDate,
    pub open: T,
    pub high: T,
    pub low: T,
    pub close: T,
    pub volume: u64,
}

/// The daily bars of one instrument, oldest first.
#[derive(Debug, Clone)]
pub struct SectorTimeSeries<T> {
    pub symbol: String,
    pub name: String,
    pub bars: Vec<OhlcvBar<T>>,
}

/// Everything one analysis pass works on: the sector instruments, the
/// yield curve observations and, where loaded, the market benchmark.
#[derive(Debug, Clone)]
pub struct MarketData<T> {
    pub sectors: Vec<SectorTimeSeries<T>>,
    pub treasury_rates: Vec<TreasuryRate<T>>,
    pub benchmark: Option<SectorTimeSeries<T>>,
}

/// `out` holds one return for each pair of consecutive bars: a value of
/// `log_return` on the earlier and the later close.
pub open spec fn returns_of<T, G: Fn(T, T) -> T>(
    log_return: G,
    bars: Seq<OhlcvBar<T>>,
    out: Seq<T>,
) -> bool {
    &&& out.len() == return_count(bars.len())
    &&& forall|i: int|
        #![trigger out[i]]
        0 <= i < out.len() ==> call_ensures(log_return, (bars[i].close, bars[i + 1].close), out[i])
}

/// `log_return` may be called on the closes of every pair of consecutive
/// bars.
pub open spec fn chainable<T, G: Fn(T, T) -> T>(log_return: G, bars: Seq<OhlcvBar<T>>) -> bool {
    forall|i: int|
        0 <= i < bars.len() - 1 ==> call_requires(
            log_return,
            ((#[trigger] bars[i]).close, bars[i + 1].close),
        )
}

/// A series of `bars` bars has one return fewer than bars, and none when it
/// is empty.
pub open spec fn return_count(bars: nat) -> nat {
    if bars == 0 {
        0
    } else {
        (bars - 1) as nat
    }
}

impl<T: Copy> SectorTimeSeries<T> {
    /// The log returns of the closing prices, oldest first: `log_return`
    /// is handed the earlier and the later close of each pair of
    /// consecutive bars.
    pub fn log_returns<G: Fn(T, T) -> T>(&self, log_return: &G) -> (out: Vec<T>)
        requires
            chainable(*log_return, self.bars@),
        ensures
            returns_of(*log_return, self.bars@, out@),
    {
        let mut out: Vec<T> = Vec::new();
        let n = self.bars.len();
        if n == 0 {
            return out;
        }
        let mut i: usize = 1;
        while i < n
            invariant
                n == self.bars@.len(),
                1 <= i <= n,
                out@.len() == i - 1,
                chainable(*log_return, self.bars@),
                forall|k: int|
                    #![trigger out@[k]]
                    0 <= k < out@.len() ==> call_ensures(
                        *log_return,
                        (self.bars@[k].close, self.bars@[k + 1].close),
                        out@[k],
                    ),
            decreases n - i,
        {
            assert(call_requires(
                *log_return,
                (self.bars@[i - 1].close, self.bars@[i - 1 + 1].close),
            ));
            let r = log_return(self.bars[i - 1].close, self.bars[i].close);
            out.push(r);
            i += 1;
        }
        out
    }
}

} // verus!
