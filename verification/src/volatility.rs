//! Rolling volatility of one instrument: which windows of a series are
//! measured, and how series of different length are brought together. The
//! measures themselves are the caller's.
use vstd::prelude::*;
use vstd::slice::slice_subrange;
use crate::series::{
    accepts, pair_count, stat_of, tail_of, takes_windows, trailing, yields,
};

verus! {

/// Rolling volatility measures of one instrument. `short_window_vol` and
/// `parkinson_vol` are cut to the length of `long_window_vol` from the front,
/// so that all series end at the same observation.
#[derive(Debug, Clone)]
pub struct VolatilityMetrics<T> {
    pub symbol: String,
    /// Rolling volatility over the short window.
    pub short_window_vol: Vec<T>,
    /// Rolling volatility over the long window.
    pub long_window_vol: Vec<T>,
    /// Range-based volatility over the short window.
    pub parkinson_vol: Vec<T>,
    /// Short-window over long-window volatility.
    pub vol_ratio: Vec<T>,
}

/// How many windows of `window` items a series of `len` items has, where a
/// window shorter than `least` counts as none.
pub open spec fn window_count(len: int, window: int, least: int) -> int {
    if len < window || window < least {
        0
    } else {
        len - window + 1
    }
}

/// `out` holds, for every contiguous window of `window` items of `series`
/// in order, a value of `stat` on that window.
pub open spec fn rolled<T, F: Fn(&[T]) -> T>(
    stat: F,
    series: Seq<T>,
    window: int,
    least: int,
    out: Seq<T>,
) -> bool {
    &&& out.len() == window_count(series.len() as int, window, least)
    &&& forall|i: int|
        #![trigger out[i]]
        0 <= i < out.len() ==> stat_of(stat, series.subrange(i, i + window), out[i])
}

/// `stat` may be called on every contiguous window of `window` items of
/// `series`.
pub open spec fn rollable<T, F: Fn(&[T]) -> T>(stat: F, series: Seq<T>, window: int) -> bool {
    forall|i: int|
        0 <= i <= series.len() - window ==> #[trigger] accepts(
            stat,
            series.subrange(i, i + window),
        )
}

/// A function that takes every window of `window` items can be rolled over
/// any series.
pub proof fn lemma_windows_rollable<T, F: Fn(&[T]) -> T>(stat: F, series: Seq<T>, window: int)
    requires
        takes_windows(stat, window),
        0 <= window,
    ensures
        rollable(stat, series, window),
{
    assert forall|i: int| 0 <= i <= series.len() - window implies #[trigger] accepts(
        stat,
        series.subrange(i, i + window),
    ) by {
        assert(series.subrange(i, i + window).len() == window);
    }
}

/// `measure` may be called on the high and the low of every bar.
pub open spec fn measurable<T, G: Fn(T, T) -> T>(measure: G, highs: Seq<T>, lows: Seq<T>) -> bool {
    forall|i: int|
        0 <= i < highs.len() && i < lows.len() ==> call_requires(
            measure,
            (#[trigger] highs[i], lows[i]),
        )
}

/// Pair `i` of two series paired from their trailing ends.
pub open spec fn paired<T>(short_vol: Seq<T>, long_vol: Seq<T>, i: int) -> (T, T) {
    let n = pair_count(short_vol, long_vol);
    (tail_of(short_vol, n)[i], tail_of(long_vol, n)[i])
}

/// `ratio` may be called on every pair of the two series, paired from
/// their trailing ends.
pub open spec fn divisible<T, R: Fn(T, T) -> T>(ratio: R, short_vol: Seq<T>, long_vol: Seq<T>) -> bool {
    forall|i: int|
        0 <= i < pair_count(short_vol, long_vol) ==> call_requires(
            ratio,
            #[trigger] paired(short_vol, long_vol, i),
        )
}

/// `out` holds, bar by bar, a value of `measure` on the bar's high and low.
pub open spec fn bar_ranges<T, G: Fn(T, T) -> T>(
    measure: G,
    highs: Seq<T>,
    lows: Seq<T>,
    out: Seq<T>,
) -> bool {
    &&& out.len() == highs.len()
    &&& forall|i: int|
        #![trigger out[i]]
        0 <= i < out.len() ==> call_ensures(measure, (highs[i], lows[i]), out[i])
}

/// `out` is a range-based volatility series of the bars: empty when highs
/// and lows differ in length, when there are fewer bars than one window or
/// when the window is 0, else `range_vol` rolled over the per-bar values of
/// `measure`.
pub open spec fn range_rolled<T, G: Fn(T, T) -> T, F: Fn(&[T]) -> T>(
    measure: G,
    range_vol: F,
    highs: Seq<T>,
    lows: Seq<T>,
    window: int,
    out: Seq<T>,
) -> bool {
    if highs.len() != lows.len() || highs.len() < window || window < 1 {
        out.len() == 0
    } else {
        exists|ranges: Seq<T>|
            #[trigger] bar_ranges(measure, highs, lows, ranges) && rolled(
                range_vol,
                ranges,
                window,
                1,
                out,
            )
    }
}

/// `out` holds a value of `ratio` for each pair of the two series, paired
/// from their trailing ends over the length of the shorter one.
pub open spec fn ratios<T, R: Fn(T, T) -> T>(
    ratio: R,
    short_vol: Seq<T>,
    long_vol: Seq<T>,
    out: Seq<T>,
) -> bool {
    &&& out.len() == pair_count(short_vol, long_vol)
    &&& forall|i: int|
        #![trigger out[i]]
        0 <= i < out.len() ==> call_ensures(ratio, paired(short_vol, long_vol, i), out[i])
}

/// `m` holds the volatility measures of one sector: the long-window series
/// whole, the short-window and range-based series cut from the front to
/// its length, and the ratio of the uncut short series to the long one.
pub open spec fn sector_metrics<T, F: Fn(&[T]) -> T, G: Fn(T, T) -> T, P: Fn(&[T]) -> T, R: Fn(T, T) -> T>(
    deviation: F,
    measure: G,
    range_vol: P,
    ratio: R,
    symbol: Seq<char>,
    log_returns: Seq<T>,
    highs: Seq<T>,
    lows: Seq<T>,
    short_window: int,
    long_window: int,
    m: VolatilityMetrics<T>,
) -> bool {
    exists|short_vol: Seq<T>, park_vol: Seq<T>|
        #![trigger
            rolled(deviation, log_returns, short_window, 2, short_vol),
            range_rolled(measure, range_vol, highs, lows, short_window, park_vol),
        ]
        {
            &&& rolled(deviation, log_returns, short_window, 2, short_vol)
            &&& rolled(deviation, log_returns, long_window, 2, m.long_window_vol@)
            &&& range_rolled(measure, range_vol, highs, lows, short_window, park_vol)
            &&& ratios(ratio, short_vol, m.long_window_vol@, m.vol_ratio@)
            &&& m.symbol@ == symbol
            &&& m.short_window_vol@ == tail_of(short_vol, m.long_window_vol@.len() as int)
            &&& m.parkinson_vol@ == tail_of(park_vol, m.long_window_vol@.len() as int)
        }
}

/// What holds of every value that `stat` returns holds of every value of a
/// series rolled with it. So a deviation that is never negative gives a
/// rolling volatility that is never negative.
pub proof fn lemma_rolled_inherits<T, F: Fn(&[T]) -> T>(
    stat: F,
    series: Seq<T>,
    window: int,
    least: int,
    out: Seq<T>,
    holds: spec_fn(T) -> bool,
)
    requires
        rolled(stat, series, window, least, out),
        forall|w: &[T], value: T| #[trigger] call_ensures(stat, (w,), value) ==> holds(value),
    ensures
        forall|i: int| 0 <= i < out.len() ==> holds(#[trigger] out[i]),
{
    assert forall|i: int| 0 <= i < out.len() implies holds(#[trigger] out[i]) by {
        assert(stat_of(stat, series.subrange(i, i + window), out[i]));
    }
}

/// Where the short window is no longer than the long one and there is at
/// least one bar per return, all four series of the metrics have the same
/// length: that of the long-window series.
pub proof fn lemma_metrics_common_length<
    T,
    F: Fn(&[T]) -> T,
    G: Fn(T, T) -> T,
    P: Fn(&[T]) -> T,
    R: Fn(T, T) -> T,
>(
    deviation: F,
    measure: G,
    range_vol: P,
    ratio: R,
    symbol: Seq<char>,
    log_returns: Seq<T>,
    highs: Seq<T>,
    lows: Seq<T>,
    short_window: int,
    long_window: int,
    m: VolatilityMetrics<T>,
)
    requires
        sector_metrics(
            deviation,
            measure,
            range_vol,
            ratio,
            symbol,
            log_returns,
            highs,
            lows,
            short_window,
            long_window,
            m,
        ),
        2 <= short_window <= long_window,
        highs.len() == lows.len(),
        highs.len() >= log_returns.len(),
    ensures
        m.long_window_vol@.len() == window_count(log_returns.len() as int, long_window, 2),
        m.short_window_vol@.len() == m.long_window_vol@.len(),
        m.parkinson_vol@.len() == m.long_window_vol@.len(),
        m.vol_ratio@.len() == m.long_window_vol@.len(),
{
    let (short_vol, park_vol) = choose|short_vol: Seq<T>, park_vol: Seq<T>|
        {
            &&& rolled(deviation, log_returns, short_window, 2, short_vol)
            &&& rolled(deviation, log_returns, long_window, 2, m.long_window_vol@)
            &&& range_rolled(measure, range_vol, highs, lows, short_window, park_vol)
            &&& ratios(ratio, short_vol, m.long_window_vol@, m.vol_ratio@)
            &&& m.symbol@ == symbol
            &&& m.short_window_vol@ == tail_of(short_vol, m.long_window_vol@.len() as int)
            &&& m.parkinson_vol@ == tail_of(park_vol, m.long_window_vol@.len() as int)
        };
    if highs.len() >= short_window {
        let ranges = choose|ranges: Seq<T>|
            #[trigger] bar_ranges(measure, highs, lows, ranges) && rolled(
                range_vol,
                ranges,
                short_window,
                1,
                park_vol,
            );
        assert(park_vol.len() == highs.len() - short_window + 1);
    }
}

/// Applies `stat` to every contiguous window of `window` items, oldest
/// first. The result is empty when the series is shorter than one window or
/// the window is shorter than `least`.
pub(crate) fn roll<T, F: Fn(&[T]) -> T>(
    series: &[T],
    window: usize,
    least: usize,
    stat: &F,
) -> (out: Vec<T>)
    requires
        least >= 1,
        series@.len() >= window >= least ==> rollable(*stat, series@, window as int),
    ensures
        rolled(*stat, series@, window as int, least as int, out@),
{
    let mut out: Vec<T> = Vec::new();
    if series.len() < window || window < least {
        return out;
    }
    let count: usize = series.len() - window + 1;
    let mut i: usize = 0;
    while i < count
        invariant
            series.len() >= window >= least,
            count == series.len() - window + 1,
            i <= count,
            out@.len() == i,
            rollable(*stat, series@, window as int),
            forall|k: int|
                #![trigger out@[k]]
                0 <= k < i ==> stat_of(*stat, series@.subrange(k, k + window), out@[k]),
        decreases count - i,
    {
        let w = slice_subrange(series, i, i + window);
        assert(accepts(*stat, series@.subrange(i as int, i + window)));
        let v = stat(w);
        assert(stat_of(*stat, series@.subrange(i as int, i + window), v));
        out.push(v);
        i += 1;
    }
    out
}

/// Rolling historical volatility: `deviation` (the annualized sample
/// deviation) of every contiguous window of `window` returns, oldest first.
/// Fewer returns than one window, or a window below 2, give an empty series.
pub fn rolling_volatility<T, F: Fn(&[T]) -> T>(
    log_returns: &[T],
    window: usize,
    deviation: F,
) -> (out: Vec<T>)
    requires
        log_returns@.len() >= window >= 2 ==> rollable(deviation, log_returns@, window as int),
    ensures
        rolled(deviation, log_returns@, window as int, 2, out@),
        log_returns@.len() < window || window < 2 ==> out@.len() == 0,
        log_returns@.len() >= window >= 2 ==> out@.len() == log_returns@.len() - window + 1,
{
    roll(log_returns, window, 2, &deviation)
}

/// Range-based (high/low) volatility: `measure` turns each bar's high and
/// low into its squared log range, and `range_vol` turns every window of
/// `window` such values into an annualized volatility. Highs and lows of
/// different length, fewer bars than one window, or a window of 0 give an
/// empty series.
pub fn parkinson_volatility<T: Copy, G: Fn(T, T) -> T, F: Fn(&[T]) -> T>(
    highs: &[T],
    lows: &[T],
    window: usize,
    measure: G,
    range_vol: F,
) -> (out: Vec<T>)
    requires
        highs@.len() == lows@.len() && highs@.len() >= window >= 1 ==> measurable(
            measure,
            highs@,
            lows@,
        ) && takes_windows(range_vol, window as int),
    ensures
        range_rolled(measure, range_vol, highs@, lows@, window as int, out@),
        highs@.len() == lows@.len() && highs@.len() >= window >= 1 ==> out@.len() == highs@.len()
            - window + 1,
{
    if highs.len() != lows.len() || highs.len() < window || window < 1 {
        return Vec::new();
    }
    let mut ranges: Vec<T> = Vec::new();
    let mut i: usize = 0;
    while i < highs.len()
        invariant
            highs.len() == lows.len(),
            i <= highs.len(),
            ranges@.len() == i,
            measurable(measure, highs@, lows@),
            forall|k: int|
                #![trigger ranges@[k]]
                0 <= k < i ==> call_ensures(measure, (highs@[k], lows@[k]), ranges@[k]),
        decreases highs.len() - i,
    {
        let r = measure(highs[i], lows[i]);
        ranges.push(r);
        i += 1;
    }
    let out = roll(ranges.as_slice(), window, 1, &range_vol);
    assert(bar_ranges(measure, highs@, lows@, ranges@));
    out
}

/// Ratio of short-term to long-term volatility. The two series are paired
/// from their trailing ends over the length of the shorter one, and `ratio`
/// divides each pair (guarding a denominator near zero).
pub fn volatility_ratio<T: Copy, R: Fn(T, T) -> T>(
    short_vol: &[T],
    long_vol: &[T],
    ratio: R,
) -> (out: Vec<T>)
    requires
        divisible(ratio, short_vol@, long_vol@),
    ensures
        ratios(ratio, short_vol@, long_vol@, out@),
{
    let len = if short_vol.len() <= long_vol.len() {
        short_vol.len()
    } else {
        long_vol.len()
    };
    let s = trailing(short_vol, len);
    let l = trailing(long_vol, len);
    let mut out: Vec<T> = Vec::new();
    let mut i: usize = 0;
    assert forall|k: int| 0 <= k < len implies call_requires(ratio, (#[trigger] s@[k], l@[k])) by {
        assert(paired(short_vol@, long_vol@, k) == (s@[k], l@[k]));
    }
    while i < len
        invariant
            i <= len,
            s@.len() == len,
            l@.len() == len,
            out@.len() == i,
            forall|k: int| 0 <= k < len ==> call_requires(ratio, (#[trigger] s@[k], l@[k])),
            forall|k: int|
                #![trigger out@[k]]
                0 <= k < i ==> call_ensures(ratio, (s@[k], l@[k]), out@[k]),
        decreases len - i,
    {
        let r = ratio(s[i], l[i]);
        out.push(r);
        i += 1;
    }
    assert forall|k: int| 0 <= k < out@.len() implies call_ensures(
        ratio,
        paired(short_vol@, long_vol@, k),
        #[trigger] out@[k],
    ) by {
        assert(paired(short_vol@, long_vol@, k) == (s@[k], l@[k]));
    }
    out
}

/// Computes all volatility measures of one sector and cuts them to the
/// length of the long-window series, dropping leading items only.
pub fn compute_sector_volatility<T: Copy, F: Fn(&[T]) -> T, G: Fn(T, T) -> T, P: Fn(&[T]) -> T, R: Fn(T, T) -> T>(
    symbol: &str,
    log_returns: &[T],
    highs: &[T],
    lows: &[T],
    short_window: usize,
    long_window: usize,
    deviation: F,
    measure: G,
    range_vol: P,
    ratio: R,
) -> (out: VolatilityMetrics<T>)
    requires
        log_returns@.len() >= short_window >= 2 ==> rollable(
            deviation,
            log_returns@,
            short_window as int,
        ),
        log_returns@.len() >= long_window >= 2 ==> rollable(
            deviation,
            log_returns@,
            long_window as int,
        ),
        highs@.len() == lows@.len() && highs@.len() >= short_window >= 1 ==> measurable(
            measure,
            highs@,
            lows@,
        ) && takes_windows(range_vol, short_window as int),
        forall|s: T, l: T|
            yields(deviation, s) && yields(deviation, l) ==> #[trigger] call_requires(ratio, (s, l)),
    ensures
        sector_metrics(
            deviation,
            measure,
            range_vol,
            ratio,
            symbol@,
            log_returns@,
            highs@,
            lows@,
            short_window as int,
            long_window as int,
            out,
        ),
{
    let short_vol = roll(log_returns, short_window, 2, &deviation);
    let long_vol = roll(log_returns, long_window, 2, &deviation);
    let park_vol = parkinson_volatility(highs, lows, short_window, measure, range_vol);
    assert(divisible(ratio, short_vol@, long_vol@)) by {
        let n = pair_count(short_vol@, long_vol@);
        assert forall|i: int| 0 <= i < n implies call_requires(
            ratio,
            #[trigger] paired(short_vol@, long_vol@, i),
        ) by {
            let s = short_vol@[short_vol@.len() - n + i];
            let l = long_vol@[long_vol@.len() - n + i];
            assert(paired(short_vol@, long_vol@, i) == (s, l));
            assert(stat_of(
                deviation,
                log_returns@.subrange(
                    short_vol@.len() - n + i,
                    short_vol@.len() - n + i + short_window,
                ),
                s,
            ));
            assert(stat_of(
                deviation,
                log_returns@.subrange(
                    long_vol@.len() - n + i,
                    long_vol@.len() - n + i + long_window,
                ),
                l,
            ));
            assert(yields(deviation, s));
            assert(yields(deviation, l));
        }
    }
    let vol_rat = volatility_ratio(short_vol.as_slice(), long_vol.as_slice(), ratio);
    let n = long_vol.len();
    let short_cut = vstd::slice::slice_to_vec(trailing(short_vol.as_slice(), n));
    let park_cut = vstd::slice::slice_to_vec(trailing(park_vol.as_slice(), n));
    let out = VolatilityMetrics {
        symbol: symbol.to_owned(),
        short_window_vol: short_cut,
        long_window_vol: long_vol,
        parkinson_vol: park_cut,
        vol_ratio: vol_rat,
    };
    proof {
        let short_all = short_vol@;
        let park_all = park_vol@;
        assert(rolled(deviation, log_returns@, short_window as int, 2, short_all));
        assert(range_rolled(
            measure,
            range_vol,
            highs@,
            lows@,
            short_window as int,
            park_all,
        ));
        assert(out.short_window_vol@ == tail_of(short_all, out.long_window_vol@.len() as int));
        assert(out.parkinson_vol@ == tail_of(park_all, out.long_window_vol@.len() as int));
    }
    out
}

} // verus!
