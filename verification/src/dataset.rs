//! The training dataset: the series of all sectors laid on one time axis,
//! and the axis cut into sliding windows of feature rows with a target
//! each.
use vstd::prelude::*;
use crate::bond_spreads::{compute_term_spreads, spreads_of, subtractable, BondSpread};
use crate::config::{LONG_VOL_WINDOW, NUM_FEATURES, SECTOR_SLOTS, SHORT_VOL_WINDOW};
use crate::cross_sector::{
    average_of, correlatable, correlates, correlation_grid, covers, grid_of,
    lemma_upper_triangle_len, mean_above_diagonal, takes_series_of, upper_triangle,
};
use crate::market::{chainable, return_count, returns_of, MarketData, SectorTimeSeries};
use crate::series::{
    accepts, align_trailing, least, lemma_shortest, lemma_shortest_is_least,
    lemma_shortest_of_equal, min_len, right_align, right_aligned, shortest, stat_of, tail_of,
    takes_windows,
};
use crate::volatility::{lemma_windows_rollable, roll, rollable, rolled};

verus! {

/// One training sample: a window of feature rows, oldest first, and the
/// volatility realized after the window.
#[derive(Debug, Clone)]
pub struct VolSample<T> {
    /// One row per time step, each `NUM_FEATURES` wide.
    pub features: Vec<Vec<T>>,
    /// Mean volatility over the forward horizon.
    pub target: T,
}

/// Training samples in order of time.
#[derive(Debug, Clone)]
pub struct VolDataset<T> {
    pub samples: Vec<VolSample<T>>,
}

/// The series that feature rows are read from, all on one time axis of
/// `len` steps that ends at the most recent observation. A series that
/// does not reach a step counts as zero there.
#[derive(Debug, Clone)]
pub struct FeatureTable<T> {
    /// Steps of the time axis.
    pub len: usize,
    /// Short-window volatility of each sector.
    pub sector_vols: Vec<Vec<T>>,
    /// Log returns of each sector.
    pub sector_returns: Vec<Vec<T>>,
    /// Average cross-sector correlation, one value for all steps.
    pub avg_correlation: T,
    /// Term spread (10Y - 2Y).
    pub spreads: Vec<T>,
    /// Curve slope (30Y - 3M).
    pub slopes: Vec<T>,
    /// Short-window volatility of the benchmark, where there is one.
    pub benchmark_vol: Option<Vec<T>>,
}

/// The item of `s` at step `t`, or `zero` where the series has none.
pub open spec fn at_or<T>(s: Seq<T>, t: int, zero: T) -> T {
    if 0 <= t < s.len() {
        s[t]
    } else {
        zero
    }
}

/// The value in sector slot `slot` at step `t`: that of the slot's series,
/// or `zero` where no sector fills the slot.
pub open spec fn slot_of<T>(sectors: Seq<Vec<T>>, slot: int, t: int, zero: T) -> T {
    if 0 <= slot < sectors.len() {
        at_or(sectors[slot]@, t, zero)
    } else {
        zero
    }
}

/// Column `column` of the feature row of step `t`: columns 0 to 10 hold
/// the sector volatilities, 11 to 21 the sector returns in the same order,
/// 22 the average cross-sector correlation, 23 the term spread, 24 the
/// curve slope and 25 the benchmark volatility.
pub open spec fn feature<T>(table: FeatureTable<T>, t: int, column: int, zero: T) -> T {
    if column < 11 {
        slot_of(table.sector_vols@, column, t, zero)
    } else if column < 22 {
        slot_of(table.sector_returns@, column - 11, t, zero)
    } else if column == 22 {
        table.avg_correlation
    } else if column == 23 {
        at_or(table.spreads@, t, zero)
    } else if column == 24 {
        at_or(table.slopes@, t, zero)
    } else {
        match table.benchmark_vol {
            Some(b) => at_or(b@, t, zero),
            None => zero,
        }
    }
}

/// The feature row of step `t`.
pub open spec fn row_of<T>(table: FeatureTable<T>, t: int, zero: T) -> Seq<T> {
    Seq::new(26, |column: int| feature(table, t, column, zero))
}

/// The items of `s` at the steps from `from` up to, not including, `to`,
/// as far as the series has them.
pub open spec fn span<T>(s: Seq<T>, from: int, to: int) -> Seq<T> {
    let lo = if from < s.len() {
        from
    } else {
        s.len() as int
    };
    let hi = if to < s.len() {
        to
    } else {
        s.len() as int
    };
    if 0 <= lo <= hi {
        s.subrange(lo, hi)
    } else {
        Seq::empty()
    }
}

/// The values of the first `sectors` series over the steps from `from` to
/// `to`, one series after the other.
pub open spec fn forward_values<T>(vols: Seq<Vec<T>>, sectors: int, from: int, to: int) -> Seq<T>
    decreases sectors,
{
    if sectors <= 0 {
        Seq::empty()
    } else {
        forward_values(vols, sectors - 1, from, to) + span(vols[sectors - 1]@, from, to)
    }
}

/// Where the forward horizon of a window that ends before step `end`
/// stops: `forward` steps on, or at the end of the table.
pub open spec fn horizon_end(len: int, end: int, forward: int) -> int {
    if end + forward < len {
        end + forward
    } else {
        len
    }
}

/// `out` is the target of a window that ends before step `end`: a value of
/// `mean` on every sector's volatility over the forward horizon, or `zero`
/// where the horizon holds no value.
pub open spec fn target_of<T, M: Fn(&[T]) -> T>(
    mean: M,
    table: FeatureTable<T>,
    end: int,
    forward: int,
    zero: T,
    out: T,
) -> bool {
    let values = target_values(table, end, forward);
    if values.len() == 0 {
        out == zero
    } else {
        stat_of(mean, values, out)
    }
}

/// The values that the target of a window ending before step `end` is
/// taken over: every sector's volatility over the forward horizon.
pub open spec fn target_values<T>(table: FeatureTable<T>, end: int, forward: int) -> Seq<T> {
    forward_values(
        table.sector_vols@,
        table.sector_vols@.len() as int,
        end,
        horizon_end(table.len as int, end, forward),
    )
}

/// `mean` may be called for the target of a window ending before step
/// `end`, if the target is taken over any value at all.
pub open spec fn targetable<T, M: Fn(&[T]) -> T>(
    mean: M,
    table: FeatureTable<T>,
    end: int,
    forward: int,
) -> bool {
    target_values(table, end, forward).len() > 0 ==> accepts(
        mean,
        target_values(table, end, forward),
    )
}

/// How many windows of `lookback` steps a table of `len` steps has when
/// each must be followed by `forward` more steps.
pub open spec fn sample_count(len: int, lookback: int, forward: int) -> int {
    if len - forward > lookback && len >= forward {
        len - forward - lookback
    } else {
        0
    }
}

/// `sample` is the sample of the window that starts at step `start`: the
/// rows of steps `start` to `start + lookback - 1`, and the target over the
/// steps that follow.
pub open spec fn sample_at<T, M: Fn(&[T]) -> T>(
    mean: M,
    table: FeatureTable<T>,
    start: int,
    lookback: int,
    forward: int,
    zero: T,
    sample: VolSample<T>,
) -> bool {
    &&& sample.features@.len() == lookback
    &&& forall|k: int|
        #![trigger sample.features@[k]]
        0 <= k < lookback ==> sample.features@[k]@ == row_of(table, start + k, zero)
    &&& target_of(mean, table, start + lookback, forward, zero, sample.target)
}

/// `out` holds the samples of all windows of the table, oldest first.
pub open spec fn windows_of<T, M: Fn(&[T]) -> T>(
    mean: M,
    table: FeatureTable<T>,
    lookback: int,
    forward: int,
    zero: T,
    out: VolDataset<T>,
) -> bool {
    &&& out.samples@.len() == sample_count(table.len as int, lookback, forward)
    &&& forall|s: int|
        #![trigger out.samples@[s]]
        0 <= s < out.samples@.len() ==> sample_at(
            mean,
            table,
            s,
            lookback,
            forward,
            zero,
            out.samples@[s],
        )
}

fn value_at<T: Copy>(series: &Vec<T>, t: usize, zero: T) -> (out: T)
    ensures
        out == at_or(series@, t as int, zero),
{
    if t < series.len() {
        series[t]
    } else {
        zero
    }
}

fn slot_value<T: Copy>(sectors: &Vec<Vec<T>>, slot: usize, t: usize, zero: T) -> (out: T)
    ensures
        out == slot_of(sectors@, slot as int, t as int, zero),
{
    if slot < sectors.len() {
        value_at(&sectors[slot], t, zero)
    } else {
        zero
    }
}

/// The feature row of step `t`: `NUM_FEATURES` values in the fixed column
/// order. Sector slots that no sector fills, and series that do not reach
/// step `t`, give `zero`.
pub fn feature_row<T: Copy>(table: &FeatureTable<T>, t: usize, zero: T) -> (out: Vec<T>)
    ensures
        out@ == row_of(*table, t as int, zero),
        out@.len() == NUM_FEATURES,
{
    let mut row: Vec<T> = Vec::new();
    let mut slot: usize = 0;
    while slot < SECTOR_SLOTS
        invariant
            slot <= SECTOR_SLOTS,
            row@.len() == slot,
            forall|c: int| 0 <= c < slot ==> row@[c] == feature(*table, t as int, c, zero),
        decreases SECTOR_SLOTS - slot,
    {
        row.push(slot_value(&table.sector_vols, slot, t, zero));
        slot += 1;
    }
    let mut slot: usize = 0;
    while slot < SECTOR_SLOTS
        invariant
            slot <= SECTOR_SLOTS,
            row@.len() == SECTOR_SLOTS + slot,
            forall|c: int|
                0 <= c < SECTOR_SLOTS + slot ==> row@[c] == feature(*table, t as int, c, zero),
        decreases SECTOR_SLOTS - slot,
    {
        row.push(slot_value(&table.sector_returns, slot, t, zero));
        slot += 1;
    }
    row.push(table.avg_correlation);
    row.push(value_at(&table.spreads, t, zero));
    row.push(value_at(&table.slopes, t, zero));
    let bench = match &table.benchmark_vol {
        Some(b) => value_at(b, t, zero),
        None => zero,
    };
    row.push(bench);
    assert(row@ =~= row_of(*table, t as int, zero));
    row
}

/// The target of a window that ends before step `end`: `mean` of every
/// sector's volatility over the next `forward` steps, as far as the table
/// reaches, and `zero` where there is no such value.
pub fn forward_target<T: Copy, M: Fn(&[T]) -> T>(
    table: &FeatureTable<T>,
    end: usize,
    forward: usize,
    zero: T,
    mean: &M,
) -> (out: T)
    requires
        targetable(*mean, *table, end as int, forward as int),
    ensures
        target_of(*mean, *table, end as int, forward as int, zero, out),
{
    let stop: usize = if forward < table.len && end < table.len - forward {
        end + forward
    } else {
        table.len
    };
    let mut values: Vec<T> = Vec::new();
    let mut s: usize = 0;
    while s < table.sector_vols.len()
        invariant
            s <= table.sector_vols@.len(),
            stop == horizon_end(table.len as int, end as int, forward as int),
            values@ == forward_values(table.sector_vols@, s as int, end as int, stop as int),
        decreases table.sector_vols@.len() - s,
    {
        let series = &table.sector_vols[s];
        let ghost before = values@;
        let lo: usize = if end < series.len() {
            end
        } else {
            series.len()
        };
        let reach: usize = if stop < series.len() {
            stop
        } else {
            series.len()
        };
        let hi: usize = if reach < lo {
            lo
        } else {
            reach
        };
        let mut t: usize = lo;
        while t < hi
            invariant
                lo <= t <= hi <= series@.len(),
                values@ == before + series@.subrange(lo as int, t as int),
            decreases hi - t,
        {
            values.push(series[t]);
            assert(series@.subrange(lo as int, t + 1) == series@.subrange(lo as int, t as int).push(
                series@[t as int],
            ));
            t += 1;
        }
        proof {
            if reach < lo {
                assert(series@.subrange(lo as int, lo as int) == Seq::<T>::empty());
            }
            assert(values@ == before + span(series@, end as int, stop as int));
        }
        s += 1;
    }
    if values.len() == 0 {
        zero
    } else {
        mean(values.as_slice())
    }
}

/// Cuts the table into sliding windows, oldest first. Window `s` holds the
/// rows of steps `s` to `s + lookback - 1`; its target is taken over the
/// `forward` steps after them. A table too short for one window and its
/// horizon gives an empty dataset.
pub fn window_samples<T: Copy, M: Fn(&[T]) -> T>(
    table: &FeatureTable<T>,
    lookback: usize,
    forward: usize,
    zero: T,
    mean: &M,
) -> (out: VolDataset<T>)
    requires
        forall|s: int|
            0 <= s < sample_count(table.len as int, lookback as int, forward as int)
                ==> #[trigger] targetable(*mean, *table, s + lookback, forward as int),
    ensures
        windows_of(*mean, *table, lookback as int, forward as int, zero, out),
{
    let mut samples: Vec<VolSample<T>> = Vec::new();
    let effective: usize = if forward <= table.len {
        table.len - forward
    } else {
        0
    };
    if effective <= lookback {
        return VolDataset { samples };
    }
    let count: usize = effective - lookback;
    let mut start: usize = 0;
    while start < count
        invariant
            start <= count,
            count == sample_count(table.len as int, lookback as int, forward as int),
            count + lookback + forward == table.len,
            forall|s: int|
                0 <= s < count ==> #[trigger] targetable(
                    *mean,
                    *table,
                    s + lookback,
                    forward as int,
                ),
            samples@.len() == start,
            forall|s: int|
                #![trigger samples@[s]]
                0 <= s < start ==> sample_at(
                    *mean,
                    *table,
                    s,
                    lookback as int,
                    forward as int,
                    zero,
                    samples@[s],
                ),
        decreases count - start,
    {
        let mut rows: Vec<Vec<T>> = Vec::new();
        let mut k: usize = 0;
        while k < lookback
            invariant
                k <= lookback,
                start + lookback < usize::MAX,
                rows@.len() == k,
                forall|j: int|
                    #![trigger rows@[j]]
                    0 <= j < k ==> rows@[j]@ == row_of(*table, start + j, zero),
            decreases lookback - k,
        {
            rows.push(feature_row(table, start + k, zero));
            k += 1;
        }
        assert(targetable(*mean, *table, start + lookback, forward as int));
        let target = forward_target(table, start + lookback, forward, zero, mean);
        samples.push(VolSample { features: rows, target });
        start += 1;
    }
    VolDataset { samples }
}

/// The term spreads of the entries, in their order.
pub open spec fn spread_values<T>(bond: Seq<BondSpread<T>>) -> Seq<T> {
    Seq::new(bond.len(), |i: int| bond[i].spread_10y_2y)
}

/// The curve slopes of the entries, in their order.
pub open spec fn slope_values<T>(bond: Seq<BondSpread<T>>) -> Seq<T> {
    Seq::new(bond.len(), |i: int| bond[i].curve_slope)
}

/// The return histories are too short for one window of `lookback` steps,
/// its horizon of `forward` steps and the long volatility window.
pub open spec fn too_short(shortest: int, lookback: int, forward: int) -> bool {
    shortest < lookback + forward + LONG_VOL_WINDOW
}

/// The steps of the common time axis when the shortest return history has
/// `shortest` items: one per short volatility window.
pub open spec fn axis_len(shortest: int) -> int {
    shortest - SHORT_VOL_WINDOW + 1
}

/// `v` is the benchmark volatility on an axis of `len` steps: `deviation`
/// rolled over the benchmark's returns and laid on the axis from its end,
/// with `zero` for the steps that the benchmark's history does not reach.
pub open spec fn benchmark_of<T, F: Fn(&[T]) -> T>(
    deviation: F,
    benchmark: Seq<T>,
    len: int,
    zero: T,
    v: Seq<T>,
) -> bool {
    exists|full: Seq<T>|
        #[trigger] rolled(deviation, benchmark, SHORT_VOL_WINDOW as int, 2, full) && v
            == right_aligned(full, len, zero)
}

/// `avg` is the average cross-sector correlation of the histories.
pub open spec fn correlation_average<T, C: Fn(&[T], &[T]) -> T, M: Fn(&[T]) -> T>(
    correlate: C,
    mean: M,
    histories: Seq<Vec<T>>,
    zero: T,
    one: T,
    avg: T,
) -> bool {
    exists|grid: Seq<Vec<T>>|
        #[trigger] grid_of(correlate, histories.len() as int, histories, zero, one, grid)
            && average_of(mean, grid, histories.len() as int, zero, avg)
}

/// `table` is the feature table of the return histories, the spread
/// entries and the benchmark's returns, all oldest first. Its axis has one
/// step per short volatility window of the shortest history and ends at
/// the most recent observation of every series. Volatilities are
/// `deviation` rolled over each history cut to the shortest; returns are
/// each history cut to the axis; the correlation is one value for the
/// whole table; spreads, slopes and benchmark volatility are laid on the
/// axis from their ends, with `zero` for the steps they do not reach.
pub open spec fn table_of<T, F: Fn(&[T]) -> T, C: Fn(&[T], &[T]) -> T, M: Fn(&[T]) -> T>(
    deviation: F,
    correlate: C,
    mean: M,
    histories: Seq<Vec<T>>,
    bond: Seq<BondSpread<T>>,
    benchmark: Option<Seq<T>>,
    zero: T,
    one: T,
    table: FeatureTable<T>,
) -> bool {
    let m = shortest(histories) as int;
    let len = axis_len(m);
    &&& table.len == len
    &&& table.sector_vols@.len() == histories.len()
    &&& table.sector_returns@.len() == histories.len()
    &&& forall|s: int|
        #![trigger table.sector_vols@[s]]
        0 <= s < histories.len() ==> rolled(
            deviation,
            tail_of(histories[s]@, m),
            SHORT_VOL_WINDOW as int,
            2,
            table.sector_vols@[s]@,
        )
    &&& forall|s: int|
        #![trigger table.sector_returns@[s]]
        0 <= s < histories.len() ==> table.sector_returns@[s]@ == tail_of(histories[s]@, len)
    &&& correlation_average(correlate, mean, histories, zero, one, table.avg_correlation)
    &&& table.spreads@ == right_aligned(spread_values(bond), len, zero)
    &&& table.slopes@ == right_aligned(slope_values(bond), len, zero)
    &&& match benchmark {
        None => table.benchmark_vol is None,
        Some(b) => table.benchmark_vol is Some && benchmark_of(
            deviation,
            b,
            len,
            zero,
            table.benchmark_vol->0@,
        ),
    }
}

/// The items of a series that may be missing.
pub open spec fn items_of<T>(series: Option<Vec<T>>) -> Option<Seq<T>> {
    match series {
        Some(s) => Some(s@),
        None => None,
    }
}

/// There is a history, and the shortest one is long enough for one window,
/// its horizon and the long volatility window.
pub open spec fn enough_history<T>(histories: Seq<Vec<T>>, lookback: int, forward: int) -> bool {
    histories.len() > 0 && !too_short(shortest(histories) as int, lookback, forward)
}

/// The number of entries above the diagonal of a table of `n` rows.
pub open spec fn triangle_size(n: int) -> int {
    n * (n - 1) / 2
}

/// The functions may be called on what `engineer_features` hands them, as
/// far as the histories suffice for a table at all: `deviation` on every
/// short window of each history cut to the shortest and of the benchmark,
/// `correlate` on every pair of the cut histories, and `mean` on as many
/// values as a table of that many sectors has above its diagonal.
pub open spec fn engineerable<T, F: Fn(&[T]) -> T, C: Fn(&[T], &[T]) -> T, M: Fn(&[T]) -> T>(
    deviation: F,
    correlate: C,
    mean: M,
    histories: Seq<Vec<T>>,
    benchmark: Option<Seq<T>>,
    lookback: int,
    forward: int,
) -> bool {
    enough_history(histories, lookback, forward) ==> {
        &&& forall|s: int|
            0 <= s < histories.len() ==> #[trigger] rollable(
                deviation,
                tail_of(histories[s]@, shortest(histories) as int),
                SHORT_VOL_WINDOW as int,
            )
        &&& benchmark is Some && benchmark->0.len() >= SHORT_VOL_WINDOW ==> rollable(
            deviation,
            benchmark->0,
            SHORT_VOL_WINDOW as int,
        )
        &&& correlatable(correlate, histories.len() as int, histories)
        &&& histories.len() >= 2 ==> takes_windows(mean, triangle_size(histories.len() as int))
    }
}

/// The values of the first `sectors` series over steps that all of them
/// reach are as many as there are series times steps.
pub proof fn lemma_forward_values_len<T>(
    vols: Seq<Vec<T>>,
    sectors: int,
    from: int,
    to: int,
    len: int,
)
    requires
        0 <= sectors <= vols.len(),
        forall|i: int| 0 <= i < sectors ==> (#[trigger] vols[i])@.len() == len,
        0 <= from <= to <= len,
    ensures
        forward_values(vols, sectors, from, to).len() == sectors * (to - from),
    decreases sectors,
{
    if sectors > 0 {
        lemma_forward_values_len(vols, sectors - 1, from, to, len);
        assert(span(vols[sectors - 1]@, from, to).len() == to - from);
        assert((sectors - 1) * (to - from) + (to - from) == sectors * (to - from))
            by (nonlinear_arith);
    } else {
        assert(sectors * (to - from) == 0) by (nonlinear_arith)
            requires
                sectors == 0,
        ;
    }
}

/// Builds the feature table. Returns `None` when there is no history or
/// the shortest history has fewer than `lookback + forward +
/// LONG_VOL_WINDOW` returns. All series come oldest first; `benchmark`
/// holds the benchmark's returns.
pub fn engineer_features<T: Copy, F: Fn(&[T]) -> T, C: Fn(&[T], &[T]) -> T, M: Fn(&[T]) -> T>(
    histories: &[Vec<T>],
    bond_spreads: &[BondSpread<T>],
    benchmark: Option<&Vec<T>>,
    lookback: usize,
    forward: usize,
    zero: T,
    one: T,
    deviation: &F,
    correlate: &C,
    mean: &M,
) -> (out: Option<FeatureTable<T>>)
    requires
        engineerable(
            *deviation,
            *correlate,
            *mean,
            histories@,
            match benchmark {
                Some(b) => Some(b@),
                None => None,
            },
            lookback as int,
            forward as int,
        ),
    ensures
        out is None <==> histories@.len() == 0 || too_short(
            shortest(histories@) as int,
            lookback as int,
            forward as int,
        ),
        out matches Some(table) ==> table_of(
            *deviation,
            *correlate,
            *mean,
            histories@,
            bond_spreads@,
            match benchmark {
                Some(b) => Some(b@),
                None => None,
            },
            zero,
            one,
            table,
        ),
{
    let n = histories.len();
    if n == 0 {
        return None;
    }
    let m = min_len(histories);
    let window = match lookback.checked_add(forward) {
        Some(w) => w,
        None => {
            return None;
        },
    };
    let needed = match window.checked_add(LONG_VOL_WINDOW) {
        Some(w) => w,
        None => {
            return None;
        },
    };
    if m < needed {
        return None;
    }
    proof {
        lemma_shortest(histories@);
    }
    let aligned = align_trailing(histories, m);
    proof {
        lemma_shortest_of_equal(aligned@, m as nat);
    }
    let mut vols: Vec<Vec<T>> = Vec::new();
    let mut s: usize = 0;
    while s < n
        invariant
            s <= n,
            n == aligned@.len(),
            n == histories@.len(),
            m >= SHORT_VOL_WINDOW,
            forall|i: int|
                0 <= i < n ==> #[trigger] rollable(
                    *deviation,
                    tail_of(histories@[i]@, m as int),
                    SHORT_VOL_WINDOW as int,
                ),
            forall|i: int| 0 <= i < n ==> (#[trigger] aligned@[i])@ == tail_of(histories@[i]@, m as int),
            forall|i: int| 0 <= i < n ==> (#[trigger] aligned@[i])@.len() == m,
            vols@.len() == s,
            forall|i: int|
                #![trigger vols@[i]]
                0 <= i < s ==> rolled(
                    *deviation,
                    tail_of(histories@[i]@, m as int),
                    SHORT_VOL_WINDOW as int,
                    2,
                    vols@[i]@,
                ),
        decreases n - s,
    {
        assert(rollable(*deviation, tail_of(histories@[s as int]@, m as int), SHORT_VOL_WINDOW as int));
        let v = roll(aligned[s].as_slice(), SHORT_VOL_WINDOW, 2, deviation);
        vols.push(v);
        s += 1;
    }
    let vol_len = min_len(vols.as_slice());
    proof {
        assert forall|i: int| 0 <= i < vols@.len() implies (#[trigger] vols@[i])@.len() == axis_len(
            m as int,
        ) by {
            assert(rolled(
                *deviation,
                tail_of(histories@[i]@, m as int),
                SHORT_VOL_WINDOW as int,
                2,
                vols@[i]@,
            ));
        }
        lemma_shortest_of_equal(vols@, axis_len(m as int) as nat);
    }
    if vol_len < window {
        return None;
    }
    assert(correlatable(*correlate, n as int, aligned@)) by {
        assert forall|i: int, j: int| 0 <= i < j < n implies #[trigger] correlates(
            *correlate,
            tail_of(aligned@[i]@, m as int),
            tail_of(aligned@[j]@, m as int),
        ) by {
            assert(tail_of(aligned@[i]@, m as int) == tail_of(histories@[i]@, m as int));
            assert(tail_of(aligned@[j]@, m as int) == tail_of(histories@[j]@, m as int));
            assert(correlates(
                *correlate,
                tail_of(histories@[i]@, m as int),
                tail_of(histories@[j]@, m as int),
            ));
        }
    }
    let grid = correlation_grid(n, aligned.as_slice(), zero, one, correlate);
    proof {
        if n >= 2 {
            assert(covers(grid@, n as int));
            lemma_upper_triangle_len(grid@, n as int);
            assert(upper_triangle(grid@, n as int).len() == triangle_size(n as int));
        }
    }
    let avg = mean_above_diagonal(&grid, n, zero, mean);
    proof {
        assert(grid_of(*correlate, n as int, histories@, zero, one, grid@)) by {
            assert forall|i: int, j: int| 0 <= i < j < n implies crate::cross_sector::corr_of(
                *correlate,
                tail_of(histories@[i]@, m as int),
                tail_of(histories@[j]@, m as int),
                #[trigger] grid@[i]@[j],
            ) by {
                assert(grid@[j]@[i] == grid@[i]@[j]);
                assert(tail_of(aligned@[i]@, m as int) == aligned@[i]@);
                assert(tail_of(aligned@[j]@, m as int) == aligned@[j]@);
            }
        }
        assert(correlation_average(*correlate, *mean, histories@, zero, one, avg));
    }
    let rets = align_trailing(aligned.as_slice(), vol_len);
    proof {
        assert forall|i: int| 0 <= i < n implies (#[trigger] rets@[i])@ == tail_of(
            histories@[i]@,
            vol_len as int,
        ) by {
            assert(aligned@[i]@ == tail_of(histories@[i]@, m as int));
            assert(rets@[i]@ =~= tail_of(histories@[i]@, vol_len as int));
        }
    }
    let bench = match benchmark {
        Some(b) => {
            let full = roll(b.as_slice(), SHORT_VOL_WINDOW, 2, deviation);
            let cut = right_align(full.as_slice(), vol_len, zero);
            assert(benchmark_of(*deviation, b@, vol_len as int, zero, cut@));
            Some(cut)
        },
        None => None,
    };
    let mut spread_list: Vec<T> = Vec::new();
    let mut slope_list: Vec<T> = Vec::new();
    let mut i: usize = 0;
    while i < bond_spreads.len()
        invariant
            i <= bond_spreads@.len(),
            spread_list@ == spread_values(bond_spreads@.take(i as int)),
            slope_list@ == slope_values(bond_spreads@.take(i as int)),
        decreases bond_spreads@.len() - i,
    {
        spread_list.push(bond_spreads[i].spread_10y_2y);
        slope_list.push(bond_spreads[i].curve_slope);
        assert(spread_list@ =~= spread_values(bond_spreads@.take(i + 1)));
        assert(slope_list@ =~= slope_values(bond_spreads@.take(i + 1)));
        i += 1;
    }
    assert(bond_spreads@.take(bond_spreads@.len() as int) == bond_spreads@);
    let spreads = right_align(spread_list.as_slice(), vol_len, zero);
    let slopes = right_align(slope_list.as_slice(), vol_len, zero);
    Some(
        FeatureTable {
            len: vol_len,
            sector_vols: vols,
            sector_returns: rets,
            avg_correlation: avg,
            spreads,
            slopes,
            benchmark_vol: bench,
        },
    )
}

/// The number of returns of each sector's history.
pub open spec fn history_lens<T>(sectors: Seq<SectorTimeSeries<T>>) -> Seq<nat> {
    Seq::new(sectors.len(), |s: int| return_count(sectors[s].bars@.len()))
}

/// The number of samples that `build_dataset` makes of the data: none
/// without sectors or with too short a history, else one per window of the
/// common time axis.
pub open spec fn dataset_len<T>(data: MarketData<T>, lookback: int, forward: int) -> int {
    let m = least(history_lens(data.sectors@)) as int;
    if data.sectors@.len() == 0 || too_short(m, lookback, forward) {
        0
    } else {
        sample_count(axis_len(m), lookback, forward)
    }
}

/// A dataset is empty exactly when there is no sector or the shortest
/// history is too short: enough history for one window, its horizon and
/// the long volatility window always leaves room for samples.
pub proof fn lemma_dataset_empty_iff<T>(data: MarketData<T>, lookback: int, forward: int)
    requires
        0 <= lookback,
        0 <= forward,
    ensures
        dataset_len(data, lookback, forward) == 0 <==> data.sectors@.len() == 0 || too_short(
            least(history_lens(data.sectors@)) as int,
            lookback,
            forward,
        ),
{
}

/// `out` is the dataset of the market data: there are return histories of
/// the sectors and of the benchmark, spread entries of the curve
/// observations and a feature table of all these, such that `out` holds
/// the windows of that table.
pub open spec fn dataset_of<
    T,
    G: Fn(T, T) -> T,
    F: Fn(&[T]) -> T,
    D: Fn(T, T) -> T,
    C: Fn(&[T], &[T]) -> T,
    M: Fn(&[T]) -> T,
>(
    log_return: G,
    deviation: F,
    difference: D,
    correlate: C,
    mean: M,
    data: MarketData<T>,
    lookback: int,
    forward: int,
    zero: T,
    one: T,
    out: VolDataset<T>,
) -> bool {
    exists|
        histories: Seq<Vec<T>>,
        bond: Seq<BondSpread<T>>,
        bench: Option<Seq<T>>,
        table: FeatureTable<T>,
    |
        #![trigger table_of(deviation, correlate, mean, histories, bond, bench, zero, one, table)]
        {
            &&& histories.len() == data.sectors@.len()
            &&& forall|s: int|
                #![trigger histories[s]]
                0 <= s < histories.len() ==> returns_of(
                    log_return,
                    data.sectors@[s].bars@,
                    histories[s]@,
                )
            &&& spreads_of(difference, data.treasury_rates@, bond)
            &&& match data.benchmark {
                None => bench is None,
                Some(b) => bench is Some && returns_of(log_return, b.bars@, bench->0),
            }
            &&& table_of(deviation, correlate, mean, histories, bond, bench, zero, one, table)
            &&& windows_of(mean, table, lookback, forward, zero, out)
        }
}

/// Every sample has `lookback` rows, and every row is `NUM_FEATURES` wide.
pub open spec fn uniform<T>(dataset: VolDataset<T>, lookback: int) -> bool {
    forall|s: int, k: int|
        0 <= s < dataset.samples@.len() && 0 <= k < lookback ==> {
            &&& dataset.samples@[s].features@.len() == lookback
            &&& (#[trigger] dataset.samples@[s].features@[k])@.len() == NUM_FEATURES
        }
}

/// The windows of a table all have the same shape.
pub proof fn lemma_windows_uniform<T, M: Fn(&[T]) -> T>(
    mean: M,
    table: FeatureTable<T>,
    lookback: int,
    forward: int,
    zero: T,
    out: VolDataset<T>,
)
    requires
        windows_of(mean, table, lookback, forward, zero, out),
    ensures
        uniform(out, lookback),
{
    assert forall|s: int, k: int|
        0 <= s < out.samples@.len() && 0 <= k < lookback implies {
        &&& out.samples@[s].features@.len() == lookback
        &&& (#[trigger] out.samples@[s].features@[k])@.len() == NUM_FEATURES
    } by {
        assert(sample_at(mean, table, s, lookback, forward, zero, out.samples@[s]));
        assert(out.samples@[s].features@[k]@ == row_of(table, s + k, zero));
    }
}

/// The functions may be called on what `build_dataset` hands them:
/// `log_return` on the closes of consecutive bars of every sector; and,
/// where the history suffices for a dataset, `log_return` on the bars of
/// the benchmark, `difference` on the rates of every curve observation,
/// `deviation` on windows of `SHORT_VOL_WINDOW` values, `correlate` on
/// pairs of series as long as the shortest history, and `mean` on as many
/// values as the correlation table has above its diagonal and as a target
/// is taken over (one per sector and step of the horizon).
pub open spec fn buildable<
    T,
    G: Fn(T, T) -> T,
    F: Fn(&[T]) -> T,
    D: Fn(T, T) -> T,
    C: Fn(&[T], &[T]) -> T,
    M: Fn(&[T]) -> T,
>(
    log_return: G,
    deviation: F,
    difference: D,
    correlate: C,
    mean: M,
    data: MarketData<T>,
    lookback: int,
    forward: int,
) -> bool {
    let n = data.sectors@.len() as int;
    &&& forall|s: int| 0 <= s < n ==> chainable(log_return, (#[trigger] data.sectors@[s]).bars@)
    &&& dataset_len(data, lookback, forward) > 0 ==> {
        &&& data.benchmark is Some ==> chainable(log_return, data.benchmark->0.bars@)
        &&& forall|i: int|
            0 <= i < data.treasury_rates@.len() ==> subtractable(
                difference,
                #[trigger] data.treasury_rates@[i],
            )
        &&& takes_windows(deviation, SHORT_VOL_WINDOW as int)
        &&& n >= 2 ==> takes_series_of(correlate, least(history_lens(data.sectors@)) as int)
        &&& n >= 2 ==> takes_windows(mean, triangle_size(n))
        &&& forward >= 1 ==> takes_windows(mean, n * forward)
    }
}

/// Builds the training dataset of the market data. The sectors' log
/// returns are aligned at their trailing ends; volatilities, the average
/// cross-sector correlation, the bond spreads and the benchmark volatility
/// are laid on one time axis that ends at the most recent observation of
/// each (all series, the curve observations too, come oldest first),
/// and the axis is cut into sliding windows of `lookback` steps, each with
/// the mean volatility of the `forward` steps after it as target. Samples
/// come oldest first. Without sectors, or with fewer than `lookback +
/// forward + LONG_VOL_WINDOW` returns in the shortest history, the dataset
/// is empty.
pub fn build_dataset<
    T: Copy,
    G: Fn(T, T) -> T,
    F: Fn(&[T]) -> T,
    D: Fn(T, T) -> T,
    C: Fn(&[T], &[T]) -> T,
    M: Fn(&[T]) -> T,
>(
    data: &MarketData<T>,
    lookback: usize,
    forward: usize,
    zero: T,
    one: T,
    log_return: G,
    deviation: F,
    difference: D,
    correlate: C,
    mean: M,
) -> (out: VolDataset<T>)
    requires
        buildable(
            log_return,
            deviation,
            difference,
            correlate,
            mean,
            *data,
            lookback as int,
            forward as int,
        ),
    ensures
        out.samples@.len() == dataset_len(*data, lookback as int, forward as int),
        uniform(out, lookback as int),
        dataset_len(*data, lookback as int, forward as int) > 0 ==> dataset_of(
            log_return,
            deviation,
            difference,
            correlate,
            mean,
            *data,
            lookback as int,
            forward as int,
            zero,
            one,
            out,
        ),
{
    let n = data.sectors.len();
    let mut histories: Vec<Vec<T>> = Vec::new();
    let mut s: usize = 0;
    while s < n
        invariant
            s <= n,
            n == data.sectors@.len(),
            forall|s: int|
                0 <= s < n ==> chainable(log_return, (#[trigger] data.sectors@[s]).bars@),
            histories@.len() == s,
            forall|i: int|
                #![trigger histories@[i]]
                0 <= i < s ==> returns_of(log_return, data.sectors@[i].bars@, histories@[i]@),
        decreases n - s,
    {
        histories.push(data.sectors[s].log_returns(&log_return));
        s += 1;
    }
    proof {
        lemma_shortest_is_least(histories@, history_lens(data.sectors@));
    }
    let m = min_len(histories.as_slice());
    let enough = match lookback.checked_add(forward) {
        Some(w) => match w.checked_add(LONG_VOL_WINDOW) {
            Some(needed) => m >= needed,
            None => false,
        },
        None => false,
    };
    if n == 0 || !enough {
        return VolDataset { samples: Vec::new() };
    }
    proof {
        lemma_dataset_empty_iff(*data, lookback as int, forward as int);
        lemma_shortest(histories@);
    }
    let bond = compute_term_spreads(data.treasury_rates.as_slice(), difference);
    let bench: Option<Vec<T>> = match &data.benchmark {
        Some(b) => Some(b.log_returns(&log_return)),
        None => None,
    };
    proof {
        let ghost_bench = items_of(bench);
        assert forall|s: int| 0 <= s < histories@.len() implies #[trigger] rollable(
            deviation,
            tail_of(histories@[s]@, m as int),
            SHORT_VOL_WINDOW as int,
        ) by {
            lemma_windows_rollable(deviation, tail_of(histories@[s]@, m as int), SHORT_VOL_WINDOW as int);
        }
        if ghost_bench is Some {
            lemma_windows_rollable(deviation, ghost_bench->0, SHORT_VOL_WINDOW as int);
        }
        assert(correlatable(correlate, n as int, histories@)) by {
            assert forall|i: int, j: int| 0 <= i < j < n implies #[trigger] correlates(
                correlate,
                tail_of(histories@[i]@, m as int),
                tail_of(histories@[j]@, m as int),
            ) by {
                assert(tail_of(histories@[i]@, m as int).len() == m);
                assert(tail_of(histories@[j]@, m as int).len() == m);
            }
        }
        assert(engineerable(
            deviation,
            correlate,
            mean,
            histories@,
            ghost_bench,
            lookback as int,
            forward as int,
        ));
    }
    let table = engineer_features(
        histories.as_slice(),
        bond.as_slice(),
        bench.as_ref(),
        lookback,
        forward,
        zero,
        one,
        &deviation,
        &correlate,
        &mean,
    );
    match table {
        Some(table) => {
            proof {
                let count = sample_count(table.len as int, lookback as int, forward as int);
                assert forall|s: int| 0 <= s < count implies #[trigger] targetable(
                    mean,
                    table,
                    s + lookback,
                    forward as int,
                ) by {
                    let end = s + lookback;
                    assert forall|i: int| 0 <= i < table.sector_vols@.len() implies (
                    #[trigger] table.sector_vols@[i])@.len() == table.len by {
                        assert(rolled(
                            deviation,
                            tail_of(histories@[i]@, m as int),
                            SHORT_VOL_WINDOW as int,
                            2,
                            table.sector_vols@[i]@,
                        ));
                    }
                    assert(table.sector_vols@.len() == n);
                    assert(end + forward < table.len);
                    assert(horizon_end(table.len as int, end, forward as int) == end + forward);
                    lemma_forward_values_len(
                        table.sector_vols@,
                        table.sector_vols@.len() as int,
                        end,
                        end + forward,
                        table.len as int,
                    );
                    let values = target_values(table, end, forward as int);
                    assert(values.len() == n * forward);
                    if values.len() > 0 {
                        assert(forward >= 1) by (nonlinear_arith)
                            requires
                                n * forward > 0,
                                n >= 0,
                                forward >= 0,
                        ;
                        assert(accepts(mean, values));
                    }
                }
            }
            let out = window_samples(&table, lookback, forward, zero, &mean);
            proof {
                lemma_windows_uniform(mean, table, lookback as int, forward as int, zero, out);
                let ghost_bench = items_of(bench);
                assert(table_of(
                    deviation,
                    correlate,
                    mean,
                    histories@,
                    bond@,
                    ghost_bench,
                    zero,
                    one,
                    table,
                ));
                assert(dataset_of(
                    log_return,
                    deviation,
                    difference,
                    correlate,
                    mean,
                    *data,
                    lookback as int,
                    forward as int,
                    zero,
                    one,
                    out,
                ));
            }
            out
        },
        None => VolDataset { samples: Vec::new() },
    }
}

/// `a` and `b` hold the same rows and the same target.
pub open spec fn same_sample<T>(a: VolSample<T>, b: VolSample<T>) -> bool {
    &&& a.target == b.target
    &&& a.features@.len() == b.features@.len()
    &&& forall|k: int|
        #![trigger a.features@[k]]
        0 <= k < a.features@.len() ==> a.features@[k]@ == b.features@[k]@
}

fn copy_sample<T: Copy>(sample: &VolSample<T>) -> (out: VolSample<T>)
    ensures
        same_sample(out, *sample),
{
    let mut rows: Vec<Vec<T>> = Vec::new();
    let mut k: usize = 0;
    while k < sample.features.len()
        invariant
            k <= sample.features@.len(),
            rows@.len() == k,
            forall|j: int| #![trigger rows@[j]] 0 <= j < k ==> rows@[j]@ == sample.features@[j]@,
        decreases sample.features@.len() - k,
    {
        rows.push(vstd::slice::slice_to_vec(sample.features[k].as_slice()));
        k += 1;
    }
    VolSample { features: rows, target: sample.target }
}

/// `part` holds copies of the `count` samples of `whole` from index `from`
/// on, in their order.
pub open spec fn part_of<T>(whole: VolDataset<T>, from: int, count: int, part: VolDataset<T>) -> bool {
    &&& part.samples@.len() == count
    &&& forall|i: int|
        #![trigger part.samples@[i]]
        0 <= i < count ==> same_sample(part.samples@[i], whole.samples@[from + i])
}

impl<T: Copy> VolDataset<T> {
    /// The number of samples.
    pub fn len(&self) -> (n: usize)
        ensures
            n == self.samples@.len(),
    {
        self.samples.len()
    }

    /// A copy of the sample at `index`, or `None` past the end.
    pub fn get(&self, index: usize) -> (out: Option<VolSample<T>>)
        ensures
            index >= self.samples@.len() ==> out is None,
            index < self.samples@.len() ==> out is Some && same_sample(
                out->0,
                self.samples@[index as int],
            ),
    {
        if index >= self.samples.len() {
            return None;
        }
        Some(copy_sample(&self.samples[index]))
    }

    /// The most recent sample, or `None` in an empty dataset.
    pub fn latest(&self) -> (out: Option<VolSample<T>>)
        ensures
            self.samples@.len() == 0 ==> out is None,
            self.samples@.len() > 0 ==> out is Some && same_sample(out->0, self.samples@.last()),
    {
        let n = self.samples.len();
        if n == 0 {
            return None;
        }
        Some(copy_sample(&self.samples[n - 1]))
    }

    /// Splits the dataset in order of time: the first `train_size` samples
    /// (all of them, where there are fewer) to train on, the rest held out.
    /// No sample changes sides, whatever is done with either part later.
    pub fn split_at(&self, train_size: usize) -> (out: (VolDataset<T>, VolDataset<T>))
        ensures
            train_size <= self.samples@.len() ==> part_of(*self, 0, train_size as int, out.0)
                && part_of(
                *self,
                train_size as int,
                self.samples@.len() - train_size,
                out.1,
            ),
            train_size > self.samples@.len() ==> part_of(
                *self,
                0,
                self.samples@.len() as int,
                out.0,
            ) && out.1.samples@.len() == 0,
    {
        let n = self.samples.len();
        let cut = if train_size <= n {
            train_size
        } else {
            n
        };
        let mut train: Vec<VolSample<T>> = Vec::new();
        let mut held_out: Vec<VolSample<T>> = Vec::new();
        let mut i: usize = 0;
        while i < n
            invariant
                i <= n,
                cut <= n,
                n == self.samples@.len(),
                train@.len() == (if i <= cut {
                    i
                } else {
                    cut
                }),
                held_out@.len() == (if i <= cut {
                    0
                } else {
                    i - cut
                }),
                forall|k: int|
                    #![trigger train@[k]]
                    0 <= k < train@.len() ==> same_sample(train@[k], self.samples@[k]),
                forall|k: int|
                    #![trigger held_out@[k]]
                    0 <= k < held_out@.len() ==> same_sample(held_out@[k], self.samples@[cut + k]),
            decreases n - i,
        {
            let sample = copy_sample(&self.samples[i]);
            if i < cut {
                train.push(sample);
            } else {
                held_out.push(sample);
            }
            i += 1;
        }
        (VolDataset { samples: train }, VolDataset { samples: held_out })
    }
}

} // verus!
