//! The yield curve: term spread, curve slope, inversions and the points of
//! one day's curve. Which observations count and which tenors stand in for
//! missing ones is decided here; subtracting and comparing rates is the
//! caller's.
use vstd::prelude::*;
use chrono::Datelike;
use crate::cross_sector::{corr_of, takes_series_of};

verus! {

/// A day of the proleptic Gregorian calendar.
#[derive(Clone, Copy, Debug, PartialEq, Eq, Structural)]
pub struct CalendarDate {
    pub year: i32,
    pub month: u32,
    pub day: u32,
}

/// One observation of the yield curve: the date as the data source wrote
/// it, and the rate of each tenor that was quoted that day.
#[derive(Debug, Clone)]
pub struct TreasuryRate<T> {
    pub date: String,
    pub month1: Option<T>,
    pub month2: Option<T>,
    pub month3: Option<T>,
    pub month6: Option<T>,
    pub year1: Option<T>,
    pub year2: Option<T>,
    pub year3: Option<T>,
    pub year5: Option<T>,
    pub year7: Option<T>,
    pub year10: Option<T>,
    pub year20: Option<T>,
    pub year30: Option<T>,
}

/// Term spread and curve slope of one day.
#[derive(Debug, Clone)]
pub struct BondSpread<T> {
    pub date: CalendarDate,
    pub spread_10y_2y: T,
    pub curve_slope: T,
}

/// Year, month and day that `chrono` reads from `text` under the format
/// `%Y-%m-%d`, or `None` where it rejects the text.
pub uninterp spec fn date_fields(text: Seq<char>) -> Option<(int, int, int)>;

/// The calendar date written in `text`, if it is one.
pub open spec fn date_of(text: Seq<char>) -> Option<CalendarDate> {
    match date_fields(text) {
        Some((y, m, d)) => Some(CalendarDate { year: y as i32, month: m as u32, day: d as u32 }),
        None => None,
    }
}

/// Year, month and day of a date, if there is one.
pub open spec fn fields_of(date: Option<CalendarDate>) -> Option<(int, int, int)> {
    match date {
        Some(d) => Some((d.year as int, d.month as int, d.day as int)),
        None => None,
    }
}

/// Calls `chrono::NaiveDate::parse_from_str` with the format `%Y-%m-%d` and
/// copies year, month and day out of the date it returns. Nothing is
/// claimed of which texts are dates: the contract only names the outcome,
/// which depends on the text alone.
#[verifier::external_body]
fn parse_iso_date(text: &str) -> (out: Option<CalendarDate>)
    ensures
        fields_of(out) == date_fields(text@),
{
    match chrono::NaiveDate::parse_from_str(text, "%Y-%m-%d") {
        Ok(date) => Some(CalendarDate { year: date.year(), month: date.month(), day: date.day() }),
        Err(_) => None,
    }
}

impl<T> TreasuryRate<T> {
    /// The observation quotes both the 2-year and the 10-year rate.
    pub open spec fn anchored(self) -> bool {
        self.year10 is Some && self.year2 is Some
    }

    /// The observation can be placed in time and quotes both the 2-year and
    /// the 10-year rate.
    pub open spec fn usable(self) -> bool {
        date_of(self.date@) is Some && self.anchored()
    }

    /// The long end of the curve: the 30-year rate, or the 10-year rate
    /// where the 30-year one is missing.
    pub open spec fn long_end(self) -> T {
        match self.year30 {
            Some(v) => v,
            None => self.year10->0,
        }
    }

    /// The short end of the curve: the 3-month rate, or the 2-year rate
    /// where the 3-month one is missing.
    pub open spec fn short_end(self) -> T {
        match self.month3 {
            Some(v) => v,
            None => self.year2->0,
        }
    }

    /// The date of the observation, if its text is a date.
    pub fn parsed_date(&self) -> (out: Option<CalendarDate>)
        ensures
            out == date_of(self.date@),
    {
        parse_iso_date(self.date.as_str())
    }
}

/// The usable observations among `rates`, in their order.
pub open spec fn usable_rates<T>(rates: Seq<TreasuryRate<T>>) -> Seq<TreasuryRate<T>>
    decreases rates.len(),
{
    if rates.len() == 0 {
        Seq::empty()
    } else if rates.last().usable() {
        usable_rates(rates.drop_last()).push(rates.last())
    } else {
        usable_rates(rates.drop_last())
    }
}

/// `spread` is the spread entry of the usable observation `rate`: same
/// day, 10Y less 2Y, and long end less short end, each as `difference`
/// computes it.
pub open spec fn spread_of<T, D: Fn(T, T) -> T>(
    difference: D,
    rate: TreasuryRate<T>,
    spread: BondSpread<T>,
) -> bool {
    &&& date_of(rate.date@) == Some(spread.date)
    &&& call_ensures(difference, (rate.year10->0, rate.year2->0), spread.spread_10y_2y)
    &&& call_ensures(difference, (rate.long_end(), rate.short_end()), spread.curve_slope)
}

/// `out` holds one spread entry for each usable observation, in order.
pub open spec fn spreads_of<T, D: Fn(T, T) -> T>(
    difference: D,
    rates: Seq<TreasuryRate<T>>,
    out: Seq<BondSpread<T>>,
) -> bool {
    &&& out.len() == usable_rates(rates).len()
    &&& forall|k: int|
        #![trigger out[k]]
        0 <= k < out.len() ==> spread_of(difference, usable_rates(rates)[k], out[k])
}

/// `out` holds the dates of the usable observations for which `below`
/// answered that the 10-year rate lies under the 2-year rate, in order.
pub open spec fn inversions_of<T, L: Fn(T, T) -> bool>(
    below: L,
    rates: Seq<TreasuryRate<T>>,
    out: Seq<CalendarDate>,
) -> bool
    decreases rates.len(),
{
    if rates.len() == 0 {
        out.len() == 0
    } else {
        let rate = rates.last();
        let rest = rates.drop_last();
        if rate.usable() {
            ||| {
                &&& call_ensures(below, (rate.year10->0, rate.year2->0), true)
                &&& out.len() > 0
                &&& Some(out.last()) == date_of(rate.date@)
                &&& inversions_of(below, rest, out.drop_last())
            }
            ||| {
                &&& call_ensures(below, (rate.year10->0, rate.year2->0), false)
                &&& inversions_of(below, rest, out)
            }
        } else {
            inversions_of(below, rest, out)
        }
    }
}

/// `difference` may be called for the spread and for the slope of the
/// observation, if it quotes both anchor rates.
pub open spec fn subtractable<T, D: Fn(T, T) -> T>(difference: D, rate: TreasuryRate<T>) -> bool {
    rate.anchored() ==> call_requires(difference, (rate.year10->0, rate.year2->0)) && call_requires(
        difference,
        (rate.long_end(), rate.short_end()),
    )
}

/// `below` may be called on the 10-year and the 2-year rate of the
/// observation, if it quotes both.
pub open spec fn comparable<T, L: Fn(T, T) -> bool>(below: L, rate: TreasuryRate<T>) -> bool {
    rate.anchored() ==> call_requires(below, (rate.year10->0, rate.year2->0))
}

/// The spread entry of one observation whose date was read as `date`:
/// `None` where the date or one of the 2-year and 10-year rates is
/// missing. A missing 30-year rate is replaced by the 10-year rate, a
/// missing 3-month rate by the 2-year rate. `difference` subtracts its
/// second argument from its first.
pub fn term_spread<T: Copy, D: Fn(T, T) -> T>(
    date: Option<CalendarDate>,
    rate: &TreasuryRate<T>,
    difference: &D,
) -> (out: Option<BondSpread<T>>)
    requires
        date is Some ==> subtractable(*difference, *rate),
    ensures
        out is Some <==> date is Some && rate.anchored(),
        out matches Some(spread) ==> {
            &&& date == Some(spread.date)
            &&& call_ensures(*difference, (rate.year10->0, rate.year2->0), spread.spread_10y_2y)
            &&& call_ensures(*difference, (rate.long_end(), rate.short_end()), spread.curve_slope)
        },
{
    match (date, rate.year10, rate.year2) {
        (Some(date), Some(y10), Some(y2)) => {
            let y30 = match rate.year30 {
                Some(v) => v,
                None => y10,
            };
            let m3 = match rate.month3 {
                Some(v) => v,
                None => y2,
            };
            let spread = difference(y10, y2);
            let slope = difference(y30, m3);
            Some(BondSpread { date, spread_10y_2y: spread, curve_slope: slope })
        },
        _ => None,
    }
}

/// The date of one observation, read as `date`, if the curve is inverted on
/// it: `Some` where the date and both anchor rates are there and `below`
/// finds the 10-year rate under the 2-year rate.
pub fn inversion_date<T: Copy, L: Fn(T, T) -> bool>(
    date: Option<CalendarDate>,
    rate: &TreasuryRate<T>,
    below: &L,
) -> (out: Option<CalendarDate>)
    requires
        date is Some ==> comparable(*below, *rate),
    ensures
        out is Some ==> out == date && rate.anchored() && call_ensures(
            *below,
            (rate.year10->0, rate.year2->0),
            true,
        ),
        out is None ==> date is None || !rate.anchored() || call_ensures(
            *below,
            (rate.year10->0, rate.year2->0),
            false,
        ),
{
    match (date, rate.year10, rate.year2) {
        (Some(date), Some(y10), Some(y2)) => {
            if below(y10, y2) {
                Some(date)
            } else {
                None
            }
        },
        _ => None,
    }
}

/// Term spread (10Y - 2Y) and curve slope (30Y - 3M) of every observation
/// that has a date, a 2-year and a 10-year rate. Other observations are
/// left out, and the rest keep their order.
pub fn compute_term_spreads<T: Copy, D: Fn(T, T) -> T>(
    rates: &[TreasuryRate<T>],
    difference: D,
) -> (out: Vec<BondSpread<T>>)
    requires
        forall|i: int| 0 <= i < rates@.len() ==> subtractable(difference, #[trigger] rates@[i]),
    ensures
        spreads_of(difference, rates@, out@),
{
    let mut out: Vec<BondSpread<T>> = Vec::new();
    let mut i: usize = 0;
    while i < rates.len()
        invariant
            i <= rates.len(),
            forall|i: int| 0 <= i < rates@.len() ==> subtractable(difference, #[trigger] rates@[i]),
            spreads_of(difference, rates@.take(i as int), out@),
        decreases rates.len() - i,
    {
        let rate = &rates[i];
        let ghost seen = rates@.take(i as int);
        let ghost before = out@;
        proof {
            assert(rates@.take(i + 1).drop_last() == seen);
            assert(rates@.take(i + 1).last() == rates@[i as int]);
        }
        match term_spread(rate.parsed_date(), rate, &difference) {
            Some(spread) => {
                out.push(spread);
                proof {
                    let kept = usable_rates(rates@.take(i + 1));
                    assert(kept == usable_rates(seen).push(rates@[i as int]));
                    assert forall|k: int| 0 <= k < out@.len() implies spread_of(
                        difference,
                        kept[k],
                        #[trigger] out@[k],
                    ) by {
                        if k < before.len() {
                            assert(out@[k] == before[k]);
                        }
                    }
                }
            },
            None => {
                assert(!rates@[i as int].usable());
            },
        }
        i += 1;
    }
    assert(rates@.take(rates.len() as int) == rates@);
    out
}

/// The dates on which the curve is inverted: those of the observations
/// that have a date, a 2-year and a 10-year rate, and whose 10-year rate
/// `below` finds under the 2-year rate. They keep their order.
pub fn detect_inversions<T: Copy, L: Fn(T, T) -> bool>(
    rates: &[TreasuryRate<T>],
    below: L,
) -> (out: Vec<CalendarDate>)
    requires
        forall|i: int| 0 <= i < rates@.len() ==> comparable(below, #[trigger] rates@[i]),
    ensures
        inversions_of(below, rates@, out@),
{
    let mut out: Vec<CalendarDate> = Vec::new();
    let mut i: usize = 0;
    while i < rates.len()
        invariant
            i <= rates.len(),
            forall|i: int| 0 <= i < rates@.len() ==> comparable(below, #[trigger] rates@[i]),
            inversions_of(below, rates@.take(i as int), out@),
        decreases rates.len() - i,
    {
        let rate = &rates[i];
        let ghost before = out@;
        proof {
            assert(rates@.take(i + 1).drop_last() == rates@.take(i as int));
            assert(rates@.take(i + 1).last() == rates@[i as int]);
        }
        match inversion_date(rate.parsed_date(), rate, &below) {
            Some(date) => {
                out.push(date);
                assert(out@.drop_last() == before);
            },
            None => {},
        }
        i += 1;
    }
    assert(rates@.take(rates.len() as int) == rates@);
    out
}

/// `curve` with the point of one tenor added at its end, if the tenor has a
/// rate.
pub open spec fn with_point<T>(
    curve: Seq<(Seq<char>, T)>,
    label: Seq<char>,
    rate: Option<T>,
) -> Seq<(Seq<char>, T)> {
    match rate {
        Some(v) => curve.push((label, v)),
        None => curve,
    }
}

/// The quoted points of a curve observation in order of rising tenor, from
/// one month to thirty years. A tenor without a rate has no point.
pub open spec fn curve_of<T>(rate: TreasuryRate<T>) -> Seq<(Seq<char>, T)> {
    let c = Seq::empty();
    let c = with_point(c, "1M"@, rate.month1);
    let c = with_point(c, "2M"@, rate.month2);
    let c = with_point(c, "3M"@, rate.month3);
    let c = with_point(c, "6M"@, rate.month6);
    let c = with_point(c, "1Y"@, rate.year1);
    let c = with_point(c, "2Y"@, rate.year2);
    let c = with_point(c, "3Y"@, rate.year3);
    let c = with_point(c, "5Y"@, rate.year5);
    let c = with_point(c, "7Y"@, rate.year7);
    let c = with_point(c, "10Y"@, rate.year10);
    let c = with_point(c, "20Y"@, rate.year20);
    with_point(c, "30Y"@, rate.year30)
}

/// The points of `curve` with each label as the text it holds.
pub open spec fn points<T>(curve: Seq<(&'static str, T)>) -> Seq<(Seq<char>, T)> {
    Seq::new(curve.len(), |i: int| (curve[i].0@, curve[i].1))
}

fn push_point<T: Copy>(curve: &mut Vec<(&'static str, T)>, label: &'static str, rate: Option<T>)
    ensures
        points(final(curve)@) == with_point(points(old(curve)@), label@, rate),
{
    if let Some(v) = rate {
        curve.push((label, v));
        assert(points(curve@) == points(old(curve)@).push((label@, v)));
    }
}

/// The yield curve of one observation as (maturity label, rate) pairs in
/// order of rising tenor: 1M, 2M, 3M, 6M, 1Y, 2Y, 3Y, 5Y, 7Y, 10Y, 20Y,
/// 30Y. Tenors without a rate are left out.
pub fn yield_curve_for_date<T: Copy>(rate: &TreasuryRate<T>) -> (out: Vec<(&'static str, T)>)
    ensures
        points(out@) == curve_of(*rate),
{
    let mut curve: Vec<(&'static str, T)> = Vec::new();
    assert(points(curve@) == Seq::<(Seq<char>, T)>::empty());
    push_point(&mut curve, "1M", rate.month1);
    push_point(&mut curve, "2M", rate.month2);
    push_point(&mut curve, "3M", rate.month3);
    push_point(&mut curve, "6M", rate.month6);
    push_point(&mut curve, "1Y", rate.year1);
    push_point(&mut curve, "2Y", rate.year2);
    push_point(&mut curve, "3Y", rate.year3);
    push_point(&mut curve, "5Y", rate.year5);
    push_point(&mut curve, "7Y", rate.year7);
    push_point(&mut curve, "10Y", rate.year10);
    push_point(&mut curve, "20Y", rate.year20);
    push_point(&mut curve, "30Y", rate.year30);
    curve
}

/// `out` holds the first differences of `series`: for each pair of
/// consecutive items a value of `difference` on the later and the earlier
/// one.
pub open spec fn changes_of<T, D: Fn(T, T) -> T>(difference: D, series: Seq<T>, out: Seq<T>) -> bool {
    &&& out.len() == (if series.len() == 0 {
        0
    } else {
        series.len() - 1
    })
    &&& forall|i: int|
        #![trigger out[i]]
        0 <= i < out.len() ==> call_ensures(difference, (series[i + 1], series[i]), out[i])
}

/// `difference` may be called on every pair of consecutive items of
/// `series`, the later one first.
pub open spec fn differentiable<T, D: Fn(T, T) -> T>(difference: D, series: Seq<T>) -> bool {
    forall|i: int|
        0 <= i < series.len() - 1 ==> call_requires(difference, (series[i + 1], #[trigger] series[i]))
}

/// The number of first differences of the shorter of two series.
pub open spec fn change_count<T>(spreads: Seq<T>, volatilities: Seq<T>) -> int {
    if spreads.len() <= volatilities.len() {
        spreads.len() - 1
    } else {
        volatilities.len() - 1
    }
}

/// `out` is a value of `correlate` on the two series of first differences,
/// each cut at its end to the number of differences of the shorter series.
pub open spec fn changes_correlate<T, D: Fn(T, T) -> T, C: Fn(&[T], &[T]) -> T>(
    difference: D,
    correlate: C,
    spreads: Seq<T>,
    volatilities: Seq<T>,
    spread_changes: Seq<T>,
    vol_changes: Seq<T>,
    out: T,
) -> bool {
    &&& changes_of(difference, spreads, spread_changes)
    &&& changes_of(difference, volatilities, vol_changes)
    &&& corr_of(
        correlate,
        spread_changes.take(change_count(spreads, volatilities)),
        vol_changes.take(change_count(spreads, volatilities)),
        out,
    )
}

/// `out` is the correlation of the changes of the two series: `zero` where
/// the shorter one has fewer than 3 items, else a value of `correlate` on
/// the first differences of both.
pub open spec fn change_correlation<T, D: Fn(T, T) -> T, C: Fn(&[T], &[T]) -> T>(
    difference: D,
    correlate: C,
    spreads: Seq<T>,
    volatilities: Seq<T>,
    zero: T,
    out: T,
) -> bool {
    if spreads.len() < 3 || volatilities.len() < 3 {
        out == zero
    } else {
        exists|spread_changes: Seq<T>, vol_changes: Seq<T>|
            #[trigger] changes_correlate(
                difference,
                correlate,
                spreads,
                volatilities,
                spread_changes,
                vol_changes,
                out,
            )
    }
}

fn first_differences<T: Copy, D: Fn(T, T) -> T>(series: &[T], difference: &D) -> (out: Vec<T>)
    requires
        differentiable(*difference, series@),
    ensures
        changes_of(*difference, series@, out@),
{
    let mut out: Vec<T> = Vec::new();
    let n = series.len();
    if n == 0 {
        return out;
    }
    let mut i: usize = 0;
    while i < n - 1
        invariant
            n == series@.len(),
            n >= 1,
            i <= n - 1,
            out@.len() == i,
            differentiable(*difference, series@),
            forall|k: int|
                #![trigger out@[k]]
                0 <= k < i ==> call_ensures(*difference, (series@[k + 1], series@[k]), out@[k]),
        decreases n - 1 - i,
    {
        assert(call_requires(*difference, (series@[i + 1], series@[i as int])));
        let d = difference(series[i + 1], series[i]);
        out.push(d);
        i += 1;
    }
    out
}

/// Correlation between the day-to-day changes of a spread series and those
/// of a volatility series. With fewer than 3 items in the shorter series
/// the result is `zero`.
pub fn spread_vol_correlation<T: Copy, D: Fn(T, T) -> T, C: Fn(&[T], &[T]) -> T>(
    spreads: &[T],
    volatilities: &[T],
    zero: T,
    difference: D,
    correlate: C,
) -> (out: T)
    requires
        spreads@.len() >= 3 && volatilities@.len() >= 3 ==> {
            &&& differentiable(difference, spreads@)
            &&& differentiable(difference, volatilities@)
            &&& takes_series_of(correlate, change_count(spreads@, volatilities@))
        },
    ensures
        change_correlation(difference, correlate, spreads@, volatilities@, zero, out),
{
    let n = if spreads.len() <= volatilities.len() {
        spreads.len()
    } else {
        volatilities.len()
    };
    if n < 3 {
        return zero;
    }
    let spread_changes = first_differences(spreads, &difference);
    let vol_changes = first_differences(volatilities, &difference);
    let m = n - 1;
    let a = vstd::slice::slice_subrange(spread_changes.as_slice(), 0, m);
    let b = vstd::slice::slice_subrange(vol_changes.as_slice(), 0, m);
    let out = correlate(a, b);
    proof {
        assert(a@ == spread_changes@.take(m as int));
        assert(b@ == vol_changes@.take(m as int));
        assert(m == change_count(spreads@, volatilities@));
        assert(changes_correlate(
            difference,
            correlate,
            spreads@,
            volatilities@,
            spread_changes@,
            vol_changes@,
            out,
        ));
    }
    out
}

} // verus!
