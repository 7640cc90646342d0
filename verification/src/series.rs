//! Series of observations, oldest first, and how to cut several of them to
//! a common length so that all end at the same, most recent observation.
use vstd::prelude::*;
use vstd::slice::slice_subrange;

verus! {

/// The last `n` items of `s`, or all of `s` when it holds fewer than `n`.
pub open spec fn tail_of<T>(s: Seq<T>, n: int) -> Seq<T> {
    if 0 <= n <= s.len() {
        s.subrange(s.len() - n, s.len() as int)
    } else {
        s
    }
}

/// `s` laid on an axis of `len` steps that ends with the last item of `s`:
/// step `t` holds the item `len - t` places before the end of `s`, and
/// `zero` where `s` does not reach that far back.
pub open spec fn right_aligned<T>(s: Seq<T>, len: int, zero: T) -> Seq<T> {
    Seq::new(
        len as nat,
        |t: int|
            if s.len() - len + t >= 0 {
                s[s.len() - len + t]
            } else {
                zero
            },
    )
}

/// The number of pairs that two series make when they are paired item by
/// item: the length of the shorter one.
pub open spec fn pair_count<T>(a: Seq<T>, b: Seq<T>) -> int {
    if a.len() <= b.len() {
        a.len() as int
    } else {
        b.len() as int
    }
}

/// The length of the shortest of `series`, and 0 when there is none.
pub open spec fn shortest<T>(series: Seq<Vec<T>>) -> nat
    decreases series.len(),
{
    if series.len() == 0 {
        0
    } else if series.len() == 1 {
        series[0]@.len()
    } else {
        let rest = shortest(series.drop_last());
        let last = series.last()@.len();
        if last < rest {
            last
        } else {
            rest
        }
    }
}

/// The shortest of the lengths `lens`, and 0 when there is none.
pub open spec fn least(lens: Seq<nat>) -> nat
    decreases lens.len(),
{
    if lens.len() == 0 {
        0
    } else if lens.len() == 1 {
        lens[0]
    } else {
        let rest = least(lens.drop_last());
        if lens.last() < rest {
            lens.last()
        } else {
            rest
        }
    }
}

/// `out` is a value that `stat` may return for a window holding `items`.
pub open spec fn stat_of<T, F: Fn(&[T]) -> T>(stat: F, items: Seq<T>, out: T) -> bool {
    exists|w: &[T]| w@ == items && call_ensures(stat, (w,), out)
}

/// `value` is something that `stat` may return.
pub open spec fn yields<T, F: Fn(&[T]) -> T>(stat: F, value: T) -> bool {
    exists|w: &[T]| #[trigger] call_ensures(stat, (w,), value)
}

/// `stat` may be called on a window holding `items`.
pub open spec fn accepts<T, F: Fn(&[T]) -> T>(stat: F, items: Seq<T>) -> bool {
    forall|w: &[T]| w@ == items ==> #[trigger] call_requires(stat, (w,))
}

/// `stat` may be called on every window of `len` items.
pub open spec fn takes_windows<T, F: Fn(&[T]) -> T>(stat: F, len: int) -> bool {
    forall|w: &[T]| w@.len() == len ==> #[trigger] call_requires(stat, (w,))
}

/// Cutting a series to its trailing `n` items keeps the most recent
/// observations in place: counted from the end, every item of the cut
/// series is the item of the whole series at the same distance.
pub proof fn lemma_tail_keeps_latest<T>(s: Seq<T>, n: int, back: int)
    requires
        0 <= back < n <= s.len(),
    ensures
        tail_of(s, n).len() == n,
        tail_of(s, n)[n - 1 - back] == s[s.len() - 1 - back],
{
}

/// A series that covers the axis is laid on it by cutting its leading
/// items: nothing is filled in.
pub proof fn lemma_right_aligned_is_tail<T>(s: Seq<T>, len: int, zero: T)
    requires
        0 <= len <= s.len(),
    ensures
        right_aligned(s, len, zero) == tail_of(s, len),
{
    assert(right_aligned(s, len, zero) =~= tail_of(s, len));
}

/// A series shorter than the axis keeps all its items at the end of the
/// axis, and the steps before them hold `zero`.
pub proof fn lemma_right_aligned_fills_front<T>(s: Seq<T>, len: int, zero: T, t: int)
    requires
        s.len() <= len,
        0 <= t < len,
    ensures
        right_aligned(s, len, zero).len() == len,
        t < len - s.len() ==> right_aligned(s, len, zero)[t] == zero,
        t >= len - s.len() ==> right_aligned(s, len, zero)[t] == s[t - (len - s.len())],
{
}

/// The shortest series is no longer than any of them, and one of them has
/// exactly that length.
pub proof fn lemma_shortest<T>(series: Seq<Vec<T>>)
    ensures
        forall|i: int| 0 <= i < series.len() ==> shortest(series) <= (#[trigger] series[i])@.len(),
        series.len() > 0 ==> exists|i: int|
            0 <= i < series.len() && shortest(series) == (#[trigger] series[i])@.len(),
    decreases series.len(),
{
    if series.len() == 0 {
    } else if series.len() == 1 {
        assert(shortest(series) == series[0]@.len());
    } else {
        let head = series.drop_last();
        lemma_shortest(head);
        assert forall|i: int| 0 <= i < series.len() implies shortest(series) <= (
        #[trigger] series[i])@.len() by {
            if i < series.len() - 1 {
                assert(head[i] == series[i]);
            }
        }
        let j = choose|j: int| 0 <= j < head.len() && shortest(head) == (#[trigger] head[j])@.len();
        assert(head[j] == series[j]);
        if series.last()@.len() < shortest(head) {
            assert(shortest(series) == series[series.len() - 1]@.len());
        } else {
            assert(shortest(series) == series[j]@.len());
        }
    }
}

/// The length of the shortest series is the least of the series' lengths.
pub proof fn lemma_shortest_is_least<T>(series: Seq<Vec<T>>, lens: Seq<nat>)
    requires
        lens.len() == series.len(),
        forall|i: int| 0 <= i < series.len() ==> #[trigger] lens[i] == series[i]@.len(),
    ensures
        shortest(series) == least(lens),
    decreases series.len(),
{
    if series.len() >= 2 {
        lemma_shortest_is_least(series.drop_last(), lens.drop_last());
    }
}

/// Series that all have `len` items have `len` as their shortest length.
pub proof fn lemma_shortest_of_equal<T>(series: Seq<Vec<T>>, len: nat)
    requires
        series.len() > 0,
        forall|i: int| 0 <= i < series.len() ==> (#[trigger] series[i])@.len() == len,
    ensures
        shortest(series) == len,
{
    lemma_shortest(series);
}

/// Borrows the trailing `n` items of `series`: the most recent observations
/// stay, older leading ones are left out. A series shorter than `n` is
/// handed back whole.
pub fn trailing<T>(series: &[T], n: usize) -> (out: &[T])
    ensures
        out@ == tail_of(series@, n as int),
{
    let len = series.len();
    if n <= len {
        slice_subrange(series, len - n, len)
    } else {
        series
    }
}

/// The length of the shortest series, 0 for an empty set.
pub fn min_len<T>(series: &[Vec<T>]) -> (out: usize)
    ensures
        out == shortest(series@),
{
    let mut best: usize = 0;
    let mut i: usize = 0;
    while i < series.len()
        invariant
            i <= series.len(),
            best == shortest(series@.take(i as int)),
        decreases series.len() - i,
    {
        let len = series[i].len();
        assert(series@.take(i + 1).drop_last() == series@.take(i as int));
        assert(series@.take(i + 1).last() == series@[i as int]);
        if i == 0 || len < best {
            best = len;
        }
        i += 1;
    }
    assert(series@.take(series.len() as int) == series@);
    best
}

/// A series of `n` items, each of them `value`.
pub fn filled<T: Copy>(n: usize, value: T) -> (out: Vec<T>)
    ensures
        out@ == Seq::new(n as nat, |j: int| value),
{
    let mut out: Vec<T> = Vec::new();
    let mut j: usize = 0;
    while j < n
        invariant
            j <= n,
            out@.len() == j,
            forall|k: int| 0 <= k < j ==> out@[k] == value,
        decreases n - j,
    {
        out.push(value);
        j += 1;
    }
    assert(out@ =~= Seq::new(n as nat, |j: int| value));
    out
}

/// Lays a series on an axis of `len` steps that ends with the series' last
/// item. Leading items that do not fit are left out; steps that the series
/// does not reach are filled with `zero`.
pub fn right_align<T: Copy>(series: &[T], len: usize, zero: T) -> (out: Vec<T>)
    ensures
        out@ == right_aligned(series@, len as int, zero),
{
    let have = series.len();
    let mut out: Vec<T> = Vec::new();
    let mut t: usize = 0;
    while t < len
        invariant
            t <= len,
            have == series@.len(),
            out@.len() == t,
            forall|k: int| 0 <= k < t ==> out@[k] == right_aligned(series@, len as int, zero)[k],
        decreases len - t,
    {
        let missing = len - t;
        if missing <= have {
            out.push(series[have - missing]);
        } else {
            out.push(zero);
        }
        t += 1;
    }
    assert(out@ =~= right_aligned(series@, len as int, zero));
    out
}

/// Copies the trailing `n` items of every series, so that all end at the
/// same final observation.
pub fn align_trailing<T: Copy>(series: &[Vec<T>], n: usize) -> (out: Vec<Vec<T>>)
    ensures
        out@.len() == series@.len(),
        forall|i: int| 0 <= i < out@.len() ==> (#[trigger] out@[i])@ == tail_of(series@[i]@, n as int),
{
    let mut out: Vec<Vec<T>> = Vec::new();
    let mut i: usize = 0;
    while i < series.len()
        invariant
            i <= series.len(),
            out@.len() == i,
            forall|k: int| 0 <= k < i ==> (#[trigger] out@[k])@ == tail_of(series@[k]@, n as int),
        decreases series.len() - i,
    {
        let kept = vstd::slice::slice_to_vec(trailing(series[i].as_slice(), n));
        out.push(kept);
        i += 1;
    }
    out
}

} // verus!
