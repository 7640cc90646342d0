//! Correlation across sectors: which observations of which series are
//! compared, and how the coefficients are laid out in a matrix and
//! averaged. The coefficient itself is the caller's.
use vstd::prelude::*;
use crate::series::{
    accepts, filled, min_len, pair_count, shortest, stat_of, tail_of, trailing,
};

verus! {

/// Pairwise correlation coefficients of a list of instruments: entry
/// `matrix[i][j]` relates `symbols[i]` to `symbols[j]`.
#[derive(Debug, Clone)]
pub struct CorrelationMatrix<T> {
    pub symbols: Vec<String>,
    pub matrix: Vec<Vec<T>>,
}

impl<T> CorrelationMatrix<T> {
    /// The matrix is square, with one row and one column per symbol.
    pub open spec fn wf(&self) -> bool {
        &&& self.matrix@.len() == self.symbols@.len()
        &&& forall|i: int|
            0 <= i < self.matrix@.len() ==> (#[trigger] self.matrix@[i])@.len()
                == self.symbols@.len()
    }

    /// The matrix has at least one row and one column per symbol.
    pub open spec fn covers_symbols(&self) -> bool {
        covers(self.matrix@, self.symbols@.len() as int)
    }
}

/// The table has at least `n` rows, and each of the first `n` rows has at
/// least `n` entries.
pub open spec fn covers<T>(grid: Seq<Vec<T>>, n: int) -> bool {
    &&& grid.len() >= n
    &&& forall|i: int| 0 <= i < n ==> (#[trigger] grid[i])@.len() >= n
}

/// `out` is a value that `correlate` may return for two series holding `a`
/// and `b`.
pub open spec fn corr_of<T, C: Fn(&[T], &[T]) -> T>(
    correlate: C,
    a: Seq<T>,
    b: Seq<T>,
    out: T,
) -> bool {
    exists|x: &[T], y: &[T]| x@ == a && y@ == b && call_ensures(correlate, (x, y), out)
}

/// `correlate` may be called on every pair of series of `len` items each.
pub open spec fn takes_series_of<T, C: Fn(&[T], &[T]) -> T>(correlate: C, len: int) -> bool {
    forall|x: &[T], y: &[T]|
        x@.len() == len && y@.len() == len ==> #[trigger] call_requires(correlate, (x, y))
}

/// `correlate` may be called on two series holding `a` and `b`.
pub open spec fn correlates<T, C: Fn(&[T], &[T]) -> T>(correlate: C, a: Seq<T>, b: Seq<T>) -> bool {
    forall|x: &[T], y: &[T]| x@ == a && y@ == b ==> #[trigger] call_requires(correlate, (x, y))
}

/// A table of `n` rows can be made of the series: where they hold at least
/// 2 aligned observations there are at least `n` of them, and `correlate`
/// may be called on every pair of the first `n`, cut from the front to the
/// length of the shortest.
pub open spec fn correlatable<T, C: Fn(&[T], &[T]) -> T>(
    correlate: C,
    n: int,
    histories: Seq<Vec<T>>,
) -> bool {
    let m = shortest(histories) as int;
    m >= 2 ==> {
        &&& n <= histories.len()
        &&& forall|i: int, j: int|
            0 <= i < j < n ==> #[trigger] correlates(
                correlate,
                tail_of(histories[i]@, m),
                tail_of(histories[j]@, m),
            )
    }
}

/// The entries above the diagonal in the first `rows` rows of the leading
/// `n` by `n` block of `m`, row by row, each row from left to right.
pub open spec fn upper_rows<T>(m: Seq<Vec<T>>, n: int, rows: int) -> Seq<T>
    decreases rows,
{
    if rows <= 0 {
        Seq::empty()
    } else {
        upper_rows(m, n, rows - 1) + m[rows - 1]@.subrange(rows, n)
    }
}

/// The strict upper triangle of the leading `n` by `n` block of `m`, row
/// by row.
pub open spec fn upper_triangle<T>(m: Seq<Vec<T>>, n: int) -> Seq<T> {
    upper_rows(m, n, n)
}

/// The first `rows` rows of a block of `n` rows hold
/// `rows * (2n - rows - 1) / 2` entries above the diagonal.
pub proof fn lemma_upper_rows_len<T>(m: Seq<Vec<T>>, n: int, rows: int)
    requires
        0 <= rows <= n,
        covers(m, n),
    ensures
        2 * upper_rows(m, n, rows).len() == rows * (2 * n - rows - 1),
    decreases rows,
{
    if rows > 0 {
        lemma_upper_rows_len(m, n, rows - 1);
        let before = upper_rows(m, n, rows - 1).len() as int;
        assert(m[rows - 1]@.subrange(rows, n).len() == n - rows);
        assert(upper_rows(m, n, rows).len() == before + (n - rows));
        assert(2 * before == (rows - 1) * (2 * n - (rows - 1) - 1));
        assert((rows - 1) * (2 * n - (rows - 1) - 1) + 2 * (n - rows) == rows * (2 * n - rows - 1))
            by (nonlinear_arith);
    } else {
        assert(upper_rows(m, n, rows).len() == 0);
        assert(rows * (2 * n - rows - 1) == 0) by (nonlinear_arith)
            requires
                rows == 0,
        ;
    }
}

/// The strict upper triangle of a block of `n` rows holds
/// `n * (n - 1) / 2` entries.
pub proof fn lemma_upper_triangle_len<T>(m: Seq<Vec<T>>, n: int)
    requires
        0 <= n,
        covers(m, n),
    ensures
        2 * upper_triangle(m, n).len() == n * (n - 1),
{
    lemma_upper_rows_len(m, n, n);
    assert(n * (2 * n - n - 1) == n * (n - 1)) by (nonlinear_arith);
}

/// `grid` is a square table of `n` rows. With fewer than 2 aligned
/// observations every entry is `zero`. Otherwise the diagonal is `one`,
/// and each pair of entries across the diagonal holds one and the same
/// value of `correlate` on the two series, both cut from the front to the
/// length of the shortest.
pub open spec fn grid_of<T, C: Fn(&[T], &[T]) -> T>(
    correlate: C,
    n: int,
    histories: Seq<Vec<T>>,
    zero: T,
    one: T,
    grid: Seq<Vec<T>>,
) -> bool {
    let m = shortest(histories) as int;
    &&& grid.len() == n
    &&& forall|i: int| 0 <= i < n ==> (#[trigger] grid[i])@.len() == n
    &&& m < 2 ==> forall|i: int, j: int|
        0 <= i < n && 0 <= j < n ==> #[trigger] grid[i]@[j] == zero
    &&& m >= 2 ==> forall|i: int| 0 <= i < n ==> #[trigger] grid[i]@[i] == one
    &&& m >= 2 ==> forall|i: int, j: int|
        0 <= i < j < n ==> {
            &&& #[trigger] grid[j]@[i] == grid[i]@[j]
            &&& corr_of(correlate, tail_of(histories[i]@, m), tail_of(histories[j]@, m), grid[i]@[j])
        }
}

/// The result of `compute_correlation_matrix`: the symbols as given, and
/// their correlation table.
pub open spec fn correlation_of<T, C: Fn(&[T], &[T]) -> T>(
    correlate: C,
    symbols: Seq<String>,
    histories: Seq<Vec<T>>,
    zero: T,
    one: T,
    out: CorrelationMatrix<T>,
) -> bool {
    &&& out.symbols@ == symbols
    &&& grid_of(correlate, symbols.len() as int, histories, zero, one, out.matrix@)
}

/// `out` is the average cross-correlation of `n` instruments: `zero` for
/// fewer than 2, else a value of `mean` on the entries above the diagonal
/// of the leading `n` by `n` block of the table.
pub open spec fn average_of<T, M: Fn(&[T]) -> T>(
    mean: M,
    grid: Seq<Vec<T>>,
    n: int,
    zero: T,
    out: T,
) -> bool {
    if n < 2 {
        out == zero
    } else {
        stat_of(mean, upper_triangle(grid, n), out)
    }
}

/// A correlation matrix built from at least 2 aligned observations is
/// symmetric and has `one` everywhere on its diagonal.
pub proof fn lemma_matrix_symmetric<T, C: Fn(&[T], &[T]) -> T>(
    correlate: C,
    symbols: Seq<String>,
    histories: Seq<Vec<T>>,
    zero: T,
    one: T,
    out: CorrelationMatrix<T>,
)
    requires
        correlation_of(correlate, symbols, histories, zero, one, out),
        shortest(histories) >= 2,
    ensures
        forall|i: int, j: int|
            0 <= i < symbols.len() && 0 <= j < symbols.len() ==> #[trigger] out.matrix@[i]@[j]
                == out.matrix@[j]@[i],
        forall|i: int| 0 <= i < symbols.len() ==> #[trigger] out.matrix@[i]@[i] == one,
{
    assert forall|i: int, j: int|
        0 <= i < symbols.len() && 0 <= j < symbols.len() implies #[trigger] out.matrix@[i]@[j]
        == out.matrix@[j]@[i] by {
        if i < j {
            assert(out.matrix@[j]@[i] == out.matrix@[i]@[j]);
        } else if j < i {
            assert(out.matrix@[i]@[j] == out.matrix@[j]@[i]);
        }
    }
}

fn copy_symbols(symbols: &[String]) -> (out: Vec<String>)
    ensures
        out@ == symbols@,
{
    let mut out: Vec<String> = Vec::new();
    let mut i: usize = 0;
    while i < symbols.len()
        invariant
            i <= symbols.len(),
            out@ == symbols@.take(i as int),
        decreases symbols.len() - i,
    {
        out.push(symbols[i].clone());
        assert(symbols@.take(i + 1) == symbols@.take(i as int).push(symbols@[i as int]));
        i += 1;
    }
    assert(symbols@.take(symbols.len() as int) == symbols@);
    out
}

/// Correlation of two series. Both are cut at their ends to the length of
/// the shorter one; with fewer than 2 paired points the result is the
/// neutral value `zero`, else what `coefficient` makes of the two.
pub fn pearson_correlation<T: Copy, C: Fn(&[T], &[T]) -> T>(
    a: &[T],
    b: &[T],
    zero: T,
    coefficient: C,
) -> (out: T)
    requires
        pair_count(a@, b@) >= 2 ==> correlates(
            coefficient,
            a@.take(pair_count(a@, b@)),
            b@.take(pair_count(a@, b@)),
        ),
    ensures
        pair_count(a@, b@) < 2 ==> out == zero,
        pair_count(a@, b@) >= 2 ==> corr_of(
            coefficient,
            a@.take(pair_count(a@, b@)),
            b@.take(pair_count(a@, b@)),
            out,
        ),
{
    let n = if a.len() <= b.len() {
        a.len()
    } else {
        b.len()
    };
    if n < 2 {
        return zero;
    }
    let x = vstd::slice::slice_subrange(a, 0, n);
    let y = vstd::slice::slice_subrange(b, 0, n);
    assert(x@ == a@.take(n as int));
    assert(y@ == b@.take(n as int));
    coefficient(x, y)
}

/// The correlation table of the first `n` series. All series are cut from
/// the front to the length of the shortest, so that the most recent
/// observations are compared. Each unordered pair is handed to `correlate`
/// once and the value is mirrored across the diagonal.
pub fn correlation_grid<T: Copy, C: Fn(&[T], &[T]) -> T>(
    n: usize,
    histories: &[Vec<T>],
    zero: T,
    one: T,
    correlate: &C,
) -> (grid: Vec<Vec<T>>)
    requires
        correlatable(*correlate, n as int, histories@),
    ensures
        grid_of(*correlate, n as int, histories@, zero, one, grid@),
{
    let m = min_len(histories);
    let mut matrix: Vec<Vec<T>> = Vec::new();
    if m < 2 {
        let mut i: usize = 0;
        while i < n
            invariant
                i <= n,
                matrix@.len() == i,
                forall|r: int| 0 <= r < i ==> (#[trigger] matrix@[r])@.len() == n,
                forall|r: int, c: int|
                    0 <= r < i && 0 <= c < n ==> #[trigger] matrix@[r]@[c] == zero,
            decreases n - i,
        {
            matrix.push(filled(n, zero));
            i += 1;
        }
        return matrix;
    }
    let mut i: usize = 0;
    while i < n
        invariant
            i <= n,
            n <= histories@.len(),
            m == shortest(histories@),
            m >= 2,
            correlatable(*correlate, n as int, histories@),
            matrix@.len() == i,
            forall|r: int| 0 <= r < i ==> (#[trigger] matrix@[r])@.len() == n,
            forall|r: int| 0 <= r < i ==> #[trigger] matrix@[r]@[r] == one,
            forall|r: int, c: int|
                0 <= r < c < i ==> #[trigger] matrix@[c]@[r] == matrix@[r]@[c],
            forall|r: int, c: int|
                0 <= r < i && r < c < n ==> corr_of(
                    *correlate,
                    tail_of(histories@[r]@, m as int),
                    tail_of(histories@[c]@, m as int),
                    #[trigger] matrix@[r]@[c],
                ),
        decreases n - i,
    {
        let mut row: Vec<T> = Vec::new();
        let mut j: usize = 0;
        while j < n
            invariant
                i < n,
                j <= n,
                n <= histories@.len(),
                m == shortest(histories@),
                m >= 2,
                correlatable(*correlate, n as int, histories@),
                matrix@.len() == i,
                forall|r: int| 0 <= r < i ==> (#[trigger] matrix@[r])@.len() == n,
                row@.len() == j,
                i < j ==> row@[i as int] == one,
                forall|c: int| 0 <= c < j && c < i ==> #[trigger] row@[c] == matrix@[c]@[i as int],
                forall|c: int|
                    i < c < j ==> corr_of(
                        *correlate,
                        tail_of(histories@[i as int]@, m as int),
                        tail_of(histories@[c]@, m as int),
                        #[trigger] row@[c],
                    ),
            decreases n - j,
        {
            if j < i {
                row.push(matrix[j][i]);
            } else if j == i {
                row.push(one);
            } else {
                let a = trailing(histories[i].as_slice(), m);
                let b = trailing(histories[j].as_slice(), m);
                assert(correlates(
                    *correlate,
                    tail_of(histories@[i as int]@, m as int),
                    tail_of(histories@[j as int]@, m as int),
                ));
                let c = correlate(a, b);
                assert(corr_of(
                    *correlate,
                    tail_of(histories@[i as int]@, m as int),
                    tail_of(histories@[j as int]@, m as int),
                    c,
                ));
                row.push(c);
            }
            j += 1;
        }
        matrix.push(row);
        i += 1;
    }
    matrix
}

/// Pairwise correlation matrix of the return series of the given symbols.
/// With fewer than 2 aligned observations every entry is `zero`; otherwise
/// the matrix is symmetric with `one` on its diagonal.
pub fn compute_correlation_matrix<T: Copy, C: Fn(&[T], &[T]) -> T>(
    symbols: &[String],
    histories: &[Vec<T>],
    zero: T,
    one: T,
    correlate: C,
) -> (out: CorrelationMatrix<T>)
    requires
        correlatable(correlate, symbols@.len() as int, histories@),
    ensures
        correlation_of(correlate, symbols@, histories@, zero, one, out),
        out.wf(),
{
    let matrix = correlation_grid(symbols.len(), histories, zero, one, &correlate);
    CorrelationMatrix { symbols: copy_symbols(symbols), matrix }
}

/// `mean` of the entries above the diagonal of the leading `n` by `n` block
/// of a table, taken row by row, and `zero` for `n` below 2.
pub fn mean_above_diagonal<T: Copy, M: Fn(&[T]) -> T>(
    grid: &Vec<Vec<T>>,
    n: usize,
    zero: T,
    mean: &M,
) -> (out: T)
    requires
        covers(grid@, n as int),
        n >= 2 ==> accepts(*mean, upper_triangle(grid@, n as int)),
    ensures
        average_of(*mean, grid@, n as int, zero, out),
{
    if n < 2 {
        return zero;
    }
    let mut upper: Vec<T> = Vec::new();
    let mut i: usize = 0;
    while i < n
        invariant
            i <= n,
            covers(grid@, n as int),
            upper@ == upper_rows(grid@, n as int, i as int),
        decreases n - i,
    {
        let mut j: usize = i + 1;
        while j < n
            invariant
                i < n,
                i + 1 <= j <= n,
                covers(grid@, n as int),
                upper@ == upper_rows(grid@, n as int, i as int) + grid@[i as int]@.subrange(
                    i + 1,
                    j as int,
                ),
            decreases n - j,
        {
            upper.push(grid[i][j]);
            assert(grid@[i as int]@.subrange(i + 1, j + 1) == grid@[i as int]@.subrange(
                i + 1,
                j as int,
            ).push(grid@[i as int]@[j as int]));
            j += 1;
        }
        i += 1;
    }
    mean(upper.as_slice())
}

/// Average cross-sector correlation: `mean` of the entries above the
/// diagonal that relate the symbols to each other, taken row by row, and
/// `zero` for fewer than 2 symbols.
pub fn average_cross_correlation<T: Copy, M: Fn(&[T]) -> T>(
    matrix: &CorrelationMatrix<T>,
    zero: T,
    mean: M,
) -> (out: T)
    requires
        matrix.covers_symbols(),
        matrix.symbols@.len() >= 2 ==> accepts(
            mean,
            upper_triangle(matrix.matrix@, matrix.symbols@.len() as int),
        ),
    ensures
        average_of(mean, matrix.matrix@, matrix.symbols@.len() as int, zero, out),
{
    mean_above_diagonal(&matrix.matrix, matrix.symbols.len(), zero, &mean)
}

} // verus!
