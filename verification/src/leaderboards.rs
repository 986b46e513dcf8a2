//! How leaderboard scores are laid out on a chart.
use vstd::prelude::*;

use crate::math::{Pos, Rect};
use crate::util::numbers::{decimal_digits, u64_to_decimal};
use crate::util::text::{chars_of, push_str};

verus! {

/// The least of the non-empty `s`.
pub open spec fn seq_min(s: Seq<u32>) -> u32
    decreases s.len(),
{
    if s.len() <= 1 {
        s[0]
    } else {
        let m = seq_min(s.drop_last());
        if s.last() < m {
            s.last()
        } else {
            m
        }
    }
}

/// The greatest of the non-empty `s`.
pub open spec fn seq_max(s: Seq<u32>) -> u32
    decreases s.len(),
{
    if s.len() <= 1 {
        s[0]
    } else {
        let m = seq_max(s.drop_last());
        if s.last() > m {
            s.last()
        } else {
            m
        }
    }
}

proof fn lemma_min_max(s: Seq<u32>)
    requires
        s.len() >= 1,
    ensures
        forall|k: int| 0 <= k < s.len() ==> seq_min(s) <= #[trigger] s[k] <= seq_max(s),
        seq_min(s) <= seq_max(s),
    decreases s.len(),
{
    if s.len() > 1 {
        lemma_min_max(s.drop_last());
        assert forall|k: int| 0 <= k < s.len() implies seq_min(s) <= #[trigger] s[k] <= seq_max(s) by {
            if k < s.len() - 1 {
                assert(s[k] == s.drop_last()[k]);
            }
        }
    }
}

/// Where values fall on an axis of buckets: bucket `b` holds the values from
/// `min + b * step` up to before `min + (b + 1) * step`.
#[derive(Debug)]
pub struct Axis {
    pub min: u32,
    pub step: u32,
    /// The bucket of each value, in the order of the values.
    pub data: Vec<usize>,
}

/// The step that spreads the values from `lo` to `hi` over `size` buckets.
pub open spec fn axis_step(lo: int, hi: int, size: int) -> int {
    ((hi - lo + 1) + size - 1) / size
}

/// Spreads `values` over `size` buckets: from the least value, in steps wide
/// enough that the greatest falls in the last bucket at the latest. With no
/// values the axis starts at 0 with step 1.
pub fn distribute(values: &Vec<u32>, size: u32) -> (r: Axis)
    requires
        size > 1,
        values.len() > 0 ==> seq_max(values@) - seq_min(values@) + size < u32::MAX,
    ensures
        values.len() == 0 ==> r.min == 0 && r.step == 1 && r.data@.len() == 0,
        values.len() > 0 ==> {
            &&& r.min == seq_min(values@)
            &&& r.step == axis_step(seq_min(values@) as int, seq_max(values@) as int, size as int)
            &&& r.step >= 1
            &&& r.data@.len() == values.len()
            &&& forall|k: int|
                0 <= k < values.len() ==> #[trigger] r.data@[k] == (values@[k] - r.min) / (r.step as int)
            &&& forall|k: int| 0 <= k < values.len() ==> #[trigger] r.data@[k] < size
            &&& forall|a: int, b: int|
                0 <= a < values.len() && 0 <= b < values.len() && values@[a] <= values@[b] ==> #[trigger] r.data@[a]
                    <= #[trigger] r.data@[b]
        },
{
    if values.len() == 0 {
        return Axis { min: 0, step: 1, data: Vec::new() };
    }
    proof {
        lemma_min_max(values@);
    }
    let mut min = values[0];
    let mut max = values[0];
    for k in 1..values.len()
        invariant
            values.len() > 0,
            min == seq_min(values@.take(k as int)),
            max == seq_max(values@.take(k as int)),
    {
        assert(values@.take(k + 1).drop_last() =~= values@.take(k as int));
        if values[k] < min {
            min = values[k];
        }
        if values[k] > max {
            max = values[k];
        }
    }
    assert(values@.take(values.len() as int) =~= values@);
    proof {
        lemma_min_max(values@);
    }
    assert(min <= max);
    assert(max - min + size < u32::MAX);
    let step = ((max - min + 1) + size - 1) / size;
    assert(step >= 1) by (nonlinear_arith)
        requires
            step as int == ((max - min + 1) + size - 1) / (size as int),
            max >= min,
            size > 1,
    ;
    let mut data: Vec<usize> = Vec::new();
    for k in 0..values.len()
        invariant
            min == seq_min(values@),
            max == seq_max(values@),
            step == axis_step(min as int, max as int, size as int),
            step >= 1,
            size > 1,
            forall|t: int| 0 <= t < values.len() ==> min <= #[trigger] values@[t] <= max,
            data@.len() == k,
            forall|t: int| 0 <= t < k ==> #[trigger] data@[t] == (values@[t] - min) / (step as int),
            forall|t: int| 0 <= t < k ==> #[trigger] data@[t] < size,
    {
        let v = values[k];
        let b = (v - min) / step;
        assert(b < size) by (nonlinear_arith)
            requires
                b as int == (v - min) / (step as int),
                v <= max,
                v >= min,
                step as int == ((max - min + 1) + size - 1) / (size as int),
                step >= 1,
                size > 1,
        {
            assert(step * size >= max - min + 1);
        }
        data.push(b as usize);
    }
    assert forall|a: int, b: int|
        0 <= a < values.len() && 0 <= b < values.len() && values@[a] <= values@[b] implies #[trigger] data@[a]
            <= #[trigger] data@[b] by {
        vstd::arithmetic::div_mod::lemma_div_is_ordered(
            values@[a] - min,
            values@[b] - min,
            step as int,
        );
    }
    Axis { min, step, data }
}

/// All values of the rows, row after row.
pub open spec fn flat(rows: Seq<Vec<u32>>) -> Seq<u32>
    decreases rows.len(),
{
    if rows.len() == 0 {
        Seq::<u32>::empty()
    } else {
        flat(rows.drop_last()) + rows.last()@
    }
}

/// How many of `s` are greater than `v`.
pub open spec fn count_greater(s: Seq<u32>, v: int) -> nat
    decreases s.len(),
{
    if s.len() == 0 {
        0
    } else {
        count_greater(s.drop_last(), v) + if s.last() > v {
            1nat
        } else {
            0nat
        }
    }
}

/// `v` is a value of `s` that may be shown as common: fewer than `lo` values
/// are greater (or none is), and at most `hi` are at least as great.
pub open spec fn is_common(s: Seq<u32>, v: u32, lo: int, hi: int) -> bool {
    &&& v > 0
    &&& s.contains(v)
    &&& (count_greater(s, v as int) == 0 || count_greater(s, v as int) < lo)
    &&& count_greater(s, v - 1) <= hi
}

proof fn lemma_count_bound(s: Seq<u32>, v: int)
    ensures
        count_greater(s, v) <= s.len(),
    decreases s.len(),
{
    if s.len() > 0 {
        lemma_count_bound(s.drop_last(), v);
    }
}

fn flatten(rows: &Vec<Vec<u32>>) -> (r: Vec<u32>)
    ensures
        r@ == flat(rows@),
{
    let mut r: Vec<u32> = Vec::new();
    for k in 0..rows.len()
        invariant
            r@ == flat(rows@.take(k as int)),
    {
        let row = &rows[k];
        let ghost before = r@;
        for t in 0..row.len()
            invariant
                r@ == before + row@.take(t as int),
        {
            r.push(row[t]);
            assert(row@.take(t + 1) =~= row@.take(t as int).push(row@[t as int]));
        }
        assert(row@.take(row@.len() as int) =~= row@);
        assert(rows@.take(k + 1).drop_last() =~= rows@.take(k as int));
    }
    assert(rows@.take(rows.len() as int) =~= rows@);
    r
}

fn count_greater_than(s: &Vec<u32>, v: u64) -> (r: u64)
    ensures
        r == count_greater(s@, v as int),
{
    let mut c: u64 = 0;
    for k in 0..s.len()
        invariant
            c == count_greater(s@.take(k as int), v as int),
            k <= s.len() <= usize::MAX,
    {
        assert(s@.take(k + 1).drop_last() =~= s@.take(k as int));
        proof {
            lemma_count_bound(s@.take(k as int), v as int);
        }
        if s[k] as u64 > v {
            c = c + 1;
        }
    }
    assert(s@.take(s.len() as int) =~= s@);
    c
}

/// The value of `s` shown as common: the least one that `is_common` allows,
/// or `u32::MAX` when there is none.
pub open spec fn common_of(s: Seq<u32>) -> u32 {
    let tot = count_greater(s, 0) as int;
    let lo = tot * 25 / 100;
    let hi = tot * 50 / 100;
    if exists|v: u32| #[trigger] is_common(s, v, lo, hi) {
        choose|v: u32|
            is_common(s, v, lo, hi) && forall|u: u32| #[trigger] is_common(s, u, lo, hi) ==> v <= u
    } else {
        u32::MAX
    }
}

/// A value such that a few values of the rows are greater, but not many: the
/// least positive value that has fewer than a quarter of the positive values
/// above it (or none), and at most half of them at or above it. `u32::MAX`
/// when no value qualifies.
pub fn get_common(data: &Vec<Vec<u32>>) -> (r: u32)
    requires
        count_greater(flat(data@), 0) * 50 <= u32::MAX,
    ensures
        ({
            let s = flat(data@);
            let tot = count_greater(s, 0) as int;
            let lo = tot * 25 / 100;
            let hi = tot * 50 / 100;
            ||| is_common(s, r, lo, hi) && forall|v: u32| #[trigger] is_common(s, v, lo, hi) ==> r <= v
            ||| r == u32::MAX && forall|v: u32| !#[trigger] is_common(s, v, lo, hi)
        }),
        r == common_of(flat(data@)),
{
    let all = flatten(data);
    let ghost s = flat(data@);
    let tot = count_greater_than(&all, 0);
    let lo = tot * 25 / 100;
    let hi = tot * 50 / 100;
    let mut ans = u32::MAX;
    let mut found = false;
    for k in 0..all.len()
        invariant
            all@ == s,
            lo == count_greater(s, 0) * 25 / 100,
            hi == count_greater(s, 0) * 50 / 100,
            found ==> is_common(s, ans, lo as int, hi as int),
            !found ==> ans == u32::MAX,
            forall|t: int|
                0 <= t < k && is_common(s, #[trigger] s[t], lo as int, hi as int) ==> found && ans
                    <= s[t],
    {
        let x = all[k];
        if x > 0 {
            let gt = count_greater_than(&all, x as u64);
            let ge = count_greater_than(&all, (x - 1) as u64);
            if (gt == 0 || gt < lo) && ge <= hi && (!found || x < ans) {
                assert(s[k as int] == x);
                assert(s.contains(x));
                ans = x;
                found = true;
            }
        }
    }
    proof {
        assert forall|v: u32| #[trigger] is_common(s, v, lo as int, hi as int) implies found && ans <= v by {
            let t = choose|t: int| 0 <= t < s.len() && s[t] == v;
            assert(is_common(s, s[t], lo as int, hi as int));
        }
        if found {
            let c = common_of(s);
            assert(is_common(s, c, lo as int, hi as int));
            assert(c <= ans && ans <= c);
        }
    }
    ans
}

/// One score on a leaderboard, and how many players have it.
#[derive(Debug, Clone, Copy, PartialEq, Eq, Structural)]
pub struct ChartPoint {
    pub functions: u32,
    pub reductions_x100: u32,
    pub count: u32,
}

/// The players of the first `n` points whose scores fall in row `i` and
/// column `j`, where point `k` falls in row `ys[k]` and column `xs[k]`.
pub open spec fn cell_total(
    points: Seq<ChartPoint>,
    xs: Seq<usize>,
    ys: Seq<usize>,
    n: int,
    i: int,
    j: int,
) -> int
    decreases n,
{
    if n <= 0 {
        0
    } else {
        cell_total(points, xs, ys, n - 1, i, j) + if ys[n - 1] == i && xs[n - 1] == j {
            points[n - 1].count as int
        } else {
            0
        }
    }
}

/// The players of the first `n` points.
pub open spec fn count_total(points: Seq<ChartPoint>, n: int) -> int
    decreases n,
{
    if n <= 0 {
        0
    } else {
        count_total(points, n - 1) + points[n - 1].count
    }
}

proof fn lemma_cell_within_total(
    points: Seq<ChartPoint>,
    xs: Seq<usize>,
    ys: Seq<usize>,
    n: int,
    m: int,
    i: int,
    j: int,
)
    requires
        0 <= n <= m,
    ensures
        0 <= cell_total(points, xs, ys, n, i, j) <= count_total(points, n) <= count_total(points, m),
    decreases m,
{
    if m > n {
        lemma_cell_within_total(points, xs, ys, n, m - 1, i, j);
    } else if n > 0 {
        lemma_cell_within_total(points, xs, ys, n - 1, n - 1, i, j);
    }
}

/// The players in the first `w` cells of row `i`.
pub open spec fn row_total(points: Seq<ChartPoint>, xs: Seq<usize>, ys: Seq<usize>, n: int, i: int, w: int) -> int
    decreases w,
{
    if w <= 0 {
        0
    } else {
        row_total(points, xs, ys, n, i, w - 1) + cell_total(points, xs, ys, n, i, w - 1)
    }
}

/// The players in the first `h` rows of `w` cells.
pub open spec fn grid_total(points: Seq<ChartPoint>, xs: Seq<usize>, ys: Seq<usize>, n: int, h: int, w: int) -> int
    decreases h,
{
    if h <= 0 {
        0
    } else {
        grid_total(points, xs, ys, n, h - 1, w) + row_total(points, xs, ys, n, h - 1, w)
    }
}

proof fn lemma_row_step(points: Seq<ChartPoint>, xs: Seq<usize>, ys: Seq<usize>, n: int, i: int, w: int)
    requires
        n > 0,
    ensures
        row_total(points, xs, ys, n, i, w) == row_total(points, xs, ys, n - 1, i, w) + if ys[n - 1] == i
            && xs[n - 1] < w {
            points[n - 1].count as int
        } else {
            0
        },
    decreases w,
{
    if w > 0 {
        lemma_row_step(points, xs, ys, n, i, w - 1);
    }
}

proof fn lemma_grid_step(points: Seq<ChartPoint>, xs: Seq<usize>, ys: Seq<usize>, n: int, h: int, w: int)
    requires
        n > 0,
    ensures
        grid_total(points, xs, ys, n, h, w) == grid_total(points, xs, ys, n - 1, h, w) + if ys[n - 1] < h
            && xs[n - 1] < w {
            points[n - 1].count as int
        } else {
            0
        },
    decreases h,
{
    if h > 0 {
        lemma_grid_step(points, xs, ys, n, h - 1, w);
        lemma_row_step(points, xs, ys, n, h - 1, w);
    }
}

/// When every point falls inside a chart of `h` rows and `w` columns, the
/// cells of the chart together hold every player exactly once.
pub proof fn chart_counts_every_player(points: Seq<ChartPoint>, xs: Seq<usize>, ys: Seq<usize>, n: int, h: int, w: int)
    requires
        0 <= n <= points.len(),
        n <= xs.len(),
        n <= ys.len(),
        forall|k: int| 0 <= k < n ==> #[trigger] xs[k] < w && ys[k] < h,
    ensures
        grid_total(points, xs, ys, n, h, w) == count_total(points, n),
    decreases n,
{
    if n > 0 {
        chart_counts_every_player(points, xs, ys, n - 1, h, w);
        lemma_grid_step(points, xs, ys, n, h, w);
        assert(xs[n - 1] < w && ys[n - 1] < h);
    } else {
        lemma_grid_zero(points, xs, ys, h, w);
    }
}

proof fn lemma_grid_zero(points: Seq<ChartPoint>, xs: Seq<usize>, ys: Seq<usize>, h: int, w: int)
    ensures
        grid_total(points, xs, ys, 0, h, w) == 0,
    decreases h,
{
    if h > 0 {
        lemma_grid_zero(points, xs, ys, h - 1, w);
        lemma_row_zero(points, xs, ys, h - 1, w);
    }
}

proof fn lemma_row_zero(points: Seq<ChartPoint>, xs: Seq<usize>, ys: Seq<usize>, i: int, w: int)
    ensures
        row_total(points, xs, ys, 0, i, w) == 0,
    decreases w,
{
    if w > 0 {
        lemma_row_zero(points, xs, ys, i, w - 1);
    }
}

/// Adds up, for each cell of a chart of `h` rows and `w` columns, the players
/// of the points that fall in it; point `k` falls in row `ys[k]` and column
/// `xs[k]`.
pub fn chart_counts(points: &Vec<ChartPoint>, xs: &Vec<usize>, ys: &Vec<usize>, w: usize, h: usize) -> (r:
    Vec<Vec<u32>>)
    requires
        xs.len() == points.len(),
        ys.len() == points.len(),
        count_total(points@, points.len() as int) <= u32::MAX,
    ensures
        r@.len() == h,
        forall|i: int|
            0 <= i < h ==> (#[trigger] r@[i])@.len() == w && forall|j: int|
                0 <= j < w ==> (#[trigger] r@[i]@[j]) == cell_total(
                    points@,
                    xs@,
                    ys@,
                    points.len() as int,
                    i,
                    j,
                ),
{
    let n = points.len();
    let mut rows: Vec<Vec<u32>> = Vec::new();
    for i in 0..h
        invariant
            n == points.len(),
            xs.len() == n,
            ys.len() == n,
            count_total(points@, n as int) <= u32::MAX,
            rows@.len() == i,
            forall|ii: int|
                0 <= ii < i ==> (#[trigger] rows@[ii])@.len() == w && forall|j: int|
                    0 <= j < w ==> (#[trigger] rows@[ii]@[j]) == cell_total(
                        points@,
                        xs@,
                        ys@,
                        n as int,
                        ii,
                        j,
                    ),
    {
        let mut row: Vec<u32> = Vec::new();
        for j in 0..w
            invariant
                row@.len() == j,
                forall|jj: int| 0 <= jj < j ==> row@[jj] == 0,
        {
            row.push(0);
        }
        for k in 0..n
            invariant
                n == points.len(),
                xs.len() == n,
                ys.len() == n,
                count_total(points@, n as int) <= u32::MAX,
                row@.len() == w,
                forall|jj: int|
                    0 <= jj < w ==> #[trigger] row@[jj] == cell_total(
                        points@,
                        xs@,
                        ys@,
                        k as int,
                        i as int,
                        jj,
                    ),
        {
            if ys[k] == i && xs[k] < w {
                let x = xs[k];
                proof {
                    lemma_cell_within_total(points@, xs@, ys@, k + 1, n as int, i as int, x as int);
                }
                let v = row[x] + points[k].count;
                row.set(x, v);
            }
        }
        rows.push(row);
    }
    rows
}

/// The mark of a cell holding `amt` players: blank when empty, `x` on the
/// player's own cell, a bullet where scores are common, a dot elsewhere.
pub open spec fn cell_char(amt: u32, is_player: bool, common: u32) -> char {
    if amt == 0 {
        ' '
    } else if is_player {
        'x'
    } else if amt >= common {
        '\u{2022}'
    } else {
        '\u{b7}'
    }
}

/// The marks of the cells of `nums`, the player's cell being `player` (row,
/// column).
pub fn chart_cells(nums: &Vec<Vec<u32>>, player: Option<(usize, usize)>, common: u32) -> (r: Vec<
    Vec<char>,
>)
    ensures
        r@.len() == nums@.len(),
        forall|i: int|
            0 <= i < nums@.len() ==> (#[trigger] r@[i])@.len() == nums@[i]@.len() && forall|j: int|
                0 <= j < nums@[i]@.len() ==> #[trigger] r@[i]@[j] == cell_char(
                    nums@[i]@[j],
                    player == Some((i as usize, j as usize)),
                    common,
                ),
{
    let mut r: Vec<Vec<char>> = Vec::new();
    for i in 0..nums.len()
        invariant
            r@.len() == i,
            forall|ii: int|
                0 <= ii < i ==> (#[trigger] r@[ii])@.len() == nums@[ii]@.len() && forall|j: int|
                    0 <= j < nums@[ii]@.len() ==> #[trigger] r@[ii]@[j] == cell_char(
                        nums@[ii]@[j],
                        player == Some((ii as usize, j as usize)),
                        common,
                    ),
    {
        let row = &nums[i];
        let mut marks: Vec<char> = Vec::new();
        for j in 0..row.len()
            invariant
                row@ == nums@[i as int]@,
                marks@.len() == j,
                forall|jj: int|
                    0 <= jj < j ==> #[trigger] marks@[jj] == cell_char(
                        row@[jj],
                        player == Some((i, jj as usize)),
                        common,
                    ),
        {
            let amt = row[j];
            let mark = if amt == 0 {
                ' '
            } else if player == Some((i, j)) {
                'x'
            } else if amt >= common {
                '\u{2022}'
            } else {
                '\u{b7}'
            };
            marks.push(mark);
        }
        r.push(marks);
    }
    r
}

/// The labels under a horizontal axis of `w` columns, from column `j` on,
/// the next label being allowed from column `next` on: at each column from
/// `next` on, the value `min + step * j` of that column, where it fits
/// before the end of the axis; a label leaves at least one free column
/// before the next one.
pub open spec fn x_labels_from(min: nat, step: nat, w: int, j: int, next: int) -> Seq<(int, Seq<char>)>
    decreases w - j,
{
    if j >= w {
        Seq::empty()
    } else if j >= next {
        let val = decimal_digits((min + step * j) as nat);
        if j + val.len() > w {
            x_labels_from(min, step, w, j + 1, next)
        } else {
            seq![(j, val)] + x_labels_from(min, step, w, j + 1, j + val.len() + 1)
        }
    } else {
        x_labels_from(min, step, w, j + 1, next)
    }
}

/// Labels as columns and texts.
pub open spec fn labels_view(v: Seq<(usize, String)>) -> Seq<(int, Seq<char>)> {
    v.map_values(|p: (usize, String)| (p.0 as int, p.1@))
}

/// The labels of a horizontal axis of `w` columns starting at `min`, `step`
/// apart, as `x_labels_from` says from the first column.
pub fn x_labels(min: u32, step: u32, w: usize) -> (r: Vec<(usize, String)>)
    requires
        w <= i32::MAX,
    ensures
        labels_view(r@) == x_labels_from(min as nat, step as nat, w as int, 0, 0),
{
    let mut r: Vec<(usize, String)> = Vec::new();
    let mut next: usize = 0;
    for j in 0..w
        invariant
            next <= w + 1,
            w <= i32::MAX,
            labels_view(r@) + x_labels_from(min as nat, step as nat, w as int, j as int, next as int)
                == x_labels_from(min as nat, step as nat, w as int, 0, 0),
    {
        if j >= next {
            assert(step * j <= u32::MAX * i32::MAX) by (nonlinear_arith)
                requires
                    step <= u32::MAX,
                    j <= i32::MAX,
            ;
            let v: u64 = min as u64 + (step as u64) * (j as u64);
            let text = u64_to_decimal(v);
            let len = chars_of(text.as_str()).len();
            if len <= w - j {
                let ghost before = r@;
                r.push((j, text));
                assert(labels_view(r@) =~= labels_view(before) + seq![(j as int, text@)]);
                next = j + len + 1;
            }
        }
    }
    assert(labels_view(r@) + x_labels_from(min as nat, step as nat, w as int, w as int, next as int)
        =~= labels_view(r@));
    r
}

/// The labels beside a vertical axis of `h` rows starting at `min`, `step`
/// apart: the value of every second row, from the first, the top row left
/// out.
pub fn y_labels(min: u32, step: u32, h: usize) -> (r: Vec<(usize, u64)>)
    requires
        h <= i32::MAX,
    ensures
        r@.len() == h / 2,
        forall|k: int|
            0 <= k < r@.len() ==> #[trigger] r@[k] == ((2 * k) as usize, (min + step * (2 * k)) as u64),
{
    let mut r: Vec<(usize, u64)> = Vec::new();
    let mut i: usize = 0;
    while i + 1 < h
        invariant
            i % 2 == 0,
            i <= h + 1,
            h <= i32::MAX,
            r@.len() == i / 2,
            i < h ==> r@.len() <= h / 2,
            i >= h ==> r@.len() == h / 2,
            forall|k: int|
                0 <= k < r@.len() ==> #[trigger] r@[k] == ((2 * k) as usize, (min + step * (2 * k)) as u64),
        decreases h + 1 - i,
    {
        assert(step * i <= u32::MAX * i32::MAX) by (nonlinear_arith)
            requires
                step <= u32::MAX,
                i <= i32::MAX,
        ;
        r.push((i, min as u64 + (step as u64) * (i as u64)));
        i = i + 2;
    }
    r
}

proof fn lemma_flat_len(rows: Seq<Vec<u32>>, w: int)
    requires
        forall|i: int| 0 <= i < rows.len() ==> (#[trigger] rows[i])@.len() == w,
    ensures
        flat(rows).len() == rows.len() * w,
    decreases rows.len(),
{
    if rows.len() > 0 {
        lemma_flat_len(rows.drop_last(), w);
        assert(rows.last() == rows[rows.len() - 1]);
        assert((rows.len() - 1) * w + w == rows.len() * w) by (nonlinear_arith);
    }
}

/// What the chart of a leaderboard shows.
#[derive(Debug)]
pub struct Chart {
    /// The players in each cell: rows from the bottom, columns from the left.
    pub counts: Vec<Vec<u32>>,
    /// The count from which a cell is marked as common.
    pub common: u32,
    /// The mark of each cell.
    pub cells: Vec<Vec<char>>,
    /// The labels under the chart: columns and texts.
    pub x_labels: Vec<(usize, String)>,
    /// The labels beside the chart: rows and values, in hundredths of a
    /// reduction.
    pub y_labels: Vec<(usize, u64)>,
}

/// The columns of the chart inside the box `location`.
pub open spec fn chart_width(location: Rect) -> int {
    location.size.w - 10
}

/// The rows of the chart inside the box `location`.
pub open spec fn chart_height(location: Rect) -> int {
    location.size.h - 10
}

/// Where an axis of `size` buckets over `values` starts.
pub open spec fn axis_min(values: Seq<u32>) -> int {
    if values.len() == 0 {
        0
    } else {
        seq_min(values) as int
    }
}

/// The width of a bucket of an axis of `size` buckets over `values`.
pub open spec fn axis_step_of(values: Seq<u32>, size: int) -> int {
    if values.len() == 0 {
        1
    } else {
        axis_step(seq_min(values) as int, seq_max(values) as int, size)
    }
}

/// The bucket of each of `values` on an axis of `size` buckets.
pub open spec fn buckets(values: Seq<u32>, size: int) -> Seq<usize> {
    Seq::new(values.len(), |k: int| ((values[k] - axis_min(values)) / axis_step_of(values, size)) as usize)
}

/// The numbers of functions of the points.
pub open spec fn functions_of(points: Seq<ChartPoint>) -> Seq<u32> {
    points.map_values(|p: ChartPoint| p.functions)
}

/// The reductions (in hundredths) of the points.
pub open spec fn reductions_of(points: Seq<ChartPoint>) -> Seq<u32> {
    points.map_values(|p: ChartPoint| p.reductions_x100)
}

fn functions_vec(points: &Vec<ChartPoint>) -> (r: Vec<u32>)
    ensures
        r@ == functions_of(points@),
{
    let mut r: Vec<u32> = Vec::new();
    for k in 0..points.len()
        invariant
            r@ == functions_of(points@).take(k as int),
    {
        r.push(points[k].functions);
        assert(r@ =~= functions_of(points@).take(k + 1));
    }
    assert(r@ =~= functions_of(points@));
    r
}

fn reductions_vec(points: &Vec<ChartPoint>) -> (r: Vec<u32>)
    ensures
        r@ == reductions_of(points@),
{
    let mut r: Vec<u32> = Vec::new();
    for k in 0..points.len()
        invariant
            r@ == reductions_of(points@).take(k as int),
    {
        r.push(points[k].reductions_x100);
        assert(r@ =~= reductions_of(points@).take(k + 1));
    }
    assert(r@ =~= reductions_of(points@));
    r
}

/// The chart of the leaderboard `points` in the box `location`, `player`
/// being the index of the player's own score: the functions used across, the
/// reductions up, each spread over the chart with `distribute`; each cell
/// holds the players whose scores fall in it, and is marked with
/// `cell_char`, the common count being `get_common` of the cells.
pub fn chart(points: &Vec<ChartPoint>, player: Option<usize>, location: Rect) -> (r: Chart)
    requires
        12 <= location.size.w,
        12 <= location.size.h,
        (location.size.w - 10) * (location.size.h - 10) * 50 <= u32::MAX,
        count_total(points@, points.len() as int) <= u32::MAX,
        player matches Some(p) ==> p < points.len(),
        points.len() > 0 ==> seq_max(functions_of(points@)) - seq_min(functions_of(points@))
            + chart_width(location) < u32::MAX,
        points.len() > 0 ==> seq_max(reductions_of(points@)) - seq_min(reductions_of(points@))
            + chart_height(location) < u32::MAX,
    ensures
        ({
            let w = chart_width(location);
            let h = chart_height(location);
            let xs = buckets(functions_of(points@), w);
            let ys = buckets(reductions_of(points@), h);
            &&& r.counts@.len() == h
            &&& r.cells@.len() == h
            &&& forall|i: int|
                0 <= i < h ==> {
                    &&& (#[trigger] r.counts@[i])@.len() == w
                    &&& r.cells@[i]@.len() == w
                    &&& forall|j: int|
                        0 <= j < w ==> {
                            &&& #[trigger] r.counts@[i]@[j] == cell_total(
                                points@,
                                xs,
                                ys,
                                points.len() as int,
                                i,
                                j,
                            )
                            &&& r.cells@[i]@[j] == cell_char(
                                r.counts@[i]@[j],
                                player matches Some(p) && ys[p as int] == i && xs[p as int] == j,
                                r.common,
                            )
                        }
                }
            &&& r.common == common_of(flat(r.counts@))
            &&& labels_view(r.x_labels@) == x_labels_from(
                axis_min(functions_of(points@)) as nat,
                axis_step_of(functions_of(points@), w) as nat,
                w,
                0,
                0,
            )
            &&& r.y_labels@.len() == h / 2
            &&& forall|k: int|
                0 <= k < r.y_labels@.len() ==> #[trigger] r.y_labels@[k] == (
                    (2 * k) as usize,
                    (axis_min(reductions_of(points@)) + axis_step_of(reductions_of(points@), h) * (2
                        * k)) as u64,
                )
        }),
{
    let w = (location.size.w - 10) as u32;
    let h = (location.size.h - 10) as u32;
    let fs = functions_vec(points);
    let rs = reductions_vec(points);
    let x_axis = distribute(&fs, w);
    let y_axis = distribute(&rs, h);
    let ghost xs = buckets(functions_of(points@), w as int);
    let ghost ys = buckets(reductions_of(points@), h as int);
    assert(x_axis.data@ =~= xs);
    assert(y_axis.data@ =~= ys);
    let counts = chart_counts(points, &x_axis.data, &y_axis.data, w as usize, h as usize);
    proof {
        lemma_flat_len(counts@, w as int);
        lemma_count_bound(flat(counts@), 0);
        assert(count_greater(flat(counts@), 0) * 50 <= (h * w) * 50) by (nonlinear_arith)
            requires
                count_greater(flat(counts@), 0) <= flat(counts@).len(),
                flat(counts@).len() == h * w,
        ;
        assert((h * w) * 50 == (location.size.w - 10) * (location.size.h - 10) * 50) by (nonlinear_arith)
            requires
                w == location.size.w - 10,
                h == location.size.h - 10,
        ;
    }
    let common = get_common(&counts);
    let mark_at = match player {
        Some(p) => Some((y_axis.data[p], x_axis.data[p])),
        None => None,
    };
    let cells = chart_cells(&counts, mark_at, common);
    let x_labels = x_labels(x_axis.min, x_axis.step, w as usize);
    let y_labels = y_labels(y_axis.min, y_axis.step, h as usize);
    Chart { counts, common, cells, x_labels, y_labels }
}

/// Where cell (`i`, `j`) of the chart in the box `location` is on the
/// screen; row `i` counts up from the bottom, and negative rows and columns
/// reach the axes and their labels.
pub fn chart_pos(location: &Rect, i: i32, j: i32) -> (r: Pos)
    requires
        i32::MIN <= location.pos.i + 2 + (location.size.h - 10) - i <= i32::MAX,
        i32::MIN <= location.pos.j + 8 + j <= i32::MAX,
    ensures
        r.i == location.pos.i + 2 + chart_height(*location) - i,
        r.j == location.pos.j + 1 + 7 + j,
{
    let pi = location.pos.i as i64 + 2 + (location.size.h as i64 - 10) - i as i64;
    let pj = location.pos.j as i64 + 1 + 7 + j as i64;
    Pos { i: pi as i32, j: pj as i32 }
}

/// A call to the leaderboard service.
#[derive(Debug, Clone, Copy, PartialEq, Eq, Structural)]
pub enum Op {
    FindLeaderboard,
    LoadEntries,
}

/// Why the leaderboard could not be loaded.
#[derive(Debug, PartialEq, Eq)]
pub enum LeaderboardLoadError {
    /// The service found no leaderboard for the level.
    FailedToFindLeaderboard,
    /// The reply channel closed before the reply of the call came.
    ChannelDisconnected(Op),
    /// The service answered the call with this error.
    SteamError(Op, String),
}

/// Where loading a leaderboard stands.
#[derive(Debug)]
pub enum LoadState {
    /// Nothing asked yet (or no service at hand).
    Initial,
    /// The leaderboard was asked for.
    WaitingForLeaderboard,
    /// Its entries were asked for.
    DownloadingEntries,
    Failed(LeaderboardLoadError),
    /// The scores, ready to be drawn.
    Loaded(Vec<ChartPoint>),
}

/// What the service answered this frame, if anything.
pub enum LoadReply {
    /// Nothing yet.
    Pending,
    /// The reply channel closed.
    Disconnected,
    /// The leaderboard was found.
    Found,
    /// There is no such leaderboard.
    NotFound,
    /// The entries came.
    Entries,
    /// The call failed, with this error.
    Failure(String),
}

/// What to ask of the service after a frame.
#[derive(Debug, Clone, Copy, PartialEq, Eq, Structural)]
pub enum LoadAction {
    Nothing,
    /// Find (or create) the leaderboard of the level.
    FindLeaderboard,
    /// Download the entries of the leaderboard that was found.
    DownloadEntries,
}

pub open spec fn op_text(op: Op) -> Seq<char> {
    match op {
        Op::FindLeaderboard => "FindLeaderboard"@,
        Op::LoadEntries => "LoadEntries"@,
    }
}

pub open spec fn load_error_text(e: LeaderboardLoadError) -> Seq<char> {
    match e {
        LeaderboardLoadError::FailedToFindLeaderboard => "Steam call did not find leaderboard"@,
        LeaderboardLoadError::ChannelDisconnected(op) => "Channel got disconnected on "@ + op_text(op),
        LeaderboardLoadError::SteamError(op, m) => "Error calling Steam on "@ + op_text(op) + ": "@
            + m@,
    }
}

impl Op {
    pub fn name(&self) -> (r: &'static str)
        ensures
            r@ == op_text(*self),
    {
        match self {
            Op::FindLeaderboard => "FindLeaderboard",
            Op::LoadEntries => "LoadEntries",
        }
    }
}

impl LeaderboardLoadError {
    pub fn to_string(&self) -> (r: String)
        ensures
            r@ == load_error_text(*self),
    {
        let mut r = String::new();
        match self {
            LeaderboardLoadError::FailedToFindLeaderboard => {
                push_str(&mut r, "Steam call did not find leaderboard");
            },
            LeaderboardLoadError::ChannelDisconnected(op) => {
                push_str(&mut r, "Channel got disconnected on ");
                push_str(&mut r, op.name());
            },
            LeaderboardLoadError::SteamError(op, m) => {
                push_str(&mut r, "Error calling Steam on ");
                push_str(&mut r, op.name());
                push_str(&mut r, ": ");
                push_str(&mut r, m.as_str());
            },
        }
        r
    }
}

/// The text of the leaderboard box in state `st`.
pub open spec fn load_state_text(st: LoadState) -> Seq<char> {
    match st {
        LoadState::Initial => "Use Steam version of the game for leaderboards"@,
        LoadState::Loaded(_) => Seq::empty(),
        LoadState::Failed(e) => "Failed to get leaderboards. ("@ + load_error_text(e) + ")"@,
        _ => "Loading..."@,
    }
}

pub fn load_state_text_of(st: &LoadState) -> (r: String)
    ensures
        r@ == load_state_text(*st),
{
    let mut r = String::new();
    match st {
        LoadState::Initial => push_str(&mut r, "Use Steam version of the game for leaderboards"),
        LoadState::Loaded(_) => {},
        LoadState::Failed(e) => {
            push_str(&mut r, "Failed to get leaderboards. (");
            let t = e.to_string();
            push_str(&mut r, t.as_str());
            push_str(&mut r, ")");
        },
        _ => push_str(&mut r, "Loading..."),
    }
    r
}

/// One frame of loading: with no service at hand the state goes back to
/// the start. Otherwise, from the start the leaderboard is asked for; while
/// waiting, a found leaderboard has its entries asked for, and a missing
/// one, an error or a closed channel make the loading fail; while
/// downloading, a closed channel makes it fail and anything else leaves it
/// waiting. A failed or loaded state stays as it is.
pub fn load_step(st: LoadState, service: bool, reply: LoadReply) -> (r: (LoadState, LoadAction))
    ensures
        !service ==> r.0 is Initial && r.1 == LoadAction::Nothing,
        service ==> match st {
            LoadState::Initial => r.0 is WaitingForLeaderboard && r.1 == LoadAction::FindLeaderboard,
            LoadState::WaitingForLeaderboard => match reply {
                LoadReply::Found => r.0 is DownloadingEntries && r.1 == LoadAction::DownloadEntries,
                LoadReply::NotFound => r.0 == LoadState::Failed(
                    LeaderboardLoadError::FailedToFindLeaderboard,
                ) && r.1 == LoadAction::Nothing,
                LoadReply::Failure(m) => r.0 == LoadState::Failed(
                    LeaderboardLoadError::SteamError(Op::FindLeaderboard, m),
                ) && r.1 == LoadAction::Nothing,
                LoadReply::Disconnected => r.0 == LoadState::Failed(
                    LeaderboardLoadError::ChannelDisconnected(Op::FindLeaderboard),
                ) && r.1 == LoadAction::Nothing,
                _ => r.0 is WaitingForLeaderboard && r.1 == LoadAction::Nothing,
            },
            LoadState::DownloadingEntries => match reply {
                LoadReply::Disconnected => r.0 == LoadState::Failed(
                    LeaderboardLoadError::ChannelDisconnected(Op::LoadEntries),
                ) && r.1 == LoadAction::Nothing,
                _ => r.0 is DownloadingEntries && r.1 == LoadAction::Nothing,
            },
            _ => r.0 == st && r.1 == LoadAction::Nothing,
        },
{
    if !service {
        return (LoadState::Initial, LoadAction::Nothing);
    }
    match st {
        LoadState::Initial => (LoadState::WaitingForLeaderboard, LoadAction::FindLeaderboard),
        LoadState::WaitingForLeaderboard => match reply {
            LoadReply::Found => (LoadState::DownloadingEntries, LoadAction::DownloadEntries),
            LoadReply::NotFound => (
                LoadState::Failed(LeaderboardLoadError::FailedToFindLeaderboard),
                LoadAction::Nothing,
            ),
            LoadReply::Failure(m) => (
                LoadState::Failed(LeaderboardLoadError::SteamError(Op::FindLeaderboard, m)),
                LoadAction::Nothing,
            ),
            LoadReply::Disconnected => (
                LoadState::Failed(LeaderboardLoadError::ChannelDisconnected(Op::FindLeaderboard)),
                LoadAction::Nothing,
            ),
            _ => (LoadState::WaitingForLeaderboard, LoadAction::Nothing),
        },
        LoadState::DownloadingEntries => match reply {
            LoadReply::Disconnected => (
                LoadState::Failed(LeaderboardLoadError::ChannelDisconnected(Op::LoadEntries)),
                LoadAction::Nothing,
            ),
            _ => (LoadState::DownloadingEntries, LoadAction::Nothing),
        },
        other => (other, LoadAction::Nothing),
    }
}

/// The name of the leaderboard of the level named `level_name`.
pub fn leaderboard_name(level_name: &str) -> (r: String)
    ensures
        r@ == "level_"@ + level_name@,
{
    let mut r = String::new();
    push_str(&mut r, "level_");
    push_str(&mut r, level_name);
    r
}

/// How the friends' leaderboard lays out `n` entries in a box `h` rows
/// high: the row step (two when the entries fit twice over, else one), how
/// many entries show (at most `h - 6`), and whether a last row of dots says
/// that more are left out.
pub fn friend_layout(n: usize, h: i32) -> (r: (i32, usize, bool))
    requires
        h >= 6,
        n <= i32::MAX,
    ensures
        r.0 == if n < (h - 5) / 2 {
            2i32
        } else {
            1i32
        },
        r.1 == if n < h - 6 {
            n as int
        } else {
            h - 6
        },
        r.2 == (n > h - 6),
{
    let step = if (n as i32) < (h - 5) / 2 {
        2
    } else {
        1
    };
    let room = (h - 6) as usize;
    let shown = if n < room {
        n
    } else {
        room
    };
    (step, shown, n > room)
}

} // verus!
