//! Sums of a function of pixel coordinates over a rectangle of pixels.
//!
//! Every total that the optimizer works with (an error, a count, a score)
//! is such a sum; the lemmas here are what relates one to another.

use vstd::prelude::*;

verus! {

/// The sum of `f(x, y)` over the columns `x` from `x0` up to, not
/// including, `x1`.
pub open spec fn sum_row(f: spec_fn(int, int) -> int, y: int, x0: int, x1: int) -> int
    decreases x1 - x0,
{
    if x1 <= x0 {
        0
    } else {
        sum_row(f, y, x0, x1 - 1) + f(x1 - 1, y)
    }
}

/// The sum of `f(x, y)` over the columns from `x0` up to `x1` and the rows
/// from `y0` up to `y1`, each without its upper end.
pub open spec fn sum_rect(f: spec_fn(int, int) -> int, x0: int, x1: int, y0: int, y1: int) -> int
    decreases y1 - y0,
{
    if y1 <= y0 {
        0
    } else {
        sum_rect(f, x0, x1, y0, y1 - 1) + sum_row(f, y1 - 1, x0, x1)
    }
}

/// A row's sum is the sum of its two parts.
pub proof fn lemma_row_split(f: spec_fn(int, int) -> int, y: int, x0: int, xm: int, x1: int)
    requires
        x0 <= xm <= x1,
    ensures
        sum_row(f, y, x0, x1) == sum_row(f, y, x0, xm) + sum_row(f, y, xm, x1),
    decreases x1 - xm,
{
    if xm < x1 {
        lemma_row_split(f, y, x0, xm, x1 - 1);
    }
}

/// Where `f` is `g + h` on every pixel of a row, so are the sums.
pub proof fn lemma_row_add(
    f: spec_fn(int, int) -> int,
    g: spec_fn(int, int) -> int,
    h: spec_fn(int, int) -> int,
    y: int,
    x0: int,
    x1: int,
)
    requires
        forall|x: int| x0 <= x < x1 ==> #[trigger] f(x, y) == g(x, y) + h(x, y),
    ensures
        sum_row(f, y, x0, x1) == sum_row(g, y, x0, x1) + sum_row(h, y, x0, x1),
    decreases x1 - x0,
{
    if x0 < x1 {
        lemma_row_add(f, g, h, y, x0, x1 - 1);
    }
}

/// Where `f` is `k * g` on every pixel of a row, so are the sums.
pub proof fn lemma_row_scale(
    f: spec_fn(int, int) -> int,
    g: spec_fn(int, int) -> int,
    k: int,
    y: int,
    x0: int,
    x1: int,
)
    requires
        forall|x: int| x0 <= x < x1 ==> #[trigger] f(x, y) == k * g(x, y),
    ensures
        sum_row(f, y, x0, x1) == k * sum_row(g, y, x0, x1),
    decreases x1 - x0,
{
    if x0 < x1 {
        lemma_row_scale(f, g, k, y, x0, x1 - 1);
        assert(k * (sum_row(g, y, x0, x1 - 1) + g(x1 - 1, y)) == k * sum_row(g, y, x0, x1 - 1) + k
            * g(x1 - 1, y)) by (nonlinear_arith);
    } else {
        assert(k * 0 == 0) by (nonlinear_arith);
    }
}

/// Where `f` lies between `lo` and `hi` on every pixel of a row, the sum
/// lies between that many times `lo` and `hi`.
pub proof fn lemma_row_bounds(
    f: spec_fn(int, int) -> int,
    lo: int,
    hi: int,
    y: int,
    x0: int,
    x1: int,
)
    requires
        x0 <= x1,
        forall|x: int| x0 <= x < x1 ==> lo <= #[trigger] f(x, y) <= hi,
    ensures
        (x1 - x0) * lo <= sum_row(f, y, x0, x1) <= (x1 - x0) * hi,
    decreases x1 - x0,
{
    if x0 < x1 {
        lemma_row_bounds(f, lo, hi, y, x0, x1 - 1);
        assert((x1 - x0) * lo == (x1 - 1 - x0) * lo + lo) by (nonlinear_arith);
        assert((x1 - x0) * hi == (x1 - 1 - x0) * hi + hi) by (nonlinear_arith);
    } else {
        assert((x1 - x0) * lo == 0 && (x1 - x0) * hi == 0) by (nonlinear_arith)
            requires
                x1 - x0 == 0,
        ;
    }
}

/// A rectangle's sum is the sum of its upper and lower parts.
pub proof fn lemma_rect_split_rows(
    f: spec_fn(int, int) -> int,
    x0: int,
    x1: int,
    y0: int,
    ym: int,
    y1: int,
)
    requires
        y0 <= ym <= y1,
    ensures
        sum_rect(f, x0, x1, y0, y1) == sum_rect(f, x0, x1, y0, ym) + sum_rect(f, x0, x1, ym, y1),
    decreases y1 - ym,
{
    if ym < y1 {
        lemma_rect_split_rows(f, x0, x1, y0, ym, y1 - 1);
    }
}

/// A rectangle's sum is the sum of its left and right parts.
pub proof fn lemma_rect_split_columns(
    f: spec_fn(int, int) -> int,
    x0: int,
    xm: int,
    x1: int,
    y0: int,
    y1: int,
)
    requires
        x0 <= xm <= x1,
    ensures
        sum_rect(f, x0, x1, y0, y1) == sum_rect(f, x0, xm, y0, y1) + sum_rect(f, xm, x1, y0, y1),
    decreases y1 - y0,
{
    if y0 < y1 {
        lemma_rect_split_columns(f, x0, xm, x1, y0, y1 - 1);
        lemma_row_split(f, y1 - 1, x0, xm, x1);
    }
}

/// Where `f` is `g + h` on every pixel of a rectangle, so are the sums.
pub proof fn lemma_rect_add(
    f: spec_fn(int, int) -> int,
    g: spec_fn(int, int) -> int,
    h: spec_fn(int, int) -> int,
    x0: int,
    x1: int,
    y0: int,
    y1: int,
)
    requires
        forall|x: int, y: int|
            x0 <= x < x1 && y0 <= y < y1 ==> #[trigger] f(x, y) == g(x, y) + h(x, y),
    ensures
        sum_rect(f, x0, x1, y0, y1) == sum_rect(g, x0, x1, y0, y1) + sum_rect(h, x0, x1, y0, y1),
    decreases y1 - y0,
{
    if y0 < y1 {
        lemma_rect_add(f, g, h, x0, x1, y0, y1 - 1);
        lemma_row_add(f, g, h, y1 - 1, x0, x1);
    }
}

/// Where `f` is `k * g` on every pixel of a rectangle, so are the sums.
pub proof fn lemma_rect_scale(
    f: spec_fn(int, int) -> int,
    g: spec_fn(int, int) -> int,
    k: int,
    x0: int,
    x1: int,
    y0: int,
    y1: int,
)
    requires
        forall|x: int, y: int| x0 <= x < x1 && y0 <= y < y1 ==> #[trigger] f(x, y) == k * g(x, y),
    ensures
        sum_rect(f, x0, x1, y0, y1) == k * sum_rect(g, x0, x1, y0, y1),
    decreases y1 - y0,
{
    if y0 < y1 {
        lemma_rect_scale(f, g, k, x0, x1, y0, y1 - 1);
        lemma_row_scale(f, g, k, y1 - 1, x0, x1);
        assert(k * (sum_rect(g, x0, x1, y0, y1 - 1) + sum_row(g, y1 - 1, x0, x1)) == k * sum_rect(
            g,
            x0,
            x1,
            y0,
            y1 - 1,
        ) + k * sum_row(g, y1 - 1, x0, x1)) by (nonlinear_arith);
    } else {
        assert(k * 0 == 0) by (nonlinear_arith);
    }
}

/// Where `f` lies between `lo` and `hi` on every pixel of a rectangle, the
/// sum lies between the rectangle's area times `lo` and times `hi`.
pub proof fn lemma_rect_bounds(
    f: spec_fn(int, int) -> int,
    lo: int,
    hi: int,
    x0: int,
    x1: int,
    y0: int,
    y1: int,
)
    requires
        x0 <= x1,
        y0 <= y1,
        forall|x: int, y: int| x0 <= x < x1 && y0 <= y < y1 ==> lo <= #[trigger] f(x, y) <= hi,
    ensures
        (y1 - y0) * (x1 - x0) * lo <= sum_rect(f, x0, x1, y0, y1) <= (y1 - y0) * (x1 - x0) * hi,
    decreases y1 - y0,
{
    let n = x1 - x0;
    if y0 < y1 {
        lemma_rect_bounds(f, lo, hi, x0, x1, y0, y1 - 1);
        lemma_row_bounds(f, lo, hi, y1 - 1, x0, x1);
        assert((y1 - y0) * n * lo == (y1 - 1 - y0) * n * lo + n * lo) by (nonlinear_arith);
        assert((y1 - y0) * n * hi == (y1 - 1 - y0) * n * hi + n * hi) by (nonlinear_arith);
    } else {
        assert((y1 - y0) * n * lo == 0 && (y1 - y0) * n * hi == 0) by (nonlinear_arith)
            requires
                y1 - y0 == 0,
        ;
    }
}

/// Functions that agree on every pixel of a row have the same sum there.
pub proof fn lemma_row_same(
    f: spec_fn(int, int) -> int,
    g: spec_fn(int, int) -> int,
    y: int,
    x0: int,
    x1: int,
)
    requires
        forall|x: int| x0 <= x < x1 ==> #[trigger] f(x, y) == g(x, y),
    ensures
        sum_row(f, y, x0, x1) == sum_row(g, y, x0, x1),
    decreases x1 - x0,
{
    if x0 < x1 {
        lemma_row_same(f, g, y, x0, x1 - 1);
    }
}

/// Functions that agree on every pixel of a rectangle have the same sum
/// there.
pub proof fn lemma_rect_same(
    f: spec_fn(int, int) -> int,
    g: spec_fn(int, int) -> int,
    x0: int,
    x1: int,
    y0: int,
    y1: int,
)
    requires
        forall|x: int, y: int| x0 <= x < x1 && y0 <= y < y1 ==> #[trigger] f(x, y) == g(x, y),
    ensures
        sum_rect(f, x0, x1, y0, y1) == sum_rect(g, x0, x1, y0, y1),
    decreases y1 - y0,
{
    if y0 < y1 {
        lemma_rect_same(f, g, x0, x1, y0, y1 - 1);
        lemma_row_same(f, g, y1 - 1, x0, x1);
    }
}

/// A rectangle without columns has the sum 0.
pub proof fn lemma_rect_empty_columns(
    f: spec_fn(int, int) -> int,
    x0: int,
    x1: int,
    y0: int,
    y1: int,
)
    requires
        x1 <= x0,
    ensures
        sum_rect(f, x0, x1, y0, y1) == 0,
    decreases y1 - y0,
{
    if y0 < y1 {
        lemma_rect_empty_columns(f, x0, x1, y0, y1 - 1);
    }
}

/// A function that is 0 outside an inner rectangle has the same sum over
/// any rectangle that holds the inner one.
pub proof fn lemma_rect_restrict(
    f: spec_fn(int, int) -> int,
    x0: int,
    x1: int,
    y0: int,
    y1: int,
    a0: int,
    a1: int,
    b0: int,
    b1: int,
)
    requires
        x0 <= a0 <= a1 <= x1,
        y0 <= b0 <= b1 <= y1,
        forall|x: int, y: int|
            x0 <= x < x1 && y0 <= y < y1 && !(a0 <= x < a1 && b0 <= y < b1) ==> #[trigger] f(x, y)
                == 0,
    ensures
        sum_rect(f, x0, x1, y0, y1) == sum_rect(f, a0, a1, b0, b1),
{
    lemma_rect_split_rows(f, x0, x1, y0, b0, y1);
    lemma_rect_split_rows(f, x0, x1, b0, b1, y1);
    lemma_rect_bounds(f, 0, 0, x0, x1, y0, b0);
    lemma_rect_bounds(f, 0, 0, x0, x1, b1, y1);
    lemma_rect_split_columns(f, x0, a0, x1, b0, b1);
    lemma_rect_split_columns(f, a0, a1, x1, b0, b1);
    lemma_rect_bounds(f, 0, 0, x0, a0, b0, b1);
    lemma_rect_bounds(f, 0, 0, a1, x1, b0, b1);
    assert(forall|n: int| #[trigger] (n * 0) == 0) by (nonlinear_arith);
}

} // verus!
