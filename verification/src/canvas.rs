//! The two pictures that the fitter works on, as mathematics: the target,
//! the canvas that approximates it, and what painting an ellipse does to the
//! canvas and to its error.

use crate::fixed::{clamp, cos_fx, sin_fx, UNIT};
use crate::optimizer::Score;
use crate::shapes::Ellipse;
use crate::sums::{lemma_rect_bounds, lemma_rect_empty_columns, lemma_rect_same, sum_rect};
use vstd::prelude::*;

verus! {

/// The fill of a shape that covers no pixel.
pub const EMPTY_COVER_GRAY: u8 = 128;

/// A target picture and the canvas that approximates it, both `width` by
/// `height` pixels of four bytes each (red, green, blue, opacity), row by
/// row.
pub ghost struct Canvas {
    pub target: Seq<u8>,
    pub current: Seq<u8>,
    pub width: u32,
    pub height: u32,
}

/// Where the four bytes of the pixel (`px`, `py`) start in a picture `w` wide.
pub open spec fn offset(w: int, px: int, py: int) -> int {
    (py * w + px) * 4
}

/// A channel value `c` of the canvas after painting value `k` over it with
/// opacity `a` of 255: `c (1 - a/255) + k a/255`, rounded down.
pub open spec fn blend(c: int, k: int, a: int) -> int {
    (c * (255 - a) + k * a) / 255
}

/// The paint value that, put over the canvas value `c` with opacity `a` of
/// 255, comes nearest to the target value `t`: `(t - c (1 - a/255)) / (a/255)`,
/// held to the range of a byte and rounded down.
pub open spec fn ideal(t: int, c: int, a: int) -> int {
    clamp((255 * t - c * (255 - a)) / a, 0, 255)
}

/// The square of `d`.
pub open spec fn square(d: int) -> int {
    d * d
}

/// The squared distance in red, green and blue between a target pixel and
/// three channel values.
pub open spec fn distance(target: Seq<u8>, at: int, r: int, g: int, b: int) -> int {
    square(target[at] - r) + square(target[at + 1] - g) + square(target[at + 2] - b)
}

/// The squared error of the canvas pixel that starts at byte `at`.
pub open spec fn pixel_error(target: Seq<u8>, canvas: Seq<u8>, at: int) -> int {
    distance(target, at, canvas[at] as int, canvas[at + 1] as int, canvas[at + 2] as int)
}

/// The squared error that the canvas pixel at byte `at` would have after
/// `color` is painted over it.
pub open spec fn painted_error(
    target: Seq<u8>,
    canvas: Seq<u8>,
    at: int,
    color: (u8, u8, u8, u8),
) -> int {
    distance(
        target,
        at,
        blend(canvas[at] as int, color.0 as int, color.3 as int),
        blend(canvas[at + 1] as int, color.1 as int, color.3 as int),
        blend(canvas[at + 2] as int, color.2 as int, color.3 as int),
    )
}

/// One of the first three parts of a colour.
pub open spec fn part(color: (u8, u8, u8, u8), ch: int) -> u8 {
    if ch == 0 {
        color.0
    } else if ch == 1 {
        color.1
    } else {
        color.2
    }
}

/// Byte `i` of the canvas after `e` is painted on it with its fill: in a
/// pixel that `e` covers, opacity becomes 255 and each colour channel is
/// blended with the fill; every other byte stays.
pub open spec fn painted_byte(canvas: Seq<u8>, w: int, h: int, e: Ellipse, i: int) -> u8 {
    let pixel = i / 4;
    let ch = i % 4;
    if e.covers(w, h, pixel % w, pixel / w) {
        if ch == 3 {
            255u8
        } else {
            blend(canvas[i] as int, part(e.color, ch) as int, e.color.3 as int) as u8
        }
    } else {
        canvas[i]
    }
}

/// The canvas after `e` is painted on it with its fill.
pub open spec fn painted(canvas: Seq<u8>, w: int, h: int, e: Ellipse) -> Seq<u8> {
    Seq::new(canvas.len(), |i: int| painted_byte(canvas, w, h, e, i))
}

/// The error of `canvas` against `target`, pixel by pixel.
pub open spec fn error_map(target: Seq<u8>, canvas: Seq<u8>, w: int) -> spec_fn(int, int) -> int {
    |px: int, py: int| pixel_error(target, canvas, offset(w, px, py))
}

/// The summed squared error of `canvas` against `target`, both `w` by `h`.
pub open spec fn total_error(target: Seq<u8>, canvas: Seq<u8>, w: int, h: int) -> int {
    sum_rect(error_map(target, canvas, w), 0, w, 0, h)
}

/// The pixel in row `py` and column `px` of a picture `w` by `h` starts
/// within the picture's bytes.
pub proof fn lemma_offset_in_range(w: int, h: int, px: int, py: int)
    requires
        0 <= px < w,
        0 <= py < h,
    ensures
        0 <= offset(w, px, py),
        offset(w, px, py) + 4 <= 4 * (w * h),
        0 <= py * w + px < w * h,
{
    assert(0 <= py * w && py * w + w <= h * w && h * w == w * h) by (nonlinear_arith)
        requires
            0 <= py < h,
            0 < w,
    ;
}

/// A blend of two bytes is a byte, and lies between the two.
pub proof fn lemma_blend_is_byte(c: int, k: int, a: int)
    requires
        0 <= c <= 255,
        0 <= k <= 255,
        0 <= a <= 255,
    ensures
        0 <= blend(c, k, a) <= 255,
        c <= k ==> c <= blend(c, k, a) <= k,
        k <= c ==> k <= blend(c, k, a) <= c,
{
    assert(c * (255 - a) + k * a >= 0 && c * (255 - a) + k * a <= 255 * 255) by (nonlinear_arith)
        requires
            0 <= c <= 255,
            0 <= k <= 255,
            0 <= a <= 255,
    ;
    if c <= k {
        assert(c * 255 <= c * (255 - a) + k * a <= k * 255) by (nonlinear_arith)
            requires
                0 <= c <= k,
                0 <= a <= 255,
        ;
    }
    if k <= c {
        assert(k * 255 <= c * (255 - a) + k * a <= c * 255) by (nonlinear_arith)
            requires
                0 <= k <= c,
                0 <= a <= 255,
        ;
    }
}

/// The squared distance between two bytes is at most 255 squared.
pub proof fn lemma_square_of_bytes(a: int, b: int)
    requires
        0 <= a <= 255,
        0 <= b <= 255,
    ensures
        0 <= square(a - b) <= 65025,
{
    assert(0 <= (a - b) * (a - b) <= 65025) by (nonlinear_arith)
        requires
            -255 <= a - b <= 255,
    ;
}

impl Canvas {
    /// Whether both pictures have four bytes for each of `width` times
    /// `height` pixels, and the byte count fits in 32 bits.
    pub open spec fn wf(self) -> bool {
        &&& 4 * (self.width * self.height) <= u32::MAX
        &&& self.target.len() == 4 * (self.width * self.height)
        &&& self.current.len() == 4 * (self.width * self.height)
    }

    /// Whether a walk over the bounding box of `e` is set up: the pictures
    /// are in order, `e` fits, `bounds` is its bounding box (left, right,
    /// top, bottom), and `cos` and `sin` are the cosine and sine of its
    /// angle.
    pub open spec fn scans(
        self,
        e: Ellipse,
        bounds: (u32, u32, u32, u32),
        cos: i64,
        sin: i64,
    ) -> bool {
        &&& self.wf()
        &&& e.fits()
        &&& bounds.0 == e.left()
        &&& bounds.1 == e.right(self.width as int)
        &&& bounds.2 == e.top()
        &&& bounds.3 == e.bottom(self.height as int)
        &&& cos == cos_fx(e.angle as int)
        &&& sin == sin_fx(e.angle as int)
        &&& -UNIT <= cos <= UNIT
        &&& -UNIT <= sin <= UNIT
    }

    /// 1 on the pixels that `e` covers and 0 elsewhere.
    pub open spec fn coverage(self, e: Ellipse) -> spec_fn(int, int) -> int {
        |px: int, py: int|
            if e.covers(self.width as int, self.height as int, px, py) {
                1int
            } else {
                0int
            }
    }

    /// On the pixels that `e` covers, the ideal paint value of channel `ch`
    /// for the opacity of `e`; 0 elsewhere.
    pub open spec fn ideal_map(self, e: Ellipse, ch: int) -> spec_fn(int, int) -> int {
        |px: int, py: int|
            if e.covers(self.width as int, self.height as int, px, py) {
                let at = offset(self.width as int, px, py) + ch;
                ideal(self.target[at] as int, self.current[at] as int, e.alpha as int)
            } else {
                0int
            }
    }

    /// On the pixels that `e` covers, how much painting `color` changes the
    /// pixel's squared error; 0 elsewhere.
    pub open spec fn change_map(self, e: Ellipse, color: (u8, u8, u8, u8)) -> spec_fn(
        int,
        int,
    ) -> int {
        |px: int, py: int|
            if e.covers(self.width as int, self.height as int, px, py) {
                let at = offset(self.width as int, px, py);
                painted_error(self.target, self.current, at, color) - pixel_error(
                    self.target,
                    self.current,
                    at,
                )
            } else {
                0int
            }
    }

    /// The sum of `f` over the bounding box of `e`.
    pub open spec fn over_box(self, e: Ellipse, f: spec_fn(int, int) -> int) -> int {
        sum_rect(f, e.left(), e.right(self.width as int), e.top(), e.bottom(self.height as int))
    }

    /// How many pixels `e` covers.
    pub open spec fn covered_count(self, e: Ellipse) -> int {
        self.over_box(e, self.coverage(e))
    }

    /// The fill that suits `e` best: per channel the mean, rounded down, of
    /// the ideal paint values of the pixels that `e` covers, with the
    /// opacity of `e`. An opacity under 1% of full gives the all-zero fill,
    /// and a shape that covers nothing gives mid-gray.
    pub open spec fn optimal_color(self, e: Ellipse) -> (u8, u8, u8, u8) {
        let n = self.covered_count(e);
        if 100 * e.alpha < 255 {
            (0u8, 0u8, 0u8, 0u8)
        } else if n == 0 {
            (EMPTY_COVER_GRAY, EMPTY_COVER_GRAY, EMPTY_COVER_GRAY, e.alpha)
        } else {
            (
                (self.over_box(e, self.ideal_map(e, 0)) / n) as u8,
                (self.over_box(e, self.ideal_map(e, 1)) / n) as u8,
                (self.over_box(e, self.ideal_map(e, 2)) / n) as u8,
                e.alpha,
            )
        }
    }

    /// How much painting `e` with its optimal fill changes the summed
    /// squared error of the canvas.
    pub open spec fn change(self, e: Ellipse) -> int {
        self.over_box(e, self.change_map(e, self.optimal_color(e)))
    }

    /// The score of the candidate `e`.
    pub open spec fn score(self, e: Ellipse) -> Score {
        if e.misses(self.width as int, self.height as int) {
            Score::Rejected
        } else {
            Score::Change(self.change(e) as i64)
        }
    }

    /// The summed squared error of the canvas against the target.
    pub open spec fn error(self) -> int {
        total_error(
            self.target,
            self.current,
            self.width as int,
            self.height as int,
        )
    }

    /// The change that a shape brings is at most the largest squared error
    /// of one pixel, 3 * 255^2, for each pixel of the canvas.
    pub proof fn lemma_change_bounded(self, e: Ellipse)
        requires
            self.wf(),
        ensures
            -195075 * (self.width * self.height) <= self.change(e) <= 195075 * (self.width
                * self.height),
            i64::MIN < self.change(e) < i64::MAX,
    {
        let w = self.width as int;
        let h = self.height as int;
        let color = self.optimal_color(e);
        let f = self.change_map(e, color);
        let x0 = e.left();
        let x1 = e.right(w);
        let y0 = e.top();
        let y1 = e.bottom(h);
        assert(0 <= w * h) by (nonlinear_arith)
            requires
                0 <= w,
                0 <= h,
        ;
        if x0 < x1 && y0 < y1 {
            assert forall|x: int, y: int| x0 <= x < x1 && y0 <= y < y1 implies -195075 <= #[trigger] f(
                x,
                y,
            ) <= 195075 by {
                if e.covers(w, h, x, y) {
                    lemma_offset_in_range(w, h, x, y);
                    self.lemma_pixel_change_bounded(x, y, color);
                }
            }
            lemma_rect_bounds(f, -195075, 195075, x0, x1, y0, y1);
            assert(0 <= (y1 - y0) * (x1 - x0) <= w * h) by (nonlinear_arith)
                requires
                    0 <= x0 < x1 <= w,
                    0 <= y0 < y1 <= h,
            ;
            assert((y1 - y0) * (x1 - x0) * 195075 <= 195075 * (w * h) && (y1 - y0) * (x1 - x0)
                * -195075 >= -195075 * (w * h)) by (nonlinear_arith)
                requires
                    0 <= (y1 - y0) * (x1 - x0) <= w * h,
            ;
        } else {
            if y0 < y1 {
                lemma_rect_bounds(f, 0, 0, x0, x0, y0, y1);
                assert(sum_rect(f, x0, x1, y0, y1) == 0) by {
                    lemma_rect_empty_columns(f, x0, x1, y0, y1);
                }
            }
        }
    }

    /// Painting one pixel changes its squared error by at most 3 * 255^2.
    pub proof fn lemma_pixel_change_bounded(self, px: int, py: int, color: (u8, u8, u8, u8))
        requires
            self.wf(),
            0 <= px < self.width,
            0 <= py < self.height,
        ensures
            ({
                let at = offset(self.width as int, px, py);
                &&& 0 <= pixel_error(self.target, self.current, at) <= 195075
                &&& 0 <= painted_error(self.target, self.current, at, color)
                    <= 195075
            }),
    {
        let at = offset(self.width as int, px, py);
        let t = self.target;
        let c = self.current;
        lemma_offset_in_range(self.width as int, self.height as int, px, py);
        lemma_square_of_bytes(t[at] as int, c[at] as int);
        lemma_square_of_bytes(t[at + 1] as int, c[at + 1] as int);
        lemma_square_of_bytes(t[at + 2] as int, c[at + 2] as int);
        lemma_blend_is_byte(c[at] as int, color.0 as int, color.3 as int);
        lemma_blend_is_byte(c[at + 1] as int, color.1 as int, color.3 as int);
        lemma_blend_is_byte(c[at + 2] as int, color.2 as int, color.3 as int);
        lemma_square_of_bytes(t[at] as int, blend(c[at] as int, color.0 as int, color.3 as int));
        lemma_square_of_bytes(
            t[at + 1] as int,
            blend(c[at + 1] as int, color.1 as int, color.3 as int),
        );
        lemma_square_of_bytes(
            t[at + 2] as int,
            blend(c[at + 2] as int, color.2 as int, color.3 as int),
        );
    }

    /// The optimal fill of a shape depends on where the shape lies and on
    /// its opacity, not on the fill that it has.
    pub proof fn lemma_fill_is_ignored(self, e1: Ellipse, e2: Ellipse)
        requires
            e1.x == e2.x,
            e1.y == e2.y,
            e1.rx == e2.rx,
            e1.ry == e2.ry,
            e1.angle == e2.angle,
            e1.alpha == e2.alpha,
        ensures
            self.optimal_color(e1) == self.optimal_color(e2),
            self.change(e1) == self.change(e2),
            self.score(e1) == self.score(e2),
    {
        let w = self.width as int;
        let h = self.height as int;
        let x0 = e1.left();
        let x1 = e1.right(w);
        let y0 = e1.top();
        let y1 = e1.bottom(h);
        assert(forall|x: int, y: int| e1.covers(w, h, x, y) == e2.covers(w, h, x, y));
        lemma_rect_same(self.coverage(e1), self.coverage(e2), x0, x1, y0, y1);
        lemma_rect_same(self.ideal_map(e1, 0), self.ideal_map(e2, 0), x0, x1, y0, y1);
        lemma_rect_same(self.ideal_map(e1, 1), self.ideal_map(e2, 1), x0, x1, y0, y1);
        lemma_rect_same(self.ideal_map(e1, 2), self.ideal_map(e2, 2), x0, x1, y0, y1);
        let color = self.optimal_color(e1);
        lemma_rect_same(self.change_map(e1, color), self.change_map(e2, color), x0, x1, y0, y1);
    }
}

/// The pixel in row `row` and column `col` of a picture `w` wide is pixel
/// number `row * w + col`, and only that one.
pub proof fn lemma_row_major(w: int, q: int, row: int, col: int)
    requires
        0 <= col < w,
        q == row * w + col,
    ensures
        q / w == row,
        q % w == col,
{
    assert(q == w * row + col) by (nonlinear_arith)
        requires
            q == row * w + col,
    ;
    vstd::arithmetic::div_mod::lemma_fundamental_div_mod_converse(q, w, row, col);
}

/// A pixel numbered below `row * w + col` lies in a row above `row`, or in
/// that row and left of `col`.
pub proof fn lemma_before_pixel(w: int, q: int, row: int, col: int)
    requires
        0 < w,
        0 <= col < w,
        0 <= row,
        0 <= q < row * w + col,
    ensures
        q / w < row || (q / w == row && q % w < col),
        0 <= q / w,
{
    vstd::arithmetic::div_mod::lemma_div_pos_is_pos(q, w);
    if q < row * w {
        assert(q < w * row) by (nonlinear_arith)
            requires
                q < row * w,
        ;
        vstd::arithmetic::div_mod::lemma_multiply_divide_lt(q, w, row);
    } else {
        lemma_row_major(w, q, row, q - row * w);
    }
}

/// A pixel numbered from `row * w` on lies in row `row` or below.
pub proof fn lemma_after_pixel(w: int, q: int, row: int)
    requires
        0 < w,
        row * w <= q,
    ensures
        q / w >= row,
{
    vstd::arithmetic::div_mod::lemma_div_is_ordered(row * w, q, w);
    vstd::arithmetic::div_mod::lemma_div_multiples_vanish(row, w);
    assert(row * w == w * row) by (nonlinear_arith);
}

} // verus!
