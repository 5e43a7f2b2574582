//! The greedy fitter: a target picture, the canvas that approximates it, and
//! the search that adds one ellipse at a time.

use crate::canvas::{
    blend, ideal, lemma_after_pixel, lemma_before_pixel, lemma_blend_is_byte, lemma_offset_in_range,
    lemma_row_major, lemma_square_of_bytes, offset, painted, painted_byte, pixel_error, square,
    Canvas, EMPTY_COVER_GRAY,
};
use crate::fixed::{rotation, HALF, HALF_TURN, ONE};
use crate::random::draw_between;
use crate::shapes::{
    anneal_scale, lemma_perturbed_stays, Ellipse, Mutation, DEFAULT_ALPHA, INITIAL_ALPHA_MAX,
    INITIAL_ALPHA_MIN, LARGEST_RADIUS,
};
use crate::sums::{sum_rect, sum_row};
use vstd::prelude::*;

verus! {

/// Every byte of a fresh canvas: opaque white.
pub const INITIAL_CANVAS_VALUE: u8 = 255;

/// The longest semi-axis of a shape in the last fifth of the budget.
pub const LATE_STAGE_MAX_RADIUS: i64 = 10 * ONE;

/// The longest semi-axis of a shape past the first half of the budget.
pub const MID_STAGE_MAX_RADIUS: i64 = 30 * ONE;

/// The longest semi-axis of a shape in the first half of the budget.
pub const EARLY_STAGE_MAX_RADIUS: i64 = 200 * ONE;

/// How many random seeds compete for one shape, per unit of fidelity.
pub const BASE_RANDOM_TRIALS: usize = 40;

/// How many mutations refine one shape, per unit of fidelity.
pub const BASE_HILL_CLIMB_STEPS: usize = 80;

/// How many pixels are sampled to place one seed.
pub const ERROR_SAMPLE_COUNT: usize = 30;

/// No seed has a semi-axis of this length or more.
pub const INITIAL_SEED_MAX_RADIUS: i64 = 15 * ONE;

/// A picture to approximate and the canvas that approximates it, both
/// `width` by `height` pixels of four bytes each (red, green, blue, opacity),
/// row by row.
pub struct Optimizer {
    pub target_pixels: Vec<u8>,
    pub current_pixels: Vec<u8>,
    pub width: u32,
    pub height: u32,
}

/// What painting a candidate would do to the error.
#[derive(Clone, Copy, Debug, PartialEq, Eq)]
pub enum Score {
    /// The candidate's bounding box holds no pixel: it counts as worse than
    /// every candidate that has a change.
    Rejected,
    /// The error after painting less the error before.
    Change(i64),
}

impl Score {
    /// Whether this score is strictly better (lower) than `other`.
    pub open spec fn improves_on(self, other: Score) -> bool {
        match (self, other) {
            (Score::Change(a), Score::Change(b)) => a < b,
            (Score::Change(_), Score::Rejected) => true,
            (Score::Rejected, _) => false,
        }
    }

    /// `improves_on` in executable form.
    pub fn is_better_than(&self, other: &Score) -> (r: bool)
        ensures
            r == self.improves_on(*other),
    {
        match (*self, *other) {
            (Score::Change(a), Score::Change(b)) => a < b,
            (Score::Change(_), Score::Rejected) => true,
            (Score::Rejected, _) => false,
        }
    }
}

/// The longest semi-axis allowed to shape number `shape_idx` of
/// `max_shapes`: 10 pixels once more than 4/5 of the budget is spent, 30
/// once more than half of it is, and 200 before.
pub open spec fn radius_cap(shape_idx: int, max_shapes: int) -> int {
    if 5 * shape_idx > 4 * max_shapes {
        LATE_STAGE_MAX_RADIUS as int
    } else if 2 * shape_idx > max_shapes {
        MID_STAGE_MAX_RADIUS as int
    } else {
        EARLY_STAGE_MAX_RADIUS as int
    }
}

/// The factor on the search effort for a fidelity mode: 1, 3, 10, 100 for
/// the modes 0 to 3, and 1 for any other.
pub open spec fn fidelity_multiplier(fidelity_mode: u8) -> int {
    if fidelity_mode == 1 {
        3
    } else if fidelity_mode == 2 {
        10
    } else if fidelity_mode == 3 {
        100
    } else {
        1
    }
}

/// How many seeds, after the first, compete for one shape.
pub open spec fn random_trials(fidelity_mode: u8) -> int {
    BASE_RANDOM_TRIALS * fidelity_multiplier(fidelity_mode)
}

/// How many mutations refine one shape.
pub open spec fn hill_climb_steps(fidelity_mode: u8) -> int {
    BASE_HILL_CLIMB_STEPS * fidelity_multiplier(fidelity_mode)
}

/// Whether `k` is the first place of the largest of `errors`.
pub open spec fn is_first_largest(errors: Seq<int>, k: int) -> bool {
    &&& 0 <= k < errors.len()
    &&& forall|j: int| 0 <= j < errors.len() ==> errors[j] <= errors[k]
    &&& forall|j: int| 0 <= j < k ==> errors[j] < errors[k]
}

/// `radius_cap` in executable form.
pub fn cap_for(shape_idx: usize, max_shapes: usize) -> (cap: i64)
    ensures
        cap == radius_cap(shape_idx as int, max_shapes as int),
{
    let k: u128 = shape_idx as u128;
    let n: u128 = max_shapes as u128;
    if 5 * k > 4 * n {
        LATE_STAGE_MAX_RADIUS
    } else if 2 * k > n {
        MID_STAGE_MAX_RADIUS
    } else {
        EARLY_STAGE_MAX_RADIUS
    }
}

/// `fidelity_multiplier` in executable form.
pub fn multiplier_for(fidelity_mode: u8) -> (m: usize)
    ensures
        m == fidelity_multiplier(fidelity_mode),
{
    match fidelity_mode {
        1 => 3,
        2 => 10,
        3 => 100,
        _ => 1,
    }
}

/// `random_trials` in executable form.
pub fn trials_for(fidelity_mode: u8) -> (n: usize)
    ensures
        n == random_trials(fidelity_mode),
{
    BASE_RANDOM_TRIALS * multiplier_for(fidelity_mode)
}

/// `hill_climb_steps` in executable form.
pub fn steps_for(fidelity_mode: u8) -> (n: usize)
    ensures
        n == hill_climb_steps(fidelity_mode),
{
    BASE_HILL_CLIMB_STEPS * multiplier_for(fidelity_mode)
}

impl View for Optimizer {
    type V = Canvas;

    open spec fn view(&self) -> Canvas {
        Canvas {
            target: self.target_pixels@,
            current: self.current_pixels@,
            width: self.width,
            height: self.height,
        }
    }
}

impl Canvas {
    /// The squared errors of the canvas at the pixels `samples`.
    pub open spec fn sample_errors(self, samples: Seq<(u32, u32)>) -> Seq<int> {
        Seq::new(
            samples.len(),
            |j: int|
                pixel_error(
                    self.target,
                    self.current,
                    offset(self.width as int, samples[j].0 as int, samples[j].1 as int),
                ),
        )
    }

    /// Whether `e` is a seed grown from `samples` under the cap `max_r`: a
    /// fresh shape whose centre is the first of the samples with the
    /// largest error, and whose semi-axes are at least a pixel and below
    /// both `max_r` and `INITIAL_SEED_MAX_RADIUS`.
    pub open spec fn is_seed(self, e: Ellipse, samples: Seq<(u32, u32)>, max_r: int) -> bool {
        &&& samples.len() == ERROR_SAMPLE_COUNT
        &&& forall|j: int|
            0 <= j < samples.len() ==> (#[trigger] samples[j]).0 < self.width && samples[j].1
                < self.height
        &&& exists|k: int|
            is_first_largest(self.sample_errors(samples), k) && e.x == (#[trigger] samples[k]).0 * ONE
                && e.y == samples[k].1 * ONE
        &&& ONE <= e.rx < max_r
        &&& ONE <= e.rx < INITIAL_SEED_MAX_RADIUS
        &&& ONE <= e.ry < max_r
        &&& ONE <= e.ry < INITIAL_SEED_MAX_RADIUS
        &&& 0 <= e.angle < HALF_TURN
        &&& INITIAL_ALPHA_MIN <= e.alpha < INITIAL_ALPHA_MAX
        &&& e.color == (0u8, 0u8, 0u8, DEFAULT_ALPHA)
    }

    /// Whether `e` is some seed under the cap `max_r`.
    pub open spec fn is_some_seed(self, e: Ellipse, max_r: int) -> bool {
        exists|samples: Seq<(u32, u32)>| self.is_seed(e, samples, max_r)
    }

    /// Whether the search can start from `e` under the cap `cap`: `e` lies
    /// on the canvas with its semi-axes within the cap, turned by less than
    /// half a turn.
    pub open spec fn can_start(self, e: Ellipse, cap: int) -> bool {
        &&& e.on_canvas(self.width as int, self.height as int)
        &&& e.rx <= cap
        &&& e.ry <= cap
        &&& 0 <= e.angle < HALF_TURN
    }

    /// The best of the first `n` of `seeds`: the first one whose score no
    /// other of them improves on.
    pub open spec fn best_seed(self, seeds: Seq<Ellipse>, n: int) -> Ellipse
        decreases n,
    {
        if n <= 1 {
            seeds[0]
        } else {
            let best = self.best_seed(seeds, n - 1);
            if self.score(seeds[n - 1]).improves_on(self.score(best)) {
                seeds[n - 1]
            } else {
                best
            }
        }
    }

    /// What move number `i` of `total` makes of `current` under the cap
    /// `cap`: `current` mutated by `m` at the scale of that place, and cut
    /// down to the cap.
    pub open spec fn candidate(
        self,
        current: Ellipse,
        m: Mutation,
        i: int,
        total: int,
        cap: int,
    ) -> Ellipse {
        current.perturbed(self.width as int, self.height as int, m, anneal_scale(i, total)).capped(
            cap,
        )
    }

    /// What `start` has become after the first `n` of `moves`: each move
    /// makes a candidate of the shape that the moves before it left, and
    /// the candidate is kept only where it scores strictly better.
    pub open spec fn climbed(
        self,
        start: Ellipse,
        moves: Seq<Mutation>,
        n: int,
        cap: int,
    ) -> Ellipse
        decreases n,
    {
        if n <= 0 {
            start
        } else {
            let current = self.climbed(start, moves, n - 1, cap);
            let candidate = self.candidate(current, moves[n - 1], n - 1, moves.len() as int, cap);
            if self.score(candidate).improves_on(self.score(current)) {
                candidate
            } else {
                current
            }
        }
    }

    /// The shape that the search finds from `seeds` and `moves` under the
    /// cap `cap`, with its optimal fill.
    pub open spec fn fitted(self, seeds: Seq<Ellipse>, moves: Seq<Mutation>, cap: int) -> Ellipse {
        let found = self.climbed(
            self.best_seed(seeds, seeds.len() as int),
            moves,
            moves.len() as int,
            cap,
        );
        Ellipse { color: self.optimal_color(found), ..found }
    }

    /// Whether `shape` is what a search on these pictures can find under
    /// the cap `cap` at the fidelity `fidelity_mode`: there are
    /// `random_trials + 1` seeds and `hill_climb_steps` mutations from which
    /// the search finds it.
    pub open spec fn finds(self, shape: Ellipse, cap: int, fidelity_mode: u8) -> bool {
        exists|seeds: Seq<Ellipse>, moves: Seq<Mutation>|
            {
                &&& seeds.len() == random_trials(fidelity_mode) + 1
                &&& forall|j: int|
                    0 <= j < seeds.len() ==> self.is_some_seed(#[trigger] seeds[j], cap)
                &&& moves.len() == hill_climb_steps(fidelity_mode)
                &&& forall|i: int| 0 <= i < moves.len() ==> (#[trigger] moves[i]).valid()
                &&& shape == #[trigger] self.fitted(seeds, moves, cap)
            }
    }

    /// A seed is a shape that the search can start from.
    pub proof fn lemma_seed_can_start(self, e: Ellipse, max_r: int)
        requires
            self.wf(),
            self.is_some_seed(e, max_r),
            max_r <= LARGEST_RADIUS,
        ensures
            self.can_start(e, max_r),
    {
        let samples = choose|samples: Seq<(u32, u32)>| self.is_seed(e, samples, max_r);
        let k = choose|k: int|
            is_first_largest(self.sample_errors(samples), k) && e.x == (#[trigger] samples[k]).0 * ONE
                && e.y == samples[k].1 * ONE;
        assert(samples[k].0 < self.width && samples[k].1 < self.height);
    }
}

impl Optimizer {
    /// Whether both pictures have four bytes for each pixel.
    pub open spec fn wf(&self) -> bool {
        self@.wf()
    }

    /// A fitter for `target`, `width` by `height`, with a white canvas.
    pub fn new(target: &[u8], width: u32, height: u32) -> (o: Optimizer)
        requires
            4 * (width * height) <= u32::MAX,
            target@.len() == 4 * (width * height),
        ensures
            o.wf(),
            o.width == width,
            o.height == height,
            o.target_pixels@ == target@,
            o.current_pixels@.len() == target@.len(),
            forall|i: int| 0 <= i < o.current_pixels@.len() ==> o.current_pixels@[i] == 255,
    {
        assert(width * height * 4 == 4 * (width * height)) by (nonlinear_arith);
        assert(0 <= width * height <= 4 * (width * height)) by (nonlinear_arith);
        let current = vec![INITIAL_CANVAS_VALUE; (width * height * 4) as usize];
        Optimizer {
            target_pixels: vstd::slice::slice_to_vec(target),
            current_pixels: current,
            width,
            height,
        }
    }

    /// The fill that suits `shape` best on the canvas as it is.
    pub fn compute_optimal_color(&self, shape: &Ellipse) -> (color: (u8, u8, u8, u8))
        requires
            self.wf(),
            shape.fits(),
        ensures
            color == self@.optimal_color(*shape),
    {
        if (shape.alpha as u32) * 100 < 255 {
            return (0, 0, 0, 0);
        }
        let (x0, x1, y0, y1) = shape.bounds(self.width, self.height);
        let (cos, sin) = rotation(shape.angle);
        let ghost cover = self@.coverage(*shape);
        let ghost red = self@.ideal_map(*shape, 0);
        let ghost green = self@.ideal_map(*shape, 1);
        let ghost blue = self@.ideal_map(*shape, 2);
        let mut count: u64 = 0;
        let mut sum_r: u128 = 0;
        let mut sum_g: u128 = 0;
        let mut sum_b: u128 = 0;
        let mut y: u32 = y0;
        while y < y1
            invariant
                self@.scans(*shape, (x0, x1, y0, y1), cos, sin),
                shape.alpha >= 3,
                cover == self@.coverage(*shape),
                red == self@.ideal_map(*shape, 0),
                green == self@.ideal_map(*shape, 1),
                blue == self@.ideal_map(*shape, 2),
                y0 <= y,
                y <= y1 || y == y0,
                count == sum_rect(cover, x0 as int, x1 as int, y0 as int, y as int),
                sum_r == sum_rect(red, x0 as int, x1 as int, y0 as int, y as int),
                sum_g == sum_rect(green, x0 as int, x1 as int, y0 as int, y as int),
                sum_b == sum_rect(blue, x0 as int, x1 as int, y0 as int, y as int),
                count <= (y - y0) * 0x1_0000_0000,
                sum_r <= 255 * count,
                sum_g <= 255 * count,
                sum_b <= 255 * count,
            decreases y1 - y,
        {
            let mut row_count: u64 = 0;
            let mut row_r: u64 = 0;
            let mut row_g: u64 = 0;
            let mut row_b: u64 = 0;
            let mut x: u32 = x0;
            while x < x1
                invariant
                    self@.scans(*shape, (x0, x1, y0, y1), cos, sin),
                    shape.alpha >= 3,
                    cover == self@.coverage(*shape),
                    red == self@.ideal_map(*shape, 0),
                    green == self@.ideal_map(*shape, 1),
                    blue == self@.ideal_map(*shape, 2),
                    y0 <= y < y1,
                    x0 <= x,
                    x <= x1 || x == x0,
                    row_count == sum_row(cover, y as int, x0 as int, x as int),
                    row_r == sum_row(red, y as int, x0 as int, x as int),
                    row_g == sum_row(green, y as int, x0 as int, x as int),
                    row_b == sum_row(blue, y as int, x0 as int, x as int),
                    row_count <= x - x0,
                    row_r <= 255 * row_count,
                    row_g <= 255 * row_count,
                    row_b <= 255 * row_count,
                decreases x1 - x,
            {
                if shape.contains_pixel(cos, sin, x, y) {
                    let at: usize = self.locate(x, y);
                    let a: u8 = shape.alpha;
                    row_r = row_r + ideal_value(
                        self.target_pixels[at],
                        self.current_pixels[at],
                        a,
                    ) as u64;
                    row_g = row_g + ideal_value(
                        self.target_pixels[at + 1],
                        self.current_pixels[at + 1],
                        a,
                    ) as u64;
                    row_b = row_b + ideal_value(
                        self.target_pixels[at + 2],
                        self.current_pixels[at + 2],
                        a,
                    ) as u64;
                    row_count = row_count + 1;
                }
                x = x + 1;
            }
            count = count + row_count;
            sum_r = sum_r + row_r as u128;
            sum_g = sum_g + row_g as u128;
            sum_b = sum_b + row_b as u128;
            y = y + 1;
        }
        if count == 0 {
            return (EMPTY_COVER_GRAY, EMPTY_COVER_GRAY, EMPTY_COVER_GRAY, shape.alpha);
        }
        let n: u128 = count as u128;
        proof {
            lemma_mean_is_byte(sum_r as int, n as int);
            lemma_mean_is_byte(sum_g as int, n as int);
            lemma_mean_is_byte(sum_b as int, n as int);
        }
        ((sum_r / n) as u8, (sum_g / n) as u8, (sum_b / n) as u8, shape.alpha)
    }

    /// The score of the candidate `shape`: how much painting it with its
    /// optimal fill would change the summed squared error, or `Rejected`
    /// where its bounding box holds no pixel of the canvas.
    pub fn evaluate_shape(&self, shape: &Ellipse) -> (s: Score)
        requires
            self.wf(),
            shape.fits(),
        ensures
            s == self@.score(*shape),
            s matches Score::Change(v) ==> v == self@.change(*shape),
    {
        let (x0, x1, y0, y1) = shape.bounds(self.width, self.height);
        if x0 >= x1 || y0 >= y1 {
            return Score::Rejected;
        }
        let color = self.compute_optimal_color(shape);
        let (cos, sin) = rotation(shape.angle);
        let ghost delta = self@.change_map(*shape, color);
        let mut total: i128 = 0;
        let mut y: u32 = y0;
        while y < y1
            invariant
                self@.scans(*shape, (x0, x1, y0, y1), cos, sin),
                delta == self@.change_map(*shape, color),
                x0 < x1,
                y0 <= y <= y1,
                total == sum_rect(delta, x0 as int, x1 as int, y0 as int, y as int),
                -(y - y0) * 0x4_0000_0000_0000 <= total <= (y - y0) * 0x4_0000_0000_0000,
            decreases y1 - y,
        {
            let mut row: i64 = 0;
            let mut x: u32 = x0;
            while x < x1
                invariant
                    self@.scans(*shape, (x0, x1, y0, y1), cos, sin),
                    delta == self@.change_map(*shape, color),
                    y0 <= y < y1,
                    x0 <= x <= x1,
                    row == sum_row(delta, y as int, x0 as int, x as int),
                    -(x - x0) * 195075 <= row <= (x - x0) * 195075,
                decreases x1 - x,
            {
                if shape.contains_pixel(cos, sin, x, y) {
                    let at: usize = self.locate(x, y);
                    let tr: u8 = self.target_pixels[at];
                    let tg: u8 = self.target_pixels[at + 1];
                    let tb: u8 = self.target_pixels[at + 2];
                    let cr: u8 = self.current_pixels[at];
                    let cg: u8 = self.current_pixels[at + 1];
                    let cb: u8 = self.current_pixels[at + 2];
                    let nr: u8 = blend_value(cr, color.0, color.3);
                    let ng: u8 = blend_value(cg, color.1, color.3);
                    let nb: u8 = blend_value(cb, color.2, color.3);
                    let old_err: i64 = square_of(tr, cr) + square_of(tg, cg) + square_of(tb, cb);
                    let new_err: i64 = square_of(tr, nr) + square_of(tg, ng) + square_of(tb, nb);
                    row = row + (new_err - old_err);
                }
                x = x + 1;
            }
            total = total + row as i128;
            y = y + 1;
        }
        proof {
            self@.lemma_change_bounded(*shape);
        }
        Score::Change(total as i64)
    }

    /// Paints `shape` on the canvas with its fill.
    pub fn draw_shape(&mut self, shape: &Ellipse)
        requires
            old(self).wf(),
            shape.fits(),
        ensures
            final(self).wf(),
            final(self).width == old(self).width,
            final(self).height == old(self).height,
            final(self).target_pixels@ == old(self).target_pixels@,
            final(self).current_pixels@ == painted(
                old(self).current_pixels@,
                old(self).width as int,
                old(self).height as int,
                *shape,
            ),
    {
        let (x0, x1, y0, y1) = shape.bounds(self.width, self.height);
        let ghost before = self.current_pixels@;
        let ghost w = self.width as int;
        let ghost h = self.height as int;
        if x0 >= x1 || y0 >= y1 {
            assert(painted(before, w, h, *shape) =~= before);
            return ;
        }
        let (cos, sin) = rotation(shape.angle);
        let (r, g, b, a) = shape.color;
        let mut y: u32 = y0;
        proof {
            assert forall|i: int| 0 <= i < 4 * (y0 * w + x0) implies painted_byte(
                before,
                w,
                h,
                *shape,
                i,
            ) == before[i] by {
                lemma_before_pixel(w, i / 4, y0 as int, x0 as int);
            }
        }
        while y < y1
            invariant
                self@.scans(*shape, (x0, x1, y0, y1), cos, sin),
                self.width == w,
                self.height == h,
                self.target_pixels@ == old(self).target_pixels@,
                before == old(self).current_pixels@,
                before.len() == self.current_pixels@.len(),
                (r, g, b, a) == shape.color,
                x0 < x1,
                y0 <= y <= y1,
                forall|i: int|
                    0 <= i < before.len() ==> #[trigger] self.current_pixels@[i] == (if i < 4 * (y * w
                        + x0) {
                        painted_byte(before, w, h, *shape, i)
                    } else {
                        before[i]
                    }),
            decreases y1 - y,
        {
            let mut x: u32 = x0;
            while x < x1
                invariant
                    self@.scans(*shape, (x0, x1, y0, y1), cos, sin),
                    self.width == w,
                    self.height == h,
                    self.target_pixels@ == old(self).target_pixels@,
                    before == old(self).current_pixels@,
                    before.len() == self.current_pixels@.len(),
                    (r, g, b, a) == shape.color,
                    y0 <= y < y1,
                    x0 <= x <= x1,
                    forall|i: int|
                        0 <= i < before.len() ==> #[trigger] self.current_pixels@[i] == (if i < 4 * (y
                            * w + x) {
                            painted_byte(before, w, h, *shape, i)
                        } else {
                            before[i]
                        }),
                decreases x1 - x,
            {
                let at: usize = self.locate(x, y);
                let inside: bool = shape.contains_pixel(cos, sin, x, y);
                proof {
                    lemma_row_major(w, y * w + x, y as int, x as int);
                    assert(at == 4 * (y * w + x));
                    assert(4 * (y * w + (x + 1)) == at + 4);
                }
                let ghost prev = self.current_pixels@;
                if inside {
                    let nr: u8 = blend_value(self.current_pixels[at], r, a);
                    let ng: u8 = blend_value(self.current_pixels[at + 1], g, a);
                    let nb: u8 = blend_value(self.current_pixels[at + 2], b, a);
                    self.current_pixels.set(at, nr);
                    self.current_pixels.set(at + 1, ng);
                    self.current_pixels.set(at + 2, nb);
                    self.current_pixels.set(at + 3, 255);
                }
                proof {
                    assert forall|i: int| 0 <= i < before.len() implies #[trigger] self.current_pixels@[i]
                        == (if i < at + 4 {
                        painted_byte(before, w, h, *shape, i)
                    } else {
                        before[i]
                    }) by {
                        if at <= i < at + 4 {
                            assert(i / 4 == y * w + x);
                            assert(prev[i] == before[i]);
                            assert(shape.covers(w, h, x as int, y as int) == inside);
                        } else {
                            assert(self.current_pixels@[i] == prev[i]);
                        }
                    }
                }
                x = x + 1;
            }
            proof {
                assert(4 * ((y + 1) * w + x0) == 4 * (y * w + x1) + 4 * (w - x1) + 4 * x0)
                    by (nonlinear_arith);
                assert forall|i: int|
                    4 * (y * w + x1) <= i < 4 * ((y + 1) * w + x0) && i
                        < before.len() implies painted_byte(before, w, h, *shape, i)
                    == before[i] by {
                    assert((y + 1) * w == y * w + w) by (nonlinear_arith);
                    let q = i / 4;
                    if q < (y + 1) * w {
                        lemma_row_major(w, q, y as int, q - y * w);
                    } else {
                        lemma_row_major(w, q, y + 1, q - (y + 1) * w);
                    }
                }
            }
            y = y + 1;
        }
        proof {
            assert forall|i: int| 0 <= i < before.len() implies self.current_pixels@[i]
                == painted_byte(before, w, h, *shape, i) by {
                if i >= 4 * (y1 * w + x0) {
                    lemma_after_pixel(w, i / 4, y1 as int);
                }
            }
            assert(self.current_pixels@ =~= painted(before, w, h, *shape));
        }
    }

    /// The place in `samples` of the first pixel with the largest error.
    pub fn worst_sample(&self, samples: &Vec<(u32, u32)>) -> (k: usize)
        requires
            self.wf(),
            samples@.len() > 0,
            forall|j: int|
                0 <= j < samples@.len() ==> (#[trigger] samples@[j]).0 < self.width && samples@[j].1
                    < self.height,
        ensures
            is_first_largest(self@.sample_errors(samples@), k as int),
    {
        let ghost errors = self@.sample_errors(samples@);
        let mut best: usize = 0;
        let mut max_error: i64 = -1;
        let mut j: usize = 0;
        while j < samples.len()
            invariant
                self.wf(),
                errors == self@.sample_errors(samples@),
                forall|j: int|
                    0 <= j < samples@.len() ==> (#[trigger] samples@[j]).0 < self.width
                        && samples@[j].1 < self.height,
                0 <= j <= samples@.len(),
                j == 0 ==> max_error == -1 && best == 0,
                j > 0 ==> best < j && max_error == errors[best as int],
                forall|i: int| 0 <= i < j ==> errors[i] <= max_error,
                forall|i: int| 0 <= i < best ==> errors[i] < max_error,
                -1 <= max_error <= 195075,
            decreases samples@.len() - j,
        {
            let (x, y) = samples[j];
            let at: usize = self.locate(x, y);
            proof {
                self@.lemma_pixel_change_bounded(x as int, y as int, (0u8, 0u8, 0u8, 0u8));
            }
            let error: i64 = square_of(self.target_pixels[at], self.current_pixels[at]) + square_of(
                self.target_pixels[at + 1],
                self.current_pixels[at + 1],
            ) + square_of(self.target_pixels[at + 2], self.current_pixels[at + 2]);
            assert(error == errors[j as int]);
            if error > max_error {
                max_error = error;
                best = j;
            }
            j = j + 1;
        }
        best
    }

    /// A seed for the next shape: `ERROR_SAMPLE_COUNT` pixels are drawn at
    /// random, and a fresh shape with semi-axes below `max_r` and
    /// `INITIAL_SEED_MAX_RADIUS` is centred on the worst of them.
    pub fn pick_high_error_seed(&self, max_r: i64) -> (seed: Ellipse)
        requires
            self.wf(),
            self.width > 0,
            self.height > 0,
            max_r > ONE,
        ensures
            self@.is_some_seed(seed, max_r as int),
    {
        let mut samples: Vec<(u32, u32)> = Vec::new();
        while samples.len() < ERROR_SAMPLE_COUNT
            invariant
                self.width > 0,
                self.height > 0,
                samples@.len() <= ERROR_SAMPLE_COUNT,
                forall|j: int|
                    0 <= j < samples@.len() ==> (#[trigger] samples@[j]).0 < self.width
                        && samples@[j].1 < self.height,
            decreases ERROR_SAMPLE_COUNT - samples@.len(),
        {
            let x: u32 = draw_between(0, self.width as i64) as u32;
            let y: u32 = draw_between(0, self.height as i64) as u32;
            samples.push((x, y));
        }
        let k: usize = self.worst_sample(&samples);
        let limit: i64 = if max_r < INITIAL_SEED_MAX_RADIUS {
            max_r
        } else {
            INITIAL_SEED_MAX_RADIUS
        };
        let mut seed = Ellipse::new_random(self.width, self.height);
        seed.x = samples[k].0 as i64 * ONE;
        seed.y = samples[k].1 as i64 * ONE;
        seed.rx = draw_between(ONE, limit);
        seed.ry = draw_between(ONE, limit);
        assert(self@.is_seed(seed, samples@, max_r as int));
        seed
    }

    /// The best of `seeds`, with its score.
    fn pick_best(&self, seeds: &Vec<Ellipse>, max_radius: i64) -> (best: (Ellipse, Score))
        requires
            self.wf(),
            HALF <= max_radius <= LARGEST_RADIUS,
            seeds@.len() > 0,
            forall|j: int|
                0 <= j < seeds@.len() ==> self@.can_start(#[trigger] seeds@[j], max_radius as int),
        ensures
            best.0 == self@.best_seed(seeds@, seeds@.len() as int),
            best.1 == self@.score(best.0),
            self@.can_start(best.0, max_radius as int),
    {
        let mut best = seeds[0];
        let mut best_score = self.evaluate_shape(&best);
        let mut j: usize = 1;
        while j < seeds.len()
            invariant
                self.wf(),
                HALF <= max_radius <= LARGEST_RADIUS,
                forall|j: int|
                    0 <= j < seeds@.len() ==> self@.can_start(#[trigger] seeds@[j], max_radius as int),
                1 <= j <= seeds@.len(),
                best == self@.best_seed(seeds@, j as int),
                best_score == self@.score(best),
                self@.can_start(best, max_radius as int),
            decreases seeds@.len() - j,
        {
            let seed = seeds[j];
            let score = self.evaluate_shape(&seed);
            if score.is_better_than(&best_score) {
                best_score = score;
                best = seed;
            }
            j = j + 1;
        }
        (best, best_score)
    }

    /// The candidate that move number `i` of `total` makes of `current`,
    /// with its score.
    fn propose(
        &self,
        current: &Ellipse,
        m: Mutation,
        i: usize,
        total: usize,
        max_radius: i64,
    ) -> (next: (Ellipse, Score))
        requires
            self.wf(),
            self.width > 0,
            self.height > 0,
            HALF <= max_radius <= LARGEST_RADIUS,
            m.valid(),
            i < total <= 0x1_0000_0000,
            current.on_canvas(self.width as int, self.height as int),
            current.rx <= max_radius,
            current.ry <= max_radius,
            -(HALF_TURN + i * HALF) <= current.angle <= HALF_TURN + i * HALF,
        ensures
            next.0 == self@.candidate(*current, m, i as int, total as int, max_radius as int),
            next.1 == self@.score(next.0),
            next.0.on_canvas(self.width as int, self.height as int),
            next.0.rx <= max_radius,
            next.0.ry <= max_radius,
            -(HALF_TURN + (i + 1) * HALF) <= next.0.angle <= HALF_TURN + (i + 1) * HALF,
    {
        let scale: i64 = Ellipse::scale_at(i, total);
        let mut candidate = *current;
        proof {
            lemma_perturbed_stays(*current, self.width as int, self.height as int, m, scale as int);
        }
        candidate.perturb(self.width, self.height, m, scale);
        candidate.cap_radii(max_radius);
        let score = self.evaluate_shape(&candidate);
        (candidate, score)
    }

    /// Searches from `seeds` by `moves`: the best of the seeds is refined by
    /// the moves in their order, each kept only where it scores strictly
    /// better, and no candidate has a semi-axis longer than `max_radius`.
    pub fn search(&self, seeds: &Vec<Ellipse>, moves: &Vec<Mutation>, max_radius: i64) -> (found:
        Ellipse)
        requires
            self.wf(),
            self.width > 0,
            self.height > 0,
            HALF <= max_radius <= LARGEST_RADIUS,
            seeds@.len() > 0,
            forall|j: int|
                0 <= j < seeds@.len() ==> self@.can_start(#[trigger] seeds@[j], max_radius as int),
            moves@.len() <= 0x1_0000_0000,
            forall|i: int| 0 <= i < moves@.len() ==> (#[trigger] moves@[i]).valid(),
        ensures
            found == self@.climbed(
                self@.best_seed(seeds@, seeds@.len() as int),
                moves@,
                moves@.len() as int,
                max_radius as int,
            ),
            found.on_canvas(self.width as int, self.height as int),
            found.rx <= max_radius,
            found.ry <= max_radius,
            -(HALF_TURN + moves@.len() * HALF) <= found.angle <= HALF_TURN + moves@.len() * HALF,
    {
        let (start, start_score) = self.pick_best(seeds, max_radius);
        let steps: usize = moves.len();
        let mut shape = start;
        let mut score = start_score;
        let mut i: usize = 0;
        while i < steps
            invariant
                self.wf(),
                self.width > 0,
                self.height > 0,
                HALF <= max_radius <= LARGEST_RADIUS,
                steps == moves@.len(),
                steps <= 0x1_0000_0000,
                forall|i: int| 0 <= i < moves@.len() ==> (#[trigger] moves@[i]).valid(),
                0 <= i <= steps,
                shape == self@.climbed(start, moves@, i as int, max_radius as int),
                score == self@.score(shape),
                shape.on_canvas(self.width as int, self.height as int),
                shape.rx <= max_radius,
                shape.ry <= max_radius,
                -(HALF_TURN + i * HALF) <= shape.angle <= HALF_TURN + i * HALF,
            decreases steps - i,
        {
            let (candidate, candidate_score) = self.propose(&shape, moves[i], i, steps, max_radius);
            if candidate_score.is_better_than(&score) {
                score = candidate_score;
                shape = candidate;
            }
            i = i + 1;
        }
        shape
    }

    /// Finds the next shape and paints it.
    ///
    /// `random_trials + 1` seeds and `hill_climb_steps` mutations are drawn,
    /// the search goes from those seeds by those mutations under the cap of
    /// shape number `shape_idx` of `max_shapes`, and what it finds gets its
    /// optimal fill and is painted, whatever its score.
    pub fn add_shape(&mut self, shape_idx: usize, max_shapes: usize, fidelity_mode: u8) -> (shape:
        Ellipse)
        requires
            old(self).wf(),
            old(self).width > 0,
            old(self).height > 0,
        ensures
            final(self).wf(),
            final(self).width == old(self).width,
            final(self).height == old(self).height,
            final(self).target_pixels@ == old(self).target_pixels@,
            old(self)@.finds(shape, radius_cap(shape_idx as int, max_shapes as int), fidelity_mode),
            shape.on_canvas(old(self).width as int, old(self).height as int),
            shape.rx <= radius_cap(shape_idx as int, max_shapes as int),
            shape.ry <= radius_cap(shape_idx as int, max_shapes as int),
            -(HALF_TURN + hill_climb_steps(fidelity_mode) * HALF) <= shape.angle <= HALF_TURN
                + hill_climb_steps(fidelity_mode) * HALF,
            shape.color == old(self)@.optimal_color(shape),
            final(self).current_pixels@ == painted(
                old(self).current_pixels@,
                old(self).width as int,
                old(self).height as int,
                shape,
            ),
    {
        let max_radius: i64 = cap_for(shape_idx, max_shapes);
        let trials: usize = trials_for(fidelity_mode);
        let steps: usize = steps_for(fidelity_mode);

        let mut seeds: Vec<Ellipse> = Vec::new();
        while seeds.len() <= trials
            invariant
                self.wf(),
                self.width > 0,
                self.height > 0,
                ONE < max_radius <= LARGEST_RADIUS,
                trials <= 4000,
                seeds@.len() <= trials + 1,
                forall|j: int|
                    0 <= j < seeds@.len() ==> self@.is_some_seed(#[trigger] seeds@[j], max_radius as int),
            decreases trials + 1 - seeds@.len(),
        {
            let seed = self.pick_high_error_seed(max_radius);
            seeds.push(seed);
        }
        let mut moves: Vec<Mutation> = Vec::new();
        while moves.len() < steps
            invariant
                moves@.len() <= steps,
                forall|i: int| 0 <= i < moves@.len() ==> (#[trigger] moves@[i]).valid(),
            decreases steps - moves@.len(),
        {
            moves.push(Mutation::random());
        }
        proof {
            assert forall|j: int| 0 <= j < seeds@.len() implies self@.can_start(
                #[trigger] seeds@[j],
                max_radius as int,
            ) by {
                self@.lemma_seed_can_start(seeds@[j], max_radius as int);
            }
        }
        let mut shape = self.search(&seeds, &moves, max_radius);
        let color = self.compute_optimal_color(&shape);
        proof {
            self@.lemma_fill_is_ignored(shape, Ellipse { color, ..shape });
            assert(Ellipse { color, ..shape } == self@.fitted(seeds@, moves@, max_radius as int));
        }
        shape.color = color;
        self.draw_shape(&shape);
        shape
    }

    /// Where the pixel (`x`, `y`) starts in either picture.
    fn locate(&self, x: u32, y: u32) -> (at: usize)
        requires
            self.wf(),
            x < self.width,
            y < self.height,
        ensures
            at == offset(self.width as int, x as int, y as int),
            at + 4 <= self.target_pixels@.len(),
            at + 4 <= self.current_pixels@.len(),
    {
        proof {
            lemma_offset_in_range(self.width as int, self.height as int, x as int, y as int);
        }
        (y as usize * self.width as usize + x as usize) * 4
    }
}

/// `ideal` in executable form.
pub fn ideal_value(t: u8, c: u8, a: u8) -> (k: u8)
    requires
        a > 0,
    ensures
        k == ideal(t as int, c as int, a as int),
{
    assert(0 <= (c as int) * (255 - a as int) <= 65025) by (nonlinear_arith)
        requires
            0 <= c <= 255,
            0 < a <= 255,
    ;
    let num: i32 = 255 * (t as i32) - (c as i32) * (255 - a as i32);
    if num <= 0 {
        proof {
            if num < 0 {
                vstd::arithmetic::div_mod::lemma_div_by_multiple_is_strongly_ordered(
                    num as int,
                    0,
                    0,
                    a as int,
                );
            }
        }
        0
    } else {
        let q: i32 = num / (a as i32);
        proof {
            vstd::arithmetic::div_mod::lemma_div_pos_is_pos(num as int, a as int);
        }
        if q > 255 {
            255
        } else {
            q as u8
        }
    }
}

/// `blend` in executable form.
pub fn blend_value(c: u8, k: u8, a: u8) -> (r: u8)
    ensures
        r == blend(c as int, k as int, a as int),
{
    proof {
        lemma_blend_is_byte(c as int, k as int, a as int);
    }
    assert(0 <= (c as int) * (255 - a as int) <= 65025 && 0 <= (k as int) * (a as int) <= 65025)
        by (nonlinear_arith)
        requires
            0 <= c <= 255,
            0 <= k <= 255,
            0 <= a <= 255,
    ;
    ((c as u32 * (255 - a as u32) + k as u32 * a as u32) / 255) as u8
}

/// The squared distance between two bytes.
fn square_of(a: u8, b: u8) -> (r: i64)
    ensures
        r == square(a - b),
        0 <= r <= 65025,
{
    proof {
        lemma_square_of_bytes(a as int, b as int);
    }
    let d: i64 = a as i64 - b as i64;
    assert(d * d == square(a - b));
    d * d
}

/// The mean of values that are bytes is a byte.
proof fn lemma_mean_is_byte(sum: int, n: int)
    requires
        n > 0,
        0 <= sum <= 255 * n,
    ensures
        0 <= sum / n <= 255,
{
    vstd::arithmetic::div_mod::lemma_div_pos_is_pos(sum, n);
    vstd::arithmetic::div_mod::lemma_div_is_ordered(sum, 255 * n, n);
    vstd::arithmetic::div_mod::lemma_div_multiples_vanish(255, n);
    assert(255 * n == n * 255) by (nonlinear_arith);
}

} // verus!
