//! What holds of the fitter's parts taken together.

use crate::canvas::{
    error_map, ideal, lemma_blend_is_byte, lemma_offset_in_range, lemma_row_major, offset, painted,
    painted_byte, total_error, Canvas,
};
use crate::desmos::{
    center_x_text, center_y_text, cos_text, is_document, radius_text, sin_text, DesmosState,
    FIXED_ENTRIES,
};
use crate::fixed::{
    cos_fx, lemma_cos_octant_bounds, lemma_sin_octant_bounds, lemma_sqrt_exists, sin_fx, sin_octant,
    sqrt_floor, FULL_TURN, HALF, ONE, QUARTER_TURN, UNIT,
};
use crate::optimizer::{hill_climb_steps, random_trials, Score};
use crate::shapes::{anneal_scale, Ellipse, Mutation, MAX_ALPHA, MIN_ALPHA};
use crate::sums::{
    lemma_rect_add, lemma_rect_bounds, lemma_rect_empty_columns, lemma_rect_restrict,
    lemma_rect_scale,
};
use crate::text::{
    hex_text, is_digit, is_hex_digit, lemma_decimal_text_is_digits, lemma_ratio_text_shape,
    lemma_thousandths_range, ratio_text, thousandths,
};
use crate::{composite, DesmosOptimizer};
use vstd::prelude::*;

verus! {

/// The evaluator and the compositor agree: painting a shape with fill
/// `color` changes the summed squared error of the canvas by exactly the
/// sum, over the pixels that the shape covers, of the change in each
/// pixel's error.
pub proof fn lemma_painting_changes_error(o: Canvas, e: Ellipse)
    requires
        o.wf(),
    ensures
        total_error(
            o.target,
            painted(o.current, o.width as int, o.height as int, e),
            o.width as int,
            o.height as int,
        ) - o.error() == o.over_box(e, o.change_map(e, e.color)),
{
    let w = o.width as int;
    let h = o.height as int;
    let target = o.target;
    let canvas = o.current;
    let after = painted(canvas, w, h, e);
    let f_after = error_map(target, after, w);
    let f_before = error_map(target, canvas, w);
    let d = o.change_map(e, e.color);
    let x0 = e.left();
    let x1 = e.right(w);
    let y0 = e.top();
    let y1 = e.bottom(h);
    assert forall|x: int, y: int| 0 <= x < w && 0 <= y < h implies #[trigger] f_after(x, y)
        == f_before(x, y) + d(x, y) by {
        let at = offset(w, x, y);
        lemma_offset_in_range(w, h, x, y);
        lemma_row_major(w, y * w + x, y, x);
        assert(at / 4 == y * w + x && (at + 1) / 4 == y * w + x && (at + 2) / 4 == y * w + x);
        assert(after[at] == painted_byte(canvas, w, h, e, at));
        assert(after[at + 1] == painted_byte(canvas, w, h, e, at + 1));
        assert(after[at + 2] == painted_byte(canvas, w, h, e, at + 2));
        lemma_blend_is_byte(canvas[at] as int, e.color.0 as int, e.color.3 as int);
        lemma_blend_is_byte(canvas[at + 1] as int, e.color.1 as int, e.color.3 as int);
        lemma_blend_is_byte(canvas[at + 2] as int, e.color.2 as int, e.color.3 as int);
    }
    lemma_rect_add(f_after, f_before, d, 0, w, 0, h);
    if x0 < x1 && y0 < y1 {
        lemma_rect_restrict(d, 0, w, 0, h, x0, x1, y0, y1);
    } else {
        assert(forall|x: int, y: int| !e.covers(w, h, x, y));
        lemma_rect_bounds(d, 0, 0, 0, w, 0, h);
        assert(forall|n: int| #[trigger] (n * 0) == 0) by (nonlinear_arith);
        if x0 <= x1 && y0 <= y1 {
            lemma_rect_bounds(d, 0, 0, x0, x1, y0, y1);
        } else if y0 <= y1 {
            lemma_rect_empty_columns(d, x0, x1, y0, y1);
        }
    }
}

/// The score of a candidate whose bounding box holds a pixel is exactly
/// what committing it does to the summed squared error: the error after
/// painting it with its optimal fill, less the error before.
pub proof fn lemma_score_is_error_change(o: Canvas, e: Ellipse)
    requires
        o.wf(),
        !e.misses(o.width as int, o.height as int),
        e.color == o.optimal_color(e),
    ensures
        o.score(e) matches Score::Change(v) && v == total_error(
            o.target,
            painted(o.current, o.width as int, o.height as int, e),
            o.width as int,
            o.height as int,
        ) - o.error(),
{
    lemma_painting_changes_error(o, e);
    o.lemma_change_bounded(e);
}

/// On a uniform region the solver finds the ideal paint itself: where every
/// pixel that a shape covers has the target colour `t` and the canvas colour
/// `c`, the optimal fill is, channel by channel, the ideal paint value for
/// `t` over `c` at the shape's opacity.
pub proof fn lemma_uniform_region(o: Canvas, e: Ellipse, t: (u8, u8, u8), c: (u8, u8, u8))
    requires
        o.wf(),
        100 * e.alpha >= 255,
        o.covered_count(e) > 0,
        forall|x: int, y: int| #[trigger]
            e.covers(o.width as int, o.height as int, x, y) ==> {
                let at = offset(o.width as int, x, y);
                &&& o.target[at] == t.0
                &&& o.target[at + 1] == t.1
                &&& o.target[at + 2] == t.2
                &&& o.current[at] == c.0
                &&& o.current[at + 1] == c.1
                &&& o.current[at + 2] == c.2
            },
    ensures
        o.optimal_color(e) == (
            ideal(t.0 as int, c.0 as int, e.alpha as int) as u8,
            ideal(t.1 as int, c.1 as int, e.alpha as int) as u8,
            ideal(t.2 as int, c.2 as int, e.alpha as int) as u8,
            e.alpha,
        ),
{
    let w = o.width as int;
    let h = o.height as int;
    let n = o.covered_count(e);
    let cover = o.coverage(e);
    let x0 = e.left();
    let x1 = e.right(w);
    let y0 = e.top();
    let y1 = e.bottom(h);
    let kr = ideal(t.0 as int, c.0 as int, e.alpha as int);
    let kg = ideal(t.1 as int, c.1 as int, e.alpha as int);
    let kb = ideal(t.2 as int, c.2 as int, e.alpha as int);
    assert forall|x: int, y: int| x0 <= x < x1 && y0 <= y < y1 implies #[trigger] o.ideal_map(e, 0)(
        x,
        y,
    ) == kr * cover(x, y) by {
        assert(e.covers(w, h, x, y) ==> cover(x, y) == 1);
    }
    assert forall|x: int, y: int| x0 <= x < x1 && y0 <= y < y1 implies #[trigger] o.ideal_map(e, 1)(
        x,
        y,
    ) == kg * cover(x, y) by {
        assert(e.covers(w, h, x, y) ==> cover(x, y) == 1);
    }
    assert forall|x: int, y: int| x0 <= x < x1 && y0 <= y < y1 implies #[trigger] o.ideal_map(e, 2)(
        x,
        y,
    ) == kb * cover(x, y) by {
        assert(e.covers(w, h, x, y) ==> cover(x, y) == 1);
    }
    lemma_rect_scale(o.ideal_map(e, 0), cover, kr, x0, x1, y0, y1);
    lemma_rect_scale(o.ideal_map(e, 1), cover, kg, x0, x1, y0, y1);
    lemma_rect_scale(o.ideal_map(e, 2), cover, kb, x0, x1, y0, y1);
    vstd::arithmetic::div_mod::lemma_div_multiples_vanish(kr, n);
    vstd::arithmetic::div_mod::lemma_div_multiples_vanish(kg, n);
    vstd::arithmetic::div_mod::lemma_div_multiples_vanish(kb, n);
    assert(kr * n == n * kr && kg * n == n * kg && kb * n == n * kb) by (nonlinear_arith);
}

/// Every committed shape keeps within the cap of its place in the budget:
/// shape number `k` of `n` has semi-axes of at most 10 pixels where `k / n`
/// is above 4/5, of at most 30 where it is above 1/2, and of at most 200
/// otherwise; and of at least half a pixel everywhere.
pub proof fn lemma_committed_radii(s: &DesmosOptimizer, k: int)
    requires
        s.wf(),
        0 <= k < s@.shapes.len(),
    ensures
        ({
            let e = s@.shapes[k];
            let cap: int = if 5 * k > 4 * s@.max_shapes {
                10 * ONE
            } else if 2 * k > s@.max_shapes {
                30 * ONE
            } else {
                200 * ONE
            };
            HALF <= e.rx <= cap && HALF <= e.ry <= cap
        }),
{
    s.lemma_valid();
    assert(s@.admits(s@.shapes[k], k));
}

/// Every committed shape has an opacity from 10 to 255, which is also the
/// opacity of its fill, and lies with its centre on the canvas.
pub proof fn lemma_committed_alpha(s: &DesmosOptimizer, k: int)
    requires
        s.wf(),
        0 <= k < s@.shapes.len(),
    ensures
        ({
            let e = s@.shapes[k];
            &&& MIN_ALPHA <= e.alpha <= MAX_ALPHA
            &&& e.color.3 == e.alpha
            &&& 0 <= e.x <= s@.width * ONE
            &&& 0 <= e.y <= s@.height * ONE
        }),
{
    s.lemma_valid();
    assert(s@.admits(s@.shapes[k], k));
}

/// Every committed shape is what a search found on the canvas as the shapes
/// before it left it: the best of the seeds drawn for it, refined by the
/// mutations drawn for it, with the fill that suits it best there.
pub proof fn lemma_committed_by_search(s: &DesmosOptimizer, k: int)
    requires
        s.wf(),
        0 <= k < s@.shapes.len(),
    ensures
        s@.searched(k),
{
    s.lemma_valid();
}

/// The canvas of a session is its committed shapes painted on white, first
/// to last, and nothing else.
pub proof fn lemma_canvas_is_composite(s: &DesmosOptimizer)
    requires
        s.wf(),
    ensures
        s@.canvas == composite(s@.shapes, s@.width as int, s@.height as int),
        s@.shapes.len() == 0 ==> forall|i: int| 0 <= i < s@.canvas.len() ==> s@.canvas[i] == 255,
{
    s.lemma_valid();
}

/// A session never holds more shapes than its budget.
pub proof fn lemma_count_within_budget(s: &DesmosOptimizer)
    requires
        s.wf(),
    ensures
        s@.shapes.len() <= s@.max_shapes,
{
    s.lemma_valid();
}

/// A document has one entry for each shape after its four fixed ones: three
/// notes, then a folder, then the shapes in their order.
pub proof fn lemma_document_entries(
    doc: DesmosState,
    shapes: Seq<Ellipse>,
    w: int,
    h: int,
    seed: Seq<char>,
)
    requires
        is_document(doc, shapes, w, h, seed),
    ensures
        doc.expressions.list@.len() == shapes.len() + 4,
        doc.expressions.list@[0] is Text,
        doc.expressions.list@[1] is Text,
        doc.expressions.list@[2] is Text,
        doc.expressions.list@[3] is Folder,
        forall|i: int|
            4 <= i < doc.expressions.list@.len() ==> #[trigger] doc.expressions.list@[i] is Expression,
{
    let list = doc.expressions.list@;
    assert forall|i: int| 4 <= i < list.len() implies #[trigger] list[i] is Expression by {
        let j = i - FIXED_ENTRIES;
        assert(list[j + FIXED_ENTRIES] is Expression);
    }
}

/// Whether `t` is a number with exactly three decimals: digits, at least
/// one, after an optional minus sign; a point; and three digits.
pub open spec fn has_three_decimals(t: Seq<char>) -> bool {
    let lead: int = if t.len() > 0 && t[0] == '-' {
        1
    } else {
        0
    };
    &&& t.len() >= lead + 5
    &&& t[t.len() - 4] == '.'
    &&& is_digit(t[t.len() - 3]) && is_digit(t[t.len() - 2]) && is_digit(t[t.len() - 1])
    &&& forall|i: int| lead <= i < t.len() - 4 ==> is_digit(#[trigger] t[i])
}

/// Each of the six constants in the inequality of a shape is a number with
/// exactly three decimals.
pub proof fn lemma_latex_constants(e: Ellipse, w: int, h: int)
    requires
        0 < h,
    ensures
        has_three_decimals(center_x_text(e, w, h)),
        has_three_decimals(center_y_text(e, h)),
        has_three_decimals(cos_text(e)),
        has_three_decimals(sin_text(e)),
        has_three_decimals(radius_text(e.rx as int, h)),
        has_three_decimals(radius_text(e.ry as int, h)),
{
    assert(h * ONE > 0) by (nonlinear_arith)
        requires
            h > 0,
    ;
    lemma_three_decimals(20 * e.x - 10 * w * ONE, h * ONE);
    lemma_three_decimals(10 * h * ONE - 20 * e.y, h * ONE);
    lemma_three_decimals(cos_fx(-e.angle), UNIT as int);
    lemma_three_decimals(sin_fx(-e.angle), UNIT as int);
    lemma_three_decimals(20 * e.rx, h * ONE);
    lemma_three_decimals(20 * e.ry, h * ONE);
}

/// The text of a ratio is a number with exactly three decimals.
pub proof fn lemma_three_decimals(num: int, den: int)
    requires
        0 < den,
    ensures
        has_three_decimals(ratio_text(num, den)),
{
    lemma_ratio_text_shape(num, den);
    let t = ratio_text(num, den);
    if num >= 0 {
        assert(is_digit(t[0]));
    }
}

/// An opacity (a byte, as a share of 255) has the text `0.ddd` or `1.ddd`.
pub proof fn lemma_opacity_text_shape(a: u8)
    ensures
        ({
            let t = ratio_text(a as int, 255);
            &&& t.len() == 5
            &&& (t[0] == '0' || t[0] == '1')
            &&& t[1] == '.'
            &&& is_digit(t[2]) && is_digit(t[3]) && is_digit(t[4])
        }),
{
    let m = thousandths(a as int, 255);
    lemma_thousandths_range(a as int, 255);
    lemma_decimal_text_is_digits((m / 1000) as nat);
}

/// A colour's text is `#` and six hexadecimal digits in lower case.
pub proof fn lemma_hex_text_shape(r: u8, g: u8, b: u8)
    ensures
        hex_text(r, g, b).len() == 7,
        hex_text(r, g, b)[0] == '#',
        forall|i: int| 1 <= i < 7 ==> is_hex_digit(#[trigger] hex_text(r, g, b)[i]),
{
}

/// More fidelity never costs less: no mode has fewer trials or fewer
/// mutations than mode 0, and none has more than mode 3.
pub proof fn lemma_fidelity_cost(fidelity_mode: u8)
    ensures
        random_trials(0) <= random_trials(fidelity_mode) <= random_trials(3),
        hill_climb_steps(0) <= hill_climb_steps(fidelity_mode) <= hill_climb_steps(3),
        random_trials(0) == 40 && hill_climb_steps(0) == 80,
        random_trials(3) == 4000 && hill_climb_steps(3) == 8000,
{
}

/// A mutation touches its own channel only: every other channel of the
/// shape, and its fill, stay exactly as they were.
pub proof fn lemma_mutation_touches_one_channel(e: Ellipse, w: int, h: int, m: Mutation, scale: int)
    ensures
        ({
            let p = e.perturbed(w, h, m, scale);
            &&& m.channel != 0 ==> p.x == e.x
            &&& m.channel != 1 ==> p.y == e.y
            &&& m.channel != 2 ==> p.rx == e.rx
            &&& m.channel != 3 ==> p.ry == e.ry
            &&& m.channel != 4 ==> p.angle == e.angle
            &&& m.channel < 5 ==> p.alpha == e.alpha
            &&& p.color == e.color
        }),
{
}

/// Up to the last iteration the scale of a mutation lies between 0 and 1.
pub proof fn lemma_scale_in_unit(iteration: int, max_iter: int)
    requires
        0 <= iteration <= max_iter,
        0 < max_iter,
    ensures
        0 <= anneal_scale(iteration, max_iter) <= ONE,
{
    let spent = iteration * 0x1_0000_0000 / max_iter;
    assert(0 <= spent <= 0x1_0000_0000) by (nonlinear_arith)
        requires
            spent == (iteration * 0x1_0000_0000) / max_iter,
            max_iter >= 1,
            0 <= iteration <= max_iter,
    ;
    lemma_sqrt_exists(spent);
    let root = sqrt_floor(spent);
    if root > 0x1_0000 {
        assert(root * root > 0x1_0000_0000) by (nonlinear_arith)
            requires
                root > 0x1_0000,
        ;
    }
}

/// A sine and a cosine never leave the range from -1 to 1.
pub proof fn lemma_trig_bounds(angle: int)
    ensures
        -UNIT <= sin_fx(angle) <= UNIT,
        -UNIT <= cos_fx(angle) <= UNIT,
{
    let a = angle % (FULL_TURN as int);
    let x = a % (QUARTER_TURN as int);
    if 2 * x <= QUARTER_TURN {
        lemma_sin_octant_bounds(x);
        lemma_cos_octant_bounds(x);
    } else {
        lemma_sin_octant_bounds(QUARTER_TURN - x);
        lemma_cos_octant_bounds(QUARTER_TURN - x);
    }
}

/// At angle 0 the cosine is 1 and the sine is 0.
pub proof fn lemma_trig_at_zero()
    ensures
        cos_fx(0) == UNIT,
        sin_fx(0) == 0,
{
    assert(0int * 0int == 0) by (nonlinear_arith);
    assert(sin_octant(0) == 0) by (nonlinear_arith);
    let z = 0int * 0int / 65536;
    assert(z == 0);
    let g3 = 65536 - z / 30;
    assert(z * g3 == 0) by (nonlinear_arith)
        requires
            z == 0,
    ;
    let g2 = 65536 - z * g3 / (12 * 65536int);
    assert(z * g2 == 0) by (nonlinear_arith)
        requires
            z == 0,
    ;
}

} // verus!
