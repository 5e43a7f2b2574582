//! The ellipse: the one shape that pictures are built from.

use crate::fixed::{
    ceil_to_whole, ceil_whole, clamp, cos_fx, div_toward_zero, floor_to_whole, floor_whole, isqrt,
    sin_fx, sqrt_floor, trunc_div, HALF, HALF_TURN, ONE, UNIT,
};
use crate::random::draw_between;
use vstd::prelude::*;

verus! {

/// The lowest opacity a shape may have.
pub const MIN_ALPHA: u8 = 10;

/// The highest opacity a shape may have.
pub const MAX_ALPHA: u8 = 255;

/// The opacity in the fill colour of a shape whose colour is not solved yet.
pub const DEFAULT_ALPHA: u8 = 128;

/// Fresh shapes get an opacity from `INITIAL_ALPHA_MIN` up to, not
/// including, `INITIAL_ALPHA_MAX`.
pub const INITIAL_ALPHA_MIN: u8 = 10;

pub const INITIAL_ALPHA_MAX: u8 = 200;

/// Fresh shapes get semi-axes from `INITIAL_RADIUS_MIN` up to, not
/// including, `INITIAL_RADIUS_MAX`.
pub const INITIAL_RADIUS_MIN: i64 = 1 * ONE;

pub const INITIAL_RADIUS_MAX: i64 = 32 * ONE;

/// How far one mutation moves a centre coordinate at most, either way.
pub const POSITION_MUTATION_RANGE: i64 = 16 * ONE;

/// How far one mutation changes a semi-axis at most, either way.
pub const RADIUS_MUTATION_RANGE: i64 = 8 * ONE;

/// How far one mutation turns the shape at most, either way.
pub const ANGLE_MUTATION_RANGE: i64 = HALF;

/// How far one mutation changes the opacity at most, either way.
pub const ALPHA_MUTATION_RANGE: i64 = 30 * ONE;

/// The number of channels of a shape that a mutation chooses from: the
/// centre's two coordinates, the two semi-axes, the angle and the opacity.
pub const CHANNELS: u8 = 6;

/// The longest semi-axis that the optimizer works with: 200 pixels.
pub const LARGEST_RADIUS: i64 = 200 * ONE;

/// How far from the origin, either way, a centre coordinate may lie: as
/// many pixels as a picture can be wide.
pub const COORD_LIMIT: i64 = 0x1_0000_0000_0000;

/// The largest magnitude of an angle that can still be mutated.
pub const ANGLE_LIMIT: i64 = 0x4000_0000_0000_0000;

/// A filled ellipse, turned by `angle` about its centre.
///
/// `x`, `y`, `rx`, `ry` are lengths in pixels and `angle` is in radians, all
/// in counts of `1 / ONE`. `alpha` is the opacity the shape is fitted with;
/// `color` is the fill (red, green, blue, opacity) it is painted with.
#[derive(Clone, Copy, Debug, PartialEq, Eq)]
pub struct Ellipse {
    pub x: i64,
    pub y: i64,
    pub rx: i64,
    pub ry: i64,
    pub angle: i64,
    pub color: (u8, u8, u8, u8),
    pub alpha: u8,
}

/// One mutation as drawn: the channel that it changes (0 and 1 the centre's
/// coordinates, 2 and 3 the semi-axes, 4 the angle, 5 the opacity), and by
/// how much before scaling.
#[derive(Clone, Copy, Debug, PartialEq, Eq)]
pub struct Mutation {
    pub channel: u8,
    pub draw: i64,
}

/// The factor, between 0 and 1 in counts of `1 / ONE`, by which mutation
/// number `iteration` of `max_iter` is scaled: one minus the square root of
/// the share of the iterations that is already spent.
pub open spec fn anneal_scale(iteration: int, max_iter: int) -> int {
    ONE - sqrt_floor(iteration * 0x1_0000_0000 / max_iter)
}

/// The widest draw for a channel, either way.
pub open spec fn mutation_range(channel: int) -> int {
    if channel == 0 || channel == 1 {
        POSITION_MUTATION_RANGE as int
    } else if channel == 2 || channel == 3 {
        RADIUS_MUTATION_RANGE as int
    } else if channel == 4 {
        ANGLE_MUTATION_RANGE as int
    } else {
        ALPHA_MUTATION_RANGE as int
    }
}

impl Mutation {
    /// Whether the channel is one of the six and the draw is within the
    /// channel's range, the upper end left out.
    pub open spec fn valid(self) -> bool {
        &&& self.channel < CHANNELS
        &&& -mutation_range(self.channel as int) <= self.draw < mutation_range(self.channel as int)
    }

    /// A mutation drawn at random: one of the six channels, and a draw
    /// within that channel's range.
    pub fn random() -> (m: Mutation)
        ensures
            m.valid(),
    {
        let channel: u8 = draw_between(0, CHANNELS as i64) as u8;
        let range: i64 = if channel <= 1 {
            POSITION_MUTATION_RANGE
        } else if channel <= 3 {
            RADIUS_MUTATION_RANGE
        } else if channel == 4 {
            ANGLE_MUTATION_RANGE
        } else {
            ALPHA_MUTATION_RANGE
        };
        Mutation { channel, draw: draw_between(-range, range) }
    }
}

impl Ellipse {
    /// What the mutation `m` makes of this shape on a canvas `w` wide and
    /// `h` high at the scale `scale`.
    ///
    /// The draw times the scale is added to the channel, and the sum is held
    /// to the channel's range: the canvas for the centre, half a pixel up to
    /// the canvas's size for a semi-axis, 10 to 255 for the opacity, and
    /// no range for the angle. What is added to the opacity is first rounded
    /// toward zero to a whole number. Every other channel stays as it is.
    pub open spec fn perturbed(self, w: int, h: int, m: Mutation, scale: int) -> Ellipse {
        let step = trunc_div(m.draw * scale, ONE as int);
        if m.channel == 0 {
            Ellipse { x: clamp(self.x + step, 0, w * ONE) as i64, ..self }
        } else if m.channel == 1 {
            Ellipse { y: clamp(self.y + step, 0, h * ONE) as i64, ..self }
        } else if m.channel == 2 {
            Ellipse { rx: clamp(self.rx + step, HALF as int, w * ONE) as i64, ..self }
        } else if m.channel == 3 {
            Ellipse { ry: clamp(self.ry + step, HALF as int, h * ONE) as i64, ..self }
        } else if m.channel == 4 {
            Ellipse { angle: (self.angle + step) as i64, ..self }
        } else {
            let whole = trunc_div(m.draw * scale, ONE * ONE);
            Ellipse {
                alpha: clamp(self.alpha + whole, MIN_ALPHA as int, MAX_ALPHA as int) as u8,
                ..self
            }
        }
    }

    /// The longer of the two semi-axes.
    pub open spec fn reach(self) -> int {
        if self.rx >= self.ry {
            self.rx as int
        } else {
            self.ry as int
        }
    }

    /// The first column of the bounding box: the centre less the reach,
    /// rounded down, and not left of the canvas.
    pub open spec fn left(self) -> int {
        let f = floor_whole(self.x - self.reach());
        if f < 0 {
            0
        } else {
            f
        }
    }

    /// The column after the last one of the bounding box: the centre plus
    /// the reach, rounded up, neither right of a canvas `w` wide nor left
    /// of it.
    pub open spec fn right(self, w: int) -> int {
        let c = ceil_whole(self.x + self.reach());
        if c > w {
            w
        } else if c < 0 {
            0
        } else {
            c
        }
    }

    /// The first row of the bounding box.
    pub open spec fn top(self) -> int {
        let f = floor_whole(self.y - self.reach());
        if f < 0 {
            0
        } else {
            f
        }
    }

    /// The row after the last one of the bounding box, on a canvas `h` high.
    pub open spec fn bottom(self, h: int) -> int {
        let c = ceil_whole(self.y + self.reach());
        if c > h {
            h
        } else if c < 0 {
            0
        } else {
            c
        }
    }

    /// Whether the bounding box holds no pixel of a canvas `w` by `h`.
    pub open spec fn misses(self, w: int, h: int) -> bool {
        self.left() >= self.right(w) || self.top() >= self.bottom(h)
    }

    /// Whether the pixel (`px`, `py`) lies inside the ellipse.
    ///
    /// With `(dx, dy)` the pixel seen from the centre, and `c`, `s` the
    /// cosine and sine of the angle, this is
    /// `(dx c + dy s)^2 / rx^2 + (dy c - dx s)^2 / ry^2 <= 1`,
    /// multiplied out so that nothing is divided.
    pub open spec fn contains(self, px: int, py: int) -> bool {
        let dx = px * ONE - self.x;
        let dy = py * ONE - self.y;
        let c = cos_fx(self.angle as int);
        let s = sin_fx(self.angle as int);
        let u = dx * c + dy * s;
        let v = dy * c - dx * s;
        (u * u) * (self.ry * self.ry) + (v * v) * (self.rx * self.rx) <= (self.rx * self.rx) * (
        self.ry * self.ry) * (UNIT * UNIT)
    }

    /// Whether painting the ellipse on a canvas `w` by `h` touches the pixel
    /// (`px`, `py`): it lies in the bounding box and inside the ellipse.
    pub open spec fn covers(self, w: int, h: int, px: int, py: int) -> bool {
        &&& self.left() <= px < self.right(w)
        &&& self.top() <= py < self.bottom(h)
        &&& self.contains(px, py)
    }

    /// Whether the optimizer can work with the shape: the centre is within
    /// `COORD_LIMIT` of the origin either way, and each semi-axis is at
    /// least half a pixel and at most `LARGEST_RADIUS`.
    pub open spec fn fits(self) -> bool {
        &&& -COORD_LIMIT <= self.x <= COORD_LIMIT
        &&& -COORD_LIMIT <= self.y <= COORD_LIMIT
        &&& HALF <= self.rx <= LARGEST_RADIUS
        &&& HALF <= self.ry <= LARGEST_RADIUS
    }

    /// Whether the shape is one that can be committed to a canvas `w` by
    /// `h`: it fits, its centre is on the canvas, and its opacity is at
    /// least `MIN_ALPHA`.
    pub open spec fn on_canvas(self, w: int, h: int) -> bool {
        &&& self.fits()
        &&& 0 <= self.x <= w * ONE
        &&& 0 <= self.y <= h * ONE
        &&& MIN_ALPHA <= self.alpha
    }

    /// The bounding box on a canvas `w` by `h`: left, right, top, bottom.
    pub fn bounds(&self, w: u32, h: u32) -> (b: (u32, u32, u32, u32))
        requires
            self.fits(),
        ensures
            b.0 == self.left(),
            b.1 == self.right(w as int),
            b.2 == self.top(),
            b.3 == self.bottom(h as int),
    {
        let reach: i64 = if self.rx >= self.ry {
            self.rx
        } else {
            self.ry
        };
        let left: i64 = floor_to_whole(self.x - reach);
        let right: i64 = ceil_to_whole(self.x + reach);
        let top: i64 = floor_to_whole(self.y - reach);
        let bottom: i64 = ceil_to_whole(self.y + reach);
        (
            if left < 0 {
                0
            } else {
                left as u32
            },
            if right > w as i64 {
                w
            } else if right < 0 {
                0
            } else {
                right as u32
            },
            if top < 0 {
                0
            } else {
                top as u32
            },
            if bottom > h as i64 {
                h
            } else if bottom < 0 {
                0
            } else {
                bottom as u32
            },
        )
    }

    /// `contains` in executable form, for a pixel of the bounding box; `cos`
    /// and `sin` are the cosine and sine of the angle.
    pub fn contains_pixel(&self, cos: i64, sin: i64, px: u32, py: u32) -> (r: bool)
        requires
            0 <= self.rx <= LARGEST_RADIUS,
            0 <= self.ry <= LARGEST_RADIUS,
            -(LARGEST_RADIUS + ONE) <= px * ONE - self.x <= LARGEST_RADIUS + ONE,
            -(LARGEST_RADIUS + ONE) <= py * ONE - self.y <= LARGEST_RADIUS + ONE,
            cos == cos_fx(self.angle as int),
            sin == sin_fx(self.angle as int),
            -UNIT <= cos <= UNIT,
            -UNIT <= sin <= UNIT,
        ensures
            r == self.contains(px as int, py as int),
    {
        let dx: i128 = px as i128 * ONE as i128 - self.x as i128;
        let dy: i128 = py as i128 * ONE as i128 - self.y as i128;
        let c: i128 = cos as i128;
        let s: i128 = sin as i128;
        proof {
            lemma_product_bound(dx as int, c as int, 13172736, 16384);
            lemma_product_bound(dy as int, s as int, 13172736, 16384);
            lemma_product_bound(dy as int, c as int, 13172736, 16384);
            lemma_product_bound(dx as int, s as int, 13172736, 16384);
        }
        let u: i128 = dx * c + dy * s;
        let v: i128 = dy * c - dx * s;
        let rx: i128 = self.rx as i128;
        let ry: i128 = self.ry as i128;
        proof {
            lemma_product_bound(u as int, u as int, 431644213248, 431644213248);
            lemma_product_bound(v as int, v as int, 431644213248, 431644213248);
            lemma_product_bound(rx as int, rx as int, 13107200, 13107200);
            lemma_product_bound(ry as int, ry as int, 13107200, 13107200);
        }
        let uu: i128 = u * u;
        let vv: i128 = v * v;
        let rx2: i128 = rx * rx;
        let ry2: i128 = ry * ry;
        proof {
            lemma_product_bound(
                uu as int,
                ry2 as int,
                186316726830484898709504,
                171798691840000,
            );
            lemma_product_bound(
                vv as int,
                rx2 as int,
                186316726830484898709504,
                171798691840000,
            );
            lemma_product_bound(rx2 as int, ry2 as int, 171798691840000, 171798691840000);
            lemma_product_bound(
                (rx2 * ry2) as int,
                268435456,
                29514790517935282585600000000,
                268435456,
            );
        }
        let one: i128 = 268435456;
        assert(one == UNIT * UNIT);
        uu * ry2 + vv * rx2 <= rx2 * ry2 * one
    }

    /// This shape with each semi-axis cut down to `cap` where it is longer.
    pub open spec fn capped(self, cap: int) -> Ellipse {
        Ellipse {
            rx: if self.rx > cap {
                cap as i64
            } else {
                self.rx
            },
            ry: if self.ry > cap {
                cap as i64
            } else {
                self.ry
            },
            ..self
        }
    }

    /// Cuts each semi-axis down to `cap` where it is longer.
    pub fn cap_radii(&mut self, cap: i64)
        ensures
            *final(self) == old(self).capped(cap as int),
    {
        if self.rx > cap {
            self.rx = cap;
        }
        if self.ry > cap {
            self.ry = cap;
        }
    }

    /// Whether this shape can come out of `new_random` on a canvas `w`
    /// wide and `h` high.
    pub open spec fn is_fresh(self, w: int, h: int) -> bool {
        &&& 0 <= self.x < w * ONE
        &&& 0 <= self.y < h * ONE
        &&& INITIAL_RADIUS_MIN <= self.rx < INITIAL_RADIUS_MAX
        &&& INITIAL_RADIUS_MIN <= self.ry < INITIAL_RADIUS_MAX
        &&& 0 <= self.angle < HALF_TURN
        &&& INITIAL_ALPHA_MIN <= self.alpha < INITIAL_ALPHA_MAX
        &&& self.color == (0u8, 0u8, 0u8, DEFAULT_ALPHA)
    }

    /// A shape drawn at random: the centre on the canvas, semi-axes from
    /// 1 to 32 pixels, the angle within a half turn, the opacity from 10 to
    /// 200, each without its upper end, and the fill not yet solved.
    pub fn new_random(w: u32, h: u32) -> (e: Ellipse)
        requires
            w > 0,
            h > 0,
        ensures
            e.is_fresh(w as int, h as int),
    {
        let x: i64 = draw_between(0, w as i64 * ONE);
        let y: i64 = draw_between(0, h as i64 * ONE);
        let rx: i64 = draw_between(INITIAL_RADIUS_MIN, INITIAL_RADIUS_MAX);
        let ry: i64 = draw_between(INITIAL_RADIUS_MIN, INITIAL_RADIUS_MAX);
        let angle: i64 = draw_between(0, HALF_TURN);
        let alpha: i64 = draw_between(INITIAL_ALPHA_MIN as i64, INITIAL_ALPHA_MAX as i64);
        Ellipse { x, y, rx, ry, angle, color: (0, 0, 0, DEFAULT_ALPHA), alpha: alpha as u8 }
    }

    /// The scale of mutation number `iteration` of `max_iter`.
    pub fn scale_at(iteration: usize, max_iter: usize) -> (s: i64)
        requires
            max_iter > 0,
        ensures
            s == anneal_scale(iteration as int, max_iter as int),
            -0x1_0000_0000_0000 < s <= ONE,
            iteration <= max_iter ==> 0 <= s,
    {
        let spent: u128 = iteration as u128 * 0x1_0000_0000 / (max_iter as u128);
        assert(spent <= iteration * 0x1_0000_0000) by (nonlinear_arith)
            requires
                spent == (iteration * 0x1_0000_0000) / (max_iter as int),
                max_iter >= 1,
                iteration >= 0,
        ;
        let root: u128 = isqrt(spent);
        proof {
            if iteration <= max_iter {
                assert(spent <= 0x1_0000_0000) by (nonlinear_arith)
                    requires
                        spent == (iteration * 0x1_0000_0000) / (max_iter as int),
                        max_iter >= 1,
                        0 <= iteration <= max_iter,
                ;
                if root > 0x1_0000 {
                    assert(root * root > 0x1_0000_0000) by (nonlinear_arith)
                        requires
                            root > 0x1_0000,
                    ;
                }
            }
        }
        ONE - root as i64
    }

    /// Applies the mutation `m` at the scale `scale`.
    pub fn perturb(&mut self, w: u32, h: u32, m: Mutation, scale: i64)
        requires
            w > 0,
            h > 0,
            m.valid(),
            -0x1_0000_0000_0000 < scale <= ONE,
            -ANGLE_LIMIT <= old(self).angle <= ANGLE_LIMIT,
        ensures
            *final(self) == old(self).perturbed(w as int, h as int, m, scale as int),
    {
        let draw: i64 = m.draw;
        assert(-0x20_0000 * 0x1_0000_0000_0000 <= draw * scale <= 0x20_0000 * 0x1_0000_0000_0000)
            by (nonlinear_arith)
            requires
                -0x20_0000 <= draw <= 0x20_0000,
                -0x1_0000_0000_0000 <= scale <= 0x1_0000_0000_0000,
        ;
        let product: i128 = draw as i128 * scale as i128;
        let step: i128 = div_toward_zero(product, ONE as i128);
        if m.channel == 0 {
            self.x = hold(self.x as i128 + step, 0, w as i128 * ONE as i128);
        } else if m.channel == 1 {
            self.y = hold(self.y as i128 + step, 0, h as i128 * ONE as i128);
        } else if m.channel == 2 {
            self.rx = hold(self.rx as i128 + step, HALF as i128, w as i128 * ONE as i128);
        } else if m.channel == 3 {
            self.ry = hold(self.ry as i128 + step, HALF as i128, h as i128 * ONE as i128);
        } else if m.channel == 4 {
            self.angle = (self.angle as i128 + step) as i64;
        } else {
            let whole: i128 = div_toward_zero(product, ONE as i128 * ONE as i128);
            self.alpha = hold(
                self.alpha as i128 + whole,
                MIN_ALPHA as i128,
                MAX_ALPHA as i128,
            ) as u8;
        }
    }

    /// Mutates one channel, chosen at random, by a random amount that
    /// shrinks as `iteration` nears `max_iter`. The other channels stay.
    pub fn mutate(&mut self, w: u32, h: u32, iteration: usize, max_iter: usize)
        requires
            w > 0,
            h > 0,
            max_iter > 0,
            -ANGLE_LIMIT <= old(self).angle <= ANGLE_LIMIT,
        ensures
            exists|m: Mutation|
                m.valid() && *final(self) == #[trigger] old(self).perturbed(
                    w as int,
                    h as int,
                    m,
                    anneal_scale(iteration as int, max_iter as int),
                ),
    {
        let scale: i64 = Self::scale_at(iteration, max_iter);
        let m = Mutation::random();
        self.perturb(w, h, m, scale);
    }
}

/// A mutation at a scale between 0 and 1 keeps a shape that is on the
/// canvas on it, but for the semi-axes, which may grow up to the canvas's
/// size; the angle moves by at most half a radian.
pub proof fn lemma_perturbed_stays(e: Ellipse, w: int, h: int, m: Mutation, scale: int)
    requires
        0 < w <= u32::MAX,
        0 < h <= u32::MAX,
        m.valid(),
        0 <= scale <= ONE,
        e.on_canvas(w, h),
        -ANGLE_LIMIT + HALF <= e.angle <= ANGLE_LIMIT - HALF,
    ensures
        ({
            let p = e.perturbed(w, h, m, scale);
            &&& 0 <= p.x <= w * ONE
            &&& 0 <= p.y <= h * ONE
            &&& -COORD_LIMIT <= p.x <= COORD_LIMIT
            &&& -COORD_LIMIT <= p.y <= COORD_LIMIT
            &&& HALF <= p.rx
            &&& HALF <= p.ry
            &&& (p.rx == e.rx || p.ry == e.ry)
            &&& MIN_ALPHA <= p.alpha <= MAX_ALPHA
            &&& e.angle - HALF <= p.angle <= e.angle + HALF
            &&& p.color == e.color
        }),
{
    let range = mutation_range(m.channel as int);
    assert(-(range * ONE) <= m.draw * scale <= range * ONE) by (nonlinear_arith)
        requires
            -range <= m.draw < range,
            0 <= scale <= ONE,
            0 < range,
    ;
    let step = trunc_div(m.draw * scale, ONE as int);
    assert(-range <= step <= range);
    assert(w * ONE <= COORD_LIMIT && h * ONE <= COORD_LIMIT);
}

/// A product is bounded by the product of its factors' bounds.
proof fn lemma_product_bound(a: int, b: int, bound_a: int, bound_b: int)
    requires
        -bound_a <= a <= bound_a,
        -bound_b <= b <= bound_b,
    ensures
        -(bound_a * bound_b) <= a * b <= bound_a * bound_b,
{
    assert(-(bound_a * bound_b) <= a * b <= bound_a * bound_b) by (nonlinear_arith)
        requires
            -bound_a <= a <= bound_a,
            -bound_b <= b <= bound_b,
    ;
}

/// `clamp` in executable form.
fn hold(v: i128, lo: i128, hi: i128) -> (r: i64)
    requires
        i64::MIN <= lo <= hi <= i64::MAX,
    ensures
        r == clamp(v as int, lo as int, hi as int),
{
    if v < lo {
        lo as i64
    } else if v > hi {
        hi as i64
    } else {
        v as i64
    }
}

} // verus!
