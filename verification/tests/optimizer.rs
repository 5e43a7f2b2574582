use eidos::fixed::{HALF, HALF_TURN, ONE};
use eidos::optimizer::{
    blend_value, cap_for, ideal_value, multiplier_for, steps_for, trials_for, Optimizer, Score,
};
use eidos::shapes::{Ellipse, Mutation};

fn opt_uniform(w: u32, h: u32, r: u8, g: u8, b: u8) -> Vec<u8> {
    let mut v = Vec::new();
    for _ in 0..(w * h) {
        v.push(r);
        v.push(g);
        v.push(b);
        v.push(255);
    }
    v
}

fn opt_error(o: &Optimizer) -> i64 {
    let mut total: i64 = 0;
    let pixels = (o.width * o.height) as usize;
    for p in 0..pixels {
        for ch in 0..3 {
            let d = o.target_pixels[4 * p + ch] as i64 - o.current_pixels[4 * p + ch] as i64;
            total += d * d;
        }
    }
    total
}

fn opt_circle(x: i64, y: i64, r: i64, alpha: u8) -> Ellipse {
    Ellipse { x, y, rx: r, ry: r, angle: 0, color: (0, 0, 0, 128), alpha }
}

fn opt_copy(o: &Optimizer) -> Optimizer {
    let mut c = Optimizer::new(&o.target_pixels, o.width, o.height);
    c.current_pixels = o.current_pixels.clone();
    c
}

fn opt_gradient(w: u32, h: u32) -> Vec<u8> {
    let mut v = Vec::new();
    for y in 0..h {
        for x in 0..w {
            v.push((x * 255 / w) as u8);
            v.push((y * 255 / h) as u8);
            v.push(((x * 7 + y * 13) % 256) as u8);
            v.push(255);
        }
    }
    v
}

#[test]
fn new_canvas_is_white() {
    let target = opt_gradient(5, 4);
    let o = Optimizer::new(&target, 5, 4);
    assert_eq!(o.width, 5);
    assert_eq!(o.height, 4);
    assert_eq!(o.target_pixels, target);
    assert_eq!(o.current_pixels.len(), 80);
    assert!(o.current_pixels.iter().all(|&b| b == 255));
}

#[test]
fn new_takes_an_empty_picture() {
    let o = Optimizer::new(&[], 0, 0);
    assert!(o.target_pixels.is_empty());
    assert!(o.current_pixels.is_empty());
}

#[test]
fn radius_cap_has_three_stages() {
    assert_eq!(cap_for(0, 10), 200 * ONE);
    assert_eq!(cap_for(5, 10), 200 * ONE);
    assert_eq!(cap_for(6, 10), 30 * ONE);
    assert_eq!(cap_for(8, 10), 30 * ONE);
    assert_eq!(cap_for(9, 10), 10 * ONE);
    assert_eq!(cap_for(10, 10), 10 * ONE);
    assert_eq!(cap_for(0, 1), 200 * ONE);
    assert_eq!(cap_for(50, 100), 200 * ONE);
    assert_eq!(cap_for(51, 100), 30 * ONE);
    assert_eq!(cap_for(80, 100), 30 * ONE);
    assert_eq!(cap_for(81, 100), 10 * ONE);
}

#[test]
fn radius_cap_takes_any_counts() {
    assert_eq!(cap_for(0, 0), 200 * ONE);
    assert_eq!(cap_for(1, 0), 10 * ONE);
    assert_eq!(cap_for(usize::MAX, usize::MAX), 10 * ONE);
    assert_eq!(cap_for(usize::MAX / 2, usize::MAX), 200 * ONE);
    assert_eq!(cap_for(usize::MAX / 2 + 1, usize::MAX), 30 * ONE);
}

#[test]
fn fidelity_sets_the_effort() {
    assert_eq!(multiplier_for(0), 1);
    assert_eq!(multiplier_for(1), 3);
    assert_eq!(multiplier_for(2), 10);
    assert_eq!(multiplier_for(3), 100);
    assert_eq!(trials_for(0), 40);
    assert_eq!(steps_for(0), 80);
    assert_eq!(trials_for(1), 120);
    assert_eq!(steps_for(1), 240);
    assert_eq!(trials_for(2), 400);
    assert_eq!(steps_for(2), 800);
    assert_eq!(trials_for(3), 4000);
    assert_eq!(steps_for(3), 8000);
}

#[test]
fn unknown_fidelity_counts_as_standard() {
    for mode in 4..=255u8 {
        assert_eq!(multiplier_for(mode), 1);
        assert_eq!(trials_for(mode), 40);
        assert_eq!(steps_for(mode), 80);
    }
}

#[test]
fn higher_fidelity_never_costs_less() {
    assert!(trials_for(3) >= trials_for(0));
    assert!(steps_for(3) >= steps_for(0));
    for mode in 0..3u8 {
        assert!(trials_for(mode + 1) >= trials_for(mode));
        assert!(steps_for(mode + 1) >= steps_for(mode));
    }
}

#[test]
fn blend_weighs_by_opacity() {
    assert_eq!(blend_value(255, 200, 255), 200);
    assert_eq!(blend_value(255, 200, 0), 255);
    assert_eq!(blend_value(255, 0, 128), 127);
    assert_eq!(blend_value(100, 200, 51), 120);
    assert_eq!(blend_value(0, 255, 1), 1);
    assert_eq!(blend_value(0, 254, 1), 0);
    assert_eq!(blend_value(10, 10, 77), 10);
    assert_eq!(blend_value(255, 184, 200), 199);
}

#[test]
fn blend_stays_between_its_ends() {
    for c in (0..=255u16).step_by(5) {
        for k in (0..=255u16).step_by(15) {
            for a in (0..=255u16).step_by(17) {
                let r = blend_value(c as u8, k as u8, a as u8) as u16;
                assert!(c.min(k) <= r && r <= c.max(k));
            }
        }
    }
}

#[test]
fn ideal_inverts_the_blend() {
    assert_eq!(ideal_value(200, 255, 255), 200);
    assert_eq!(ideal_value(200, 255, 200), 184);
    assert_eq!(ideal_value(0, 255, 100), 0);
    assert_eq!(ideal_value(255, 0, 100), 255);
    assert_eq!(ideal_value(255, 255, 10), 255);
    assert_eq!(ideal_value(0, 0, 10), 0);
    assert_eq!(ideal_value(100, 50, 128), 149);
    assert_eq!(ideal_value(7, 7, 1), 7);
}

#[test]
fn score_orders_candidates() {
    assert!(Score::Change(-5).is_better_than(&Score::Change(-4)));
    assert!(!Score::Change(-4).is_better_than(&Score::Change(-4)));
    assert!(!Score::Change(3).is_better_than(&Score::Change(-4)));
    assert!(Score::Change(i64::MAX).is_better_than(&Score::Rejected));
    assert!(!Score::Rejected.is_better_than(&Score::Change(i64::MAX)));
    assert!(!Score::Rejected.is_better_than(&Score::Rejected));
}

#[test]
fn blank_target_is_solved_exactly() {
    let target = opt_uniform(4, 4, 200, 200, 200);
    let mut o = Optimizer::new(&target, 4, 4);
    let before = opt_error(&o);
    let mut e = opt_circle(2 * ONE, 2 * ONE, ONE, 255);
    assert_eq!(o.compute_optimal_color(&e), (200, 200, 200, 255));
    e.color = o.compute_optimal_color(&e);
    o.draw_shape(&e);
    let mut touched = 0;
    for p in 0..16 {
        let c = o.current_pixels[4 * p];
        if c != 255 {
            touched += 1;
            assert!(c == 199 || c == 200);
            assert_eq!(o.current_pixels[4 * p + 1], c);
            assert_eq!(o.current_pixels[4 * p + 2], c);
        }
    }
    assert_eq!(touched, 3);
    assert!(opt_error(&o) < before);
}

#[test]
fn blank_target_is_solved_for_any_cover() {
    let target = opt_uniform(4, 4, 200, 200, 200);
    let o = Optimizer::new(&target, 4, 4);
    let shapes = [
        opt_circle(0, 0, HALF, 255),
        opt_circle(4 * ONE, 4 * ONE, 3 * ONE, 255),
        opt_circle(2 * ONE + 7, ONE + 999, 10 * ONE, 255),
        Ellipse { rx: 3 * ONE, ry: HALF, angle: 40000, ..opt_circle(ONE, 3 * ONE, ONE, 255) },
    ];
    for e in shapes.iter() {
        assert_eq!(o.compute_optimal_color(e), (200, 200, 200, 255));
    }
}

#[test]
fn thin_paint_on_a_blank_target_still_lowers_the_error() {
    let target = opt_uniform(4, 4, 200, 200, 200);
    for alpha in [10u8, 54, 55, 56, 100, 200, 254] {
        let mut o = Optimizer::new(&target, 4, 4);
        let before = opt_error(&o);
        let mut e = opt_circle(2 * ONE, 2 * ONE, 2 * ONE, alpha);
        e.color = o.compute_optimal_color(&e);
        assert_eq!(e.color.3, alpha);
        o.draw_shape(&e);
        assert!(opt_error(&o) < before);
    }
}

#[test]
fn solver_gives_up_on_invisible_paint() {
    let target = opt_uniform(4, 4, 10, 20, 30);
    let o = Optimizer::new(&target, 4, 4);
    for alpha in 0..=2u8 {
        assert_eq!(o.compute_optimal_color(&opt_circle(2 * ONE, 2 * ONE, ONE, alpha)), (0, 0, 0, 0));
    }
    assert_eq!(o.compute_optimal_color(&opt_circle(2 * ONE, 2 * ONE, ONE, 3)).3, 3);
}

#[test]
fn solver_paints_gray_where_nothing_is_covered() {
    let target = opt_uniform(4, 4, 10, 20, 30);
    let o = Optimizer::new(&target, 4, 4);
    let e = opt_circle(-10 * ONE, 2 * ONE, ONE, 77);
    assert_eq!(o.compute_optimal_color(&e), (128, 128, 128, 77));
    let between = opt_circle(ONE + HALF, ONE + HALF, HALF, 90);
    assert_eq!(o.compute_optimal_color(&between), (128, 128, 128, 90));
    assert_eq!(o.evaluate_shape(&between), Score::Change(0));
}

#[test]
fn solver_averages_the_ideal_paint() {
    let mut target = opt_uniform(3, 3, 255, 255, 255);
    target[16] = 0;
    target[17] = 0;
    target[18] = 0;
    let o = Optimizer::new(&target, 3, 3);
    let e = opt_circle(ONE, ONE, ONE, 255);
    assert_eq!(o.compute_optimal_color(&e), (170, 170, 170, 255));
}

#[test]
fn solver_on_a_uniform_region_is_the_clamped_ideal() {
    for &(t, c, a) in
        [(200u8, 255u8, 255u8), (200, 255, 200), (0, 255, 100), (255, 0, 100), (100, 50, 128), (90, 90, 10)]
            .iter()
    {
        let target = opt_uniform(6, 6, t, t / 2, 255 - t);
        let mut o = Optimizer::new(&target, 6, 6);
        for p in 0..36 {
            o.current_pixels[4 * p] = c;
            o.current_pixels[4 * p + 1] = c / 3;
            o.current_pixels[4 * p + 2] = 255 - c;
        }
        let e = Ellipse { angle: 12345, rx: 2 * ONE, ..opt_circle(3 * ONE, 3 * ONE, ONE, a) };
        let expected = (
            ideal_value(t, c, a),
            ideal_value(t / 2, c / 3, a),
            ideal_value(255 - t, 255 - c, a),
            a,
        );
        assert_eq!(o.compute_optimal_color(&e), expected);
    }
}

#[test]
fn single_dark_pixel_is_worth_covering() {
    let mut target = opt_uniform(3, 3, 255, 255, 255);
    target[16] = 0;
    target[17] = 0;
    target[18] = 0;
    let o = Optimizer::new(&target, 3, 3);
    let on_it = o.evaluate_shape(&opt_circle(ONE, ONE, ONE, 255));
    let off_it = o.evaluate_shape(&opt_circle(0, 0, 39322, 255));
    assert_eq!(on_it, Score::Change(-65025));
    assert_eq!(off_it, Score::Change(0));
    assert!(on_it.is_better_than(&Score::Change(0)));
    assert!(!off_it.is_better_than(&on_it));
}

#[test]
fn evaluator_rejects_a_shape_off_the_canvas() {
    let target = opt_uniform(4, 4, 1, 2, 3);
    let o = Optimizer::new(&target, 4, 4);
    assert_eq!(o.evaluate_shape(&opt_circle(-5 * ONE, ONE, ONE, 200)), Score::Rejected);
    assert_eq!(o.evaluate_shape(&opt_circle(ONE, 9 * ONE, ONE, 200)), Score::Rejected);
    let empty = Optimizer::new(&[], 0, 0);
    assert_eq!(empty.evaluate_shape(&opt_circle(0, 0, ONE, 200)), Score::Rejected);
}

#[test]
fn evaluator_does_not_touch_the_canvas() {
    let target = opt_gradient(8, 8);
    let o = Optimizer::new(&target, 8, 8);
    let before = o.current_pixels.clone();
    let _ = o.evaluate_shape(&opt_circle(4 * ONE, 4 * ONE, 3 * ONE, 120));
    let _ = o.compute_optimal_color(&opt_circle(4 * ONE, 4 * ONE, 3 * ONE, 120));
    assert_eq!(o.current_pixels, before);
    assert_eq!(o.target_pixels, target);
}

#[test]
fn evaluator_ignores_the_fill_of_the_candidate() {
    let target = opt_gradient(8, 8);
    let o = Optimizer::new(&target, 8, 8);
    let a = opt_circle(4 * ONE, 4 * ONE, 3 * ONE, 120);
    let b = Ellipse { color: (9, 99, 199, 3), ..a };
    assert_eq!(o.evaluate_shape(&a), o.evaluate_shape(&b));
    assert_eq!(o.compute_optimal_color(&a), o.compute_optimal_color(&b));
}

#[test]
fn evaluator_agrees_with_the_compositor() {
    let target = opt_gradient(16, 12);
    let mut o = Optimizer::new(&target, 16, 12);
    let shapes = [
        opt_circle(8 * ONE, 6 * ONE, 5 * ONE, 255),
        opt_circle(3 * ONE + 1000, 2 * ONE + 77, 2 * ONE, 128),
        Ellipse { rx: 7 * ONE, ry: ONE + HALF, angle: 30000, ..opt_circle(9 * ONE, 7 * ONE, ONE, 60) },
        Ellipse { rx: 4 * ONE, ry: 9 * ONE, angle: -123456, ..opt_circle(0, 12 * ONE, ONE, 10) },
        Ellipse { rx: 200 * ONE, ry: 200 * ONE, ..opt_circle(16 * ONE, 0, ONE, 200) },
        opt_circle(5 * ONE, 5 * ONE, 3 * ONE, 2),
        opt_circle(15 * ONE, 11 * ONE, HALF, 99),
    ];
    for shape in shapes.iter() {
        let mut e = *shape;
        let score = o.evaluate_shape(&e);
        let before = opt_error(&o);
        e.color = o.compute_optimal_color(&e);
        o.draw_shape(&e);
        let after = opt_error(&o);
        assert_eq!(score, Score::Change(after - before));
    }
}

#[test]
fn compositor_blends_and_makes_opaque() {
    let target = opt_uniform(3, 3, 0, 0, 0);
    let mut o = Optimizer::new(&target, 3, 3);
    for p in 0..9 {
        o.current_pixels[4 * p] = 100;
        o.current_pixels[4 * p + 1] = 150;
        o.current_pixels[4 * p + 2] = 250;
        o.current_pixels[4 * p + 3] = 7;
    }
    let e = Ellipse { color: (200, 50, 0, 51), ..opt_circle(ONE, ONE, ONE, 51) };
    o.draw_shape(&e);
    let covered = [1usize, 3, 4];
    for p in 0..9 {
        let px = &o.current_pixels[4 * p..4 * p + 4];
        if covered.contains(&p) {
            assert_eq!(px, &[120, 130, 200, 255]);
        } else {
            assert_eq!(px, &[100, 150, 250, 7]);
        }
    }
    assert_eq!(o.target_pixels, target);
}

#[test]
fn compositor_with_clear_paint_only_makes_opaque() {
    let target = opt_uniform(3, 3, 0, 0, 0);
    let mut o = Optimizer::new(&target, 3, 3);
    for b in o.current_pixels.iter_mut() {
        *b = 42;
    }
    let e = Ellipse { color: (0, 0, 0, 0), ..opt_circle(ONE, ONE, 3 * ONE, 2) };
    o.draw_shape(&e);
    for p in 0..9 {
        assert_eq!(&o.current_pixels[4 * p..4 * p + 4], &[42, 42, 42, 255]);
    }
}

#[test]
fn compositor_leaves_the_canvas_when_off_it() {
    let target = opt_gradient(5, 5);
    let mut o = Optimizer::new(&target, 5, 5);
    let before = o.current_pixels.clone();
    o.draw_shape(&Ellipse { color: (1, 2, 3, 255), ..opt_circle(-9 * ONE, 0, ONE, 255) });
    assert_eq!(o.current_pixels, before);
}

#[test]
fn compositor_covers_the_whole_canvas_with_a_wide_shape() {
    let target = opt_uniform(7, 5, 0, 0, 0);
    let mut o = Optimizer::new(&target, 7, 5);
    let e = Ellipse { color: (10, 20, 30, 255), ..opt_circle(3 * ONE, 2 * ONE, 100 * ONE, 255) };
    o.draw_shape(&e);
    for p in 0..35 {
        assert_eq!(&o.current_pixels[4 * p..4 * p + 4], &[10, 20, 30, 255]);
    }
}

#[test]
fn worst_sample_is_the_first_of_the_largest() {
    let mut target = opt_uniform(4, 1, 255, 255, 255);
    target[4] = 250;
    target[8] = 0;
    target[12] = 0;
    let o = Optimizer::new(&target, 4, 1);
    assert_eq!(o.worst_sample(&vec![(0, 0)]), 0);
    assert_eq!(o.worst_sample(&vec![(0, 0), (1, 0)]), 1);
    assert_eq!(o.worst_sample(&vec![(1, 0), (0, 0)]), 0);
    assert_eq!(o.worst_sample(&vec![(0, 0), (2, 0), (3, 0), (1, 0)]), 1);
    assert_eq!(o.worst_sample(&vec![(1, 0), (3, 0), (2, 0), (3, 0)]), 1);
    assert_eq!(o.worst_sample(&vec![(0, 0), (0, 0), (0, 0)]), 0);
}

#[test]
fn seed_is_small_and_centred_on_a_pixel() {
    let target = opt_gradient(9, 6);
    let o = Optimizer::new(&target, 9, 6);
    for &(cap, limit) in [(200 * ONE, 15 * ONE), (30 * ONE, 15 * ONE), (10 * ONE, 10 * ONE), (2 * ONE, 2 * ONE)].iter() {
        for _ in 0..200 {
            let s = o.pick_high_error_seed(cap);
            assert_eq!(s.x % ONE, 0);
            assert_eq!(s.y % ONE, 0);
            assert!(0 <= s.x && s.x < 9 * ONE);
            assert!(0 <= s.y && s.y < 6 * ONE);
            assert!(ONE <= s.rx && s.rx < limit);
            assert!(ONE <= s.ry && s.ry < limit);
            assert!(0 <= s.angle && s.angle < HALF_TURN);
            assert!(10 <= s.alpha && s.alpha < 200);
            assert_eq!(s.color, (0, 0, 0, 128));
        }
    }
}

#[test]
fn seed_goes_where_the_error_is() {
    let mut target = opt_uniform(2, 2, 255, 255, 255);
    target[12] = 0;
    let o = Optimizer::new(&target, 2, 2);
    let mut hits = 0;
    for _ in 0..50 {
        let s = o.pick_high_error_seed(200 * ONE);
        if s.x == ONE && s.y == ONE {
            hits += 1;
        }
    }
    assert!(hits >= 45);
}

#[test]
fn seeds_vary() {
    let target = opt_gradient(50, 50);
    let o = Optimizer::new(&target, 50, 50);
    let first = o.pick_high_error_seed(200 * ONE);
    let mut differs = false;
    for _ in 0..20 {
        if o.pick_high_error_seed(200 * ONE) != first {
            differs = true;
        }
    }
    assert!(differs);
}

#[test]
fn add_shape_commits_what_it_returns() {
    let target = opt_gradient(12, 10);
    let mut o = Optimizer::new(&target, 12, 10);
    for k in 0..6 {
        let mut twin = opt_copy(&o);
        let shape = o.add_shape(k, 6, 0);
        assert_eq!(shape.color, twin.compute_optimal_color(&shape));
        twin.draw_shape(&shape);
        assert_eq!(o.current_pixels, twin.current_pixels);
        assert_eq!(o.target_pixels, target);
        assert_eq!((o.width, o.height), (12, 10));
    }
}

#[test]
fn add_shape_keeps_the_shape_in_bounds() {
    let target = opt_gradient(12, 10);
    let mut o = Optimizer::new(&target, 12, 10);
    for k in 0..10 {
        let shape = o.add_shape(k, 10, 0);
        let cap = cap_for(k, 10);
        assert!(0 <= shape.x && shape.x <= 12 * ONE);
        assert!(0 <= shape.y && shape.y <= 10 * ONE);
        assert!(HALF <= shape.rx && shape.rx <= cap);
        assert!(HALF <= shape.ry && shape.ry <= cap);
        assert!(10 <= shape.alpha);
        assert_eq!(shape.color.3, shape.alpha);
        assert!(shape.angle.abs() <= HALF_TURN + 80 * HALF);
    }
}

#[test]
fn add_shape_lowers_the_error_of_a_plain_picture() {
    let target = opt_uniform(8, 8, 30, 60, 90);
    let mut o = Optimizer::new(&target, 8, 8);
    let before = opt_error(&o);
    o.add_shape(0, 1, 0);
    assert!(opt_error(&o) < before);
}

#[test]
fn add_shape_takes_any_fidelity_mode() {
    let target = opt_gradient(6, 6);
    let mut o = Optimizer::new(&target, 6, 6);
    let shape = o.add_shape(0, 1, 200);
    assert!(shape.angle.abs() <= HALF_TURN + 80 * HALF);
    let shape = o.add_shape(0, 1, 1);
    assert!(shape.angle.abs() <= HALF_TURN + 240 * HALF);
}

fn opt_dark_pixel() -> Optimizer {
    let mut target = opt_uniform(3, 3, 255, 255, 255);
    target[16] = 0;
    target[17] = 0;
    target[18] = 0;
    Optimizer::new(&target, 3, 3)
}

fn opt_replay(o: &Optimizer, seeds: &[Ellipse], moves: &[Mutation], cap: i64) -> Ellipse {
    let mut best = seeds[0];
    let mut score = o.evaluate_shape(&best);
    for s in seeds[1..].iter() {
        let t = o.evaluate_shape(s);
        if t.is_better_than(&score) {
            score = t;
            best = *s;
        }
    }
    for (i, m) in moves.iter().enumerate() {
        let mut c = best;
        c.perturb(o.width, o.height, *m, Ellipse::scale_at(i, moves.len()));
        c.cap_radii(cap);
        let t = o.evaluate_shape(&c);
        if t.is_better_than(&score) {
            score = t;
            best = c;
        }
    }
    best
}

#[test]
fn search_without_moves_takes_the_first_best_seed() {
    let o = opt_dark_pixel();
    let off = opt_circle(0, 0, 39322, 255);
    let on = opt_circle(ONE, ONE, ONE, 255);
    let twin = Ellipse { color: (9, 9, 9, 9), ..on };
    let none: Vec<Mutation> = Vec::new();
    assert_eq!(o.search(&vec![off], &none, 200 * ONE), off);
    assert_eq!(o.search(&vec![off, on], &none, 200 * ONE), on);
    assert_eq!(o.search(&vec![on, off], &none, 200 * ONE), on);
    assert_eq!(o.search(&vec![off, on, twin], &none, 200 * ONE), on);
    assert_eq!(o.search(&vec![off, twin, on], &none, 200 * ONE), twin);
}

#[test]
fn search_keeps_only_moves_that_score_strictly_better() {
    let o = opt_dark_pixel();
    let on = opt_circle(ONE, ONE, ONE, 255);
    let shrink_x = Mutation { channel: 2, draw: -HALF };
    let shrink_y = Mutation { channel: 3, draw: -HALF };
    let turn = Mutation { channel: 4, draw: 1000 };
    let away = Mutation { channel: 0, draw: -16 * ONE };

    let found = o.search(&vec![on], &vec![shrink_x], 200 * ONE);
    assert_eq!(found, Ellipse { rx: HALF, ..on });
    assert_eq!(o.evaluate_shape(&found), Score::Change(-97536));

    let found = o.search(&vec![on], &vec![shrink_x, shrink_y], 200 * ONE);
    assert_eq!(found, Ellipse { rx: HALF, ry: 55938, ..on });
    assert_eq!(o.evaluate_shape(&found), Score::Change(-195075));

    let found = o.search(&vec![on], &vec![away, shrink_x], 200 * ONE);
    assert_eq!(found, Ellipse { rx: ONE - 9598, ..on });

    let found = o.search(&vec![on], &vec![turn], 200 * ONE);
    assert_eq!(found, on);
}

#[test]
fn search_cuts_candidates_down_to_the_cap() {
    let target = opt_uniform(40, 40, 0, 0, 0);
    let o = Optimizer::new(&target, 40, 40);
    let seed = opt_circle(20 * ONE, 20 * ONE, 9 * ONE, 255);
    let grow = Mutation { channel: 2, draw: 8 * ONE - 1 };
    let found = o.search(&vec![seed], &vec![grow], 10 * ONE);
    assert_eq!(found, Ellipse { rx: 10 * ONE, ..seed });
    let found = o.search(&vec![seed], &vec![grow], 30 * ONE);
    assert_eq!(found, Ellipse { rx: 17 * ONE - 1, ..seed });
}

#[test]
fn search_agrees_with_a_replay() {
    let target = opt_gradient(14, 11);
    let o = Optimizer::new(&target, 14, 11);
    for round in 0..5 {
        let cap = cap_for(round, 5);
        let mut seeds = Vec::new();
        for _ in 0..20 {
            seeds.push(o.pick_high_error_seed(cap));
        }
        let mut moves = Vec::new();
        for _ in 0..60 {
            moves.push(Mutation::random());
        }
        let found = o.search(&seeds, &moves, cap);
        assert_eq!(found, opt_replay(&o, &seeds, &moves, cap));
        assert!(found.rx <= cap && found.ry <= cap);
    }
}

#[test]
fn random_mutations_stay_in_range_and_vary() {
    let mut channels = [false; 6];
    let first = Mutation::random();
    let mut differs = false;
    for _ in 0..2000 {
        let m = Mutation::random();
        assert!(m.channel < 6);
        let range = match m.channel {
            0 | 1 => 16 * ONE,
            2 | 3 => 8 * ONE,
            4 => HALF,
            _ => 30 * ONE,
        };
        assert!(-range <= m.draw && m.draw < range);
        channels[m.channel as usize] = true;
        if m != first {
            differs = true;
        }
    }
    assert_eq!(channels, [true; 6]);
    assert!(differs);
}

#[test]
fn evaluator_agrees_with_the_compositor_on_random_shapes() {
    let target = opt_gradient(24, 18);
    let mut o = Optimizer::new(&target, 24, 18);
    for round in 0..60 {
        let mut e = Ellipse::new_random(24, 18);
        for i in 0..10 {
            e.mutate(24, 18, i, 10);
        }
        e.cap_radii(200 * ONE);
        let score = o.evaluate_shape(&e);
        let before = opt_error(&o);
        e.color = o.compute_optimal_color(&e);
        o.draw_shape(&e);
        assert_eq!(score, Score::Change(opt_error(&o) - before), "round {}", round);
        assert!(o.current_pixels.iter().skip(3).step_by(4).all(|&a| a == 255));
    }
}
