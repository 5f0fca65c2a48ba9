use wordle::colour::{lerpColour, random_colour, Colour};
use wordle::gradient::GradientEffect;
use wordle::shake::Effect;

fn rgb(r: u8, g: u8, b: u8) -> Colour {
    Colour { r, g, b }
}

#[test]
fn palette() {
    assert_eq!(Colour::black(), rgb(0, 0, 0));
    assert_eq!(Colour::white(), rgb(255, 255, 255));
    assert_eq!(Colour::red(), rgb(230, 41, 56));
    assert_eq!(Colour::blue(), rgb(0, 120, 242));
    assert_eq!(Colour::green(), rgb(83, 141, 78));
    assert_eq!(Colour::orange(), rgb(181, 159, 59));
    assert_eq!(Colour::grey(), rgb(58, 58, 60));
}

#[test]
fn lerp_end_points() {
    let a = rgb(10, 200, 0);
    let b = rgb(110, 100, 255);
    assert_eq!(lerpColour(a, b, 0, 10), a);
    assert_eq!(lerpColour(a, b, 10, 10), b);
}

#[test]
fn lerp_midway_rounds_down() {
    let a = rgb(10, 200, 0);
    let b = rgb(110, 100, 255);
    assert_eq!(lerpColour(a, b, 5, 10), rgb(60, 150, 127));
    assert_eq!(lerpColour(a, b, 1, 10), rgb(20, 190, 25));
    assert_eq!(lerpColour(a, b, 1, 3), rgb(43, 166, 85));
}

#[test]
fn lerp_progress_is_clamped() {
    let a = rgb(10, 200, 0);
    let b = rgb(110, 100, 255);
    assert_eq!(lerpColour(a, b, 11, 10), b);
    assert_eq!(lerpColour(a, b, usize::MAX, 10), b);
}

#[test]
fn lerp_over_zero_ticks() {
    let a = rgb(1, 2, 3);
    let b = rgb(4, 5, 6);
    assert_eq!(lerpColour(a, b, 0, 0), a);
    assert_eq!(lerpColour(a, b, 1, 0), b);
}

#[test]
fn lerp_with_the_longest_length() {
    let a = rgb(0, 255, 7);
    let b = rgb(255, 0, 7);
    assert_eq!(lerpColour(a, b, 0, usize::MAX), a);
    assert_eq!(lerpColour(a, b, usize::MAX, usize::MAX), b);
    assert_eq!(lerpColour(a, b, usize::MAX / 2, usize::MAX), rgb(127, 127, 7));
}

#[test]
fn random_colours_stay_below_255_and_vary() {
    let mut seen = Vec::new();
    for _ in 0..200 {
        let c = random_colour();
        assert!(c.r < 255 && c.g < 255 && c.b < 255);
        if !seen.contains(&c) {
            seen.push(c);
        }
    }
    assert!(seen.len() > 1);
    assert!(seen.iter().any(|c| c.r != 0));
    assert!(seen.iter().any(|c| c.r != 255));
}

#[test]
fn new_gradient_shows_its_start() {
    let g = GradientEffect::new(Colour::black(), Colour::green(), 30);
    assert_eq!(g.start(), Colour::black());
    assert_eq!(g.end(), Colour::green());
    assert_eq!(g.current(), Colour::black());
    assert_eq!(g.length(), 30);
    assert_eq!(g.ticks(), 0);
}

#[test]
fn one_shot_gradient_follows_the_blend() {
    let mut g = GradientEffect::new(Colour::black(), Colour::green(), 30);
    g.update();
    assert_eq!(g.ticks(), 1);
    assert_eq!(g.current(), rgb(2, 4, 2));
    for _ in 1..15 {
        g.update();
    }
    assert_eq!(g.ticks(), 15);
    assert_eq!(g.current(), rgb(41, 70, 39));
}

#[test]
fn one_shot_gradient_settles_on_its_end_after_length_ticks() {
    let mut g = GradientEffect::new(Colour::black(), Colour::green(), 30);
    for tick in 1..=30 {
        assert_ne!(g.current(), Colour::green());
        g.update();
        assert_eq!(g.ticks(), tick);
    }
    assert_eq!(g.current(), Colour::green());
    g.update();
    assert_eq!(g.current(), Colour::green());
    assert_eq!(g.ticks(), 31);
    for _ in 0..100 {
        g.update();
        assert_eq!(g.current(), Colour::green());
        assert_eq!(g.ticks(), 31);
    }
}

#[test]
fn one_shot_gradient_of_one_tick() {
    let mut g = GradientEffect::new(rgb(9, 9, 9), rgb(1, 2, 3), 1);
    g.update();
    assert_eq!(g.current(), rgb(1, 2, 3));
    g.update();
    assert_eq!(g.current(), rgb(1, 2, 3));
}

#[test]
fn one_shot_gradient_of_zero_ticks_jumps_to_its_end() {
    let mut g = GradientEffect::new(rgb(9, 9, 9), rgb(1, 2, 3), 0);
    assert_eq!(g.current(), rgb(9, 9, 9));
    g.update();
    assert_eq!(g.current(), rgb(1, 2, 3));
    assert_eq!(g.ticks(), 1);
    g.update();
    assert_eq!(g.current(), rgb(1, 2, 3));
    assert_eq!(g.ticks(), 1);
}

#[test]
fn one_shot_gradient_of_the_longest_length_stops_counting() {
    let mut g = GradientEffect::new(rgb(0, 0, 0), rgb(200, 100, 50), usize::MAX);
    g.update();
    assert_eq!(g.ticks(), 1);
    assert_eq!(g.current(), rgb(0, 0, 0));
}

#[test]
fn continuous_gradient_starts_a_new_leg_at_the_boundary() {
    let a = rgb(0, 0, 0);
    let b = rgb(30, 60, 90);
    let c = rgb(90, 0, 0);
    let mut g = GradientEffect::new(a, b, 3);
    let unused = rgb(7, 7, 7);
    g.constant_update_with(unused);
    assert_eq!((g.ticks(), g.current()), (1, rgb(10, 20, 30)));
    g.constant_update_with(unused);
    assert_eq!((g.ticks(), g.current()), (2, rgb(20, 40, 60)));
    g.constant_update_with(unused);
    assert_eq!((g.ticks(), g.current()), (3, b));
    assert_eq!((g.start(), g.end()), (a, b));
    g.constant_update_with(c);
    assert_eq!((g.ticks(), g.current()), (0, b));
    assert_eq!((g.start(), g.end()), (b, c));
    g.constant_update_with(unused);
    assert_eq!((g.ticks(), g.current()), (1, rgb(50, 40, 60)));
    assert_eq!((g.start(), g.end()), (b, c));
}

#[test]
fn continuous_gradient_never_counts_past_its_length() {
    let mut g = GradientEffect::constant_random(7);
    assert_eq!(g.length(), 7);
    assert_eq!(g.ticks(), 0);
    assert_eq!(g.current(), g.start());
    for _ in 0..500 {
        let before = (g.ticks(), g.start(), g.end(), g.current());
        g.constant_update();
        assert!(g.ticks() <= 7);
        assert_eq!(g.length(), 7);
        if before.0 == 7 {
            assert_eq!(before.3, before.2);
            assert_eq!(g.ticks(), 0);
            assert_eq!(g.start(), before.3);
            assert_eq!(g.current(), before.3);
            assert!(g.end().r < 255 && g.end().g < 255 && g.end().b < 255);
        } else {
            assert_eq!(g.ticks(), before.0 + 1);
            assert_eq!((g.start(), g.end()), (before.1, before.2));
            assert_eq!(g.current(), lerpColour(g.start(), g.end(), g.ticks(), 7));
        }
    }
}

#[test]
fn continuous_gradient_of_zero_ticks_stays_where_it_is() {
    let mut g = GradientEffect::new(rgb(5, 6, 7), rgb(8, 9, 10), 0);
    for _ in 0..5 {
        g.constant_update_with(rgb(100, 100, 100));
        assert_eq!(g.ticks(), 0);
        assert_eq!(g.current(), rgb(5, 6, 7));
        assert_eq!(g.start(), rgb(5, 6, 7));
        assert_eq!(g.end(), rgb(100, 100, 100));
    }
}

#[test]
fn continuous_gradient_takes_over_a_settled_one_shot() {
    let mut g = GradientEffect::new(rgb(0, 0, 0), rgb(10, 10, 10), 2);
    g.update();
    g.update();
    g.update();
    assert_eq!(g.ticks(), 3);
    g.constant_update_with(rgb(50, 50, 50));
    assert_eq!(g.ticks(), 0);
    assert_eq!(g.start(), rgb(10, 10, 10));
    assert_eq!(g.end(), rgb(50, 50, 50));
}

#[test]
fn new_shake_is_at_rest() {
    let e = Effect::new();
    assert!(!e.running());
    assert_eq!(e.offset(), (0, 0));
    assert_eq!(e.elapsed(), 0);
    assert_eq!(e.intensity(), 0);
}

#[test]
fn shake_scales_its_samples_and_comes_to_rest() {
    let mut e = Effect::new();
    e.start_shake(3, 30);
    assert!(e.running());
    assert_eq!(e.intensity(), 30);
    assert_eq!(e.offset(), (0, 0));
    e.run_with(40, -40);
    assert_eq!(e.offset(), (1200, -1200));
    assert_eq!(e.elapsed(), 1);
    e.run_with(-7, 0);
    assert_eq!(e.offset(), (-210, 0));
    e.run_with(1, 2);
    assert_eq!(e.offset(), (30, 60));
    assert_eq!(e.elapsed(), 3);
    assert!(e.running());
    e.run_with(39, 39);
    assert!(!e.running());
    assert_eq!(e.offset(), (0, 0));
    assert_eq!(e.elapsed(), 0);
    assert_eq!(e.intensity(), 0);
    e.run_with(39, 39);
    assert!(!e.running());
    assert_eq!(e.offset(), (0, 0));
}

#[test]
fn shake_intensity_is_clamped_to_full() {
    let mut e = Effect::new();
    e.start_shake(5, 250);
    assert_eq!(e.intensity(), 100);
    e.run_with(-40, 40);
    assert_eq!(e.offset(), (-4000, 4000));
}

#[test]
fn shake_of_zero_ticks_ends_on_its_first_tick() {
    let mut e = Effect::new();
    e.start_shake(0, 100);
    assert!(e.running());
    e.run_with(40, 40);
    assert!(!e.running());
    assert_eq!(e.offset(), (0, 0));
}

#[test]
fn restarting_a_shake_keeps_the_offset_until_the_next_tick() {
    let mut e = Effect::new();
    e.start_shake(5, 100);
    e.run_with(40, 40);
    e.start_shake(2, 10);
    assert_eq!(e.offset(), (4000, 4000));
    assert_eq!(e.elapsed(), 0);
    e.run_with(40, 40);
    assert_eq!(e.offset(), (400, 400));
}

#[test]
fn reset_brings_a_shake_to_rest() {
    let mut e = Effect::new();
    e.start_shake(5, 100);
    e.run_with(40, 40);
    e.reset();
    assert!(!e.running());
    assert_eq!(e.offset(), (0, 0));
}

#[test]
fn shake_draws_within_reach_and_varies() {
    let mut e = Effect::new();
    assert_eq!(e.sample(), (0, 0));
    e.start_shake(1000, 100);
    let mut seen = Vec::new();
    for _ in 0..300 {
        let (dx, dy) = e.sample();
        assert!(-40 <= dx && dx < 40);
        assert!(-40 <= dy && dy < 40);
        e.run();
        let (x, y) = e.offset();
        assert!(-4000 <= x && x <= 4000 && x % 100 == 0);
        assert!(-4000 <= y && y <= 4000 && y % 100 == 0);
        if !seen.contains(&x) {
            seen.push(x);
        }
    }
    assert!(seen.len() > 2);
    assert!(seen.iter().any(|x| *x != -4000));
    assert!(seen.iter().any(|x| *x != 4000));
}

#[test]
fn shake_run_lasts_its_length_then_rests() {
    let mut e = Effect::new();
    e.start_shake(15, 30);
    for tick in 1..=15 {
        e.run();
        assert!(e.running());
        assert_eq!(e.elapsed(), tick);
        let (x, y) = e.offset();
        assert!(-1200 <= x && x <= 1200 && -1200 <= y && y <= 1200);
    }
    e.run();
    assert!(!e.running());
    assert_eq!(e.offset(), (0, 0));
}

#[test]
fn gradients_compare_by_what_they_hold() {
    let a = GradientEffect::new(Colour::black(), Colour::green(), 30);
    let mut b = GradientEffect::new(Colour::black(), Colour::green(), 30);
    assert_eq!(a, b);
    b.update();
    assert_ne!(a, b);
    assert_ne!(a, GradientEffect::new(Colour::black(), Colour::green(), 31));
}
