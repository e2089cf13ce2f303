use boids::arith::STEP;
use boids::boid::Boid;
use boids::node::Vertice;
use boids::world::WorldOption;

const GREEN: [u8; 4] = [0, 255, 0, 255];
const S: i32 = STEP;

/// An agent whose velocity is given in whole grid units per tick.
fn boid(x: i16, y: i16, vx: i32, vy: i32) -> Boid {
    Boid::new(Vertice { x, y }, 3, vx * S, vy * S, GREEN)
}

fn velocity(b: &Boid) -> (i32, i32) {
    (b.velocity_x, b.velocity_y)
}

fn speed_squared(b: &Boid) -> i128 {
    let (x, y) = (b.velocity_x as i128, b.velocity_y as i128);
    x * x + y * y
}

#[test]
fn new_keeps_what_it_is_given() {
    let b = Boid::new(Vertice { x: 4, y: -5 }, 6, 7, -8, [1, 2, 3, 4]);
    assert_eq!(b.vertice, Vertice { x: 4, y: -5 });
    assert_eq!(b.size, 6);
    assert_eq!(velocity(&b), (7, -8));
    assert_eq!((b.fraction_x, b.fraction_y), (0, 0));
    assert_eq!(b.color(), [1, 2, 3, 4]);
    assert_eq!((b.red, b.green, b.blue, b.alpha), (1, 2, 3, 4));
}

#[test]
fn angle_points_from_origin_to_other() {
    let origin = Vertice { x: 10, y: 10 };
    assert_eq!(Boid::angle(&origin, &Vertice { x: 20, y: 10 }), 0);
    assert_eq!(Boid::angle(&origin, &Vertice { x: 11, y: 11 }), 45);
    assert_eq!(Boid::angle(&origin, &Vertice { x: 10, y: 30 }), 90);
    assert_eq!(Boid::angle(&origin, &Vertice { x: 0, y: 10 }), 180);
    assert_eq!(Boid::angle(&origin, &Vertice { x: 10, y: 0 }), 270);
    assert_eq!(Boid::angle(&origin, &origin), 0);
    assert_eq!(
        Boid::angle(&Vertice { x: -32768, y: -32768 }, &Vertice { x: 32767, y: 32767 }),
        45
    );
}

#[test]
fn is_within_sight_at_a_full_turn_sees_all() {
    for target in 0..360 {
        assert!(Boid::is_within_sight(77, 360 * S, target));
    }
    assert!(Boid::is_within_sight(0, 90 * S, 45));
    assert!(!Boid::is_within_sight(0, 90 * S, 46));
    assert!(!Boid::is_within_sight(0, 90 * S - 1, 45));
}

#[test]
fn separation_includes_an_agent_at_exactly_the_safe_radius() {
    let mut me = boid(0, 0, 1, 0);
    let other = boid(10, 0, 0, 0);
    me.separate(&vec![other], 270, 10 * S, 120 * S);
    assert_eq!(velocity(&me), (-111411, 0));

    let mut me = boid(0, 0, 1, 0);
    me.separate(&vec![other], 270, 10 * S - 1, 120 * S);
    assert_eq!(velocity(&me), (S, 0));

    let mut me = boid(0, 0, 1, 0);
    let slant = boid(3, 4, 0, 0);
    me.separate(&vec![slant], 1000, 5 * S, 120 * S);
    assert_eq!(velocity(&me), (-2 * S, -4 * S));
}

#[test]
fn separation_takes_a_radius_with_a_fraction() {
    let near = boid(1, 4, 0, 0);
    let mut me = boid(0, 0, 1, 4);
    me.separate(&vec![near], 1000, 4 * S + S / 2, 360 * S);
    assert_eq!(velocity(&me), (0, 0));

    let mut me = boid(0, 0, 1, 4);
    me.separate(&vec![near], 1000, 4 * S, 360 * S);
    assert_eq!(velocity(&me), (S, 4 * S));
}

#[test]
fn separation_passes_over_what_is_behind() {
    let behind = boid(-10, 0, 0, 0);
    let mut me = boid(0, 0, 1, 0);
    me.separate(&vec![behind], 270, 10 * S, 120 * S);
    assert_eq!(velocity(&me), (S, 0));

    let mut me = boid(0, 0, 1, 0);
    me.separate(&vec![behind], 270, 10 * S, 360 * S);
    assert_eq!(velocity(&me), (242483, 0));
}

#[test]
fn separation_adds_up_the_offsets() {
    let mut me = boid(100, 100, 0, 5);
    let others = vec![boid(100, 104, 0, 0), boid(97, 104, 0, 0), boid(100, 100, 0, 5), boid(100, 130, 0, 0)];
    me.separate(&others, 500, 10 * S, 360 * S);
    assert_eq!(velocity(&me), (98304, 65536));
}

#[test]
fn separation_with_no_neighbours_changes_nothing() {
    let mut me = boid(0, 0, 1, 0);
    me.separate(&vec![], 270, 10 * S, 120 * S);
    assert_eq!(me, boid(0, 0, 1, 0));
    me.separate(&vec![boid(5, 0, 0, 0)], 270, -1, 360 * S);
    assert_eq!(me, boid(0, 0, 1, 0));
}

#[test]
fn alignment_blends_in_the_difference_to_the_mean() {
    let mut me = boid(0, 0, 2, 0);
    let others = vec![boid(5, 0, 6, 4), boid(0, 5, 2, -8)];
    me.align(&others, 550, 30 * S, 360 * S);
    assert_eq!(velocity(&me), (203161, -72089));

    let mut me = boid(0, 0, 2, 0);
    me.align(&others, 1000, 30 * S, 360 * S);
    assert_eq!(velocity(&me), (4 * S, -2 * S));

    let mut me = boid(0, 0, 2, 0);
    me.align(&others, 550, 30 * S, 120 * S);
    assert_eq!(velocity(&me), (275251, 144179));

    let mut me = boid(0, 0, 2, 0);
    me.align(&others, 550, 4 * S, 360 * S);
    assert_eq!(velocity(&me), (2 * S, 0));
}

#[test]
fn cohesion_heads_for_the_middle() {
    let mut me = boid(0, 0, 1, 0);
    let others = vec![boid(10, 0, 0, 0), boid(0, 20, 0, 0)];
    me.cohesion(&others, 1000, 30 * S, 360 * S);
    assert_eq!(velocity(&me), (6 * S, 10 * S));

    let mut me = boid(0, 0, 1, 0);
    me.cohesion(&others, 60, 30 * S, 360 * S);
    assert_eq!(velocity(&me), (85196, 39321));

    let mut me = boid(0, 0, 1, 0);
    me.cohesion(&others, 500, 30 * S, 360 * S);
    assert_eq!(velocity(&me), (229376, 327680));

    let mut me = boid(0, 0, 1, 0);
    me.cohesion(&others, 500, 15 * S, 360 * S);
    assert_eq!(velocity(&me), (6 * S, 0));
}

#[test]
fn fear_looks_all_around() {
    let mut me = boid(0, 0, 1, 0);
    me.fear(&vec![boid(-10, 0, 0, 0), boid(0, 30, 0, 0), boid(0, 31, 0, 0)], 1000, 30 * S);
    assert_eq!(velocity(&me), (11 * S, -30 * S));
}

#[test]
fn avoid_border_turns_from_each_edge() {
    let mut b = boid(5, 300, 1, 1);
    b.avoid_border(30, 20, 1280, 720);
    assert_eq!(velocity(&b), (31 * S, S));

    let mut b = boid(1270, 300, 1, 1);
    b.avoid_border(30, 20, 1280, 720);
    assert_eq!(velocity(&b), (-29 * S, S));

    let mut b = boid(300, 19, 1, 1);
    b.avoid_border(30, 20, 1280, 720);
    assert_eq!(velocity(&b), (S, 31 * S));

    let mut b = boid(300, 701, 1, 1);
    b.avoid_border(30, 20, 1280, 720);
    assert_eq!(velocity(&b), (S, -29 * S));

    let mut b = boid(20, 700, 1, 1);
    b.avoid_border(30, 20, 1280, 720);
    assert_eq!(velocity(&b), (S, S));

    let mut b = Boid::new(Vertice { x: 5, y: 5 }, 3, i32::MAX - 10, 0, GREEN);
    b.avoid_border(30, 20, 1280, 720);
    assert_eq!(velocity(&b), (i32::MAX, 30 * S));
}

#[test]
fn speed_limit_slows_the_fast_and_hurries_the_slow() {
    let mut b = boid(0, 0, 30, 40);
    b.speed_limit(10, 5);
    assert_eq!(velocity(&b), (6 * S, 8 * S));

    let mut b = boid(0, 0, -30, 40);
    b.speed_limit(10, 5);
    assert_eq!(velocity(&b), (-6 * S, 8 * S));

    let mut b = boid(0, 0, 3, 4);
    b.speed_limit(10, 5);
    assert_eq!(velocity(&b), (3 * S, 4 * S));

    let mut b = boid(0, 0, 1, 1);
    b.speed_limit(10, 5);
    assert_eq!(velocity(&b), (231705, 231705));

    let mut b = boid(0, 0, 7, 8);
    b.speed_limit(10, 5);
    assert_eq!(velocity(&b), (431557, 493208));

    let mut b = boid(0, 0, 6, 8);
    b.speed_limit(10, 5);
    assert_eq!(velocity(&b), (6 * S, 8 * S));

    let mut b = boid(0, 0, 3, 4);
    b.speed_limit(-10, -20);
    assert_eq!(velocity(&b), (-6 * S, -8 * S));

    let mut b = boid(0, 0, 0, -2);
    b.speed_limit(10, 5);
    assert_eq!(velocity(&b), (0, -5 * S));

    let mut b = boid(0, 0, 20000, 20000);
    b.speed_limit(100, 5);
    assert_eq!(velocity(&b), (4634095, 4634095));

    let mut b = boid(0, 0, 3, 4);
    b.speed_limit(0, 0);
    assert_eq!(velocity(&b), (0, 0));
}

#[test]
fn speed_limit_keeps_the_speed_between_the_limits() {
    let low = (5 * S as i128) * (5 * S as i128);
    let high = (10 * S as i128) * (10 * S as i128);
    for vx in -40..=40 {
        for vy in -40..=40 {
            if vx == 0 && vy == 0 {
                continue;
            }
            for fraction in [0, 1, 21845, 65535] {
                let mut b = Boid::new(Vertice { x: 0, y: 0 }, 3, vx * S + fraction, vy * S - fraction, GREEN);
                let before = b;
                b.speed_limit(10, 5);
                assert!(speed_squared(&b) <= high);
                assert!(speed_squared(&b) >= low);
                assert!(b.velocity_x as i64 * before.velocity_x as i64 >= 0);
                assert!(b.velocity_y as i64 * before.velocity_y as i64 >= 0);
                let again = b;
                b.speed_limit(10, 5);
                assert_eq!(b, again);
            }
        }
    }
}

#[test]
fn speed_limit_keeps_slow_agents_at_the_least_speed() {
    let low = (5 * S as i128) * (5 * S as i128);
    for vx in [-1, 0, 1, 2, 70000, -300000] {
        for vy in [-1, 1, 3, -65536, 250000] {
            let mut b = Boid::new(Vertice { x: 0, y: 0 }, 3, vx, vy, GREEN);
            let slow = speed_squared(&b) < low;
            b.speed_limit(10, 5);
            let s = speed_squared(&b);
            assert!(s >= low);
            if slow {
                assert!(s < (5 * S as i128 + 2) * (5 * S as i128 + 2));
                assert!(b.velocity_x.abs() >= vx.abs() && b.velocity_y.abs() >= vy.abs());
            } else {
                assert_eq!(velocity(&b), (vx, vy));
            }
        }
    }
}

#[test]
fn speed_limit_with_equal_limits_lands_on_the_circle() {
    let mut b = boid(0, 0, -30, -17);
    b.speed_limit(2, 2);
    assert_eq!(velocity(&b), (-114035, -64620));
    for _ in 0..5 {
        let s = speed_squared(&b);
        assert!(s <= (2 * S as i128 + 2) * (2 * S as i128 + 2));
        assert!(s > (2 * S as i128 - 2) * (2 * S as i128 - 2));
        let before = b;
        b.speed_limit(2, 2);
        assert!((b.velocity_x - before.velocity_x).abs() <= 1);
        assert!((b.velocity_y - before.velocity_y).abs() <= 1);
    }
    let mut exact = boid(0, 0, 0, 9);
    exact.speed_limit(2, 2);
    assert_eq!(velocity(&exact), (0, 2 * S));
    exact.speed_limit(2, 2);
    assert_eq!(velocity(&exact), (0, 2 * S));
}

#[test]
fn speed_limit_sets_a_still_agent_moving_on_the_circle() {
    let mut seen = std::collections::BTreeSet::new();
    for _ in 0..400 {
        let mut b = boid(7, 9, 0, 0);
        b.speed_limit(10, 5);
        let s = speed_squared(&b);
        assert!((-5 * S..=5 * S).contains(&b.velocity_x));
        assert!(s >= (5 * S as i128) * (5 * S as i128));
        assert!(s < (5 * S as i128 + 1) * (5 * S as i128 + 1));
        assert_eq!(b.vertice, Vertice { x: 7, y: 9 });
        assert_eq!(b.size, 3);
        assert_eq!(b.color(), GREEN);
        let again = b;
        b.speed_limit(10, 5);
        assert_eq!(b, again);
        seen.insert(velocity(&b));
    }
    assert!(seen.len() > 100);
}

#[test]
fn restart_takes_what_is_left_of_the_radius() {
    let mut b = boid(0, 0, 0, 0);
    b.restart(5, 3 * S, true);
    assert_eq!(velocity(&b), (3 * S, 4 * S));
    b.restart(5, 3 * S, false);
    assert_eq!(velocity(&b), (3 * S, -4 * S));
    b.restart(5, -5 * S, true);
    assert_eq!(velocity(&b), (-5 * S, 0));
    b.restart(5, S, true);
    assert_eq!(velocity(&b), (S, 321060));
    b.restart(5, 100000, true);
    assert_eq!(velocity(&b), (100000, 312049));
    b.restart(0, 0, false);
    assert_eq!(velocity(&b), (0, 0));
    b.restart(-5, 4 * S, true);
    assert_eq!(velocity(&b), (4 * S, 3 * S));
}

#[test]
fn restart_lands_on_the_circle_for_every_draw() {
    let radius = 5 * S as i128;
    for pick in (-5 * S..=5 * S).step_by(997) {
        for upward in [true, false] {
            let mut b = boid(0, 0, 0, 0);
            b.restart(5, pick, upward);
            let s = speed_squared(&b);
            assert_eq!(b.velocity_x, pick);
            assert_eq!(b.velocity_y >= 0, upward || b.velocity_y == 0);
            assert!(s >= radius * radius);
            assert!(s < (radius + 1) * (radius + 1));
        }
    }
}

#[test]
fn noise_off_changes_nothing() {
    let mut b = boid(1, 2, 3, 4);
    b.noise(false);
    assert_eq!(b, boid(1, 2, 3, 4));
}

#[test]
fn noise_on_moves_by_less_than_two() {
    let mut seen = std::collections::BTreeSet::new();
    for _ in 0..400 {
        let mut b = boid(1, 2, 3, 4);
        b.noise(true);
        let dx = b.velocity_x - 3 * S;
        let dy = b.velocity_y - 4 * S;
        assert!(dx.abs() < 2 * S);
        assert_eq!(dx.abs(), dy.abs());
        seen.insert((dx, dy));
    }
    assert!(seen.len() > 100);
    assert!(seen.iter().any(|(dx, _)| *dx > 0) && seen.iter().any(|(dx, _)| *dx < 0));
    assert!(seen.iter().any(|(dx, dy)| dx.signum() != dy.signum()));
}

#[test]
fn jitter_moves_along_both_axes() {
    let mut b = boid(0, 0, 3, 4);
    b.jitter(S, true, false);
    assert_eq!(velocity(&b), (4 * S, 3 * S));
    b.jitter(2 * S + 5, false, true);
    assert_eq!(velocity(&b), (2 * S - 5, 5 * S + 5));
    b.jitter(0, false, false);
    assert_eq!(velocity(&b), (2 * S - 5, 5 * S + 5));
}

#[test]
fn update_color_follows_the_speed() {
    let mut b = boid(0, 0, 3, 4);
    b.update_color(10, 5);
    assert_eq!(b.color(), [255, 0, 0, 255]);

    let mut b = boid(0, 0, 6, 8);
    b.update_color(10, 5);
    assert_eq!(b.color(), [0, 255, 0, 255]);

    let mut b = boid(0, 0, 0, 7);
    b.update_color(10, 5);
    assert_eq!(b.color(), [153, 102, 0, 255]);

    let mut b = boid(0, 0, 1, 1);
    b.update_color(10, 5);
    assert_eq!(b.color(), [255, 0, 0, 255]);

    let mut b = boid(0, 0, 5, 5);
    b.update_color(10, 5);
    assert_eq!(b.color(), [150, 105, 0, 255]);

    let mut b = Boid::new(Vertice { x: 0, y: 0 }, 3, 5 * S + S / 2, 0, GREEN);
    b.update_color(10, 5);
    assert_eq!(b.color(), [230, 25, 0, 255]);

    let mut b = Boid::new(Vertice { x: 0, y: 0 }, 3, 7 * S + S / 2, 0, GREEN);
    b.update_color(10, 5);
    assert_eq!(b.color(), [128, 127, 0, 255]);
}

#[test]
fn update_color_leaves_the_too_fast_alone() {
    let mut b = boid(0, 0, 20, 0);
    b.update_color(10, 5);
    assert_eq!(b.color(), GREEN);
    let mut b = boid(0, 0, 8, 7);
    b.update_color(10, 5);
    assert_eq!(b.color(), GREEN);
    let mut b = Boid::new(Vertice { x: 0, y: 0 }, 3, 10 * S + 1, 0, GREEN);
    b.update_color(10, 5);
    assert_eq!(b.color(), GREEN);
    let mut b = boid(0, 0, 0, 0);
    b.update_color(-1, -5);
    assert_eq!(b.color(), GREEN);
}

#[test]
fn update_color_with_equal_or_crossed_limits() {
    let mut b = boid(0, 0, 3, 4);
    b.update_color(5, 5);
    assert_eq!(b.color(), [255, 0, 0, 255]);
    let mut b = boid(0, 0, 3, 4);
    b.update_color(5, 8);
    assert_eq!(b.color(), [0, 255, 0, 255]);
}

#[test]
fn update_moves_and_wraps() {
    let mut b = boid(10, 10, 5, -3);
    b.update(1280, 720);
    assert_eq!(b.vertice, Vertice { x: 15, y: 7 });
    assert_eq!(velocity(&b), (5 * S, -3 * S));

    let mut b = boid(2, 718, -5, 5);
    b.update(1280, 720);
    assert_eq!(b.vertice, Vertice { x: 1280, y: 0 });

    let mut b = boid(1275, 3, 5, -3);
    b.update(1280, 720);
    assert_eq!(b.vertice, Vertice { x: 1280, y: 0 });

    let mut b = boid(1276, 2, 5, -3);
    b.update(1280, 720);
    assert_eq!(b.vertice, Vertice { x: 0, y: 720 });

    let mut b = Boid::new(Vertice { x: 32767, y: -32768 }, 3, i32::MAX, i32::MIN, GREEN);
    b.update(65535, 65535);
    assert_eq!(b.vertice, Vertice { x: 32767, y: 32767 });
}

#[test]
fn update_adds_the_velocity_to_the_step() {
    let mut b = Boid::new(Vertice { x: 10, y: 10 }, 3, 5 * S + S - 1, -(4 * S - 1), GREEN);
    b.update(1280, 720);
    assert_eq!(b.vertice, Vertice { x: 15, y: 6 });
    assert_eq!((b.fraction_x, b.fraction_y), (65535, 1));
    b.update(1280, 720);
    assert_eq!(b.vertice, Vertice { x: 21, y: 2 });
    assert_eq!((b.fraction_x, b.fraction_y), (65534, 2));

    let mut b = Boid::new(Vertice { x: 10, y: 10 }, 3, S / 4, -S / 2, GREEN);
    for tick in 1..=8i32 {
        b.update(1280, 720);
        assert_eq!(b.vertice.x as i32 * S + b.fraction_x as i32, 10 * S + tick * (S / 4));
        assert_eq!(b.vertice.y as i32 * S + b.fraction_y as i32, 10 * S - tick * (S / 2));
    }
    assert_eq!(b.vertice, Vertice { x: 12, y: 6 });
}

#[test]
fn update_wraps_with_a_fraction() {
    let mut b = Boid::new(Vertice { x: 0, y: 720 }, 3, -1, S - 1, GREEN);
    b.update(1280, 720);
    assert_eq!(b.vertice, Vertice { x: 1280, y: 720 });
    assert_eq!((b.fraction_x, b.fraction_y), (0, 65535));
    b.update(1280, 720);
    assert_eq!(b.vertice, Vertice { x: 1279, y: 0 });
    assert_eq!((b.fraction_x, b.fraction_y), (65535, 0));
}

#[test]
fn draw_with_option_paints_the_body() {
    let b = Boid::new(Vertice { x: 1, y: 1 }, 2, 2 * S, 0, [9, 8, 7, 6]);
    let option = WorldOption::new();
    let mut frame = vec![0u8; 4 * 4 * 4];
    b.draw_with_option(&mut frame, 4, 4, &option);
    let mut expected = vec![0u8; 64];
    for (x, y) in [(1usize, 1usize), (2, 1), (1, 2), (2, 2)] {
        expected[(y * 4 + x) * 4..(y * 4 + x) * 4 + 4].copy_from_slice(&[9, 8, 7, 6]);
    }
    assert_eq!(frame, expected);
}

#[test]
fn draw_with_option_cuts_the_body_at_the_edge() {
    let b = Boid::new(Vertice { x: 3, y: -1 }, 2, 0, 0, [9, 8, 7, 6]);
    let mut frame = vec![0u8; 4 * 4 * 4];
    b.draw_with_option(&mut frame, 4, 4, &WorldOption::new());
    let mut expected = vec![0u8; 64];
    expected[12..16].copy_from_slice(&[9, 8, 7, 6]);
    assert_eq!(frame, expected);

    let none = Boid::new(Vertice { x: 1, y: 1 }, 0, 0, 0, [9, 8, 7, 6]);
    let mut frame = vec![0u8; 64];
    none.draw_with_option(&mut frame, 4, 4, &WorldOption::new());
    assert_eq!(frame, vec![0u8; 64]);
}

#[test]
fn draw_with_option_shows_the_next_step_and_the_radii() {
    let b = Boid::new(Vertice { x: 1, y: 1 }, 1, 2 * S + 7, 0, [9, 8, 7, 6]);
    let mut option = WorldOption::new();
    option.show_facing_direction_with_speed = true;
    let mut frame = vec![0u8; 5 * 3 * 4];
    b.draw_with_option(&mut frame, 5, 3, &option);
    let at = |x: usize, y: usize| -> [u8; 4] {
        let s = (y * 5 + x) * 4;
        [frame[s], frame[s + 1], frame[s + 2], frame[s + 3]]
    };
    assert_eq!(at(1, 1), [9, 8, 7, 6]);
    assert_eq!(at(2, 1), [255, 255, 255, 255]);
    assert_eq!(at(3, 1), [255, 255, 255, 255]);
    assert_eq!(at(4, 1), [0, 0, 0, 0]);

    let c = Boid::new(Vertice { x: 20, y: 20 }, 1, 0, 0, [9, 8, 7, 6]);
    let mut option = WorldOption::new();
    option.show_safe_radius = true;
    option.show_vision_radius = true;
    option.safe_radius = 3 * S + 9;
    option.boid_vision_radius = 7 * S;
    let mut frame = vec![0u8; 41 * 41 * 4];
    c.draw_with_option(&mut frame, 41, 41, &option);
    let at = |x: usize, y: usize| -> [u8; 4] {
        let s = (y * 41 + x) * 4;
        [frame[s], frame[s + 1], frame[s + 2], frame[s + 3]]
    };
    assert_eq!(at(23, 20), [255, 0, 0, 255]);
    assert_eq!(at(20, 17), [255, 0, 0, 255]);
    assert_eq!(at(27, 20), [0, 0, 255, 255]);
    assert_eq!(at(20, 27), [0, 0, 255, 255]);
    assert_eq!(at(20, 20), [9, 8, 7, 6]);
}

#[test]
fn draw_circle_and_next_step_on_their_own() {
    let b = Boid::new(Vertice { x: 5, y: 5 }, 1, -3 * S, 0, [9, 8, 7, 6]);
    let mut frame = vec![0u8; 11 * 11 * 4];
    b.draw_circle(&mut frame, 11, 11, 4, boids::geometry::Color::Blue);
    let at = |frame: &Vec<u8>, x: usize, y: usize| -> [u8; 4] {
        let s = (y * 11 + x) * 4;
        [frame[s], frame[s + 1], frame[s + 2], frame[s + 3]]
    };
    assert_eq!(at(&frame, 9, 5), [0, 0, 255, 255]);
    assert_eq!(at(&frame, 1, 5), [0, 0, 255, 255]);
    assert_eq!(at(&frame, 5, 5), [0, 0, 0, 0]);

    let mut frame = vec![0u8; 11 * 11 * 4];
    b.draw_facing_direction_with_speed(&mut frame, 11, 11);
    for x in 2..=5 {
        assert_eq!(at(&frame, x, 5), [255, 255, 255, 255]);
    }
    assert_eq!(at(&frame, 1, 5), [0, 0, 0, 0]);
    assert_eq!(at(&frame, 6, 5), [0, 0, 0, 0]);
}
