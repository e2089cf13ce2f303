use boids::arith::STEP;
use boids::boid::Boid;
use boids::node::Vertice;
use boids::world::{
    World, WorldOption, HEIGHT, NUMBER_OF_BOIDS, NUMBER_OF_PREDATOR, QUAD_TREE_CAPACITY, SIZE, WIDTH,
};
use boids::geometry::Rectangle;

const S: i32 = STEP;

/// An agent whose velocity is given in whole grid units per tick.
fn boid(x: i16, y: i16, vx: i32, vy: i32) -> Boid {
    Boid::new(Vertice { x, y }, SIZE, vx * S, vy * S, [0, 255, 0, 255])
}

#[test]
fn option_starts_with_the_defaults() {
    let o = WorldOption::new();
    assert_eq!((o.avoid_factor, o.matching_factor, o.centering_factor), (270, 550, 60));
    assert_eq!((o.safe_radius, o.boid_vision_radius), (10 * S, 30 * S));
    assert_eq!((o.boid_max_speed, o.boid_min_speed), (10, 5));
    assert_eq!((o.margin, o.turn_factor, o.boid_view_angle), (20, 30, 120 * S));
    assert!(!o.noise);
    assert_eq!((o.fear_factor, o.fear_radius, o.predator_vision_radius), (1000, 30 * S, 40 * S));
    assert_eq!((o.predator_max_speed, o.predator_min_speed, o.predator_view_angle), (8, 3, 90 * S));
    assert!(!o.show_quad_tree && !o.show_safe_radius && !o.show_vision_radius);
    assert!(!o.show_facing_direction_with_speed);
}

#[test]
fn new_world_is_empty() {
    let world = World::new();
    assert_eq!((WIDTH, HEIGHT, SIZE), (1280, 720, 3));
    assert_eq!((NUMBER_OF_BOIDS, NUMBER_OF_PREDATOR, QUAD_TREE_CAPACITY), (2000, 3, 4));
    assert!(world.boids_quad_tree().to_vec().is_empty());
    assert!(world.predator_quad_tree().to_vec().is_empty());
    assert_eq!(world.boids_quad_tree().boundary(), Rectangle::new(640, 360, 640, 360));
    assert_eq!(world.predator_quad_tree().boundary(), Rectangle::new(640, 360, 640, 360));
    assert_eq!(world.boids_quad_tree().capacity(), 4);
    assert_eq!(*world.option(), WorldOption::new());
}

#[test]
fn set_option_replaces_the_parameters() {
    let mut world = World::new();
    let mut option = WorldOption::new();
    option.noise = true;
    option.safe_radius = 17 * S;
    world.set_option(option);
    assert_eq!(*world.option(), option);
}

#[test]
fn spawn_boids_adds_a_green_agent() {
    let mut world = World::new();
    for _ in 0..50 {
        world.spawn_boids(100, 200);
    }
    let all = world.boids_quad_tree().to_vec();
    assert_eq!(all.len(), 50);
    for b in all.iter() {
        assert_eq!(b.vertice, Vertice { x: 100, y: 200 });
        assert_eq!(b.size, 3);
        assert_eq!(b.color(), [0, 255, 0, 255]);
        assert!((-5 * S..=5 * S).contains(&b.velocity_x));
        assert!((-5 * S..=5 * S).contains(&b.velocity_y));
    }
    assert!(all.iter().any(|b| *b != all[0]));
    assert!(world.predator_quad_tree().to_vec().is_empty());
}

#[test]
fn spawn_predators_adds_a_red_agent() {
    let mut world = World::new();
    world.spawn_predators(0, 720);
    let all = world.predator_quad_tree().to_vec();
    assert_eq!(all.len(), 1);
    assert_eq!(all[0].vertice, Vertice { x: 0, y: 720 });
    assert_eq!(all[0].size, 6);
    assert_eq!(all[0].color(), [255, 0, 0, 255]);
    assert!((-3 * S..=3 * S).contains(&all[0].velocity_x));
    assert!((-3 * S..=3 * S).contains(&all[0].velocity_y));
    assert!(world.boids_quad_tree().to_vec().is_empty());
}

#[test]
fn spawn_outside_the_world_adds_nothing() {
    let mut world = World::new();
    world.spawn_boids(-1, 10);
    world.spawn_boids(1281, 10);
    world.spawn_predators(10, 721);
    assert!(world.boids_quad_tree().to_vec().is_empty());
    assert!(world.predator_quad_tree().to_vec().is_empty());
    assert!(!world.add_boid(&boid(5, -5, 1, 1)));
    assert!(world.add_boid(&boid(1280, 720, 1, 1)));
    assert!(!world.add_predator(&boid(1281, 0, 1, 1)));
    assert!(world.add_predator(&boid(0, 0, 1, 1)));
}

#[test]
fn spawn_random_boids_spreads_them_over_the_world() {
    let mut world = World::new();
    world.spawn_random_boids(500, 7);
    let flock = world.boids_quad_tree().to_vec();
    let hunters = world.predator_quad_tree().to_vec();
    assert_eq!(flock.len(), 500);
    assert_eq!(hunters.len(), 7);
    for b in flock.iter().chain(hunters.iter()) {
        assert!((0..1277).contains(&b.vertice.x));
        assert!((0..717).contains(&b.vertice.y));
    }
    let first = flock[0].vertice;
    assert!(flock.iter().any(|b| b.vertice.x != first.x));
    assert!(flock.iter().any(|b| b.vertice.y != first.y));
    assert!(flock.iter().any(|b| b.vertice.x != 0));
}

#[test]
fn restart_and_clear() {
    let mut world = World::new();
    world.spawn_boids(1, 1);
    world.restart();
    assert_eq!(world.boids_quad_tree().to_vec().len(), 2000);
    assert_eq!(world.predator_quad_tree().to_vec().len(), 3);
    world.clear_all();
    assert!(world.boids_quad_tree().to_vec().is_empty());
    assert!(world.predator_quad_tree().to_vec().is_empty());
    assert!(!world.boids_quad_tree().is_split());
}

#[test]
fn a_tick_takes_a_lone_agent_through_the_rules() {
    let mut world = World::new();
    assert!(world.add_boid(&boid(100, 100, 6, 8)));
    world.update();
    let after = world.boids_quad_tree().to_vec();
    assert_eq!(after.len(), 1);
    assert_eq!(after[0].vertice, Vertice { x: 106, y: 108 });
    assert_eq!((after[0].velocity_x, after[0].velocity_y), (6 * S, 8 * S));
    assert_eq!(after[0].color(), [0, 255, 0, 255]);

    let mut world = World::new();
    assert!(world.add_boid(&boid(100, 100, 30, 40)));
    world.update();
    let after = world.boids_quad_tree().to_vec();
    assert_eq!(after[0].vertice, Vertice { x: 106, y: 108 });
    assert_eq!((after[0].velocity_x, after[0].velocity_y), (6 * S, 8 * S));

    let mut world = World::new();
    assert!(world.add_boid(&boid(5, 300, 3, 4)));
    world.update();
    let after = world.boids_quad_tree().to_vec();
    assert_eq!((after[0].velocity_x, after[0].velocity_y), (33 * S, 4 * S));
    assert_eq!(after[0].vertice, Vertice { x: 38, y: 304 });
    assert_eq!(after[0].color(), [0, 255, 0, 255]);
}

#[test]
fn a_tick_reads_the_flock_as_it_was() {
    let mut world = World::new();
    let a = boid(100, 100, 5, 0);
    let b = boid(104, 100, -5, 2);
    assert!(world.add_boid(&a));
    assert!(world.add_boid(&b));
    world.update();
    let after = world.boids_quad_tree().to_vec();
    assert_eq!(after.len(), 2);

    let mut first = a;
    first.separate(&vec![b], 270, 10 * S, 120 * S);
    first.align(&vec![b], 550, 30 * S, 120 * S);
    first.cohesion(&vec![b], 60, 30 * S, 120 * S);
    first.fear(&vec![], 1000, 30 * S);
    first.speed_limit(10, 5);
    first.avoid_border(30, 20, 1280, 720);
    first.update_color(10, 5);
    first.update(1280, 720);
    let mut second = b;
    second.separate(&vec![a], 270, 10 * S, 120 * S);
    second.align(&vec![a], 550, 30 * S, 120 * S);
    second.cohesion(&vec![a], 60, 30 * S, 120 * S);
    second.fear(&vec![], 1000, 30 * S);
    second.speed_limit(10, 5);
    second.avoid_border(30, 20, 1280, 720);
    second.update_color(10, 5);
    second.update(1280, 720);
    assert_eq!(after, vec![first, second]);
    assert!(first.velocity_x < 0 && first.velocity_y > 0);
    assert!(second.velocity_x > 0 && second.velocity_y > 0);
    for b in after.iter() {
        let (x, y) = (b.velocity_x as i64, b.velocity_y as i64);
        assert!(x * x + y * y >= (5 * S as i64) * (5 * S as i64));
        assert!(x * x + y * y < (5 * S as i64 + 2) * (5 * S as i64 + 2));
        assert_eq!(b.color(), [255, 0, 0, 255]);
    }
}

#[test]
fn a_tick_lets_the_flock_flee_and_the_predators_hunt() {
    let mut world = World::new();
    let prey = boid(100, 100, 5, 0);
    let hunter = Boid::new(Vertice { x: 90, y: 100 }, 6, 3 * S, 0, [255, 0, 0, 255]);
    assert!(world.add_boid(&prey));
    assert!(world.add_predator(&hunter));
    world.update();
    let flock = world.boids_quad_tree().to_vec();
    let hunters = world.predator_quad_tree().to_vec();
    assert_eq!(flock.len(), 1);
    assert_eq!(hunters.len(), 1);
    assert_eq!((flock[0].velocity_x, flock[0].velocity_y), (10 * S, 0));
    assert_eq!(flock[0].vertice, Vertice { x: 110, y: 100 });
    assert_eq!((hunters[0].velocity_x, hunters[0].velocity_y), (8 * S, 0));
    assert_eq!(hunters[0].vertice, Vertice { x: 98, y: 100 });
    assert_eq!(hunters[0].color(), [255, 0, 0, 255]);
    assert_eq!(hunters[0].size, 6);
}

#[test]
fn ticks_keep_every_agent_inside_the_world() {
    let mut world = World::new();
    world.spawn_random_boids(300, 3);
    let mut option = WorldOption::new();
    option.noise = true;
    world.set_option(option);
    for _ in 0..30 {
        world.update();
        let flock = world.boids_quad_tree().to_vec();
        let hunters = world.predator_quad_tree().to_vec();
        assert_eq!(flock.len(), 300);
        assert_eq!(hunters.len(), 3);
        for b in flock.iter().chain(hunters.iter()) {
            assert!((0..=1280).contains(&b.vertice.x));
            assert!((0..=720).contains(&b.vertice.y));
        }
        for b in flock.iter() {
            assert_eq!(b.size, 3);
            assert_eq!(b.blue, 0);
            assert_eq!(b.alpha, 255);
        }
    }
}

#[test]
fn draw_paints_background_then_agents() {
    let mut world = World::new();
    let mut frame = vec![9u8; 1280 * 720 * 4];
    world.draw(&mut frame);
    assert!(frame.iter().all(|byte| *byte == 0));

    assert!(world.add_boid(&boid(10, 20, 1, 0)));
    assert!(world.add_predator(&Boid::new(Vertice { x: 11, y: 21 }, 6, 0, 0, [255, 0, 0, 255])));
    let mut frame = vec![9u8; 1280 * 720 * 4];
    world.draw(&mut frame);
    let at = |x: usize, y: usize| -> [u8; 4] {
        let s = (y * 1280 + x) * 4;
        [frame[s], frame[s + 1], frame[s + 2], frame[s + 3]]
    };
    assert_eq!(at(10, 20), [0, 255, 0, 255]);
    assert_eq!(at(12, 20), [0, 255, 0, 255]);
    assert_eq!(at(10, 22), [0, 255, 0, 255]);
    assert_eq!(at(11, 21), [255, 0, 0, 255]);
    assert_eq!(at(12, 22), [255, 0, 0, 255]);
    assert_eq!(at(16, 26), [255, 0, 0, 255]);
    assert_eq!(at(17, 26), [0, 0, 0, 0]);
    assert_eq!(at(9, 20), [0, 0, 0, 0]);

    let mut option = WorldOption::new();
    option.show_quad_tree = true;
    world.set_option(option);
    let mut frame = vec![9u8; 1280 * 720 * 4];
    world.draw(&mut frame);
    let s = (5 * 1280) * 4;
    assert_eq!(&frame[s..s + 4], &[255, 255, 255, 255]);
    let s = 700 * 4;
    assert_eq!(&frame[s..s + 4], &[255, 255, 255, 255]);
}
