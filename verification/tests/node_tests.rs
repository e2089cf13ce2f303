use boids::arith::STEP;
use boids::boid::Boid;
use boids::geometry::{Quadrant, Rectangle, UNIT};
use boids::node::{QuadTree, Vertice};
use boids::world::WorldOption;

fn agent(x: i16, y: i16, tag: i32) -> Boid {
    Boid::new(Vertice { x, y }, 3, tag, 0, [0, 255, 0, 255])
}

fn key(b: &Boid) -> (i16, i16, i32, i32) {
    (b.vertice.x, b.vertice.y, b.velocity_x, b.velocity_y)
}

fn sorted(mut boids: Vec<Boid>) -> Vec<Boid> {
    boids.sort_by_key(key);
    boids
}

fn count_nodes(tree: &QuadTree) -> usize {
    let mut n = 1;
    for q in [Quadrant::TopLeft, Quadrant::TopRight, Quadrant::BottomLeft, Quadrant::BottomRight] {
        if let Some(part) = tree.part(q) {
            n += count_nodes(part);
        }
    }
    n
}

fn square() -> Rectangle {
    Rectangle::new(100, 100, 100, 100)
}

#[test]
fn new_tree_is_an_empty_leaf() {
    let tree = QuadTree::new(4, square());
    assert_eq!(tree.capacity(), 4);
    assert_eq!(tree.boundary(), square());
    assert_eq!(tree.len(), 0);
    assert!(!tree.is_split());
    assert!(tree.part(Quadrant::TopLeft).is_none());
    assert!(tree.to_vec().is_empty());
}

#[test]
fn insert_outside_the_boundary_is_refused() {
    let mut tree = QuadTree::new(4, square());
    assert!(!tree.insert(&agent(250, 250, 0)));
    assert!(!tree.insert(&agent(-1, 50, 0)));
    assert!(tree.to_vec().is_empty());
    assert!(!tree.is_split());
}

#[test]
fn insert_on_the_edge_is_taken() {
    let mut tree = QuadTree::new(4, square());
    assert!(tree.insert(&agent(0, 0, 0)));
    assert!(tree.insert(&agent(200, 200, 1)));
    assert!(tree.insert(&agent(0, 200, 2)));
    assert_eq!(tree.len(), 3);
}

#[test]
fn five_agents_at_one_point_divide_the_node_once() {
    let mut tree = QuadTree::new(4, square());
    for tag in 0..4 {
        assert!(tree.insert(&agent(100, 100, tag)));
        assert!(!tree.is_split());
    }
    assert!(tree.insert(&agent(100, 100, 4)));
    assert!(tree.is_split());
    assert_eq!(tree.len(), 4);
    assert_eq!(count_nodes(&tree), 5);

    let top_left = tree.part(Quadrant::TopLeft).unwrap();
    let top_right = tree.part(Quadrant::TopRight).unwrap();
    let bottom_left = tree.part(Quadrant::BottomLeft).unwrap();
    let bottom_right = tree.part(Quadrant::BottomRight).unwrap();
    assert_eq!(top_left.boundary(), Rectangle::new(50, 150, 50, 50));
    assert_eq!(top_right.boundary(), Rectangle::new(150, 150, 50, 50));
    assert_eq!(bottom_left.boundary(), Rectangle::new(50, 50, 50, 50));
    assert_eq!(bottom_right.boundary(), Rectangle::new(150, 50, 50, 50));
    for part in [top_left, top_right, bottom_left, bottom_right] {
        assert_eq!(part.capacity(), 4);
        assert!(!part.is_split());
    }
    assert_eq!(top_left.to_vec(), vec![agent(100, 100, 4)]);
    assert_eq!(top_right.len(), 0);
    assert_eq!(bottom_left.len(), 0);
    assert_eq!(bottom_right.len(), 0);
}

#[test]
fn the_quarters_partition_the_parent() {
    let mut tree = QuadTree::new(1, square());
    assert!(tree.insert(&agent(1, 1, 0)));
    assert!(tree.insert(&agent(2, 2, 0)));
    let parent = tree.boundary();
    let mut area: i128 = 0;
    for q in [Quadrant::TopLeft, Quadrant::TopRight, Quadrant::BottomLeft, Quadrant::BottomRight] {
        let part = tree.part(q).unwrap().boundary();
        assert_eq!((part.right - part.left) * 2, parent.right - parent.left);
        assert_eq!((part.top - part.bottom) * 2, parent.top - parent.bottom);
        assert!(part.left >= parent.left && part.right <= parent.right);
        assert!(part.bottom >= parent.bottom && part.top <= parent.top);
        area += (part.right - part.left) as i128 * (part.top - part.bottom) as i128;
    }
    assert_eq!(area, (parent.right - parent.left) as i128 * (parent.top - parent.bottom) as i128);
    for x in 0..=200 {
        for y in [0, 1, 99, 100, 101, 199, 200] {
            let holders = [
                Quadrant::TopLeft,
                Quadrant::TopRight,
                Quadrant::BottomLeft,
                Quadrant::BottomRight,
            ]
            .iter()
            .filter(|q| tree.part(**q).unwrap().boundary().contains_point(x * UNIT, y * UNIT))
            .count();
            if x == 100 && y == 100 {
                assert_eq!(holders, 4);
            } else if x == 100 || y == 100 {
                assert_eq!(holders, 2);
            } else {
                assert_eq!(holders, 1);
            }
        }
    }
}

#[test]
fn a_tree_of_capacity_zero_is_an_empty_leaf() {
    let tree = QuadTree::new(0, square());
    assert_eq!(tree.capacity(), 0);
    assert_eq!(tree.boundary(), square());
    assert_eq!(tree.len(), 0);
    assert!(!tree.is_split());
    assert!(tree.to_vec().is_empty());
    let mut found = vec![];
    tree.query(&mut found, &agent(5, 5, 0), 1000 * STEP);
    assert!(found.is_empty());
}

#[test]
fn deep_trees_keep_every_agent() {
    let mut tree = QuadTree::new(1, Rectangle::new(50, 50, 50, 50));
    let mut all = vec![];
    for tag in 0..40 {
        let b = agent(33, 71, tag);
        assert!(tree.insert(&b));
        all.push(b);
    }
    assert_eq!(tree.to_vec(), all);
    let mut found = vec![];
    tree.query(&mut found, &agent(33, 71, 1000), 200 * STEP);
    assert_eq!(found, all);
}

#[test]
fn a_divided_node_is_not_divided_again() {
    let mut tree = QuadTree::new(2, square());
    for tag in 0..3 {
        assert!(tree.insert(&agent(150, 150, tag)));
    }
    assert!(tree.is_split());
    let own = tree.len();
    let parts: Vec<Rectangle> =
        [Quadrant::TopLeft, Quadrant::TopRight, Quadrant::BottomLeft, Quadrant::BottomRight]
            .iter()
            .map(|q| tree.part(*q).unwrap().boundary())
            .collect();
    let mut nodes = count_nodes(&tree);
    assert_eq!(nodes, 5);
    for tag in 3..40 {
        assert!(tree.insert(&agent(10 + tag as i16, 20, tag)));
        assert!(tree.is_split());
        assert_eq!(tree.len(), own);
        let now: Vec<Rectangle> =
            [Quadrant::TopLeft, Quadrant::TopRight, Quadrant::BottomLeft, Quadrant::BottomRight]
                .iter()
                .map(|q| tree.part(*q).unwrap().boundary())
                .collect();
        assert_eq!(now, parts);
        let after = count_nodes(&tree);
        assert!(after == nodes || after == nodes + 4);
        nodes = after;
    }
}

#[test]
fn a_full_node_hands_on_to_the_first_part_that_holds_the_point() {
    let mut tree = QuadTree::new(1, square());
    assert!(tree.insert(&agent(10, 10, 0)));
    assert!(tree.insert(&agent(190, 190, 1)));
    assert!(tree.insert(&agent(190, 10, 2)));
    assert!(tree.insert(&agent(100, 50, 3)));
    assert!(tree.insert(&agent(10, 190, 4)));
    assert_eq!(tree.to_vec(), vec![agent(10, 10, 0)]
        .into_iter()
        .chain([agent(10, 190, 4), agent(190, 190, 1), agent(100, 50, 3), agent(190, 10, 2)])
        .collect::<Vec<Boid>>());
    assert_eq!(tree.part(Quadrant::TopLeft).unwrap().to_vec(), vec![agent(10, 190, 4)]);
    assert_eq!(tree.part(Quadrant::TopRight).unwrap().to_vec(), vec![agent(190, 190, 1)]);
    assert_eq!(tree.part(Quadrant::BottomLeft).unwrap().to_vec(), vec![agent(100, 50, 3)]);
    assert_eq!(tree.part(Quadrant::BottomRight).unwrap().to_vec(), vec![agent(190, 10, 2)]);
}

#[test]
fn many_agents_at_one_point_are_all_kept() {
    let mut tree = QuadTree::new(4, square());
    let mut all = vec![];
    for tag in 0..200 {
        let b = agent(37, 141, tag);
        assert!(tree.insert(&b));
        all.push(b);
    }
    assert_eq!(sorted(tree.to_vec()), sorted(all));
}

#[test]
fn listing_gives_back_what_went_in_whatever_the_order() {
    let mut agents = vec![];
    let mut seed: u32 = 12345;
    for tag in 0..300 {
        seed = seed.wrapping_mul(1103515245).wrapping_add(12345);
        let x = ((seed >> 8) % 201) as i16;
        seed = seed.wrapping_mul(1103515245).wrapping_add(12345);
        let y = ((seed >> 8) % 201) as i16;
        agents.push(agent(x, y, tag % 7));
    }
    let mut forward = QuadTree::new(4, square());
    for b in agents.iter() {
        assert!(forward.insert(b));
    }
    let mut backward = QuadTree::new(4, square());
    for b in agents.iter().rev() {
        assert!(backward.insert(b));
    }
    assert_eq!(forward.to_vec().len(), 300);
    assert_eq!(sorted(forward.to_vec()), sorted(agents.clone()));
    assert_eq!(sorted(backward.to_vec()), sorted(agents));
}

#[test]
fn query_never_returns_its_target() {
    let mut tree = QuadTree::new(2, square());
    let me = agent(50, 50, 9);
    for tag in 0..5 {
        assert!(tree.insert(&agent(50, 50, tag)));
        assert!(tree.insert(&me));
    }
    let mut found = vec![];
    tree.query(&mut found, &me, 1000 * STEP);
    assert_eq!(found.len(), 5);
    assert!(!found.contains(&me));
    assert_eq!(sorted(found), (0..5).map(|tag| agent(50, 50, tag)).collect::<Vec<Boid>>());
}

#[test]
fn a_wide_query_finds_every_other_agent() {
    let mut tree = QuadTree::new(3, square());
    let mut all = vec![];
    for i in 0..60 {
        let b = agent((i * 37 % 201) as i16, (i * 91 % 201) as i16, i);
        assert!(tree.insert(&b));
        all.push(b);
    }
    for target in [agent(0, 0, 1000), agent(200, 200, 1000), agent(-300, 500, 1000), all[17]] {
        let mut found = vec![];
        tree.query(&mut found, &target, 1200 * STEP);
        let expected: Vec<Boid> = tree.to_vec().into_iter().filter(|b| *b != target).collect();
        assert_eq!(found, expected);
    }
}

#[test]
fn a_narrow_query_passes_over_far_nodes() {
    let mut tree = QuadTree::new(1, square());
    let a = agent(10, 10, 0);
    let b = agent(190, 190, 1);
    assert!(tree.insert(&a));
    assert!(tree.insert(&b));
    let target = agent(10, 10, 7);

    let mut found = vec![];
    tree.query(&mut found, &target, 5 * STEP);
    assert_eq!(found, vec![a]);

    let mut found = vec![];
    tree.query(&mut found, &target, 300 * STEP);
    assert_eq!(found, vec![a, b]);
}

#[test]
fn a_query_from_outside_needs_to_reach_the_centre() {
    let mut tree = QuadTree::new(4, square());
    let a = agent(200, 100, 0);
    assert!(tree.insert(&a));
    let target = agent(210, 100, 7);

    let mut found = vec![];
    tree.query(&mut found, &target, 110 * STEP - 1);
    assert!(found.is_empty());

    let mut found = vec![];
    tree.query(&mut found, &target, 110 * STEP);
    assert_eq!(found, vec![a]);
}

#[test]
fn query_appends_to_what_was_found() {
    let mut tree = QuadTree::new(4, square());
    let a = agent(5, 5, 0);
    assert!(tree.insert(&a));
    let earlier = agent(1, 1, 3);
    let mut found = vec![earlier];
    tree.query(&mut found, &agent(6, 6, 1), 10 * STEP);
    assert_eq!(found, vec![earlier, a]);
}

#[test]
fn tree_draws_its_agents_and_its_rectangles() {
    let mut tree = QuadTree::new(1, Rectangle::new(4, 4, 4, 4));
    let a = Boid::new(Vertice { x: 2, y: 2 }, 1, 0, 0, [1, 2, 3, 4]);
    let b = Boid::new(Vertice { x: 6, y: 6 }, 1, 0, 0, [5, 6, 7, 8]);
    assert!(tree.insert(&a));
    assert!(tree.insert(&b));
    let mut option = WorldOption::new();

    let mut frame = vec![0u8; 9 * 9 * 4];
    tree.draw_with_option(&mut frame, 9, 9, &option);
    let mut expected = vec![0u8; 9 * 9 * 4];
    expected[(2 * 9 + 2) * 4..(2 * 9 + 2) * 4 + 4].copy_from_slice(&[1, 2, 3, 4]);
    expected[(6 * 9 + 6) * 4..(6 * 9 + 6) * 4 + 4].copy_from_slice(&[5, 6, 7, 8]);
    assert_eq!(frame, expected);

    option.show_quad_tree = true;
    let mut frame = vec![0u8; 9 * 9 * 4];
    tree.draw_with_option(&mut frame, 9, 9, &option);
    let at = |x: usize, y: usize| -> [u8; 4] {
        let s = (y * 9 + x) * 4;
        [frame[s], frame[s + 1], frame[s + 2], frame[s + 3]]
    };
    let white = [255, 255, 255, 255];
    assert_eq!(at(0, 0), white);
    assert_eq!(at(8, 8), white);
    assert_eq!(at(4, 1), white);
    assert_eq!(at(1, 4), white);
    assert_eq!(at(4, 4), white);
    assert_eq!(at(2, 2), [1, 2, 3, 4]);
    assert_eq!(at(6, 6), [5, 6, 7, 8]);
    assert_eq!(at(1, 1), [0, 0, 0, 0]);

    let mut outlines = vec![0u8; 9 * 9 * 4];
    tree.draw_quad_tree(&mut outlines, 9, 9);
    let mut agents = outlines.clone();
    tree.draw(&mut agents, 9, 9, &option);
    assert_eq!(agents, frame);
}
