//! The world: two populations of agents, each in its own quadtree, the
//! parameters that the rules read, and the tick that moves every agent.

use vstd::prelude::*;
use vstd::seq_lib::to_multiset_len;
use crate::arith::{abs, STEP};
use crate::background::{filled, Background};
use crate::boid::Boid;
use crate::geometry::{Color, Rectangle};
use crate::node::{QuadTree, TreeView, Vertice};
use crate::node_lemmas::{lemma_insert_all, lemma_insert_flat};
use crate::random::random_between;

verus! {

/// The width of the world and of its frame, in grid units and pixels.
pub const WIDTH: u16 = 1280;

/// The height of the world and of its frame, in grid units and pixels.
pub const HEIGHT: u16 = 720;

/// The size of an agent of the flock, in pixels; a predator has twice that.
pub const SIZE: i16 = 3;

/// How many agents of the flock a restart brings.
pub const NUMBER_OF_BOIDS: u16 = 2000;

/// How many predators a restart brings.
pub const NUMBER_OF_PREDATOR: u16 = 3;

/// How many agents a node of the quadtrees stores before it is divided.
pub const QUAD_TREE_CAPACITY: usize = 4;

/// The parameters of the simulation. Factors are thousandths, radii are in
/// steps of a grid unit and the widths of fields of view in steps of a
/// degree, `STEP` to one; speeds are grid units per tick.
#[derive(Clone, Copy, PartialEq, Eq, Structural, Debug)]
pub struct WorldOption {
    pub avoid_factor: i32,
    pub matching_factor: i32,
    pub centering_factor: i32,
    pub safe_radius: i32,
    pub boid_vision_radius: i32,
    pub boid_max_speed: i16,
    pub boid_min_speed: i16,
    pub margin: u16,
    pub turn_factor: i16,
    pub boid_view_angle: i32,
    pub noise: bool,
    pub fear_factor: i32,
    pub fear_radius: i32,
    pub predator_vision_radius: i32,
    pub predator_max_speed: i16,
    pub predator_min_speed: i16,
    pub predator_view_angle: i32,
    pub show_quad_tree: bool,
    pub show_safe_radius: bool,
    pub show_vision_radius: bool,
    pub show_facing_direction_with_speed: bool,
}

impl WorldOption {
    /// The parameters with which the simulation starts.
    pub open spec fn initial() -> WorldOption {
        WorldOption {
            avoid_factor: 270,
            matching_factor: 550,
            centering_factor: 60,
            safe_radius: 655360,
            boid_vision_radius: 1966080,
            boid_max_speed: 10,
            boid_min_speed: 5,
            margin: 20,
            turn_factor: 30,
            boid_view_angle: 7864320,
            noise: false,
            fear_factor: 1000,
            fear_radius: 1966080,
            predator_vision_radius: 2621440,
            predator_max_speed: 8,
            predator_min_speed: 3,
            predator_view_angle: 5898240,
            show_quad_tree: false,
            show_safe_radius: false,
            show_vision_radius: false,
            show_facing_direction_with_speed: false,
        }
    }

    /// The parameters with which the simulation starts.
    pub fn new() -> (option: Self)
        ensures
            option == WorldOption::initial(),
    {
        Self {
            avoid_factor: 270,
            matching_factor: 550,
            centering_factor: 60,
            safe_radius: 10 * STEP,
            boid_vision_radius: 30 * STEP,
            boid_max_speed: 10,
            boid_min_speed: 5,
            margin: 20,
            turn_factor: 30,
            boid_view_angle: 120 * STEP,
            noise: false,
            fear_factor: 1000,
            fear_radius: 30 * STEP,
            predator_vision_radius: 40 * STEP,
            predator_max_speed: 8,
            predator_min_speed: 3,
            predator_view_angle: 90 * STEP,
            show_quad_tree: false,
            show_safe_radius: false,
            show_vision_radius: false,
            show_facing_direction_with_speed: false,
        }
    }
}

/// The rectangle of the world: from the origin to `WIDTH` and `HEIGHT`.
pub open spec fn world_boundary() -> Rectangle {
    Rectangle::of_units(640, 360, 640, 360)
}

/// An agent of the flock as it is spawned: green, of size `SIZE`.
pub open spec fn spawned_boid(x: i16, y: i16, velocity_x: i32, velocity_y: i32) -> Boid {
    Boid {
        vertice: Vertice { x, y },
        size: SIZE,
        velocity_x,
        velocity_y,
        fraction_x: 0,
        fraction_y: 0,
        red: 0,
        green: 255,
        blue: 0,
        alpha: 255,
    }
}

/// A predator as it is spawned: red, of twice the size `SIZE`.
pub open spec fn spawned_predator(x: i16, y: i16, velocity_x: i32, velocity_y: i32) -> Boid {
    Boid {
        vertice: Vertice { x, y },
        size: 6,
        velocity_x,
        velocity_y,
        fraction_x: 0,
        fraction_y: 0,
        red: 255,
        green: 0,
        blue: 0,
        alpha: 255,
    }
}

/// An agent of the flock after the rules that read its neighbours: it
/// separates from, aligns with and coheres with the agents of `flock`, and
/// flees the agents of `threats`, which it fears all around.
pub open spec fn steered(option: WorldOption, boid: Boid, flock: Seq<Boid>, threats: Seq<Boid>) -> Boid {
    boid.separated(
        flock,
        option.avoid_factor as int,
        option.safe_radius as int,
        option.boid_view_angle as int,
    ).aligned(
        flock,
        option.matching_factor as int,
        option.boid_vision_radius as int,
        option.boid_view_angle as int,
    ).cohered(
        flock,
        option.centering_factor as int,
        option.boid_vision_radius as int,
        option.boid_view_angle as int,
    ).separated(threats, option.fear_factor as int, option.fear_radius as int, 360 * STEP)
}

/// An agent of the flock after the last rules of a tick: it turns from the
/// edges of the world, takes the colour of its speed and moves.
pub open spec fn finished(option: WorldOption, boid: Boid) -> Boid {
    boid.turned(
        option.turn_factor as int,
        option.margin as int,
        WIDTH as int,
        HEIGHT as int,
    ).recolored(option.boid_max_speed as int, option.boid_min_speed as int).moved(
        WIDTH as int,
        HEIGHT as int,
    )
}

/// Whether `after` is what a tick can make of the agent `before` of the
/// flock, given the flock and the predators as they were before the tick.
/// The agent is steered by the neighbours that the two trees give it, see
/// [`steered`]; then comes the noise, then the limit on its speed, in both of
/// which chance may have a part; then the last rules, see [`finished`].
pub open spec fn boid_outcome(
    option: WorldOption,
    flock: TreeView,
    predators: TreeView,
    before: Boid,
    after: Boid,
) -> bool {
    let ready = steered(
        option,
        before,
        flock.neighbors(before, option.boid_vision_radius as int),
        predators.neighbors(before, option.fear_radius as int),
    );
    exists|shaken: Boid, limited: Boid|
        #![trigger Boid::noise_outcome(ready, shaken, option.noise), finished(option, limited)]
        Boid::noise_outcome(ready, shaken, option.noise) && Boid::limit_outcome(
            shaken,
            limited,
            option.boid_max_speed as int,
            option.boid_min_speed as int,
        ) && after == finished(option, limited)
}

/// Whether `after` is what a tick can make of the predator `before`, given
/// the flock as it was before the tick. The predator heads all the way for
/// the middle of the agents that the flock's tree gives it within the fear
/// radius and that it notices; then comes the limit on its speed, in which
/// chance may have a part; then it moves.
pub open spec fn predator_outcome(option: WorldOption, flock: TreeView, before: Boid, after: Boid) -> bool {
    let hunting = before.cohered(
        flock.neighbors(before, option.fear_radius as int),
        1000,
        option.predator_vision_radius as int,
        option.predator_view_angle as int,
    );
    exists|limited: Boid|
        #![trigger limited.moved(WIDTH as int, HEIGHT as int)]
        Boid::limit_outcome(
            hunting,
            limited,
            option.predator_max_speed as int,
            option.predator_min_speed as int,
        ) && after == limited.moved(WIDTH as int, HEIGHT as int)
}

/// Whether the agents `after` are what a tick can make of the agents
/// `before` of the flock, one for one and in their order.
pub open spec fn flock_outcome(
    option: WorldOption,
    flock: TreeView,
    predators: TreeView,
    before: Seq<Boid>,
    after: Seq<Boid>,
) -> bool {
    &&& after.len() == before.len()
    &&& forall|i: int|
        0 <= i < before.len() ==> boid_outcome(option, flock, predators, before[i], #[trigger] after[i])
}

/// Whether the predators `after` are what a tick can make of the predators
/// `before`, one for one and in their order.
pub open spec fn hunt_outcome(option: WorldOption, flock: TreeView, before: Seq<Boid>, after: Seq<Boid>) -> bool {
    &&& after.len() == before.len()
    &&& forall|i: int|
        0 <= i < before.len() ==> predator_outcome(option, flock, before[i], #[trigger] after[i])
}

/// Whether the agents of `boids` are as a random spawn makes them: agents
/// of the flock, or predators where `predator` is set, at least `SIZE` from
/// the right and the upper edge of the world, with velocity components that
/// are at most `min_speed` grid units per tick in size.
pub open spec fn scattered(boids: Seq<Boid>, min_speed: int, predator: bool) -> bool {
    forall|i: int|
        #![trigger boids[i]]
        0 <= i < boids.len() ==> {
            let b = boids[i];
            &&& 0 <= b.vertice.x < WIDTH - SIZE
            &&& 0 <= b.vertice.y < HEIGHT - SIZE
            &&& -abs(min_speed * STEP) <= b.velocity_x <= abs(min_speed * STEP)
            &&& -abs(min_speed * STEP) <= b.velocity_y <= abs(min_speed * STEP)
            &&& b == if predator {
                spawned_predator(b.vertice.x, b.vertice.y, b.velocity_x, b.velocity_y)
            } else {
                spawned_boid(b.vertice.x, b.vertice.y, b.velocity_x, b.velocity_y)
            }
        }
}

/// Whether the grid position of `boid` lies in the world.
pub open spec fn in_world(boid: Boid) -> bool {
    0 <= boid.vertice.x <= WIDTH && 0 <= boid.vertice.y <= HEIGHT
}

/// The world: a background, the flock and the predators in a quadtree each,
/// and the parameters, which are read anew in every tick.
pub struct World {
    background: Background,
    boundary: Rectangle,
    boids_quad_tree: QuadTree,
    predator_quad_tree: QuadTree,
    option: WorldOption,
}

impl World {
    /// The tree of the flock.
    pub closed spec fn flock(self) -> TreeView {
        self.boids_quad_tree@
    }

    /// The tree of the predators.
    pub closed spec fn predators(self) -> TreeView {
        self.predator_quad_tree@
    }

    /// The colour of the background.
    pub closed spec fn backdrop(self) -> Color {
        self.background.color_spec()
    }

    /// The rectangle of the world.
    pub closed spec fn boundary(self) -> Rectangle {
        self.boundary
    }

    /// The parameters.
    pub closed spec fn options(self) -> WorldOption {
        self.option
    }

    /// The invariant of the world: both trees are well formed, cover the
    /// rectangle of the world and divide at `QUAD_TREE_CAPACITY`.
    pub open spec fn wf(self) -> bool {
        &&& self.boundary() == world_boundary()
        &&& self.flock().wf()
        &&& self.predators().wf()
        &&& self.flock().boundary == world_boundary()
        &&& self.predators().boundary == world_boundary()
        &&& self.flock().capacity == QUAD_TREE_CAPACITY
        &&& self.predators().capacity == QUAD_TREE_CAPACITY
    }

    /// A world without agents, with a black background and the initial
    /// parameters.
    pub fn new() -> (world: Self)
        ensures
            world.wf(),
            world.flock() == TreeView::fresh(QUAD_TREE_CAPACITY as nat, world_boundary()),
            world.predators() == TreeView::fresh(QUAD_TREE_CAPACITY as nat, world_boundary()),
            world.options() == WorldOption::initial(),
            world.backdrop() == Color::Black,
    {
        Self {
            background: Background::new(Color::Black),
            boundary: Rectangle::new(640, 360, 640, 360),
            boids_quad_tree: QuadTree::new(QUAD_TREE_CAPACITY, Rectangle::new(640, 360, 640, 360)),
            predator_quad_tree: QuadTree::new(QUAD_TREE_CAPACITY, Rectangle::new(640, 360, 640, 360)),
            option: WorldOption::new(),
        }
    }

    /// The parameters.
    pub fn option(&self) -> (option: &WorldOption)
        ensures
            *option == self.options(),
    {
        &self.option
    }

    /// Replaces the parameters; the next tick reads the new ones.
    pub fn set_option(&mut self, option: WorldOption)
        ensures
            final(self).options() == option,
            final(self).flock() == old(self).flock(),
            final(self).predators() == old(self).predators(),
            final(self).backdrop() == old(self).backdrop(),
            final(self).boundary() == old(self).boundary(),
    {
        self.option = option;
    }

    /// The tree of the flock.
    pub fn boids_quad_tree(&self) -> (tree: &QuadTree)
        ensures
            tree@ == self.flock(),
    {
        &self.boids_quad_tree
    }

    /// The tree of the predators.
    pub fn predator_quad_tree(&self) -> (tree: &QuadTree)
        ensures
            tree@ == self.predators(),
    {
        &self.predator_quad_tree
    }

    /// Adds `boid` to the flock and tells whether it was taken, which it is
    /// exactly when its position lies in the world.
    pub fn add_boid(&mut self, boid: &Boid) -> (stored: bool)
        requires
            old(self).wf(),
        ensures
            final(self).wf(),
            final(self).options() == old(self).options(),
            final(self).predators() == old(self).predators(),
            final(self).backdrop() == old(self).backdrop(),
            final(self).flock() == old(self).flock().insert(*boid),
            stored == world_boundary().contains(boid.vertice.x as int, boid.vertice.y as int),
            final(self).flock().flat().len() == old(self).flock().flat().len() + if stored {
                1int
            } else {
                0int
            },
    {
        proof {
            lemma_insert_flat(self.boids_quad_tree@, *boid);
            to_multiset_len(self.boids_quad_tree@.flat());
            to_multiset_len(self.boids_quad_tree@.insert(*boid).flat());
        }
        self.boids_quad_tree.insert(boid)
    }

    /// Adds `predator` to the predators and tells whether it was taken,
    /// which it is exactly when its position lies in the world.
    pub fn add_predator(&mut self, predator: &Boid) -> (stored: bool)
        requires
            old(self).wf(),
        ensures
            final(self).wf(),
            final(self).options() == old(self).options(),
            final(self).flock() == old(self).flock(),
            final(self).backdrop() == old(self).backdrop(),
            final(self).predators() == old(self).predators().insert(*predator),
            stored == world_boundary().contains(predator.vertice.x as int, predator.vertice.y as int),
            final(self).predators().flat().len() == old(self).predators().flat().len() + if stored {
                1int
            } else {
                0int
            },
    {
        proof {
            lemma_insert_flat(self.predator_quad_tree@, *predator);
            to_multiset_len(self.predator_quad_tree@.flat());
            to_multiset_len(self.predator_quad_tree@.insert(*predator).flat());
        }
        self.predator_quad_tree.insert(predator)
    }

    /// A random velocity component, in steps per tick, whose size is at most
    /// that of `speed` grid units per tick.
    fn random_velocity(speed: i16) -> (v: i32)
        ensures
            -abs(speed * STEP) <= v <= abs(speed * STEP),
    {
        let wide: i64 = speed as i64 * 65536;
        let reach: i64 = if wide < 0 {
            -wide
        } else {
            wide
        };
        let bound: i32 = if reach > 2147483647 {
            2147483647
        } else {
            reach as i32
        };
        random_between(-bound, bound)
    }

    /// An agent of the flock for `(x, y)` with a random velocity whose
    /// components are at most `min_speed` in size.
    fn random_boid(x: i16, y: i16, min_speed: i16) -> (boid: Boid)
        ensures
            boid == spawned_boid(x, y, boid.velocity_x, boid.velocity_y),
            -abs(min_speed * STEP) <= boid.velocity_x <= abs(min_speed * STEP),
            -abs(min_speed * STEP) <= boid.velocity_y <= abs(min_speed * STEP),
    {
        let velocity_x = Self::random_velocity(min_speed);
        let velocity_y = Self::random_velocity(min_speed);
        let mut vertice = Vertice::new();
        vertice.x = x;
        vertice.y = y;
        let boid = Boid::new(vertice, SIZE, velocity_x, velocity_y, Color::Green.to_color_array());
        assert(boid.color_spec()[0] == 0u8 && boid.color_spec()[1] == 255u8 && boid.color_spec()[2]
            == 0u8 && boid.color_spec()[3] == 255u8);
        boid
    }

    /// A predator for `(x, y)` with a random velocity whose components are
    /// at most `min_speed` in size.
    fn random_predator(x: i16, y: i16, min_speed: i16) -> (predator: Boid)
        ensures
            predator == spawned_predator(x, y, predator.velocity_x, predator.velocity_y),
            -abs(min_speed * STEP) <= predator.velocity_x <= abs(min_speed * STEP),
            -abs(min_speed * STEP) <= predator.velocity_y <= abs(min_speed * STEP),
    {
        let velocity_x = Self::random_velocity(min_speed);
        let velocity_y = Self::random_velocity(min_speed);
        let mut vertice = Vertice::new();
        vertice.x = x;
        vertice.y = y;
        let predator = Boid::new(vertice, SIZE * 2, velocity_x, velocity_y, Color::Red.to_color_array());
        assert(predator.color_spec()[0] == 255u8 && predator.color_spec()[1] == 0u8
            && predator.color_spec()[2] == 0u8 && predator.color_spec()[3] == 255u8);
        predator
    }

    /// Adds one agent to the flock at `(x, y)`, green and of size `SIZE`,
    /// with a random velocity whose components are at most the least speed of
    /// the flock in size. A position outside the world adds nothing.
    pub fn spawn_boids(&mut self, x: i16, y: i16)
        requires
            old(self).wf(),
        ensures
            final(self).wf(),
            final(self).options() == old(self).options(),
            final(self).predators() == old(self).predators(),
            final(self).backdrop() == old(self).backdrop(),
            exists|velocity_x: i32, velocity_y: i32|
                -abs(old(self).options().boid_min_speed * STEP) <= velocity_x <= abs(
                    old(self).options().boid_min_speed * STEP,
                ) && -abs(old(self).options().boid_min_speed * STEP) <= velocity_y <= abs(
                    old(self).options().boid_min_speed * STEP,
                ) && final(self).flock() == old(self).flock().insert(
                    #[trigger] spawned_boid(x, y, velocity_x, velocity_y),
                ),
            final(self).flock().flat().len() == old(self).flock().flat().len() + if world_boundary().contains(
                x as int,
                y as int,
            ) {
                1int
            } else {
                0int
            },
    {
        let boid = Self::random_boid(x, y, self.option.boid_min_speed);
        self.add_boid(&boid);
    }

    /// Adds one predator at `(x, y)`, red and of twice the size `SIZE`, with
    /// a random velocity whose components are at most the least speed of the
    /// predators in size. A position outside the world adds nothing.
    pub fn spawn_predators(&mut self, x: i16, y: i16)
        requires
            old(self).wf(),
        ensures
            final(self).wf(),
            final(self).options() == old(self).options(),
            final(self).flock() == old(self).flock(),
            final(self).backdrop() == old(self).backdrop(),
            exists|velocity_x: i32, velocity_y: i32|
                -abs(old(self).options().predator_min_speed * STEP) <= velocity_x <= abs(
                    old(self).options().predator_min_speed * STEP,
                ) && -abs(old(self).options().predator_min_speed * STEP) <= velocity_y <= abs(
                    old(self).options().predator_min_speed * STEP,
                ) && final(self).predators() == old(self).predators().insert(
                    #[trigger] spawned_predator(x, y, velocity_x, velocity_y),
                ),
            final(self).predators().flat().len() == old(self).predators().flat().len()
                + if world_boundary().contains(x as int, y as int) {
                1int
            } else {
                0int
            },
    {
        let predator = Self::random_predator(x, y, self.option.predator_min_speed);
        self.add_predator(&predator);
    }

    /// Adds `boids_numbers` agents to the flock and `predators_numbers`
    /// predators, one after the other, each as [`World::spawn_boids`] and
    /// [`World::spawn_predators`] make them and at a random position at least
    /// `SIZE` from the right and the upper edge of the world.
    pub fn spawn_random_boids(&mut self, boids_numbers: u16, predators_numbers: u16)
        requires
            old(self).wf(),
        ensures
            final(self).wf(),
            final(self).options() == old(self).options(),
            final(self).backdrop() == old(self).backdrop(),
            exists|added: Seq<Boid>| #[trigger]
                scattered(added, old(self).options().boid_min_speed as int, false) && added.len()
                    == boids_numbers && final(self).flock() == old(self).flock().insert_all(added),
            exists|added: Seq<Boid>| #[trigger]
                scattered(added, old(self).options().predator_min_speed as int, true) && added.len()
                    == predators_numbers && final(self).predators() == old(self).predators().insert_all(
                    added,
                ),
            final(self).flock().flat().len() == old(self).flock().flat().len() + boids_numbers,
            final(self).predators().flat().len() == old(self).predators().flat().len()
                + predators_numbers,
    {
        let ghost mut flock: Seq<Boid> = Seq::empty();
        let mut spawned: u16 = 0;
        while spawned < boids_numbers
            invariant
                spawned <= boids_numbers,
                self.wf(),
                self.options() == old(self).options(),
                self.backdrop() == old(self).backdrop(),
                self.predators() == old(self).predators(),
                flock.len() == spawned,
                scattered(flock, old(self).options().boid_min_speed as int, false),
                self.flock() == old(self).flock().insert_all(flock),
                self.flock().flat().len() == old(self).flock().flat().len() + spawned,
            decreases boids_numbers - spawned,
        {
            let x = random_between(0, WIDTH as i32 - SIZE as i32 - 1) as i16;
            let y = random_between(0, HEIGHT as i32 - SIZE as i32 - 1) as i16;
            assert(world_boundary().contains(x as int, y as int));
            let boid = Self::random_boid(x, y, self.option.boid_min_speed);
            proof {
                assert(flock.push(boid).drop_last() == flock);
                flock = flock.push(boid);
            }
            self.add_boid(&boid);
            spawned += 1;
        }
        let ghost mut hunters: Seq<Boid> = Seq::empty();
        let mut spawned: u16 = 0;
        while spawned < predators_numbers
            invariant
                spawned <= predators_numbers,
                self.wf(),
                self.options() == old(self).options(),
                self.backdrop() == old(self).backdrop(),
                flock.len() == boids_numbers,
                scattered(flock, old(self).options().boid_min_speed as int, false),
                self.flock() == old(self).flock().insert_all(flock),
                self.flock().flat().len() == old(self).flock().flat().len() + boids_numbers,
                hunters.len() == spawned,
                scattered(hunters, old(self).options().predator_min_speed as int, true),
                self.predators() == old(self).predators().insert_all(hunters),
                self.predators().flat().len() == old(self).predators().flat().len() + spawned,
            decreases predators_numbers - spawned,
        {
            let x = random_between(0, WIDTH as i32 - SIZE as i32 - 1) as i16;
            let y = random_between(0, HEIGHT as i32 - SIZE as i32 - 1) as i16;
            assert(world_boundary().contains(x as int, y as int));
            let predator = Self::random_predator(x, y, self.option.predator_min_speed);
            proof {
                assert(hunters.push(predator).drop_last() == hunters);
                hunters = hunters.push(predator);
            }
            self.add_predator(&predator);
            spawned += 1;
        }
    }

    /// Empties the world and fills it with `NUMBER_OF_BOIDS` agents of the
    /// flock and `NUMBER_OF_PREDATOR` predators.
    pub fn restart(&mut self)
        requires
            old(self).wf(),
        ensures
            final(self).wf(),
            final(self).options() == old(self).options(),
            final(self).backdrop() == old(self).backdrop(),
            exists|added: Seq<Boid>| #[trigger]
                scattered(added, old(self).options().boid_min_speed as int, false) && added.len()
                    == NUMBER_OF_BOIDS && final(self).flock() == TreeView::fresh(
                    QUAD_TREE_CAPACITY as nat,
                    world_boundary(),
                ).insert_all(added),
            exists|added: Seq<Boid>| #[trigger]
                scattered(added, old(self).options().predator_min_speed as int, true) && added.len()
                    == NUMBER_OF_PREDATOR && final(self).predators() == TreeView::fresh(
                    QUAD_TREE_CAPACITY as nat,
                    world_boundary(),
                ).insert_all(added),
            final(self).flock().flat().len() == NUMBER_OF_BOIDS,
            final(self).predators().flat().len() == NUMBER_OF_PREDATOR,
    {
        self.clear_all();
        self.spawn_random_boids(NUMBER_OF_BOIDS, NUMBER_OF_PREDATOR);
    }

    /// Removes every agent.
    pub fn clear_all(&mut self)
        requires
            old(self).wf(),
        ensures
            final(self).wf(),
            final(self).options() == old(self).options(),
            final(self).backdrop() == old(self).backdrop(),
            final(self).flock() == TreeView::fresh(QUAD_TREE_CAPACITY as nat, world_boundary()),
            final(self).predators() == TreeView::fresh(QUAD_TREE_CAPACITY as nat, world_boundary()),
    {
        self.boids_quad_tree = QuadTree::new(QUAD_TREE_CAPACITY, self.boundary);
        self.predator_quad_tree = QuadTree::new(QUAD_TREE_CAPACITY, self.boundary);
    }

    /// The frame after the world was drawn: the background, the flock and
    /// then the predators.
    pub open spec fn drawn(self, frame: Seq<u8>) -> Seq<u8> {
        self.predators().drawn(
            self.flock().drawn(
                filled(frame, self.backdrop().bytes()),
                WIDTH as int,
                HEIGHT as int,
                self.options(),
            ),
            WIDTH as int,
            HEIGHT as int,
            self.options(),
        )
    }

    /// Draws the world into a frame of `WIDTH` by `HEIGHT` pixels.
    pub fn draw(&self, frame: &mut [u8])
        ensures
            final(frame)@ == self.drawn(old(frame)@),
    {
        self.background.draw(frame, WIDTH, HEIGHT);
        self.boids_quad_tree.draw_with_option(frame, WIDTH, HEIGHT, &self.option);
        self.predator_quad_tree.draw_with_option(frame, WIDTH, HEIGHT, &self.option);
    }

    /// Takes one agent of the flock through a tick: see [`boid_outcome`].
    fn step_boid(&self, boid: &Boid) -> (after: Boid)
        requires
            self.wf(),
        ensures
            boid_outcome(self.options(), self.flock(), self.predators(), *boid, after),
            in_world(after),
    {
        let mut new_boid = *boid;
        let mut found_boids: Vec<Boid> = Vec::new();
        let mut found_predators: Vec<Boid> = Vec::new();
        self.boids_quad_tree.query(&mut found_boids, boid, self.option.boid_vision_radius);
        self.predator_quad_tree.query(&mut found_predators, boid, self.option.fear_radius);
        assert(found_boids@ == self.flock().neighbors(*boid, self.option.boid_vision_radius as int));
        assert(found_predators@ == self.predators().neighbors(*boid, self.option.fear_radius as int));
        new_boid.separate(
            &found_boids,
            self.option.avoid_factor,
            self.option.safe_radius,
            self.option.boid_view_angle,
        );
        new_boid.align(
            &found_boids,
            self.option.matching_factor,
            self.option.boid_vision_radius,
            self.option.boid_view_angle,
        );
        new_boid.cohesion(
            &found_boids,
            self.option.centering_factor,
            self.option.boid_vision_radius,
            self.option.boid_view_angle,
        );
        new_boid.fear(&found_predators, self.option.fear_factor, self.option.fear_radius);
        let ghost ready = new_boid;
        new_boid.noise(self.option.noise);
        let ghost shaken = new_boid;
        new_boid.speed_limit(self.option.boid_max_speed, self.option.boid_min_speed);
        let ghost limited = new_boid;
        new_boid.avoid_border(self.option.turn_factor, self.option.margin, WIDTH, HEIGHT);
        new_boid.update_color(self.option.boid_max_speed, self.option.boid_min_speed);
        new_boid.update(WIDTH, HEIGHT);
        proof {
            assert(ready == steered(self.option, *boid, found_boids@, found_predators@));
            assert(Boid::noise_outcome(ready, shaken, self.option.noise));
            assert(new_boid == finished(self.option, limited));
        }
        new_boid
    }

    /// Takes one predator through a tick: see [`predator_outcome`].
    fn step_predator(&self, predator: &Boid) -> (after: Boid)
        requires
            self.wf(),
        ensures
            predator_outcome(self.options(), self.flock(), *predator, after),
            in_world(after),
    {
        let mut new_predator = *predator;
        let mut found_boids: Vec<Boid> = Vec::new();
        self.boids_quad_tree.query(&mut found_boids, predator, self.option.fear_radius);
        assert(found_boids@ == self.flock().neighbors(*predator, self.option.fear_radius as int));
        new_predator.cohesion(
            &found_boids,
            1000,
            self.option.predator_vision_radius,
            self.option.predator_view_angle,
        );
        new_predator.speed_limit(self.option.predator_max_speed, self.option.predator_min_speed);
        let ghost limited = new_predator;
        new_predator.update(WIDTH, HEIGHT);
        proof {
            assert(new_predator == limited.moved(WIDTH as int, HEIGHT as int));
        }
        new_predator
    }

    /// One tick. Every agent is taken through the rules against the flock
    /// and the predators as they were before the tick, and goes, in the
    /// order in which the old trees list them, into a new tree that takes
    /// the place of the old one. No agent is lost and none is added.
    pub fn update(&mut self)
        requires
            old(self).wf(),
        ensures
            final(self).wf(),
            final(self).options() == old(self).options(),
            final(self).backdrop() == old(self).backdrop(),
            exists|moved: Seq<Boid>| #[trigger]
                flock_outcome(
                    old(self).options(),
                    old(self).flock(),
                    old(self).predators(),
                    old(self).flock().flat(),
                    moved,
                ) && final(self).flock() == TreeView::fresh(
                    QUAD_TREE_CAPACITY as nat,
                    world_boundary(),
                ).insert_all(moved),
            exists|moved: Seq<Boid>| #[trigger]
                hunt_outcome(old(self).options(), old(self).flock(), old(self).predators().flat(), moved)
                    && final(self).predators() == TreeView::fresh(
                    QUAD_TREE_CAPACITY as nat,
                    world_boundary(),
                ).insert_all(moved),
            final(self).flock().flat().len() == old(self).flock().flat().len(),
            final(self).predators().flat().len() == old(self).predators().flat().len(),
    {
        let ghost empty = TreeView::fresh(QUAD_TREE_CAPACITY as nat, world_boundary());
        let mut new_boids_quad_tree = QuadTree::new(QUAD_TREE_CAPACITY, self.boundary);
        let mut new_predator_quad_tree = QuadTree::new(QUAD_TREE_CAPACITY, self.boundary);

        let predators = self.predator_quad_tree.to_vec();
        let ghost mut hunted: Seq<Boid> = Seq::empty();
        let mut i: usize = 0;
        while i < predators.len()
            invariant
                i <= predators.len(),
                self.wf(),
                predators@ == self.predators().flat(),
                empty == TreeView::fresh(QUAD_TREE_CAPACITY as nat, world_boundary()),
                hunted.len() == i,
                forall|j: int|
                    0 <= j < i ==> predator_outcome(
                        self.option,
                        self.flock(),
                        predators@[j],
                        #[trigger] hunted[j],
                    ),
                forall|j: int| 0 <= j < i ==> empty.accepts(#[trigger] hunted[j]),
                new_predator_quad_tree@ == empty.insert_all(hunted),
                new_predator_quad_tree@.wf(),
                new_predator_quad_tree@.boundary == world_boundary(),
                new_predator_quad_tree@.capacity == QUAD_TREE_CAPACITY,
            decreases predators.len() - i,
        {
            let new_predator = self.step_predator(&predators[i]);
            proof {
                assert(hunted.push(new_predator).drop_last() == hunted);
                hunted = hunted.push(new_predator);
            }
            new_predator_quad_tree.insert(&new_predator);
            i += 1;
        }

        let boids = self.boids_quad_tree.to_vec();
        let ghost mut moved: Seq<Boid> = Seq::empty();
        let mut i: usize = 0;
        while i < boids.len()
            invariant
                i <= boids.len(),
                self.wf(),
                boids@ == self.flock().flat(),
                empty == TreeView::fresh(QUAD_TREE_CAPACITY as nat, world_boundary()),
                hunt_outcome(self.options(), self.flock(), self.predators().flat(), hunted),
                forall|j: int| 0 <= j < hunted.len() ==> empty.accepts(#[trigger] hunted[j]),
                new_predator_quad_tree@ == empty.insert_all(hunted),
                moved.len() == i,
                forall|j: int|
                    0 <= j < i ==> boid_outcome(
                        self.option,
                        self.flock(),
                        self.predators(),
                        boids@[j],
                        #[trigger] moved[j],
                    ),
                forall|j: int| 0 <= j < i ==> empty.accepts(#[trigger] moved[j]),
                new_boids_quad_tree@ == empty.insert_all(moved),
                new_boids_quad_tree@.wf(),
                new_boids_quad_tree@.boundary == world_boundary(),
                new_boids_quad_tree@.capacity == QUAD_TREE_CAPACITY,
            decreases boids.len() - i,
        {
            let new_boid = self.step_boid(&boids[i]);
            proof {
                assert(moved.push(new_boid).drop_last() == moved);
                moved = moved.push(new_boid);
            }
            new_boids_quad_tree.insert(&new_boid);
            i += 1;
        }
        proof {
            lemma_insert_all(empty, moved);
            lemma_insert_all(empty, hunted);
            to_multiset_len(moved);
            to_multiset_len(hunted);
            to_multiset_len(empty.insert_all(moved).flat());
            to_multiset_len(empty.insert_all(hunted).flat());
            to_multiset_len(empty.flat());
            assert(flock_outcome(self.option, self.flock(), self.predators(), self.flock().flat(), moved));
            assert(hunt_outcome(self.option, self.flock(), self.predators().flat(), hunted));
        }
        self.boids_quad_tree = new_boids_quad_tree;
        self.predator_quad_tree = new_predator_quad_tree;
    }
}

} // verus!
