//! The agents of the simulation and the rules by which they steer.

use vstd::prelude::*;
use crate::arith::{
    abs, ceil_div, ceil_sqrt, clamp_i16, clamp_i16_spec, clamp_i32, clamp_i32_spec, div_toward_zero,
    floor_sqrt, is_floor_sqrt, isqrt, isqrt_up, lemma_ceil_sqrt, lemma_floor_sqrt_exists,
    lemma_floor_sqrt_monotone, lemma_square_monotone, nudge, nudge_spec, portion, trunc_div, STEP,
};
use crate::random::{random_between, random_ratio};
use crate::geometry::{change_pixel, draw_line, line_drawn, painted_all, Circle, Color};
use crate::node::Vertice;
use crate::world::WorldOption;
use crate::trig::{direction, direction_spec, in_view, is_within_sight};

verus! {

/// An agent: where it is on the grid, how large it is drawn, how far it moves
/// per tick along each axis, in steps of the fixed point, `STEP` to one grid
/// unit, how many steps it lies beyond its grid position along each axis, and
/// its colour as red, green, blue and alpha.
#[derive(Clone, Copy, PartialEq, Eq, Structural, Debug)]
pub struct Boid {
    pub vertice: Vertice,
    pub size: i16,
    pub velocity_x: i32,
    pub velocity_y: i32,
    pub fraction_x: u16,
    pub fraction_y: u16,
    pub red: u8,
    pub green: u8,
    pub blue: u8,
    pub alpha: u8,
}

/// What a rule adds up over the neighbours that an agent notices, each in
/// steps of the fixed point.
#[derive(Clone, Copy, PartialEq, Eq, Structural, Debug)]
pub enum Measure {
    /// The agent's own position less the neighbour's, along `x`.
    OffsetX,
    /// The agent's own position less the neighbour's, along `y`.
    OffsetY,
    /// The neighbour's velocity along `x`.
    VelocityX,
    /// The neighbour's velocity along `y`.
    VelocityY,
    /// The neighbour's position along `x`.
    PositionX,
    /// The neighbour's position along `y`.
    PositionY,
}

/// The denominator of the factors of the rules: a factor of 1000 stands for
/// one.
pub const THOUSAND: u128 = 1000;

impl Boid {
    /// An agent at the grid position `vertice` itself, with the given size,
    /// velocity, in steps per tick, and colour.
    pub fn new(vertice: Vertice, size: i16, velocity_x: i32, velocity_y: i32, color: [u8; 4]) -> (b: Self)
        ensures
            b.vertice == vertice,
            b.size == size,
            b.velocity_x == velocity_x,
            b.velocity_y == velocity_y,
            b.fraction_x == 0,
            b.fraction_y == 0,
            b.color_spec() == color@,
    {
        Self {
            vertice,
            size,
            velocity_x,
            velocity_y,
            fraction_x: 0,
            fraction_y: 0,
            red: color[0],
            green: color[1],
            blue: color[2],
            alpha: color[3],
        }
    }

    /// The colour as the four bytes of a pixel.
    pub open spec fn color_spec(self) -> Seq<u8> {
        seq![self.red, self.green, self.blue, self.alpha]
    }

    /// The colour as the four bytes of a pixel.
    pub fn color(&self) -> (c: [u8; 4])
        ensures
            c@ == self.color_spec(),
    {
        [self.red, self.green, self.blue, self.alpha]
    }

    /// The direction in which the agent moves, in whole degrees.
    pub open spec fn facing(self) -> int {
        direction_spec(self.velocity_x as int, self.velocity_y as int)
    }

    /// The direction from the agent to `other`, in whole degrees.
    pub open spec fn bearing(self, other: Boid) -> int {
        direction_spec(other.vertice.x - self.vertice.x, other.vertice.y - self.vertice.y)
    }

    /// The square of the distance between the agent and `other`.
    pub open spec fn distance_squared(self, other: Boid) -> int {
        (self.vertice.x - other.vertice.x) * (self.vertice.x - other.vertice.x) + (self.vertice.y
            - other.vertice.y) * (self.vertice.y - other.vertice.y)
    }

    /// Whether a rule with the given radius and field of view counts `other`
    /// as a neighbour of the agent: it is not equal to the agent, not farther
    /// away than `radius` steps, and the direction to it lies in the field of
    /// view of `view` steps of a degree around the direction in which the
    /// agent moves.
    pub open spec fn notices(self, other: Boid, radius: int, view: int) -> bool {
        &&& other != self
        &&& radius >= 0
        &&& self.distance_squared(other) * (STEP * STEP) <= radius * radius
        &&& in_view(self.facing(), view, self.bearing(other))
    }

    /// What `measure` is of `other`, seen from the agent.
    pub open spec fn measured(self, other: Boid, measure: Measure) -> int {
        match measure {
            Measure::OffsetX => (self.vertice.x - other.vertice.x) * STEP,
            Measure::OffsetY => (self.vertice.y - other.vertice.y) * STEP,
            Measure::VelocityX => other.velocity_x as int,
            Measure::VelocityY => other.velocity_y as int,
            Measure::PositionX => other.vertice.x * STEP,
            Measure::PositionY => other.vertice.y * STEP,
        }
    }

    /// How many agents of `boids` the agent notices.
    pub open spec fn noticed(self, boids: Seq<Boid>, radius: int, view: int) -> int
        decreases boids.len(),
    {
        if boids.len() == 0 {
            0
        } else {
            self.noticed(boids.drop_last(), radius, view) + if self.notices(boids.last(), radius, view) {
                1int
            } else {
                0int
            }
        }
    }

    /// The sum of `measure` over the agents of `boids` that the agent
    /// notices.
    pub open spec fn total(self, boids: Seq<Boid>, radius: int, view: int, measure: Measure) -> int
        decreases boids.len(),
    {
        if boids.len() == 0 {
            0
        } else {
            self.total(boids.drop_last(), radius, view, measure) + if self.notices(
                boids.last(),
                radius,
                view,
            ) {
                self.measured(boids.last(), measure)
            } else {
                0
            }
        }
    }

    /// The agent after the rule of separation: its velocity moves away from
    /// the neighbours it notices within `safe_radius`, by `avoid_factor`
    /// thousandths of the sum of its offsets from them.
    pub open spec fn separated(self, boids: Seq<Boid>, avoid_factor: int, safe_radius: int, view_angle: int) -> Boid {
        Boid {
            velocity_x: nudge_spec(
                self.velocity_x as int,
                trunc_div(self.total(boids, safe_radius, view_angle, Measure::OffsetX) * avoid_factor, 1000),
            ) as i32,
            velocity_y: nudge_spec(
                self.velocity_y as int,
                trunc_div(self.total(boids, safe_radius, view_angle, Measure::OffsetY) * avoid_factor, 1000),
            ) as i32,
            ..self
        }
    }

    /// `factor` thousandths of the difference between the mean of a quantity,
    /// given by its sum over `count` neighbours, and the agent's `own` value
    /// of it, rounded toward zero.
    pub open spec fn blend(sum: int, count: int, own: int, factor: int) -> int {
        trunc_div((sum - own * count) * factor, count * 1000)
    }

    /// The agent after the rule of alignment: where it notices neighbours
    /// within `vision_radius`, its velocity moves toward the mean of theirs by
    /// `matching_factor` thousandths of the difference.
    pub open spec fn aligned(self, boids: Seq<Boid>, matching_factor: int, vision_radius: int, view_angle: int) -> Boid {
        let count = self.noticed(boids, vision_radius, view_angle);
        if count > 0 {
            Boid {
                velocity_x: nudge_spec(
                    self.velocity_x as int,
                    Self::blend(
                        self.total(boids, vision_radius, view_angle, Measure::VelocityX),
                        count,
                        self.velocity_x as int,
                        matching_factor,
                    ),
                ) as i32,
                velocity_y: nudge_spec(
                    self.velocity_y as int,
                    Self::blend(
                        self.total(boids, vision_radius, view_angle, Measure::VelocityY),
                        count,
                        self.velocity_y as int,
                        matching_factor,
                    ),
                ) as i32,
                ..self
            }
        } else {
            self
        }
    }

    /// The agent after the rule of cohesion: where it notices neighbours
    /// within `vision_radius`, its velocity moves toward the mean of their
    /// positions by `centering_factor` thousandths of the way there.
    pub open spec fn cohered(self, boids: Seq<Boid>, centering_factor: int, vision_radius: int, view_angle: int) -> Boid {
        let count = self.noticed(boids, vision_radius, view_angle);
        if count > 0 {
            Boid {
                velocity_x: nudge_spec(
                    self.velocity_x as int,
                    Self::blend(
                        self.total(boids, vision_radius, view_angle, Measure::PositionX),
                        count,
                        self.vertice.x * STEP,
                        centering_factor,
                    ),
                ) as i32,
                velocity_y: nudge_spec(
                    self.velocity_y as int,
                    Self::blend(
                        self.total(boids, vision_radius, view_angle, Measure::PositionY),
                        count,
                        self.vertice.y * STEP,
                        centering_factor,
                    ),
                ) as i32,
                ..self
            }
        } else {
            self
        }
    }

    /// The direction from `origin` to `other` in whole degrees from 0 to 359,
    /// anticlockwise from the positive `x` axis; 0 where the two coincide.
    pub fn angle(origin: &Vertice, other: &Vertice) -> (degrees: i32)
        ensures
            degrees == direction_spec(other.x - origin.x, other.y - origin.y),
            0 <= degrees < 360,
    {
        direction(other.x as i32 - origin.x as i32, other.y as i32 - origin.y as i32)
    }

    /// Tells whether the direction `object_angle`, in degrees, lies in the
    /// field of view that is `view_angle` steps of a degree wide and centred
    /// on `facing_angle`, in degrees.
    pub fn is_within_sight(facing_angle: i32, view_angle: i32, object_angle: i32) -> (seen: bool)
        ensures
            seen == in_view(facing_angle as int, view_angle as int, object_angle as int),
    {
        is_within_sight(facing_angle, view_angle, object_angle)
    }

    /// Tells whether the agent notices `other`: see [`Boid::notices`].
    fn sees(&self, other: &Boid, facing_angle: i32, radius: i32, view_angle: i32) -> (seen: bool)
        requires
            facing_angle == self.facing(),
        ensures
            seen == self.notices(*other, radius as int, view_angle as int),
    {
        if *self == *other || radius < 0 {
            return false;
        }
        let dx: i128 = self.vertice.x as i128 - other.vertice.x as i128;
        let dy: i128 = self.vertice.y as i128 - other.vertice.y as i128;
        let reach: i128 = radius as i128;
        assert(0 <= dx * dx <= 0x1_0000 * 0x1_0000) by (nonlinear_arith)
            requires
                -0x1_0000 <= dx <= 0x1_0000,
        ;
        assert(0 <= dy * dy <= 0x1_0000 * 0x1_0000) by (nonlinear_arith)
            requires
                -0x1_0000 <= dy <= 0x1_0000,
        ;
        assert(0 <= reach * reach <= 0x8000_0000 * 0x8000_0000) by (nonlinear_arith)
            requires
                0 <= reach <= 0x8000_0000,
        ;
        if (dx * dx + dy * dy) * 0x1_0000_0000 > reach * reach {
            return false;
        }
        let object_angle = Self::angle(&self.vertice, &other.vertice);
        Self::is_within_sight(facing_angle, view_angle, object_angle)
    }

    /// What `measure` is of `other`, seen from the agent.
    fn measure(&self, other: &Boid, measure: Measure) -> (value: i128)
        ensures
            value == self.measured(*other, measure),
            -0x1_0000_0000 <= value <= 0x1_0000_0000,
            !(measure is OffsetX || measure is OffsetY) ==> -0x8000_0000 <= value <= 0x8000_0000,
    {
        match measure {
            Measure::OffsetX => (self.vertice.x as i128 - other.vertice.x as i128) * 65536,
            Measure::OffsetY => (self.vertice.y as i128 - other.vertice.y as i128) * 65536,
            Measure::VelocityX => other.velocity_x as i128,
            Measure::VelocityY => other.velocity_y as i128,
            Measure::PositionX => other.vertice.x as i128 * 65536,
            Measure::PositionY => other.vertice.y as i128 * 65536,
        }
    }

    /// Adds up two measures over the agents of `boids` that the agent
    /// notices, and counts them.
    fn survey(&self, boids: &Vec<Boid>, radius: i32, view_angle: i32, first: Measure, second: Measure) -> (sums: (i128, i128, usize))
        ensures
            sums.0 == self.total(boids@, radius as int, view_angle as int, first),
            sums.1 == self.total(boids@, radius as int, view_angle as int, second),
            sums.2 == self.noticed(boids@, radius as int, view_angle as int),
            sums.2 <= boids.len(),
            -0x1_0000_0000 * boids.len() <= sums.0 <= 0x1_0000_0000 * boids.len(),
            -0x1_0000_0000 * boids.len() <= sums.1 <= 0x1_0000_0000 * boids.len(),
            !(first is OffsetX || first is OffsetY) ==> -0x8000_0000 * boids.len() <= sums.0
                <= 0x8000_0000 * boids.len(),
            !(second is OffsetX || second is OffsetY) ==> -0x8000_0000 * boids.len() <= sums.1
                <= 0x8000_0000 * boids.len(),
    {
        let facing_angle = direction(self.velocity_x, self.velocity_y);
        let mut first_sum: i128 = 0;
        let mut second_sum: i128 = 0;
        let mut count: usize = 0;
        let mut i: usize = 0;
        while i < boids.len()
            invariant
                i <= boids.len(),
                facing_angle == self.facing(),
                first_sum == self.total(boids@.take(i as int), radius as int, view_angle as int, first),
                second_sum == self.total(boids@.take(i as int), radius as int, view_angle as int, second),
                count == self.noticed(boids@.take(i as int), radius as int, view_angle as int),
                count <= i,
                -0x1_0000_0000 * i <= first_sum <= 0x1_0000_0000 * i,
                -0x1_0000_0000 * i <= second_sum <= 0x1_0000_0000 * i,
                !(first is OffsetX || first is OffsetY) ==> -0x8000_0000 * i <= first_sum <= 0x8000_0000
                    * i,
                !(second is OffsetX || second is OffsetY) ==> -0x8000_0000 * i <= second_sum
                    <= 0x8000_0000 * i,
            decreases boids.len() - i,
        {
            proof {
                assert(boids@.take(i + 1).drop_last() == boids@.take(i as int));
            }
            if self.sees(&boids[i], facing_angle, radius, view_angle) {
                first_sum += self.measure(&boids[i], first);
                second_sum += self.measure(&boids[i], second);
                count += 1;
            }
            i += 1;
        }
        assert(boids@.take(i as int) == boids@);
        (first_sum, second_sum, count)
    }

    /// The rule of separation: the velocity moves away from the neighbours
    /// that the agent notices within `safe_radius`, by `avoid_factor`
    /// thousandths of the sum of its offsets from them.
    pub fn separate(&mut self, boids: &Vec<Boid>, avoid_factor: i32, safe_radius: i32, view_angle: i32)
        ensures
            *final(self) == old(self).separated(
                boids@,
                avoid_factor as int,
                safe_radius as int,
                view_angle as int,
            ),
    {
        let (close_dx, close_dy, _) = self.survey(
            boids,
            safe_radius,
            view_angle,
            Measure::OffsetX,
            Measure::OffsetY,
        );
        self.velocity_x = nudge(self.velocity_x, portion(close_dx, avoid_factor, THOUSAND));
        self.velocity_y = nudge(self.velocity_y, portion(close_dy, avoid_factor, THOUSAND));
    }

    /// `factor` thousandths of the difference between a mean, given by `sum`
    /// and `count`, and the agent's `own` value, rounded toward zero.
    fn blended(sum: i128, count: usize, own: i64, factor: i32, len: usize) -> (step: i128)
        requires
            0 < count <= len,
            -0x8000_0000 * len <= sum <= 0x8000_0000 * len,
            -0x8000_0000 <= own <= 0x8000_0000,
        ensures
            step == Self::blend(sum as int, count as int, own as int, factor as int),
    {
        let n: i128 = count as i128;
        let v: i128 = own as i128;
        assert(-0x8000_0000 * n <= v * n <= 0x8000_0000 * n) by (nonlinear_arith)
            requires
                -0x8000_0000 <= v <= 0x8000_0000,
                0 <= n,
        ;
        let difference: i128 = sum - v * n;
        portion(difference, factor, count as u128 * THOUSAND)
    }

    /// The rule of alignment: where the agent notices neighbours within
    /// `vision_radius`, its velocity moves toward the mean of theirs by
    /// `matching_factor` thousandths of the difference.
    pub fn align(&mut self, boids: &Vec<Boid>, matching_factor: i32, vision_radius: i32, view_angle: i32)
        ensures
            *final(self) == old(self).aligned(
                boids@,
                matching_factor as int,
                vision_radius as int,
                view_angle as int,
            ),
    {
        let (vx_sum, vy_sum, neighboring_boids) = self.survey(
            boids,
            vision_radius,
            view_angle,
            Measure::VelocityX,
            Measure::VelocityY,
        );
        if neighboring_boids > 0 {
            let step_x = Self::blended(
                vx_sum,
                neighboring_boids,
                self.velocity_x as i64,
                matching_factor,
                boids.len(),
            );
            let step_y = Self::blended(
                vy_sum,
                neighboring_boids,
                self.velocity_y as i64,
                matching_factor,
                boids.len(),
            );
            self.velocity_x = nudge(self.velocity_x, step_x);
            self.velocity_y = nudge(self.velocity_y, step_y);
        }
    }

    /// The rule of cohesion: where the agent notices neighbours within
    /// `vision_radius`, its velocity moves toward the mean of their positions
    /// by `centering_factor` thousandths of the way there.
    pub fn cohesion(&mut self, boids: &Vec<Boid>, centering_factor: i32, vision_radius: i32, view_angle: i32)
        ensures
            *final(self) == old(self).cohered(
                boids@,
                centering_factor as int,
                vision_radius as int,
                view_angle as int,
            ),
    {
        let (x_sum, y_sum, neighboring_boids) = self.survey(
            boids,
            vision_radius,
            view_angle,
            Measure::PositionX,
            Measure::PositionY,
        );
        if neighboring_boids > 0 {
            let step_x = Self::blended(
                x_sum,
                neighboring_boids,
                self.vertice.x as i64 * 65536,
                centering_factor,
                boids.len(),
            );
            let step_y = Self::blended(
                y_sum,
                neighboring_boids,
                self.vertice.y as i64 * 65536,
                centering_factor,
                boids.len(),
            );
            self.velocity_x = nudge(self.velocity_x, step_x);
            self.velocity_y = nudge(self.velocity_y, step_y);
        }
    }

    /// The rule of fear: separation from `predators`, all around the agent,
    /// within `fear_radius` and by `fear_factor` thousandths.
    pub fn fear(&mut self, predators: &Vec<Boid>, fear_factor: i32, fear_radius: i32)
        ensures
            *final(self) == old(self).separated(
                predators@,
                fear_factor as int,
                fear_radius as int,
                360 * STEP,
            ),
    {
        self.separate(predators, fear_factor, fear_radius, 360 * 65536);
    }

    /// The agent after it was turned from the edges of a world of the given
    /// size: within `margin` of an edge its velocity moves by `turn_factor`
    /// grid units per tick away from that edge, first along `x`, left edge
    /// before right, then along `y`, lower edge before upper.
    pub open spec fn turned(self, turn_factor: int, margin: int, width: int, height: int) -> Boid {
        let x1 = if self.vertice.x < margin {
            nudge_spec(self.velocity_x as int, turn_factor * STEP)
        } else {
            self.velocity_x as int
        };
        let x2 = if self.vertice.x > width - margin {
            nudge_spec(x1, -turn_factor * STEP)
        } else {
            x1
        };
        let y1 = if self.vertice.y < margin {
            nudge_spec(self.velocity_y as int, turn_factor * STEP)
        } else {
            self.velocity_y as int
        };
        let y2 = if self.vertice.y > height - margin {
            nudge_spec(y1, -turn_factor * STEP)
        } else {
            y1
        };
        Boid { velocity_x: x2 as i32, velocity_y: y2 as i32, ..self }
    }

    /// Turns the agent from the edges of a world of the given size: see
    /// [`Boid::turned`].
    pub fn avoid_border(&mut self, turn_factor: i16, margin: u16, width: u16, height: u16)
        ensures
            *final(self) == old(self).turned(turn_factor as int, margin as int, width as int, height as int),
    {
        let x: i32 = self.vertice.x as i32;
        let y: i32 = self.vertice.y as i32;
        let turn: i128 = turn_factor as i128 * 65536;
        if x < margin as i32 {
            self.velocity_x = nudge(self.velocity_x, turn);
        }
        if x > width as i32 - margin as i32 {
            self.velocity_x = nudge(self.velocity_x, -turn);
        }
        if y < margin as i32 {
            self.velocity_y = nudge(self.velocity_y, turn);
        }
        if y > height as i32 - margin as i32 {
            self.velocity_y = nudge(self.velocity_y, -turn);
        }
    }

    /// The square of the agent's speed, in steps per tick.
    pub open spec fn speed_squared(self) -> int {
        self.velocity_x * self.velocity_x + self.velocity_y * self.velocity_y
    }

    /// Whether the agent is faster than `max_speed` grid units per tick.
    pub open spec fn exceeds(self, max_speed: int) -> bool {
        max_speed < 0 || self.speed_squared() > (max_speed * STEP) * (max_speed * STEP)
    }

    /// Whether the agent is slower than `min_speed` grid units per tick.
    pub open spec fn lags(self, min_speed: int) -> bool {
        min_speed > 0 && self.speed_squared() < (min_speed * STEP) * (min_speed * STEP)
    }

    /// The component `v` of a velocity whose speed has the square
    /// `speed_squared`, after the velocity was shrunk to the speed `target`,
    /// all in steps: `v * target` divided by the speed, rounded toward zero to
    /// a step, and brought into the range of `i32`.
    pub open spec fn scaled(v: int, target: int, speed_squared: int) -> int {
        let product = v * target;
        let size = floor_sqrt((product * product) / speed_squared);
        clamp_i32_spec(if product < 0 { -size } else { size })
    }

    /// The component `v` of a velocity whose speed has the square
    /// `speed_squared`, after the velocity was stretched to the speed
    /// `target`, all in steps: `v * target` divided by the speed, rounded away
    /// from zero to a step, and brought into the range of `i32`.
    pub open spec fn scaled_up(v: int, target: int, speed_squared: int) -> int {
        let product = v * target;
        let size = ceil_sqrt(ceil_div(product * product, speed_squared));
        clamp_i32_spec(if product < 0 { -size } else { size })
    }

    /// The agent with its velocity shrunk from the speed of the square
    /// `speed_squared` to the speed `target`, in steps: no component grows.
    pub open spec fn rescaled(self, target: int, speed_squared: int) -> Boid {
        Boid {
            velocity_x: Self::scaled(self.velocity_x as int, target, speed_squared) as i32,
            velocity_y: Self::scaled(self.velocity_y as int, target, speed_squared) as i32,
            ..self
        }
    }

    /// The agent with its velocity stretched from the speed of the square
    /// `speed_squared` to the speed `target`, in steps: no component shrinks.
    pub open spec fn hurried(self, target: int, speed_squared: int) -> Boid {
        Boid {
            velocity_x: Self::scaled_up(self.velocity_x as int, target, speed_squared) as i32,
            velocity_y: Self::scaled_up(self.velocity_y as int, target, speed_squared) as i32,
            ..self
        }
    }

    /// A moving agent after the limit on its speed, with the limits in grid
    /// units per tick. Where it is faster than `max_speed` its velocity is
    /// shrunk to `max_speed`, the components rounded toward zero to a step, so
    /// that it is no faster afterwards. Then, where it was slower than
    /// `min_speed`, its velocity is stretched to `min_speed`, the components
    /// rounded away from zero to a step, so that it is no slower afterwards.
    /// Both times the direction stays.
    pub open spec fn limited(self, max_speed: int, min_speed: int) -> Boid {
        let slowed = if self.exceeds(max_speed) {
            self.rescaled(max_speed * STEP, self.speed_squared())
        } else {
            self
        };
        if self.lags(min_speed) {
            slowed.hurried(min_speed * STEP, self.speed_squared())
        } else {
            slowed
        }
    }

    /// An agent that stood still, set moving again on the circle of radius
    /// `min_speed` grid units per tick: `pick`, in steps, is its velocity
    /// along `x`, and along `y` it gets what is left of the radius, rounded up
    /// to a step, upward or downward.
    pub open spec fn restarted(self, min_speed: int, pick: int, upward: bool) -> Boid {
        let rest = ceil_sqrt((min_speed * STEP) * (min_speed * STEP) - pick * pick);
        Boid {
            velocity_x: clamp_i32_spec(pick) as i32,
            velocity_y: clamp_i32_spec(if upward { rest } else { -rest }) as i32,
            ..self
        }
    }

    /// Whether the agent's speed is `speed` grid units per tick to within two
    /// steps, of which `STEP` make a grid unit.
    pub open spec fn near(self, speed: int) -> bool {
        let target = speed * STEP;
        &&& self.speed_squared() <= (target + 2) * (target + 2)
        &&& target == 0 || (target - 2) * (target - 2) < self.speed_squared()
    }

    /// Whether the agent's speed lies between `min_speed` and `max_speed`
    /// grid units per tick. Where the two limits are one it can only be said
    /// to the resolution of the fixed point: the speed is then that one limit
    /// to within two steps.
    pub open spec fn between(self, max_speed: int, min_speed: int) -> bool {
        if min_speed < max_speed {
            (min_speed * STEP) * (min_speed * STEP) <= self.speed_squared() <= (max_speed * STEP) * (
            max_speed * STEP)
        } else {
            self.near(min_speed)
        }
    }

    /// Whether `after` is what the limit on the speed can make of `before`:
    /// a moving agent is limited, see [`Boid::limited`], and one that stands
    /// still is set moving again with a velocity along `x` of `min_speed`
    /// grid units per tick at most, upward or downward: see
    /// [`Boid::restarted`].
    pub open spec fn limit_outcome(before: Boid, after: Boid, max_speed: int, min_speed: int) -> bool {
        if before.speed_squared() != 0 {
            after == before.limited(max_speed, min_speed)
        } else {
            exists|pick: int, upward: bool|
                -abs(min_speed * STEP) <= pick <= abs(min_speed * STEP) && after
                    == #[trigger] before.restarted(min_speed, pick, upward)
        }
    }

    /// Whether `after` is what the noise can make of `before`: nothing
    /// where it is off, and else a move of less than two grid units per tick
    /// along both axes, in any direction along each: see
    /// [`Boid::jittered`].
    pub open spec fn noise_outcome(before: Boid, after: Boid, on: bool) -> bool {
        if on {
            exists|size: int, right: bool, upward: bool|
                0 <= size < 2 * STEP && after == #[trigger] before.jittered(size, right, upward)
        } else {
            after == before
        }
    }

    /// Shrinks one component of a velocity: see [`Boid::scaled`].
    fn scale(v: i32, target: i64, speed_squared: u64) -> (r: i32)
        requires
            speed_squared > 0,
            -0x8000_0000 <= target <= 0x8000_0000,
        ensures
            r == Self::scaled(v as int, target as int, speed_squared as int),
    {
        let wide: i128 = v as i128;
        let to: i128 = target as i128;
        assert(-0x8000_0000 * 0x8000_0000 <= wide * to <= 0x8000_0000 * 0x8000_0000) by (nonlinear_arith)
            requires
                -0x8000_0000 <= wide <= 0x8000_0000,
                -0x8000_0000 <= to <= 0x8000_0000,
        ;
        let product: i128 = wide * to;
        let size: u128 = if product < 0 {
            (-product) as u128
        } else {
            product as u128
        };
        assert(size * size == product * product && size * size <= 0x4000_0000_0000_0000
            * 0x4000_0000_0000_0000) by (nonlinear_arith)
            requires
                size == product || size == -product,
                0 <= size <= 0x4000_0000_0000_0000,
        ;
        let square: u128 = size * size;
        let root: i128 = isqrt(square / speed_squared as u128) as i128;
        if product < 0 {
            clamp_i32(-root)
        } else {
            clamp_i32(root)
        }
    }

    /// Stretches one component of a velocity: see [`Boid::scaled_up`].
    fn scale_up(v: i32, target: i64, speed_squared: u64) -> (r: i32)
        requires
            speed_squared > 0,
            -0x8000_0000 <= target <= 0x8000_0000,
        ensures
            r == Self::scaled_up(v as int, target as int, speed_squared as int),
    {
        let wide: i128 = v as i128;
        let to: i128 = target as i128;
        assert(-0x8000_0000 * 0x8000_0000 <= wide * to <= 0x8000_0000 * 0x8000_0000) by (nonlinear_arith)
            requires
                -0x8000_0000 <= wide <= 0x8000_0000,
                -0x8000_0000 <= to <= 0x8000_0000,
        ;
        let product: i128 = wide * to;
        let size: u128 = if product < 0 {
            (-product) as u128
        } else {
            product as u128
        };
        assert(size * size == product * product && size * size <= 0x4000_0000_0000_0000
            * 0x4000_0000_0000_0000) by (nonlinear_arith)
            requires
                size == product || size == -product,
                0 <= size <= 0x4000_0000_0000_0000,
        ;
        let square: u128 = size * size;
        let root: i128 = isqrt_up((square + speed_squared as u128 - 1) / speed_squared as u128) as i128;
        if product < 0 {
            clamp_i32(-root)
        } else {
            clamp_i32(root)
        }
    }

    /// The square of the agent's speed.
    fn speed_square(&self) -> (s: u64)
        ensures
            s == self.speed_squared(),
            s <= 0x8000_0000_0000_0000,
    {
        let x: i128 = self.velocity_x as i128;
        let y: i128 = self.velocity_y as i128;
        assert(0 <= x * x <= 0x8000_0000 * 0x8000_0000) by (nonlinear_arith)
            requires
                -0x8000_0000 <= x <= 0x8000_0000,
        ;
        assert(0 <= y * y <= 0x8000_0000 * 0x8000_0000) by (nonlinear_arith)
            requires
                -0x8000_0000 <= y <= 0x8000_0000,
        ;
        (x * x + y * y) as u64
    }

    /// Sets an agent that stands still moving again: see
    /// [`Boid::restarted`]. Afterwards its speed is `min_speed` grid units
    /// per tick or up to one step more.
    pub fn restart(&mut self, min_speed: i16, pick: i32, upward: bool)
        requires
            -abs(min_speed * STEP) <= pick <= abs(min_speed * STEP),
        ensures
            *final(self) == old(self).restarted(min_speed as int, pick as int, upward),
            min_speed >= 0 ==> (min_speed * STEP) * (min_speed * STEP) <= final(self).speed_squared() < (
            min_speed * STEP + 1) * (min_speed * STEP + 1),
    {
        let radius: i128 = min_speed as i128 * 65536;
        let across: i128 = pick as i128;
        assert(0 <= radius * radius <= 0x8000_0000 * 0x8000_0000) by (nonlinear_arith)
            requires
                -0x8000_0000 <= radius <= 0x8000_0000,
        ;
        assert(0 <= across * across <= radius * radius) by (nonlinear_arith)
            requires
                -abs(radius as int) <= across <= abs(radius as int),
        ;
        proof {
            lemma_restart_between(*self, min_speed as int, min_speed as int, pick as int, upward);
        }
        let rest: i128 = isqrt_up((radius * radius - across * across) as u128) as i128;
        self.velocity_x = clamp_i32(across);
        self.velocity_y = if upward {
            clamp_i32(rest)
        } else {
            clamp_i32(-rest)
        };
    }

    /// Limits the speed, with the limits in grid units per tick. A moving
    /// agent is slowed to `max_speed` or hurried to `min_speed`: see
    /// [`Boid::limited`]. An agent that stands still is set moving on the
    /// circle of radius `min_speed`, at random: see [`Boid::restarted`].
    /// Afterwards the speed lies between the limits: see
    /// [`Boid::between`].
    pub fn speed_limit(&mut self, max_speed: i16, min_speed: i16)
        ensures
            Self::limit_outcome(*old(self), *final(self), max_speed as int, min_speed as int),
            0 <= min_speed <= max_speed ==> final(self).between(max_speed as int, min_speed as int),
    {
        let square = self.speed_square();
        let max: i64 = max_speed as i64 * 65536;
        let min: i64 = min_speed as i64 * 65536;
        if square == 0 {
            let reach: i64 = if min < 0 {
                -min
            } else {
                min
            };
            let bound: i32 = if reach > 2147483647 {
                2147483647
            } else {
                reach as i32
            };
            let pick = random_between(-bound, bound);
            let upward = random_between(0, 1) == 1;
            proof {
                lemma_restart_between(*self, max_speed as int, min_speed as int, pick as int, upward);
            }
            self.restart(min_speed, pick, upward);
            return ;
        }
        proof {
            lemma_limit_between(*self, max_speed as int, min_speed as int);
        }
        assert(0 <= max * max <= 0x8000_0000 * 0x8000_0000) by (nonlinear_arith)
            requires
                -0x8000_0000 <= max <= 0x8000_0000,
        ;
        assert(0 <= min * min <= 0x8000_0000 * 0x8000_0000) by (nonlinear_arith)
            requires
                -0x8000_0000 <= min <= 0x8000_0000,
        ;
        if max < 0 || square > (max * max) as u64 {
            self.velocity_x = Self::scale(self.velocity_x, max, square);
            self.velocity_y = Self::scale(self.velocity_y, max, square);
        }
        if min > 0 && square < (min * min) as u64 {
            self.velocity_x = Self::scale_up(self.velocity_x, min, square);
            self.velocity_y = Self::scale_up(self.velocity_y, min, square);
        }
    }

    /// The agent with its velocity moved by `size` steps along both axes: to
    /// the right or to the left, and upward or downward.
    pub open spec fn jittered(self, size: int, right: bool, upward: bool) -> Boid {
        Boid {
            velocity_x: nudge_spec(self.velocity_x as int, if right { size } else { -size }) as i32,
            velocity_y: nudge_spec(self.velocity_y as int, if upward { size } else { -size }) as i32,
            ..self
        }
    }

    /// Moves the velocity by `size` steps along both axes: see
    /// [`Boid::jittered`].
    pub fn jitter(&mut self, size: i32, right: bool, upward: bool)
        ensures
            *final(self) == old(self).jittered(size as int, right, upward),
    {
        let by: i128 = size as i128;
        self.velocity_x = nudge(self.velocity_x, if right { by } else { -by });
        self.velocity_y = nudge(self.velocity_y, if upward { by } else { -by });
    }

    /// Where `on` is set, moves the velocity by a random size of less than
    /// two grid units per tick, the same along both axes, in a random
    /// direction along each.
    pub fn noise(&mut self, on: bool)
        ensures
            Self::noise_outcome(*old(self), *final(self), on),
    {
        if !on {
            return ;
        }
        let val = random_between(0, 2 * 65536 - 1);
        let right = random_ratio(1, 2);
        let upward = random_ratio(1, 2);
        self.jitter(val, right, upward);
    }

    /// Where a speed with the square `speed_squared`, in steps, lies between
    /// `min_speed` and `max_speed` grid units per tick, on a scale from 0 to
    /// 255, rounded down: 0 at `min_speed` and below, 255 at `max_speed`.
    /// Where the two limits are equal it is 0, and where they are crossed
    /// 255.
    pub open spec fn speed_level(speed_squared: int, max_speed: int, min_speed: int) -> int {
        if max_speed > min_speed {
            let over = floor_sqrt(65025 * speed_squared) - 255 * (min_speed * STEP);
            if over <= 0 {
                0
            } else {
                over / ((max_speed - min_speed) * STEP)
            }
        } else if max_speed == min_speed {
            0
        } else {
            255
        }
    }

    /// The agent coloured by its speed: red falls and green rises with
    /// [`Boid::speed_level`]. An agent faster than `max_speed` keeps its
    /// colour.
    pub open spec fn recolored(self, max_speed: int, min_speed: int) -> Boid {
        if self.exceeds(max_speed) {
            self
        } else {
            let level = Self::speed_level(self.speed_squared(), max_speed, min_speed);
            Boid { red: (255 - level) as u8, green: level as u8, ..self }
        }
    }

    /// Colours the agent by its speed: see [`Boid::recolored`].
    pub fn update_color(&mut self, max_speed: i16, min_speed: i16)
        ensures
            *final(self) == old(self).recolored(max_speed as int, min_speed as int),
            old(self).exceeds(max_speed as int) || final(self).red + final(self).green == 255,
    {
        let square = self.speed_square();
        let max: i128 = max_speed as i128 * 65536;
        let min: i128 = min_speed as i128 * 65536;
        assert(0 <= max * max <= 0x8000_0000 * 0x8000_0000) by (nonlinear_arith)
            requires
                -0x8000_0000 <= max <= 0x8000_0000,
        ;
        if max < 0 || square as i128 > max * max {
            return ;
        }
        let level: i128 = if max > min {
            let root: i128 = isqrt(65025 * square as u128) as i128;
            proof {
                assert(is_floor_sqrt(65025 * (max * max), 255 * max)) by (nonlinear_arith)
                    requires
                        max >= 0,
                ;
                lemma_floor_sqrt_monotone(65025 * square, 65025 * (max * max), root as int, 255 * max);
            }
            let over: i128 = root - 255 * min;
            if over <= 0 {
                0
            } else {
                let span: i128 = max - min;
                assert(over / span <= 255) by (nonlinear_arith)
                    requires
                        0 < over <= 255 * span,
                        span > 0,
                ;
                over / span
            }
        } else if max == min {
            0
        } else {
            255
        };
        self.red = (255 - level) as u8;
        self.green = level as u8;
    }

    /// Where a coordinate lies after a tick at `velocity` steps per tick in a
    /// world that reaches from 0 to `limit` along its axis: the grid position
    /// and the steps beyond it. The velocity is added to the position, taken
    /// with its `fraction`, to the step. A move below 0 ends at `limit`, a
    /// move by a grid unit or more beyond `limit` ends at 0.
    pub open spec fn wrapped(position: int, fraction: int, velocity: int, limit: int) -> (int, int) {
        let exact = position * STEP + fraction + velocity;
        if exact < 0 {
            (clamp_i16_spec(limit), 0)
        } else if exact / (STEP as int) > limit {
            (0, 0)
        } else {
            (clamp_i16_spec(exact / (STEP as int)), exact % (STEP as int))
        }
    }

    /// The agent after one tick at its velocity in a world of the given
    /// size, which it leaves on one side to enter on the other.
    pub open spec fn moved(self, width: int, height: int) -> Boid {
        let x = Self::wrapped(
            self.vertice.x as int,
            self.fraction_x as int,
            self.velocity_x as int,
            width,
        );
        let y = Self::wrapped(
            self.vertice.y as int,
            self.fraction_y as int,
            self.velocity_y as int,
            height,
        );
        Boid {
            vertice: Vertice { x: x.0 as i16, y: y.0 as i16 },
            fraction_x: x.1 as u16,
            fraction_y: y.1 as u16,
            ..self
        }
    }

    /// Takes one coordinate a tick further: see [`Boid::wrapped`].
    fn wrap(position: i16, fraction: u16, velocity: i32, limit: u16) -> (r: (i16, u16))
        ensures
            r.0 == Self::wrapped(position as int, fraction as int, velocity as int, limit as int).0,
            r.1 == Self::wrapped(position as int, fraction as int, velocity as int, limit as int).1,
            0 <= r.0 <= limit,
    {
        let exact: i64 = position as i64 * 65536 + fraction as i64 + velocity as i64;
        if exact < 0 {
            (clamp_i16(limit as i128), 0)
        } else if exact / 65536 > limit as i64 {
            (0, 0)
        } else {
            (clamp_i16((exact / 65536) as i128), (exact % 65536) as u16)
        }
    }

    /// Moves the agent by one tick at its velocity in a world of the given
    /// size: see [`Boid::moved`]. Afterwards it is inside that world.
    pub fn update(&mut self, width: u16, height: u16)
        ensures
            *final(self) == old(self).moved(width as int, height as int),
            0 <= final(self).vertice.x <= width,
            0 <= final(self).vertice.y <= height,
    {
        let (x, fraction_x) = Self::wrap(self.vertice.x, self.fraction_x, self.velocity_x, width);
        let (y, fraction_y) = Self::wrap(self.vertice.y, self.fraction_y, self.velocity_y, height);
        self.vertice.x = x;
        self.vertice.y = y;
        self.fraction_x = fraction_x;
        self.fraction_y = fraction_y;
    }

    /// The pixels of the agent's body: a square of `size` pixels a side with
    /// the agent's position at its lower left, row after row.
    pub open spec fn body_points(self) -> Seq<(int, int)> {
        if self.size <= 0 {
            Seq::empty()
        } else {
            Seq::new(
                (self.size * self.size) as nat,
                |k: int| (self.vertice.x + k % (self.size as int), self.vertice.y + k / (self.size as int)),
            )
        }
    }

    /// The point one tick of the velocity from the agent's position, by the
    /// whole grid units of the velocity, brought into the range of the grid.
    pub open spec fn heading(self) -> Vertice {
        Vertice {
            x: clamp_i16_spec(self.vertice.x + trunc_div(self.velocity_x as int, STEP as int)) as i16,
            y: clamp_i16_spec(self.vertice.y + trunc_div(self.velocity_y as int, STEP as int)) as i16,
        }
    }

    /// The frame after a circle of the given radius and colour was drawn
    /// around the agent.
    pub open spec fn circled(self, frame: Seq<u8>, width: int, height: int, radius: int, color: Color) -> Seq<u8> {
        (Circle { x: self.vertice.x as i32, y: self.vertice.y as i32, radius: radius as i32, color }).drawn(
            frame,
            width,
            height,
        )
    }

    /// The frame after the agent was drawn: the circles of its safe radius
    /// in red and of its vision radius in blue, both in whole grid units
    /// rounded toward zero, and the line of its next tick, each where `option`
    /// asks for it, and then its body in its colour.
    pub open spec fn drawn(self, frame: Seq<u8>, width: int, height: int, option: WorldOption) -> Seq<u8> {
        let first = if option.show_safe_radius {
            self.circled(frame, width, height, trunc_div(option.safe_radius as int, STEP as int), Color::Red)
        } else {
            frame
        };
        let second = if option.show_vision_radius {
            self.circled(
                first,
                width,
                height,
                trunc_div(option.boid_vision_radius as int, STEP as int),
                Color::Blue,
            )
        } else {
            first
        };
        let third = if option.show_facing_direction_with_speed {
            line_drawn(second, self.vertice, self.heading(), width, height)
        } else {
            second
        };
        painted_all(third, self.body_points(), width, height, self.color_spec())
    }

    /// Draws a circle around the agent.
    pub fn draw_circle(&self, frame: &mut [u8], width: u16, height: u16, radius: i32, color: Color)
        ensures
            final(frame)@ == self.circled(old(frame)@, width as int, height as int, radius as int, color),
    {
        let circle = Circle::new(self.vertice.x as i32, self.vertice.y as i32, radius, color);
        circle.draw(frame, width, height);
    }

    /// Draws the line from the agent to where its next tick takes it.
    pub fn draw_facing_direction_with_speed(&self, frame: &mut [u8], width: u16, height: u16)
        ensures
            final(frame)@ == line_drawn(
                old(frame)@,
                self.vertice,
                self.heading(),
                width as int,
                height as int,
            ),
    {
        let mut end = Vertice::new();
        end.x = clamp_i16(self.vertice.x as i128 + div_toward_zero(self.velocity_x as i128, 65536));
        end.y = clamp_i16(self.vertice.y as i128 + div_toward_zero(self.velocity_y as i128, 65536));
        draw_line(&self.vertice, &end, frame, width, height);
    }

    /// Draws the agent: see [`Boid::drawn`].
    pub fn draw_with_option(&self, frame: &mut [u8], width: u16, height: u16, world_option: &WorldOption)
        ensures
            final(frame)@ == self.drawn(old(frame)@, width as int, height as int, *world_option),
    {
        if world_option.show_safe_radius {
            let radius = div_toward_zero(world_option.safe_radius as i128, 65536) as i32;
            self.draw_circle(frame, width, height, radius, Color::Red);
        }
        if world_option.show_vision_radius {
            let radius = div_toward_zero(world_option.boid_vision_radius as i128, 65536) as i32;
            self.draw_circle(frame, width, height, radius, Color::Blue);
        }
        if world_option.show_facing_direction_with_speed {
            self.draw_facing_direction_with_speed(frame, width, height);
        }
        if self.size <= 0 {
            return ;
        }
        let ghost before = frame@;
        let ghost points = self.body_points();
        let color = self.color();
        let size: i32 = self.size as i32;
        assert(0 < size * size <= 0x8000 * 0x8000) by (nonlinear_arith)
            requires
                0 < size <= 0x8000,
        ;
        let count: i32 = size * size;
        let mut k: i32 = 0;
        while k < count
            invariant
                0 <= k <= count,
                size == self.size,
                size > 0,
                count == size * size,
                points == self.body_points(),
                color@ == self.color_spec(),
                frame@ == painted_all(before, points.take(k as int), width as int, height as int, color@),
            decreases count - k,
        {
            let i: i32 = k / size;
            let j: i32 = k % size;
            let x: i32 = self.vertice.x as i32 + j;
            assert(i <= 0x8000) by (nonlinear_arith)
                requires
                    i == k / size,
                    0 <= k < size * size,
                    0 < size <= 0x8000,
            ;
            let y: i32 = self.vertice.y as i32 + i;
            proof {
                assert(points.take(k + 1).drop_last() == points.take(k as int));
                assert(points.take(k + 1).last() == (x as int, y as int));
            }
            if x < 0 || y < 0 || x >= width as i32 || y >= height as i32 {
                k += 1;
                continue ;
            }
            change_pixel(frame, x as usize, y as usize, width, height, color);
            k += 1;
        }
        assert(points.take(k as int) == points);
    }
}

/// The whole part of `v * target` divided by the root of `s`: its square
/// times `s` is at most the square of `v * target`, which the square of the
/// next whole number times `s` exceeds.
pub proof fn lemma_scaled_bounds(v: int, target: int, s: int)
    requires
        s > 0,
        0 <= target <= 0x7FFF_FFFF,
        v * v <= s,
    ensures
        abs(Boid::scaled(v, target, s)) <= target,
        Boid::scaled(v, target, s) * Boid::scaled(v, target, s) * s <= (v * v) * (target * target),
        (abs(Boid::scaled(v, target, s)) + 1) * (abs(Boid::scaled(v, target, s)) + 1) * s > (v * v) * (
        target * target),
{
    let product = v * target;
    let square = product * product;
    let quotient = square / s;
    let size = floor_sqrt(quotient);
    assert(square >= 0) by (nonlinear_arith)
        requires
            square == product * product,
    ;
    assert(square == (v * v) * (target * target)) by (nonlinear_arith)
        requires
            square == product * product,
            product == v * target,
    ;
    assert(quotient >= 0 && quotient * s <= square < (quotient + 1) * s) by (nonlinear_arith)
        requires
            quotient == square / s,
            s > 0,
            square >= 0,
    ;
    lemma_floor_sqrt_exists(quotient);
    assert(is_floor_sqrt(quotient, size));
    assert(size * size * s <= square) by (nonlinear_arith)
        requires
            size * size <= quotient,
            quotient * s <= square,
            s > 0,
    ;
    assert((size + 1) * (size + 1) * s > square) by (nonlinear_arith)
        requires
            (size + 1) * (size + 1) >= quotient + 1,
            (quotient + 1) * s > square,
            s > 0,
    ;
    assert(size <= target) by {
        if size > target {
            lemma_square_monotone(target + 1, size);
            assert(v * v >= 0) by (nonlinear_arith);
            assert(square <= s * (target * target)) by (nonlinear_arith)
                requires
                    square == (v * v) * (target * target),
                    0 <= v * v <= s,
            ;
            assert(size * size * s > s * (target * target)) by (nonlinear_arith)
                requires
                    size * size >= (target + 1) * (target + 1),
                    s > 0,
                    target >= 0,
            ;
        }
    }
    let r = Boid::scaled(v, target, s);
    assert(abs(r) == size);
    assert(r * r == size * size) by (nonlinear_arith)
        requires
            r == size || r == -size,
    ;
}

/// The square root, rounded up, of `v * target` squared over `s`, rounded up:
/// its square times `s` is at least the square of `v * target`, which the
/// square of the whole number before it times `s` falls short of.
pub proof fn lemma_scaled_up_bounds(v: int, target: int, s: int)
    requires
        s > 0,
        0 <= target <= 0x7FFF_FFFF,
        v * v <= s,
    ensures
        abs(Boid::scaled_up(v, target, s)) <= target,
        Boid::scaled_up(v, target, s) * Boid::scaled_up(v, target, s) * s >= (v * v) * (target * target),
        abs(Boid::scaled_up(v, target, s)) > 0 ==> (abs(Boid::scaled_up(v, target, s)) - 1) * (abs(
            Boid::scaled_up(v, target, s),
        ) - 1) * s < (v * v) * (target * target),
{
    let product = v * target;
    let square = product * product;
    let quotient = ceil_div(square, s);
    let size = ceil_sqrt(quotient);
    assert(square >= 0) by (nonlinear_arith)
        requires
            square == product * product,
    ;
    assert(square == (v * v) * (target * target)) by (nonlinear_arith)
        requires
            square == product * product,
            product == v * target,
    ;
    assert(quotient >= 0 && quotient * s >= square && (quotient - 1) * s < square) by (nonlinear_arith)
        requires
            quotient == (square + s - 1) / s,
            s > 0,
            square >= 0,
    ;
    lemma_ceil_sqrt(quotient);
    assert(size * size * s >= square) by (nonlinear_arith)
        requires
            size * size >= quotient,
            quotient * s >= square,
            s > 0,
    ;
    if size > 0 {
        assert((size - 1) * (size - 1) * s < square) by (nonlinear_arith)
            requires
                (size - 1) * (size - 1) <= quotient - 1,
                (quotient - 1) * s < square,
                s > 0,
        ;
    }
    assert(size <= target) by {
        if size > target {
            lemma_square_monotone(target, size - 1);
            assert(v * v >= 0) by (nonlinear_arith);
            assert(square <= s * (target * target)) by (nonlinear_arith)
                requires
                    square == (v * v) * (target * target),
                    0 <= v * v <= s,
            ;
            assert((size - 1) * (size - 1) * s >= s * (target * target)) by (nonlinear_arith)
                requires
                    (size - 1) * (size - 1) >= target * target,
                    s > 0,
            ;
        }
    }
    let r = Boid::scaled_up(v, target, s);
    assert(abs(r) == size);
    assert(r * r == size * size) by (nonlinear_arith)
        requires
            r == size || r == -size,
    ;
}

/// Two whole numbers that are not negative, whose squares add up to `t`
/// squared at most and which do so no longer when both grow by one, have
/// squares that add up to more than the square of `t - 2`.
pub proof fn lemma_close_below(a: int, b: int, t: int)
    requires
        0 <= a,
        0 <= b,
        t >= 6,
        a * a + b * b <= t * t,
        (a + 1) * (a + 1) + (b + 1) * (b + 1) > t * t,
    ensures
        (t - 2) * (t - 2) < a * a + b * b,
{
    assert((a + b) * (a + b) <= 2 * (t * t)) by (nonlinear_arith)
        requires
            a * a + b * b <= t * t,
    ;
    assert(2 * (a + b) <= 3 * t) by (nonlinear_arith)
        requires
            (a + b) * (a + b) <= 2 * (t * t),
            a + b >= 0,
            t >= 0,
    ;
    assert((a + 1) * (a + 1) + (b + 1) * (b + 1) == a * a + b * b + 2 * (a + b) + 2) by (nonlinear_arith);
    assert((t - 2) * (t - 2) == t * t - 4 * t + 4) by (nonlinear_arith);
}

/// Two whole numbers that are not negative and whose squares add up to `t`
/// squared at most have, when both grow by one, squares that add up to less
/// than the square of `t + 2`.
pub proof fn lemma_close_above(a: int, b: int, t: int)
    requires
        0 <= a,
        0 <= b,
        t >= 0,
        a * a + b * b <= t * t,
    ensures
        (a + 1) * (a + 1) + (b + 1) * (b + 1) < (t + 2) * (t + 2),
{
    assert((a + b) * (a + b) <= 2 * (t * t)) by (nonlinear_arith)
        requires
            a * a + b * b <= t * t,
    ;
    assert(2 * (a + b) <= 3 * t) by (nonlinear_arith)
        requires
            (a + b) * (a + b) <= 2 * (t * t),
            a + b >= 0,
            t >= 0,
    ;
    assert((a + 1) * (a + 1) + (b + 1) * (b + 1) == a * a + b * b + 2 * (a + b) + 2) by (nonlinear_arith);
    assert((t + 2) * (t + 2) == t * t + 4 * t + 4) by (nonlinear_arith);
}

/// After the limit a moving agent's speed lies between `min_speed` and
/// `max_speed`: see [`Boid::between`].
pub proof fn lemma_limit_between(boid: Boid, max_speed: int, min_speed: int)
    requires
        boid.speed_squared() != 0,
        -0x8000 <= min_speed <= 0x7FFF,
        -0x8000 <= max_speed <= 0x7FFF,
    ensures
        0 <= min_speed <= max_speed ==> boid.limited(max_speed, min_speed).between(max_speed, min_speed),
{
    if 0 <= min_speed <= max_speed {
        let vx = boid.velocity_x as int;
        let vy = boid.velocity_y as int;
        let low = min_speed * STEP;
        let high = max_speed * STEP;
        assert(vx * vx >= 0 && vy * vy >= 0) by (nonlinear_arith);
        lemma_square_monotone(low, high);
        let s = boid.speed_squared();
        let after = boid.limited(max_speed, min_speed);
        if boid.exceeds(max_speed) {
            assert(!boid.lags(min_speed));
            assert(after == boid.rescaled(high, s));
            if max_speed == 0 {
                assert(high == 0);
                assert(vx * high == 0 && vy * high == 0) by (nonlinear_arith)
                    requires
                        high == 0,
                ;
                assert(0int / s == 0) by (nonlinear_arith)
                    requires
                        s > 0,
                ;
                lemma_floor_sqrt_exists(0);
                assert(floor_sqrt(0) == 0) by (nonlinear_arith)
                    requires
                        is_floor_sqrt(0, floor_sqrt(0)),
                ;
                assert(after.velocity_x == 0 && after.velocity_y == 0);
            } else {
                lemma_shrink_between(boid, high);
                lemma_square_monotone(high, high + 2);
                if min_speed < max_speed {
                    lemma_square_monotone(low, high - 2);
                }
            }
        } else if boid.lags(min_speed) {
            assert(after == boid.hurried(low, s));
            lemma_stretch_between(boid, low);
            lemma_square_monotone(low - 2, low);
            assert((low - 2) * (low - 2) < low * low) by (nonlinear_arith)
                requires
                    low >= 65536,
            ;
            if min_speed < max_speed {
                lemma_square_monotone(low + 2, high);
            }
        } else {
            assert(after == boid);
            if min_speed == max_speed {
                lemma_square_monotone(low, low + 2);
                if min_speed > 0 {
                    assert((low - 2) * (low - 2) < low * low) by (nonlinear_arith)
                        requires
                            low >= 65536,
                    ;
                }
            } else if min_speed == 0 {
                assert(low == 0);
                assert(low * low == 0) by (nonlinear_arith)
                    requires
                        low == 0,
                ;
            }
        }
    }
}

/// A moving agent shrunk to the speed of `target` steps has at most that
/// speed and less than two steps less.
pub proof fn lemma_shrink_between(boid: Boid, target: int)
    requires
        boid.speed_squared() != 0,
        6 <= target <= 0x7FFF_FFFF,
    ensures
        boid.rescaled(target, boid.speed_squared()).speed_squared() <= target * target,
        (target - 2) * (target - 2) < boid.rescaled(target, boid.speed_squared()).speed_squared(),
{
    let s = boid.speed_squared();
    let vx = boid.velocity_x as int;
    let vy = boid.velocity_y as int;
    assert(vx * vx >= 0 && vy * vy >= 0) by (nonlinear_arith);
    lemma_scaled_bounds(vx, target, s);
    lemma_scaled_bounds(vy, target, s);
    let rx = Boid::scaled(vx, target, s);
    let ry = Boid::scaled(vy, target, s);
    let after = boid.rescaled(target, s);
    assert(after.velocity_x == rx && after.velocity_y == ry);
    let t = target * target;
    assert(rx * rx + ry * ry <= t) by (nonlinear_arith)
        requires
            rx * rx * s <= (vx * vx) * t,
            ry * ry * s <= (vy * vy) * t,
            s == vx * vx + vy * vy,
            s > 0,
    ;
    let ux = abs(rx) + 1;
    let uy = abs(ry) + 1;
    assert(ux * ux + uy * uy > t) by (nonlinear_arith)
        requires
            ux * ux * s > (vx * vx) * t,
            uy * uy * s > (vy * vy) * t,
            s == vx * vx + vy * vy,
            s > 0,
    ;
    assert(abs(rx) * abs(rx) == rx * rx) by (nonlinear_arith);
    assert(abs(ry) * abs(ry) == ry * ry) by (nonlinear_arith);
    lemma_close_below(abs(rx), abs(ry), target);
}

/// A moving agent stretched to the speed of `target` steps has at least that
/// speed and less than two steps more.
pub proof fn lemma_stretch_between(boid: Boid, target: int)
    requires
        boid.speed_squared() != 0,
        0 <= target <= 0x7FFF_FFFF,
    ensures
        target * target <= boid.hurried(target, boid.speed_squared()).speed_squared(),
        boid.hurried(target, boid.speed_squared()).speed_squared() < (target + 2) * (target + 2),
{
    let s = boid.speed_squared();
    let vx = boid.velocity_x as int;
    let vy = boid.velocity_y as int;
    assert(vx * vx >= 0 && vy * vy >= 0) by (nonlinear_arith);
    lemma_scaled_up_bounds(vx, target, s);
    lemma_scaled_up_bounds(vy, target, s);
    let rx = Boid::scaled_up(vx, target, s);
    let ry = Boid::scaled_up(vy, target, s);
    let after = boid.hurried(target, s);
    assert(after.velocity_x == rx && after.velocity_y == ry);
    let t = target * target;
    assert(rx * rx + ry * ry >= t) by (nonlinear_arith)
        requires
            rx * rx * s >= (vx * vx) * t,
            ry * ry * s >= (vy * vy) * t,
            s == vx * vx + vy * vy,
            s > 0,
    ;
    let a = if abs(rx) > 0 {
        abs(rx) - 1
    } else {
        0
    };
    let b = if abs(ry) > 0 {
        abs(ry) - 1
    } else {
        0
    };
    assert(vx * vx * t >= 0 && vy * vy * t >= 0) by (nonlinear_arith)
        requires
            t == target * target,
    ;
    assert(a * a * s <= (vx * vx) * t) by {
        if abs(rx) == 0 {
            assert(a * a * s == 0) by (nonlinear_arith)
                requires
                    a == 0,
            ;
        }
    }
    assert(b * b * s <= (vy * vy) * t) by {
        if abs(ry) == 0 {
            assert(b * b * s == 0) by (nonlinear_arith)
                requires
                    b == 0,
            ;
        }
    }
    assert(a * a + b * b <= t) by (nonlinear_arith)
        requires
            a * a * s <= (vx * vx) * t,
            b * b * s <= (vy * vy) * t,
            s == vx * vx + vy * vy,
            s > 0,
    ;
    lemma_close_above(a, b, target);
    assert(rx * rx <= (a + 1) * (a + 1)) by (nonlinear_arith)
        requires
            0 <= abs(rx) <= a + 1,
            rx == abs(rx) || rx == -abs(rx),
    ;
    assert(ry * ry <= (b + 1) * (b + 1)) by (nonlinear_arith)
        requires
            0 <= abs(ry) <= b + 1,
            ry == abs(ry) || ry == -abs(ry),
    ;
}

/// An agent set moving again on the circle of radius `min_speed` grid units
/// per tick has at least that speed and less than one step more.
pub proof fn lemma_restart_between(boid: Boid, max_speed: int, min_speed: int, pick: int, upward: bool)
    requires
        -abs(min_speed * STEP) <= pick <= abs(min_speed * STEP),
        -0x8000 <= min_speed <= 0x7FFF,
        -0x8000 <= max_speed <= 0x7FFF,
    ensures
        0 <= min_speed ==> (min_speed * STEP) * (min_speed * STEP) <= boid.restarted(
            min_speed,
            pick,
            upward,
        ).speed_squared() < (min_speed * STEP + 1) * (min_speed * STEP + 1),
        0 <= min_speed <= max_speed ==> boid.restarted(min_speed, pick, upward).between(
            max_speed,
            min_speed,
        ),
{
    if 0 <= min_speed {
        let m = min_speed * STEP;
        let left = m * m - pick * pick;
        assert(0 <= pick * pick <= m * m) by (nonlinear_arith)
            requires
                -m <= pick <= m,
        ;
        lemma_ceil_sqrt(left);
        let rest = ceil_sqrt(left);
        assert(rest <= m) by {
            if rest > m {
                lemma_square_monotone(m, rest - 1);
            }
        }
        let after = boid.restarted(min_speed, pick, upward);
        let vx = after.velocity_x as int;
        let vy = after.velocity_y as int;
        assert(vx == pick);
        assert(vy == rest || vy == -rest);
        assert(vy * vy == rest * rest) by (nonlinear_arith)
            requires
                vy == rest || vy == -rest,
        ;
        assert(rest * rest < left + 2 * m + 1) by {
            if rest > 0 {
                assert(rest * rest == (rest - 1) * (rest - 1) + 2 * rest - 1) by (nonlinear_arith);
            } else {
                assert(rest * rest == 0) by (nonlinear_arith)
                    requires
                        rest == 0,
                ;
            }
        }
        assert((m + 1) * (m + 1) == m * m + 2 * m + 1) by (nonlinear_arith);
        if min_speed <= max_speed {
            let high = max_speed * STEP;
            if min_speed < max_speed {
                lemma_square_monotone(m + 1, high);
            } else {
                lemma_square_monotone(m + 1, m + 2);
                if min_speed > 0 {
                    assert((m - 2) * (m - 2) < m * m) by (nonlinear_arith)
                        requires
                            m >= 65536,
                    ;
                }
            }
        }
    }
}

} // verus!
