//! Rectangles in fixed point, colours, and the pixel primitives that draw
//! into an RGBA frame buffer.

use vstd::prelude::*;
use crate::arith::{abs, clamp_i16, clamp_i16_spec, div_toward_zero, trunc_div};
use crate::node::Vertice;
use crate::trig::{cosine, cosine_spec, sine, sine_spec, ONE};

verus! {

/// How many fixed-point steps make one grid unit.
pub const UNIT: i64 = 65536;

/// How far from the origin, in steps, an edge of a well-formed rectangle may
/// lie.
pub const REACH: i64 = 0x2_0000_0000_0000;

/// One of the four parts into which a rectangle is divided.
#[derive(Clone, Copy, PartialEq, Eq, Structural, Debug)]
pub enum Quadrant {
    TopLeft,
    TopRight,
    BottomLeft,
    BottomRight,
}

/// An axis-aligned rectangle, given by its four edges in fixed point: `UNIT`
/// steps to one grid unit. Its edges belong to it, and its centre is the
/// point midway between them.
#[derive(Clone, Copy, PartialEq, Eq, Structural, Debug)]
pub struct Rectangle {
    pub left: i64,
    pub right: i64,
    pub bottom: i64,
    pub top: i64,
}

impl Rectangle {
    /// No edge lies beyond its opposite, and none farther than `REACH` from
    /// the origin.
    pub open spec fn wf(self) -> bool {
        &&& -REACH <= self.left <= self.right <= REACH
        &&& -REACH <= self.bottom <= self.top <= REACH
    }

    /// The rectangle that [`Rectangle::new`] builds from a centre and half
    /// extents in whole grid units.
    pub open spec fn of_units(center_x: int, center_y: int, half_width: int, half_height: int) -> Rectangle {
        Rectangle {
            left: ((center_x - half_width) * UNIT) as i64,
            right: ((center_x + half_width) * UNIT) as i64,
            bottom: ((center_y - half_height) * UNIT) as i64,
            top: ((center_y + half_height) * UNIT) as i64,
        }
    }

    /// Whether the fixed-point position `(px, py)` lies in the rectangle,
    /// edges included.
    pub open spec fn contains_raw(self, px: int, py: int) -> bool {
        &&& self.left <= px <= self.right
        &&& self.bottom <= py <= self.top
    }

    /// Whether the grid position `(x, y)` lies in the rectangle, edges
    /// included.
    pub open spec fn contains(self, x: int, y: int) -> bool {
        self.contains_raw(x * UNIT, y * UNIT)
    }

    /// Whether the centre of the rectangle lies within `radius` steps of the
    /// grid position `(x, y)`. The extents play no part. Both sides of the
    /// comparison are doubled, so that a centre midway between two steps is
    /// taken as it is.
    pub open spec fn center_within(self, x: int, y: int, radius: int) -> bool {
        &&& radius >= 0
        &&& (self.left + self.right - 2 * x * UNIT) * (self.left + self.right - 2 * x * UNIT) + (
        self.bottom + self.top - 2 * y * UNIT) * (self.bottom + self.top - 2 * y * UNIT) <= (2 * radius)
            * (2 * radius)
    }

    /// Where the rectangle is cut from top to bottom: midway between its left
    /// and its right edge, rounded down to a step.
    pub open spec fn cut_x(self) -> int {
        self.left + (self.right - self.left) / 2
    }

    /// Where the rectangle is cut from left to right: midway between its
    /// lower and its upper edge, rounded down to a step.
    pub open spec fn cut_y(self) -> int {
        self.bottom + (self.top - self.bottom) / 2
    }

    /// The part of the rectangle named by `quadrant`: what lies on that side
    /// of the two cuts, the cuts included.
    pub open spec fn quadrant_spec(self, quadrant: Quadrant) -> Rectangle {
        let cut_x = self.cut_x() as i64;
        let cut_y = self.cut_y() as i64;
        match quadrant {
            Quadrant::TopLeft => Rectangle { right: cut_x, bottom: cut_y, ..self },
            Quadrant::TopRight => Rectangle { left: cut_x, bottom: cut_y, ..self },
            Quadrant::BottomLeft => Rectangle { right: cut_x, top: cut_y, ..self },
            Quadrant::BottomRight => Rectangle { left: cut_x, top: cut_y, ..self },
        }
    }

    /// A rectangle from a centre and half extents in whole grid units.
    pub fn new(center_x: i32, center_y: i32, half_width: u32, half_height: u32) -> (r: Self)
        ensures
            r.wf(),
            r == Rectangle::of_units(center_x as int, center_y as int, half_width as int, half_height as int),
            r.left == (center_x - half_width) * UNIT,
            r.right == (center_x + half_width) * UNIT,
            r.bottom == (center_y - half_height) * UNIT,
            r.top == (center_y + half_height) * UNIT,
    {
        Self {
            left: (center_x as i64 - half_width as i64) * UNIT,
            right: (center_x as i64 + half_width as i64) * UNIT,
            bottom: (center_y as i64 - half_height as i64) * UNIT,
            top: (center_y as i64 + half_height as i64) * UNIT,
        }
    }

    /// Tells whether the position `(x, y)`, given in steps, lies in the
    /// rectangle, edges included.
    pub fn contains_point(&self, x: i64, y: i64) -> (inside: bool)
        ensures
            inside == self.contains_raw(x as int, y as int),
    {
        x >= self.left && x <= self.right && y >= self.bottom && y <= self.top
    }

    /// Tells whether the centre of the rectangle lies within `vision_radius`
    /// steps of `vertice`.
    pub fn intersects(&self, vertice: &Vertice, vision_radius: i32) -> (near: bool)
        ensures
            near == self.center_within(vertice.x as int, vertice.y as int, vision_radius as int),
    {
        if vision_radius < 0 {
            return false;
        }
        let dx: i128 = self.left as i128 + self.right as i128 - 2 * (vertice.x as i64 * UNIT) as i128;
        let dy: i128 = self.bottom as i128 + self.top as i128 - 2 * (vertice.y as i64 * UNIT) as i128;
        let reach: i128 = 2 * vision_radius as i128;
        let wide: i128 = if dx < 0 {
            -dx
        } else {
            dx
        };
        let high: i128 = if dy < 0 {
            -dy
        } else {
            dy
        };
        assert(wide * wide == dx * dx) by (nonlinear_arith)
            requires
                wide == dx || wide == -dx,
        ;
        assert(high * high == dy * dy) by (nonlinear_arith)
            requires
                high == dy || high == -dy,
        ;
        if wide > reach {
            assert(wide * wide > reach * reach) by (nonlinear_arith)
                requires
                    wide > reach >= 0,
            ;
            assert(high * high >= 0) by (nonlinear_arith);
            return false;
        }
        if high > reach {
            assert(high * high > reach * reach) by (nonlinear_arith)
                requires
                    high > reach >= 0,
            ;
            assert(wide * wide >= 0) by (nonlinear_arith);
            return false;
        }
        assert(0 <= wide * wide <= 0x1_0000_0000 * 0x1_0000_0000) by (nonlinear_arith)
            requires
                0 <= wide <= 0x1_0000_0000,
        ;
        assert(0 <= high * high <= 0x1_0000_0000 * 0x1_0000_0000) by (nonlinear_arith)
            requires
                0 <= high <= 0x1_0000_0000,
        ;
        assert(0 <= reach * reach <= 0x1_0000_0000 * 0x1_0000_0000) by (nonlinear_arith)
            requires
                0 <= reach <= 0x1_0000_0000,
        ;
        wide * wide + high * high <= reach * reach
    }

    /// Computes the part of the rectangle named by `quadrant`.
    pub fn quadrant(&self, quadrant: Quadrant) -> (part: Rectangle)
        requires
            self.wf(),
        ensures
            part == self.quadrant_spec(quadrant),
            part.wf(),
    {
        let cut_x: i64 = self.left + (self.right - self.left) / 2;
        let cut_y: i64 = self.bottom + (self.top - self.bottom) / 2;
        match quadrant {
            Quadrant::TopLeft => Rectangle {
                left: self.left,
                right: cut_x,
                bottom: cut_y,
                top: self.top,
            },
            Quadrant::TopRight => Rectangle {
                left: cut_x,
                right: self.right,
                bottom: cut_y,
                top: self.top,
            },
            Quadrant::BottomLeft => Rectangle {
                left: self.left,
                right: cut_x,
                bottom: self.bottom,
                top: cut_y,
            },
            Quadrant::BottomRight => Rectangle {
                left: cut_x,
                right: self.right,
                bottom: self.bottom,
                top: cut_y,
            },
        }
    }
}

/// The colours that the simulation draws with.
#[derive(Clone, Copy, PartialEq, Eq, Structural, Debug)]
pub enum Color {
    Black,
    White,
    Red,
    Green,
    Blue,
}

impl Color {
    /// The four bytes of a pixel of this colour: red, green, blue, alpha.
    pub open spec fn bytes(self) -> Seq<u8> {
        match self {
            Color::Black => seq![0u8, 0u8, 0u8, 0u8],
            Color::White => seq![255u8, 255u8, 255u8, 255u8],
            Color::Red => seq![255u8, 0u8, 0u8, 255u8],
            Color::Green => seq![0u8, 255u8, 0u8, 255u8],
            Color::Blue => seq![0u8, 0u8, 255u8, 255u8],
        }
    }

    /// The four bytes of a pixel of this colour: red, green, blue, alpha.
    pub fn to_color_array(&self) -> (color: [u8; 4])
        ensures
            color@ == self.bytes(),
    {
        let color: [u8; 4] = match self {
            Color::Black => [0, 0, 0, 0],
            Color::White => [255, 255, 255, 255],
            Color::Red => [255, 0, 0, 255],
            Color::Green => [0, 255, 0, 255],
            Color::Blue => [0, 0, 255, 255],
        };
        assert(color@ =~= self.bytes());
        color
    }
}

/// The frame after the pixel `(x, y)` got `color`. A frame is `width` pixels
/// wide and `height` high, four bytes to a pixel, row after row. A position
/// outside it changes nothing, and bytes that a short frame lacks are left
/// out.
pub open spec fn painted(frame: Seq<u8>, x: int, y: int, width: int, height: int, color: Seq<u8>) -> Seq<u8> {
    if 0 <= x < width && 0 <= y < height {
        let start = (y * width + x) * 4;
        Seq::new(
            frame.len(),
            |i: int|
                if start <= i < start + 4 {
                    color[i - start]
                } else {
                    frame[i]
                },
        )
    } else {
        frame
    }
}

/// The frame after the pixels at `points` got `color`, first to last.
pub open spec fn painted_all(
    frame: Seq<u8>,
    points: Seq<(int, int)>,
    width: int,
    height: int,
    color: Seq<u8>,
) -> Seq<u8>
    decreases points.len(),
{
    if points.len() == 0 {
        frame
    } else {
        painted(
            painted_all(frame, points.drop_last(), width, height, color),
            points.last().0,
            points.last().1,
            width,
            height,
            color,
        )
    }
}

/// Gives the pixel `(x, y)` of the frame the colour `color`; a position
/// outside the frame is passed over.
pub fn change_pixel(frame: &mut [u8], x: usize, y: usize, width: u16, height: u16, color: [u8; 4])
    ensures
        final(frame)@ == painted(old(frame)@, x as int, y as int, width as int, height as int, color@),
{
    if x >= width as usize || y >= height as usize {
        return ;
    }
    assert(0 <= y * width <= 0xFFFF * 0xFFFF) by (nonlinear_arith)
        requires
            0 <= y < 0xFFFF,
            0 <= width <= 0xFFFF,
    ;
    let start: u64 = (y as u64 * width as u64 + x as u64) * 4;
    let mut count: usize = 0;
    while count < 4
        invariant
            count <= 4,
            frame@.len() == old(frame)@.len(),
            start == (y * width + x) * 4,
            forall|i: int|
                0 <= i < frame@.len() ==> frame@[i] == if start <= i < start + count {
                    color@[i - start]
                } else {
                    old(frame)@[i]
                },
        ensures
            count == 4 || start + count >= frame@.len(),
        decreases 4 - count,
    {
        let index: u64 = start + count as u64;
        if index >= frame.len() as u64 {
            break ;
        }
        frame[index as usize] = color[count];
        count += 1;
    }
    assert(frame@ =~= painted(old(frame)@, x as int, y as int, width as int, height as int, color@));
}

/// Puts two values in ascending order.
pub fn sort_two_value(val_a: &mut i16, val_b: &mut i16)
    ensures
        *final(val_a) <= *final(val_b),
        *final(val_a) == *old(val_a) && *final(val_b) == *old(val_b) || *final(val_a) == *old(val_b)
            && *final(val_b) == *old(val_a),
{
    if *val_a > *val_b {
        let low = *val_b;
        *val_b = *val_a;
        *val_a = low;
    }
}

/// The height at which the line through `start` and `end`, which differ in
/// `x`, crosses the column `x`, rounded toward zero.
pub open spec fn line_height(start: Vertice, end: Vertice, x: int) -> int {
    let run = start.x - end.x;
    let rise = start.y - end.y;
    let top = start.y * run + (x - start.x) * rise;
    if run > 0 {
        trunc_div(top, run)
    } else {
        trunc_div(-top, -run)
    }
}

/// The pixels of the line between `start` and `end`: one in each row for a
/// vertical line, bottom to top, and one in each column for any other, left
/// to right.
pub open spec fn line_points(start: Vertice, end: Vertice) -> Seq<(int, int)> {
    if start.x == end.x {
        let low = if start.y <= end.y {
            start.y as int
        } else {
            end.y as int
        };
        Seq::new((abs(start.y - end.y) + 1) as nat, |k: int| (start.x as int, low + k))
    } else {
        let left = if start.x <= end.x {
            start.x as int
        } else {
            end.x as int
        };
        Seq::new(
            (abs(start.x - end.x) + 1) as nat,
            |k: int| (left + k, line_height(start, end, left + k)),
        )
    }
}

/// The frame after the line between `start` and `end` was drawn in white.
pub open spec fn line_drawn(frame: Seq<u8>, start: Vertice, end: Vertice, width: int, height: int) -> Seq<u8> {
    painted_all(frame, line_points(start, end), width, height, Color::White.bytes())
}

/// Paints the pixel `(x, y)`, which may lie anywhere.
fn plot(frame: &mut [u8], x: i64, y: i64, width: u16, height: u16, color: [u8; 4])
    ensures
        final(frame)@ == painted(old(frame)@, x as int, y as int, width as int, height as int, color@),
{
    if x < 0 || y < 0 || x >= width as i64 || y >= height as i64 {
        return ;
    }
    change_pixel(frame, x as usize, y as usize, width, height, color);
}

/// Draws the line between `start` and `end` in white, one pixel in each
/// column, or in each row where the line is vertical. What lies outside the
/// frame is left out.
pub fn draw_line(start: &Vertice, end: &Vertice, frame: &mut [u8], width: u16, height: u16)
    ensures
        final(frame)@ == line_drawn(old(frame)@, *start, *end, width as int, height as int),
{
    let color = Color::White.to_color_array();
    let mut start_x = start.x;
    let mut start_y = start.y;
    let mut end_x = end.x;
    let mut end_y = end.y;
    sort_two_value(&mut start_x, &mut end_x);
    sort_two_value(&mut start_y, &mut end_y);
    let ghost points = line_points(*start, *end);
    match start.slope(end) {
        Some((rise, run)) => {
            let count: i64 = end_x as i64 - start_x as i64 + 1;
            let mut k: i64 = 0;
            while k < count
                invariant
                    0 <= k <= count,
                    count == points.len(),
                    count <= 0x1_0000,
                    points == line_points(*start, *end),
                    start.x != end.x,
                    start_x == if start.x <= end.x { start.x } else { end.x },
                    rise == start.y - end.y,
                    run == start.x - end.x,
                    color@ == Color::White.bytes(),
                    frame@ == painted_all(
                        old(frame)@,
                        points.take(k as int),
                        width as int,
                        height as int,
                        color@,
                    ),
                decreases count - k,
            {
                let x: i64 = start_x as i64 + k;
                let along: i64 = x - start.x as i64;
                let base: i64 = start.y as i64;
                let wide_run: i64 = run as i64;
                let wide_rise: i64 = rise as i64;
                assert(-0x8000 * 0x1_0000 <= base * wide_run <= 0x8000 * 0x1_0000) by (nonlinear_arith)
                    requires
                        -0x8000 <= base <= 0x8000,
                        -0x1_0000 <= wide_run <= 0x1_0000,
                ;
                assert(-0x1_0000 * 0x1_0000 <= along * wide_rise <= 0x1_0000 * 0x1_0000)
                    by (nonlinear_arith)
                    requires
                        -0x1_0000 <= along <= 0x1_0000,
                        -0x1_0000 <= wide_rise <= 0x1_0000,
                ;
                let top: i64 = base * wide_run + along * wide_rise;
                let y: i64 = if wide_run > 0 {
                    div_toward_zero(top as i128, wide_run as i128) as i64
                } else {
                    div_toward_zero(-(top as i128), -(wide_run as i128)) as i64
                };
                proof {
                    assert(points.take(k + 1).drop_last() == points.take(k as int));
                    assert(points.take(k + 1).last() == (x as int, y as int));
                }
                plot(frame, x, y, width, height, color);
                k += 1;
            }
            assert(points.take(k as int) == points);
        },
        None => {
            let count: i64 = end_y as i64 - start_y as i64 + 1;
            let mut k: i64 = 0;
            while k < count
                invariant
                    0 <= k <= count,
                    count == points.len(),
                    points == line_points(*start, *end),
                    start.x == end.x,
                    start_y == if start.y <= end.y { start.y } else { end.y },
                    color@ == Color::White.bytes(),
                    frame@ == painted_all(
                        old(frame)@,
                        points.take(k as int),
                        width as int,
                        height as int,
                        color@,
                    ),
                decreases count - k,
            {
                let y: i64 = start_y as i64 + k;
                proof {
                    assert(points.take(k + 1).drop_last() == points.take(k as int));
                    assert(points.take(k + 1).last() == (start.x as int, y as int));
                }
                plot(frame, start.x as i64, y, width, height, color);
                k += 1;
            }
            assert(points.take(k as int) == points);
        },
    }
}

impl Rectangle {
    /// The corners of the rectangle on the grid, each coordinate rounded
    /// toward zero and brought into the range of `i16`: bottom left, top
    /// left, top right, bottom right.
    pub open spec fn corners(self) -> (Vertice, Vertice, Vertice, Vertice) {
        let left = clamp_i16_spec(trunc_div(self.left as int, UNIT as int)) as i16;
        let right = clamp_i16_spec(trunc_div(self.right as int, UNIT as int)) as i16;
        let bottom = clamp_i16_spec(trunc_div(self.bottom as int, UNIT as int)) as i16;
        let top = clamp_i16_spec(trunc_div(self.top as int, UNIT as int)) as i16;
        (
            Vertice { x: left, y: bottom },
            Vertice { x: left, y: top },
            Vertice { x: right, y: top },
            Vertice { x: right, y: bottom },
        )
    }

    /// The frame after the outline of the rectangle was drawn: the left
    /// edge, the upper, the right and the lower.
    pub open spec fn outlined(self, frame: Seq<u8>, width: int, height: int) -> Seq<u8> {
        let (a, b, c, d) = self.corners();
        line_drawn(
            line_drawn(line_drawn(line_drawn(frame, a, b, width, height), b, c, width, height), c, d, width, height),
            d,
            a,
            width,
            height,
        )
    }

    /// Draws the outline of the rectangle in white.
    pub fn draw(&self, frame: &mut [u8], width: u16, height: u16)
        ensures
            final(frame)@ == self.outlined(old(frame)@, width as int, height as int),
    {
        let left = clamp_i16(div_toward_zero(self.left as i128, UNIT as i128));
        let right = clamp_i16(div_toward_zero(self.right as i128, UNIT as i128));
        let bottom = clamp_i16(div_toward_zero(self.bottom as i128, UNIT as i128));
        let top = clamp_i16(div_toward_zero(self.top as i128, UNIT as i128));
        let mut a = Vertice::new();
        let mut b = Vertice::new();
        let mut c = Vertice::new();
        let mut d = Vertice::new();

        a.x = left;
        a.y = bottom;

        b.x = left;
        b.y = top;

        c.x = right;
        c.y = top;

        d.x = right;
        d.y = bottom;

        draw_line(&a, &b, frame, width, height);
        draw_line(&b, &c, frame, width, height);
        draw_line(&c, &d, frame, width, height);
        draw_line(&d, &a, frame, width, height);
    }
}

/// A circle on the grid, drawn as the points at its whole degrees.
#[derive(Clone, Copy, PartialEq, Eq, Structural, Debug)]
pub struct Circle {
    pub x: i32,
    pub y: i32,
    pub radius: i32,
    pub color: Color,
}

impl Circle {
    /// The circle around `(x, y)` with the given radius and colour.
    pub fn new(x: i32, y: i32, radius: i32, color: Color) -> (circle: Self)
        ensures
            circle == (Circle { x, y, radius, color }),
    {
        Self { x, y, radius, color }
    }

    /// The pixel of the circle at `degrees`, both coordinates rounded toward
    /// zero.
    pub open spec fn point(self, degrees: int) -> (int, int) {
        (
            trunc_div(self.radius * cosine_spec(degrees) + self.x * ONE, ONE as int),
            trunc_div(self.radius * sine_spec(degrees) + self.y * ONE, ONE as int),
        )
    }

    /// The pixels of the circle: those at the whole degrees from 0 to 365.
    /// A circle of radius 0 has none.
    pub open spec fn points(self) -> Seq<(int, int)> {
        if self.radius == 0 {
            Seq::empty()
        } else {
            Seq::new(366, |k: int| self.point(k))
        }
    }

    /// The frame after the circle was drawn.
    pub open spec fn drawn(self, frame: Seq<u8>, width: int, height: int) -> Seq<u8> {
        painted_all(frame, self.points(), width, height, self.color.bytes())
    }

    /// Draws the circle; what lies outside the frame is left out.
    pub fn draw(&self, frame: &mut [u8], width: u16, height: u16)
        ensures
            final(frame)@ == self.drawn(old(frame)@, width as int, height as int),
    {
        if self.radius == 0 {
            return ;
        }
        let color = self.color.to_color_array();
        let ghost points = self.points();
        let mut angle: i32 = 0;
        while angle <= 365
            invariant
                0 <= angle <= 366,
                self.radius != 0,
                points == self.points(),
                color@ == self.color.bytes(),
                frame@ == painted_all(
                    old(frame)@,
                    points.take(angle as int),
                    width as int,
                    height as int,
                    color@,
                ),
            decreases 366 - angle,
        {
            let radius: i64 = self.radius as i64;
            let across: i64 = cosine(angle) as i64;
            let up: i64 = sine(angle) as i64;
            assert(-0x8000_0000 * 0x1_0000 <= radius * across <= 0x8000_0000 * 0x1_0000)
                by (nonlinear_arith)
                requires
                    -0x8000_0000 <= radius <= 0x8000_0000,
                    -0x1_0000 <= across <= 0x1_0000,
            ;
            assert(-0x8000_0000 * 0x1_0000 <= radius * up <= 0x8000_0000 * 0x1_0000)
                by (nonlinear_arith)
                requires
                    -0x8000_0000 <= radius <= 0x8000_0000,
                    -0x1_0000 <= up <= 0x1_0000,
            ;
            let x: i64 = div_toward_zero(
                (radius * across + self.x as i64 * ONE as i64) as i128,
                ONE as i128,
            ) as i64;
            let y: i64 = div_toward_zero(
                (radius * up + self.y as i64 * ONE as i64) as i128,
                ONE as i128,
            ) as i64;
            proof {
                assert(points.take(angle + 1).drop_last() == points.take(angle as int));
                assert(points.take(angle + 1).last() == self.point(angle as int));
            }
            plot(frame, x, y, width, height, color);
            angle += 1;
        }
        assert(points.take(angle as int) == points);
    }
}

/// The four parts of a rectangle cover it: a position in the rectangle lies
/// in at least one of them.
pub proof fn lemma_quadrants_cover(r: Rectangle, px: int, py: int)
    requires
        r.wf(),
        r.contains_raw(px, py),
    ensures
        r.quadrant_spec(Quadrant::TopLeft).contains_raw(px, py) || r.quadrant_spec(
            Quadrant::TopRight,
        ).contains_raw(px, py) || r.quadrant_spec(Quadrant::BottomLeft).contains_raw(px, py)
            || r.quadrant_spec(Quadrant::BottomRight).contains_raw(px, py),
{
}

/// Each part of a rectangle lies inside it and is itself well formed.
pub proof fn lemma_quadrant_inside(r: Rectangle, quadrant: Quadrant, px: int, py: int)
    requires
        r.wf(),
    ensures
        r.quadrant_spec(quadrant).wf(),
        r.quadrant_spec(quadrant).contains_raw(px, py) ==> r.contains_raw(px, py),
{
}

/// The four parts of a rectangle tile it. Two different parts share no
/// position off the two cuts. Along each axis a part has half the extent of
/// the rectangle, to the step: the extents of the two parts side by side add
/// up to that of the rectangle and differ by one step at most, and by none
/// where the extent of the rectangle is even.
pub proof fn lemma_quadrants_partition(r: Rectangle, first: Quadrant, second: Quadrant, px: int, py: int)
    requires
        r.wf(),
    ensures
        first != second && r.quadrant_spec(first).contains_raw(px, py) && r.quadrant_spec(
            second,
        ).contains_raw(px, py) ==> px == r.cut_x() || py == r.cut_y(),
        0 <= (r.right - r.left) - 2 * (r.cut_x() - r.left) <= 1,
        0 <= (r.top - r.bottom) - 2 * (r.cut_y() - r.bottom) <= 1,
        (r.right - r.left) % 2 == 0 ==> 2 * (r.cut_x() - r.left) == r.right - r.left,
        (r.top - r.bottom) % 2 == 0 ==> 2 * (r.cut_y() - r.bottom) == r.top - r.bottom,
        r.quadrant_spec(Quadrant::TopLeft).right == r.quadrant_spec(Quadrant::TopRight).left == r.cut_x(),
        r.quadrant_spec(Quadrant::BottomLeft).right == r.quadrant_spec(Quadrant::BottomRight).left
            == r.cut_x(),
        r.quadrant_spec(Quadrant::TopLeft).bottom == r.quadrant_spec(Quadrant::BottomLeft).top
            == r.cut_y(),
        r.quadrant_spec(Quadrant::TopRight).bottom == r.quadrant_spec(Quadrant::BottomRight).top
            == r.cut_y(),
        r.quadrant_spec(Quadrant::TopLeft).left == r.quadrant_spec(Quadrant::BottomLeft).left == r.left,
        r.quadrant_spec(Quadrant::TopRight).right == r.quadrant_spec(Quadrant::BottomRight).right
            == r.right,
        r.quadrant_spec(Quadrant::TopLeft).top == r.quadrant_spec(Quadrant::TopRight).top == r.top,
        r.quadrant_spec(Quadrant::BottomLeft).bottom == r.quadrant_spec(Quadrant::BottomRight).bottom
            == r.bottom,
{
}

} // verus!
