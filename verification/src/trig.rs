//! Angles in whole degrees: sine and cosine in sixteen-bit fixed point from
//! a table, the direction of a vector, and the test whether a direction lies
//! in a field of view.
//!
//! Degrees count anticlockwise from the positive `x` axis, with `y` growing
//! upward.

use vstd::prelude::*;
use vstd::arithmetic::div_mod::lemma_mod_multiples_vanish;
use crate::arith::STEP;

verus! {

/// The value that stands for one in the fixed-point sines and cosines.
pub const ONE: i32 = 65536;

/// The sines of the whole degrees from 0 to 90, times `ONE`, rounded.
pub const SINE: [u32; 91] = [
    0, 1144, 2287, 3430, 4572, 5712, 6850,
    7987, 9121, 10252, 11380, 12505, 13626, 14742,
    15855, 16962, 18064, 19161, 20252, 21336, 22415,
    23486, 24550, 25607, 26656, 27697, 28729, 29753,
    30767, 31772, 32768, 33754, 34729, 35693, 36647,
    37590, 38521, 39441, 40348, 41243, 42126, 42995,
    43852, 44695, 45525, 46341, 47143, 47930, 48703,
    49461, 50203, 50931, 51643, 52339, 53020, 53684,
    54332, 54963, 55578, 56175, 56756, 57319, 57865,
    58393, 58903, 59396, 59870, 60326, 60764, 61183,
    61584, 61966, 62328, 62672, 62997, 63303, 63589,
    63856, 64104, 64332, 64540, 64729, 64898, 65048,
    65177, 65287, 65376, 65446, 65496, 65526, 65536,
];

/// The table's sine of `degrees`, for 0 to 90 degrees.
pub open spec fn quarter_sine(degrees: int) -> int
    recommends
        0 <= degrees <= 90,
{
    SINE[degrees] as int
}

/// The sine of an angle in whole degrees, times `ONE`: the table's value for
/// the first quarter turn, and by symmetry beyond it.
pub open spec fn sine_spec(degrees: int) -> int {
    let a = degrees % 360;
    if a <= 90 {
        quarter_sine(a)
    } else if a <= 180 {
        quarter_sine(180 - a)
    } else if a <= 270 {
        -quarter_sine(a - 180)
    } else {
        -quarter_sine(360 - a)
    }
}

/// The cosine of an angle in whole degrees, times `ONE`.
pub open spec fn cosine_spec(degrees: int) -> int {
    sine_spec(degrees + 90)
}

/// Whether the vector `(x, y)` points clockwise of the direction at
/// `degrees`: its cross product with the unit vector of that direction is
/// negative.
pub open spec fn clockwise_of(x: int, y: int, degrees: int) -> bool
    recommends
        0 <= degrees <= 90,
{
    quarter_sine(90 - degrees) * y < quarter_sine(degrees) * x
}

/// The first whole degree from `from` up to 89 whose successor the vector
/// `(x, y)` lies clockwise of.
pub open spec fn first_sector(x: int, y: int, from: int) -> int
    decreases 89 - from,
{
    if from >= 89 || clockwise_of(x, y, from + 1) {
        from
    } else {
        first_sector(x, y, from + 1)
    }
}

/// The direction of `(x, y)` in whole degrees, rounded down, for a vector in
/// the first quarter turn with `x > 0` and `y >= 0`: the degree `a` from 0 to
/// 89 at which the vector lies between the table's directions `a` and
/// `a + 1`.
pub open spec fn quarter_direction(x: int, y: int) -> int {
    first_sector(x, y, 0)
}

/// The direction of the vector `(dx, dy)` in whole degrees from 0 to 359. The
/// vector is turned back by whole quarter turns into the first one, where
/// [`quarter_direction`] measures it. The zero vector has direction 0.
pub open spec fn direction_spec(dx: int, dy: int) -> int {
    if dx > 0 && dy >= 0 {
        quarter_direction(dx, dy)
    } else if dx <= 0 && dy > 0 {
        90 + quarter_direction(dy, -dx)
    } else if dx < 0 && dy <= 0 {
        180 + quarter_direction(-dx, -dy)
    } else if dx >= 0 && dy < 0 {
        270 + quarter_direction(-dy, dx)
    } else {
        0
    }
}

/// Whether the direction `target` lies in the field of view that is `view`
/// steps of a degree wide and centred on `facing`: some angle that differs
/// from `target` by whole turns lies within half of `view` of `facing`.
pub open spec fn in_view(facing: int, view: int, target: int) -> bool {
    exists|turns: int| -view <= 2 * STEP * (#[trigger] whole_turns(target, turns) - facing) <= view
}

/// The angle `degrees` after `turns` more whole turns.
pub open spec fn whole_turns(degrees: int, turns: int) -> int {
    degrees + 360 * turns
}

/// The sector that [`first_sector`] finds holds the vector: the vector is
/// not clockwise of the sector's lower edge, where the search began there or
/// below, and it is clockwise of its upper edge.
pub proof fn lemma_first_sector(x: int, y: int, from: int)
    requires
        x > 0,
        y >= 0,
        0 <= from <= 89,
        !clockwise_of(x, y, from),
    ensures
        from <= first_sector(x, y, from) <= 89,
        !clockwise_of(x, y, first_sector(x, y, from)),
        clockwise_of(x, y, first_sector(x, y, from) + 1),
    decreases 89 - from,
{
    if from >= 89 || clockwise_of(x, y, from + 1) {
        if from >= 89 {
            let up = quarter_sine(0);
            let across = quarter_sine(90);
            assert(up == 0);
            assert(across == 65536);
            assert(up * y == 0);
            assert(across * x == 65536 * x);
            assert(clockwise_of(x, y, 90));
        }
    } else {
        lemma_first_sector(x, y, from + 1);
    }
}

/// Every direction is a whole degree from 0 to 359.
pub proof fn lemma_direction_range(dx: int, dy: int)
    ensures
        0 <= direction_spec(dx, dy) < 360,
{
    assert(quarter_sine(0) == 0);
    assert(quarter_sine(90) == 65536);
    if dx > 0 && dy >= 0 {
        lemma_first_sector(dx, dy, 0);
    } else if dx <= 0 && dy > 0 {
        lemma_first_sector(dy, -dx, 0);
    } else if dx < 0 && dy <= 0 {
        lemma_first_sector(-dx, -dy, 0);
    } else if dx >= 0 && dy < 0 {
        lemma_first_sector(-dy, dx, 0);
    }
}

/// A field of view of 360 degrees holds every direction, whatever it is
/// centred on.
pub proof fn lemma_full_view_sees_all(facing: int, target: int)
    ensures
        in_view(facing, 360 * STEP, target),
{
    assert(STEP == 65536);
    let d = (target - facing) % 360;
    let q = (target - facing) / 360;
    assert(target - facing == 360 * q + d);
    if 2 * d <= 360 {
        let off = whole_turns(target, -q) - facing;
        assert(off == d);
        assert(2 * STEP * off == 131072 * off) by (nonlinear_arith)
            requires
                STEP == 65536,
        ;
    } else {
        let off = whole_turns(target, -q - 1) - facing;
        assert(off == d - 360);
        assert(2 * STEP * off == 131072 * off) by (nonlinear_arith)
            requires
                STEP == 65536,
        ;
    }
}

/// The table's sine of `degrees`, for 0 to 90 degrees.
fn quarter(degrees: i32) -> (s: i32)
    requires
        0 <= degrees <= 90,
    ensures
        s == quarter_sine(degrees as int),
        0 <= s <= ONE,
{
    proof {
        lemma_table_range(degrees as int);
    }
    SINE[degrees as usize] as i32
}

/// No entry of the table exceeds `ONE`.
proof fn lemma_table_range(degrees: int)
    requires
        0 <= degrees <= 90,
    ensures
        0 <= quarter_sine(degrees) <= ONE,
{
    if degrees < 30 {
    } else if degrees < 60 {
    } else {
    }
}

/// The sine of an angle in whole degrees, times `ONE`.
pub fn sine(degrees: i32) -> (s: i32)
    ensures
        s == sine_spec(degrees as int),
        -ONE <= s <= ONE,
{
    let r: i32 = degrees % 360;
    let a: i32 = if r < 0 {
        r + 360
    } else {
        r
    };
    if a <= 90 {
        quarter(a)
    } else if a <= 180 {
        quarter(180 - a)
    } else if a <= 270 {
        -quarter(a - 180)
    } else {
        -quarter(360 - a)
    }
}

/// The cosine of an angle in whole degrees, times `ONE`.
pub fn cosine(degrees: i32) -> (c: i32)
    ensures
        c == cosine_spec(degrees as int),
        -ONE <= c <= ONE,
{
    let r: i32 = degrees % 360;
    proof {
        let turns = if degrees >= 0 {
            degrees as int / 360
        } else {
            -((-degrees) as int / 360)
        };
        assert(degrees + 90 == 360 * turns + (r + 90));
        lemma_mod_multiples_vanish(turns, r + 90, 360);
    }
    sine(r + 90)
}

/// Measures a vector of the first quarter turn: see [`quarter_direction`].
fn measure_quarter(x: i64, y: i64) -> (a: i32)
    requires
        0 < x <= 0x8000_0000,
        0 <= y <= 0x8000_0000,
    ensures
        a == quarter_direction(x as int, y as int),
        0 <= a <= 89,
{
    let mut a: i32 = 0;
    proof {
        assert(quarter_sine(0) == 0);
        lemma_first_sector(x as int, y as int, 0);
    }
    while a < 89
        invariant
            0 <= a <= 89,
            0 < x <= 0x8000_0000,
            0 <= y <= 0x8000_0000,
            first_sector(x as int, y as int, a as int) == quarter_direction(x as int, y as int),
        decreases 89 - a,
    {
        let up: i64 = quarter(89 - a) as i64;
        let across: i64 = quarter(a + 1) as i64;
        assert(0 <= up * y <= 0x1_0000 * 0x8000_0000) by (nonlinear_arith)
            requires
                0 <= up <= 0x1_0000,
                0 <= y <= 0x8000_0000,
        ;
        assert(0 <= across * x <= 0x1_0000 * 0x8000_0000) by (nonlinear_arith)
            requires
                0 <= across <= 0x1_0000,
                0 <= x <= 0x8000_0000,
        ;
        if up * y < across * x {
            return a;
        }
        a += 1;
    }
    a
}

/// The direction of the vector `(dx, dy)` in whole degrees from 0 to 359,
/// anticlockwise from the positive `x` axis; 0 for the zero vector.
pub fn direction(dx: i32, dy: i32) -> (degrees: i32)
    ensures
        degrees == direction_spec(dx as int, dy as int),
        0 <= degrees < 360,
{
    let x: i64 = dx as i64;
    let y: i64 = dy as i64;
    if x > 0 && y >= 0 {
        measure_quarter(x, y)
    } else if x <= 0 && y > 0 {
        90 + measure_quarter(y, -x)
    } else if x < 0 && y <= 0 {
        180 + measure_quarter(-x, -y)
    } else if x >= 0 && y < 0 {
        270 + measure_quarter(-y, x)
    } else {
        0
    }
}

/// Tells whether the direction `object_angle`, in degrees, lies in the field
/// of view that is `view_angle` steps of a degree wide and centred on
/// `facing_angle`, in degrees.
pub fn is_within_sight(facing_angle: i32, view_angle: i32, object_angle: i32) -> (seen: bool)
    ensures
        seen == in_view(facing_angle as int, view_angle as int, object_angle as int),
        view_angle >= 360 * STEP ==> seen,
{
    let difference: i64 = object_angle as i64 - facing_angle as i64;
    let r: i64 = difference % 360;
    let d: i64 = if r < 0 {
        r + 360
    } else {
        r
    };
    let view: i64 = view_angle as i64;
    assert(0 <= d < 360);
    let seen = 131072 * d <= view || 131072 * (360 - d) <= view;
    proof {
        lemma_in_view(facing_angle as int, view_angle as int, object_angle as int);
    }
    seen
}

/// A direction lies in a field of view exactly when its difference from the
/// centre, counted from 0 to 359 degrees, or what that lacks to a whole turn,
/// is at most half the width.
pub proof fn lemma_in_view(facing: int, view: int, target: int)
    ensures
        in_view(facing, view, target) == (2 * STEP * ((target - facing) % 360) <= view || 2 * STEP * (
        360 - (target - facing) % 360) <= view),
{
    assert(STEP == 65536);
    let d = (target - facing) % 360;
    let q = (target - facing) / 360;
    assert(target - facing == 360 * q + d);
    if 2 * STEP * d <= view {
        assert(whole_turns(target, -q) - facing == d);
    } else if 2 * STEP * (360 - d) <= view {
        assert(whole_turns(target, -q - 1) - facing == d - 360);
    } else {
        assert forall|turns: int| !(-view <= 2 * STEP * (#[trigger] whole_turns(target, turns)
            - facing) <= view) by {
            let m = turns + q;
            assert(whole_turns(target, turns) - facing == d + 360 * m);
            if m >= 0 {
                assert(d + 360 * m >= d);
            } else {
                assert(d + 360 * m <= d - 360);
            }
        }
    }
}

} // verus!
