//! Integer arithmetic shared by the rest of the crate: division that rounds
//! toward zero, clamping into `i16`, and the integer square root.

use vstd::prelude::*;

verus! {

/// How many steps of the fixed point make one: velocities are kept in steps
/// of a grid unit per tick, radii in steps of a grid unit, and the widths of
/// fields of view in steps of a degree.
pub const STEP: i32 = 65536;

/// The quotient `a / b` rounded toward zero, for a positive divisor.
pub open spec fn trunc_div(a: int, b: int) -> int
    recommends
        b > 0,
{
    if a >= 0 {
        a / b
    } else {
        -((-a) / b)
    }
}

/// The value of `v` brought into the range of `i16`.
pub open spec fn clamp_i16_spec(v: int) -> int {
    if v < i16::MIN {
        i16::MIN as int
    } else if v > i16::MAX {
        i16::MAX as int
    } else {
        v
    }
}

/// The value of `v` brought into the range of `i32`.
pub open spec fn clamp_i32_spec(v: int) -> int {
    if v < i32::MIN {
        i32::MIN as int
    } else if v > i32::MAX {
        i32::MAX as int
    } else {
        v
    }
}

/// `v` moved by `delta`, both the move and the result brought into the range
/// of `i32`.
pub open spec fn nudge_spec(v: int, delta: int) -> int {
    clamp_i32_spec(v + clamp_i32_spec(delta))
}

/// The absolute value of `v`.
pub open spec fn abs(v: int) -> int {
    if v < 0 {
        -v
    } else {
        v
    }
}

/// `r` is the integer part of the square root of `n`.
pub open spec fn is_floor_sqrt(n: int, r: int) -> bool {
    0 <= r && r * r <= n < (r + 1) * (r + 1)
}

/// The integer part of the square root of `n`, for `n >= 0`.
pub open spec fn floor_sqrt(n: int) -> int
    recommends
        n >= 0,
{
    choose|r: int| is_floor_sqrt(n, r)
}

/// The least whole number whose square is at least `n`, for `n >= 0`: the
/// square root of `n` rounded up.
pub open spec fn ceil_sqrt(n: int) -> int
    recommends
        n >= 0,
{
    let r = floor_sqrt(n);
    if r * r == n {
        r
    } else {
        r + 1
    }
}

/// The quotient `a / b` rounded up, for `a >= 0` and a positive divisor.
pub open spec fn ceil_div(a: int, b: int) -> int
    recommends
        a >= 0,
        b > 0,
{
    (a + b - 1) / b
}

/// Squaring is monotone on the non-negative integers.
pub proof fn lemma_square_monotone(a: int, b: int)
    requires
        0 <= a <= b,
    ensures
        a * a <= b * b,
{
    assert(a * a <= b * b) by (nonlinear_arith)
        requires
            0 <= a <= b,
    ;
}

/// Every number that is not negative has an integer square root.
pub proof fn lemma_floor_sqrt_exists(n: int)
    requires
        n >= 0,
    ensures
        is_floor_sqrt(n, floor_sqrt(n)),
    decreases n,
{
    if n == 0 {
        assert(is_floor_sqrt(0, 0));
    } else {
        lemma_floor_sqrt_exists(n - 1);
        let r = floor_sqrt(n - 1);
        if n < (r + 1) * (r + 1) {
            assert(is_floor_sqrt(n, r));
        } else {
            assert((r + 2) * (r + 2) > (r + 1) * (r + 1)) by (nonlinear_arith)
                requires
                    r >= 0,
            ;
            assert(is_floor_sqrt(n, r + 1));
        }
    }
}

/// At most one integer is the integer square root of `n`, and
/// [`floor_sqrt`] names it.
pub proof fn lemma_floor_sqrt_unique(n: int, r: int)
    requires
        is_floor_sqrt(n, r),
    ensures
        floor_sqrt(n) == r,
{
    let s = floor_sqrt(n);
    assert(is_floor_sqrt(n, s));
    if s < r {
        lemma_square_monotone(s + 1, r);
    }
    if r < s {
        lemma_square_monotone(r + 1, s);
    }
}

/// The integer square root is monotone.
pub proof fn lemma_floor_sqrt_monotone(a: int, b: int, ra: int, rb: int)
    requires
        a <= b,
        is_floor_sqrt(a, ra),
        is_floor_sqrt(b, rb),
    ensures
        ra <= rb,
{
    if rb < ra {
        lemma_square_monotone(rb + 1, ra);
    }
}

/// Brings `v` into the range of `i16`.
pub fn clamp_i16(v: i128) -> (r: i16)
    ensures
        r == clamp_i16_spec(v as int),
{
    if v < -32768 {
        -32768
    } else if v > 32767 {
        32767
    } else {
        v as i16
    }
}

/// Brings `v` into the range of `i32`.
pub fn clamp_i32(v: i128) -> (r: i32)
    ensures
        r == clamp_i32_spec(v as int),
{
    if v < -2147483648 {
        -2147483648
    } else if v > 2147483647 {
        2147483647
    } else {
        v as i32
    }
}

/// Moves `v` by `delta`, bringing both the move and the result into the range
/// of `i32`.
pub fn nudge(v: i32, delta: i128) -> (r: i32)
    ensures
        r == nudge_spec(v as int, delta as int),
{
    let by: i32 = clamp_i32(delta);
    clamp_i32(v as i128 + by as i128)
}

/// The product of `amount` and `factor` divided by `divisor`, rounded toward
/// zero.
pub fn portion(amount: i128, factor: i32, divisor: u128) -> (r: i128)
    requires
        -0x1_0000_0000_0000_0000_0000_0000 < amount < 0x1_0000_0000_0000_0000_0000_0000,
        divisor >= 2,
    ensures
        r == trunc_div(amount * factor, divisor as int),
{
    let size: u128 = if amount < 0 {
        (-amount) as u128
    } else {
        amount as u128
    };
    let scale: u128 = if factor < 0 {
        (-(factor as i64)) as u128
    } else {
        factor as u128
    };
    assert(0 <= size * scale <= 0xFFFF_FFFF_FFFF_FFFF_FFFF_FFFF * 0x8000_0000) by (nonlinear_arith)
        requires
            0 <= size <= 0xFFFF_FFFF_FFFF_FFFF_FFFF_FFFF,
            0 <= scale <= 0x8000_0000,
    ;
    assert(size * scale == abs(amount * factor)) by (nonlinear_arith)
        requires
            size == abs(amount as int),
            scale == abs(factor as int),
    ;
    let product: u128 = size * scale;
    let quotient: u128 = product / divisor;
    assert(quotient <= product / 2) by (nonlinear_arith)
        requires
            quotient == product / divisor,
            divisor >= 2,
            product >= 0,
    ;
    let ghost exact = amount as int * factor as int;
    assert(exact < 0 <==> ((amount < 0) != (factor < 0)) && amount != 0 && factor != 0)
        by (nonlinear_arith)
        requires
            exact == amount as int * factor as int,
    ;
    assert(product == abs(exact));
    if (amount < 0) != (factor < 0) {
        proof {
            if exact < 0 {
                assert(product == -exact);
                assert(trunc_div(exact, divisor as int) == -((-exact) / (divisor as int)));
            } else {
                assert(exact == 0) by (nonlinear_arith)
                    requires
                        exact == amount as int * factor as int,
                        amount == 0 || factor == 0,
                ;
                assert(product == 0);
                assert(quotient == 0);
                assert(trunc_div(exact, divisor as int) == 0);
            }
        }
        -(quotient as i128)
    } else {
        proof {
            assert(exact >= 0);
            assert(product == exact);
            assert(trunc_div(exact, divisor as int) == exact / (divisor as int));
        }
        quotient as i128
    }
}

/// Divides rounding toward zero.
pub fn div_toward_zero(a: i128, b: i128) -> (r: i128)
    requires
        b > 0,
    ensures
        r == trunc_div(a as int, b as int),
{
    a / b
}

/// The square of the square root rounded up is at least `n`, and the square
/// of the whole number before it is less.
pub proof fn lemma_ceil_sqrt(n: int)
    requires
        n >= 0,
    ensures
        ceil_sqrt(n) >= 0,
        ceil_sqrt(n) * ceil_sqrt(n) >= n,
        ceil_sqrt(n) > 0 ==> (ceil_sqrt(n) - 1) * (ceil_sqrt(n) - 1) < n,
        n > 0 ==> ceil_sqrt(n) > 0,
{
    lemma_floor_sqrt_exists(n);
    let r = floor_sqrt(n);
    if r * r != n {
        assert((r + 1 - 1) * (r + 1 - 1) == r * r);
    } else if r > 0 {
        lemma_square_monotone(r - 1, r);
        assert((r - 1) * (r - 1) < r * r) by (nonlinear_arith)
            requires
                r > 0,
        ;
    }
    if n > 0 && r == 0 {
        assert(r * r == 0) by (nonlinear_arith)
            requires
                r == 0,
        ;
    }
}

/// Computes the square root of `n` rounded up.
pub fn isqrt_up(n: u128) -> (r: u128)
    ensures
        r == ceil_sqrt(n as int),
        r <= 0x1_0000_0000_0000_0000,
{
    let low: u64 = isqrt(n);
    let wide: u128 = low as u128;
    assert(wide * wide <= n);
    if wide * wide == n {
        wide
    } else {
        wide + 1
    }
}

/// Computes the integer part of the square root of `n` by bisection.
pub fn isqrt(n: u128) -> (r: u64)
    ensures
        is_floor_sqrt(n as int, r as int),
        r == floor_sqrt(n as int),
{
    let mut low: u128 = 0;
    let mut high: u128 = 0x1_0000_0000_0000_0000;
    assert(n < high * high) by (nonlinear_arith)
        requires
            high == 0x1_0000_0000_0000_0000,
            n <= u128::MAX,
    ;
    while high - low > 1
        invariant
            low < high <= 0x1_0000_0000_0000_0000,
            low * low <= n,
            n < high * high,
        decreases high - low,
    {
        let middle: u128 = low + (high - low) / 2;
        assert(middle * middle <= 0xFFFF_FFFF_FFFF_FFFF * 0xFFFF_FFFF_FFFF_FFFF) by (nonlinear_arith)
            requires
                0 <= middle <= 0xFFFF_FFFF_FFFF_FFFF,
        ;
        if middle * middle <= n {
            low = middle;
        } else {
            high = middle;
        }
    }
    proof {
        lemma_floor_sqrt_unique(n as int, low as int);
    }
    low as u64
}

} // verus!
