//! Angles, and their quantization to the directions of a direction set.
//!
//! Angles are whole numbers of billionths of a degree. They are not reduced:
//! an angle and the same angle a full turn further are different values.

use vstd::prelude::*;
use vstd::arithmetic::div_mod::lemma_mod_multiples_basic;
use crate::error::WalkError;

verus! {

/// 45 degrees.
pub const EIGHTH_TURN: i64 = 45_000_000_000;

/// 90 degrees.
pub const QUARTER_TURN: i64 = 90_000_000_000;

/// 180 degrees.
pub const HALF_TURN: i64 = 180_000_000_000;

/// 360 degrees.
pub const FULL_TURN: i64 = 360_000_000_000;

/// The largest magnitude of a target angle that the presets take: a hundred
/// million quarter turns.
pub const ANGLE_LIMIT: i64 = 9_000_000_000_000_000_000;

/// The magnitude of an integer.
pub open spec fn magnitude(n: int) -> int {
    if n >= 0 {
        n
    } else {
        -n
    }
}

/// The magnitude of `n` rounded to the nearest multiple of `step`, halves
/// up, with the sign of `n` put back. Zero goes with the negative numbers,
/// which makes no difference to its result.
pub open spec fn nearest_multiple_spec(n: int, step: int) -> int {
    let rounded = (magnitude(n) + step / 2) / step * step;
    if n > 0 {
        rounded
    } else {
        -rounded
    }
}

/// Whether the presets take `angle` as a target.
pub open spec fn angle_in_range(angle: int) -> bool {
    -ANGLE_LIMIT <= angle <= ANGLE_LIMIT
}

/// The primary direction of a direction set whose primary directions are
/// `step` apart: the one nearest to `angle`.
pub open spec fn primary_near(angle: int, step: int) -> int {
    nearest_multiple_spec(angle, step)
}

/// The secondary direction of a direction set whose primary directions are
/// `step` apart: the nearest of the directions half-way between them.
pub open spec fn secondary_near(angle: int, step: int) -> int {
    nearest_multiple_spec(angle - step / 2, step) + step / 2
}

/// The two directions are `gap` apart and the target lies between them, or
/// on one of them.
pub open spec fn straddles(primary: int, secondary: int, angle: int, gap: int) -> bool {
    ||| primary <= angle <= secondary && secondary - primary == gap
    ||| secondary <= angle <= primary && primary - secondary == gap
}

/// The eight-way set gives an axis and a diagonal: the primary direction is
/// a multiple of 90 degrees, the secondary one 45 degrees more than such a
/// multiple. They are 45 degrees apart and the target lies between them.
pub proof fn lemma_eight_way_directions(angle: int)
    ensures
        primary_near(angle, QUARTER_TURN as int) % (QUARTER_TURN as int) == 0,
        secondary_near(angle, QUARTER_TURN as int) % (QUARTER_TURN as int) == EIGHTH_TURN,
        straddles(
            primary_near(angle, QUARTER_TURN as int),
            secondary_near(angle, QUARTER_TURN as int),
            angle,
            EIGHTH_TURN as int,
        ),
{
}

/// The four-way set gives one direction of each axis: the primary direction
/// is 0 or 180 degrees, the secondary one 90 or 270 degrees, each up to full
/// turns. They are 90 degrees apart and the target lies between them.
pub proof fn lemma_four_way_directions(angle: int)
    ensures
        ({
            let primary = primary_near(angle, HALF_TURN as int) % (FULL_TURN as int);
            primary == 0 || primary == HALF_TURN
        }),
        ({
            let secondary = secondary_near(angle, HALF_TURN as int) % (FULL_TURN as int);
            secondary == QUARTER_TURN || secondary == QUARTER_TURN + HALF_TURN
        }),
        straddles(
            primary_near(angle, HALF_TURN as int),
            secondary_near(angle, HALF_TURN as int),
            angle,
            QUARTER_TURN as int,
        ),
{
}

/// Rounds `n` to the nearest multiple of `step`.
pub fn nearest_multiple(n: i64, step: i64) -> (r: i64)
    requires
        0 < step,
        magnitude(n as int) + step / 2 <= i64::MAX,
    ensures
        r == nearest_multiple_spec(n as int, step as int),
        (r as int) % (step as int) == 0,
        2 * magnitude(r as int) - step <= 2 * magnitude(n as int) < 2 * magnitude(r as int)
            + step,
        n > 0 ==> r >= 0,
        n <= 0 ==> r <= 0,
{
    let size: i64 = if n >= 0 {
        n
    } else {
        -n
    };
    let raised: i64 = size + step / 2;
    let over: i64 = raised % step;
    let rounded: i64 = raised - over;
    proof {
        lemma_rounding(raised as int, step as int);
        lemma_halves(step as int);
    }
    if n > 0 {
        rounded
    } else {
        -rounded
    }
}

/// Taking off the remainder leaves the multiple below.
proof fn lemma_rounding(x: int, step: int)
    requires
        0 <= x,
        0 < step,
    ensures
        x - x % step == x / step * step,
        0 <= x / step * step <= x,
        x < x / step * step + step,
        (x / step * step) % step == 0,
        (-(x / step * step)) % step == 0,
{
    let q = x / step;
    let m = q * step;
    assert(x == m + x % step && 0 <= x % step < step && q >= 0) by (nonlinear_arith)
        requires
            q == x / step,
            m == q * step,
            0 <= x,
            0 < step,
    ;
    lemma_mod_multiples_basic(q, step);
    lemma_mod_multiples_basic(-q, step);
    assert((-q) * step == -m) by (nonlinear_arith)
        requires
            m == q * step,
    ;
}

/// A number is two of its halves, and one more if it is odd.
proof fn lemma_halves(step: int)
    requires
        0 < step,
    ensures
        2 * (step / 2) <= step <= 2 * (step / 2) + 1,
{
}

/// The two allowed directions that a direction set gives for a target.
#[derive(Clone, Copy, Debug, PartialEq, Eq, Structural)]
pub struct AllowedAngles {
    pub primary_angle: i64,
    pub secondary_angle: i64,
}

impl AllowedAngles {
    /// The allowed directions for `angle` where the primary directions are
    /// `step` apart and the secondary ones lie half-way between them.
    fn around(angle: i64, step: i64) -> (r: Result<AllowedAngles, WalkError>)
        requires
            0 < step <= HALF_TURN,
            step % 2 == 0,
        ensures
            match r {
                Ok(allowed) => {
                    &&& angle_in_range(angle as int)
                    &&& allowed.primary_angle == primary_near(angle as int, step as int)
                    &&& allowed.secondary_angle == secondary_near(angle as int, step as int)
                },
                Err(e) => e == WalkError::InvalidParameter && !angle_in_range(angle as int),
            },
    {
        if angle < -ANGLE_LIMIT || angle > ANGLE_LIMIT {
            return Err(WalkError::InvalidParameter);
        }
        let half: i64 = step / 2;
        let primary_angle: i64 = nearest_multiple(angle, step);
        let shifted: i64 = nearest_multiple(angle - half, step);
        Ok(AllowedAngles { primary_angle, secondary_angle: shifted + half })
    }

    /// The allowed directions of the eight-way set: the nearest axis and the
    /// nearest diagonal.
    pub fn eight_way(angle: i64) -> (r: Result<AllowedAngles, WalkError>)
        ensures
            match r {
                Ok(allowed) => {
                    &&& angle_in_range(angle as int)
                    &&& allowed.primary_angle == primary_near(angle as int, QUARTER_TURN as int)
                    &&& allowed.secondary_angle == secondary_near(
                        angle as int,
                        QUARTER_TURN as int,
                    )
                },
                Err(e) => e == WalkError::InvalidParameter && !angle_in_range(angle as int),
            },
    {
        AllowedAngles::around(angle, QUARTER_TURN)
    }

    /// The allowed directions of the four-way set: the nearest direction of
    /// the horizontal axis and the nearest direction of the vertical axis.
    pub fn four_way(angle: i64) -> (r: Result<AllowedAngles, WalkError>)
        ensures
            match r {
                Ok(allowed) => {
                    &&& angle_in_range(angle as int)
                    &&& allowed.primary_angle == primary_near(angle as int, HALF_TURN as int)
                    &&& allowed.secondary_angle == secondary_near(angle as int, HALF_TURN as int)
                },
                Err(e) => e == WalkError::InvalidParameter && !angle_in_range(angle as int),
            },
    {
        AllowedAngles::around(angle, HALF_TURN)
    }
}

/// The angle between an allowed direction and the target, without its sign.
pub fn relative_angle(allowed: i64, angle: i64) -> (r: u64)
    ensures
        r == magnitude(allowed - angle),
{
    let diff: i128 = allowed as i128 - angle as i128;
    if diff >= 0 {
        diff as u64
    } else {
        (-diff) as u64
    }
}

} // verus!
