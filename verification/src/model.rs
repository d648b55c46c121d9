//! The mathematical model of a walk: the request that defines it and, as
//! functions of the request, everything a plan holds.

use vstd::prelude::*;
use crate::geometry::{Side, Slope};

verus! {

/// A walk as a mathematical object. The seven fields are the request; the leg
/// distances, the repeat count and the leftover legs are functions of them.
pub struct WalkPlan {
    /// The target direction.
    pub angle: int,
    /// The net distance to cover along `angle`.
    pub displacement: int,
    /// The largest distance a leg may stray from the target line.
    pub offset: int,
    /// The first allowed direction.
    pub primary_angle: int,
    /// The second allowed direction.
    pub secondary_angle: int,
    /// How the primary direction lies against the target line.
    pub primary_slope: Slope,
    /// How the secondary direction lies against the target line.
    pub secondary_slope: Slope,
}

impl WalkPlan {
    /// The target coincides with an allowed direction: the walk is one
    /// straight leg, and the slopes play no part.
    pub open spec fn degenerate(self) -> bool {
        self.angle == self.primary_angle || self.angle == self.secondary_angle
    }

    /// The side that a degenerate walk runs along. Where both allowed
    /// directions coincide with the target, it is the primary one.
    pub open spec fn matched_side(self) -> Side {
        if self.angle == self.primary_angle {
            Side::Primary
        } else {
            Side::Secondary
        }
    }

    /// A pair of legs makes headway along the target line: not both allowed
    /// directions are at right angles to it.
    pub open spec fn advances(self) -> bool {
        self.primary_slope.along > 0 || self.secondary_slope.along > 0
    }

    /// The requests for which a plan exists: the offset is positive and the
    /// displacement not negative; and, where the target lies strictly
    /// between the allowed directions, both slopes are valid and a pair of
    /// legs makes headway.
    pub open spec fn valid(self) -> bool {
        &&& self.offset > 0
        &&& self.displacement >= 0
        &&& !self.degenerate() ==> {
            &&& self.primary_slope.valid()
            &&& self.secondary_slope.valid()
            &&& self.advances()
        }
    }

    /// The allowed direction of a side.
    pub open spec fn allowed_angle(self, side: Side) -> int {
        match side {
            Side::Primary => self.primary_angle,
            Side::Secondary => self.secondary_angle,
        }
    }

    /// The slope of a side.
    pub open spec fn slope(self, side: Side) -> Slope {
        match side {
            Side::Primary => self.primary_slope,
            Side::Secondary => self.secondary_slope,
        }
    }

    /// The length of a leg that strays exactly `offset` from the target line:
    /// `offset / sin`.
    pub open spec fn leg_distance(self, side: Side) -> real {
        self.offset as real / self.slope(side).sin()
    }

    /// The headway along the target line of one primary leg and one secondary
    /// leg: `offset / tan` for each side, written with the cotangent so that a
    /// right angle needs no special case.
    pub open spec fn pair_displacement(self) -> real {
        self.offset as real * self.primary_slope.cot() + self.offset as real
            * self.secondary_slope.cot()
    }

    /// The number of complete pairs of legs: `floor(displacement /
    /// pair_displacement)`, and none in a degenerate walk.
    pub open spec fn repeat_count(self) -> int {
        if self.degenerate() {
            0
        } else {
            (self.displacement as real / self.pair_displacement()).floor()
        }
    }

    /// The headway that is left after the complete pairs.
    pub open spec fn remaining(self) -> real {
        self.displacement as real - self.pair_displacement() * self.repeat_count() as real
    }

    /// The offset of the final, scaled-down pair of legs.
    pub open spec fn last_offset(self) -> real {
        self.offset as real * self.remaining() / self.pair_displacement()
    }

    /// The length of the final, scaled-down leg of a side.
    pub open spec fn last_distance(self, side: Side) -> real {
        self.last_offset() / self.slope(side).sin()
    }

    /// The length of the whole path: the displacement itself in a degenerate
    /// walk, else all complete pairs and the final pair.
    pub open spec fn total_distance(self) -> real {
        if self.degenerate() {
            self.displacement as real
        } else {
            (self.leg_distance(Side::Primary) + self.leg_distance(Side::Secondary))
                * self.repeat_count() as real + self.last_distance(Side::Primary)
                + self.last_distance(Side::Secondary)
        }
    }

    /// The number of steps that a traversal of the walk emits.
    pub open spec fn step_count(self) -> int {
        if self.degenerate() {
            1
        } else {
            self.repeat_count() + 2
        }
    }

    /// The length of step `i` of a non-degenerate walk.
    ///
    /// With no complete pair, the two final legs. Else a single leg to leave
    /// the target line, then doubled legs that cross it from one side to the
    /// other, then a leg joined with the final leg of its side, then the
    /// final leg of the other side.
    pub open spec fn step_distance(self, start_primary: bool, i: int) -> real {
        let side = side_at(start_primary, i);
        let n = self.repeat_count();
        if n == 0 {
            self.last_distance(side)
        } else if i == 0 {
            self.leg_distance(side)
        } else if i < n {
            2real * self.leg_distance(side)
        } else if i == n {
            self.leg_distance(side) + self.last_distance(side)
        } else {
            self.last_distance(side)
        }
    }

    /// Step `i` of a traversal, for `0 <= i < step_count()`.
    pub open spec fn step_at(self, start_primary: bool, i: int) -> Step {
        if self.degenerate() {
            Step {
                side: self.matched_side(),
                angle: self.angle,
                distance: self.displacement as real,
            }
        } else {
            let side = side_at(start_primary, i);
            Step {
                side,
                angle: self.allowed_angle(side),
                distance: self.step_distance(start_primary, i),
            }
        }
    }

    /// All steps of a traversal, in the order in which they are emitted.
    pub open spec fn steps(self, start_primary: bool) -> Seq<Step> {
        Seq::new(self.step_count() as nat, |i: int| self.step_at(start_primary, i))
    }

    /// How far the steps lead along the target line: each length times the
    /// cosine of its side.
    pub open spec fn headway(self, steps: Seq<Step>) -> real {
        weighted_sum(steps, self.primary_slope.cos(), self.secondary_slope.cos())
    }

    /// How far the steps lead away from the target line: each length times
    /// the sine of its side, where primary legs lead to one side of the line
    /// and secondary legs to the other.
    pub open spec fn drift(self, steps: Seq<Step>) -> real {
        weighted_sum(steps, self.primary_slope.sin(), -self.secondary_slope.sin())
    }
}

/// One step of a walk: a straight move of `distance` along `angle`, which is
/// the allowed direction of `side`.
pub struct Step {
    pub side: Side,
    pub angle: int,
    pub distance: real,
}

impl Step {
    /// The length of the step times the weight of its side.
    pub open spec fn weighed(self, primary: real, secondary: real) -> real {
        match self.side {
            Side::Primary => self.distance * primary,
            Side::Secondary => self.distance * secondary,
        }
    }
}

/// The sum of the lengths of the steps, each times the weight of its side.
pub open spec fn weighted_sum(steps: Seq<Step>, primary: real, secondary: real) -> real
    decreases steps.len(),
{
    if steps.len() == 0 {
        0real
    } else {
        weighted_sum(steps.drop_last(), primary, secondary) + steps.last().weighed(
            primary,
            secondary,
        )
    }
}

/// The length of the path that the steps make.
pub open spec fn path_length(steps: Seq<Step>) -> real {
    weighted_sum(steps, 1real, 1real)
}

/// The side of step `i`: the sides alternate, and `start_primary` names the
/// side of step 0.
pub open spec fn side_at(start_primary: bool, i: int) -> Side {
    if (i % 2 == 0) == start_primary {
        Side::Primary
    } else {
        Side::Secondary
    }
}

} // verus!
