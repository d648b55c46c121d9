//! Plans: the quantities of a walk, computed once from a request.

use vstd::prelude::*;
use crate::angle::{
    angle_in_range, primary_near, secondary_near, AllowedAngles, HALF_TURN, QUARTER_TURN,
};
use crate::closed_form::{lemma_closed_forms, lemma_plan_bounds, lemma_total_closed_form};
use crate::error::WalkError;
use crate::geometry::{Length, Side, Slope, SLOPE_LIMIT};
use crate::model::WalkPlan;
use crate::sequence::RigidWalkIterFull;

verus! {

/// A plan: the request and, computed from it, the leg distances, the number
/// of complete pairs of legs and the final, scaled-down pair.
#[derive(Clone, Copy, Debug)]
pub struct RigidWalk {
    angle: i64,
    displacement: i32,
    offset: i32,
    primary_angle: i64,
    secondary_angle: i64,
    primary_slope: Slope,
    secondary_slope: Slope,
    primary_segment_distance: Length,
    secondary_segment_distance: Length,
    times: u128,
    last_primary_distance: Length,
    last_secondary_distance: Length,
}

/// The request that the arguments of [`RigidWalk::new`] make.
pub open spec fn request(
    primary_angle: i64,
    secondary_angle: i64,
    angle: i64,
    displacement: i32,
    offset: i32,
    primary_slope: Slope,
    secondary_slope: Slope,
) -> WalkPlan {
    WalkPlan {
        angle: angle as int,
        displacement: displacement as int,
        offset: offset as int,
        primary_angle: primary_angle as int,
        secondary_angle: secondary_angle as int,
        primary_slope,
        secondary_slope,
    }
}

/// The request that a preset makes of its arguments: the allowed directions
/// are those of the direction set whose primary directions are `step` apart.
pub open spec fn preset_request(
    step: int,
    angle: i64,
    displacement: i32,
    offset: i32,
    primary_slope: Slope,
    secondary_slope: Slope,
) -> WalkPlan {
    WalkPlan {
        angle: angle as int,
        displacement: displacement as int,
        offset: offset as int,
        primary_angle: primary_near(angle as int, step),
        secondary_angle: secondary_near(angle as int, step),
        primary_slope,
        secondary_slope,
    }
}

impl View for RigidWalk {
    type V = WalkPlan;

    /// The request that the plan was made for.
    closed spec fn view(&self) -> WalkPlan {
        request(
            self.primary_angle,
            self.secondary_angle,
            self.angle,
            self.displacement,
            self.offset,
            self.primary_slope,
            self.secondary_slope,
        )
    }
}

impl RigidWalk {
    /// The stored leg distance of a side.
    pub(crate) closed spec fn stored_leg(self, side: Side) -> Length {
        match side {
            Side::Primary => self.primary_segment_distance,
            Side::Secondary => self.secondary_segment_distance,
        }
    }

    /// The stored final leg of a side.
    pub(crate) closed spec fn stored_last(self, side: Side) -> Length {
        match side {
            Side::Primary => self.last_primary_distance,
            Side::Secondary => self.last_secondary_distance,
        }
    }

    /// The request is valid, and what the plan stores is what the model says
    /// of the request: nothing in a degenerate plan, else each distance as
    /// its exact fraction over the denominator of its side.
    #[verifier::type_invariant]
    pub(crate) closed spec fn inv(self) -> bool {
        let p = self@;
        &&& p.valid()
        &&& p.degenerate() ==> {
            &&& self.times == 0
            &&& forall|side: Side| #[trigger] self.stored_leg(side) == (Length { num: 0, den: 1 })
            &&& forall|side: Side| #[trigger]
                self.stored_last(side) == (Length { num: 0, den: 1 })
        }
        &&& !p.degenerate() ==> {
            &&& self.times == p.reach_units() / p.pair_units()
            &&& forall|side: Side| #[trigger]
                self.stored_leg(side) == (Length {
                    num: p.leg_num(side) as u128,
                    den: p.side_den(side) as u128,
                })
            &&& forall|side: Side| #[trigger]
                self.stored_last(side) == (Length {
                    num: p.last_num(side) as u128,
                    den: p.side_den(side) as u128,
                })
        }
    }

    /// A plan that keeps its invariant is a plan of a valid request.
    pub(crate) proof fn lemma_valid(self)
        requires
            self.inv(),
        ensures
            self@.valid(),
    {
    }

    /// Plans a walk that covers `displacement` along `angle` on legs along
    /// `primary_angle` and `secondary_angle`, none of which strays further
    /// than `offset` from the target line.
    ///
    /// Where `angle` is one of the allowed angles the plan is degenerate and
    /// the slopes are not looked at. Else `primary_slope` and
    /// `secondary_slope` give the sine and cosine of the angle between the
    /// target and each allowed direction.
    ///
    /// Fails with [`WalkError::InvalidParameter`] exactly where the request
    /// is not valid; see [`WalkPlan::valid`].
    pub fn new(
        primary_angle: i64,
        secondary_angle: i64,
        angle: i64,
        displacement: i32,
        offset: i32,
        primary_slope: Slope,
        secondary_slope: Slope,
    ) -> (r: Result<RigidWalk, WalkError>)
        ensures
            match r {
                Ok(walk) => {
                    &&& walk@ == request(
                        primary_angle,
                        secondary_angle,
                        angle,
                        displacement,
                        offset,
                        primary_slope,
                        secondary_slope,
                    )
                    &&& walk@.valid()
                },
                Err(e) => {
                    &&& e == WalkError::InvalidParameter
                    &&& !request(
                        primary_angle,
                        secondary_angle,
                        angle,
                        displacement,
                        offset,
                        primary_slope,
                        secondary_slope,
                    ).valid()
                },
            },
    {
        let ghost p = request(
            primary_angle,
            secondary_angle,
            angle,
            displacement,
            offset,
            primary_slope,
            secondary_slope,
        );
        if offset <= 0 || displacement < 0 {
            return Err(WalkError::InvalidParameter);
        }
        if angle == primary_angle || angle == secondary_angle {
            let nothing = Length { num: 0, den: 1 };
            return Ok(
                RigidWalk {
                    angle,
                    displacement,
                    offset,
                    primary_angle,
                    secondary_angle,
                    primary_slope,
                    secondary_slope,
                    primary_segment_distance: nothing,
                    secondary_segment_distance: nothing,
                    times: 0,
                    last_primary_distance: nothing,
                    last_secondary_distance: nothing,
                },
            );
        }
        if !primary_slope.is_valid() || !secondary_slope.is_valid() || (primary_slope.along == 0
            && secondary_slope.along == 0) {
            return Err(WalkError::InvalidParameter);
        }
        proof {
            lemma_plan_bounds(p);
            assert(p.side_den(Side::Primary) > 0 && p.side_den(Side::Secondary) > 0);
            assert(p.leg_num(Side::Primary) > 0 && p.leg_num(Side::Secondary) > 0);
            assert(p.last_num(Side::Primary) >= 0 && p.last_num(Side::Secondary) >= 0);
        }
        let off: u128 = offset as u128;
        let d: u128 = displacement as u128;
        let op: u128 = primary_slope.across as u128;
        let os: u128 = secondary_slope.across as u128;
        assert(primary_slope.along * secondary_slope.across <= 0x1000_0000_0000_0000
            && secondary_slope.along * primary_slope.across <= 0x1000_0000_0000_0000
            && op * os == p.grain()) by (nonlinear_arith)
            requires
                primary_slope.along <= 0x4000_0000,
                secondary_slope.along <= 0x4000_0000,
                primary_slope.across <= 0x4000_0000,
                secondary_slope.across <= 0x4000_0000,
                op == primary_slope.across,
                os == secondary_slope.across,
                p.grain() == primary_slope.across * secondary_slope.across,
        ;
        let k: u128 = primary_slope.along as u128 * os + secondary_slope.along as u128 * op;
        assert(k == p.cross());
        let w: u128 = off * k;
        let grain: u128 = op * os;
        let reach: u128 = d * grain;
        let times: u128 = reach / w;
        let rest: u128 = reach % w;
        assert(rest == p.rest_units());
        let hp: u128 = primary_slope.span as u128;
        let hs: u128 = secondary_slope.span as u128;
        assert(off * hp <= 0x2000_0000_0000_0000 && off * hs <= 0x2000_0000_0000_0000
            && off * hp * k == p.leg_num(Side::Primary) && off * hs * k == p.leg_num(
            Side::Secondary,
        )) by (nonlinear_arith)
            requires
                off <= 0x7fff_ffff,
                hp <= 0x4000_0000,
                hs <= 0x4000_0000,
                hp == primary_slope.span,
                hs == secondary_slope.span,
                off == p.offset,
                k == p.cross(),
                p.leg_num(Side::Primary) == p.offset * primary_slope.span * p.cross(),
                p.leg_num(Side::Secondary) == p.offset * secondary_slope.span * p.cross(),
        ;
        let walk = RigidWalk {
            angle,
            displacement,
            offset,
            primary_angle,
            secondary_angle,
            primary_slope,
            secondary_slope,
            primary_segment_distance: Length { num: off * hp * k, den: k * op },
            secondary_segment_distance: Length { num: off * hs * k, den: k * os },
            times,
            last_primary_distance: Length { num: rest * hp, den: k * op },
            last_secondary_distance: Length { num: rest * hs, den: k * os },
        };
        Ok(walk)
    }

    /// Plans a walk along the eight directions of the compass: the primary
    /// direction is the axis nearest to `angle`, the secondary one the
    /// nearest diagonal. The slopes are those of these two directions, which
    /// [`AllowedAngles::eight_way`] gives.
    pub fn walk8(
        angle: i64,
        displacement: i32,
        offset: i32,
        primary_slope: Slope,
        secondary_slope: Slope,
    ) -> (r: Result<RigidWalk, WalkError>)
        ensures
            match r {
                Ok(walk) => {
                    &&& angle_in_range(angle as int)
                    &&& walk@ == preset_request(
                        QUARTER_TURN as int,
                        angle,
                        displacement,
                        offset,
                        primary_slope,
                        secondary_slope,
                    )
                    &&& walk@.valid()
                },
                Err(e) => {
                    &&& e == WalkError::InvalidParameter
                    &&& !angle_in_range(angle as int) || !preset_request(
                        QUARTER_TURN as int,
                        angle,
                        displacement,
                        offset,
                        primary_slope,
                        secondary_slope,
                    ).valid()
                },
            },
    {
        match AllowedAngles::eight_way(angle) {
            Ok(allowed) => RigidWalk::new(
                allowed.primary_angle,
                allowed.secondary_angle,
                angle,
                displacement,
                offset,
                primary_slope,
                secondary_slope,
            ),
            Err(e) => Err(e),
        }
    }

    /// Plans a walk along up, down, left and right: the primary direction is
    /// the nearest direction of one axis, the secondary one the nearest
    /// direction of the other axis. The slopes are those of these two
    /// directions, which [`AllowedAngles::four_way`] gives.
    pub fn walk4(
        angle: i64,
        displacement: i32,
        offset: i32,
        primary_slope: Slope,
        secondary_slope: Slope,
    ) -> (r: Result<RigidWalk, WalkError>)
        ensures
            match r {
                Ok(walk) => {
                    &&& angle_in_range(angle as int)
                    &&& walk@ == preset_request(
                        HALF_TURN as int,
                        angle,
                        displacement,
                        offset,
                        primary_slope,
                        secondary_slope,
                    )
                    &&& walk@.valid()
                },
                Err(e) => {
                    &&& e == WalkError::InvalidParameter
                    &&& !angle_in_range(angle as int) || !preset_request(
                        HALF_TURN as int,
                        angle,
                        displacement,
                        offset,
                        primary_slope,
                        secondary_slope,
                    ).valid()
                },
            },
    {
        match AllowedAngles::four_way(angle) {
            Ok(allowed) => RigidWalk::new(
                allowed.primary_angle,
                allowed.secondary_angle,
                angle,
                displacement,
                offset,
                primary_slope,
                secondary_slope,
            ),
            Err(e) => Err(e),
        }
    }

    /// The length of the whole path.
    pub fn total_distance(&self) -> (r: Length)
        ensures
            self@.valid(),
            r.well_formed(),
            r@ == self@.total_distance(),
    {
        match self.matched() {
            Some(_) => self.whole(),
            None => {
                proof {
                    use_type_invariant(self);
                    lemma_total_closed_form(self@);
                    lemma_plan_bounds(self@);
                }
                let d: u128 = self.displacement as u128;
                let op: u128 = self.primary_slope.across as u128;
                let os: u128 = self.secondary_slope.across as u128;
                let ap: u128 = self.primary_slope.along as u128;
                let a_s: u128 = self.secondary_slope.along as u128;
                let hp: u128 = self.primary_slope.span as u128;
                let hs: u128 = self.secondary_slope.span as u128;
                assert(ap * os <= 0x1000_0000_0000_0000 && a_s * op <= 0x1000_0000_0000_0000 && hp
                    * os <= 0x1000_0000_0000_0000 && hs * op <= 0x1000_0000_0000_0000)
                    by (nonlinear_arith)
                    requires
                        ap <= 0x4000_0000,
                        a_s <= 0x4000_0000,
                        hp <= 0x4000_0000,
                        hs <= 0x4000_0000,
                        op <= 0x4000_0000,
                        os <= 0x4000_0000,
                ;
                let spans: u128 = hp * os + hs * op;
                assert(d * spans <= 0x1000_0000_0000_0000_0000_0000) by (nonlinear_arith)
                    requires
                        d <= 0x7fff_ffff,
                        spans <= 0x2000_0000_0000_0000,
                ;
                Length { num: d * spans, den: ap * os + a_s * op }
            },
        }
    }

    /// A traversal of the plan from its first step. `start_primary` says
    /// whether the first leg is along the primary direction.
    pub fn iter_full(&self, start_primary: bool) -> (r: RigidWalkIterFull)
        ensures
            r.plan() == self@,
            r.plan().valid(),
            r.start_primary() == start_primary,
            r.position() == 0,
            r.position() < r.plan().step_count(),
    {
        RigidWalkIterFull::new(self, start_primary)
    }

    /// Whether the plan is one straight leg, and along which side.
    pub(crate) fn matched(&self) -> (r: Option<Side>)
        ensures
            self@.valid(),
            match r {
                Some(side) => self@.degenerate() && side == self@.matched_side(),
                None => !self@.degenerate(),
            },
    {
        proof {
            use_type_invariant(self);
        }
        if self.angle == self.primary_angle {
            Some(Side::Primary)
        } else if self.angle == self.secondary_angle {
            Some(Side::Secondary)
        } else {
            None
        }
    }

    /// The target direction.
    pub(crate) fn target(&self) -> (r: i64)
        ensures
            r == self@.angle,
    {
        self.angle
    }

    /// The displacement as a length.
    pub(crate) fn whole(&self) -> (r: Length)
        ensures
            r.well_formed(),
            r@ == self@.displacement as real,
    {
        proof {
            use_type_invariant(self);
        }
        Length::whole(self.displacement as u128)
    }

    /// The allowed direction of a side.
    pub(crate) fn allowed(&self, side: Side) -> (r: i64)
        ensures
            r == self@.allowed_angle(side),
    {
        match side {
            Side::Primary => self.primary_angle,
            Side::Secondary => self.secondary_angle,
        }
    }

    /// The number of complete pairs of legs.
    pub fn repeat_count(&self) -> (n: u128)
        ensures
            self@.valid(),
            n == self@.repeat_count(),
    {
        proof {
            use_type_invariant(self);
            if !self@.degenerate() {
                lemma_closed_forms(self@);
            }
        }
        self.times
    }

    /// The leg of a side, as the fraction that the plan holds.
    pub(crate) fn leg(&self, side: Side) -> (r: Length)
        requires
            !self@.degenerate(),
        ensures
            r.num == self@.leg_num(side),
            r.den == self@.side_den(side),
            r.num <= 0x400_0000_0000_0000_0000_0000_0000_0000,
            r.well_formed(),
            r@ == self@.leg_distance(side),
    {
        proof {
            use_type_invariant(self);
            lemma_closed_forms(self@);
            lemma_plan_bounds(self@);
            assert(self.stored_leg(side).num == self@.leg_num(side) as u128);
            assert(self@.side_den(side) > 0 && self@.leg_num(side) > 0);
        }
        match side {
            Side::Primary => self.primary_segment_distance,
            Side::Secondary => self.secondary_segment_distance,
        }
    }

    /// The final leg of a side, as the fraction that the plan holds.
    pub(crate) fn last(&self, side: Side) -> (r: Length)
        requires
            !self@.degenerate(),
        ensures
            r.num == self@.last_num(side),
            r.den == self@.side_den(side),
            r.num <= 0x400_0000_0000_0000_0000_0000_0000_0000,
            r.well_formed(),
            r@ == self@.last_distance(side),
    {
        proof {
            use_type_invariant(self);
            lemma_closed_forms(self@);
            lemma_plan_bounds(self@);
            assert(self.stored_last(side).num == self@.last_num(side) as u128);
            assert(self@.side_den(side) > 0 && self@.last_num(side) >= 0);
        }
        match side {
            Side::Primary => self.last_primary_distance,
            Side::Secondary => self.last_secondary_distance,
        }
    }
}

} // verus!
