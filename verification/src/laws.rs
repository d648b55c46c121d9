//! What holds of every walk.

use vstd::prelude::*;
use crate::closed_form::{lemma_closed_forms, lemma_total_closed_form};
use crate::geometry::Side;
use crate::model::{path_length, side_at, weighted_sum, Step, WalkPlan};
use crate::real_arith::{
    lemma_cast_product, lemma_commute, lemma_factor, lemma_factor_positive,
    lemma_fractions_ordered, lemma_multiple_of_denominator, lemma_opposites,
    lemma_products_ordered, lemma_share, lemma_swap_quotient, lemma_unit,
};

verus! {

/// `k` times `a`.
spec fn copies(k: int, a: real) -> real {
    k as real * a
}

/// No copy is nothing, one copy the thing itself, and one more copy adds it
/// once.
proof fn lemma_copies(k: int, a: real)
    ensures
        copies(0, a) == 0real,
        copies(1, a) == a,
        copies(k + 1, a) == copies(k, a) + a,
{
    assert(0real * a == 0real) by (nonlinear_arith);
    assert(1real * a == a) by (nonlinear_arith);
    let x = k as real;
    assert((x + 1real) * a == x * a + a) by (nonlinear_arith);
}

/// The weight of a side.
spec fn weight(side: Side, primary: real, secondary: real) -> real {
    match side {
        Side::Primary => primary,
        Side::Secondary => secondary,
    }
}

/// A leg of a side, weighed.
spec fn weighed_leg(p: WalkPlan, side: Side, primary: real, secondary: real) -> real {
    p.leg_distance(side) * weight(side, primary, secondary)
}

/// The final leg of a side, weighed.
spec fn weighed_last(p: WalkPlan, side: Side, primary: real, secondary: real) -> real {
    p.last_distance(side) * weight(side, primary, secondary)
}

/// A doubled leg weighs twice the leg.
proof fn lemma_double(x: real, w: real)
    ensures
        (2real * x) * w == x * w + x * w,
{
    assert((2real * x) * w == x * w + x * w) by (nonlinear_arith);
}

/// Two joined legs weigh what both weigh.
proof fn lemma_joined(x: real, y: real, w: real)
    ensures
        (x + y) * w == x * w + y * w,
{
    assert((x + y) * w == x * w + y * w) by (nonlinear_arith);
}

/// What step `i` of a non-degenerate walk weighs.
proof fn lemma_step_weighed(p: WalkPlan, start_primary: bool, primary: real, secondary: real, i: int)
    requires
        !p.degenerate(),
    ensures
        ({
            let side = side_at(start_primary, i);
            let n = p.repeat_count();
            let leg = weighed_leg(p, side, primary, secondary);
            let last = weighed_last(p, side, primary, secondary);
            p.step_at(start_primary, i).weighed(primary, secondary) == if n == 0 {
                last
            } else if i == 0 {
                leg
            } else if i < n {
                leg + leg
            } else if i == n {
                leg + last
            } else {
                last
            }
        }),
{
    let side = side_at(start_primary, i);
    let w = weight(side, primary, secondary);
    lemma_double(p.leg_distance(side), w);
    lemma_joined(p.leg_distance(side), p.last_distance(side), w);
}

/// A prefix of the steps, one step longer.
proof fn lemma_extend(steps: Seq<Step>, primary: real, secondary: real, k: int)
    requires
        0 <= k < steps.len(),
    ensures
        weighted_sum(steps.take(k + 1), primary, secondary) == weighted_sum(
            steps.take(k),
            primary,
            secondary,
        ) + steps[k].weighed(primary, secondary),
{
    assert(steps.take(k + 1).drop_last() =~= steps.take(k));
}

/// After the first leg and `k - 1` doubled legs, the side of step `k` has
/// made `k - 1` legs and the other side `k`.
proof fn lemma_main_prefix(
    p: WalkPlan,
    start_primary: bool,
    primary: real,
    secondary: real,
    k: int,
)
    requires
        !p.degenerate(),
        1 <= k <= p.repeat_count(),
    ensures
        weighted_sum(p.steps(start_primary).take(k), primary, secondary) == copies(
            k - 1,
            weighed_leg(p, side_at(start_primary, k), primary, secondary),
        ) + copies(k, weighed_leg(p, side_at(start_primary, k).other(), primary, secondary)),
    decreases k,
{
    let steps = p.steps(start_primary);
    let side = side_at(start_primary, k);
    lemma_extend(steps, primary, secondary, k - 1);
    lemma_step_weighed(p, start_primary, primary, secondary, k - 1);
    lemma_copies(k - 2, weighed_leg(p, side.other(), primary, secondary));
    lemma_copies(k - 1, weighed_leg(p, side.other(), primary, secondary));
    lemma_copies(k - 1, weighed_leg(p, side, primary, secondary));
    if k == 1 {
        assert(steps.take(0).len() == 0);
    } else {
        lemma_main_prefix(p, start_primary, primary, secondary, k - 1);
    }
}

/// The weighted sum of all steps of a non-degenerate walk: each side makes
/// `repeat_count` legs and its final leg.
proof fn lemma_weighted_total(p: WalkPlan, start_primary: bool, primary: real, secondary: real)
    requires
        p.valid(),
        !p.degenerate(),
    ensures
        weighted_sum(p.steps(start_primary), primary, secondary) == copies(
            p.repeat_count(),
            weighed_leg(p, Side::Primary, primary, secondary),
        ) + copies(p.repeat_count(), weighed_leg(p, Side::Secondary, primary, secondary))
            + weighed_last(p, Side::Primary, primary, secondary) + weighed_last(
            p,
            Side::Secondary,
            primary,
            secondary,
        ),
{
    lemma_closed_forms(p);
    let steps = p.steps(start_primary);
    let n = p.repeat_count();
    assert(steps.take(n + 2) =~= steps);
    lemma_extend(steps, primary, secondary, n + 1);
    lemma_extend(steps, primary, secondary, n);
    lemma_step_weighed(p, start_primary, primary, secondary, n + 1);
    lemma_step_weighed(p, start_primary, primary, secondary, n);
    let side = side_at(start_primary, n);
    lemma_copies(n - 1, weighed_leg(p, side, primary, secondary));
    lemma_copies(0, weighed_leg(p, Side::Primary, primary, secondary));
    lemma_copies(0, weighed_leg(p, Side::Secondary, primary, secondary));
    if n == 0 {
        assert(steps.take(0).len() == 0);
    } else {
        lemma_main_prefix(p, start_primary, primary, secondary, n);
    }
}

/// A traversal emits `step_count` steps: at least one, and no more than two
/// for each complete pair of legs and two more.
pub proof fn lemma_step_bound(p: WalkPlan, start_primary: bool)
    requires
        p.valid(),
    ensures
        p.repeat_count() >= 0,
        p.steps(start_primary).len() == p.step_count(),
        1 <= p.step_count() <= 2 * p.repeat_count() + 2,
{
    if !p.degenerate() {
        lemma_closed_forms(p);
    }
}

/// A degenerate walk is the one straight leg of the length of the
/// displacement along the target.
pub proof fn lemma_degenerate_walk(p: WalkPlan, start_primary: bool)
    requires
        p.valid(),
        p.degenerate(),
    ensures
        p.steps(start_primary) =~= seq![
            Step { side: p.matched_side(), angle: p.angle, distance: p.displacement as real },
        ],
        p.allowed_angle(p.matched_side()) == p.angle,
        path_length(p.steps(start_primary)) == p.displacement as real,
{
    let steps = p.steps(start_primary);
    assert(steps.drop_last().len() == 0);
    assert(weighted_sum(steps.drop_last(), 1real, 1real) == 0real);
}

/// What is left after the complete pairs of legs is less than the headway
/// of one more pair, and not negative.
pub proof fn lemma_remainder_bound(p: WalkPlan)
    requires
        p.valid(),
        !p.degenerate(),
    ensures
        p.repeat_count() >= 0,
        0real <= p.remaining() < p.pair_displacement(),
        p.displacement as real == p.pair_displacement() * p.repeat_count() as real
            + p.remaining(),
{
    lemma_closed_forms(p);
    lemma_fractions_ordered(p.rest_units() as real, p.pair_units() as real, p.grain() as real);
}

/// The steps of a traversal, summed as vectors, lead the displacement along
/// the target line and end on it.
pub proof fn lemma_net_displacement(p: WalkPlan, start_primary: bool)
    requires
        p.valid(),
        !p.degenerate(),
    ensures
        p.headway(p.steps(start_primary)) == p.displacement as real,
        p.drift(p.steps(start_primary)) == 0real,
{
    lemma_closed_forms(p);
    let n = p.repeat_count() as real;
    let off = p.offset as real;
    let ps = p.primary_slope;
    let ss = p.secondary_slope;
    let last = p.last_offset();
    let pair = p.pair_displacement();
    let rem = p.remaining();
    lemma_fractions_ordered(ps.across as real, ps.across as real, ps.span as real);
    lemma_fractions_ordered(ss.across as real, ss.across as real, ss.span as real);
    assert(ps.sin() > 0real && ss.sin() > 0real);
    // Along the target line.
    lemma_weighted_total(p, start_primary, ps.cos(), ss.cos());
    lemma_swap_quotient(off, ps.sin(), ps.cos());
    lemma_swap_quotient(off, ss.sin(), ss.cos());
    lemma_swap_quotient(last, ps.sin(), ps.cos());
    lemma_swap_quotient(last, ss.sin(), ss.cos());
    let cp = ps.cot();
    let cs = ss.cot();
    lemma_factor(n, off * cp, off * cs);
    lemma_commute(n, pair);
    lemma_factor(last, cp, cs);
    lemma_factor(off, cp, cs);
    lemma_factor_positive(off, cp + cs);
    lemma_share(off, rem, cp + cs);
    // Across it.
    lemma_weighted_total(p, start_primary, ps.sin(), -ss.sin());
    lemma_opposites(n, off);
}

/// The offset of the final pair of legs is less than the offset, and not
/// negative.
pub proof fn lemma_last_offset_bound(p: WalkPlan)
    requires
        p.valid(),
        !p.degenerate(),
    ensures
        0real <= p.last_offset() < p.offset as real,
{
    lemma_closed_forms(p);
    let k = p.cross() as real;
    lemma_cast_product(p.offset, p.cross());
    lemma_multiple_of_denominator(p.offset as real, k);
    lemma_fractions_ordered(p.rest_units() as real, p.pair_units() as real, k);
}

/// What the legs of a side weigh where the weights are the sines, with the
/// secondary one negated: a leg strays the offset, a final leg the final
/// offset, each to the side of its direction.
proof fn lemma_drift_of_legs(p: WalkPlan, side: Side)
    requires
        p.valid(),
        !p.degenerate(),
    ensures
        ({
            let primary = p.primary_slope.sin();
            let secondary = -p.secondary_slope.sin();
            match side {
                Side::Primary => {
                    &&& weighed_leg(p, side, primary, secondary) == p.offset as real
                    &&& weighed_last(p, side, primary, secondary) == p.last_offset()
                },
                Side::Secondary => {
                    &&& weighed_leg(p, side, primary, secondary) == -(p.offset as real)
                    &&& weighed_last(p, side, primary, secondary) == -p.last_offset()
                },
            }
        }),
{
    let ps = p.primary_slope;
    let ss = p.secondary_slope;
    lemma_fractions_ordered(ps.across as real, ps.across as real, ps.span as real);
    lemma_fractions_ordered(ss.across as real, ss.across as real, ss.span as real);
    lemma_swap_quotient(p.offset as real, ps.sin(), ps.sin());
    lemma_swap_quotient(p.offset as real, ss.sin(), ss.sin());
    lemma_swap_quotient(p.last_offset(), ps.sin(), ps.sin());
    lemma_swap_quotient(p.last_offset(), ss.sin(), ss.sin());
}

/// No corner of the path lies further from the target line than the offset:
/// the steps up to any point lead no further away from it.
pub proof fn lemma_within_offset(p: WalkPlan, start_primary: bool, k: int)
    requires
        p.valid(),
        !p.degenerate(),
        0 <= k <= p.step_count(),
    ensures
        -(p.offset as real) <= p.drift(p.steps(start_primary).take(k)) <= p.offset as real,
{
    lemma_closed_forms(p);
    lemma_last_offset_bound(p);
    lemma_drift_of_legs(p, Side::Primary);
    lemma_drift_of_legs(p, Side::Secondary);
    let steps = p.steps(start_primary);
    let n = p.repeat_count();
    let primary = p.primary_slope.sin();
    let secondary = -p.secondary_slope.sin();
    let off = p.offset as real;
    if k == 0 {
        assert(steps.take(0).len() == 0);
    } else if k == n + 2 {
        assert(steps.take(k) =~= steps);
        lemma_net_displacement(p, start_primary);
    } else {
        // The corners on the way: after the first leg and after each doubled
        // leg the path is the offset away, on one side or the other.
        let m = if k <= n {
            k
        } else {
            n
        };
        if m >= 1 {
            lemma_main_prefix(p, start_primary, primary, secondary, m);
            lemma_copies(m - 1, off);
            lemma_opposites(m as real, off);
            lemma_opposites((m - 1) as real, off);
        } else {
            assert(steps.take(0).len() == 0);
        }
        if k == n + 1 {
            lemma_extend(steps, primary, secondary, n);
            lemma_step_weighed(p, start_primary, primary, secondary, n);
        }
    }
}

/// The path that a traversal makes is as long as the plan says.
pub proof fn lemma_path_is_total(p: WalkPlan, start_primary: bool)
    requires
        p.valid(),
    ensures
        path_length(p.steps(start_primary)) == p.total_distance(),
{
    if p.degenerate() {
        lemma_degenerate_walk(p, start_primary);
    } else {
        lemma_weighted_total(p, start_primary, 1real, 1real);
        let n = p.repeat_count() as real;
        let lp = p.leg_distance(Side::Primary);
        let ls = p.leg_distance(Side::Secondary);
        lemma_unit(lp);
        lemma_unit(ls);
        lemma_unit(p.last_distance(Side::Primary));
        lemma_unit(p.last_distance(Side::Secondary));
        lemma_factor(n, lp, ls);
        lemma_commute(n, lp + ls);
    }
}

/// The path is at least as long as the displacement. Of a walk that goes
/// anywhere, it is exactly as long if and only if the walk is degenerate.
pub proof fn lemma_path_length_bound(p: WalkPlan)
    requires
        p.valid(),
    ensures
        p.total_distance() >= p.displacement as real,
        p.degenerate() ==> p.total_distance() == p.displacement as real,
        !p.degenerate() && p.displacement > 0 ==> p.total_distance() > p.displacement as real,
{
    if !p.degenerate() {
        lemma_total_closed_form(p);
        let ps = p.primary_slope;
        let ss = p.secondary_slope;
        let k = p.cross();
        let sc = p.span_cross();
        assert(sc > k) by (nonlinear_arith)
            requires
                k == ps.along * ss.across + ss.along * ps.across,
                sc == ps.span * ss.across + ss.span * ps.across,
                ps.along < ps.span,
                ss.along < ss.span,
                ps.across > 0,
                ss.across > 0,
        ;
        let d = p.displacement as real;
        lemma_cast_product(p.displacement, sc);
        lemma_products_ordered(d, k as real, sc as real);
        lemma_fractions_ordered(d * k as real, d * sc as real, k as real);
        lemma_multiple_of_denominator(d, k as real);
    }
}

} // verus!
