//! The quantities of a plan as fractions of integers. The model states them
//! over the reals; a plan computes them exactly in integers. The lemmas here
//! show that the two agree.

use vstd::prelude::*;
use crate::geometry::{Side, Slope};
use crate::model::WalkPlan;
use crate::real_arith::{
    lemma_add_fractions, lemma_cancel, lemma_cast_product, lemma_cast_product3, lemma_factor,
    lemma_floor_of_fraction, lemma_multiple_over, lemma_product_positive, lemma_regroup,
    lemma_sum_over,
};

verus! {

impl WalkPlan {
    /// The sine of the angle between the two allowed directions, over both
    /// spans: `along_p * across_s + along_s * across_p`.
    pub open spec fn cross(self) -> int {
        self.primary_slope.along * self.secondary_slope.across + self.secondary_slope.along
            * self.primary_slope.across
    }

    /// The denominator that the headway of a pair and the displacement share:
    /// `across_p * across_s`.
    pub open spec fn grain(self) -> int {
        self.primary_slope.across * self.secondary_slope.across
    }

    /// The headway of a pair of legs in units of `1 / grain`.
    pub open spec fn pair_units(self) -> int {
        self.offset * self.cross()
    }

    /// The displacement in units of `1 / grain`.
    pub open spec fn reach_units(self) -> int {
        self.displacement * self.grain()
    }

    /// The headway left after the complete pairs, in units of `1 / grain`.
    pub open spec fn rest_units(self) -> int {
        self.reach_units() % self.pair_units()
    }

    /// The denominator of the distances of a side: `cross * across`.
    pub open spec fn side_den(self, side: Side) -> int {
        self.cross() * self.slope(side).across
    }

    /// The numerator of a leg of a side over `side_den`.
    pub open spec fn leg_num(self, side: Side) -> int {
        self.offset * self.slope(side).span * self.cross()
    }

    /// The numerator of the final leg of a side over `side_den`.
    pub open spec fn last_num(self, side: Side) -> int {
        self.rest_units() * self.slope(side).span
    }

    /// The sum of the sines of the two slopes, over both spans:
    /// `span_p * across_s + span_s * across_p`.
    pub open spec fn span_cross(self) -> int {
        self.primary_slope.span * self.secondary_slope.across + self.secondary_slope.span
            * self.primary_slope.across
    }
}

/// `off / (o / h)` over the denominator `k * o`.
proof fn lemma_leg(off: int, o: int, h: int, k: int)
    requires
        o > 0,
        h > 0,
        k > 0,
    ensures
        off as real / (o as real / h as real) == (off * h * k) as real / (k * o) as real,
{
    assert(off as real / (o as real / h as real) == (off * h * k) as real / (k * o) as real)
        by (nonlinear_arith)
        requires
            o > 0,
            h > 0,
            k > 0,
    ;
}

/// The cotangent of a slope is `along / across`.
proof fn lemma_cot(s: Slope)
    requires
        s.across > 0,
        s.span > 0,
    ensures
        s.cot() == s.along as real / s.across as real,
{
    let a = s.along as real;
    let o = s.across as real;
    let h = s.span as real;
    assert((a / h) / (o / h) == a / o) by (nonlinear_arith)
        requires
            o > 0real,
            h > 0real,
    ;
}

/// The headway of a pair over the denominator `op * os`.
proof fn lemma_pair(off: int, ap: int, op: int, a_s: int, os: int)
    requires
        op > 0,
        os > 0,
    ensures
        off as real * (ap as real / op as real) + off as real * (a_s as real / os as real) == (off
            * (ap * os + a_s * op)) as real / (op * os) as real,
{
    let x = off as real * ap as real;
    let y = off as real * a_s as real;
    let b = op as real;
    let d = os as real;
    assert(off as real * (ap as real / b) == x / b) by (nonlinear_arith)
        requires
            x == off as real * ap as real,
            b > 0real,
    ;
    assert(off as real * (a_s as real / d) == y / d) by (nonlinear_arith)
        requires
            y == off as real * a_s as real,
            d > 0real,
    ;
    lemma_add_fractions(x, b, y, d);
    lemma_cast_product(ap, os);
    lemma_cast_product(a_s, op);
    lemma_cast_product(off, ap * os + a_s * op);
    lemma_cast_product(op, os);
    let u = ap as real * d;
    let v = a_s as real * b;
    assert(x * d + y * b == off as real * (u + v)) by (nonlinear_arith)
        requires
            x == off as real * ap as real,
            y == off as real * a_s as real,
            u == ap as real * d,
            v == a_s as real * b,
    ;
}

/// What a valid, non-degenerate plan holds, as fractions of integers.
pub proof fn lemma_closed_forms(p: WalkPlan)
    requires
        p.valid(),
        !p.degenerate(),
    ensures
        p.cross() > 0,
        p.grain() > 0,
        p.pair_units() > 0,
        p.reach_units() >= 0,
        0 <= p.rest_units() < p.pair_units(),
        p.reach_units() == p.repeat_count() * p.pair_units() + p.rest_units(),
        p.pair_displacement() == p.pair_units() as real / p.grain() as real,
        p.pair_displacement() > 0real,
        p.repeat_count() == p.reach_units() / p.pair_units(),
        p.repeat_count() >= 0,
        p.remaining() == p.rest_units() as real / p.grain() as real,
        p.last_offset() == p.rest_units() as real / p.cross() as real,
        forall|side: Side| p.side_den(side) > 0,
        forall|side: Side| #[trigger]
            p.leg_distance(side) == p.leg_num(side) as real / p.side_den(side) as real,
        forall|side: Side| #[trigger]
            p.last_distance(side) == p.last_num(side) as real / p.side_den(side) as real,
{
    let off = p.offset;
    let d = p.displacement;
    let ps = p.primary_slope;
    let ss = p.secondary_slope;
    let k = p.cross();
    let g = p.grain();
    let w = p.pair_units();
    let reach = p.reach_units();
    let rest = p.rest_units();
    assert(k > 0 && g > 0 && w > 0 && reach >= 0) by (nonlinear_arith)
        requires
            k == ps.along * ss.across + ss.along * ps.across,
            g == ps.across * ss.across,
            w == off * k,
            reach == d * g,
            ps.across > 0,
            ss.across > 0,
            ps.along > 0 || ss.along > 0,
            off > 0,
            d >= 0,
    ;
    lemma_cot(ps);
    lemma_cot(ss);
    lemma_pair(off, ps.along as int, ps.across as int, ss.along as int, ss.across as int);
    let pair = p.pair_displacement();
    assert(pair == w as real / g as real);
    assert(pair > 0real) by (nonlinear_arith)
        requires
            pair == w as real / g as real,
            w > 0,
            g > 0,
    ;
    // The repeat count.
    assert(d as real / pair == reach as real / w as real) by (nonlinear_arith)
        requires
            pair == w as real / g as real,
            reach == d * g,
            w > 0,
            g > 0,
    ;
    lemma_floor_of_fraction(reach, w);
    let n = p.repeat_count();
    assert(n == reach / w);
    assert(reach == n * w + rest && 0 <= rest < w && n >= 0) by (nonlinear_arith)
        requires
            n == reach / w,
            rest == reach % w,
            w > 0,
            reach >= 0,
    ;
    // What is left, and the final offset.
    let rem = p.remaining();
    assert(rem == rest as real / g as real) by (nonlinear_arith)
        requires
            rem == d as real - pair * n as real,
            pair == w as real / g as real,
            reach == d * g,
            reach == n * w + rest,
            g > 0,
    ;
    let last = p.last_offset();
    assert(last == rest as real / k as real) by (nonlinear_arith)
        requires
            last == off as real * rem / pair,
            rem == rest as real / g as real,
            pair == w as real / g as real,
            w == off * k,
            off > 0,
            k > 0,
            g > 0,
    ;
    assert forall|side: Side| p.side_den(side) > 0 by {
        let o = p.slope(side).across;
        assert(k * o > 0) by (nonlinear_arith)
            requires
                k > 0,
                o > 0,
        ;
    }
    assert forall|side: Side| #[trigger]
        p.leg_distance(side) == p.leg_num(side) as real / p.side_den(side) as real by {
        let s = p.slope(side);
        lemma_leg(off, s.across as int, s.span as int, k);
    }
    assert forall|side: Side| #[trigger]
        p.last_distance(side) == p.last_num(side) as real / p.side_den(side) as real by {
        let s = p.slope(side);
        let o = s.across;
        let h = s.span;
        assert((rest as real / k as real) / (o as real / h as real) == (rest * h) as real / (k
            * o) as real) by (nonlinear_arith)
            requires
                k > 0,
                o > 0,
                h > 0,
        ;
    }
}

/// Gathers the legs of one side: `off * h * k * n + rest * h` is
/// `h * (n * off * k + rest)`.
proof fn lemma_gather(off: real, h: real, k: real, n: real, rest: real)
    ensures
        off * h * k * n + rest * h == h * (n * off * k + rest),
{
    assert(off * h * k * n + rest * h == h * (n * off * k + rest)) by (nonlinear_arith);
}

/// `h * (d * o * q)` is `(d * h * q) * o`.
proof fn lemma_pull_out(h: real, d: real, o: real, q: real)
    ensures
        h * (d * o * q) == (d * h * q) * o,
{
    assert(h * (d * o * q) == (d * h * q) * o) by (nonlinear_arith);
}

/// All legs of one side together: `n` legs `off * h * k / (k * o)` and the
/// final leg `rest * h / (k * o)`, where `d * o * q == n * off * k + rest`,
/// come to `d * h * q / k`.
proof fn lemma_side_total(
    off: real,
    h: real,
    o: real,
    k: real,
    n: real,
    rest: real,
    d: real,
    q: real,
)
    requires
        o > 0real,
        k > 0real,
        d * o * q == n * off * k + rest,
    ensures
        (off * h * k) / (k * o) * n + (rest * h) / (k * o) == (d * h * q) / k,
{
    lemma_product_positive(k, o);
    lemma_multiple_over(off * h * k, n, rest * h, k * o);
    lemma_gather(off, h, k, n, rest);
    lemma_pull_out(h, d, o, q);
    lemma_cancel(d * h * q, o, k);
}

/// The sum of all legs, side by side.
proof fn lemma_total_by_side(lp: real, ls: real, n: real, fp: real, fs: real)
    ensures
        (lp + ls) * n + fp + fs == (lp * n + fp) + (ls * n + fs),
{
    assert((lp + ls) * n + fp + fs == (lp * n + fp) + (ls * n + fs)) by (nonlinear_arith);
}

/// The length of the whole path of a valid, non-degenerate plan as one
/// fraction: `displacement * span_cross / cross`.
pub proof fn lemma_total_closed_form(p: WalkPlan)
    requires
        p.valid(),
        !p.degenerate(),
    ensures
        p.cross() > 0,
        p.total_distance() == (p.displacement * p.span_cross()) as real / p.cross() as real,
{
    lemma_closed_forms(p);
    let ps = p.primary_slope;
    let ss = p.secondary_slope;
    let n = p.repeat_count();
    let off = p.offset as real;
    let d = p.displacement as real;
    let k = p.cross() as real;
    let nr = n as real;
    let rest = p.rest_units() as real;
    let op = ps.across as real;
    let os = ss.across as real;
    let hp = ps.span as real;
    let hs = ss.span as real;
    // The division that defines the repeat count, over the reals.
    lemma_cast_product(ps.across as int, ss.across as int);
    lemma_cast_product(p.displacement, p.grain());
    lemma_cast_product(p.offset, p.cross());
    lemma_cast_product(n, p.pair_units());
    lemma_regroup(d, op, os);
    lemma_regroup(nr, off, k);
    assert(d * op * os == nr * off * k + rest);
    assert(d * os * op == nr * off * k + rest);
    // Each side.
    lemma_cast_product3(p.offset, ps.span as int, p.cross());
    lemma_cast_product3(p.offset, ss.span as int, p.cross());
    lemma_cast_product(p.rest_units(), ps.span as int);
    lemma_cast_product(p.rest_units(), ss.span as int);
    lemma_cast_product(p.cross(), ps.across as int);
    lemma_cast_product(p.cross(), ss.across as int);
    let lp = p.leg_distance(Side::Primary);
    let ls = p.leg_distance(Side::Secondary);
    let fp = p.last_distance(Side::Primary);
    let fs = p.last_distance(Side::Secondary);
    assert(lp == (off * hp * k) / (k * op));
    assert(fp == (rest * hp) / (k * op));
    assert(ls == (off * hs * k) / (k * os));
    assert(fs == (rest * hs) / (k * os));
    lemma_side_total(off, hp, op, k, nr, rest, d, os);
    lemma_side_total(off, hs, os, k, nr, rest, d, op);
    lemma_total_by_side(lp, ls, nr, fp, fs);
    // Both sides over the one denominator.
    lemma_sum_over(d * hp * os, d * hs * op, k);
    lemma_regroup(d, hp, os);
    lemma_regroup(d, hs, op);
    lemma_factor(d, hp * os, hs * op);
    lemma_cast_product(ps.span as int, ss.across as int);
    lemma_cast_product(ss.span as int, ps.across as int);
    lemma_cast_product(p.displacement, p.span_cross());
}

/// Bounds on the integers of a plan whose displacement and offset fit in 31
/// bits; they keep every numerator and denominator within 128 bits, also
/// where a leg is doubled or two are joined.
pub proof fn lemma_plan_bounds(p: WalkPlan)
    requires
        p.valid(),
        !p.degenerate(),
        p.displacement <= i32::MAX,
        p.offset <= i32::MAX,
    ensures
        0 < p.cross() <= 0x2000_0000_0000_0000,
        0 < p.grain() <= 0x1000_0000_0000_0000,
        0 < p.pair_units() <= 0x1000_0000_0000_0000_0000_0000,
        0 <= p.reach_units() <= 0x800_0000_0000_0000_0000_0000,
        0 <= p.rest_units() < p.pair_units(),
        forall|side: Side| 0 < #[trigger] p.side_den(side) <= 0x800_0000_0000_0000_0000_0000,
        forall|side: Side|
            0 < #[trigger] p.leg_num(side) <= 0x400_0000_0000_0000_0000_0000_0000_0000,
        forall|side: Side|
            0 <= #[trigger] p.last_num(side) <= 0x400_0000_0000_0000_0000_0000_0000_0000,
{
    lemma_closed_forms(p);
    let off = p.offset;
    let d = p.displacement;
    let ps = p.primary_slope;
    let ss = p.secondary_slope;
    let k = p.cross();
    let g = p.grain();
    let w = p.pair_units();
    let rest = p.rest_units();
    assert(k <= 0x2000_0000_0000_0000 && g <= 0x1000_0000_0000_0000) by (nonlinear_arith)
        requires
            k == ps.along * ss.across + ss.along * ps.across,
            g == ps.across * ss.across,
            ps.along <= 0x4000_0000,
            ss.along <= 0x4000_0000,
            ps.across <= 0x4000_0000,
            ss.across <= 0x4000_0000,
    ;
    assert(w <= 0x1000_0000_0000_0000_0000_0000) by (nonlinear_arith)
        requires
            w == off * k,
            0 < off <= 0x7fff_ffff,
            0 < k <= 0x2000_0000_0000_0000,
    ;
    assert(p.reach_units() <= 0x800_0000_0000_0000_0000_0000) by (nonlinear_arith)
        requires
            p.reach_units() == d * g,
            0 <= d <= 0x7fff_ffff,
            0 < g <= 0x1000_0000_0000_0000,
    ;
    assert forall|side: Side| 0 < #[trigger] p.side_den(side) <= 0x800_0000_0000_0000_0000_0000 by {
        let o = p.slope(side).across;
        assert(k * o <= 0x800_0000_0000_0000_0000_0000) by (nonlinear_arith)
            requires
                0 < k <= 0x2000_0000_0000_0000,
                0 < o <= 0x4000_0000,
        ;
    }
    assert forall|side: Side|
        0 < #[trigger] p.leg_num(side) <= 0x400_0000_0000_0000_0000_0000_0000_0000 by {
        let h = p.slope(side).span;
        assert(0 < off * h * k <= 0x400_0000_0000_0000_0000_0000_0000_0000) by (nonlinear_arith)
            requires
                0 < off <= 0x7fff_ffff,
                0 < h <= 0x4000_0000,
                0 < k <= 0x2000_0000_0000_0000,
        ;
    }
    assert forall|side: Side|
        0 <= #[trigger] p.last_num(side) <= 0x400_0000_0000_0000_0000_0000_0000_0000 by {
        let h = p.slope(side).span;
        assert(0 <= rest * h <= 0x400_0000_0000_0000_0000_0000_0000_0000) by (nonlinear_arith)
            requires
                0 <= rest < w,
                w <= 0x1000_0000_0000_0000_0000_0000,
                0 < h <= 0x4000_0000,
        ;
    }
}

} // verus!
