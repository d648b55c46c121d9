//! The plain values a walk is made of: the two sides of a zig-zag, the slope of
//! an allowed direction against the target line, and exact lengths.

use vstd::prelude::*;

verus! {

/// One of the two allowed directions of a walk.
#[derive(Clone, Copy, Debug, PartialEq, Eq, Structural)]
pub enum Side {
    Primary,
    Secondary,
}

impl Side {
    /// The opposite side.
    pub open spec fn other(self) -> Side {
        match self {
            Side::Primary => Side::Secondary,
            Side::Secondary => Side::Primary,
        }
    }

    /// The opposite side.
    pub fn flip(self) -> (r: Side)
        ensures
            r == self.other(),
    {
        match self {
            Side::Primary => Side::Secondary,
            Side::Secondary => Side::Primary,
        }
    }
}

/// The largest `span` a valid [`Slope`] may have.
pub const SLOPE_LIMIT: u32 = 1_073_741_824;

/// How an allowed direction lies against the target line, as the sides of a
/// right triangle whose hypotenuse runs along the allowed direction:
/// `span` is the hypotenuse, `along` its projection on the target line and
/// `across` its projection on the normal of the target line.
///
/// For an allowed direction at the angle `t` from the target, `across / span`
/// stands for `sin t` and `along / span` for `cos t`.
#[derive(Clone, Copy, Debug, PartialEq, Eq, Structural)]
pub struct Slope {
    pub across: u32,
    pub along: u32,
    pub span: u32,
}

impl Slope {
    /// A slope is valid when it describes an angle in between 0 (excluded) and 90 degrees (included): the sine is
    /// in `(0, 1]`, the cosine in `[0, 1)`, and the sides are within
    /// [`SLOPE_LIMIT`].
    pub open spec fn valid(self) -> bool {
        &&& 0 < self.across <= self.span
        &&& self.along < self.span
        &&& self.span <= SLOPE_LIMIT
    }

    /// The sine of the angle between the allowed direction and the target.
    pub open spec fn sin(self) -> real {
        self.across as real / self.span as real
    }

    /// The cosine of the angle between the allowed direction and the target.
    pub open spec fn cos(self) -> real {
        self.along as real / self.span as real
    }

    /// The cotangent of the angle between the allowed direction and the target.
    pub open spec fn cot(self) -> real {
        self.cos() / self.sin()
    }

    pub fn is_valid(&self) -> (b: bool)
        ensures
            b == self.valid(),
    {
        0 < self.across && self.across <= self.span && self.along < self.span && self.span
            <= SLOPE_LIMIT
    }
}

/// An exact non-negative length: the fraction `num / den`.
#[derive(Clone, Copy, Debug)]
pub struct Length {
    pub num: u128,
    pub den: u128,
}

impl View for Length {
    type V = real;

    /// The number that the fraction stands for.
    open spec fn view(&self) -> real {
        self.num as real / self.den as real
    }
}

impl Length {
    /// A length is a fraction: its denominator is not zero.
    pub open spec fn well_formed(self) -> bool {
        self.den > 0
    }

    /// A whole number of units.
    pub fn whole(units: u128) -> (r: Length)
        ensures
            r == (Length { num: units, den: 1 }),
            r.well_formed(),
            r@ == units as real,
    {
        let r = Length { num: units, den: 1 };
        assert(r.num as real / r.den as real == units as real) by (nonlinear_arith)
            requires
                r.num == units,
                r.den == 1,
        ;
        r
    }
}

} // verus!
