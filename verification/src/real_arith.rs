//! Small facts of arithmetic over the reals, each proved on its own so that
//! the proofs that use them stay linear.

use vstd::prelude::*;

verus! {

/// The product of two integers, taken as a real, is the product of the reals.
pub proof fn lemma_cast_product(a: int, b: int)
    ensures
        (a * b) as real == a as real * b as real,
{
    assert((a * b) as real == a as real * b as real) by (nonlinear_arith);
}

/// The product of three integers, taken as a real.
pub proof fn lemma_cast_product3(a: int, b: int, c: int)
    ensures
        (a * b * c) as real == a as real * b as real * c as real,
{
    lemma_cast_product(a, b);
    lemma_cast_product(a * b, c);
}

/// The floor of a fraction of a natural number and a positive one is their
/// integer quotient.
pub proof fn lemma_floor_of_fraction(a: int, b: int)
    requires
        a >= 0,
        b > 0,
    ensures
        (a as real / b as real).floor() == a / b,
{
    let q = a / b;
    let r = a % b;
    assert(a == q * b + r && 0 <= r < b) by (nonlinear_arith)
        requires
            q == a / b,
            r == a % b,
            b > 0,
    ;
    let x = a as real / b as real;
    assert(q as real <= x < (q + 1) as real) by (nonlinear_arith)
        requires
            a == q * b + r,
            0 <= r < b,
            b > 0,
            x == a as real / b as real,
    ;
}

/// A product of positive reals is positive.
pub proof fn lemma_product_positive(a: real, b: real)
    requires
        a > 0real,
        b > 0real,
    ensures
        a * b > 0real,
{
    assert(a * b > 0real) by (nonlinear_arith)
        requires
            a > 0real,
            b > 0real,
    ;
}

/// Two fractions over a common denominator.
pub proof fn lemma_add_fractions(a: real, b: real, c: real, d: real)
    requires
        b > 0real,
        d > 0real,
    ensures
        a / b + c / d == (a * d + c * b) / (b * d),
{
    assert(a / b + c / d == (a * d + c * b) / (b * d)) by (nonlinear_arith)
        requires
            b > 0real,
            d > 0real,
    ;
}

/// Two fractions over the same denominator.
pub proof fn lemma_sum_over(x: real, y: real, k: real)
    requires
        k > 0real,
    ensures
        x / k + y / k == (x + y) / k,
{
    assert(x / k + y / k == (x + y) / k) by (nonlinear_arith)
        requires
            k > 0real,
    ;
}

/// A multiple of a fraction and a fraction, over the same denominator.
pub proof fn lemma_multiple_over(a: real, n: real, b: real, den: real)
    requires
        den > 0real,
    ensures
        a / den * n + b / den == (a * n + b) / den,
{
    assert(a / den * n + b / den == (a * n + b) / den) by (nonlinear_arith)
        requires
            den > 0real,
    ;
}

/// A common factor of numerator and denominator cancels.
pub proof fn lemma_cancel(c: real, o: real, k: real)
    requires
        o > 0real,
        k > 0real,
    ensures
        (c * o) / (k * o) == c / k,
{
    assert((c * o) / (k * o) == c / k) by (nonlinear_arith)
        requires
            o > 0real,
            k > 0real,
    ;
}

/// Products of three reals regroup.
pub proof fn lemma_regroup(a: real, b: real, c: real)
    ensures
        a * (b * c) == a * b * c,
        a * (b * c) == a * c * b,
{
    assert(a * (b * c) == a * b * c) by (nonlinear_arith);
    assert(a * (b * c) == a * c * b) by (nonlinear_arith);
}

/// A sum of two products with a common factor.
pub proof fn lemma_factor(d: real, a: real, b: real)
    ensures
        d * a + d * b == d * (a + b),
{
    assert(d * a + d * b == d * (a + b)) by (nonlinear_arith);
}

/// A quotient times a factor is the numerator times the quotient of the
/// factor.
pub proof fn lemma_swap_quotient(x: real, s: real, c: real)
    requires
        s > 0real,
    ensures
        (x / s) * c == x * (c / s),
        (x / s) * s == x,
        (x / s) * (-s) == -x,
{
    assert((x / s) * c == x * (c / s)) by (nonlinear_arith)
        requires
            s > 0real,
    ;
    assert((x / s) * s == x) by (nonlinear_arith)
        requires
            s > 0real,
    ;
    assert((x / s) * (-s) == -x) by (nonlinear_arith)
        requires
            s > 0real,
    ;
}

/// Where a product and one factor are positive, so is the other factor.
pub proof fn lemma_factor_positive(a: real, t: real)
    requires
        a > 0real,
        a * t > 0real,
    ensures
        t > 0real,
{
    assert(t > 0real) by (nonlinear_arith)
        requires
            a > 0real,
            a * t > 0real,
    ;
}

/// The share `a * r / (a * t)` of `t` is `r`.
pub proof fn lemma_share(a: real, r: real, t: real)
    requires
        a > 0real,
        t > 0real,
    ensures
        (a * r / (a * t)) * t == r,
{
    assert((a * r / (a * t)) * t == r) by (nonlinear_arith)
        requires
            a > 0real,
            t > 0real,
    ;
}

/// One is the unit of the product.
pub proof fn lemma_unit(a: real)
    ensures
        a * 1real == a,
{
    assert(a * 1real == a) by (nonlinear_arith);
}

/// Products commute.
pub proof fn lemma_commute(a: real, b: real)
    ensures
        a * b == b * a,
{
    assert(a * b == b * a) by (nonlinear_arith);
}

/// A number and its opposite, times the same factor, cancel.
pub proof fn lemma_opposites(n: real, a: real)
    ensures
        n * a + n * (-a) == 0real,
{
    assert(n * a + n * (-a) == 0real) by (nonlinear_arith);
}

/// Fractions over one positive denominator are ordered as their numerators.
pub proof fn lemma_fractions_ordered(a: real, b: real, g: real)
    requires
        g > 0real,
    ensures
        a >= 0real ==> a / g >= 0real,
        a > 0real ==> a / g > 0real,
        a < b ==> a / g < b / g,
        a <= b ==> a / g <= b / g,
{
    assert(a >= 0real ==> a / g >= 0real) by (nonlinear_arith)
        requires
            g > 0real,
    ;
    assert(a > 0real ==> a / g > 0real) by (nonlinear_arith)
        requires
            g > 0real,
    ;
    assert(a < b ==> a / g < b / g) by (nonlinear_arith)
        requires
            g > 0real,
    ;
    assert(a <= b ==> a / g <= b / g) by (nonlinear_arith)
        requires
            g > 0real,
    ;
}

/// A fraction of a multiple of its denominator.
pub proof fn lemma_multiple_of_denominator(d: real, k: real)
    requires
        k > 0real,
    ensures
        (d * k) / k == d,
{
    assert((d * k) / k == d) by (nonlinear_arith)
        requires
            k > 0real,
    ;
}

/// Products with a non-negative factor are ordered as the other factors.
pub proof fn lemma_products_ordered(d: real, a: real, b: real)
    requires
        d >= 0real,
        a < b,
    ensures
        d * a <= d * b,
        d > 0real ==> d * a < d * b,
{
    assert(d * a <= d * b) by (nonlinear_arith)
        requires
            d >= 0real,
            a < b,
    ;
    assert(d > 0real ==> d * a < d * b) by (nonlinear_arith)
        requires
            a < b,
    ;
}

} // verus!
