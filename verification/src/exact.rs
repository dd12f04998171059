//! Numbers as exact real values, and how far each operation is from the exact result.

use vstd::prelude::*;
use vstd::arithmetic::power2::*;
use vstd::arithmetic::mul::*;
use crate::binary64::{lemma_ones, signed, Binary64};
use crate::rounding;
use crate::rounding::{apart, HIDDEN, INFINITE};

verus! {

/// How many units make one.
pub open spec fn scale() -> real {
    pow2(1074) as int as real
}

/// The exact value of a finite number.
pub open spec fn exact(x: Binary64) -> real {
    x.value() as real / scale()
}

/// The largest relative error of one rounding: two to the minus 53.
pub open spec fn eps() -> real {
    1real / 0x20_0000_0000_0000real
}

/// The largest error of one rounding next to zero: half a unit, two to the minus 1075.
pub open spec fn speck() -> real {
    1real / (2real * scale())
}

/// Two to the 1023: up to here nothing overflows.
pub open spec fn big() -> real {
    (pow2(2097) as int as real) / scale()
}

/// The absolute value of a real number.
pub open spec fn size(x: real) -> real {
    if x < 0real {
        -x
    } else {
        x
    }
}

/// Whether a number is finite and is a real value, correctly rounded or better.
pub open spec fn rounds_to(x: Binary64, value: real) -> bool {
    x.is_finite() && size(exact(x) - value) <= size(value) * eps() + speck()
}

pub proof fn lemma_scale()
    ensures
        scale() >= 1real,
        0real < speck() <= eps(),
        0real < eps(),
        big() >= 1real,
{
    lemma_pow2_pos(1074);
    rounding::lemma_pow2_monotone(53, 1074);
    rounding::lemma_pow2_monotone(1074, 2097);
    lemma2_to64();
    lemma2_to64_rest();
    let s = scale();
    assert(s >= 0x20_0000_0000_0000real);
    assert(1real / (2real * s) <= 1real / 0x20_0000_0000_0000real)
        by (nonlinear_arith)
        requires
            s >= 0x20_0000_0000_0000real,
    ;
    assert(1real / (2real * s) > 0real) by (nonlinear_arith)
        requires
            s >= 1real,
    ;
    let b = pow2(2097) as int as real;
    assert(b / s >= 1real) by (nonlinear_arith)
        requires
            b >= s,
            s >= 1real,
    ;
}

/// A quotient of whole numbers rounds to a number close to it.
proof fn lemma_rounds(negative: bool, p: int, q: int, value: real)
    requires
        p >= 0,
        q > 0,
        p <= pow2(2097) * q,
        value * scale() * q as real == (if negative { -p } else { p }) as real,
    ensures
        rounds_to(signed(negative, rounding::rounded(p, q)), value),
        signed(negative, rounding::rounded(p, q)).negative() == negative,
{
    rounding::law_rounded_is_close(p, q);
    lemma_scale();
    let r = rounding::rounded(p, q);
    let x = signed(negative, r);
    assert(x.magnitude() == r && x.negative() == negative);
    let u = rounding::units(r);
    let s = scale();
    let v = x.value() as real;
    let (pr, qr, ur) = (p as real, q as real, u as real);
    let a = apart(u * q, p);
    assert((u * q) as real == ur * qr) by (nonlinear_arith)
        requires
            ur == u as real,
            qr == q as real,
    ;
    assert(a as real == size(ur * qr - pr));
    let h = 0x10_0000_0000_0000real;
    assert((a * (2 * HIDDEN)) as real == a as real * (2real * h)) by (nonlinear_arith)
        requires
            h == HIDDEN as int as real,
    ;
    assert((q * HIDDEN) as real == qr * h) by (nonlinear_arith)
        requires
            h == HIDDEN as int as real,
            qr == q as real,
    ;
    assert(a as real * (2real * h) <= pr + qr * h);
    let d = exact(x) - value;
    assert(v == if negative { -ur } else { ur });
    // Both sides of the claim, multiplied with the scale and the divisor.
    assert(exact(x) * s == v) by (nonlinear_arith)
        requires
            exact(x) == v / s,
            s >= 1real,
    ;
    assert(d * s * qr == v * qr - value * s * qr) by (nonlinear_arith)
        requires
            d == exact(x) - value,
            exact(x) * s == v,
    ;
    assert(size(d * s * qr) == a as real) by (nonlinear_arith)
        requires
            d * s * qr == v * qr - value * s * qr,
            value * s * qr == (if negative { -pr } else { pr }),
            v == (if negative { -ur } else { ur }),
            a as real == size(ur * qr - pr),
            size(d * s * qr) == (if d * s * qr < 0real { -(d * s * qr) } else { d * s * qr }),
            size(ur * qr - pr) == (if ur * qr - pr < 0real { -(ur * qr - pr) } else {
                ur * qr - pr
            }),
    ;
    assert(size(d * s * qr) == size(d) * s * qr) by (nonlinear_arith)
        requires
            s >= 1real,
            qr > 0real,
            size(d) == (if d < 0real { -d } else { d }),
            size(d * s * qr) == (if d * s * qr < 0real { -(d * s * qr) } else { d * s * qr }),
    ;
    assert(size(value) * s * qr == pr) by (nonlinear_arith)
        requires
            value * s * qr == (if negative { -pr } else { pr }),
            pr >= 0real,
            s >= 1real,
            qr > 0real,
            size(value) == (if value < 0real { -value } else { value }),
    ;
    assert(size(d) <= size(value) * eps() + speck()) by (nonlinear_arith)
        requires
            size(d) * s * qr == a as real,
            a as real * (2real * h) <= pr + qr * h,
            size(value) * s * qr == pr,
            s >= 1real,
            qr > 0real,
            h == 0x10_0000_0000_0000real,
            eps() == 1real / (2real * h),
            speck() == 1real / (2real * s),
    ;
}

/// The value of a number in units.
pub proof fn lemma_value(x: Binary64)
    ensures
        exact(x) * scale() == x.value() as real,
        x.is_finite() ==> (exact(x) < 0real <==> x.negative() && x.magnitude() > 0),
        x.is_finite() ==> (exact(x) == 0real <==> x.magnitude() == 0),
{
    lemma_scale();
    let s = scale();
    let v = x.value() as real;
    assert(v / s * s == v) by (nonlinear_arith)
        requires
            s >= 1real,
    ;
    rounding::lemma_units_zero(x.magnitude());
    assert(v < 0real <==> v / s < 0real) by (nonlinear_arith)
        requires
            s >= 1real,
    ;
    assert(v == 0real <==> v / s == 0real) by (nonlinear_arith)
        requires
            s >= 1real,
    ;
}

/// Numbers compare as their exact values do.
pub proof fn law_order_is_exact(a: Binary64, b: Binary64)
    requires
        a.is_finite(),
        b.is_finite(),
    ensures
        a.less(b) <==> exact(a) < exact(b),
        a.at_most(b) <==> exact(a) <= exact(b),
        a.equals(b) <==> exact(a) == exact(b),
{
    crate::binary64::law_less_is_value_order(a, b);
    crate::binary64::law_less_is_value_order(b, a);
    lemma_scale();
    let s = scale();
    let (v, w) = (a.value() as real, b.value() as real);
    assert(v < w <==> v / s < w / s) by (nonlinear_arith)
        requires
            s >= 1real,
    ;
    assert(v == w <==> v / s == w / s) by (nonlinear_arith)
        requires
            s >= 1real,
    ;
}

/// Negating and taking the absolute value are exact.
pub proof fn law_signs_are_exact(x: Binary64)
    requires
        x.is_finite(),
    ensures
        x.negated().is_finite(),
        exact(x.negated()) == -exact(x),
        x.abs().is_finite(),
        exact(x.abs()) == size(exact(x)),
{
    lemma_value(x);
    lemma_scale();
    let s = scale();
    let n = x.negated();
    assert(n.magnitude() == x.magnitude() && n.negative() == !x.negative());
    assert(n.value() == -x.value());
    let v = x.value() as real;
    assert((-v) / s == -(v / s)) by (nonlinear_arith)
        requires
            s >= 1real,
    ;
    assert(x.abs().magnitude() == x.magnitude() && !x.abs().negative());
    rounding::lemma_units_zero(x.magnitude());
}

/// Adding is exact up to one rounding.
pub proof fn law_plus(a: Binary64, b: Binary64)
    requires
        a.is_finite(),
        b.is_finite(),
        size(exact(a) + exact(b)) <= big(),
    ensures
        rounds_to(a.plus(b), exact(a) + exact(b)),
{
    reveal(Binary64::plus_spec);
    lemma_scale();
    lemma_value(a);
    lemma_value(b);
    let s = scale();
    let t = exact(a) + exact(b);
    let n = a.value() + b.value();
    assert(t * s == n as real) by (nonlinear_arith)
        requires
            t == exact(a) + exact(b),
            exact(a) * s == a.value() as real,
            exact(b) * s == b.value() as real,
            n == a.value() + b.value(),
    ;
    let m = pow2(2097) as int;
    assert(size(t) * s <= m as real) by (nonlinear_arith)
        requires
            size(t) <= m as real / s,
            s >= 1real,
    ;
    assert(size(t) * s == size(n as real)) by (nonlinear_arith)
        requires
            t * s == n as real,
            s >= 1real,
            size(t) == (if t < 0real { -t } else { t }),
            size(n as real) == (if (n as real) < 0real { -(n as real) } else { n as real }),
    ;
    assert(t * s * 1real == n as real) by (nonlinear_arith)
        requires
            t * s == n as real,
    ;
    if n == 0 {
        let z = a.plus(b);
        assert(z.magnitude() == 0);
        lemma_value(z);
        assert(t == 0real) by (nonlinear_arith)
            requires
                t * s == 0real,
                s >= 1real,
        ;
    } else if n < 0 {
        lemma_rounds(true, -n, 1, t);
    } else {
        lemma_rounds(false, n, 1, t);
    }
}

/// Subtracting is exact up to one rounding.
pub proof fn law_minus(a: Binary64, b: Binary64)
    requires
        a.is_finite(),
        b.is_finite(),
        size(exact(a) - exact(b)) <= big(),
    ensures
        rounds_to(a.minus(b), exact(a) - exact(b)),
{
    law_signs_are_exact(b);
    law_plus(a, b.negated());
}

/// Multiplying is exact up to one rounding.
pub proof fn law_times(a: Binary64, b: Binary64)
    requires
        a.is_finite(),
        b.is_finite(),
        size(exact(a) * exact(b)) <= big(),
    ensures
        rounds_to(a.times(b), exact(a) * exact(b)),
{
    reveal(Binary64::times_spec);
    lemma_scale();
    lemma_value(a);
    lemma_value(b);
    let s = scale();
    let w = pow2(1074) as int;
    lemma_pow2_pos(1074);
    let (u, v) = (rounding::units(a.magnitude()), rounding::units(b.magnitude()));
    rounding::lemma_units_zero(a.magnitude());
    rounding::lemma_units_zero(b.magnitude());
    let t = exact(a) * exact(b);
    let p = u * v;
    let negative = a.negative() != b.negative();
    assert(p >= 0) by (nonlinear_arith)
        requires
            p == u * v,
            u >= 0,
            v >= 0,
    ;
    let q = if negative { -p } else { p };
    assert(a.value() * b.value() == q) by (nonlinear_arith)
        requires
            a.value() == (if a.negative() { -u } else { u }),
            b.value() == (if b.negative() { -v } else { v }),
            p == u * v,
            q == (if a.negative() != b.negative() { -p } else { p }),
    ;
    assert(t * s * s == q as real) by (nonlinear_arith)
        requires
            t == exact(a) * exact(b),
            exact(a) * s == a.value() as real,
            exact(b) * s == b.value() as real,
            a.value() * b.value() == q,
    ;
    let m = pow2(2097) as int;
    assert(size(t) * s <= m as real) by (nonlinear_arith)
        requires
            size(t) <= m as real / s,
            s >= 1real,
    ;
    assert(p as real == size(t) * s * s) by (nonlinear_arith)
        requires
            t * s * s == q as real,
            q == (if negative { -p } else { p }),
            p >= 0,
            s >= 1real,
            size(t) == (if t < 0real { -t } else { t }),
    ;
    assert(p as real <= m as real * s) by (nonlinear_arith)
        requires
            p as real == size(t) * s * s,
            size(t) * s <= m as real,
            s >= 1real,
    ;
    assert((m * w) as real == m as real * s) by (nonlinear_arith)
        requires
            s == w as real,
    ;
    assert(p <= m * w);
    lemma_rounds(negative, p, w, t);
}

/// Dividing by what is not zero is exact up to one rounding.
pub proof fn law_over(a: Binary64, b: Binary64)
    requires
        a.is_finite(),
        b.is_finite(),
        exact(b) != 0real,
        size(exact(a) / exact(b)) <= big(),
    ensures
        rounds_to(a.over(b), exact(a) / exact(b)),
{
    reveal(Binary64::over_spec);
    lemma_scale();
    lemma_value(a);
    lemma_value(b);
    let s = scale();
    let w = pow2(1074) as int;
    lemma_pow2_pos(1074);
    let (u, v) = (rounding::units(a.magnitude()), rounding::units(b.magnitude()));
    rounding::lemma_units_zero(a.magnitude());
    rounding::lemma_units_zero(b.magnitude());
    let (x, y) = (exact(a), exact(b));
    let t = x / y;
    let negative = a.negative() != b.negative();
    let p = u * w;
    assert(p >= 0) by (nonlinear_arith)
        requires
            p == u * w,
            u >= 0,
            w > 0,
    ;
    assert(p as real == u as real * s) by (nonlinear_arith)
        requires
            p == u * w,
            s == w as real,
    ;
    assert(t * y == x) by (nonlinear_arith)
        requires
            t == x / y,
            y != 0real,
    ;
    let q = if negative { -p } else { p };
    assert(t * s * v as real == q as real) by (nonlinear_arith)
        requires
            t * y == x,
            x * s == (if a.negative() { -(u as real) } else { u as real }),
            y * s == (if b.negative() { -(v as real) } else { v as real }),
            q as real == (if a.negative() != b.negative() { -(u as real * s) } else {
                u as real * s
            }),
    ;
    let m = pow2(2097) as int;
    assert(size(t) * s <= m as real) by (nonlinear_arith)
        requires
            size(t) <= m as real / s,
            s >= 1real,
    ;
    assert(p as real == size(t) * s * v as real) by (nonlinear_arith)
        requires
            t * s * v as real == q as real,
            q == (if negative { -p } else { p }),
            p >= 0,
            s >= 1real,
            v as real > 0real,
            size(t) == (if t < 0real { -t } else { t }),
    ;
    assert(p as real <= m as real * v as real) by (nonlinear_arith)
        requires
            p as real == size(t) * s * v as real,
            size(t) * s <= m as real,
            v as real > 0real,
    ;
    assert((m * v) as real == m as real * v as real) by (nonlinear_arith);
    assert(p <= m * v);
    lemma_rounds(negative, p, v, t);
}

/// A fraction is exact up to one rounding.
pub proof fn law_ratio(negative: bool, p: u64, q: u64)
    requires
        q > 0,
    ensures
        rounds_to(
            Binary64::ratio(negative, p, q),
            if negative {
                -(p as int as real / q as int as real)
            } else {
                p as int as real / q as int as real
            },
        ),
{
    reveal(Binary64::ratio_spec);
    lemma_scale();
    let s = scale();
    let w = pow2(1074) as int;
    let (x, y) = (p as int as real, q as int as real);
    let t = if negative {
        -(x / y)
    } else {
        x / y
    };
    lemma_pow2_pos(1074);
    lemma_pow2_adds(1074, 1023);
    rounding::lemma_pow2_monotone(64, 1023);
    lemma2_to64();
    assert(p * w >= 0) by (nonlinear_arith)
        requires
            w > 0,
    ;
    assert(p * w <= pow2(2097) * q) by (nonlinear_arith)
        requires
            p <= pow2(1023),
            w > 0,
            pow2(2097) == w * pow2(1023),
            q >= 1,
    ;
    assert((p * w) as real == x * s) by (nonlinear_arith)
        requires
            x == p as int as real,
            s == w as real,
    ;
    assert(t * s * y == (if negative { -(x * s) } else { x * s })) by (nonlinear_arith)
        requires
            t == (if negative { -(x / y) } else { x / y }),
            y > 0real,
    ;
    lemma_rounds(negative, p * w, q as int, t);
}

/// A fraction that a finite number equals is that number.
pub proof fn lemma_ratio_is(p: u64, q: u64, pattern: int)
    requires
        q > 0,
        0 <= pattern < INFINITE,
        p * pow2(1074) == rounding::units(pattern) * q,
    ensures
        Binary64::ratio(false, p, q) == signed(false, pattern),
        exact(Binary64::ratio(false, p, q)) == p as int as real / q as int as real,
{
    reveal(Binary64::ratio_spec);
    let w = pow2(1074) as int;
    let u = rounding::units(pattern);
    rounding::lemma_rounded_ratio(p * w, q as int, u, 1);
    rounding::lemma_rounded_exact(pattern);
    lemma_scale();
    let s = scale();
    let (x, y, r) = (p as int as real, q as int as real, u as real);
    assert(x * s == r * y) by (nonlinear_arith)
        requires
            p * w == u * q,
            x == p as int as real,
            s == w as real,
            r == u as real,
            y == q as int as real,
    ;
    assert(r / s == x / y) by (nonlinear_arith)
        requires
            x * s == r * y,
            s >= 1real,
            y > 0real,
    ;
}

/// Whole numbers of at most 53 binary digits are exact.
pub proof fn law_counts_are_exact(n: u64)
    requires
        n < 0x20_0000_0000_0000,
    ensures
        Binary64::count(n).is_finite(),
        !Binary64::count(n).negative(),
        exact(Binary64::count(n)) == n as int as real,
        Binary64::ratio(true, n, 1).is_finite(),
        exact(Binary64::ratio(true, n, 1)) == -(n as int as real),
{
    crate::binary64::law_counts_are_finite(n);
    reveal(Binary64::ratio_spec);
    let w = pow2(1074) as int;
    let k = rounding::binade(n * w);
    let p = n * w;
    lemma_pow2_pos(1074);
    assert(p >= 0) by (nonlinear_arith)
        requires
            p == n * w,
            w > 0,
    ;
    rounding::lemma_binade_bounds(p);
    lemma_pow2_pos(k);
    // All digits fit: the unit of the last place divides the whole number.
    assert(k <= 1074) by {
        if k > 1074 {
            rounding::lemma_hidden_pow2(k);
            lemma2_to64_rest();
            lemma2_to64();
            lemma_pow2_adds(53, 1074);
            rounding::lemma_pow2_monotone(1127, 52 + k);
            assert(p < pow2(1127)) by (nonlinear_arith)
                requires
                    p == n * w,
                    n < 0x20_0000_0000_0000,
                    w > 0,
                    pow2(1127) == 0x20_0000_0000_0000 * w,
            ;
        }
    }
    let c = pow2((1074 - k) as nat) as int;
    lemma_pow2_adds(k, (1074 - k) as nat);
    let d = pow2(k) as int;
    let h = n * c;
    assert(p == h * d) by (nonlinear_arith)
        requires
            p == n * w,
            w == d * c,
            h == n * c,
    ;
    rounding::lemma_half_even_exact(h, d);
    assert(rounding::half_even(p, 1 * d) == h);
    assert(0 <= h < 2 * HIDDEN && (k > 0 ==> h >= HIDDEN)) by (nonlinear_arith)
        requires
            p == h * d,
            0 <= p < 2 * HIDDEN * d,
            k > 0 ==> p >= HIDDEN * d,
            d > 0,
    ;
    rounding::lemma_units_of_parts(k, h);
    assert(k * HIDDEN + h < INFINITE) by (nonlinear_arith)
        requires
            k <= 1074,
            h < 2 * HIDDEN,
            HIDDEN == 0x10_0000_0000_0000,
            INFINITE == 0x7FF0_0000_0000_0000,
    ;
    lemma_scale();
    let s = scale();
    let x = n as int as real;
    assert(p as real == x * s) by (nonlinear_arith)
        requires
            p == n * w,
            s == w as real,
            x == n as int as real,
    ;
    assert(x * s / s == x && (-(x * s)) / s == -x) by (nonlinear_arith)
        requires
            s >= 1real,
    ;
}

/// A sum that is at least a number is not rounded below it, and one that is at most a number not
/// above it; no sum of finite numbers is NaN.
pub proof fn law_plus_keeps_bounds(a: Binary64, b: Binary64, c: Binary64)
    requires
        a.is_finite(),
        b.is_finite(),
        c.is_finite(),
    ensures
        exact(c) <= exact(a) + exact(b) ==> c.at_most(a.plus(b)),
        exact(a) + exact(b) <= exact(c) ==> a.plus(b).at_most(c),
        !a.plus(b).is_nan(),
{
    reveal(Binary64::plus_spec);
    lemma_scale();
    lemma_value(a);
    lemma_value(b);
    lemma_value(c);
    let s = scale();
    let n = a.value() + b.value();
    let t = exact(a) + exact(b);
    assert(t * s == n as real) by (nonlinear_arith)
        requires
            t == exact(a) + exact(b),
            exact(a) * s == a.value() as real,
            exact(b) * s == b.value() as real,
            n == a.value() + b.value(),
    ;
    let k = c.value();
    assert((exact(c) <= t ==> k <= n) && (t <= exact(c) ==> n <= k)) by {
        assert(exact(c) <= t ==> exact(c) * s <= t * s) by (nonlinear_arith)
            requires
                s >= 1real,
        ;
        assert(t <= exact(c) ==> t * s <= exact(c) * s) by (nonlinear_arith)
            requires
                s >= 1real,
        ;
    }
    let m = c.magnitude();
    let u = rounding::units(m);
    rounding::lemma_units_zero(m);
    let size = if n < 0 {
        -n
    } else {
        n
    };
    rounding::lemma_rounded_not_negative(size, 1);
    if u <= size {
        rounding::lemma_rounded_at_least(size, 1, m);
    }
    if size <= u {
        rounding::lemma_rounded_at_most(size, 1, m);
    }
}

/// The same of a difference.
pub proof fn law_minus_keeps_bounds(a: Binary64, b: Binary64, c: Binary64)
    requires
        a.is_finite(),
        b.is_finite(),
        c.is_finite(),
    ensures
        exact(c) <= exact(a) - exact(b) ==> c.at_most(a.minus(b)),
        exact(a) - exact(b) <= exact(c) ==> a.minus(b).at_most(c),
        !a.minus(b).is_nan(),
{
    law_signs_are_exact(b);
    law_plus_keeps_bounds(a, b.negated(), c);
}

/// The rounded distance of two numbers is below a positive number only where the exact distance is;
/// and it is below it where the exact distance is at most a smaller number.
pub proof fn law_distance(a: Binary64, b: Binary64, c: Binary64, bound: Binary64)
    requires
        a.is_finite(),
        b.is_finite(),
        c.is_finite(),
        bound.is_finite(),
        0real <= exact(c) < exact(bound),
    ensures
        a.minus(b).abs().less(bound) ==> size(exact(a) - exact(b)) < exact(bound),
        size(exact(a) - exact(b)) <= exact(c) ==> a.minus(b).abs().less(bound),
{
    law_signs_are_exact(c);
    law_signs_are_exact(bound);
    law_order_is_exact(c, bound);
    law_minus_keeps_bounds(a, b, bound);
    law_minus_keeps_bounds(a, b, bound.negated());
    law_minus_keeps_bounds(a, b, c);
    law_minus_keeps_bounds(a, b, c.negated());
    lemma_value(bound);
    lemma_value(c);
    let d = a.minus(b);
    assert(d.abs().magnitude() == d.magnitude() && !d.abs().negative());
    assert(bound.negated().magnitude() == bound.magnitude());
    assert(c.negated().magnitude() == c.magnitude());
}

/// Half a unit is next to nothing.
pub proof fn lemma_speck_is_tiny()
    ensures
        speck() <= 1real / 1_000_000_000_000_000_000_000_000_000_000_000_000_000real,
{
    lemma2_to64();
    lemma_pow2_adds(64, 64);
    lemma_pow2_adds(128, 64);
    rounding::lemma_pow2_monotone(192, 1074);
    let s = scale();
    assert(1real / (2real * s) <= 1real / 1_000_000_000_000_000_000_000_000_000_000_000_000_000real)
        by (nonlinear_arith)
        requires
            s >= 1_000_000_000_000_000_000_000_000_000_000_000_000_000real,
    ;
}

/// Where overflow begins is far off.
pub proof fn lemma_big_is_big()
    ensures
        big() >= 1_000_000_000_000_000_000_000_000_000_000_000_000_000real,
        big() == pow2(1023) as int as real,
{
    lemma2_to64();
    lemma_pow2_adds(64, 64);
    lemma_pow2_adds(128, 64);
    rounding::lemma_pow2_monotone(192, 1023);
    lemma_pow2_adds(1074, 1023);
    lemma_scale();
    let s = scale();
    let b = pow2(2097) as int as real;
    let m = pow2(1023) as int;
    let w = pow2(1074) as int;
    assert(b == s * (m as real)) by (nonlinear_arith)
        requires
            b == (w * m) as real,
            s == w as real,
    ;
    assert(b / s == m as real) by (nonlinear_arith)
        requires
            b == s * (m as real),
            s >= 1real,
    ;
}

/// Rounding a whole number of units that a significand can hold loses nothing.
proof fn lemma_small_whole(n: int)
    requires
        0 <= n < 0x20_0000_0000_0000,
    ensures
        0 <= rounding::rounded(n * pow2(1074), 1) < INFINITE,
        rounding::units(rounding::rounded(n * pow2(1074), 1)) == n * pow2(1074),
{
    law_counts_are_exact(n as u64);
    reveal(Binary64::ratio_spec);
    let w = pow2(1074) as int;
    let x = Binary64::count(n as u64);
    lemma_value(x);
    lemma_scale();
    let s = scale();
    assert((n * w) as real == n as real * s) by (nonlinear_arith)
        requires
            s == w as real,
    ;
    lemma_pow2_adds(1074, 1023);
    rounding::lemma_pow2_monotone(64, 1023);
    lemma2_to64();
    lemma_pow2_pos(1074);
    assert(0 <= n * w <= pow2(2097) * 1) by (nonlinear_arith)
        requires
            0 <= n < pow2(1023),
            w > 0,
            pow2(2097) == w * pow2(1023),
    ;
    rounding::law_rounded_is_close(n * w, 1);
}

/// The floor of a finite number is the largest whole number that is not above it.
pub proof fn law_floor(x: Binary64) -> (n: int)
    requires
        x.is_finite(),
    ensures
        x.floor().is_finite(),
        exact(x.floor()) == n as real,
        n as real <= exact(x) < n as real + 1real,
{
    reveal(Binary64::floor_spec);
    lemma_scale();
    lemma_value(x);
    let s = scale();
    let w = pow2(1074) as int;
    let v = x.value();
    let n = v / w;
    lemma_pow2_pos(1074);
    vstd::arithmetic::div_mod::lemma_fundamental_div_mod(v, w);
    vstd::arithmetic::div_mod::lemma_mod_bound(v, w);
    assert((n * w) as real == n as real * s && ((n + 1) * w) as real == (n as real + 1real) * s)
        by (nonlinear_arith)
        requires
            s == w as real,
    ;
    assert(n * w <= v < (n + 1) * w) by (nonlinear_arith)
        requires
            v == w * n + v % w,
            0 <= v % w < w,
    ;
    let e = exact(x);
    assert(n as real <= e && e < n as real + 1real) by (nonlinear_arith)
        requires
            e * s == v as real,
            n as real * s <= v as real,
            (v as real) < (n as real + 1real) * s,
            s >= 1real,
    ;
    let m = x.magnitude();
    let u = rounding::units(m);
    rounding::lemma_units_zero(m);
    if m == 0 {
        assert(n == 0) by (nonlinear_arith)
            requires
                n * w <= 0 < (n + 1) * w,
                w > 0,
        ;
    } else {
        let k = rounding::exponent_in(m);
        let g = rounding::significand_of(m);
        rounding::lemma_pattern_parts(m);
        let y = x.floor();
        let a = if n < 0 {
            -n
        } else {
            n
        };
        if k >= 1074 {
            crate::binary64::lemma_whole(m, g, k);
            assert(a * w == u && rounding::rounded(a * w, 1) == m);
        } else {
            lemma_pow2_pos(k);
            rounding::lemma_hidden_pow2(k);
            rounding::lemma_hidden_pow2(1074);
            rounding::lemma_pow2_monotone(53 + k, 1126);
            assert(u < HIDDEN * w) by (nonlinear_arith)
                requires
                    u == g * pow2(k),
                    g < 2 * HIDDEN,
                    2 * HIDDEN * pow2(k) <= HIDDEN * w,
                    pow2(k) > 0,
            ;
            assert(a <= HIDDEN) by (nonlinear_arith)
                requires
                    n * w <= v < (n + 1) * w,
                    v == u || v == -u,
                    0 <= u < HIDDEN * w,
                    w > 0,
                    a == (if n < 0 { -n } else { n }),
            ;
            lemma_small_whole(a);
        }
        assert(y.value() == n * w) by {
            assert((-n) * w == -(n * w)) by (nonlinear_arith);
        }
        assert(n as real * s / s == n as real) by (nonlinear_arith)
            requires
                s >= 1real,
        ;
    }
    n
}

/// The larger of two finite numbers has the larger value.
pub proof fn law_max(a: Binary64, b: Binary64)
    requires
        a.is_finite(),
        b.is_finite(),
    ensures
        a.max(b) == a || a.max(b) == b,
        exact(a.max(b)) >= exact(a),
        exact(a.max(b)) >= exact(b),
        a.min(b) == a || a.min(b) == b,
        exact(a.min(b)) <= exact(a),
        exact(a.min(b)) <= exact(b),
{
    law_order_is_exact(a, b);
    law_order_is_exact(b, a);
}

/// Zero and one are what they are called.
pub proof fn law_zero_and_one()
    ensures
        Binary64::zero().is_finite(),
        exact(Binary64::zero()) == 0real,
        Binary64::one().is_finite(),
        exact(Binary64::one()) == 1real,
{
    lemma_value(Binary64::zero());
    lemma_ones();
    law_counts_are_exact(1);
}

/// Whether a finite number is within so many roundings of a real value, on a scale of at least one
/// that the value does not exceed.
pub open spec fn within(x: Binary64, value: real, span: real, roundings: real) -> bool {
    &&& x.is_finite()
    &&& span >= 1real
    &&& 0real <= roundings <= 64real
    &&& size(value) <= span
    &&& size(exact(x) - value) <= roundings * span * eps()
}

/// What one more rounding does.
proof fn lemma_one_more(x: Binary64, before: real, value: real, span: real, roundings: real)
    requires
        x.is_finite(),
        span >= 1real,
        0real <= roundings <= 62real,
        size(value) <= span,
        size(before - value) <= roundings * span * eps(),
        rounds_to(x, before),
    ensures
        within(x, value, span, roundings + 2real),
{
    lemma_scale();
    lemma_speck_is_tiny();
    let (e, t) = (eps(), speck());
    assert(e == 1real / 9_007_199_254_740_992real);
    let w = roundings * span * e;
    assert(w <= span * (1real / 1_000_000real)) by (nonlinear_arith)
        requires
            w == roundings * span * e,
            roundings <= 62real,
            span >= 1real,
            e == 1real / 9_007_199_254_740_992real,
    ;
    assert(size(before) <= span + w);
    assert(size(before) * e <= (span * (1real + 1real / 1_000_000real)) * e) by (nonlinear_arith)
        requires
            size(before) <= span * (1real + 1real / 1_000_000real),
            e >= 0real,
    ;
    assert(t <= span * e * (1real / 1_000_000real)) by (nonlinear_arith)
        requires
            t <= e * (1real / 1_000_000real),
            span >= 1real,
            e >= 0real,
    ;
    assert((roundings + 2real) * span * e == w + span * e + span * e) by (nonlinear_arith)
        requires
            w == roundings * span * e,
    ;
    assert((span * (1real + 1real / 1_000_000real)) * e == span * e + span * e * (1real
        / 1_000_000real)) by (nonlinear_arith);
    let y = span * e;
    assert(y >= 0real) by (nonlinear_arith)
        requires
            y == span * e,
            span >= 1real,
            e >= 0real,
    ;
}

/// A finite number is itself.
pub proof fn lemma_within_itself(x: Binary64, span: real)
    requires
        x.is_finite(),
        span >= 1real,
        size(exact(x)) <= span,
    ensures
        within(x, exact(x), span, 0real),
{
    assert(0real * span * eps() == 0real) by (nonlinear_arith);
}

/// A larger scale and more roundings allow as much.
pub proof fn lemma_within_more(
    x: Binary64,
    value: real,
    span: real,
    roundings: real,
    wider: real,
    more: real,
)
    requires
        within(x, value, span, roundings),
        span <= wider,
        roundings <= more <= 64real,
    ensures
        within(x, value, wider, more),
{
    lemma_scale();
    let e = eps();
    assert(roundings * span * e <= more * wider * e) by (nonlinear_arith)
        requires
            0real <= roundings <= more,
            1real <= span <= wider,
            e >= 0real,
    ;
}

/// Multiplying with a number that does not exceed another scale.
pub proof fn lemma_within_times(
    x: Binary64,
    value: real,
    span: real,
    roundings: real,
    y: Binary64,
    other: real,
)
    requires
        within(x, value, span, roundings),
        roundings <= 62real,
        y.is_finite(),
        other >= 1real,
        size(exact(y)) <= other,
        span * other * 2real <= big(),
    ensures
        within(x.times(y), value * exact(y), span * other, roundings + 2real),
        within(y.times(x), value * exact(y), span * other, roundings + 2real),
{
    lemma_scale();
    let e = eps();
    let (a, b) = (exact(x), exact(y));
    let d = a - value;
    assert(e == 1real / 9_007_199_254_740_992real);
    assert(size(value * b) <= span * other) by (nonlinear_arith)
        requires
            size(value) <= span,
            size(b) <= other,
            span >= 1real,
            other >= 1real,
            size(value) == (if value < 0real { -value } else { value }),
            size(b) == (if b < 0real { -b } else { b }),
            size(value * b) == (if value * b < 0real { -(value * b) } else { value * b }),
    ;
    assert(a * b - value * b == d * b) by (nonlinear_arith)
        requires
            d == a - value,
    ;
    assert(size(d * b) <= roundings * span * e * other) by (nonlinear_arith)
        requires
            size(d) <= roundings * span * e,
            size(b) <= other,
            other >= 1real,
            roundings * span * e >= 0real,
            size(d) == (if d < 0real { -d } else { d }),
            size(b) == (if b < 0real { -b } else { b }),
            size(d * b) == (if d * b < 0real { -(d * b) } else { d * b }),
    ;
    assert(roundings * span * e * other == roundings * (span * other) * e) by (nonlinear_arith);
    let s = span * other;
    assert(s >= 1real) by (nonlinear_arith)
        requires
            s == span * other,
            span >= 1real,
            other >= 1real,
    ;
    assert(roundings * s * e <= s) by (nonlinear_arith)
        requires
            0real <= roundings <= 62real,
            s >= 1real,
            e == 1real / 9_007_199_254_740_992real,
    ;
    assert(size(a * b) <= big());
    assert(b * a == a * b) by (nonlinear_arith);
    law_times(x, y);
    law_times(y, x);
    lemma_one_more(x.times(y), a * b, value * b, s, roundings);
    lemma_one_more(y.times(x), a * b, value * b, s, roundings);
}

/// Adding a number, where the scale does not change.
pub proof fn lemma_within_plus(
    x: Binary64,
    value: real,
    span: real,
    roundings: real,
    y: Binary64,
)
    requires
        within(x, value, span, roundings),
        y.is_finite(),
        size(value + exact(y)) <= span,
        roundings <= 62real,
        span * 2real <= big(),
    ensures
        within(x.plus(y), value + exact(y), span, roundings + 2real),
{
    lemma_scale();
    let e = eps();
    assert(e == 1real / 9_007_199_254_740_992real);
    assert(roundings * span * e <= span) by (nonlinear_arith)
        requires
            0real <= roundings <= 62real,
            span >= 1real,
            e == 1real / 9_007_199_254_740_992real,
    ;
    law_plus(x, y);
    lemma_one_more(x.plus(y), exact(x) + exact(y), value + exact(y), span, roundings);
}

/// Subtracting.
pub proof fn lemma_within_minus(
    x: Binary64,
    value: real,
    span: real,
    roundings: real,
    y: Binary64,
    other_value: real,
    other_span: real,
    other_roundings: real,
)
    requires
        within(x, value, span, roundings),
        within(y, other_value, other_span, other_roundings),
        roundings + other_roundings <= 62real,
        (span + other_span) * 2real <= big(),
    ensures
        within(
            x.minus(y),
            value - other_value,
            span + other_span,
            roundings + other_roundings + 2real,
        ),
{
    lemma_scale();
    let e = eps();
    let (a, b) = (exact(x), exact(y));
    assert(e == 1real / 9_007_199_254_740_992real);
    let s = span + other_span;
    let n = roundings + other_roundings;
    assert(roundings * span * e + other_roundings * other_span * e <= n * s * e)
        by (nonlinear_arith)
        requires
            roundings >= 0real,
            other_roundings >= 0real,
            span >= 1real,
            other_span >= 1real,
            s == span + other_span,
            n == roundings + other_roundings,
            e >= 0real,
    ;
    assert(n * s * e <= s) by (nonlinear_arith)
        requires
            0real <= n <= 62real,
            s >= 1real,
            e == 1real / 9_007_199_254_740_992real,
    ;
    law_minus(x, y);
    lemma_one_more(x.minus(y), a - b, value - other_value, s, n);
}

/// Dividing by a number of at least one.
pub proof fn lemma_within_over(
    x: Binary64,
    value: real,
    span: real,
    roundings: real,
    y: Binary64,
    part: real,
)
    requires
        within(x, value, span, roundings),
        roundings <= 62real,
        y.is_finite(),
        exact(y) >= 1real,
        part * exact(y) == span,
        part >= 1real,
        span * 2real <= big(),
    ensures
        within(x.over(y), value / exact(y), part, roundings + 2real),
{
    lemma_scale();
    let e = eps();
    let (a, b) = (exact(x), exact(y));
    assert(e == 1real / 9_007_199_254_740_992real);
    let (q, r) = (a / b, value / b);
    assert(q * b == a && r * b == value) by (nonlinear_arith)
        requires
            q == a / b,
            r == value / b,
            b >= 1real,
    ;
    assert(size(r) <= part) by (nonlinear_arith)
        requires
            r * b == value,
            size(value) <= part * b,
            b >= 1real,
            size(value) == (if value < 0real { -value } else { value }),
            size(r) == (if r < 0real { -r } else { r }),
    ;
    assert((q - r) * b == a - value) by (nonlinear_arith)
        requires
            q * b == a,
            r * b == value,
    ;
    assert(size(q - r) <= roundings * part * e) by (nonlinear_arith)
        requires
            (q - r) * b == a - value,
            size(a - value) <= roundings * (part * b) * e,
            b >= 1real,
            size(a - value) == (if a - value < 0real { -(a - value) } else { a - value }),
            size(q - r) == (if q - r < 0real { -(q - r) } else { q - r }),
    ;
    assert(roundings * part * e <= part) by (nonlinear_arith)
        requires
            0real <= roundings <= 62real,
            part >= 1real,
            e == 1real / 9_007_199_254_740_992real,
    ;
    assert(part <= span) by (nonlinear_arith)
        requires
            part * b == span,
            part >= 1real,
            b >= 1real,
    ;
    law_over(x, y);
    lemma_one_more(x.over(y), q, r, part, roundings);
}

/// A rounded value of its own.
pub proof fn lemma_within_rounded(x: Binary64, value: real, span: real)
    requires
        rounds_to(x, value),
        size(value) <= span,
        span >= 1real,
    ensures
        within(x, value, span, 2real),
{
    assert(0real * span * eps() == 0real) by (nonlinear_arith);
    lemma_one_more(x, value, value, span, 0real);
}

/// One half.
pub proof fn law_half()
    ensures
        Binary64::ratio(false, 1, 2).is_finite(),
        exact(Binary64::ratio(false, 1, 2)) == 1real / 2real,
{
    lemma2_to64();
    lemma2_to64_rest();
    lemma_pow2_adds(52, 1021);
    lemma_pow2_unfold(1074);
    lemma_ratio_is(1, 2, 0x3FE0_0000_0000_0000);
}

/// One and a half times a number, up to one rounding.
pub proof fn law_half_more(x: Binary64)
    requires
        x.is_finite(),
        size(exact(x)) <= 1_000_000_000_000_000real,
    ensures
        rounds_to(Binary64::ratio(false, 15, 10).times(x), exact(x) * 15real / 10real),
{
    lemma2_to64();
    lemma2_to64_rest();
    lemma_big_is_big();
    lemma_pow2_adds(52, 1022);
    let pattern = 0x3FF8_0000_0000_0000int;
    assert(rounding::exponent_in(pattern) == 1022);
    assert(rounding::significand_of(pattern) == 0x18_0000_0000_0000);
    assert(15 * pow2(1074) == rounding::units(pattern) * 10);
    lemma_ratio_is(15, 10, 0x3FF8_0000_0000_0000);
    let k = Binary64::ratio(false, 15, 10);
    let v = exact(k) * exact(x);
    assert(v == exact(x) * 15real / 10real) by (nonlinear_arith)
        requires
            v == exact(k) * exact(x),
            exact(k) == 15int as real / 10int as real,
    ;
    law_times(k, x);
}

/// The total order of numbers goes by the values of finite ones, and tells only the zeros apart.
pub proof fn law_total_order_is_exact(a: Binary64, b: Binary64)
    requires
        a.is_finite(),
        b.is_finite(),
    ensures
        exact(a) < exact(b) ==> a.totally_before(b),
        a.totally_before(b) ==> exact(a) <= exact(b),
        a.totally_before(b) && exact(a) == exact(b) ==> exact(a) == 0real && a.negative(),
{
    law_order_is_exact(a, b);
    law_order_is_exact(b, a);
    lemma_value(a);
    lemma_value(b);
}

/// Whether a finite number is at most a quadrillion in size.
pub open spec fn modest(x: Binary64) -> bool {
    x.is_finite() && size(exact(x)) <= 1_000_000_000_000_000real
}

/// Whether a finite number is a real value but for one part in a quadrillion, and next to nothing.
pub open spec fn near(x: Binary64, value: real) -> bool {
    &&& x.is_finite()
    &&& size(exact(x) - value) * 1_000_000_000_000_000real <= size(value) + 1real
        / 1_000_000_000_000_000real
}

/// The difference of two modest numbers.
pub proof fn law_difference(a: Binary64, b: Binary64)
    requires
        modest(a),
        modest(b),
    ensures
        near(a.minus(b), exact(a) - exact(b)),
        near(a.minus(b).abs(), size(exact(a) - exact(b))),
{
    lemma_scale();
    lemma_speck_is_tiny();
    lemma_big_is_big();
    law_minus(a, b);
    law_signs_are_exact(a.minus(b));
    let (e, d) = (eps(), size(exact(a) - exact(b)));
    assert(d * e <= d / 2_000_000_000_000_000real) by (nonlinear_arith)
        requires
            d >= 0real,
            e == 1real / 9_007_199_254_740_992real,
    ;
}

/// The square of a square root is the number, but for one part in a quadrillion.
pub proof fn law_sqrt(x: Binary64)
    requires
        x.is_finite(),
        0real <= exact(x) <= big(),
    ensures
        x.sqrt().is_finite(),
        exact(x.sqrt()) >= 0real,
        size(exact(x.sqrt()) * exact(x.sqrt()) - exact(x)) * 1_000_000_000_000_000real <= exact(x),
{
    reveal(Binary64::sqrt_spec);
    lemma_scale();
    lemma_value(x);
    rounding::lemma_units_zero(x.magnitude());
    let s = scale();
    let w = pow2(1074) as int;
    let u = rounding::units(x.magnitude());
    let y = x.sqrt();
    if x.magnitude() == 0 {
        assert(exact(x) == 0real);
        assert(0real * 0real == 0real) by (nonlinear_arith);
    } else {
        let n = u * w;
        lemma_pow2_pos(1074);
        lemma2_to64();
        lemma2_to64_rest();
        rounding::lemma_pow2_monotone(128, 1074);
        lemma_pow2_adds(64, 64);
        assert(exact(x) * s == u as real);
        lemma_pow2_adds(1074, 1023);
        lemma_big_is_big();
        let b = pow2(1023) as int;
        assert((b * w) as real == (b as real) * s) by (nonlinear_arith)
            requires
                s == w as real,
        ;
        assert(exact(x) * s <= (b as real) * s) by (nonlinear_arith)
            requires
                exact(x) <= b as real,
                s >= 1real,
        ;
        assert(u <= b * w);
        assert(pow2(2097) == w * b);
        assert(b * w == w * b) by (nonlinear_arith);
        assert(4 * HIDDEN * HIDDEN <= n) by (nonlinear_arith)
            requires
                n == u * w,
                u >= 1,
                w >= 4 * HIDDEN * HIDDEN,
        ;
        lemma_pow2_adds(2097, 1074);
        rounding::lemma_pow2_monotone(3171, 3199);
        lemma_pow2_unfold(3200);
        lemma_pow2_pos(3199);
        assert(n <= pow2(3171)) by (nonlinear_arith)
            requires
                n == u * w,
                u <= pow2(2097),
                w > 0,
                pow2(3171) == pow2(2097) * w,
        ;
        rounding::law_root_is_close(n);
        let pattern = rounding::rounded_root(n);
        assert(y == signed(false, pattern));
        assert(y.magnitude() == pattern && !y.negative());
        lemma_value(y);
        let r = rounding::units(pattern);
        let (p, q) = (exact(y), exact(x));
        assert(p * s == r as real);
        let d = p * p - q;
        let m = (r * r - n) as real;
        assert(d * (s * s) == m) by (nonlinear_arith)
            requires
                d == p * p - q,
                p * s == r as real,
                q * s == u as real,
                m == (r * r - n) as real,
                n == u * w,
                s == w as real,
        ;
        assert(q * (s * s) == n as real) by (nonlinear_arith)
            requires
                q * s == u as real,
                n == u * w,
                s == w as real,
        ;
        let a = apart(r * r, n) as real;
        assert(size(m) == a);
        let g = HIDDEN as int as real;
        assert((apart(r * r, n) * HIDDEN) as real == a * g) by (nonlinear_arith)
            requires
                a == apart(r * r, n) as real,
                g == HIDDEN as int as real,
        ;
        assert(a * g <= 3real * (n as real));
        let z = s * s;
        assert(z >= 1real) by (nonlinear_arith)
            requires
                z == s * s,
                s >= 1real,
        ;
        let e = size(d);
        assert(e * z == a) by (nonlinear_arith)
            requires
                d * z == m,
                z >= 1real,
                e == (if d < 0real { -d } else { d }),
                a == (if m < 0real { -m } else { m }),
        ;
        assert(e * 1_000_000_000_000_000real <= q) by (nonlinear_arith)
            requires
                e * z == a,
                a * g <= 3real * (q * z),
                g == 4_503_599_627_370_496real,
                z >= 1real,
                e >= 0real,
        ;
        assert(p >= 0real) by {
            rounding::lemma_units_zero(pattern);
        }
    }
}

/// What a value that is not negative rounds to is not negative.
pub proof fn lemma_not_negative(x: Binary64, value: real)
    requires
        rounds_to(x, value),
        value >= 0real,
    ensures
        exact(x) >= 0real,
{
    lemma_scale();
    lemma_value(x);
    let s = scale();
    let (e, t) = (eps(), speck());
    assert(value * e <= value) by (nonlinear_arith)
        requires
            value >= 0real,
            e == 1real / 9_007_199_254_740_992real,
    ;
    if exact(x) < 0real {
        let v = x.value();
        rounding::lemma_units_zero(x.magnitude());
        assert(v <= -1);
        assert(exact(x) * s <= -1real);
        assert(2real * t * s == 1real) by (nonlinear_arith)
            requires
                t == 1real / (2real * s),
                s >= 1real,
        ;
        assert(exact(x) < -t) by (nonlinear_arith)
            requires
                exact(x) * s <= -1real,
                2real * t * s == 1real,
                s >= 1real,
        ;
    }
}

/// A difference of finite numbers is zero only where they are equal.
pub proof fn law_difference_vanishes(a: Binary64, b: Binary64)
    requires
        a.is_finite(),
        b.is_finite(),
    ensures
        a.minus(b).equals(Binary64::zero()) <==> exact(a) == exact(b),
        a.minus(b).abs().equals(Binary64::zero()) <==> exact(a) == exact(b),
{
    let zero = Binary64::zero();
    let least = Binary64 { bits: 1 };
    law_zero_and_one();
    lemma_scale();
    lemma_value(a);
    lemma_value(b);
    lemma_value(least);
    rounding::lemma_units_of_parts(0, 1);
    lemma2_to64();
    assert(least.value() == 1);
    law_signs_are_exact(least);
    law_minus_keeps_bounds(a, b, least);
    law_minus_keeps_bounds(a, b, least.negated());
    law_minus_keeps_bounds(a, b, zero);
    let s = scale();
    let (u, v) = (a.value(), b.value());
    let d = exact(a) - exact(b);
    assert(d * s == (u - v) as real) by (nonlinear_arith)
        requires
            d == exact(a) - exact(b),
            exact(a) * s == u as real,
            exact(b) * s == v as real,
    ;
    let l = exact(least);
    assert(l * s == 1real);
    assert(d > 0real ==> d >= l) by (nonlinear_arith)
        requires
            d * s == (u - v) as real,
            l * s == 1real,
            s >= 1real,
    ;
    assert(d < 0real ==> d <= -l) by (nonlinear_arith)
        requires
            d * s == (u - v) as real,
            l * s == 1real,
            s >= 1real,
    ;
    let x = a.minus(b);
    assert(x.abs().magnitude() == x.magnitude() && !x.abs().negative());
    assert(least.magnitude() == 1);
}

/// Between a number and itself there is no other.
proof fn lemma_pinned(x: Binary64, n: int)
    requires
        !x.is_nan(),
        0 <= n < 1_000_000,
        Binary64::count(n as u64).at_most(x),
        x.at_most(Binary64::count(n as u64)),
    ensures
        x.is_finite(),
        exact(x) == n as real,
{
    law_counts_are_exact(n as u64);
    let c = Binary64::count(n as u64);
    assert(x.is_finite());
    law_order_is_exact(c, x);
    law_order_is_exact(x, c);
}

/// A sum that is a whole number which is not too large is exact.
pub proof fn law_whole_sum(a: Binary64, b: Binary64, n: int)
    requires
        a.is_finite(),
        b.is_finite(),
        0 <= n < 1_000_000,
        exact(a) + exact(b) == n as real,
    ensures
        a.plus(b).is_finite(),
        exact(a.plus(b)) == n as real,
{
    law_counts_are_exact(n as u64);
    law_plus_keeps_bounds(a, b, Binary64::count(n as u64));
    lemma_pinned(a.plus(b), n);
}

/// A product that is a whole number which is not too large is exact.
pub proof fn law_whole_product(a: Binary64, b: Binary64, n: int)
    requires
        a.is_finite(),
        b.is_finite(),
        !a.negative(),
        !b.negative(),
        0 <= n < 1_000_000,
        exact(a) * exact(b) == n as real,
    ensures
        a.times(b).is_finite(),
        exact(a.times(b)) == n as real,
{
    reveal(Binary64::times_spec);
    lemma_scale();
    lemma_value(a);
    lemma_value(b);
    let s = scale();
    let w = pow2(1074) as int;
    let (u, v) = (rounding::units(a.magnitude()), rounding::units(b.magnitude()));
    let (x, y) = (exact(a), exact(b));
    lemma_pow2_pos(1074);
    assert((u * v) as real == (n as real) * (s * s)) by (nonlinear_arith)
        requires
            x * s == u as real,
            y * s == v as real,
            x * y == n as real,
    ;
    assert(u * v == n * (w * w)) by {
        assert((n * (w * w)) as real == (n as real) * (s * s)) by (nonlinear_arith)
            requires
                s == w as real,
        ;
    }
    assert((n * w) * w == n * (w * w)) by (nonlinear_arith);
    lemma_small_whole(n);
    let p = n * w;
    assert(p >= 0) by (nonlinear_arith)
        requires
            p == n * w,
            n >= 0,
            w > 0,
    ;
    assert((u * v) * 1 == p * w) by (nonlinear_arith)
        requires
            u * v == n * (w * w),
            (n * w) * w == n * (w * w),
            p == n * w,
    ;
    rounding::lemma_rounded_ratio(u * v, w, p, 1);
    law_counts_are_exact(n as u64);
    reveal(Binary64::ratio_spec);
    lemma_value(a.times(b));
}

/// Where two numbers are each within one rounding, so is their quotient within a few.
pub proof fn lemma_quotient(
    n: real,
    m: real,
    x: real,
    y: real,
    q: real,
    p: real,
    e: real,
    tt: real,
)
    requires
        e == 1real / 9_007_199_254_740_992real,
        tt > 0real,
        m > 0real,
        y > 0real,
        q >= 0real,
        q * m == n,
        p * y == x,
        size(x - n) <= n * e + m * tt * e,
        size(y - m) <= m * e + m * tt * e,
        tt <= 1real,
    ensures
        size(p - q) <= 4real * q * e + 4real * tt * e,
{
    let d = p - q;
    assert(d * y == x - n - q * (y - m)) by (nonlinear_arith)
        requires
            d == p - q,
            p * y == x,
            q * m == n,
    ;
    let g = size(y - m);
    assert(size(q * (y - m)) <= q * g) by (nonlinear_arith)
        requires
            q >= 0real,
            g == (if y - m < 0real { -(y - m) } else { y - m }),
            size(q * (y - m)) == (if q * (y - m) < 0real { -(q * (y - m)) } else { q * (y - m) }),
    ;
    let bound = q * m * e + m * tt * e + q * (m * e + m * tt * e);
    assert(size(d * y) <= bound) by (nonlinear_arith)
        requires
            size(d * y) <= size(x - n) + q * g,
            size(x - n) <= q * m * e + m * tt * e,
            g <= m * e + m * tt * e,
            q >= 0real,
            bound == q * m * e + m * tt * e + q * (m * e + m * tt * e),
    ;
    assert(y >= m - m / 1_000_000real) by (nonlinear_arith)
        requires
            g <= m * e + m * tt * e,
            y >= m - g,
            e == 1real / 9_007_199_254_740_992real,
            tt <= 1real,
            m > 0real,
    ;
    let k = size(d);
    assert(k * y <= bound) by (nonlinear_arith)
        requires
            size(d * y) <= bound,
            k == (if d < 0real { -d } else { d }),
            size(d * y) == (if d * y < 0real { -(d * y) } else { d * y }),
            y > 0real,
    ;
    let u = 3real * q * e + tt * e;
    assert(bound <= m * u) by (nonlinear_arith)
        requires
            bound == q * m * e + m * tt * e + q * (m * e + m * tt * e),
            u == 3real * q * e + tt * e,
            tt <= 1real,
            tt > 0real,
            q >= 0real,
            m > 0real,
            e > 0real,
    ;
    assert(u >= 0real) by (nonlinear_arith)
        requires
            u == 3real * q * e + tt * e,
            q >= 0real,
            tt > 0real,
            e > 0real,
    ;
    assert(k * (m - m / 1_000_000real) <= m * u) by (nonlinear_arith)
        requires
            k * y <= bound,
            bound <= m * u,
            y >= m - m / 1_000_000real,
            k >= 0real,
    ;
    assert(k * 999_999real <= u * 1_000_000real) by (nonlinear_arith)
        requires
            k * (m - m / 1_000_000real) <= m * u,
            m > 0real,
    ;
    assert(k <= 4real * q * e + 4real * tt * e) by (nonlinear_arith)
        requires
            k * 999_999real <= u * 1_000_000real,
            u == 3real * q * e + tt * e,
            q >= 0real,
            tt > 0real,
            e > 0real,
    ;
}

} // verus!
