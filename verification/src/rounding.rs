//! The rounding rule of the IEEE 754 binary64 format, as a function on integers.
//!
//! Every finite binary64 number is a whole multiple of two to the minus 1074, the smallest positive
//! one. Magnitudes are counted in that unit here, so an exact result is a ratio of two integers and
//! the number stored for it is another integer: its bit pattern without the sign bit.

use vstd::prelude::*;
use vstd::arithmetic::power2::*;
use vstd::arithmetic::div_mod::*;
use vstd::arithmetic::mul::*;

verus! {

/// Bit pattern of positive infinity, the first one past the largest finite magnitude.
pub const INFINITE: u64 = 0x7FF0_0000_0000_0000;

/// Two to the 52nd: the leading bit that normal numbers leave out of their pattern.
pub const HIDDEN: u64 = 0x0010_0000_0000_0000;

/// The value of the magnitude pattern `m`, in units of two to the minus 1074.
pub open spec fn units(m: int) -> int {
    if m < HIDDEN {
        m
    } else {
        (m % HIDDEN as int + HIDDEN) * pow2((m / HIDDEN as int - 1) as nat)
    }
}

/// `p / q` to the nearest whole number; a tie goes to the even neighbour.
pub open spec fn half_even(p: int, q: int) -> int {
    let floor = p / q;
    let twice = 2 * (p % q);
    if twice < q || (twice == q && floor % 2 == 0) {
        floor
    } else {
        floor + 1
    }
}

/// How many binary digits of the whole number `n` do not fit a significand of 53.
pub open spec fn binade(n: int) -> nat
    decreases n,
{
    if n < 2 * HIDDEN {
        0
    } else {
        1 + binade(n / 2)
    }
}

/// A pattern, or infinity when it is past the largest finite one.
pub open spec fn capped(pattern: int) -> int {
    if pattern < INFINITE {
        pattern
    } else {
        INFINITE as int
    }
}

/// The magnitude pattern nearest to `p / q`, ties to even, infinity past the largest finite one.
pub open spec fn rounded(p: int, q: int) -> int {
    let k = binade(p / q);
    capped(k * HIDDEN + half_even(p, q * pow2(k)))
}

/// The magnitude pattern nearest to `s` times two to the `e`.
pub open spec fn rounded_scaled(s: int, e: int) -> int {
    if e >= 0 {
        rounded(s * pow2(e as nat), 1)
    } else {
        rounded(s, pow2((-e) as nat) as int)
    }
}

/// Dividing both by the same number leaves the quotient and scales the remainder.
pub proof fn lemma_div_scale(p: int, q: int, c: int)
    requires
        q > 0,
        c > 0,
    ensures
        (p * c) / (q * c) == p / q,
        (p * c) % (q * c) == (p % q) * c,
        q * c > 0,
{
    let f = p / q;
    let r = p % q;
    lemma_fundamental_div_mod(p, q);
    assert(q * c > 0) by (nonlinear_arith)
        requires
            q > 0,
            c > 0,
    ;
    assert(p * c == f * (q * c) + r * c) by (nonlinear_arith)
        requires
            p == q * f + r,
    ;
    assert(0 <= r * c < q * c) by (nonlinear_arith)
        requires
            0 <= r < q,
            c > 0,
    ;
    lemma_fundamental_div_mod_converse(p * c, q * c, f, r * c);
}

/// Rounding to a whole number depends on the ratio alone.
pub proof fn lemma_half_even_scale(p: int, q: int, c: int)
    requires
        q > 0,
        c > 0,
    ensures
        half_even(p * c, q * c) == half_even(p, q),
{
    lemma_div_scale(p, q, c);
    let r = p % q;
    assert(2 * (r * c) < q * c <==> 2 * r < q) by (nonlinear_arith)
        requires
            c > 0,
    ;
    assert(2 * (r * c) == q * c <==> 2 * r == q) by (nonlinear_arith)
        requires
            c > 0,
    ;
}

pub proof fn lemma_half_even_ratio(p1: int, q1: int, p2: int, q2: int)
    requires
        q1 > 0,
        q2 > 0,
        p1 * q2 == p2 * q1,
    ensures
        half_even(p1, q1) == half_even(p2, q2),
{
    lemma_half_even_scale(p1, q1, q2);
    lemma_half_even_scale(p2, q2, q1);
    lemma_mul_is_commutative(q1, q2);
}

pub proof fn lemma_rounded_scale(p: int, q: int, c: int)
    requires
        q > 0,
        c > 0,
    ensures
        rounded(p * c, q * c) == rounded(p, q),
{
    lemma_div_scale(p, q, c);
    let k = binade(p / q);
    lemma_pow2_pos(k);
    assert((q * c) * pow2(k) == (q * pow2(k)) * c) by (nonlinear_arith);
    assert(q * pow2(k) > 0) by (nonlinear_arith)
        requires
            q > 0,
            pow2(k) > 0,
    ;
    lemma_half_even_scale(p, q * pow2(k), c);
}

/// Rounding depends on the ratio alone.
pub proof fn lemma_rounded_ratio(p1: int, q1: int, p2: int, q2: int)
    requires
        q1 > 0,
        q2 > 0,
        p1 * q2 == p2 * q1,
    ensures
        rounded(p1, q1) == rounded(p2, q2),
{
    lemma_rounded_scale(p1, q1, q2);
    lemma_rounded_scale(p2, q2, q1);
    lemma_mul_is_commutative(q1, q2);
}

/// A number past the first binade keeps exactly 53 digits above the cut.
pub proof fn lemma_binade_bounds(n: int)
    requires
        n >= 0,
    ensures
        n < 2 * HIDDEN * pow2(binade(n)),
        binade(n) > 0 ==> n >= HIDDEN * pow2(binade(n)),
    decreases n,
{
    lemma_pow2_pos(binade(n));
    lemma2_to64();
    if n >= 2 * HIDDEN {
        let h = n / 2;
        let k = binade(h);
        lemma_binade_bounds(h);
        lemma_pow2_unfold((k + 1) as nat);
        assert(2 * HIDDEN * (2 * pow2(k)) == 2 * (2 * HIDDEN * pow2(k))) by (nonlinear_arith);
        assert(HIDDEN * (2 * pow2(k)) == 2 * (HIDDEN * pow2(k))) by (nonlinear_arith);
        if k == 0 {
            assert(pow2(0) == 1);
        }
    }
}

pub proof fn lemma_binade_unique(n: int, k: nat)
    requires
        n >= 0,
        n < 2 * HIDDEN * pow2(k),
        k > 0 ==> n >= HIDDEN * pow2(k),
    ensures
        binade(n) == k,
{
    let b = binade(n);
    lemma_binade_bounds(n);
    if b < k {
        lemma_pow2_adds((b + 1) as nat, (k - b - 1) as nat);
        lemma_pow2_pos((k - b - 1) as nat);
        lemma_pow2_unfold((b + 1) as nat);
        assert(HIDDEN * pow2(k) >= 2 * HIDDEN * pow2(b)) by (nonlinear_arith)
            requires
                pow2(k) == (2 * pow2(b)) * pow2((k - b - 1) as nat),
                pow2((k - b - 1) as nat) >= 1,
        ;
    } else if k < b {
        lemma_pow2_adds((k + 1) as nat, (b - k - 1) as nat);
        lemma_pow2_pos((b - k - 1) as nat);
        lemma_pow2_unfold((k + 1) as nat);
        assert(HIDDEN * pow2(b) >= 2 * HIDDEN * pow2(k)) by (nonlinear_arith)
            requires
                pow2(b) == (2 * pow2(k)) * pow2((b - k - 1) as nat),
                pow2((b - k - 1) as nat) >= 1,
        ;
    }
}

/// The binade of a ratio from bounds on its numerator.
pub proof fn lemma_binade_of_ratio(p: int, q: int, k: nat)
    requires
        p >= 0,
        q > 0,
        p < (2 * HIDDEN * pow2(k)) * q,
        k > 0 ==> p >= (HIDDEN * pow2(k)) * q,
    ensures
        binade(p / q) == k,
{
    lemma_fundamental_div_mod(p, q);
    let n = p / q;
    let high = 2 * HIDDEN * pow2(k);
    let low = HIDDEN * pow2(k);
    assert(n < high) by (nonlinear_arith)
        requires
            p == q * n + p % q,
            0 <= p % q,
            p < high * q,
            q > 0,
    ;
    assert(n >= 0) by (nonlinear_arith)
        requires
            p == q * n + p % q,
            p % q < q,
            p >= 0,
            q > 0,
    ;
    if k > 0 {
        assert(n >= low) by (nonlinear_arith)
            requires
                p == q * n + p % q,
                p % q < q,
                p >= low * q,
                q > 0,
        ;
    }
    lemma_binade_unique(n, k);
}

/// What is left of `s` when `shift` binary digits are rounded away, or `-shift` zeros appended.
pub open spec fn cut(s: int, shift: int) -> int {
    if shift > 0 {
        half_even(s, pow2(shift as nat) as int)
    } else {
        s * pow2((-shift) as nat)
    }
}

/// `n` is a number of exactly `len` binary digits.
pub open spec fn has_length(n: int, len: nat) -> bool {
    len > 0 && pow2((len - 1) as nat) <= n < pow2(len)
}

/// The exponent that a number of `len` binary digits times two to the `e` gets.
pub open spec fn exponent_of(len: nat, e: int) -> nat {
    if len - 53 + e > 0 {
        (len - 53 + e) as nat
    } else {
        0
    }
}

pub proof fn lemma_pow2_monotone(a: nat, b: nat)
    requires
        a <= b,
    ensures
        0 < pow2(a) <= pow2(b),
{
    lemma_pow2_pos(a);
    if a < b {
        lemma_pow2_strictly_increases(a, b);
    }
}

pub proof fn lemma_hidden_pow2(k: nat)
    ensures
        HIDDEN * pow2(k) == pow2(52 + k),
        2 * HIDDEN * pow2(k) == pow2(53 + k),
{
    lemma2_to64();
    lemma2_to64_rest();
    lemma_pow2_adds(52, k);
    lemma_pow2_adds(53, k);
}

pub proof fn lemma_half_even_exact(m: int, q: int)
    requires
        q > 0,
    ensures
        half_even(m * q, q) == m,
{
    lemma_fundamental_div_mod_converse(m * q, q, m, 0);
}

/// Rounding a scaled whole number whose length is known.
pub proof fn lemma_rounded_scaled(s: int, e: int, len: nat)
    requires
        has_length(s, len),
    ensures
        ({
            let k = exponent_of(len, e);
            rounded_scaled(s, e) == capped(k * HIDDEN + cut(s, k - e))
        }),
{
    let k = exponent_of(len, e);
    let shift = k - e;
    lemma_pow2_pos((len - 1) as nat);
    lemma_hidden_pow2(k);
    lemma_pow2_pos(k);
    if e >= 0 {
        let p = s * pow2(e as nat);
        lemma_pow2_pos(e as nat);
        lemma_pow2_adds(len, e as nat);
        lemma_pow2_monotone((len + e) as nat, 53 + k);
        assert(p < pow2(len) * pow2(e as nat)) by (nonlinear_arith)
            requires
                s < pow2(len),
                pow2(e as nat) > 0,
                p == s * pow2(e as nat),
        ;
        assert(p >= 0) by (nonlinear_arith)
            requires
                s > 0,
                pow2(e as nat) > 0,
                p == s * pow2(e as nat),
        ;
        if k > 0 {
            lemma_pow2_adds((len - 1) as nat, e as nat);
            assert(p >= pow2((len - 1) as nat) * pow2(e as nat)) by (nonlinear_arith)
                requires
                    s >= pow2((len - 1) as nat),
                    pow2(e as nat) > 0,
                    p == s * pow2(e as nat),
            ;
        }
        lemma_binade_of_ratio(p, 1, k);
        if shift > 0 {
            lemma_pow2_pos(shift as nat);
            lemma_pow2_adds(e as nat, shift as nat);
            assert(p * pow2(shift as nat) == s * (1 * pow2(k))) by (nonlinear_arith)
                requires
                    p == s * pow2(e as nat),
                    pow2(k) == pow2(e as nat) * pow2(shift as nat),
            ;
            lemma_half_even_ratio(p, 1 * pow2(k) as int, s, pow2(shift as nat) as int);
        } else {
            lemma_pow2_adds((-shift) as nat, k);
            assert(p == (s * pow2((-shift) as nat)) * pow2(k)) by (nonlinear_arith)
                requires
                    p == s * pow2(e as nat),
                    pow2(e as nat) == pow2((-shift) as nat) * pow2(k),
            ;
            lemma_half_even_exact(s * pow2((-shift) as nat), pow2(k) as int);
        }
    } else {
        let d = (-e) as nat;
        let q = pow2(d) as int;
        lemma_pow2_pos(d);
        lemma_pow2_adds(53 + k, d);
        lemma_pow2_monotone(len, 53 + k + d);
        if k > 0 {
            lemma_pow2_adds(52 + k, d);
            assert((len - 1) as nat == 52 + k + d);
        }
        lemma_binade_of_ratio(s, q, k);
        lemma_pow2_adds(d, k);
        assert(q * pow2(k) == pow2(shift as nat));
    }
}

/// Below the rounding position it is enough to know whether anything nonzero was dropped.
pub proof fn lemma_sticky_half_even(a: int, b: int, t: int)
    requires
        a >= 0,
        b > 0,
        t >= 2,
        t % 2 == 0,
    ensures
        half_even(a, b * t) == half_even(2 * (a / b) + (if a % b != 0 { 1int } else { 0 }), 2 * t),
{
    let s = a / b;
    let r = a % b;
    let sticky = if r != 0 { 1int } else { 0 };
    let f = s / t;
    let g = s % t;
    let h = t / 2;
    lemma_fundamental_div_mod(a, b);
    lemma_fundamental_div_mod(s, t);
    assert(b * t > 0) by (nonlinear_arith)
        requires
            b > 0,
            t > 0,
    ;
    assert(a == f * (b * t) + (b * g + r)) by (nonlinear_arith)
        requires
            a == b * s + r,
            s == t * f + g,
    ;
    assert(0 <= b * g + r < b * t) by (nonlinear_arith)
        requires
            0 <= r < b,
            0 <= g,
            g + 1 <= t,
    ;
    lemma_fundamental_div_mod_converse(a, b * t, f, b * g + r);
    assert(2 * s + sticky == f * (2 * t) + (2 * g + sticky)) by (nonlinear_arith)
        requires
            s == t * f + g,
    ;
    lemma_fundamental_div_mod_converse(2 * s + sticky, 2 * t, f, 2 * g + sticky);
    assert(b * t == 2 * (b * h)) by (nonlinear_arith)
        requires
            t == 2 * h,
    ;
    if g < h {
        assert(b * g + r < b * h) by (nonlinear_arith)
            requires
                g + 1 <= h,
                0 <= r < b,
        ;
    } else if g > h {
        assert(b * g + r > b * h) by (nonlinear_arith)
            requires
                g >= h + 1,
                0 <= r,
                b > 0,
        ;
    }
}

/// The pattern nearest to `p / q` times two to the `e`.
pub open spec fn rounded_quotient(p: int, q: int, e: int) -> int {
    if e >= 0 {
        rounded(p * pow2(e as nat), q)
    } else {
        rounded(p, q * pow2((-e) as nat))
    }
}

/// Appending zeros and lowering the exponent by as many leaves a quotient.
pub proof fn lemma_rounded_quotient_shift(p: int, q: int, e: int, c: nat)
    requires
        q > 0,
    ensures
        rounded_quotient(p * pow2(c), q, e - c) == rounded_quotient(p, q, e),
{
    lemma_pow2_pos(c);
    let f = e - c;
    if e >= 0 && f >= 0 {
        lemma_pow2_adds(c, f as nat);
        assert((p * pow2(c)) * pow2(f as nat) == p * pow2(e as nat)) by (nonlinear_arith)
            requires
                pow2(e as nat) == pow2(c) * pow2(f as nat),
        ;
    } else if e >= 0 {
        let d = (-f) as nat;
        lemma_pow2_adds(e as nat, d);
        lemma_pow2_pos(d);
        assert(q * pow2(d) > 0) by (nonlinear_arith)
            requires
                q > 0,
                pow2(d) > 0,
        ;
        assert((p * pow2(c)) * q == (p * pow2(e as nat)) * (q * pow2(d))) by (nonlinear_arith)
            requires
                pow2(c) == pow2(e as nat) * pow2(d),
        ;
        lemma_rounded_ratio(p * pow2(c), q * pow2(d), p * pow2(e as nat), q);
    } else {
        let d = (-e) as nat;
        lemma_pow2_adds(d, c);
        lemma_pow2_pos(d);
        assert(q * pow2(d) > 0) by (nonlinear_arith)
            requires
                q > 0,
                pow2(d) > 0,
        ;
        assert(q * pow2((-f) as nat) == (q * pow2(d)) * pow2(c)) by (nonlinear_arith)
            requires
                pow2((-f) as nat) == pow2(d) * pow2(c),
        ;
        lemma_rounded_scale(p, q * pow2(d), pow2(c) as int);
    }
}

/// A quotient rounds as its truncation does, with one more digit that says whether it was exact.
pub proof fn lemma_sticky_quotient(a: int, b: int, j: int, len: nat)
    requires
        a >= 0,
        b > 0,
        len >= 56,
        has_length(2 * (a / b) + (if a % b != 0 { 1int } else { 0 }), len),
    ensures
        rounded_quotient(a, b, j) == rounded_scaled(
            2 * (a / b) + (if a % b != 0 { 1int } else { 0 }),
            j - 1,
        ),
{
    let s = a / b;
    let r = a % b;
    let sticky = if r != 0 { 1int } else { 0 };
    let x = 2 * s + sticky;
    let k = exponent_of(len, j - 1);
    let shift = k - (j - 1);
    lemma_rounded_scaled(x, j - 1, len);
    assert(shift >= 3);
    let t = pow2((shift - 1) as nat) as int;
    lemma_pow2_unfold((shift - 1) as nat);
    lemma_pow2_unfold(shift as nat);
    lemma_pow2_pos((shift - 2) as nat);
    lemma_sticky_half_even(a, b, t);
    assert(2 * t == pow2(shift as nat));
    // Bounds on the quotient itself.
    lemma_fundamental_div_mod(a, b);
    lemma_pow2_unfold(len);
    lemma_pow2_unfold((len - 1) as nat);
    let upper = pow2((len - 1) as nat) as int;
    let lower = pow2((len - 2) as nat) as int;
    lemma_pow2_pos((len - 2) as nat);
    assert(s + 1 <= upper);
    assert(s >= lower);
    assert(a < upper * b) by (nonlinear_arith)
        requires
            a == b * s + r,
            r < b,
            s + 1 <= upper,
            b > 0,
    ;
    assert(a >= lower * b) by (nonlinear_arith)
        requires
            a == b * s + r,
            0 <= r,
            s >= lower,
            b > 0,
    ;
    lemma_hidden_pow2(k);
    lemma_pow2_pos(k);
    if j >= 0 {
        let w = pow2(j as nat) as int;
        let p = a * w;
        lemma_pow2_pos(j as nat);
        lemma_pow2_adds((len - 1) as nat, j as nat);
        lemma_pow2_monotone((len - 1 + j) as nat, 53 + k);
        assert(p < (upper * w) * b) by (nonlinear_arith)
            requires
                p == a * w,
                a < upper * b,
                w > 0,
        ;
        assert((upper * w) * b <= pow2(53 + k) * b) by (nonlinear_arith)
            requires
                upper * w <= pow2(53 + k),
                b > 0,
        ;
        assert(p >= 0) by (nonlinear_arith)
            requires
                p == a * w,
                a >= 0,
                w > 0,
        ;
        if k > 0 {
            lemma_pow2_adds((len - 2) as nat, j as nat);
            assert(p >= (lower * w) * b) by (nonlinear_arith)
                requires
                    p == a * w,
                    a >= lower * b,
                    w > 0,
            ;
        }
        lemma_binade_of_ratio(p, b, k);
        lemma_pow2_adds((shift - 1) as nat, j as nat);
        assert(p * (b * t) == a * (b * pow2(k))) by (nonlinear_arith)
            requires
                p == a * w,
                pow2(k) == t * w,
        ;
        assert(b * t > 0 && b * pow2(k) > 0) by (nonlinear_arith)
            requires
                b > 0,
                t > 0,
                pow2(k) > 0,
        ;
        lemma_half_even_ratio(p, b * pow2(k), a, b * t);
    } else {
        let d = (-j) as nat;
        let q = b * pow2(d);
        lemma_pow2_pos(d);
        assert(q > 0) by (nonlinear_arith)
            requires
                q == b * pow2(d),
                b > 0,
                pow2(d) > 0,
        ;
        lemma_pow2_adds(53 + k, d);
        lemma_pow2_monotone((len - 1) as nat, 53 + k + d);
        assert(a < pow2(53 + k) * q) by (nonlinear_arith)
            requires
                a < upper * b,
                upper <= pow2(53 + k) * pow2(d),
                q == b * pow2(d),
                b > 0,
        ;
        if k > 0 {
            lemma_pow2_adds(52 + k, d);
            assert(a >= pow2(52 + k) * q) by (nonlinear_arith)
                requires
                    a >= lower * b,
                    lower == pow2(52 + k) * pow2(d),
                    q == b * pow2(d),
                    b > 0,
            ;
        }
        lemma_binade_of_ratio(a, q, k);
        lemma_pow2_adds(d, k);
        assert(q * pow2(k) == b * t) by (nonlinear_arith)
            requires
                q == b * pow2(d),
                t == pow2(d) * pow2(k),
        ;
    }
}

/// The largest whole number whose square is at most `n`.
pub open spec fn root(n: int) -> int
    decreases n,
{
    if n <= 0 {
        0
    } else {
        let r = 2 * root(n / 4);
        if (r + 1) * (r + 1) <= n {
            r + 1
        } else {
            r
        }
    }
}

pub proof fn lemma_root(n: int)
    requires
        n >= 0,
    ensures
        root(n) >= 0,
        root(n) * root(n) <= n < (root(n) + 1) * (root(n) + 1),
    decreases n,
{
    if n > 0 {
        let h = n / 4;
        let r = root(h);
        lemma_root(h);
        assert((2 * r) * (2 * r) == 4 * (r * r)) by (nonlinear_arith);
        assert((2 * r + 2) * (2 * r + 2) == 4 * ((r + 1) * (r + 1))) by (nonlinear_arith);
    }
}

/// The order of two squares is the order of what was squared.
pub proof fn lemma_square_order(a: int, b: int)
    requires
        a >= 0,
        b >= 0,
    ensures
        a * a < b * b <==> a < b,
        a * a <= b * b <==> a <= b,
{
    if a < b {
        assert(a * a < b * b) by (nonlinear_arith)
            requires
                0 <= a < b,
        ;
    } else if b < a {
        assert(b * b < a * a) by (nonlinear_arith)
            requires
                0 <= b < a,
        ;
    }
}

pub proof fn lemma_root_unique(n: int, r: int)
    requires
        n >= 0,
        r >= 0,
        r * r <= n < (r + 1) * (r + 1),
    ensures
        root(n) == r,
{
    lemma_root(n);
    lemma_square_order(r, root(n) + 1);
    lemma_square_order(root(n), r + 1);
}

/// The magnitude pattern nearest to the square root of `n`, ties to even.
pub open spec fn rounded_root(n: int) -> int {
    let k = binade(root(n));
    let floor = root(n) / pow2(k) as int;
    let twice_middle = (2 * floor + 1) * pow2(k);
    let significand = if 4 * n < twice_middle * twice_middle || (4 * n == twice_middle
        * twice_middle && floor % 2 == 0) {
        floor
    } else {
        floor + 1
    };
    capped(k * HIDDEN + significand)
}

/// A square root rounds as its truncation does, with one more digit that says whether it was exact.
pub proof fn lemma_sticky_root(small: int, h: nat, len: nat)
    requires
        small >= 0,
        len >= 55,
        h >= 1,
        has_length(root(small), len),
    ensures
        rounded_root(small * (pow2(h) * pow2(h))) == rounded_scaled(
            2 * root(small) + (if root(small) * root(small) != small { 1int } else { 0 }),
            h - 1,
        ),
{
    let r = root(small);
    let sticky = if r * r != small { 1int } else { 0 };
    let x = 2 * r + sticky;
    let w = pow2(h) as int;
    let n = small * (w * w);
    let k = (len - 53 + h) as nat;
    let t = pow2((len - 53) as nat) as int;
    let half = pow2((len - 54) as nat) as int;
    lemma_root(small);
    lemma_pow2_unfold((len + 1) as nat);
    lemma_pow2_unfold(len);
    lemma_pow2_pos((len - 1) as nat);
    lemma_pow2_unfold((len - 52) as nat);
    lemma_pow2_unfold((len - 53) as nat);
    lemma_pow2_pos((len - 54) as nat);
    lemma_pow2_pos(h);
    assert(has_length(x, len + 1));
    lemma_rounded_scaled(x, h - 1, len + 1);
    assert(exponent_of(len + 1, h - 1) == k);
    // The root of the whole number lies between `r` and `r + 1`, scaled.
    assert(n >= 0) by (nonlinear_arith)
        requires
            n == small * (w * w),
            small >= 0,
    ;
    let rn = root(n);
    lemma_root(n);
    assert((r * w) * (r * w) <= n) by (nonlinear_arith)
        requires
            n == small * (w * w),
            r * r <= small,
    ;
    assert(n < ((r + 1) * w) * ((r + 1) * w)) by (nonlinear_arith)
        requires
            n == small * (w * w),
            small < (r + 1) * (r + 1),
            w > 0,
    ;
    assert(r * w >= 0 && (r + 1) * w >= 0) by (nonlinear_arith)
        requires
            r >= 0,
            w > 0,
    ;
    lemma_square_order(r * w, rn + 1);
    lemma_square_order(rn, (r + 1) * w);
    // Its binade.
    lemma_hidden_pow2(k);
    lemma_pow2_adds(len, h);
    lemma_pow2_adds((len - 1) as nat, h);
    assert((r + 1) * w <= pow2(len) * w) by (nonlinear_arith)
        requires
            r + 1 <= pow2(len),
            w > 0,
    ;
    assert(r * w >= pow2((len - 1) as nat) * w) by (nonlinear_arith)
        requires
            r >= pow2((len - 1) as nat),
            w > 0,
    ;
    lemma_binade_unique(rn, k);
    // Its leading digits.
    let f = r / t;
    let g = r % t;
    lemma_fundamental_div_mod(r, t);
    lemma_pow2_adds((len - 53) as nat, h);
    lemma_pow2_pos(k);
    assert(rn >= f * pow2(k)) by (nonlinear_arith)
        requires
            rn >= r * w,
            r == t * f + g,
            g >= 0,
            w > 0,
            pow2(k) == t * w,
    ;
    assert(rn < (f + 1) * pow2(k)) by (nonlinear_arith)
        requires
            rn < (r + 1) * w,
            r == t * f + g,
            g + 1 <= t,
            w > 0,
            pow2(k) == t * w,
    ;
    assert((f + 1) * pow2(k) == f * pow2(k) + pow2(k)) by (nonlinear_arith);
    lemma_fundamental_div_mod_converse(rn, pow2(k) as int, f, rn - f * pow2(k));
    assert(x == f * (2 * t) + (2 * g + sticky)) by (nonlinear_arith)
        requires
            x == 2 * r + sticky,
            r == t * f + g,
    ;
    lemma_fundamental_div_mod_converse(x, 2 * t, f, 2 * g + sticky);
    // The middle between the two candidates.
    let middle = (2 * f + 1) * half;
    assert(middle == t * f + half) by (nonlinear_arith)
        requires
            middle == (2 * f + 1) * half,
            t == 2 * half,
    ;
    assert(middle >= 0);
    let twice_middle = (2 * f + 1) * pow2(k);
    assert(twice_middle == 2 * middle * w) by (nonlinear_arith)
        requires
            twice_middle == (2 * f + 1) * pow2(k),
            pow2(k) == (2 * half) * w,
            middle == (2 * f + 1) * half,
    ;
    assert(twice_middle * twice_middle == 4 * ((middle * middle) * (w * w))) by (nonlinear_arith)
        requires
            twice_middle == 2 * middle * w,
    ;
    assert(w * w > 0) by (nonlinear_arith)
        requires
            w > 0,
    ;
    assert(small < middle * middle ==> small * (w * w) < (middle * middle) * (w * w))
        by (nonlinear_arith)
        requires
            w * w > 0,
    ;
    assert(small > middle * middle ==> small * (w * w) > (middle * middle) * (w * w))
        by (nonlinear_arith)
        requires
            w * w > 0,
    ;
    if g < half {
        lemma_square_order(r + 1, middle);
    } else if g > half {
        lemma_square_order(middle, r);
    }
}

/// A number too small to reach the rounding position of a normal number does not change it.
pub proof fn lemma_absorbed(m: int, k: nat, t: int)
    requires
        HIDDEN <= m < 2 * HIDDEN,
        k >= 3,
        -pow2((k - 3) as nat) < t < pow2((k - 3) as nat),
    ensures
        rounded(m * pow2(k) + t, 1) == capped(k * HIDDEN + m),
{
    let w = pow2(k) as int;
    let n = m * w + t;
    lemma_pow2_unfold(k);
    lemma_pow2_unfold((k - 1) as nat);
    lemma_pow2_unfold((k - 2) as nat);
    lemma_pow2_pos((k - 3) as nat);
    assert(m * w >= HIDDEN * w) by (nonlinear_arith)
        requires
            m >= HIDDEN,
            w > 0,
    ;
    assert((m + 1) * w <= 2 * HIDDEN * w) by (nonlinear_arith)
        requires
            m + 1 <= 2 * HIDDEN,
            w > 0,
    ;
    assert((m + 1) * w == m * w + w) by (nonlinear_arith);
    assert((m - 1) * w == m * w - w) by (nonlinear_arith);
    if t >= 0 {
        lemma_binade_unique(n, k);
        lemma_fundamental_div_mod_converse(n, w, m, t);
    } else if m > HIDDEN {
        assert((m - 1) * w >= HIDDEN * w) by (nonlinear_arith)
            requires
                m - 1 >= HIDDEN,
                w > 0,
        ;
        lemma_binade_unique(n, k);
        lemma_fundamental_div_mod_converse(n, w, m - 1, w + t);
    } else {
        let v = pow2((k - 1) as nat) as int;
        assert(n == 2 * HIDDEN * v + t) by (nonlinear_arith)
            requires
                n == m * w + t,
                w == 2 * v,
                m == HIDDEN,
        ;
        assert(2 * HIDDEN * v == HIDDEN * v + HIDDEN * v) by (nonlinear_arith);
        assert(HIDDEN * v >= v) by (nonlinear_arith)
            requires
                v > 0,
        ;
        lemma_binade_unique(n, (k - 1) as nat);
        assert((2 * HIDDEN - 1) * v == 2 * HIDDEN * v - v) by (nonlinear_arith);
        lemma_fundamental_div_mod_converse(n, v, 2 * HIDDEN - 1, v + t);
    }
}

/// Significand of a magnitude pattern.
pub open spec fn significand_of(m: int) -> int {
    if m < HIDDEN {
        m
    } else {
        m % HIDDEN as int + HIDDEN
    }
}

/// Exponent of a magnitude pattern.
pub open spec fn exponent_in(m: int) -> nat {
    if m < HIDDEN {
        0
    } else {
        (m / HIDDEN as int - 1) as nat
    }
}

/// A pattern is its exponent and its significand added up.
pub proof fn lemma_pattern_parts(m: int)
    requires
        m >= 0,
    ensures
        units(m) == significand_of(m) * pow2(exponent_in(m)),
        m == exponent_in(m) * HIDDEN + significand_of(m),
        0 <= significand_of(m) < 2 * HIDDEN,
        exponent_in(m) > 0 ==> significand_of(m) >= HIDDEN,
{
    lemma2_to64();
    lemma_fundamental_div_mod(m, HIDDEN as int);
    if m < HIDDEN {
        assert(m * pow2(0) == m) by (nonlinear_arith)
            requires
                pow2(0) == 1,
        ;
    }
}

/// A larger pattern stands for a larger value.
pub proof fn lemma_units_order(a: int, b: int)
    requires
        0 <= a < b,
    ensures
        units(a) < units(b),
{
    let (ka, ma) = (exponent_in(a), significand_of(a));
    let (kb, mb) = (exponent_in(b), significand_of(b));
    lemma_pattern_parts(a);
    lemma_pattern_parts(b);
    assert(ka <= kb) by (nonlinear_arith)
        requires
            a == ka * HIDDEN + ma,
            b == kb * HIDDEN + mb,
            a < b,
            mb < 2 * HIDDEN,
            ka > 0 ==> ma >= HIDDEN,
    ;
    lemma_pow2_pos(ka);
    lemma_pow2_pos(kb);
    if ka == kb {
        assert(ma * pow2(ka) < mb * pow2(ka)) by (nonlinear_arith)
            requires
                ma < mb,
                pow2(ka) > 0,
        ;
    } else {
        lemma_pow2_adds((ka + 1) as nat, (kb - ka - 1) as nat);
        lemma_pow2_pos((kb - ka - 1) as nat);
        lemma_pow2_unfold((ka + 1) as nat);
        let c = pow2((kb - ka - 1) as nat) as int;
        assert(pow2(kb) >= 2 * pow2(ka)) by (nonlinear_arith)
            requires
                pow2(kb) == (2 * pow2(ka)) * c,
                c >= 1,
                pow2(ka) > 0,
        ;
        assert(ma * pow2(ka) < mb * pow2(kb)) by (nonlinear_arith)
            requires
                ma < 2 * HIDDEN,
                mb >= HIDDEN,
                pow2(ka) > 0,
                pow2(kb) >= 2 * pow2(ka),
        ;
    }
}

/// Only the zero pattern stands for zero.
pub proof fn lemma_units_zero(m: int)
    requires
        m >= 0,
    ensures
        units(m) >= 0,
        units(m) == 0 <==> m == 0,
{
    if m > 0 {
        lemma_units_order(0, m);
    }
}

/// A representable value rounds to its own pattern.
pub proof fn lemma_rounded_exact(m: int)
    requires
        0 <= m < INFINITE,
    ensures
        rounded(units(m), 1) == m,
{
    let k = exponent_in(m);
    let s = significand_of(m);
    lemma_pattern_parts(m);
    lemma_pow2_pos(k);
    assert(0 <= s * pow2(k) < 2 * HIDDEN * pow2(k)) by (nonlinear_arith)
        requires
            0 <= s < 2 * HIDDEN,
            pow2(k) > 0,
    ;
    if k > 0 {
        assert(s * pow2(k) >= HIDDEN * pow2(k)) by (nonlinear_arith)
            requires
                s >= HIDDEN,
                pow2(k) > 0,
        ;
    }
    lemma_binade_unique(units(m), k);
    lemma_half_even_exact(s, pow2(k) as int);
}

pub proof fn lemma_rounded_nothing()
    ensures
        rounded(0, 1) == 0,
{
    lemma_rounded_exact(0);
}

/// How far apart two whole numbers are.
pub open spec fn apart(a: int, b: int) -> int {
    if a < b {
        b - a
    } else {
        a - b
    }
}

/// A pattern is its exponent and its significand added up, also where the significand has reached
/// the next binade.
pub proof fn lemma_units_of_parts(k: nat, h: int)
    requires
        0 <= h <= 2 * HIDDEN,
        k > 0 ==> h >= HIDDEN,
    ensures
        units(k * HIDDEN + h) == h * pow2(k),
{
    lemma2_to64();
    let m = k * HIDDEN + h;
    if h < HIDDEN {
        assert(k == 0);
        assert(h * pow2(0) == h) by (nonlinear_arith)
            requires
                pow2(0) == 1,
        ;
    } else if h < 2 * HIDDEN {
        assert(m == (k + 1) * HIDDEN + (h - HIDDEN)) by (nonlinear_arith)
            requires
                m == k * HIDDEN + h,
        ;
        lemma_fundamental_div_mod_converse(m, HIDDEN as int, (k + 1) as int, h - HIDDEN);
    } else {
        assert(m == (k + 2) * HIDDEN) by (nonlinear_arith)
            requires
                m == k * HIDDEN + 2 * HIDDEN,
        ;
        lemma_fundamental_div_mod_converse(m, HIDDEN as int, (k + 2) as int, 0);
        lemma_pow2_unfold((k + 1) as nat);
        assert(HIDDEN * (2 * pow2(k)) == 2 * HIDDEN * pow2(k)) by (nonlinear_arith);
    }
}

/// Rounding to whole numbers gives the nearest one, and of two nearest ones the even one.
proof fn lemma_half_even_nearest(p: int, d: int, t: int)
    requires
        p >= 0,
        d > 0,
    ensures
        apart(half_even(p, d) * d, p) <= apart(t * d, p),
        apart(half_even(p, d) * d, p) == apart(t * d, p) && t != half_even(p, d) ==> half_even(p, d)
            % 2 == 0,
        apart(half_even(p, d) * d, p) <= p % d,
        p / d <= half_even(p, d) <= p / d + 1,
{
    let f = p / d;
    let r = p % d;
    lemma_fundamental_div_mod(p, d);
    lemma_mod_bound(p, d);
    let h = half_even(p, d);
    assert(f * d == d * f) by (nonlinear_arith);
    assert((f + 1) * d == f * d + d) by (nonlinear_arith);
    if t < f {
        assert(t * d <= f * d - d) by (nonlinear_arith)
            requires
                t <= f - 1,
                d > 0,
        ;
    } else if t > f + 1 {
        assert(t * d >= f * d + 2 * d) by (nonlinear_arith)
            requires
                t >= f + 2,
                d > 0,
        ;
    }
}

/// No finite pattern is nearer to `p / q` than the one it rounds to, and where another one is as
/// near, the one it rounds to is even.
pub proof fn law_rounded_is_nearest(p: int, q: int, m: int)
    requires
        p >= 0,
        q > 0,
        0 <= m < INFINITE,
        rounded(p, q) < INFINITE,
    ensures
        apart(units(rounded(p, q)) * q, p) <= apart(units(m) * q, p),
        apart(units(rounded(p, q)) * q, p) == apart(units(m) * q, p) && m != rounded(p, q)
            ==> rounded(p, q) % 2 == 0,
{
    let n = p / q;
    let k = binade(n);
    let c = pow2(k) as int;
    let d = q * c;
    let h = half_even(p, d);
    let pattern = rounded(p, q);
    lemma_div_pos_is_pos(p, q);
    lemma_binade_bounds(n);
    lemma_pow2_pos(k);
    assert(d > 0) by (nonlinear_arith)
        requires
            q > 0,
            c > 0,
            d == q * c,
    ;
    lemma_div_denominator(p, q, c);
    let f = p / d;
    assert(f == n / c);
    lemma_fundamental_div_mod(n, c);
    lemma_mod_bound(n, c);
    assert(f < 2 * HIDDEN) by (nonlinear_arith)
        requires
            n == c * f + n % c,
            0 <= n % c,
            n < 2 * HIDDEN * c,
            c > 0,
    ;
    assert(f >= 0) by (nonlinear_arith)
        requires
            n == c * f + n % c,
            n % c < c,
            n >= 0,
            c > 0,
    ;
    if k > 0 {
        assert(f >= HIDDEN) by (nonlinear_arith)
            requires
                n == c * f + n % c,
                n % c < c,
                n >= HIDDEN * c,
                c > 0,
        ;
    }
    lemma_half_even_nearest(p, d, 0);
    assert(pattern == k * HIDDEN + h);
    lemma_units_of_parts(k, h);
    assert(units(pattern) * q == h * d) by (nonlinear_arith)
        requires
            units(pattern) == h * c,
            d == q * c,
    ;
    let j = exponent_in(m);
    let s = significand_of(m);
    lemma_pattern_parts(m);
    lemma_pow2_pos(j);
    if j >= k {
        lemma_pow2_adds((j - k) as nat, k);
        let t = s * pow2((j - k) as nat);
        assert(units(m) * q == t * d) by (nonlinear_arith)
            requires
                units(m) == s * pow2(j),
                pow2(j) == pow2((j - k) as nat) * c,
                t == s * pow2((j - k) as nat),
                d == q * c,
        ;
        lemma_half_even_nearest(p, d, t);
        if apart(units(pattern) * q, p) == apart(units(m) * q, p) && m != pattern {
            if t == h {
                assert(t * c == units(m)) by (nonlinear_arith)
                    requires
                        units(m) == s * pow2(j),
                        pow2(j) == pow2((j - k) as nat) * c,
                        t == s * pow2((j - k) as nat),
                ;
                if m < pattern {
                    lemma_units_order(m, pattern);
                } else {
                    lemma_units_order(pattern, m);
                }
            }
            assert(h % 2 == 0);
            assert((k * HIDDEN + h) % 2 == 0) by (nonlinear_arith)
                requires
                    h % 2 == 0,
                    HIDDEN % 2 == 0,
            ;
        }
    } else {
        lemma_pow2_adds((j + 1) as nat, (k - j - 1) as nat);
        lemma_pow2_pos((k - j - 1) as nat);
        lemma_pow2_unfold((j + 1) as nat);
        let e = pow2((k - j - 1) as nat) as int;
        assert(c >= 2 * pow2(j)) by (nonlinear_arith)
            requires
                c == (2 * pow2(j)) * e,
                e >= 1,
                pow2(j) > 0,
        ;
        assert(units(m) < HIDDEN * c) by (nonlinear_arith)
            requires
                units(m) == s * pow2(j),
                s < 2 * HIDDEN,
                c >= 2 * pow2(j),
                pow2(j) > 0,
        ;
        assert(units(m) * q < f * d) by (nonlinear_arith)
            requires
                units(m) < HIDDEN * c,
                f >= HIDDEN,
                c > 0,
                q > 0,
                d == q * c,
        ;
        lemma_fundamental_div_mod(p, d);
        assert(f * d == d * f) by (nonlinear_arith);
    }
}

/// Rounding gives a pattern.
pub proof fn lemma_rounded_not_negative(p: int, q: int)
    requires
        p >= 0,
        q > 0,
    ensures
        rounded(p, q) >= 0,
{
    let k = binade(p / q);
    let d = q * pow2(k);
    lemma_pow2_pos(k);
    assert(d > 0) by (nonlinear_arith)
        requires
            q > 0,
            pow2(k) > 0,
            d == q * pow2(k),
    ;
    lemma_div_pos_is_pos(p, d);
    assert(k * HIDDEN >= 0) by (nonlinear_arith);
}

/// What is at least a finite number is not rounded below it.
pub proof fn lemma_rounded_at_least(p: int, q: int, m: int)
    requires
        q > 0,
        0 <= m < INFINITE,
        units(m) * q <= p,
    ensures
        m <= rounded(p, q) <= INFINITE,
{
    lemma_units_zero(m);
    assert(units(m) * q >= 0) by (nonlinear_arith)
        requires
            units(m) >= 0,
            q > 0,
    ;
    let pattern = rounded(p, q);
    if pattern < m {
        law_rounded_is_nearest(p, q, m);
        lemma_rounded_not_negative(p, q);
        lemma_units_order(pattern, m);
        assert(units(pattern) * q < units(m) * q) by (nonlinear_arith)
            requires
                units(pattern) < units(m),
                q > 0,
        ;
    }
}

/// What is well below the largest finite number rounds to a finite one, at most half a unit of the
/// last place away.
pub proof fn law_rounded_is_close(p: int, q: int)
    requires
        p >= 0,
        q > 0,
        p <= pow2(2097) * q,
    ensures
        0 <= rounded(p, q) < INFINITE,
        apart(units(rounded(p, q)) * q, p) * (2 * HIDDEN) <= p + q * HIDDEN,
{
    let n = p / q;
    let k = binade(n);
    let c = pow2(k) as int;
    let d = q * c;
    let h = half_even(p, d);
    lemma_div_pos_is_pos(p, q);
    lemma_binade_bounds(n);
    lemma_pow2_pos(k);
    lemma_fundamental_div_mod(p, q);
    lemma_mod_bound(p, q);
    assert(n <= pow2(2097)) by (nonlinear_arith)
        requires
            p == q * n + p % q,
            0 <= p % q,
            p <= pow2(2097) * q,
            q > 0,
    ;
    if k >= 2046 {
        lemma_hidden_pow2(k);
        lemma_pow2_strictly_increases(2097, 52 + k);
    }
    assert(d > 0) by (nonlinear_arith)
        requires
            q > 0,
            c > 0,
            d == q * c,
    ;
    lemma_div_denominator(p, q, c);
    let f = p / d;
    lemma_fundamental_div_mod(n, c);
    lemma_mod_bound(n, c);
    assert(0 <= f < 2 * HIDDEN) by (nonlinear_arith)
        requires
            f == n / c,
            n == c * f + n % c,
            0 <= n % c < c,
            0 <= n < 2 * HIDDEN * c,
            c > 0,
    ;
    if k > 0 {
        assert(f >= HIDDEN) by (nonlinear_arith)
            requires
                n == c * f + n % c,
                n % c < c,
                n >= HIDDEN * c,
                c > 0,
        ;
    }
    lemma_fundamental_div_mod(p, d);
    lemma_mod_bound(p, d);
    let r = p % d;
    assert(h == f || h == f + 1);
    lemma_half_even_nearest(p, d, 0);
    if k == 2045 {
        // The value is at most two to the 2097, the least number of this binade.
        lemma_hidden_pow2(2045);
        assert(n == HIDDEN * c);
        assert(f == HIDDEN) by (nonlinear_arith)
            requires
                n == c * f + n % c,
                0 <= n % c < c,
                n == HIDDEN * c,
                c > 0,
        ;
    }
    assert(k * HIDDEN + h < INFINITE) by (nonlinear_arith)
        requires
            k <= 2045,
            k == 2045 ==> h <= HIDDEN + 1,
            h <= 2 * HIDDEN,
            HIDDEN == 0x10_0000_0000_0000,
            INFINITE == 0x7FF0_0000_0000_0000,
    ;
    lemma_rounded_not_negative(p, q);
    lemma_units_of_parts(k, h);
    let u = units(rounded(p, q));
    assert(u * q == h * d) by (nonlinear_arith)
        requires
            u == h * c,
            d == q * c,
    ;
    assert(f * d == d * f && (f + 1) * d == f * d + d) by (nonlinear_arith);
    assert(2 * apart(u * q, p) <= d);
    if k == 0 {
        lemma2_to64();
        assert(d == q) by (nonlinear_arith)
            requires
                d == q * c,
                c == 1,
        ;
    } else {
        assert(d * HIDDEN <= p) by (nonlinear_arith)
            requires
                p == d * f + r,
                r >= 0,
                f >= HIDDEN,
                d > 0,
        ;
    }
    assert(apart(u * q, p) * (2 * HIDDEN) <= d * HIDDEN) by (nonlinear_arith)
        requires
            2 * apart(u * q, p) <= d,
    ;
}

/// What is at most a finite number is not rounded above it.
pub proof fn lemma_rounded_at_most(p: int, q: int, m: int)
    requires
        q > 0,
        0 <= p,
        0 <= m < INFINITE,
        p <= units(m) * q,
    ensures
        0 <= rounded(p, q) <= m,
{
    lemma_rounded_not_negative(p, q);
    let n = p / q;
    let k = binade(n);
    let c = pow2(k) as int;
    let d = q * c;
    let j = exponent_in(m);
    let s = significand_of(m);
    lemma_pattern_parts(m);
    lemma_div_pos_is_pos(p, q);
    lemma_binade_bounds(n);
    lemma_pow2_pos(k);
    lemma_pow2_pos(j);
    lemma_fundamental_div_mod(p, q);
    lemma_mod_bound(p, q);
    assert(n <= units(m)) by (nonlinear_arith)
        requires
            p == q * n + p % q,
            0 <= p % q,
            p <= units(m) * q,
            q > 0,
    ;
    // The binade of the quotient is not above that of the bound.
    if k > j {
        lemma_pow2_adds((j + 1) as nat, (k - j - 1) as nat);
        lemma_pow2_pos((k - j - 1) as nat);
        lemma_pow2_unfold((j + 1) as nat);
        let e = pow2((k - j - 1) as nat) as int;
        assert(units(m) < HIDDEN * c) by (nonlinear_arith)
            requires
                units(m) == s * pow2(j),
                s < 2 * HIDDEN,
                c == (2 * pow2(j)) * e,
                e >= 1,
                pow2(j) > 0,
        ;
    }
    assert(d > 0) by (nonlinear_arith)
        requires
            q > 0,
            c > 0,
            d == q * c,
    ;
    lemma_pow2_adds((j - k) as nat, k);
    let t = s * pow2((j - k) as nat);
    assert(units(m) * q == t * d) by (nonlinear_arith)
        requires
            units(m) == s * pow2(j),
            pow2(j) == pow2((j - k) as nat) * c,
            t == s * pow2((j - k) as nat),
            d == q * c,
    ;
    let h = half_even(p, d);
    lemma_fundamental_div_mod(p, d);
    lemma_mod_bound(p, d);
    let f = p / d;
    let r = p % d;
    assert(f <= t) by (nonlinear_arith)
        requires
            p == d * f + r,
            r >= 0,
            p <= t * d,
            d > 0,
    ;
    assert(r > 0 ==> f + 1 <= t) by (nonlinear_arith)
        requires
            p == d * f + r,
            p <= t * d,
            d > 0,
    ;
    assert(h <= t);
    lemma_div_denominator(p, q, c);
    lemma_fundamental_div_mod(n, c);
    lemma_mod_bound(n, c);
    assert(0 <= f < 2 * HIDDEN) by (nonlinear_arith)
        requires
            f == n / c,
            n == c * f + n % c,
            0 <= n % c < c,
            0 <= n < 2 * HIDDEN * c,
            c > 0,
    ;
    if k > 0 {
        assert(f >= HIDDEN) by (nonlinear_arith)
            requires
                n == c * f + n % c,
                n % c < c,
                n >= HIDDEN * c,
                c > 0,
        ;
    }
    lemma_units_of_parts(k, h);
    let pattern = k * HIDDEN + h;
    assert(h * c <= t * c) by (nonlinear_arith)
        requires
            h <= t,
            c > 0,
    ;
    assert(t * c == units(m)) by (nonlinear_arith)
        requires
            units(m) == s * pow2(j),
            pow2(j) == pow2((j - k) as nat) * c,
            t == s * pow2((j - k) as nat),
    ;
    if pattern > m {
        lemma_units_order(m, pattern);
    }
}

/// No finite pattern is nearer to the square root of `n` than the one it rounds to: the middle
/// between the two is on the other side of the root, or on it.
pub proof fn law_root_is_nearest(n: int, m: int)
    requires
        n >= 0,
        0 <= m < INFINITE,
        rounded_root(n) < INFINITE,
    ensures
        ({
            let twice_middle = units(rounded_root(n)) + units(m);
            &&& units(m) > units(rounded_root(n)) ==> twice_middle * twice_middle >= 4 * n
            &&& units(m) < units(rounded_root(n)) ==> twice_middle * twice_middle <= 4 * n
        }),
{
    let root = root(n);
    let k = binade(root);
    let c = pow2(k) as int;
    let floor = root / c;
    let tm = (2 * floor + 1) * c;
    let pattern = rounded_root(n);
    lemma_root(n);
    lemma_binade_bounds(root);
    lemma_pow2_pos(k);
    lemma_fundamental_div_mod(root, c);
    lemma_mod_bound(root, c);
    assert(0 <= floor < 2 * HIDDEN) by (nonlinear_arith)
        requires
            root == c * floor + root % c,
            0 <= root % c < c,
            0 <= root < 2 * HIDDEN * c,
            c > 0,
    ;
    if k > 0 {
        assert(floor >= HIDDEN) by (nonlinear_arith)
            requires
                root == c * floor + root % c,
                root % c < c,
                root >= HIDDEN * c,
                c > 0,
        ;
    }
    let h = pattern - k * HIDDEN;
    assert(h == floor || h == floor + 1);
    assert(h == floor ==> 4 * n <= tm * tm);
    assert(h == floor + 1 ==> 4 * n >= tm * tm);
    lemma_units_of_parts(k, h);
    let low = floor * c;
    assert(tm == 2 * low + c) by (nonlinear_arith)
        requires
            tm == (2 * floor + 1) * c,
            low == floor * c,
    ;
    assert((floor + 1) * c == low + c) by (nonlinear_arith)
        requires
            low == floor * c,
    ;
    assert(low >= 0) by (nonlinear_arith)
        requires
            low == floor * c,
            floor >= 0,
            c > 0,
    ;
    assert(low == c * floor) by (nonlinear_arith)
        requires
            low == floor * c,
    ;
    // The root is at least `low` and less than `low + c`.
    assert(4 * n >= (2 * low) * (2 * low)) by (nonlinear_arith)
        requires
            root * root <= n,
            0 <= low <= root,
    ;
    assert(4 * n <= (2 * (low + c)) * (2 * (low + c))) by (nonlinear_arith)
        requires
            n < (root + 1) * (root + 1),
            0 <= root + 1 <= low + c,
    ;
    let u = units(pattern);
    let v = units(m);
    let j = exponent_in(m);
    let s = significand_of(m);
    lemma_pattern_parts(m);
    lemma_pow2_pos(j);
    assert(v >= 0) by (nonlinear_arith)
        requires
            v == s * pow2(j),
            s >= 0,
            pow2(j) > 0,
    ;
    if j >= k {
        lemma_pow2_adds((j - k) as nat, k);
        let t = s * pow2((j - k) as nat);
        assert(v == t * c) by (nonlinear_arith)
            requires
                v == s * pow2(j),
                pow2(j) == pow2((j - k) as nat) * c,
                t == s * pow2((j - k) as nat),
        ;
        if v > u {
            assert(t >= h + 1) by (nonlinear_arith)
                requires
                    t * c > h * c,
                    c > 0,
            ;
            assert(v >= u + c) by (nonlinear_arith)
                requires
                    v == t * c,
                    u == h * c,
                    t >= h + 1,
                    c > 0,
            ;
            if h == floor {
                lemma_square_order(tm, u + v);
            } else {
                lemma_square_order(2 * (low + c), u + v);
            }
        } else if v < u {
            assert(t <= h - 1) by (nonlinear_arith)
                requires
                    t * c < h * c,
                    c > 0,
            ;
            assert(v <= u - c) by (nonlinear_arith)
                requires
                    v == t * c,
                    u == h * c,
                    t <= h - 1,
                    c > 0,
            ;
            if h == floor {
                lemma_square_order(u + v, 2 * low);
            } else {
                lemma_square_order(u + v, tm);
            }
        }
    } else {
        lemma_pow2_adds((j + 1) as nat, (k - j - 1) as nat);
        lemma_pow2_pos((k - j - 1) as nat);
        lemma_pow2_unfold((j + 1) as nat);
        let e = pow2((k - j - 1) as nat) as int;
        assert(c >= 2 * pow2(j)) by (nonlinear_arith)
            requires
                c == (2 * pow2(j)) * e,
                e >= 1,
                pow2(j) > 0,
        ;
        assert(v < low) by (nonlinear_arith)
            requires
                v == s * pow2(j),
                s < 2 * HIDDEN,
                c >= 2 * pow2(j),
                pow2(j) > 0,
                floor >= HIDDEN,
                low == floor * c,
        ;
        if h == floor {
            lemma_square_order(u + v, 2 * low);
        } else {
            lemma_square_order(u + v, tm);
        }
    }
}

/// A square root of a number that is not too small is close: its square is off by at most three
/// parts in as many as a significand counts.
pub proof fn law_root_is_close(n: int)
    requires
        4 * HIDDEN * HIDDEN <= n,
        n < pow2(3_200),
    ensures
        0 <= rounded_root(n) < INFINITE,
        apart(units(rounded_root(n)) * units(rounded_root(n)), n) * HIDDEN <= 3 * n,
{
    let root = root(n);
    let k = binade(root);
    let c = pow2(k) as int;
    let floor = root / c;
    lemma_root(n);
    lemma_binade_bounds(root);
    lemma_pow2_pos(k);
    lemma_fundamental_div_mod(root, c);
    lemma_mod_bound(root, c);
    assert(root >= 2 * HIDDEN) by (nonlinear_arith)
        requires
            n < (root + 1) * (root + 1),
            root >= 0,
            4 * HIDDEN * HIDDEN <= n,
    ;
    assert(k > 0);
    assert(HIDDEN <= floor < 2 * HIDDEN) by (nonlinear_arith)
        requires
            root == c * floor + root % c,
            0 <= root % c < c,
            HIDDEN * c <= root < 2 * HIDDEN * c,
            c > 0,
    ;
    if k >= 1_600 {
        lemma_pow2_monotone(1_600, k);
        lemma_pow2_adds(1_600, 1_600);
        let t = pow2(1_600) as int;
        assert(n >= t * t) by (nonlinear_arith)
            requires
                root * root <= n,
                root >= HIDDEN * c,
                c >= t,
                t >= 0,
        ;
        assert(false);
    }
    let low = floor * c;
    let h = if rounded_root(n) == k * HIDDEN + floor {
        floor
    } else {
        floor + 1
    };
    assert(k * HIDDEN + h < INFINITE) by (nonlinear_arith)
        requires
            k < 1_600,
            h <= 2 * HIDDEN,
            INFINITE == 2_047 * HIDDEN,
    ;
    assert(k * HIDDEN >= 0) by (nonlinear_arith);
    assert(rounded_root(n) == k * HIDDEN + h);
    lemma_units_of_parts(k, h);
    let u = units(rounded_root(n));
    assert((floor + 1) * c == low + c) by (nonlinear_arith)
        requires
            low == floor * c,
    ;
    assert(u == low || u == low + c);
    assert(low == c * floor) by (nonlinear_arith)
        requires
            low == floor * c,
    ;
    assert(low >= HIDDEN * c) by (nonlinear_arith)
        requires
            low == floor * c,
            floor >= HIDDEN,
            c > 0,
    ;
    assert(low * low <= n) by (nonlinear_arith)
        requires
            root * root <= n,
            0 <= low <= root,
    ;
    assert(n <= (low + c) * (low + c)) by (nonlinear_arith)
        requires
            n < (root + 1) * (root + 1),
            0 <= root + 1 <= low + c,
    ;
    let d = 2 * low * c + c * c;
    assert((low + c) * (low + c) == low * low + d) by (nonlinear_arith)
        requires
            d == 2 * low * c + c * c,
    ;
    assert(0 <= d && d * HIDDEN <= 3 * (low * low)) by (nonlinear_arith)
        requires
            d == 2 * low * c + c * c,
            low >= HIDDEN * c,
            c > 0,
            HIDDEN >= 1,
    ;
    let a = apart(u * u, n);
    assert(a <= d);
    assert(a * HIDDEN <= d * HIDDEN) by (nonlinear_arith)
        requires
            0 <= a <= d,
            HIDDEN >= 1,
    ;
}

} // verus!
