//! Rounding of exact intermediate results to binary64 magnitude patterns, on machine integers.

use vstd::prelude::*;
use vstd::arithmetic::power2::*;
use vstd::arithmetic::div_mod::*;
use vstd::arithmetic::mul::*;
use crate::rounding;
use crate::rounding::{HIDDEN, INFINITE};

verus! {

/// Taking `w` binary digits off the end of a number shortens it by `w`.
proof fn lemma_length_step(x: int, w: nat, len: nat)
    requires
        x > 0,
        rounding::has_length(x / pow2(w) as int, len),
    ensures
        rounding::has_length(x, len + w),
{
    let v = pow2(w) as int;
    let y = x / v;
    lemma_pow2_pos(w);
    lemma_pow2_adds((len - 1) as nat, w);
    lemma_pow2_adds(len, w);
    lemma_fundamental_div_mod(x, v);
    assert(pow2((len - 1) as nat) * v <= x) by (nonlinear_arith)
        requires
            x == v * y + x % v,
            x % v >= 0,
            pow2((len - 1) as nat) <= y,
            v > 0,
    ;
    assert(x < pow2(len) * v) by (nonlinear_arith)
        requires
            x == v * y + x % v,
            x % v < v,
            y + 1 <= pow2(len),
            v > 0,
    ;
}

/// The number of binary digits of `x`.
pub fn bit_length(x: u128) -> (len: u32)
    requires
        x > 0,
    ensures
        rounding::has_length(x as int, len as nat),
        x < pow2(len as nat),
        len <= 128,
    decreases x,
{
    proof {
        lemma2_to64();
        lemma2_to64_rest();
    }
    let len: u32 = if x >= 0x1_0000_0000_0000_0000 {
        let rest: u32 = bit_length(x / 0x1_0000_0000_0000_0000);
        proof {
            lemma_length_step(x as int, 64, rest as nat);
        }
        assert(rest <= 64) by {
            if rest > 64 {
                rounding::lemma_pow2_monotone(64, (rest - 1) as nat);
            }
        }
        rest + 64
    } else if x >= 0x1_0000 {
        let rest: u32 = bit_length(x / 0x1_0000);
        proof {
            lemma_length_step(x as int, 16, rest as nat);
        }
        assert(rest <= 48) by {
            if rest > 48 {
                rounding::lemma_pow2_monotone(48, (rest - 1) as nat);
            }
        }
        rest + 16
    } else if x >= 0x10 {
        let rest: u32 = bit_length(x / 0x10);
        proof {
            lemma_length_step(x as int, 4, rest as nat);
        }
        assert(rest <= 12) by {
            if rest > 12 {
                rounding::lemma_pow2_monotone(12, (rest - 1) as nat);
            }
        }
        rest + 4
    } else if x >= 2 {
        let rest: u32 = bit_length(x / 2);
        proof {
            lemma_length_step(x as int, 1, rest as nat);
        }
        assert(rest <= 3) by {
            if rest > 3 {
                rounding::lemma_pow2_monotone(3, (rest - 1) as nat);
            }
        }
        rest + 1
    } else {
        1
    };
    len
}

proof fn lemma_one_shl(n: u128)
    requires
        n < 128,
    ensures
        1u128 << n == pow2(n as nat),
    decreases n,
{
    if n == 0 {
        assert(1u128 << 0u128 == 1) by (bit_vector);
        lemma2_to64();
    } else {
        let m = (n - 1) as u128;
        lemma_one_shl(m);
        lemma_pow2_unfold(n as nat);
        assert(1u128 << n == 2 * (1u128 << m)) by (bit_vector)
            requires
                0 < n < 128,
                m == n - 1,
        ;
    }
}

/// Two to the `n`.
pub fn power(n: u32) -> (r: u128)
    requires
        n < 128,
    ensures
        r == pow2(n as nat),
{
    proof {
        lemma_one_shl(n as u128);
    }
    1u128 << (n as u128)
}

/// The magnitude pattern nearest to `s` times two to the `e`.
pub fn round_scaled(s: u128, e: i32) -> (pattern: u64)
    requires
        s < pow2(126),
        -10000 <= e <= 10000,
    ensures
        pattern == rounding::rounded_scaled(s as int, e as int),
        pattern <= INFINITE,
{
    if s == 0 {
        proof {
            lemma_rounded_zero(e as int);
        }
        return 0;
    }
    let len: u32 = bit_length(s);
    let top: i32 = len as i32 - 53 + e;
    let k: i32 = if top > 0 { top } else { 0 };
    let shift: i32 = k - e;
    proof {
        rounding::lemma_rounded_scaled(s as int, e as int, len as nat);
        if len > 126 {
            rounding::lemma_pow2_monotone(126, (len - 1) as nat);
        }
        lemma2_to64();
        lemma2_to64_rest();
    }
    let significand: u64 = if shift <= 0 {
        let zeros: u32 = (-shift) as u32;
        proof {
            assert(len + zeros <= 53);
            lemma_pow2_adds(len as nat, zeros as nat);
            rounding::lemma_pow2_monotone((len + zeros) as nat, 53);
            lemma_pow2_pos(zeros as nat);
            assert(s * pow2(zeros as nat) < pow2(len as nat) * pow2(zeros as nat)) by (nonlinear_arith)
                requires
                    s < pow2(len as nat),
                    pow2(zeros as nat) > 0,
            ;
        }
        (s * power(zeros)) as u64
    } else if shift >= 127 {
        proof {
            lemma_pow2_unfold(shift as nat);
            rounding::lemma_pow2_monotone(126, (shift - 1) as nat);
            lemma_fundamental_div_mod_converse(s as int, pow2(shift as nat) as int, 0, s as int);
        }
        0
    } else {
        let d: u128 = power(shift as u32);
        proof {
            vstd::bits::lemma_u128_shr_is_div(s, shift as u128);
            lemma_pow2_pos(shift as nat);
            lemma_fundamental_div_mod(s as int, d as int);
            // The quotient has at most 53 digits.
            lemma_pow2_adds(53, shift as nat);
            rounding::lemma_pow2_monotone(len as nat, (53 + shift) as nat);
            assert(s as int / d as int <= pow2(53)) by (nonlinear_arith)
                requires
                    s < pow2(53) * d,
                    s == d * (s as int / d as int) + s as int % d as int,
                    s as int % d as int >= 0,
                    d > 0,
            ;
        }
        let floor: u128 = s >> (shift as u128);
        assert(floor == s as int / d as int);
        assert(floor * d == d * floor) by (nonlinear_arith);
        let rest: u128 = s - floor * d;
        assert(rest == s as int % d as int);
        assert(d <= pow2(126)) by {
            rounding::lemma_pow2_monotone(shift as nat, 126);
        }
        assert(pow2(126) < 0x7FFF_FFFF_FFFF_FFFF_FFFF_FFFF_FFFF_FFFF) by {
            lemma_pow2_adds(63, 63);
        }
        let twice: u128 = 2 * rest;
        if twice < d || (twice == d && floor % 2 == 0) {
            floor as u64
        } else {
            (floor + 1) as u64
        }
    };
    assert(significand == rounding::cut(s as int, shift as int));
    if k >= 2046 {
        proof {
            lemma_normal_significand(s as int, len as nat, shift as int);
            assert(k * HIDDEN >= 2046 * HIDDEN) by (nonlinear_arith)
                requires
                    k >= 2046,
            ;
        }
        return INFINITE;
    }
    assert(k * HIDDEN <= 2045 * HIDDEN) by (nonlinear_arith)
        requires
            k <= 2045,
    ;
    let pattern: u64 = (k as u64) * HIDDEN + significand;
    if pattern < INFINITE {
        pattern
    } else {
        INFINITE
    }
}

proof fn lemma_rounded_zero(e: int)
    ensures
        rounding::rounded_scaled(0, e) == 0,
{
    let q = if e >= 0 { 1int } else { pow2((-e) as nat) as int };
    if e < 0 {
        lemma_pow2_pos((-e) as nat);
    }
    lemma2_to64();
    lemma_fundamental_div_mod_converse(0, q, 0, 0);
    assert(q * pow2(0) == q);
}

/// Past the first binade a significand has its leading digit.
proof fn lemma_normal_significand(s: int, len: nat, shift: int)
    requires
        rounding::has_length(s, len),
        shift == len - 53,
    ensures
        rounding::cut(s, shift) >= HIDDEN,
{
    rounding::lemma_hidden_pow2(0);
    lemma2_to64();
    if shift > 0 {
        let d = pow2(shift as nat) as int;
        lemma_pow2_pos(shift as nat);
        lemma_pow2_adds(52, shift as nat);
        lemma_fundamental_div_mod(s, d);
        assert(s / d >= HIDDEN) by (nonlinear_arith)
            requires
                s >= HIDDEN * d,
                s == d * (s / d) + s % d,
                s % d < d,
                d > 0,
        ;
    } else {
        let z = (-shift) as nat;
        lemma_pow2_adds((len - 1) as nat, z);
        lemma_pow2_pos(z);
        assert(s * pow2(z) >= pow2((len - 1) as nat) * pow2(z)) by (nonlinear_arith)
            requires
                s >= pow2((len - 1) as nat),
                pow2(z) > 0,
        ;
    }
}

/// The magnitude pattern nearest to `p / q` times two to the `e`.
pub fn round_quotient(p: u64, q: u64, e: i32) -> (pattern: u64)
    requires
        q > 0,
        -9000 <= e <= 9000,
    ensures
        pattern == rounding::rounded_quotient(p as int, q as int, e as int),
        pattern <= INFINITE,
{
    if p == 0 {
        proof {
            lemma_rounded_quotient_zero(q as int, e as int);
        }
        return 0;
    }
    let len: u32 = bit_length(p as u128);
    proof {
        lemma2_to64();
        lemma2_to64_rest();
    }
    assert(len <= 64) by {
        if len > 64 {
            rounding::lemma_pow2_monotone(64, (len - 1) as nat);
        }
    }
    let zeros: u32 = 124 - len;
    proof {
        lemma_pow2_pos(zeros as nat);
        lemma_pow2_adds(len as nat, zeros as nat);
        lemma_pow2_adds((len - 1) as nat, zeros as nat);
        lemma_pow2_adds(62, 62);
        lemma_pow2_adds(61, 62);
        assert(p * pow2(zeros as nat) < pow2(len as nat) * pow2(zeros as nat)) by (nonlinear_arith)
            requires
                p < pow2(len as nat),
                pow2(zeros as nat) > 0,
        ;
        assert(p * pow2(zeros as nat) >= pow2((len - 1) as nat) * pow2(zeros as nat))
            by (nonlinear_arith)
            requires
                p >= pow2((len - 1) as nat),
                pow2(zeros as nat) > 0,
        ;
    }
    let a: u128 = (p as u128) * power(zeros);
    let floor: u128 = a / (q as u128);
    proof {
        lemma_fundamental_div_mod(a as int, q as int);
        assert(floor <= a) by (nonlinear_arith)
            requires
                a == q * floor + a % q as u128,
                q > 0,
        ;
        assert(floor >= pow2(59)) by (nonlinear_arith)
            requires
                a == q * floor + a % q as u128,
                a % (q as u128) < q,
                a >= pow2(59) * pow2(64),
                q < pow2(64),
        {
            if floor < pow2(59) {
                assert(q * floor + q <= q * pow2(59));
                assert(q * pow2(59) <= pow2(64) * pow2(59));
            }
        }
        lemma_pow2_adds(59, 64);
        lemma_pow2_unfold(125);
        lemma_pow2_unfold(126);
    }
    let sticky: u128 = if a % (q as u128) != 0 { 1 } else { 0 };
    let s: u128 = 2 * floor + sticky;
    proof {
        let n = lemma_some_length(s as int);
        rounding::lemma_pow2_monotone(59, 60);
        if n < 56 {
            rounding::lemma_pow2_monotone(n, 59);
        }
        rounding::lemma_sticky_quotient(a as int, q as int, e - zeros, n);
        rounding::lemma_rounded_quotient_shift(p as int, q as int, e as int, zeros as nat);
    }
    round_scaled(s, e - zeros as i32 - 1)
}

proof fn lemma_rounded_quotient_zero(q: int, e: int)
    requires
        q > 0,
    ensures
        rounding::rounded_quotient(0, q, e) == 0,
{
    let d = if e >= 0 { q } else { q * pow2((-e) as nat) };
    if e < 0 {
        lemma_pow2_pos((-e) as nat);
        assert(d > 0) by (nonlinear_arith)
            requires
                d == q * pow2((-e) as nat),
                q > 0,
                pow2((-e) as nat) > 0,
        ;
    }
    lemma2_to64();
    lemma_fundamental_div_mod_converse(0, d, 0, 0);
    assert(d * pow2(0) == d);
}

/// Every positive number has a length.
proof fn lemma_some_length(n: int) -> (len: nat)
    requires
        n > 0,
    ensures
        rounding::has_length(n, len),
    decreases n,
{
    lemma2_to64();
    if n == 1 {
        1
    } else {
        let len = lemma_some_length(n / 2);
        lemma_length_step(n, 1, len);
        len + 1
    }
}

/// The whole part of the square root of `n`.
pub fn integer_root(n: u128) -> (r: u128)
    requires
        n < pow2(120),
    ensures
        r == rounding::root(n as int),
{
    let mut low: u128 = 0;
    let mut high: u128 = power(60);
    proof {
        lemma_pow2_adds(60, 60);
        lemma2_to64_rest();
    }
    while high - low > 1
        invariant
            low < high <= 0x1000_0000_0000_0000,
            low * low <= n < high * high,
        decreases high - low,
    {
        let middle: u128 = low + (high - low) / 2;
        assert(middle * middle <= 0x1000_0000_0000_0000 * 0x1000_0000_0000_0000) by (nonlinear_arith)
            requires
                0 <= middle <= 0x1000_0000_0000_0000,
        ;
        if middle * middle <= n {
            low = middle;
        } else {
            high = middle;
        }
    }
    proof {
        rounding::lemma_root_unique(n as int, low as int);
    }
    low
}

/// The magnitude pattern nearest to the square root of `m` times two to the `e`.
pub fn round_root(m: u64, e: u32) -> (pattern: u64)
    requires
        0 < m < 2 * HIDDEN,
        1074 <= e <= 4000,
    ensures
        pattern == rounding::rounded_root(m * pow2(e as nat)),
        pattern <= INFINITE,
{
    let len: u32 = bit_length(m as u128);
    proof {
        lemma2_to64();
        lemma2_to64_rest();
    }
    assert(len <= 53) by {
        if len > 53 {
            rounding::lemma_pow2_monotone(53, (len - 1) as nat);
        }
    }
    let zeros: u32 = if (e - (119 - len)) % 2 == 0 { 119 - len } else { 120 - len };
    let h: u32 = (e - zeros) / 2;
    proof {
        lemma_pow2_pos(zeros as nat);
        lemma_pow2_adds(len as nat, zeros as nat);
        lemma_pow2_adds((len - 1) as nat, zeros as nat);
        rounding::lemma_pow2_monotone((len + zeros) as nat, 120);
        rounding::lemma_pow2_monotone(118, (len - 1 + zeros) as nat);
        lemma_pow2_adds(60, 60);
        lemma_pow2_adds(59, 59);
        assert(m * pow2(zeros as nat) < pow2(len as nat) * pow2(zeros as nat)) by (nonlinear_arith)
            requires
                m < pow2(len as nat),
                pow2(zeros as nat) > 0,
        ;
        assert(m * pow2(zeros as nat) >= pow2((len - 1) as nat) * pow2(zeros as nat))
            by (nonlinear_arith)
            requires
                m >= pow2((len - 1) as nat),
                pow2(zeros as nat) > 0,
        ;
    }
    let small: u128 = (m as u128) * power(zeros);
    let r: u128 = integer_root(small);
    proof {
        rounding::lemma_root(small as int);
        rounding::lemma_square_order(r as int, pow2(60) as int);
        rounding::lemma_square_order(pow2(59) as int, r + 1);
        assert(rounding::has_length(r as int, 60));
        assert(r * r <= small);
        lemma_pow2_adds(h as nat, h as nat);
        lemma_pow2_adds(zeros as nat, (h + h) as nat);
        assert(small * (pow2(h as nat) * pow2(h as nat)) == m * pow2(e as nat)) by (nonlinear_arith)
            requires
                small == m * pow2(zeros as nat),
                pow2(e as nat) == pow2(zeros as nat) * (pow2(h as nat) * pow2(h as nat)),
        ;
        rounding::lemma_sticky_root(small as int, h as nat, 60);
        rounding::lemma_pow2_monotone(62, 126);
    }
    let sticky: u128 = if r * r != small { 1 } else { 0 };
    round_scaled(2 * r + sticky, h as i32 - 1)
}

/// Significand and exponent of a finite magnitude pattern.
pub fn split(pattern: u64) -> (r: (u64, u32))
    requires
        pattern < INFINITE,
    ensures
        rounding::units(pattern as int) == r.0 * pow2(r.1 as nat),
        r.0 < 2 * HIDDEN,
        r.1 > 0 ==> r.0 >= HIDDEN,
        pattern == r.1 * HIDDEN + r.0,
        r.1 <= 2045,
{
    proof {
        lemma2_to64();
        lemma_fundamental_div_mod(pattern as int, HIDDEN as int);
    }
    if pattern < HIDDEN {
        assert(pattern * pow2(0) == pattern) by (nonlinear_arith)
            requires
                pow2(0) == 1,
        ;
        (pattern, 0)
    } else {
        let k: u64 = pattern / HIDDEN - 1;
        assert(k <= 2045);
        ((pattern % HIDDEN) + HIDDEN, k as u32)
    }
}

/// The magnitude pattern nearest to the sum of two magnitudes, the larger first.
pub fn add_ordered(a: u64, b: u64) -> (pattern: u64)
    requires
        b <= a < INFINITE,
    ensures
        pattern == rounding::rounded(rounding::units(a as int) + rounding::units(b as int), 1),
        pattern <= INFINITE,
{
    let (ma, ka) = split(a);
    let (mb, kb) = split(b);
    assert(ka >= kb) by (nonlinear_arith)
        requires
            a == ka * HIDDEN + ma,
            b == kb * HIDDEN + mb,
            b <= a,
            ma < 2 * HIDDEN,
            kb > 0 ==> mb >= HIDDEN,
    ;
    let d: u32 = ka - kb;
    if d > 60 {
        proof {
            lemma_far_below(mb as int, kb as nat, ka as nat);
            rounding::lemma_absorbed(ma as int, ka as nat, mb * pow2(kb as nat));
        }
        return a;
    }
    proof {
        lemma_aligned(ma as int, ka as nat, mb as int, kb as nat);
        lemma_aligned_bound(ma as int, d as nat);
    }
    let s: u128 = (ma as u128) * power(d) + mb as u128;
    round_scaled(s, kb as i32)
}

/// The magnitude pattern nearest to the difference of two magnitudes, the larger first.
pub fn sub_ordered(a: u64, b: u64) -> (pattern: u64)
    requires
        b <= a < INFINITE,
    ensures
        pattern == rounding::rounded(rounding::units(a as int) - rounding::units(b as int), 1),
        pattern <= INFINITE,
        rounding::units(a as int) >= rounding::units(b as int),
{
    let (ma, ka) = split(a);
    let (mb, kb) = split(b);
    assert(ka >= kb) by (nonlinear_arith)
        requires
            a == ka * HIDDEN + ma,
            b == kb * HIDDEN + mb,
            b <= a,
            ma < 2 * HIDDEN,
            kb > 0 ==> mb >= HIDDEN,
    ;
    let d: u32 = ka - kb;
    proof {
        lemma_aligned(ma as int, ka as nat, mb as int, kb as nat);
        lemma_aligned_order(ma as int, d as nat, mb as int);
        lemma_pow2_pos(kb as nat);
        assert((ma * pow2(d as nat) - mb) * pow2(kb as nat) >= 0) by (nonlinear_arith)
            requires
                ma * pow2(d as nat) - mb >= 0,
                pow2(kb as nat) > 0,
        ;
    }
    if d > 60 {
        proof {
            lemma_far_below(mb as int, kb as nat, ka as nat);
            rounding::lemma_absorbed(ma as int, ka as nat, -(mb * pow2(kb as nat)));
        }
        return a;
    }
    proof {
        lemma_aligned_bound(ma as int, d as nat);
    }
    let s: u128 = (ma as u128) * power(d) - mb as u128;
    round_scaled(s, kb as i32)
}

/// A significand far below an exponent does not reach its rounding position.
proof fn lemma_far_below(mb: int, kb: nat, ka: nat)
    requires
        0 <= mb < 2 * HIDDEN,
        ka >= kb + 60,
    ensures
        0 <= mb * pow2(kb) < pow2((ka - 3) as nat),
{
    lemma_pow2_pos(kb);
    rounding::lemma_hidden_pow2(kb);
    rounding::lemma_pow2_monotone(53 + kb, (ka - 3) as nat);
    assert(0 <= mb * pow2(kb) < 2 * HIDDEN * pow2(kb)) by (nonlinear_arith)
        requires
            0 <= mb < 2 * HIDDEN,
            pow2(kb) > 0,
    ;
}

/// Two significands brought to the smaller exponent.
proof fn lemma_aligned(ma: int, ka: nat, mb: int, kb: nat)
    requires
        ka >= kb,
    ensures
        (ma * pow2((ka - kb) as nat) + mb) * pow2(kb) == ma * pow2(ka) + mb * pow2(kb),
        (ma * pow2((ka - kb) as nat) - mb) * pow2(kb) == ma * pow2(ka) - mb * pow2(kb),
{
    let d = (ka - kb) as nat;
    lemma_pow2_adds(d, kb);
    assert((ma * pow2(d) + mb) * pow2(kb) == ma * (pow2(d) * pow2(kb)) + mb * pow2(kb))
        by (nonlinear_arith);
    assert((ma * pow2(d) - mb) * pow2(kb) == ma * (pow2(d) * pow2(kb)) - mb * pow2(kb))
        by (nonlinear_arith);
}

proof fn lemma_aligned_bound(ma: int, d: nat)
    requires
        0 <= ma < 2 * HIDDEN,
        d <= 60,
    ensures
        0 <= ma * pow2(d) < pow2(113),
        pow2(113) + 2 * HIDDEN < pow2(126),
        pow2(126) == 0x4000_0000_0000_0000_0000_0000_0000_0000,
{
    lemma_pow2_pos(d);
    rounding::lemma_hidden_pow2(d);
    rounding::lemma_pow2_monotone(53 + d, 113);
    assert(0 <= ma * pow2(d) < 2 * HIDDEN * pow2(d)) by (nonlinear_arith)
        requires
            0 <= ma < 2 * HIDDEN,
            pow2(d) > 0,
    ;
    lemma2_to64();
    lemma2_to64_rest();
    lemma_pow2_adds(63, 63);
    lemma_pow2_adds(53, 60);
}

proof fn lemma_aligned_order(ma: int, d: nat, mb: int)
    requires
        0 <= mb < 2 * HIDDEN,
        ma >= 0,
        d > 0 ==> ma >= HIDDEN,
        d == 0 ==> ma >= mb,
    ensures
        ma * pow2(d) >= mb,
{
    lemma2_to64();
    if d > 0 {
        rounding::lemma_pow2_monotone(1, d);
        assert(ma * pow2(d) >= 2 * HIDDEN) by (nonlinear_arith)
            requires
                ma >= HIDDEN,
                pow2(d) >= 2,
        ;
    }
}

} // verus!
