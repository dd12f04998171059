//! Numbers as text, and texts without content.

use vstd::prelude::*;
use vstd::arithmetic::power2::*;
use vstd::arithmetic::power::*;
use vstd::arithmetic::div_mod::*;
use vstd::arithmetic::mul::*;
use vstd::string::*;
use crate::binary64::Binary64;
use crate::exact;
use crate::exact::{exact, size};
use crate::rounding;
use crate::rounding::HIDDEN;
use crate::significand;

verus! {

/// The character of a decimal digit.
pub open spec fn digit_char(d: int) -> char {
    (48 + d) as char
}

/// Decimal digits of a whole number, without leading zeros.
pub open spec fn digits(n: int) -> Seq<char>
    decreases n,
{
    if n < 10 {
        seq![digit_char(n)]
    } else {
        digits(n / 10).push(digit_char(n % 10))
    }
}

/// The last `width` decimal digits of a whole number, zeros included.
pub open spec fn padded(n: int, width: nat) -> Seq<char>
    decreases width,
{
    if width == 0 {
        Seq::empty()
    } else {
        padded(n / 10, (width - 1) as nat).push(digit_char(n % 10))
    }
}

/// A truth value as text.
pub open spec fn truth(b: bool) -> Seq<char> {
    if b {
        "true"@
    } else {
        "false"@
    }
}

/// Whether a text reads like another.
pub fn reads(text: &String, other: &str) -> (r: bool)
    ensures
        r == (text@ == other@),
{
    *text == String::from_str(other)
}

/// Whether a character is white space.
pub open spec fn white(c: char) -> bool {
    let code = c as int;
    ||| 0x09 <= code <= 0x0D
    ||| code == 0x20
    ||| code == 0x85
    ||| code == 0xA0
    ||| code == 0x1680
    ||| 0x2000 <= code <= 0x200A
    ||| code == 0x2028
    ||| code == 0x2029
    ||| code == 0x202F
    ||| code == 0x205F
    ||| code == 0x3000
}

/// Whether a text is white space throughout.
pub fn is_blank(text: &str) -> (r: bool)
    ensures
        r == (forall|i: int| 0 <= i < text@.len() ==> white(#[trigger] text@[i])),
{
    let len: usize = text.unicode_len();
    let mut i: usize = 0;
    while i < len
        invariant
            i <= len,
            len == text@.len(),
            forall|j: int| 0 <= j < i ==> white(#[trigger] text@[j]),
        decreases len - i,
    {
        let code: u32 = text.get_char(i) as u32;
        let is_white: bool = (0x09 <= code && code <= 0x0D) || code == 0x20 || code == 0x85 || code
            == 0xA0 || code == 0x1680 || (0x2000 <= code && code <= 0x200A) || code == 0x2028
            || code == 0x2029 || code == 0x202F || code == 0x205F || code == 0x3000;
        if !is_white {
            assert(!white(text@[i as int]));
            return false;
        }
        i = i + 1;
    }
    true
}

fn append_digit(text: &mut String, d: u8)
    requires
        d < 10,
    ensures
        final(text)@ == old(text)@.push(digit_char(d as int)),
{
    proof {
        reveal_strlit("0");
        reveal_strlit("1");
        reveal_strlit("2");
        reveal_strlit("3");
        reveal_strlit("4");
        reveal_strlit("5");
        reveal_strlit("6");
        reveal_strlit("7");
        reveal_strlit("8");
        reveal_strlit("9");
    }
    let one: &str = if d == 0 {
        "0"
    } else if d == 1 {
        "1"
    } else if d == 2 {
        "2"
    } else if d == 3 {
        "3"
    } else if d == 4 {
        "4"
    } else if d == 5 {
        "5"
    } else if d == 6 {
        "6"
    } else if d == 7 {
        "7"
    } else if d == 8 {
        "8"
    } else {
        "9"
    };
    assert(one@ =~= seq![digit_char(d as int)]);
    text.append(one);
    assert(text@ =~= old(text)@.push(digit_char(d as int)));
}

/// Appends a whole number.
pub fn append_number(text: &mut String, n: u128)
    ensures
        final(text)@ == old(text)@ + digits(n as int),
    decreases n,
{
    if n >= 10 {
        append_number(text, n / 10);
    }
    append_digit(text, (n % 10) as u8);
    assert(text@ =~= old(text)@ + digits(n as int));
}

fn append_padded(text: &mut String, n: u128, width: u32)
    ensures
        final(text)@ == old(text)@ + padded(n as int, width as nat),
    decreases width,
{
    if width > 0 {
        append_padded(text, n / 10, width - 1);
        append_digit(text, (n % 10) as u8);
    }
    assert(text@ =~= old(text)@ + padded(n as int, width as nat));
}

/// The number that decimal digits stand for, the lowest digit first.
spec fn worth(ds: Seq<u8>) -> int
    decreases ds.len(),
{
    if ds.len() == 0 {
        0
    } else {
        ds[0] + 10 * worth(ds.drop_first())
    }
}

/// Digits below ten, the highest one not zero unless it is the only one.
spec fn well_written(ds: Seq<u8>) -> bool {
    &&& ds.len() > 0
    &&& forall|i: int| 0 <= i < ds.len() ==> #[trigger] ds[i] < 10
    &&& ds.len() > 1 ==> ds.last() > 0
}

/// The digits as text, the highest first.
spec fn written(ds: Seq<u8>) -> Seq<char>
    decreases ds.len(),
{
    if ds.len() == 0 {
        Seq::empty()
    } else {
        written(ds.drop_first()).push(digit_char(ds[0] as int))
    }
}

proof fn lemma_worth_positive(ds: Seq<u8>)
    requires
        ds.len() > 0,
        ds.last() > 0,
        forall|i: int| 0 <= i < ds.len() ==> #[trigger] ds[i] < 10,
    ensures
        worth(ds) > 0,
    decreases ds.len(),
{
    if ds.len() > 1 {
        let rest = ds.drop_first();
        assert(rest.last() == ds.last());
        lemma_worth_positive(rest);
    } else {
        assert(worth(ds.drop_first()) == 0);
    }
}

proof fn lemma_written(ds: Seq<u8>)
    requires
        well_written(ds),
    ensures
        written(ds) == digits(worth(ds)),
    decreases ds.len(),
{
    let rest = ds.drop_first();
    if ds.len() == 1 {
        assert(worth(rest) == 0);
        assert(written(rest) =~= Seq::<char>::empty());
        assert(written(ds) =~= digits(worth(ds)));
    } else {
        assert(rest.last() == ds.last());
        assert forall|i: int| 0 <= i < rest.len() implies #[trigger] rest[i] < 10 by {
            assert(rest[i] == ds[i + 1]);
        }
        lemma_worth_positive(rest);
        lemma_written(rest);
        assert(worth(ds) / 10 == worth(rest));
        assert(worth(ds) % 10 == ds[0]);
    }
}

/// Digits of twice a number.
fn doubled(ds: &Vec<u8>) -> (r: Vec<u8>)
    requires
        well_written(ds@),
        worth(ds@) > 0,
    ensures
        well_written(r@),
        worth(r@) == 2 * worth(ds@),
{
    let mut r: Vec<u8> = Vec::new();
    let mut carry: u8 = 0;
    let mut i: usize = 0;
    assert(ds@.skip(0) =~= ds@);
    proof {
        lemma_worth_ends(r@, 0);
    }
    while i < ds.len()
        invariant
            i <= ds@.len(),
            carry <= 1,
            r@.len() == i,
            well_written(ds@),
            worth(ds@) > 0,
            forall|j: int| 0 <= j < r@.len() ==> #[trigger] r@[j] < 10,
            i == ds@.len() && carry == 0 ==> r@.last() > 0,
            worth(r@) + (carry + 2 * worth(ds@.skip(i as int))) * pow(10, i as nat) == 2 * worth(
                ds@,
            ),
        decreases ds@.len() - i,
    {
        let t: u8 = 2 * ds[i] + carry;
        let low: u8 = if t >= 10 { t - 10 } else { t };
        let next: u8 = if t >= 10 { 1 } else { 0 };
        proof {
            let rest = ds@.skip(i as int);
            assert(rest.drop_first() =~= ds@.skip(i + 1));
            assert(worth(rest) == ds@[i as int] + 10 * worth(ds@.skip(i + 1)));
            lemma_worth_ends(r@, low);
            lemma_pow_step(i as nat);
            let p = pow(10, i as nat);
            let w = worth(ds@.skip(i + 1));
            let d = ds@[i as int];
            assert(low * p + (next + 2 * w) * (10 * p) == (carry + 2 * (d + 10 * w)) * p)
                by (nonlinear_arith)
                requires
                    low + 10 * next == 2 * d + carry,
            ;
            if i + 1 == ds@.len() && next == 0 {
                if ds@.len() == 1 {
                    assert(worth(ds@.drop_first()) == 0);
                }
                assert(ds@.last() > 0);
            }
        }
        r.push(low);
        carry = next;
        i = i + 1;
    }
    assert(ds@.skip(i as int).len() == 0);
    let ghost p = pow(10, i as nat);
    assert(worth(r@) + carry * p == 2 * worth(ds@));
    if carry > 0 {
        proof {
            lemma_worth_ends(r@, carry);
        }
        r.push(carry);
    } else {
        assert(0 * p == 0);
    }
    r
}

/// One more power of ten.
pub proof fn lemma_pow_step(i: nat)
    ensures
        pow(10, i + 1) == 10 * pow(10, i),
{
    reveal(pow);
}

proof fn lemma_worth_ends(ds: Seq<u8>, d: u8)
    ensures
        worth(ds.push(d)) == worth(ds) + d * pow(10, ds.len()),
        pow(10, 0) == 1,
    decreases ds.len(),
{
    lemma_pow0(10);
    if ds.len() == 0 {
        let one = ds.push(d);
        assert(worth(one.drop_first()) == 0);
        assert(d * 1 == d);
    } else {
        let rest = ds.drop_first();
        assert(ds.push(d).drop_first() =~= rest.push(d));
        lemma_worth_ends(rest, d);
        lemma_pow_step(rest.len());
        let p = pow(10, rest.len());
        assert(10 * (worth(rest) + d * p) == 10 * worth(rest) + d * (10 * p)) by (nonlinear_arith);
    }
}

fn append_written(text: &mut String, ds: &Vec<u8>)
    requires
        well_written(ds@),
    ensures
        final(text)@ == old(text)@ + digits(worth(ds@)),
{
    let mut i: usize = ds.len();
    assert(ds@.skip(i as int) =~= Seq::<u8>::empty());
    assert(text@ =~= old(text)@ + written(ds@.skip(i as int)));
    while i > 0
        invariant
            i <= ds@.len(),
            well_written(ds@),
            text@ == old(text)@ + written(ds@.skip(i as int)),
        decreases i,
    {
        i = i - 1;
        append_digit(text, ds[i]);
        assert(ds@.skip(i as int).drop_first() =~= ds@.skip(i + 1));
        assert(text@ =~= old(text)@ + written(ds@.skip(i as int)));
    }
    assert(ds@.skip(0) =~= ds@);
    proof {
        lemma_written(ds@);
    }
}

fn digits_of(n: u64) -> (r: Vec<u8>)
    requires
        n > 0,
    ensures
        well_written(r@),
        worth(r@) == n,
    decreases n,
{
    if n < 10 {
        let mut r: Vec<u8> = Vec::new();
        r.push(n as u8);
        assert(worth(r@.drop_first()) == 0);
        r
    } else {
        let rest: Vec<u8> = digits_of(n / 10);
        let mut r: Vec<u8> = Vec::new();
        r.push((n % 10) as u8);
        let mut i: usize = 0;
        while i < rest.len()
            invariant
                i <= rest@.len(),
                r@ =~= seq![(n % 10) as u8] + rest@.take(i as int),
            decreases rest@.len() - i,
        {
            r.push(rest[i]);
            i = i + 1;
        }
        assert(r@.drop_first() =~= rest@);
        assert forall|j: int| 0 <= j < r@.len() implies #[trigger] r@[j] < 10 by {
            if j > 0 {
                assert(r@[j] == rest@[j - 1]);
            }
        }
        assert(r@.last() == rest@.last());
        if rest.len() == 1 {
            assert(worth(rest@.drop_first()) == 0);
        }
        r
    }
}

/// Appends the whole number `m` times two to the `k`.
fn append_power(text: &mut String, m: u64, k: u32)
    requires
        m > 0,
    ensures
        final(text)@ == old(text)@ + digits(m * pow2(k as nat)),
{
    let mut ds: Vec<u8> = digits_of(m);
    let mut i: u32 = 0;
    proof {
        lemma2_to64();
    }
    while i < k
        invariant
            i <= k,
            m > 0,
            well_written(ds@),
            worth(ds@) == m * pow2(i as nat),
        decreases k - i,
    {
        proof {
            lemma_pow2_pos(i as nat);
            lemma_pow2_unfold((i + 1) as nat);
            let p = pow2(i as nat) as int;
            assert(m * p > 0) by (nonlinear_arith)
                requires
                    m > 0,
                    p > 0,
            ;
            assert(2 * (m * p) == m * (2 * p)) by (nonlinear_arith);
        }
        ds = doubled(&ds);
        i = i + 1;
    }
    append_written(text, &ds);
}

/// Ten to the `decimals`.
pub open spec fn scale_of(decimals: nat) -> int {
    pow(10, decimals)
}

/// A finite magnitude in units of the last decimal shown, to the nearest, ties to even.
pub open spec fn in_last_place(x: Binary64, decimals: nat) -> int {
    rounding::half_even(
        rounding::units(x.magnitude()) * scale_of(decimals),
        pow2(1074) as int,
    )
}

/// A number with a fixed count of decimals.
pub open spec fn fixed_of(x: Binary64, decimals: nat) -> Seq<char> {
    if x.is_nan() {
        "NaN"@
    } else {
        let sign = if x.negative() {
            "-"@
        } else {
            Seq::empty()
        };
        if x.is_infinite() {
            sign + "inf"@
        } else {
            let n = in_last_place(x, decimals);
            sign + digits(n / scale_of(decimals)) + "."@ + padded(n % scale_of(decimals), decimals)
        }
    }
}

fn ten_to(decimals: u32) -> (r: u128)
    requires
        decimals <= 9,
    ensures
        r == scale_of(decimals as nat),
        1 <= r <= 1_000_000_000,
{
    let mut r: u128 = 1;
    let mut i: u32 = 0;
    proof {
        lemma_pow0(10);
    }
    assert(pow(10, 9) == 1_000_000_000) by {
        reveal_with_fuel(pow, 10);
    }
    while i < decimals
        invariant
            i <= decimals <= 9,
            r == pow(10, i as nat),
            1 <= r <= 1_000_000_000,
            pow(10, 9) == 1_000_000_000,
        decreases decimals - i,
    {
        proof {
            lemma_pow_step(i as nat);
            lemma_pow_increases(10, (i + 1) as nat, 9);
        }
        r = r * 10;
        i = i + 1;
    }
    r
}

/// Appends a number with a fixed count of decimals.
pub fn append_fixed(text: &mut String, x: Binary64, decimals: u32)
    requires
        1 <= decimals <= 9,
    ensures
        final(text)@ == old(text)@ + fixed_of(x, decimals as nat),
{
    if x.is_nan() {
        text.append("NaN");
        return;
    }
    let negative: bool = x.bits >= 0x8000_0000_0000_0000;
    if negative {
        text.append("-");
    }
    let ghost sign = if negative {
        "-"@
    } else {
        Seq::empty()
    };
    assert(text@ =~= old(text)@ + sign);
    if x.is_infinite() {
        text.append("inf");
        assert(text@ =~= old(text)@ + (sign + "inf"@));
        return;
    }
    let pattern: u64 = if negative { x.bits - 0x8000_0000_0000_0000 } else { x.bits };
    let (m, k) = significand::split(pattern);
    let scale: u128 = ten_to(decimals);
    let ghost n = in_last_place(x, decimals as nat);
    let ghost s = scale_of(decimals as nat);
    if k > 1074 {
        proof {
            let j = (k - 1074) as nat;
            lemma_pow2_adds(j, 1074);
            lemma_pow2_pos(1074);
            let a = pow2(j) as int;
            let b = pow2(1074) as int;
            assert((m * (a * b)) * s == (m * a * s) * b) by (nonlinear_arith);
            rounding::lemma_half_even_exact(m * a * s, b);
            lemma_div_multiples_vanish(m * a, s);
            lemma_mod_multiples_basic(m * a, s);
            assert(m * a * s == s * (m * a)) by (nonlinear_arith);
        }
        append_power(text, m, k - 1074);
        text.append(".");
        append_padded(text, 0, decimals);
        let ghost places = padded(n % s, decimals as nat);
        assert(text@ =~= old(text)@ + (sign + digits(n / s) + "."@ + places));
    } else {
        let shift: u32 = 1074 - k;
        assert(m * scale < 0x80_0000_0000_0000_0000_0000) by (nonlinear_arith)
            requires
                m < 2 * HIDDEN,
                scale <= 1_000_000_000,
        ;
        let top: u128 = m as u128 * scale;
        proof {
            lemma_pow2_adds(shift as nat, k as nat);
            lemma_pow2_pos(k as nat);
            lemma_pow2_pos(shift as nat);
            let a = pow2(k as nat) as int;
            assert((m * a) * s == top * a) by (nonlinear_arith)
                requires
                    top == m * s,
            ;
            rounding::lemma_half_even_scale(top as int, pow2(shift as nat) as int, a);
        }
        assert(n == rounding::half_even(top as int, pow2(shift as nat) as int));
        let places: u128 = if shift >= 100 {
            proof {
                lemma2_to64_rest();
                lemma_pow2_adds(64, 36);
                lemma2_to64();
                rounding::lemma_pow2_monotone(100, shift as nat);
                lemma_basic_div(top as int, pow2(shift as nat) as int);
                lemma_small_mod(top as nat, pow2(shift as nat));
            }
            0
        } else {
            proof {
                lemma_pow2_adds(64, 36);
                lemma2_to64_rest();
                lemma2_to64();
                rounding::lemma_pow2_monotone(shift as nat, 100);
            }
            let q: u128 = significand::power(shift);
            let floor: u128 = top / q;
            let twice: u128 = 2 * (top % q);
            proof {
                assert(floor <= top) by (nonlinear_arith)
                    requires
                        floor == top / q,
                        q > 0,
                ;
            }
            if twice < q || (twice == q && floor % 2 == 0) {
                floor
            } else {
                floor + 1
            }
        };
        assert(places == n);
        append_number(text, places / scale);
        text.append(".");
        append_padded(text, places % scale, decimals);
        let ghost places = padded(n % s, decimals as nat);
        assert(text@ =~= old(text)@ + (sign + digits(n / s) + "."@ + places));
    }
}

/// The whole number that some decimal digits spell.
pub open spec fn spelled(text: Seq<char>) -> int
    decreases text.len(),
{
    if text.len() == 0 {
        0
    } else {
        spelled(text.drop_last()) * 10 + (text.last() as int - '0' as int)
    }
}

/// Whether a text is made of decimal digits.
pub open spec fn is_decimal(text: Seq<char>) -> bool {
    forall|i: int| 0 <= i < text.len() ==> '0' <= #[trigger] text[i] <= '9'
}

/// The digits of a whole number spell it, and do not begin with a zero but for zero itself.
pub proof fn law_digits_spell(n: int)
    requires
        n >= 0,
    ensures
        is_decimal(digits(n)),
        spelled(digits(n)) == n,
        digits(n).len() > 0,
        digits(n)[0] == '0' ==> n == 0,
    decreases n,
{
    if n < 10 {
        reveal_with_fuel(spelled, 2);
        assert(digits(n).drop_last() =~= Seq::<char>::empty());
    } else {
        law_digits_spell(n / 10);
        let front = digits(n / 10);
        assert(digits(n).drop_last() =~= front);
        assert forall|i: int| 0 <= i < digits(n).len() implies '0' <= #[trigger] digits(n)[i]
            <= '9' by {
            if i < front.len() {
                assert(digits(n)[i] == front[i]);
            }
        }
        assert(digits(n)[0] == front[0]);
    }
}

/// So many last digits of a whole number spell it where it has no more of them.
pub proof fn law_padded_spell(n: int, width: nat)
    requires
        n >= 0,
    ensures
        padded(n, width).len() == width,
        is_decimal(padded(n, width)),
        n < pow(10, width) ==> spelled(padded(n, width)) == n,
    decreases width,
{
    if width == 0 {
        lemma_pow0(10);
    } else {
        let fewer = (width - 1) as nat;
        law_padded_spell(n / 10, fewer);
        lemma_pow_step(fewer);
        let front = padded(n / 10, fewer);
        let all = padded(n, width);
        assert(all.drop_last() =~= front);
        assert forall|i: int| 0 <= i < all.len() implies '0' <= #[trigger] all[i] <= '9' by {
            if i < front.len() {
                assert(all[i] == front[i]);
            }
        }
    }
}

/// A finite number is shown with its sign, and to the nearest unit of the last decimal: what is shown
/// is off by at most half of it.
pub proof fn law_fixed_is_nearest(x: Binary64, decimals: nat) -> (n: int)
    requires
        x.is_finite(),
        decimals > 0,
    ensures
        n >= 0,
        ({
            let unit = pow(10, decimals);
            let sign = if x.negative() {
                seq!['-']
            } else {
                Seq::empty()
            };
            &&& unit > 0
            &&& fixed_of(x, decimals) == sign + digits(n / unit) + seq!['.'] + padded(
                n % unit,
                decimals,
            )
            &&& size(n as real - size(exact(x)) * (unit as real)) * 2real <= 1real
        }),
{
    let unit = pow(10, decimals);
    let n = in_last_place(x, decimals);
    let u = rounding::units(x.magnitude());
    let w = pow2(1074) as int;
    let p = u * unit;
    lemma_pow_positive(10, decimals);
    lemma_pow2_pos(1074);
    rounding::lemma_units_zero(x.magnitude());
    assert(p >= 0) by (nonlinear_arith)
        requires
            p == u * unit,
            u >= 0,
            unit > 0,
    ;
    lemma_fundamental_div_mod(p, w);
    lemma_mod_bound(p, w);
    lemma_div_pos_is_pos(p, w);
    assert(-w <= 2 * (n * w - p) <= w) by (nonlinear_arith)
        requires
            p == w * (p / w) + p % w,
            0 <= p % w < w,
            n == p / w && 2 * (p % w) <= w || n == p / w + 1 && 2 * (p % w) >= w,
    ;
    exact::lemma_scale();
    exact::lemma_value(x);
    exact::law_signs_are_exact(x);
    let s = exact::scale();
    let v = size(exact(x));
    assert(v * s == u as real) by {
        exact::lemma_value(x.abs());
        assert(x.abs().magnitude() == x.magnitude() && !x.abs().negative());
    }
    let d = n as real - v * (unit as real);
    assert(d * s == (n * w - p) as real) by (nonlinear_arith)
        requires
            d == n as real - v * (unit as real),
            v * s == u as real,
            p == u * unit,
            s == w as real,
    ;
    assert(size(d) * 2real <= 1real) by (nonlinear_arith)
        requires
            d * s == (n * w - p) as real,
            -w <= 2 * (n * w - p) <= w,
            s == w as real,
            s >= 1real,
            size(d) == (if d < 0real { -d } else { d }),
    ;
    reveal_strlit("-");
    reveal_strlit(".");
    assert("-"@ =~= seq!['-']);
    assert("."@ =~= seq!['.']);
    n
}

} // verus!
