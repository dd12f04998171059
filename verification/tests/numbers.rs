use updown_trader::binary64::Binary64;
use updown_trader::ensemble::threshold;
use updown_trader::text::{append_fixed, append_number, is_blank};

fn number(x: f64) -> Binary64 {
    Binary64 { bits: x.to_bits() }
}

fn float(x: Binary64) -> f64 {
    f64::from_bits(x.bits)
}

/// A row of patterns that visits every corner of the format.
struct Patterns {
    state: u64,
}

impl Patterns {
    fn next(&mut self) -> u64 {
        self.state = self.state.wrapping_mul(6364136223846793005).wrapping_add(1442695040888963407);
        let x = self.state ^ (self.state >> 29);
        x.wrapping_mul(0xbf58476d1ce4e5b9) ^ (x >> 31)
    }

    fn number(&mut self) -> f64 {
        let x = self.next();
        match self.next() % 8 {
            0 => f64::from_bits(x),
            1 => f64::from_bits(x & 0x800F_FFFF_FFFF_FFFF),
            2 => f64::from_bits((x & 0x800F_FFFF_FFFF_FFFF) | 0x7FE0_0000_0000_0000),
            3 => (x % 1000) as f64,
            4 => (x % 100_000_000) as f64 / 1e6,
            5 => -((x % 100_000_000) as f64) / 1e4,
            6 => f64::from_bits((x & 0x803F_FFFF_FFFF_FFFF) | 0x3FC0_0000_0000_0000),
            _ => [
                0.0, -0.0, 1.0, -1.0, f64::INFINITY, f64::NEG_INFINITY, f64::NAN, f64::MAX,
                f64::MIN_POSITIVE, 5e-324, 0.5, 2.0,
            ][(x % 12) as usize],
        }
    }
}

fn same(ours: Binary64, theirs: f64) -> bool {
    ours.bits == theirs.to_bits() || (float(ours).is_nan() && theirs.is_nan())
}

#[test]
fn arithmetic_agrees_with_the_machine() {
    let mut patterns = Patterns { state: 1 };
    for _ in 0..200_000 {
        let (x, y) = (patterns.number(), patterns.number());
        let (a, b) = (number(x), number(y));
        assert!(same(a.plus(b), x + y), "{x:e} + {y:e}");
        assert!(same(a.minus(b), x - y), "{x:e} - {y:e}");
        assert!(same(a.times(b), x * y), "{x:e} * {y:e}");
        assert!(same(a.over(b), x / y), "{x:e} / {y:e}");
        assert!(same(a.sqrt(), x.sqrt()), "sqrt {x:e}");
        assert!(same(a.floor(), x.floor()), "floor {x:e}");
        assert!(same(a.abs(), x.abs()));
        assert!(same(a.negated(), -x));
        assert_eq!(float(a.max(b)) == x.max(y), !x.max(y).is_nan());
        assert_eq!(float(a.min(b)) == x.min(y), !x.min(y).is_nan());
        assert_eq!(a.less(b), x < y);
        assert_eq!(a.at_most(b), x <= y);
        assert_eq!(a.equals(b), x == y);
        assert_eq!(a == b, x == y);
        assert_eq!(a.totally_before(b), x.total_cmp(&y).is_lt());
        assert_eq!(a.is_nan(), x.is_nan());
        assert_eq!(a.is_finite(), x.is_finite());
        assert_eq!(a.is_infinite(), x.is_infinite());
    }
}

#[test]
fn close_neighbours_agree_with_the_machine() {
    let mut patterns = Patterns { state: 7 };
    for _ in 0..50_000 {
        let x = patterns.number();
        let step = patterns.next() % 5;
        let y = f64::from_bits(x.to_bits().wrapping_add(step));
        let (a, b) = (number(x), number(y));
        assert!(same(a.minus(b), x - y));
        assert!(same(a.plus(b), x + y));
        assert!(same(a.over(b), x / y));
        assert!(same(a.times(a), x * x));
        assert_eq!(a.less(b), x < y);
    }
}

#[test]
fn ratios_and_counts_agree_with_the_machine() {
    let mut patterns = Patterns { state: 3 };
    for _ in 0..50_000 {
        let n = patterns.next() >> (patterns.next() % 64);
        assert!(same(Binary64::count(n), n as f64), "{n}");
        let m = n as i64;
        let places = (patterns.next() % 20) as u8;
        let text = if m < 0 {
            format!("-{}e-{places}", m.unsigned_abs())
        } else {
            format!("{m}e-{places}")
        };
        let parsed: f64 = text.parse().unwrap();
        assert!(same(threshold(m, places), parsed), "{text}");
    }
    assert!(same(threshold(-28_555_905_248, 12), -0.028555905248_f64));
    assert!(same(threshold(9_290_936_623, 17), 9.29093662300000e-8_f64));
    assert!(same(Binary64::ratio(false, 15, 1000), 0.015));
    assert!(same(Binary64::ratio(true, 7, 3), -(7.0 / 3.0)));
}

#[test]
fn fixed_decimals_agree_with_formatting() {
    let mut patterns = Patterns { state: 5 };
    let mut numbers: Vec<f64> = (0..20_000).map(|_| patterns.number()).collect();
    numbers.extend([0.25, 0.35, 0.05, 0.15, 0.45, 2.5, 0.125, 0.0625, 99.95, 99.949999, 1e22, 1e300]);
    for x in numbers {
        for decimals in 1..=4_u32 {
            let mut text = String::new();
            append_fixed(&mut text, number(x), decimals);
            assert_eq!(text, format!("{:.*}", decimals as usize, x), "{x:e}");
        }
    }
    let mut text = "n=".to_string();
    append_number(&mut text, u128::MAX);
    assert_eq!(text, format!("n={}", u128::MAX));
    let mut text = String::new();
    append_number(&mut text, 0);
    assert_eq!(text, "0");
}

#[test]
fn blank_texts_are_white_throughout() {
    for code in 0..0x11_0000_u32 {
        if let Some(c) = char::from_u32(code) {
            let text = String::from(c);
            assert_eq!(is_blank(&text), text.trim().is_empty(), "{:x}", code);
        }
    }
    assert!(is_blank(""));
    assert!(is_blank(" \t\r\n"));
    assert!(!is_blank("  x "));
}
