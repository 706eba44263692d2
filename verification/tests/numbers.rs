use sixtyfps_eval::number::Number;
use sixtyfps_eval::text::{
    increment, round_decimal, scan, shortest, to_positional, trim, Decimal,
};

fn num(x: f64) -> Number {
    Number::from_bits(x.to_bits())
}

fn samples() -> Vec<f64> {
    vec![
        0.0,
        -0.0,
        1.0,
        -1.0,
        2.0,
        3.0,
        0.5,
        -0.5,
        1.5,
        2.5,
        3.7,
        -3.7,
        10.0,
        7.0,
        0.1,
        0.2,
        255.0,
        1e-310,
        5e-324,
        1e300,
        -1e300,
        1e-300,
        4294967295.0,
        4294967296.0,
        9007199254740992.0,
        9007199254740993.0,
        1.8446744073709552e19,
        f64::MAX,
        f64::MIN_POSITIVE,
        f64::INFINITY,
        f64::NEG_INFINITY,
    ]
}

/// Equal as numbers are: the same bits, or both a NaN.
fn same(a: Number, b: f64) -> bool {
    a.to_bits() == b.to_bits() || (a.is_nan() && b.is_nan())
}

#[test]
fn bits_go_in_and_come_out() {
    assert_eq!(Number::from_bits(0x4014_0000_0000_0000).to_bits(), 0x4014_0000_0000_0000);
    assert_eq!(num(5.0).to_bits(), 0x4014_0000_0000_0000);
}

#[test]
fn sum_is_the_binary64_sum() {
    assert_eq!(num(2.0).plus(num(3.0)).to_bits(), 5.0f64.to_bits());
    assert_eq!(num(0.1).plus(num(0.2)).to_bits(), (0.1f64 + 0.2f64).to_bits());
    for a in samples() {
        for b in samples() {
            assert!(same(num(a).plus(num(b)), a + b), "{} + {}", a, b);
        }
    }
}

#[test]
fn difference_is_the_binary64_difference() {
    assert_eq!(num(10.0).minus(num(3.0)).to_bits(), 7.0f64.to_bits());
    for a in samples() {
        for b in samples() {
            assert!(same(num(a).minus(num(b)), a - b), "{} - {}", a, b);
        }
    }
}

#[test]
fn product_is_the_binary64_product() {
    assert_eq!(num(2.0).times(num(3.5)).to_bits(), 7.0f64.to_bits());
    for a in samples() {
        for b in samples() {
            assert!(same(num(a).times(num(b)), a * b), "{} * {}", a, b);
        }
    }
}

#[test]
fn quotient_is_the_binary64_quotient() {
    assert_eq!(num(7.0).divided_by(num(2.0)).to_bits(), 3.5f64.to_bits());
    assert_eq!(num(1.0).divided_by(num(0.0)).to_bits(), f64::INFINITY.to_bits());
    assert!(num(0.0).divided_by(num(0.0)).is_nan());
    for a in samples() {
        for b in samples() {
            assert!(same(num(a).divided_by(num(b)), a / b), "{} / {}", a, b);
        }
    }
}

#[test]
fn rounding_goes_to_the_nearest_whole_number() {
    assert_eq!(num(3.7).round().to_bits(), 4.0f64.to_bits());
    assert_eq!(num(2.5).round().to_bits(), 3.0f64.to_bits());
    assert_eq!(num(-2.5).round().to_bits(), (-3.0f64).to_bits());
    assert_eq!(num(0.4).round().to_bits(), 0.0f64.to_bits());
    for a in samples() {
        assert!(same(num(a).round(), a.round()), "round {}", a);
    }
}

#[test]
fn negation_flips_the_sign() {
    assert_eq!(num(3.0).negate().to_bits(), (-3.0f64).to_bits());
    assert_eq!(num(0.0).negate().to_bits(), (-0.0f64).to_bits());
    for a in samples() {
        assert_eq!(num(a).negate().to_bits(), (-a).to_bits());
    }
}

#[test]
fn comparisons_are_those_of_binary64() {
    let mut all = samples();
    all.push(f64::NAN);
    for &a in &all {
        for &b in &all {
            assert_eq!(num(a).equals(num(b)), a == b, "{} == {}", a, b);
            assert_eq!(num(a).less_than(num(b)), a < b, "{} < {}", a, b);
            assert_eq!(num(a).at_most(num(b)), a <= b, "{} <= {}", a, b);
            assert_eq!(num(a) == num(b), a == b);
        }
    }
}

#[test]
fn nan_equals_nothing_and_the_zeros_equal_each_other() {
    assert!(!num(f64::NAN).equals(num(f64::NAN)));
    assert!(num(0.0).equals(num(-0.0)));
    assert!(!num(0.0).less_than(num(-0.0)));
    assert!(num(-0.0).at_most(num(0.0)));
    assert!(num(f64::NAN).is_nan());
    assert!(!num(f64::INFINITY).is_nan());
}

#[test]
fn numbers_are_cut_off_towards_zero_and_kept_in_range() {
    assert_eq!(num(255.0).to_u32(), 255);
    assert_eq!(num(3.7).to_u32(), 3);
    assert_eq!(num(-3.7).to_u32(), 0);
    assert_eq!(num(-3.7).to_i32(), -3);
    assert_eq!(num(1e20).to_u32(), u32::MAX);
    assert_eq!(num(f64::NAN).to_u32(), 0);
    assert_eq!(num(f64::NAN).to_i64(), 0);
    assert_eq!(num(f64::INFINITY).to_u64(), u64::MAX);
    assert_eq!(num(f64::NEG_INFINITY).to_i64(), i64::MIN);
    let mut all = samples();
    all.push(f64::NAN);
    all.push(-2147483648.0);
    all.push(-2147483649.0);
    all.push(2147483647.5);
    all.push(9223372036854775808.0);
    all.push(-9223372036854775808.0);
    for &a in &all {
        assert_eq!(num(a).to_u32(), a as u32, "{} as u32", a);
        assert_eq!(num(a).to_u64(), a as u64, "{} as u64", a);
        assert_eq!(num(a).to_usize(), a as usize, "{} as usize", a);
        assert_eq!(num(a).to_i32(), a as i32, "{} as i32", a);
        assert_eq!(num(a).to_i64(), a as i64, "{} as i64", a);
        assert_eq!(num(a).to_isize(), a as isize, "{} as isize", a);
        let magnitude = if a.is_nan() { 0 } else { a.abs() as u64 };
        assert_eq!(num(a).magnitude(), magnitude, "magnitude of {}", a);
    }
}

fn wholes() -> Vec<u64> {
    let mut all = vec![0, 1, 2, 3, 5, 10, 255, 256, 65535, 4294967295, 4294967296];
    for k in 0..64 {
        let p = 1u64 << k;
        all.push(p);
        all.push(p - 1);
        all.push(p + 1);
        all.push(p + (p >> 1));
        all.push(p | 1);
        all.push(p.wrapping_add(p >> 53));
        all.push(p.wrapping_add(p >> 54));
        all.push(p.wrapping_add(p >> 53).wrapping_add(1));
        all.push(p.wrapping_add(3u64.wrapping_mul(p >> 54)));
    }
    all.push(u64::MAX);
    all.push(u64::MAX - 1023);
    all.push(u64::MAX - 1024);
    all.push(9007199254740993);
    all.push(9007199254740995);
    all
}

#[test]
fn whole_numbers_become_the_nearest_binary64() {
    assert_eq!(Number::from_magnitude(5).to_bits(), 5.0f64.to_bits());
    assert_eq!(Number::from_magnitude(0).to_bits(), 0);
    assert_eq!(Number::from_magnitude(9007199254740993).to_bits(), 9007199254740992.0f64.to_bits());
    assert_eq!(Number::from_magnitude(9007199254740995).to_bits(), 9007199254740996.0f64.to_bits());
    for n in wholes() {
        assert_eq!(Number::from_magnitude(n).to_bits(), (n as f64).to_bits(), "{}", n);
    }
}

#[test]
fn integers_become_the_nearest_binary64() {
    assert_eq!(Number::from_i64(-7).to_bits(), (-7.0f64).to_bits());
    assert_eq!(Number::from_i64(i64::MIN).to_bits(), (i64::MIN as f64).to_bits());
    assert_eq!(Number::from_i64(i64::MAX).to_bits(), (i64::MAX as f64).to_bits());
    for n in wholes() {
        let x = n as i64;
        assert_eq!(Number::from_i64(x).to_bits(), (x as f64).to_bits(), "{}", x);
        let y = x.wrapping_neg();
        assert_eq!(Number::from_i64(y).to_bits(), (y as f64).to_bits(), "{}", y);
    }
}

#[test]
fn whole_numbers_below_two_to_the_53_come_back() {
    for n in wholes() {
        if n < (1u64 << 53) {
            assert_eq!(Number::from_magnitude(n).to_u64(), n);
            assert_eq!(Number::from_i64(-(n as i64)).to_i64(), -(n as i64));
        }
    }
}

#[test]
fn text_of_whole_numbers_is_their_digits() {
    assert_eq!(num(0.0).to_text(), "0");
    assert_eq!(num(-0.0).to_text(), "-0");
    assert_eq!(num(4.0).to_text(), "4");
    assert_eq!(num(42.0).to_text(), "42");
    assert_eq!(num(-3.0).to_text(), "-3");
    assert_eq!(num(100000.0).to_text(), "100000");
    assert_eq!(num(9007199254740991.0).to_text(), "9007199254740991");
    for n in wholes() {
        if n < (1u64 << 53) {
            assert_eq!(num(n as f64).to_text(), format!("{}", n as f64));
            assert_eq!(num(-(n as f64)).to_text(), format!("{}", -(n as f64)));
        }
    }
}

#[test]
fn text_of_what_is_no_number() {
    assert_eq!(num(f64::NAN).to_text(), "NaN");
    assert_eq!(num(f64::INFINITY).to_text(), "inf");
    assert_eq!(num(f64::NEG_INFINITY).to_text(), "-inf");
}

#[test]
fn text_of_fractions_is_the_shortest_that_says_the_number() {
    assert_eq!(num(0.5).to_text(), "0.5");
    assert_eq!(num(-0.25).to_text(), "-0.25");
    assert_eq!(num(3.7).to_text(), "3.7");
    assert_eq!(num(0.1).to_text(), "0.1");
    assert_eq!(num(0.3).to_text(), "0.3");
    assert_eq!(num(2.675).to_text(), "2.675");
    assert_eq!(num(1e-7).to_text(), "0.0000001");
    assert_eq!(num(123456789.125).to_text(), "123456789.125");
    for a in samples() {
        if a.is_finite() {
            assert_eq!(num(a).to_text(), format!("{}", a));
        }
    }
}

#[test]
fn text_of_large_numbers_has_no_exponent() {
    assert_eq!(num(1e21).to_text(), "1000000000000000000000");
    assert_eq!(num(1e17).to_text(), "100000000000000000");
    assert_eq!(num(-1e23).to_text(), "-100000000000000000000000");
    assert_eq!(num(1.5e300).to_text(), format!("{}", 1.5e300f64));
    assert_eq!(num(f64::MAX).to_text(), format!("{}", f64::MAX));
    assert_eq!(num(9007199254740993.0).to_text(), "9007199254740992");
    assert_eq!(num(1.8446744073709552e19).to_text(), "18446744073709552000");
}

fn decimal(negative: bool, digits: &str, exponent: i64) -> Decimal {
    Decimal { negative, digits: digits.chars().collect(), exponent }
}

fn parts(d: &Decimal) -> (bool, String, i64) {
    (d.negative, d.digits.iter().collect(), d.exponent)
}

#[test]
fn scan_reads_scientific_notation() {
    assert_eq!(parts(&scan("1.0E+21").unwrap()), (false, "10".to_string(), 21));
    assert_eq!(parts(&scan("-9.619E-227").unwrap()), (true, "9619".to_string(), -227));
    assert_eq!(parts(&scan("3.7E+0").unwrap()), (false, "37".to_string(), 0));
    assert_eq!(parts(&scan("5E-1").unwrap()), (false, "5".to_string(), -1));
    assert_eq!(parts(&scan("1.5E+9999").unwrap()), (false, "15".to_string(), 9999));
    for text in ["", "3.7", "E+1", ".E+1", "1.0E", "1.0E+", "1.0E1", "1.0E+x", "1.0E+12345", "1.0E+1x"] {
        assert!(scan(text).is_none(), "{}", text);
    }
}

#[test]
fn trim_takes_the_zeros_off_the_end() {
    for (before, after) in [("1200", "12"), ("12", "12"), ("0", "0"), ("000", "0"), ("100", "1"), ("", "")] {
        let mut digits: Vec<char> = before.chars().collect();
        trim(&mut digits);
        assert_eq!(digits.iter().collect::<String>(), after);
    }
}

#[test]
fn increment_adds_one_at_the_last_place() {
    for (before, after, carry) in
        [("12", "13", false), ("19", "20", false), ("999", "000", true), ("9", "0", true), ("", "", true), ("1099", "1100", false)]
    {
        let mut digits: Vec<char> = before.chars().collect();
        assert_eq!(increment(&mut digits), carry, "{}", before);
        assert_eq!(digits.iter().collect::<String>(), after);
    }
}

#[test]
fn rounding_a_decimal_keeps_the_leading_digits() {
    let d = decimal(false, "2999", -1);
    assert_eq!(parts(&round_decimal(&d, 1)), (false, "3".to_string(), -1));
    assert_eq!(parts(&round_decimal(&d, 2)), (false, "3".to_string(), -1));
    assert_eq!(parts(&round_decimal(&d, 4)), (false, "2999".to_string(), -1));
    assert_eq!(parts(&round_decimal(&d, 9)), (false, "2999".to_string(), -1));
    let d = decimal(true, "12345", 3);
    assert_eq!(parts(&round_decimal(&d, 1)), (true, "1".to_string(), 3));
    assert_eq!(parts(&round_decimal(&d, 2)), (true, "12".to_string(), 3));
    assert_eq!(parts(&round_decimal(&d, 3)), (true, "123".to_string(), 3));
    assert_eq!(parts(&round_decimal(&d, 4)), (true, "1235".to_string(), 3));
    let d = decimal(false, "9996", 2);
    assert_eq!(parts(&round_decimal(&d, 3)), (false, "1".to_string(), 3));
    assert_eq!(parts(&round_decimal(&d, 1)), (false, "1".to_string(), 3));
    let d = decimal(false, "1200", 0);
    assert_eq!(parts(&round_decimal(&d, 4)), (false, "12".to_string(), 0));
}

#[test]
fn a_decimal_is_written_out_place_by_place() {
    assert_eq!(to_positional(&decimal(false, "1", 21)), "1000000000000000000000");
    assert_eq!(to_positional(&decimal(false, "15", 3)), "1500");
    assert_eq!(to_positional(&decimal(true, "125", 2)), "-125");
    assert_eq!(to_positional(&decimal(false, "125", 1)), "12.5");
    assert_eq!(to_positional(&decimal(false, "125", 0)), "1.25");
    assert_eq!(to_positional(&decimal(false, "125", -1)), "0.125");
    assert_eq!(to_positional(&decimal(true, "1", -7)), "-0.0000001");
    assert_eq!(to_positional(&decimal(false, "7", 0)), "7");
}

#[test]
fn a_power_of_two_takes_the_decimal_on_its_far_side() {
    // 2^-44 lies nearer to ...0801 than to ...0802, and only the latter says it again.
    let x = f64::from_bits(0x3d30_0000_0000_0000);
    assert_eq!(num(x).to_text(), "0.00000000000005684341886080802");
    assert_eq!(num(x).to_text(), format!("{}", x));
}

#[test]
fn the_shortest_decimal_says_the_number_again() {
    assert_eq!(shortest(0.3f64.to_bits(), "2.99999999999999988897769753748E-1"), "0.3");
    assert_eq!(shortest(1e21f64.to_bits(), "1.0E+21"), "1000000000000000000000");
    assert_eq!(shortest(0.3f64.to_bits(), "not a number"), "not a number");
    // With no digits that say the number, all 17 are kept.
    assert_eq!(shortest(1, "1.2345678901234567890123E+0"), "1.2345678901234568");
}

fn step(state: &mut u64) -> u64 {
    *state = state.wrapping_mul(6364136223846793005).wrapping_add(1442695040888963407);
    let mut x = *state;
    x ^= x >> 33;
    x = x.wrapping_mul(0xff51afd7ed558ccd);
    x ^= x >> 33;
    x
}

#[test]
fn arithmetic_is_that_of_binary64_on_many_numbers() {
    let mut state = 2024u64;
    for i in 0..20000 {
        let a = step(&mut state);
        let b = match i % 4 {
            0 => a ^ (step(&mut state) & 0xffff),
            1 => {
                let exponent = 0x3ffu64.wrapping_sub((a >> 52) & 0x7ff).wrapping_add(step(&mut state) % 8);
                (step(&mut state) & 0x800f_ffff_ffff_ffff) | ((exponent & 0x7ff) << 52)
            }
            _ => step(&mut state),
        };
        let (x, y) = (f64::from_bits(a), f64::from_bits(b));
        let (p, q) = (Number::from_bits(a), Number::from_bits(b));
        assert!(same(p.plus(q), x + y), "{:e} + {:e}", x, y);
        assert!(same(p.minus(q), x - y), "{:e} - {:e}", x, y);
        assert!(same(p.times(q), x * y), "{:e} * {:e}", x, y);
        assert!(same(p.divided_by(q), x / y), "{:e} / {:e}", x, y);
        assert!(same(p.round(), x.round()), "round {:e}", x);
        assert_eq!(p.equals(q), x == y);
        assert_eq!(p.less_than(q), x < y);
        assert_eq!(p.at_most(q), x <= y);
        assert_eq!(p.to_u32(), x as u32);
        assert_eq!(p.to_i64(), x as i64);
        assert_eq!(Number::from_magnitude(a).to_bits(), (a as f64).to_bits());
        assert_eq!(Number::from_i64(a as i64).to_bits(), (a as i64 as f64).to_bits());
    }
}

#[test]
fn text_says_the_number_again_on_many_numbers() {
    let mut state = 99u64;
    for _ in 0..300 {
        let a = step(&mut state);
        let candidates = [
            f64::from_bits(a),
            (a % 1000000) as f64 / 1000.0,
            (a % 100000) as f64 * 1e-9,
            (a >> 11) as f64 * 1e3,
            f64::from_bits(a & 0xfff0_0000_0000_0000),
            f64::from_bits(a & 0x800f_ffff_ffff_ffff),
        ];
        for c in candidates {
            if c.is_finite() {
                let text = num(c).to_text();
                let back: f64 = text.parse().unwrap();
                assert_eq!(back.to_bits(), c.to_bits(), "{}", text);
                assert_eq!(text, format!("{}", c));
            }
        }
    }
}
