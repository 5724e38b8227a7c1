use crafting_interpreter::lox::number::Number;
use crafting_interpreter::lox::text::{int_string, nat_string};

fn num(value: f64) -> Number {
    Number::from_bits(value.to_bits())
}

fn val(n: Number) -> f64 {
    f64::from_bits(n.to_bits())
}

/// The same number, bit for bit; of a NaN only that it is one.
fn same(got: f64, expected: f64, op: &str, a: f64, b: f64) {
    if expected.is_nan() {
        assert!(got.is_nan(), "{} {} {}", a, op, b);
    } else {
        assert_eq!(got.to_bits(), expected.to_bits(), "{} {} {}", a, op, b);
    }
}

fn samples() -> Vec<f64> {
    vec![
        0.0,
        -0.0,
        1.0,
        -1.0,
        2.0,
        3.0,
        0.1,
        0.2,
        0.3,
        0.5,
        1.5,
        -2.5,
        7.0,
        10.0,
        100.0,
        123.45,
        1e15,
        1e16,
        1e17,
        1e21,
        1e22,
        1e23,
        1e-7,
        2.5e-5,
        1e-300,
        5e-324,
        2.2250738585072014e-308,
        1.7976931348623157e308,
        9007199254740992.0,
        9007199254740993.0,
        4294967296.5,
        0.30000000000000004,
        3.141592653589793,
        2.718281828459045,
        1.0 / 3.0,
        2.0 / 3.0,
        123456789012345680000.0,
        9.223372036854776e18,
        -9.223372036854776e18,
        f64::INFINITY,
        f64::NEG_INFINITY,
    ]
}

#[test]
fn arithmetic_is_ieee() {
    for a in samples() {
        for b in samples() {
            let (x, y) = (num(a), num(b));
            same(val(x.plus(y)), a + b, "+", a, b);
            same(val(x.minus(y)), a - b, "-", a, b);
            same(val(x.times(y)), a * b, "*", a, b);
            same(val(x.divided_by(y)), a / b, "/", a, b);
            same(val(x.remainder(y)), a % b, "%", a, b);
        }
    }
}

#[test]
fn comparisons_are_ieee() {
    let mut values = samples();
    values.push(f64::NAN);
    for a in values.clone() {
        for b in values.clone() {
            let (x, y) = (num(a), num(b));
            assert_eq!(x.less_than(y), a < b, "{} < {}", a, b);
            assert_eq!(x.less_or_equal(y), a <= b, "{} <= {}", a, b);
            assert_eq!(x.greater_than(y), a > b, "{} > {}", a, b);
            assert_eq!(x.greater_or_equal(y), a >= b, "{} >= {}", a, b);
            assert_eq!(x.equals(y), a == b, "{} == {}", a, b);
        }
        assert_eq!(val(num(a).negate()).to_bits(), (-a).to_bits());
        assert_eq!(num(a).is_zero(), a == 0.0);
        assert_eq!(num(a).is_nan(), a.is_nan());
    }
}

#[test]
fn text_is_the_shortest_decimal() {
    for a in samples() {
        assert_eq!(num(a).to_text(), format!("{}", a), "bits {:#x}", a.to_bits());
        assert_eq!(num(-a).to_text(), format!("{}", -a), "bits {:#x}", (-a).to_bits());
    }
    assert_eq!(num(f64::NAN).to_text(), "NaN");
    assert_eq!(num(0.1 + 0.2).to_text(), "0.30000000000000004");
    assert_eq!(num(123.45).to_text(), "123.45");
    assert_eq!(num(1e21).to_text(), "1000000000000000000000");
    assert_eq!(num(1e-7).to_text(), "0.0000001");
    assert_eq!(num(-0.0).to_text(), "-0");
}

#[test]
fn text_reads_back() {
    let mut state: u64 = 0x9E3779B97F4A7C15;
    for _ in 0..2000 {
        state ^= state << 13;
        state ^= state >> 7;
        state ^= state << 17;
        let a = f64::from_bits(state);
        if a.is_nan() {
            continue;
        }
        let text = num(a).to_text();
        assert_eq!(text, format!("{}", a), "bits {:#x}", state);
        let back: f64 = text.parse().unwrap();
        assert_eq!(back.to_bits(), a.to_bits());
    }
}

#[test]
fn literals_are_read_to_the_nearest_number() {
    let texts = vec![
        "0",
        "1",
        "10",
        "123",
        "123.45",
        "0.1",
        "0.30000000000000004",
        "3.14159265358979323846264338327950288",
        "9007199254740993",
        "179769313486231570000000000000000000000000000000000000000000000000000000000000000000000000000000000000000000000000000000000000000000000000000000000000000000000000000000000000000000000000000000000000000000000000000000000000000000000000000000000000000000000000000000000000000000000000000000000000000000000",
        "0.000000000000000000000000000000000000000000000001",
        "00012.500",
    ];
    for text in texts {
        let expected: f64 = text.parse().unwrap();
        assert_eq!(val(Number::literal(text)).to_bits(), expected.to_bits(), "{}", text);
    }
    let huge = "9".repeat(400);
    assert_eq!(val(Number::literal(&huge)), f64::INFINITY);
}

#[test]
fn integral_numbers_convert_to_integers() {
    assert_eq!(num(0.0).to_integer(), Some(0));
    assert_eq!(num(-0.0).to_integer(), Some(0));
    assert_eq!(num(1.0).to_integer(), Some(1));
    assert_eq!(num(-1.0).to_integer(), Some(-1));
    assert_eq!(num(120.0).to_integer(), Some(120));
    assert_eq!(num(4503599627370496.0).to_integer(), Some(4503599627370496));
    assert_eq!(num(9007199254740992.0).to_integer(), Some(9007199254740992));
    assert_eq!(num(4611686018427387904.0).to_integer(), Some(4611686018427387904));
    assert_eq!(num(9.223372036854776e18).to_integer(), None);
    assert_eq!(num(-9.223372036854776e18).to_integer(), Some(i64::MIN));
    assert_eq!(num(-9.223372036854778e18).to_integer(), None);
    assert_eq!(num(1e300).to_integer(), None);
    assert_eq!(num(-1e300).to_integer(), None);
    assert_eq!(num(0.5).to_integer(), None);
    assert_eq!(num(1.5).to_integer(), None);
    assert_eq!(num(-2.25).to_integer(), None);
    assert_eq!(num(5e-324).to_integer(), None);
    assert_eq!(num(4503599627370495.5).to_integer(), None);
    assert_eq!(num(f64::INFINITY).to_integer(), None);
    assert_eq!(num(f64::NAN).to_integer(), None);
    for a in samples() {
        let small = a.is_finite() && a.fract() == 0.0 && a >= -9223372036854775808.0 && a < 9223372036854775808.0;
        let expected = if small { Some(a as i64) } else { None };
        assert_eq!(num(a).to_integer(), expected, "{}", a);
    }
}

#[test]
fn display_shows_integral_numbers_as_integers() {
    assert_eq!(num(3.0).display(), "3");
    assert_eq!(num(-0.0).display(), "0");
    assert_eq!(num(3.5).display(), "3.5");
    assert_eq!(num(1e21).display(), "1000000000000000000000");
    assert_eq!(num(-1e21).display(), "-1000000000000000000000");
    assert_eq!(num(-9223372036854775808.0).display(), "-9223372036854775808");
    assert_eq!(num(9223372036854775808.0).display(), "9223372036854775808");
    assert_eq!(num(1e23).display(), "99999999999999991611392");
    assert_eq!(num(-18446744073709551616.0).display(), "-18446744073709551616");
    assert_eq!(
        num(f64::MAX).display(),
        "179769313486231570814527423731704356798070567525844996598917476803157260780028538760589558632766878171540458953514382464234321326889464182768467546703537516986049910576551282076245490090389328944075868508455133942304583236903222948165808559332123348274797826204144723168738177180919299881250404026184124858368"
    );
    assert_eq!(num(9007199254740992.0).display(), "9007199254740992");
    assert_eq!(num(f64::INFINITY).display(), "inf");
    assert_eq!(num(f64::NAN).display(), "NaN");
}

#[test]
fn integers_become_numbers() {
    assert_eq!(val(Number::from_integer(0)), 0.0);
    assert_eq!(val(Number::from_integer(1700000000)), 1700000000.0);
    assert_eq!(val(Number::from_integer(u64::MAX)), 18446744073709551615.0);
}

#[test]
fn integers_are_written_in_decimal() {
    assert_eq!(nat_string(0), "0");
    assert_eq!(nat_string(9), "9");
    assert_eq!(nat_string(10), "10");
    assert_eq!(nat_string(18446744073709551615), "18446744073709551615");
    assert_eq!(int_string(0), "0");
    assert_eq!(int_string(-1), "-1");
    assert_eq!(int_string(i64::MAX), "9223372036854775807");
    assert_eq!(int_string(i64::MIN), "-9223372036854775808");
}
