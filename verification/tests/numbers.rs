use pitlang::number::Number;

fn n(x: f64) -> Number {
    Number::new(x.to_bits())
}

fn samples() -> Vec<f64> {
    vec![
        0.0,
        -0.0,
        1.0,
        -1.0,
        0.5,
        -0.5,
        0.999999,
        1.5,
        2.0,
        3.0,
        -3.75,
        7.0,
        255.9,
        1e10,
        -1e10,
        4503599627370496.0,
        9007199254740992.0,
        9007199254740993.0,
        1e18,
        -1e18,
        9223372036854775807.0,
        -9223372036854775808.0,
        1e19,
        -1e19,
        1e300,
        -1e300,
        5e-324,
        -5e-324,
        2.2250738585072014e-308,
        f64::MAX,
        f64::MIN,
        f64::INFINITY,
        f64::NEG_INFINITY,
        f64::NAN,
        -f64::NAN,
    ]
}

#[test]
fn truthiness_is_being_different_from_zero() {
    for x in samples() {
        assert_eq!(n(x).is_truthy(), x != 0.0, "{}", x);
    }
}

#[test]
fn equality_and_order_are_those_of_doubles() {
    for a in samples() {
        for b in samples() {
            assert_eq!(n(a).equals(n(b)), a == b, "{} == {}", a, b);
            assert_eq!(n(a).less_than(n(b)), a < b, "{} < {}", a, b);
            assert_eq!(n(a).less_than_or_equal(n(b)), a <= b, "{} <= {}", a, b);
            assert_eq!(n(a).greater_than(n(b)), a > b, "{} > {}", a, b);
            assert_eq!(n(a).greater_than_or_equal(n(b)), a >= b, "{} >= {}", a, b);
        }
    }
}

#[test]
fn negation_turns_the_sign() {
    for x in samples() {
        assert_eq!(n(x).negate().bits, (-x).to_bits(), "{}", x);
    }
}

#[test]
fn nan_is_told_by_the_bits() {
    for x in samples() {
        assert_eq!(n(x).is_nan(), x.is_nan(), "{}", x);
        assert_eq!(n(x).is_negative(), x.is_sign_negative(), "{}", x);
    }
}

#[test]
fn truncation_is_the_cast_to_a_64_bit_integer() {
    for x in samples() {
        assert_eq!(n(x).to_integer(), x as i64, "{}", x);
    }
    assert_eq!(n(2.9).to_integer(), 2);
    assert_eq!(n(-2.9).to_integer(), -2);
    assert_eq!(n(1024.0).to_integer(), 1024);
    assert_eq!(n(4611686018427387904.0).to_integer(), 4611686018427387904);
}

#[test]
fn counts_become_the_nearest_double() {
    let mut counts: Vec<u64> = vec![0, 1, 2, 3, 4, 7, 8, 1000, 65535, 065536, u32::MAX as u64];
    for k in 50..64 {
        let p = 1u64 << k;
        for d in [0u64, 1, 2, 3, 5, 1023, 1024, 1025, 2047, 2048, 2049, 3071, 3072, 3073] {
            counts.push(p + d);
            counts.push(p - d);
            counts.push(p + (p >> 1) + d);
        }
    }
    counts.push(u64::MAX);
    counts.push(u64::MAX - 1024);
    for c in counts {
        if c <= usize::MAX as u64 {
            assert_eq!(Number::from_count(c as usize).bits, (c as f64).to_bits(), "{}", c);
        }
    }
}

#[test]
fn integers_become_the_nearest_double() {
    let mut ints: Vec<i64> = vec![0, 1, -1, 2, -2, 42, -42, i64::MAX, i64::MIN, i64::MIN + 1];
    for k in 50..63 {
        let p = 1i64 << k;
        for d in [0i64, 1, 2, 3, 511, 512, 513, 1023, 1024, 1025] {
            ints.push(p + d);
            ints.push(-(p + d));
            ints.push(p - d);
            ints.push(-(p - d));
        }
    }
    for i in ints {
        assert_eq!(Number::from_integer(i).bits, (i as f64).to_bits(), "{}", i);
    }
}
