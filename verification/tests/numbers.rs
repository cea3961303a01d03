use lisp::number::Number;

fn number(x: f64) -> Number {
    Number::from_bits(x.to_bits())
}

fn samples() -> Vec<f64> {
    vec![
        0.0,
        -0.0,
        1.0,
        -1.0,
        0.5,
        -0.5,
        2.0,
        1e300,
        -1e300,
        5e-324,
        -5e-324,
        2.2250738585072014e-308,
        f64::MAX,
        f64::MIN,
        f64::INFINITY,
        f64::NEG_INFINITY,
        f64::NAN,
        -f64::NAN,
        f64::from_bits(0x7ff0_0000_0000_0001),
        f64::from_bits(0xfff8_0000_0000_0001),
        3.141592653589793,
        49.0,
    ]
}

#[test]
fn bits_are_kept() {
    for x in samples() {
        assert_eq!(number(x).to_bits(), x.to_bits());
        assert_eq!(number(x).bits, x.to_bits());
    }
}

#[test]
fn zero_and_one() {
    assert_eq!(Number::zero().to_bits(), 0.0f64.to_bits());
    assert_eq!(Number::one().to_bits(), 1.0f64.to_bits());
}

#[test]
fn classification_agrees_with_the_hardware() {
    for x in samples() {
        assert_eq!(number(x).is_nan(), x.is_nan(), "is_nan of {:?}", x);
        assert_eq!(number(x).is_zero(), x == 0.0, "is_zero of {:?}", x);
        assert_eq!(number(x).is_negative(), x.is_sign_negative(), "is_negative of {:?}", x);
    }
}

#[test]
fn negation_agrees_with_the_hardware() {
    for x in samples() {
        assert_eq!(number(x).negate().to_bits(), (-x).to_bits(), "negation of {:?}", x);
    }
}

#[test]
fn equality_agrees_with_the_hardware() {
    for x in samples() {
        for y in samples() {
            assert_eq!(number(x).equals(number(y)), x == y, "{:?} == {:?}", x, y);
        }
    }
}

#[test]
fn order_agrees_with_the_hardware() {
    for x in samples() {
        for y in samples() {
            assert_eq!(number(x).less_than(number(y)), x < y, "{:?} < {:?}", x, y);
            assert_eq!(number(x).at_most(number(y)), x <= y, "{:?} <= {:?}", x, y);
        }
    }
}

#[test]
fn the_two_zeros_are_equal_and_neither_is_below_the_other() {
    assert!(number(0.0).equals(number(-0.0)));
    assert!(!number(-0.0).less_than(number(0.0)));
    assert!(!number(0.0).less_than(number(-0.0)));
    assert!(number(-0.0).at_most(number(0.0)));
}

#[test]
fn a_nan_is_neither_equal_nor_below_nor_above() {
    let nan = number(f64::NAN);
    assert!(!nan.equals(nan));
    assert!(!nan.less_than(number(1.0)));
    assert!(!number(1.0).less_than(nan));
    assert!(!nan.at_most(nan));
}
