use gpu_trace_viewer::measure::{round_through_double, Measure};

fn measure(value: f64) -> Measure {
    Measure { bits: value.to_bits() }
}

fn value(measure: Measure) -> f64 {
    f64::from_bits(measure.bits)
}

const SAMPLES: [f64; 12] = [
    0.0,
    -0.0,
    1.0,
    -1.0,
    0.5,
    1e-300,
    -1e300,
    f64::INFINITY,
    f64::NEG_INFINITY,
    f64::NAN,
    f64::MIN_POSITIVE,
    123456.789,
];

#[test]
fn measures_are_ordered_as_numbers() {
    for a in SAMPLES {
        for b in SAMPLES {
            assert_eq!(measure(a).less_than(measure(b)), a < b, "{a} {b}");
        }
    }
}

#[test]
fn larger_and_smaller_measures_are_those_of_numbers() {
    for a in SAMPLES {
        for b in SAMPLES {
            let larger = value(measure(a).max(measure(b)));
            let smaller = value(measure(a).min(measure(b)));
            assert!(larger == a.max(b) || (larger.is_nan() && a.max(b).is_nan()), "{a} {b}");
            assert!(smaller == a.min(b) || (smaller.is_nan() && a.min(b).is_nan()), "{a} {b}");
        }
    }
}

#[test]
fn constant_measures_are_what_they_are_called() {
    assert_eq!(value(Measure::zero()), 0.0);
    assert_eq!(value(Measure::infinity()), f64::INFINITY);
    assert_eq!(value(Measure::neg_infinity()), f64::NEG_INFINITY);
}

#[test]
fn integers_of_measures_are_cut_off() {
    for value in [
        0.0,
        0.5,
        -0.5,
        0.999,
        1.0,
        1.5,
        -1.5,
        2.0,
        7.99,
        -7.99,
        1e3,
        1e9,
        123456789.75,
        1e15,
        4503599627370495.5,
        4503599627370496.0,
        9007199254740993.0,
        1e16,
        1e18,
        -1e18,
        9.2e18,
        9.3e18,
        -9.2e18,
        -9.3e18,
        1e300,
        -1e300,
        f64::INFINITY,
        f64::NEG_INFINITY,
        f64::NAN,
        f64::MIN_POSITIVE,
        5e-324,
        -0.0,
        i64::MAX as f64,
        i64::MIN as f64,
    ] {
        assert_eq!(measure(value).to_integer(), value as i64, "{value}");
    }
}

#[test]
fn integers_are_rounded_as_doubles_are() {
    let power = 1_i64 << 53;
    for n in [
        0,
        1,
        2,
        1000,
        power - 1,
        power,
        power + 1,
        power + 2,
        power + 3,
        2 * power + 1,
        2 * power + 2,
        2 * power + 3,
        2 * power + 6,
        123_456_789_012_345_678,
        1_i64 << 62,
        (1_i64 << 62) + 255,
        (1_i64 << 62) + 256,
        (1_i64 << 62) + 257,
        i64::MAX - 512,
        i64::MAX - 511,
        i64::MAX - 1,
        i64::MAX,
    ] {
        assert_eq!(round_through_double(n), n as f64 as i64, "{n}");
    }
}
