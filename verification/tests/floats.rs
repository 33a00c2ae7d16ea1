use perf_ui::float_format::format_pretty_float;
use perf_ui::ieee::Double;

fn d(x: f64) -> Double {
    Double::from_bits(x.to_bits())
}

fn shown(digits: u8, precision: u8, x: f64) -> String {
    format_pretty_float(digits, precision, d(x))
}

fn samples() -> Vec<f64> {
    let mut v = vec![
        0.0,
        -0.0,
        0.5,
        1.5,
        2.5,
        3.5,
        0.125,
        0.375,
        0.1,
        0.2,
        0.3,
        1.0 / 3.0,
        2.0 / 3.0,
        0.999,
        0.9995,
        0.99951,
        9.9996,
        45.0,
        59.94,
        99.0,
        99.4,
        99.5,
        99.9994,
        99.9995,
        99.9996,
        99.99999999,
        16.666666666666668,
        8.333333333333334,
        1234.5678,
        65536.125,
        1e-5,
        1e-10,
        1e-40,
        5e-324,
        f64::MIN_POSITIVE,
        2.2250738585072009e-308,
        4.9406564584124654e-324,
        1e15,
        1e16,
        1e17,
        123456789012345680.0,
        1e22,
        1e23,
        1e100,
        1e300,
        f64::MAX,
        0.30000000000000004,
        2.675,
        1.005,
        1e-7,
        7.0e-3,
        0.045,
        0.055,
        1.0e-1,
    ];
    let mut bits: u64 = 0x3c00_0000_0000_0001;
    while bits < 0x4500_0000_0000_0000 {
        v.push(f64::from_bits(bits));
        bits = bits + 0x0007_1234_5678_9abc;
    }
    v
}

#[test]
fn number_in_the_column_is_written_with_the_asked_places() {
    assert_eq!(shown(4, 0, 45.0), "45");
    assert_eq!(shown(4, 0, 59.94), "60");
    assert_eq!(shown(2, 3, 16.666666666666668), "16.667");
    assert_eq!(shown(2, 3, 8.333333333333334), "8.333");
    assert_eq!(shown(2, 3, 0.0), "0.000");
    assert_eq!(shown(2, 2, 12.0), "12.00");
    assert_eq!(shown(5, 3, 3725.5), "3725.500");
    assert_eq!(shown(3, 1, 0.04), "0.0");
    assert_eq!(shown(3, 1, 0.06), "0.1");
}

#[test]
fn number_of_too_many_digits_is_all_nines() {
    assert_eq!(shown(2, 3, 100.0), "99.999");
    assert_eq!(shown(2, 3, 1e9), "99.999");
    assert_eq!(shown(2, 3, 1e9), shown(2, 3, 99.999));
    assert_eq!(shown(2, 3, f64::MAX), "99.999");
    assert_eq!(shown(2, 3, f64::INFINITY), "99.999");
    assert_eq!(shown(4, 0, 10000.0), "9999");
    assert_eq!(shown(4, 0, 9999.0), "9999");
    assert_eq!(shown(1, 1, 10.0), "9.9");
    assert_eq!(shown(3, 2, 1e300), "999.99");
    assert_eq!(shown(2, 3, -100.0), "-99.999");
    assert_eq!(shown(2, 3, -1e9), "-99.999");
    assert_eq!(shown(2, 0, f64::NEG_INFINITY), "-99");
}

#[test]
fn column_has_one_digit_at_least() {
    assert_eq!(shown(0, 2, 5.25), "5.25");
    assert_eq!(shown(0, 2, 10.0), "9.99");
    assert_eq!(shown(0, 0, 9.0), "9");
    assert_eq!(shown(0, 0, 123.0), "9");
}

#[test]
fn nan_is_written_as_nan() {
    assert_eq!(shown(2, 3, f64::NAN), "NaN");
    assert_eq!(shown(0, 0, -f64::NAN), "NaN");
    assert_eq!(format_pretty_float(2, 3, Double::from_bits(0x7ff0_0000_0000_0001)), "NaN");
}

#[test]
fn ties_go_to_the_even_neighbor() {
    assert_eq!(shown(3, 0, 0.5), "0");
    assert_eq!(shown(3, 0, 1.5), "2");
    assert_eq!(shown(3, 0, 2.5), "2");
    assert_eq!(shown(3, 0, 3.5), "4");
    assert_eq!(shown(3, 2, 0.125), "0.12");
    assert_eq!(shown(3, 2, 0.375), "0.38");
    assert_eq!(shown(3, 1, 0.25), "0.2");
    assert_eq!(shown(3, 1, 0.75), "0.8");
    assert_eq!(shown(3, 0, -2.5), "-2");
}

#[test]
fn sign_is_kept_for_what_rounds_to_zero() {
    assert_eq!(shown(2, 3, -0.0), "-0.000");
    assert_eq!(shown(2, 1, -0.01), "-0.0");
    assert_eq!(shown(2, 0, -0.4), "-0");
    assert_eq!(shown(2, 2, -1.5), "-1.50");
}

#[test]
fn rounding_may_carry_into_one_more_digit() {
    assert_eq!(shown(2, 3, 99.9996), "100.000");
    assert_eq!(shown(2, 3, 99.9994), "99.999");
    assert_eq!(shown(1, 0, 9.5), "10");
    assert_eq!(shown(1, 0, 9.4), "9");
}

#[test]
fn text_is_that_of_the_exact_decimal_expansion() {
    for x in samples() {
        if x >= 1e255 {
            continue;
        }
        for precision in [0u8, 1, 2, 3, 6, 9, 17, 40, 120, 255] {
            let expected = format!("{:.p$}", x, p = precision as usize);
            assert_eq!(shown(255, precision, x), expected, "{:e} with {} places", x, precision);
            let negative = format!("{:.p$}", -x, p = precision as usize);
            assert_eq!(shown(255, precision, -x), negative, "{:e} with {} places", -x, precision);
        }
    }
}

#[test]
fn text_of_a_number_in_the_column_is_that_of_the_number() {
    for x in samples() {
        for digits in [1u8, 2, 4, 6, 19, 40] {
            for precision in [0u8, 2, 3] {
                let text = shown(digits, precision, x);
                if x < 10f64.powi(digits as i32) {
                    assert_eq!(text, format!("{:.p$}", x, p = precision as usize), "{:e}", x);
                } else {
                    let mut nines = "9".repeat(digits as usize);
                    if precision > 0 {
                        nines.push('.');
                        nines.push_str(&"9".repeat(precision as usize));
                    }
                    assert_eq!(text, nines, "{:e}", x);
                }
            }
        }
    }
}

#[test]
fn width_does_not_grow_with_the_number() {
    let values = [0.0, 1.0, 99.9996, 1e9, 1e300, f64::MAX, f64::INFINITY, -1e300, f64::NEG_INFINITY, -0.0, 5e-324];
    for digits in [0u8, 1, 2, 5, 30] {
        for precision in [0u8, 1, 3, 20] {
            let bound = digits.max(1) as usize + precision as usize + 3;
            for x in values {
                let text = shown(digits, precision, x);
                assert!(text.len() <= bound, "{:e} in {}.{} gave {}", x, digits, precision, text);
            }
        }
    }
}
