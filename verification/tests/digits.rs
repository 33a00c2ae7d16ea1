use perf_ui::decimal::Big;

fn text(n: &Big) -> String {
    n.to_digits().iter().map(|d| char::from(b'0' + d)).collect()
}

#[test]
fn big_number_has_the_digits_of_the_number() {
    for n in [0u64, 1, 9, 10, 999_999_999, 1_000_000_000, 1_000_000_001, 123_456_789_012_345_678, u64::MAX] {
        assert_eq!(text(&Big::from_u64(n)), n.to_string());
    }
}

#[test]
fn big_number_is_multiplied() {
    let mut n = Big::from_u64(1);
    let mut expected: u128 = 1;
    for factor in [10u32, 2, 16, 0, 7] {
        if factor == 0 {
            continue;
        }
        n.times(factor);
        expected *= factor as u128;
        assert_eq!(text(&n), expected.to_string());
    }
    let mut n = Big::from_u64(u64::MAX);
    let mut expected: u128 = u64::MAX as u128;
    for _ in 0..18 {
        n.times(10);
        expected *= 10;
        assert_eq!(text(&n), expected.to_string());
    }
    let mut zero = Big::from_u64(12345);
    zero.times(0);
    assert_eq!(text(&zero), "0");
}

#[test]
fn big_number_grows_beyond_machine_integers() {
    let mut n = Big::from_u64(1);
    for _ in 0..100 {
        n.times(10);
    }
    let mut expected = String::from("1");
    expected.push_str(&"0".repeat(100));
    assert_eq!(text(&n), expected);
    n.add_one();
    expected.pop();
    expected.push('1');
    assert_eq!(text(&n), expected);
}

#[test]
fn big_number_is_halved() {
    let mut n = Big::from_u64(u64::MAX);
    n.times(16);
    n.times(16);
    let mut expected: u128 = (u64::MAX as u128) * 256;
    while expected > 0 {
        let odd = n.halve();
        assert_eq!(odd, expected % 2 == 1);
        expected /= 2;
        assert_eq!(text(&n), expected.to_string());
        assert_eq!(n.is_odd(), expected % 2 == 1);
    }
    assert!(!n.halve());
    assert_eq!(text(&n), "0");
}

#[test]
fn big_number_takes_one_more() {
    let mut n = Big::from_u64(0);
    n.add_one();
    assert_eq!(text(&n), "1");
    let mut n = Big::from_u64(999_999_999);
    n.add_one();
    assert_eq!(text(&n), "1000000000");
    let mut n = Big::from_u64(999_999_999_999_999_999);
    n.add_one();
    assert_eq!(text(&n), "1000000000000000000");
    let mut n = Big::from_u64(u64::MAX);
    n.add_one();
    assert_eq!(text(&n), "18446744073709551616");
    assert!(!n.is_odd());
    n.add_one();
    assert!(n.is_odd());
}
