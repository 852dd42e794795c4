//! Measures, ratios and decimal numbers.
use transcript_decoder::measure::{
    is_less, least, measure_of_count, measure_of_integer, measure_of_single, middle, negate,
    without_sign, Ratio, MEASURE_0, MEASURE_0_10, MEASURE_0_12, MEASURE_0_35, MEASURE_0_42,
    MEASURE_0_65, MEASURE_0_70, MEASURE_0_75, MEASURE_0_85, MEASURE_0_90, MEASURE_0_95, MEASURE_1,
    MEASURE_18, MEASURE_2, MEASURE_36, MEASURE_4, MEASURE_45, MEASURE_520, MEASURE_INFINITY,
    MEASURE_MINUS_100,
};
use transcript_decoder::number::{decimal_string, hex_string, parse_u16, parse_u32};

fn key(x: f64) -> i64 {
    let bits = x.to_bits() as i64;
    if bits < 0 {
        bits ^ i64::MAX
    } else {
        bits
    }
}

#[test]
fn constants_are_the_keys_of_their_numbers() {
    let doubles = vec![
        (MEASURE_0, 0.0),
        (MEASURE_0_10, 0.10),
        (MEASURE_0_12, 0.12),
        (MEASURE_0_35, 0.35),
        (MEASURE_0_75, 0.75),
        (MEASURE_1, 1.0),
        (MEASURE_2, 2.0),
        (MEASURE_4, 4.0),
        (MEASURE_18, 18.0),
        (MEASURE_36, 36.0),
        (MEASURE_45, 45.0),
        (MEASURE_520, 520.0),
        (MEASURE_INFINITY, f64::INFINITY),
        (MEASURE_MINUS_100, -100.0),
    ];
    for (constant, number) in doubles {
        assert_eq!(constant, key(number), "{number}");
    }
    let singles = vec![
        (MEASURE_0_42, 0.42f32),
        (MEASURE_0_65, 0.65),
        (MEASURE_0_70, 0.70),
        (MEASURE_0_85, 0.85),
        (MEASURE_0_90, 0.90),
        (MEASURE_0_95, 0.95),
    ];
    for (constant, number) in singles {
        assert_eq!(constant, key(f64::from(number)), "{number}");
    }
}

#[test]
fn integers_have_the_keys_of_their_doubles() {
    let list = vec![
        0,
        1,
        -1,
        7,
        -45,
        1 << 52,
        (1 << 53) + 1,
        (1 << 53) + 3,
        -((1 << 53) + 1),
        i64::MAX,
        i64::MIN,
        i64::MAX - 511,
        123_456_789_012_345_678,
    ];
    for n in list {
        assert_eq!(measure_of_integer(n), key(n as f64), "{n}");
    }
    assert_eq!(measure_of_count(612), key(612.0));
}

#[test]
fn single_precision_widens() {
    let list = vec![
        0.0f32,
        1.0,
        -1.0,
        0.12,
        -100.5,
        f32::MIN_POSITIVE,
        f32::from_bits(1),
        f32::from_bits(0x007f_ffff),
        f32::MAX,
        f32::INFINITY,
        f32::NEG_INFINITY,
    ];
    for x in list {
        assert_eq!(measure_of_single(x.to_bits()), key(f64::from(x)), "{x}");
    }
}

#[test]
fn keys_compare_as_numbers_do() {
    let list = vec![-100.0, -1.5, -0.0, 0.0, 1e-300, 0.25, 3.0, 1e300];
    for a in &list {
        for b in &list {
            assert_eq!(is_less(key(*a), key(*b)), a < b, "{a} {b}");
        }
        assert_eq!(negate(key(*a)), key(-*a));
        assert_eq!(without_sign(key(*a)), key(a.abs()));
    }
    assert_eq!(least(key(2.0), key(-3.0)), key(-3.0));
}

#[test]
fn the_middle_of_an_even_number_is_the_upper_one() {
    assert_eq!(middle(&vec![]), None);
    assert_eq!(middle(&vec![key(3.0)]), Some(key(3.0)));
    assert_eq!(middle(&vec![key(9.0), key(1.0), key(5.0)]), Some(key(5.0)));
    assert_eq!(middle(&vec![key(9.0), key(1.0), key(5.0), key(7.0)]), Some(key(7.0)));
}

#[test]
fn ratios_reach_hundredths() {
    assert!(Ratio { part: 4, whole: 5 }.at_least(80));
    assert!(!Ratio { part: 79, whole: 100 }.at_least(80));
    assert!(Ratio::of_hundred(62).at_least(62));
    assert!(!Ratio::of_hundred(62).at_least(63));
}

#[test]
fn numbers_are_written_and_read() {
    assert_eq!(decimal_string(0), "0");
    assert_eq!(decimal_string(18_446_744_073_709_551_615), "18446744073709551615");
    assert_eq!(hex_string(&[0, 15, 160, 255]), "000fa0ff");
    assert_eq!(parse_u16("65535"), Some(65_535));
    assert_eq!(parse_u16("65536"), None);
    assert_eq!(parse_u16("+12"), Some(12));
    assert_eq!(parse_u16("+"), None);
    assert_eq!(parse_u16(""), None);
    assert_eq!(parse_u32("4294967295"), Some(4_294_967_295));
    assert_eq!(parse_u32("4294967296"), None);
    assert_eq!(parse_u32("00074"), Some(74));
    assert_eq!(parse_u32("7 "), None);
    assert_eq!(parse_u32("-7"), None);
}
