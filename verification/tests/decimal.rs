use rental_ledger::decimal::{format_amount, format_count, parse_amount, parse_count};

#[test]
fn amount_is_written_with_two_places() {
    assert_eq!(format_amount(100000), "1000.00");
    assert_eq!(format_amount(25050), "250.50");
    assert_eq!(format_amount(74950), "749.50");
    assert_eq!(format_amount(0), "0.00");
    assert_eq!(format_amount(5), "0.05");
    assert_eq!(format_amount(50), "0.50");
    assert_eq!(format_amount(199), "1.99");
}

#[test]
fn negative_amount_is_written_with_a_minus_sign() {
    assert_eq!(format_amount(-1), "-0.01");
    assert_eq!(format_amount(-50), "-0.50");
    assert_eq!(format_amount(-123456), "-1234.56");
}

#[test]
fn amounts_at_the_limits_are_written() {
    assert_eq!(format_amount(i64::MAX as i128), "92233720368547758.07");
    assert_eq!(format_amount(i64::MIN as i128), "-92233720368547758.08");
    assert_eq!(
        format_amount(i64::MAX as i128 - i64::MIN as i128),
        "184467440737095516.15"
    );
    assert_eq!(
        format_amount(i128::MAX),
        "1701411834604692317316873037158841057.27"
    );
    assert_eq!(
        format_amount(i128::MIN),
        "-1701411834604692317316873037158841057.28"
    );
}

#[test]
fn amount_is_read_in_hundredths() {
    assert_eq!(parse_amount("1000.00"), Some(100000));
    assert_eq!(parse_amount("250.50"), Some(25050));
    assert_eq!(parse_amount("12.5"), Some(1250));
    assert_eq!(parse_amount("12"), Some(1200));
    assert_eq!(parse_amount("0"), Some(0));
    assert_eq!(parse_amount("007.10"), Some(710));
}

#[test]
fn amount_may_have_a_sign() {
    assert_eq!(parse_amount("-3.25"), Some(-325));
    assert_eq!(parse_amount("+3.25"), Some(325));
    assert_eq!(parse_amount("-0.00"), Some(0));
    assert_eq!(parse_amount("-.5"), Some(-50));
}

#[test]
fn amount_may_lack_digits_on_one_side_of_the_point() {
    assert_eq!(parse_amount(".5"), Some(50));
    assert_eq!(parse_amount("5."), Some(500));
    assert_eq!(parse_amount("."), None);
    assert_eq!(parse_amount("-."), None);
}

#[test]
fn amount_with_more_places_is_rounded_to_the_nearest_hundredth() {
    assert_eq!(parse_amount("12.344"), Some(1234));
    assert_eq!(parse_amount("12.345"), Some(1235));
    assert_eq!(parse_amount("12.3449999"), Some(1234));
    assert_eq!(parse_amount("0.995"), Some(100));
    assert_eq!(parse_amount("-0.005"), Some(-1));
    assert_eq!(parse_amount("-0.004"), Some(0));
    assert_eq!(parse_amount("1.23456789"), Some(123));
}

#[test]
fn text_that_is_no_decimal_is_no_amount() {
    assert_eq!(parse_amount(""), None);
    assert_eq!(parse_amount("abc"), None);
    assert_eq!(parse_amount("12a"), None);
    assert_eq!(parse_amount("1.2.3"), None);
    assert_eq!(parse_amount("1,5"), None);
    assert_eq!(parse_amount(" 1"), None);
    assert_eq!(parse_amount("1 "), None);
    assert_eq!(parse_amount("--1"), None);
    assert_eq!(parse_amount("+-1"), None);
    assert_eq!(parse_amount("-"), None);
    assert_eq!(parse_amount("1e3"), None);
    assert_eq!(parse_amount("1.5x"), None);
    assert_eq!(parse_amount("1.234x"), None);
    assert_eq!(parse_amount("\u{0661}"), None);
}

#[test]
fn amount_outside_the_range_is_no_amount() {
    assert_eq!(parse_amount("92233720368547758.07"), Some(i64::MAX));
    assert_eq!(parse_amount("92233720368547758.08"), None);
    assert_eq!(parse_amount("92233720368547758.074"), Some(i64::MAX));
    assert_eq!(parse_amount("92233720368547758.075"), None);
    assert_eq!(parse_amount("-92233720368547758.08"), Some(i64::MIN));
    assert_eq!(parse_amount("-92233720368547758.09"), None);
    assert_eq!(parse_amount("92233720368547759"), None);
    assert_eq!(parse_amount("92233720368547760"), None);
    assert_eq!(parse_amount("99999999999999999999999999999999999999999999"), None);
    assert_eq!(
        parse_amount("000000000000000000000000000000000000000000001.5"),
        Some(150)
    );
}

#[test]
fn amount_is_read_back_from_its_text() {
    let samples: [i64; 12] = [
        0,
        1,
        -1,
        9,
        10,
        99,
        100,
        -100,
        123456789,
        -987654321,
        i64::MAX,
        i64::MIN,
    ];
    for v in samples {
        let text = format_amount(v as i128);
        assert_eq!(parse_amount(&text), Some(v));
    }
}

#[test]
fn count_is_read_from_digits() {
    assert_eq!(parse_count("0"), Some(0));
    assert_eq!(parse_count("5"), Some(5));
    assert_eq!(parse_count("007"), Some(7));
    assert_eq!(parse_count("+5"), Some(5));
    assert_eq!(parse_count("4294967295"), Some(u32::MAX));
}

#[test]
fn text_that_is_no_count_is_rejected() {
    assert_eq!(parse_count(""), None);
    assert_eq!(parse_count("+"), None);
    assert_eq!(parse_count("-0"), None);
    assert_eq!(parse_count("-5"), None);
    assert_eq!(parse_count("5.0"), None);
    assert_eq!(parse_count(" 5"), None);
    assert_eq!(parse_count("Nenhum"), None);
    assert_eq!(parse_count("4294967296"), None);
    assert_eq!(parse_count("99999999999999999999999999"), None);
}

#[test]
fn count_is_read_back_from_its_text() {
    let samples: [u32; 6] = [0, 1, 9, 10, 365, u32::MAX];
    for n in samples {
        let text = format_count(n);
        assert_eq!(parse_count(&text), Some(n));
    }
    assert_eq!(format_count(365), "365");
    assert_eq!(format_count(0), "0");
}
