use rozsdhabot::calendar::{days_in_month_exec, prev_day, Timestamp};
use rozsdhabot::numbers::{parse_i64, parse_u64, u64_digits, u64_padded};

#[test]
fn timestamps_format_zero_padded() {
    let t = Timestamp { year: 2024, month: 3, day: 5, hour: 7, minute: 9 };
    assert_eq!(t.format(), "2024-03-05 07:09");
    let early = Timestamp { year: 33, month: 12, day: 31, hour: 23, minute: 59 };
    assert_eq!(early.format(), "0033-12-31 23:59");
}

#[test]
fn digits_render_exactly() {
    assert_eq!(u64_digits(0).into_iter().collect::<String>(), "0");
    assert_eq!(u64_digits(120500).into_iter().collect::<String>(), "120500");
    assert_eq!(u64_padded(7, 4).into_iter().collect::<String>(), "0007");
    assert_eq!(u64_padded(12345, 4).into_iter().collect::<String>(), "12345");
}

#[test]
fn integer_parsing_is_strict() {
    assert_eq!(parse_u64(&"0".chars().collect()), Some(0));
    assert_eq!(parse_u64(&"18446744073709551615".chars().collect()), Some(u64::MAX));
    assert_eq!(parse_u64(&"18446744073709551616".chars().collect()), None);
    assert_eq!(parse_u64(&"".chars().collect()), None);
    assert_eq!(parse_u64(&"12a".chars().collect()), None);
    assert_eq!(parse_i64(&"-42".chars().collect()), Some(-42));
    assert_eq!(parse_i64(&"+42".chars().collect()), Some(42));
    assert_eq!(parse_i64(&"-9223372036854775808".chars().collect()), Some(i64::MIN));
    assert_eq!(parse_i64(&"9223372036854775808".chars().collect()), None);
}

#[test]
fn calendar_rules_handle_leap_years() {
    assert_eq!(days_in_month_exec(2024, 2), 29);
    assert_eq!(days_in_month_exec(2023, 2), 28);
    assert_eq!(days_in_month_exec(2100, 2), 28);
    assert_eq!(days_in_month_exec(2000, 2), 29);
    assert_eq!(prev_day(2024, 3, 1), (2024, 2, 29));
    assert_eq!(prev_day(2024, 1, 1), (2023, 12, 31));
    assert_eq!(prev_day(2024, 3, 15), (2024, 3, 14));
}
