use chrono::{DateTime, Datelike, TimeZone, Utc};
use temperature_tracker::calendar::{check_utc_range, MAX_UTC, MIN_UTC};
use temperature_tracker::text::{comes_before, decimal_text};
use temperature_tracker::utc::{axis_text, moment_text, noon_of, utc_date};

#[test]
fn range_of_instants_is_that_of_chrono() {
    assert_eq!(MIN_UTC, DateTime::<Utc>::MIN_UTC.timestamp());
    assert_eq!(MAX_UTC, DateTime::<Utc>::MAX_UTC.timestamp());
    assert!(check_utc_range(MIN_UTC));
    assert!(check_utc_range(MAX_UTC));
    assert!(!check_utc_range(MIN_UTC - 1));
    assert!(!check_utc_range(MAX_UTC + 1));
    assert!(Utc.timestamp_opt(MAX_UTC + 1, 0).single().is_none());
    assert!(Utc.timestamp_opt(MIN_UTC - 1, 0).single().is_none());
}

#[test]
fn dates_are_written_in_utc() {
    assert_eq!(utc_date(0), "1970-01-01");
    assert_eq!(utc_date(-1), "1969-12-31");
    assert_eq!(utc_date(86_399), "1970-01-01");
    assert_eq!(utc_date(951_782_400), "2000-02-29");
    assert_eq!(utc_date(1_709_208_000), "2024-02-29");
    assert_eq!(utc_date(4_107_542_400), "2100-03-01");
    assert_eq!(utc_date(4_107_542_399), "2100-02-28");
}

#[test]
fn years_outside_four_digits_carry_a_sign() {
    assert_eq!(utc_date(253_402_300_799), "9999-12-31");
    assert_eq!(utc_date(253_402_300_800), "+10000-01-01");
    assert_eq!(utc_date(-62_167_219_200), "0000-01-01");
    assert_eq!(utc_date(-62_167_219_201), "-0001-12-31");
    assert_eq!(utc_date(MIN_UTC), "-262143-01-01");
    assert_eq!(utc_date(MAX_UTC), "+262142-12-31");
}

#[test]
fn labels_show_date_and_clock() {
    assert_eq!(axis_text(1_709_226_300), "02/29 17:05");
    assert_eq!(moment_text(1_709_226_300), "2024-02-29 17:05");
    assert_eq!(axis_text(-60), "12/31 23:59");
    assert_eq!(moment_text(-60), "1969-12-31 23:59");
}

#[test]
fn noon_is_read_back_from_a_date() {
    assert_eq!(noon_of("1970-01-01"), Some(43_200));
    assert_eq!(noon_of("2024-02-29"), Some(1_709_208_000));
    let mut secs = MIN_UTC;
    while secs <= MAX_UTC {
        let noon = secs.div_euclid(86_400) * 86_400 + 43_200;
        assert_eq!(noon_of(&utc_date(secs)), Some(noon));
        secs += 1_234_567_890_1;
    }
    let last = MAX_UTC.div_euclid(86_400) * 86_400 + 43_200;
    assert_eq!(noon_of(&utc_date(MAX_UTC)), Some(last));
}

#[test]
fn dates_agree_with_the_fields_of_the_calendar() {
    let mut secs: i64 = -70_000_000_000;
    while secs < 260_000_000_000 {
        let date = Utc.timestamp_opt(secs, 0).unwrap().date_naive();
        let year = date.year();
        let shown = if (0..=9999).contains(&year) {
            format!("{:04}", year)
        } else {
            format!("{:+05}", year)
        };
        let expected = format!("{}-{:02}-{:02}", shown, date.month(), date.day());
        assert_eq!(utc_date(secs), expected);
        secs += 123_456_789;
    }
}

#[test]
fn texts_are_ordered_like_strings() {
    let texts = ["", "-0001-12-31", "+10000-01-01", "0000-01-01", "1970-01-01", "1970-01", "é", "z", "𝄞"];
    for a in texts {
        for b in texts {
            assert_eq!(comes_before(a, b), a < b);
        }
    }
}

#[test]
fn numbers_are_written_in_decimal() {
    assert_eq!(decimal_text(0), "0");
    assert_eq!(decimal_text(9), "9");
    assert_eq!(decimal_text(10), "10");
    assert_eq!(decimal_text(365), "365");
    assert_eq!(decimal_text(1_234_567_890), "1234567890");
    assert_eq!(decimal_text(u64::MAX), "18446744073709551615");
}
