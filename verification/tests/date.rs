use shell::utils::date::{format_datetime, is_leap_year, month_to_str, secs_to_tm, Tm};

fn tm(tm_mon: i32, tm_mday: i32, tm_hour: i32, tm_min: i32) -> Tm {
    Tm { tm_mon, tm_mday, tm_hour, tm_min }
}

#[test]
fn epoch_is_first_of_january() {
    assert_eq!(secs_to_tm(0), tm(0, 1, 0, 0));
    assert_eq!(format_datetime(0), "Jan  1 00:00");
}

#[test]
fn seconds_within_a_minute_do_not_show() {
    assert_eq!(secs_to_tm(59), tm(0, 1, 0, 0));
    assert_eq!(secs_to_tm(60), tm(0, 1, 0, 1));
    assert_eq!(format_datetime(3599), "Jan  1 00:59");
}

#[test]
fn day_rolls_over_at_midnight() {
    assert_eq!(secs_to_tm(86_399), tm(0, 1, 23, 59));
    assert_eq!(secs_to_tm(86_400), tm(0, 2, 0, 0));
    assert_eq!(format_datetime(86_399), "Jan  1 23:59");
    assert_eq!(format_datetime(86_400), "Jan  2 00:00");
}

#[test]
fn months_of_a_common_year() {
    assert_eq!(secs_to_tm(86_400 * 31), tm(1, 1, 0, 0));
    assert_eq!(secs_to_tm(86_400 * 59), tm(2, 1, 0, 0));
    assert_eq!(format_datetime(86_400 * 59), "Mar  1 00:00");
}

#[test]
fn year_rolls_over() {
    assert_eq!(secs_to_tm(31_535_999), tm(11, 31, 23, 59));
    assert_eq!(secs_to_tm(31_536_000), tm(0, 1, 0, 0));
    assert_eq!(format_datetime(31_535_999), "Dec 31 23:59");
}

#[test]
fn leap_day_exists_in_leap_years() {
    assert_eq!(secs_to_tm(951_782_400), tm(1, 29, 0, 0));
    assert_eq!(secs_to_tm(951_868_800), tm(2, 1, 0, 0));
    assert_eq!(format_datetime(1_709_210_040), "Feb 29 12:34");
    assert_eq!(format_datetime(1_735_689_599), "Dec 31 23:59");
}

#[test]
fn century_without_leap_day() {
    // 2100-01-01, reached through the leap years 2000 to 2096
    assert_eq!(secs_to_tm(4_102_444_800), tm(0, 1, 0, 0));
}

#[test]
fn two_digit_fields_are_padded() {
    assert_eq!(format_datetime(1_000_000_000), "Sep  9 01:46");
    assert_eq!(format_datetime(4_294_967_296), "Feb  7 06:28");
}

#[test]
fn fields_stay_in_range() {
    let mut secs: u64 = 0;
    while secs < 200_000_000 {
        let t = secs_to_tm(secs);
        assert!((0..12).contains(&t.tm_mon));
        assert!((1..=31).contains(&t.tm_mday));
        assert!((0..24).contains(&t.tm_hour));
        assert!((0..60).contains(&t.tm_min));
        assert_eq!(format_datetime(secs).chars().count(), 12);
        secs += 1_234_567;
    }
}

#[test]
fn leap_years_follow_the_gregorian_rule() {
    assert!(is_leap_year(2000));
    assert!(is_leap_year(2024));
    assert!(is_leap_year(1972));
    assert!(!is_leap_year(1900));
    assert!(!is_leap_year(2100));
    assert!(!is_leap_year(2023));
    assert!(!is_leap_year(1970));
}

#[test]
fn month_names() {
    let names = ["Jan", "Feb", "Mar", "Apr", "May", "Jun", "Jul", "Aug", "Sep", "Oct", "Nov", "Dec"];
    for (month, name) in names.iter().enumerate() {
        assert_eq!(month_to_str(month as i32), *name);
    }
    assert_eq!(month_to_str(12), "");
    assert_eq!(month_to_str(-1), "");
}
