use rustyproject::calendar::{
    add_working_days, is_working_day, next_working_day, working_days_inclusive, Date, MAX_DAY,
    MIN_DAY,
};

fn date(y: i32, m: u32, d: u32) -> Date {
    Date::from_ymd(y, m, d).expect("date")
}

#[test]
fn weekdays_and_working_days() {
    assert_eq!(date(2025, 1, 11).weekday_number(), 6);
    assert_eq!(date(2025, 1, 12).weekday_number(), 7);
    assert_eq!(date(2025, 1, 13).weekday_number(), 1);
    assert!(!is_working_day(date(2025, 1, 11)));
    assert!(is_working_day(date(2025, 1, 10)));
    assert_eq!(next_working_day(date(2025, 1, 11)), date(2025, 1, 13));
    assert_eq!(next_working_day(date(2025, 1, 14)), date(2025, 1, 14));
}

#[test]
fn adding_and_counting_working_days() {
    assert_eq!(add_working_days(date(2025, 1, 10), 1), date(2025, 1, 13));
    assert_eq!(add_working_days(date(2025, 1, 10), 0), date(2025, 1, 10));
    assert_eq!(add_working_days(date(2025, 1, 11), 0), date(2025, 1, 13));
    assert_eq!(add_working_days(date(2025, 1, 8), 5), date(2025, 1, 15));
    assert_eq!(working_days_inclusive(date(2025, 1, 6), date(2025, 1, 12)), 5);
    assert_eq!(working_days_inclusive(date(2025, 1, 12), date(2025, 1, 6)), 0);
    assert_eq!(working_days_inclusive(date(2024, 6, 1), date(2024, 6, 10)), 6);
}

#[test]
fn dates_read_write_and_shift() {
    assert_eq!(Date::from_ymd(2025, 2, 29), None);
    assert_eq!(Date::from_ymd(2024, 2, 29).map(|d| d.month()), Some(2));
    assert_eq!(date(2024, 2, 29).year(), 2024);
    assert_eq!(date(2025, 2, 3).format("%Y/%m/%d"), "2025/02/03");
    assert_eq!(date(2025, 2, 3).format("%Y-%m-%d"), "2025-02-03");
    assert_eq!(date(2025, 2, 3).datetime_text(17, 0, 0), "2025-02-03T17:00:00");
    assert_eq!(Date::parse_ymd("2025-02-03"), Ok(date(2025, 2, 3)));
    assert!(Date::parse_ymd("2025-13-03").is_err());
    assert_eq!(date(2025, 2, 3).add_days(-3), date(2025, 1, 31));
    assert_eq!(date(2025, 2, 28).succ(), date(2025, 3, 1));
    assert_eq!(date(1, 1, 1).days(), 1);
    assert!(Date::from_days(MAX_DAY).is_some());
    assert!(Date::from_days(MAX_DAY + 1).is_none());
    assert!(Date::from_days(MIN_DAY - 1).is_none());
    assert!(date(2025, 1, 1).lt(&date(2025, 1, 2)));
    assert!(date(2025, 1, 1).le(&date(2025, 1, 1)));
    assert_eq!(date(2025, 1, 1).min(date(2024, 1, 1)), date(2024, 1, 1));
    assert_eq!(date(2025, 1, 1).max(date(2024, 1, 1)), date(2025, 1, 1));
}

#[test]
fn day_numbers_count_from_the_first_of_year_one() {
    assert_eq!(Date::from_ymd(1, 1, 1).expect("date").days(), 1);
    assert_eq!(Date::from_ymd(2025, 1, 9).expect("date").days(), 739260);
    assert_eq!(Date::from_ymd(0, 1, 1).expect("date").days(), -365);
    assert!(Date::from_ymd(2024, 12, 31).expect("date").lt(&Date::from_ymd(2025, 1, 1).expect("date")));
}

#[test]
fn years_outside_four_digits_carry_a_sign() {
    assert_eq!(Date::from_ymd(10000, 3, 4).expect("date").format("%Y/%m/%d"), "+10000/03/04");
    assert_eq!(Date::from_ymd(-1, 12, 31).expect("date").format("%Y-%m-%d"), "-0001-12-31");
    assert_eq!(Date::from_ymd(7, 2, 1).expect("date").format("%Y-%m-%d"), "0007-02-01");
    assert_eq!(Date::from_ymd(2025, 1, 9).expect("date").datetime_text(8, 5, 0), "2025-01-09T08:05:00");
}
