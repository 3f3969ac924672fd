use snp_crawler::date::{parse_iso_date, Date};

#[test]
fn from_ymd_accepts_real_days_only() {
    assert!(Date::from_ymd(2024, 4, 17).is_some());
    assert!(Date::from_ymd(2024, 2, 29).is_some());
    assert!(Date::from_ymd(2023, 2, 29).is_none());
    assert!(Date::from_ymd(2024, 13, 1).is_none());
    assert!(Date::from_ymd(2024, 4, 31).is_none());
    assert!(Date::from_ymd(0, 1, 1).is_none());
}

#[test]
fn weekday_of_known_dates() {
    // 2024-04-17 is a Wednesday; day 1 (0001-01-01) is a Monday.
    let wed = Date::from_ymd(2024, 4, 17).unwrap();
    assert_eq!(wed.day_number() % 7, 3);
    assert!(!wed.is_weekend());
    // 2024-04-13 is a Saturday, 2024-04-14 a Sunday.
    assert!(Date::from_ymd(2024, 4, 13).unwrap().is_weekend());
    assert!(Date::from_ymd(2024, 4, 14).unwrap().is_weekend());
    assert!(!Date::from_ymd(2024, 4, 15).unwrap().is_weekend());
}

#[test]
fn day_number_of_the_first_day_is_one() {
    assert_eq!(Date::from_ymd(1, 1, 1).unwrap().day_number(), 1);
    // 2023 years of 365 days, 490 leap days, 91 days of 2024, day 17
    assert_eq!(Date::from_ymd(2024, 4, 17).unwrap().day_number(), 738_993);
}

#[test]
fn day_numbers_are_consecutive() {
    let feb28 = Date::from_ymd(2024, 2, 28).unwrap();
    let feb29 = Date::from_ymd(2024, 2, 29).unwrap();
    let mar1 = Date::from_ymd(2024, 3, 1).unwrap();
    assert_eq!(feb28.day_number() + 1, feb29.day_number());
    assert_eq!(feb29.day_number() + 1, mar1.day_number());

    let dec31 = Date::from_ymd(2023, 12, 31).unwrap();
    let jan1 = Date::from_ymd(2024, 1, 1).unwrap();
    assert_eq!(dec31.day_number() + 1, jan1.day_number());

    assert_eq!(mar1.prev_day(), feb29);
    assert_eq!(jan1.prev_day(), dec31);
}

#[test]
fn parse_iso_date_round_trips() {
    assert_eq!(
        parse_iso_date("2024-03-18"),
        Some(Date { year: 2024, month: 3, day: 18 })
    );
    assert_eq!(
        parse_iso_date("0001-01-01"),
        Some(Date { year: 1, month: 1, day: 1 })
    );
    assert_eq!(parse_iso_date("2023-02-29"), None);
    assert_eq!(parse_iso_date("2024-3-18"), None);
    assert_eq!(parse_iso_date("2024/03/18"), None);
    assert_eq!(parse_iso_date("2024-03-18 "), None);
    assert_eq!(parse_iso_date(""), None);
    assert_eq!(parse_iso_date("0000-01-01"), None);
}
