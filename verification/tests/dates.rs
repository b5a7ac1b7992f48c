use fred_wrapper::Date;

#[test]
fn valid_dates_exist() {
    let d = Date::from_ymd_opt(2020, 2, 29).unwrap();
    assert_eq!((d.year(), d.month(), d.day()), (2020, 2, 29));
    assert!(Date::from_ymd_opt(2000, 2, 29).is_some());
    assert!(Date::from_ymd_opt(2023, 12, 31).is_some());
}

#[test]
fn invalid_dates_do_not_exist() {
    assert!(Date::from_ymd_opt(2021, 2, 29).is_none());
    assert!(Date::from_ymd_opt(1900, 2, 29).is_none());
    assert!(Date::from_ymd_opt(2021, 4, 31).is_none());
    assert!(Date::from_ymd_opt(2021, 13, 1).is_none());
    assert!(Date::from_ymd_opt(2021, 0, 1).is_none());
    assert!(Date::from_ymd_opt(2021, 1, 0).is_none());
    assert!(Date::from_ymd_opt(262143, 1, 1).is_none());
    assert!(Date::from_ymd_opt(-262144, 1, 1).is_none());
    assert!(Date::from_ymd_opt(262142, 12, 31).is_some());
    assert!(Date::from_ymd_opt(-262143, 1, 1).is_some());
}

#[test]
fn iso_text() {
    let f = |y, m, d| Date::from_ymd_opt(y, m, d).unwrap().format_iso();
    assert_eq!(f(2020, 1, 1), "2020-01-01");
    assert_eq!(f(1776, 7, 4), "1776-07-04");
    assert_eq!(f(5, 11, 30), "0005-11-30");
    assert_eq!(f(0, 1, 1), "0000-01-01");
    assert_eq!(f(-5, 1, 1), "-0005-01-01");
    assert_eq!(f(-12345, 1, 1), "-12345-01-01");
    assert_eq!(f(10000, 1, 1), "+10000-01-01");
    assert_eq!(f(9999, 12, 31), "9999-12-31");
}
