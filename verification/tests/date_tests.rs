use speedy::date::{Date, DATE_FMT};

#[test]
fn date_format_is_year_month_day() {
    assert_eq!(DATE_FMT, "%Y-%m-%d");
}

#[test]
fn parse_reads_year_month_day() {
    let d = Date::parse("2023-06-15").unwrap();
    assert_eq!((d.year(), d.month(), d.day()), (2023, 6, 15));
    let d = Date::parse("0000-01-01").unwrap();
    assert_eq!((d.year(), d.month(), d.day()), (0, 1, 1));
    let d = Date::parse("9999-12-31").unwrap();
    assert_eq!((d.year(), d.month(), d.day()), (9999, 12, 31));
}

#[test]
fn parse_refuses_other_shapes() {
    for text in ["", "2023-6-15", "2023-06-5", "23-06-15", "2023/06/15", "2023-06-15 ",
        " 2023-06-15", "2023-06-15T00:00:00", "+2023-06-15", "2023-0६-15", "abcd-ef-gh",
        "20230615", "2023-06-1a"]
    {
        assert_eq!(Date::parse(text), None);
    }
}

#[test]
fn parse_refuses_days_that_the_calendar_lacks() {
    for text in ["2023-00-10", "2023-13-01", "2023-01-00", "2023-01-32", "2023-04-31",
        "2023-02-29", "1900-02-29", "2100-02-29"]
    {
        assert_eq!(Date::parse(text), None);
    }
    for text in ["2024-02-29", "2000-02-29", "0000-02-29", "2023-12-31", "2023-04-30"] {
        assert!(Date::parse(text).is_some());
    }
}

#[test]
fn new_agrees_with_parse() {
    assert_eq!(Date::new(2023, 6, 15), Date::parse("2023-06-15"));
    assert_eq!(Date::new(2023, 2, 29), None);
    assert_eq!(Date::new(10000, 1, 1), None);
    assert_eq!(Date::new(2023, 0, 1), None);
    assert_eq!(Date::new(2023, 1, 0), None);
}

#[test]
fn first_is_the_first_day_of_year_one() {
    assert_eq!(Some(Date::first()), Date::new(1, 1, 1));
}

#[test]
fn to_text_pads_with_zeros() {
    assert_eq!(Date::new(2023, 6, 5).unwrap().to_text(), "2023-06-05");
    assert_eq!(Date::new(5, 1, 1).unwrap().to_text(), "0005-01-01");
    assert_eq!(Date::new(0, 12, 31).unwrap().to_text(), "0000-12-31");
    assert_eq!(Date::new(9999, 12, 31).unwrap().to_text(), "9999-12-31");
}

#[test]
fn to_rfc3339_is_midnight_in_utc() {
    assert_eq!(Date::new(2023, 6, 15).unwrap().to_rfc3339(), "2023-06-15T00:00:00+00:00");
    assert_eq!(Date::new(7, 1, 2).unwrap().to_rfc3339(), "0007-01-02T00:00:00+00:00");
}

#[test]
fn text_that_is_written_reads_back() {
    for (y, m, d) in [(2023u16, 6u8, 15u8), (1, 1, 1), (1999, 12, 31), (2024, 2, 29), (0, 3, 9)] {
        let date = Date::new(y, m, d).unwrap();
        assert_eq!(Date::parse(&date.to_text()), Some(date));
    }
}

#[test]
fn ordinal_spells_the_digits() {
    assert_eq!(Date::new(2023, 6, 15).unwrap().ordinal(), 20230615);
    assert_eq!(Date::new(1, 1, 1).unwrap().ordinal(), 10101);
}

#[test]
fn is_after_orders_days() {
    let a = Date::new(2023, 6, 15).unwrap();
    let b = Date::new(2023, 3, 1).unwrap();
    let c = Date::new(2022, 12, 31).unwrap();
    assert!(a.is_after(&b));
    assert!(b.is_after(&c));
    assert!(a.is_after(&c));
    assert!(!b.is_after(&a));
    assert!(!a.is_after(&a));
}
