use calr::{month_from_lower, parse_int, parse_month, parse_year, Args, CalError, CalendarDate, Config};

#[test]
fn test_parse_int() {
    // a positive integer
    let res = parse_int("1");
    assert!(res.is_ok());
    assert_eq!(res.unwrap(), 1i64);

    // a negative integer
    let res = parse_int("-1");
    assert!(res.is_ok());
    assert_eq!(res.unwrap(), -1i64);

    // text that is no number fails
    let res = parse_int("foo");
    assert!(res.is_err());
    assert_eq!(res.unwrap_err().to_string(), "Invalid integer \"foo\"");
}

#[test]
fn test_parse_year() {
    let res = parse_year("1");
    assert!(res.is_ok());
    assert_eq!(res.unwrap(), 1i32);

    let res = parse_year("9999");
    assert!(res.is_ok());
    assert_eq!(res.unwrap(), 9999i32);

    let res = parse_year("0");
    assert!(res.is_err());
    assert_eq!(
        res.unwrap_err().to_string(),
        "year \"0\" not in the range 1 through 9999"
    );

    let res = parse_year("10000");
    assert!(res.is_err());
    assert_eq!(
        res.unwrap_err().to_string(),
        "year \"10000\" not in the range 1 through 9999"
    );

    let res = parse_year("foo");
    assert!(res.is_err());
}

#[test]
fn test_parse_month() {
    let res = parse_month("1");
    assert!(res.is_ok());
    assert_eq!(res.unwrap(), 1u32);

    let res = parse_month("12");
    assert!(res.is_ok());
    assert_eq!(res.unwrap(), 12u32);

    let res = parse_month("jan");
    assert!(res.is_ok());
    assert_eq!(res.unwrap(), 1u32);

    let res = parse_month("0");
    assert!(res.is_err());
    assert_eq!(
        res.unwrap_err().to_string(),
        "month \"0\" not in the range 1 through 12"
    );

    let res = parse_month("13");
    assert!(res.is_err());
    assert_eq!(
        res.unwrap_err().to_string(),
        "month \"13\" not in the range 1 through 12"
    );

    let res = parse_month("foo");
    assert!(res.is_err());
    assert_eq!(res.unwrap_err().to_string(), "Invalid month \"foo\"");
}

#[test]
fn parse_int_signs_and_limits() {
    assert_eq!(parse_int("+42").unwrap(), 42);
    assert_eq!(parse_int("-9223372036854775808").unwrap(), i64::MIN);
    assert_eq!(parse_int("9223372036854775807").unwrap(), i64::MAX);
    assert!(matches!(parse_int("9223372036854775808"), Err(CalError::InvalidInteger(_))));
    assert!(matches!(parse_int(""), Err(CalError::InvalidInteger(_))));
    assert!(matches!(parse_int("-"), Err(CalError::InvalidInteger(_))));
    assert!(matches!(parse_int(" 1"), Err(CalError::InvalidInteger(_))));
    assert!(matches!(parse_int("1x"), Err(CalError::InvalidInteger(_))));
}

#[test]
fn parse_year_error_kinds() {
    assert_eq!(parse_year("2024").unwrap(), 2024);
    assert_eq!(parse_year("+7").unwrap(), 7);
    match parse_year("foo") {
        Err(e) => {
            assert!(matches!(e, CalError::InvalidInteger(_)));
            assert_eq!(e.to_string(), "Invalid integer \"foo\"");
        }
        Ok(_) => panic!("\"foo\" is no year"),
    }
    // beyond i32: not an integer of the year's type
    assert!(matches!(parse_year("3000000000"), Err(CalError::InvalidInteger(_))));
    assert!(matches!(parse_year("-5"), Err(CalError::YearOutOfRange(_))));
}

#[test]
fn parse_month_names() {
    assert_eq!(parse_month("December").unwrap(), 12);
    assert_eq!(parse_month("dec").unwrap(), 12);
    assert_eq!(parse_month("JAN").unwrap(), 1);
    assert_eq!(parse_month("ma").unwrap(), 3);
    assert_eq!(parse_month("m").unwrap(), 3);
    assert_eq!(parse_month("ju").unwrap(), 6);
    assert_eq!(parse_month("jul").unwrap(), 7);
    assert_eq!(parse_month("Sept").unwrap(), 9);
    assert_eq!(parse_month("+5").unwrap(), 5);
    assert!(matches!(parse_month("13"), Err(CalError::MonthOutOfRange(_))));
    assert!(matches!(parse_month("januaryx"), Err(CalError::InvalidMonth(_))));
    // a minus sign makes no month number
    match parse_month("-1") {
        Err(e) => assert_eq!(e.to_string(), "Invalid month \"-1\""),
        Ok(_) => panic!("\"-1\" is no month"),
    }
}

#[test]
fn month_from_lower_prefixes() {
    assert_eq!(month_from_lower("a"), Some(4));
    assert_eq!(month_from_lower("au"), Some(8));
    assert_eq!(month_from_lower("november"), Some(11));
    assert_eq!(month_from_lower("octobers"), None);
    assert_eq!(month_from_lower("Jan"), None);
}

#[test]
fn config_defaults_from_today() {
    let today = CalendarDate::from_ymd(2021, 4, 7).unwrap();

    let c = Config::new(Args { month: None, show_current_year: false, year: None }, today);
    assert_eq!(c.month, Some(4));
    assert_eq!(c.year, 2021);
    assert_eq!(c.today, today);

    let c = Config::new(Args { month: None, show_current_year: true, year: None }, today);
    assert_eq!(c.month, None);
    assert_eq!(c.year, 2021);

    let c = Config::new(Args { month: Some(2), show_current_year: false, year: None }, today);
    assert_eq!(c.month, Some(2));
    assert_eq!(c.year, 2021);

    let c = Config::new(Args { month: None, show_current_year: false, year: Some(1999) }, today);
    assert_eq!(c.month, None);
    assert_eq!(c.year, 1999);

    let c = Config::new(Args { month: Some(9), show_current_year: false, year: Some(1752) }, today);
    assert_eq!(c.month, Some(9));
    assert_eq!(c.year, 1752);
}
