use calr::{
    first_weekday, format_month, format_year, is_leap_year, last_day_in_month, render, CalendarDate,
    Config,
};

fn date(y: i32, m: u32, d: u32) -> CalendarDate {
    CalendarDate::from_ymd(y, m, d).unwrap()
}

#[test]
fn test_format_month() {
    let today = date(0, 1, 1);
    let leap_february = vec![
        "   February 2020      ",
        "Su Mo Tu We Th Fr Sa  ",
        "                   1  ",
        " 2  3  4  5  6  7  8  ",
        " 9 10 11 12 13 14 15  ",
        "16 17 18 19 20 21 22  ",
        "23 24 25 26 27 28 29  ",
        "                      ",
    ];
    assert_eq!(format_month(2020, 2, true, today), leap_february);

    let may = vec![
        "        May           ",
        "Su Mo Tu We Th Fr Sa  ",
        "                1  2  ",
        " 3  4  5  6  7  8  9  ",
        "10 11 12 13 14 15 16  ",
        "17 18 19 20 21 22 23  ",
        "24 25 26 27 28 29 30  ",
        "31                    ",
    ];
    assert_eq!(format_month(2020, 5, false, today), may);

    let april_hl = vec![
        "     April 2021       ",
        "Su Mo Tu We Th Fr Sa  ",
        "             1  2  3  ",
        " 4  5  6 \u{1b}[7m 7\u{1b}[0m  8  9 10  ",
        "11 12 13 14 15 16 17  ",
        "18 19 20 21 22 23 24  ",
        "25 26 27 28 29 30     ",
        "                      ",
    ];
    let today = date(2021, 4, 7);
    assert_eq!(format_month(2021, 4, true, today), april_hl);
}

#[test]
fn test_last_day_in_month() {
    assert_eq!(last_day_in_month(2020, 1), date(2020, 1, 31));
    assert_eq!(last_day_in_month(2020, 2), date(2020, 2, 29));
    assert_eq!(last_day_in_month(2020, 4), date(2020, 4, 30));
}

#[test]
fn last_day_century_rules() {
    assert_eq!(last_day_in_month(1900, 2).day, 28);
    assert_eq!(last_day_in_month(2000, 2).day, 29);
    assert_eq!(last_day_in_month(2021, 2).day, 28);
    assert_eq!(last_day_in_month(9999, 12).day, 31);
    assert_eq!(last_day_in_month(1, 6).day, 30);
    for y in 1..=9999 {
        for m in 1..=12u32 {
            let d = last_day_in_month(y, m).day;
            assert!((28..=31).contains(&d));
        }
    }
}

#[test]
fn leap_years() {
    assert!(is_leap_year(2020));
    assert!(is_leap_year(2000));
    assert!(is_leap_year(0));
    assert!(!is_leap_year(1900));
    assert!(!is_leap_year(2021));
    assert!(is_leap_year(-4));
    assert!(!is_leap_year(-100));
}

#[test]
fn weekday_of_first_days() {
    assert_eq!(first_weekday(1, 1), 1);
    assert_eq!(first_weekday(2020, 2), 6);
    assert_eq!(first_weekday(2020, 5), 5);
    assert_eq!(first_weekday(2021, 4), 4);
    assert_eq!(first_weekday(2000, 1), 6);
    assert_eq!(first_weekday(9999, 12), 3);
}

#[test]
fn dates_are_checked() {
    assert!(CalendarDate::from_ymd(2021, 2, 29).is_none());
    assert!(CalendarDate::from_ymd(2020, 2, 29).is_some());
    assert!(CalendarDate::from_ymd(2020, 13, 1).is_none());
    assert!(CalendarDate::from_ymd(2020, 4, 0).is_none());
    assert_eq!(date(2020, 4, 30).day, 30);
}

#[test]
fn rows_are_eight_and_twenty_two_wide() {
    let today = date(1999, 1, 1);
    for y in [1, 1752, 2020, 2021, 9999] {
        for m in 1..=12u32 {
            for print_year in [true, false] {
                let rows = format_month(y, m, print_year, today);
                assert_eq!(rows.len(), 8);
                for r in &rows {
                    assert_eq!(r.chars().count(), 22);
                    assert!(!r.contains('\u{1b}'));
                }
            }
        }
    }
}

#[test]
fn format_month_is_repeatable() {
    let today = date(2021, 4, 7);
    assert_eq!(format_month(2021, 4, true, today), format_month(2021, 4, true, today));
    assert_eq!(format_month(1, 1, false, today), format_month(1, 1, false, today));
}

#[test]
fn highlight_only_in_todays_month() {
    let today = date(2024, 12, 31);
    let rows = format_month(2024, 12, true, today);
    assert_eq!(rows[6], "29 30 \u{1b}[7m31\u{1b}[0m              ");
    assert_eq!(rows.iter().filter(|r| r.contains('\u{1b}')).count(), 1);
    // same month of another year, same year in another month
    assert!(format_month(2023, 12, true, today).iter().all(|r| !r.contains('\u{1b}')));
    assert!(format_month(2024, 11, true, today).iter().all(|r| !r.contains('\u{1b}')));
}

#[test]
fn january_2020() {
    let rows = format_month(2020, 1, false, date(0, 1, 1));
    assert_eq!(
        rows,
        vec![
            "      January         ",
            "Su Mo Tu We Th Fr Sa  ",
            "          1  2  3  4  ",
            " 5  6  7  8  9 10 11  ",
            "12 13 14 15 16 17 18  ",
            "19 20 21 22 23 24 25  ",
            "26 27 28 29 30 31     ",
            "                      ",
        ]
    );
}

#[test]
fn year_view() {
    let rows = format_year(2020, date(0, 1, 1));
    assert_eq!(rows.len(), 36);
    assert_eq!(rows[0], "                            2020");
    assert_eq!(rows[1], "      January               February               March          ");
    assert_eq!(rows[2], "Su Mo Tu We Th Fr Sa  Su Mo Tu We Th Fr Sa  Su Mo Tu We Th Fr Sa  ");
    assert_eq!(rows[3], "          1  2  3  4                     1   1  2  3  4  5  6  7  ");
    assert_eq!(rows[7], "26 27 28 29 30 31     23 24 25 26 27 28 29  29 30 31              ");
    assert_eq!(rows[9], "");
    assert_eq!(rows[18], "");
    assert_eq!(rows[27], "");
    assert_eq!(rows[19], "        July                 August              September        ");
    assert_eq!(rows[35], " ".repeat(66));
}

#[test]
fn render_month_or_year() {
    let today = date(2021, 4, 7);
    let one = render(&Config { month: Some(4), year: 2021, today });
    assert_eq!(one, format_month(2021, 4, true, today));
    let all = render(&Config { month: None, year: 2021, today });
    assert_eq!(all, format_year(2021, today));
    assert_eq!(all.iter().filter(|r| r.contains('\u{1b}')).count(), 1);
}
