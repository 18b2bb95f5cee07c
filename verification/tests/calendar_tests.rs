use holding::calendar::traits::{ConvertDate, ConvertTime, DayCycle, WeekCycle, YearCycle};
use holding::calendar::{Calendar, CalendarError, Day, Month, ParseDateTimeError, Week, WeekDay, Year};
use holding::datetime::traits::{ModifyDateTime, ShowDate, ShowTime};
use holding::datetime::{
    DateTime, InvalidDateError, InvalidTimeError, InvalidWaitError, Time, TimeFormat, WaitTarget,
};
use holding::expression::{chars_of, Expression, Keyword, Step, Unit};

fn check_date(string: &str, year: i64, month: u32, day: u32) {
    let cal = Calendar::default();
    let date = cal.parse(string, None).unwrap();
    assert_eq!(date.year(), year);
    assert_eq!(date.month(), month);
    assert_eq!(date.day(), day);
    assert_eq!(date.hour(), 0);
}

#[test]
fn parses_a_date() {
    check_date("10-09-12", 10, 9, 12);
    check_date("1-1-1", 1, 1, 1);
    check_date("0001-10-12", 1, 10, 12);
}

#[test]
fn parses_a_date_regardless_of_reference() {
    let cal = Calendar::default();
    let reference = DateTime::from_seconds(123_456_789, &cal);
    let date = cal.parse("10-09-12", Some(reference)).unwrap();
    assert_eq!(date.year(), 10);
    assert_eq!(date.month(), 9);
    assert_eq!(date.day(), 12);
    assert_eq!(date.hour(), 0);
    assert_eq!(date.minute(), 0);
    assert_eq!(date.second(), 0);
}

#[test]
fn days_to_months() {
    let cal = Calendar::default();
    assert_eq!(cal.days_to_months(10), (0, 10));
    assert_eq!(cal.days_to_months(40), (1, 9));
    assert_eq!(cal.days_to_months(273), (9, 0));
    assert_eq!(cal.days_to_months(304), (10, 0));
    assert_eq!(cal.days_to_months(370), (12, 5));
}

fn check_relative(
    string: &str,
    year: i64,
    month: u32,
    month_day: u32,
    hour: u32,
    minute: u32,
    second: u32,
) {
    let cal = Calendar::default();
    let date = cal.parse(string, Some(DateTime::from_seconds(0, &cal))).unwrap();
    assert_eq!(date.year(), year, "{}", string);
    assert_eq!(date.month(), month, "{}", string);
    assert_eq!(date.day(), month_day, "{}", string);
    assert_eq!(date.hour(), hour, "{}", string);
    assert_eq!(date.minute(), minute, "{}", string);
    assert_eq!(date.second(), second, "{}", string);
}

#[test]
fn parses_a_relative() {
    check_relative("5y", 6, 1, 1, 0, 0, 0);
    check_relative("1mo", 1, 2, 1, 0, 0, 0);
    check_relative("2mo", 1, 3, 1, 0, 0, 0);
    check_relative("3mo", 1, 4, 1, 0, 0, 0);
    check_relative("6mo", 1, 7, 1, 0, 0, 0);
    check_relative("9mo", 1, 10, 1, 0, 0, 0);
    check_relative("11mo", 1, 12, 1, 0, 0, 0);
    check_relative("12mo", 2, 1, 1, 0, 0, 0);
    check_relative("14mo", 2, 3, 1, 0, 0, 0);
    check_relative("2w", 1, 1, 15, 0, 0, 0);
    check_relative("8h", 1, 1, 1, 8, 0, 0);
    check_relative("20m", 1, 1, 1, 0, 20, 0);
    check_relative("20s", 1, 1, 1, 0, 0, 20);
    check_relative("2y4mo2h5m20s", 3, 5, 1, 2, 5, 20);
}

#[test]
fn relative_steps_apply_in_sequence() {
    let cal = Calendar::default();
    let start = DateTime::from_date(1, 1, 31, &cal).unwrap();
    // One month from the 31st of the first month is the 31 days of that
    // month later, the 3rd of the third month; one more month from there is
    // the 31 days of the third month later.
    let date = cal.parse("1mo", Some(start)).unwrap();
    assert_eq!((date.year(), date.month(), date.day()), (1, 3, 3));
    let date = cal.parse("1mo1mo", Some(start)).unwrap();
    assert_eq!((date.year(), date.month(), date.day()), (1, 4, 3));
    // Two months at once are the 31 and the 28 days of the first two.
    let date = cal.parse("2mo", Some(start)).unwrap();
    assert_eq!((date.year(), date.month(), date.day()), (1, 3, 31));
    let date = cal.parse("1y1mo", Some(start)).unwrap();
    assert_eq!((date.year(), date.month(), date.day()), (2, 3, 3));
}

#[test]
fn parses_date_graceful_fail() {
    let cal = Calendar::default();
    assert_eq!(cal.parse("10-09-wrong", None), Err(ParseDateTimeError::InvalidFormat));
    assert_eq!(cal.parse("1-ouch-100", None), Err(ParseDateTimeError::InvalidFormat));
    assert_eq!(
        cal.parse("1-1-100", None),
        Err(ParseDateTimeError::InvalidDate(InvalidDateError::DayOutOfBounds(100)))
    );
    assert_eq!(
        cal.parse("1-20-01", None),
        Err(ParseDateTimeError::InvalidDate(InvalidDateError::MonthOutOfBounds(20)))
    );
    assert_eq!(cal.parse("garbage", None), Err(ParseDateTimeError::InvalidFormat));
    assert_eq!(
        cal.parse("garbage", Some(DateTime::from_seconds(0, &cal))),
        Err(ParseDateTimeError::InvalidFormat)
    );
}

#[test]
fn parse_rejects_what_is_not_the_whole_phrase() {
    let cal = Calendar::default();
    let start = Some(DateTime::from_seconds(0, &cal));
    for text in [
        "", " 5y", "5y ", "5", "y", "5x", "5y3", "1-1", "1-1-", "-1-1", "1--1", "1-1-1-1", "am",
        "5 am", "5amm", "long  rest", "Long rest", "5mo3o", "٥y", "5ý",
    ] {
        assert_eq!(cal.parse(text, start), Err(ParseDateTimeError::InvalidFormat), "{:?}", text);
    }
}

#[test]
fn parse_reads_numbers_of_any_size() {
    let cal = Calendar::default();
    let start = Some(DateTime::from_seconds(0, &cal));
    let month =
        |n: u32| Err(ParseDateTimeError::InvalidDate(InvalidDateError::MonthOutOfBounds(n)));
    let day = |n: u32| Err(ParseDateTimeError::InvalidDate(InvalidDateError::DayOutOfBounds(n)));
    let hour = |n: u32| Err(ParseDateTimeError::InvalidTime(InvalidTimeError::HourOutOfBounds(n)));
    let year = Err(ParseDateTimeError::InvalidDate(InvalidDateError::YearOutOfBounds));
    let huge = "340282366920938463463374607431768211456";

    // Absolute dates, with and without a reference.
    for reference in [None, start] {
        assert!(cal.parse("9223372036854775807-1-1", reference).is_ok());
        assert_eq!(cal.parse("9223372036854775808-1-1", reference), year);
        assert_eq!(cal.parse(&format!("{}-1-1", huge), reference), year);
        assert_eq!(cal.parse("1-4294967295-1", reference), month(4294967295));
        assert_eq!(cal.parse("1-4294967296-1", reference), month(u32::MAX));
        assert_eq!(cal.parse("1-99999999999-1", reference), month(u32::MAX));
        assert_eq!(cal.parse(&format!("1-{}-1", huge), reference), month(u32::MAX));
        assert_eq!(cal.parse("1-1-4294967296", reference), day(u32::MAX));
        assert_eq!(cal.parse(&format!("1-1-{}", huge), reference), day(u32::MAX));
        // The month is looked at before the day, and both before the year.
        assert_eq!(cal.parse("1-0-4294967296", reference), month(0));
        assert_eq!(cal.parse("1-4294967296-0", reference), day(0));
        assert_eq!(cal.parse("1-13-4294967296", reference), month(13));
        assert_eq!(cal.parse(&format!("{}-13-1", huge), reference), month(13));
        assert_eq!(cal.parse(&format!("{}-1-32", huge), reference), day(32));
    }

    // Without a reference every other phrase lacks it, whatever its numbers.
    let none = Err(ParseDateTimeError::NoRelativeReferencePoint);
    assert_eq!(cal.parse("9999999999s", None), none);
    assert_eq!(cal.parse("4294967296s", None), none);
    assert_eq!(cal.parse(&format!("1d{}mo2h", huge), None), none);
    assert_eq!(cal.parse("4294967296am", None), none);
    assert_eq!(cal.parse(&format!("{}pm", huge), None), none);

    // With a reference the amounts and hours that do not fit are errors.
    assert!(cal.parse("4294967295s", start).is_ok());
    assert_eq!(cal.parse("4294967296s", start), Err(ParseDateTimeError::InvalidDuration));
    assert_eq!(cal.parse("9999999999s", start), Err(ParseDateTimeError::InvalidDuration));
    assert_eq!(
        cal.parse(&format!("1d{}mo2h", huge), start),
        Err(ParseDateTimeError::InvalidDuration)
    );
    assert_eq!(cal.parse("4294967296am", start), hour(u32::MAX));
    assert_eq!(cal.parse("4294967296pm", start), hour(u32::MAX));
    assert_eq!(cal.parse(&format!("{}am", huge), start), hour(u32::MAX));
    assert_eq!(cal.parse("4294967295am", start), hour(u32::MAX));
    assert_eq!(cal.parse("30am", start), hour(30));

    // The first step that cannot be taken decides.
    let last = Some(DateTime::from_date(i64::MAX, 1, 1, &cal).unwrap());
    assert_eq!(cal.parse("1y4294967296s", last), year);
    assert_eq!(cal.parse("4294967296s1y", last), Err(ParseDateTimeError::InvalidDuration));
}

#[test]
fn expressions_hold_their_numbers_in_64_bits() {
    assert_eq!(
        Expression::parse("18446744073709551615-18446744073709551614-7"),
        Some(Expression::AbsoluteDate {
            year: u64::MAX,
            month: u64::MAX - 1,
            day: 7
        })
    );
    assert_eq!(
        Expression::parse("18446744073709551616-99999999999999999999-007"),
        Some(Expression::AbsoluteDate { year: u64::MAX, month: u64::MAX, day: 7 })
    );
    assert_eq!(
        Expression::parse("4294967296s18446744073709551616mo"),
        Some(Expression::Relative(vec![
            Step { amount: 4294967296, unit: Unit::Second },
            Step { amount: u64::MAX, unit: Unit::Month },
        ]))
    );
    assert_eq!(
        Expression::parse("99999999999999999999pm"),
        Some(Expression::ClockTime { hour: u64::MAX, format: TimeFormat::PM })
    );
    let cal = Calendar::default();
    let start = Some(DateTime::from_seconds(0, &cal));
    let date = Expression::AbsoluteDate { year: u64::MAX, month: 1, day: 1 };
    assert_eq!(
        cal.evaluate(&date, start),
        Err(ParseDateTimeError::InvalidDate(InvalidDateError::YearOutOfBounds))
    );
    let steps = Expression::Relative(vec![Step { amount: u64::MAX, unit: Unit::Day }]);
    assert_eq!(cal.evaluate(&steps, start), Err(ParseDateTimeError::InvalidDuration));
    assert_eq!(cal.evaluate(&steps, None), Err(ParseDateTimeError::NoRelativeReferencePoint));
}

#[test]
fn parse_needs_a_reference_for_relative_phrases() {
    let cal = Calendar::default();
    for text in ["long rest", "short rest", "midday", "midnight", "5y", "1y2mo3d", "8am", "99pm"] {
        assert_eq!(
            cal.parse(text, None),
            Err(ParseDateTimeError::NoRelativeReferencePoint),
            "{}",
            text
        );
    }
}

#[test]
fn parse_reports_years_out_of_range() {
    let cal = Calendar::default();
    let start = DateTime::from_date(i64::MAX, 12, 31, &cal).unwrap();
    assert_eq!(
        cal.parse("1d", Some(start)),
        Err(ParseDateTimeError::InvalidDate(InvalidDateError::YearOutOfBounds))
    );
    assert_eq!(
        cal.parse("1y", Some(start)),
        Err(ParseDateTimeError::InvalidDate(InvalidDateError::YearOutOfBounds))
    );
    assert_eq!(
        cal.parse("24h", Some(start)),
        Err(ParseDateTimeError::InvalidDate(InvalidDateError::YearOutOfBounds))
    );
    assert_eq!(
        cal.parse("midnight", Some(start)),
        Err(ParseDateTimeError::InvalidWait(InvalidWaitError::InvalidDate(
            InvalidDateError::YearOutOfBounds
        )))
    );
    let date = cal.parse("23h59m59s", Some(start)).unwrap();
    assert_eq!((date.year(), date.month(), date.day()), (i64::MAX, 12, 31));
    assert_eq!((date.hour(), date.minute(), date.second()), (23, 59, 59));
}

fn check_relative_time(string: &str, hour: u32) {
    let cal = Calendar::default();
    let date = cal.parse(string, Some(DateTime::from_seconds(0, &cal))).unwrap();
    assert_eq!(date.hour(), hour);
}

#[test]
fn parses_a_relative_time() {
    check_relative_time("short rest", 4);
    check_relative_time("long rest", 8);
    check_relative_time("midday", 12);
    check_relative_time("midnight", 0);
}

#[test]
fn parses_clock_times() {
    let cal = Calendar::default();
    let start = DateTime::from_seconds(0, &cal).add_hours(9);
    let date = cal.parse("8am", Some(start)).unwrap();
    assert_eq!((date.day(), date.hour(), date.minute()), (2, 8, 0));
    let date = cal.parse("8pm", Some(start)).unwrap();
    assert_eq!((date.day(), date.hour(), date.minute()), (1, 20, 0));
    let date = cal.parse("9am", Some(start)).unwrap();
    assert_eq!((date.day(), date.hour(), date.minute()), (2, 9, 0));
    assert_eq!(
        cal.parse("12pm", Some(start)),
        Err(ParseDateTimeError::InvalidTime(InvalidTimeError::HourOutOfBounds(24)))
    );
    assert_eq!(
        cal.parse("24am", Some(start)),
        Err(ParseDateTimeError::InvalidTime(InvalidTimeError::HourOutOfBounds(24)))
    );
    assert_eq!(
        cal.parse("4294967295pm", Some(start)),
        Err(ParseDateTimeError::InvalidTime(InvalidTimeError::HourOutOfBounds(u32::MAX)))
    );
}

fn check_sets_time_forward(start_time: u32, target_time: u32) {
    let cal = Calendar::default();
    let date = DateTime::from_seconds(0, &cal).add_hours(start_time);
    let t = WaitTarget::Time(Time::from_hms(target_time, 0, 0, &cal, TimeFormat::AM).unwrap());
    let date = date.wait_until(t).unwrap();
    assert_eq!(date.hour(), target_time);
}

#[test]
fn sets_time_forward() {
    check_sets_time_forward(4, 8);
    check_sets_time_forward(1, 14);
    check_sets_time_forward(13, 2);
}

#[test]
fn months_to_seconds() {
    let cal = Calendar::default();
    assert_eq!(cal.months_to_seconds(0), 0);
    assert_eq!(cal.months_to_seconds(1), 86400 * 31);
    assert_eq!(cal.months_to_seconds(2), 86400 * (31 + 28));
    assert_eq!(cal.months_to_seconds(12), 86400 * 365);
    assert_eq!(cal.months_to_seconds(40), 86400 * 365);
}

#[test]
fn cycle_lengths_of_the_default_calendar() {
    let cal = Calendar::default();
    assert_eq!(cal.days_in_year(), 365);
    assert_eq!(cal.months_in_year(), 12);
    assert_eq!(cal.days_in_week(), 7);
    assert_eq!(cal.hours_in_day(), 24);
    assert_eq!(cal.minutes_in_hour(), 60);
    assert_eq!(cal.seconds_in_minute(), 60);
    assert_eq!(cal.seconds_in_hour(), 3600);
    assert_eq!(cal.minutes_in_day(), 1440);
    assert_eq!(cal.seconds_in_day(), 86400);
    assert_eq!(cal.days_to_seconds(2), 172800);
    assert_eq!(cal.hours_to_seconds(2), 7200);
    assert_eq!(cal.minutes_to_seconds(2), 120);
    assert_eq!(cal.years_to_seconds(1), 31_536_000);
    assert_eq!(cal.weeks_to_seconds(2), 1_209_600);
    assert_eq!(cal.months()[1].name, "February");
    assert_eq!(cal.months()[1].days, 28);
    assert_eq!(cal.week_days()[6].name, "Sunday");
}

fn year_of(lengths: &[u32]) -> Year {
    Year::new(lengths.iter().map(|days| Month::new("month", *days)).collect())
}

fn week_of(length: usize) -> Week {
    Week::new((0..length).map(|_| WeekDay::new("day")).collect())
}

#[test]
fn calendar_construction_is_checked() {
    assert!(Calendar::new(year_of(&[10, 20]), week_of(3), Day::new(10, 10, 10)).is_ok());
    assert_eq!(
        Calendar::new(year_of(&[]), week_of(3), Day::new(10, 10, 10)),
        Err(CalendarError::NoMonths)
    );
    assert_eq!(
        Calendar::new(year_of(&[10, 0, 0]), week_of(3), Day::new(10, 10, 10)),
        Err(CalendarError::EmptyMonth(1))
    );
    assert_eq!(
        Calendar::new(year_of(&[u32::MAX, 1]), week_of(3), Day::new(10, 10, 10)),
        Err(CalendarError::TooManyDays)
    );
    assert!(Calendar::new(year_of(&[u32::MAX - 1, 1]), week_of(3), Day::new(10, 10, 10)).is_ok());
    assert_eq!(
        Calendar::new(year_of(&[10, 20]), week_of(0), Day::new(10, 10, 10)),
        Err(CalendarError::NoWeekDays)
    );
    assert_eq!(
        Calendar::new(year_of(&[10, 20]), week_of(3), Day::new(0, 10, 10)),
        Err(CalendarError::InvalidDay)
    );
    assert_eq!(
        Calendar::new(year_of(&[10, 20]), week_of(3), Day::new(10, 0, 10)),
        Err(CalendarError::InvalidDay)
    );
    assert_eq!(
        Calendar::new(year_of(&[10, 20]), week_of(3), Day::new(10, 10, 0)),
        Err(CalendarError::InvalidDay)
    );
    assert_eq!(
        Calendar::new(year_of(&[10, 20]), week_of(3), Day::new(65536, 65536, 1)),
        Err(CalendarError::InvalidDay)
    );
    assert!(Calendar::new(year_of(&[10, 20]), week_of(3), Day::new(65535, 65537, 1)).is_ok());
    // The month is looked at before the week, the week before the day.
    assert_eq!(
        Calendar::new(year_of(&[]), week_of(0), Day::new(0, 0, 0)),
        Err(CalendarError::NoMonths)
    );
    assert_eq!(
        Calendar::new(year_of(&[1]), week_of(0), Day::new(0, 0, 0)),
        Err(CalendarError::NoWeekDays)
    );
}

#[test]
fn day_validity() {
    assert!(Day::default().is_valid());
    assert!(Day::new(1, 1, 1).is_valid());
    assert!(!Day::new(0, 1, 1).is_valid());
    assert!(Day::new(u32::MAX, 1, 1).is_valid());
    assert!(!Day::new(u32::MAX, 2, 1).is_valid());
    assert!(!Day::new(65536, 65536, 65536).is_valid());
}

#[test]
fn parts_of_a_calendar() {
    let year = Year::default();
    let names: Vec<&str> = year.iter().map(|m| m.name.as_str()).collect();
    assert_eq!(names.len(), 12);
    assert_eq!((names[0], names[11]), ("January", "December"));
    assert_eq!(year.as_slice().len(), 12);
    assert_eq!(year.len(), 12);
    assert_eq!(year.days_in_year(), 365);
    assert_eq!(year.months_in_year(), 12);
    assert_eq!(year.clone(), year);
    let week = Week::default();
    let names: Vec<&str> = week.iter().map(|d| d.name.as_str()).collect();
    assert_eq!(names, vec!["Monday", "Tuesday", "Wednesday", "Thursday", "Friday", "Saturday", "Sunday"]);
    assert_eq!(week.as_slice().len(), 7);
    assert_eq!(week.len(), 7);
    assert_eq!(week.days_in_week(), 7);
    assert_eq!(week.clone(), week);
    let day = Day::default();
    assert_eq!((day.seconds_in_minute(), day.minutes_in_hour(), day.hours_in_day()), (60, 60, 24));
    assert_eq!((day.seconds_in_hour(), day.minutes_in_day(), day.seconds_in_day()), (3600, 1440, 86400));
    assert_eq!(day, Day::new(60, 60, 24));
    let cal = Calendar::default();
    assert_eq!(cal.clone(), cal);
    assert_eq!(Calendar::new(year, week, day).unwrap(), cal);
    assert_eq!(Month::new("x", 3).clone(), Month::new("x", 3));
    assert_eq!(WeekDay::new("x").clone(), WeekDay::new("x"));
}

#[test]
fn expressions_are_read() {
    use_expression("10-09-12", Some(Expression::AbsoluteDate { year: 10, month: 9, day: 12 }));
    use_expression("long rest", Some(Expression::Keyword(Keyword::LongRest)));
    use_expression("short rest", Some(Expression::Keyword(Keyword::ShortRest)));
    use_expression("midday", Some(Expression::Keyword(Keyword::Midday)));
    use_expression("midnight", Some(Expression::Keyword(Keyword::Midnight)));
    use_expression(
        "1y2mo3w4d5h6m7s",
        Some(Expression::Relative(vec![
            Step { amount: 1, unit: Unit::Year },
            Step { amount: 2, unit: Unit::Month },
            Step { amount: 3, unit: Unit::Week },
            Step { amount: 4, unit: Unit::Day },
            Step { amount: 5, unit: Unit::Hour },
            Step { amount: 6, unit: Unit::Minute },
            Step { amount: 7, unit: Unit::Second },
        ])),
    );
    use_expression(
        "007m08mo",
        Some(Expression::Relative(vec![
            Step { amount: 7, unit: Unit::Minute },
            Step { amount: 8, unit: Unit::Month },
        ])),
    );
    use_expression("8am", Some(Expression::ClockTime { hour: 8, format: TimeFormat::AM }));
    use_expression("12pm", Some(Expression::ClockTime { hour: 12, format: TimeFormat::PM }));
    use_expression("8 am", None);
    use_expression("8m o", None);
    use_expression("1y 2mo", None);
    use_expression("", None);
    assert_eq!(chars_of("a-é"), vec!['a', '-', 'é']);
}

fn use_expression(text: &str, expected: Option<Expression>) {
    assert_eq!(Expression::parse(text), expected, "{:?}", text);
}

#[test]
fn expressions_are_evaluated() {
    let cal = Calendar::default();
    let start = DateTime::from_seconds(3600, &cal);
    let steps = Expression::Relative(vec![
        Step { amount: 1, unit: Unit::Day },
        Step { amount: 30, unit: Unit::Minute },
    ]);
    let date = cal.evaluate(&steps, Some(start)).unwrap();
    assert_eq!((date.day(), date.hour(), date.minute()), (2, 1, 30));
    assert_eq!(cal.evaluate(&steps, None), Err(ParseDateTimeError::NoRelativeReferencePoint));
    let none = Expression::Relative(vec![]);
    assert_eq!(cal.evaluate(&none, Some(start)).unwrap().to_raw(), start.to_raw());
    let date = Expression::AbsoluteDate { year: 3, month: 2, day: 1 };
    assert_eq!(cal.evaluate(&date, None).unwrap().to_string(), "0003-02-01T00:00:00Z");
    let clock = Expression::ClockTime { hour: 1, format: TimeFormat::Exact };
    assert_eq!(cal.evaluate(&clock, Some(start)).unwrap().to_string(), "0001-01-02T01:00:00Z");
}
