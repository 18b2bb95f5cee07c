use holding::calendar::traits::{DayCycle, YearCycle};
use holding::calendar::{Calendar, Day, Era, Eras, Month, ParseDateTimeError, Week, WeekDay, Year};
use holding::datetime::traits::{ModifyDate, ModifyDateTime, ModifyTime, ShowDate, ShowTime};
use holding::datetime::{
    Date, DateTime, InvalidDateError, InvalidDateTimeError, InvalidTimeError, InvalidWaitError,
    RawDate, RawDateTime, RawTime, Time, TimeFormat, TimeOfDay, WaitTarget,
};
use holding::expression::Unit;

#[test]
pub fn test_from_date() {
    let cal = Calendar::default();
    let x = DateTime::from_date(1011, 02, 22, &cal).unwrap();
    assert_eq!(x.era().unwrap().name(), "Common Era".to_string());
    assert_eq!(x.year(), 1011);
}

fn raw(year: i64, month: u32, day: u32) -> RawDate {
    RawDate::new(year, month, day).unwrap()
}

#[test]
fn era_boundary() {
    let eras = Eras::new(vec![
        Era::new("BCE".to_string(), None, Some(-1)),
        Era::new("CE".to_string(), Some(0), None),
    ]);
    assert_eq!(eras.era_of(-1).unwrap().name(), "BCE");
    assert_eq!(eras.year_in_era(-1), Some(-1));
    assert_eq!(eras.era_of(0).unwrap().name(), "CE");
    assert_eq!(eras.year_in_era(0), Some(1));
    assert_eq!(eras.resolve(-1), Some(0));
    assert_eq!(eras.resolve(0), Some(1));
    assert_eq!(eras.year_in_era(1010), Some(1011));
}

#[test]
fn first_matching_era_wins() {
    let eras = Eras::new(vec![
        Era::new("closed".to_string(), Some(10), Some(20)),
        Era::new("late".to_string(), Some(15), None),
        Era::new("early".to_string(), None, Some(12)),
    ]);
    assert_eq!(eras.resolve(9), Some(2));
    assert_eq!(eras.resolve(10), Some(0));
    assert_eq!(eras.resolve(12), Some(0));
    assert_eq!(eras.resolve(17), Some(0));
    assert_eq!(eras.resolve(20), Some(0));
    assert_eq!(eras.resolve(21), Some(1));
    assert_eq!(eras.year_in_era(10), Some(1));
    assert_eq!(eras.year_in_era(17), Some(8));
    assert_eq!(eras.year_in_era(21), Some(7));
    assert_eq!(eras.year_in_era(9), Some(9));
    let gap = Eras::new(vec![
        Era::new("a".to_string(), None, Some(5)),
        Era::new("b".to_string(), Some(8), None),
    ]);
    assert_eq!(gap.resolve(6), None);
    assert!(gap.era_of(7).is_none());
    assert_eq!(gap.year_in_era(7), None);
    let eternal = Eras::new(vec![Era::new("always".to_string(), None, None)]);
    assert_eq!(eternal.resolve(i64::MIN), Some(0));
    assert_eq!(eternal.year_in_era(i64::MAX), Some(i64::MAX));
    let far = Eras::new(vec![Era::new("far".to_string(), Some(i64::MIN), None)]);
    assert_eq!(far.year_in_era(i64::MIN), Some(1));
    assert_eq!(far.year_in_era(0), None);
    assert!(Eras::new(vec![]).era_of(0).is_none());
}

#[test]
fn eras_of_moments() {
    let cal = Calendar::default();
    let first = DateTime::from_seconds(0, &cal);
    assert_eq!(first.era().unwrap().name(), "Common Era");
    assert_eq!(first.era_year(), Some(1));
    let before = DateTime::from_seconds(-1, &cal);
    assert_eq!(before.year(), 0);
    assert_eq!(before.era().unwrap().name(), "Before Common Era");
    assert_eq!(before.era_year(), Some(-1));
    let era = Era::new("x".to_string(), Some(3), Some(4));
    assert_eq!(era.name(), "x");
    assert_eq!(era.start_year(), Some(3));
    assert_eq!(era.end_year(), Some(4));
    assert!(era.includes(3) && era.includes(4) && !era.includes(2) && !era.includes(5));
    assert_eq!(cal.eras().len(), 2);
}

fn check_add_day(add: u32, year: i64, month: u32, day: u32) {
    let cal = Calendar::default();
    let date = Date::from_seconds(0, &cal).add_days(add);
    assert_eq!(date.date, Date::from_ymd(year, month, day, &cal).unwrap().date);
}

#[test]
fn add_day() {
    check_add_day(0, 1, 1, 1);
    check_add_day(1, 1, 1, 2);
    check_add_day(5, 1, 1, 6);
    check_add_day(50, 1, 2, 20);
    check_add_day(400, 2, 2, 5);
    check_add_day(364, 1, 12, 31);
    check_add_day(365, 2, 1, 1);
}

#[test]
fn days() {
    let cal = Calendar::default();
    for days in [0u32, 1, 30, 31, 58, 59, 364, 365, 366, 729, 730, 9999] {
        let date = Date::from_seconds(i64::from(days) * 86400, &cal);
        assert_eq!(date.days(), days % cal.days_in_year());
        let moment = DateTime::from_seconds(i64::from(days) * 86400, &cal);
        assert_eq!(moment.days(), days % cal.days_in_year());
    }
}

fn check_add_month(add: u32, year: i64, month: u32, day: u32) {
    let cal = Calendar::default();
    let date = Date::from_seconds(0, &cal).add_months(add);
    assert_eq!(date.date, Date::from_ymd(year, month, day, &cal).unwrap().date);
}

#[test]
fn add_month() {
    check_add_month(0, 1, 1, 1);
    check_add_month(1, 1, 2, 1);
    check_add_month(5, 1, 6, 1);
    check_add_month(14, 2, 3, 1);
    check_add_month(12, 2, 1, 1);
    check_add_month(1200, 101, 1, 1);
}

#[test]
fn add_month_keeps_the_day_of_the_month() {
    let cal = Calendar::default();
    let date = Date::from_ymd(1, 11, 15, &cal).unwrap().add_months(3);
    assert_eq!(date.date, raw(2, 2, 15));
    let date = Date::from_ymd(1, 1, 30, &cal).unwrap().add_months(2);
    assert_eq!(date.date, raw(1, 3, 30));
    // The 31st does not exist in the second month: the date runs on.
    let date = Date::from_ymd(1, 1, 31, &cal).unwrap().add_months(1);
    assert_eq!(date.date, raw(1, 3, 3));
}

fn check_add_year(add: u32, year: i64, month: u32, day: u32) {
    let cal = Calendar::default();
    let date = Date::from_seconds(0, &cal).add_years(add);
    assert_eq!(date.date, Date::from_ymd(year, month, day, &cal).unwrap().date);
}

#[test]
fn add_year() {
    check_add_year(1, 2, 1, 1);
    check_add_year(5, 6, 1, 1);
    check_add_year(120, 121, 1, 1);
}

#[test]
fn add_week() {
    let cal = Calendar::default();
    let date = Date::from_seconds(0, &cal).add_weeks(2);
    assert_eq!(date.date, raw(1, 1, 15));
    let date = Date::from_seconds(0, &cal).add_weeks(53);
    assert_eq!(date.date, raw(2, 1, 7));
}

fn check_from_seconds(seconds: i64, year: i64, month: u32, day: u32) {
    let cal = Calendar::default();
    let date = Date::from_seconds(seconds, &cal);
    assert_eq!(date.date, Date::from_ymd(year, month, day, &cal).unwrap().date);
}

#[test]
fn from_seconds() {
    check_from_seconds(86400, 1, 1, 2);
    check_from_seconds(0, 1, 1, 1);
    check_from_seconds(86399, 1, 1, 1);
    check_from_seconds(-1, 0, 12, 31);
    check_from_seconds(-86400, 0, 12, 31);
    check_from_seconds(-86401, 0, 12, 30);
    check_from_seconds(-86400 * 365, 0, 1, 1);
    check_from_seconds(-86400 * 365 - 1, -1, 12, 31);
}

fn check_datetime_from_seconds(
    seconds: i64,
    year: i64,
    month: u32,
    day: u32,
    hour: u32,
    minute: u32,
    second: u32,
) {
    let cal = Calendar::default();
    let datetime = DateTime::from_seconds(seconds, &cal);
    assert_eq!(datetime.date.date, RawDate::new(year, month, day).unwrap());
    assert_eq!(datetime.time.time, RawTime { hour, minute, second });
    assert_eq!(datetime.to_seconds(), Some(seconds));
}

#[test]
fn datetime_from_seconds() {
    check_datetime_from_seconds(0, 1, 1, 1, 0, 0, 0);
    check_datetime_from_seconds(3600, 1, 1, 1, 1, 0, 0);
    check_datetime_from_seconds(60, 1, 1, 1, 0, 1, 0);
    check_datetime_from_seconds(86400, 1, 1, 2, 0, 0, 0);
    check_datetime_from_seconds(-1, 0, 12, 31, 23, 59, 59);
    check_datetime_from_seconds(-86400, 0, 12, 31, 0, 0, 0);
    check_datetime_from_seconds(i64::MAX, 292471208678, 7, 15, 15, 30, 7);
    check_datetime_from_seconds(i64::MIN, -292471208677, 6, 19, 8, 29, 52);
}

#[test]
fn extracts_times() {
    let cal = Calendar::default();
    for (hours, minutes, seconds) in [(0u32, 0u32, 0u32), (1, 2, 3), (23, 59, 59), (12, 0, 30)] {
        let total = hours * cal.seconds_in_hour() + minutes * cal.seconds_in_minute() + seconds;
        let date = DateTime::from_seconds(total.into(), &cal);
        assert_eq!(date.hour(), hours);
        assert_eq!(date.minute(), minutes);
        assert_eq!(date.second(), seconds);
        assert_eq!(date.seconds(), total);
    }
}

fn check_week_day_name(day: i64, day_name: &str, week_day: u32) {
    let cal = Calendar::default();
    let date = DateTime::from_seconds(day * 86400, &cal);
    assert_eq!(date.week_day(), week_day);
    assert_eq!(date.week_day_name(), day_name);
}

#[test]
fn week_day_name() {
    check_week_day_name(0, "Monday", 1);
    check_week_day_name(1, "Tuesday", 2);
    check_week_day_name(2, "Wednesday", 3);
    check_week_day_name(7, "Monday", 1);
    check_week_day_name(365, "Tuesday", 2);
    check_week_day_name(-1, "Sunday", 7);
    check_week_day_name(-7, "Monday", 1);
    check_week_day_name(-8, "Sunday", 7);
}

#[test]
fn week_day_is_periodic() {
    let cal = Calendar::default();
    for day in [-800i64, -1, 0, 1, 363, 364, 365, 100_000] {
        let date = DateTime::from_seconds(day * 86400 + 17, &cal);
        let later = date.add_days(7);
        assert_eq!(later.week_day(), date.week_day());
        assert_eq!(later.week_day_name(), date.week_day_name());
    }
}

#[test]
fn week_of_a_date() {
    let cal = Calendar::default();
    // Year 1, 2 days into the year: (1 * 365 + 2) % 7.
    assert_eq!(Date::from_ymd(1, 1, 3, &cal).unwrap().week(), 3);
    // The year counts without its sign.
    assert_eq!(Date::from_ymd(-1, 1, 3, &cal).unwrap().week(), 3);
    assert_eq!(Date::from_ymd(0, 1, 1, &cal).unwrap().week(), 0);
    assert_eq!(DateTime::from_date(2, 2, 1, &cal).unwrap().week(), (2 * 365 + 31) % 7);
}

fn check_extracts_month_days(seconds: i64, month: u32, day: u32, month_name: &str) {
    let cal = Calendar::default();
    let date = DateTime::from_seconds(seconds, &cal);
    assert_eq!(date.month_name(), month_name);
    assert_eq!(date.month(), month);
    assert_eq!(date.day(), day);
    assert_eq!(date.hour(), 0);
    assert_eq!(date.minute(), 0);
    assert_eq!(date.second(), 0);
}

#[test]
fn extracts_month_days() {
    check_extracts_month_days(86400 * 1, 1, 2, "January");
    check_extracts_month_days(86400 * 40, 2, 10, "February");
    check_extracts_month_days(86400 * 95, 4, 6, "April");
}

#[test]
fn add_hour() {
    let cal = Calendar::default();
    let (time, days) = Time::from_seconds(0, &cal).add_hours(1);
    assert_eq!(time.time, Time::from_hms(1, 0, 0, &cal, TimeFormat::Exact).unwrap().time);
    assert_eq!(0, days);
    let (time, days) = Time::from_seconds(0, &cal).add_hours(24);
    assert_eq!(time.time, Time::from_seconds(0, &cal).time);
    assert_eq!(days, 1);
    let (time, days) = Time::from_seconds(86399, &cal).add_seconds(u32::MAX);
    assert_eq!(time.time, RawTime { hour: 6, minute: 28, second: 14 });
    assert_eq!(days, 49711);
    let (time, days) = Time::from_seconds(3600, &cal).add_minutes(1500);
    assert_eq!(time.time, RawTime { hour: 2, minute: 0, second: 0 });
    assert_eq!(days, 1);
    let (time, days) = Time::from_seconds(3600, &cal).add_span(3, 50000);
    assert_eq!(time.time, RawTime { hour: 18, minute: 40, second: 0 });
    assert_eq!(days, 1);
}

#[test]
fn datetime_time_arithmetic_carries_days() {
    let cal = Calendar::default();
    let x = DateTime::from_date(2020, 9, 9, &cal).unwrap();
    let x = ModifyDateTime::add_hours(&x, 13);
    let x = ModifyDateTime::add_hours(&x, 15);
    assert_eq!(x.hour(), 4);
    assert_eq!(x.day(), 10);
    let (y, days) = ModifyTime::add_hours(&x, 21);
    assert_eq!((y.day(), y.hour(), days), (10, 1, 1));
    let (y, days) = ModifyTime::add_minutes(&x, 60 * 20);
    assert_eq!((y.day(), y.hour(), days), (10, 0, 1));
    let (y, days) = ModifyTime::add_seconds(&x, 59);
    assert_eq!((y.day(), y.hour(), y.second(), days), (10, 4, 59, 0));
    let z = ModifyDateTime::add_seconds(&x, 86400 * 22);
    assert_eq!((z.month(), z.day(), z.hour()), (10, 2, 4));
    let z = ModifyDateTime::add_minutes(&x, 60 * 24 * 365);
    assert_eq!((z.year(), z.month(), z.day(), z.hour()), (2021, 9, 10, 4));
}

#[test]
fn adding_is_monotonic() {
    let cal = Calendar::default();
    for seconds in [-1000i64, -1, 0, 86399, 31_535_999, 5_000_000_000] {
        let start = DateTime::from_seconds(seconds, &cal);
        for amount in [1u32, 2, 59, 60, 86400, 1_000_000] {
            for unit in [
                Unit::Year,
                Unit::Month,
                Unit::Week,
                Unit::Day,
                Unit::Hour,
                Unit::Minute,
                Unit::Second,
            ] {
                let later = start.advance(amount, unit).unwrap();
                assert!(start.is_before(&later));
                assert!(!later.is_before(&start));
                assert!(later.to_seconds().unwrap() > seconds);
            }
            assert_eq!(
                start.add_days(amount).to_seconds(),
                Some(seconds + i64::from(amount) * 86400)
            );
            assert_eq!(
                ModifyDateTime::add_seconds(&start, amount).to_seconds(),
                Some(seconds + i64::from(amount))
            );
        }
    }
}

#[test]
fn advance_by_each_unit() {
    let cal = Calendar::default();
    let start = DateTime::from_seconds(0, &cal);
    assert_eq!(start.advance(2, Unit::Year).unwrap().to_seconds(), Some(2 * 365 * 86400));
    assert_eq!(start.advance(2, Unit::Month).unwrap().to_seconds(), Some(59 * 86400));
    assert_eq!(start.advance(2, Unit::Week).unwrap().to_seconds(), Some(14 * 86400));
    assert_eq!(start.advance(2, Unit::Day).unwrap().to_seconds(), Some(2 * 86400));
    assert_eq!(start.advance(2, Unit::Hour).unwrap().to_seconds(), Some(7200));
    assert_eq!(start.advance(2, Unit::Minute).unwrap().to_seconds(), Some(120));
    assert_eq!(start.advance(2, Unit::Second).unwrap().to_seconds(), Some(2));
    assert_eq!(start.advance(0, Unit::Month).unwrap().to_seconds(), Some(0));
    let last = DateTime::from_date(i64::MAX, 12, 31, &cal).unwrap();
    assert!(last.advance(1, Unit::Day).is_none());
    assert!(last.advance(1, Unit::Month).is_none());
    assert!(last.advance(86399, Unit::Second).is_some());
    assert!(last.advance(86400, Unit::Second).is_none());
    assert_eq!(last.to_seconds(), None);
    assert!(last.date.shift(0, 0).is_some());
    assert!(last.date.shift(1, 0).is_none());
    assert!(last.date.shift_months(0).is_some());
    assert!(last.shift_seconds(u64::MAX).is_none());
    assert_eq!(start.shift_seconds(86400 * 400 + 5).unwrap().to_seconds(), Some(86400 * 400 + 5));
    assert_eq!(
        start.date.shift(3, 400).unwrap().date,
        raw(5, 2, 5)
    );
}

#[test]
fn months_of_a_year_are_a_year() {
    let cal = Calendar::default();
    for (month, day) in [(1u32, 1u32), (1, 31), (2, 28), (6, 15), (12, 31)] {
        let start = DateTime::from_date(7, month, day, &cal).unwrap();
        let by_months = start.add_months(12);
        let by_years = start.add_years(1);
        assert_eq!(by_months.to_raw(), by_years.to_raw());
        assert_eq!(by_years.date.date, raw(8, month, day));
    }
}

#[test]
fn round_trip() {
    let cal = Calendar::default();
    for year in [-400i64, -1, 0, 1, 2, 2024] {
        for month in 1..=12u32 {
            for day in [1u32, 2, 15, 28] {
                let composed = DateTime::from_date(year, month, day, &cal).unwrap();
                let seconds = composed.to_seconds().unwrap();
                let decomposed = DateTime::from_seconds(seconds, &cal);
                assert_eq!(decomposed.year(), year);
                assert_eq!(decomposed.month(), month);
                assert_eq!(decomposed.day(), day);
                assert_eq!(decomposed.to_raw(), composed.to_raw());
            }
        }
    }
}

#[test]
fn round_trip_in_an_odd_calendar() {
    let year = Year::new(vec![Month::new("a", 1), Month::new("b", 100), Month::new("c", 7)]);
    let week = Week::new(vec![WeekDay::new("x"), WeekDay::new("y"), WeekDay::new("z")]);
    let cal = Calendar::new(year, week, Day::new(7, 11, 13)).unwrap();
    assert_eq!(cal.seconds_in_day(), 1001);
    assert_eq!(cal.days_in_year(), 108);
    for seconds in -250_000i64..250_000 {
        let moment = DateTime::from_seconds(seconds, &cal);
        assert_eq!(moment.to_seconds(), Some(seconds));
        assert!(moment.hour() < 13 && moment.minute() < 11 && moment.second() < 7);
        assert_eq!(
            i64::from(moment.seconds()),
            seconds.rem_euclid(1001)
        );
        assert_eq!(
            i64::from(moment.week_day()),
            seconds.div_euclid(1001).rem_euclid(3) + 1
        );
        assert_eq!(moment.year(), seconds.div_euclid(1001 * 108) + 1);
        assert_eq!(i64::from(moment.seconds_modulo(977)), seconds.rem_euclid(977));
        let again = DateTime::from_date(moment.year(), moment.month(), moment.day(), &cal).unwrap();
        assert_eq!(again.date.date, moment.date.date);
    }
}

#[test]
fn seconds_modulo() {
    let cal = Calendar::default();
    let moment = DateTime::from_seconds(86400 * 400 + 61, &cal);
    assert_eq!(moment.seconds_modulo(86400), 61);
    assert_eq!(moment.seconds_modulo(86400 * 365), 86400 * 35 + 61);
    assert_eq!(moment.seconds_modulo(1), 0);
    assert_eq!(DateTime::from_seconds(-1, &cal).seconds_modulo(10), 9);
    let far = DateTime::from_date(i64::MAX, 1, 1, &cal).unwrap();
    // (i64::MAX - 1) * 365 * 86400 modulo 1000.
    let expected = ((i128::from(i64::MAX) - 1) * 365 * 86400).rem_euclid(1000);
    assert_eq!(i128::from(far.seconds_modulo(1000)), expected);
}

#[test]
fn from_ymd_checks_the_calendar() {
    let cal = Calendar::default();
    assert!(Date::from_ymd(1, 2, 28, &cal).is_ok());
    assert_eq!(
        Date::from_ymd(1, 2, 29, &cal).unwrap_err(),
        InvalidDateError::DayOutOfBounds(29)
    );
    assert_eq!(
        Date::from_ymd(1, 13, 1, &cal).unwrap_err(),
        InvalidDateError::MonthOutOfBounds(13)
    );
    assert_eq!(
        Date::from_ymd(1, 0, 1, &cal).unwrap_err(),
        InvalidDateError::MonthOutOfBounds(0)
    );
    assert_eq!(
        Date::from_ymd(1, 1, 0, &cal).unwrap_err(),
        InvalidDateError::DayOutOfBounds(0)
    );
    // A day of zero is found before a month beyond the year.
    assert_eq!(
        Date::from_ymd(1, 13, 0, &cal).unwrap_err(),
        InvalidDateError::DayOutOfBounds(0)
    );
    assert_eq!(
        Date::from_ymd(1, 0, 0, &cal).unwrap_err(),
        InvalidDateError::MonthOutOfBounds(0)
    );
    assert_eq!(
        DateTime::from_date(1, 13, 1, &cal).unwrap_err(),
        InvalidDateTimeError::InvalidDate(InvalidDateError::MonthOutOfBounds(13))
    );
    assert_eq!(RawDate::new(5, 0, 3), Err(InvalidDateError::MonthOutOfBounds(0)));
    assert_eq!(RawDate::new(5, 3, 0), Err(InvalidDateError::DayOutOfBounds(0)));
    assert_eq!(RawDate::new(5, 3, 4), Ok(RawDate { year: 5, month: 2, day: 3 }));
}

#[test]
fn validation_of_raw_values() {
    let cal = Calendar::default();
    let good = RawDate { year: 3, month: 1, day: 27 }.into_date(&cal);
    assert!(cal.validate_date(&good).is_ok());
    let bad_day = RawDate { year: 3, month: 1, day: 28 }.into_date(&cal);
    assert_eq!(cal.validate_date(&bad_day).unwrap_err(), InvalidDateError::DayOutOfBounds(29));
    let bad_month = RawDate { year: 3, month: 12, day: 0 }.into_date(&cal);
    assert_eq!(cal.validate_date(&bad_month).unwrap_err(), InvalidDateError::MonthOutOfBounds(13));
    let good = RawTime { hour: 23, minute: 59, second: 59 }.into_time(&cal);
    assert!(cal.validate_time(&good).is_ok());
    let bad = RawTime { hour: 24, minute: 60, second: 60 }.into_time(&cal);
    assert_eq!(cal.validate_time(&bad).unwrap_err(), InvalidTimeError::HourOutOfBounds(24));
    let bad = RawTime { hour: 0, minute: 60, second: 60 }.into_time(&cal);
    assert_eq!(cal.validate_time(&bad).unwrap_err(), InvalidTimeError::MinuteOutOfBounds(60));
    let bad = RawTime { hour: 0, minute: 0, second: 60 }.into_time(&cal);
    assert_eq!(cal.validate_time(&bad).unwrap_err(), InvalidTimeError::SecondOutOfBounds(60));
    let moment = RawDateTime {
        date: RawDate { year: 3, month: 1, day: 27 },
        time: RawTime { hour: 1, minute: 2, second: 3 },
    }
    .into_datetime(&cal);
    assert_eq!((moment.year(), moment.month(), moment.day()), (3, 2, 28));
    assert_eq!((moment.hour(), moment.minute(), moment.second()), (1, 2, 3));
    assert!(std::ptr::eq(moment.calendar(), &cal));
}

#[test]
fn from_hms_applies_the_format() {
    let cal = Calendar::default();
    assert_eq!(
        Time::from_hms(5, 6, 7, &cal, TimeFormat::Exact).unwrap().time,
        RawTime { hour: 5, minute: 6, second: 7 }
    );
    assert_eq!(Time::from_hms(5, 6, 7, &cal, TimeFormat::AM).unwrap().time.hour, 5);
    assert_eq!(Time::from_hms(5, 6, 7, &cal, TimeFormat::PM).unwrap().time.hour, 17);
    assert_eq!(
        Time::from_hms(12, 0, 0, &cal, TimeFormat::PM).unwrap_err(),
        InvalidTimeError::HourOutOfBounds(24)
    );
    assert_eq!(
        Time::from_hms(u32::MAX, 0, 0, &cal, TimeFormat::PM).unwrap_err(),
        InvalidTimeError::HourOutOfBounds(u32::MAX)
    );
    assert_eq!(
        Time::from_hms(24, 60, 60, &cal, TimeFormat::Exact).unwrap_err(),
        InvalidTimeError::HourOutOfBounds(24)
    );
    assert_eq!(
        Time::from_hms(23, 60, 60, &cal, TimeFormat::Exact).unwrap_err(),
        InvalidTimeError::MinuteOutOfBounds(60)
    );
    assert_eq!(
        Time::from_hms(23, 59, 60, &cal, TimeFormat::Exact).unwrap_err(),
        InvalidTimeError::SecondOutOfBounds(60)
    );
    assert_eq!(TimeFormat::default(), TimeFormat::Exact);
    assert_eq!(Time::from_seconds(86400 + 3661, &cal).time, RawTime { hour: 1, minute: 1, second: 1 });
    assert_eq!(Time::from_seconds(0, &cal).time, Time::from_seconds(86400, &cal).time);
}

#[test]
fn wait_until_reaches_its_target() {
    let cal = Calendar::default();
    for start in [0u32, 1, 3599, 3600, 43199, 43200, 43201, 86399] {
        let now = DateTime::from_seconds(i64::from(start) + 86400 * 3, &cal);
        for (hour, minute, second) in [(0u32, 0u32, 0u32), (1, 0, 0), (12, 0, 0), (23, 59, 59)] {
            let goal = Time::from_hms(hour, minute, second, &cal, TimeFormat::Exact).unwrap();
            let then = now.wait_until(WaitTarget::Time(goal)).unwrap();
            assert_eq!(then.time.time, RawTime { hour, minute, second });
            assert!(now.is_before(&then));
            let waited = then.to_seconds().unwrap() - now.to_seconds().unwrap();
            assert!(0 < waited && waited <= 86400);
            let target = hour * 3600 + minute * 60 + second;
            let expected = if target > start { target - start } else { 86400 - start + target };
            assert_eq!(waited, i64::from(expected));
        }
    }
}

#[test]
fn waiting_for_the_present_time_takes_a_day() {
    let cal = Calendar::default();
    let now = DateTime::from_seconds(0, &cal);
    let then = now.wait_until(WaitTarget::Midnight).unwrap();
    assert_eq!(then.to_seconds(), Some(86400));
    let noon = now.wait_until(WaitTarget::Midday).unwrap();
    assert_eq!(noon.to_seconds(), Some(43200));
    assert_eq!(noon.wait_until(WaitTarget::Midday).unwrap().to_seconds(), Some(43200 + 86400));
}

#[test]
fn wait_until_checks_the_target() {
    let cal = Calendar::default();
    let long = Calendar::new(Year::default(), Week::default(), Day::new(60, 60, 30)).unwrap();
    let now = DateTime::from_seconds(0, &cal);
    let late = Time::from_hms(29, 0, 0, &long, TimeFormat::Exact).unwrap();
    assert_eq!(
        now.wait_until(WaitTarget::Time(late)).unwrap_err(),
        InvalidWaitError::InvalidTime(InvalidTimeError::HourOutOfBounds(29))
    );
    assert_eq!(
        now.wait_until_same_day(WaitTarget::Time(late)).unwrap_err(),
        InvalidWaitError::InvalidTime(InvalidTimeError::HourOutOfBounds(29))
    );
    let midday = DateTime::from_seconds(0, &long).wait_until(WaitTarget::Midday).unwrap();
    assert_eq!(midday.hour(), 15);
    let last = DateTime::from_date(i64::MAX, 12, 31, &cal).unwrap();
    assert_eq!(
        last.wait_until(WaitTarget::Midnight).unwrap_err(),
        InvalidWaitError::InvalidDate(InvalidDateError::YearOutOfBounds)
    );
    assert_eq!(last.wait_until(WaitTarget::Midday).unwrap().hour(), 12);
}

#[test]
fn same_day_wait_fails_backwards() {
    let cal = Calendar::default();
    let now = DateTime::from_seconds(3600 * 5, &cal);
    let later = Time::from_hms(6, 0, 0, &cal, TimeFormat::Exact).unwrap();
    let then = now.wait_until_same_day(WaitTarget::Time(later)).unwrap();
    assert_eq!(then.to_seconds(), Some(3600 * 6));
    let same = Time::from_hms(5, 0, 0, &cal, TimeFormat::Exact).unwrap();
    assert_eq!(
        now.wait_until_same_day(WaitTarget::Time(same)).unwrap_err(),
        InvalidWaitError::BackwardsWait(
            RawTime { hour: 5, minute: 0, second: 0 },
            RawTime { hour: 5, minute: 0, second: 0 }
        )
    );
    assert_eq!(
        now.wait_until_same_day(WaitTarget::Midnight).unwrap_err(),
        InvalidWaitError::BackwardsWait(
            RawTime { hour: 0, minute: 0, second: 0 },
            RawTime { hour: 5, minute: 0, second: 0 }
        )
    );
    assert_eq!(now.wait_until_same_day(WaitTarget::Midday).unwrap().hour(), 12);
}

fn check_time_of_day(curr_hour: u32, max_hour: u32, time_of_day: TimeOfDay) {
    assert_eq!(TimeOfDay::from_time(curr_hour, max_hour), Some(time_of_day));
}

#[test]
fn get_time() {
    check_time_of_day(0, 8, TimeOfDay::LateNight);
    check_time_of_day(1, 8, TimeOfDay::Dawn);
    check_time_of_day(2, 8, TimeOfDay::Sunrise);
    check_time_of_day(3, 8, TimeOfDay::Morning);
    check_time_of_day(4, 8, TimeOfDay::Afternoon);
    check_time_of_day(5, 8, TimeOfDay::Sunset);
    check_time_of_day(6, 8, TimeOfDay::Dusk);
    check_time_of_day(7, 8, TimeOfDay::Night);
    check_time_of_day(0, 24, TimeOfDay::LateNight);
    check_time_of_day(2, 24, TimeOfDay::LateNight);
    check_time_of_day(3, 24, TimeOfDay::Dawn);
    check_time_of_day(11, 24, TimeOfDay::Morning);
    check_time_of_day(12, 24, TimeOfDay::Afternoon);
    check_time_of_day(23, 24, TimeOfDay::Night);
    check_time_of_day(2, 3, TimeOfDay::Sunset);
    check_time_of_day(u32::MAX - 1, u32::MAX, TimeOfDay::Night);
    assert_eq!(TimeOfDay::from_time(8, 8), None);
    assert_eq!(TimeOfDay::from_time(24, 24), None);
    assert_eq!(TimeOfDay::from_time(0, 0), None);
    assert_eq!(TimeOfDay::from_time(5, 0), None);
}

#[test]
fn time_of_day_properties() {
    let all = [
        TimeOfDay::LateNight,
        TimeOfDay::Dawn,
        TimeOfDay::Sunrise,
        TimeOfDay::Morning,
        TimeOfDay::Afternoon,
        TimeOfDay::Sunset,
        TimeOfDay::Dusk,
        TimeOfDay::Night,
    ];
    let day = [false, false, true, true, true, true, false, false];
    let words = [
        "late in the night",
        "at dawn",
        "just after sunrise",
        "in the morning",
        "in the afternoon",
        "just before sunset",
        "in the evening",
        "at night",
    ];
    for (index, part) in all.iter().enumerate() {
        assert_eq!(part.index() as usize, index);
        assert_eq!(TimeOfDay::from_index(index as u8), Some(*part));
        assert_eq!(part.is_day(), day[index]);
        assert_eq!(part.to_string(), words[index]);
    }
    assert_eq!(TimeOfDay::from_index(8), None);
    assert_eq!(TimeOfDay::from_index(255), None);
    let cal = Calendar::default();
    assert_eq!(DateTime::from_seconds(3600 * 10, &cal).time_of_day(), TimeOfDay::Morning);
    assert_eq!(Time::from_seconds(3600 * 20, &cal).time_of_day(), TimeOfDay::Dusk);
}

#[test]
fn dates_and_times_as_text() {
    let cal = Calendar::default();
    assert_eq!(raw(2020, 1, 4).to_string(), "2020-01-04");
    assert_eq!(raw(1, 12, 31).to_string(), "0001-12-31");
    assert_eq!(raw(12345, 10, 10).to_string(), "12345-10-10");
    assert_eq!(raw(0, 1, 1).to_string(), "0000-01-01");
    assert_eq!(raw(-5, 1, 1).to_string(), "00-5-01-01");
    assert_eq!(raw(-12345, 1, 1).to_string(), "-12345-01-01");
    assert_eq!(raw(i64::MIN, 1, 1).to_string(), "-9223372036854775808-01-01");
    assert_eq!(RawDate { year: 1, month: u32::MAX, day: u32::MAX }.to_string(), "0001-4294967296-4294967296");
    assert_eq!(RawTime { hour: 1, minute: 2, second: 3 }.to_string(), "01:02:03");
    assert_eq!(RawTime { hour: 23, minute: 59, second: 0 }.to_string(), "23:59:00");
    assert_eq!(RawTime { hour: 100, minute: 0, second: 0 }.to_string(), "100:00:00");
    let moment = DateTime::from_seconds(86400 * 40 + 3661, &cal);
    assert_eq!(moment.to_string(), "0001-02-10T01:01:01Z");
    assert_eq!(moment.to_raw().to_string(), "0001-02-10T01:01:01Z");
    assert_eq!(moment.date.to_string(), "0001-02-10");
    assert_eq!(moment.time.to_string(), "01:01:01");
}

#[test]
fn raw_values_come_out_of_their_calendar() {
    let cal = Calendar::default();
    let moment = DateTime::from_seconds(86400 * 40 + 3661, &cal);
    let raw: RawDateTime = moment.into();
    assert_eq!(raw, moment.to_raw());
    let date: RawDate = moment.date.into();
    assert_eq!(date, RawDate { year: 1, month: 1, day: 9 });
    let time: RawTime = moment.time.into();
    assert_eq!(time, RawTime { hour: 1, minute: 1, second: 1 });
    let error: InvalidDateTimeError = InvalidDateError::DayOutOfBounds(3).into();
    assert_eq!(error, InvalidDateTimeError::InvalidDate(InvalidDateError::DayOutOfBounds(3)));
    let error: InvalidDateTimeError = InvalidTimeError::HourOutOfBounds(3).into();
    assert_eq!(error, InvalidDateTimeError::InvalidTime(InvalidTimeError::HourOutOfBounds(3)));
    let error: InvalidWaitError = InvalidTimeError::HourOutOfBounds(3).into();
    assert_eq!(error, InvalidWaitError::InvalidTime(InvalidTimeError::HourOutOfBounds(3)));
    let error: InvalidWaitError = InvalidDateError::YearOutOfBounds.into();
    assert_eq!(error, InvalidWaitError::InvalidDate(InvalidDateError::YearOutOfBounds));
    let error: ParseDateTimeError = InvalidDateTimeError::InvalidDate(InvalidDateError::MonthOutOfBounds(0)).into();
    assert_eq!(error, ParseDateTimeError::InvalidDate(InvalidDateError::MonthOutOfBounds(0)));
    let error: ParseDateTimeError = InvalidDateTimeError::InvalidTime(InvalidTimeError::SecondOutOfBounds(9)).into();
    assert_eq!(error, ParseDateTimeError::InvalidTime(InvalidTimeError::SecondOutOfBounds(9)));
    let error: ParseDateTimeError = InvalidWaitError::InvalidDate(InvalidDateError::YearOutOfBounds).into();
    assert_eq!(
        error,
        ParseDateTimeError::InvalidWait(InvalidWaitError::InvalidDate(InvalidDateError::YearOutOfBounds))
    );
    let error: ParseDateTimeError = InvalidDateError::YearOutOfBounds.into();
    assert_eq!(error, ParseDateTimeError::InvalidDate(InvalidDateError::YearOutOfBounds));
    let error: ParseDateTimeError = InvalidTimeError::MinuteOutOfBounds(1).into();
    assert_eq!(error, ParseDateTimeError::InvalidTime(InvalidTimeError::MinuteOutOfBounds(1)));
}

#[test]
fn month_and_day_of_a_day_of_the_year() {
    let cal = Calendar::default();
    let date = Date::from_seconds(0, &cal);
    assert_eq!(date.calculate_month_and_day(0), (1, 1));
    assert_eq!(date.calculate_month_and_day(40), (2, 10));
    assert_eq!(date.calculate_month_and_day(364), (12, 31));
    assert_eq!(date.calculate_month_and_day(370), (13, 6));
    assert_eq!(holding::util::div_rem(17, 5), (3, 2));
    assert_eq!(holding::util::div_rem_floor(-17, 5), (-4, 3));
    assert_eq!(holding::util::div_rem_floor(17, 5), (3, 2));
    assert_eq!(holding::util::div_rem_floor(i64::MIN, 1), (i64::MIN, 0));
    assert_eq!(holding::util::rem_floor(-1, 7), 6);
}

#[test]
fn dates_and_times_are_ordered() {
    let cal = Calendar::default();
    let early = DateTime::from_seconds(86400 * 400 + 100, &cal);
    let late = DateTime::from_seconds(86400 * 401 + 50, &cal);
    assert!(early.is_before(&late));
    assert!(!late.is_before(&early));
    assert!(!early.is_before(&early));
    assert!(early.date.is_before(&late.date));
    assert!(!late.date.is_before(&early.date));
    assert!(!early.date.is_before(&early.date));
    assert!(late.time.is_before(&early.time));
    assert!(!early.time.is_before(&late.time));
    assert_eq!(early.date.day_number_wide(), 400);
    assert_eq!(Date::from_seconds(-1, &cal).day_number_wide(), -1);
    let before = Date::from_ymd(-5, 3, 1, &cal).unwrap();
    let after = Date::from_ymd(-5, 3, 2, &cal).unwrap();
    assert!(before.is_before(&after));
    assert!(Date::from_ymd(i64::MIN, 1, 1, &cal).unwrap().is_before(&before));
    assert!(after.is_before(&Date::from_ymd(i64::MAX, 12, 31, &cal).unwrap()));
}
