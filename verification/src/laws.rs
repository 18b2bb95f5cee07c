//! Laws of the time engine: what holds of every calendar and every moment,
//! proved from the model that the contracts of the functions speak of.

use crate::calendar::{Calendar, ParseDateTimeError};
use crate::calendar::parse::after_steps;
use crate::calendar::traits::{DayCycle, WeekCycle, YearCycle};
use crate::cycle::{
    lemma_cyclic_sum_at_least_count, lemma_cyclic_sum_full_pass, lemma_prefix_sum_grows,
    lemma_walk_in_year,
};
use crate::datetime::{
    Date, DateTime, InvalidDateError, InvalidTimeError, RawDate, RawTime, TimeFormat,
};
use crate::datetime::traits::ModifyDate;
use crate::expression::{Phrase, StepView, Unit, date_phrase, phrase_of};
use vstd::prelude::*;

verus! {

/// Round trip of a date: a year, a month and a day that exist in the
/// calendar, put together into a day number and taken apart again, come
/// back unchanged. The month and the day count from one.
pub proof fn law_date_round_trip(calendar: Calendar, year: i64, month: u32, day: u32)
    requires
        calendar.wf(),
        Date::ymd_error(year, month, day, &calendar) is None,
    ensures
        calendar.date_of_day(
            calendar.day_number(
                RawDate { year, month: (month - 1) as u32, day: (day - 1) as u32 },
            ),
        ) == (RawDate { year, month: (month - 1) as u32, day: (day - 1) as u32 }),
{
    calendar.lemma_date_of_day_number(
        RawDate { year, month: (month - 1) as u32, day: (day - 1) as u32 },
    );
}

/// Round trip of a moment: the moment at the instant of a well-formed
/// moment is that moment.
pub proof fn law_moment_round_trip(moment: DateTime)
    requires
        moment.wf(),
    ensures
        DateTime::at(moment.date.calendar, moment.instant()) == moment,
{
    moment.date.calendar.lemma_datetime_of_instant_of(moment.raw());
}

/// Round trip of an instant: the moment at an instant whose year fits in 64
/// bits is well formed and lies at that instant.
pub proof fn law_instant_round_trip(calendar: &Calendar, instant: int)
    requires
        calendar.wf(),
        calendar.instant_is_representable(instant),
    ensures
        DateTime::at(calendar, instant).wf(),
        DateTime::at(calendar, instant).instant() == instant,
{
    calendar.lemma_instant_of_datetime_of(instant);
}

/// Every unit spans at least as many seconds as there are units of it.
pub proof fn law_units_are_not_empty(moment: DateTime, amount: nat, unit: Unit)
    requires
        moment.wf(),
    ensures
        moment.seconds_in(amount, unit) >= amount,
{
    let calendar = moment.date.calendar;
    let lengths = calendar.day_lengths();
    lengths.lemma_bounds();
    let day = calendar.spec_seconds_in_day() as int;
    let year = calendar.spec_days_in_year() as int;
    let week = calendar.week_length() as int;
    crate::cycle::lemma_prefix_sum_grows(
        calendar.month_lengths(),
        0,
        calendar.month_lengths().len() as int,
    );
    match unit {
        Unit::Year => {
            assert(amount * year * day >= amount) by (nonlinear_arith)
                requires
                    year >= 1,
                    day >= 1,
                    amount >= 0,
            ;
        },
        Unit::Month => {
            let months = crate::cycle::cyclic_sum(
                calendar.month_lengths(),
                moment.date.date.month as int,
                amount as int,
            ) as int;
            lemma_cyclic_sum_at_least_count(
                calendar.month_lengths(),
                moment.date.date.month as int,
                amount as int,
            );
            assert(months * day >= amount) by (nonlinear_arith)
                requires
                    months >= amount,
                    day >= 1,
                    amount >= 0,
            ;
        },
        Unit::Week => {
            assert(amount * week * day >= amount) by (nonlinear_arith)
                requires
                    week >= 1,
                    day >= 1,
                    amount >= 0,
            ;
        },
        Unit::Day => {
            assert(amount * day >= amount) by (nonlinear_arith)
                requires
                    day >= 1,
                    amount >= 0,
            ;
        },
        Unit::Hour => {
            assert(amount * lengths.seconds_in_hour() >= amount) by (nonlinear_arith)
                requires
                    lengths.seconds_in_hour() >= 1,
                    amount >= 0,
            ;
        },
        Unit::Minute => {
            assert(amount * lengths.seconds_in_minute >= amount) by (nonlinear_arith)
                requires
                    lengths.seconds_in_minute >= 1,
                    amount >= 0,
            ;
        },
        Unit::Second => {},
    }
}

/// Adding is monotonic: the moment that lies a positive amount of any unit
/// after a moment lies strictly later, and at exactly the instant that the
/// amount spans. The moment that lies an amount of a unit after another is
/// what `advance` gives and what the functions that add years, months,
/// weeks, days, hours, minutes and seconds to a moment give.
pub proof fn law_add_is_monotonic(moment: DateTime, amount: nat, unit: Unit)
    requires
        moment.wf(),
        amount > 0,
        moment.can_advance(amount, unit),
    ensures
        moment.after(amount, unit).wf(),
        moment.after(amount, unit).instant() == moment.instant() + moment.seconds_in(
            amount,
            unit,
        ),
        moment.after(amount, unit).instant() > moment.instant(),
{
    law_units_are_not_empty(moment, amount, unit);
    law_instant_round_trip(
        moment.date.calendar,
        moment.instant() + moment.seconds_in(amount, unit),
    );
}

/// Adding whole days changes the date alone: the moment that lies `days`
/// days after a moment has the date that lies `days` days after its date,
/// and its time.
pub proof fn law_days_leave_the_time(moment: DateTime, days: nat)
    requires
        moment.wf(),
    ensures
        moment.after(days, Unit::Day) == moment.with_date(
            moment.date.calendar.date_of_day(moment.date.day_number() + days),
        ),
{
    moment.date.calendar.lemma_instant_plus_days(moment.raw(), days as int);
}

/// The day of the week is periodic: a week of days later it is the same day
/// of the week.
pub proof fn law_week_day_is_periodic(moment: DateTime)
    requires
        moment.wf(),
        moment.can_advance(moment.date.calendar.week_length(), Unit::Day),
    ensures
        moment.date.calendar.week_day_of_day(
            moment.after(moment.date.calendar.week_length(), Unit::Day).date.day_number(),
        ) == moment.date.calendar.week_day_of_day(moment.date.day_number()),
{
    let calendar = moment.date.calendar;
    let week = calendar.week_length();
    calendar.lemma_instant_plus_days(moment.raw(), week as int);
    calendar.lemma_day_number_of_date(moment.date.day_number() + week);
    vstd::arithmetic::div_mod::lemma_mod_add_multiples_vanish(
        moment.date.day_number(),
        week as int,
    );
}

/// As many months as the year has are a year: adding them leads to the
/// moment that adding one year leads to, which is the moment with the same
/// month, day and time in the year after.
pub proof fn law_months_of_a_year_are_a_year(moment: DateTime)
    requires
        moment.wf(),
        moment.date.date.year < i64::MAX,
    ensures
        moment.after(moment.date.calendar.month_lengths().len(), Unit::Month) == moment.after(
            1,
            Unit::Year,
        ),
        moment.after(1, Unit::Year) == moment.with_date(
            RawDate { year: (moment.date.date.year + 1) as i64, ..moment.date.date },
        ),
{
    let calendar = moment.date.calendar;
    let lengths = calendar.month_lengths();
    let year = calendar.spec_days_in_year() as int;
    let day = calendar.spec_seconds_in_day() as int;
    lemma_cyclic_sum_full_pass(lengths, moment.date.date.month as int);
    assert(1 * year * day == year * day) by (nonlinear_arith);
    let next = RawDate { year: (moment.date.date.year + 1) as i64, ..moment.date.date };
    calendar.lemma_instant_plus_days(moment.raw(), year);
    calendar.lemma_date_of_day_number(next);
    assert(calendar.day_number(next) == calendar.day_number(moment.date.date) + year)
        by (nonlinear_arith)
        requires
            calendar.day_number(next) == (moment.date.date.year + 1 - 1) * year
                + calendar.day_of_year(moment.date.date),
            calendar.day_number(moment.date.date) == (moment.date.date.year - 1) * year
                + calendar.day_of_year(moment.date.date),
    ;
}

/// Waiting reaches its target and never goes back: where a wait succeeds,
/// the moment reached shows the time waited for and lies later than the
/// moment that waited, by a day at most.
pub proof fn law_wait_reaches_its_target(
    moment: DateTime,
    target: crate::datetime::WaitTarget,
)
    requires
        moment.wf(),
        moment.spec_wait_until(target) is Ok,
    ensures
        moment.spec_wait_until(target).unwrap().wf(),
        moment.spec_wait_until(target).unwrap().time.time == target.spec_time(
            moment.date.calendar,
        ),
        moment.instant() < moment.spec_wait_until(target).unwrap().instant()
            <= moment.instant() + moment.date.calendar.spec_seconds_in_day(),
{
    let calendar = moment.date.calendar;
    let goal = target.spec_time(calendar);
    let day = calendar.spec_seconds_in_day() as int;
    calendar.day_lengths().lemma_bounds();
    calendar.lemma_time_of_second_of_day(moment.time.time);
    calendar.lemma_time_of_second_of_day(goal);
    let current = moment.time.second_of_day();
    let wanted = calendar.second_of_day(goal);
    let wait = crate::datetime::datetime::wait_seconds(current, wanted, day);
    calendar.lemma_instant_plus_seconds(moment.raw(), wait);
    calendar.lemma_instant_of_datetime_of(moment.instant() + wait);
    if wanted > current {
        vstd::arithmetic::div_mod::lemma_small_mod(wanted as nat, day as nat);
    } else {
        vstd::arithmetic::div_mod::lemma_fundamental_div_mod_converse(
            day + wanted,
            day,
            1,
            wanted,
        );
    }
}

/// Only an absolute date is a moment without a reference: a text that is
/// any other phrase lacks its reference point, whatever numbers it holds,
/// and is never a moment.
pub proof fn law_phrases_need_a_reference(calendar: &Calendar, text: Seq<char>)
    requires
        date_phrase(text) is None,
        phrase_of(text) is Some,
    ensures
        calendar.spec_evaluate(phrase_of(text).unwrap(), None) == Err::<DateTime, _>(
            ParseDateTimeError::NoRelativeReferencePoint,
        ),
{
}

/// An absolute date means the same with and without a reference, and is a
/// moment exactly where its month and its day exist in the calendar and its
/// year fits in 64 bits: then it is midnight of that date. A month or a day
/// beyond 32 bits does not exist, and is reported as the largest number of
/// 32 bits.
pub proof fn law_dates_are_absolute(
    calendar: &Calendar,
    year: nat,
    month: nat,
    day: nat,
    reference: Option<DateTime>,
)
    requires
        calendar.wf(),
    ensures
        ({
            let date = Phrase::AbsoluteDate { year, month, day };
            let lengths = calendar.month_lengths();
            let exists = 0 < month <= lengths.len() && 0 < day <= lengths[month - 1];
            &&& calendar.spec_evaluate(date, reference) == calendar.spec_evaluate(date, None)
            &&& calendar.spec_evaluate(date, None) is Ok <==> exists && year <= i64::MAX
            &&& calendar.spec_evaluate(date, None) matches Ok(moment) ==> {
                &&& moment.date.date.year == year
                &&& moment.date.date.month == month - 1
                &&& moment.date.date.day == day - 1
                &&& moment.time.time == (RawTime { hour: 0, minute: 0, second: 0 })
                &&& moment.wf()
            }
            &&& exists && year > i64::MAX ==> calendar.spec_evaluate(date, None) == Err::<
                DateTime,
                _,
            >(ParseDateTimeError::InvalidDate(InvalidDateError::YearOutOfBounds))
            &&& month > u32::MAX && day > 0 ==> calendar.spec_evaluate(date, None) == Err::<
                DateTime,
                _,
            >(ParseDateTimeError::InvalidDate(InvalidDateError::MonthOutOfBounds(u32::MAX)))
            &&& 0 < month <= lengths.len() && day > u32::MAX ==> calendar.spec_evaluate(date, None)
                == Err::<DateTime, _>(
                ParseDateTimeError::InvalidDate(InvalidDateError::DayOutOfBounds(u32::MAX)),
            )
        }),
{
    let lengths = calendar.month_lengths();
    calendar.day_lengths().lemma_bounds();
    lemma_prefix_sum_grows(lengths, 0, lengths.len() as int);
    if 0 < month <= lengths.len() {
        lemma_walk_in_year(lengths, month - 1, lengths[month - 1] - 1);
    }
}

/// A clock time whose hour is beyond 32 bits is no time of any calendar:
/// with a reference it is an `InvalidTime`, and the hour is reported as the
/// largest number of 32 bits.
pub proof fn law_hours_beyond_32_bits(
    calendar: &Calendar,
    hour: nat,
    format: TimeFormat,
    reference: DateTime,
)
    requires
        calendar.wf(),
        hour >= u32::MAX,
    ensures
        calendar.spec_evaluate(Phrase::ClockTime { hour, format }, Some(reference)) == Err::<
            DateTime,
            _,
        >(ParseDateTimeError::InvalidTime(InvalidTimeError::HourOutOfBounds(u32::MAX))),
{
    calendar.day_lengths().lemma_bounds();
}

/// A relative duration with an amount beyond 32 bits is never a moment: the
/// first step that cannot be taken is the error, and the step with that
/// amount cannot.
pub proof fn law_amounts_beyond_32_bits(start: DateTime, steps: Seq<StepView>, place: int)
    requires
        0 <= place < steps.len(),
        steps[place].amount > u32::MAX,
    ensures
        after_steps(start, steps) is Err,
        (forall|i: int| 0 <= i < place ==> (#[trigger] steps[i]).amount <= u32::MAX) ==> (
        after_steps(start, steps) == Err::<DateTime, _>(ParseDateTimeError::InvalidDuration)
            || after_steps(start, steps) == Err::<DateTime, _>(
            ParseDateTimeError::InvalidDate(InvalidDateError::YearOutOfBounds),
        )),
    decreases steps.len(),
{
    if place > 0 && steps[0].amount <= u32::MAX && start.can_advance(
        steps[0].amount,
        steps[0].unit,
    ) {
        let rest = steps.drop_first();
        assert(rest[place - 1] == steps[place]);
        assert forall|i: int| 0 <= i < place - 1 implies (#[trigger] rest[i]).amount
            == steps[i + 1].amount by {}
        law_amounts_beyond_32_bits(start.after(steps[0].amount, steps[0].unit), rest, place - 1);
    }
}

} // verus!
