//! Reading human times such as `1d8h43m` into moments of a calendar.

use super::calendar::Calendar;
use super::traits::YearCycle;
use crate::cycle::{lemma_prefix_sum_grows, lemma_walk_in_year};
use crate::datetime::{
    Date, DateTime, InvalidDateError, InvalidDateTimeError, InvalidTimeError, InvalidWaitError,
    RawDate, RawTime, Time, WaitTarget,
};
use crate::expression::{
    Expression, Keyword, Phrase, StepView, Unit, cut_phrase, cut_steps, date_phrase, phrase_of,
    steps_view,
};
use vstd::prelude::*;

verus! {

/// Why a text could not be turned into a moment.
#[derive(Clone, Copy, Debug, Eq, PartialEq, Structural)]
pub enum ParseDateTimeError {
    /// The date does not exist in the calendar, or lies beyond the years
    /// that 64 bits can number.
    InvalidDate(InvalidDateError),
    /// The time does not exist in the calendar.
    InvalidTime(InvalidTimeError),
    /// The wait could not be made.
    InvalidWait(InvalidWaitError),
    /// A step of a relative duration has an amount that does not fit in 32
    /// bits.
    InvalidDuration,
    /// The text is no phrase of the language.
    InvalidFormat,
    /// The phrase is relative to a moment, and none was given.
    NoRelativeReferencePoint,
}

/// The number `n` as 32 bits hold it: itself, or the largest number of 32
/// bits where it is larger.
pub open spec fn clip(n: nat) -> u32 {
    if n > u32::MAX {
        u32::MAX
    } else {
        n as u32
    }
}

/// What is wrong with the date written as `year`, `month` and `day`, the
/// month and the day counting from one, where anything is. The month and
/// the day are looked at as `Date::ymd_error` looks at them, and the number
/// in the error is the one written, or the largest number of 32 bits where
/// more is written. A date whose month and day exist is wrong where its year
/// does not fit in 64 bits.
pub open spec fn written_date_error(year: nat, month: nat, day: nat, calendar: &Calendar) -> Option<
    InvalidDateError,
> {
    if month == 0 {
        Some(InvalidDateError::MonthOutOfBounds(0))
    } else if day == 0 {
        Some(InvalidDateError::DayOutOfBounds(0))
    } else if month > calendar.month_lengths().len() {
        Some(InvalidDateError::MonthOutOfBounds(clip(month)))
    } else if day > calendar.month_lengths()[month - 1] {
        Some(InvalidDateError::DayOutOfBounds(clip(day)))
    } else if year > i64::MAX {
        Some(InvalidDateError::YearOutOfBounds)
    } else {
        None
    }
}

/// The moment reached from `start` by taking `steps` one after the other,
/// each from the moment that the one before it reached. The first step
/// that cannot be taken is the error: `InvalidDuration` where its amount
/// does not fit in 32 bits, else `InvalidDate` where it leads beyond the
/// years that 64 bits can number.
pub open spec fn after_steps<'a>(start: DateTime<'a>, steps: Seq<StepView>) -> Result<
    DateTime<'a>,
    ParseDateTimeError,
>
    decreases steps.len(),
{
    if steps.len() == 0 {
        Ok(start)
    } else if steps[0].amount > u32::MAX {
        Err(ParseDateTimeError::InvalidDuration)
    } else if start.can_advance(steps[0].amount, steps[0].unit) {
        after_steps(start.after(steps[0].amount, steps[0].unit), steps.drop_first())
    } else {
        Err(ParseDateTimeError::InvalidDate(InvalidDateError::YearOutOfBounds))
    }
}

/// Amounts beyond 64 bits are taken like the largest amount of 64 bits.
pub proof fn lemma_cut_steps<'a>(start: DateTime<'a>, steps: Seq<StepView>)
    ensures
        after_steps(start, cut_steps(steps)) == after_steps(start, steps),
    decreases steps.len(),
{
    if steps.len() > 0 {
        assert(cut_steps(steps).drop_first() =~= cut_steps(steps.drop_first()));
        if steps[0].amount <= u32::MAX && start.can_advance(steps[0].amount, steps[0].unit) {
            lemma_cut_steps(start.after(steps[0].amount, steps[0].unit), steps.drop_first());
        }
    }
}

/// The moment that lies `hours` hours after `start`, or the error that says
/// that its year does not fit in 64 bits.
pub open spec fn after_rest<'a>(start: DateTime<'a>, hours: nat) -> Result<
    DateTime<'a>,
    ParseDateTimeError,
> {
    if start.can_advance(hours, Unit::Hour) {
        Ok(start.after(hours, Unit::Hour))
    } else {
        Err(ParseDateTimeError::InvalidDate(InvalidDateError::YearOutOfBounds))
    }
}

/// What waiting from `start` for `target` gives, as the answer of a parse.
pub open spec fn after_wait<'a>(start: DateTime<'a>, target: WaitTarget) -> Result<
    DateTime<'a>,
    ParseDateTimeError,
> {
    match start.spec_wait_until(target) {
        Ok(moment) => Ok(moment),
        Err(e) => Err(ParseDateTimeError::InvalidWait(e)),
    }
}

impl Calendar {
    /// What a phrase means in this calendar, relative to a moment.
    ///
    /// An absolute date is midnight of that date, where the date exists,
    /// whatever the reference. Every other phrase needs the reference, and
    /// is `NoRelativeReferencePoint` without one, whatever its numbers are.
    /// `long rest` is eight hours later and `short rest` four; `midday` and
    /// `midnight` wait for the next one. The steps of a relative duration
    /// are taken in order, each from where the one before it led. A clock
    /// time waits for the next time the clock shows that hour; an hour
    /// beyond 32 bits is out of bounds like the largest hour of 32 bits.
    pub open spec fn spec_evaluate<'a>(
        &'a self,
        phrase: Phrase,
        reference: Option<DateTime<'a>>,
    ) -> Result<DateTime<'a>, ParseDateTimeError> {
        match phrase {
            Phrase::AbsoluteDate { year, month, day } => match written_date_error(
                year,
                month,
                day,
                self,
            ) {
                Some(e) => Err(ParseDateTimeError::InvalidDate(e)),
                None => Ok(
                    DateTime {
                        date: Date {
                            date: RawDate {
                                year: year as i64,
                                month: (month - 1) as u32,
                                day: (day - 1) as u32,
                            },
                            calendar: self,
                        },
                        time: Time {
                            time: RawTime { hour: 0, minute: 0, second: 0 },
                            calendar: self,
                        },
                    },
                ),
            },
            Phrase::Keyword(keyword) => match reference {
                None => Err(ParseDateTimeError::NoRelativeReferencePoint),
                Some(start) => match keyword {
                    Keyword::LongRest => after_rest(start, 8),
                    Keyword::ShortRest => after_rest(start, 4),
                    Keyword::Midday => after_wait(start, WaitTarget::Midday),
                    Keyword::Midnight => after_wait(start, WaitTarget::Midnight),
                },
            },
            Phrase::Relative(steps) => match reference {
                None => Err(ParseDateTimeError::NoRelativeReferencePoint),
                Some(start) => after_steps(start, steps),
            },
            Phrase::ClockTime { hour, format } => match reference {
                None => Err(ParseDateTimeError::NoRelativeReferencePoint),
                Some(start) => match Time::spec_from_hms(clip(hour), 0, 0, self, format) {
                    Ok(time) => after_wait(start, WaitTarget::Time(time)),
                    Err(e) => Err(ParseDateTimeError::InvalidTime(e)),
                },
            },
        }
    }

    /// Numbers beyond 64 bits mean what the largest number of 64 bits means.
    pub proof fn lemma_cut_means_the_same<'a>(
        &'a self,
        phrase: Phrase,
        reference: Option<DateTime<'a>>,
    )
        requires
            self.wf(),
        ensures
            self.spec_evaluate(cut_phrase(phrase), reference) == self.spec_evaluate(
                phrase,
                reference,
            ),
    {
        let lengths = self.month_lengths();
        match phrase {
            Phrase::AbsoluteDate { year, month, day } => {
                lemma_prefix_sum_grows(lengths, 0, lengths.len() as int);
                if 0 < month <= lengths.len() {
                    lemma_walk_in_year(lengths, month - 1, lengths[month - 1] - 1);
                }
            },
            Phrase::Relative(steps) => {
                if let Some(start) = reference {
                    lemma_cut_steps(start, steps);
                }
            },
            _ => {},
        }
    }

    /// Evaluates a time expression in this calendar, relative to a moment.
    pub fn evaluate<'a>(&'a self, expression: &Expression, relative_to: Option<DateTime<'a>>) -> (r:
        Result<DateTime<'a>, ParseDateTimeError>)
        requires
            relative_to matches Some(start) ==> start.wf(),
        ensures
            r == self.spec_evaluate(expression@, relative_to),
            r matches Ok(moment) ==> moment.wf(),
    {
        if let Expression::AbsoluteDate { year, month, day } = expression {
            return self.evaluate_date(*year, *month, *day);
        }
        let start = match relative_to {
            Some(start) => start,
            None => {
                return Err(ParseDateTimeError::NoRelativeReferencePoint);
            },
        };
        match expression {
            Expression::AbsoluteDate { .. } => vstd::pervasive::unreached(),
            Expression::Keyword(Keyword::LongRest) => rest(start, 8),
            Expression::Keyword(Keyword::ShortRest) => rest(start, 4),
            Expression::Keyword(Keyword::Midday) => wait(start, WaitTarget::Midday),
            Expression::Keyword(Keyword::Midnight) => wait(start, WaitTarget::Midnight),
            Expression::Relative(steps) => {
                let mut moment = start;
                let mut i: usize = 0;
                let ghost all = steps_view(steps@);
                assert(all.subrange(0, all.len() as int) =~= all);
                while i < steps.len()
                    invariant
                        0 <= i <= steps.len(),
                        expression@ == Phrase::Relative(all),
                        all == steps_view(steps@),
                        relative_to == Some(start),
                        moment.wf(),
                        after_steps(start, all) == after_steps(
                            moment,
                            all.subrange(i as int, all.len() as int),
                        ),
                    decreases steps.len() - i,
                {
                    let step = steps[i];
                    proof {
                        let coming = all.subrange(i as int, all.len() as int);
                        assert(coming.len() > 0);
                        assert(coming[0] == step@);
                        assert(coming.drop_first() =~= all.subrange(i + 1, all.len() as int));
                        assert(after_steps(moment, coming) == if step.amount > u32::MAX {
                            Err(ParseDateTimeError::InvalidDuration)
                        } else if moment.can_advance(step.amount as nat, step.unit) {
                            after_steps(
                                moment.after(step.amount as nat, step.unit),
                                coming.drop_first(),
                            )
                        } else {
                            Err(ParseDateTimeError::InvalidDate(InvalidDateError::YearOutOfBounds))
                        });
                    }
                    if step.amount > u32::MAX as u64 {
                        return Err(ParseDateTimeError::InvalidDuration);
                    }
                    moment = match moment.advance(step.amount as u32, step.unit) {
                        Some(next) => next,
                        None => {
                            return Err(
                                ParseDateTimeError::InvalidDate(
                                    InvalidDateError::YearOutOfBounds,
                                ),
                            );
                        },
                    };
                    i = i + 1;
                }
                Ok(moment)
            },
            Expression::ClockTime { hour, format } => {
                let hour: u32 = if *hour > u32::MAX as u64 {
                    u32::MAX
                } else {
                    *hour as u32
                };
                match Time::from_hms(hour, 0, 0, self, *format) {
                    Ok(time) => wait(start, WaitTarget::Time(time)),
                    Err(e) => Err(ParseDateTimeError::InvalidTime(e)),
                }
            },
        }
    }

    /// Midnight of the date written as `year`, `month` and `day`, or what is
    /// wrong with that date.
    fn evaluate_date<'a>(&'a self, year: u64, month: u64, day: u64) -> (r: Result<
        DateTime<'a>,
        ParseDateTimeError,
    >)
        ensures
            r == self.spec_evaluate(
                Phrase::AbsoluteDate { year: year as nat, month: month as nat, day: day as nat },
                None,
            ),
            r matches Ok(moment) ==> moment.wf(),
    {
        proof {
            use_type_invariant(self);
            let lengths = self.month_lengths();
            lemma_prefix_sum_grows(lengths, 0, lengths.len() as int);
            if 0 < month <= lengths.len() {
                lemma_walk_in_year(lengths, month - 1, lengths[month - 1] - 1);
            }
        }
        if month == 0 {
            return Err(ParseDateTimeError::InvalidDate(InvalidDateError::MonthOutOfBounds(0)));
        }
        if day == 0 {
            return Err(ParseDateTimeError::InvalidDate(InvalidDateError::DayOutOfBounds(0)));
        }
        if month > u32::MAX as u64 {
            return Err(
                ParseDateTimeError::InvalidDate(InvalidDateError::MonthOutOfBounds(u32::MAX)),
            );
        }
        if day > u32::MAX as u64 {
            // The month is looked at before the day: the first day tells
            // whether the month exists.
            return match Date::from_ymd(0, month as u32, 1, self) {
                Ok(_) => Err(
                    ParseDateTimeError::InvalidDate(InvalidDateError::DayOutOfBounds(u32::MAX)),
                ),
                Err(e) => Err(ParseDateTimeError::InvalidDate(e)),
            };
        }
        let first: i64 = if year > i64::MAX as u64 {
            0
        } else {
            year as i64
        };
        match DateTime::from_date(first, month as u32, day as u32, self) {
            Ok(moment) => if year > i64::MAX as u64 {
                Err(ParseDateTimeError::InvalidDate(InvalidDateError::YearOutOfBounds))
            } else {
                Ok(moment)
            },
            Err(InvalidDateTimeError::InvalidDate(e)) => Err(ParseDateTimeError::InvalidDate(e)),
            Err(InvalidDateTimeError::InvalidTime(e)) => Err(ParseDateTimeError::InvalidTime(e)),
        }
    }

    /// Parses human times such as `1d8h43m` into moments according to the
    /// rules of the calendar.
    ///
    /// - `1101-02-12`: some specific date
    /// - `8am`, `2pm`: the next time the clock shows that hour
    /// - `1y32mo6d3s`: relative from some time
    /// - `long rest`: exactly 8 hours
    /// - `short rest`: exactly 4 hours
    /// - `midday`, `midnight`: the next one
    ///
    /// A text that is no such phrase is an `InvalidFormat`, with or without
    /// a reference. A phrase is one whatever the size of its numbers: what
    /// it means is told from the numbers as they are written.
    pub fn parse<'a>(&'a self, date_string: &str, relative_to: Option<DateTime<'a>>) -> (r: Result<
        DateTime<'a>,
        ParseDateTimeError,
    >)
        requires
            relative_to matches Some(start) ==> start.wf(),
        ensures
            r == match phrase_of(date_string@) {
                Some(phrase) => self.spec_evaluate(phrase, relative_to),
                None => Err(ParseDateTimeError::InvalidFormat),
            },
            r matches Ok(moment) ==> moment.wf(),
            relative_to is None && date_phrase(date_string@) is None ==> r == Err::<DateTime, _>(
                if phrase_of(date_string@) is Some {
                    ParseDateTimeError::NoRelativeReferencePoint
                } else {
                    ParseDateTimeError::InvalidFormat
                },
            ),
    {
        match Expression::parse(date_string) {
            Some(expression) => {
                proof {
                    use_type_invariant(self);
                    self.lemma_cut_means_the_same(
                        phrase_of(date_string@).unwrap(),
                        relative_to,
                    );
                }
                self.evaluate(&expression, relative_to)
            },
            None => Err(ParseDateTimeError::InvalidFormat),
        }
    }
}

/// Moves `start` on by a rest of `hours` hours.
fn rest<'a>(start: DateTime<'a>, hours: u32) -> (r: Result<DateTime<'a>, ParseDateTimeError>)
    requires
        start.wf(),
    ensures
        r == after_rest(start, hours as nat),
        r matches Ok(moment) ==> moment.wf(),
{
    match start.advance(hours, Unit::Hour) {
        Some(moment) => Ok(moment),
        None => Err(ParseDateTimeError::InvalidDate(InvalidDateError::YearOutOfBounds)),
    }
}

/// Waits from `start` for `target`.
fn wait<'a>(start: DateTime<'a>, target: WaitTarget) -> (r: Result<
    DateTime<'a>,
    ParseDateTimeError,
>)
    requires
        start.wf(),
    ensures
        r == after_wait(start, target),
        r matches Ok(moment) ==> moment.wf(),
{
    match start.wait_until(target) {
        Ok(moment) => Ok(moment),
        Err(e) => Err(ParseDateTimeError::InvalidWait(e)),
    }
}

} // verus!
