//! The time of a world: stepping forward, jumping away, and returning.

use super::{World, WorldError};
use crate::calendar::{Calendar, ParseDateTimeError};
use crate::calendar::parse::after_steps;
use crate::datetime::DateTime;
use crate::expression::{Phrase, StepView, phrase_of};
use vstd::prelude::*;

verus! {

/// The moment that a time expression leads to lies in the calendar of the
/// reference, where the reference lies in the calendar that reads the
/// expression.
pub proof fn lemma_results_stay_in_the_calendar(
    calendar: &Calendar,
    expr: Seq<char>,
    reference: DateTime,
)
    requires
        reference.date.calendar == calendar,
        reference.time.calendar == calendar,
    ensures
        match phrase_of(expr) {
            Some(phrase) => calendar.spec_evaluate(phrase, Some(reference)) matches Ok(moment)
                ==> moment.date.calendar == calendar && moment.time.calendar == calendar,
            None => true,
        },
{
    match phrase_of(expr) {
        Some(Phrase::Relative(steps)) => {
            lemma_steps_stay_in_the_calendar(reference, steps);
        },
        _ => {},
    }
}

/// Steps lead to moments of the calendar of their start.
pub proof fn lemma_steps_stay_in_the_calendar(start: DateTime, steps: Seq<StepView>)
    requires
        start.date.calendar == start.time.calendar,
    ensures
        after_steps(start, steps) matches Ok(moment)
            ==> moment.date.calendar == start.date.calendar && moment.time.calendar
            == start.date.calendar,
    decreases steps.len(),
{
    if steps.len() > 0 && steps[0].amount <= u32::MAX && start.can_advance(
        steps[0].amount,
        steps[0].unit,
    ) {
        lemma_steps_stay_in_the_calendar(
            start.after(steps[0].amount, steps[0].unit),
            steps.drop_first(),
        );
    }
}

impl World {
    /// The moment that a time expression leads to from the present time of
    /// the world.
    pub open spec fn moment_of(&self, expr: Seq<char>) -> Result<DateTime<'_>, ParseDateTimeError> {
        match phrase_of(expr) {
            Some(phrase) => self.calendar.spec_evaluate(phrase, Some(self.now())),
            None => Err(ParseDateTimeError::InvalidFormat),
        }
    }

    /// Steps forward in time to the moment that a time expression leads to
    /// from the present. Fails, and changes nothing, where the expression
    /// cannot be turned into a moment and where the moment lies before the
    /// present.
    pub fn update_time(&mut self, expr: &str) -> (r: Result<(), WorldError>)
        requires
            old(self).wf(),
        ensures
            final(self).same_but_times(old(self)),
            final(self).canonical_time == old(self).canonical_time,
            match old(self).moment_of(expr@) {
                Ok(moment) => if moment.instant() < old(self).now().instant() {
                    r == Err::<(), WorldError>(WorldError::BackInTime) && final(self).time
                        == old(self).time
                } else {
                    r is Ok && final(self).time == moment.raw() && final(self).wf()
                },
                Err(e) => r == Err::<(), WorldError>(WorldError::Time(e)) && final(self).time
                    == old(self).time,
            },
    {
        let cal_time = self.time.into_datetime(&self.calendar);
        let new_time = match self.calendar.parse(expr, Some(cal_time)) {
            Ok(new_time) => new_time,
            Err(e) => {
                return Err(WorldError::Time(e));
            },
        };
        proof {
            lemma_results_stay_in_the_calendar(&self.calendar, expr@, cal_time);
        }
        if new_time.is_before(&cal_time) {
            return Err(WorldError::BackInTime);
        }
        let raw = new_time.to_raw();
        self.time = raw;
        Ok(())
    }

    /// Opens a rift to the moment that a time expression leads to from the
    /// present, which may lie in the past. The time that is left is kept as
    /// the canonical time, unless one is kept already. It is kept even where
    /// the expression cannot be turned into a moment; the present time then
    /// stays as it is.
    pub fn jump_time(&mut self, expr: &str) -> (r: Result<(), WorldError>)
        requires
            old(self).wf(),
        ensures
            final(self).same_but_times(old(self)),
            final(self).canonical_time == if old(self).canonical_time is None {
                Some(old(self).time)
            } else {
                old(self).canonical_time
            },
            match old(self).moment_of(expr@) {
                Ok(moment) => r is Ok && final(self).time == moment.raw() && final(self).wf(),
                Err(e) => r == Err::<(), WorldError>(WorldError::Time(e)) && final(self).time
                    == old(self).time,
            },
    {
        if self.canonical_time.is_none() {
            self.canonical_time = Some(self.time);
        }
        let cal_time = self.time.into_datetime(&self.calendar);
        let new_time = match self.calendar.parse(expr, Some(cal_time)) {
            Ok(new_time) => new_time,
            Err(e) => {
                return Err(WorldError::Time(e));
            },
        };
        proof {
            lemma_results_stay_in_the_calendar(&self.calendar, expr@, cal_time);
        }
        let raw = new_time.to_raw();
        self.time = raw;
        Ok(())
    }

    /// Returns to the canonical time. Fails, and changes nothing, where the
    /// world is in its canonical time already.
    pub fn return_time(&mut self) -> (r: Result<(), WorldError>)
        ensures
            final(self).same_but_times(old(self)),
            match old(self).canonical_time {
                Some(time) => r is Ok && final(self).time == time && final(self).canonical_time
                    is None,
                None => {
                    &&& r == Err::<(), WorldError>(WorldError::AlreadyCanonical)
                    &&& final(self).time == old(self).time
                    &&& final(self).canonical_time is None
                },
            },
    {
        match self.canonical_time {
            Some(time) => {
                self.time = time;
                self.canonical_time = None;
                Ok(())
            },
            None => Err(WorldError::AlreadyCanonical),
        }
    }
}

} // verus!
