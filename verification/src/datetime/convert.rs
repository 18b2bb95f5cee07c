//! Conversions between the values with a calendar and the raw ones, and
//! between the errors.

use super::date::{Date, InvalidDateError, RawDate};
use super::datetime::{DateTime, InvalidDateTimeError, RawDateTime};
use super::time::{InvalidTimeError, RawTime, Time};
use super::wait::InvalidWaitError;
use crate::calendar::ParseDateTimeError;
use vstd::prelude::*;
use vstd::std_specs::convert::FromSpecImpl;

verus! {

impl<'a> From<Date<'a>> for RawDate {
    fn from(val: Date<'a>) -> (r: Self) {
        val.date
    }
}

impl<'a> FromSpecImpl<Date<'a>> for RawDate {
    open spec fn obeys_from_spec() -> bool {
        true
    }

    open spec fn from_spec(val: Date<'a>) -> Self {
        val.date
    }
}

impl<'a> From<Time<'a>> for RawTime {
    fn from(val: Time<'a>) -> (r: Self) {
        val.time
    }
}

impl<'a> FromSpecImpl<Time<'a>> for RawTime {
    open spec fn obeys_from_spec() -> bool {
        true
    }

    open spec fn from_spec(val: Time<'a>) -> Self {
        val.time
    }
}

impl<'a> From<DateTime<'a>> for RawDateTime {
    fn from(val: DateTime<'a>) -> (r: Self) {
        RawDateTime { date: val.date.date, time: val.time.time }
    }
}

impl<'a> FromSpecImpl<DateTime<'a>> for RawDateTime {
    open spec fn obeys_from_spec() -> bool {
        true
    }

    open spec fn from_spec(val: DateTime<'a>) -> Self {
        RawDateTime { date: val.date.date, time: val.time.time }
    }
}

impl From<InvalidDateError> for InvalidDateTimeError {
    fn from(val: InvalidDateError) -> (r: Self) {
        InvalidDateTimeError::InvalidDate(val)
    }
}

impl FromSpecImpl<InvalidDateError> for InvalidDateTimeError {
    open spec fn obeys_from_spec() -> bool {
        true
    }

    open spec fn from_spec(val: InvalidDateError) -> Self {
        InvalidDateTimeError::InvalidDate(val)
    }
}

impl From<InvalidTimeError> for InvalidDateTimeError {
    fn from(val: InvalidTimeError) -> (r: Self) {
        InvalidDateTimeError::InvalidTime(val)
    }
}

impl FromSpecImpl<InvalidTimeError> for InvalidDateTimeError {
    open spec fn obeys_from_spec() -> bool {
        true
    }

    open spec fn from_spec(val: InvalidTimeError) -> Self {
        InvalidDateTimeError::InvalidTime(val)
    }
}

impl From<InvalidTimeError> for InvalidWaitError {
    fn from(val: InvalidTimeError) -> (r: Self) {
        InvalidWaitError::InvalidTime(val)
    }
}

impl FromSpecImpl<InvalidTimeError> for InvalidWaitError {
    open spec fn obeys_from_spec() -> bool {
        true
    }

    open spec fn from_spec(val: InvalidTimeError) -> Self {
        InvalidWaitError::InvalidTime(val)
    }
}

impl From<InvalidDateError> for InvalidWaitError {
    fn from(val: InvalidDateError) -> (r: Self) {
        InvalidWaitError::InvalidDate(val)
    }
}

impl FromSpecImpl<InvalidDateError> for InvalidWaitError {
    open spec fn obeys_from_spec() -> bool {
        true
    }

    open spec fn from_spec(val: InvalidDateError) -> Self {
        InvalidWaitError::InvalidDate(val)
    }
}

impl From<InvalidDateError> for ParseDateTimeError {
    fn from(val: InvalidDateError) -> (r: Self) {
        ParseDateTimeError::InvalidDate(val)
    }
}

impl FromSpecImpl<InvalidDateError> for ParseDateTimeError {
    open spec fn obeys_from_spec() -> bool {
        true
    }

    open spec fn from_spec(val: InvalidDateError) -> Self {
        ParseDateTimeError::InvalidDate(val)
    }
}

impl From<InvalidTimeError> for ParseDateTimeError {
    fn from(val: InvalidTimeError) -> (r: Self) {
        ParseDateTimeError::InvalidTime(val)
    }
}

impl FromSpecImpl<InvalidTimeError> for ParseDateTimeError {
    open spec fn obeys_from_spec() -> bool {
        true
    }

    open spec fn from_spec(val: InvalidTimeError) -> Self {
        ParseDateTimeError::InvalidTime(val)
    }
}

impl From<InvalidWaitError> for ParseDateTimeError {
    fn from(val: InvalidWaitError) -> (r: Self) {
        ParseDateTimeError::InvalidWait(val)
    }
}

impl FromSpecImpl<InvalidWaitError> for ParseDateTimeError {
    open spec fn obeys_from_spec() -> bool {
        true
    }

    open spec fn from_spec(val: InvalidWaitError) -> Self {
        ParseDateTimeError::InvalidWait(val)
    }
}

impl From<InvalidDateTimeError> for ParseDateTimeError {
    fn from(val: InvalidDateTimeError) -> (r: Self) {
        match val {
            InvalidDateTimeError::InvalidDate(d) => ParseDateTimeError::InvalidDate(d),
            InvalidDateTimeError::InvalidTime(t) => ParseDateTimeError::InvalidTime(t),
        }
    }
}

impl FromSpecImpl<InvalidDateTimeError> for ParseDateTimeError {
    open spec fn obeys_from_spec() -> bool {
        true
    }

    open spec fn from_spec(val: InvalidDateTimeError) -> Self {
        match val {
            InvalidDateTimeError::InvalidDate(d) => ParseDateTimeError::InvalidDate(d),
            InvalidDateTimeError::InvalidTime(t) => ParseDateTimeError::InvalidTime(t),
        }
    }
}

} // verus!
