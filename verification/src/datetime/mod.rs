//! General-purpose flexible dates and times in arbitrary calendars.

pub mod convert;
pub mod date;
pub mod datetime;
pub mod format;
pub mod model;
pub mod time;
pub mod time_of_day;
pub mod traits;
pub mod wait;

pub use date::{Date, InvalidDateError, RawDate};
pub use datetime::{DateTime, InvalidDateTimeError, RawDateTime};
pub use time::{InvalidTimeError, RawTime, Time, TimeFormat};
pub use time_of_day::TimeOfDay;
pub use wait::{InvalidWaitError, WaitTarget};
