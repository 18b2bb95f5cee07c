//! A general-purpose flexible calendar: the description of a world's year,
//! week, day and eras. There are no leap years and no leap seconds.

pub mod calendar;
pub mod day;
pub mod era;
pub mod parse;
pub mod traits;
pub mod validate;
pub mod week;
pub mod year;

pub use calendar::{Calendar, CalendarError};
pub use day::Day;
pub use era::{Era, Eras};
pub use parse::ParseDateTimeError;
pub use week::{Week, WeekDay};
pub use year::{Month, Year};
