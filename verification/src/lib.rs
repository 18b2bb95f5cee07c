//! A time engine for invented calendars: years of irregular months, weeks
//! and days of any length, named eras, and a small language of time
//! expressions. Every function carries a contract that Verus proves.

pub mod calendar;
pub mod character;
pub mod cycle;
pub mod datetime;
pub mod expression;
pub mod laws;
pub mod order;
pub mod outside;
pub mod record;
pub mod solar;
pub mod util;
pub mod world;
