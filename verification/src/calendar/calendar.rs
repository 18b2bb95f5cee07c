//! The calendar: a year, a week, a day and a list of eras, checked once when
//! it is put together.

use super::day::Day;
use super::era::{are_default_eras, era_of_year, year_in_its_era, Era, Eras};
use super::traits::{ConvertDate, ConvertTime, DayCycle, DayLengths, WeekCycle, YearCycle};
use super::week::{Week, WeekDay};
use super::year::{Month, Year};
use crate::cycle::{all_positive, lemma_prefix_sum_grows, lemma_walk, prefix_sum, total, walk};
use vstd::prelude::*;

verus! {

/// Why a year, a week and a day do not make a calendar.
#[derive(Clone, Copy, Debug, Eq, PartialEq, Structural)]
pub enum CalendarError {
    /// The year has no months.
    NoMonths,
    /// The month at this place in the year has no days.
    EmptyMonth(usize),
    /// The days of the year do not fit in 32 bits.
    TooManyDays,
    /// The week has no days.
    NoWeekDays,
    /// The days of the week do not fit in 32 bits.
    TooManyWeekDays,
    /// A length of the day cycle is zero, or the seconds of a day do not fit
    /// in 32 bits.
    InvalidDay,
}

/// A calendar provides a frame of reference for dates and times. It defines
/// what a day, a week and a month are. Once made it never changes.
#[derive(Debug, Eq, PartialEq)]
pub struct Calendar {
    year: Year,
    week: Week,
    day: Day,
    eras: Eras,
}

impl Clone for Calendar {
    fn clone(&self) -> (r: Self)
        ensures
            r.spec_months() == self.spec_months(),
            r.spec_week_days() == self.spec_week_days(),
            r.spec_eras() == self.spec_eras(),
            r.day_lengths() == self.day_lengths(),
            r.wf(),
    {
        proof {
            use_type_invariant(self);
        }
        let year = self.year.clone();
        let week = self.week.clone();
        let eras = self.eras.clone();
        let copy = Calendar { year, week, day: self.day, eras };
        assert(copy.month_lengths() =~= self.month_lengths());
        copy
    }
}

/// A year of these month lengths can stand in a calendar: it has a month,
/// every month has a day, and its days fit in 32 bits.
pub open spec fn year_is_valid(lengths: Seq<nat>) -> bool {
    &&& lengths.len() > 0
    &&& all_positive(lengths)
    &&& total(lengths) <= u32::MAX
}

/// The place of the first entry of `lengths`, from place `from` on, that is
/// zero.
pub open spec fn first_empty(lengths: Seq<nat>, from: int) -> Option<int>
    decreases lengths.len() - from,
{
    if from < 0 || from >= lengths.len() {
        None
    } else if lengths[from] == 0 {
        Some(from)
    } else {
        first_empty(lengths, from + 1)
    }
}

/// Where there is no first zero entry, every entry from `from` on is
/// positive; where there is one, it lies inside the sequence.
pub proof fn lemma_first_empty(lengths: Seq<nat>, from: int)
    requires
        0 <= from,
    ensures
        match first_empty(lengths, from) {
            Some(place) => from <= place < lengths.len() && lengths[place] == 0,
            None => forall|i: int| from <= i < lengths.len() ==> lengths[i] > 0,
        },
    decreases lengths.len() - from,
{
    if from < lengths.len() && lengths[from] != 0 {
        lemma_first_empty(lengths, from + 1);
    }
}

/// What is wrong with a year of these month lengths, a week of this many
/// days and a day of these lengths, where anything is. The year is looked at
/// first, then the week, then the day; of the year, that it has months,
/// then that each has days, then that the days fit in 32 bits.
pub open spec fn calendar_error(lengths: Seq<nat>, week_length: nat, day: DayLengths) -> Option<
    CalendarError,
> {
    if lengths.len() == 0 {
        Some(CalendarError::NoMonths)
    } else if first_empty(lengths, 0) is Some {
        Some(CalendarError::EmptyMonth(first_empty(lengths, 0).unwrap() as usize))
    } else if total(lengths) > u32::MAX {
        Some(CalendarError::TooManyDays)
    } else if week_length == 0 {
        Some(CalendarError::NoWeekDays)
    } else if week_length > u32::MAX {
        Some(CalendarError::TooManyWeekDays)
    } else if !day.wf() {
        Some(CalendarError::InvalidDay)
    } else {
        None
    }
}

/// A week of this many days can stand in a calendar.
pub open spec fn week_is_valid(length: nat) -> bool {
    0 < length <= u32::MAX
}

impl Calendar {
    /// The months, in order.
    pub closed spec fn spec_months(&self) -> Seq<Month> {
        self.year@
    }

    /// The week days, in order.
    pub closed spec fn spec_week_days(&self) -> Seq<WeekDay> {
        self.week@
    }

    /// The eras, in order of precedence.
    pub closed spec fn spec_eras(&self) -> Seq<Era> {
        self.eras@
    }

    /// The names of the months, in order.
    pub open spec fn month_names(&self) -> Seq<Seq<char>> {
        Seq::new(self.spec_months().len(), |i: int| self.spec_months()[i].name@)
    }

    /// The names of the week days, in order.
    pub open spec fn week_day_names(&self) -> Seq<Seq<char>> {
        Seq::new(self.spec_week_days().len(), |i: int| self.spec_week_days()[i].name@)
    }

    /// The number of days in a year.
    pub open spec fn spec_days_in_year(&self) -> nat {
        total(self.month_lengths())
    }

    /// The number of seconds in a day.
    pub open spec fn spec_seconds_in_day(&self) -> nat {
        self.day_lengths().seconds_in_day()
    }

    /// This is the default calendar: twelve months named as on Earth that
    /// hold 365 days between them, seven week days from Monday to Sunday,
    /// twenty-four hours of sixty minutes of sixty seconds, and the two
    /// default eras.
    pub open spec fn is_default(&self) -> bool {
        &&& self.month_lengths() == seq![
            31nat,
            28nat,
            31nat,
            30nat,
            31nat,
            30nat,
            31nat,
            31nat,
            30nat,
            31nat,
            30nat,
            31nat,
        ]
        &&& self.week_length() == 7
        &&& self.day_lengths() == (DayLengths {
            seconds_in_minute: 60,
            minutes_in_hour: 60,
            hours_in_day: 24,
        })
        &&& self.month_names() == seq![
            "January"@,
            "February"@,
            "March"@,
            "April"@,
            "May"@,
            "June"@,
            "July"@,
            "August"@,
            "September"@,
            "October"@,
            "November"@,
            "December"@,
        ]
        &&& self.week_day_names() == seq![
            "Monday"@,
            "Tuesday"@,
            "Wednesday"@,
            "Thursday"@,
            "Friday"@,
            "Saturday"@,
            "Sunday"@,
        ]
        &&& are_default_eras(self.spec_eras())
    }

    /// What holds of every calendar: the year, the week and the day are
    /// valid. Executable code cannot hold a calendar of which this is false.
    #[verifier::type_invariant]
    pub open spec fn wf(&self) -> bool {
        &&& year_is_valid(self.month_lengths())
        &&& week_is_valid(self.week_length())
        &&& self.day_lengths().wf()
    }

    /// Creates a new calendar from a year, a week and a day, with the
    /// default eras. Fails where the parts do not make a calendar.
    pub fn new(year: Year, week: Week, day: Day) -> (r: Result<Self, CalendarError>)
        ensures
            match r {
                Ok(c) => {
                    &&& calendar_error(year.month_lengths(), week@.len(), day.day_lengths())
                        is None
                    &&& c.wf()
                    &&& c.spec_months() == year@
                    &&& c.spec_week_days() == week@
                    &&& c.day_lengths() == day.day_lengths()
                    &&& are_default_eras(c.spec_eras())
                },
                Err(e) => calendar_error(year.month_lengths(), week@.len(), day.day_lengths())
                    == Some(e),
            },
    {
        Self::with_eras(year, week, day, Eras::default())
    }

    /// Creates a new calendar from a year, a week, a day and a list of eras.
    /// Fails where the parts do not make a calendar.
    pub fn with_eras(year: Year, week: Week, day: Day, eras: Eras) -> (r: Result<
        Self,
        CalendarError,
    >)
        ensures
            match r {
                Ok(c) => {
                    &&& calendar_error(year.month_lengths(), week@.len(), day.day_lengths())
                        is None
                    &&& c.wf()
                    &&& c.spec_months() == year@
                    &&& c.spec_week_days() == week@
                    &&& c.day_lengths() == day.day_lengths()
                    &&& c.spec_eras() == eras@
                },
                Err(e) => calendar_error(year.month_lengths(), week@.len(), day.day_lengths())
                    == Some(e),
            },
    {
        let months = year.as_slice();
        let ghost lengths = year.month_lengths();
        if months.len() == 0 {
            return Err(CalendarError::NoMonths);
        }
        let mut i: usize = 0;
        while i < months.len()
            invariant
                0 <= i <= months.len(),
                months@ == year@,
                lengths == year.month_lengths(),
                first_empty(lengths, 0) == first_empty(lengths, i as int),
            decreases months.len() - i,
        {
            if months[i].days == 0 {
                return Err(CalendarError::EmptyMonth(i));
            }
            i = i + 1;
        }
        proof {
            lemma_first_empty(lengths, 0);
        }
        let mut sum: u64 = 0;
        let mut k: usize = 0;
        while k < months.len()
            invariant
                0 <= k <= months.len(),
                months@ == year@,
                lengths == year.month_lengths(),
                lengths.len() > 0,
                first_empty(lengths, 0) is None,
                all_positive(lengths),
                sum == prefix_sum(lengths, k as int),
                sum <= u32::MAX,
            decreases months.len() - k,
        {
            sum = sum + months[k].days as u64;
            k = k + 1;
            if sum > u32::MAX as u64 {
                proof {
                    lemma_prefix_sum_grows(lengths, k as int, lengths.len() as int);
                }
                return Err(CalendarError::TooManyDays);
            }
        }
        if week.len() == 0 {
            return Err(CalendarError::NoWeekDays);
        }
        if week.len() > u32::MAX as usize {
            return Err(CalendarError::TooManyWeekDays);
        }
        if !day.is_valid() {
            return Err(CalendarError::InvalidDay);
        }
        Ok(Calendar { year, week, day, eras })
    }

    /// Gets the list of months in this calendar.
    pub fn months(&self) -> (r: &[Month])
        ensures
            r@ == self.spec_months(),
    {
        self.year.as_slice()
    }

    /// Gets the list of week days in this calendar.
    pub fn week_days(&self) -> (r: &[WeekDay])
        ensures
            r@ == self.spec_week_days(),
    {
        self.week.as_slice()
    }

    /// Gets the era of `year`, a year counted from zero: the first era, in
    /// list order, that contains it, or `None` where no era does.
    pub fn era_of(&self, year: i64) -> (r: Option<&Era>)
        ensures
            match r {
                Some(era) => era_of_year(self.spec_eras(), year as int) == Some(*era),
                None => era_of_year(self.spec_eras(), year as int) is None,
            },
    {
        self.eras.era_of(year)
    }

    /// Gets `year`, a year counted from zero, as its era numbers it. The
    /// answer is `None` where no era contains the year, and where the number
    /// does not fit in 64 bits.
    pub fn year_in_era(&self, year: i64) -> (r: Option<i64>)
        ensures
            match r {
                Some(shown) => year_in_its_era(self.spec_eras(), year as int) == Some(
                    shown as int,
                ),
                None => match year_in_its_era(self.spec_eras(), year as int) {
                    Some(shown) => !(i64::MIN <= shown <= i64::MAX),
                    None => true,
                },
            },
    {
        self.eras.year_in_era(year)
    }

    /// Gets the list of eras in this calendar.
    pub fn eras(&self) -> (r: &[Era])
        ensures
            r@ == self.spec_eras(),
    {
        self.eras.as_slice()
    }
}

impl YearCycle for Calendar {
    open spec fn month_lengths(&self) -> Seq<nat> {
        Seq::new(self.spec_months().len(), |i: int| self.spec_months()[i].days as nat)
    }

    fn days_in_year(&self) -> (r: u32) {
        assert(self.month_lengths() =~= self.year.month_lengths());
        self.year.days_in_year()
    }

    fn months_in_year(&self) -> (r: u32) {
        self.year.months_in_year()
    }
}

impl WeekCycle for Calendar {
    open spec fn week_length(&self) -> nat {
        self.spec_week_days().len()
    }

    fn days_in_week(&self) -> (r: u32) {
        self.week.days_in_week()
    }
}

impl DayCycle for Calendar {
    closed spec fn day_lengths(&self) -> DayLengths {
        self.day.day_lengths()
    }

    fn hours_in_day(&self) -> (r: u32) {
        self.day.hours_in_day()
    }

    fn minutes_in_hour(&self) -> (r: u32) {
        self.day.minutes_in_hour()
    }

    fn seconds_in_minute(&self) -> (r: u32) {
        self.day.seconds_in_minute()
    }
}

impl ConvertDate for Calendar {
    fn months_to_seconds(&self, months: u32) -> (r: u32) {
        let all = self.months();
        let ghost lengths = self.month_lengths();
        let count: usize = if (months as usize) < all.len() {
            months as usize
        } else {
            all.len()
        };
        let mut days: u32 = 0;
        let mut i: usize = 0;
        while i < count
            invariant
                0 <= i <= count <= all.len(),
                all@ == self.spec_months(),
                lengths == self.month_lengths(),
                days == prefix_sum(lengths, i as int),
                total(lengths) <= u32::MAX,
            decreases count - i,
        {
            proof {
                lemma_prefix_sum_grows(lengths, i + 1, lengths.len() as int);
            }
            days = days + all[i].days;
            i = i + 1;
        }
        self.days_to_seconds(days)
    }

    fn years_to_seconds(&self, years: u32) -> (r: u32) {
        proof {
            use_type_invariant(self);
        }
        self.days_to_seconds(self.days_in_year()) * years
    }

    fn weeks_to_seconds(&self, weeks: u32) -> (r: u32) {
        proof {
            use_type_invariant(self);
        }
        self.days_to_seconds(weeks * self.days_in_week())
    }

    fn days_to_months(&self, days: u32) -> (r: (u32, u32)) {
        let all = self.months();
        let ghost lengths = self.month_lengths();
        let mut rem_days: u32 = days;
        let mut index: u32 = 0;
        let mut place: usize = 0;
        loop
            invariant
                all@ == self.spec_months(),
                lengths == self.month_lengths(),
                lengths.len() > 0,
                all_positive(lengths),
                place == index as int % (lengths.len() as int),
                place < all.len(),
                index + rem_days <= days,
                walk(lengths, 0, days as int) == walk(lengths, index as int, rem_days as int),
            decreases rem_days,
        {
            let month_days: u32 = all[place].days;
            if month_days <= rem_days {
                proof {
                    vstd::arithmetic::div_mod::lemma_add_mod_noop(
                        index as int,
                        1,
                        lengths.len() as int,
                    );
                    vstd::arithmetic::div_mod::lemma_mod_bound(
                        index as int + 1,
                        lengths.len() as int,
                    );
                    if place + 1 < lengths.len() {
                        vstd::arithmetic::div_mod::lemma_small_mod(
                            (place + 1) as nat,
                            lengths.len(),
                        );
                    } else {
                        vstd::arithmetic::div_mod::lemma_mod_self_0(lengths.len() as int);
                    }
                    if lengths.len() > 1 {
                        vstd::arithmetic::div_mod::lemma_small_mod(1, lengths.len());
                    } else {
                        vstd::arithmetic::div_mod::lemma_mod_self_0(1);
                    }
                }
                rem_days = rem_days - month_days;
                index = index + 1;
                place = if place + 1 < all.len() {
                    place + 1
                } else {
                    0
                };
            } else {
                proof {
                    lemma_walk(lengths, 0, days as int);
                }
                return (index, rem_days);
            }
        }
    }
}

impl Default for Calendar {
    /// A calendar that sort of matches Earth: twelve months and 365 days,
    /// seven week days, twenty-four hours of sixty minutes of sixty seconds,
    /// and the two default eras.
    fn default() -> (r: Self)
        ensures
            r.wf(),
            r.is_default(),
    {
        let year = Year::default();
        let week = Week::default();
        let day = Day::default();
        let eras = Eras::default();
        proof {
            reveal_with_fuel(prefix_sum, 13);
            assert(total(year.month_lengths()) == 365);
            assert(week.day_names().len() == 7);
            assert(60 * 60 * 24 == 86400) by (nonlinear_arith);
        }
        let calendar = Calendar { year, week, day, eras };
        assert(calendar.month_lengths() =~= year.month_lengths());
        assert(calendar.month_names() =~= year.month_names());
        assert(calendar.week_day_names() =~= week.day_names());
        calendar
    }
}

} // verus!
