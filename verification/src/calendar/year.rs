//! The year cycle: an ordered list of months.

use super::traits::YearCycle;
use crate::cycle::{lemma_prefix_sum_grows, prefix_sum, total};
use vstd::prelude::*;

verus! {

/// A month with an arbitrary number of days.
#[derive(Debug, Eq, PartialEq)]
pub struct Month {
    /// The name of the month.
    pub name: String,
    /// The days in the month.
    pub days: u32,
}

impl Month {
    /// Creates a month of the given name and length.
    pub fn new(name: &str, days: u32) -> (r: Self)
        ensures
            r.name@ == name@,
            r.days == days,
    {
        Month { name: String::from_str(name), days }
    }
}

impl Clone for Month {
    fn clone(&self) -> (r: Self)
        ensures
            r == *self,
    {
        Month { name: self.name.clone(), days: self.days }
    }
}

/// Represents a year in the calendar.
#[derive(Debug, Eq, PartialEq)]
pub struct Year(Vec<Month>);

impl Clone for Year {
    fn clone(&self) -> (r: Self)
        ensures
            r@ == self@,
    {
        let mut months: Vec<Month> = Vec::new();
        let mut i: usize = 0;
        while i < self.0.len()
            invariant
                0 <= i <= self.0.len(),
                months@ == self.0@.take(i as int),
            decreases self.0.len() - i,
        {
            months.push(self.0[i].clone());
            i = i + 1;
            assert(months@ =~= self.0@.take(i as int));
        }
        assert(months@ =~= self.0@);
        Year(months)
    }
}

impl View for Year {
    type V = Seq<Month>;

    closed spec fn view(&self) -> Seq<Month> {
        self.0@
    }
}

impl Year {
    /// The names of the months, in order.
    pub open spec fn month_names(&self) -> Seq<Seq<char>> {
        Seq::new(self@.len(), |i: int| self@[i].name@)
    }

    /// Creates a year from its months, in order.
    pub fn new(months: Vec<Month>) -> (r: Self)
        ensures
            r@ == months@,
    {
        Year(months)
    }

    /// Iterate over the months in the year. The iterator gives them out in order.
    pub fn iter(&self) -> (r: std::slice::Iter<'_, Month>)
        ensures
            vstd::std_specs::slice::into_iter_elts(r) == self@,
    {
        broadcast use vstd::std_specs::slice::axiom_spec_slice_iter;

        let r = self.0.as_slice().iter();
        assert(self@.as_ref().unref() =~= self@);
        r
    }

    /// Gets a slice of the months in order.
    pub fn as_slice(&self) -> (r: &[Month])
        ensures
            r@ == self@,
    {
        self.0.as_slice()
    }

    /// Gets the number of months as a machine word.
    pub fn len(&self) -> (r: usize)
        ensures
            r == self@.len(),
    {
        self.0.len()
    }
}

impl YearCycle for Year {
    open spec fn month_lengths(&self) -> Seq<nat> {
        Seq::new(self@.len(), |i: int| self@[i].days as nat)
    }

    fn days_in_year(&self) -> (r: u32) {
        let ghost lengths = self.month_lengths();
        let mut sum: u32 = 0;
        let mut i: usize = 0;
        while i < self.0.len()
            invariant
                0 <= i <= self.0.len(),
                lengths == self.month_lengths(),
                lengths.len() == self.0.len(),
                sum == prefix_sum(lengths, i as int),
                total(lengths) <= u32::MAX,
            decreases self.0.len() - i,
        {
            proof {
                lemma_prefix_sum_grows(lengths, i + 1, lengths.len() as int);
            }
            sum = sum + self.0[i].days;
            i = i + 1;
        }
        sum
    }

    fn months_in_year(&self) -> (r: u32) {
        self.0.len() as u32
    }
}

impl Default for Year {
    /// A year of twelve months and 365 days, named as on Earth.
    fn default() -> (r: Self)
        ensures
            r.month_lengths() == seq![
                31nat,
                28nat,
                31nat,
                30nat,
                31nat,
                30nat,
                31nat,
                31nat,
                30nat,
                31nat,
                30nat,
                31nat,
            ],
            r.month_names() == seq![
                "January"@,
                "February"@,
                "March"@,
                "April"@,
                "May"@,
                "June"@,
                "July"@,
                "August"@,
                "September"@,
                "October"@,
                "November"@,
                "December"@,
            ],
    {
        let mut months: Vec<Month> = Vec::new();
        months.push(Month::new("January", 31));
        months.push(Month::new("February", 28));
        months.push(Month::new("March", 31));
        months.push(Month::new("April", 30));
        months.push(Month::new("May", 31));
        months.push(Month::new("June", 30));
        months.push(Month::new("July", 31));
        months.push(Month::new("August", 31));
        months.push(Month::new("September", 30));
        months.push(Month::new("October", 31));
        months.push(Month::new("November", 30));
        months.push(Month::new("December", 31));
        let year = Year(months);
        assert(year.month_lengths() =~= seq![
            31nat,
            28nat,
            31nat,
            30nat,
            31nat,
            30nat,
            31nat,
            31nat,
            30nat,
            31nat,
            30nat,
            31nat,
        ]);
        assert(year.month_names() =~= seq![
            "January"@,
            "February"@,
            "March"@,
            "April"@,
            "May"@,
            "June"@,
            "July"@,
            "August"@,
            "September"@,
            "October"@,
            "November"@,
            "December"@,
        ]);
        year
    }
}

} // verus!
