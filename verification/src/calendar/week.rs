//! The week cycle: an ordered list of named days.

use super::traits::WeekCycle;
use vstd::prelude::*;

verus! {

/// Represents a week day in the calendar.
#[derive(Debug, Eq, PartialEq)]
pub struct WeekDay {
    /// The name of this day.
    pub name: String,
}

impl WeekDay {
    /// Creates a week day of the given name.
    pub fn new(name: &str) -> (r: Self)
        ensures
            r.name@ == name@,
    {
        WeekDay { name: String::from_str(name) }
    }
}

impl Clone for WeekDay {
    fn clone(&self) -> (r: Self)
        ensures
            r == *self,
    {
        WeekDay { name: self.name.clone() }
    }
}

/// Represents a week in the calendar.
#[derive(Debug, Eq, PartialEq)]
pub struct Week(Vec<WeekDay>);

impl Clone for Week {
    fn clone(&self) -> (r: Self)
        ensures
            r@ == self@,
    {
        let mut days: Vec<WeekDay> = Vec::new();
        let mut i: usize = 0;
        while i < self.0.len()
            invariant
                0 <= i <= self.0.len(),
                days@ == self.0@.take(i as int),
            decreases self.0.len() - i,
        {
            days.push(self.0[i].clone());
            i = i + 1;
            assert(days@ =~= self.0@.take(i as int));
        }
        assert(days@ =~= self.0@);
        Week(days)
    }
}

impl View for Week {
    type V = Seq<WeekDay>;

    closed spec fn view(&self) -> Seq<WeekDay> {
        self.0@
    }
}

impl Week {
    /// The names of the days, in order.
    pub open spec fn day_names(&self) -> Seq<Seq<char>> {
        Seq::new(self@.len(), |i: int| self@[i].name@)
    }

    /// Creates a week from its days, in order.
    pub fn new(days: Vec<WeekDay>) -> (r: Self)
        ensures
            r@ == days@,
    {
        Week(days)
    }

    /// Iterate over the days in the week. The iterator gives them out in order.
    pub fn iter(&self) -> (r: std::slice::Iter<'_, WeekDay>)
        ensures
            vstd::std_specs::slice::into_iter_elts(r) == self@,
    {
        broadcast use vstd::std_specs::slice::axiom_spec_slice_iter;

        let r = self.0.as_slice().iter();
        assert(self@.as_ref().unref() =~= self@);
        r
    }

    /// Gets a slice of the week days in this week.
    pub fn as_slice(&self) -> (r: &[WeekDay])
        ensures
            r@ == self@,
    {
        self.0.as_slice()
    }

    /// Gets the number of week days as a machine word.
    pub fn len(&self) -> (r: usize)
        ensures
            r == self@.len(),
    {
        self.0.len()
    }
}

impl WeekCycle for Week {
    open spec fn week_length(&self) -> nat {
        self@.len()
    }

    fn days_in_week(&self) -> (r: u32) {
        assert(self.0.len() == self@.len());
        assert(self.0.len() == self.week_length());
        self.0.len() as u32
    }
}

impl Default for Week {
    /// Seven days, Monday first.
    fn default() -> (r: Self)
        ensures
            r.day_names() == seq![
                "Monday"@,
                "Tuesday"@,
                "Wednesday"@,
                "Thursday"@,
                "Friday"@,
                "Saturday"@,
                "Sunday"@,
            ],
    {
        let mut days: Vec<WeekDay> = Vec::new();
        days.push(WeekDay::new("Monday"));
        days.push(WeekDay::new("Tuesday"));
        days.push(WeekDay::new("Wednesday"));
        days.push(WeekDay::new("Thursday"));
        days.push(WeekDay::new("Friday"));
        days.push(WeekDay::new("Saturday"));
        days.push(WeekDay::new("Sunday"));
        let week = Week(days);
        assert(week.day_names() =~= seq![
            "Monday"@,
            "Tuesday"@,
            "Wednesday"@,
            "Thursday"@,
            "Friday"@,
            "Saturday"@,
            "Sunday"@,
        ]);
        week
    }
}

} // verus!
